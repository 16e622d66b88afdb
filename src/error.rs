//! The failures of the frontend, from parsing through the device bus and the
//! operating system to the vhost-user runtime.
use vstd::prelude::*;

verus! {

/// `std::io::Error`, carried as it came from the operating system.
#[verifier::external_type_specification]
#[verifier::external_body]
pub struct ExIoError(std::io::Error);

/// `std::str::Utf8Error`, carried as a conversion reported it.
#[verifier::external_type_specification]
#[verifier::external_body]
pub struct ExUtf8Error(std::str::Utf8Error);

/// `std::num::ParseIntError`, carried as a conversion reported it.
#[verifier::external_type_specification]
#[verifier::external_body]
pub struct ExParseIntError(std::num::ParseIntError);

/// Result of the frontend's fallible operations.
pub type Result<T> = std::result::Result<T, Error>;

/// The one set of failure kinds of the frontend.
#[derive(Debug)]
pub enum Error {
    /// A frontend id that no frontend has.
    InvalidFrontendId(u16),
    /// An MMIO access to an address that the named register does not cover.
    InvalidMmioAddr(&'static str, u64),
    /// The guest asked for legacy MMIO, which is not supported.
    MmioLegacyNotSupported,
    /// The guest asked for an IOMMU platform, which is not supported.
    IommuPlatformNotSupported,
    /// A feature select value out of range.
    InvalidFeatureSel(u32),
    /// An MMIO access that is neither a read nor a write.
    InvalidMmioDir(u8),
    /// A device type that the frontend does not support.
    BaoDevNotSupported(String),
    /// A host ioctl failed: the error and the name of the call.
    BaoIoctlError(std::io::Error, &'static str),
    /// The vhost-user runtime failed; the description it gave.
    VhostFrontendError(String),
    /// The vhost-user runtime failed to activate a device; the description it gave.
    VhostFrontendActivateError(String),
    /// Bytes that are not valid UTF-8.
    InvalidString(std::str::Utf8Error),
    /// Text that is not an integer.
    ParseFailure(std::num::ParseIntError),
    /// The epoll context could not be created.
    EpollCreateFd(std::io::Error),
    /// The exit event could not be added to epoll.
    RegisterExitEvent(std::io::Error),
    /// Waiting on epoll failed.
    EpollWait(std::io::Error),
    /// The device bus is in a state that allows no such operation.
    BaoBusInvalidState,
    /// Writing to an eventfd to kick the backend failed.
    EventFdWriteFailed(std::io::Error),
    /// The named file descriptor could not be opened.
    OpenFdFailed(&'static str, std::io::Error),
    /// An I/O request whose direction is neither read nor write.
    InvalidIoReqDirection(u64),
    /// Handling an I/O event failed.
    HandleIoEventFailed,
    /// No device matches the request.
    DeviceNotFound,
    /// Guest memory could not be mapped.
    MmapGuestMemoryFailed,
}

} // verus!
