//! The structures exchanged with the kernel driver, and the configuration
//! tree of frontends, guests and devices.
use vstd::prelude::*;

verus! {

/// One trapped I/O access, exchanged by value across the ioctl boundary:
/// nine 64-bit fields in this order.
#[derive(Debug)]
pub struct BaoIoRequest {
    /// Virtio instance id.
    pub virtio_id: u64,
    /// Register offset.
    pub reg_off: u64,
    /// Address.
    pub addr: u64,
    /// Operation.
    pub op: u64,
    /// Value.
    pub value: u64,
    /// Access width.
    pub access_width: u64,
    /// Frontend CPU that made the request.
    pub cpu_id: u64,
    /// Frontend vCPU that made the request.
    pub vcpu_id: u64,
    /// Return value.
    pub ret: u64,
}

/// Registration of a kernel ioeventfd with datamatch.
pub struct BaoIoEventFd {
    /// File descriptor.
    pub fd: u32,
    /// Flags.
    pub flags: u32,
    /// Address.
    pub addr: u64,
    /// Length.
    pub len: u32,
    /// Reserved.
    pub reserved: u32,
    /// Datamatch value.
    pub data: u64,
}

/// Registration of a kernel irqfd.
pub struct BaoIrqFd {
    /// File descriptor.
    pub fd: i32,
    /// Flags.
    pub flags: u32,
}

/// One virtio device of a guest.
#[derive(Debug, PartialEq)]
pub struct ConfigDevice {
    /// Device name.
    pub name: String,
    /// Device id.
    pub id: u32,
    /// Device type, written `type` in the configuration file.
    pub device_type: String,
    /// Interrupt line.
    pub irq: u32,
    /// MMIO base address.
    pub addr: u64,
}

/// One guest of a frontend, with its RAM region and devices.
#[derive(Debug, PartialEq)]
pub struct ConfigGuest {
    /// Guest name.
    pub name: String,
    /// Guest id.
    pub id: u32,
    /// RAM address.
    pub ram_addr: u64,
    /// RAM size.
    pub ram_size: u64,
    /// Path of the shared memory.
    pub shmem_path: String,
    /// Path of the backend's control socket.
    pub socket_path: String,
    /// The guest's devices, in order.
    pub devices: Vec<ConfigDevice>,
}

/// One frontend and its guests.
#[derive(Debug, PartialEq)]
pub struct ConfigFrontend {
    /// Frontend name.
    pub name: String,
    /// Frontend id.
    pub id: u32,
    /// The frontend's guests, in order.
    pub guests: Vec<ConfigGuest>,
}

/// The whole configuration: every frontend, in order.
#[derive(Debug, PartialEq)]
pub struct ConfigFrontends {
    /// The frontends, in order.
    pub frontends: Vec<ConfigFrontend>,
}

} // verus!
