//! Configuration resolution and boundary data model of a bridge between a
//! hypervisor's paravirtual device bus and out-of-process virtio backends.

pub mod error;
pub mod laws;
pub mod text;
pub mod types;
pub mod utils;
