//! Device models, transports and boot plans of a virtual machine monitor.

use vstd::prelude::*;

pub mod access;
pub mod bytes;
pub mod calls;
pub mod devices;
pub mod pci;
pub mod smp;
pub mod virtio;
pub mod x86;
