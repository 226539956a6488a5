//! VirtIO transports.

pub mod context_memory;
pub mod endpoint_laws;
pub mod interrupt;
pub mod interrupt_laws;
pub mod layout_laws;
pub mod mmio;
pub mod mmio_laws;
pub mod mmio_registers;
pub mod pci_capabilities;
pub mod pci_function;
pub mod pci_register_laws;
pub mod pci_registers;
pub mod pci_state;
pub mod pci_transport;
pub mod queue;
