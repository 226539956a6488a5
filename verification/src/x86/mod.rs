//! x86 vCPU types, interrupt controllers and I/O exits.

pub mod acpi;
pub mod addr;
pub mod decode_laws;
pub mod exit;
pub mod frontend_laws;
pub mod pci_config;
pub mod pci_diagnostics;
pub mod port_laws;
pub mod types;
pub mod vpic;
pub mod vpic_laws;
