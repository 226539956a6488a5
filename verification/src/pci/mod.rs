//! Architecture-neutral conventional PCI topology, root state and endpoint binding.

pub mod address;
pub mod bar;
pub mod binding;
pub mod binding_laws;
pub mod capability;
pub mod config;
pub mod contract;
pub mod dispatch;
pub mod dispatch_laws;
pub mod effect;
pub mod effect_laws;
pub mod endpoint;
pub mod error;
pub mod function;
pub mod graph;
pub mod image_laws;
pub mod laws;
pub mod lifecycle;
pub mod placement;
pub mod placement_laws;
pub mod reset;
pub mod root;
pub mod root_laws;
pub mod route;
pub mod router;
pub mod routing;
pub mod routing_laws;
pub mod topology;
pub mod value_laws;
pub mod withdrawal;
