//! Configurable device models.

pub mod vpci_test;
