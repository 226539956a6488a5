//! Errors of the PCI topology and root state.

use crate::access::{AccessWidth, DeviceNodeId};
use crate::pci::address::PciBdf;
use vstd::prelude::*;

verus! {

/// Result of a PCI topology or configuration operation.
pub type PciResult<T> = Result<T, PciError>;

/// Why a PCI topology or configuration operation failed.
#[derive(Debug, PartialEq, Eq)]
#[allow(inconsistent_fields)]
pub enum PciError {
    /// A component of an address is out of its range.
    InvalidAddress {
        /// Name of the component.
        component: &'static str,
        /// Rejected value.
        value: u64,
    },
    /// A BAR has an unusable size, slot or fixed address.
    InvalidBar {
        /// BAR slot.
        bar: u8,
        /// What is wrong with it.
        detail: &'static str,
    },
    /// A function identity cannot be presented to a guest.
    InvalidEndpointIdentity {
        /// What is wrong with it.
        detail: &'static str,
    },
    /// The host memory aperture is empty or not below 4 GiB.
    InvalidHostAperture {
        /// First address of the aperture.
        start: u64,
        /// Address behind the aperture.
        end: u64,
    },
    /// A fixed address names a function number other than 0.
    UnsupportedFunctionPlacement {
        /// Requested address.
        bdf: PciBdf,
    },
    /// Two functions ask for one address.
    DuplicateBdf {
        /// Requested address.
        bdf: PciBdf,
    },
    /// A function asks for a reserved address.
    BdfReserved {
        /// Requested address.
        bdf: PciBdf,
    },
    /// No device number is left on the bus.
    BdfExhausted,
    /// Two fixed BARs overlap.
    BarConflict {
        /// BAR slot.
        bar: u8,
        /// Size of the BAR.
        size: u64,
    },
    /// No place is left for a BAR.
    ApertureExhausted {
        /// BAR slot.
        bar: u8,
        /// Size of the BAR.
        size: u64,
    },
    /// Two functions have one identity in the graph.
    DuplicateFunction {
        /// Graph identity.
        function: DeviceNodeId,
    },
    /// A capability does not fit its declaration or the configuration space.
    InvalidCapability {
        /// What is wrong with it.
        detail: &'static str,
    },
    /// A config access has an unsupported width, alignment or range.
    InvalidConfigAccess {
        /// Config offset of the access.
        offset: u16,
        /// Width of the access.
        width: AccessWidth,
        /// What is wrong with it.
        detail: &'static str,
    },
    /// A config byte override touches a field that the root owns.
    InvalidConfigPatch {
        /// Config offset of the byte.
        offset: u16,
        /// What is wrong with it.
        detail: &'static str,
    },
    /// The topology has no such function.
    UnknownFunction {
        /// Graph identity.
        function: DeviceNodeId,
    },
    /// The function already has a bound endpoint.
    FunctionAlreadyBound {
        /// Graph identity.
        function: DeviceNodeId,
    },
    /// A host has no name.
    InvalidHostKey,
    /// The topology of the bus was resolved before.
    TopologyAlreadyResolved,
    /// The topology of the bus is not resolved.
    TopologyNotResolved,
    /// The bus has a root already.
    HostAlreadyRegistered,
    /// The bus of the function has no root.
    HostUnavailable {
        /// Graph identity of the function.
        function: DeviceNodeId,
    },
}

} // verus!
