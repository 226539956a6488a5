//! What one config or BAR access hands to an endpoint.

use crate::access::AccessWidth;
use crate::pci::address::{PciBarIndex, PciBdf};
use crate::pci::capability::{PciCapabilityId, PciCapabilitySnapshot, PciConfigEffectId};
use crate::pci::config::PciCommandState;
use crate::pci::root::PciBarRoute;
use crate::pci::routing::EndpointRouteToken;
use vstd::prelude::*;

verus! {

/// Metadata passed to one endpoint BAR callback.
#[derive(Clone, Copy, Debug, PartialEq, Eq, Structural)]
pub struct PciBarAccess {
    /// Route of the access.
    pub route: PciBarRoute,
    /// Whether the function may initiate DMA.
    pub dma_enabled: bool,
}

impl PciBarAccess {
    /// Describes one BAR access.
    pub fn new(route: PciBarRoute, dma_enabled: bool) -> (access: Self)
        ensures
            access == (PciBarAccess { route, dma_enabled }),
    {
        PciBarAccess { route, dma_enabled }
    }

    /// Returns the root-captured bus-master-enable state for this access.
    pub fn bus_master_enable(self) -> (enabled: bool)
        ensures
            enabled == self.dma_enabled,
    {
        self.dma_enabled
    }

    /// Returns the selected function BDF.
    pub fn bdf(self) -> (bdf: PciBdf)
        ensures
            bdf == self.route.bdf,
    {
        self.route.bdf()
    }

    /// Returns the selected BAR slot.
    pub fn bar(self) -> (bar: PciBarIndex)
        ensures
            bar == self.route.bar,
    {
        self.route.bar()
    }

    /// Returns the BAR-relative byte offset.
    pub fn offset(self) -> (offset: u64)
        ensures
            offset == self.route.offset,
    {
        self.route.offset()
    }

    /// Returns the complete access width.
    pub fn width(self) -> (width: AccessWidth)
        ensures
            width == self.route.width,
    {
        self.route.width()
    }
}

/// Snapshot of one endpoint configuration read effect.
#[derive(Clone, Copy, Debug, PartialEq, Eq)]
pub struct PciConfigReadEffect {
    /// Capability that holds the effect.
    pub capability: PciCapabilityId,
    /// Effect identifier.
    pub effect: PciConfigEffectId,
    /// Offset of the access in the capability.
    pub offset: u8,
    /// Width of the access.
    pub width: AccessWidth,
    /// Body of the capability at the time of the access.
    pub capability_snapshot: PciCapabilitySnapshot,
}

impl PciConfigReadEffect {
    /// Describes one read of an endpoint-owned config region.
    pub fn new(
        capability: PciCapabilityId,
        effect: PciConfigEffectId,
        offset: u8,
        width: AccessWidth,
        capability_snapshot: PciCapabilitySnapshot,
    ) -> (read: Self)
        ensures
            read == (PciConfigReadEffect {
                capability,
                effect,
                offset,
                width,
                capability_snapshot,
            }),
    {
        PciConfigReadEffect { capability, effect, offset, width, capability_snapshot }
    }

    /// Returns the capability containing this effect.
    pub fn capability(self) -> (capability: PciCapabilityId)
        ensures
            capability == self.capability,
    {
        self.capability
    }

    /// Returns the effect identifier.
    pub fn effect(self) -> (effect: PciConfigEffectId)
        ensures
            effect == self.effect,
    {
        self.effect
    }

    /// Returns the capability-relative access offset.
    pub fn offset(self) -> (offset: u8)
        ensures
            offset == self.offset,
    {
        self.offset
    }

    /// Returns the complete access width.
    pub fn width(self) -> (width: AccessWidth)
        ensures
            width == self.width,
    {
        self.width
    }

    /// Returns the root-time capability body snapshot for this access.
    pub fn capability_snapshot(self) -> (snapshot: PciCapabilitySnapshot)
        ensures
            snapshot == self.capability_snapshot,
    {
        self.capability_snapshot
    }
}

/// Snapshot of one endpoint configuration write effect.
#[derive(Clone, Copy, Debug, PartialEq, Eq)]
pub struct PciConfigWriteEffect {
    /// What the access falls into.
    pub read: PciConfigReadEffect,
    /// Value that the guest writes.
    pub value: u64,
    /// Whether the function may initiate DMA.
    pub dma_enabled: bool,
}

impl PciConfigWriteEffect {
    /// Describes one write to an endpoint-owned config region.
    pub fn new(read: PciConfigReadEffect, value: u64, dma_enabled: bool) -> (write: Self)
        ensures
            write == (PciConfigWriteEffect { read, value, dma_enabled }),
    {
        PciConfigWriteEffect { read, value, dma_enabled }
    }

    /// Returns the root-captured bus-master-enable state for this access.
    pub fn bus_master_enable(self) -> (enabled: bool)
        ensures
            enabled == self.dma_enabled,
    {
        self.dma_enabled
    }

    /// Returns the capability containing this effect.
    pub fn capability(self) -> (capability: PciCapabilityId)
        ensures
            capability == self.read.capability,
    {
        self.read.capability()
    }

    /// Returns the effect identifier.
    pub fn effect(self) -> (effect: PciConfigEffectId)
        ensures
            effect == self.read.effect,
    {
        self.read.effect()
    }

    /// Returns the capability-relative access offset.
    pub fn offset(self) -> (offset: u8)
        ensures
            offset == self.read.offset,
    {
        self.read.offset()
    }

    /// Returns the complete access width.
    pub fn width(self) -> (width: AccessWidth)
        ensures
            width == self.read.width,
    {
        self.read.width()
    }

    /// Returns the root-time capability body snapshot for this access.
    pub fn capability_snapshot(self) -> (snapshot: PciCapabilitySnapshot)
        ensures
            snapshot == self.read.capability_snapshot,
    {
        self.read.capability_snapshot()
    }

    /// Returns the guest-provided write value.
    pub fn value(self) -> (value: u64)
        ensures
            value == self.value,
    {
        self.value
    }
}

/// What a config read needs before it can be answered.
#[derive(Clone, Copy, Debug, PartialEq, Eq)]
#[allow(inconsistent_fields)]
pub enum PciConfigReadOutcome {
    /// Nothing: this is the value.
    Value(u64),
    /// Whether the endpoint has an interrupt pending.
    DynamicStatus {
        /// Route to the endpoint.
        token: EndpointRouteToken,
        /// Command register at the time of the access.
        command: PciCommandState,
        /// Value without the endpoint's part.
        value: u64,
        /// The interrupt-status bit in the value.
        interrupt_status_mask: u64,
    },
    /// What the endpoint reads for its region.
    Effect {
        /// Route to the endpoint.
        token: EndpointRouteToken,
        /// Command register at the time of the access.
        command: PciCommandState,
        /// What the access falls into.
        effect: PciConfigReadEffect,
    },
}

/// What a config write needs before it is complete.
#[derive(Clone, Copy, Debug, PartialEq, Eq)]
#[allow(inconsistent_fields)]
pub enum PciConfigWriteOutcome {
    /// Nothing.
    Complete,
    /// The endpoint handles the write to its region.
    Effect {
        /// Route to the endpoint.
        token: EndpointRouteToken,
        /// Command register at the time of the access.
        command: PciCommandState,
        /// What the access falls into.
        effect: PciConfigWriteEffect,
    },
    /// The endpoint, if there is one, learns of a command transition.
    CommandChanged {
        /// Route to the endpoint.
        token: Option<EndpointRouteToken>,
        /// Command register after the write.
        command: PciCommandState,
    },
}

/// A status value with the endpoint's interrupt state in it.
pub open spec fn status_with_interrupt(value: u64, mask: u64, pending: bool) -> u64 {
    if pending {
        value | mask
    } else {
        value & !mask
    }
}

/// Completes a dynamic status read with the endpoint's interrupt state.
pub fn complete_dynamic_status(value: u64, interrupt_status_mask: u64, pending: bool) -> (status:
    u64)
    ensures
        status == status_with_interrupt(value, interrupt_status_mask, pending),
{
    if pending {
        value | interrupt_status_mask
    } else {
        value & !interrupt_status_mask
    }
}

} // verus!
