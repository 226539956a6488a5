//! 32-bit memory BARs: declaration, resolved plan and decode state.

use crate::access::ResourceRequest;
use crate::pci::address::PciBarIndex;
use crate::pci::error::{PciError, PciResult};
use core::ops::Range;
use vstd::prelude::*;

verus! {

/// First address that a 32-bit BAR cannot reach.
pub const FOUR_GIB: u64 = 0x1_0000_0000;

/// Whether `size` is a power of two.
pub open spec fn is_power_of_two(size: u64) -> bool {
    size > 0 && size & (size - 1) as u64 == 0
}

/// Whether a 32-bit memory BAR can have this size: a power of two from 16 bytes
/// to 2 GiB.
pub open spec fn is_bar_size(size: u64) -> bool {
    is_power_of_two(size) && 16 <= size < FOUR_GIB
}

/// A 32-bit memory BAR that a function asks for.
#[derive(Clone, Copy, Debug, PartialEq, Eq, Structural)]
pub struct PciMemoryBar {
    /// BAR slot.
    pub index: PciBarIndex,
    /// Size in bytes.
    pub size: u64,
    /// Requested base address.
    pub address: ResourceRequest<u64>,
}

impl PciMemoryBar {
    /// Whether slot and size are usable.
    pub open spec fn wf(self) -> bool {
        self.index.wf() && is_bar_size(self.size)
    }

    /// Declares a BAR that is placed automatically.
    ///
    /// # Errors
    ///
    /// Returns [`PciError::InvalidBar`] for a size that is not a power of two,
    /// below 16 bytes or not below 4 GiB.
    pub fn new(index: PciBarIndex, size: u64) -> (result: PciResult<PciMemoryBar>)
        ensures
            result == (if is_bar_size(size) {
                Ok::<PciMemoryBar, PciError>(
                    PciMemoryBar { index, size, address: ResourceRequest::Auto },
                )
            } else {
                Err(
                    PciError::InvalidBar {
                        bar: index.0,
                        detail: "size is not a power of two from 16 bytes to 2 GiB",
                    },
                )
            }),
    {
        if size < 16 || size >= FOUR_GIB || size & (size - 1) != 0 {
            return Err(
                PciError::InvalidBar {
                    bar: index.0,
                    detail: "size is not a power of two from 16 bytes to 2 GiB",
                },
            );
        }
        Ok(PciMemoryBar { index, size, address: ResourceRequest::Auto })
    }

    /// Replaces the address request.
    pub fn with_address(self, address: ResourceRequest<u64>) -> (bar: PciMemoryBar)
        ensures
            bar == (PciMemoryBar { address, ..self }),
    {
        PciMemoryBar { index: self.index, size: self.size, address }
    }

    /// Returns the BAR slot.
    pub fn index(self) -> (index: PciBarIndex)
        ensures
            index == self.index,
    {
        self.index
    }

    /// Returns the size in bytes.
    pub fn size(self) -> (size: u64)
        ensures
            size == self.size,
    {
        self.size
    }
}

/// A BAR with its resolved power-on address.
#[derive(Clone, Copy, Debug, PartialEq, Eq, Structural)]
pub struct ResolvedBarPlan {
    /// BAR slot.
    pub index: PciBarIndex,
    /// Size in bytes.
    pub size: u64,
    /// Power-on base address.
    pub address: u64,
}

impl ResolvedBarPlan {
    /// The plan names a slot, a BAR size and an aligned range below 4 GiB.
    pub open spec fn wf(self) -> bool {
        self.index.wf() && is_bar_size(self.size) && self.address % self.size == 0 && self.address
            + self.size <= FOUR_GIB
    }

    /// Returns the power-on base address.
    pub fn address(&self) -> (address: u64)
        ensures
            address == self.address,
    {
        self.address
    }
}

/// Decode state of one BAR.
#[derive(Clone, Copy, Debug, PartialEq, Eq, Structural)]
pub struct BarState {
    /// Slot, size and power-on address.
    pub plan: ResolvedBarPlan,
    /// Address that the BAR decodes.
    pub address: u64,
    /// Whether the register reads as the size mask.
    pub probing: bool,
}

impl BarState {
    /// The decoded range is aligned and below 4 GiB, now and after a reset.
    pub open spec fn wf(self) -> bool {
        self.plan.wf() && self.address % self.plan.size == 0 && self.address + self.plan.size
            <= FOUR_GIB
    }

    /// The state at power-on.
    pub open spec fn initial(plan: ResolvedBarPlan) -> BarState {
        BarState { plan, address: plan.address, probing: false }
    }

    /// Creates the BAR at its power-on address.
    pub fn new(plan: ResolvedBarPlan) -> (bar: Self)
        ensures
            bar == BarState::initial(plan),
    {
        BarState { plan, address: plan.address, probing: false }
    }

    /// Returns the slot of the BAR.
    pub fn index(&self) -> (index: PciBarIndex)
        ensures
            index == self.plan.index,
    {
        self.plan.index
    }

    /// Returns the size of the BAR.
    pub fn size(&self) -> (size: u64)
        ensures
            size == self.plan.size,
    {
        self.plan.size
    }

    /// Address behind the decoded range.
    pub open spec fn end(self) -> int {
        self.address + self.plan.size
    }

    /// Returns the decoded range, unless its end does not fit.
    pub fn range(&self) -> (range: Option<Range<u64>>)
        ensures
            range is Some <==> self.end() <= u64::MAX,
            range matches Some(r) ==> r.start == self.address && r.end == self.end(),
    {
        match self.address.checked_add(self.plan.size) {
            Some(end) => Some(self.address..end),
            None => None,
        }
    }

    /// What the register reads: the address, or after a probe the bits that an
    /// address of this size can have.
    pub open spec fn register(self) -> int {
        if self.probing {
            FOUR_GIB - self.plan.size
        } else {
            self.address as int
        }
    }

    /// Returns what the guest reads from the BAR.
    pub fn raw_dword(&self) -> (dword: u32)
        requires
            self.wf(),
        ensures
            dword == self.register(),
    {
        if self.probing {
            (FOUR_GIB - self.plan.size) as u32
        } else {
            self.address as u32
        }
    }

    /// Returns the doubleword of the address that the BAR decodes.
    pub fn committed_dword(&self) -> (dword: u32)
        requires
            self.wf(),
        ensures
            dword == self.address,
    {
        self.address as u32
    }

    /// Makes the next read return the size mask.
    pub fn set_probe(&mut self)
        ensures
            *final(self) == (BarState { probing: true, ..*old(self) }),
    {
        self.probing = true;
    }

    /// The state after a relocation write: the probe ends, and an accepted
    /// address is decoded from now on.
    pub open spec fn relocated(self, accepted: Option<u64>) -> BarState {
        BarState {
            address: match accepted {
                Some(address) => address,
                None => self.address,
            },
            probing: false,
            ..self
        }
    }

    /// Ends a relocation at the accepted address, or where the BAR was.
    pub fn finish_relocation(&mut self, accepted: Option<u64>)
        ensures
            *final(self) == old(self).relocated(accepted),
    {
        if let Some(address) = accepted {
            self.address = address;
        }
        self.probing = false;
    }

    /// Restores the power-on address.
    pub fn reset(&mut self)
        ensures
            *final(self) == BarState::initial(old(self).plan),
    {
        self.address = self.plan.address;
        self.probing = false;
    }

    /// The base address that a register write asks for: its four attribute bits
    /// do not count.
    pub open spec fn candidate(dword: u32) -> int {
        dword - dword % 16
    }

    /// Returns the address that a doubleword asks for.
    pub fn candidate_address(dword: u32) -> (address: u64)
        ensures
            address == BarState::candidate(dword),
    {
        (dword - dword % 16) as u64
    }
}

} // verus!
