//! Architecture-neutral PCI root-owned config and BAR decode state.
//!
//! Frontends pass already-decoded BDF/config accesses into this object. The
//! root owns conventional config bytes, BAR routes and the tokens of the bound
//! endpoints; endpoint objects and callbacks belong to the binding.

use crate::access::{AccessWidth, DeviceId, DeviceNodeId};
#[allow(unused_imports)]
use crate::bytes::{lane_scale, le_value, lemma_lane_scale_monotonic, lemma_lane_scale_values};
use crate::pci::address::{ConfigOffset, PciBarIndex, PciBdf};
#[allow(unused_imports)]
use crate::pci::address::{invalid_config_access, lemma_valid_access, valid_config_access};
use crate::pci::bar::{BarState, FOUR_GIB};
use crate::pci::capability::{PciCapabilityEffectRegion, PciCapabilityLayout};
use crate::pci::config::{BarWriteAction, FunctionState, PciCommandState};
#[allow(unused_imports)]
use crate::pci::config::{lemma_same_image_wf, merged_bytes, same_image};
use crate::pci::effect::{
    PciConfigReadEffect, PciConfigReadOutcome, PciConfigWriteEffect, PciConfigWriteOutcome,
};
use crate::pci::error::{PciError, PciResult};
#[allow(unused_imports)]
use crate::pci::placement::{fits_aperture, ranges_overlap};
use crate::pci::routing::{EndpointAdmissions, EndpointRouteToken};
use crate::pci::topology::{ResolvedPciFunction, ResolvedPciTopology};
use vstd::prelude::*;

verus! {

/// One current BAR route resolved without entering an endpoint callback.
#[derive(Clone, Copy, Debug, PartialEq, Eq, Structural)]
pub struct PciBarRoute {
    /// Selected function.
    pub bdf: PciBdf,
    /// Selected BAR.
    pub bar: PciBarIndex,
    /// Offset from the start of the BAR.
    pub offset: u64,
    /// Width of the access.
    pub width: AccessWidth,
}

impl PciBarRoute {
    /// Returns the selected function.
    pub fn bdf(self) -> (bdf: PciBdf)
        ensures
            bdf == self.bdf,
    {
        self.bdf
    }

    /// Returns the selected BAR.
    pub fn bar(self) -> (bar: PciBarIndex)
        ensures
            bar == self.bar,
    {
        self.bar
    }

    /// Returns the function-relative BAR offset.
    pub fn offset(self) -> (offset: u64)
        ensures
            offset == self.offset,
    {
        self.offset
    }

    /// Returns the complete access width.
    pub fn width(self) -> (width: AccessWidth)
        ensures
            width == self.width,
    {
        self.width
    }
}

/// Returns the value of `size` bytes of ones.
pub fn all_ones(size: usize) -> (value: u64)
    requires
        size <= 8,
    ensures
        value == lane_scale(size as nat) - 1,
{
    let mut value: u64 = 0;
    let mut i: usize = 0;
    while i < size
        invariant
            i <= size <= 8,
            value == lane_scale(i as nat) - 1,
        decreases size - i,
    {
        proof {
            lemma_lane_scale_values();
            lemma_lane_scale_monotonic(i as nat + 1, 8);
            assert(lane_scale((i + 1) as nat) == 256 * lane_scale(i as nat));
        }
        value = value * 256 + 255;
        i = i + 1;
    }
    value
}

/// Whether `state` is the state of `resolved`.
pub open spec fn is_state_of(state: FunctionState, resolved: ResolvedPciFunction) -> bool {
    &&& state.bdf == resolved.bdf
    &&& state.intx == resolved.intx
    &&& same_image(state.power_on, resolved.power_on)
    &&& state.bars@.len() == resolved.bars@.len()
    &&& forall|b: int|
        #![trigger state.bars@[b]]
        0 <= b < state.bars@.len() ==> state.bars@[b].plan == resolved.bars@[b]
}

/// Whether BAR `bar` of function `owner` may move to `address`: aligned to its
/// size, inside the aperture, below 4 GiB, and overlapping no other BAR.
pub open spec fn is_available(
    functions: Seq<FunctionState>,
    start: int,
    end: int,
    owner: int,
    bar: int,
    address: int,
) -> bool {
    let size = functions[owner].bars@[bar].plan.size as int;
    &&& fits_aperture(address, size, start, end)
    &&& address + size <= FOUR_GIB
    &&& forall|i: int, b: int|
        #![trigger functions[i].bars@[b]]
        0 <= i < functions.len() && 0 <= b < functions[i].bars@.len() && (i != owner || b != bar)
            ==> !ranges_overlap(
            address,
            size,
            functions[i].bars@[b].address as int,
            functions[i].bars@[b].plan.size as int,
        )
}

/// Whether a write of `size` bytes at `offset` of function `owner` turns `before`
/// into `after`: outside the BARs the image changes under its mask, a probe
/// makes the register read as its size, and a relocation moves the BAR where the
/// address is available and changes nothing else.
pub open spec fn is_config_write(
    before: Seq<FunctionState>,
    after: Seq<FunctionState>,
    start: int,
    end: int,
    owner: int,
    offset: int,
    size: int,
    value: u64,
) -> bool {
    let old_state = before[owner];
    let new_state = after[owner];
    &&& after.len() == before.len()
    &&& forall|i: int|
        #![trigger after[i]]
        0 <= i < after.len() && i != owner ==> after[i] == before[i]
    &&& match old_state.bar_action(offset, size, value) {
        None => {
            &&& new_state.config@ == merged_bytes(
                old_state.config@,
                old_state.power_on.write_mask@,
                offset,
                size,
                value,
            )
            &&& new_state == (FunctionState { config: new_state.config, ..old_state })
        },
        Some(BarWriteAction::Probe { bar }) => {
            &&& new_state.bars@ == old_state.bars@.update(
                bar as int,
                BarState { probing: true, ..old_state.bars@[bar as int] },
            )
            &&& new_state == (FunctionState { bars: new_state.bars, ..old_state })
        },
        Some(BarWriteAction::Relocate { bar, candidate }) => {
            &&& new_state.bars@ == old_state.bars@.update(
                bar as int,
                old_state.bars@[bar as int].relocated(
                    if is_available(before, start, end, owner, bar as int, candidate as int) {
                        Some(candidate)
                    } else {
                        None
                    },
                ),
            )
            &&& new_state == (FunctionState { bars: new_state.bars, ..old_state })
        },
    }
}

/// Whether an access of `size` bytes at `address` falls into BAR `b` of function
/// `i` while the function decodes memory.
pub open spec fn bar_serves(
    functions: Seq<FunctionState>,
    i: int,
    b: int,
    address: int,
    size: int,
) -> bool {
    &&& 0 <= i < functions.len()
    &&& 0 <= b < functions[i].bars@.len()
    &&& functions[i].decodes_memory()
    &&& functions[i].bars@[b].address <= address
    &&& address + size <= functions[i].bars@[b].end()
}

/// Whether `route` leads an access into BAR `b` of function `i`.
pub open spec fn is_route(
    functions: Seq<FunctionState>,
    i: int,
    b: int,
    address: u64,
    width: AccessWidth,
    route: PciBarRoute,
) -> bool {
    &&& bar_serves(functions, i, b, address as int, width.bytes() as int)
    &&& route == (PciBarRoute {
        bdf: functions[i].bdf,
        bar: functions[i].bars@[b].plan.index,
        offset: (address - functions[i].bars@[b].address) as u64,
        width,
    })
}

/// A route with the positions of its function and BAR.
#[derive(Clone, Copy, Debug, PartialEq, Eq, Structural)]
pub struct FunctionRoute {
    /// Position of the function.
    pub function: usize,
    /// Position of the BAR in the function.
    pub bar: usize,
    /// Route into one of its BARs.
    pub route: PciBarRoute,
}

/// Root state for one frozen PCI topology.
#[derive(Debug)]
pub struct PciRootState {
    /// Topology that produced this state.
    pub topology: ResolvedPciTopology,
    /// Function states in the order of their addresses.
    pub functions: Vec<FunctionState>,
    /// Token of the endpoint that is bound to each function.
    pub bindings: Vec<Option<EndpointRouteToken>>,
}

impl PciRootState {
    /// Every BAR fits the aperture, and no two BARs overlap.
    pub open spec fn bars_disjoint(self) -> bool {
        &&& forall|i: int, b: int|
            #![trigger self.functions@[i].bars@[b]]
            0 <= i < self.functions@.len() && 0 <= b < self.functions@[i].bars@.len()
                ==> fits_aperture(
                self.functions@[i].bars@[b].address as int,
                self.functions@[i].bars@[b].plan.size as int,
                self.topology.aperture_start as int,
                self.topology.aperture_end as int,
            )
        &&& forall|i: int, b: int, j: int, c: int|
            #![trigger self.functions@[i].bars@[b], self.functions@[j].bars@[c]]
            0 <= i < self.functions@.len() && 0 <= b < self.functions@[i].bars@.len() && 0 <= j
                < self.functions@.len() && 0 <= c < self.functions@[j].bars@.len() && (i != j || b
                != c) ==> !ranges_overlap(
                self.functions@[i].bars@[b].address as int,
                self.functions@[i].bars@[b].plan.size as int,
                self.functions@[j].bars@[c].address as int,
                self.functions@[j].bars@[c].plan.size as int,
            )
    }

    /// The state belongs to the topology, and its BARs do not overlap.
    pub open spec fn wf(self) -> bool {
        &&& self.topology.wf()
        &&& self.functions@.len() == self.topology.functions@.len()
        &&& self.bindings@.len() == self.functions@.len()
        &&& forall|i: int|
            #![trigger self.functions@[i]]
            0 <= i < self.functions@.len() ==> self.functions@[i].wf() && is_state_of(
                self.functions@[i],
                self.topology.functions@[i],
            )
        &&& self.bars_disjoint()
    }

    /// Whether every function is in its power-on state.
    pub open spec fn at_power_on(self) -> bool {
        forall|i: int|
            #![trigger self.functions@[i]]
            0 <= i < self.functions@.len() ==> self.functions@[i].at_power_on()
    }

    /// Creates power-on config and BAR decode state from a frozen topology.
    pub fn new(topology: ResolvedPciTopology) -> (root: PciRootState)
        requires
            topology.wf(),
        ensures
            root.wf(),
            root.topology == topology,
            root.at_power_on(),
            forall|i: int|
                #![trigger root.bindings@[i]]
                0 <= i < root.bindings@.len() ==> root.bindings@[i] is None,
    {
        let mut functions: Vec<FunctionState> = Vec::new();
        let mut bindings: Vec<Option<EndpointRouteToken>> = Vec::new();
        let mut i: usize = 0;
        while i < topology.functions.len()
            invariant
                i <= topology.functions@.len(),
                topology.wf(),
                functions@.len() == i,
                bindings@.len() == i,
                forall|j: int|
                    #![trigger functions@[j]]
                    0 <= j < i ==> functions@[j].wf() && functions@[j].at_power_on()
                        && is_state_of(functions@[j], topology.functions@[j]),
                forall|j: int| #![trigger bindings@[j]] 0 <= j < i ==> bindings@[j] is None,
            decreases topology.functions@.len() - i,
        {
            let function = &topology.functions[i];
            let power_on = function.power_on.clone();
            proof {
                assert(topology.functions@[i as int].wf(
                    topology.aperture_start as int,
                    topology.aperture_end as int,
                ));
                lemma_same_image_wf(power_on, function.power_on);
            }
            functions.push(
                FunctionState::new(function.bdf, power_on, &function.bars, function.intx),
            );
            bindings.push(None);
            i = i + 1;
        }
        let root = PciRootState { topology, functions, bindings };
        proof {
            lemma_power_on_bars_disjoint(root);
        }
        root
    }

    /// Returns the immutable topology that produced this root state.
    pub fn topology(&self) -> (topology: &ResolvedPciTopology)
        ensures
            *topology == self.topology,
    {
        &self.topology
    }

    /// Whether the topology has no function at `bdf`.
    pub open spec fn is_absent(self, bdf: PciBdf) -> bool {
        forall|i: int|
            #![trigger self.functions@[i]]
            0 <= i < self.functions@.len() ==> self.functions@[i].bdf != bdf
    }

    /// Returns the position of the function at `bdf`.
    pub fn function_index(&self, bdf: PciBdf) -> (index: Option<usize>)
        requires
            self.wf(),
        ensures
            index is None <==> self.is_absent(bdf),
            index matches Some(i) ==> i < self.functions@.len() && self.functions@[i as int].bdf
                == bdf,
    {
        let mut low: usize = 0;
        let mut high: usize = self.functions.len();
        while low < high
            invariant
                low <= high <= self.functions@.len(),
                self.wf(),
                forall|j: int|
                    #![trigger self.functions@[j]]
                    0 <= j < low ==> self.functions@[j].bdf.before(bdf),
                forall|j: int|
                    #![trigger self.functions@[j]]
                    high <= j < self.functions@.len() ==> bdf.before(self.functions@[j].bdf),
            decreases high - low,
        {
            let middle: usize = low + (high - low) / 2;
            let found = self.functions[middle].bdf;
            proof {
                assert forall|j: int|
                    #![trigger self.functions@[j]]
                    0 <= j < self.functions@.len() && j != middle implies (if j < middle {
                    self.functions@[j].bdf.before(found)
                } else {
                    found.before(self.functions@[j].bdf)
                }) by {
                    let ordered = self.topology.functions@;
                    assert(self.functions@[j].bdf == ordered[j].bdf);
                    assert(self.functions@[middle as int].bdf == ordered[middle as int].bdf);
                }
            }
            if found == bdf {
                assert(!self.is_absent(bdf)) by {
                    assert(self.functions@[middle as int].bdf == bdf);
                }
                return Some(middle);
            }
            if found.precedes(bdf) {
                low = middle + 1;
            } else {
                high = middle;
            }
        }
        None
    }

    /// What a config read gives: all ones for an absent function.
    pub open spec fn config_value(self, bdf: PciBdf, offset: int, size: int, value: u64) -> bool {
        &&& self.is_absent(bdf) ==> value == lane_scale(size as nat) - 1
        &&& forall|i: int|
            #![trigger self.functions@[i]]
            0 <= i < self.functions@.len() && self.functions@[i].bdf == bdf ==> value == le_value(
                self.functions@[i].visible_bytes(offset, size),
            )
    }

    /// Reads one conventional config access.
    ///
    /// An absent BDF reads as all ones for the requested width.
    ///
    /// # Errors
    ///
    /// Returns [`PciError::InvalidConfigAccess`] for qword, misaligned, or
    /// out-of-range accesses.
    pub fn read_config(&self, bdf: PciBdf, offset: ConfigOffset, width: AccessWidth) -> (result:
        PciResult<u64>)
        requires
            self.wf(),
        ensures
            !valid_config_access(offset.0 as int, width) ==> result == Err::<u64, PciError>(
                invalid_config_access(offset.0, width),
            ),
            valid_config_access(offset.0 as int, width) ==> (result matches Ok(value)
                && self.config_value(bdf, offset.0 as int, width.bytes() as int, value)),
    {
        let (offset, size) = match offset.validate_access(width) {
            Ok(access) => access,
            Err(error) => {
                return Err(error);
            },
        };
        match self.function_index(bdf) {
            None => Ok(all_ones(size)),
            Some(index) => {
                proof {
                    lemma_bdfs_distinct(*self, index as int);
                }
                Ok(self.functions[index].read(offset, size))
            },
        }
    }

    /// Returns whether BAR `bar` of function `owner` may move to `address`.
    pub fn bar_address_available(&self, owner: usize, bar: usize, address: u64) -> (available: bool)
        requires
            self.wf(),
            owner < self.functions@.len(),
            bar < self.functions@[owner as int].bars@.len(),
        ensures
            available == is_available(
                self.functions@,
                self.topology.aperture_start as int,
                self.topology.aperture_end as int,
                owner as int,
                bar as int,
                address as int,
            ),
    {
        let size: u64 = self.functions[owner].bars[bar].size();
        assert(self.functions@[owner as int].bars@[bar as int].wf());
        let end: u64 = match address.checked_add(size) {
            Some(end) => end,
            None => {
                return false;
            },
        };
        if address % size != 0 || address < self.topology.aperture_start || end
            > self.topology.aperture_end || end > FOUR_GIB {
            return false;
        }
        let mut i: usize = 0;
        while i < self.functions.len()
            invariant
                i <= self.functions@.len(),
                self.wf(),
                owner < self.functions@.len(),
                bar < self.functions@[owner as int].bars@.len(),
                size == self.functions@[owner as int].bars@[bar as int].plan.size,
                end == address + size,
                forall|j: int, b: int|
                    #![trigger self.functions@[j].bars@[b]]
                    0 <= j < i && 0 <= b < self.functions@[j].bars@.len() && (j != owner || b
                        != bar) ==> !ranges_overlap(
                        address as int,
                        size as int,
                        self.functions@[j].bars@[b].address as int,
                        self.functions@[j].bars@[b].plan.size as int,
                    ),
            decreases self.functions@.len() - i,
        {
            let function = &self.functions[i];
            let mut b: usize = 0;
            while b < function.bars.len()
                invariant
                    b <= function.bars@.len(),
                    i < self.functions@.len(),
                    *function == self.functions@[i as int],
                    self.wf(),
                    owner < self.functions@.len(),
                    bar < self.functions@[owner as int].bars@.len(),
                    size == self.functions@[owner as int].bars@[bar as int].plan.size,
                    end == address + size,
                    forall|c: int|
                        #![trigger self.functions@[i as int].bars@[c]]
                        0 <= c < b && (i != owner || c != bar) ==> !ranges_overlap(
                            address as int,
                            size as int,
                            self.functions@[i as int].bars@[c].address as int,
                            self.functions@[i as int].bars@[c].plan.size as int,
                        ),
                decreases function.bars@.len() - b,
            {
                let existing = function.bars[b];
                assert(existing == self.functions@[i as int].bars@[b as int]);
                assert(self.functions@[i as int].bars@[b as int].wf());
                if i != owner || b != bar {
                    if let Some(range) = existing.range() {
                        if address < range.end && range.start < end {
                            assert(ranges_overlap(
                                address as int,
                                size as int,
                                self.functions@[i as int].bars@[b as int].address as int,
                                self.functions@[i as int].bars@[b as int].plan.size as int,
                            ));
                            return false;
                        }
                    }
                }
                b = b + 1;
            }
            i = i + 1;
        }
        true
    }

    /// Applies one write to the function at position `owner`.
    pub fn write_function(&mut self, owner: usize, offset: usize, size: usize, value: u64)
        requires
            old(self).wf(),
            owner < old(self).functions@.len(),
            offset % 4 + size <= 4,
            offset + size <= 256,
        ensures
            final(self).wf(),
            final(self).topology == old(self).topology,
            final(self).bindings == old(self).bindings,
            is_config_write(
                old(self).functions@,
                final(self).functions@,
                old(self).topology.aperture_start as int,
                old(self).topology.aperture_end as int,
                owner as int,
                offset as int,
                size as int,
                value,
            ),
    {
        match self.functions[owner].prepare_bar_write(offset, size, value) {
            None => {
                self.functions[owner].write_non_bar(offset, size, value);
            },
            Some(BarWriteAction::Probe { bar }) => {
                self.functions[owner].apply_probe(bar);
            },
            Some(BarWriteAction::Relocate { bar, candidate }) => {
                let accepted: Option<u64> = if self.bar_address_available(owner, bar, candidate) {
                    Some(candidate)
                } else {
                    None
                };
                self.functions[owner].finish_relocation(bar, accepted);
            },
        }
        proof {
            lemma_config_write_keeps_wf(
                *old(self),
                *self,
                owner as int,
                offset as int,
                size as int,
                value,
            );
        }
    }

    /// Applies one conventional config write.
    ///
    /// Writes to absent functions or read-only fields have no effect. BAR
    /// probe and relocation writes are classified after merging the complete
    /// dword; invalid relocations preserve both config readback and decode.
    ///
    /// # Errors
    ///
    /// Returns [`PciError::InvalidConfigAccess`] under the same conditions as
    /// [`PciRootState::read_config`].
    pub fn write_config(
        &mut self,
        bdf: PciBdf,
        offset: ConfigOffset,
        width: AccessWidth,
        value: u64,
    ) -> (result: PciResult<()>)
        requires
            old(self).wf(),
        ensures
            final(self).wf(),
            final(self).topology == old(self).topology,
            final(self).bindings == old(self).bindings,
            !valid_config_access(offset.0 as int, width) ==> result == Err::<(), PciError>(
                invalid_config_access(offset.0, width),
            ) && final(self).functions@ == old(self).functions@,
            valid_config_access(offset.0 as int, width) ==> {
                &&& result == Ok::<(), PciError>(())
                &&& old(self).is_absent(bdf) ==> final(self).functions@ == old(self).functions@
                &&& forall|i: int|
                    #![trigger old(self).functions@[i]]
                    0 <= i < old(self).functions@.len() && old(self).functions@[i].bdf == bdf
                        ==> is_config_write(
                        old(self).functions@,
                        final(self).functions@,
                        old(self).topology.aperture_start as int,
                        old(self).topology.aperture_end as int,
                        i,
                        offset.0 as int,
                        width.bytes() as int,
                        value,
                    )
            },
    {
        let (offset, size) = match offset.validate_access(width) {
            Ok(access) => access,
            Err(error) => {
                return Err(error);
            },
        };
        if let Some(index) = self.function_index(bdf) {
            proof {
                lemma_bdfs_distinct(*self, index as int);
                lemma_valid_access(offset as int, width);
            }
            self.write_function(index, offset, size, value);
        }
        Ok(())
    }

    /// Finds the BAR that serves an access.
    pub fn resolve_route(&self, address: u64, width: AccessWidth) -> (route: Option<
        FunctionRoute,
    >)
        requires
            self.wf(),
        ensures
            route is None ==> forall|i: int, b: int|
                !#[trigger] bar_serves(
                    self.functions@,
                    i,
                    b,
                    address as int,
                    width.bytes() as int,
                ),
            route matches Some(found) ==> is_route(
                self.functions@,
                found.function as int,
                found.bar as int,
                address,
                width,
                found.route,
            ),
    {
        let access_end: u64 = match address.checked_add(width.size() as u64) {
            Some(end) => end,
            None => {
                proof {
                    lemma_bars_below_four_gib(*self);
                }
                return None;
            },
        };
        let mut i: usize = 0;
        while i < self.functions.len()
            invariant
                i <= self.functions@.len(),
                self.wf(),
                access_end == address + width.bytes(),
                forall|j: int, b: int|
                    j < i ==> !#[trigger] bar_serves(
                        self.functions@,
                        j,
                        b,
                        address as int,
                        width.bytes() as int,
                    ),
            decreases self.functions@.len() - i,
        {
            let function = &self.functions[i];
            if function.memory_decode_enabled() {
                let mut b: usize = 0;
                while b < function.bars.len()
                    invariant
                        b <= function.bars@.len(),
                        i < self.functions@.len(),
                        *function == self.functions@[i as int],
                        function.decodes_memory(),
                        self.wf(),
                        access_end == address + width.bytes(),
                        forall|c: int|
                            c < b ==> !#[trigger] bar_serves(
                                self.functions@,
                                i as int,
                                c,
                                address as int,
                                width.bytes() as int,
                            ),
                    decreases function.bars@.len() - b,
                {
                    let bar = function.bars[b];
                    assert(bar == self.functions@[i as int].bars@[b as int]);
                    assert(self.functions@[i as int].bars@[b as int].wf());
                    if let Some(range) = bar.range() {
                        if range.start <= address && access_end <= range.end {
                            assert(bar_serves(
                                self.functions@,
                                i as int,
                                b as int,
                                address as int,
                                width.bytes() as int,
                            ));
                            let serving = PciBarRoute {
                                bdf: function.bdf(),
                                bar: bar.index(),
                                offset: address - range.start,
                                width,
                            };
                            assert(is_route(
                                self.functions@,
                                i as int,
                                b as int,
                                address,
                                width,
                                serving,
                            ));
                            return Some(FunctionRoute { function: i, bar: b, route: serving });
                        }
                    }
                    b = b + 1;
                }
            }
            i = i + 1;
        }
        None
    }

    /// Resolves one complete memory access against the current enabled BARs.
    ///
    /// Returns `None` for overflow, disabled decode, or an unmapped address.
    pub fn resolve_bar(&self, address: u64, width: AccessWidth) -> (route: Option<PciBarRoute>)
        requires
            self.wf(),
        ensures
            route is None ==> forall|i: int, b: int|
                !#[trigger] bar_serves(
                    self.functions@,
                    i,
                    b,
                    address as int,
                    width.bytes() as int,
                ),
            route matches Some(found) ==> exists|i: int, b: int|
                #[trigger] is_route(self.functions@, i, b, address, width, found),
    {
        match self.resolve_route(address, width) {
            Some(found) => Some(found.route),
            None => None,
        }
    }

    /// Restores every function's root-owned power-on config and BAR route.
    pub fn reset(&mut self)
        requires
            old(self).wf(),
        ensures
            final(self).wf(),
            final(self).at_power_on(),
            final(self).topology == old(self).topology,
            final(self).bindings == old(self).bindings,
    {
        let mut i: usize = 0;
        while i < self.functions.len()
            invariant
                i <= self.functions@.len(),
                self.topology == old(self).topology,
                self.bindings == old(self).bindings,
                self.topology.wf(),
                self.functions@.len() == self.topology.functions@.len(),
                self.bindings@.len() == self.functions@.len(),
                forall|j: int|
                    #![trigger self.functions@[j]]
                    0 <= j < self.functions@.len() ==> self.functions@[j].wf() && is_state_of(
                        self.functions@[j],
                        self.topology.functions@[j],
                    ),
                forall|j: int|
                    #![trigger self.functions@[j]]
                    0 <= j < i ==> self.functions@[j].at_power_on(),
            decreases self.functions@.len() - i,
        {
            self.functions[i].reset();
            i = i + 1;
        }
        proof {
            lemma_power_on_bars_disjoint(*self);
        }
    }
}

/// In the power-on state the BARs stand where the topology has them.
proof fn lemma_power_on_bars_disjoint(root: PciRootState)
    requires
        root.topology.wf(),
        root.at_power_on(),
        root.functions@.len() == root.topology.functions@.len(),
        forall|i: int|
            #![trigger root.functions@[i]]
            0 <= i < root.functions@.len() ==> is_state_of(
                root.functions@[i],
                root.topology.functions@[i],
            ),
    ensures
        root.bars_disjoint(),
{
    let functions = root.functions@;
    let resolved = root.topology.functions@;
    assert forall|i: int, b: int|
        #![trigger functions[i].bars@[b]]
        0 <= i < functions.len() && 0 <= b < functions[i].bars@.len() implies functions[i].bars@[b]
        == BarState::initial(resolved[i].bars@[b]) && fits_aperture(
        resolved[i].bars@[b].address as int,
        resolved[i].bars@[b].size as int,
        root.topology.aperture_start as int,
        root.topology.aperture_end as int,
    ) by {
        assert(functions[i].at_power_on());
        assert(is_state_of(functions[i], resolved[i]));
        assert(resolved[i].wf(
            root.topology.aperture_start as int,
            root.topology.aperture_end as int,
        ));
        assert(resolved[i].bars@[b].wf());
    }
}

/// Every BAR ends at or below 4 GiB.
proof fn lemma_bars_below_four_gib(root: PciRootState)
    requires
        root.wf(),
    ensures
        forall|i: int, b: int|
            #![trigger root.functions@[i].bars@[b]]
            0 <= i < root.functions@.len() && 0 <= b < root.functions@[i].bars@.len()
                ==> root.functions@[i].bars@[b].end() <= FOUR_GIB,
{
    assert forall|i: int, b: int|
        #![trigger root.functions@[i].bars@[b]]
        0 <= i < root.functions@.len() && 0 <= b
            < root.functions@[i].bars@.len() implies root.functions@[i].bars@[b].end()
        <= FOUR_GIB by {
        assert(root.functions@[i].wf());
        assert(root.functions@[i].bars@[b].wf());
    }
}

/// No other function has the address of the one at `index`.
proof fn lemma_bdfs_distinct(root: PciRootState, index: int)
    requires
        root.wf(),
        0 <= index < root.functions@.len(),
    ensures
        forall|i: int|
            #![trigger root.functions@[i]]
            0 <= i < root.functions@.len() && root.functions@[i].bdf
                == root.functions@[index].bdf ==> i == index,
{
    assert forall|i: int|
        #![trigger root.functions@[i]]
        0 <= i < root.functions@.len() && root.functions@[i].bdf
            == root.functions@[index].bdf implies i == index by {
        let resolved = root.topology.functions@;
        assert(is_state_of(root.functions@[i], resolved[i]));
        assert(is_state_of(root.functions@[index], resolved[index]));
        if i < index {
            assert(resolved[i].bdf.before(resolved[index].bdf));
        } else if index < i {
            assert(resolved[index].bdf.before(resolved[i].bdf));
        }
    }
}

/// A config write keeps the root well formed; above all, no relocation makes two
/// BARs overlap.
proof fn lemma_config_write_keeps_wf(
    before: PciRootState,
    after: PciRootState,
    owner: int,
    offset: int,
    size: int,
    value: u64,
)
    requires
        before.wf(),
        0 <= owner < before.functions@.len(),
        after.topology == before.topology,
        after.bindings == before.bindings,
        before.functions@[owner].bar_action(offset, size, value) matches Some(
            BarWriteAction::Probe { bar },
        ) ==> bar < before.functions@[owner].bars@.len(),
        before.functions@[owner].bar_action(offset, size, value) matches Some(
            BarWriteAction::Relocate { bar, candidate },
        ) ==> bar < before.functions@[owner].bars@.len(),
        is_config_write(
            before.functions@,
            after.functions@,
            before.topology.aperture_start as int,
            before.topology.aperture_end as int,
            owner,
            offset,
            size,
            value,
        ),
    ensures
        after.wf(),
{
    let old_state = before.functions@[owner];
    let new_state = after.functions@[owner];
    assert(old_state.wf());
    assert forall|i: int|
        #![trigger after.functions@[i]]
        0 <= i < after.functions@.len() implies after.functions@[i].wf() && is_state_of(
        after.functions@[i],
        after.topology.functions@[i],
    ) by {
        assert(before.functions@[i].wf());
        if i == owner {
            assert forall|b: int|
                #![trigger new_state.bars@[b]]
                0 <= b < new_state.bars@.len() implies new_state.bars@[b].wf()
                && new_state.bars@[b].plan == old_state.bars@[b].plan by {
                assert(old_state.bars@[b].wf());
            }
        }
    }
    assert forall|i: int, b: int|
        #![trigger after.functions@[i].bars@[b]]
        0 <= i < after.functions@.len() && 0 <= b
            < after.functions@[i].bars@.len() implies fits_aperture(
        after.functions@[i].bars@[b].address as int,
        after.functions@[i].bars@[b].plan.size as int,
        after.topology.aperture_start as int,
        after.topology.aperture_end as int,
    ) by {
        assert(before.functions@[i].bars@[b].plan == after.functions@[i].bars@[b].plan);
    }
    assert forall|i: int, b: int, j: int, c: int|
        #![trigger after.functions@[i].bars@[b], after.functions@[j].bars@[c]]
        0 <= i < after.functions@.len() && 0 <= b < after.functions@[i].bars@.len() && 0 <= j
            < after.functions@.len() && 0 <= c < after.functions@[j].bars@.len() && (i != j || b
            != c) implies !ranges_overlap(
        after.functions@[i].bars@[b].address as int,
        after.functions@[i].bars@[b].plan.size as int,
        after.functions@[j].bars@[c].address as int,
        after.functions@[j].bars@[c].plan.size as int,
    ) by {
        assert(before.functions@[i].bars@[b].plan == after.functions@[i].bars@[b].plan);
        assert(before.functions@[j].bars@[c].plan == after.functions@[j].bars@[c].plan);
    }
}

/// Whether `token` belongs to an open admission.
pub open spec fn is_admitted(token: EndpointRouteToken, admissions: EndpointAdmissions) -> bool {
    admissions.has(token.admission) && admissions.at(token.admission).open
}

/// The token of a function whose endpoint admits callbacks.
pub open spec fn admitted_token(
    binding: Option<EndpointRouteToken>,
    admissions: EndpointAdmissions,
) -> Option<EndpointRouteToken> {
    match binding {
        Some(token) if is_admitted(token, admissions) => Some(token),
        _ => None,
    }
}

/// The error for a config effect that no endpoint can handle.
pub open spec fn effect_unavailable(offset: u16, width: AccessWidth) -> PciError {
    PciError::InvalidConfigAccess {
        offset,
        width,
        detail: "no endpoint is admitted for this capability region",
    }
}

/// The interrupt-status bit in an access of `size` bytes at `offset` that holds
/// the low status byte.
pub open spec fn interrupt_status_bit(offset: int) -> int {
    if offset == 6 {
        0x08
    } else if offset == 5 {
        0x0800
    } else {
        0x08_0000
    }
}

/// Whether an access holds the low byte of the status register.
pub open spec fn reads_status(offset: int, size: int) -> bool {
    offset <= 6 < offset + size
}

/// What reading `size` bytes at `offset` of a present function comes to: an
/// error or an effect where a capability region is met, the endpoint's
/// interrupt state where the status register is read, else the value.
pub open spec fn is_read_outcome(
    function: FunctionState,
    token: Option<EndpointRouteToken>,
    offset: int,
    width: AccessWidth,
    result: PciResult<PciConfigReadOutcome>,
) -> bool {
    let size = width.bytes() as int;
    match function.effect_capability(0, offset, size, width, false) {
        Some(index) => {
            let capability = function.power_on.capabilities@[index as int];
            match capability.effect_of(offset, size, false, width) {
                Err(error) => result == Err::<PciConfigReadOutcome, PciError>(error),
                Ok(region) => match token {
                    None => result == Err::<PciConfigReadOutcome, PciError>(
                        effect_unavailable(offset as u16, width),
                    ),
                    Some(token) => {
                        &&& result matches Ok(
                            PciConfigReadOutcome::Effect { token: to, command, effect },
                        )
                        &&& to == token
                        &&& command == function.command()
                        &&& is_effect_of(function, capability, region, offset, width, effect)
                    },
                },
            }
        },
        None => result == Ok::<PciConfigReadOutcome, PciError>(
            plain_read_outcome(function, token, offset, width),
        ),
    }
}

/// What reading bytes outside the endpoint-owned regions comes to: the
/// endpoint's interrupt state where the status register is read, else the value.
pub open spec fn plain_read_outcome(
    function: FunctionState,
    token: Option<EndpointRouteToken>,
    offset: int,
    width: AccessWidth,
) -> PciConfigReadOutcome {
    let size = width.bytes() as int;
    let value = le_value(function.visible_bytes(offset, size)) as u64;
    match token {
        Some(token) if function.intx && reads_status(offset, size) => {
            PciConfigReadOutcome::DynamicStatus {
                token,
                command: function.command(),
                value,
                interrupt_status_mask: interrupt_status_bit(offset) as u64,
            }
        },
        _ => PciConfigReadOutcome::Value(value),
    }
}

/// Reads bytes outside the endpoint-owned regions.
fn function_read_outcome(
    function: &FunctionState,
    token: Option<EndpointRouteToken>,
    at: usize,
    size: usize,
    width: AccessWidth,
) -> (outcome: PciConfigReadOutcome)
    requires
        function.wf(),
        size == width.bytes(),
        at + size <= 256,
    ensures
        outcome == plain_read_outcome(*function, token, at as int, width),
{
    let value: u64 = function.read(at, size);
    match token {
        Some(token) => {
            if function.intx && at <= 6 && 6 < at + size {
                let interrupt_status_mask: u64 = if at == 6 {
                    0x08
                } else if at == 5 {
                    0x0800
                } else {
                    0x08_0000
                };
                return PciConfigReadOutcome::DynamicStatus {
                    token,
                    command: function.command_state(),
                    value,
                    interrupt_status_mask,
                };
            }
        },
        None => {},
    }
    PciConfigReadOutcome::Value(value)
}

/// Whether `effect` describes an access that falls into `region`.
pub open spec fn is_effect_of(
    function: FunctionState,
    capability: PciCapabilityLayout,
    region: Option<PciCapabilityEffectRegion>,
    offset: int,
    width: AccessWidth,
    effect: PciConfigReadEffect,
) -> bool {
    &&& region is Some
    &&& effect.capability == capability.spec.id
    &&& effect.effect == region->0.effect
    &&& effect.offset == offset - capability.offset
    &&& effect.width == width
    &&& effect.capability_snapshot.wf()
    &&& effect.capability_snapshot@ == function.config@.subrange(
        capability.offset + 2,
        capability.end(),
    )
}

/// What writing `size` bytes at `offset` of function `i` comes to: an error or
/// an effect where a capability region is met, and then nothing changes; else
/// the write is applied, and the endpoint learns of a command transition.
pub open spec fn is_write_outcome(
    before: Seq<FunctionState>,
    after: Seq<FunctionState>,
    start: int,
    end: int,
    i: int,
    token: Option<EndpointRouteToken>,
    offset: int,
    width: AccessWidth,
    value: u64,
    result: PciResult<PciConfigWriteOutcome>,
) -> bool {
    let size = width.bytes() as int;
    let function = before[i];
    match function.effect_capability(0, offset, size, width, true) {
        Some(index) => {
            let capability = function.power_on.capabilities@[index as int];
            &&& after == before
            &&& match capability.effect_of(offset, size, true, width) {
                Err(error) => result == Err::<PciConfigWriteOutcome, PciError>(error),
                Ok(region) => match token {
                    None => result == Err::<PciConfigWriteOutcome, PciError>(
                        effect_unavailable(offset as u16, width),
                    ),
                    Some(token) => {
                        &&& result matches Ok(
                            PciConfigWriteOutcome::Effect { token: to, command, effect },
                        )
                        &&& to == token
                        &&& command == function.command()
                        &&& effect.value == value
                        &&& effect.dma_enabled == command.bus_master_enable
                        &&& is_effect_of(
                            function,
                            capability,
                            region,
                            offset,
                            width,
                            effect.read,
                        )
                    },
                },
            }
        },
        None => {
            &&& is_config_write(before, after, start, end, i, offset, size, value)
            &&& result == Ok::<PciConfigWriteOutcome, PciError>(
                if after[i].command() == function.command() {
                    PciConfigWriteOutcome::Complete
                } else {
                    PciConfigWriteOutcome::CommandChanged { token, command: after[i].command() }
                },
            )
        },
    }
}

/// Returns the token when its admission is open.
fn snapshot_if_admitted(
    binding: Option<EndpointRouteToken>,
    admissions: &EndpointAdmissions,
) -> (token: Option<EndpointRouteToken>)
    ensures
        token == admitted_token(binding, *admissions),
{
    match binding {
        Some(token) => if token.admission.0 < admissions.entries.len()
            && admissions.entries[token.admission.0].open {
            Some(token)
        } else {
            None
        },
        None => None,
    }
}

impl PciRootState {
    /// Prepares one complete config read.
    ///
    /// # Errors
    ///
    /// Returns [`PciError::InvalidConfigAccess`] under the same conditions as
    /// [`PciRootState::read_config`], for an access that crosses the edge of an
    /// endpoint-owned region, and for one into a region whose endpoint is not
    /// admitted.
    pub fn prepare_read_config(
        &self,
        bdf: PciBdf,
        offset: ConfigOffset,
        width: AccessWidth,
        admissions: &EndpointAdmissions,
    ) -> (result: PciResult<PciConfigReadOutcome>)
        requires
            self.wf(),
        ensures
            !valid_config_access(offset.0 as int, width) ==> result == Err::<
                PciConfigReadOutcome,
                PciError,
            >(invalid_config_access(offset.0, width)),
            valid_config_access(offset.0 as int, width) && self.is_absent(bdf) ==> result == Ok::<
                PciConfigReadOutcome,
                PciError,
            >(PciConfigReadOutcome::Value((lane_scale(width.bytes()) - 1) as u64)),
            valid_config_access(offset.0 as int, width) ==> forall|i: int|
                #![trigger self.functions@[i]]
                0 <= i < self.functions@.len() && self.functions@[i].bdf == bdf ==> is_read_outcome(
                    self.functions@[i],
                    admitted_token(self.bindings@[i], *admissions),
                    offset.0 as int,
                    width,
                    result,
                ),
    {
        let (at, size) = match offset.validate_access(width) {
            Ok(access) => access,
            Err(error) => {
                return Err(error);
            },
        };
        let index: usize = match self.function_index(bdf) {
            Some(index) => index,
            None => {
                return Ok(PciConfigReadOutcome::Value(all_ones(size)));
            },
        };
        proof {
            lemma_bdfs_distinct(*self, index as int);
        }
        let function = &self.functions[index];
        let token = snapshot_if_admitted(self.bindings[index], admissions);
        match function.config_effect(at, size, width, false) {
            Err(error) => {
                return Err(error);
            },
            Ok(Some((capability, region, relative, snapshot))) => match token {
                None => Err(
                    PciError::InvalidConfigAccess {
                        offset: offset.0,
                        width,
                        detail: "no endpoint is admitted for this capability region",
                    },
                ),
                Some(token) => Ok(
                    PciConfigReadOutcome::Effect {
                        token,
                        command: function.command_state(),
                        effect: PciConfigReadEffect::new(
                            capability,
                            region.effect,
                            relative,
                            width,
                            snapshot,
                        ),
                    },
                ),
            },
            Ok(None) => Ok(function_read_outcome(function, token, at, size, width)),
        }
    }

    /// Prepares a read of single bytes that meets no endpoint-owned region; it
    /// need not be aligned.
    pub fn prepare_lane_read(
        &self,
        bdf: PciBdf,
        offset: ConfigOffset,
        width: AccessWidth,
        admissions: &EndpointAdmissions,
    ) -> (outcome: PciConfigReadOutcome)
        requires
            self.wf(),
            offset.0 + width.bytes() <= 256,
        ensures
            self.is_absent(bdf) ==> outcome == PciConfigReadOutcome::Value(
                (lane_scale(width.bytes()) - 1) as u64,
            ),
            forall|i: int|
                #![trigger self.functions@[i]]
                0 <= i < self.functions@.len() && self.functions@[i].bdf == bdf ==> outcome
                    == plain_read_outcome(
                    self.functions@[i],
                    admitted_token(self.bindings@[i], *admissions),
                    offset.0 as int,
                    width,
                ),
    {
        let at: usize = offset.0 as usize;
        let size: usize = width.size();
        let index: usize = match self.function_index(bdf) {
            Some(index) => index,
            None => {
                return PciConfigReadOutcome::Value(all_ones(size));
            },
        };
        proof {
            lemma_bdfs_distinct(*self, index as int);
        }
        let function = &self.functions[index];
        let token = snapshot_if_admitted(self.bindings[index], admissions);
        function_read_outcome(function, token, at, size, width)
    }

    /// Prepares one complete config write and applies the root's part of it.
    ///
    /// # Errors
    ///
    /// Under the same conditions as [`PciRootState::prepare_read_config`].
    pub fn prepare_write_config(
        &mut self,
        bdf: PciBdf,
        offset: ConfigOffset,
        width: AccessWidth,
        value: u64,
        admissions: &EndpointAdmissions,
    ) -> (result: PciResult<PciConfigWriteOutcome>)
        requires
            old(self).wf(),
        ensures
            final(self).wf(),
            final(self).topology == old(self).topology,
            final(self).bindings == old(self).bindings,
            !valid_config_access(offset.0 as int, width) ==> result == Err::<
                PciConfigWriteOutcome,
                PciError,
            >(invalid_config_access(offset.0, width)) && final(self).functions@ == old(
                self,
            ).functions@,
            valid_config_access(offset.0 as int, width) && old(self).is_absent(bdf) ==> result
                == Ok::<PciConfigWriteOutcome, PciError>(PciConfigWriteOutcome::Complete)
                && final(self).functions@ == old(self).functions@,
            valid_config_access(offset.0 as int, width) ==> forall|i: int|
                #![trigger old(self).functions@[i]]
                0 <= i < old(self).functions@.len() && old(self).functions@[i].bdf == bdf
                    ==> is_write_outcome(
                    old(self).functions@,
                    final(self).functions@,
                    old(self).topology.aperture_start as int,
                    old(self).topology.aperture_end as int,
                    i,
                    admitted_token(old(self).bindings@[i], *admissions),
                    offset.0 as int,
                    width,
                    value,
                    result,
                ),
    {
        let (at, size) = match offset.validate_access(width) {
            Ok(access) => access,
            Err(error) => {
                return Err(error);
            },
        };
        let index: usize = match self.function_index(bdf) {
            Some(index) => index,
            None => {
                return Ok(PciConfigWriteOutcome::Complete);
            },
        };
        proof {
            lemma_bdfs_distinct(*self, index as int);
        }
        let token = snapshot_if_admitted(self.bindings[index], admissions);
        let command = self.functions[index].command_state();
        match self.functions[index].config_effect(at, size, width, true) {
            Err(error) => {
                return Err(error);
            },
            Ok(Some((capability, region, relative, snapshot))) => {
                return match token {
                    None => Err(
                        PciError::InvalidConfigAccess {
                            offset: offset.0,
                            width,
                            detail: "no endpoint is admitted for this capability region",
                        },
                    ),
                    Some(token) => Ok(
                        PciConfigWriteOutcome::Effect {
                            token,
                            command,
                            effect: PciConfigWriteEffect::new(
                                PciConfigReadEffect::new(
                                    capability,
                                    region.effect,
                                    relative,
                                    width,
                                    snapshot,
                                ),
                                value,
                                command.bus_master_enable,
                            ),
                        },
                    ),
                };
            },
            Ok(None) => {},
        }
        proof {
            lemma_valid_access(at as int, width);
        }
        self.write_function(index, at, size, value);
        let updated = self.functions[index].command_state();
        if updated == command {
            Ok(PciConfigWriteOutcome::Complete)
        } else {
            Ok(PciConfigWriteOutcome::CommandChanged { token, command: updated })
        }
    }

    /// Returns whether an access meets an endpoint-owned region; it need not be
    /// aligned.
    ///
    /// # Errors
    ///
    /// Returns [`PciError::InvalidConfigAccess`] for a qword access and for one
    /// that leaves the configuration space.
    pub fn config_access_intersects_effect(
        &self,
        bdf: PciBdf,
        offset: ConfigOffset,
        width: AccessWidth,
    ) -> (result: PciResult<bool>)
        requires
            self.wf(),
        ensures
            width == AccessWidth::Qword || offset.0 + width.bytes() > 256 ==> result == Err::<
                bool,
                PciError,
            >(invalid_config_access(offset.0, width)),
            !(width == AccessWidth::Qword || offset.0 + width.bytes() > 256) ==> {
                &&& result is Ok
                &&& self.is_absent(bdf) ==> result == Ok::<bool, PciError>(false)
                &&& forall|i: int|
                    #![trigger self.functions@[i]]
                    0 <= i < self.functions@.len() && self.functions@[i].bdf == bdf ==> result
                        == Ok::<bool, PciError>(
                        self.functions@[i].meets_config_effect(
                            offset.0 as int,
                            width.bytes() as int,
                        ),
                    )
            },
    {
        let at: usize = offset.0 as usize;
        let size: usize = width.size();
        if width == AccessWidth::Qword || at + size > 256 {
            return Err(
                PciError::InvalidConfigAccess {
                    offset: offset.0,
                    width,
                    detail: "access is not a naturally aligned byte, word or doubleword",
                },
            );
        }
        match self.function_index(bdf) {
            None => Ok(false),
            Some(index) => {
                proof {
                    lemma_bdfs_distinct(*self, index as int);
                }
                Ok(self.functions[index].intersects_config_effect(at, size))
            },
        }
    }

    /// Resolves one memory access to the bound endpoint behind it.
    ///
    /// Returns the endpoint's token, the route and the command register.
    pub fn resolve_bound_bar(&self, address: u64, width: AccessWidth) -> (route: Option<
        (EndpointRouteToken, PciBarRoute, PciCommandState),
    >)
        requires
            self.wf(),
        ensures
            route matches Some(found) ==> self.is_bound_route(
                address,
                width,
                found.0,
                found.1,
                found.2,
            ),
            route is None ==> forall|i: int, b: int|
                #[trigger] bar_serves(
                    self.functions@,
                    i,
                    b,
                    address as int,
                    width.bytes() as int,
                ) ==> self.bindings@[i] is None,
    {
        let found = match self.resolve_route(address, width) {
            Some(found) => found,
            None => {
                return None;
            },
        };
        proof {
            law_route_is_unique(*self, address as int, width.bytes() as int);
        }
        let command = self.functions[found.function].command_state();
        match self.bindings[found.function] {
            Some(token) => {
                proof {
                    assert(self.is_route_of(
                        found.function as int,
                        found.bar as int,
                        address,
                        width,
                        token,
                        found.route,
                        command,
                    ));
                }
                Some((token, found.route, command))
            },
            None => None,
        }
    }

    /// Whether an access reaches the endpoint bound to function `i` through its
    /// BAR `b`.
    pub open spec fn is_route_of(
        self,
        i: int,
        b: int,
        address: u64,
        width: AccessWidth,
        token: EndpointRouteToken,
        route: PciBarRoute,
        command: PciCommandState,
    ) -> bool {
        &&& is_route(self.functions@, i, b, address, width, route)
        &&& self.bindings@[i] == Some(token)
        &&& command == self.functions@[i].command()
    }

    /// Whether an access reaches a bound endpoint.
    pub open spec fn is_bound_route(
        self,
        address: u64,
        width: AccessWidth,
        token: EndpointRouteToken,
        route: PciBarRoute,
        command: PciCommandState,
    ) -> bool {
        exists|i: int, b: int|
            #[trigger] self.is_route_of(i, b, address, width, token, route, command)
    }

    /// Binds an endpoint to a function.
    ///
    /// # Errors
    ///
    /// Returns [`PciError::UnknownFunction`] when the topology has no such
    /// function, and [`PciError::FunctionAlreadyBound`] when it has an endpoint.
    pub fn bind_endpoint(&mut self, function_id: &DeviceNodeId, token: EndpointRouteToken) -> (result:
        PciResult<()>)
        requires
            old(self).wf(),
        ensures
            final(self).wf(),
            final(self).topology == old(self).topology,
            final(self).functions == old(self).functions,
            match old(self).topology.position_of(function_id@, 0) {
                None => result == Err::<(), PciError>(
                    PciError::UnknownFunction { function: *function_id },
                ) && final(self).bindings@ == old(self).bindings@,
                Some(i) => if old(self).bindings@[i as int] is Some {
                    result == Err::<(), PciError>(
                        PciError::FunctionAlreadyBound { function: *function_id },
                    ) && final(self).bindings@ == old(self).bindings@
                } else {
                    result == Ok::<(), PciError>(()) && final(self).bindings@ == old(
                        self,
                    ).bindings@.update(i as int, Some(token))
                },
            },
    {
        match self.topology.function_position(function_id) {
            None => Err(PciError::UnknownFunction { function: function_id.clone() }),
            Some(index) => {
                if self.bindings[index].is_some() {
                    return Err(PciError::FunctionAlreadyBound { function: function_id.clone() });
                }
                self.bindings.set(index, Some(token));
                Ok(())
            },
        }
    }

    /// Withdraws every route to `device`.
    pub fn unbind_device(&mut self, device: DeviceId)
        requires
            old(self).wf(),
        ensures
            final(self).wf(),
            final(self).topology == old(self).topology,
            final(self).functions == old(self).functions,
            forall|i: int|
                #![trigger final(self).bindings@[i]]
                0 <= i < old(self).bindings@.len() ==> final(self).bindings@[i] == (match old(
                    self,
                ).bindings@[i] {
                    Some(token) if token.device == device => None,
                    binding => binding,
                }),
    {
        let mut i: usize = 0;
        while i < self.bindings.len()
            invariant
                i <= self.bindings@.len() == old(self).bindings@.len(),
                self.topology == old(self).topology,
                self.functions == old(self).functions,
                forall|j: int|
                    #![trigger self.bindings@[j]]
                    0 <= j < self.bindings@.len() ==> self.bindings@[j] == (match old(
                        self,
                    ).bindings@[j] {
                        Some(token) if token.device == device && j < i => None,
                        binding => binding,
                    }),
            decreases self.bindings@.len() - i,
        {
            if let Some(token) = self.bindings[i] {
                if token.device == device {
                    self.bindings.set(i, None);
                }
            }
            i = i + 1;
        }
    }

    /// Withdraws the route that `token` names.
    pub fn unbind_endpoint(&mut self, token: &EndpointRouteToken)
        requires
            old(self).wf(),
        ensures
            final(self).wf(),
            final(self).topology == old(self).topology,
            final(self).functions == old(self).functions,
            forall|i: int|
                #![trigger final(self).bindings@[i]]
                0 <= i < old(self).bindings@.len() ==> final(self).bindings@[i] == (if old(
                    self,
                ).bindings@[i] == Some(*token) {
                    None
                } else {
                    old(self).bindings@[i]
                }),
    {
        let mut i: usize = 0;
        while i < self.bindings.len()
            invariant
                i <= self.bindings@.len() == old(self).bindings@.len(),
                self.topology == old(self).topology,
                self.functions == old(self).functions,
                forall|j: int|
                    #![trigger self.bindings@[j]]
                    0 <= j < self.bindings@.len() ==> self.bindings@[j] == (if j < i && old(
                        self,
                    ).bindings@[j] == Some(*token) {
                        None
                    } else {
                        old(self).bindings@[j]
                    }),
            decreases self.bindings@.len() - i,
        {
            if let Some(registered) = self.bindings[i] {
                if registered == *token {
                    self.bindings.set(i, None);
                }
            }
            i = i + 1;
        }
    }

    /// Resets every function and returns the command register of each bound one.
    pub fn reset_and_snapshot_commands(&mut self) -> (commands: Vec<(DeviceId, PciCommandState)>)
        requires
            old(self).wf(),
        ensures
            final(self).wf(),
            final(self).at_power_on(),
            final(self).topology == old(self).topology,
            final(self).bindings == old(self).bindings,
            commands@ == bound_commands(
                final(self).functions@,
                final(self).bindings@,
                final(self).bindings@.len() as int,
            ),
    {
        self.reset();
        let mut commands: Vec<(DeviceId, PciCommandState)> = Vec::new();
        let mut i: usize = 0;
        while i < self.bindings.len()
            invariant
                i <= self.bindings@.len() == self.functions@.len(),
                commands@ == bound_commands(self.functions@, self.bindings@, i as int),
            decreases self.bindings@.len() - i,
        {
            if let Some(token) = self.bindings[i] {
                commands.push((token.device, self.functions[i].command_state()));
            }
            i = i + 1;
        }
        commands
    }

    /// Replaces the tokens of rotated admissions.
    pub fn replace_endpoint_tokens(
        &mut self,
        replacements: &Vec<(EndpointRouteToken, EndpointRouteToken)>,
    )
        requires
            old(self).wf(),
        ensures
            final(self).wf(),
            final(self).topology == old(self).topology,
            final(self).functions == old(self).functions,
            forall|i: int|
                #![trigger final(self).bindings@[i]]
                0 <= i < old(self).bindings@.len() ==> final(self).bindings@[i] == (match old(
                    self,
                ).bindings@[i] {
                    Some(token) => Some(replaced_token(replacements@, token, 0)),
                    None => None,
                }),
    {
        let mut i: usize = 0;
        while i < self.bindings.len()
            invariant
                i <= self.bindings@.len() == old(self).bindings@.len(),
                self.topology == old(self).topology,
                self.functions == old(self).functions,
                forall|j: int|
                    #![trigger self.bindings@[j]]
                    0 <= j < self.bindings@.len() ==> self.bindings@[j] == (match old(
                        self,
                    ).bindings@[j] {
                        Some(token) if j < i => Some(replaced_token(replacements@, token, 0)),
                        binding => binding,
                    }),
            decreases self.bindings@.len() - i,
        {
            if let Some(token) = self.bindings[i] {
                let mut k: usize = 0;
                while k < replacements.len() && replacements[k].0 != token
                    invariant
                        k <= replacements@.len(),
                        replaced_token(replacements@, token, 0) == replaced_token(
                            replacements@,
                            token,
                            k as nat,
                        ),
                    decreases replacements@.len() - k,
                {
                    k = k + 1;
                }
                if k < replacements.len() {
                    self.bindings.set(i, Some(replacements[k].1));
                }
            }
            i = i + 1;
        }
    }
}

/// The device and command register of each bound one of the first `count`
/// functions.
pub open spec fn bound_commands(
    functions: Seq<FunctionState>,
    bindings: Seq<Option<EndpointRouteToken>>,
    count: int,
) -> Seq<(DeviceId, PciCommandState)>
    decreases count,
{
    if count <= 0 {
        Seq::empty()
    } else {
        let rest = bound_commands(functions, bindings, count - 1);
        match bindings[count - 1] {
            Some(token) => rest.push((token.device, functions[count - 1].command())),
            None => rest,
        }
    }
}

/// What `token` is replaced with: the second of the first pair, at or after
/// `from`, that begins with it, or itself.
pub open spec fn replaced_token(
    replacements: Seq<(EndpointRouteToken, EndpointRouteToken)>,
    token: EndpointRouteToken,
    from: nat,
) -> EndpointRouteToken
    decreases replacements.len() - from,
{
    if from >= replacements.len() {
        token
    } else if replacements[from as int].0 == token {
        replacements[from as int].1
    } else {
        replaced_token(replacements, token, from + 1)
    }
}

/// At most one BAR serves an access.
pub proof fn law_route_is_unique(root: PciRootState, address: int, size: int)
    requires
        root.wf(),
        size > 0,
    ensures
        forall|i: int, b: int, j: int, c: int|
            #[trigger] bar_serves(root.functions@, i, b, address, size) && #[trigger] bar_serves(
                root.functions@,
                j,
                c,
                address,
                size,
            ) ==> i == j && b == c,
{
    assert forall|i: int, b: int, j: int, c: int|
        #[trigger] bar_serves(root.functions@, i, b, address, size) && #[trigger] bar_serves(
            root.functions@,
            j,
            c,
            address,
            size,
        ) implies i == j && b == c by {
        let first = root.functions@[i].bars@[b];
        let second = root.functions@[j].bars@[c];
        if i != j || b != c {
            assert(!ranges_overlap(
                first.address as int,
                first.plan.size as int,
                second.address as int,
                second.plan.size as int,
            ));
        }
    }
}

} // verus!
