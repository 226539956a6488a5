//! Building and freezing a conventional PCI topology.

use crate::access::{DeviceNodeId, ResourceRequest};
#[allow(unused_imports)]
use crate::access::{lemma_name_before_total, lemma_name_before_transitive, name_before};
use crate::pci::address::{PciBarIndex, PciBdf};
use crate::pci::bar::{ResolvedBarPlan, FOUR_GIB};
use crate::pci::capability::PciCapabilityLayout;
use crate::pci::config::PowerOnConfig;
#[allow(unused_imports)]
use crate::pci::config::{power_on_bytes, power_on_masks};
use crate::pci::error::{PciError, PciResult};
use crate::pci::function::PciFunctionSpec;
use crate::pci::placement::{place_bars, place_bdfs, place_capabilities, BarRequest};
#[allow(unused_imports)]
use crate::pci::placement::{
    bars_placed, bdfs_placed, capabilities_fit, capabilities_placed, fits_aperture,
    fixed_bars_valid, is_bar_error, is_bdf_error, law_placed_bars_are_disjoint,
    law_placed_bdfs_are_distinct, ranges_overlap,
};
use core::ops::Range;
use vstd::prelude::*;

verus! {

/// A BAR with its resolved address.
pub type ResolvedPciBar = ResolvedBarPlan;

/// The address requests of some functions.
pub open spec fn bdf_requests(specs: Seq<PciFunctionSpec>) -> Seq<ResourceRequest<PciBdf>> {
    Seq::new(specs.len(), |i: int| specs[i].bdf)
}

/// The BAR requests of one function.
pub open spec fn function_bar_requests(spec: PciFunctionSpec) -> Seq<BarRequest> {
    Seq::new(
        spec.bars@.len(),
        |b: int|
            BarRequest {
                bar: spec.bars@[b].index.0,
                size: spec.bars@[b].size,
                address: spec.bars@[b].address,
            },
    )
}

/// The BAR requests of some functions, one function after another.
pub open spec fn bar_requests(specs: Seq<PciFunctionSpec>) -> Seq<BarRequest>
    decreases specs.len(),
{
    if specs.len() == 0 {
        Seq::empty()
    } else {
        bar_requests(specs.drop_last()) + function_bar_requests(specs.last())
    }
}

/// Position of the first BAR request of function `i`.
pub open spec fn bar_base(specs: Seq<PciFunctionSpec>, i: int) -> int {
    bar_requests(specs.take(i)).len() as int
}

/// One function with its resolved address, BARs and config image.
#[derive(Debug)]
pub struct ResolvedPciFunction {
    /// Graph identity.
    pub id: DeviceNodeId,
    /// Address.
    pub bdf: PciBdf,
    /// BARs with their addresses.
    pub bars: Vec<ResolvedBarPlan>,
    /// Power-on image.
    pub power_on: PowerOnConfig,
    /// Whether the function has a legacy interrupt pin.
    pub intx: bool,
}

impl ResolvedPciFunction {
    /// The image is well formed, and every BAR fits the aperture.
    pub open spec fn wf(self, start: int, end: int) -> bool {
        &&& self.power_on.wf()
        &&& forall|b: int|
            #![trigger self.bars@[b]]
            0 <= b < self.bars@.len() ==> self.bars@[b].wf() && fits_aperture(
                self.bars@[b].address as int,
                self.bars@[b].size as int,
                start,
                end,
            )
    }

    /// Whether this is `spec` at `bdf` with the BAR addresses from `base` on.
    pub open spec fn resolves(
        self,
        spec: PciFunctionSpec,
        bdf: PciBdf,
        addresses: Seq<Option<u64>>,
        base: int,
    ) -> bool {
        &&& self.id == spec.id
        &&& self.bdf == bdf
        &&& self.intx == spec.intx
        &&& self.bars@.len() == spec.bars@.len()
        &&& forall|b: int|
            #![trigger self.bars@[b]]
            0 <= b < self.bars@.len() ==> self.bars@[b] == (ResolvedBarPlan {
                index: spec.bars@[b].index,
                size: spec.bars@[b].size,
                address: addresses[base + b]->0,
            })
        &&& capabilities_placed(spec.capabilities@, self.power_on.capabilities@)
        &&& self.power_on.bytes@ == power_on_bytes(
            spec.identity,
            self.bars@,
            spec.config_bytes@,
            self.power_on.capabilities@,
        )
        &&& self.power_on.write_mask@ == power_on_masks(
            spec.config_bytes@,
            self.power_on.capabilities@,
        )
    }

    /// Returns the graph identity.
    pub fn id(&self) -> (id: &DeviceNodeId)
        ensures
            *id == self.id,
    {
        &self.id
    }

    /// Returns the address.
    pub fn bdf(&self) -> (bdf: PciBdf)
        ensures
            bdf == self.bdf,
    {
        self.bdf
    }

    /// Returns the BAR in slot `index`.
    pub fn bar(&self, index: PciBarIndex) -> (bar: Option<ResolvedPciBar>)
        ensures
            bar matches Some(bar) ==> bar.index == index && self.bars@.contains(bar),
            bar is None ==> forall|b: int|
                #![trigger self.bars@[b]]
                0 <= b < self.bars@.len() ==> self.bars@[b].index != index,
    {
        let mut i: usize = 0;
        while i < self.bars.len()
            invariant
                i <= self.bars@.len(),
                forall|b: int|
                    #![trigger self.bars@[b]]
                    0 <= b < i ==> self.bars@[b].index != index,
            decreases self.bars@.len() - i,
        {
            if self.bars[i].index == index {
                assert(self.bars@[i as int].index == index);
                return Some(self.bars[i]);
            }
            i = i + 1;
        }
        None
    }

    /// Returns the capabilities in list order.
    pub fn capabilities(&self) -> (capabilities: &Vec<PciCapabilityLayout>)
        ensures
            *capabilities == self.power_on.capabilities,
    {
        &self.power_on.capabilities
    }
}

/// A frozen topology.
#[derive(Debug)]
pub struct ResolvedPciTopology {
    /// First address of the memory aperture.
    pub aperture_start: u64,
    /// Address behind the memory aperture.
    pub aperture_end: u64,
    /// Functions in the order of their addresses.
    pub functions: Vec<ResolvedPciFunction>,
}

impl ResolvedPciTopology {
    /// The functions have strictly increasing addresses and different
    /// identities, their BARs fit the aperture, and no two BARs overlap.
    pub open spec fn wf(self) -> bool {
        &&& self.aperture_start < self.aperture_end <= FOUR_GIB
        &&& forall|i: int|
            #![trigger self.functions@[i]]
            0 <= i < self.functions@.len() ==> self.functions@[i].wf(
                self.aperture_start as int,
                self.aperture_end as int,
            )
        &&& forall|i: int, j: int|
            #![trigger self.functions@[i], self.functions@[j]]
            0 <= i < j < self.functions@.len() ==> self.functions@[i].bdf.before(
                self.functions@[j].bdf,
            ) && self.functions@[i].id@ != self.functions@[j].id@
        &&& forall|i: int, b: int, j: int, c: int|
            #![trigger self.functions@[i].bars@[b], self.functions@[j].bars@[c]]
            0 <= i < self.functions@.len() && 0 <= b < self.functions@[i].bars@.len() && 0 <= j
                < self.functions@.len() && 0 <= c < self.functions@[j].bars@.len() && (i != j || b
                != c) ==> !ranges_overlap(
                self.functions@[i].bars@[b].address as int,
                self.functions@[i].bars@[b].size as int,
                self.functions@[j].bars@[c].address as int,
                self.functions@[j].bars@[c].size as int,
            )
    }

    /// Returns the memory aperture.
    pub fn memory_aperture(&self) -> (aperture: Range<u64>)
        ensures
            aperture.start == self.aperture_start,
            aperture.end == self.aperture_end,
    {
        self.aperture_start..self.aperture_end
    }

    /// Position of the function with identity `id`.
    pub open spec fn position_of(self, id: Seq<char>, from: nat) -> Option<nat>
        decreases self.functions@.len() - from,
    {
        if from >= self.functions@.len() {
            None
        } else if self.functions@[from as int].id@ == id {
            Some(from)
        } else {
            self.position_of(id, from + 1)
        }
    }

    /// Returns the position of the function with identity `id`.
    pub fn function_position(&self, id: &DeviceNodeId) -> (position: Option<usize>)
        ensures
            position is Some <==> self.position_of(id@, 0) is Some,
            position matches Some(p) ==> p < self.functions@.len() && self.position_of(id@, 0)
                == Some(p as nat) && self.functions@[p as int].id@ == id@,
    {
        let mut i: usize = 0;
        while i < self.functions.len()
            invariant
                i <= self.functions@.len(),
                self.position_of(id@, 0) == self.position_of(id@, i as nat),
            decreases self.functions@.len() - i,
        {
            if self.functions[i].id.same(id) {
                return Some(i);
            }
            i = i + 1;
        }
        None
    }

    /// Returns the function with identity `id`.
    pub fn function(&self, id: &DeviceNodeId) -> (function: Option<&ResolvedPciFunction>)
        ensures
            match self.position_of(id@, 0) {
                Some(p) => function == Some(&self.functions@[p as int]),
                None => function is None,
            },
    {
        match self.function_position(id) {
            Some(i) => Some(&self.functions[i]),
            None => None,
        }
    }
}

/// A position that is found exists.
pub proof fn lemma_position_of(topology: ResolvedPciTopology, id: Seq<char>, from: nat)
    ensures
        topology.position_of(id, from) matches Some(p) ==> p < topology.functions@.len()
            && topology.functions@[p as int].id@ == id,
    decreases topology.functions@.len() - from,
{
    if from < topology.functions@.len() && topology.functions@[from as int].id@ != id {
        lemma_position_of(topology, id, from + 1);
    }
}

/// Collects functions and reservations for one bus.
#[derive(Debug)]
pub struct PciTopologyBuilder {
    /// Functions in the order of their names.
    pub functions: Vec<PciFunctionSpec>,
    /// Addresses that no function may have.
    pub reserved: Vec<PciBdf>,
}

impl PciTopologyBuilder {
    /// The functions are well formed and strictly increasing by name.
    pub open spec fn wf(self) -> bool {
        &&& forall|i: int|
            #![trigger self.functions@[i]]
            0 <= i < self.functions@.len() ==> self.functions@[i].wf()
        &&& forall|i: int, j: int|
            #![trigger self.functions@[i], self.functions@[j]]
            0 <= i < j < self.functions@.len() ==> name_before(
                self.functions@[i].id@,
                self.functions@[j].id@,
            )
    }

    /// Creates an empty builder.
    pub fn new() -> (builder: Self)
        ensures
            builder.wf(),
            builder.functions@ == Seq::<PciFunctionSpec>::empty(),
            builder.reserved@ == Seq::<PciBdf>::empty(),
    {
        PciTopologyBuilder { functions: Vec::new(), reserved: Vec::new() }
    }

    /// Keeps `bdf` free.
    ///
    /// # Errors
    ///
    /// Returns [`PciError::BdfReserved`] when it is already reserved.
    pub fn reserve_bdf(&mut self, bdf: PciBdf) -> (result: PciResult<()>)
        ensures
            final(self).functions == old(self).functions,
            old(self).reserved@.contains(bdf) ==> result == Err::<(), PciError>(
                PciError::BdfReserved { bdf },
            ) && final(self).reserved@ == old(self).reserved@,
            !old(self).reserved@.contains(bdf) ==> result == Ok::<(), PciError>(())
                && final(self).reserved@ == old(self).reserved@.push(bdf),
    {
        let mut i: usize = 0;
        while i < self.reserved.len()
            invariant
                i <= self.reserved@.len(),
                *self == *old(self),
                forall|j: int| 0 <= j < i ==> self.reserved@[j] != bdf,
            decreases self.reserved@.len() - i,
        {
            if self.reserved[i] == bdf {
                return Err(PciError::BdfReserved { bdf });
            }
            i = i + 1;
        }
        self.reserved.push(bdf);
        Ok(())
    }

    /// Whether a function with this identity was added.
    pub open spec fn has_function(self, id: Seq<char>) -> bool {
        exists|i: int|
            #![trigger self.functions@[i]]
            0 <= i < self.functions@.len() && self.functions@[i].id@ == id
    }

    /// Adds one function.
    ///
    /// # Errors
    ///
    /// Returns [`PciError::DuplicateFunction`] when one with its identity was
    /// added before.
    pub fn add_function(&mut self, function: PciFunctionSpec) -> (result: PciResult<()>)
        requires
            old(self).wf(),
            function.wf(),
        ensures
            final(self).wf(),
            final(self).reserved == old(self).reserved,
            old(self).has_function(function.id@) ==> {
                &&& result matches Err(PciError::DuplicateFunction { function: id })
                &&& id == function.id
                &&& final(self).functions@ == old(self).functions@
            },
            !old(self).has_function(function.id@) ==> {
                &&& result == Ok::<(), PciError>(())
                &&& exists|at: int|
                    0 <= at <= old(self).functions@.len() && final(self).functions@ == #[trigger] old(
                        self,
                    ).functions@.insert(at, function)
            },
    {
        let mut i: usize = 0;
        while i < self.functions.len()
            invariant
                i <= self.functions@.len(),
                old(self).wf(),
                *self == *old(self),
                forall|j: int|
                    #![trigger self.functions@[j]]
                    0 <= j < i ==> self.functions@[j].id@ != function.id@,
            decreases self.functions@.len() - i,
        {
            if self.functions[i].id.same(&function.id) {
                assert(self.functions@[i as int].id@ == function.id@);
                return Err(PciError::DuplicateFunction { function: function.id });
            }
            i = i + 1;
        }
        let mut at: usize = 0;
        while at < self.functions.len() && !function.id.precedes(&self.functions[at].id)
            invariant
                at <= self.functions@.len(),
                *self == *old(self),
                forall|j: int|
                    #![trigger self.functions@[j]]
                    0 <= j < at ==> !name_before(function.id@, self.functions@[j].id@),
            decreases self.functions@.len() - at,
        {
            at = at + 1;
        }
        proof {
            let added = self.functions@.insert(at as int, function);
            assert forall|j: int| #![trigger added[j]] 0 <= j < added.len() implies added[j].wf() by {
                if j < at {
                    assert(added[j] == self.functions@[j]);
                } else if j > at {
                    assert(added[j] == self.functions@[j - 1]);
                }
            }
            assert forall|j: int, k: int|
                #![trigger added[j], added[k]]
                0 <= j < k < added.len() implies name_before(added[j].id@, added[k].id@) by {
                if j < at {
                    assert(added[j] == self.functions@[j]);
                } else if j > at {
                    assert(added[j] == self.functions@[j - 1]);
                }
                if k < at {
                    assert(added[k] == self.functions@[k]);
                } else if k > at {
                    assert(added[k] == self.functions@[k - 1]);
                }
                if k == at {
                    lemma_name_before_total(added[j].id@, function.id@);
                } else if j == at && k > at + 1 {
                    lemma_name_before_transitive(
                        function.id@,
                        self.functions@[at as int].id@,
                        added[k].id@,
                    );
                }
            }
        }
        self.functions.insert(at, function);
        Ok(())
    }
}

/// Whether the builder's functions resolve to `topology`: function `origin[j]` in
/// the order of names is function `j` in the order of addresses.
pub open spec fn is_resolution(
    builder: PciTopologyBuilder,
    topology: ResolvedPciTopology,
    bdfs: Seq<PciBdf>,
    addresses: Seq<Option<u64>>,
    origin: Seq<int>,
) -> bool {
    let specs = builder.functions@;
    &&& bdfs_placed(bdf_requests(specs), builder.reserved@, bdfs)
    &&& fixed_bars_valid(
        bar_requests(specs),
        topology.aperture_start as int,
        topology.aperture_end as int,
    )
    &&& bars_placed(
        bar_requests(specs),
        addresses,
        topology.aperture_start as int,
        topology.aperture_end as int,
    )
    &&& all_placed(addresses)
    &&& no_function_fault(specs, specs.len() as int)
    &&& resolved_prefix(specs, bdfs, addresses, topology.functions@, origin, specs.len() as int)
}

/// Whether every BAR has an address.
pub open spec fn all_placed(addresses: Seq<Option<u64>>) -> bool {
    forall|i: int| #![trigger addresses[i]] 0 <= i < addresses.len() ==> addresses[i] is Some
}

/// Whether none of the first `count` functions is at fault.
pub open spec fn no_function_fault(specs: Seq<PciFunctionSpec>, count: int) -> bool {
    forall|i: int| #![trigger specs[i]] 0 <= i < count ==> function_fault(specs[i]) is None
}

/// Whether `functions` are the first `count` functions, resolved and ordered by
/// address.
pub open spec fn resolved_prefix(
    specs: Seq<PciFunctionSpec>,
    bdfs: Seq<PciBdf>,
    addresses: Seq<Option<u64>>,
    functions: Seq<ResolvedPciFunction>,
    origin: Seq<int>,
    count: int,
) -> bool {
    &&& functions.len() == count
    &&& origin.len() == count
    &&& forall|j: int|
        #![trigger functions[j]]
        #![trigger origin[j]]
        0 <= j < count ==> 0 <= origin[j] < count && functions[j].resolves(
            specs[origin[j]],
            bdfs[origin[j]],
            addresses,
            bar_base(specs, origin[j]),
        )
    &&& forall|i: int| #![trigger origin.contains(i)] 0 <= i < count ==> origin.contains(i)
    &&& forall|j: int, k: int|
        #![trigger functions[j], functions[k]]
        0 <= j < k < count ==> functions[j].bdf.before(functions[k].bdf)
}

/// What keeps function `i` from being presented to a guest: capabilities that do
/// not fit, or an identity that stands for an absent function.
pub open spec fn function_fault(spec: PciFunctionSpec) -> Option<PciError> {
    if !capabilities_fit(spec.capabilities@) {
        Some(PciError::InvalidCapability { detail: "capabilities exceed the configuration space" })
    } else if !spec.identity.wf() {
        Some(
            PciError::InvalidEndpointIdentity {
                detail: "vendor ID 0xffff denotes an absent function",
            },
        )
    } else {
        None
    }
}

/// Whether resolving fails with `error`: for the aperture, then for an address,
/// then for a BAR, then for the first faulty function in the order of names.
pub open spec fn is_resolve_error(
    builder: PciTopologyBuilder,
    start: u64,
    end: u64,
    error: PciError,
) -> bool {
    let specs = builder.functions@;
    if !(start < end && end <= FOUR_GIB) {
        error == (PciError::InvalidHostAperture { start, end })
    } else {
        ||| is_bdf_error(bdf_requests(specs), builder.reserved@, error)
        ||| (exists|bdfs: Seq<PciBdf>|
            #[trigger] bdfs_placed(bdf_requests(specs), builder.reserved@, bdfs)) && is_bar_error(
            bar_requests(specs),
            start as int,
            end as int,
            error,
        )
        ||| (exists|bdfs: Seq<PciBdf>|
            #[trigger] bdfs_placed(bdf_requests(specs), builder.reserved@, bdfs)) && (exists|
            addresses: Seq<Option<u64>>,
        |
            #[trigger] bars_placed(bar_requests(specs), addresses, start as int, end as int)
                && all_placed(addresses)) && fixed_bars_valid(
            bar_requests(specs),
            start as int,
            end as int,
        ) && is_first_function_fault(specs, error)
    }
}

/// Whether `error` is the fault of the first faulty function.
pub open spec fn is_first_function_fault(specs: Seq<PciFunctionSpec>, error: PciError) -> bool {
    exists|i: int|
        #![trigger specs[i]]
        0 <= i < specs.len() && function_fault(specs[i]) == Some(error) && forall|j: int|
            #![trigger specs[j]]
            0 <= j < i ==> function_fault(specs[j]) is None
}

/// The BAR requests of function `i` stand in the flat list from its base on, and
/// those of the next function follow them.
pub proof fn lemma_bar_base(specs: Seq<PciFunctionSpec>, i: int, b: int)
    requires
        0 <= i < specs.len(),
        0 <= b <= specs[i].bars@.len(),
    ensures
        bar_base(specs, i + 1) == bar_base(specs, i) + specs[i].bars@.len(),
        bar_base(specs, i) + specs[i].bars@.len() <= bar_requests(specs).len(),
        b < specs[i].bars@.len() ==> bar_requests(specs)[bar_base(specs, i) + b]
            == function_bar_requests(specs[i])[b],
    decreases specs.len(),
{
    assert(specs.take(i + 1).drop_last() =~= specs.take(i));
    if i == specs.len() - 1 {
        assert(specs.take(i + 1) =~= specs);
    } else {
        lemma_bar_base(specs.drop_last(), i, b);
        assert(specs.drop_last().take(i) =~= specs.take(i));
        assert(specs.drop_last().take(i + 1) =~= specs.take(i + 1));
    }
}

/// The bases of the functions do not decrease.
proof fn lemma_bar_base_monotonic(specs: Seq<PciFunctionSpec>, i: int, k: int)
    requires
        0 <= i < k <= specs.len(),
    ensures
        bar_base(specs, i) + specs[i].bars@.len() <= bar_base(specs, k),
    decreases k - i,
{
    lemma_bar_base(specs, i, 0);
    if i + 1 < k {
        lemma_bar_base_monotonic(specs, i + 1, k);
    }
}

/// Resolved functions make a well-formed topology.
proof fn lemma_resolution_wf(
    builder: PciTopologyBuilder,
    topology: ResolvedPciTopology,
    bdfs: Seq<PciBdf>,
    addresses: Seq<Option<u64>>,
    origin: Seq<int>,
)
    requires
        builder.wf(),
        topology.aperture_start < topology.aperture_end <= FOUR_GIB,
        is_resolution(builder, topology, bdfs, addresses, origin),
        forall|j: int|
            #![trigger topology.functions@[j]]
            0 <= j < topology.functions@.len() ==> topology.functions@[j].power_on.wf(),
    ensures
        topology.wf(),
{
    let specs = builder.functions@;
    let requests = bar_requests(specs);
    let start = topology.aperture_start as int;
    let end = topology.aperture_end as int;
    let functions = topology.functions@;
    law_placed_bars_are_disjoint(requests, addresses, start, end);
    lemma_origin_distinct(origin, specs.len() as int);
    assert forall|j: int| #![trigger functions[j]] 0 <= j < functions.len() implies functions[j].wf(
        start,
        end,
    ) by {
        let i = origin[j];
        assert forall|b: int|
            #![trigger functions[j].bars@[b]]
            0 <= b < functions[j].bars@.len() implies functions[j].bars@[b].wf() && fits_aperture(
            functions[j].bars@[b].address as int,
            functions[j].bars@[b].size as int,
            start,
            end,
        ) by {
            lemma_bar_base(specs, i, b);
            assert(specs[i].wf());
            assert(specs[i].bars@[b].wf());
            assert(addresses[bar_base(specs, i) + b] is Some);
            assert(requests[bar_base(specs, i) + b].size == functions[j].bars@[b].size);
        }
    }
    assert forall|j: int, k: int|
        #![trigger functions[j], functions[k]]
        0 <= j < k < functions.len() implies functions[j].bdf.before(functions[k].bdf)
        && functions[j].id@ != functions[k].id@ by {
        let i = origin[j];
        let m = origin[k];
        assert(i != m);
        lemma_name_not_before_itself(specs[i].id@);
        if i < m {
            assert(name_before(specs[i].id@, specs[m].id@));
        } else {
            assert(name_before(specs[m].id@, specs[i].id@));
        }
    }
    assert forall|j: int, b: int, k: int, c: int|
        #![trigger functions[j].bars@[b], functions[k].bars@[c]]
        0 <= j < functions.len() && 0 <= b < functions[j].bars@.len() && 0 <= k < functions.len()
            && 0 <= c < functions[k].bars@.len() && (j != k || b != c) implies !ranges_overlap(
        functions[j].bars@[b].address as int,
        functions[j].bars@[b].size as int,
        functions[k].bars@[c].address as int,
        functions[k].bars@[c].size as int,
    ) by {
        let i = origin[j];
        let m = origin[k];
        lemma_bar_base(specs, i, b);
        lemma_bar_base(specs, m, c);
        let x = bar_base(specs, i) + b;
        let y = bar_base(specs, m) + c;
        if j != k {
            assert(i != m);
            if i < m {
                lemma_bar_base_monotonic(specs, i, m);
            } else {
                lemma_bar_base_monotonic(specs, m, i);
            }
        }
        assert(x != y);
        assert(addresses[x] is Some && addresses[y] is Some);
        assert(requests[x].size == functions[j].bars@[b].size);
        assert(requests[y].size == functions[k].bars@[c].size);
    }
}

/// No name comes before itself.
proof fn lemma_name_not_before_itself(name: Seq<char>)
    ensures
        !name_before(name, name),
{
    lemma_bytes_not_before(vstd::utf8::encode_utf8(name));
}

/// No byte string comes before itself.
proof fn lemma_bytes_not_before(bytes: Seq<u8>)
    ensures
        !crate::access::bytes_before(bytes, bytes),
    decreases bytes.len(),
{
    if bytes.len() > 0 {
        lemma_bytes_not_before(bytes.drop_first());
    }
}

/// A sequence as long as the range it covers holds nothing twice.
proof fn lemma_origin_distinct(origin: Seq<int>, count: int)
    requires
        origin.len() == count,
        forall|i: int| #![trigger origin.contains(i)] 0 <= i < count ==> origin.contains(i),
    ensures
        forall|j: int, k: int|
            #![trigger origin[j], origin[k]]
            0 <= j < k < count ==> origin[j] != origin[k],
{
    let range = vstd::set_lib::set_int_range(0, count);
    vstd::set_lib::lemma_int_range(0, count);
    assert(range.subset_of(origin.to_set())) by {
        assert forall|i: int| range.contains(i) implies origin.to_set().contains(i) by {
            assert(origin.contains(i));
        }
    }
    origin.lemma_cardinality_of_set();
    vstd::set_lib::lemma_len_subset(range, origin.to_set());
    origin.lemma_no_dup_set_cardinality();
}

/// Adding function `count` to the resolved ones, where its address belongs.
proof fn lemma_insert_resolved(
    specs: Seq<PciFunctionSpec>,
    bdfs: Seq<PciBdf>,
    addresses: Seq<Option<u64>>,
    functions: Seq<ResolvedPciFunction>,
    origin: Seq<int>,
    count: int,
    at: int,
    function: ResolvedPciFunction,
)
    requires
        0 <= count < specs.len(),
        bdfs.len() == specs.len(),
        resolved_prefix(specs, bdfs, addresses, functions, origin, count),
        0 <= at <= count,
        function.resolves(specs[count], bdfs[count], addresses, bar_base(specs, count)),
        forall|i: int, j: int|
            #![trigger bdfs[i], bdfs[j]]
            0 <= i < j < bdfs.len() ==> bdfs[i] != bdfs[j],
        forall|j: int|
            #![trigger functions[j]]
            0 <= j < at ==> !function.bdf.before(functions[j].bdf),
        at < count ==> function.bdf.before(functions[at].bdf),
    ensures
        resolved_prefix(
            specs,
            bdfs,
            addresses,
            functions.insert(at, function),
            origin.insert(at, count),
            count + 1,
        ),
{
    let added = functions.insert(at, function);
    let sources = origin.insert(at, count);
    assert forall|j: int|
        #![trigger added[j]]
        #![trigger sources[j]]
        0 <= j < count + 1 implies 0 <= sources[j] < count + 1 && added[j].resolves(
        specs[sources[j]],
        bdfs[sources[j]],
        addresses,
        bar_base(specs, sources[j]),
    ) by {
        if j < at {
            assert(added[j] == functions[j] && sources[j] == origin[j]);
        } else if j > at {
            assert(added[j] == functions[j - 1] && sources[j] == origin[j - 1]);
        }
    }
    assert forall|i: int| #![trigger sources.contains(i)] 0 <= i < count + 1 implies sources.contains(
        i,
    ) by {
        if i == count {
            assert(sources[at] == count);
        } else {
            assert(origin.contains(i));
            let j = choose|j: int| 0 <= j < origin.len() && origin[j] == i;
            if j < at {
                assert(sources[j] == i);
            } else {
                assert(sources[j + 1] == i);
            }
        }
    }
    assert forall|j: int, k: int|
        #![trigger added[j], added[k]]
        0 <= j < k < count + 1 implies added[j].bdf.before(added[k].bdf) by {
        if j < at {
            assert(added[j] == functions[j] && sources[j] == origin[j]);
        } else if j > at {
            assert(added[j] == functions[j - 1] && sources[j] == origin[j - 1]);
        }
        if k < at {
            assert(added[k] == functions[k]);
        } else if k > at {
            assert(added[k] == functions[k - 1]);
        }
        if k == at {
            let i = origin[j];
            assert(functions[j].bdf == bdfs[i]);
            assert(bdfs[i] != bdfs[count]);
            assert(!function.bdf.before(functions[j].bdf));
        } else if j == at {
            assert(function.bdf.before(functions[at].bdf));
            if k - 1 > at {
                assert(functions[at].bdf.before(functions[k - 1].bdf));
            }
        }
    }
}

impl PciTopologyBuilder {
    /// Freezes the topology: fixed requests get what they ask for, automatic ones
    /// the lowest free device and the lowest free aligned address, larger BARs
    /// first.
    ///
    /// # Errors
    ///
    /// Returns [`PciError::InvalidHostAperture`] for an aperture that is empty
    /// or not below 4 GiB, and else the first request that cannot be met.
    #[verifier::rlimit(40)]
    pub fn resolve(self, aperture: Range<u64>) -> (result: PciResult<ResolvedPciTopology>)
        requires
            self.wf(),
        ensures
            result matches Ok(topology) ==> {
                &&& topology.wf()
                &&& topology.aperture_start == aperture.start
                &&& topology.aperture_end == aperture.end
                &&& exists|bdfs: Seq<PciBdf>, addresses: Seq<Option<u64>>, origin: Seq<int>|
                    #[trigger] is_resolution(self, topology, bdfs, addresses, origin)
            },
            result matches Err(error) ==> is_resolve_error(
                self,
                aperture.start,
                aperture.end,
                error,
            ),
            !(aperture.start < aperture.end && aperture.end <= FOUR_GIB) ==> result is Err,
    {
        let start: u64 = aperture.start;
        let end: u64 = aperture.end;
        if start >= end || end > FOUR_GIB {
            return Err(PciError::InvalidHostAperture { start, end });
        }
        let ghost specs = self.functions@;
        let count: usize = self.functions.len();
        let mut requests: Vec<ResourceRequest<PciBdf>> = Vec::new();
        let mut bars: Vec<BarRequest> = Vec::new();
        let mut i: usize = 0;
        assert(specs.take(0) =~= Seq::<PciFunctionSpec>::empty());
        while i < count
            invariant
                i <= count == specs.len(),
                specs == self.functions@,
                self.wf(),
                requests@ == bdf_requests(specs).take(i as int),
                bars@ == bar_requests(specs.take(i as int)),
                forall|x: int|
                    #![trigger bars@[x]]
                    0 <= x < bars@.len() ==> crate::pci::bar::is_bar_size(bars@[x].size),
            decreases count - i,
        {
            let spec = &self.functions[i];
            assert(spec.wf());
            requests.push(spec.bdf);
            let ghost before = bars@;
            let mut b: usize = 0;
            while b < spec.bars.len()
                invariant
                    b <= spec.bars@.len(),
                    spec.wf(),
                    bars@ == before + function_bar_requests(*spec).take(b as int),
                    forall|x: int|
                        #![trigger bars@[x]]
                        0 <= x < bars@.len() ==> crate::pci::bar::is_bar_size(bars@[x].size),
                decreases spec.bars@.len() - b,
            {
                let bar = spec.bars[b];
                assert(spec.bars@[b as int].wf());
                bars.push(BarRequest { bar: bar.index.0, size: bar.size, address: bar.address });
                assert(bars@ =~= before + function_bar_requests(*spec).take(b + 1));
                b = b + 1;
            }
            assert(function_bar_requests(*spec).take(b as int) =~= function_bar_requests(*spec));
            assert(specs.take(i + 1).drop_last() =~= specs.take(i as int));
            assert(specs.take(i + 1).last() == *spec);
            assert(requests@ =~= bdf_requests(specs).take(i + 1));
            i = i + 1;
        }
        assert(specs.take(i as int) =~= specs);
        assert(requests@ =~= bdf_requests(specs));
        let bdfs: Vec<PciBdf> = match place_bdfs(&requests, &self.reserved) {
            Ok(bdfs) => bdfs,
            Err(error) => {
                return Err(error);
            },
        };
        proof {
            law_placed_bdfs_are_distinct(requests@, self.reserved@, bdfs@);
        }
        let addresses: Vec<Option<u64>> = match place_bars(&bars, start, end) {
            Ok(addresses) => addresses,
            Err(error) => {
                return Err(error);
            },
        };
        let total: usize = addresses.len();
        let mut rest = self.functions;
        let mut functions: Vec<ResolvedPciFunction> = Vec::new();
        let ghost mut origin: Seq<int> = Seq::empty();
        let mut base: usize = 0;
        let mut i: usize = 0;
        proof {
            assert(specs.take(0) =~= Seq::<PciFunctionSpec>::empty());
            law_placed_bars_are_disjoint(bars@, addresses@, start as int, end as int);
        }
        while i < count
            invariant
                i <= count == specs.len(),
                specs == self.functions@,
                self.wf(),
                start < end <= FOUR_GIB,
                start == aperture.start,
                end == aperture.end,
                rest@ == specs.skip(i as int),
                bars@ == bar_requests(specs),
                requests@ == bdf_requests(specs),
                bdfs_placed(requests@, self.reserved@, bdfs@),
                fixed_bars_valid(bars@, start as int, end as int),
                bars_placed(bars@, addresses@, start as int, end as int),
                forall|x: int|
                    #![trigger addresses@[x]]
                    0 <= x < addresses@.len() ==> addresses@[x] is Some && fits_aperture(
                        addresses@[x]->0 as int,
                        bars@[x].size as int,
                        start as int,
                        end as int,
                    ),
                forall|x: int, y: int|
                    #![trigger bdfs@[x], bdfs@[y]]
                    0 <= x < y < bdfs@.len() ==> bdfs@[x] != bdfs@[y],
                total == addresses@.len(),
                base == bar_base(specs, i as int),
                resolved_prefix(specs, bdfs@, addresses@, functions@, origin, i as int),
                forall|j: int|
                    #![trigger functions@[j]]
                    0 <= j < functions@.len() ==> functions@[j].power_on.wf(),
                no_function_fault(specs, i as int),
            decreases count - i,
        {
            let spec = rest.remove(0);
            assert(spec == specs[i as int]);
            assert(rest@ =~= specs.skip(i + 1));
            assert(spec.wf());
            let mut plans: Vec<ResolvedBarPlan> = Vec::new();
            let mut b: usize = 0;
            proof {
                lemma_bar_base(specs, i as int, 0);
            }
            while b < spec.bars.len()
                invariant
                    b <= spec.bars@.len(),
                    i < specs.len(),
                    spec == specs[i as int],
                    spec.wf(),
                    end <= FOUR_GIB,
                    total == addresses@.len(),
                    base == bar_base(specs, i as int),
                    base + spec.bars@.len() <= bars@.len(),
                    bars@ == bar_requests(specs),
                    addresses@.len() == bars@.len(),
                    forall|x: int|
                        #![trigger addresses@[x]]
                        0 <= x < addresses@.len() ==> addresses@[x] is Some && fits_aperture(
                            addresses@[x]->0 as int,
                            bars@[x].size as int,
                            start as int,
                            end as int,
                        ),
                    plans@.len() == b,
                    forall|x: int|
                        #![trigger plans@[x]]
                        0 <= x < b ==> plans@[x].wf() && plans@[x] == (ResolvedBarPlan {
                            index: spec.bars@[x].index,
                            size: spec.bars@[x].size,
                            address: addresses@[base + x]->0,
                        }),
                decreases spec.bars@.len() - b,
            {
                let bar = spec.bars[b];
                proof {
                    lemma_bar_base(specs, i as int, b as int);
                    assert(spec.bars@[b as int].wf());
                    assert(addresses@[base + b] is Some);
                }
                let address: u64 = addresses[base + b].unwrap();
                plans.push(ResolvedBarPlan { index: bar.index, size: bar.size, address });
                b = b + 1;
            }
            base = base + spec.bars.len();
            let layouts = match place_capabilities(spec.capabilities) {
                Ok(layouts) => layouts,
                Err(error) => {
                    assert(function_fault(specs[i as int]) == Some(error));
                    assert(is_first_function_fault(specs, error));
                    return Err(error);
                },
            };
            let power_on = match PowerOnConfig::build(
                spec.identity,
                &plans,
                &spec.config_bytes,
                layouts,
            ) {
                Ok(power_on) => power_on,
                Err(error) => {
                    assert(function_fault(specs[i as int]) == Some(error));
                    assert(is_first_function_fault(specs, error));
                    return Err(error);
                },
            };
            let function = ResolvedPciFunction {
                id: spec.id,
                bdf: bdfs[i],
                bars: plans,
                power_on,
                intx: spec.intx,
            };
            let mut at: usize = 0;
            while at < functions.len() && !function.bdf.precedes(functions[at].bdf)
                invariant
                    at <= functions@.len(),
                    forall|j: int|
                        #![trigger functions@[j]]
                        0 <= j < at ==> !function.bdf.before(functions@[j].bdf),
                decreases functions@.len() - at,
            {
                at = at + 1;
            }
            proof {
                lemma_insert_resolved(
                    specs,
                    bdfs@,
                    addresses@,
                    functions@,
                    origin,
                    i as int,
                    at as int,
                    function,
                );
                origin = origin.insert(at as int, i as int);
                let added = functions@.insert(at as int, function);
                assert forall|j: int| #![trigger added[j]] 0 <= j < added.len() implies added[j].power_on.wf() by {
                    if j < at {
                        assert(added[j] == functions@[j]);
                    } else if j > at {
                        assert(added[j] == functions@[j - 1]);
                    }
                }
            }
            functions.insert(at, function);
            i = i + 1;
        }
        let topology = ResolvedPciTopology { aperture_start: start, aperture_end: end, functions };
        proof {
            assert(all_placed(addresses@));
            assert(is_resolution(self, topology, bdfs@, addresses@, origin));
            lemma_resolution_wf(self, topology, bdfs@, addresses@, origin);
        }
        Ok(topology)
    }
}

} // verus!
