//! Where functions, BARs and capabilities come to stand.

#[allow(unused_imports)]
use crate::access::ResourceRequest;
#[allow(unused_imports)]
use crate::pci::address::PciBdf;
#[allow(unused_imports)]
use crate::pci::bar::is_bar_size;
#[allow(unused_imports)]
use crate::pci::capability::{PciCapabilityLayout, PciCapabilitySpec};
#[allow(unused_imports)]
use crate::pci::error::{PciError, PciResult};
#[allow(unused_imports)]
use crate::pci::function::PciFunctionSpec;
#[allow(unused_imports)]
use crate::pci::image_laws::{
    are_image_parts, are_separate, is_image, lemma_capability_list_visits_every_capability,
    lemma_image_holds_the_bars, lemma_image_holds_the_identity, lemma_image_holds_the_overrides,
    lemma_separate, visited,
};
#[allow(unused_imports)]
use crate::pci::placement::{
    auto_requests, capability_offset, fixed_bdf_fault, free_devices, is_blocked, is_fixed,
    is_free_device, is_placed_at, law_placed_bars_are_disjoint, law_placed_bdfs_are_distinct,
    lemma_auto_requests_monotonic, lemma_free_devices_monotonic, place_bars, place_bdfs,
    place_capabilities, places_before, BarRequest,
};
#[allow(unused_imports)]
use crate::pci::topology::{
    bar_base, bar_requests, bdf_requests, is_resolution, lemma_bar_base, PciTopologyBuilder,
    ResolvedPciFunction, ResolvedPciTopology,
};
use core::ops::Range;
use vstd::prelude::*;

verus! {

/// A count of automatic requests that is passed was reached by one of them.
proof fn lemma_auto_request_at(requests: Seq<ResourceRequest<PciBdf>>, i: int, count: nat) -> (at: int)
    requires
        0 <= i <= requests.len(),
        count < auto_requests(requests, i),
    ensures
        0 <= at < i,
        requests[at] is Auto,
        auto_requests(requests, at) == count,
    decreases i,
{
    if auto_requests(requests, i - 1) > count {
        lemma_auto_request_at(requests, i - 1, count)
    } else {
        i - 1
    }
}

/// Functions with a fixed address get it; the others get, in their order, the lowest devices of bus 0
/// that are neither reserved nor asked for, as function 0. No two get the same address, and none gets
/// a reserved one.
pub proof fn law_functions_get_the_lowest_devices(
    requests: Vec<ResourceRequest<PciBdf>>,
    reserved: Vec<PciBdf>,
    bdfs: Vec<PciBdf>,
    i: int,
    j: int,
    device: u8,
)
    requires
        call_ensures(place_bdfs, (&requests, &reserved), Ok(bdfs)),
        0 <= i < requests@.len(),
        0 <= j < requests@.len(),
    ensures
        bdfs@.len() == requests@.len(),
        requests@[i] matches ResourceRequest::Fixed(bdf) ==> bdfs@[i] == bdf && bdf.function == 0,
        requests@[i] is Auto ==> bdfs@[i].segment.0 == 0 && bdfs@[i].bus == 0 && bdfs@[i].function
            == 0 && bdfs@[i].device < 32,
        !reserved@.contains(bdfs@[i]),
        i != j ==> bdfs@[i] != bdfs@[j],
        i < j && requests@[i] is Auto && requests@[j] is Auto ==> bdfs@[i].device
            < bdfs@[j].device,
        requests@[i] is Auto && device < bdfs@[i].device ==> {
            let lower = PciBdf { device, ..bdfs@[i] };
            reserved@.contains(lower) || exists|k: int|
                #![trigger bdfs@[k]]
                0 <= k < bdfs@.len() && bdfs@[k] == lower && (k < i || requests@[k] is Fixed)
        },
{
    let asked = requests@;
    let kept = reserved@;
    law_placed_bdfs_are_distinct(asked, kept, bdfs@);
    assert(is_placed_at(asked, kept, i, bdfs@[i]));
    assert(is_placed_at(asked, kept, j, bdfs@[j]));
    assert(fixed_bdf_fault(asked, kept, i) is None) by {
        assert(asked[i] == asked[i]);
    }
    if i < j && asked[i] is Auto && asked[j] is Auto {
        lemma_auto_requests_monotonic(asked, i + 1, j);
        if bdfs@[j].device <= bdfs@[i].device {
            lemma_free_devices_monotonic(
                asked,
                kept,
                bdfs@[j].device as int,
                bdfs@[i].device as int,
            );
        }
    }
    if asked[i] is Auto && device < bdfs@[i].device {
        let lower = PciBdf::on_bus_zero(device);
        assert(lower == (PciBdf { device, ..bdfs@[i] }));
        if !kept.contains(lower) {
            if is_fixed(asked, lower, asked.len() as int) {
                let k = choose|k: int|
                    #![trigger asked[k]]
                    0 <= k < asked.len() && asked[k] == ResourceRequest::Fixed(lower);
                assert(is_placed_at(asked, kept, k, bdfs@[k]));
                assert(bdfs@[k] == lower);
            } else {
                assert(is_free_device(asked, kept, device as int));
                lemma_free_devices_monotonic(asked, kept, device + 1, bdfs@[i].device as int);
                let k = lemma_auto_request_at(
                    asked,
                    i,
                    free_devices(asked, kept, device as int),
                );
                assert(is_placed_at(asked, kept, k, bdfs@[k]));
                if bdfs@[k].device < device {
                    lemma_free_devices_monotonic(
                        asked,
                        kept,
                        bdfs@[k].device + 1,
                        device as int,
                    );
                } else if device < bdfs@[k].device {
                    lemma_free_devices_monotonic(
                        asked,
                        kept,
                        device + 1,
                        bdfs@[k].device as int,
                    );
                }
                assert(bdfs@[k] == lower);
            }
        }
    }
}

/// Why functions cannot be placed: a fixed address of a function other than 0, a reserved one, one
/// that is asked for twice, or too many automatic requests.
pub proof fn law_function_placement_fails_for_a_reason(
    requests: Vec<ResourceRequest<PciBdf>>,
    reserved: Vec<PciBdf>,
    error: PciError,
)
    requires
        call_ensures(place_bdfs, (&requests, &reserved), Err(error)),
    ensures
        match error {
            PciError::UnsupportedFunctionPlacement { bdf } => bdf.function != 0 && exists|i: int|
                #![trigger requests@[i]]
                0 <= i < requests@.len() && requests@[i] == ResourceRequest::Fixed(bdf),
            PciError::BdfReserved { bdf } => reserved@.contains(bdf) && exists|i: int|
                #![trigger requests@[i]]
                0 <= i < requests@.len() && requests@[i] == ResourceRequest::Fixed(bdf),
            PciError::DuplicateBdf { bdf } => exists|i: int, j: int|
                #![trigger requests@[i], requests@[j]]
                0 <= i < j < requests@.len() && requests@[i] == ResourceRequest::Fixed(bdf)
                    && requests@[j] == ResourceRequest::Fixed(bdf),
            PciError::BdfExhausted => exists|i: int|
                #![trigger requests@[i]]
                0 <= i < requests@.len() && requests@[i] is Auto,
            _ => false,
        },
{
    let asked = requests@;
    let kept = reserved@;
    if crate::pci::placement::fixed_bdfs_valid(asked, kept) {
        let at = lemma_auto_request_at(asked, asked.len() as int, 0);
        assert(asked[at] is Auto);
    } else {
        let i = choose|i: int|
            #![trigger asked[i]]
            0 <= i < asked.len() && (forall|j: int|
                #![trigger asked[j]]
                0 <= j < i ==> fixed_bdf_fault(asked, kept, j) is None) && fixed_bdf_fault(
                asked,
                kept,
                i,
            ) == Some(error);
        assert(fixed_bdf_fault(asked, kept, i) == Some(error));
        if let PciError::DuplicateBdf { bdf } = error {
            assert(is_fixed(asked, bdf, i));
            let j = choose|j: int|
                #![trigger asked[j]]
                0 <= j < i && asked[j] == ResourceRequest::Fixed(bdf);
            assert(asked[j] == ResourceRequest::Fixed(bdf) && asked[i] == ResourceRequest::Fixed(
                bdf,
            ));
        }
    }
}

/// Every BAR gets an address that is a multiple of its size, inside the aperture, where no other BAR
/// has a byte; a fixed one gets the address that it asks for. Larger BARs are placed first, BARs of the
/// same size in their order, each at the lowest address that is left.
pub proof fn law_bars_get_the_lowest_addresses(
    requests: Vec<BarRequest>,
    start: u64,
    end: u64,
    addresses: Vec<Option<u64>>,
    i: int,
    j: int,
    lower: int,
)
    requires
        start <= end <= 0x1_0000_0000,
        forall|k: int|
            #![trigger requests@[k]]
            0 <= k < requests@.len() ==> is_bar_size(requests@[k].size),
        call_ensures(place_bars, (&requests, start, end), Ok(addresses)),
        0 <= i < requests@.len(),
        0 <= j < requests@.len(),
    ensures
        addresses@.len() == requests@.len(),
        addresses@[i] is Some && addresses@[j] is Some,
        addresses@[i]->0 as int % requests@[i].size as int == 0,
        start <= addresses@[i]->0,
        addresses@[i]->0 + requests@[i].size <= end,
        i != j ==> addresses@[i]->0 + requests@[i].size <= addresses@[j]->0 || addresses@[j]->0
            + requests@[j].size <= addresses@[i]->0,
        requests@[i].address matches ResourceRequest::Fixed(address) ==> addresses@[i] == Some(
            address,
        ),
        requests@[i].address is Auto && start <= lower < addresses@[i]->0 && lower
            % requests@[i].size as int == 0 ==> exists|k: int|
            #![trigger addresses@[k]]
            0 <= k < addresses@.len() && k != i && (requests@[k].address is Fixed
                || requests@[k].size > requests@[i].size || (requests@[k].size == requests@[i].size
                && k < i)) && lower < addresses@[k]->0 + requests@[k].size && addresses@[k]->0
                < lower + requests@[i].size,
{
    law_placed_bars_are_disjoint(requests@, addresses@, start as int, end as int);
    assert(addresses@[i] is Some && addresses@[j] is Some);
    if requests@[i].address is Auto && start <= lower < addresses@[i]->0 && lower
        % requests@[i].size as int == 0 {
        assert(is_blocked(requests@, addresses@, i, lower));
        let k = choose|k: int|
            #![trigger addresses@[k]]
            0 <= k < requests@.len() && places_before(requests@, k, i) && addresses@[k] is Some
                && crate::pci::placement::ranges_overlap(
                lower,
                requests@[i].size as int,
                addresses@[k]->0 as int,
                requests@[k].size as int,
            );
        assert(addresses@[k] is Some);
    }
}

/// Bytes that a capability takes up, to the next multiple of four.
pub open spec fn padded(capability: PciCapabilitySpec) -> int {
    let length = 2 + capability.body@.len() as int;
    if length % 4 == 0 {
        length
    } else {
        length + 4 - length % 4
    }
}

/// Bytes that the first `count` capabilities take up.
pub open spec fn padded_before(capabilities: Seq<PciCapabilitySpec>, count: int) -> int
    decreases count,
{
    if count <= 0 {
        0
    } else {
        padded_before(capabilities, count - 1) + padded(capabilities[count - 1])
    }
}

/// The offset of a capability is behind the header and those before it.
proof fn lemma_capability_offset(capabilities: Seq<PciCapabilitySpec>, i: int)
    requires
        0 <= i <= capabilities.len(),
    ensures
        capability_offset(capabilities, i) == 0x40 + padded_before(capabilities, i),
        capability_offset(capabilities, i) % 4 == 0,
    decreases i,
{
    if i > 0 {
        lemma_capability_offset(capabilities, i - 1);
    }
}

/// Capabilities find room if, from 0x40 on, the padded ones before each and the capability itself end
/// at or below the end of the 256 bytes; and that is where they stand.
pub proof fn law_capabilities_find_room(
    capabilities: Vec<PciCapabilitySpec>,
    result: PciResult<Vec<PciCapabilityLayout>>,
    i: int,
)
    requires
        forall|k: int|
            #![trigger capabilities@[k]]
            0 <= k < capabilities@.len() ==> capabilities@[k].wf(),
        call_ensures(place_capabilities, (capabilities,), result),
        0 <= i < capabilities@.len(),
    ensures
        result is Ok <==> forall|k: int|
            #![trigger capabilities@[k]]
            0 <= k < capabilities@.len() ==> 0x40 + padded_before(capabilities@, k) + 2
                + capabilities@[k].body@.len() <= 256,
        result matches Ok(layouts) ==> layouts@[i].offset == 0x40 + padded_before(capabilities@, i)
            && layouts@[i].spec == capabilities@[i],
{
    assert forall|k: int|
        #![trigger capabilities@[k]]
        0 <= k < capabilities@.len() implies capability_offset(capabilities@, k) == 0x40
        + padded_before(capabilities@, k) by {
        lemma_capability_offset(capabilities@, k);
    }
    assert(capabilities@[i].wf());
}

/// Placed capabilities do not overlap.
proof fn lemma_placed_separate(
    capabilities: Seq<PciCapabilitySpec>,
    layouts: Seq<PciCapabilityLayout>,
)
    requires
        crate::pci::placement::capabilities_placed(capabilities, layouts),
    ensures
        are_separate(layouts),
{
    assert forall|k: int| #![trigger layouts[k]] 0 < k < layouts.len() implies layouts[k - 1].offset
        + 2 + layouts[k - 1].spec.body@.len() <= layouts[k].offset by {
        assert(layouts[k - 1].spec == capabilities[k - 1]);
    }
    assert forall|i: int, j: int|
        #![trigger layouts[i], layouts[j]]
        0 <= i < j < layouts.len() implies layouts[i].offset + 2 + layouts[i].spec.body@.len()
        <= layouts[j].offset by {
        lemma_separate(layouts, i, j);
    }
}

/// Whether a resolved function is what was asked for: the same name and interrupt pin, the fixed
/// address and the fixed BAR addresses, and every BAR in its slot with its size.
pub open spec fn is_as_asked(spec: PciFunctionSpec, function: ResolvedPciFunction) -> bool {
    &&& function.id == spec.id
    &&& function.intx == spec.intx
    &&& spec.bdf matches ResourceRequest::Fixed(bdf) ==> function.bdf == bdf
    &&& spec.bdf is Auto ==> function.bdf.bus == 0 && function.bdf.function == 0
        && function.bdf.segment.0 == 0
    &&& function.bars@.len() == spec.bars@.len()
    &&& forall|b: int|
        #![trigger function.bars@[b]]
        0 <= b < function.bars@.len() ==> function.bars@[b].index == spec.bars@[b].index
            && function.bars@[b].size == spec.bars@[b].size && (
        spec.bars@[b].address matches ResourceRequest::Fixed(address) ==> function.bars@[b].address
            == address)
}

/// Whether an image shows what was asked for: the identity, the address of every BAR, every
/// capability in its order, and every override that no later one and no capability covers.
pub open spec fn is_shown(spec: PciFunctionSpec, function: ResolvedPciFunction) -> bool {
    let bytes = function.power_on.bytes@;
    let masks = function.power_on.write_mask@;
    let layouts = function.power_on.capabilities@;
    &&& bytes[0] + 0x100 * bytes[1] == spec.identity.vendor_id
    &&& bytes[2] + 0x100 * bytes[3] == spec.identity.device_id
    &&& bytes[8] == spec.identity.revision
    &&& bytes[9] == spec.identity.class.programming_interface
    &&& bytes[10] == spec.identity.class.subclass
    &&& bytes[11] == spec.identity.class.base
    &&& bytes[0x2c] + 0x100 * bytes[0x2d] == spec.identity.subsystem_vendor_id
    &&& bytes[0x2e] + 0x100 * bytes[0x2f] == spec.identity.subsystem_device_id
    &&& masks[4] == 6 && masks[5] == 4
    &&& forall|b: int|
        #![trigger function.bars@[b]]
        0 <= b < function.bars@.len() ==> {
            let at = 0x10 + 4 * function.bars@[b].index.0;
            bytes[at] + 0x100 * bytes[at + 1] + 0x1_0000 * bytes[at + 2] + 0x100_0000 * bytes[at
                + 3] == function.bars@[b].address
        }
    &&& layouts.len() == spec.capabilities@.len()
    &&& layouts.len() > 0 ==> bytes[0x34] == 0x40 && visited(bytes, 0x40, layouts.len())
        == Seq::new(layouts.len(), |k: int| layouts[k].offset)
    &&& forall|k: int|
        #![trigger layouts[k]]
        0 <= k < layouts.len() ==> layouts[k].spec == spec.capabilities@[k]
            && bytes[layouts[k].offset as int] == spec.capabilities@[k].id.0
    &&& forall|p: int|
        #![trigger spec.config_bytes@[p]]
        0 <= p < spec.config_bytes@.len() && is_uncovered(
            spec,
            layouts,
            p,
        ) ==> bytes[spec.config_bytes@[p].offset.0 as int] == spec.config_bytes@[p].value
            && masks[spec.config_bytes@[p].offset.0 as int] == spec.config_bytes@[p].write_mask
}

/// Whether neither a later override nor a capability covers override `p`.
pub open spec fn is_uncovered(
    spec: PciFunctionSpec,
    layouts: Seq<PciCapabilityLayout>,
    p: int,
) -> bool {
    let at = spec.config_bytes@[p].offset.0;
    &&& forall|q: int|
        #![trigger spec.config_bytes@[q]]
        p < q < spec.config_bytes@.len() ==> spec.config_bytes@[q].offset.0 != at
    &&& forall|k: int|
        #![trigger layouts[k]]
        0 <= k < layouts.len() ==> !(layouts[k].offset <= at < layouts[k].offset + 2
            + layouts[k].spec.body@.len())
}

/// Every function that was added is resolved once, as it was asked for, and its image shows it; the
/// functions stand in the order of their addresses.
pub proof fn law_topology_resolves_every_function(
    builder: PciTopologyBuilder,
    aperture: Range<u64>,
    topology: ResolvedPciTopology,
    i: int,
    first: int,
    second: int,
)
    requires
        builder.wf(),
        call_ensures(PciTopologyBuilder::resolve, (builder, aperture), Ok(topology)),
        0 <= i < builder.functions@.len(),
    ensures
        topology.aperture_start == aperture.start,
        topology.aperture_end == aperture.end,
        topology.functions@.len() == builder.functions@.len(),
        exists|j: int|
            #![trigger topology.functions@[j]]
            0 <= j < topology.functions@.len() && is_as_asked(
                builder.functions@[i],
                topology.functions@[j],
            ) && is_shown(builder.functions@[i], topology.functions@[j]),
        ({
            let one = topology.functions@[first].bdf;
            let other = topology.functions@[second].bdf;
            0 <= first < second < topology.functions@.len() && one.segment.0 == other.segment.0
                && one.bus == other.bus ==> one.device < other.device || one.device == other.device
                && one.function < other.function
        }),
        0 <= first < second < topology.functions@.len() ==> topology.functions@[first].id@
            != topology.functions@[second].id@,
{
    let specs = builder.functions@;
    let (bdfs, addresses, origin) = choose|
        bdfs: Seq<PciBdf>,
        addresses: Seq<Option<u64>>,
        origin: Seq<int>,
    |
        #[trigger] is_resolution(builder, topology, bdfs, addresses, origin);
    assert(origin.contains(i));
    let j = choose|j: int| 0 <= j < origin.len() && origin[j] == i;
    let function = topology.functions@[j];
    assert(function.resolves(specs[i], bdfs[i], addresses, bar_base(specs, i)));
    lemma_resolved_as_asked(builder, topology, bdfs, addresses, i, function);
    lemma_resolved_is_shown(specs[i], function, bdfs[i], addresses, bar_base(specs, i));
}

/// A resolved function is as it was asked for.
proof fn lemma_resolved_as_asked(
    builder: PciTopologyBuilder,
    topology: ResolvedPciTopology,
    bdfs: Seq<PciBdf>,
    addresses: Seq<Option<u64>>,
    i: int,
    function: ResolvedPciFunction,
)
    requires
        0 <= i < builder.functions@.len(),
        crate::pci::placement::bdfs_placed(
            bdf_requests(builder.functions@),
            builder.reserved@,
            bdfs,
        ),
        crate::pci::placement::bars_placed(
            bar_requests(builder.functions@),
            addresses,
            topology.aperture_start as int,
            topology.aperture_end as int,
        ),
        crate::pci::topology::all_placed(addresses),
        function.resolves(
            builder.functions@[i],
            bdfs[i],
            addresses,
            bar_base(builder.functions@, i),
        ),
    ensures
        is_as_asked(builder.functions@[i], function),
{
    let specs = builder.functions@;
    let spec = specs[i];
    assert(is_placed_at(bdf_requests(specs), builder.reserved@, i, bdfs[i]));
    assert forall|b: int|
        #![trigger function.bars@[b]]
        0 <= b < function.bars@.len() implies (
    spec.bars@[b].address matches ResourceRequest::Fixed(address) ==> function.bars@[b].address
        == address) by {
        lemma_bar_base(specs, i, b);
        assert(addresses[bar_base(specs, i) + b] is Some);
    }
}

/// The image of a resolved function shows it.
proof fn lemma_resolved_is_shown(
    spec: PciFunctionSpec,
    function: ResolvedPciFunction,
    bdf: PciBdf,
    addresses: Seq<Option<u64>>,
    base: int,
)
    requires
        spec.wf(),
        spec.identity.vendor_id != 0xffff,
        function.resolves(spec, bdf, addresses, base),
        forall|b: int|
            #![trigger function.bars@[b]]
            0 <= b < function.bars@.len() ==> function.bars@[b].wf(),
    ensures
        is_shown(spec, function),
{
    let config = function.power_on;
    let layouts = config.capabilities@;
    let patches = spec.config_bytes@;
    lemma_placed_separate(spec.capabilities@, layouts);
    assert forall|a: int, b: int|
        #![trigger function.bars@[a], function.bars@[b]]
        0 <= a < b < function.bars@.len() implies function.bars@[a].index
        != function.bars@[b].index by {
        assert(spec.bars@[a].index != spec.bars@[b].index);
    }
    assert(are_image_parts(function.bars@, patches, layouts));
    assert(is_image(spec.identity, function.bars@, patches, layouts, config));
    lemma_image_holds_the_identity(spec.identity, function.bars@, patches, layouts, config);
    assert forall|b: int| #![trigger function.bars@[b]] 0 <= b < function.bars@.len() implies {
        let at = 0x10 + 4 * function.bars@[b].index.0;
        config.bytes@[at] + 0x100 * config.bytes@[at + 1] + 0x1_0000 * config.bytes@[at + 2]
            + 0x100_0000 * config.bytes@[at + 3] == function.bars@[b].address
    } by {
        lemma_image_holds_the_bars(
            spec.identity,
            function.bars@,
            patches,
            layouts,
            config,
            b,
        );
    }
    if layouts.len() > 0 {
        lemma_capability_list_visits_every_capability(
            spec.identity,
            function.bars@,
            patches,
            layouts,
            config,
            layouts.len(),
        );
        assert(layouts[0].offset == 0x40);
    }
    assert forall|p: int|
        #![trigger spec.config_bytes@[p]]
        0 <= p < patches.len() && is_uncovered(spec, layouts, p) implies config.bytes@[patches[p].offset.0 as int]
        == patches[p].value && config.write_mask@[patches[p].offset.0 as int]
        == patches[p].write_mask by {
        lemma_image_holds_the_overrides(
            spec.identity,
            function.bars@,
            patches,
            layouts,
            config,
            patches[p].offset.0 as int,
        );
    }
}

} // verus!
