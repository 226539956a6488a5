//! Which addresses, BARs, config bytes and capabilities there are.

#[allow(unused_imports)]
use crate::access::{
    bytes_before, name_before, AccessWidth, DeviceManagerResult, DeviceNodeId, ResourceRequest,
};
#[allow(unused_imports)]
use crate::pci::address::{ConfigOffset, PciBarIndex, PciBdf, PciSegment};
#[allow(unused_imports)]
use crate::pci::bar::PciMemoryBar;
#[allow(unused_imports)]
use crate::pci::capability::{
    PciCapabilityEffectAccess, PciCapabilityEffectRegion, PciCapabilityId, PciCapabilitySpec,
    PciConfigEffectId,
};
#[allow(unused_imports)]
use crate::pci::error::PciResult;
#[allow(unused_imports)]
use crate::pci::function::{PciClass, PciEndpointIdentity, PciFunctionSpec};
#[allow(unused_imports)]
use crate::pci::graph::{PciBusShared, PciFunctionRequirement, PciHostKey, PciHostPlan};
#[allow(unused_imports)]
use crate::pci::topology::PciTopologyBuilder;
use vstd::prelude::*;

verus! {

/// A function has one of 32 device and one of 8 function numbers, and keeps what it was made of.
pub proof fn law_function_numbers(
    segment: PciSegment,
    bus: u8,
    device: u8,
    function: u8,
    result: PciResult<PciBdf>,
)
    requires
        call_ensures(PciBdf::new, (segment, bus, device, function), result),
    ensures
        result is Ok <==> device < 32 && function < 8,
        result matches Ok(bdf) ==> bdf.segment == segment && bdf.bus == bus && bdf.device == device
            && bdf.function == function,
{
}

/// Of two different functions exactly one comes first, by segment, bus, device and function in this
/// order.
pub proof fn law_functions_are_ordered(
    first: PciBdf,
    second: PciBdf,
    forward: bool,
    backward: bool,
)
    requires
        call_ensures(PciBdf::precedes, (first, second), forward),
        call_ensures(PciBdf::precedes, (second, first), backward),
    ensures
        !(forward && backward),
        forward || backward <==> first != second,
        forward <==> 0x1_0000 * first.segment.0 * 0x100 + 0x1_0000 * first.bus + 0x100
            * first.device + first.function < 0x1_0000 * second.segment.0 * 0x100 + 0x1_0000
            * second.bus + 0x100 * second.device + second.function,
{
}

/// A function has six BARs, whose registers follow one another from 0x10 on.
pub proof fn law_bar_registers(value: u8, index: PciBarIndex, offset: usize)
    requires
        call_ensures(PciBarIndex::new, (value,), Ok(index)),
        call_ensures(PciBarIndex::config_offset, (index,), offset),
    ensures
        value < 6,
        index.0 == value,
        offset == 0x10 + 4 * value,
        offset < 0x28,
{
}

/// An index behind the sixth BAR, and an offset behind the 256 config bytes, are refused.
pub proof fn law_config_space_ends(
    bar: u8,
    offset: u16,
    index: PciResult<PciBarIndex>,
    place: PciResult<ConfigOffset>,
)
    requires
        call_ensures(PciBarIndex::new, (bar,), index),
        call_ensures(ConfigOffset::new, (offset,), place),
    ensures
        index is Ok <==> bar < 6,
        place is Ok <==> offset < 256,
        place matches Ok(place) ==> place.0 == offset,
{
}

/// A config access is of one, two or four bytes, aligned to its own size, and ends within the 256
/// config bytes; it is then taken for what it is.
pub proof fn law_config_accesses(
    offset: ConfigOffset,
    width: AccessWidth,
    result: PciResult<(usize, usize)>,
)
    requires
        call_ensures(ConfigOffset::validate_access, (offset, width), result),
    ensures
        width is Byte ==> (result is Ok <==> offset.0 < 256),
        width is Word ==> (result is Ok <==> offset.0 % 2 == 0 && offset.0 < 255),
        width is Dword ==> (result is Ok <==> offset.0 % 4 == 0 && offset.0 < 253),
        width is Qword ==> result is Err,
        result matches Ok((start, size)) ==> {
            &&& start == offset.0
            &&& width is Byte ==> size == 1
            &&& width is Word ==> size == 2
            &&& width is Dword ==> size == 4
        },
{
}

/// The sizes of a BAR: the powers of two from 16 bytes to 2 GiB.
pub open spec fn is_memory_size(size: int) -> bool {
    size == 0x10 || size == 0x20 || size == 0x40 || size == 0x80 || size == 0x100 || size == 0x200
        || size == 0x400 || size == 0x800 || size == 0x1000 || size == 0x2000 || size == 0x4000
        || size == 0x8000 || size == 0x1_0000 || size == 0x2_0000 || size == 0x4_0000 || size
        == 0x8_0000 || size == 0x10_0000 || size == 0x20_0000 || size == 0x40_0000 || size
        == 0x80_0000 || size == 0x100_0000 || size == 0x200_0000 || size == 0x400_0000 || size
        == 0x800_0000 || size == 0x1000_0000 || size == 0x2000_0000 || size == 0x4000_0000 || size
        == 0x8000_0000
}

/// One bit is set in a size exactly if it is one of those of a BAR.
proof fn lemma_memory_size(size: u64)
    by (bit_vector)
    ensures
        16 <= size < 0x1_0000_0000 && size & (size - 1) as u64 == 0 <==> (size == 0x10 || size
            == 0x20
            || size == 0x40 || size == 0x80 || size == 0x100 || size == 0x200 || size == 0x400
            || size == 0x800 || size == 0x1000 || size == 0x2000 || size == 0x4000 || size == 0x8000
            || size == 0x1_0000 || size == 0x2_0000 || size == 0x4_0000 || size == 0x8_0000 || size
            == 0x10_0000 || size == 0x20_0000 || size == 0x40_0000 || size == 0x80_0000 || size
            == 0x100_0000 || size == 0x200_0000 || size == 0x400_0000 || size == 0x800_0000 || size
            == 0x1000_0000 || size == 0x2000_0000 || size == 0x4000_0000 || size == 0x8000_0000),
{
}

/// A BAR has one of these sizes, and asks for no address of its own until it is given one.
pub proof fn law_bar_sizes(
    index: PciBarIndex,
    size: u64,
    result: PciResult<PciMemoryBar>,
    bar: PciMemoryBar,
    address: ResourceRequest<u64>,
    placed: PciMemoryBar,
)
    requires
        call_ensures(PciMemoryBar::new, (index, size), result),
        call_ensures(PciMemoryBar::with_address, (bar, address), placed),
    ensures
        result is Ok <==> is_memory_size(size as int),
        result matches Ok(bar) ==> bar.index == index && bar.size == size && bar.address is Auto,
        placed.address == address,
        placed.size == bar.size,
        placed.index == bar.index,
{
    lemma_memory_size(size);
}

/// A description takes each BAR once, behind those it has.
pub proof fn law_description_takes_each_bar_once(
    spec: PciFunctionSpec,
    bar: PciMemoryBar,
    first: PciFunctionSpec,
    again: PciResult<PciFunctionSpec>,
)
    requires
        call_ensures(PciFunctionSpec::with_bar, (spec, bar), Ok(first)),
        call_ensures(PciFunctionSpec::with_bar, (first, bar), again),
    ensures
        first.bars@.len() == spec.bars@.len() + 1,
        first.bars@.last() == bar,
        forall|i: int|
            #![trigger first.bars@[i]]
            0 <= i < spec.bars@.len() ==> first.bars@[i] == spec.bars@[i] && spec.bars@[i].index
                != bar.index,
        first.id == spec.id,
        first.identity == spec.identity,
        again is Err,
{
    assert(first.bars@[spec.bars@.len() as int].index == bar.index);
}

/// The bytes of the identity, of the command and status, of the BARs, of the subsystem and of the
/// capability pointer cannot be overridden; every other byte can.
pub proof fn law_root_keeps_its_bytes(
    spec: PciFunctionSpec,
    offset: ConfigOffset,
    value: u8,
    write_mask: u8,
    result: PciResult<PciFunctionSpec>,
)
    requires
        call_ensures(
            PciFunctionSpec::with_platform_config_byte,
            (spec, offset, value, write_mask),
            result,
        ),
    ensures
        offset.0 <= 0x0b ==> result is Err,
        0x0c <= offset.0 <= 0x0f ==> result is Ok,
        0x10 <= offset.0 <= 0x27 ==> result is Err,
        0x28 <= offset.0 <= 0x2b ==> result is Ok,
        0x2c <= offset.0 <= 0x2f ==> result is Err,
        0x30 <= offset.0 <= 0x33 ==> result is Ok,
        offset.0 == 0x34 ==> result is Err,
        0x35 <= offset.0 ==> result is Ok,
        result matches Ok(after) ==> {
            &&& after.config_bytes@.len() == spec.config_bytes@.len() + 1
            &&& after.config_bytes@.last().offset == offset
            &&& after.config_bytes@.last().value == value
            &&& after.config_bytes@.last().write_mask == write_mask
            &&& after.bars@ == spec.bars@ && after.capabilities@ == spec.capabilities@
        },
{
}

/// A new description has no BAR, no override, no capability, no interrupt line and no address
/// of its own; each builder adds its one thing.
pub proof fn law_description_is_built_up(
    id: DeviceNodeId,
    identity: PciEndpointIdentity,
    fresh: PciFunctionSpec,
    bdf: ResourceRequest<PciBdf>,
    placed: PciFunctionSpec,
    wired: PciFunctionSpec,
    capability: PciCapabilitySpec,
    capable: PciFunctionSpec,
)
    requires
        call_ensures(PciFunctionSpec::new, (id, identity), fresh),
        call_ensures(PciFunctionSpec::with_bdf, (fresh, bdf), placed),
        call_ensures(PciFunctionSpec::with_intx, (placed,), wired),
        call_ensures(PciFunctionSpec::with_capability, (wired, capability), capable),
    ensures
        fresh.bars@.len() == 0 && fresh.config_bytes@.len() == 0 && fresh.capabilities@.len() == 0,
        !fresh.intx && fresh.bdf is Auto,
        capable.id == id,
        capable.identity == identity,
        capable.bdf == bdf,
        capable.intx,
        capable.bars@.len() == 0,
        capable.capabilities@.len() == 1,
        capable.capabilities@[0] == capability,
{
}

/// An identity is made of its parts; without more it has revision and subsystem zero.
pub proof fn law_identity_is_built_up(
    vendor_id: u16,
    device_id: u16,
    class: PciClass,
    fresh: PciEndpointIdentity,
    revision: u8,
    revised: PciEndpointIdentity,
    vendor: u16,
    device: u16,
    whole: PciEndpointIdentity,
)
    requires
        call_ensures(PciEndpointIdentity::new, (vendor_id, device_id, class), fresh),
        call_ensures(PciEndpointIdentity::with_revision, (fresh, revision), revised),
        call_ensures(PciEndpointIdentity::with_subsystem, (revised, vendor, device), whole),
    ensures
        fresh.revision == 0 && fresh.subsystem_vendor_id == 0 && fresh.subsystem_device_id == 0,
        whole.vendor_id == vendor_id,
        whole.device_id == device_id,
        whole.class == class,
        whole.revision == revision,
        whole.subsystem_vendor_id == vendor,
        whole.subsystem_device_id == device,
{
}

/// A capability has a body of at most 190 bytes, each with its mask of writable bits, and the
/// effect regions that are added to it lie behind its two header bytes, within it, and apart
/// from one another.
pub proof fn law_capability_regions(
    id: PciCapabilityId,
    body: Vec<u8>,
    write_mask: Vec<u8>,
    made: PciResult<PciCapabilitySpec>,
    spec: PciCapabilitySpec,
    region: PciCapabilityEffectRegion,
    result: PciResult<PciCapabilitySpec>,
    other: int,
)
    requires
        call_ensures(PciCapabilitySpec::new, (id, body, write_mask), made),
        spec.wf(),
        call_ensures(PciCapabilitySpec::with_effect, (spec, region), result),
        0 <= other < spec.effects@.len(),
    ensures
        made is Ok <==> body@.len() == write_mask@.len() && body@.len() <= 190,
        made matches Ok(made) ==> made.id == id && made.body == body && made.write_mask
            == write_mask && made.effects@.len() == 0,
        region.length == 0 || region.offset < 2 || region.offset + region.length > spec.body@.len()
            + 2 ==> result is Err,
        region.offset < spec.effects@[other].offset + spec.effects@[other].length
            && spec.effects@[other].offset < region.offset + region.length ==> result is Err,
        result matches Ok(after) ==> {
            &&& after.effects@.len() == spec.effects@.len() + 1
            &&& after.effects@.last() == region
            &&& after.effects@[other] == spec.effects@[other]
            &&& after.body == spec.body && after.write_mask == spec.write_mask && after.id
                == spec.id
        },
{
}

/// A region that stays behind the header, within the capability and apart from all others is taken.
pub proof fn law_separate_region_is_taken(
    spec: PciCapabilitySpec,
    region: PciCapabilityEffectRegion,
    result: PciResult<PciCapabilitySpec>,
)
    requires
        spec.wf(),
        call_ensures(PciCapabilitySpec::with_effect, (spec, region), result),
        region.length > 0,
        region.offset >= 2,
        region.offset + region.length <= spec.body@.len() + 2,
        forall|i: int|
            #![trigger spec.effects@[i]]
            0 <= i < spec.effects@.len() ==> region.offset + region.length
                <= spec.effects@[i].offset || spec.effects@[i].offset + spec.effects@[i].length
                <= region.offset,
    ensures
        result is Ok,
{
}

/// An effect region answers reads, writes or both, and lies within a capability.
pub proof fn law_effect_region_is_made(
    effect: PciConfigEffectId,
    offset: u8,
    length: u8,
    access: PciCapabilityEffectAccess,
    result: PciResult<PciCapabilityEffectRegion>,
    write: bool,
    allowed: bool,
)
    requires
        call_ensures(PciCapabilityEffectRegion::new, (effect, offset, length, access), result),
        call_ensures(PciCapabilityEffectAccess::allows, (access, write), allowed),
    ensures
        result is Ok <==> offset >= 2 && length > 0 && offset + length <= 255,
        result matches Ok(region) ==> region.effect == effect && region.offset == offset
            && region.length == length && region.access == access,
        access is Read ==> allowed == !write,
        access is Write ==> allowed == write,
        access is ReadWrite ==> allowed,
{
}

/// A bus takes one plan, and one root at a time; the plan is read back.
pub proof fn law_bus_is_published_once<R>(
    plan_call: &mut PciBusShared<R>,
    again: &mut PciBusShared<R>,
    plan: PciHostPlan,
    other: PciHostPlan,
    result: PciResult<()>,
    second: PciResult<()>,
    after: PciBusShared<R>,
    found: PciResult<&PciHostPlan>,
    root_call: &mut PciBusShared<R>,
    root: R,
    alive: bool,
    published: PciResult<()>,
)
    requires
        call_ensures(PciBusShared::<R>::publish_plan, (plan_call, plan), result),
        *old(again) == *final(plan_call),
        call_ensures(PciBusShared::<R>::publish_plan, (again, other), second),
        after == *final(again),
        call_ensures(PciBusShared::<R>::plan, (&after,), found),
        call_ensures(PciBusShared::<R>::publish_root, (root_call, root, alive), published),
    ensures
        result is Ok <==> old(plan_call).plan is None,
        second is Err,
        found is Ok,
        result is Ok ==> *found->Ok_0 == plan,
        after.root == old(plan_call).root,
        published is Ok <==> old(root_call).root is None || !alive,
        published is Ok ==> final(root_call).root == Some(root),
        published is Err ==> final(root_call).root == old(root_call).root,
        final(root_call).plan == old(root_call).plan,
{
}

/// A host is built on a bus whose plan has exactly the ranges that the host claims, and whose
/// root is not there any more.
pub proof fn law_host_is_built_to_plan<R>(
    bus: &mut PciBusShared<R>,
    ecam: (u64, u64),
    memory: (u64, u64),
    root: R,
    alive: bool,
    result: DeviceManagerResult<()>,
)
    requires
        old(bus).wf(),
        call_ensures(PciBusShared::<R>::build_host, (bus, ecam, memory, root, alive), result),
    ensures
        result is Ok <==> {
            &&& old(bus).plan is Some
            &&& ecam.0 == old(bus).plan->0.ecam_start
            &&& ecam.0 + ecam.1 == old(bus).plan->0.ecam_end
            &&& memory.0 == old(bus).plan->0.topology.aperture_start
            &&& memory.0 + memory.1 == old(bus).plan->0.topology.aperture_end
            &&& old(bus).root is None || !alive
        },
        result is Ok ==> final(bus).root == Some(root),
        result is Err ==> final(bus).root == old(bus).root,
        final(bus).plan == old(bus).plan,
{
}

/// A requirement becomes the description of a function with the same identity and BARs.
pub proof fn law_requirement_becomes_a_function(
    requirement: PciFunctionRequirement,
    id: DeviceNodeId,
    spec: PciFunctionSpec,
    bar: PciMemoryBar,
    result: PciResult<PciFunctionRequirement>,
    i: int,
)
    requires
        call_ensures(PciFunctionRequirement::into_function, (requirement, id), spec),
        call_ensures(PciFunctionRequirement::with_bar, (requirement, bar), result),
    ensures
        spec.id == id,
        spec.identity == requirement.identity,
        spec.bars@ == requirement.bars@,
        spec.bdf is Auto,
        spec.capabilities@.len() == 0,
        spec.config_bytes@.len() == 0,
        !spec.intx,
        0 <= i < requirement.bars@.len() && requirement.bars@[i].index == bar.index ==> result
            is Err,
        result matches Ok(after) ==> after.bars@ == requirement.bars@.push(bar) && after.host
            == requirement.host && after.identity == requirement.identity,
        (forall|j: int|
            #![trigger requirement.bars@[j]]
            0 <= j < requirement.bars@.len() ==> requirement.bars@[j].index != bar.index)
            ==> result is Ok,
{
}

/// A host key has a name, which is not empty.
pub proof fn law_host_keys_have_names(name: &str, result: PciResult<PciHostKey>)
    requires
        call_ensures(PciHostKey::new, (name,), result),
    ensures
        result is Ok <==> name@.len() > 0,
        result matches Ok(key) ==> key@ == name@,
{
}

/// An address is reserved once, and reserving adds it behind those that are.
pub proof fn law_address_is_reserved_once(
    first: &mut PciTopologyBuilder,
    again: &mut PciTopologyBuilder,
    bdf: PciBdf,
    result: PciResult<()>,
    second: PciResult<()>,
)
    requires
        call_ensures(PciTopologyBuilder::reserve_bdf, (first, bdf), result),
        *old(again) == *final(first),
        call_ensures(PciTopologyBuilder::reserve_bdf, (again, bdf), second),
    ensures
        result is Ok <==> !old(first).reserved@.contains(bdf),
        final(first).reserved@.contains(bdf),
        second is Err,
        final(again).reserved@ == final(first).reserved@,
        result is Ok ==> final(first).reserved@ == old(first).reserved@.push(bdf),
        final(first).functions@ == old(first).functions@,
{
    if result is Ok {
        assert(final(first).reserved@[old(first).reserved@.len() as int] == bdf);
    }
}

/// Whether two byte strings part at `k`: they agree before, and there the first ends or has the
/// smaller byte.
pub open spec fn parts_below(first: Seq<u8>, second: Seq<u8>, k: int) -> bool {
    &&& 0 <= k <= first.len() && k < second.len()
    &&& forall|j: int| 0 <= j < k ==> first[j] == #[trigger] second[j]
    &&& k == first.len() || first[k] < second[k]
}

/// The order of byte strings is decided where they part.
proof fn lemma_parts_below(first: Seq<u8>, second: Seq<u8>)
    ensures
        bytes_before(first, second) <==> exists|k: int| #[trigger] parts_below(first, second, k),
    decreases first.len(),
{
    if second.len() > 0 && first.len() > 0 && first[0] == second[0] {
        let (rest, other) = (first.drop_first(), second.drop_first());
        lemma_parts_below(rest, other);
        if bytes_before(rest, other) {
            let k = choose|k: int| #[trigger] parts_below(rest, other, k);
            assert forall|j: int| 0 <= j < k + 1 implies first[j] == #[trigger] second[j] by {
                if j > 0 {
                    assert(rest[j - 1] == other[j - 1]);
                }
            }
            assert(k < rest.len() ==> rest[k] == first[k + 1] && other[k] == second[k + 1]);
            assert(parts_below(first, second, k + 1));
        }
        if exists|k: int| #[trigger] parts_below(first, second, k) {
            let k = choose|k: int| #[trigger] parts_below(first, second, k);
            assert(k > 0);
            assert forall|j: int| 0 <= j < k - 1 implies rest[j] == #[trigger] other[j] by {
                assert(first[j + 1] == second[j + 1]);
            }
            assert(k < first.len() ==> rest[k - 1] == first[k] && other[k - 1] == second[k]);
            assert(parts_below(rest, other, k - 1));
        }
    } else if second.len() > 0 {
        if bytes_before(first, second) {
            assert(parts_below(first, second, 0));
        } else {
            assert forall|k: int| !#[trigger] parts_below(first, second, k) by {
                if parts_below(first, second, k) && k > 0 {
                    assert(first[0] == second[0]);
                }
            }
        }
    }
}

/// Names are ordered as the bytes of their UTF-8 form: the one that ends first, or has the
/// smaller byte where they part, comes first.
pub proof fn law_names_are_ordered_by_bytes(first: DeviceNodeId, second: DeviceNodeId, result: bool)
    requires
        call_ensures(DeviceNodeId::precedes, (&first, &second), result),
    ensures
        result <==> exists|k: int|
            #[trigger] parts_below(
                vstd::utf8::encode_utf8(first@),
                vstd::utf8::encode_utf8(second@),
                k,
            ),
        first@ == second@ ==> !result,
{
    let (a, b) = (vstd::utf8::encode_utf8(first@), vstd::utf8::encode_utf8(second@));
    lemma_parts_below(a, b);
}

/// A topology takes each name once, keeps its functions in the order of their names, and adds
/// the new one without touching the others.
pub proof fn law_topology_takes_each_name_once(
    builder: &mut PciTopologyBuilder,
    function: PciFunctionSpec,
    result: PciResult<()>,
    i: int,
    j: int,
)
    requires
        old(builder).wf(),
        call_ensures(PciTopologyBuilder::add_function, (builder, function), result),
    ensures
        0 <= i < old(builder).functions@.len() && old(builder).functions@[i].id@ == function.id@
            ==> result is Err,
        (forall|k: int|
            #![trigger old(builder).functions@[k]]
            0 <= k < old(builder).functions@.len() ==> old(builder).functions@[k].id@
                != function.id@) ==> result is Ok,
        result is Err ==> final(builder).functions@ == old(builder).functions@,
        result is Ok ==> {
            &&& final(builder).functions@.len() == old(builder).functions@.len() + 1
            &&& final(builder).functions@.contains(function)
            &&& 0 <= i < old(builder).functions@.len() ==> final(builder).functions@.contains(
                old(builder).functions@[i],
            )
            &&& 0 <= i < j < final(builder).functions@.len() ==> exists|k: int|
                #[trigger] parts_below(
                    vstd::utf8::encode_utf8(final(builder).functions@[i].id@),
                    vstd::utf8::encode_utf8(final(builder).functions@[j].id@),
                    k,
                )
        },
        final(builder).reserved@ == old(builder).reserved@,
{
    if 0 <= i < old(builder).functions@.len() && old(builder).functions@[i].id@ == function.id@ {
        assert(old(builder).has_function(function.id@));
    }
    if result is Ok {
        let at = choose|at: int|
            0 <= at <= old(builder).functions@.len() && final(builder).functions@
                == #[trigger] old(builder).functions@.insert(at, function);
        assert(final(builder).functions@[at] == function);
        if 0 <= i < old(builder).functions@.len() {
            if i < at {
                assert(final(builder).functions@[i] == old(builder).functions@[i]);
            } else {
                assert(final(builder).functions@[i + 1] == old(builder).functions@[i]);
            }
        }
        if 0 <= i < j < final(builder).functions@.len() {
            assert(name_before(
                final(builder).functions@[i].id@,
                final(builder).functions@[j].id@,
            ));
            lemma_parts_below(
                vstd::utf8::encode_utf8(final(builder).functions@[i].id@),
                vstd::utf8::encode_utf8(final(builder).functions@[j].id@),
            );
        }
    }
}

} // verus!
