//! Which config accesses an endpoint has a part in.

#[allow(unused_imports)]
use crate::access::{AccessWidth, DeviceId, DeviceNodeId};
#[allow(unused_imports)]
use crate::pci::address::{valid_config_access, ConfigOffset};
#[allow(unused_imports)]
use crate::pci::capability::{
    PciCapabilityEffectAccess, PciCapabilityEffectRegion, PciCapabilityLayout,
    PciCapabilitySnapshot, PciCapabilitySpec, PciConfigEffectId,
};
#[allow(unused_imports)]
use crate::pci::config::{FunctionState, PciCommandState};
#[allow(unused_imports)]
use crate::pci::effect::{complete_dynamic_status, PciConfigReadOutcome, PciConfigWriteOutcome};
#[allow(unused_imports)]
use crate::pci::error::{PciError, PciResult};
#[allow(unused_imports)]
use crate::pci::root::{
    admitted_token, bar_serves, is_config_write, is_read_outcome, is_write_outcome, PciBarRoute,
    PciRootState,
};
#[allow(unused_imports)]
use crate::pci::routing::{EndpointAdmissions, EndpointRouteToken};
use vstd::prelude::*;

verus! {

/// Whether an access of `size` bytes at `offset` has a byte in a region of a capability.
pub open spec fn touches(
    layout: PciCapabilityLayout,
    region: PciCapabilityEffectRegion,
    offset: int,
    size: int,
) -> bool {
    let start = layout.offset + region.offset;
    offset < start + region.length && start < offset + size
}

/// Whether a region answers reads, or writes.
pub open spec fn answers(access: PciCapabilityEffectAccess, write: bool) -> bool {
    match access {
        PciCapabilityEffectAccess::Read => !write,
        PciCapabilityEffectAccess::Write => write,
        PciCapabilityEffectAccess::ReadWrite => true,
    }
}

/// The first region that is met is found.
proof fn lemma_effect_met(
    layout: PciCapabilityLayout,
    from: nat,
    offset: int,
    size: int,
    write: bool,
    found: int,
)
    ensures
        (forall|e: int|
            #![trigger layout.spec.effects@[e]]
            from <= e < layout.spec.effects@.len() ==> !(answers(
                layout.spec.effects@[e].access,
                write,
            ) && touches(layout, layout.spec.effects@[e], offset, size))) ==> layout.effect_met(
            from,
            offset,
            size,
            write,
        ) is None,
        from <= found < layout.spec.effects@.len() && answers(
            layout.spec.effects@[found].access,
            write,
        ) && touches(layout, layout.spec.effects@[found], offset, size) && (forall|e: int|
            #![trigger layout.spec.effects@[e]]
            from <= e < found ==> !(answers(layout.spec.effects@[e].access, write) && touches(
                layout,
                layout.spec.effects@[e],
                offset,
                size,
            ))) ==> layout.effect_met(from, offset, size, write) == Some(found as nat),
    decreases layout.spec.effects@.len() - from,
{
    if from < layout.spec.effects@.len() {
        assert(layout.spec.effects@[from as int] == layout.spec.effects@[from as int]);
        lemma_effect_met(layout, from + 1, offset, size, write, found);
    }
}

/// An access that has no byte in a region for its direction is the root's; one that lies in such a
/// region is the endpoint's; one that crosses its edge is refused.
pub proof fn law_region_takes_whole_accesses(
    layout: PciCapabilityLayout,
    offset: usize,
    size: usize,
    write: bool,
    width: AccessWidth,
    result: PciResult<Option<PciCapabilityEffectRegion>>,
    found: int,
)
    requires
        layout.wf(),
        offset + size <= 256,
        call_ensures(
            PciCapabilityLayout::effect_for_access,
            (&layout, offset, size, write, width),
            result,
        ),
    ensures
        (forall|e: int|
            #![trigger layout.spec.effects@[e]]
            0 <= e < layout.spec.effects@.len() ==> !(answers(
                layout.spec.effects@[e].access,
                write,
            ) && touches(layout, layout.spec.effects@[e], offset as int, size as int))) ==> result
            == Ok::<_, PciError>(None::<PciCapabilityEffectRegion>),
        0 <= found < layout.spec.effects@.len() && answers(
            layout.spec.effects@[found].access,
            write,
        ) && touches(layout, layout.spec.effects@[found], offset as int, size as int) && (forall|
            e: int,
        |
            #![trigger layout.spec.effects@[e]]
            0 <= e < found ==> !(answers(layout.spec.effects@[e].access, write) && touches(
                layout,
                layout.spec.effects@[e],
                offset as int,
                size as int,
            ))) ==> {
            let region = layout.spec.effects@[found];
            let start = layout.offset + region.offset;
            let inside = start <= offset && offset + size <= start + region.length;
            &&& inside ==> result == Ok::<_, PciError>(Some(region))
            &&& !inside ==> (result matches Err(PciError::InvalidConfigAccess { .. }))
        },
{
    lemma_effect_met(layout, 0, offset as int, size as int, write, found);
}

/// A region stands behind the two header bytes, is not empty, and ends within what a byte can count;
/// a capability takes it if it ends within the body and overlaps no earlier one.
pub proof fn law_region_fits_its_capability(
    effect: PciConfigEffectId,
    offset: u8,
    length: u8,
    access: PciCapabilityEffectAccess,
    made: PciResult<PciCapabilityEffectRegion>,
    spec: PciCapabilitySpec,
    taken: PciResult<PciCapabilitySpec>,
)
    requires
        spec.wf(),
        call_ensures(PciCapabilityEffectRegion::new, (effect, offset, length, access), made),
        made matches Ok(region) ==> call_ensures(
            PciCapabilitySpec::with_effect,
            (spec, region),
            taken,
        ),
    ensures
        made is Ok <==> offset >= 2 && length > 0 && offset + length <= 255,
        made matches Ok(region) ==> region.effect == effect && region.offset == offset
            && region.length == length && region.access == access,
        made is Ok ==> (taken is Ok <==> offset + length <= 2 + spec.body@.len() && forall|i: int|
            #![trigger spec.effects@[i]]
            0 <= i < spec.effects@.len() ==> offset + length <= spec.effects@[i].offset
                || spec.effects@[i].offset + spec.effects@[i].length <= offset),
        made is Ok && taken is Ok ==> taken->Ok_0.body == spec.body && taken->Ok_0.write_mask
            == spec.write_mask && taken->Ok_0.id == spec.id && taken->Ok_0.effects@
            == spec.effects@.push(made->Ok_0),
{
}

/// A snapshot of a capability is its body as it stands in the image.
pub proof fn law_snapshot_is_the_body(
    layout: PciCapabilityLayout,
    config: [u8; 256],
    snapshot: PciCapabilitySnapshot,
    at: int,
)
    requires
        layout.wf(),
        call_ensures(PciCapabilityLayout::snapshot, (&layout, &config), snapshot),
    ensures
        snapshot@.len() == layout.spec.body@.len(),
        0 <= at < layout.spec.body@.len() ==> snapshot@[at] == config@[layout.offset + 2 + at],
{
}

/// Completing a status read sets or clears the masked bits, as the endpoint says, and keeps the rest.
pub proof fn law_status_shows_the_interrupt(value: u64, mask: u64, pending: bool, status: u64)
    requires
        call_ensures(complete_dynamic_status, (value, mask, pending), status),
    ensures
        pending ==> status & mask == mask,
        !pending ==> status & mask == 0,
        status & !mask == value & !mask,
{
    lemma_masked(value, mask);
}

/// Bits under a mask.
pub proof fn lemma_masked(value: u64, mask: u64)
    by (bit_vector)
    ensures
        (value | mask) & mask == mask,
        (value | mask) & !mask == value & !mask,
        (value & !mask) & mask == 0,
        (value & !mask) & !mask == value & !mask,
{
}

/// Capabilities stand behind the header, so that no access to the header meets one.
pub proof fn lemma_header_has_no_effect(
    function: FunctionState,
    from: nat,
    offset: int,
    size: int,
    width: AccessWidth,
    write: bool,
)
    requires
        function.wf(),
        offset + size <= 0x40,
    ensures
        function.effect_capability(from, offset, size, width, write) is None,
    decreases function.power_on.capabilities@.len() - from,
{
    if from < function.power_on.capabilities@.len() {
        let layout = function.power_on.capabilities@[from as int];
        assert(layout.wf());
        lemma_effect_met(layout, 0, offset, size, write, 0);
        assert forall|e: int|
            #![trigger layout.spec.effects@[e]]
            0 <= e < layout.spec.effects@.len() implies !touches(
            layout,
            layout.spec.effects@[e],
            offset,
            size,
        ) by {
            assert(layout.spec.effects@[e].wf());
        }
        lemma_header_has_no_effect(function, from + 1, offset, size, width, write);
    }
}

/// A read of the header gives what the root has. Only the interrupt status, bit 3 of byte 6, is the
/// endpoint's: a read of that byte asks it, where the function has an interrupt pin and an endpoint
/// that is let in, and says where the bit stands in the value.
pub proof fn law_header_reads_ask_for_the_interrupt_status(
    root: PciRootState,
    owner: int,
    offset: ConfigOffset,
    width: AccessWidth,
    admissions: EndpointAdmissions,
    plain: u64,
    outcome: PciConfigReadOutcome,
)
    requires
        root.wf(),
        0 <= owner < root.functions@.len(),
        offset.0 < 0x40,
        call_ensures(
            PciRootState::read_config,
            (&root, root.functions@[owner].bdf, offset, width),
            Ok(plain),
        ),
        call_ensures(
            PciRootState::prepare_read_config,
            (&root, root.functions@[owner].bdf, offset, width, &admissions),
            Ok(outcome),
        ),
    ensures
        ({
            let size = match width {
                AccessWidth::Byte => 1int,
                AccessWidth::Word => 2,
                _ => 4,
            };
            let bound = root.bindings@[owner] is Some && admissions.has(
                root.bindings@[owner]->0.admission,
            ) && admissions.at(root.bindings@[owner]->0.admission).open;
            let asks = root.functions@[owner].intx && bound && offset.0 <= 6 < offset.0 + size;
            &&& !asks ==> outcome == PciConfigReadOutcome::Value(plain)
            &&& asks ==> (outcome matches PciConfigReadOutcome::DynamicStatus {
                token,
                value,
                interrupt_status_mask,
                ..
            } && token == root.bindings@[owner]->0 && value == plain && (offset.0 == 6
                ==> interrupt_status_mask == 8) && (offset.0 == 4 ==> interrupt_status_mask
                == 0x8_0000))
        }),
{
    let at = offset.0 as int;
    let function = root.functions@[owner];
    assert(valid_config_access(at, width));
    assert(function.wf());
    assert(at + width.bytes() <= 0x40) by {
        match width {
            AccessWidth::Byte => {},
            AccessWidth::Word => {
                assert(at % 2 == 0);
            },
            AccessWidth::Dword => {
                assert(at % 4 == 0);
            },
            AccessWidth::Qword => {},
        }
    }
    lemma_header_has_no_effect(function, 0, at, width.bytes() as int, width, false);
    assert(is_read_outcome(
        function,
        admitted_token(root.bindings@[owner], admissions),
        at,
        width,
        Ok(outcome),
    ));
    if width is Word && at <= 6 < at + 2 {
        assert(at == 6) by {
            assert(at % 2 == 0);
        }
    }
    if width is Dword && at <= 6 < at + 4 {
        assert(at == 4) by {
            assert(at % 4 == 0);
        }
    }
}

/// A write to the header does what the root does with it, and tells the endpoint where it changes the
/// command register's decoding, bus mastering or interrupt disable.
pub proof fn law_header_writes_report_command_changes(
    root: &mut PciRootState,
    same: &mut PciRootState,
    owner: int,
    offset: ConfigOffset,
    width: AccessWidth,
    value: u64,
    admissions: EndpointAdmissions,
    outcome: PciConfigWriteOutcome,
)
    requires
        old(root).wf(),
        *old(same) == *old(root),
        0 <= owner < old(root).functions@.len(),
        offset.0 < 0x40,
        call_ensures(
            PciRootState::prepare_write_config,
            (root, old(root).functions@[owner].bdf, offset, width, value, &admissions),
            Ok(outcome),
        ),
        call_ensures(
            PciRootState::write_config,
            (same, old(root).functions@[owner].bdf, offset, width, value),
            Ok(()),
        ),
    ensures
        final(root).functions@.len() == final(same).functions@.len(),
        final(root).functions@[owner].config@ == final(same).functions@[owner].config@,
        final(root).functions@[owner].bars@ == final(same).functions@[owner].bars@,
        forall|i: int|
            #![trigger final(root).functions@[i]]
            0 <= i < old(root).functions@.len() && i != owner ==> final(root).functions@[i] == old(
                root).functions@[i],
        ({
            let before = old(root).functions@[owner].config@;
            let after = final(root).functions@[owner].config@;
            let changed = (before[4] & 2 != 0) != (after[4] & 2 != 0) || (before[4] & 4 != 0) != (
            after[4] & 4 != 0) || (before[5] & 4 != 0) != (after[5] & 4 != 0);
            &&& !changed ==> outcome is Complete
            &&& changed ==> (outcome matches PciConfigWriteOutcome::CommandChanged {
                token,
                command,
            } && (command.memory_space_enable <==> after[4] & 2 != 0) && (command.bus_master_enable
                <==> after[4] & 4 != 0) && (command.interrupt_disable <==> after[5] & 4 != 0) && (
            token matches Some(told) ==> old(root).bindings@[owner] == Some(told)))
        }),
{
    let at = offset.0 as int;
    let function = old(root).functions@[owner];
    assert(valid_config_access(at, width));
    assert(function.wf());
    assert(at + width.bytes() <= 0x40) by {
        match width {
            AccessWidth::Byte => {},
            AccessWidth::Word => {
                assert(at % 2 == 0);
            },
            AccessWidth::Dword => {
                assert(at % 4 == 0);
            },
            AccessWidth::Qword => {},
        }
    }
    lemma_header_has_no_effect(function, 0, at, width.bytes() as int, width, true);
    assert(is_write_outcome(
        old(root).functions@,
        final(root).functions@,
        old(root).topology.aperture_start as int,
        old(root).topology.aperture_end as int,
        owner,
        admitted_token(old(root).bindings@[owner], admissions),
        at,
        width,
        value,
        Ok(outcome),
    ));
    assert(old(same).functions@[owner] == function);
    assert(is_config_write(
        old(same).functions@,
        final(same).functions@,
        old(same).topology.aperture_start as int,
        old(same).topology.aperture_end as int,
        owner,
        at,
        width.bytes() as int,
        value,
    ));
}

/// An access to memory leads to the endpoint that is bound to the function whose BAR has it, with the
/// command register of that function; without an endpoint it leads nowhere.
pub proof fn law_memory_access_leads_to_the_endpoint(
    root: PciRootState,
    address: u64,
    width: AccessWidth,
    bound: Option<(EndpointRouteToken, PciBarRoute, PciCommandState)>,
    owner: int,
    bar: int,
)
    requires
        root.wf(),
        0 <= owner < root.functions@.len(),
        0 <= bar < root.functions@[owner].bars@.len(),
        call_ensures(PciRootState::resolve_bound_bar, (&root, address, width), bound),
    ensures
        ({
            let function = root.functions@[owner];
            let state = function.bars@[bar];
            let size = match width {
                AccessWidth::Byte => 1int,
                AccessWidth::Word => 2,
                AccessWidth::Dword => 4,
                AccessWidth::Qword => 8,
            };
            function.config@[4] & 2 != 0 && state.address <= address && address + size
                <= state.address + state.plan.size ==> {
                &&& bound is Some <==> root.bindings@[owner] is Some
                &&& bound matches Some((token, route, command)) ==> {
                    &&& root.bindings@[owner] == Some(token)
                    &&& route.bdf == function.bdf && route.bar == state.plan.index && route.offset
                        == address - state.address && route.width == width
                    &&& command.memory_space_enable
                    &&& command.bus_master_enable <==> function.config@[4] & 4 != 0
                    &&& command.interrupt_disable <==> function.config@[5] & 4 != 0
                }
            }
        }),
{
    let function = root.functions@[owner];
    let state = function.bars@[bar];
    let size = width.bytes() as int;
    if function.config@[4] & 2 != 0 && state.address <= address && address + size <= state.address
        + state.plan.size {
        assert(bar_serves(root.functions@, owner, bar, address as int, size));
        crate::pci::root::law_route_is_unique(root, address as int, size);
        if let Some((token, route, command)) = bound {
            assert(root.is_bound_route(address, width, token, route, command));
            let (i, b) = choose|i: int, b: int|
                #[trigger] root.is_route_of(i, b, address, width, token, route, command);
            assert(root.is_route_of(i, b, address, width, token, route, command));
            assert(bar_serves(root.functions@, i, b, address as int, size));
        }
    }
}

/// An endpoint is bound to the function with its name, if there is one that is free, and to no other.
pub proof fn law_endpoint_is_bound_to_its_function(
    root: &mut PciRootState,
    function_id: DeviceNodeId,
    token: EndpointRouteToken,
    result: PciResult<()>,
    owner: int,
)
    requires
        old(root).wf(),
        call_ensures(PciRootState::bind_endpoint, (root, &function_id, token), result),
        0 <= owner < old(root).functions@.len(),
    ensures
        final(root).bindings@.len() == old(root).bindings@.len(),
        old(root).topology.functions@[owner].id@ == function_id@ && old(
            root).bindings@[owner] is None ==> result is Ok && final(root).bindings@[owner] == Some(
            token,
        ),
        old(root).topology.functions@[owner].id@ == function_id@ && old(
            root).bindings@[owner] is Some ==> (result matches Err(
            PciError::FunctionAlreadyBound { .. },
        )) && final(root).bindings@[owner] == old(root).bindings@[owner],
        old(root).topology.functions@[owner].id@ != function_id@ ==> final(root).bindings@[owner]
            == old(root).bindings@[owner],
        result is Err ==> final(root).bindings@ == old(root).bindings@,
        final(root).functions@ == old(root).functions@,
{
    lemma_position(old(root).topology, function_id@, 0, owner);
}

/// The position of a name is that of the function that has it.
proof fn lemma_position(
    topology: crate::pci::topology::ResolvedPciTopology,
    id: Seq<char>,
    from: nat,
    owner: int,
)
    requires
        topology.wf(),
        0 <= owner < topology.functions@.len(),
    ensures
        from <= owner && topology.functions@[owner].id@ == id ==> topology.position_of(id, from)
            == Some(owner as nat),
        topology.position_of(id, from) matches Some(at) ==> at < topology.functions@.len()
            && topology.functions@[at as int].id@ == id,
    decreases topology.functions@.len() - from,
{
    if from < topology.functions@.len() {
        if from < owner {
            assert(topology.functions@[from as int].id@ != topology.functions@[owner].id@);
        }
        lemma_position(topology, id, from + 1, owner);
    }
}

/// Taking a device out frees every function that it is bound to, and no other.
pub proof fn law_device_is_unbound(root: &mut PciRootState, device: DeviceId, owner: int)
    requires
        old(root).wf(),
        call_ensures(PciRootState::unbind_device, (root, device), ()),
        0 <= owner < old(root).bindings@.len(),
    ensures
        old(root).bindings@[owner] matches Some(token) && token.device == device ==> final(
            root).bindings@[owner] is None,
        !(old(root).bindings@[owner] matches Some(token) && token.device == device) ==> final(
            root).bindings@[owner] == old(root).bindings@[owner],
        final(root).functions@ == old(root).functions@,
{
    assert(final(root).bindings@[owner] == final(root).bindings@[owner]);
}

} // verus!
