//! What holds across accesses to the PCI root and across bindings.

#[allow(unused_imports)]
use crate::access::AccessWidth;
#[allow(unused_imports)]
use crate::bytes::{lane_scale, le_byte, le_bytes, le_value};
#[allow(unused_imports)]
use crate::pci::address::valid_config_access;
#[allow(unused_imports)]
use crate::pci::bar::{BarState, FOUR_GIB};
#[allow(unused_imports)]
use crate::pci::config::{
    bar_at, bar_in_slot, lemma_bar_in_slot, merged_bytes, merged_dword, BarWriteAction,
    FunctionState,
};
#[allow(unused_imports)]
use crate::pci::root::{bar_serves, is_available, is_config_write, is_state_of, PciRootState};
#[allow(unused_imports)]
use crate::pci::router::{
    barriers_set, has_last_epoch, is_rotation, is_routed, rotated_admission, EndpointRouter,
};
#[allow(unused_imports)]
use crate::pci::routing::{
    EndpointAdmission, EndpointAdmissions, EndpointRouteToken, RoutedDeviceGrant,
};
use vstd::prelude::*;

verus! {

/// A config write changes exactly the bits that the write mask allows, to what was written, and
/// only in the bytes that it covers.
pub proof fn law_config_write_respects_mask(
    config: Seq<u8>,
    masks: Seq<u8>,
    offset: int,
    size: int,
    value: u64,
    i: int,
)
    requires
        0 <= i < config.len(),
    ensures
        ({
            let after = merged_bytes(config, masks, offset, size, value)[i];
            &&& after & !masks[i] == config[i] & !masks[i]
            &&& offset <= i < offset + size ==> after & masks[i] == le_byte(
                value as nat,
                (i - offset) as nat,
            ) & masks[i]
            &&& !(offset <= i < offset + size) ==> after == config[i]
        }),
{
    let byte = config[i];
    let mask = masks[i];
    let written = le_byte(value as nat, (i - offset) as nat);
    assert(((byte & !mask) | (written & mask)) & !mask == byte & !mask) by (bit_vector);
    assert(((byte & !mask) | (written & mask)) & mask == written & mask) by (bit_vector);
}

/// The bytes of a valid access belong to one register.
proof fn lemma_access_stays_in_register(bars: Seq<BarState>, offset: int, width: AccessWidth, i: int)
    requires
        valid_config_access(offset, width),
        0 <= i < width.bytes(),
    ensures
        bar_at(bars, offset + i) == bar_at(bars, offset),
        (offset + i) % 4 == offset % 4 + i,
{
    match width {
        AccessWidth::Byte => {},
        AccessWidth::Word => {
            assert(offset % 2 == 0);
        },
        AccessWidth::Dword => {
            assert(offset % 4 == 0);
        },
        AccessWidth::Qword => {},
    }
}

/// A field that a guest can write, outside the BARs, reads back what was written.
pub proof fn law_writable_field_reads_back(
    before: Seq<FunctionState>,
    after: Seq<FunctionState>,
    start: int,
    end: int,
    owner: int,
    offset: int,
    width: AccessWidth,
    value: u64,
)
    requires
        valid_config_access(offset, width),
        is_config_write(
            before,
            after,
            start,
            end,
            owner,
            offset,
            width.bytes() as int,
            value,
        ),
        bar_at(before[owner].bars@, offset) is None,
        forall|i: int|
            #![trigger before[owner].power_on.write_mask@[i]]
            offset <= i < offset + width.bytes() ==> before[owner].power_on.write_mask@[i] == 0xff,
    ensures
        le_value(after[owner].visible_bytes(offset, width.bytes() as int)) == value as nat
            % lane_scale(width.bytes()),
{
    let size = width.bytes() as int;
    let seen = after[owner].visible_bytes(offset, size);
    let expected = le_bytes(value as nat, width.bytes());
    assert forall|i: int| 0 <= i < size implies #[trigger] seen[i] == expected[i] by {
        lemma_access_stays_in_register(after[owner].bars@, offset, width, i);
        let byte = before[owner].config@[offset + i];
        let written = le_byte(value as nat, i as nat);
        let mask = before[owner].power_on.write_mask@[offset + i];
        assert(mask == 0xff);
        assert((byte & !0xffu8) | (written & 0xff) == written) by (bit_vector);
    }
    assert(seen =~= expected);
    crate::bytes::lemma_le_value_of_bytes(value as nat, width.bytes());
}

/// A BAR register reads as what its state says.
proof fn lemma_register_reads(state: FunctionState, offset: int, bar: nat)
    requires
        0x10 <= offset < 0x28,
        offset % 4 == 0,
        bar_at(state.bars@, offset) == Some(bar),
        0 <= state.bars@[bar as int].register() < FOUR_GIB,
    ensures
        le_value(state.visible_bytes(offset, 4)) == state.bars@[bar as int].register(),
{
    let register = state.bars@[bar as int].register() as nat;
    let seen = state.visible_bytes(offset, 4);
    assert forall|i: int| 0 <= i < 4 implies #[trigger] seen[i] == le_bytes(register, 4)[i] by {
        assert((offset + i - 0x10) / 4 == (offset - 0x10) / 4);
        assert((offset + i - 0x10) % 4 == i);
        assert(bar_at(state.bars@, offset + i) == Some(bar));
    }
    assert(seen =~= le_bytes(register, 4));
    crate::bytes::lemma_le_value_of_bytes(register, 4);
    crate::bytes::lemma_lane_scale_values();
    assert(register % lane_scale(4) == register) by {
        assert(lane_scale(4) == 0x1_0000_0000);
    }
}

/// Writing all ones to a BAR register makes it read as the complement of the BAR's size, and does
/// not change what the BAR decodes.
pub proof fn law_size_probe_reports_size(
    before: Seq<FunctionState>,
    after: Seq<FunctionState>,
    start: int,
    end: int,
    owner: int,
    offset: int,
    bar: nat,
)
    requires
        0 <= owner < before.len(),
        before[owner].wf(),
        0x10 <= offset < 0x28,
        offset % 4 == 0,
        bar_at(before[owner].bars@, offset) == Some(bar),
        is_config_write(before, after, start, end, owner, offset, 4, 0xffff_ffff),
    ensures
        bar < after[owner].bars@.len(),
        le_value(after[owner].visible_bytes(offset, 4)) == FOUR_GIB
            - before[owner].bars@[bar as int].plan.size,
        after[owner].bars@[bar as int].address == before[owner].bars@[bar as int].address,
        forall|b: int, address: int, size: int| #[trigger]
            bar_serves(after, owner, b, address, size) == bar_serves(
                before,
                owner,
                b,
                address,
                size,
            ),
{
    let bars = before[owner].bars@;
    lemma_bar_in_slot(bars, (offset - 0x10) / 4, 0);
    lemma_whole_register_write(bars[bar as int].address as nat, 0xffff_ffff);
    crate::bytes::lemma_lane_scale_values();
    assert((offset - 0x10) % 4 == 0);
    assert(bars.len() == before[owner].bars.len());
    assert(bars[bar as int].wf());
    lemma_slot_survives(bars, after[owner].bars@, (offset - 0x10) / 4, 0);
    lemma_register_reads(after[owner], offset, bar);
}

/// A write of a whole register leaves what was written.
proof fn lemma_whole_register_write(dword: nat, value: u64)
    ensures
        merged_dword(dword, 0, 4, value) == value as nat % lane_scale(4),
{
    let lane = 0int;
    let size = 4int;
    let merged = Seq::new(
        4,
        |i: int|
            if lane <= i < lane + size {
                le_byte(value as nat, (i - lane) as nat)
            } else {
                le_byte(dword, i as nat)
            },
    );
    assert(merged =~= le_bytes(value as nat, 4));
    crate::bytes::lemma_le_value_of_bytes(value as nat, 4);
    assert(merged_dword(dword, lane, size, value) == le_value(merged));
}

/// BARs keep their places as long as their plans do.
proof fn lemma_slot_survives(before: Seq<BarState>, after: Seq<BarState>, slot: int, from: nat)
    requires
        before.len() == after.len(),
        forall|b: int| #![trigger after[b]] 0 <= b < after.len() ==> after[b].plan == before[b].plan,
    ensures
        bar_in_slot(after, slot, from) == bar_in_slot(before, slot, from),
    decreases before.len() - from,
{
    if from < before.len() {
        assert(after[from as int].plan == before[from as int].plan);
        lemma_slot_survives(before, after, slot, from + 1);
    }
}

/// A relocation to an address that is not available changes neither what the BAR decodes nor the
/// image.
pub proof fn law_refused_relocation_changes_nothing(
    before: Seq<FunctionState>,
    after: Seq<FunctionState>,
    start: int,
    end: int,
    owner: int,
    offset: int,
    size: int,
    value: u64,
    bar: usize,
    candidate: u64,
)
    requires
        0 <= owner < before.len(),
        bar < before[owner].bars@.len(),
        is_config_write(before, after, start, end, owner, offset, size, value),
        before[owner].bar_action(offset, size, value) == Some(
            BarWriteAction::Relocate { bar, candidate },
        ),
        !is_available(before, start, end, owner, bar as int, candidate as int),
    ensures
        after[owner].config@ == before[owner].config@,
        after[owner].bars@[bar as int].address == before[owner].bars@[bar as int].address,
        after[owner].bars@[bar as int].register() == before[owner].bars@[bar as int].address,
        forall|b: int, address: int, width: int| #[trigger]
            bar_serves(after, owner, b, address, width) == bar_serves(
                before,
                owner,
                b,
                address,
                width,
            ),
{
}

/// A relocation to an address that is available moves what the BAR decodes to it, and the register
/// reads as it.
pub proof fn law_accepted_relocation_moves_the_bar(
    before: Seq<FunctionState>,
    after: Seq<FunctionState>,
    start: int,
    end: int,
    owner: int,
    offset: int,
    size: int,
    value: u64,
    bar: usize,
    candidate: u64,
    at: int,
)
    requires
        0 <= owner < before.len(),
        bar < before[owner].bars@.len(),
        before[owner].decodes_memory(),
        is_config_write(before, after, start, end, owner, offset, size, value),
        before[owner].bar_action(offset, size, value) == Some(
            BarWriteAction::Relocate { bar, candidate },
        ),
        is_available(before, start, end, owner, bar as int, candidate as int),
        0 <= at < before[owner].bars@[bar as int].plan.size,
    ensures
        after[owner].bars@[bar as int].register() == candidate,
        bar_serves(after, owner, bar as int, candidate + at, 1),
        candidate + at < before[owner].bars@[bar as int].address || candidate + at
            >= before[owner].bars@[bar as int].end() ==> !bar_serves(
            before,
            owner,
            bar as int,
            candidate + at,
            1,
        ),
{
}

/// A function that does not decode memory answers no access.
pub proof fn law_disabled_function_serves_nothing(
    functions: Seq<FunctionState>,
    owner: int,
    bar: int,
    address: int,
    size: int,
)
    requires
        !functions[owner].decodes_memory(),
    ensures
        !bar_serves(functions, owner, bar, address, size),
{
}

/// A root that was reset cannot be told from a root that was just created for the same topology:
/// every image and every BAR is the same.
pub proof fn law_reset_restores_power_on(reset: PciRootState, fresh: PciRootState, i: int)
    requires
        reset.wf(),
        fresh.wf(),
        reset.topology == fresh.topology,
        reset.at_power_on(),
        fresh.at_power_on(),
        0 <= i < fresh.functions@.len(),
    ensures
        reset.functions@.len() == fresh.functions@.len(),
        reset.functions@[i].bdf == fresh.functions@[i].bdf,
        reset.functions@[i].config@ == fresh.functions@[i].config@,
        reset.functions@[i].bars@ == fresh.functions@[i].bars@,
{
    let one = reset.functions@[i];
    let other = fresh.functions@[i];
    let resolved = fresh.topology.functions@[i];
    assert(is_state_of(one, resolved));
    assert(is_state_of(other, resolved));
    assert(one.bars@ =~= other.bars@) by {
        assert forall|b: int| 0 <= b < one.bars@.len() implies #[trigger] one.bars@[b]
            == other.bars@[b] by {
            assert(one.bars@[b].plan == resolved.bars@[b]);
            assert(other.bars@[b].plan == resolved.bars@[b]);
        }
    }
}

/// A lifecycle reset makes every token that was handed out before stale, keeps the binding
/// generations, and leaves every new epoch closed.
pub proof fn law_reset_makes_tokens_stale<F>(
    before: EndpointRouter<F>,
    after: EndpointRouter<F>,
    old_entries: Seq<EndpointAdmission>,
    new_entries: Seq<EndpointAdmission>,
    replacements: Seq<(EndpointRouteToken, EndpointRouteToken)>,
    i: int,
)
    requires
        is_rotation(
            before.endpoints@,
            after.endpoints@,
            old_entries,
            new_entries,
            replacements,
        ),
        forall|j: int|
            #![trigger before.endpoints@[j]]
            0 <= j < before.endpoints@.len() ==> before.endpoints@[j].token.admission_epoch
                < u64::MAX,
        forall|j: int, k: int|
            #![trigger before.endpoints@[j], before.endpoints@[k]]
            0 <= j < k < before.endpoints@.len() ==> before.endpoints@[j].token.device.0
                < before.endpoints@[k].token.device.0,
        0 <= i < before.endpoints@.len(),
    ensures
        !after.has_token(before.endpoints@[i].token),
        after.endpoints@[i].token.binding_generation
            == before.endpoints@[i].token.binding_generation,
        after.endpoints@[i].token.admission_epoch == before.endpoints@[i].token.admission_epoch + 1,
        !new_entries[old_entries.len() + i].open,
{
    let token = before.endpoints@[i].token;
    assert(after.endpoints@[i].token.admission_epoch == token.admission_epoch + 1);
    assert forall|j: int| #![trigger after.endpoints@[j]] 0 <= j < after.endpoints@.len() implies
        after.endpoints@[j].token != token by {
        assert(after.endpoints@[j].token.device == before.endpoints@[j].token.device);
        if j != i {
            if j < i {
                assert(before.endpoints@[j].token.device.0 < before.endpoints@[i].token.device.0);
            } else {
                assert(before.endpoints@[i].token.device.0 < before.endpoints@[j].token.device.0);
            }
        }
    }
}

/// A binding never gets a generation that an earlier binding had, so that a token from before a
/// rebinding leads nowhere.
pub proof fn law_rebinding_makes_tokens_stale<F>(
    before: EndpointRouter<F>,
    admissions: EndpointAdmissions,
    earlier: EndpointRouteToken,
    minted: EndpointRouteToken,
)
    requires
        before.wf(admissions),
        earlier.binding_generation <= before.next_generation,
        minted.binding_generation == before.next_generation + 1,
    ensures
        earlier != minted,
        forall|i: int|
            #![trigger before.endpoints@[i]]
            0 <= i < before.endpoints@.len() ==> before.endpoints@[i].token != minted,
{
}

/// A rotation of the admissions gives every endpoint the next epoch and nothing else new. Old tokens
/// and their grants are shut out for good; a new token is admitted once the admissions are opened,
/// and not before.
pub proof fn law_rotation_admits_only_the_next_epoch<F>(
    before: EndpointRouter<F>,
    after: EndpointRouter<F>,
    admissions: EndpointAdmissions,
    rotated: EndpointAdmissions,
    opened: EndpointAdmissions,
    replacements: Seq<(EndpointRouteToken, EndpointRouteToken)>,
    dma_enabled: bool,
    i: int,
)
    requires
        before.wf(admissions),
        !has_last_epoch(before.endpoints@),
        is_rotation(
            before.endpoints@,
            after.endpoints@,
            admissions.entries@,
            rotated.entries@,
            replacements,
        ),
        barriers_set(after.endpoints@, rotated.entries@, opened.entries@, true),
        0 <= i < before.endpoints@.len(),
    ensures
        replacements.len() == before.endpoints@.len(),
        ({
            let (stale, fresh) = replacements[i];
            &&& stale == before.endpoints@[i].token
            &&& fresh == after.endpoints@[i].token
            &&& after.has_token(fresh)
            &&& fresh.device == stale.device
            &&& fresh.binding_generation == stale.binding_generation
            &&& fresh.admission_epoch == stale.admission_epoch + 1
            &&& !rotated.at(stale.admission).admits(stale)
            &&& !opened.at(stale.admission).admits(stale)
            &&& !(RoutedDeviceGrant { token: stale, dma_enabled }).is_open(rotated)
            &&& !(RoutedDeviceGrant { token: stale, dma_enabled }).is_open(opened)
            &&& rotated.has(fresh.admission) && opened.has(fresh.admission)
            &&& !rotated.at(fresh.admission).admits(fresh)
            &&& opened.at(fresh.admission).admits(fresh)
            &&& opened.at(fresh.admission).leases == 0
            &&& (RoutedDeviceGrant { token: fresh, dma_enabled }).is_open(opened)
        }),
{
    let base = admissions.entries@.len();
    let stale = before.endpoints@[i].token;
    let fresh = after.endpoints@[i].token;
    assert(rotated.entries.len() == rotated.entries@.len());
    assert(fresh.admission.0 == base + i);
    assert(rotated.entries@[base + i] == rotated_admission(stale));
    assert(is_routed(after.endpoints@, base + i));
    assert(opened.entries@[base + i].open);
    assert(is_routed(before.endpoints@, stale.admission.0 as int));
    assert(!rotated.entries@[stale.admission.0 as int].open);
    assert(!is_routed(after.endpoints@, stale.admission.0 as int)) by {
        assert forall|j: int| #![trigger after.endpoints@[j]] 0 <= j
            < after.endpoints@.len() implies after.endpoints@[j].token.admission.0
            != stale.admission.0 by {
            assert(after.endpoints@[j].token.admission.0 == base + j);
        }
    }
    assert(opened.entries@[stale.admission.0 as int]
        == rotated.entries@[stale.admission.0 as int]);
}

} // verus!
