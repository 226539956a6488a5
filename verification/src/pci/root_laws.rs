//! What a guest sees of its config accesses, and where BARs lead.

#[allow(unused_imports)]
use crate::access::AccessWidth;
#[allow(unused_imports)]
use crate::bytes::{
    law_byte_lanes, law_bytes_are_little_endian, le_byte, le_value, lemma_lane_scale_values,
};
#[allow(unused_imports)]
use crate::pci::address::{lemma_valid_access, valid_config_access, ConfigOffset, PciBdf};
#[allow(unused_imports)]
use crate::pci::bar::BarState;
#[allow(unused_imports)]
use crate::pci::config::{bar_at, bar_in_slot, merged_dword, FunctionState, PciCommandState};
#[allow(unused_imports)]
use crate::pci::error::{PciError, PciResult};
#[allow(unused_imports)]
use crate::pci::laws::law_config_write_respects_mask;
#[allow(unused_imports)]
use crate::pci::root::{bar_serves, is_available, is_route, PciBarRoute, PciRootState};
use vstd::prelude::*;

verus! {

/// Byte `lane` of a value, counted from the least significant one.
pub open spec fn byte_of(value: int, lane: int) -> int {
    if lane == 0 {
        value % 0x100
    } else if lane == 1 {
        value / 0x100 % 0x100
    } else if lane == 2 {
        value / 0x1_0000 % 0x100
    } else {
        value / 0x100_0000 % 0x100
    }
}

/// The doubleword with these bytes, least significant first.
pub open spec fn dword_of(b0: int, b1: int, b2: int, b3: int) -> int {
    b0 + 0x100 * b1 + 0x1_0000 * b2 + 0x100_0000 * b3
}

/// Lane `j` of a register after `size` bytes of `value` were written from lane `lane` on.
pub open spec fn lane_after(register: int, value: int, lane: int, size: int, j: int) -> int {
    if lane <= j < lane + size {
        byte_of(value, j - lane)
    } else {
        byte_of(register, j)
    }
}

/// A register after `size` bytes of `value` were written from lane `lane` on.
pub open spec fn register_after(register: int, value: int, lane: int, size: int) -> int {
    dword_of(
        lane_after(register, value, lane, size, 0),
        lane_after(register, value, lane, size, 1),
        lane_after(register, value, lane, size, 2),
        lane_after(register, value, lane, size, 3),
    )
}

/// Whether a BAR can stand at `address`: a multiple of its size, inside the aperture and below 4 GiB,
/// where no other BAR has a byte.
pub open spec fn is_free_place(root: PciRootState, owner: int, bar: int, address: int) -> bool {
    let size = root.functions@[owner].bars@[bar].plan.size as int;
    &&& address % size == 0
    &&& root.topology.aperture_start <= address
    &&& address + size <= root.topology.aperture_end
    &&& address + size <= 0x1_0000_0000
    &&& forall|i: int, b: int|
        #![trigger root.functions@[i].bars@[b]]
        0 <= i < root.functions@.len() && 0 <= b < root.functions@[i].bars@.len() && (i != owner
            || b != bar) ==> address + size <= root.functions@[i].bars@[b].address
            || root.functions@[i].bars@[b].address + root.functions@[i].bars@[b].plan.size
            <= address
}

/// Whether `bar` of function `owner` is the BAR in slot `slot`.
pub open spec fn stands_in_slot(root: PciRootState, owner: int, bar: int, slot: int) -> bool {
    &&& 0 <= owner < root.functions@.len()
    &&& 0 <= bar < root.functions@[owner].bars@.len()
    &&& root.functions@[owner].bars@[bar].plan.index.0 == slot
    &&& 0 <= slot < 6
    &&& forall|b: int|
        #![trigger root.functions@[owner].bars@[b]]
        0 <= b < bar ==> root.functions@[owner].bars@[b].plan.index.0 != slot
}

/// The first BAR in a slot is found.
proof fn lemma_slot_found(bars: Seq<BarState>, slot: int, from: nat, bar: nat)
    requires
        from <= bar < bars.len(),
        bars[bar as int].plan.index.0 == slot,
        forall|b: int| #![trigger bars[b]] from <= b < bar ==> bars[b].plan.index.0 != slot,
    ensures
        bar_in_slot(bars, slot, from) == Some(bar),
    decreases bar - from,
{
    if from < bar {
        assert(bars[from as int].plan.index.0 != slot);
        lemma_slot_found(bars, slot, from + 1, bar);
    }
}

/// Merging a write into a register replaces the lanes that were written.
pub proof fn lemma_merged(register: nat, lane: int, size: int, value: u64)
    requires
        0 <= lane,
        0 <= size,
        lane + size <= 4,
    ensures
        merged_dword(register, lane, size, value) == register_after(
            register as int,
            value as int,
            lane,
            size,
        ),
        0 <= merged_dword(register, lane, size, value) <= 0xffff_ffff,
{
    law_byte_lanes(register);
    law_byte_lanes(value as nat);
    let merged = Seq::new(
        4,
        |i: int|
            if lane <= i < lane + size {
                le_byte(value as nat, (i - lane) as nat)
            } else {
                le_byte(register, i as nat)
            },
    );
    assert(merged_dword(register, lane, size, value) == le_value(merged));
    law_bytes_are_little_endian(merged);
    assert(merged[0] == lane_after(register as int, value as int, lane, size, 0));
    assert(merged[1] == lane_after(register as int, value as int, lane, size, 1));
    assert(merged[2] == lane_after(register as int, value as int, lane, size, 2));
    assert(merged[3] == lane_after(register as int, value as int, lane, size, 3));
}

/// A whole register that is written holds what was written.
proof fn lemma_whole_register(register: int, value: int)
    requires
        0 <= value <= 0xffff_ffff,
    ensures
        register_after(register, value, 0, 4) == value,
{
}

/// Which accesses the root takes: bytes anywhere, words at even offsets, doublewords at multiples of
/// four, and nothing else; a refused access changes nothing and says why.
pub proof fn law_config_access_is_aligned(
    root: &mut PciRootState,
    bdf: PciBdf,
    offset: ConfigOffset,
    width: AccessWidth,
    value: u64,
    written: PciResult<()>,
    read: PciResult<u64>,
)
    requires
        old(root).wf(),
        offset.0 < 256,
        call_ensures(PciRootState::read_config, (&*old(root), bdf, offset, width), read),
        call_ensures(PciRootState::write_config, (root, bdf, offset, width, value), written),
    ensures
        ({
            let aligned = match width {
                AccessWidth::Byte => true,
                AccessWidth::Word => offset.0 % 2 == 0,
                AccessWidth::Dword => offset.0 % 4 == 0,
                AccessWidth::Qword => false,
            };
            &&& written is Ok <==> aligned
            &&& read is Ok <==> aligned
            &&& !aligned ==> final(root).functions@ == old(root).functions@
            &&& !aligned ==> (read matches Err(
                PciError::InvalidConfigAccess { offset: o, width: w, .. },
            ) && o == offset.0 && w == width)
        }),
        final(root).topology == old(root).topology,
        final(root).bindings == old(root).bindings,
{
}

/// A function that is not there reads as all ones and keeps nothing of what is written to it.
pub proof fn law_absent_function_reads_all_ones(
    root: &mut PciRootState,
    bdf: PciBdf,
    offset: ConfigOffset,
    width: AccessWidth,
    value: u64,
    written: PciResult<()>,
    read: u64,
)
    requires
        old(root).wf(),
        forall|i: int|
            #![trigger old(root).functions@[i]]
            0 <= i < old(root).functions@.len() ==> old(root).functions@[i].bdf != bdf,
        call_ensures(PciRootState::read_config, (&*old(root), bdf, offset, width), Ok(read)),
        call_ensures(PciRootState::write_config, (root, bdf, offset, width, value), written),
    ensures
        width is Byte ==> read == 0xff,
        width is Word ==> read == 0xffff,
        width is Dword ==> read == 0xffff_ffff,
        final(root).functions@ == old(root).functions@,
{
    lemma_lane_scale_values();
    if !valid_config_access(offset.0 as int, width) {
        assert(false);
    }
    assert(old(root).is_absent(bdf));
}

/// A read gives the bytes of the image, little-endian, outside the registers of BARs.
pub proof fn law_config_read_gives_the_image(
    root: PciRootState,
    owner: int,
    offset: ConfigOffset,
    width: AccessWidth,
    read: u64,
)
    requires
        root.wf(),
        0 <= owner < root.functions@.len(),
        !(0x10 <= offset.0 < 0x28),
        call_ensures(
            PciRootState::read_config,
            (&root, root.functions@[owner].bdf, offset, width),
            Ok(read),
        ),
    ensures
        ({
            let config = root.functions@[owner].config@;
            let at = offset.0 as int;
            &&& width is Byte ==> read == config[at]
            &&& width is Word ==> read == config[at] + 0x100 * config[at + 1]
            &&& width is Dword ==> read == dword_of(
                config[at] as int,
                config[at + 1] as int,
                config[at + 2] as int,
                config[at + 3] as int,
            )
        }),
{
    let at = offset.0 as int;
    let state = root.functions@[owner];
    assert(valid_config_access(at, width));
    lemma_valid_access(at, width);
    let seen = state.visible_bytes(at, width.bytes() as int);
    assert(read == le_value(seen));
    law_bytes_are_little_endian(seen);
    assert forall|j: int| 0 <= j < width.bytes() implies #[trigger] seen[j] == state.config@[at
        + j] by {
        assert(bar_at(state.bars@, at + j) is None);
    }
}

/// The register of a BAR reads as the address that the BAR decodes, or, after a size probe, as what
/// is left of 4 GiB behind a BAR of its size; single lanes read as parts of it.
pub proof fn law_bar_register_reads(
    root: PciRootState,
    owner: int,
    bar: int,
    slot: int,
    offset: ConfigOffset,
    width: AccessWidth,
    read: u64,
)
    requires
        root.wf(),
        stands_in_slot(root, owner, bar, slot),
        0x10 + 4 * slot <= offset.0 < 0x14 + 4 * slot,
        call_ensures(
            PciRootState::read_config,
            (&root, root.functions@[owner].bdf, offset, width),
            Ok(read),
        ),
    ensures
        ({
            let state = root.functions@[owner].bars@[bar];
            let register = if state.probing {
                0x1_0000_0000 - state.plan.size
            } else {
                state.address as int
            };
            let lane = offset.0 - 0x10 - 4 * slot;
            &&& width is Dword ==> read == register
            &&& width is Word ==> read == byte_of(register, lane) + 0x100 * byte_of(
                register,
                lane + 1,
            )
            &&& width is Byte ==> read == byte_of(register, lane)
        }),
{
    let at = offset.0 as int;
    let lane = at - 0x10 - 4 * slot;
    let state = root.functions@[owner];
    assert(valid_config_access(at, width));
    lemma_valid_access(at, width);
    lemma_slot_found(state.bars@, slot, 0, bar as nat);
    assert(state.wf());
    assert(state.bars@[bar].wf());
    let register = state.bars@[bar].register();
    let seen = state.visible_bytes(at, width.bytes() as int);
    assert(read == le_value(seen));
    assert forall|j: int| 0 <= j < width.bytes() implies #[trigger] seen[j] == le_byte(
        register as nat,
        (lane + j) as nat,
    ) by {
        assert((at + j - 0x10) / 4 == slot);
        assert((at + j - 0x10) % 4 == lane + j);
    }
    lemma_lanes_read(register, lane, seen);
}

/// Lanes of a register, read together.
proof fn lemma_lanes_read(register: int, lane: int, seen: Seq<u8>)
    requires
        0 <= register <= 0xffff_ffff,
        0 <= lane,
        lane + seen.len() <= 4,
        forall|j: int|
            0 <= j < seen.len() ==> #[trigger] seen[j] == le_byte(
                register as nat,
                (lane + j) as nat,
            ),
    ensures
        seen.len() == 1 ==> le_value(seen) == byte_of(register, lane),
        seen.len() == 2 ==> le_value(seen) == byte_of(register, lane) + 0x100 * byte_of(
            register,
            lane + 1,
        ),
        seen.len() == 4 ==> le_value(seen) == register,
{
    law_bytes_are_little_endian(seen);
    law_byte_lanes(register as nat);
    if seen.len() == 4 {
        assert(seen[0] == byte_of(register, 0));
        assert(seen[1] == byte_of(register, 1));
        assert(seen[2] == byte_of(register, 2));
        assert(seen[3] == byte_of(register, 3));
        lemma_whole_register(0, register);
    }
}

/// Outside the registers of BARs a write replaces the bits that the mask of the function allows, in
/// the bytes that it covers, and changes nothing else of any function.
pub proof fn law_config_write_changes_masked_bits(
    root: &mut PciRootState,
    owner: int,
    offset: ConfigOffset,
    width: AccessWidth,
    value: u64,
    at: int,
)
    requires
        old(root).wf(),
        0 <= owner < old(root).functions@.len(),
        !(0x10 <= offset.0 < 0x28),
        call_ensures(
            PciRootState::write_config,
            (root, old(root).functions@[owner].bdf, offset, width, value),
            Ok(()),
        ),
        0 <= at < 256,
    ensures
        ({
            let before = old(root).functions@[owner];
            let after = final(root).functions@[owner];
            let mask = before.power_on.write_mask@[at];
            let size = match width {
                AccessWidth::Byte => 1int,
                AccessWidth::Word => 2,
                _ => 4,
            };
            &&& after.config@[at] & !mask == before.config@[at] & !mask
            &&& offset.0 <= at < offset.0 + size ==> after.config@[at] & mask == byte_of(
                value as int,
                at - offset.0,
            ) as u8 & mask
            &&& !(offset.0 <= at < offset.0 + size) ==> after.config@[at] == before.config@[at]
            &&& after.bars@ == before.bars@
            &&& after.bdf == before.bdf && after.intx == before.intx && after.power_on
                == before.power_on
        }),
        forall|i: int|
            #![trigger final(root).functions@[i]]
            0 <= i < old(root).functions@.len() && i != owner ==> final(root).functions@[i]
                == old(root).functions@[i],
{
    let before = old(root).functions@[owner];
    assert(valid_config_access(offset.0 as int, width));
    lemma_valid_access(offset.0 as int, width);
    law_byte_lanes(value as nat);
    law_config_write_respects_mask(
        before.config@,
        before.power_on.write_mask@,
        offset.0 as int,
        width.bytes() as int,
        value,
        at,
    );
    assert(bar_at(before.bars@, offset.0 as int) is None);
}

/// A write to the register of a BAR, whole or in part, either probes the size or asks for an address:
/// all ones make the register read the size, everything else, without its four attribute bits, moves
/// the BAR if the place is free and leaves it otherwise. Nothing else changes.
pub proof fn law_bar_write_probes_or_moves(
    root: &mut PciRootState,
    owner: int,
    bar: int,
    slot: int,
    offset: ConfigOffset,
    width: AccessWidth,
    value: u64,
)
    requires
        old(root).wf(),
        stands_in_slot(*old(root), owner, bar, slot),
        0x10 + 4 * slot <= offset.0 < 0x14 + 4 * slot,
        call_ensures(
            PciRootState::write_config,
            (root, old(root).functions@[owner].bdf, offset, width, value),
            Ok(()),
        ),
    ensures
        ({
            let before = old(root).functions@[owner].bars@[bar];
            let after = final(root).functions@[owner].bars@[bar];
            let size = match width {
                AccessWidth::Byte => 1int,
                AccessWidth::Word => 2,
                _ => 4,
            };
            let wanted = register_after(
                before.address as int,
                value as int,
                offset.0 - 0x10 - 4 * slot,
                size,
            );
            let place = wanted - wanted % 16;
            &&& after.plan == before.plan
            &&& after.probing == (wanted == 0xffff_ffff)
            &&& wanted == 0xffff_ffff ==> after.address == before.address
            &&& wanted != 0xffff_ffff && is_free_place(*old(root), owner, bar, place)
                ==> after.address == place
            &&& wanted != 0xffff_ffff && !is_free_place(*old(root), owner, bar, place)
                ==> after.address == before.address
        }),
        final(root).functions@[owner].bars@.len() == old(root).functions@[owner].bars@.len(),
        forall|b: int|
            #![trigger final(root).functions@[owner].bars@[b]]
            0 <= b < old(root).functions@[owner].bars@.len() && b != bar
                ==> final(root).functions@[owner].bars@[b] == old(root).functions@[owner].bars@[b],
        final(root).functions@[owner].config@ == old(root).functions@[owner].config@,
        final(root).functions@[owner].bdf == old(root).functions@[owner].bdf,
        final(root).functions@.len() == old(root).functions@.len(),
        forall|i: int|
            #![trigger final(root).functions@[i]]
            0 <= i < old(root).functions@.len() && i != owner ==> final(root).functions@[i]
                == old(root).functions@[i],
        final(root).topology == old(root).topology,
        final(root).wf(),
{
    let at = offset.0 as int;
    let before = old(root).functions@[owner];
    assert(valid_config_access(at, width));
    lemma_valid_access(at, width);
    lemma_slot_found(before.bars@, slot, 0, bar as nat);
    assert((at - 0x10) / 4 == slot);
    assert((at - 0x10) % 4 == at - 0x10 - 4 * slot);
    assert(before.wf());
    assert(before.bars@[bar].wf());
    let lane = at - 0x10 - 4 * slot;
    lemma_merged(before.bars@[bar].address as nat, lane, width.bytes() as int, value);
    let merged = merged_dword(
        before.bars@[bar].address as nat,
        lane,
        width.bytes() as int,
        value,
    );
    assert(before.bars@.len() == before.bars.len());
    if merged != 0xffff_ffff {
        let place = merged - merged % 16;
        assert(BarState::candidate(merged as u32) == place);
        lemma_free_place(*old(root), owner, bar, place);
    }
}

/// A place is free when the root finds it available.
proof fn lemma_free_place(root: PciRootState, owner: int, bar: int, address: int)
    ensures
        is_free_place(root, owner, bar, address) == is_available(
            root.functions@,
            root.topology.aperture_start as int,
            root.topology.aperture_end as int,
            owner,
            bar,
            address,
        ),
{
    let size = root.functions@[owner].bars@[bar].plan.size as int;
    if is_free_place(root, owner, bar, address) {
        assert(is_available(
            root.functions@,
            root.topology.aperture_start as int,
            root.topology.aperture_end as int,
            owner,
            bar,
            address,
        ));
    }
}

/// An access leads where a BAR of a function with memory decoding has all its bytes, at its distance
/// from the start of the BAR; where no BAR does it leads nowhere.
pub proof fn law_access_leads_into_the_bar(
    root: PciRootState,
    address: u64,
    width: AccessWidth,
    route: Option<PciBarRoute>,
    owner: int,
    bar: int,
)
    requires
        root.wf(),
        0 <= owner < root.functions@.len(),
        0 <= bar < root.functions@[owner].bars@.len(),
        call_ensures(PciRootState::resolve_bar, (&root, address, width), route),
    ensures
        ({
            let function = root.functions@[owner];
            let state = function.bars@[bar];
            let size = match width {
                AccessWidth::Byte => 1int,
                AccessWidth::Word => 2,
                AccessWidth::Dword => 4,
                AccessWidth::Qword => 8,
            };
            function.config@[4] & 2 != 0 && state.address <= address && address + size
                <= state.address + state.plan.size ==> route == Some(
                PciBarRoute {
                    bdf: function.bdf,
                    bar: state.plan.index,
                    offset: (address - state.address) as u64,
                    width,
                },
            )
        }),
        route matches Some(found) ==> exists|i: int, b: int|
            #![trigger root.functions@[i].bars@[b]]
            0 <= i < root.functions@.len() && 0 <= b < root.functions@[i].bars@.len()
                && root.functions@[i].config@[4] & 2 != 0 && found.bdf == root.functions@[i].bdf
                && found.bar == root.functions@[i].bars@[b].plan.index && found.width == width
                && address == root.functions@[i].bars@[b].address + found.offset && found.offset
                < root.functions@[i].bars@[b].plan.size,
{
    let function = root.functions@[owner];
    let state = function.bars@[bar];
    let size = width.bytes() as int;
    if function.config@[4] & 2 != 0 && state.address <= address && address + size <= state.address
        + state.plan.size {
        assert(bar_serves(root.functions@, owner, bar, address as int, size));
        assert(route is Some);
        let (i, b) = choose|i: int, b: int|
            #[trigger] is_route(root.functions@, i, b, address, width, route->0);
        assert(is_route(root.functions@, i, b, address, width, route->0));
        if i != owner || b != bar {
            let other = root.functions@[i].bars@[b];
            assert(!crate::pci::placement::ranges_overlap(
                state.address as int,
                state.plan.size as int,
                other.address as int,
                other.plan.size as int,
            ));
            assert(false);
        }
    }
    if route is Some {
        let (i, b) = choose|i: int, b: int|
            #[trigger] is_route(root.functions@, i, b, address, width, route->0);
        let other = root.functions@[i].bars@[b];
        assert(is_route(root.functions@, i, b, address, width, route->0));
        assert(root.functions@[i].wf());
        assert(other.wf());
    }
}

/// A whole-register write of an address that is a multiple of 16 and free makes the register read the
/// address, and makes the BAR serve exactly the bytes from there on that its size covers.
pub proof fn law_relocated_bar_serves_its_new_range(
    root: &mut PciRootState,
    after: PciRootState,
    owner: int,
    bar: int,
    slot: int,
    offset: ConfigOffset,
    value: u64,
    read: u64,
    address: u64,
    route: Option<PciBarRoute>,
)
    requires
        old(root).wf(),
        stands_in_slot(*old(root), owner, bar, slot),
        offset.0 == 0x10 + 4 * slot,
        value < 0x1_0000_0000,
        value % 16 == 0,
        is_free_place(*old(root), owner, bar, value as int),
        call_ensures(
            PciRootState::write_config,
            (root, old(root).functions@[owner].bdf, offset, AccessWidth::Dword, value),
            Ok(()),
        ),
        after == *final(root),
        call_ensures(
            PciRootState::read_config,
            (&after, after.functions@[owner].bdf, offset, AccessWidth::Dword),
            Ok(read),
        ),
        call_ensures(PciRootState::resolve_bar, (&after, address, AccessWidth::Byte), route),
        old(root).functions@[owner].config@[4] & 2 != 0,
    ensures
        read == value,
        value <= address < value + old(root).functions@[owner].bars@[bar].plan.size ==> route
            == Some(
            PciBarRoute {
                bdf: old(root).functions@[owner].bdf,
                bar: old(root).functions@[owner].bars@[bar].plan.index,
                offset: (address - value) as u64,
                width: AccessWidth::Byte,
            },
        ),
        !(value <= address < value + old(root).functions@[owner].bars@[bar].plan.size) ==> !(
        route matches Some(found) && found.bdf == old(root).functions@[owner].bdf && found.offset
            + after.functions@[owner].bars@[bar].address == address && found.offset
            < after.functions@[owner].bars@[bar].plan.size),
{
    lemma_whole_register(old(root).functions@[owner].bars@[bar].address as int, value as int);
    law_bar_write_probes_or_moves(root, owner, bar, slot, offset, AccessWidth::Dword, value);
    assert forall|b: int|
        #![trigger after.functions@[owner].bars@[b]]
        0 <= b < bar implies after.functions@[owner].bars@[b].plan.index.0 != slot by {
        assert(after.functions@[owner].bars@[b] == old(root).functions@[owner].bars@[b]);
    }
    law_bar_register_reads(after, owner, bar, slot, offset, AccessWidth::Dword, read);
    law_access_leads_into_the_bar(after, address, AccessWidth::Byte, route, owner, bar);
}

/// The address that a doubleword asks for is the doubleword without its four attribute bits.
pub proof fn law_candidate_drops_attribute_bits(dword: u32, address: u64)
    requires
        call_ensures(BarState::candidate_address, (dword,), address),
    ensures
        address <= dword < address + 16,
        address % 16 == 0,
{
}

/// The three command bits that a function implements: decoding, bus mastering, and the interrupt
/// disable.
pub proof fn law_command_bits(state: FunctionState, command: PciCommandState, decodes: bool)
    requires
        call_ensures(FunctionState::command_state, (&state,), command),
        call_ensures(FunctionState::memory_decode_enabled, (&state,), decodes),
    ensures
        decodes <==> state.config@[4] & 2 != 0,
        command.memory_space_enable <==> state.config@[4] & 2 != 0,
        command.bus_master_enable <==> state.config@[4] & 4 != 0,
        command.interrupt_disable <==> state.config@[5] & 4 != 0,
{
}

/// A reset gives back the power-on image and addresses, ends every probe, and keeps the functions.
pub proof fn law_reset_gives_back_power_on(root: &mut PciRootState, owner: int, bar: int)
    requires
        old(root).wf(),
        call_ensures(PciRootState::reset, (root,), ()),
        0 <= owner < old(root).functions@.len(),
        0 <= bar < old(root).functions@[owner].bars@.len(),
    ensures
        final(root).functions@.len() == old(root).functions@.len(),
        final(root).functions@[owner].bdf == old(root).functions@[owner].bdf,
        final(root).functions@[owner].config@ == old(root).functions@[owner].power_on.bytes@,
        final(root).functions@[owner].bars@.len() == old(root).functions@[owner].bars@.len(),
        final(root).functions@[owner].bars@[bar].address
            == old(root).functions@[owner].bars@[bar].plan.address,
        !final(root).functions@[owner].bars@[bar].probing,
        final(root).functions@[owner].bars@[bar].plan == old(root).functions@[owner].bars@[bar].plan,
        final(root).bindings == old(root).bindings,
{
    let before = old(root).functions@[owner];
    let after = final(root).functions@[owner];
    let resolved = old(root).topology.functions@[owner];
    assert(crate::pci::root::is_state_of(before, resolved));
    assert(crate::pci::root::is_state_of(after, resolved));
    assert(after.at_power_on());
    assert(after.bars@[bar].plan == resolved.bars@[bar]);
    assert(before.bars@[bar].plan == resolved.bars@[bar]);
}

/// A new root has a function in its power-on state for each resolved function, and no binding.
pub proof fn law_root_starts_at_power_on(
    topology: crate::pci::topology::ResolvedPciTopology,
    root: PciRootState,
    owner: int,
    bar: int,
)
    requires
        topology.wf(),
        call_ensures(PciRootState::new, (topology,), root),
        0 <= owner < topology.functions@.len(),
        0 <= bar < topology.functions@[owner].bars@.len(),
    ensures
        root.functions@.len() == topology.functions@.len(),
        root.functions@[owner].bdf == topology.functions@[owner].bdf,
        root.functions@[owner].intx == topology.functions@[owner].intx,
        root.functions@[owner].config@ == topology.functions@[owner].power_on.bytes@,
        root.functions@[owner].power_on.write_mask@
            == topology.functions@[owner].power_on.write_mask@,
        root.functions@[owner].bars@.len() == topology.functions@[owner].bars@.len(),
        root.functions@[owner].bars@[bar].plan == topology.functions@[owner].bars@[bar],
        root.functions@[owner].bars@[bar].address == topology.functions@[owner].bars@[bar].address,
        !root.functions@[owner].bars@[bar].probing,
        root.bindings@[owner] is None,
{
    let state = root.functions@[owner];
    assert(crate::pci::root::is_state_of(state, topology.functions@[owner]));
    assert(state.at_power_on());
    assert(state.bars@[bar].plan == topology.functions@[owner].bars@[bar]);
}

} // verus!
