//! What instruction bytes, registers and firmware tables mean.

#[allow(unused_imports)]
use crate::access::{AccessWidth, DeviceAccess, DeviceResult};
#[allow(unused_imports)]
use crate::bytes::{law_byte_lanes, law_bytes_are_little_endian, le_byte, lemma_lane_scale_values};
#[allow(unused_imports)]
use crate::x86::acpi::{AcpiReport, AcpiWalk};
#[allow(unused_imports)]
use crate::x86::addr::X86GuestPhysAddr;
#[allow(unused_imports)]
use crate::x86::exit::{count_up, is_power_of_two, power_of_two, x86_access_width_to_bus};
#[allow(unused_imports)]
use crate::x86::pci_config::{ConfigPortRead, ConfigPortWrite};
#[allow(unused_imports)]
use crate::x86::pci_diagnostics::{sample, ConfigPortCounters, ConfigPortReport, LatchFields};
#[allow(unused_imports)]
use crate::x86::port_laws::width_of;
#[allow(unused_imports)]
use crate::x86::types::{
    mov_immediate_size, mov_mmio_write_exit, x86_byte_register, x86_byte_register_merge,
    x86_byte_register_value, x86_modrm_displacement_size, x86_simple_prefix_update, X86AccessFlags,
    X86AccessWidth, X86ByteRegister, X86VmExit,
};
use vstd::prelude::*;

verus! {

/// The bits that an access of the guest covers.
pub open spec fn cut(value: u64, width: X86AccessWidth) -> int {
    match width {
        X86AccessWidth::Byte => value as int % 0x100,
        X86AccessWidth::Word => value as int % 0x1_0000,
        X86AccessWidth::Dword => value as int % 0x1_0000_0000,
        X86AccessWidth::Qword => value as int,
    }
}

/// The width of an access in bytes, in bits, and on the bus, and what it leaves of a value.
pub proof fn law_access_width(
    width: X86AccessWidth,
    value: u64,
    size: usize,
    bits: core::ops::Range<usize>,
    masked: u64,
    bus: AccessWidth,
    immediate: usize,
)
    requires
        call_ensures(X86AccessWidth::size, (width,), size),
        call_ensures(X86AccessWidth::bits_range, (width,), bits),
        call_ensures(X86AccessWidth::mask_value, (width, value), masked),
        call_ensures(x86_access_width_to_bus, (width,), bus),
        call_ensures(mov_immediate_size, (width,), immediate),
    ensures
        size == width_of(width),
        bits.start == 0 && bits.end == 8 * width_of(width),
        masked == cut(value, width),
        crate::x86::port_laws::length(bus) == width_of(width),
        width is Qword ==> immediate == 4,
        !(width is Qword) ==> immediate == width_of(width),
{
    lemma_lane_scale_values();
    if width is Qword {
        vstd::arithmetic::div_mod::lemma_small_mod(value as nat, crate::bytes::lane_scale(8));
    }
}

/// The width that a move between a register and memory has: a byte for the byte forms; for the others
/// a quadword with the wide prefix, else a word with the operand-size prefix, else a doubleword.
pub proof fn law_move_width(
    opcode: u8,
    operand_size_override: bool,
    rex_w: bool,
    width: Option<X86AccessWidth>,
)
    requires
        call_ensures(
            X86AccessWidth::for_mov_opcode,
            (opcode, operand_size_override, rex_w),
            width,
        ),
    ensures
        ({
            let byte = opcode == 0x88 || opcode == 0x8a || opcode == 0xc6;
            let wide = opcode == 0x89 || opcode == 0x8b || opcode == 0xc7;
            &&& byte ==> width == Some(X86AccessWidth::Byte)
            &&& wide && rex_w ==> width == Some(X86AccessWidth::Qword)
            &&& wide && !rex_w && operand_size_override ==> width == Some(X86AccessWidth::Word)
            &&& wide && !rex_w && !operand_size_override ==> width == Some(X86AccessWidth::Dword)
            &&& !byte && !wide ==> width is None
        }),
{
}

/// A move from a register to device memory writes the register, cut to the width of the move.
pub proof fn law_move_writes_the_register(
    addr: X86GuestPhysAddr,
    opcode: u8,
    operand_size_override: bool,
    rex_w: bool,
    data: u64,
    exit: Option<X86VmExit>,
)
    requires
        call_ensures(
            mov_mmio_write_exit,
            (addr, opcode, operand_size_override, rex_w, data),
            exit,
        ),
    ensures
        opcode != 0x88 && opcode != 0x89 ==> exit is None,
        opcode == 0x88 ==> exit == Some(
            X86VmExit::MmioWrite {
                addr,
                width: X86AccessWidth::Byte,
                data: cut(data, X86AccessWidth::Byte) as u64,
            },
        ),
        opcode == 0x89 ==> (exit matches Some(X86VmExit::MmioWrite { addr: at, width, data: sent })
            && at == addr && sent == cut(data, width) && (width is Qword <==> rex_w) && (
        width is Word <==> !rex_w && operand_size_override) && !(width is Byte)),
{
    lemma_lane_scale_values();
    vstd::arithmetic::div_mod::lemma_small_mod(data as nat, crate::bytes::lane_scale(8));
}

/// Which byte a register number names: without a prefix byte the numbers from 4 on are the second
/// bytes of the first four registers; with one, every number is a first byte, and its third bit comes
/// on top of the number.
pub proof fn law_byte_register_names(modrm_reg: u8, rex: u8, register: Option<X86ByteRegister>)
    requires
        call_ensures(x86_byte_register, (modrm_reg, rex), register),
    ensures
        modrm_reg > 7 ==> register is None,
        modrm_reg < 4 && rex == 0 ==> register == Some(
            X86ByteRegister { gpr: modrm_reg, high: false },
        ),
        4 <= modrm_reg <= 7 && rex == 0 ==> register == Some(
            X86ByteRegister { gpr: (modrm_reg - 4) as u8, high: true },
        ),
        modrm_reg <= 7 && rex != 0 && rex & 4 == 0 ==> register == Some(
            X86ByteRegister { gpr: modrm_reg, high: false },
        ),
        modrm_reg <= 7 && rex & 4 != 0 ==> register == Some(
            X86ByteRegister { gpr: (modrm_reg + 8) as u8, high: false },
        ),
{
    assert(rex & (1u8 << 2u8) == rex & 4 && (rex == 0 ==> rex & 4 == 0)) by (bit_vector);
}

/// A byte register is the first or the second byte of its register; writing it keeps the other bytes,
/// and reading it then gives what was written.
pub proof fn law_byte_register_is_a_lane(
    gpr_value: u64,
    register: X86ByteRegister,
    value: u8,
    merged: u64,
    read: u8,
    before: u8,
)
    requires
        call_ensures(x86_byte_register_merge, (gpr_value, register, value), merged),
        call_ensures(x86_byte_register_value, (merged, register), read),
        call_ensures(x86_byte_register_value, (gpr_value, register), before),
    ensures
        read == value,
        register.high ==> before == gpr_value as int / 0x100 % 0x100,
        !register.high ==> before == gpr_value as int % 0x100,
        register.high ==> merged as int % 0x100 == gpr_value as int % 0x100 && merged as int
            / 0x1_0000 % 0x100 == gpr_value as int / 0x1_0000 % 0x100,
        !register.high ==> merged as int / 0x100 % 0x100 == gpr_value as int / 0x100 % 0x100,
{
    law_byte_lanes(gpr_value as nat);
    law_byte_lanes(merged as nat);
    assert(le_byte(merged as nat, 0) == merged as int % 0x100);
    assert(le_byte(merged as nat, 1) == merged as int / 0x100 % 0x100);
    assert(le_byte(merged as nat, 2) == merged as int / 0x1_0000 % 0x100);
}

/// Prefixes: the operand-size prefix is remembered and drops a prefix byte before it; the bytes from
/// 0x40 to 0x4f are prefix bytes and replace an earlier one; other bytes are none and change nothing.
pub proof fn law_prefixes(byte: u8, rex: &mut u8, operand_size: &mut bool, prefix: bool)
    requires
        call_ensures(x86_simple_prefix_update, (byte, rex, operand_size), prefix),
    ensures
        byte == 0x66 ==> prefix && *final(operand_size) && *final(rex) == 0,
        0x40 <= byte <= 0x4f ==> prefix && *final(rex) == byte && *final(operand_size) == *old(
            operand_size),
        byte != 0x66 && !(0x40 <= byte <= 0x4f) ==> !prefix && *final(rex) == *old(rex)
            && *final(operand_size) == *old(operand_size),
{
}

/// How many displacement bytes follow: one or four as the mode says; with mode zero four where the
/// base is the fifth register and the prefix does not extend it, else none; a register operand and a
/// missing scale byte have no answer.
pub proof fn law_displacement_size(modrm: u8, sib: Option<u8>, rex: u8, size: Option<usize>)
    requires
        call_ensures(x86_modrm_displacement_size, (modrm, sib, rex), size),
    ensures
        0x40 <= modrm < 0x80 ==> size == Some(1usize),
        0x80 <= modrm < 0xc0 ==> size == Some(4usize),
        modrm >= 0xc0 ==> size is None,
        modrm < 0x40 && modrm % 8 == 4 && sib is None ==> size is None,
        modrm < 0x40 && modrm % 8 == 4 && sib is Some ==> size == Some(
            if sib->0 % 8 == 5 && rex % 2 == 0 {
                4usize
            } else {
                0
            },
        ),
        modrm < 0x40 && modrm % 8 == 5 ==> size == Some(
            if rex % 2 == 0 {
                4usize
            } else {
                0
            },
        ),
        modrm < 0x40 && modrm % 8 != 4 && modrm % 8 != 5 ==> size == Some(0usize),
{
}

/// Access flags as bits: read, write and execute, lowest first.
pub proof fn law_access_flag_bits(flags: X86AccessFlags, bits: usize)
    requires
        call_ensures(X86AccessFlags::bits, (flags,), bits),
    ensures
        bits % 2 == 1 <==> flags.read,
        bits / 2 % 2 == 1 <==> flags.write,
        bits / 4 % 2 == 1 <==> flags.execute,
        bits < 8,
{
}

/// The little-endian doubleword at `offset`.
pub open spec fn dword_at(bytes: Seq<u8>, offset: int) -> int {
    bytes[offset] + 0x100 * bytes[offset + 1] + 0x1_0000 * bytes[offset + 2] + 0x100_0000
        * bytes[offset + 3]
}

/// The little-endian quadword at `offset`.
pub open spec fn qword_at(bytes: Seq<u8>, offset: int) -> int {
    dword_at(bytes, offset) + 0x1_0000_0000 * dword_at(bytes, offset + 4)
}

/// A field of a table is little-endian.
proof fn lemma_field(bytes: Seq<u8>, offset: int)
    requires
        0 <= offset,
    ensures
        offset + 4 <= bytes.len() ==> crate::x86::acpi::field(bytes, offset, 4) == dword_at(
            bytes,
            offset,
        ),
        offset + 8 <= bytes.len() ==> crate::x86::acpi::field(bytes, offset, 8) == qword_at(
            bytes,
            offset,
        ),
{
    if offset + 4 <= bytes.len() {
        law_bytes_are_little_endian(bytes.subrange(offset, offset + 4));
    }
    if offset + 8 <= bytes.len() {
        law_bytes_are_little_endian(bytes.subrange(offset, offset + 8));
    }
}

/// The walk reads the 36 bytes of the root pointer, takes the address of the root table from byte 24,
/// reads its 36-byte header, takes its length from byte 4, and reads the whole table if the length is
/// at most 4096 and leaves room for whole entries; an unreadable part ends the walk.
pub proof fn law_walk_finds_the_root_table(
    walk: &mut AcpiWalk,
    needed: Option<(u64, usize)>,
    answer: Option<Vec<u8>>,
    report: AcpiReport,
)
    requires
        old(walk).wf(),
        old(walk).stage is Rsdp || old(walk).stage is XsdtHeader,
        call_ensures(AcpiWalk::request, (&*old(walk),), needed),
        answer matches Some(bytes) ==> bytes@.len() == 36,
        call_ensures(AcpiWalk::advance, (walk, answer), report),
    ensures
        old(walk).stage is Rsdp ==> needed == Some((old(walk).rsdp_gpa, 36usize)),
        old(walk).stage is XsdtHeader ==> needed == Some((old(walk).xsdt_gpa, 36usize)),
        answer is None ==> final(walk).stage is Done,
        old(walk).stage is Rsdp && answer is Some ==> final(walk).stage is XsdtHeader && final(
            walk).xsdt_gpa == qword_at(answer->0@, 24),
        old(walk).stage is XsdtHeader && answer is Some ==> {
            let length = dword_at(answer->0@, 4);
            let usable = 36 <= length <= 4096 && (length - 36) % 8 == 0;
            &&& usable ==> final(walk).stage is XsdtBody && final(walk).xsdt_length == length
                && final(walk).xsdt_gpa == old(walk).xsdt_gpa
            &&& !usable ==> final(walk).stage is Done
        },
{
    if answer is Some {
        lemma_field(answer->0@, 24);
        lemma_field(answer->0@, 4);
    }
}

/// The root table lists the addresses of the other tables, eight bytes each, from byte 36 on; the walk
/// starts with the first.
pub proof fn law_walk_lists_the_tables(
    walk: &mut AcpiWalk,
    needed: Option<(u64, usize)>,
    bytes: Vec<u8>,
    report: AcpiReport,
    entry: int,
)
    requires
        old(walk).wf(),
        old(walk).stage is XsdtBody,
        call_ensures(AcpiWalk::request, (&*old(walk),), needed),
        bytes@.len() == old(walk).xsdt_length,
        call_ensures(AcpiWalk::advance, (walk, Some(bytes)), report),
    ensures
        needed == Some((old(walk).xsdt_gpa, old(walk).xsdt_length as usize)),
        8 * final(walk).entries@.len() == bytes@.len() - 36,
        0 <= entry < final(walk).entries@.len() ==> final(walk).entries@[entry] == qword_at(
            bytes@,
            36 + 8 * entry,
        ),
        final(walk).index == 0,
        final(walk).stage is TableHeader <==> bytes@.len() > 36,
        report == (AcpiReport::Snapshot {
            xsdt_gpa: old(walk).xsdt_gpa,
            length: old(walk).xsdt_length,
        }),
{
    if 0 <= entry < final(walk).entries@.len() {
        lemma_field(bytes@, 36 + 8 * entry);
    }
}

/// Each table is looked at in turn: its header tells its signature and length, and the fixed
/// description table, if it is long enough, its timer; an unreadable table is passed over.
pub proof fn law_walk_visits_every_table(
    walk: &mut AcpiWalk,
    needed: Option<(u64, usize)>,
    answer: Option<Vec<u8>>,
    report: AcpiReport,
)
    requires
        old(walk).wf(),
        old(walk).stage is TableHeader,
        call_ensures(AcpiWalk::request, (&*old(walk),), needed),
        answer matches Some(bytes) ==> bytes@.len() == 36,
        call_ensures(AcpiWalk::advance, (walk, answer), report),
    ensures
        needed == Some((old(walk).entries@[old(walk).index as int], 36usize)),
        final(walk).entries@ == old(walk).entries@,
        ({
            let bytes = answer->0@;
            let length = dword_at(bytes, 4);
            let timed = answer is Some && bytes[0] == 0x46 && bytes[1] == 0x41 && bytes[2] == 0x43
                && bytes[3] == 0x50 && 220 <= length <= 4096;
            &&& answer is Some ==> (report matches AcpiReport::Table { signature, gpa, length: told }
                && gpa == old(walk).entries@[old(walk).index as int] && told == length
                && signature@[0] == bytes[0] && signature@[1] == bytes[1] && signature@[2]
                == bytes[2] && signature@[3] == bytes[3])
            &&& timed ==> final(walk).stage is Fadt && final(walk).index == old(walk).index
                && final(walk).table_length == length
            &&& !timed ==> final(walk).index == old(walk).index + 1 && (final(
                walk).stage is TableHeader <==> old(walk).index + 1 < old(walk).entries@.len())
        }),
{
    if answer is Some {
        let bytes = answer->0@;
        lemma_field(bytes, 4);
        let name = bytes.subrange(0, 4);
        let facp = seq![0x46u8, 0x41u8, 0x43u8, 0x50u8];
        assert(name[0] == bytes[0] && name[1] == bytes[1] && name[2] == bytes[2] && name[3]
            == bytes[3]);
        if bytes[0] == 0x46 && bytes[1] == 0x41 && bytes[2] == 0x43 && bytes[3] == 0x50 {
            assert(name =~= facp);
        }
    }
}

/// The timer fields of the fixed description table: the port at byte 76, the length at byte 91, and
/// the extended address at byte 212; then the walk goes on.
pub proof fn law_walk_reads_the_timer(
    walk: &mut AcpiWalk,
    needed: Option<(u64, usize)>,
    bytes: Vec<u8>,
    report: AcpiReport,
)
    requires
        old(walk).wf(),
        old(walk).stage is Fadt,
        call_ensures(AcpiWalk::request, (&*old(walk),), needed),
        bytes@.len() == old(walk).table_length,
        call_ensures(AcpiWalk::advance, (walk, Some(bytes)), report),
    ensures
        needed == Some(
            (old(walk).entries@[old(walk).index as int], old(walk).table_length as usize),
        ),
        report matches AcpiReport::FadtTimer { gpa, pm_tmr_blk, x_pm_tmr_blk, pm_tmr_len } && gpa
            == old(walk).entries@[old(walk).index as int] && pm_tmr_blk == dword_at(bytes@, 76)
            && x_pm_tmr_blk == qword_at(bytes@, 212) && pm_tmr_len == bytes@[91],
        final(walk).index == old(walk).index + 1,
{
    lemma_field(bytes@, 76);
    lemma_field(bytes@, 212);
}

/// The fields of the configuration address, from the highest bit down.
pub proof fn law_latch_fields(address: u32, fields: LatchFields)
    requires
        call_ensures(LatchFields::of, (address,), fields),
    ensures
        fields.enabled <==> address / 0x8000_0000 == 1,
        fields.bus == address / 0x1_0000 % 0x100,
        fields.device == address / 0x800 % 0x20,
        fields.function == address / 0x100 % 8,
        fields.register == address % 0x100 - address % 4,
{
    assert(address % 256 / 4 * 4 == address % 256 - address % 256 % 4);
    assert(address % 256 % 4 == address % 4);
}

/// A count goes up by one, and begins anew behind its end.
pub proof fn law_count_goes_up(count: u64, next: u64)
    requires
        call_ensures(count_up, (count,), next),
    ensures
        count < u64::MAX ==> next == count + 1,
        count == u64::MAX ==> next == 0,
{
}

/// Twice a power of two is one, half of one is one, and no other number is: which numbers past the
/// limit are reported.
pub proof fn law_powers_of_two(value: u64, result: bool, double: bool)
    requires
        call_ensures(power_of_two, (value,), result),
        0 < value < 0x8000_0000_0000_0000,
        call_ensures(power_of_two, ((2 * value) as u64,), double),
    ensures
        double == result,
        value == 1 ==> result,
        value % 2 == 1 && value > 1 ==> !result,
{
    assert((2 * value) / 2 == value);
    assert((2 * value) % 2 == 0);
    assert(is_power_of_two((2 * value) as nat) == is_power_of_two(value as nat));
}

/// Every access is counted; the first 128 are reported, with their number.
pub proof fn law_first_accesses_are_reported(count: &mut u64, report: Option<u64>)
    requires
        call_ensures(sample, (count,), report),
        *old(count) < u64::MAX,
    ensures
        *final(count) == *old(count) + 1,
        *old(count) < 128 ==> report == Some(*final(count)),
        report matches Some(number) ==> number == *final(count),
{
}

/// Reads of the data ports are counted as such; every access to device 1, function 0 is reported.
pub proof fn law_data_reads_are_counted(
    counters: &mut ConfigPortCounters,
    access: DeviceAccess,
    decoded: DeviceResult<ConfigPortRead>,
    report: ConfigPortReport,
)
    requires
        call_ensures(ConfigPortCounters::note_read, (counters, &access, &decoded), report),
        old(counters).data_reads < u64::MAX,
    ensures
        ({
            let data = access.bus is Port && !(access.width is Qword) && 0xcfc <= access.address
                < 0xd00;
            &&& data ==> final(counters).data_reads == old(counters).data_reads + 1
            &&& !data ==> final(counters).data_reads == old(counters).data_reads && report.sample
                is None && report.endpoint is None
            &&& data && decoded is Ok && old(counters).data_reads < 128 ==> report.sample == Some(
                (old(counters).data_reads + 1) as u64,
            )
            &&& data && decoded is Ok ==> (decoded matches Ok(ConfigPortRead::Window(window))
                && window.bdf.device == 1 && window.bdf.function == 0 <==> report.endpoint is Some)
        }),
        final(counters).address_writes == old(counters).address_writes,
        final(counters).data_writes == old(counters).data_writes,
{
}

/// Writes of the address port that were taken, and writes of the data ports, are counted each for
/// itself.
pub proof fn law_port_writes_are_counted(
    counters: &mut ConfigPortCounters,
    access: DeviceAccess,
    decoded: DeviceResult<ConfigPortWrite>,
    report: ConfigPortReport,
)
    requires
        call_ensures(ConfigPortCounters::note_write, (counters, &access, &decoded), report),
        old(counters).data_writes < u64::MAX,
        old(counters).address_writes < u64::MAX,
    ensures
        ({
            let port = access.bus is Port && !(access.width is Qword);
            let latch = port && 0xcf8 <= access.address < 0xcfc && decoded is Ok;
            let data = port && 0xcfc <= access.address < 0xd00;
            &&& final(counters).address_writes == old(counters).address_writes + (if latch {
                1int
            } else {
                0
            })
            &&& final(counters).data_writes == old(counters).data_writes + (if data {
                1int
            } else {
                0
            })
            &&& final(counters).data_reads == old(counters).data_reads
            &&& latch && old(counters).address_writes < 128 ==> report.sample == Some(
                final(counters).address_writes,
            )
            &&& data && decoded is Ok && old(counters).data_writes < 128 ==> report.sample == Some(
                final(counters).data_writes,
            )
            &&& decoded is Err ==> report.sample is None && report.endpoint is None
        }),
{
}

} // verus!
