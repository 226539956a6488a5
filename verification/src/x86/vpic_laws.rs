//! What guests see of the legacy interrupt controllers.

#[allow(unused_imports)]
use crate::x86::types::{byte_bit, X86AccessWidth, X86Port, X86VlapicResult};
#[allow(unused_imports)]
use crate::x86::vpic::{
    first_line, lemma_first_line, lemma_lines, lemma_unmasked, EmulatedPic, PicChip,
    PicInterruptClaim, PicState,
};
use vstd::prelude::*;

verus! {

/// A specific end of interrupt names its line in the low three bits: that line is no longer in
/// service, every other line stays as it was, and so does the rest of the controller.
pub proof fn law_specific_end_clears_its_line(call: &mut PicChip, value: u8, line: u8, other: u8)
    requires
        call_ensures(PicChip::command, (call, value), ()),
        value & 0x18 == 0,
        value & 0x60 == 0x60,
        line == value & 0x07,
        other < 8,
        other != line,
    ensures
        final(call).in_service & (1u8 << line) == 0,
        final(call).in_service & (1u8 << other) == old(call).in_service & (1u8 << other),
        *final(call) == (PicChip { in_service: final(call).in_service, ..*old(call) }),
{
    lemma_command_bits(value);
    lemma_one_bit(old(call).in_service, line, other);
}

/// An end of interrupt that names no line ends the one with the highest priority, and nothing else.
pub proof fn law_end_of_interrupt_ends_the_first_line(
    call: &mut PicChip,
    value: u8,
    line: u8,
    other: u8,
)
    requires
        call_ensures(PicChip::command, (call, value), ()),
        value & 0x18 == 0,
        value & 0x60 == 0x20,
        line < 8,
        other < 8,
        other != line,
        old(call).in_service & (1u8 << line) != 0,
        forall|lower: u8| lower < line ==> old(call).in_service & #[trigger] (1u8 << lower) == 0,
    ensures
        final(call).in_service & (1u8 << line) == 0,
        final(call).in_service & (1u8 << other) == old(call).in_service & (1u8 << other),
        *final(call) == (PicChip { in_service: final(call).in_service, ..*old(call) }),
{
    let bits = old(call).in_service;
    lemma_command_bits(value);
    lemma_one_bit(bits, line, other);
    lemma_first_line(bits, 0);
    assert(byte_bit(bits, line));
    let first = first_line(bits, 0)->0;
    if first < line {
        assert(bits & (1u8 << first) == 0);
    }
}

/// The other command words: bit 4 starts an initialization, which forgets requests and services;
/// bits 4 and 3 `01` choose what the command port reads; a word without bits 5, 4 and 3 does nothing.
pub proof fn law_command_words(call: &mut PicChip, value: u8)
    requires
        call_ensures(PicChip::command, (call, value), ()),
    ensures
        final(call).mask == old(call).mask,
        final(call).vector_base == old(call).vector_base,
        value & 0x10 != 0 ==> {
            &&& final(call).request == 0
            &&& final(call).in_service == 0
            &&& final(call).init_step == 1
            &&& final(call).needs_icw4 == (value & 1 == 1)
            &&& final(call).single == (value & 2 == 2)
            &&& !final(call).auto_eoi
            &&& !final(call).read_isr
        },
        value & 0x18 == 0x08 ==> *final(call) == (PicChip {
            read_isr: value & 2 == 2,
            ..*old(call)
        }),
        value & 0x38 == 0 ==> *final(call) == *old(call),
        value & 0x10 == 0 ==> final(call).request == old(call).request && final(call).init_step
            == old(call).init_step && final(call).auto_eoi == old(call).auto_eoi,
{
    lemma_command_bits(value);
}

/// The data port takes the interrupt mask while no initialization word is due, and else the word:
/// first the vector base, whose low three bits do not count; then the wiring, unless there is no
/// cascade; then, if it was announced, the mode.
pub proof fn law_data_words(call: &mut PicChip, value: u8)
    requires
        call_ensures(PicChip::data, (call, value), ()),
    ensures
        old(call).init_step == 0 ==> *final(call) == (PicChip { mask: value, ..*old(call) }),
        old(call).init_step == 1 ==> {
            &&& final(call).vector_base % 8 == 0
            &&& final(call).vector_base <= value < final(call).vector_base + 8
            &&& final(call).mask == old(call).mask
            &&& !old(call).single ==> final(call).init_step == 2
            &&& old(call).single && old(call).needs_icw4 ==> final(call).init_step == 3
            &&& old(call).single && !old(call).needs_icw4 ==> final(call).init_step == 0
            &&& final(call).request == old(call).request
            &&& final(call).in_service == old(call).in_service
        },
        old(call).init_step == 2 ==> *final(call) == (PicChip {
            init_step: if old(call).needs_icw4 {
                3
            } else {
                0
            },
            ..*old(call)
        }),
        old(call).init_step == 3 ==> *final(call) == (PicChip {
            auto_eoi: value & 2 == 2,
            init_step: 0,
            ..*old(call)
        }),
{
    lemma_command_bits(value);
}

/// A line is delivered next just when it is requested and not masked, no such line precedes it, and
/// neither it nor a line before it is in service.
pub proof fn law_pending_line_is_the_first_deliverable(chip: PicChip, found: Option<u8>, line: u8)
    requires
        call_ensures(PicChip::pending_irq, (&chip,), found),
        line < 8,
    ensures
        found == Some(line) <==> {
            &&& chip.request & (1u8 << line) != 0
            &&& chip.mask & (1u8 << line) == 0
            &&& forall|lower: u8|
                lower < line ==> chip.request & (1u8 << lower) == 0 || chip.mask & #[trigger] (1u8
                    << lower) != 0
            &&& forall|lower: u8|
                lower <= line ==> chip.in_service & #[trigger] (1u8 << lower) == 0
        },
        found matches Some(delivered) ==> delivered < 8,
{
    let open = chip.request & !chip.mask;
    lemma_first_line(open, 0);
    lemma_first_line(chip.in_service, 0);
    assert forall|other: u8| other < 8 implies (byte_bit(open, other) <==> chip.request & (1u8
        << other) != 0 && chip.mask & #[trigger] (1u8 << other) == 0) by {
        lemma_unmasked(chip.request, chip.mask, other);
    }
    assert(byte_bit(open, line) <==> chip.request & (1u8 << line) != 0 && chip.mask & (1u8 << line)
        == 0);
    if found == Some(line) {
        assert forall|lower: u8| lower < line implies chip.request & (1u8 << lower) == 0
            || chip.mask & #[trigger] (1u8 << lower) != 0 by {
            assert(!byte_bit(open, lower));
        }
        assert forall|lower: u8| lower <= line implies chip.in_service & #[trigger] (1u8 << lower)
            == 0 by {
            assert(!byte_bit(chip.in_service, lower));
        }
    }
    if {
        &&& chip.request & (1u8 << line) != 0
        &&& chip.mask & (1u8 << line) == 0
        &&& forall|lower: u8|
            lower < line ==> chip.request & (1u8 << lower) == 0 || chip.mask & #[trigger] (1u8
                << lower) != 0
        &&& forall|lower: u8| lower <= line ==> chip.in_service & #[trigger] (1u8 << lower) == 0
    } {
        assert(byte_bit(open, line));
        let first = first_line(open, 0)->0;
        if first < line {
            assert(chip.request & (1u8 << first) == 0 || chip.mask & (1u8 << first) != 0);
        }
        assert(first == line);
        if first_line(chip.in_service, 0) is Some {
            let serviced = first_line(chip.in_service, 0)->0;
            if serviced <= line {
                assert(chip.in_service & (1u8 << serviced) == 0);
            }
        }
    }
}

/// An acknowledge takes the request, puts the line in service unless interrupts end by themselves,
/// and gives the vector that the guest programmed for the line.
pub proof fn law_acknowledge_moves_the_request(
    call: &mut PicChip,
    line: u8,
    vector: u8,
    other: u8,
)
    requires
        line < 8,
        other < 8,
        call_ensures(PicChip::acknowledge, (call, line), vector),
    ensures
        vector == (old(call).vector_base + line) % 256,
        final(call).request & (1u8 << line) == 0,
        other != line ==> final(call).request & (1u8 << other) == old(call).request & (1u8 << other),
        old(call).auto_eoi ==> final(call).in_service == old(call).in_service,
        !old(call).auto_eoi ==> final(call).in_service & (1u8 << line) != 0,
        other != line ==> final(call).in_service & (1u8 << other) == old(call).in_service & (1u8
            << other),
        *final(call) == (PicChip {
            request: final(call).request,
            in_service: final(call).in_service,
            ..*old(call)
        }),
{
    lemma_one_bit(old(call).request, line, other);
    lemma_one_bit(old(call).in_service, line, other);
}

/// Setting or clearing one bit of a byte leaves the others.
proof fn lemma_one_bit(bits: u8, line: u8, other: u8)
    by (bit_vector)
    requires
        line < 8,
        other < 8,
    ensures
        0u8 & (1u8 << other) == 0,
        (bits & !(1u8 << line)) & (1u8 << line) == 0,
        (bits | (1u8 << line)) & (1u8 << line) != 0,
        other != line ==> (bits & !(1u8 << line)) & (1u8 << other) == bits & (1u8 << other),
        other != line ==> (bits | (1u8 << line)) & (1u8 << other) == bits & (1u8 << other),
{
}

/// The bits of a command or data word.
proof fn lemma_command_bits(value: u8)
    by (bit_vector)
    ensures
        value & 0x18 == 0 ==> value & 0x10 == 0 && value & 0x18 != 0x08,
        value & 0x18 == 0x08 ==> value & 0x10 == 0,
        value & 0x60 == 0x60 ==> value & 0x20 != 0 && value & 0x40 != 0,
        value & 0x60 == 0x20 ==> value & 0x20 != 0 && value & 0x40 == 0,
        value & 0x38 == 0 ==> value & 0x18 == 0 && value & 0x20 == 0,
        value & 0x07 < 8,
        value & 1 != 0 <==> value & 1 == 1,
        value & 2 != 0 <==> value & 2 == 2,
        (value & 0xf8) % 8 == 0 && value & 0xf8 <= value && value < (value & 0xf8) + 8,
{
}

/// An edge latches the request of its line and of no other.
pub proof fn law_edge_is_latched(call: &mut PicChip, line: u8, other: u8)
    requires
        line < 8,
        other < 8,
        call_ensures(PicChip::pulse, (call, line), ()),
    ensures
        final(call).request & (1u8 << line) != 0,
        other != line ==> final(call).request & (1u8 << other) == old(call).request & (1u8 << other),
        *final(call) == (PicChip { request: final(call).request, ..*old(call) }),
{
    lemma_one_bit(old(call).request, line, other);
}

/// An edge on a line of the first controller gives its vector at once, where the line is not masked
/// and no line up to it is requested or in service; the line is then in service.
pub proof fn law_master_edge_is_delivered(call: &mut EmulatedPic, irq: u8, vector: Option<u8>)
    requires
        irq < 8,
        irq != 2,
        call_ensures(EmulatedPic::pulse_irq, (call, irq), vector),
        old(call).state.master.mask & (1u8 << irq) == 0,
        forall|lower: u8|
            lower <= irq ==> old(call).state.master.in_service & #[trigger] (1u8 << lower) == 0,
        forall|lower: u8|
            lower < irq ==> old(call).state.master.request & #[trigger] (1u8 << lower) == 0,
    ensures
        vector == Some(((old(call).state.master.vector_base + irq) % 256) as u8),
        final(call).state.slave == old(call).state.slave,
        final(call).state.master.request & (1u8 << irq) == 0,
        !old(call).state.master.auto_eoi ==> final(call).state.master.in_service & (1u8 << irq) != 0,
{
    let chip = old(call).state.master;
    let pulsed = chip.pulsed(irq);
    assert(pulsed.pending() == Some(irq)) by {
        lemma_delivers(chip, irq);
    }
    lemma_one_bit(pulsed.request, irq, irq);
    lemma_one_bit(pulsed.in_service, irq, irq);
}

/// A latched edge is what a controller delivers next if nothing stands before it.
proof fn lemma_delivers(chip: PicChip, line: u8)
    requires
        line < 8,
        chip.mask & (1u8 << line) == 0,
        forall|lower: u8| lower <= line ==> chip.in_service & #[trigger] (1u8 << lower) == 0,
        forall|lower: u8| lower < line ==> chip.request & #[trigger] (1u8 << lower) == 0,
    ensures
        chip.pulsed(line).pending() == Some(line),
{
    let pulsed = chip.pulsed(line);
    let open = pulsed.request & !pulsed.mask;
    lemma_first_line(open, 0);
    lemma_first_line(chip.in_service, 0);
    lemma_unmasked(pulsed.request, pulsed.mask, line);
    lemma_lines(chip.request, line, line);
    assert(byte_bit(open, line));
    let first = first_line(open, 0)->0;
    if first < line {
        lemma_unmasked(pulsed.request, pulsed.mask, first);
        lemma_lines(chip.request, line, first);
        assert(chip.request & (1u8 << first) == 0);
    }
    if first_line(chip.in_service, 0) is Some {
        let serviced = first_line(chip.in_service, 0)->0;
        if serviced <= line {
            assert(chip.in_service & (1u8 << serviced) == 0);
        }
    }
}

/// An edge on a line of the second controller goes through line 2 of the first, and gives the vector
/// that the second controller has for it.
pub proof fn law_slave_edge_is_delivered(call: &mut EmulatedPic, irq: u8, vector: Option<u8>)
    requires
        8 <= irq < 16,
        call_ensures(EmulatedPic::pulse_irq, (call, irq), vector),
        old(call).state.master.mask & (1u8 << 2) == 0,
        forall|lower: u8|
            lower <= 2 ==> old(call).state.master.in_service & #[trigger] (1u8 << lower) == 0,
        forall|lower: u8| lower < 2 ==> old(call).state.master.request & #[trigger] (1u8 << lower) == 0,
        old(call).state.slave.mask & (1u8 << (irq - 8) as u8) == 0,
        forall|lower: u8|
            lower <= irq - 8 ==> old(call).state.slave.in_service & #[trigger] (1u8 << lower) == 0,
        forall|lower: u8|
            lower < irq - 8 ==> old(call).state.slave.request & #[trigger] (1u8 << lower) == 0,
    ensures
        vector == Some(((old(call).state.slave.vector_base + irq - 8) % 256) as u8),
        !old(call).state.master.auto_eoi ==> final(call).state.master.in_service & (1u8 << 2) != 0,
        !old(call).state.slave.auto_eoi ==> final(call).state.slave.in_service & (1u8 << (irq - 8) as u8)
            != 0,
        final(call).state.slave.request & (1u8 << (irq - 8) as u8) == 0,
{
    let line = (irq - 8) as u8;
    let master = old(call).state.master.pulsed(2);
    let slave = old(call).state.slave.pulsed(line);
    lemma_delivers(old(call).state.master, 2);
    lemma_delivers(old(call).state.slave, line);
    lemma_one_bit(master.in_service, 2, 2);
    lemma_one_bit(slave.in_service, line, line);
    lemma_one_bit(slave.request, line, line);
}

/// An edge on a masked line, or behind a line in service, is not lost: nothing is delivered of it,
/// and the request stays latched.
pub proof fn law_undeliverable_edge_stays_latched(
    call: &mut EmulatedPic,
    irq: u8,
    vector: Option<u8>,
)
    requires
        irq < 8,
        call_ensures(EmulatedPic::pulse_irq, (call, irq), vector),
        vector is None,
    ensures
        final(call).state.master.request & (1u8 << irq) != 0,
        final(call).state.master.in_service == old(call).state.master.in_service,
        final(call).state.slave == old(call).state.slave,
        old(call).state.master.mask & (1u8 << irq) != 0 || old(call).state.master.in_service != 0,
{
    let chip = old(call).state.master;
    let pulsed = chip.pulsed(irq);
    lemma_one_bit(chip.request, irq, irq);
    if chip.mask & (1u8 << irq) == 0 && chip.in_service == 0 {
        let open = pulsed.request & !pulsed.mask;
        lemma_first_line(open, 0);
        lemma_unmasked(pulsed.request, pulsed.mask, irq);
        lemma_lines(chip.request, irq, irq);
        assert(byte_bit(open, irq));
        lemma_first_line(0, 0);
        assert forall|other: u8| other < 8 implies !byte_bit(0, other) by {
            lemma_one_bit(0, other, other);
        }
    }
}

/// There are sixteen lines.
pub proof fn law_other_lines_do_nothing(call: &mut EmulatedPic, irq: u8, vector: Option<u8>)
    requires
        irq >= 16,
        call_ensures(EmulatedPic::pulse_irq, (call, irq), vector),
    ensures
        vector is None,
        *final(call) == *old(call),
{
}

/// Both controllers start with every line masked and nothing requested, the first with vectors from
/// 0x08 and the second with vectors from 0x70.
pub proof fn law_controllers_start_masked(pic: EmulatedPic)
    requires
        call_ensures(EmulatedPic::new, (), pic),
    ensures
        pic.state.master.mask == 0xff,
        pic.state.slave.mask == 0xff,
        pic.state.master.request == 0 && pic.state.master.in_service == 0,
        pic.state.slave.request == 0 && pic.state.slave.in_service == 0,
        pic.state.master.vector_base == 0x08,
        pic.state.slave.vector_base == 0x70,
        pic.state.master.init_step == 0 && pic.state.slave.init_step == 0,
        !pic.state.master.auto_eoi && !pic.state.slave.auto_eoi,
        !pic.state.master.read_isr && !pic.state.slave.read_isr,
{
}

/// A port write reaches one controller with the low byte of the value: 0x20 and 0xa0 its command
/// port, 0x21 and 0xa1 its data port. Other ports and widths are refused.
pub proof fn law_ports_reach_their_controller(
    call: &mut EmulatedPic,
    port: X86Port,
    width: X86AccessWidth,
    value: usize,
    result: X86VlapicResult<()>,
    one: &mut PicChip,
    byte: u8,
)
    requires
        call_ensures(EmulatedPic::handle_write, (call, port, width, value), result),
        byte == value as u8,
        *one == (if port.0 == 0x20 || port.0 == 0x21 {
            old(call).state.master
        } else {
            old(call).state.slave
        }),
        port.0 == 0x20 || port.0 == 0xa0 ==> call_ensures(PicChip::command, (one, byte), ()),
        port.0 == 0x21 || port.0 == 0xa1 ==> call_ensures(PicChip::data, (one, byte), ()),
    ensures
        result is Ok <==> width == X86AccessWidth::Byte && (port.0 == 0x20 || port.0 == 0x21
            || port.0 == 0xa0 || port.0 == 0xa1),
        result is Err ==> *final(call) == *old(call),
        result is Ok && (port.0 == 0x20 || port.0 == 0x21) ==> final(call).state.master
            == *final(one) && final(call).state.slave == old(call).state.slave,
        result is Ok && (port.0 == 0xa0 || port.0 == 0xa1) ==> final(call).state.slave
            == *final(one) && final(call).state.master == old(call).state.master,
{
}

/// A port read gives the mask of the controller on its data port, and on its command port the
/// requests, or the lines in service if those were chosen.
pub proof fn law_port_reads(
    pic: EmulatedPic,
    port: X86Port,
    width: X86AccessWidth,
    result: X86VlapicResult<usize>,
)
    requires
        call_ensures(EmulatedPic::handle_read, (&pic, port, width), result),
    ensures
        result is Ok <==> width == X86AccessWidth::Byte && (port.0 == 0x20 || port.0 == 0x21
            || port.0 == 0xa0 || port.0 == 0xa1),
        result matches Ok(value) ==> {
            &&& port.0 == 0x21 ==> value == pic.state.master.mask
            &&& port.0 == 0xa1 ==> value == pic.state.slave.mask
            &&& port.0 == 0x20 && pic.state.master.read_isr ==> value
                == pic.state.master.in_service
            &&& port.0 == 0x20 && !pic.state.master.read_isr ==> value == pic.state.master.request
            &&& port.0 == 0xa0 && pic.state.slave.read_isr ==> value == pic.state.slave.in_service
            &&& port.0 == 0xa0 && !pic.state.slave.read_isr ==> value == pic.state.slave.request
        },
{
}

/// A claim that is put back was never made: requests and services of both controllers are as they
/// were before it.
pub proof fn law_restored_claim_leaves_no_trace(
    claiming: &mut PicState,
    claim: Option<PicInterruptClaim>,
    restoring: &mut PicState,
)
    requires
        call_ensures(PicState::claim_pending_interrupt, (claiming,), claim),
        claim is Some,
        *restoring == *final(claiming),
        call_ensures(PicState::restore_interrupt, (restoring, claim->0), ()),
    ensures
        *final(restoring) == *old(claiming),
{
    crate::x86::vpic::law_restore_undoes_claim(*claiming);
}

} // verus!
