//! A guest-owned pair of legacy 8259-compatible interrupt controllers.

use crate::x86::types::{X86AccessWidth, X86Port, X86PortRange, X86VlapicError, X86VlapicResult};
#[allow(unused_imports)]
use crate::x86::types::byte_bit;
use vstd::prelude::*;

verus! {

/// Command port of the first controller.
pub const MASTER_COMMAND: u16 = 0x20;

/// Data port of the first controller.
pub const MASTER_DATA: u16 = 0x21;

/// Command port of the second controller.
pub const SLAVE_COMMAND: u16 = 0xa0;

/// Data port of the second controller.
pub const SLAVE_DATA: u16 = 0xa1;

/// Master line that the slave controller is wired to.
pub const CASCADE_IRQ: u8 = 2;

/// `bits` with `line` set.
pub open spec fn line_set(bits: u8, line: u8) -> u8 {
    bits | (1u8 << line)
}

/// `bits` with `line` cleared.
pub open spec fn line_cleared(bits: u8, line: u8) -> u8 {
    bits & !(1u8 << line)
}

/// The first line at or after `from` that is set: line 0 has the highest
/// priority, line 7 the lowest.
pub open spec fn first_line(bits: u8, from: u8) -> Option<u8>
    decreases 8 - from,
{
    if from >= 8 {
        None
    } else if byte_bit(bits, from) {
        Some(from)
    } else {
        first_line(bits, (from + 1) as u8)
    }
}

/// One 8259-compatible interrupt controller.
#[derive(Clone, Copy, Debug, PartialEq, Eq, Structural)]
pub struct PicChip {
    /// Vector of line 0.
    pub vector_base: u8,
    /// Interrupt mask register.
    pub mask: u8,
    /// Interrupt request register.
    pub request: u8,
    /// In-service register.
    pub in_service: u8,
    /// Which initialization word the data port takes next, 0 for none.
    pub init_step: u8,
    /// Whether the initialization ends with a fourth word.
    pub needs_icw4: bool,
    /// Whether the controller has no cascade.
    pub single: bool,
    /// Whether an acknowledge leaves the in-service register alone.
    pub auto_eoi: bool,
    /// Whether the command port reads the in-service register.
    pub read_isr: bool,
}

impl PicChip {
    /// The state after reset: every line masked, nothing requested or in service.
    pub open spec fn initial(vector_base: u8) -> PicChip {
        PicChip {
            vector_base,
            mask: 0xff,
            request: 0,
            in_service: 0,
            init_step: 0,
            needs_icw4: false,
            single: false,
            auto_eoi: false,
            read_isr: false,
        }
    }

    /// Creates a controller whose lines are all masked and whose line 0 has the given vector.
    pub fn new(vector_base: u8) -> (chip: Self)
        ensures
            chip == PicChip::initial(vector_base),
    {
        PicChip {
            vector_base,
            mask: 0xff,
            request: 0,
            in_service: 0,
            init_step: 0,
            needs_icw4: false,
            single: false,
            auto_eoi: false,
            read_isr: false,
        }
    }

    /// The state after a command-port write: bit 4 starts an initialization,
    /// bits 4..3 `01` choose the register to read, bit 5 ends an interrupt, the
    /// line in bits 2..0 under bit 6 and else the first one in service.
    pub open spec fn after_command(self, value: u8) -> PicChip {
        if value & 0x10 != 0 {
            PicChip {
                request: 0,
                in_service: 0,
                init_step: 1,
                needs_icw4: value & 0x01 != 0,
                single: value & 0x02 != 0,
                auto_eoi: false,
                read_isr: false,
                ..self
            }
        } else if value & 0x18 == 0x08 {
            PicChip { read_isr: value & 0x02 != 0, ..self }
        } else if value & 0x20 == 0 {
            self
        } else if value & 0x40 != 0 {
            PicChip { in_service: line_cleared(self.in_service, value & 0x07), ..self }
        } else {
            match first_line(self.in_service, 0) {
                Some(line) => PicChip { in_service: line_cleared(self.in_service, line), ..self },
                None => self,
            }
        }
    }

    /// Takes a write to the command port.
    pub fn command(&mut self, value: u8)
        ensures
            *final(self) == old(self).after_command(value),
    {
        if value & 0x10 != 0 {
            self.request = 0;
            self.in_service = 0;
            self.init_step = 1;
            self.needs_icw4 = value & 0x01 != 0;
            self.single = value & 0x02 != 0;
            self.auto_eoi = false;
            self.read_isr = false;
            return;
        }
        if value & 0x18 == 0x08 {
            self.read_isr = value & 0x02 != 0;
            return;
        }
        if value & 0x20 != 0 {
            if value & 0x40 != 0 {
                assert(value & 0x07 < 8) by (bit_vector);
                let line: u8 = value & 0x07;
                self.in_service = self.in_service & !(1u8 << line);
            } else if let Some(line) = highest_priority(self.in_service) {
                self.in_service = self.in_service & !(1u8 << line);
            }
        }
    }

    /// The state after a data-port write: the next initialization word, or the
    /// interrupt mask where none is due.
    pub open spec fn after_data(self, value: u8) -> PicChip {
        if self.init_step == 1 {
            PicChip {
                vector_base: value & 0xf8,
                init_step: if !self.single {
                    2
                } else if self.needs_icw4 {
                    3
                } else {
                    0
                },
                ..self
            }
        } else if self.init_step == 2 {
            PicChip {
                init_step: if self.needs_icw4 {
                    3
                } else {
                    0
                },
                ..self
            }
        } else if self.init_step == 3 {
            PicChip { auto_eoi: value & 0x02 != 0, init_step: 0, ..self }
        } else {
            PicChip { mask: value, ..self }
        }
    }

    /// Takes a write to the data port.
    pub fn data(&mut self, value: u8)
        ensures
            *final(self) == old(self).after_data(value),
    {
        match self.init_step {
            1 => {
                self.vector_base = value & 0xf8;
                self.init_step =
                if !self.single {
                    2
                } else if self.needs_icw4 {
                    3
                } else {
                    0
                };
            },
            2 => {
                self.init_step =
                if self.needs_icw4 {
                    3
                } else {
                    0
                };
            },
            3 => {
                self.auto_eoi = value & 0x02 != 0;
                self.init_step = 0;
            },
            _ => {
                self.mask = value;
            },
        }
    }

    /// What the command port reads.
    pub open spec fn command_value(self) -> u8 {
        if self.read_isr {
            self.in_service
        } else {
            self.request
        }
    }

    /// Answers a read of the command port.
    pub fn read_command(&self) -> (value: u8)
        ensures
            value == self.command_value(),
    {
        if self.read_isr {
            self.in_service
        } else {
            self.request
        }
    }

    /// The state after an edge on `line`.
    pub open spec fn pulsed(self, line: u8) -> PicChip {
        PicChip { request: line_set(self.request, line), ..self }
    }

    /// Latches an edge on a line.
    pub fn pulse(&mut self, line: u8)
        requires
            line < 8,
        ensures
            *final(self) == old(self).pulsed(line),
    {
        self.request = self.request | (1u8 << line);
    }

    /// The first requested line that is not masked, where it has a higher
    /// priority than every line in service.
    pub open spec fn pending(self) -> Option<u8> {
        match first_line(self.request & !self.mask, 0) {
            Some(line) => match first_line(self.in_service, 0) {
                Some(serviced) => if line < serviced {
                    Some(line)
                } else {
                    None
                },
                None => Some(line),
            },
            None => None,
        }
    }

    /// Returns the line whose interrupt is delivered next, if one is.
    pub fn pending_irq(&self) -> (line: Option<u8>)
        ensures
            line == self.pending(),
            line matches Some(l) ==> l < 8,
    {
        let line: u8 = match highest_priority(self.request & !self.mask) {
            Some(line) => line,
            None => return None,
        };
        match highest_priority(self.in_service) {
            Some(serviced) => if line < serviced {
                Some(line)
            } else {
                None
            },
            None => Some(line),
        }
    }

    /// The state after the request on `line` was acknowledged.
    pub open spec fn acknowledged(self, line: u8) -> PicChip {
        PicChip {
            request: line_cleared(self.request, line),
            in_service: if self.auto_eoi {
                self.in_service
            } else {
                line_set(self.in_service, line)
            },
            ..self
        }
    }

    /// The vector of `line`.
    pub open spec fn vector_of(self, line: u8) -> u8 {
        ((self.vector_base + line) % 256) as u8
    }

    /// Acknowledges the request on a line and returns its vector.
    pub fn acknowledge(&mut self, line: u8) -> (vector: u8)
        requires
            line < 8,
        ensures
            *final(self) == old(self).acknowledged(line),
            vector == old(self).vector_of(line),
    {
        self.request = self.request & !(1u8 << line);
        if !self.auto_eoi {
            self.in_service = self.in_service | (1u8 << line);
        }
        self.vector_base.wrapping_add(line)
    }
}

/// Returns the set line with the lowest number.
pub fn highest_priority(bits: u8) -> (line: Option<u8>)
    ensures
        line == first_line(bits, 0),
        line matches Some(l) ==> l < 8 && byte_bit(bits, l),
{
    let mut line: u8 = 0;
    while line < 8
        invariant
            line <= 8,
            first_line(bits, 0) == first_line(bits, line),
        decreases 8 - line,
    {
        if bits & (1u8 << line) != 0 {
            return Some(line);
        }
        line = line + 1;
    }
    None
}

/// A pending legacy PIC interrupt removed from the IRR for delivery.
///
/// The claim can be restored when the runtime cannot publish its vector. It is
/// intentionally neither [`Copy`] nor [`Clone`] so one claim cannot be restored
/// more than once through safe code.
#[derive(Debug, PartialEq, Eq, Structural)]
pub struct PicInterruptClaim {
    /// Guest-programmed vector.
    pub vector: u8,
    /// Line, 0 to 7 on the master and 8 to 15 on the slave.
    pub irq: u8,
    /// Whether the claim put the master line in service.
    pub master_in_service: bool,
    /// Whether the claim put the slave line in service.
    pub slave_in_service: bool,
}

impl PicInterruptClaim {
    /// Returns the guest-programmed interrupt vector owned by this claim.
    pub fn vector(&self) -> (vector: u8)
        ensures
            vector == self.vector,
    {
        self.vector
    }
}

/// The cascaded pair of controllers.
#[derive(Clone, Copy, Debug, PartialEq, Eq, Structural)]
pub struct PicState {
    /// Lines 0 to 7.
    pub master: PicChip,
    /// Lines 8 to 15.
    pub slave: PicChip,
}

impl PicState {
    /// The state after reset.
    pub open spec fn initial() -> PicState {
        PicState { master: PicChip::initial(0x08), slave: PicChip::initial(0x70) }
    }

    /// Creates the two controllers of a machine.
    pub fn new() -> (state: Self)
        ensures
            state == PicState::initial(),
    {
        PicState { master: PicChip::new(0x08), slave: PicChip::new(0x70) }
    }

    /// The state after an edge on line `irq`; there are 16 lines.
    pub open spec fn pulsed(self, irq: u8) -> PicState {
        if irq < 8 {
            PicState { master: self.master.pulsed(irq), ..self }
        } else if irq < 16 {
            PicState {
                master: self.master.pulsed(CASCADE_IRQ),
                slave: self.slave.pulsed((irq - 8) as u8),
            }
        } else {
            self
        }
    }

    /// The interrupt that a claim takes.
    pub open spec fn next_claim(self) -> Option<PicInterruptClaim> {
        match self.master.pending() {
            None => None,
            Some(line) => match self.slave.pending() {
                Some(slave_line) if line == CASCADE_IRQ => Some(
                    PicInterruptClaim {
                        vector: self.slave.vector_of(slave_line),
                        irq: (slave_line + 8) as u8,
                        master_in_service: !self.master.auto_eoi,
                        slave_in_service: !self.slave.auto_eoi,
                    },
                ),
                _ => Some(
                    PicInterruptClaim {
                        vector: self.master.vector_of(line),
                        irq: line,
                        master_in_service: !self.master.auto_eoi,
                        slave_in_service: false,
                    },
                ),
            },
        }
    }

    /// The state after a claim.
    pub open spec fn claimed(self) -> PicState {
        match self.master.pending() {
            None => self,
            Some(line) => match self.slave.pending() {
                Some(slave_line) if line == CASCADE_IRQ => PicState {
                    master: self.master.acknowledged(line),
                    slave: self.slave.acknowledged(slave_line),
                },
                _ => PicState { master: self.master.acknowledged(line), ..self },
            },
        }
    }

    /// The state after `claim` was put back.
    pub open spec fn restored(self, claim: PicInterruptClaim) -> PicState {
        let master_line = if claim.irq < 8 {
            claim.irq
        } else {
            CASCADE_IRQ
        };
        let master = PicChip {
            in_service: if claim.master_in_service {
                line_cleared(self.master.in_service, master_line)
            } else {
                self.master.in_service
            },
            ..self.master.pulsed(master_line)
        };
        if claim.irq < 8 {
            PicState { master, ..self }
        } else {
            let slave_line = (claim.irq - 8) as u8;
            PicState {
                master,
                slave: PicChip {
                    in_service: if claim.slave_in_service {
                        line_cleared(self.slave.in_service, slave_line)
                    } else {
                        self.slave.in_service
                    },
                    ..self.slave.pulsed(slave_line)
                },
            }
        }
    }

    /// Latches an edge on a line and claims the interrupt that is then delivered.
    pub fn claim_irq(&mut self, irq: u8) -> (claim: Option<PicInterruptClaim>)
        ensures
            irq < 16 ==> claim == old(self).pulsed(irq).next_claim(),
            irq < 16 ==> *final(self) == old(self).pulsed(irq).claimed(),
            irq >= 16 ==> claim is None && *final(self) == *old(self),
            claim matches Some(c) ==> c.irq < 16,
    {
        if irq < 8 {
            self.master.pulse(irq);
        } else if irq < 16 {
            self.slave.pulse(irq - 8);
            self.master.pulse(CASCADE_IRQ);
        } else {
            return None;
        }
        self.claim_pending_interrupt()
    }

    /// Claims the interrupt that is delivered next.
    pub fn claim_pending_interrupt(&mut self) -> (claim: Option<PicInterruptClaim>)
        ensures
            claim == old(self).next_claim(),
            *final(self) == old(self).claimed(),
            claim matches Some(c) ==> c.irq < 16,
    {
        let master_irq: u8 = match self.master.pending_irq() {
            Some(line) => line,
            None => return None,
        };
        let master_in_service = !self.master.auto_eoi;
        if master_irq != CASCADE_IRQ {
            return Some(
                PicInterruptClaim {
                    vector: self.master.acknowledge(master_irq),
                    irq: master_irq,
                    master_in_service,
                    slave_in_service: false,
                },
            );
        }
        match self.slave.pending_irq() {
            Some(slave_irq) => {
                let slave_in_service = !self.slave.auto_eoi;
                self.master.acknowledge(master_irq);
                Some(
                    PicInterruptClaim {
                        vector: self.slave.acknowledge(slave_irq),
                        irq: slave_irq + 8,
                        master_in_service,
                        slave_in_service,
                    },
                )
            },
            None => Some(
                PicInterruptClaim {
                    vector: self.master.acknowledge(master_irq),
                    irq: master_irq,
                    master_in_service,
                    slave_in_service: false,
                },
            ),
        }
    }

    /// Puts a claim back.
    pub fn restore_interrupt(&mut self, claim: PicInterruptClaim)
        requires
            claim.irq < 16,
        ensures
            *final(self) == old(self).restored(claim),
    {
        if claim.irq < 8 {
            self.master.pulse(claim.irq);
            if claim.master_in_service {
                self.master.in_service = self.master.in_service & !(1u8 << claim.irq);
            }
            return;
        }
        let slave_irq: u8 = claim.irq - 8;
        self.slave.pulse(slave_irq);
        self.master.pulse(CASCADE_IRQ);
        if claim.slave_in_service {
            self.slave.in_service = self.slave.in_service & !(1u8 << slave_irq);
        }
        if claim.master_in_service {
            self.master.in_service = self.master.in_service & !(1u8 << CASCADE_IRQ);
        }
    }
}

/// Guest-owned pair of legacy 8259-compatible interrupt controllers.
#[derive(Debug)]
pub struct EmulatedPic {
    /// The two controllers.
    pub state: PicState,
}

impl EmulatedPic {
    /// Creates the reset-compatible master and slave PIC state.
    pub fn new() -> (pic: Self)
        ensures
            pic.state == PicState::initial(),
    {
        EmulatedPic { state: PicState::new() }
    }

    /// Returns the two standard command/data port ranges.
    pub fn port_ranges() -> (ranges: [X86PortRange; 2])
        ensures
            ranges@ == seq![
                X86PortRange { start: X86Port(MASTER_COMMAND), end: X86Port(MASTER_DATA) },
                X86PortRange { start: X86Port(SLAVE_COMMAND), end: X86Port(SLAVE_DATA) },
            ],
    {
        [
            X86PortRange::new(X86Port::new(MASTER_COMMAND), X86Port::new(MASTER_DATA)),
            X86PortRange::new(X86Port::new(SLAVE_COMMAND), X86Port::new(SLAVE_DATA)),
        ]
    }

    /// Latches an edge on one legacy IRQ and returns an immediately deliverable vector.
    pub fn pulse_irq(&mut self, irq: u8) -> (vector: Option<u8>)
        ensures
            irq < 16 ==> final(self).state == old(self).state.pulsed(irq).claimed(),
            irq < 16 ==> vector == (match old(self).state.pulsed(irq).next_claim() {
                Some(claim) => Some(claim.vector),
                None => None,
            }),
            irq >= 16 ==> vector is None && *final(self) == *old(self),
    {
        match self.claim_irq(irq) {
            Some(claim) => Some(claim.vector()),
            None => None,
        }
    }

    /// Re-evaluates the latched requests after a guest PIC state change.
    ///
    /// In particular, an EOI or an interrupt-mask update can make an edge that
    /// was already present in the IRR deliverable without another source edge.
    pub fn next_interrupt(&mut self) -> (vector: Option<u8>)
        ensures
            final(self).state == old(self).state.claimed(),
            vector == (match old(self).state.next_claim() {
                Some(claim) => Some(claim.vector),
                None => None,
            }),
    {
        match self.claim_pending_interrupt() {
            Some(claim) => Some(claim.vector()),
            None => None,
        }
    }

    /// Latches one legacy IRQ edge and claims an immediately deliverable interrupt.
    pub fn claim_irq(&mut self, irq: u8) -> (claim: Option<PicInterruptClaim>)
        ensures
            irq < 16 ==> claim == old(self).state.pulsed(irq).next_claim(),
            irq < 16 ==> final(self).state == old(self).state.pulsed(irq).claimed(),
            irq >= 16 ==> claim is None && *final(self) == *old(self),
            claim matches Some(c) ==> c.irq < 16,
    {
        self.state.claim_irq(irq)
    }

    /// Claims a request that became deliverable after a guest PIC state change.
    pub fn claim_pending_interrupt(&mut self) -> (claim: Option<PicInterruptClaim>)
        ensures
            claim == old(self).state.next_claim(),
            final(self).state == old(self).state.claimed(),
            claim matches Some(c) ==> c.irq < 16,
    {
        self.state.claim_pending_interrupt()
    }

    /// Restores a claimed interrupt after publication to the vCPU failed.
    pub fn restore_interrupt(&mut self, claim: PicInterruptClaim)
        requires
            claim.irq < 16,
        ensures
            final(self).state == old(self).state.restored(claim),
    {
        self.state.restore_interrupt(claim);
    }

    /// The value that a byte read of `port` gives, if the port is one of the four.
    pub open spec fn port_value(self, port: X86Port) -> Option<u8> {
        if port.0 == MASTER_COMMAND {
            Some(self.state.master.command_value())
        } else if port.0 == MASTER_DATA {
            Some(self.state.master.mask)
        } else if port.0 == SLAVE_COMMAND {
            Some(self.state.slave.command_value())
        } else if port.0 == SLAVE_DATA {
            Some(self.state.slave.mask)
        } else {
            None
        }
    }

    /// Handles one byte-wide PIC port read.
    pub fn handle_read(&self, port: X86Port, width: X86AccessWidth) -> (result: X86VlapicResult<
        usize,
    >)
        ensures
            result == (match self.port_value(port) {
                Some(value) if width == X86AccessWidth::Byte => Ok::<usize, X86VlapicError>(
                    value as usize,
                ),
                _ => Err(X86VlapicError::Unsupported),
            }),
    {
        if width != X86AccessWidth::Byte {
            return Err(X86VlapicError::Unsupported);
        }
        let value: u8 = match port.number() {
            MASTER_COMMAND => self.state.master.read_command(),
            MASTER_DATA => self.state.master.mask,
            SLAVE_COMMAND => self.state.slave.read_command(),
            SLAVE_DATA => self.state.slave.mask,
            _ => return Err(X86VlapicError::Unsupported),
        };
        Ok(value as usize)
    }

    /// The controllers after a byte write of `value` to `port`.
    pub open spec fn port_written(self, port: X86Port, value: u8) -> PicState {
        let state = self.state;
        if port.0 == MASTER_COMMAND {
            PicState { master: state.master.after_command(value), ..state }
        } else if port.0 == MASTER_DATA {
            PicState { master: state.master.after_data(value), ..state }
        } else if port.0 == SLAVE_COMMAND {
            PicState { slave: state.slave.after_command(value), ..state }
        } else if port.0 == SLAVE_DATA {
            PicState { slave: state.slave.after_data(value), ..state }
        } else {
            state
        }
    }

    /// Handles one byte-wide PIC port write; only the low byte of `value` counts.
    pub fn handle_write(&mut self, port: X86Port, width: X86AccessWidth, value: usize) -> (result:
        X86VlapicResult<()>)
        ensures
            result == (if width == X86AccessWidth::Byte && old(self).port_value(port) is Some {
                Ok::<(), X86VlapicError>(())
            } else {
                Err(X86VlapicError::Unsupported)
            }),
            result is Ok ==> final(self).state == old(self).port_written(port, value as u8),
            result is Err ==> *final(self) == *old(self),
    {
        if width != X86AccessWidth::Byte {
            return Err(X86VlapicError::Unsupported);
        }
        let value: u8 = value as u8;
        match port.number() {
            MASTER_COMMAND => self.state.master.command(value),
            MASTER_DATA => self.state.master.data(value),
            SLAVE_COMMAND => self.state.slave.command(value),
            SLAVE_DATA => self.state.slave.data(value),
            _ => return Err(X86VlapicError::Unsupported),
        }
        Ok(())
    }
}

impl Default for EmulatedPic {
    fn default() -> (pic: Self)
        ensures
            pic.state == PicState::initial(),
    {
        EmulatedPic::new()
    }
}

/// Setting and clearing one line, seen from every line.
pub proof fn lemma_lines(bits: u8, line: u8, other: u8)
    by (bit_vector)
    requires
        line < 8,
        other < 8,
    ensures
        byte_bit(line_set(bits, line), other) == (other == line || byte_bit(bits, other)),
        byte_bit(line_cleared(bits, line), other) == (other != line && byte_bit(bits, other)),
        byte_bit(bits, line) ==> line_set(line_cleared(bits, line), line) == bits,
        !byte_bit(bits, line) ==> line_cleared(line_set(bits, line), line) == bits,
{
}

/// A line that is set in `request & !mask` is requested and not masked.
pub proof fn lemma_unmasked(request: u8, mask: u8, line: u8)
    by (bit_vector)
    requires
        line < 8,
    ensures
        byte_bit(request & !mask, line) == (byte_bit(request, line) && !byte_bit(mask, line)),
{
}

/// The first line is set, and no line before it is.
pub proof fn lemma_first_line(bits: u8, from: u8)
    requires
        from <= 8,
    ensures
        match first_line(bits, from) {
            Some(line) => from <= line < 8 && byte_bit(bits, line) && (forall|other: u8|
                from <= other < line ==> !byte_bit(bits, other)),
            None => forall|other: u8| from <= other < 8 ==> !byte_bit(bits, other),
        },
    decreases 8 - from,
{
    if from < 8 && !byte_bit(bits, from) {
        lemma_first_line(bits, (from + 1) as u8);
    }
}

/// A pending line is requested, not masked, not in service, and precedes every
/// line in service.
pub proof fn law_pending_line_outranks_service(chip: PicChip)
    ensures
        chip.pending() matches Some(line) ==> {
            &&& line < 8
            &&& byte_bit(chip.request, line)
            &&& !byte_bit(chip.mask, line)
            &&& forall|other: u8| other <= line ==> !byte_bit(chip.in_service, other)
        },
{
    lemma_first_line(chip.request & !chip.mask, 0);
    lemma_first_line(chip.in_service, 0);
    if let Some(line) = chip.pending() {
        lemma_unmasked(chip.request, chip.mask, line);
    }
}

/// Putting a claim back gives the state from before the claim.
pub proof fn law_restore_undoes_claim(state: PicState)
    ensures
        state.next_claim() matches Some(claim) ==> state.claimed().restored(claim) == state,
{
    law_pending_line_outranks_service(state.master);
    law_pending_line_outranks_service(state.slave);
    if let Some(line) = state.master.pending() {
        lemma_lines(state.master.request, line, line);
        lemma_lines(state.master.in_service, line, line);
        if let Some(slave_line) = state.slave.pending() {
            lemma_lines(state.slave.request, slave_line, slave_line);
            lemma_lines(state.slave.in_service, slave_line, slave_line);
        }
    }
}

/// No port write but the start of an initialization drops a latched request.
pub proof fn law_port_writes_keep_requests(chip: PicChip, value: u8)
    ensures
        value & 0x10 == 0 ==> chip.after_command(value).request == chip.request,
        chip.after_data(value).request == chip.request,
{
}

/// An edge on the line that is being served stays latched, and the end of that interrupt makes it
/// pending without another edge, where the line is not masked and no request precedes it.
pub proof fn law_end_of_interrupt_delivers_latched_edge(chip: PicChip, line: u8)
    requires
        first_line(chip.in_service, 0) == Some(line),
        !byte_bit(chip.mask, line),
        forall|other: u8| other < line ==> !byte_bit(chip.request & !chip.mask, other),
    ensures
        chip.pulsed(line).pending() is None,
        chip.pulsed(line).after_command(0x20).pending() == Some(line),
{
    let pulsed = chip.pulsed(line);
    lemma_first_line(chip.in_service, 0);
    assert forall|other: u8| other <= line implies byte_bit(pulsed.request & !pulsed.mask, other)
        == (other == line) by {
        lemma_unmasked(chip.request, chip.mask, other);
        lemma_unmasked(pulsed.request, pulsed.mask, other);
        lemma_lines(chip.request, line, other);
    }
    lemma_first_line(pulsed.request & !pulsed.mask, 0);
    assert(byte_bit(pulsed.request & !pulsed.mask, line));
    assert(first_line(pulsed.request & !pulsed.mask, 0) == Some(line));
    assert(0x20u8 & 0x10 == 0 && 0x20u8 & 0x18 != 0x08 && 0x20u8 & 0x20 != 0 && 0x20u8 & 0x40 == 0)
        by (bit_vector);
    let ended = pulsed.after_command(0x20);
    assert(ended.in_service == line_cleared(chip.in_service, line));
    lemma_first_line(ended.in_service, 0);
    assert forall|other: u8| other <= line implies !byte_bit(ended.in_service, other) by {
        lemma_lines(chip.in_service, line, other);
    }
}

/// The four initialization words leave a controller with the vector base of the
/// second word, no request, nothing in service, and the mask it had.
pub proof fn law_initialization_sequence(chip: PicChip, base: u8, wiring: u8, mode: u8)
    ensures
        chip.after_command(0x11).after_data(base).after_data(wiring).after_data(mode) == (PicChip {
            vector_base: base & 0xf8,
            mask: chip.mask,
            request: 0,
            in_service: 0,
            init_step: 0,
            needs_icw4: true,
            single: false,
            auto_eoi: mode & 0x02 != 0,
            read_isr: false,
        }),
{
    assert(0x11u8 & 0x10 != 0 && 0x11u8 & 0x01 != 0 && 0x11u8 & 0x02 == 0) by (bit_vector);
}

} // verus!
