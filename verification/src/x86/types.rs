//! Errors, widths, registers and VM exits of the OS-neutral x86 vCPU core.

#[allow(unused_imports)]
use crate::bytes::{lane_scale, le_byte, lemma_lane_scale_values};
use crate::x86::addr::{X86GuestPhysAddr, X86HostPhysAddr};
use core::ops::Range;
use vstd::prelude::*;
use vstd::std_specs::convert::{FromSpecImpl, TryFromSpecImpl};

verus! {

/// Result type returned by the OS-neutral x86 vCPU core.
pub type X86VcpuResult<T> = Result<T, X86VcpuError>;

/// Result type returned by the interrupt-controller models.
pub type X86VlapicResult<T> = Result<T, X86VlapicError>;

/// Errors produced by the OS-neutral x86 vCPU core.
#[derive(Clone, Copy, Debug, PartialEq, Eq, Structural)]
pub enum X86VcpuError {
    /// A caller supplied an invalid argument or unsupported hardware encoding.
    InvalidInput,
    /// Hardware register or exit data could not be decoded as a valid value.
    InvalidData,
    /// The requested operation is not supported by this CPU or vCPU backend.
    Unsupported,
    /// Hardware or software state is inconsistent with the requested transition.
    BadState,
    /// A host allocation failed.
    NoMemory,
    /// The requested hardware resource is already in use.
    ResourceBusy,
}

/// Errors produced by the interrupt-controller models.
#[derive(Clone, Copy, Debug, PartialEq, Eq, Structural)]
pub enum X86VlapicError {
    /// A caller supplied an invalid argument.
    InvalidInput,
    /// Register data could not be decoded.
    InvalidData,
    /// The access is not supported.
    Unsupported,
    /// A host allocation failed.
    NoMemory,
    /// The controller is in the wrong state.
    BadState,
}

impl FromSpecImpl<X86VlapicError> for X86VcpuError {
    open spec fn obeys_from_spec() -> bool {
        true
    }

    open spec fn from_spec(err: X86VlapicError) -> Self {
        match err {
            X86VlapicError::InvalidInput => X86VcpuError::InvalidInput,
            X86VlapicError::InvalidData => X86VcpuError::InvalidData,
            X86VlapicError::Unsupported => X86VcpuError::Unsupported,
            X86VlapicError::NoMemory => X86VcpuError::NoMemory,
            X86VlapicError::BadState => X86VcpuError::BadState,
        }
    }
}

impl From<X86VlapicError> for X86VcpuError {
    fn from(err: X86VlapicError) -> (result: Self) {
        match err {
            X86VlapicError::InvalidInput => X86VcpuError::InvalidInput,
            X86VlapicError::InvalidData => X86VcpuError::InvalidData,
            X86VlapicError::Unsupported => X86VcpuError::Unsupported,
            X86VlapicError::NoMemory => X86VcpuError::NoMemory,
            X86VlapicError::BadState => X86VcpuError::BadState,
        }
    }
}

/// The port number of an x86 I/O operation.
#[derive(Clone, Copy, Debug, PartialEq, Eq, PartialOrd, Ord, Structural)]
pub struct X86Port(pub u16);

impl X86Port {
    /// Creates a new x86 I/O port.
    pub fn new(port: u16) -> (result: Self)
        ensures
            result.0 == port,
    {
        X86Port(port)
    }

    /// Returns the raw port number.
    pub fn number(self) -> (port: u16)
        ensures
            port == self.0,
    {
        self.0
    }
}

impl FromSpecImpl<u16> for X86Port {
    open spec fn obeys_from_spec() -> bool {
        true
    }

    open spec fn from_spec(value: u16) -> Self {
        X86Port(value)
    }
}

impl From<u16> for X86Port {
    fn from(value: u16) -> (result: Self) {
        X86Port::new(value)
    }
}

/// An inclusive range of x86 I/O ports.
#[derive(Clone, Copy, Debug, PartialEq, Eq, Structural)]
pub struct X86PortRange {
    /// First port of the range.
    pub start: X86Port,
    /// Last port of the range.
    pub end: X86Port,
}

impl X86PortRange {
    /// Creates the range from `start` to `end`, both of them in it.
    pub fn new(start: X86Port, end: X86Port) -> (result: Self)
        ensures
            result == (X86PortRange { start, end }),
    {
        X86PortRange { start, end }
    }

    /// Whether `port` lies in the range.
    pub open spec fn holds(self, port: X86Port) -> bool {
        self.start.0 <= port.0 <= self.end.0
    }

    /// Returns whether `port` lies in the range.
    pub fn contains(self, port: X86Port) -> (result: bool)
        ensures
            result == self.holds(port),
    {
        self.start.0 <= port.0 && port.0 <= self.end.0
    }
}

/// x86 MSR address.
#[derive(Clone, Copy, Debug, PartialEq, Eq, PartialOrd, Ord, Structural)]
pub struct X86MsrAddr(pub usize);

impl X86MsrAddr {
    /// Creates an MSR address from the raw MSR number.
    pub fn new(addr: usize) -> (result: Self)
        ensures
            result.0 == addr,
    {
        X86MsrAddr(addr)
    }

    /// Returns the raw MSR number.
    pub fn addr(self) -> (addr: usize)
        ensures
            addr == self.0,
    {
        self.0
    }
}

impl FromSpecImpl<usize> for X86MsrAddr {
    open spec fn obeys_from_spec() -> bool {
        true
    }

    open spec fn from_spec(value: usize) -> Self {
        X86MsrAddr(value)
    }
}

impl From<usize> for X86MsrAddr {
    fn from(value: usize) -> (result: Self) {
        X86MsrAddr::new(value)
    }
}

/// Width of a trapped guest bus access.
#[derive(Clone, Copy, Debug, PartialEq, Eq, PartialOrd, Ord, Structural)]
pub enum X86AccessWidth {
    /// 8-bit access.
    Byte,
    /// 16-bit access.
    Word,
    /// 32-bit access.
    Dword,
    /// 64-bit access.
    Qword,
}

impl X86AccessWidth {
    /// Number of bytes that an access of this width covers.
    pub open spec fn bytes(self) -> nat {
        match self {
            X86AccessWidth::Byte => 1,
            X86AccessWidth::Word => 2,
            X86AccessWidth::Dword => 4,
            X86AccessWidth::Qword => 8,
        }
    }

    /// Returns this access width in bytes.
    pub fn size(self) -> (size: usize)
        ensures
            size == self.bytes(),
    {
        match self {
            X86AccessWidth::Byte => 1,
            X86AccessWidth::Word => 2,
            X86AccessWidth::Dword => 4,
            X86AccessWidth::Qword => 8,
        }
    }

    /// Returns the bit range covered by this access.
    pub fn bits_range(self) -> (bits: Range<usize>)
        ensures
            bits.start == 0,
            bits.end == 8 * self.bytes(),
    {
        match self {
            X86AccessWidth::Byte => 0..8,
            X86AccessWidth::Word => 0..16,
            X86AccessWidth::Dword => 0..32,
            X86AccessWidth::Qword => 0..64,
        }
    }

    /// The memory-operand width of a MOV: `88`, `8a` and `c6` move a byte,
    /// `89`, `8b` and `c7` a quadword under REX.W, else a word under the
    /// operand-size prefix, else a doubleword.
    pub open spec fn of_mov_opcode(
        opcode: u8,
        operand_size_override: bool,
        rex_w: bool,
    ) -> Option<X86AccessWidth> {
        if opcode == 0x88 || opcode == 0x8a || opcode == 0xc6 {
            Some(X86AccessWidth::Byte)
        } else if opcode == 0x89 || opcode == 0x8b || opcode == 0xc7 {
            Some(
                if rex_w {
                    X86AccessWidth::Qword
                } else if operand_size_override {
                    X86AccessWidth::Word
                } else {
                    X86AccessWidth::Dword
                },
            )
        } else {
            None
        }
    }

    /// Returns the memory-operand width encoded by a MOV opcode plus its
    /// operand-size and REX prefixes.
    pub fn for_mov_opcode(
        opcode: u8,
        operand_size_override: bool,
        rex_w: bool,
    ) -> (width: Option<X86AccessWidth>)
        ensures
            width == X86AccessWidth::of_mov_opcode(opcode, operand_size_override, rex_w),
    {
        match opcode {
            0x88 | 0x8a | 0xc6 => Some(X86AccessWidth::Byte),
            0x89 | 0x8b | 0xc7 => {
                if rex_w {
                    Some(X86AccessWidth::Qword)
                } else if operand_size_override {
                    Some(X86AccessWidth::Word)
                } else {
                    Some(X86AccessWidth::Dword)
                }
            },
            _ => None,
        }
    }

    /// Masks a value down to this width.
    pub fn mask_value(self, value: u64) -> (masked: u64)
        ensures
            masked == value as nat % lane_scale(self.bytes()),
    {
        proof {
            lemma_lane_scale_values();
            assert((value & 0xff) == value % 0x100 && (value & 0xffff) == value % 0x1_0000 && (value
                & 0xffff_ffff) == value % 0x1_0000_0000) by (bit_vector);
            assert(value as nat % lane_scale(1) == value as nat % 0x100);
            assert(value as nat % lane_scale(2) == value as nat % 0x1_0000);
            assert(value as nat % lane_scale(4) == value as nat % 0x1_0000_0000);
            vstd::arithmetic::div_mod::lemma_small_mod(value as nat, lane_scale(8));
        }
        match self {
            X86AccessWidth::Byte => value & 0xff,
            X86AccessWidth::Word => value & 0xffff,
            X86AccessWidth::Dword => value & 0xffff_ffff,
            X86AccessWidth::Qword => value,
        }
    }
}

impl TryFromSpecImpl<usize> for X86AccessWidth {
    open spec fn obeys_try_from_spec() -> bool {
        true
    }

    open spec fn try_from_spec(value: usize) -> Result<Self, X86VcpuError> {
        if value == 1 {
            Ok(X86AccessWidth::Byte)
        } else if value == 2 {
            Ok(X86AccessWidth::Word)
        } else if value == 4 {
            Ok(X86AccessWidth::Dword)
        } else if value == 8 {
            Ok(X86AccessWidth::Qword)
        } else {
            Err(X86VcpuError::InvalidInput)
        }
    }
}

impl TryFrom<usize> for X86AccessWidth {
    type Error = X86VcpuError;

    fn try_from(value: usize) -> (result: Result<Self, X86VcpuError>) {
        match value {
            1 => Ok(X86AccessWidth::Byte),
            2 => Ok(X86AccessWidth::Word),
            4 => Ok(X86AccessWidth::Dword),
            8 => Ok(X86AccessWidth::Qword),
            _ => Err(X86VcpuError::InvalidInput),
        }
    }
}

impl FromSpecImpl<X86AccessWidth> for usize {
    open spec fn obeys_from_spec() -> bool {
        true
    }

    open spec fn from_spec(value: X86AccessWidth) -> Self {
        value.bytes() as usize
    }
}

impl From<X86AccessWidth> for usize {
    fn from(value: X86AccessWidth) -> (result: Self) {
        value.size()
    }
}

/// Byte register selected by a ModRM.reg field for byte MOV instructions.
#[derive(Clone, Copy, Debug, PartialEq, Eq, Structural)]
pub struct X86ByteRegister {
    /// General-purpose register index in the vCPU register file.
    pub gpr: u8,
    /// When true, the access targets the high byte (AH/CH/DH/BH).
    pub high: bool,
}

impl X86ByteRegister {
    /// The byte lane of the general-purpose register that is accessed.
    pub open spec fn lane(self) -> nat {
        if self.high {
            1
        } else {
            0
        }
    }
}

/// Whether bit `index` of `byte` is set.
pub open spec fn byte_bit(byte: u8, index: u8) -> bool {
    byte & (1u8 << index) != 0
}

/// Decodes the byte register referenced by `modrm_reg` and a REX prefix byte.
///
/// Without REX, `modrm_reg` 0..3 selects AL/CL/DL/BL and 4..7 selects
/// AH/CH/DH/BH. With REX, `modrm_reg` plus REX.R selects the low byte of the
/// corresponding 64-bit general-purpose register, including SPL/BPL/SIL/DIL.
pub fn x86_byte_register(modrm_reg: u8, rex: u8) -> (register: Option<X86ByteRegister>)
    ensures
        register is Some <==> modrm_reg <= 7,
        register matches Some(r) ==> r == (if rex == 0 {
            X86ByteRegister { gpr: (modrm_reg % 4) as u8, high: modrm_reg >= 4 }
        } else if byte_bit(rex, 2) {
            X86ByteRegister { gpr: (modrm_reg + 8) as u8, high: false }
        } else {
            X86ByteRegister { gpr: modrm_reg, high: false }
        }),
{
    if modrm_reg > 7 {
        return None;
    }
    if rex == 0 {
        Some(
            if modrm_reg < 4 {
                X86ByteRegister { gpr: modrm_reg, high: false }
            } else {
                X86ByteRegister { gpr: modrm_reg - 4, high: true }
            },
        )
    } else {
        proof {
            assert(modrm_reg <= 7 ==> (modrm_reg | ((rex & 0x4) << 1)) == (if rex & (1u8 << 2u8)
                != 0 {
                (modrm_reg + 8) as u8
            } else {
                modrm_reg
            })) by (bit_vector);
        }
        Some(X86ByteRegister { gpr: modrm_reg | ((rex & 0x4) << 1), high: false })
    }
}

/// Extracts the byte selected by `byte_reg` from a full GPR value.
pub fn x86_byte_register_value(gpr_value: u64, byte_reg: X86ByteRegister) -> (value: u8)
    ensures
        value == le_byte(gpr_value as nat, byte_reg.lane()),
{
    proof {
        reveal_with_fuel(le_byte, 2);
        assert((gpr_value >> 8) as u8 == (gpr_value / 256) % 256 && gpr_value as u8 == gpr_value
            % 256) by (bit_vector);
    }
    if byte_reg.high {
        (gpr_value >> 8) as u8
    } else {
        gpr_value as u8
    }
}

/// Merges a byte into a full GPR value without disturbing adjacent bytes.
pub fn x86_byte_register_merge(gpr_value: u64, byte_reg: X86ByteRegister, value: u8) -> (merged:
    u64)
    ensures
        forall|lane: nat|
            #![trigger le_byte(merged as nat, lane)]
            le_byte(merged as nat, lane) == (if lane == byte_reg.lane() {
                value
            } else {
                le_byte(gpr_value as nat, lane)
            }),
{
    let merged: u64 = if byte_reg.high {
        (gpr_value & !0xff00) | ((value as u64) << 8)
    } else {
        (gpr_value & !0xff) | value as u64
    };
    proof {
        assert(((gpr_value & !0xff00) | ((value as u64) << 8)) == (gpr_value / 0x1_0000) * 0x1_0000
            + value * 0x100 + gpr_value % 0x100 && ((gpr_value & !0xff) | value as u64) == (
        gpr_value / 0x100) * 0x100 + value) by (bit_vector);
        if byte_reg.high {
            lemma_replace_second_lane(gpr_value as nat, merged as nat, value);
        } else {
            lemma_replace_first_lane(gpr_value as nat, merged as nat, value);
        }
    }
    merged
}

/// Replacing the lowest byte of a number keeps all the others.
proof fn lemma_replace_first_lane(whole: nat, merged: nat, byte: u8)
    requires
        merged == (whole / 256) * 256 + byte,
    ensures
        forall|lane: nat|
            #![trigger le_byte(merged, lane)]
            le_byte(merged, lane) == (if lane == 0 {
                byte
            } else {
                le_byte(whole, lane)
            }),
{
    assert(merged / 256 == whole / 256);
    assert(merged % 256 == byte);
}

/// Replacing the second byte of a number keeps all the others.
proof fn lemma_replace_second_lane(whole: nat, merged: nat, byte: u8)
    requires
        merged == (whole / 0x1_0000) * 0x1_0000 + byte * 0x100 + whole % 0x100,
    ensures
        forall|lane: nat|
            #![trigger le_byte(merged, lane)]
            le_byte(merged, lane) == (if lane == 1 {
                byte
            } else {
                le_byte(whole, lane)
            }),
{
    assert(merged % 256 == whole % 256);
    assert(merged / 256 == (whole / 256 / 256) * 256 + byte);
    lemma_replace_first_lane(whole / 256, merged / 256, byte);
    assert forall|lane: nat|
        #![trigger le_byte(merged, lane)]
        le_byte(merged, lane) == (if lane == 1 {
            byte
        } else {
            le_byte(whole, lane)
        }) by {
        if lane > 0 {
            assert(le_byte(merged, lane) == le_byte(merged / 256, (lane - 1) as nat));
        }
    }
}

/// Applies one x86 instruction-prefix byte to decoder state.
///
/// Returns true when `byte` is a supported prefix. Legacy prefixes after a REX
/// prefix invalidate that REX, matching the x86 rule that only the last REX
/// immediately preceding the opcode is effective.
pub fn x86_simple_prefix_update(
    byte: u8,
    rex: &mut u8,
    operand_size_override: &mut bool,
) -> (prefix: bool)
    ensures
        prefix == (byte == 0x66 || 0x40 <= byte <= 0x4f),
        *final(rex) == (if byte == 0x66 {
            0
        } else if 0x40 <= byte <= 0x4f {
            byte
        } else {
            *old(rex)
        }),
        *final(operand_size_override) == (byte == 0x66 || *old(operand_size_override)),
{
    if byte == 0x66 {
        *operand_size_override = true;
        *rex = 0;
        true
    } else if 0x40 <= byte && byte <= 0x4f {
        *rex = byte;
        true
    } else {
        false
    }
}

/// The displacement size of a ModRM byte with mode `modrm / 64` and base
/// `modrm % 8`: mode 1 has one byte, mode 2 four, mode 0 four where the base
/// (of the SIB byte, if there is one) is 5 and REX.B is clear; mode 3 names no
/// memory operand.
pub open spec fn modrm_displacement(modrm: u8, sib: Option<u8>, rex: u8) -> Option<usize> {
    let mode = modrm / 64;
    let rm = modrm % 8;
    if mode == 1 {
        Some(1usize)
    } else if mode == 2 {
        Some(4usize)
    } else if mode == 3 || (rm == 4 && sib is None) {
        None
    } else {
        let base = if rm == 4 {
            sib->0 % 8
        } else {
            rm
        };
        if base == 5 && rex % 2 == 0 {
            Some(4usize)
        } else {
            Some(0usize)
        }
    }
}

/// Returns the displacement size encoded by a memory-operand ModRM byte.
pub fn x86_modrm_displacement_size(modrm: u8, sib: Option<u8>, rex: u8) -> (size: Option<usize>)
    ensures
        size == modrm_displacement(modrm, sib, rex),
{
    proof {
        lemma_byte_fields(modrm);
        lemma_byte_fields(rex);
    }
    let mode: u8 = modrm >> 6;
    let rm: u8 = modrm & 0x7;
    match mode {
        0 => {
            let is_rip_relative = if rm == 4 {
                match sib {
                    Some(sib) => {
                        proof {
                            lemma_byte_fields(sib);
                        }
                        (sib & 0x7) == 5
                    },
                    None => return None,
                }
            } else {
                rm == 5
            };
            if is_rip_relative && rex & 0x1 == 0 {
                Some(4)
            } else {
                Some(0)
            }
        },
        1 => Some(1),
        2 => Some(4),
        _ => None,
    }
}

/// The mode, base and lowest bit of a byte, as shifts and as quotients.
proof fn lemma_byte_fields(byte: u8)
    by (bit_vector)
    ensures
        byte >> 6 == byte / 64,
        byte & 0x7 == byte % 8,
        byte & 0x1 == byte % 2,
        byte / 64 < 4,
{
}

/// Access flags reported for a nested page fault.
#[derive(Clone, Copy, Debug, PartialEq, Eq, Structural)]
pub struct X86AccessFlags {
    /// Read access.
    pub read: bool,
    /// Write access.
    pub write: bool,
    /// Execute access.
    pub execute: bool,
}

impl X86AccessFlags {
    /// Returns the flags as bits: read is bit 0, write bit 1, execute bit 2.
    pub fn bits(self) -> (bits: usize)
        ensures
            bits == (if self.read {
                1int
            } else {
                0
            }) + (if self.write {
                2int
            } else {
                0
            }) + (if self.execute {
                4int
            } else {
                0
            }),
    {
        let read: usize = if self.read {
            1
        } else {
            0
        };
        let write: usize = if self.write {
            2
        } else {
            0
        };
        let execute: usize = if self.execute {
            4
        } else {
            0
        };
        read + write + execute
    }
}

/// Information about a nested guest page-table fault.
#[derive(Clone, Copy, Debug, PartialEq, Eq, Structural)]
pub struct X86NestedPageFaultInfo {
    /// Faulting guest physical address.
    pub fault_guest_paddr: X86GuestPhysAddr,
    /// Fault access flags.
    pub access_flags: X86AccessFlags,
}

/// Nested page table configuration selected by the embedding VMM.
#[derive(Clone, Copy, Debug, PartialEq, Eq, Structural)]
pub struct X86NestedPagingConfig {
    /// Root physical address of the nested page table.
    pub root_paddr: X86HostPhysAddr,
    /// Number of nested page-table levels.
    pub levels: usize,
    /// Guest physical address width in bits.
    pub gpa_bits: usize,
    /// Hardware-specific mode value.
    pub mode: usize,
}

impl X86NestedPagingConfig {
    /// Creates a nested paging configuration.
    pub fn new(
        root_paddr: X86HostPhysAddr,
        levels: usize,
        gpa_bits: usize,
        mode: usize,
    ) -> (result: Self)
        ensures
            result == (X86NestedPagingConfig { root_paddr, levels, gpa_bits, mode }),
    {
        X86NestedPagingConfig { root_paddr, levels, gpa_bits, mode }
    }
}

/// Direction of a port-I/O access.
#[derive(Clone, Copy, Debug, PartialEq, Eq, Structural)]
pub enum X86PortIoDirection {
    /// The guest reads from the port.
    In,
    /// The guest writes to the port.
    Out,
}

/// One element of a string port-I/O instruction.
#[derive(Clone, Copy, Debug, PartialEq, Eq, Structural)]
pub struct X86PortIoStringExit {
    /// I/O port.
    pub port: X86Port,
    /// Access width.
    pub width: X86AccessWidth,
    /// Whether the element is read from or written to the port.
    pub direction: X86PortIoDirection,
    /// Guest physical address of the memory element.
    pub guest_paddr: X86GuestPhysAddr,
}

/// VM-exit reason returned by the x86 vCPU core.
#[derive(Debug)]
#[non_exhaustive]
#[allow(inconsistent_fields)]
pub enum X86VmExit {
    /// A guest instruction triggered a hypercall.
    Hypercall {
        /// Hypercall number.
        nr: u64,
        /// Hypercall arguments.
        args: [u64; 6],
    },
    /// The guest performed a port I/O read.
    PortIoRead {
        /// I/O port.
        port: X86Port,
        /// Access width.
        width: X86AccessWidth,
    },
    /// The guest performed a port I/O write.
    PortIoWrite {
        /// I/O port.
        port: X86Port,
        /// Access width.
        width: X86AccessWidth,
        /// Value written by the guest.
        data: u64,
    },
    /// The guest performed one element of a string port-I/O instruction.
    PortIoString(X86PortIoStringExit),
    /// The guest performed an MMIO read.
    MmioRead {
        /// Guest physical address.
        addr: X86GuestPhysAddr,
        /// Access width.
        width: X86AccessWidth,
        /// Destination guest register.
        reg: usize,
        /// Destination register width.
        reg_width: X86AccessWidth,
        /// Whether the value should be sign-extended.
        signed_ext: bool,
        /// Byte-register destination for byte-width MOV reads.
        byte_reg: Option<X86ByteRegister>,
    },
    /// The guest performed an MMIO write.
    MmioWrite {
        /// Guest physical address.
        addr: X86GuestPhysAddr,
        /// Access width.
        width: X86AccessWidth,
        /// Value written by the guest.
        data: u64,
    },
    /// The guest performed an MSR read.
    MsrRead {
        /// MSR address.
        addr: X86MsrAddr,
    },
    /// The guest performed an MSR write.
    MsrWrite {
        /// MSR address.
        addr: X86MsrAddr,
        /// Value written by the guest.
        value: u64,
    },
    /// A nested page fault occurred.
    NestedPageFault {
        /// Faulting guest physical address.
        addr: X86GuestPhysAddr,
        /// Access flags.
        access_flags: X86AccessFlags,
    },
    /// A physical host interrupt should be handled by the embedding VMM.
    ExternalInterrupt {
        /// Host vector reported by the backend.
        vector: u8,
    },
    /// The preemption timer expired or the backend wants the VMM to poll timers.
    PreemptionTimer,
    /// A guest EOI completed.
    InterruptEnd {
        /// Vector that may require IOAPIC EOI propagation.
        vector: Option<u8>,
    },
    /// The guest halted.
    Halt,
    /// The guest requested system power-off.
    SystemDown,
    /// VM entry failed in hardware.
    FailEntry {
        /// Hardware entry-failure reason.
        hardware_entry_failure_reason: usize,
    },
    /// The exit was handled inside the x86 core.
    Nothing,
}

/// Builds an [`X86VmExit::MmioWrite`] for a decoded MOV register-to-memory
/// device MMIO instruction.
pub fn mov_mmio_write_exit(
    addr: X86GuestPhysAddr,
    opcode: u8,
    operand_size_override: bool,
    rex_w: bool,
    data: u64,
) -> (exit: Option<X86VmExit>)
    ensures
        exit == (if opcode == 0x88 || opcode == 0x89 {
            let width = X86AccessWidth::of_mov_opcode(opcode, operand_size_override, rex_w)->0;
            Some(
                X86VmExit::MmioWrite {
                    addr,
                    width,
                    data: (data as nat % lane_scale(width.bytes())) as u64,
                },
            )
        } else {
            None
        }),
{
    let width = match X86AccessWidth::for_mov_opcode(opcode, operand_size_override, rex_w) {
        Some(width) => width,
        None => return None,
    };
    match opcode {
        0x88 | 0x89 => Some(X86VmExit::MmioWrite { addr, width, data: width.mask_value(data) }),
        _ => None,
    }
}

/// Returns the encoded immediate size of a MOV memory-store instruction.
///
/// `C7` with REX.W still encodes a 32-bit immediate.
pub fn mov_immediate_size(width: X86AccessWidth) -> (size: usize)
    ensures
        size == (if width.bytes() <= 4 {
            width.bytes()
        } else {
            4
        }),
{
    match width {
        X86AccessWidth::Byte => 1,
        X86AccessWidth::Word => 2,
        X86AccessWidth::Dword | X86AccessWidth::Qword => 4,
    }
}

/// Reading back the byte that a merge wrote gives that byte, and every other
/// byte of the register is read as before.
pub proof fn law_byte_register_merge_reads_back(
    gpr_value: u64,
    byte_reg: X86ByteRegister,
    value: u8,
    merged: u64,
    other: X86ByteRegister,
)
    requires
        call_ensures(x86_byte_register_merge, (gpr_value, byte_reg, value), merged),
    ensures
        le_byte(merged as nat, byte_reg.lane()) == value,
        other.high != byte_reg.high ==> le_byte(merged as nat, other.lane()) == le_byte(
            gpr_value as nat,
            other.lane(),
        ),
{
}

} // verus!
