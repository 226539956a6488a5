//! Conventional PCI addresses: functions, BAR slots and config offsets.

use crate::access::AccessWidth;
use crate::pci::error::{PciError, PciResult};
use vstd::prelude::*;

verus! {

/// Size of the conventional configuration space.
pub const CONFIG_SPACE_SIZE: usize = 256;

/// A PCI segment group.
#[derive(Clone, Copy, Debug, PartialEq, Eq, PartialOrd, Ord, Hash, Structural)]
pub struct PciSegment(pub u16);

impl PciSegment {
    /// Creates a segment group number.
    pub fn new(value: u16) -> (segment: Self)
        ensures
            segment.0 == value,
    {
        PciSegment(value)
    }

    /// Returns the raw segment number.
    pub fn value(self) -> (value: u16)
        ensures
            value == self.0,
    {
        self.0
    }
}

/// Segment, bus, device and function number of one PCI function.
#[derive(Clone, Copy, Debug, PartialEq, Eq, PartialOrd, Ord, Hash, Structural)]
pub struct PciBdf {
    /// Segment group.
    pub segment: PciSegment,
    /// Bus number.
    pub bus: u8,
    /// Device number, below 32.
    pub device: u8,
    /// Function number, below 8.
    pub function: u8,
}

impl PciBdf {
    /// Whether the device and function numbers are in their ranges.
    pub open spec fn wf(self) -> bool {
        self.device < 32 && self.function < 8
    }

    /// Creates an address from its parts.
    ///
    /// # Errors
    ///
    /// Returns [`PciError::InvalidAddress`] for a device number above 31, then
    /// for a function number above 7.
    pub fn new(segment: PciSegment, bus: u8, device: u8, function: u8) -> (result: PciResult<
        PciBdf,
    >)
        ensures
            device >= 32 ==> result == Err::<PciBdf, PciError>(
                PciError::InvalidAddress { component: "device", value: device as u64 },
            ),
            device < 32 && function >= 8 ==> result == Err::<PciBdf, PciError>(
                PciError::InvalidAddress { component: "function", value: function as u64 },
            ),
            device < 32 && function < 8 ==> result == Ok::<PciBdf, PciError>(
                PciBdf { segment, bus, device, function },
            ),
    {
        if device >= 32 {
            return Err(PciError::InvalidAddress { component: "device", value: device as u64 });
        }
        if function >= 8 {
            return Err(PciError::InvalidAddress { component: "function", value: function as u64 });
        }
        Ok(PciBdf { segment, bus, device, function })
    }

    /// Function 0 of `device` on bus 0 of segment 0.
    pub open spec fn on_bus_zero(device: u8) -> PciBdf {
        PciBdf { segment: PciSegment(0), bus: 0, device, function: 0 }
    }

    /// Returns function 0 of `device` on bus 0 of segment 0.
    pub fn bus_zero(device: u8) -> (bdf: PciBdf)
        requires
            device < 32,
        ensures
            bdf == PciBdf::on_bus_zero(device),
    {
        PciBdf { segment: PciSegment(0), bus: 0, device, function: 0 }
    }

    /// Returns the segment group.
    pub fn segment(self) -> (segment: PciSegment)
        ensures
            segment == self.segment,
    {
        self.segment
    }

    /// Returns the bus number.
    pub fn bus(self) -> (bus: u8)
        ensures
            bus == self.bus,
    {
        self.bus
    }

    /// Returns the device number.
    pub fn device(self) -> (device: u8)
        ensures
            device == self.device,
    {
        self.device
    }

    /// Returns the function number.
    pub fn function(self) -> (function: u8)
        ensures
            function == self.function,
    {
        self.function
    }

    /// Whether this address comes before `other`: by segment, bus, device, function.
    pub open spec fn before(self, other: PciBdf) -> bool {
        if self.segment.0 != other.segment.0 {
            self.segment.0 < other.segment.0
        } else if self.bus != other.bus {
            self.bus < other.bus
        } else if self.device != other.device {
            self.device < other.device
        } else {
            self.function < other.function
        }
    }

    /// Returns whether this address comes before `other`.
    pub fn precedes(self, other: PciBdf) -> (result: bool)
        ensures
            result == self.before(other),
    {
        if self.segment.0 != other.segment.0 {
            self.segment.0 < other.segment.0
        } else if self.bus != other.bus {
            self.bus < other.bus
        } else if self.device != other.device {
            self.device < other.device
        } else {
            self.function < other.function
        }
    }
}

/// One of the six BAR slots of a Type-0 function.
#[derive(Clone, Copy, Debug, PartialEq, Eq, PartialOrd, Ord, Hash, Structural)]
pub struct PciBarIndex(pub u8);

impl PciBarIndex {
    /// Whether the slot is one of the six.
    pub open spec fn wf(self) -> bool {
        self.0 < 6
    }

    /// Creates a slot number.
    ///
    /// # Errors
    ///
    /// Returns [`PciError::InvalidAddress`] for a slot above 5.
    pub fn new(value: u8) -> (result: PciResult<PciBarIndex>)
        ensures
            result == (if value < 6 {
                Ok::<PciBarIndex, PciError>(PciBarIndex(value))
            } else {
                Err(PciError::InvalidAddress { component: "BAR index", value: value as u64 })
            }),
    {
        if value >= 6 {
            return Err(PciError::InvalidAddress { component: "BAR index", value: value as u64 });
        }
        Ok(PciBarIndex(value))
    }

    /// Returns the raw slot number.
    pub fn value(self) -> (value: u8)
        ensures
            value == self.0,
    {
        self.0
    }

    /// Config offset of the slot's register.
    pub open spec fn register(self) -> int {
        0x10 + 4 * self.0
    }

    /// Returns the config offset of the slot's register.
    pub fn config_offset(self) -> (offset: usize)
        ensures
            offset == self.register(),
    {
        0x10 + 4 * self.0 as usize
    }
}

/// A byte offset into the conventional configuration space.
#[derive(Clone, Copy, Debug, PartialEq, Eq, PartialOrd, Ord, Hash, Structural)]
pub struct ConfigOffset(pub u16);

/// Whether a config access is a byte, word or doubleword access, aligned to its
/// size and inside the configuration space.
pub open spec fn valid_config_access(offset: int, width: AccessWidth) -> bool {
    width != AccessWidth::Qword && offset % width.bytes() as int == 0 && 0 <= offset
        && offset + width.bytes() <= 256
}

/// A valid access stays within its doubleword and within the config space.
pub proof fn lemma_valid_access(offset: int, width: AccessWidth)
    requires
        valid_config_access(offset, width),
    ensures
        offset % 4 + width.bytes() <= 4,
        offset + width.bytes() <= 256,
{
    match width {
        AccessWidth::Byte => {},
        AccessWidth::Word => {
            assert(offset % 2 == 0);
        },
        AccessWidth::Dword => {
            assert(offset % 4 == 0);
        },
        AccessWidth::Qword => {},
    }
}

impl ConfigOffset {
    /// Whether the offset is inside the configuration space.
    pub open spec fn wf(self) -> bool {
        self.0 < 256
    }

    /// Creates a config offset.
    ///
    /// # Errors
    ///
    /// Returns [`PciError::InvalidAddress`] for an offset above 255.
    pub fn new(value: u16) -> (result: PciResult<ConfigOffset>)
        ensures
            result == (if value < 256 {
                Ok::<ConfigOffset, PciError>(ConfigOffset(value))
            } else {
                Err(PciError::InvalidAddress { component: "config offset", value: value as u64 })
            }),
    {
        if value >= 256 {
            return Err(
                PciError::InvalidAddress { component: "config offset", value: value as u64 },
            );
        }
        Ok(ConfigOffset(value))
    }

    /// Returns the raw offset.
    pub fn value(self) -> (value: u16)
        ensures
            value == self.0,
    {
        self.0
    }

    /// Returns the byte offset and size of one access at this offset.
    ///
    /// # Errors
    ///
    /// Returns [`PciError::InvalidConfigAccess`] for qword, misaligned, or
    /// out-of-range accesses.
    pub fn validate_access(self, width: AccessWidth) -> (result: PciResult<(usize, usize)>)
        ensures
            valid_config_access(self.0 as int, width) ==> result == Ok::<(usize, usize), PciError>(
                (self.0 as usize, width.bytes() as usize),
            ),
            !valid_config_access(self.0 as int, width) ==> result == Err::<
                (usize, usize),
                PciError,
            >(invalid_config_access(self.0, width)),
    {
        let offset: usize = self.0 as usize;
        let size: usize = width.size();
        if width == AccessWidth::Qword || offset % size != 0 || offset + size > CONFIG_SPACE_SIZE {
            return Err(
                PciError::InvalidConfigAccess {
                    offset: self.0,
                    width,
                    detail: "access is not a naturally aligned byte, word or doubleword",
                },
            );
        }
        Ok((offset, size))
    }
}

/// The error for an access that [`valid_config_access`] rules out.
pub open spec fn invalid_config_access(offset: u16, width: AccessWidth) -> PciError {
    PciError::InvalidConfigAccess {
        offset,
        width,
        detail: "access is not a naturally aligned byte, word or doubleword",
    }
}

} // verus!
