//! Walk over the ACPI tables in guest memory.
//!
//! The walk says which bytes of guest memory it needs next, takes them, and reports what it found:
//! the root pointer, the tables that it leads to, and the timer fields of the fixed description
//! table. A read that fails ends the walk, or skips one table.

use crate::bytes::le_decode;
#[allow(unused_imports)]
use crate::bytes::le_value;
use vstd::prelude::*;

verus! {

/// Bytes of the root pointer.
pub const RSDP_LENGTH: usize = 36;

/// Bytes of a table header.
pub const TABLE_HEADER_LENGTH: usize = 36;

/// Longest table that is read.
pub const TABLE_LENGTH_MAX: usize = 4096;

/// Shortest fixed description table that holds the extended timer block.
pub const FADT_LENGTH_MIN: usize = 220;

/// What one step of the walk found.
#[derive(Clone, Copy, Debug, PartialEq, Eq)]
#[allow(inconsistent_fields)]
pub enum AcpiReport {
    /// The root pointer could not be read.
    RsdpUnreadable,
    /// The root pointer was read.
    Rsdp,
    /// The root table's header could not be read.
    XsdtUnreadable {
        /// Guest address of the root table.
        xsdt_gpa: u64,
    },
    /// The root table's length makes no sense.
    XsdtLengthInvalid {
        /// Guest address of the root table.
        xsdt_gpa: u64,
        /// The length.
        length: u32,
    },
    /// The root table's header was read.
    XsdtHeader,
    /// The root table could not be read.
    XsdtBodyUnreadable,
    /// The root table was read.
    Snapshot {
        /// Guest address of the root table.
        xsdt_gpa: u64,
        /// Its length.
        length: u32,
    },
    /// A table could not be read.
    TableUnreadable {
        /// Guest address of the table.
        gpa: u64,
    },
    /// A table was found.
    Table {
        /// Signature of the table.
        signature: [u8; 4],
        /// Guest address of the table.
        gpa: u64,
        /// Its length.
        length: u32,
    },
    /// The fixed description table could not be read.
    FadtUnreadable,
    /// The timer fields of the fixed description table were found.
    FadtTimer {
        /// Guest address of the table.
        gpa: u64,
        /// Timer port.
        pm_tmr_blk: u32,
        /// Extended timer address.
        x_pm_tmr_blk: u64,
        /// Bytes of the timer register.
        pm_tmr_len: u8,
    },
}

/// What the walk needs next.
#[derive(Clone, Copy, Debug, PartialEq, Eq, Structural)]
pub enum AcpiStage {
    /// The root pointer.
    Rsdp,
    /// The header of the root table.
    XsdtHeader,
    /// The root table.
    XsdtBody,
    /// The header of the current table.
    TableHeader,
    /// The current table, which is the fixed description table.
    Fadt,
    /// Nothing.
    Done,
}

/// A walk over the ACPI tables.
#[derive(Debug)]
pub struct AcpiWalk {
    /// What is needed next.
    pub stage: AcpiStage,
    /// Guest address of the root pointer.
    pub rsdp_gpa: u64,
    /// Guest address of the root table.
    pub xsdt_gpa: u64,
    /// Length of the root table.
    pub xsdt_length: u32,
    /// Guest addresses of the tables.
    pub entries: Vec<u64>,
    /// Position of the current table.
    pub index: usize,
    /// Length of the current table.
    pub table_length: u32,
}

/// The little-endian number in `size` bytes of `bytes` from `offset` on.
pub open spec fn field(bytes: Seq<u8>, offset: int, size: int) -> nat {
    le_value(bytes.subrange(offset, offset + size))
}

/// Whether a root table can have the given length: room for a header, whole entries, and not too
/// long.
pub open spec fn is_xsdt_length(length: nat) -> bool {
    TABLE_HEADER_LENGTH <= length <= TABLE_LENGTH_MAX && (length - TABLE_HEADER_LENGTH) % 8 == 0
}

/// The addresses that a root table lists.
pub open spec fn xsdt_entries(bytes: Seq<u8>) -> Seq<u64> {
    Seq::new(
        ((bytes.len() - TABLE_HEADER_LENGTH) / 8) as nat,
        |i: int| field(bytes, TABLE_HEADER_LENGTH + 8 * i, 8) as u64,
    )
}

/// Whether a header belongs to a fixed description table whose timer fields are looked at.
pub open spec fn is_timed_fadt(header: Seq<u8>) -> bool {
    header.subrange(0, 4) == seq![0x46u8, 0x41u8, 0x43u8, 0x50u8] && FADT_LENGTH_MIN <= field(
        header,
        4,
        4,
    ) <= TABLE_LENGTH_MAX
}

/// Returns a 32-bit field.
pub fn read_dword(bytes: &Vec<u8>, offset: usize) -> (value: u32)
    requires
        offset + 4 <= bytes@.len(),
    ensures
        value == field(bytes@, offset as int, 4),
{
    proof {
        crate::bytes::lemma_lane_scale_values();
    }
    le_decode(bytes.as_slice(), offset, 4) as u32
}

/// Returns a 64-bit field.
pub fn read_qword(bytes: &Vec<u8>, offset: usize) -> (value: u64)
    requires
        offset + 8 <= bytes@.len(),
    ensures
        value == field(bytes@, offset as int, 8),
{
    le_decode(bytes.as_slice(), offset, 8)
}

/// Reads the addresses that a root table lists.
pub fn parse_xsdt_entries(bytes: &Vec<u8>) -> (entries: Vec<u64>)
    requires
        is_xsdt_length(bytes@.len()),
    ensures
        entries@ == xsdt_entries(bytes@),
{
    let length: usize = bytes.len();
    let count: usize = (length - TABLE_HEADER_LENGTH) / 8;
    let mut entries: Vec<u64> = Vec::new();
    let mut index: usize = 0;
    while index < count
        invariant
            index <= count,
            count == (length - TABLE_HEADER_LENGTH) / 8,
            length == bytes@.len(),
            is_xsdt_length(length as nat),
            entries@ == xsdt_entries(bytes@).subrange(0, index as int),
        decreases count - index,
    {
        entries.push(read_qword(bytes, TABLE_HEADER_LENGTH + 8 * index));
        index = index + 1;
        assert(entries@ =~= xsdt_entries(bytes@).subrange(0, index as int));
    }
    assert(entries@ =~= xsdt_entries(bytes@));
    entries
}

impl AcpiWalk {
    /// Starts a walk at a root pointer.
    pub fn new(rsdp_gpa: u64) -> (walk: AcpiWalk)
        ensures
            walk.stage == AcpiStage::Rsdp,
            walk.rsdp_gpa == rsdp_gpa,
            walk.wf(),
    {
        AcpiWalk {
            stage: AcpiStage::Rsdp,
            rsdp_gpa,
            xsdt_gpa: 0,
            xsdt_length: 0,
            entries: Vec::new(),
            index: 0,
            table_length: 0,
        }
    }

    /// Whether lengths and positions fit the stage.
    pub open spec fn wf(self) -> bool {
        &&& self.stage == AcpiStage::XsdtBody ==> is_xsdt_length(self.xsdt_length as nat)
        &&& self.stage == AcpiStage::TableHeader || self.stage == AcpiStage::Fadt ==> self.index
            < self.entries@.len()
        &&& self.entries@.len() <= TABLE_LENGTH_MAX
        &&& self.stage == AcpiStage::Fadt ==> FADT_LENGTH_MIN <= self.table_length
            <= TABLE_LENGTH_MAX
    }

    /// The guest memory that is needed next: address and number of bytes.
    pub open spec fn needed(self) -> Option<(u64, usize)> {
        match self.stage {
            AcpiStage::Rsdp => Some((self.rsdp_gpa, RSDP_LENGTH)),
            AcpiStage::XsdtHeader => Some((self.xsdt_gpa, TABLE_HEADER_LENGTH)),
            AcpiStage::XsdtBody => Some((self.xsdt_gpa, self.xsdt_length as usize)),
            AcpiStage::TableHeader => Some(
                (self.entries@[self.index as int], TABLE_HEADER_LENGTH),
            ),
            AcpiStage::Fadt => Some(
                (self.entries@[self.index as int], self.table_length as usize),
            ),
            AcpiStage::Done => None,
        }
    }

    /// Returns the guest memory that is needed next: address and number of bytes.
    pub fn request(&self) -> (needed: Option<(u64, usize)>)
        requires
            self.wf(),
        ensures
            needed == self.needed(),
    {
        match self.stage {
            AcpiStage::Rsdp => Some((self.rsdp_gpa, RSDP_LENGTH)),
            AcpiStage::XsdtHeader => Some((self.xsdt_gpa, TABLE_HEADER_LENGTH)),
            AcpiStage::XsdtBody => Some((self.xsdt_gpa, self.xsdt_length as usize)),
            AcpiStage::TableHeader => Some((self.entries[self.index], TABLE_HEADER_LENGTH)),
            AcpiStage::Fadt => Some((self.entries[self.index], self.table_length as usize)),
            AcpiStage::Done => None,
        }
    }

    /// How many reads are left at most.
    pub open spec fn reads_left(self) -> nat {
        match self.stage {
            AcpiStage::Rsdp => (3 + 2 * TABLE_LENGTH_MAX) as nat,
            AcpiStage::XsdtHeader => (2 + 2 * TABLE_LENGTH_MAX) as nat,
            AcpiStage::XsdtBody => (1 + 2 * TABLE_LENGTH_MAX) as nat,
            AcpiStage::TableHeader => (2 * (self.entries@.len() - self.index)) as nat,
            AcpiStage::Fadt => (2 * (self.entries@.len() - self.index) - 1) as nat,
            AcpiStage::Done => 0,
        }
    }

    /// Whether `after` goes on with the table behind the current one of `self`, if there is one.
    pub open spec fn goes_on(self, after: AcpiWalk) -> bool {
        &&& after.entries == self.entries
        &&& after.xsdt_gpa == self.xsdt_gpa
        &&& after.xsdt_length == self.xsdt_length
        &&& after.index == self.index + 1
        &&& after.stage == (if self.index + 1 < self.entries@.len() {
            AcpiStage::TableHeader
        } else {
            AcpiStage::Done
        })
    }

    /// Moves on to the next table.
    fn next_table(&mut self)
        requires
            old(self).wf(),
            old(self).index < old(self).entries@.len(),
        ensures
            final(self).wf(),
            final(self).rsdp_gpa == old(self).rsdp_gpa,
            old(self).goes_on(*final(self)),
    {
        self.index = self.index + 1;
        self.stage = if self.index < self.entries.len() {
            AcpiStage::TableHeader
        } else {
            AcpiStage::Done
        };
    }

    /// Takes the bytes that were needed, or notes that they could not be read, and reports what was
    /// found.
    pub fn advance(&mut self, answer: Option<Vec<u8>>) -> (report: AcpiReport)
        requires
            old(self).wf(),
            old(self).stage != AcpiStage::Done,
            answer matches Some(bytes) ==> bytes@.len() == (old(self).needed()->0).1,
        ensures
            final(self).wf(),
            final(self).rsdp_gpa == old(self).rsdp_gpa,
            final(self).reads_left() < old(self).reads_left(),
            match old(self).stage {
                AcpiStage::Rsdp => match answer {
                    None => report == AcpiReport::RsdpUnreadable && final(self).stage
                        == AcpiStage::Done,
                    Some(bytes) => {
                        &&& report == AcpiReport::Rsdp
                        &&& final(self).stage == AcpiStage::XsdtHeader
                        &&& final(self).xsdt_gpa == field(bytes@, 24, 8)
                    },
                },
                AcpiStage::XsdtHeader => {
                    let gpa = old(self).xsdt_gpa;
                    match answer {
                        None => {
                            &&& report == (AcpiReport::XsdtUnreadable { xsdt_gpa: gpa })
                            &&& final(self).stage == AcpiStage::Done
                        },
                        Some(bytes) => if is_xsdt_length(field(bytes@, 4, 4)) {
                            &&& report == AcpiReport::XsdtHeader
                            &&& final(self).stage == AcpiStage::XsdtBody
                            &&& final(self).xsdt_gpa == gpa
                            &&& final(self).xsdt_length == field(bytes@, 4, 4)
                        } else {
                            &&& report == (AcpiReport::XsdtLengthInvalid {
                                xsdt_gpa: gpa,
                                length: field(bytes@, 4, 4) as u32,
                            })
                            &&& final(self).stage == AcpiStage::Done
                        },
                    }
                },
                AcpiStage::XsdtBody => match answer {
                    None => report == AcpiReport::XsdtBodyUnreadable && final(self).stage
                        == AcpiStage::Done,
                    Some(bytes) => {
                        &&& report == (AcpiReport::Snapshot {
                            xsdt_gpa: old(self).xsdt_gpa,
                            length: old(self).xsdt_length,
                        })
                        &&& final(self).entries@ == xsdt_entries(bytes@)
                        &&& final(self).index == 0
                        &&& final(self).stage == (if xsdt_entries(bytes@).len() > 0 {
                            AcpiStage::TableHeader
                        } else {
                            AcpiStage::Done
                        })
                    },
                },
                AcpiStage::TableHeader => {
                    let gpa = old(self).entries@[old(self).index as int];
                    match answer {
                        None => {
                            &&& report == (AcpiReport::TableUnreadable { gpa })
                            &&& old(self).goes_on(*final(self))
                        },
                        Some(bytes) => {
                            &&& report matches AcpiReport::Table { signature, gpa: at, length }
                            &&& signature@ == bytes@.subrange(0, 4)
                            &&& at == gpa
                            &&& length == field(bytes@, 4, 4)
                            &&& if is_timed_fadt(bytes@) {
                                &&& final(self).stage == AcpiStage::Fadt
                                &&& final(self).entries == old(self).entries
                                &&& final(self).index == old(self).index
                                &&& final(self).table_length == length
                            } else {
                                old(self).goes_on(*final(self))
                            }
                        },
                    }
                },
                AcpiStage::Fadt => {
                    &&& old(self).goes_on(*final(self))
                    &&& match answer {
                        None => report == AcpiReport::FadtUnreadable,
                        Some(bytes) => report == (AcpiReport::FadtTimer {
                            gpa: old(self).entries@[old(self).index as int],
                            pm_tmr_blk: field(bytes@, 76, 4) as u32,
                            x_pm_tmr_blk: field(bytes@, 212, 8) as u64,
                            pm_tmr_len: bytes@[91],
                        }),
                    }
                },
                AcpiStage::Done => true,
            },
    {
        match self.stage {
            AcpiStage::Rsdp => match answer {
                None => {
                    self.stage = AcpiStage::Done;
                    AcpiReport::RsdpUnreadable
                },
                Some(bytes) => {
                    self.xsdt_gpa = read_qword(&bytes, 24);
                    self.stage = AcpiStage::XsdtHeader;
                    AcpiReport::Rsdp
                },
            },
            AcpiStage::XsdtHeader => match answer {
                None => {
                    self.stage = AcpiStage::Done;
                    AcpiReport::XsdtUnreadable { xsdt_gpa: self.xsdt_gpa }
                },
                Some(bytes) => {
                    let length: u32 = read_dword(&bytes, 4);
                    if length < TABLE_HEADER_LENGTH as u32 || length > TABLE_LENGTH_MAX as u32 || (
                    length - TABLE_HEADER_LENGTH as u32) % 8 != 0 {
                        self.stage = AcpiStage::Done;
                        AcpiReport::XsdtLengthInvalid { xsdt_gpa: self.xsdt_gpa, length }
                    } else {
                        self.xsdt_length = length;
                        self.stage = AcpiStage::XsdtBody;
                        AcpiReport::XsdtHeader
                    }
                },
            },
            AcpiStage::XsdtBody => match answer {
                None => {
                    self.stage = AcpiStage::Done;
                    AcpiReport::XsdtBodyUnreadable
                },
                Some(bytes) => {
                    self.entries = parse_xsdt_entries(&bytes);
                    self.index = 0;
                    self.stage = if self.entries.len() > 0 {
                        AcpiStage::TableHeader
                    } else {
                        AcpiStage::Done
                    };
                    AcpiReport::Snapshot { xsdt_gpa: self.xsdt_gpa, length: self.xsdt_length }
                },
            },
            AcpiStage::TableHeader => {
                let gpa: u64 = self.entries[self.index];
                match answer {
                    None => {
                        self.next_table();
                        AcpiReport::TableUnreadable { gpa }
                    },
                    Some(bytes) => {
                        let signature: [u8; 4] = [bytes[0], bytes[1], bytes[2], bytes[3]];
                        assert(signature@ =~= bytes@.subrange(0, 4));
                        let length: u32 = read_dword(&bytes, 4);
                        let fixed = bytes[0] == 0x46 && bytes[1] == 0x41 && bytes[2] == 0x43
                            && bytes[3] == 0x50;
                        proof {
                            let facp = seq![0x46u8, 0x41u8, 0x43u8, 0x50u8];
                            if fixed {
                                assert(bytes@.subrange(0, 4) =~= facp);
                            } else {
                                assert(bytes@.subrange(0, 4)[0] == bytes@[0]);
                                assert(bytes@.subrange(0, 4)[1] == bytes@[1]);
                                assert(bytes@.subrange(0, 4)[2] == bytes@[2]);
                                assert(bytes@.subrange(0, 4)[3] == bytes@[3]);
                                assert(bytes@.subrange(0, 4) != facp);
                            }
                        }
                        if fixed && length >= FADT_LENGTH_MIN as u32 && length
                            <= TABLE_LENGTH_MAX as u32 {
                            self.table_length = length;
                            self.stage = AcpiStage::Fadt;
                        } else {
                            self.next_table();
                        }
                        AcpiReport::Table { signature, gpa, length }
                    },
                }
            },
            AcpiStage::Fadt => {
                let gpa: u64 = self.entries[self.index];
                self.next_table();
                match answer {
                    None => AcpiReport::FadtUnreadable,
                    Some(bytes) => AcpiReport::FadtTimer {
                        gpa,
                        pm_tmr_blk: read_dword(&bytes, 76),
                        x_pm_tmr_blk: read_qword(&bytes, 212),
                        pm_tmr_len: bytes[91],
                    },
                }
            },
            AcpiStage::Done => AcpiReport::RsdpUnreadable,
        }
    }
}

} // verus!
