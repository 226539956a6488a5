use axvisor::x86::acpi::{AcpiReport, AcpiStage, AcpiWalk};

fn header(signature: &[u8; 4], length: u32) -> Vec<u8> {
    let mut bytes = signature.to_vec();
    bytes.extend_from_slice(&length.to_le_bytes());
    bytes.resize(36, 0);
    bytes
}

/// Guest memory that holds some tables.
struct Guest(Vec<(u64, Vec<u8>)>);

impl Guest {
    fn read(&self, address: u64, length: usize) -> Option<Vec<u8>> {
        let (_, bytes) = self.0.iter().find(|(at, _)| *at == address)?;
        bytes.get(..length).map(|bytes| bytes.to_vec())
    }
}

fn walk(guest: &Guest) -> Vec<AcpiReport> {
    let mut walk = AcpiWalk::new(0x1000);
    let mut reports = Vec::new();
    while let Some((address, length)) = walk.request() {
        reports.push(walk.advance(guest.read(address, length)));
    }
    assert_eq!(walk.stage, AcpiStage::Done);
    reports
}

fn rsdp(xsdt: u64) -> Vec<u8> {
    let mut bytes = vec![0; 36];
    bytes[24..32].copy_from_slice(&xsdt.to_le_bytes());
    bytes
}

fn xsdt(entries: &[u64]) -> Vec<u8> {
    let mut bytes = header(b"XSDT", 36 + 8 * entries.len() as u32);
    for entry in entries {
        bytes.extend_from_slice(&entry.to_le_bytes());
    }
    bytes
}

#[test]
fn tables_and_timer_fields_are_reported() {
    let mut fadt = header(b"FACP", 276);
    fadt.resize(276, 0);
    fadt[76..80].copy_from_slice(&0x608_u32.to_le_bytes());
    fadt[91] = 4;
    fadt[212..220].copy_from_slice(&0xfed0_0608_u64.to_le_bytes());
    let guest = Guest(vec![
        (0x1000, rsdp(0x2000)),
        (0x2000, xsdt(&[0x3000, 0x4000, 0x5000])),
        (0x3000, fadt),
        (0x5000, header(b"APIC", 100)),
    ]);
    assert_eq!(
        walk(&guest),
        vec![
            AcpiReport::Rsdp,
            AcpiReport::XsdtHeader,
            AcpiReport::Snapshot {
                xsdt_gpa: 0x2000,
                length: 60
            },
            AcpiReport::Table {
                signature: *b"FACP",
                gpa: 0x3000,
                length: 276
            },
            AcpiReport::FadtTimer {
                gpa: 0x3000,
                pm_tmr_blk: 0x608,
                x_pm_tmr_blk: 0xfed0_0608,
                pm_tmr_len: 4
            },
            AcpiReport::TableUnreadable { gpa: 0x4000 },
            AcpiReport::Table {
                signature: *b"APIC",
                gpa: 0x5000,
                length: 100
            },
        ]
    );
}

#[test]
fn unreadable_roots_end_the_walk() {
    assert_eq!(walk(&Guest(Vec::new())), vec![AcpiReport::RsdpUnreadable]);
    assert_eq!(
        walk(&Guest(vec![(0x1000, rsdp(0x2000))])),
        vec![
            AcpiReport::Rsdp,
            AcpiReport::XsdtUnreadable { xsdt_gpa: 0x2000 }
        ]
    );
    // The header is there, the entries are not.
    assert_eq!(
        walk(&Guest(vec![
            (0x1000, rsdp(0x2000)),
            (0x2000, header(b"XSDT", 44))
        ])),
        vec![
            AcpiReport::Rsdp,
            AcpiReport::XsdtHeader,
            AcpiReport::XsdtBodyUnreadable
        ]
    );
}

#[test]
fn root_table_lengths_are_checked() {
    for length in [0, 35, 40, 4097, 4108, u32::MAX] {
        let guest = Guest(vec![(0x1000, rsdp(0x2000)), (0x2000, header(b"XSDT", length))]);
        assert_eq!(
            walk(&guest)[1],
            AcpiReport::XsdtLengthInvalid {
                xsdt_gpa: 0x2000,
                length
            }
        );
    }
    let empty = Guest(vec![(0x1000, rsdp(0x2000)), (0x2000, xsdt(&[]))]);
    assert_eq!(
        walk(&empty)[2],
        AcpiReport::Snapshot {
            xsdt_gpa: 0x2000,
            length: 36
        }
    );
}

#[test]
fn short_or_unreadable_fixed_tables_give_no_timer() {
    let guest = Guest(vec![
        (0x1000, rsdp(0x2000)),
        (0x2000, xsdt(&[0x3000, 0x4000])),
        (0x3000, header(b"FACP", 219)),
        (0x4000, header(b"FACP", 220)),
    ]);
    assert_eq!(
        walk(&guest)[3..],
        [
            AcpiReport::Table {
                signature: *b"FACP",
                gpa: 0x3000,
                length: 219
            },
            AcpiReport::Table {
                signature: *b"FACP",
                gpa: 0x4000,
                length: 220
            },
            AcpiReport::FadtUnreadable,
        ]
    );
}
