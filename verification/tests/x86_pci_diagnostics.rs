use axvisor::access::{AccessWidth, BusKind, DeviceAccess, DeviceVcpuId};
use axvisor::x86::pci_config::{X86PciConfigFrontend, CONFIG_ADDRESS_PORT, CONFIG_DATA_PORT};
use axvisor::x86::pci_diagnostics::{sample, ApertureCounters, ConfigPortCounters, LatchFields};

fn port(number: u16, width: AccessWidth) -> DeviceAccess {
    DeviceAccess::new(
        DeviceVcpuId::new(0),
        BusKind::Port,
        u64::from(number),
        width,
    )
}

fn memory(address: u64) -> DeviceAccess {
    DeviceAccess::new(
        DeviceVcpuId::new(0),
        BusKind::Mmio,
        address,
        AccessWidth::Dword,
    )
}

#[test]
fn first_accesses_and_powers_of_two_are_sampled() {
    let mut count = 0;
    let mut reported = Vec::new();
    for _ in 0..1100 {
        reported.extend(sample(&mut count));
    }
    assert_eq!(count, 1100);
    let expected: Vec<u64> = (1..=128).chain([256, 512, 1024]).collect();
    assert_eq!(reported, expected);

    count = u64::MAX - 1;
    assert_eq!(sample(&mut count), None);
    assert_eq!(count, u64::MAX);
    assert_eq!(sample(&mut count), Some(0));
}

#[test]
fn latch_writes_are_counted_when_they_are_taken() {
    let mut frontend = X86PciConfigFrontend::new();
    let mut counters = ConfigPortCounters::new();
    let access = port(CONFIG_ADDRESS_PORT, AccessWidth::Dword);
    let decoded = frontend.decode_write(&access, 0x8001_0a44);
    let report = counters.note_write(&access, &decoded);
    assert_eq!(report.sample, Some(1));
    assert_eq!(report.endpoint, None);
    let fields = LatchFields::of(frontend.address);
    assert_eq!(
        fields,
        LatchFields {
            enabled: true,
            bus: 1,
            device: 1,
            function: 2,
            register: 0x44,
        }
    );
    assert!(!LatchFields::of(0x7fff_ffff).enabled);
    assert_eq!(LatchFields::of(0x7fff_ffff).register, 0xfc);

    let across = port(CONFIG_ADDRESS_PORT + 2, AccessWidth::Dword);
    let refused = frontend.decode_write(&across, 1);
    assert!(refused.is_err());
    assert_eq!(counters.note_write(&across, &refused).sample, None);
    assert_eq!(counters.address_writes, 1);
    let read = frontend.decode_read(&access);
    assert_eq!(counters.note_read(&access, &read).sample, None);
    assert_eq!(counters.data_reads, 0);
}

#[test]
fn data_accesses_are_counted_and_the_first_endpoint_is_followed() {
    let mut frontend = X86PciConfigFrontend::new();
    let mut counters = ConfigPortCounters::new();
    let data = port(CONFIG_DATA_PORT, AccessWidth::Dword);

    // Nothing is selected yet.
    let decoded = frontend.decode_read(&data);
    let report = counters.note_read(&data, &decoded);
    assert_eq!((report.sample, report.endpoint), (Some(1), None));

    // Device 1, function 0, register 0x10.
    frontend.address = 0x8000_0810;
    let decoded = frontend.decode_read(&data);
    let report = counters.note_read(&data, &decoded);
    assert_eq!(report.sample, Some(2));
    let window = report.endpoint.unwrap();
    assert_eq!(window.bdf.device(), 1);
    assert_eq!(window.bdf.function(), 0);
    assert_eq!(window.register.value(), 0x10);
    let decoded = frontend.decode_write(&data, 7);
    let report = counters.note_write(&data, &decoded);
    assert_eq!(report.sample, Some(1));
    assert_eq!(report.endpoint, Some(window));

    // Device 1, function 1 and device 2, function 0 are not followed.
    for address in [0x8000_0910, 0x8000_1010] {
        frontend.address = address;
        let decoded = frontend.decode_write(&data, 7);
        assert_eq!(counters.note_write(&data, &decoded).endpoint, None);
        let decoded = frontend.decode_read(&data);
        assert_eq!(counters.note_read(&data, &decoded).endpoint, None);
    }
    assert_eq!((counters.data_reads, counters.data_writes), (4, 3));

    // An access that leaves the window is counted and not reported.
    let across = port(CONFIG_DATA_PORT + 2, AccessWidth::Dword);
    let refused = frontend.decode_read(&across);
    assert!(refused.is_err());
    assert_eq!(counters.note_read(&across, &refused).sample, None);
    let refused = frontend.decode_write(&across, 0);
    assert_eq!(counters.note_write(&across, &refused).sample, None);
    assert_eq!((counters.data_reads, counters.data_writes), (5, 4));

    // Accesses elsewhere are not counted.
    let elsewhere = port(CONFIG_DATA_PORT + 4, AccessWidth::Byte);
    let refused = frontend.decode_read(&elsewhere);
    counters.note_read(&elsewhere, &refused);
    let refused = frontend.decode_read(&memory(0xcfc));
    counters.note_read(&memory(0xcfc), &refused);
    assert_eq!((counters.data_reads, counters.data_writes), (5, 4));
}

#[test]
fn aperture_accesses_are_counted_apart() {
    let mut counters = ApertureCounters::new();
    assert_eq!(counters.note_read(&memory(0xc000_0000)), Some(1));
    assert_eq!(counters.note_read(&memory(0xc000_0000)), Some(2));
    assert_eq!(counters.note_write(&memory(0xc000_0000)), Some(1));
    assert_eq!(counters.note_read(&port(0xcfc, AccessWidth::Byte)), None);
    assert_eq!(counters.note_write(&port(0xcfc, AccessWidth::Byte)), None);
    assert_eq!(counters, ApertureCounters { reads: 2, writes: 1 });
    counters.reads = 128;
    assert_eq!(counters.note_read(&memory(0xc000_0000)), None);
    counters.reads = 255;
    assert_eq!(counters.note_read(&memory(0xc000_0000)), Some(256));
}
