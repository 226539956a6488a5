use axvisor::access::{
    AccessWidth, BusKind, DeviceAccess, DeviceError, DeviceId, DeviceNodeId, DeviceResult,
    DeviceVcpuId, ResourceRequest,
};
use axvisor::pci::address::{ConfigOffset, PciBarIndex, PciBdf, PciSegment};
use axvisor::pci::binding::PciRootBinding;
use axvisor::pci::config::PciCommandState;
use axvisor::pci::capability::{
    PciCapabilityEffectAccess, PciCapabilityEffectRegion, PciCapabilityId, PciCapabilitySpec,
    PciConfigEffectId,
};
use axvisor::pci::bar::PciMemoryBar;
use axvisor::pci::effect::PciBarAccess;
use axvisor::pci::endpoint::{
    DeviceContext, PciEndpointCallbacks, PciEndpointContext, PciFunction, UnroutedContext,
};
use axvisor::pci::function::{PciClass, PciEndpointIdentity, PciFunctionSpec};
use axvisor::pci::root::PciRootState;
use axvisor::pci::routing::EndpointAdmissions;
use axvisor::pci::topology::PciTopologyBuilder;
use axvisor::x86::pci_config::{
    read_data_window, window_write_parts, write_data_window, ConfigWindow, PciMemoryApertureDevice, PciRootLifecycle,
    X86PciConfigFrontend, CONFIG_ADDRESS_PORT, CONFIG_DATA_PORT,
};

/// Endpoint that answers with where it was asked.
struct Echo;

impl PciFunction for Echo {
    fn intx_pending(&self) -> bool {
        true
    }

    fn has_resources(&self) -> bool {
        false
    }

    fn reset(&mut self, _command: PciCommandState) -> DeviceResult<()> {
        Ok(())
    }
}

impl<C: DeviceContext, E: PciEndpointContext> PciEndpointCallbacks<C, E> for Echo {
    fn read_bar(
        &self,
        access: PciBarAccess,
        _endpoint: &mut E,
        _context: &mut C,
    ) -> DeviceResult<u64> {
        Ok(access.offset())
    }

    fn write_bar(
        &self,
        access: PciBarAccess,
        _value: u64,
        _endpoint: &mut E,
        _context: &mut C,
    ) -> DeviceResult<()> {
        Err(DeviceError::OutOfRange {
            addr: access.offset(),
        })
    }
}

struct Machine {
    frontend: X86PciConfigFrontend,
    binding: PciRootBinding<Echo>,
    admissions: EndpointAdmissions,
}

fn node(id: &str) -> DeviceNodeId {
    DeviceNodeId::new(id).unwrap()
}

fn offset(value: u16) -> ConfigOffset {
    ConfigOffset::new(value).unwrap()
}

fn bdf(device: u8) -> PciBdf {
    PciBdf::new(PciSegment::new(0), 0, device, 0).unwrap()
}

fn machine(topology: PciTopologyBuilder, end: u64) -> Machine {
    let root = PciRootState::new(topology.resolve(0xc000_0000..end).unwrap());
    Machine {
        frontend: X86PciConfigFrontend::new(),
        binding: PciRootBinding::new(node("host"), root),
        admissions: EndpointAdmissions::new(),
    }
}

fn frontend() -> Machine {
    let mut topology = PciTopologyBuilder::new();
    let host = PciFunctionSpec::new(
        node("host"),
        PciEndpointIdentity::new(0x8086, 0x29c0, PciClass::new(0x06, 0, 0)),
    )
    .with_bdf(ResourceRequest::Fixed(bdf(0)));
    let lpc = PciFunctionSpec::new(
        node("lpc"),
        PciEndpointIdentity::new(0x8086, 0x2918, PciClass::new(0x06, 1, 0)),
    )
    .with_bdf(ResourceRequest::Fixed(bdf(0x1f)))
    .with_platform_config_byte(offset(0x0e), 0x80, 0)
    .unwrap()
    .with_platform_config_byte(offset(0x40), 1, 0x80)
    .unwrap()
    .with_platform_config_byte(offset(0x41), 0, 0xff)
    .unwrap()
    .with_platform_config_byte(offset(0x44), 0, 0x87)
    .unwrap();
    topology.add_function(host).unwrap();
    topology.add_function(lpc).unwrap();
    machine(topology, 0xd000_0000)
}

fn access(port: u16, width: AccessWidth) -> DeviceAccess {
    DeviceAccess::new(DeviceVcpuId::new(0), BusKind::Port, u64::from(port), width)
}

fn try_read(machine: &mut Machine, port: u16, width: AccessWidth) -> DeviceResult<u64> {
    machine.frontend.read(
        &access(port, width),
        &machine.binding,
        &mut machine.admissions,
        &mut UnroutedContext {},
    )
}

fn try_write(machine: &mut Machine, port: u16, width: AccessWidth, value: u64) -> DeviceResult<()> {
    machine.frontend.write(
        &access(port, width),
        value,
        &mut machine.binding,
        &mut machine.admissions,
        &mut UnroutedContext {},
    )
}

fn write(machine: &mut Machine, port: u16, width: AccessWidth, value: u64) {
    try_write(machine, port, width, value).unwrap();
}

fn read(machine: &mut Machine, port: u16, width: AccessWidth) -> u64 {
    try_read(machine, port, width).unwrap()
}

#[test]
fn generic_root_preserves_q35_identity_and_lpc_pm_fields() {
    let mut machine = frontend();
    write(
        &mut machine,
        CONFIG_ADDRESS_PORT,
        AccessWidth::Dword,
        0x8000_0000,
    );
    assert_eq!(
        read(&mut machine, CONFIG_DATA_PORT, AccessWidth::Dword),
        0x29c0_8086
    );

    write(
        &mut machine,
        CONFIG_ADDRESS_PORT,
        AccessWidth::Dword,
        0x8000_f840,
    );
    write(&mut machine, CONFIG_DATA_PORT, AccessWidth::Dword, 0x601);
    assert_eq!(
        read(&mut machine, CONFIG_DATA_PORT, AccessWidth::Dword),
        0x601
    );

    write(
        &mut machine,
        CONFIG_ADDRESS_PORT,
        AccessWidth::Dword,
        0x8000_f844,
    );
    write(&mut machine, CONFIG_DATA_PORT, AccessWidth::Byte, 0x80);
    assert_eq!(read(&mut machine, CONFIG_DATA_PORT, AccessWidth::Byte), 0x80);

    write(
        &mut machine,
        CONFIG_ADDRESS_PORT,
        AccessWidth::Dword,
        0x8000_0800,
    );
    assert_eq!(
        read(&mut machine, CONFIG_DATA_PORT, AccessWidth::Dword),
        u32::MAX.into()
    );
}

#[test]
fn qword_data_port_access_is_rejected_as_unsupported() {
    let mut machine = frontend();
    let error = try_read(&mut machine, CONFIG_DATA_PORT, AccessWidth::Qword).unwrap_err();
    assert!(matches!(error, DeviceError::Unsupported { .. }));
}

#[test]
fn cross_window_data_port_accesses_return_structured_errors() {
    let mut machine = frontend();
    write(
        &mut machine,
        CONFIG_ADDRESS_PORT,
        AccessWidth::Dword,
        0x8000_0000,
    );
    for port in [CONFIG_DATA_PORT + 2, CONFIG_DATA_PORT + 3] {
        let read_error = try_read(&mut machine, port, AccessWidth::Dword).unwrap_err();
        assert!(matches!(read_error, DeviceError::OutOfRange { .. }));
        let write_error = try_write(&mut machine, port, AccessWidth::Dword, 0).unwrap_err();
        assert!(matches!(write_error, DeviceError::OutOfRange { .. }));
    }
}

#[test]
fn unaligned_word_access_merges_config_bytes_like_the_legacy_frontend() {
    let mut machine = frontend();
    write(
        &mut machine,
        CONFIG_ADDRESS_PORT,
        AccessWidth::Dword,
        0x8000_0000,
    );
    assert_eq!(
        read(&mut machine, CONFIG_DATA_PORT + 1, AccessWidth::Word),
        0xc080
    );

    write(
        &mut machine,
        CONFIG_ADDRESS_PORT,
        AccessWidth::Dword,
        0x8000_0004,
    );
    write(&mut machine, CONFIG_DATA_PORT + 1, AccessWidth::Word, 0xffff);
    assert_eq!(
        read(&mut machine, CONFIG_DATA_PORT + 1, AccessWidth::Word),
        0x04
    );
    write(
        &mut machine,
        CONFIG_ADDRESS_PORT,
        AccessWidth::Dword,
        0x8000_0004,
    );
    assert_eq!(read(&mut machine, CONFIG_DATA_PORT, AccessWidth::Byte), 0);
}

#[test]
fn unaligned_data_window_access_rejects_a_config_effect_before_lane_split() {
    let effect = PciCapabilityEffectRegion::new(
        PciConfigEffectId::new(1),
        5,
        2,
        PciCapabilityEffectAccess::ReadWrite,
    )
    .unwrap();
    let capability = PciCapabilitySpec::new(PciCapabilityId::new(9), vec![0; 7], vec![0; 7])
        .unwrap()
        .with_effect(effect)
        .unwrap();
    let function = PciFunctionSpec::new(
        node("effect-endpoint"),
        PciEndpointIdentity::new(0x1af4, 0x1041, PciClass::new(0xff, 0, 0)),
    )
    .with_bdf(ResourceRequest::Fixed(bdf(1)))
    .with_capability(capability);
    let mut topology = PciTopologyBuilder::new();
    topology.add_function(function).unwrap();
    let mut machine = machine(topology, 0xc100_0000);
    let window = ConfigWindow {
        bdf: bdf(1),
        register: offset(0x45),
        data_offset: 1,
        size: 2,
        width: AccessWidth::Word,
    };

    assert!(matches!(
        read_data_window(
            &machine.binding,
            window,
            &mut machine.admissions,
            &mut UnroutedContext {}
        ),
        Err(DeviceError::InvalidInput { .. })
    ));
    assert!(matches!(
        write_data_window(
            &mut machine.binding,
            window,
            0,
            &mut machine.admissions,
            &mut UnroutedContext {}
        ),
        Err(DeviceError::InvalidInput { .. })
    ));
}

#[test]
fn address_latch_reads_back_in_parts() {
    let mut machine = frontend();
    write(
        &mut machine,
        CONFIG_ADDRESS_PORT,
        AccessWidth::Dword,
        0x8000_f840,
    );
    assert_eq!(
        read(&mut machine, CONFIG_ADDRESS_PORT, AccessWidth::Dword),
        0x8000_f840
    );
    write(&mut machine, CONFIG_ADDRESS_PORT, AccessWidth::Byte, 0x44);
    assert_eq!(
        read(&mut machine, CONFIG_ADDRESS_PORT, AccessWidth::Word),
        0xf844
    );
}

#[test]
fn disabled_latch_reads_all_ones_and_drops_writes() {
    let mut machine = frontend();
    write(&mut machine, CONFIG_ADDRESS_PORT, AccessWidth::Dword, 0xf840);
    assert_eq!(
        read(&mut machine, CONFIG_DATA_PORT, AccessWidth::Word),
        0xffff
    );
    write(&mut machine, CONFIG_DATA_PORT, AccessWidth::Word, 0);
}

#[test]
fn foreign_buses_are_rejected() {
    let machine = frontend();
    let access = DeviceAccess::new(DeviceVcpuId::new(0), BusKind::Mmio, 0xcf8, AccessWidth::Dword);
    assert!(machine.frontend.decode_read(&access).is_err());
}

#[test]
fn aperture_accesses_without_a_route_read_all_ones() {
    assert_eq!(
        PciMemoryApertureDevice::complete_read(AccessWidth::Word, Err(DeviceError::NotFound)),
        Ok(0xffff)
    );
    assert_eq!(
        PciMemoryApertureDevice::complete_write(Err(DeviceError::NotFound)),
        Ok(())
    );
    assert_eq!(
        PciMemoryApertureDevice::complete_read(AccessWidth::Word, Ok(0x12)),
        Ok(0x12)
    );
}

#[test]
fn aperture_routes_to_the_endpoint_behind_a_bar() {
    let function = PciFunctionSpec::new(
        node("echo"),
        PciEndpointIdentity::new(0x1af4, 0x1041, PciClass::new(0xff, 0, 0)),
    )
    .with_bdf(ResourceRequest::Fixed(bdf(1)))
    .with_intx()
    .with_bar(PciMemoryBar::new(PciBarIndex::new(0).unwrap(), 0x1000).unwrap())
    .unwrap();
    let mut topology = PciTopologyBuilder::new();
    topology.add_function(function).unwrap();
    let mut machine = machine(topology, 0xc100_0000);
    machine
        .binding
        .bind_registered(
            &node("echo"),
            DeviceId::new(3),
            Echo,
            &mut Vec::new(),
            &mut machine.admissions,
        )
        .unwrap();
    write(
        &mut machine,
        CONFIG_ADDRESS_PORT,
        AccessWidth::Dword,
        0x8000_0804,
    );
    write(&mut machine, CONFIG_DATA_PORT, AccessWidth::Word, 2);
    // Bytes 5 and 6: high byte of the command, low byte of the status with the
    // endpoint's interrupt bit.
    assert_eq!(
        read(&mut machine, CONFIG_DATA_PORT + 1, AccessWidth::Word) & 0x08ff,
        0x0800
    );

    let aperture = PciMemoryApertureDevice::new(0xc000_0000, 0x100_0000);
    let at = |address| DeviceAccess::new(DeviceVcpuId::new(0), BusKind::Mmio, address, AccessWidth::Dword);
    assert_eq!(
        aperture.read(
            &at(0xc000_0040),
            &machine.binding,
            &mut machine.admissions,
            &mut UnroutedContext {}
        ),
        Ok(0x40)
    );
    assert_eq!(
        aperture.write(
            &at(0xc000_0044),
            7,
            &machine.binding,
            &mut machine.admissions,
            &mut UnroutedContext {}
        ),
        Err(DeviceError::OutOfRange { addr: 0x44 })
    );
    // Nobody answers behind the BAR.
    assert_eq!(
        aperture.read(
            &at(0xc000_2000),
            &machine.binding,
            &mut machine.admissions,
            &mut UnroutedContext {}
        ),
        Ok(0xffff_ffff)
    );
    assert_eq!(
        aperture.write(
            &at(0xc000_2000),
            7,
            &machine.binding,
            &mut machine.admissions,
            &mut UnroutedContext {}
        ),
        Ok(())
    );

    let lifecycle = PciRootLifecycle {};
    lifecycle
        .reset(&mut machine.binding, &mut machine.admissions)
        .unwrap();
    assert_eq!(
        read(&mut machine, CONFIG_DATA_PORT, AccessWidth::Word),
        0
    );
    assert!(lifecycle.suspend().is_ok() && lifecycle.resume().is_ok());
}

#[test]
fn data_window_writes_come_in_parts() {
    let machine = frontend();
    let window = |data_offset: usize, width: AccessWidth| ConfigWindow {
        bdf: bdf(0x1f),
        register: offset(0x40 + data_offset as u16),
        data_offset,
        size: width.size(),
        width,
    };
    let aligned = window(2, AccessWidth::Word);
    assert_eq!(window_write_parts(&machine.binding, aligned), Ok(1));
    let whole = aligned.part(0x1234, 0);
    assert_eq!(whole.register, offset(0x42));
    assert_eq!(whole.width, AccessWidth::Word);
    assert_eq!(whole.value, 0x1234);

    let unaligned = window(1, AccessWidth::Word);
    assert_eq!(window_write_parts(&machine.binding, unaligned), Ok(2));
    let high = unaligned.part(0x1234, 1);
    assert_eq!(high.register, offset(0x42));
    assert_eq!(high.width, AccessWidth::Byte);
    assert_eq!(high.value, 0x12);
    assert_eq!(unaligned.part(0x1234, 0).value, 0x34);
}

#[test]
fn aperture_takes_memory_accesses_only() {
    assert_eq!(
        PciMemoryApertureDevice::check_bus(&access(0xcf8, AccessWidth::Byte)),
        Err(DeviceError::OutOfRange { addr: 0xcf8 })
    );
    let memory = DeviceAccess::new(
        DeviceVcpuId::new(0),
        BusKind::Mmio,
        0xc000_0000,
        AccessWidth::Dword,
    );
    assert_eq!(PciMemoryApertureDevice::check_bus(&memory), Ok(()));
}
