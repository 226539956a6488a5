use axvisor::access::{AccessWidth, BusKind, DeviceAccess, DeviceError, DeviceVcpuId};
use axvisor::x86::addr::X86GuestPhysAddr;
use axvisor::x86::exit::{
    finish, io_write_result, is_tls_dxe_init_rip, merge_lanes, power_of_two,
    publishes_pic_interrupt, unmapped_port_value, DeferredAction, DeferredRunWork, IoReadExit,
    IoWriteExit, PortDiagnostics, StringIo, StringIoAction, StringIoEvent, TracedOperation,
};
use axvisor::x86::types::{X86AccessWidth, X86Port, X86PortIoDirection, X86PortIoStringExit};

const TRACED_RIP: u64 = 0x1e9b_9a94;

fn read_of(port: u16, width: AccessWidth, guest_rip: u64) -> IoReadExit {
    IoReadExit {
        port: X86Port::new(port),
        width,
        guest_rip,
    }
}

fn write_of(port: u16, width: AccessWidth, data: u64, guest_rip: u64) -> IoWriteExit {
    IoWriteExit {
        port: X86Port::new(port),
        width,
        data,
        guest_rip,
    }
}

#[test]
fn unmapped_ports_read_as_all_ones() {
    assert_eq!(unmapped_port_value(AccessWidth::Byte), 0xff);
    assert_eq!(unmapped_port_value(AccessWidth::Word), 0xffff);
    assert_eq!(unmapped_port_value(AccessWidth::Dword), 0xffff_ffff);
    assert_eq!(unmapped_port_value(AccessWidth::Qword), u64::MAX);
    let mut diagnostics = PortDiagnostics::new();
    let completion = diagnostics
        .handle_io_read(&read_of(0x1234, AccessWidth::Word, 0), Ok(None))
        .unwrap();
    assert_eq!(completion.value, 0xffff);
    assert!(!completion.mapped);
    assert_eq!(diagnostics, PortDiagnostics::new());
}

#[test]
fn device_answers_reach_the_guest() {
    let mut diagnostics = PortDiagnostics::new();
    let completion = diagnostics
        .handle_io_read(&read_of(0x60, AccessWidth::Byte, 0), Ok(Some(0x5a)))
        .unwrap();
    assert_eq!(completion.value, 0x5a);
    assert!(completion.mapped);
}

#[test]
fn failed_port_reads_count_for_nothing() {
    let mut diagnostics = PortDiagnostics::new();
    let failure = diagnostics
        .handle_io_read(
            &read_of(0x8, AccessWidth::Byte, 0),
            Err(DeviceError::NotFound),
        )
        .unwrap_err();
    assert_eq!(failure.operation, "read guest I/O port");
    assert_eq!(failure.error, DeviceError::NotFound);
    assert_eq!(diagnostics, PortDiagnostics::new());
}

#[test]
fn snapshot_is_asked_for_once() {
    let mut diagnostics = PortDiagnostics::new();
    let exit = read_of(0x8, AccessWidth::Byte, 0);
    let reports: Vec<(Option<u64>, bool)> = (0..4)
        .map(|_| {
            let completion = diagnostics.handle_io_read(&exit, Ok(None)).unwrap();
            (completion.port_8_report, completion.takes_snapshot)
        })
        .collect();
    assert_eq!(
        reports,
        vec![
            (Some(1), true),
            (Some(2), false),
            (None, false),
            (Some(4), false)
        ]
    );
}

#[test]
fn config_port_accesses_are_reported_up_to_the_limit() {
    let mut diagnostics = PortDiagnostics::new();
    let exit = read_of(0xcff, AccessWidth::Byte, 0);
    let reported = (0..300)
        .filter(|_| {
            diagnostics
                .handle_io_read(&exit, Ok(Some(0)))
                .unwrap()
                .pci_config_report
                .is_some()
        })
        .count();
    // The first 128 accesses, and number 256.
    assert_eq!(reported, 129);
    assert_eq!(
        diagnostics.log_pci_config_access(X86Port::new(0xd00)),
        None
    );
    assert_eq!(diagnostics.pci_config_accesses, 300);
    assert!(power_of_two(256) && !power_of_two(0) && !power_of_two(257));
}

#[test]
fn traced_accesses_name_the_selected_register() {
    let mut diagnostics = PortDiagnostics::new();
    assert!(is_tls_dxe_init_rip(TRACED_RIP));
    assert!(!is_tls_dxe_init_rip(0x1e9b_9b6b));
    let plan = diagnostics.handle_io_write(DeviceVcpuId::new(0), &write_of(
        0xcf8,
        AccessWidth::Dword,
        0x8000_f840,
        TRACED_RIP,
    ));
    let traced = plan.traced.unwrap();
    assert_eq!(traced.operation, TracedOperation::AddressWrite);
    assert_eq!((traced.count, traced.selector), (1, 0x8000_f840));
    assert!(traced.pm_selector);

    let completion = diagnostics
        .handle_io_read(
            &read_of(0xcfc, AccessWidth::Dword, TRACED_RIP),
            Ok(Some(0x601)),
        )
        .unwrap();
    let traced = completion.traced.unwrap();
    assert_eq!(traced.operation, TracedOperation::DataRead);
    assert_eq!((traced.count, traced.value, traced.mapped), (2, 0x601, true));
    assert_eq!(traced.selector, 0x8000_f840);
}

#[test]
fn partial_address_writes_merge_lanes() {
    let mut diagnostics = PortDiagnostics::new();
    diagnostics.handle_io_write(DeviceVcpuId::new(0), &write_of(0xcf8, AccessWidth::Dword, 0x8000_1234, 0));
    diagnostics.handle_io_write(DeviceVcpuId::new(0), &write_of(0xcf9, AccessWidth::Byte, 0x1ab, 0));
    assert_eq!(diagnostics.pci_config_address, 0x8000_ab34);
    diagnostics.handle_io_write(DeviceVcpuId::new(0), &write_of(0xcfa, AccessWidth::Word, 0x55, 0));
    assert_eq!(diagnostics.pci_config_address, 0x0055_ab34);
    // An access that leaves the register changes nothing, nor does the data port.
    diagnostics.handle_io_write(DeviceVcpuId::new(0), &write_of(0xcfb, AccessWidth::Word, 0xffff, 0));
    diagnostics.handle_io_write(DeviceVcpuId::new(0), &write_of(0xcfc, AccessWidth::Dword, 0xffff, 0));
    assert_eq!(diagnostics.pci_config_address, 0x0055_ab34);
    assert_eq!(merge_lanes(0x1122_3344, 1, 2, 0xaabb), 0x11aa_bb44);
}

#[test]
fn port_writes_are_planned() {
    let mut diagnostics = PortDiagnostics::new();
    let plan = diagnostics.handle_io_write(DeviceVcpuId::new(0), &write_of(0xa1, AccessWidth::Byte, 0xfe, 0));
    assert_eq!(
        plan.access,
        DeviceAccess::new(DeviceVcpuId::new(0), BusKind::Port, 0xa1, AccessWidth::Byte)
    );
    assert_eq!(plan.value, 0xfe);
    assert!(plan.publishes_pic);
    assert_eq!(plan.pci_config_report, None);
    assert!(publishes_pic_interrupt(X86Port::new(0x20)));
    assert!(!publishes_pic_interrupt(X86Port::new(0x22)));
    let failure = io_write_result(Err(DeviceError::NotFound)).unwrap_err();
    assert_eq!(failure.operation, "write guest I/O port");
    assert!(io_write_result(Ok(())).is_ok());
}

fn element(direction: X86PortIoDirection, port: u16, width: X86AccessWidth) -> StringIo {
    StringIo::new(DeviceVcpuId::new(0), X86PortIoStringExit {
        port: X86Port::new(port),
        width,
        direction,
        guest_paddr: X86GuestPhysAddr::from_usize(0x5000),
    })
}

#[test]
fn string_input_stores_the_answer() {
    let mut io = element(X86PortIoDirection::In, 0x1f0, X86AccessWidth::Word);
    let StringIoAction::ReadPort(access) = io.step(StringIoEvent::Begin) else {
        panic!("expected a port read");
    };
    assert_eq!(
        access,
        DeviceAccess::new(DeviceVcpuId::new(0), BusKind::Port, 0x1f0, AccessWidth::Word)
    );
    let StringIoAction::WriteGuest { address, bytes } =
        io.step(StringIoEvent::PortRead(Some(0x12345)))
    else {
        panic!("expected a guest write");
    };
    assert_eq!(address, X86GuestPhysAddr::from_usize(0x5000));
    assert_eq!(bytes, vec![0x45, 0x23]);
    assert!(matches!(
        io.step(StringIoEvent::Stored),
        StringIoAction::Complete
    ));
    assert_eq!(
        io.port_failure(DeviceError::NotFound).operation,
        "read guest string I/O port"
    );
}

#[test]
fn string_input_without_a_device_stores_ones() {
    let mut io = element(X86PortIoDirection::In, 0x1f0, X86AccessWidth::Dword);
    io.step(StringIoEvent::Begin);
    let StringIoAction::WriteGuest { bytes, .. } = io.step(StringIoEvent::PortRead(None)) else {
        panic!("expected a guest write");
    };
    assert_eq!(bytes, vec![0xff; 4]);
}

#[test]
fn string_output_publishes_interrupt_controller_writes() {
    let mut io = element(X86PortIoDirection::Out, 0x21, X86AccessWidth::Byte);
    let StringIoAction::ReadGuest { address, length } = io.step(StringIoEvent::Begin) else {
        panic!("expected a guest read");
    };
    assert_eq!(address, X86GuestPhysAddr::from_usize(0x5000));
    assert_eq!(length, 1);
    let StringIoAction::WritePort { value, .. } = io.step(StringIoEvent::GuestRead(vec![0xfb]))
    else {
        panic!("expected a port write");
    };
    assert_eq!(value, 0xfb);
    let StringIoAction::PublishPic { port, value } = io.step(StringIoEvent::Stored) else {
        panic!("expected a look at the interrupt controller");
    };
    assert_eq!((port.number(), value), (0x21, 0xfb));
    assert!(matches!(
        io.step(StringIoEvent::Stored),
        StringIoAction::Complete
    ));
    assert_eq!(
        io.port_failure(DeviceError::NotFound).operation,
        "write guest string I/O port"
    );
}

#[test]
fn string_output_to_other_ports_completes() {
    let mut io = element(X86PortIoDirection::Out, 0x402, X86AccessWidth::Dword);
    io.step(StringIoEvent::Begin);
    let StringIoAction::WritePort { value, .. } =
        io.step(StringIoEvent::GuestRead(vec![0x78, 0x56, 0x34, 0x12]))
    else {
        panic!("expected a port write");
    };
    assert_eq!(value, 0x1234_5678);
    assert!(matches!(
        io.step(StringIoEvent::Stored),
        StringIoAction::Complete
    ));
}

#[test]
fn deferred_work_leads_on() {
    let (action, run) = finish(DeferredRunWork::ExternalInterrupt { vector: 0x31 });
    assert_eq!(action, DeferredAction::HandleExternalInterrupt(0x31));
    assert!(!run.waits_for_event && !run.stops && !run.resets_vm && !run.exits_vcpu);
    assert_eq!(
        finish(DeferredRunWork::PreemptionTimer).0,
        DeferredAction::Nothing
    );
    assert_eq!(
        finish(DeferredRunWork::InterruptEnd { vector: Some(9) }).0,
        DeferredAction::InjectAfterEnd(9)
    );
    assert_eq!(
        finish(DeferredRunWork::InterruptEnd { vector: None }).0,
        DeferredAction::Nothing
    );
}

#[test]
fn port_read_names_port_and_virtual_processor() {
    let exit = IoReadExit {
        port: X86Port::new(0xcfc),
        width: AccessWidth::Word,
        guest_rip: 0,
    };
    assert_eq!(
        exit.access(DeviceVcpuId::new(3)),
        DeviceAccess::new(DeviceVcpuId::new(3), BusKind::Port, 0xcfc, AccessWidth::Word)
    );
}
