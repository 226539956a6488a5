//! What a guest sees at the configuration ports, and what its port accesses ask for.

#[allow(unused_imports)]
use crate::access::{AccessWidth, DeviceAccess, DeviceError, DeviceResult, DeviceVcpuId};
#[allow(unused_imports)]
use crate::bytes::{law_byte_lanes, law_bytes_are_little_endian, le_bytes, lemma_lane_scale_values};
#[allow(unused_imports)]
use crate::pci::root_laws::{byte_of, register_after};
#[allow(unused_imports)]
use crate::x86::exit::{
    unmapped_port_value, ExitError, IoReadCompletion, IoReadExit, IoWriteExit, IoWritePlan,
    PortDiagnostics, StringIo, StringIoAction, StringIoEvent,
};
#[allow(unused_imports)]
use crate::x86::pci_config::{
    ConfigPortRead, ConfigPortWrite, ConfigWindow, PciMemoryApertureDevice, WindowPart,
    X86PciConfigFrontend,
};
#[allow(unused_imports)]
use crate::x86::types::X86AccessWidth;
use vstd::prelude::*;

verus! {

/// All ones in the bytes that an access covers.
pub open spec fn ones(width: AccessWidth) -> int {
    match width {
        AccessWidth::Byte => 0xff,
        AccessWidth::Word => 0xffff,
        AccessWidth::Dword => 0xffff_ffff,
        AccessWidth::Qword => 0xffff_ffff_ffff_ffff,
    }
}

/// Number of bytes that an access covers.
pub open spec fn length(width: AccessWidth) -> int {
    match width {
        AccessWidth::Byte => 1,
        AccessWidth::Word => 2,
        AccessWidth::Dword => 4,
        AccessWidth::Qword => 8,
    }
}

/// The part of the latch that an access from lane `lane` on reads.
pub open spec fn latch_part(address: u32, lane: int, width: AccessWidth) -> int {
    match width {
        AccessWidth::Byte => byte_of(address as int, lane),
        AccessWidth::Word => byte_of(address as int, lane) + 0x100 * byte_of(
            address as int,
            lane + 1,
        ),
        _ => address as int,
    }
}

/// The function and the register that the latch selects: bits 31 to 0 are the enable bit, seven
/// reserved bits, the bus, the device, the function and the register, whose low two bits come from the
/// data port.
pub open spec fn is_selected(address: u32, lane: int, window: ConfigWindow) -> bool {
    &&& window.bdf.segment.0 == 0
    &&& window.bdf.bus == address as int / 0x1_0000 % 0x100
    &&& window.bdf.device == address as int / 0x800 % 0x20
    &&& window.bdf.function == address as int / 0x100 % 8
    &&& window.register.0 == address as int % 0x100 / 4 * 4 + lane
    &&& window.data_offset == lane
}

/// The ports from 0xcf8 on read the latch, those from 0xcfc on the selected register, or all ones
/// where the latch is not enabled; other ports, other buses and quadwords are not answered.
pub proof fn law_config_ports_are_read(
    frontend: X86PciConfigFrontend,
    access: DeviceAccess,
    result: DeviceResult<ConfigPortRead>,
)
    requires
        call_ensures(X86PciConfigFrontend::decode_read, (&frontend, &access), result),
    ensures
        ({
            let port = access.address as int;
            let size = length(access.width);
            let taken = access.bus is Port && !(access.width is Qword);
            let latch = taken && 0xcf8 <= port && port + size <= 0xcfc;
            let data = taken && 0xcfc <= port && port + size <= 0xd00;
            let enabled = frontend.address >= 0x8000_0000;
            &&& latch ==> (result matches Ok(ConfigPortRead::Value(value)) && value == latch_part(
                frontend.address,
                port - 0xcf8,
                access.width,
            ))
            &&& data && !enabled ==> (result matches Ok(ConfigPortRead::Value(value)) && value
                == ones(access.width))
            &&& data && enabled ==> (result matches Ok(ConfigPortRead::Window(window))
                && is_selected(frontend.address, port - 0xcfc, window) && window.size == size
                && window.width == access.width)
            &&& !latch && !data && (enabled || !(0xcfc <= port < 0xd00)) ==> result is Err
            &&& access.bus is Port && access.width is Qword ==> (result matches Err(
                DeviceError::Unsupported { .. },
            ))
            &&& !(access.bus is Port) ==> result == Err::<ConfigPortRead, _>(
                DeviceError::OutOfRange { addr: access.address },
            )
        }),
{
    lemma_lane_scale_values();
    law_byte_lanes(frontend.address as nat);
    let port = access.address as int;
    let size = access.width.bytes() as int;
    if 0xcf8 <= port && port + size <= 0xcfc && access.bus is Port && !(access.width is Qword) {
        let part = le_bytes(frontend.address as nat, 4).subrange(port - 0xcf8, port - 0xcf8 + size);
        law_bytes_are_little_endian(part);
    }
}

/// A write to the ports from 0xcf8 on replaces lanes of the latch; one to those from 0xcfc on goes to
/// the selected register, or nowhere where the latch is not enabled. Nothing but the former changes
/// the latch.
pub proof fn law_config_ports_are_written(
    frontend: &mut X86PciConfigFrontend,
    access: DeviceAccess,
    value: u64,
    result: DeviceResult<ConfigPortWrite>,
)
    requires
        call_ensures(X86PciConfigFrontend::decode_write, (frontend, &access, value), result),
    ensures
        ({
            let port = access.address as int;
            let size = length(access.width);
            let taken = access.bus is Port && !(access.width is Qword);
            let latch = taken && 0xcf8 <= port && port + size <= 0xcfc;
            let data = taken && 0xcfc <= port && port + size <= 0xd00;
            let enabled = old(frontend).address >= 0x8000_0000;
            &&& latch ==> result == Ok::<_, DeviceError>(ConfigPortWrite::Complete) && final(
                frontend).address == register_after(
                old(frontend).address as int,
                value as int,
                port - 0xcf8,
                size,
            )
            &&& !latch ==> final(frontend).address == old(frontend).address
            &&& data && !enabled ==> result == Ok::<_, DeviceError>(ConfigPortWrite::Complete)
            &&& data && enabled ==> (result matches Ok(ConfigPortWrite::Window(window))
                && is_selected(old(frontend).address, port - 0xcfc, window) && window.size == size
                && window.width == access.width)
            &&& !latch && !data && (enabled || !(0xcfc <= port < 0xd00)) ==> result is Err
        }),
{
    let port = access.address as int;
    let size = access.width.bytes() as int;
    if 0xcf8 <= port && port + size <= 0xcfc && access.bus is Port && !(access.width is Qword) {
        crate::pci::root_laws::lemma_merged(
            old(frontend).address as nat,
            port - 0xcf8,
            size,
            value,
        );
    }
}

/// A new latch is disabled.
pub proof fn law_latch_starts_disabled(
    frontend: X86PciConfigFrontend,
    access: DeviceAccess,
    result: DeviceResult<ConfigPortRead>,
)
    requires
        call_ensures(X86PciConfigFrontend::new, (), frontend),
        call_ensures(X86PciConfigFrontend::decode_read, (&frontend, &access), result),
        access.bus is Port,
        access.address == 0xcfc,
        access.width is Dword,
    ensures
        result == Ok::<_, DeviceError>(ConfigPortRead::Value(0xffff_ffff)),
{
    law_config_ports_are_read(frontend, access, result);
}

/// A write that is not aligned in its register goes through byte by byte, lowest byte first; an
/// aligned one goes through whole.
pub proof fn law_unaligned_write_goes_by_bytes(
    window: ConfigWindow,
    value: u64,
    index: usize,
    part: WindowPart,
)
    requires
        window.wf(),
        index < window.size,
        call_ensures(ConfigWindow::part, (&window, value, index), part),
    ensures
        window.register.0 as int % window.size as int == 0 ==> part.register == window.register
            && part.width == window.width && part.value == value,
        window.register.0 as int % window.size as int != 0 ==> part.register.0 == window.register.0
            + index && part.width is Byte && part.value == byte_of(value as int, index as int),
{
    law_byte_lanes(value as nat);
    let at = window.register.0 as int;
    if window.size == 1 {
        assert(at % 1 == 0);
        assert(window.data_offset as int % 1 == 0);
    }
    if window.size == 2 {
        assert(at % 2 == window.data_offset as int % 2);
    }
    if window.size == 4 {
        assert(at % 4 == window.data_offset as int % 4);
    }
}

/// Memory that no BAR answers reads as all ones, and takes writes without keeping them; every other
/// answer is passed on.
pub proof fn law_unanswered_memory_reads_all_ones(
    width: AccessWidth,
    outcome: DeviceResult<u64>,
    result: DeviceResult<u64>,
    written: DeviceResult<()>,
    completed: DeviceResult<()>,
)
    requires
        call_ensures(PciMemoryApertureDevice::complete_read, (width, outcome), result),
        call_ensures(PciMemoryApertureDevice::complete_write, (written,), completed),
    ensures
        outcome matches Err(DeviceError::NotFound) ==> (result matches Ok(value) && value == ones(
            width,
        )),
        !(outcome matches Err(DeviceError::NotFound)) ==> result == outcome,
        written matches Err(DeviceError::NotFound) ==> completed is Ok,
        !(written matches Err(DeviceError::NotFound)) ==> completed == written,
{
    lemma_lane_scale_values();
}

/// A port that no device answers reads as all ones.
pub proof fn law_unmapped_port_reads_all_ones(width: AccessWidth, value: u64)
    requires
        call_ensures(unmapped_port_value, (width,), value),
    ensures
        value == ones(width),
{
    lemma_lane_scale_values();
}

/// A port read gives the guest what the device answered, or all ones where none did; a failure is
/// passed on and counts for nothing.
pub proof fn law_port_read_gives_the_answer(
    diagnostics: &mut PortDiagnostics,
    exit: IoReadExit,
    answer: Result<Option<u64>, DeviceError>,
    completion: Result<IoReadCompletion, ExitError>,
)
    requires
        call_ensures(
            PortDiagnostics::handle_io_read,
            (diagnostics, &exit, answer),
            completion,
        ),
    ensures
        answer matches Ok(Some(value)) ==> (completion matches Ok(done) && done.value == value
            && done.mapped),
        answer matches Ok(None) ==> (completion matches Ok(done) && done.value == ones(exit.width)
            && !done.mapped),
        answer matches Err(error) ==> (completion matches Err(failure) && failure.error == error)
            && *final(diagnostics) == *old(diagnostics),
        answer is Ok && exit.port.0 == 8 && old(diagnostics).port_8_reads < u64::MAX ==> final(
            diagnostics).port_8_reads == old(diagnostics).port_8_reads + 1,
        answer is Ok && exit.port.0 == 8 && old(diagnostics).port_8_reads == 0 ==> final(
            diagnostics).snapshot_taken && (completion matches Ok(done) && done.takes_snapshot
            == !old(diagnostics).snapshot_taken),
        exit.port.0 != 8 ==> final(diagnostics).port_8_reads == old(diagnostics).port_8_reads
            && final(diagnostics).snapshot_taken == old(diagnostics).snapshot_taken,
        answer is Ok && 0xcf8 <= exit.port.0 <= 0xcff && old(diagnostics).pci_config_accesses
            < u64::MAX ==> final(diagnostics).pci_config_accesses == old(
            diagnostics).pci_config_accesses + 1,
        answer is Ok && 0xcf8 <= exit.port.0 <= 0xcff && old(diagnostics).pci_config_accesses < 128
            ==> (completion matches Ok(done) && done.pci_config_report == Some(
            (old(diagnostics).pci_config_accesses + 1) as u64,
        )),
        !(0xcf8 <= exit.port.0 <= 0xcff) ==> final(diagnostics).pci_config_accesses == old(
            diagnostics).pci_config_accesses,
        final(diagnostics).pci_config_address == old(diagnostics).pci_config_address,
{
    lemma_lane_scale_values();
}

/// A port write asks the device at the port, with the width and the data of the guest; a write to an
/// interrupt controller has its pending line published.
pub proof fn law_port_write_asks_the_device(
    diagnostics: &mut PortDiagnostics,
    vcpu: DeviceVcpuId,
    exit: IoWriteExit,
    plan: IoWritePlan,
)
    requires
        call_ensures(
            PortDiagnostics::handle_io_write,
            (diagnostics, vcpu, &exit),
            plan,
        ),
    ensures
        plan.access.vcpu == vcpu,
        plan.access.bus is Port,
        plan.access.address == exit.port.0,
        plan.access.width == exit.width,
        plan.value == exit.data,
        plan.publishes_pic <==> exit.port.0 == 0x20 || exit.port.0 == 0x21 || exit.port.0 == 0xa0
            || exit.port.0 == 0xa1,
        final(diagnostics).port_8_reads == old(diagnostics).port_8_reads,
        final(diagnostics).snapshot_taken == old(diagnostics).snapshot_taken,
        !(0xcf8 <= exit.port.0 < 0xcfc) ==> final(diagnostics).pci_config_address == old(
            diagnostics).pci_config_address,
{
}

/// A string input reads the port once and stores what it said, little-endian, at the address of the
/// guest, as many bytes as the access covers.
pub proof fn law_string_input_stores_the_port(
    begin: &mut StringIo,
    fetch: &mut StringIo,
    store: &mut StringIo,
    answer: Option<u64>,
    asks: StringIoAction,
    stores: StringIoAction,
    ends: StringIoAction,
    lane: int,
)
    requires
        old(begin).stage is Start,
        old(begin).exit.direction is In,
        call_ensures(StringIo::step, (begin, StringIoEvent::Begin), asks),
        *old(fetch) == *final(begin),
        call_ensures(StringIo::step, (fetch, StringIoEvent::PortRead(answer)), stores),
        *old(store) == *final(fetch),
        call_ensures(StringIo::step, (store, StringIoEvent::Stored), ends),
    ensures
        asks matches StringIoAction::ReadPort(access) && access.bus is Port && access.address
            == old(begin).exit.port.0 && access.vcpu == old(begin).vcpu && length(access.width)
            == width_of(old(begin).exit.width),
        stores matches StringIoAction::WriteGuest { address, bytes } && address == old(
            begin).exit.guest_paddr && bytes@.len() == width_of(old(begin).exit.width),
        answer is Some && 0 <= lane < stores->bytes@.len() && lane < 4 ==> stores->bytes@[lane]
            == byte_of(answer->0 as int, lane),
        answer is None && 0 <= lane < stores->bytes@.len() && lane < 4 ==> stores->bytes@[lane]
            == 0xff,
        ends is Complete,
        final(store).stage is Done,
{
    lemma_lane_scale_values();
    match answer {
        Some(value) => law_byte_lanes(value as nat),
        None => {
            law_byte_lanes(0xff);
            law_byte_lanes(0xffff);
            law_byte_lanes(0xffff_ffff);
            law_byte_lanes(0xffff_ffff_ffff_ffff);
        },
    }
}

/// Number of bytes that an access of the guest covers.
pub open spec fn width_of(width: X86AccessWidth) -> int {
    match width {
        X86AccessWidth::Byte => 1,
        X86AccessWidth::Word => 2,
        X86AccessWidth::Dword => 4,
        X86AccessWidth::Qword => 8,
    }
}

/// A string output fetches as many bytes from the guest as the access covers, writes the value that
/// they make to the port, and has the pending line published where the port is that of an interrupt
/// controller.
pub proof fn law_string_output_writes_the_port(
    begin: &mut StringIo,
    fetch: &mut StringIo,
    store: &mut StringIo,
    bytes: Vec<u8>,
    asks: StringIoAction,
    writes: StringIoAction,
    ends: StringIoAction,
)
    requires
        old(begin).stage is Start,
        old(begin).exit.direction is Out,
        call_ensures(StringIo::step, (begin, StringIoEvent::Begin), asks),
        *old(fetch) == *final(begin),
        bytes@.len() == width_of(old(begin).exit.width),
        call_ensures(StringIo::step, (fetch, StringIoEvent::GuestRead(bytes)), writes),
        *old(store) == *final(fetch),
        call_ensures(StringIo::step, (store, StringIoEvent::Stored), ends),
    ensures
        asks == (StringIoAction::ReadGuest {
            address: old(begin).exit.guest_paddr,
            length: bytes@.len() as usize,
        }),
        writes matches StringIoAction::WritePort { access, .. } && access.bus is Port
            && access.address == old(begin).exit.port.0 && access.vcpu == old(begin).vcpu && length(
            access.width,
        ) == bytes@.len(),
        bytes@.len() == 1 ==> writes->WritePort_value == bytes@[0],
        bytes@.len() == 2 ==> writes->WritePort_value == bytes@[0] + 0x100 * bytes@[1],
        bytes@.len() == 4 ==> writes->WritePort_value == bytes@[0] + 0x100 * bytes@[1] + 0x1_0000
            * bytes@[2] + 0x100_0000 * bytes@[3],
        ({
            let port = old(begin).exit.port.0;
            let controller = port == 0x20 || port == 0x21 || port == 0xa0 || port == 0xa1;
            &&& !controller ==> ends is Complete && final(store).stage is Done
            &&& controller ==> (ends matches StringIoAction::PublishPic { port: of, value }
                && of.0 == port && value == writes->WritePort_value)
        }),
{
    law_bytes_are_little_endian(bytes@);
}

} // verus!
