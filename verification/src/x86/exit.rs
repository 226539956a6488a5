//! Port accesses that leave the guest.
//!
//! The devices, the guest memory and the virtual processor are the caller's. What is decided here is
//! which of them is asked next, with what, and what the guest gets to see.

use crate::access::{AccessWidth, BusKind, DeviceAccess, DeviceError, DeviceVcpuId};
use crate::bytes::{le_decode, le_lane};
#[allow(unused_imports)]
use crate::bytes::{lane_scale, le_byte, le_bytes, le_value};
use crate::x86::addr::X86GuestPhysAddr;
use crate::x86::types::{X86AccessWidth, X86Port, X86PortIoDirection, X86PortIoStringExit};
use crate::x86::vpic::EmulatedPic;
use vstd::prelude::*;

verus! {

/// Port whose first read takes a snapshot of the guest's ACPI tables.
pub const DIAGNOSTIC_PORT_8: u16 = 0x8;

/// First port of the PCI configuration mechanism.
pub const PCI_CONFIG_PORT_START: u16 = 0xcf8;

/// First data port of the PCI configuration mechanism.
pub const PCI_CONFIG_DATA_PORT: u16 = 0xcfc;

/// Last port of the PCI configuration mechanism.
pub const PCI_CONFIG_PORT_END: u16 = 0xcff;

/// First instruction of the firmware routine whose PCI accesses are traced.
pub const TLS_DXE_INIT_START: u64 = 0x1e9b_9a94;

/// Address behind that routine.
pub const TLS_DXE_INIT_END: u64 = 0x1e9b_9b6b;

/// Selector of the power-management register that the routine looks for.
pub const TLS_DXE_PM_CONFIG_SELECTOR: u32 = 0x8000_f840;

/// Number of PCI configuration accesses that are all reported.
pub const DIAGNOSTIC_PCI_CONFIG_RESPONSE_LIMIT: u64 = 128;

/// Number of traced accesses that are all reported.
pub const DIAGNOSTIC_TLS_DXE_PCI_LIMIT: u64 = 128;

/// Work that is left until after the virtual processor was unbound.
#[derive(Clone, Copy, Debug, PartialEq, Eq, Structural)]
#[allow(inconsistent_fields)]
pub enum DeferredRunWork {
    /// A host interrupt arrived.
    ExternalInterrupt {
        /// Its vector.
        vector: usize,
    },
    /// The time slice ended.
    PreemptionTimer,
    /// The guest ended an interrupt.
    InterruptEnd {
        /// Its vector, if it was one that interrupt sources wait for.
        vector: Option<u8>,
    },
}

/// What deferred work asks of the machine.
#[derive(Clone, Copy, Debug, PartialEq, Eq, Structural)]
pub enum DeferredAction {
    /// Nothing.
    Nothing,
    /// Handle the host interrupt with this vector.
    HandleExternalInterrupt(usize),
    /// Inject the interrupt that waited for the end of this vector.
    InjectAfterEnd(u8),
}

/// How a virtual processor goes on.
#[derive(Clone, Copy, Debug, PartialEq, Eq, Structural)]
pub struct VcpuRunAction {
    /// Whether it waits for an event.
    pub waits_for_event: bool,
    /// Whether it stops.
    pub stops: bool,
    /// Whether the machine is reset.
    pub resets_vm: bool,
    /// Whether it exits.
    pub exits_vcpu: bool,
}

/// A port read that left the guest.
#[derive(Clone, Copy, Debug, PartialEq, Eq, Structural)]
pub struct IoReadExit {
    /// Port.
    pub port: X86Port,
    /// Width of the access.
    pub width: AccessWidth,
    /// Address of the instruction.
    pub guest_rip: u64,
}

impl IoReadExit {
    /// Returns the access that the devices are asked for.
    pub fn access(&self, vcpu: DeviceVcpuId) -> (access: DeviceAccess)
        ensures
            access == (DeviceAccess {
                vcpu,
                bus: BusKind::Port,
                address: self.port.0 as u64,
                width: self.width,
            }),
    {
        DeviceAccess::new(vcpu, BusKind::Port, self.port.0 as u64, self.width)
    }
}

/// A port write that left the guest.
#[derive(Clone, Copy, Debug, PartialEq, Eq, Structural)]
pub struct IoWriteExit {
    /// Port.
    pub port: X86Port,
    /// Width of the access.
    pub width: AccessWidth,
    /// Value that was written.
    pub data: u64,
    /// Address of the instruction.
    pub guest_rip: u64,
}

/// A port access that failed.
#[derive(Debug)]
pub struct ExitError {
    /// What was attempted.
    pub operation: &'static str,
    /// What went wrong.
    pub error: DeviceError,
}

/// Direction of a traced access.
#[derive(Clone, Copy, Debug, PartialEq, Eq, Structural)]
pub enum TracedOperation {
    /// The configuration address was written.
    AddressWrite,
    /// Configuration data was read.
    DataRead,
}

/// One access of the traced routine that is reported.
#[derive(Clone, Copy, Debug, PartialEq, Eq, Structural)]
pub struct TracedAccess {
    /// What was accessed.
    pub operation: TracedOperation,
    /// Number of the access.
    pub count: u64,
    /// Address of the instruction.
    pub guest_rip: u64,
    /// Selected configuration register.
    pub selector: u32,
    /// Whether it is the power-management register.
    pub pm_selector: bool,
    /// Port.
    pub port: X86Port,
    /// Width of the access.
    pub width: AccessWidth,
    /// Value that was read or written.
    pub value: u64,
    /// Whether a device answered.
    pub mapped: bool,
}

/// Counters behind the reports on port accesses.
#[derive(Clone, Copy, Debug, PartialEq, Eq, Structural)]
pub struct PortDiagnostics {
    /// Reads of the diagnostic port.
    pub port_8_reads: u64,
    /// Whether the ACPI snapshot was taken.
    pub snapshot_taken: bool,
    /// Accesses to the PCI configuration ports.
    pub pci_config_accesses: u64,
    /// Accesses of the traced routine.
    pub traced_accesses: u64,
    /// Configuration address as the guest last wrote it.
    pub pci_config_address: u64,
}

/// What a port read comes to.
#[derive(Clone, Copy, Debug, PartialEq, Eq, Structural)]
pub struct IoReadCompletion {
    /// Value for the guest's accumulator.
    pub value: u64,
    /// Whether a device answered.
    pub mapped: bool,
    /// Access of the traced routine, if it is reported.
    pub traced: Option<TracedAccess>,
    /// Number of the PCI configuration access, if it is reported.
    pub pci_config_report: Option<u64>,
    /// Number of the diagnostic port read, if it is reported.
    pub port_8_report: Option<u64>,
    /// Whether the ACPI snapshot is taken now.
    pub takes_snapshot: bool,
}

/// What a port write comes to, before the device is asked.
#[derive(Clone, Copy, Debug, PartialEq, Eq, Structural)]
pub struct IoWritePlan {
    /// Access for the device.
    pub access: DeviceAccess,
    /// Value for the device.
    pub value: u64,
    /// Access of the traced routine, if it is reported.
    pub traced: Option<TracedAccess>,
    /// Number of the PCI configuration access, if it is reported.
    pub pci_config_report: Option<u64>,
    /// Whether the interrupt controller is looked at after the device has accepted the write.
    pub publishes_pic: bool,
}

/// Whether `value` is 1, 2, 4, ...
pub open spec fn is_power_of_two(value: nat) -> bool
    decreases value,
{
    value == 1 || (value > 1 && value % 2 == 0 && is_power_of_two(value / 2))
}

/// Returns whether a count is a power of two.
pub fn power_of_two(value: u64) -> (result: bool)
    ensures
        result == is_power_of_two(value as nat),
{
    let mut rest: u64 = value;
    while rest > 1 && rest % 2 == 0
        invariant
            is_power_of_two(rest as nat) == is_power_of_two(value as nat),
        decreases rest,
    {
        rest = rest / 2;
    }
    rest == 1
}

/// The count that follows `count`.
pub open spec fn counted(count: u64) -> u64 {
    if count == u64::MAX {
        0
    } else {
        (count + 1) as u64
    }
}

/// Returns the count that follows `count`.
pub fn count_up(count: u64) -> (next: u64)
    ensures
        next == counted(count),
{
    if count == u64::MAX {
        0
    } else {
        count + 1
    }
}

/// Whether the access with the given number is reported: the first `limit` are, and after that those
/// whose number is a power of two.
pub open spec fn is_reported(count: u64, limit: u64) -> bool {
    count <= limit || is_power_of_two(count as nat)
}

/// Whether a port belongs to the PCI configuration mechanism.
pub open spec fn is_pci_config_port(port: u16) -> bool {
    PCI_CONFIG_PORT_START <= port <= PCI_CONFIG_PORT_END
}

/// The value that a port without a device reads as: all bits of the access set.
pub open spec fn unmapped_value(width: AccessWidth) -> nat {
    (lane_scale(width.bytes()) - 1) as nat
}

/// Returns the value that a port without a device reads as.
pub fn unmapped_port_value(width: AccessWidth) -> (value: u64)
    ensures
        value == unmapped_value(width),
{
    proof {
        crate::bytes::lemma_lane_scale_values();
    }
    match width {
        AccessWidth::Byte => 0xff,
        AccessWidth::Word => 0xffff,
        AccessWidth::Dword => 0xffff_ffff,
        AccessWidth::Qword => 0xffff_ffff_ffff_ffff,
    }
}

/// Returns whether an instruction belongs to the traced routine.
pub fn is_tls_dxe_init_rip(guest_rip: u64) -> (traced: bool)
    ensures
        traced == (TLS_DXE_INIT_START <= guest_rip < TLS_DXE_INIT_END),
{
    TLS_DXE_INIT_START <= guest_rip && guest_rip < TLS_DXE_INIT_END
}

/// `value` with `size` of its bytes, from `offset` on, replaced by the low bytes of `data`.
pub open spec fn with_lanes(value: u64, offset: int, size: int, data: u64) -> nat {
    le_value(
        Seq::new(
            8,
            |lane: int|
                if offset <= lane < offset + size {
                    le_byte(data as nat, (lane - offset) as nat)
                } else {
                    le_byte(value as nat, lane as nat)
                },
        ),
    )
}

/// Replaces bytes of a 64-bit value.
pub fn merge_lanes(value: u64, offset: usize, size: usize, data: u64) -> (merged: u64)
    requires
        offset + size <= 8,
    ensures
        merged == with_lanes(value, offset as int, size as int, data),
{
    let mut bytes: Vec<u8> = Vec::new();
    let ghost lanes = Seq::new(
        8,
        |lane: int|
            if offset <= lane < offset + size {
                le_byte(data as nat, (lane - offset) as nat)
            } else {
                le_byte(value as nat, lane as nat)
            },
    );
    let mut lane: usize = 0;
    while lane < 8
        invariant
            lane <= 8,
            offset + size <= 8,
            lanes == Seq::new(
                8,
                |lane: int|
                    if offset <= lane < offset + size {
                        le_byte(data as nat, (lane - offset) as nat)
                    } else {
                        le_byte(value as nat, lane as nat)
                    },
            ),
            bytes@ == lanes.subrange(0, lane as int),
        decreases 8 - lane,
    {
        if offset <= lane && lane < offset + size {
            bytes.push(le_lane(data, lane - offset));
        } else {
            bytes.push(le_lane(value, lane));
        }
        lane = lane + 1;
        assert(bytes@ =~= lanes.subrange(0, lane as int));
    }
    assert(bytes@.subrange(0, 8) =~= lanes);
    le_decode(bytes.as_slice(), 0, 8)
}

/// Whether a write changes the configuration address.
pub open spec fn writes_config_address(exit: IoWriteExit) -> bool {
    PCI_CONFIG_PORT_START <= exit.port.0 < PCI_CONFIG_DATA_PORT && exit.port.0
        - PCI_CONFIG_PORT_START + exit.width.bytes() <= 4
}

impl PortDiagnostics {
    /// Creates counters for a machine that has not run.
    pub fn new() -> (diagnostics: PortDiagnostics)
        ensures
            diagnostics == (PortDiagnostics {
                port_8_reads: 0,
                snapshot_taken: false,
                pci_config_accesses: 0,
                traced_accesses: 0,
                pci_config_address: 0,
            }),
    {
        PortDiagnostics {
            port_8_reads: 0,
            snapshot_taken: false,
            pci_config_accesses: 0,
            traced_accesses: 0,
            pci_config_address: 0,
        }
    }

    /// The report on an access of the traced routine, if there is one.
    pub open spec fn trace_report(
        self,
        operation: TracedOperation,
        guest_rip: u64,
        selector: u32,
        port: X86Port,
        width: AccessWidth,
        value: u64,
        mapped: bool,
    ) -> Option<TracedAccess> {
        let count = counted(self.traced_accesses);
        if is_reported(count, DIAGNOSTIC_TLS_DXE_PCI_LIMIT) {
            Some(
                TracedAccess {
                    operation,
                    count,
                    guest_rip,
                    selector,
                    pm_selector: selector == TLS_DXE_PM_CONFIG_SELECTOR,
                    port,
                    width,
                    value,
                    mapped,
                },
            )
        } else {
            None
        }
    }

    /// Counts an access of the traced routine and tells whether it is reported.
    pub fn log_tls_dxe_pci_access(
        &mut self,
        operation: TracedOperation,
        guest_rip: u64,
        selector: u32,
        port: X86Port,
        width: AccessWidth,
        value: u64,
        mapped: bool,
    ) -> (report: Option<TracedAccess>)
        ensures
            *final(self) == (PortDiagnostics {
                traced_accesses: counted(old(self).traced_accesses),
                ..*old(self)
            }),
            report == old(self).trace_report(
                operation,
                guest_rip,
                selector,
                port,
                width,
                value,
                mapped,
            ),
    {
        self.traced_accesses = count_up(self.traced_accesses);
        let count: u64 = self.traced_accesses;
        if count <= DIAGNOSTIC_TLS_DXE_PCI_LIMIT || power_of_two(count) {
            Some(
                TracedAccess {
                    operation,
                    count,
                    guest_rip,
                    selector,
                    pm_selector: selector == TLS_DXE_PM_CONFIG_SELECTOR,
                    port,
                    width,
                    value,
                    mapped,
                },
            )
        } else {
            None
        }
    }

    /// The low half of the followed configuration address.
    pub open spec fn selector(self) -> u32 {
        (self.pci_config_address % 0x1_0000_0000) as u32
    }

    /// Counts an access to the PCI configuration ports and tells whether it is reported.
    pub fn log_pci_config_access(&mut self, port: X86Port) -> (report: Option<u64>)
        ensures
            *final(self) == old(self).config_counted(port),
            report == old(self).config_report(port),
    {
        if port.0 < PCI_CONFIG_PORT_START || port.0 > PCI_CONFIG_PORT_END {
            return None;
        }
        self.pci_config_accesses = count_up(self.pci_config_accesses);
        let count: u64 = self.pci_config_accesses;
        if count <= DIAGNOSTIC_PCI_CONFIG_RESPONSE_LIMIT || power_of_two(count) {
            Some(count)
        } else {
            None
        }
    }

    /// The counters after an access to a port.
    pub open spec fn config_counted(self, port: X86Port) -> PortDiagnostics {
        if is_pci_config_port(port.0) {
            PortDiagnostics { pci_config_accesses: counted(self.pci_config_accesses), ..self }
        } else {
            self
        }
    }

    /// The report on an access to a PCI configuration port, if there is one.
    pub open spec fn config_report(self, port: X86Port) -> Option<u64> {
        let count = counted(self.pci_config_accesses);
        if is_pci_config_port(port.0) && is_reported(count, DIAGNOSTIC_PCI_CONFIG_RESPONSE_LIMIT) {
            Some(count)
        } else {
            None
        }
    }

    /// Whether a read is one of the traced routine's.
    pub open spec fn traces_read(exit: IoReadExit) -> bool {
        &&& TLS_DXE_INIT_START <= exit.guest_rip < TLS_DXE_INIT_END
        &&& PCI_CONFIG_DATA_PORT <= exit.port.0 < PCI_CONFIG_DATA_PORT + 4
    }

    /// The counters after a read, as far as the traced routine goes.
    pub open spec fn read_traced(self, exit: IoReadExit) -> PortDiagnostics {
        if Self::traces_read(exit) {
            PortDiagnostics { traced_accesses: counted(self.traced_accesses), ..self }
        } else {
            self
        }
    }

    /// Counts a configuration data read of the traced routine and tells whether it is reported.
    pub fn log_tls_dxe_pci_read(&mut self, exit: &IoReadExit, value: u64, mapped: bool) -> (report:
        Option<TracedAccess>)
        ensures
            *final(self) == old(self).read_traced(*exit),
            report == (if Self::traces_read(*exit) {
                old(self).trace_report(
                    TracedOperation::DataRead,
                    exit.guest_rip,
                    old(self).selector(),
                    exit.port,
                    exit.width,
                    value,
                    mapped,
                )
            } else {
                None
            }),
    {
        if !is_tls_dxe_init_rip(exit.guest_rip) || exit.port.0 < PCI_CONFIG_DATA_PORT || exit.port.0
            >= PCI_CONFIG_DATA_PORT + 4 {
            return None;
        }
        let selector: u32 = (self.pci_config_address % 0x1_0000_0000) as u32;
        self.log_tls_dxe_pci_access(
            TracedOperation::DataRead,
            exit.guest_rip,
            selector,
            exit.port,
            exit.width,
            value,
            mapped,
        )
    }

    /// The counters with the configuration address that a write leaves.
    pub open spec fn address_tracked(self, exit: IoWriteExit) -> PortDiagnostics {
        if writes_config_address(exit) {
            PortDiagnostics {
                pci_config_address: with_lanes(
                    self.pci_config_address,
                    exit.port.0 - PCI_CONFIG_PORT_START,
                    exit.width.bytes() as int,
                    exit.data,
                ) as u64,
                ..self
            }
        } else {
            self
        }
    }

    /// Whether a write is one of the traced routine's.
    pub open spec fn traces_write(exit: IoWriteExit) -> bool {
        writes_config_address(exit) && TLS_DXE_INIT_START <= exit.guest_rip < TLS_DXE_INIT_END
    }

    /// Follows what the guest writes to the configuration address, and tells whether the write is
    /// reported as one of the traced routine.
    pub fn track_pci_config_address(&mut self, exit: &IoWriteExit) -> (report: Option<TracedAccess>)
        ensures
            ({
                let followed = old(self).address_tracked(*exit);
                &&& *final(self) == (if Self::traces_write(*exit) {
                    PortDiagnostics {
                        traced_accesses: counted(followed.traced_accesses),
                        ..followed
                    }
                } else {
                    followed
                })
                &&& report == (if Self::traces_write(*exit) {
                    followed.trace_report(
                        TracedOperation::AddressWrite,
                        exit.guest_rip,
                        followed.selector(),
                        exit.port,
                        exit.width,
                        exit.data,
                        true,
                    )
                } else {
                    None
                })
            }),
    {
        if exit.port.0 < PCI_CONFIG_PORT_START || exit.port.0 >= PCI_CONFIG_DATA_PORT {
            return None;
        }
        let offset: usize = (exit.port.0 - PCI_CONFIG_PORT_START) as usize;
        let size: usize = exit.width.size();
        if offset + size > 4 {
            return None;
        }
        self.pci_config_address = merge_lanes(self.pci_config_address, offset, size, exit.data);
        if !is_tls_dxe_init_rip(exit.guest_rip) {
            return None;
        }
        let selector: u32 = (self.pci_config_address % 0x1_0000_0000) as u32;
        self.log_tls_dxe_pci_access(
            TracedOperation::AddressWrite,
            exit.guest_rip,
            selector,
            exit.port,
            exit.width,
            exit.data,
            true,
        )
    }

    /// The counters after a port read that a device answered or nobody did.
    pub open spec fn after_io_read(self, exit: IoReadExit) -> PortDiagnostics {
        let counted_accesses = self.read_traced(exit).config_counted(exit.port);
        if exit.port.0 == DIAGNOSTIC_PORT_8 {
            let reads = counted(self.port_8_reads);
            PortDiagnostics {
                port_8_reads: reads,
                snapshot_taken: self.snapshot_taken || reads == 1,
                ..counted_accesses
            }
        } else {
            counted_accesses
        }
    }

    /// What a port read comes to, with what the devices answered.
    pub open spec fn io_read_completion(
        self,
        exit: IoReadExit,
        answer: Option<u64>,
    ) -> IoReadCompletion {
        let reads = counted(self.port_8_reads);
        let value = match answer {
            Some(value) => value,
            None => unmapped_value(exit.width) as u64,
        };
        IoReadCompletion {
            value,
            mapped: answer is Some,
            traced: if Self::traces_read(exit) {
                self.trace_report(
                    TracedOperation::DataRead,
                    exit.guest_rip,
                    self.selector(),
                    exit.port,
                    exit.width,
                    value,
                    answer is Some,
                )
            } else {
                None
            },
            pci_config_report: self.config_report(exit.port),
            port_8_report: if exit.port.0 == DIAGNOSTIC_PORT_8 && is_power_of_two(reads as nat) {
                Some(reads)
            } else {
                None
            },
            takes_snapshot: exit.port.0 == DIAGNOSTIC_PORT_8 && reads == 1 && !self.snapshot_taken,
        }
    }

    /// Completes a port read with what the devices answered.
    ///
    /// A port without a device reads as all ones. Accesses to the PCI configuration ports and to the
    /// diagnostic port are counted; the first read of the latter asks for the ACPI snapshot.
    pub fn handle_io_read(
        &mut self,
        exit: &IoReadExit,
        answer: Result<Option<u64>, DeviceError>,
    ) -> (completion: Result<IoReadCompletion, ExitError>)
        ensures
            match answer {
                Ok(said) => {
                    &&& completion == Ok::<_, ExitError>(
                        old(self).io_read_completion(*exit, said),
                    )
                    &&& *final(self) == old(self).after_io_read(*exit)
                },
                Err(error) => {
                    &&& completion == Err::<IoReadCompletion, _>(
                        ExitError { operation: "read guest I/O port", error },
                    )
                    &&& *final(self) == *old(self)
                },
            },
    {
        let said = match answer {
            Ok(said) => said,
            Err(error) => {
                return Err(ExitError { operation: "read guest I/O port", error });
            },
        };
        let mapped = said.is_some();
        let value: u64 = match said {
            Some(value) => value,
            None => unmapped_port_value(exit.width),
        };
        let traced = self.log_tls_dxe_pci_read(exit, value, mapped);
        let pci_config_report = self.log_pci_config_access(exit.port);
        let mut port_8_report: Option<u64> = None;
        let mut takes_snapshot = false;
        if exit.port.0 == DIAGNOSTIC_PORT_8 {
            self.port_8_reads = count_up(self.port_8_reads);
            let reads: u64 = self.port_8_reads;
            if reads == 1 || power_of_two(reads) {
                port_8_report = Some(reads);
            }
            if reads == 1 && !self.snapshot_taken {
                self.snapshot_taken = true;
                takes_snapshot = true;
            }
        }
        Ok(
            IoReadCompletion {
                value,
                mapped,
                traced,
                pci_config_report,
                port_8_report,
                takes_snapshot,
            },
        )
    }

    /// Plans a port write by a virtual processor.
    pub fn handle_io_write(&mut self, vcpu: DeviceVcpuId, exit: &IoWriteExit) -> (plan: IoWritePlan)
        ensures
            ({
                let followed = old(self).address_tracked(*exit);
                let traced = if Self::traces_write(*exit) {
                    PortDiagnostics {
                        traced_accesses: counted(followed.traced_accesses),
                        ..followed
                    }
                } else {
                    followed
                };
                &&& *final(self) == traced.config_counted(exit.port)
                &&& plan.access == (DeviceAccess {
                    vcpu,
                    bus: BusKind::Port,
                    address: exit.port.0 as u64,
                    width: exit.width,
                })
                &&& plan.value == exit.data
                &&& plan.pci_config_report == old(self).config_report(exit.port)
                &&& plan.publishes_pic == is_pic_port(exit.port)
                &&& plan.traced == (if Self::traces_write(*exit) {
                    followed.trace_report(
                        TracedOperation::AddressWrite,
                        exit.guest_rip,
                        followed.selector(),
                        exit.port,
                        exit.width,
                        exit.data,
                        true,
                    )
                } else {
                    None
                })
            }),
    {
        let traced = self.track_pci_config_address(exit);
        let pci_config_report = self.log_pci_config_access(exit.port);
        IoWritePlan {
            access: DeviceAccess::new(vcpu, BusKind::Port, exit.port.0 as u64, exit.width),
            value: exit.data,
            traced,
            pci_config_report,
            publishes_pic: publishes_pic_interrupt(exit.port),
        }
    }
}

/// Reports what the devices made of a planned port write.
pub fn io_write_result(outcome: Result<(), DeviceError>) -> (result: Result<(), ExitError>)
    ensures
        result == (match outcome {
            Ok(()) => Ok::<(), ExitError>(()),
            Err(error) => Err(ExitError { operation: "write guest I/O port", error }),
        }),
{
    match outcome {
        Ok(()) => Ok(()),
        Err(error) => Err(ExitError { operation: "write guest I/O port", error }),
    }
}

/// Whether a port belongs to the legacy interrupt controllers.
pub open spec fn is_pic_port(port: X86Port) -> bool {
    0x20 <= port.0 <= 0x21 || 0xa0 <= port.0 <= 0xa1
}

/// Returns whether a write to a port can make the legacy interrupt controllers raise an interrupt.
pub fn publishes_pic_interrupt(port: X86Port) -> (publishes: bool)
    ensures
        publishes == is_pic_port(port),
{
    let ranges = EmulatedPic::port_ranges();
    ranges[0].contains(port) || ranges[1].contains(port)
}

/// The bus width that stands for an x86 width.
pub open spec fn bus_width(width: X86AccessWidth) -> AccessWidth {
    match width {
        X86AccessWidth::Byte => AccessWidth::Byte,
        X86AccessWidth::Word => AccessWidth::Word,
        X86AccessWidth::Dword => AccessWidth::Dword,
        X86AccessWidth::Qword => AccessWidth::Qword,
    }
}

/// Converts an x86 width to a bus width.
pub fn x86_access_width_to_bus(width: X86AccessWidth) -> (result: AccessWidth)
    ensures
        result == bus_width(width),
{
    match width {
        X86AccessWidth::Byte => AccessWidth::Byte,
        X86AccessWidth::Word => AccessWidth::Word,
        X86AccessWidth::Dword => AccessWidth::Dword,
        X86AccessWidth::Qword => AccessWidth::Qword,
    }
}

/// What one element of a string instruction asks for next.
#[derive(Debug)]
#[allow(inconsistent_fields)]
pub enum StringIoAction {
    /// Read the port.
    ReadPort(DeviceAccess),
    /// Write bytes to guest memory.
    WriteGuest {
        /// Guest address.
        address: X86GuestPhysAddr,
        /// The bytes.
        bytes: Vec<u8>,
    },
    /// Read bytes from guest memory.
    ReadGuest {
        /// Guest address.
        address: X86GuestPhysAddr,
        /// Number of bytes.
        length: usize,
    },
    /// Write the port.
    WritePort {
        /// The access.
        access: DeviceAccess,
        /// Value for the device.
        value: u64,
    },
    /// Look at the interrupt controller after a write to it.
    PublishPic {
        /// Port.
        port: X86Port,
        /// Value that was written.
        value: u64,
    },
    /// Move the virtual processor past the element.
    Complete,
}

/// How far one element of a string instruction is.
#[derive(Clone, Copy, Debug, PartialEq, Eq, Structural)]
pub enum StringIoStage {
    /// Nothing was done.
    Start,
    /// The port or guest memory was asked.
    Fetching,
    /// What was fetched is being stored.
    Storing,
    /// The interrupt controller is being looked at.
    Publishing,
    /// The element is done.
    Done,
}

/// One element of a string instruction.
#[derive(Clone, Copy, Debug, PartialEq, Eq, Structural)]
pub struct StringIo {
    /// Virtual processor that executes the instruction.
    pub vcpu: DeviceVcpuId,
    /// The element.
    pub exit: X86PortIoStringExit,
    /// How far it is.
    pub stage: StringIoStage,
    /// Value that was written to the port.
    pub value: u64,
}

/// What an action of a string element came to.
#[derive(Debug)]
pub enum StringIoEvent {
    /// The element begins.
    Begin,
    /// The devices answered a port read.
    PortRead(Option<u64>),
    /// Guest memory was read.
    GuestRead(Vec<u8>),
    /// The last action was done.
    Stored,
}

impl StringIo {
    /// Begins one element of a virtual processor's instruction.
    pub fn new(vcpu: DeviceVcpuId, exit: X86PortIoStringExit) -> (element: StringIo)
        ensures
            element == (StringIo { vcpu, exit, stage: StringIoStage::Start, value: 0 }),
    {
        StringIo { vcpu, exit, stage: StringIoStage::Start, value: 0 }
    }

    /// The access that the element makes to its port.
    pub open spec fn access(self) -> DeviceAccess {
        DeviceAccess {
            vcpu: self.vcpu,
            bus: BusKind::Port,
            address: self.exit.port.0 as u64,
            width: bus_width(self.exit.width),
        }
    }

    /// Number of bytes of the element.
    pub open spec fn bytes(self) -> nat {
        bus_width(self.exit.width).bytes()
    }

    /// Whether `event` is an answer to what the element asked for last.
    pub open spec fn expects(self, event: StringIoEvent) -> bool {
        match self.stage {
            StringIoStage::Start => event is Begin,
            StringIoStage::Fetching => match self.exit.direction {
                X86PortIoDirection::In => event is PortRead,
                X86PortIoDirection::Out => event matches StringIoEvent::GuestRead(bytes)
                    && bytes@.len() == self.bytes(),
            },
            StringIoStage::Storing => event is Stored,
            StringIoStage::Publishing => event is Stored,
            StringIoStage::Done => false,
        }
    }

    /// How many actions are left at most.
    pub open spec fn actions_left(self) -> nat {
        match self.stage {
            StringIoStage::Start => 4,
            StringIoStage::Fetching => 3,
            StringIoStage::Storing => 2,
            StringIoStage::Publishing => 1,
            StringIoStage::Done => 0,
        }
    }

    /// Reports the error with which the devices refused the element's access to its port.
    pub fn port_failure(&self, error: DeviceError) -> (failure: ExitError)
        ensures
            failure == (ExitError {
                operation: match self.exit.direction {
                    X86PortIoDirection::In => "read guest string I/O port",
                    X86PortIoDirection::Out => "write guest string I/O port",
                },
                error,
            }),
    {
        match self.exit.direction {
            X86PortIoDirection::In => ExitError { operation: "read guest string I/O port", error },
            X86PortIoDirection::Out => ExitError { operation: "write guest string I/O port", error },
        }
    }

    /// Takes the answer to the last action and returns the next one.
    ///
    /// An input element reads the port and stores the answer, or all ones where no device answers,
    /// in guest memory. An output element reads guest memory, writes the port, and has the interrupt
    /// controller looked at if the port is one of its.
    pub fn step(&mut self, event: StringIoEvent) -> (action: StringIoAction)
        requires
            old(self).expects(event),
        ensures
            final(self).exit == old(self).exit,
            final(self).vcpu == old(self).vcpu,
            final(self).actions_left() < old(self).actions_left(),
            action is Complete <==> final(self).stage == StringIoStage::Done,
            match old(self).stage {
                StringIoStage::Start => {
                    &&& final(self).stage == StringIoStage::Fetching
                    &&& old(self).exit.direction == X86PortIoDirection::In ==> action
                        == StringIoAction::ReadPort(old(self).access())
                    &&& old(self).exit.direction == X86PortIoDirection::Out ==> action == (
                    StringIoAction::ReadGuest {
                        address: old(self).exit.guest_paddr,
                        length: old(self).bytes() as usize,
                    })
                },
                StringIoStage::Fetching => {
                    &&& final(self).stage == StringIoStage::Storing
                    &&& event matches StringIoEvent::PortRead(answer) ==> {
                        &&& action matches StringIoAction::WriteGuest { address, bytes }
                        &&& address == old(self).exit.guest_paddr
                        &&& bytes@ == le_bytes(
                            match answer {
                                Some(value) => value as nat,
                                None => unmapped_value(bus_width(old(self).exit.width)),
                            },
                            old(self).bytes(),
                        )
                    }
                    &&& event matches StringIoEvent::GuestRead(bytes) ==> {
                        &&& final(self).value == le_value(bytes@)
                        &&& action == (StringIoAction::WritePort {
                            access: old(self).access(),
                            value: final(self).value,
                        })
                    }
                },
                StringIoStage::Storing => if old(self).exit.direction == X86PortIoDirection::Out
                    && is_pic_port(old(self).exit.port) {
                    &&& final(self).stage == StringIoStage::Publishing
                    &&& action == (StringIoAction::PublishPic {
                        port: old(self).exit.port,
                        value: old(self).value,
                    })
                } else {
                    action == StringIoAction::Complete
                },
                _ => action == StringIoAction::Complete,
            },
    {
        let width = x86_access_width_to_bus(self.exit.width);
        let size: usize = width.size();
        let access = DeviceAccess::new(self.vcpu, BusKind::Port, self.exit.port.0 as u64, width);
        match event {
            StringIoEvent::Begin => {
                self.stage = StringIoStage::Fetching;
                if self.exit.direction == X86PortIoDirection::In {
                    StringIoAction::ReadPort(access)
                } else {
                    StringIoAction::ReadGuest { address: self.exit.guest_paddr, length: size }
                }
            },
            StringIoEvent::PortRead(answer) => {
                let value: u64 = match answer {
                    Some(value) => value,
                    None => unmapped_port_value(width),
                };
                let mut bytes: Vec<u8> = Vec::new();
                let mut lane: usize = 0;
                while lane < size
                    invariant
                        lane <= size,
                        bytes@ == le_bytes(value as nat, lane as nat),
                    decreases size - lane,
                {
                    bytes.push(le_lane(value, lane));
                    lane = lane + 1;
                    assert(bytes@ =~= le_bytes(value as nat, lane as nat));
                }
                self.stage = StringIoStage::Storing;
                StringIoAction::WriteGuest { address: self.exit.guest_paddr, bytes }
            },
            StringIoEvent::GuestRead(bytes) => {
                self.value = le_decode(bytes.as_slice(), 0, size);
                assert(bytes@.subrange(0, size as int) =~= bytes@);
                self.stage = StringIoStage::Storing;
                StringIoAction::WritePort { access, value: self.value }
            },
            StringIoEvent::Stored => {
                if self.stage == StringIoStage::Storing && self.exit.direction
                    == X86PortIoDirection::Out && publishes_pic_interrupt(self.exit.port) {
                    self.stage = StringIoStage::Publishing;
                    StringIoAction::PublishPic { port: self.exit.port, value: self.value }
                } else {
                    self.stage = StringIoStage::Done;
                    StringIoAction::Complete
                }
            },
        }
    }
}

/// What deferred work asks of the machine; the virtual processor then goes on running.
pub fn finish(work: DeferredRunWork) -> (result: (DeferredAction, VcpuRunAction))
    ensures
        result.0 == (match work {
            DeferredRunWork::ExternalInterrupt {
                vector,
            } => DeferredAction::HandleExternalInterrupt(vector),
            DeferredRunWork::PreemptionTimer => DeferredAction::Nothing,
            DeferredRunWork::InterruptEnd { vector } => match vector {
                Some(vector) => DeferredAction::InjectAfterEnd(vector),
                None => DeferredAction::Nothing,
            },
        }),
        result.1 == (VcpuRunAction {
            waits_for_event: false,
            stops: false,
            resets_vm: false,
            exits_vcpu: false,
        }),
{
    let action = match work {
        DeferredRunWork::ExternalInterrupt { vector } => {
            DeferredAction::HandleExternalInterrupt(vector)
        },
        DeferredRunWork::PreemptionTimer => DeferredAction::Nothing,
        DeferredRunWork::InterruptEnd { vector } => match vector {
            Some(vector) => DeferredAction::InjectAfterEnd(vector),
            None => DeferredAction::Nothing,
        },
    };
    (
        action,
        VcpuRunAction { waits_for_event: false, stops: false, resets_vm: false, exits_vcpu: false },
    )
}

/// The ACPI snapshot is asked for no more than once, whatever the guest reads.
pub proof fn law_snapshot_is_taken_once(
    diagnostics: PortDiagnostics,
    first: IoReadExit,
    first_answer: Option<u64>,
    second: IoReadExit,
    second_answer: Option<u64>,
)
    requires
        diagnostics.io_read_completion(first, first_answer).takes_snapshot,
    ensures
        !diagnostics.after_io_read(first).io_read_completion(second, second_answer).takes_snapshot,
        diagnostics.after_io_read(first).after_io_read(second).snapshot_taken,
{
}

/// An output element hands to the port what an input element of the same width stored, as far as
/// the width goes.
pub proof fn law_string_element_round_trip(value: u64, width: AccessWidth)
    ensures
        le_value(le_bytes(value as nat, width.bytes())) == value as nat % lane_scale(width.bytes()),
{
    crate::bytes::lemma_le_value_of_bytes(value as nat, width.bytes());
}

} // verus!
