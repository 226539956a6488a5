//! VirtIO PCI transport behind one memory BAR.
//!
//! The BAR holds the common configuration, the notification register, the interrupt status and
//! the device-specific configuration. Queue processing itself is the device core's.

use crate::access::{AccessWidth, DeviceError, DeviceResult, ErrorDetail};
#[allow(unused_imports)]
use crate::calls::is_chain;
use crate::virtio::interrupt::{InterruptTransition, VirtioPciInterruptCoordinator};
#[allow(unused_imports)]
use crate::virtio::mmio::{half_of, with_half, HALF};
use crate::virtio::pci_state::{
    ActivityPermit, QueueActivity, QueueNotification, QueueNotifyOutcome, QueueState,
    TransportState, VirtioPciWriteOutcome, STATUS_DEVICE_NEEDS_RESET, STATUS_DRIVER_OK,
};
#[allow(unused_imports)]
use crate::virtio::pci_state::{is_fresh_queue, TransportModel};
use crate::virtio::queue::{
    GuestMemory, NoGuestMemoryAccessor, QueueLayout, VirtioError, VirtioQueue,
    VirtioQueueGeneration,
};
#[allow(unused_imports)]
use crate::virtio::queue::is_probing;
use std::sync::Arc;
use vstd::prelude::*;

verus! {

/// Offset of the notification register in the BAR.
pub const NOTIFY_CONFIG_OFFSET: u64 = 0x100;

/// Offset of the interrupt status in the BAR.
pub const ISR_CONFIG_OFFSET: u64 = 0x200;

/// Offset of the device-specific configuration in the BAR.
pub const DEVICE_CONFIG_OFFSET: u64 = 0x300;

/// Size of the BAR.
pub const VIRTIO_PCI_BAR_SIZE: u64 = 0x1000;

/// Device that a VirtIO PCI transport serves.
pub trait VirtioDeviceCore {
    /// Returns the number of queues.
    fn queue_num_max(&self) -> u16;

    /// Returns the largest size of a queue.
    fn queue_size_max(&self) -> u16;

    /// Returns whether notifications are answered at a later time.
    fn deferred_processing(&self) -> bool;

    /// Returns the offered features.
    fn device_features(&self) -> u64;

    /// Reads the device-specific configuration.
    fn read_config(&self, offset: u64, width: AccessWidth) -> DeviceResult<u64>;

    /// Writes the device-specific configuration.
    fn write_config(&mut self, offset: u64, width: AccessWidth, value: u64) -> DeviceResult<()>;

    /// Processes a queue.
    fn notify_queue<M: GuestMemory>(
        &mut self,
        queue: &mut VirtioQueue<NoGuestMemoryAccessor>,
        memory: &mut M,
    ) -> DeviceResult<QueueNotifyOutcome>;
}

/// Ring of a queue whose address is programmed.
#[derive(Clone, Copy, Debug, PartialEq, Eq, Structural)]
pub enum QueueRing {
    /// Descriptor table.
    Desc,
    /// Ring that the driver fills.
    Driver,
    /// Ring that the device fills.
    Device,
}

/// Part of a 64-bit register that an access covers.
#[derive(Clone, Copy, Debug, PartialEq, Eq, Structural)]
pub enum WordPart {
    /// All of it.
    Whole,
    /// The low half.
    Low,
    /// The high half.
    High,
}

/// Register of the common configuration.
#[derive(Clone, Copy, Debug, PartialEq, Eq, Structural)]
pub enum CommonRegister {
    /// Selector of the device-feature window.
    DeviceFeatureSelect,
    /// Window onto the device's features.
    DeviceFeature,
    /// Selector of the driver-feature window.
    DriverFeatureSelect,
    /// Window onto the driver's features.
    DriverFeature,
    /// Vector of configuration changes.
    MsixConfig,
    /// Number of queues.
    NumQueues,
    /// Device status.
    DeviceStatus,
    /// Generation of the device-specific configuration.
    ConfigGeneration,
    /// Selector of the queue registers.
    QueueSelect,
    /// Size of the selected queue.
    QueueSize,
    /// Vector of the selected queue.
    QueueMsixVector,
    /// Readiness of the selected queue.
    QueueEnable,
    /// Notification slot of the selected queue.
    QueueNotifyOff,
    /// Ring address of the selected queue.
    QueueAddress(QueueRing, WordPart),
}

/// The ring whose address register starts at the given offset.
pub open spec fn ring_at(offset: int) -> Option<QueueRing> {
    if offset == 0x20 {
        Some(QueueRing::Desc)
    } else if offset == 0x28 {
        Some(QueueRing::Driver)
    } else if offset == 0x30 {
        Some(QueueRing::Device)
    } else {
        None
    }
}

/// The register that an access to the common configuration selects.
pub open spec fn common_register(offset: u64, width: AccessWidth) -> Option<CommonRegister> {
    match width {
        AccessWidth::Byte => if offset == 0x14 {
            Some(CommonRegister::DeviceStatus)
        } else if offset == 0x15 {
            Some(CommonRegister::ConfigGeneration)
        } else {
            None
        },
        AccessWidth::Word => if offset == 0x10 {
            Some(CommonRegister::MsixConfig)
        } else if offset == 0x12 {
            Some(CommonRegister::NumQueues)
        } else if offset == 0x16 {
            Some(CommonRegister::QueueSelect)
        } else if offset == 0x18 {
            Some(CommonRegister::QueueSize)
        } else if offset == 0x1a {
            Some(CommonRegister::QueueMsixVector)
        } else if offset == 0x1c {
            Some(CommonRegister::QueueEnable)
        } else if offset == 0x1e {
            Some(CommonRegister::QueueNotifyOff)
        } else {
            None
        },
        AccessWidth::Dword => if offset == 0x00 {
            Some(CommonRegister::DeviceFeatureSelect)
        } else if offset == 0x04 {
            Some(CommonRegister::DeviceFeature)
        } else if offset == 0x08 {
            Some(CommonRegister::DriverFeatureSelect)
        } else if offset == 0x0c {
            Some(CommonRegister::DriverFeature)
        } else if let Some(ring) = ring_at(offset as int) {
            Some(CommonRegister::QueueAddress(ring, WordPart::Low))
        } else if let Some(ring) = ring_at(offset - 4) {
            Some(CommonRegister::QueueAddress(ring, WordPart::High))
        } else {
            None
        },
        AccessWidth::Qword => if let Some(ring) = ring_at(offset as int) {
            Some(CommonRegister::QueueAddress(ring, WordPart::Whole))
        } else {
            None
        },
    }
}

/// Returns the register that an access to the common configuration selects.
pub fn decode_common(offset: u64, width: AccessWidth) -> (register: Option<CommonRegister>)
    ensures
        register == common_register(offset, width),
{
    match width {
        AccessWidth::Byte => match offset {
            0x14 => Some(CommonRegister::DeviceStatus),
            0x15 => Some(CommonRegister::ConfigGeneration),
            _ => None,
        },
        AccessWidth::Word => match offset {
            0x10 => Some(CommonRegister::MsixConfig),
            0x12 => Some(CommonRegister::NumQueues),
            0x16 => Some(CommonRegister::QueueSelect),
            0x18 => Some(CommonRegister::QueueSize),
            0x1a => Some(CommonRegister::QueueMsixVector),
            0x1c => Some(CommonRegister::QueueEnable),
            0x1e => Some(CommonRegister::QueueNotifyOff),
            _ => None,
        },
        AccessWidth::Dword => match offset {
            0x00 => Some(CommonRegister::DeviceFeatureSelect),
            0x04 => Some(CommonRegister::DeviceFeature),
            0x08 => Some(CommonRegister::DriverFeatureSelect),
            0x0c => Some(CommonRegister::DriverFeature),
            0x20 => Some(CommonRegister::QueueAddress(QueueRing::Desc, WordPart::Low)),
            0x24 => Some(CommonRegister::QueueAddress(QueueRing::Desc, WordPart::High)),
            0x28 => Some(CommonRegister::QueueAddress(QueueRing::Driver, WordPart::Low)),
            0x2c => Some(CommonRegister::QueueAddress(QueueRing::Driver, WordPart::High)),
            0x30 => Some(CommonRegister::QueueAddress(QueueRing::Device, WordPart::Low)),
            0x34 => Some(CommonRegister::QueueAddress(QueueRing::Device, WordPart::High)),
            _ => None,
        },
        AccessWidth::Qword => match offset {
            0x20 => Some(CommonRegister::QueueAddress(QueueRing::Desc, WordPart::Whole)),
            0x28 => Some(CommonRegister::QueueAddress(QueueRing::Driver, WordPart::Whole)),
            0x30 => Some(CommonRegister::QueueAddress(QueueRing::Device, WordPart::Whole)),
            _ => None,
        },
    }
}

/// The address that a layout gives a ring.
pub open spec fn ring_address(layout: QueueLayout, ring: QueueRing) -> u64 {
    match ring {
        QueueRing::Desc => layout.desc_table_addr,
        QueueRing::Driver => layout.avail_ring_addr,
        QueueRing::Device => layout.used_ring_addr,
    }
}

/// `layout` with a ring moved.
pub open spec fn with_ring(layout: QueueLayout, ring: QueueRing, address: u64) -> QueueLayout {
    match ring {
        QueueRing::Desc => QueueLayout { desc_table_addr: address, ..layout },
        QueueRing::Driver => QueueLayout { avail_ring_addr: address, ..layout },
        QueueRing::Device => QueueLayout { used_ring_addr: address, ..layout },
    }
}

/// The part of a word that an access reads.
pub open spec fn part_of(word: u64, part: WordPart) -> u64 {
    match part {
        WordPart::Whole => word,
        WordPart::Low => half_of(word, 0) as u64,
        WordPart::High => half_of(word, 1) as u64,
    }
}

/// `word` with the part that an access writes replaced.
pub open spec fn with_part(word: u64, part: WordPart, value: u64) -> u64 {
    match part {
        WordPart::Whole => value,
        WordPart::Low => with_half(word, 0, (value % HALF) as u32),
        WordPart::High => with_half(word, 1, (value % HALF) as u32),
    }
}

/// The error for a queue that the device does not have.
pub open spec fn invalid_queue(index: u16) -> DeviceError {
    DeviceError::InvalidInput {
        operation: "virtio-pci queue notify",
        detail: ErrorDetail::Text("queue index is out of range"),
    }
}

/// The error for a notification during a reset.
pub open spec fn queue_resetting() -> DeviceError {
    DeviceError::InvalidState {
        operation: "virtio-pci queue notify",
        detail: ErrorDetail::Text("queue generation is resetting"),
    }
}

/// The error for a device that answers a notification later.
pub open spec fn deferred_unsupported() -> DeviceError {
    DeviceError::Unsupported {
        operation: "virtio-pci queue notify",
        detail: ErrorDetail::Text(
            "asynchronous queue processing is not supported by this transport",
        ),
    }
}

/// The error for enabling a queue without ring addresses.
pub open spec fn unconfigured_queue() -> DeviceError {
    DeviceError::InvalidData {
        operation: "virtio-pci queue enable",
        detail: ErrorDetail::Text("queue addresses are not programmed"),
    }
}

/// The error for a reset while another one is going on.
pub open spec fn reset_in_progress() -> DeviceError {
    DeviceError::InvalidState {
        operation: "virtio-pci reset",
        detail: ErrorDetail::Text("another reset is in progress"),
    }
}

/// The error for a reset while a queue is with an operation.
pub open spec fn reset_not_drained() -> DeviceError {
    DeviceError::InvalidState {
        operation: "virtio-pci reset",
        detail: ErrorDetail::Text("queue activity did not drain"),
    }
}

/// Maps a queue failure to a device failure.
pub open spec fn pci_error(error: VirtioError) -> DeviceError {
    match error {
        VirtioError::WouldBlock => DeviceError::InvalidState {
            operation: "virtio-pci queue",
            detail: ErrorDetail::Text("the operation would block"),
        },
        _ => DeviceError::InvalidData {
            operation: "virtio-pci queue",
            detail: ErrorDetail::Text("queue layout is invalid"),
        },
    }
}

/// Maps a queue failure to a device failure.
pub fn map_pci_error(error: VirtioError) -> (mapped: DeviceError)
    ensures
        mapped == pci_error(error),
{
    match error {
        VirtioError::WouldBlock => DeviceError::InvalidState {
            operation: "virtio-pci queue",
            detail: ErrorDetail::Text("the operation would block"),
        },
        _ => DeviceError::InvalidData {
            operation: "virtio-pci queue",
            detail: ErrorDetail::Text("queue layout is invalid"),
        },
    }
}

/// Transport of one VirtIO PCI function.
pub struct VirtioPciTransport<D> {
    /// The device.
    pub core: D,
    /// Largest size of a queue.
    pub queue_size_max: u16,
    /// Features that the device offers.
    pub device_features: u64,
    /// Registers and queues.
    pub state: TransportState,
    /// Barrier of queue processing.
    pub activity: QueueActivity,
    /// Interrupt bits and line.
    pub interrupts: VirtioPciInterruptCoordinator,
}

/// What a [`VirtioPciTransport`] holds.
#[verifier::ext_equal]
pub struct PciTransportModel<D> {
    /// The device.
    pub core: D,
    /// Largest size of a queue.
    pub queue_size_max: u16,
    /// Features that the device offers.
    pub device_features: u64,
    /// Registers and queues.
    pub state: TransportModel,
    /// Barrier of queue processing.
    pub activity: QueueActivity,
    /// Interrupt bits and line.
    pub interrupts: VirtioPciInterruptCoordinator,
}

impl<D> View for VirtioPciTransport<D> {
    type V = PciTransportModel<D>;

    open spec fn view(&self) -> PciTransportModel<D> {
        PciTransportModel {
            core: self.core,
            queue_size_max: self.queue_size_max,
            device_features: self.device_features,
            state: self.state@,
            activity: self.activity,
            interrupts: self.interrupts,
        }
    }
}

/// Queue that a notification took out of the transport.
pub struct QueueWork {
    /// Position of the queue.
    pub index: usize,
    /// The queue.
    pub queue: VirtioQueue<NoGuestMemoryAccessor>,
    /// Permit of the operation.
    pub activity: ActivityPermit,
}

impl<D> PciTransportModel<D> {
    /// The transport while a notification is processed; the queue's place is held by a blank one.
    pub open spec fn admitted(self, index: int, placeholder: QueueState) -> PciTransportModel<D> {
        PciTransportModel {
            state: self.state.with_queue(index, placeholder),
            activity: self.activity.entered(),
            ..self
        }
    }

    /// The queue as a notification takes it out.
    pub open spec fn taken(self, index: int) -> VirtioQueue<NoGuestMemoryAccessor> {
        let queue = self.state.queues[index].queue;
        VirtioQueue { layout: QueueLayout { ready: true, ..queue.layout }, ..queue }
    }

    /// The transport after a queue fault, and the transition that reports it.
    pub open spec fn fault(self) -> (PciTransportModel<D>, InterruptTransition) {
        let raised = VirtioPciInterruptCoordinator {
            pending: self.interrupts.pending | crate::virtio::interrupt::ISR_CONFIG,
            ..self.interrupts
        };
        if self.state.fault_reported {
            (
                PciTransportModel { state: self.state.faulted(), ..self },
                InterruptTransition::Unchanged,
            )
        } else {
            (
                PciTransportModel {
                    state: self.state.faulted(),
                    interrupts: raised.started(),
                    ..self
                },
                raised.next(),
            )
        }
    }

    /// The transport with a queue given back.
    pub open spec fn given_back(
        self,
        index: int,
        queue: VirtioQueue<NoGuestMemoryAccessor>,
    ) -> PciTransportModel<D> {
        PciTransportModel {
            state: self.state.with_queue(
                index,
                QueueState { queue, processing: false, ..self.state.queues[index] },
            ),
            ..self
        }
    }

    /// The transport after a device raised a queue interrupt, and the transition for it.
    pub open spec fn completed(self) -> (PciTransportModel<D>, InterruptTransition) {
        let raised = VirtioPciInterruptCoordinator {
            pending: self.interrupts.pending | crate::virtio::interrupt::ISR_QUEUE,
            ..self.interrupts
        };
        (PciTransportModel { interrupts: raised.started(), ..self }, raised.next())
    }

    /// The transport after a reset has begun.
    pub open spec fn reset_begun(self) -> PciTransportModel<D> {
        PciTransportModel {
            state: self.state.as_reset(self.queue_size_max),
            activity: QueueActivity { accepting: false, resetting: true, ..self.activity },
            interrupts: self.interrupts.cleared().started(),
            ..self
        }
    }

    /// The transport after a reset that could not drain its queue activity.
    pub open spec fn reset_refused(self) -> PciTransportModel<D> {
        PciTransportModel {
            activity: QueueActivity { accepting: false, resetting: false, ..self.activity },
            ..self
        }
    }

    /// The transport after a reset was completed.
    pub open spec fn reset_completed(self) -> PciTransportModel<D> {
        if self.state.reset_pending {
            PciTransportModel {
                state: TransportModel {
                    status: 0,
                    device_needs_reset: false,
                    reset_pending: false,
                    ..self.state
                },
                activity: QueueActivity { accepting: true, resetting: false, ..self.activity },
                ..self
            }
        } else {
            self
        }
    }
}

/// Whether `after` and `outcome` are what the end of queue processing makes of `before`, the
/// transport without the queue.
pub open spec fn is_notification_end<D>(
    before: PciTransportModel<D>,
    index: int,
    queue: VirtioQueue<NoGuestMemoryAccessor>,
    generation: VirtioQueueGeneration,
    result: DeviceResult<QueueNotifyOutcome>,
    after: PciTransportModel<D>,
    outcome: VirtioPciWriteOutcome,
) -> bool {
    let back = before.given_back(index, queue);
    match result {
        Ok(QueueNotifyOutcome::Deferred { notify }) => {
            &&& after == back.fault().0
            &&& outcome == (VirtioPciWriteOutcome::Fault {
                error: deferred_unsupported(),
                interrupt: back.fault().1,
                activity: ActivityPermit { generation },
            })
        },
        Ok(answer) => {
            let raises = answer == (QueueNotifyOutcome::Completed { notify: true });
            &&& after == (if raises {
                back.completed().0
            } else {
                back
            })
            &&& outcome == VirtioPciWriteOutcome::QueueNotified(
                QueueNotification {
                    outcome: answer,
                    interrupt: if raises {
                        back.completed().1
                    } else {
                        InterruptTransition::Unchanged
                    },
                    activity: Some(ActivityPermit { generation }),
                },
            )
        },
        Err(error) => {
            &&& after == back.fault().0
            &&& outcome == (VirtioPciWriteOutcome::Fault {
                error,
                interrupt: back.fault().1,
                activity: ActivityPermit { generation },
            })
        },
    }
}

/// Whether `placeholder` stands for the queue at `index`, which is with an operation: a blank queue of
/// the same size.
pub open spec fn is_placeholder(placeholder: QueueState, taken: QueueState, index: int) -> bool {
    let size = taken.queue.layout.size;
    &&& placeholder.processing
    &&& placeholder.enabled == taken.enabled
    &&& is_fresh_queue(
        QueueState { enabled: false, processing: false, ..placeholder },
        index,
        size,
    )
}

impl<D> VirtioPciTransport<D> {
    /// Decides whether a notification is processed, and for which lifetime.
    pub fn select_notification(&self, queue_index: u16, dma_enabled: bool) -> (selected:
        DeviceResult<Option<VirtioQueueGeneration>>)
        ensures
            queue_index >= self@.state.queues.len() ==> selected == Err::<
                Option<VirtioQueueGeneration>,
                _,
            >(invalid_queue(queue_index)),
            queue_index < self@.state.queues.len() ==> selected == Ok::<_, DeviceError>(
                if self@.state.notifiable(queue_index as int, dma_enabled) {
                    Some(VirtioQueueGeneration(self@.state.queue_generation))
                } else {
                    None
                },
            ),
    {
        let index: usize = queue_index as usize;
        if index >= self.state.queues.len() {
            return Err(
                DeviceError::InvalidInput {
                    operation: "virtio-pci queue notify",
                    detail: ErrorDetail::Text("queue index is out of range"),
                },
            );
        }
        if self.state.status & STATUS_DRIVER_OK == 0 || self.state.status
            & STATUS_DEVICE_NEEDS_RESET != 0 {
            return Ok(None);
        }
        if !self.state.queues[index].enabled || self.state.queues[index].processing || !dma_enabled {
            return Ok(None);
        }
        Ok(Some(VirtioQueueGeneration(self.state.queue_generation)))
    }

    /// Takes a queue out for processing, if what selected it still holds.
    ///
    /// A reset may have come between the selection and this call, so every condition is tested
    /// again. Once the permit is granted a reset waits for it.
    pub fn admit_notification(
        &mut self,
        queue_index: u16,
        generation: VirtioQueueGeneration,
        dma_enabled: bool,
    ) -> (work: DeviceResult<Option<QueueWork>>)
        requires
            queue_index < old(self)@.state.queues.len(),
        ensures
            !old(self)@.activity.admits() ==> work == Err::<Option<QueueWork>, _>(queue_resetting())
                && final(self)@ == old(self)@,
            old(self)@.activity.admits() ==> work is Ok,
            work matches Ok(None) ==> final(self)@ == old(self)@,
            old(self)@.activity.admits() ==> {
                work != Ok::<Option<QueueWork>, DeviceError>(None) <==> {
                    &&& generation.0 == old(self)@.state.queue_generation
                    &&& old(self)@.state.notifiable(queue_index as int, dma_enabled)
                }
            },
            work matches Ok(Some(taken)) ==> {
                let index = queue_index as int;
                &&& taken.index == index
                &&& taken.queue == old(self)@.taken(index)
                &&& taken.activity == (ActivityPermit { generation })
                &&& is_placeholder(
                    final(self)@.state.queues[index],
                    old(self)@.state.queues[index],
                    index,
                )
                &&& final(self)@ == old(self)@.admitted(index, final(self)@.state.queues[index])
            },
    {
        let permit = match self.activity.acquire(generation) {
            Some(permit) => permit,
            None => {
                return Err(
                    DeviceError::InvalidState {
                        operation: "virtio-pci queue notify",
                        detail: ErrorDetail::Text("queue generation is resetting"),
                    },
                );
            },
        };
        let index: usize = queue_index as usize;
        if self.state.queue_generation != generation.0 || self.state.status & STATUS_DRIVER_OK == 0
            || self.state.status & STATUS_DEVICE_NEEDS_RESET != 0 || !dma_enabled
            || !self.state.queues[index].enabled || self.state.queues[index].processing {
            self.activity.release(permit);
            return Ok(None);
        }
        let enabled = self.state.queues[index].enabled;
        let mut queue = self.state.queues[index].queue.clone();
        queue.set_ready(true);
        let placeholder = QueueState {
            queue: VirtioQueue::new(
                queue_index,
                queue.layout.size,
                Arc::new(NoGuestMemoryAccessor),
            ),
            enabled,
            processing: true,
        };
        self.state.queues.set(index, placeholder);
        Ok(Some(QueueWork { index, queue, activity: permit }))
    }

    /// Latches a fault, which the first time raises a configuration interrupt.
    pub fn queue_fault(&mut self, error: DeviceError, activity: ActivityPermit) -> (outcome:
        VirtioPciWriteOutcome)
        ensures
            final(self)@ == old(self)@.fault().0,
            outcome == (VirtioPciWriteOutcome::Fault {
                error,
                interrupt: old(self)@.fault().1,
                activity,
            }),
    {
        self.state.device_needs_reset = true;
        self.state.status = self.state.status | STATUS_DEVICE_NEEDS_RESET;
        let mut interrupt = InterruptTransition::Unchanged;
        if !self.state.fault_reported {
            self.state.fault_reported = true;
            interrupt = self.interrupts.record_config_change();
        }
        VirtioPciWriteOutcome::Fault { error, interrupt, activity }
    }

    /// Puts a queue back after processing.
    pub fn restore_queue(&mut self, index: usize, queue: VirtioQueue<NoGuestMemoryAccessor>)
        requires
            index < old(self)@.state.queues.len(),
        ensures
            final(self)@ == old(self)@.given_back(index as int, queue),
    {
        let enabled = self.state.queues[index].enabled;
        self.state.queues.set(index, QueueState { queue, enabled, processing: false });
    }

    /// Ends queue processing with what the device answered.
    pub fn finish_notification(
        &mut self,
        work: QueueWork,
        result: DeviceResult<QueueNotifyOutcome>,
    ) -> (outcome: VirtioPciWriteOutcome)
        requires
            work.index < old(self)@.state.queues.len(),
        ensures
            is_notification_end(
                old(self)@,
                work.index as int,
                work.queue,
                work.activity.generation,
                result,
                final(self)@,
                outcome,
            ),
    {
        self.restore_queue(work.index, work.queue);
        match result {
            Ok(QueueNotifyOutcome::Deferred { .. }) => {
                self.queue_fault(
                    DeviceError::Unsupported {
                        operation: "virtio-pci queue notify",
                        detail: ErrorDetail::Text(
                            "asynchronous queue processing is not supported by this transport",
                        ),
                    },
                    work.activity,
                )
            },
            Ok(answer) => {
                let interrupt = if answer == (QueueNotifyOutcome::Completed { notify: true }) {
                    self.interrupts.record_queue_completion(true)
                } else {
                    InterruptTransition::Unchanged
                };
                VirtioPciWriteOutcome::QueueNotified(
                    QueueNotification { outcome: answer, interrupt, activity: Some(work.activity) },
                )
            },
            Err(error) => self.queue_fault(error, work.activity),
        }
    }
}

impl<D: VirtioDeviceCore> VirtioPciTransport<D> {
    /// Processes a queue notification.
    ///
    /// A queue that is not ready to be processed is left alone. Otherwise its rings are screened
    /// and the device processes it; a failure of either latches a fault. What the device makes of
    /// the queue is put back.
    pub fn notify_queue<M: GuestMemory>(
        &mut self,
        queue_index: u16,
        dma_enabled: bool,
        memory: &mut M,
    ) -> (outcome: DeviceResult<VirtioPciWriteOutcome>)
        ensures
            exists|
                calls: Seq<&mut M>,
                states: Seq<M>,
                device: Option<&mut D>,
                queue: Option<&mut VirtioQueue<NoGuestMemoryAccessor>>,
            |
                {
                    &&& #[trigger] is_chain(calls, states)
                    &&& states.first() == *old(memory)
                    &&& states.last() == *final(memory)
                    &&& forall|i: int|
                        0 <= i < calls.len() ==> *final(#[trigger] calls[i]) == states[i + 1]
                    &&& #[trigger] is_work(device, queue)
                    &&& device matches Some(device) ==> *final(device) == final(self)@.core
                    &&& queue matches Some(queue) ==> *final(queue)
                        == final(self)@.state.queues[queue_index as int].queue
                    &&& is_notification(
                        calls,
                        device,
                        queue,
                        old(self)@,
                        queue_index,
                        dma_enabled,
                        final(self)@,
                        outcome,
                    )
                },
    {
        assert(is_chain(Seq::<&mut M>::empty(), seq![*memory]));
        assert(is_work(None::<&mut D>, None));
        let generation = match self.select_notification(queue_index, dma_enabled) {
            Ok(Some(generation)) => generation,
            Ok(None) => {
                return Ok(
                    VirtioPciWriteOutcome::QueueNotified(
                        QueueNotification {
                            outcome: QueueNotifyOutcome::Idle,
                            interrupt: InterruptTransition::Unchanged,
                            activity: None,
                        },
                    ),
                );
            },
            Err(error) => {
                return Err(error);
            },
        };
        let mut work = match self.admit_notification(queue_index, generation, dma_enabled) {
            Ok(Some(work)) => work,
            Ok(None) => {
                return Ok(
                    VirtioPciWriteOutcome::QueueNotified(
                        QueueNotification {
                            outcome: QueueNotifyOutcome::Idle,
                            interrupt: InterruptTransition::Unchanged,
                            activity: None,
                        },
                    ),
                );
            },
            Err(error) => {
                return Err(error);
            },
        };
        let ghost before = self@;
        let ghost index = queue_index as int;
        let ghost taken = work.queue;
        let probed = work.queue.validate_layout_with_memory(memory);
        let ghost screened = probed;
        let ghost probed_memory = *memory;
        let result = match probed {
            Ok(_) => self.core.notify_queue(&mut work.queue, memory),
            Err(error) => Err(map_pci_error(error)),
        };
        let ghost processed = work.queue;
        let ghost core = self.core;
        let ghost answer = result;
        assert(self@ == (PciTransportModel { core, ..before }));
        let outcome: DeviceResult<VirtioPciWriteOutcome> = Ok(
            self.finish_notification(work, result),
        );
        proof {
            assert(self@.state.queues[index].queue == processed);
            assert(self@.core == core);
            let placeholder = before.state.queues[index];
            if taken.layout.placed() {
                let (calls, states) = choose|calls: Seq<&mut M>, states: Seq<M>|
                    {
                        &&& #[trigger] is_chain(calls, states)
                        &&& states.first() == *old(memory)
                        &&& states.last() == probed_memory
                        &&& forall|i: int|
                            0 <= i < calls.len() ==> *final(#[trigger] calls[i]) == states[i + 1]
                        &&& is_probing(calls, taken.layout.probes(), screened)
                    };
                if screened is Ok {
                    let (device, queue, lent) = choose|
                        device: &mut D,
                        queue: &mut VirtioQueue<NoGuestMemoryAccessor>,
                        lent: &mut M,
                    |
                        {
                            &&& #[trigger] call_ensures(
                                D::notify_queue::<M>,
                                (device, queue, lent),
                                answer,
                            )
                            &&& *device == before.core
                            &&& *final(device) == core
                            &&& *queue == taken
                            &&& *final(queue) == processed
                            &&& *lent == probed_memory
                            &&& *final(lent) == *memory
                        };
                    let longer = calls.push(lent);
                    assert(longer.drop_last() =~= calls);
                    assert(longer.last() == lent);
                    assert(is_chain(longer, states.push(*memory)));
                    assert(is_work(Some(device), Some(queue)));
                    assert(is_screened(
                        longer,
                        Some(device),
                        Some(queue),
                        before.core,
                        taken,
                        screened,
                        answer,
                    ));
                    assert(is_processed(
                        longer,
                        Some(device),
                        Some(queue),
                        old(self)@,
                        index,
                        placeholder,
                        answer,
                        self@,
                        outcome->Ok_0,
                    ));
                } else {
                    assert(is_screened(
                        calls,
                        None::<&mut D>,
                        None,
                        before.core,
                        taken,
                        screened,
                        answer,
                    ));
                    assert(is_processed(
                        calls,
                        None::<&mut D>,
                        None,
                        old(self)@,
                        index,
                        placeholder,
                        answer,
                        self@,
                        outcome->Ok_0,
                    ));
                }
            } else {
                let calls = Seq::<&mut M>::empty();
                assert(is_screened(
                    calls,
                    None::<&mut D>,
                    None,
                    before.core,
                    taken,
                    screened,
                    answer,
                ));
                assert(is_processed(
                    calls,
                    None::<&mut D>,
                    None,
                    old(self)@,
                    index,
                    placeholder,
                    answer,
                    self@,
                    outcome->Ok_0,
                ));
            }
        }
        outcome
    }
}

/// Whether a queue is handed out only together with the device that processes it.
pub open spec fn is_work<D>(
    device: Option<&mut D>,
    queue: Option<&mut VirtioQueue<NoGuestMemoryAccessor>>,
) -> bool {
    queue is Some ==> device is Some
}

/// Whether `calls` screen the rings of `taken` with the result `screened`, and `answer` is what
/// follows: what `device` says of processing `queue` where the screening succeeds, else the
/// screening's error, without a call of the device.
pub open spec fn is_screened<D: VirtioDeviceCore, M: GuestMemory>(
    calls: Seq<&mut M>,
    device: Option<&mut D>,
    queue: Option<&mut VirtioQueue<NoGuestMemoryAccessor>>,
    core: D,
    taken: VirtioQueue<NoGuestMemoryAccessor>,
    screened: Result<(), VirtioError>,
    answer: DeviceResult<QueueNotifyOutcome>,
) -> bool {
    match screened {
        Ok(_) => {
            &&& taken.layout.placed()
            &&& calls.len() > 0
            &&& is_probing(calls.drop_last(), taken.layout.probes(), screened)
            &&& device matches Some(device)
            &&& queue matches Some(queue)
            &&& call_ensures(D::notify_queue::<M>, (device, queue, calls.last()), answer)
            &&& *device == core
            &&& *queue == taken
        },
        Err(error) => {
            &&& if taken.layout.placed() {
                is_probing(calls, taken.layout.probes(), screened)
            } else {
                calls.len() == 0 && error == VirtioError::InvalidQueueLayout
            }
            &&& device is None
            &&& queue is None
            &&& answer == Err::<QueueNotifyOutcome, _>(pci_error(error))
        },
    }
}

/// Whether `after` and `outcome` are what processing a notification with the given answer makes of
/// `before`. A device or a queue without a call stays as it was.
pub open spec fn is_processed<D: VirtioDeviceCore, M: GuestMemory>(
    calls: Seq<&mut M>,
    device: Option<&mut D>,
    queue: Option<&mut VirtioQueue<NoGuestMemoryAccessor>>,
    before: PciTransportModel<D>,
    index: int,
    placeholder: QueueState,
    answer: DeviceResult<QueueNotifyOutcome>,
    after: PciTransportModel<D>,
    outcome: VirtioPciWriteOutcome,
) -> bool {
    let back = after.state.queues[index].queue;
    &&& is_placeholder(placeholder, before.state.queues[index], index)
    &&& exists|screened: Result<(), VirtioError>| #[trigger]
        is_screened(calls, device, queue, before.core, before.taken(index), screened, answer)
    &&& device is None ==> after.core == before.core
    &&& queue is None ==> back == before.taken(index)
    &&& is_notification_end(
        PciTransportModel { core: after.core, ..before.admitted(index, placeholder) },
        index,
        back,
        VirtioQueueGeneration(before.state.queue_generation),
        answer,
        after,
        outcome,
    )
}

/// Whether `after` and `outcome` are what a notification makes of `before`: `calls` are the accesses
/// to guest memory, the last of them lent to `device` for processing `queue` where it comes to that.
pub open spec fn is_notification<D: VirtioDeviceCore, M: GuestMemory>(
    calls: Seq<&mut M>,
    device: Option<&mut D>,
    queue: Option<&mut VirtioQueue<NoGuestMemoryAccessor>>,
    before: PciTransportModel<D>,
    queue_index: u16,
    dma_enabled: bool,
    after: PciTransportModel<D>,
    outcome: DeviceResult<VirtioPciWriteOutcome>,
) -> bool {
    let index = queue_index as int;
    if index < before.state.queues.len() && before.state.notifiable(index, dma_enabled)
        && before.activity.admits() {
        &&& outcome is Ok
        &&& exists|placeholder: QueueState, answer: DeviceResult<QueueNotifyOutcome>| #[trigger]
            is_processed(
                calls,
                device,
                queue,
                before,
                index,
                placeholder,
                answer,
                after,
                outcome->Ok_0,
            )
    } else {
        &&& outcome == (if index >= before.state.queues.len() {
            Err::<VirtioPciWriteOutcome, _>(invalid_queue(queue_index))
        } else if !before.state.notifiable(index, dma_enabled) {
            Ok(VirtioPciWriteOutcome::QueueNotified(QueueNotification::idle()))
        } else {
            Err(queue_resetting())
        })
        &&& after == before
        &&& calls.len() == 0
        &&& device is None
        &&& queue is None
    }
}

} // verus!
