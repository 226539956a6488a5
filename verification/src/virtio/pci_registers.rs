//! Register accesses, resets and interrupt hand-over of the VirtIO PCI transport.

use crate::access::{AccessWidth, DeviceError, DeviceResult, ErrorDetail};
#[allow(unused_imports)]
use crate::calls::is_chain;
use crate::virtio::interrupt::{InterruptTransition, VirtioPciInterruptCoordinator};
#[allow(unused_imports)]
use crate::virtio::interrupt::InterruptPublication;
use crate::virtio::mmio::{combine_half, select_half, HALF};
#[allow(unused_imports)]
use crate::virtio::mmio::half_of;
use crate::virtio::pci_state::{
    InterruptTransitionRequest, QueueActivity, TransportState, VirtioPciWriteOutcome,
    STATUS_DEVICE_NEEDS_RESET, STATUS_FAILED, STATUS_FEATURES_OK,
};
#[allow(unused_imports)]
use crate::virtio::pci_state::{is_fresh_queue, QueueState, TransportModel};
use crate::virtio::pci_transport::{
    decode_common, CommonRegister, QueueRing, VirtioDeviceCore, VirtioPciTransport, WordPart,
    DEVICE_CONFIG_OFFSET, ISR_CONFIG_OFFSET, NOTIFY_CONFIG_OFFSET, VIRTIO_PCI_BAR_SIZE,
};
#[allow(unused_imports)]
use crate::virtio::pci_transport::{
    common_register, is_notification, is_work, part_of, reset_in_progress, reset_not_drained,
    ring_address, unconfigured_queue, with_part, with_ring, PciTransportModel,
};
use crate::virtio::queue::{valid_queue_size, GuestMemory};
#[allow(unused_imports)]
use crate::virtio::queue::{is_queue_size, NoGuestMemoryAccessor, QueueLayout, VirtioQueue};
use vstd::prelude::*;

verus! {

/// The error for a device that the transport cannot serve, if there is one.
pub open spec fn core_rejection(queue_num_max: u16, queue_size_max: u16, deferred: bool) -> Option<
    DeviceError,
> {
    if queue_num_max == 0 {
        Some(
            DeviceError::InvalidInput {
                operation: "create virtio-pci transport",
                detail: ErrorDetail::Text("the device has no queue"),
            },
        )
    } else if !is_queue_size(queue_size_max as int) {
        Some(
            DeviceError::InvalidInput {
                operation: "create virtio-pci transport",
                detail: ErrorDetail::Text("the queue size is no power of two"),
            },
        )
    } else if deferred {
        Some(
            DeviceError::Unsupported {
                operation: "create virtio-pci transport",
                detail: ErrorDetail::Text("asynchronous queue processing is not supported"),
            },
        )
    } else if queue_num_max > 1 {
        Some(
            DeviceError::InvalidInput {
                operation: "create virtio-pci transport",
                detail: ErrorDetail::Text("only one queue is supported"),
            },
        )
    } else {
        None
    }
}

/// Checks whether the transport can serve a device.
pub fn check_core(queue_num_max: u16, queue_size_max: u16, deferred: bool) -> (result: DeviceResult<
    (),
>)
    ensures
        match core_rejection(queue_num_max, queue_size_max, deferred) {
            Some(error) => result == Err::<(), _>(error),
            None => result is Ok,
        },
{
    if queue_num_max == 0 {
        return Err(
            DeviceError::InvalidInput {
                operation: "create virtio-pci transport",
                detail: ErrorDetail::Text("the device has no queue"),
            },
        );
    }
    if !valid_queue_size(queue_size_max) {
        return Err(
            DeviceError::InvalidInput {
                operation: "create virtio-pci transport",
                detail: ErrorDetail::Text("the queue size is no power of two"),
            },
        );
    }
    if deferred {
        return Err(
            DeviceError::Unsupported {
                operation: "create virtio-pci transport",
                detail: ErrorDetail::Text("asynchronous queue processing is not supported"),
            },
        );
    }
    if queue_num_max > 1 {
        return Err(
            DeviceError::InvalidInput {
                operation: "create virtio-pci transport",
                detail: ErrorDetail::Text("only one queue is supported"),
            },
        );
    }
    Ok(())
}

/// Whether `model` is a transport that no driver has touched.
pub open spec fn is_fresh_transport<D>(model: PciTransportModel<D>, queue_num: u16) -> bool {
    &&& model.state == (TransportModel {
        device_feature_select: 0,
        driver_feature_select: 0,
        driver_features: 0,
        msix_config: u16::MAX,
        status: 0,
        queue_select: 0,
        queue_size: model.queue_size_max,
        queues: model.state.queues,
        queue_generation: 0,
        config_generation: 0,
        fault_reported: false,
        device_needs_reset: false,
        reset_pending: false,
    })
    &&& model.state.queues.len() == queue_num
    &&& forall|i: int|
        #![trigger model.state.queues[i]]
        0 <= i < queue_num ==> is_fresh_queue(model.state.queues[i], i, model.queue_size_max)
    &&& model.activity == QueueActivity::fresh()
    &&& model.interrupts == VirtioPciInterruptCoordinator::idle()
}

impl<D> PciTransportModel<D> {
    /// Whether the selected queue may be programmed.
    pub open spec fn programmable(self) -> bool {
        self.state.queue_select < self.state.queues.len()
            && !self.state.queues[self.state.queue_select as int].processing
    }

    /// What a read of the common configuration returns.
    pub open spec fn common_value(self, register: CommonRegister) -> u64 {
        let selected = self.state.queue_select as int;
        let present = selected < self.state.queues.len();
        let queue = self.state.queues[selected];
        match register {
            CommonRegister::DeviceFeatureSelect => self.state.device_feature_select as u64,
            CommonRegister::DeviceFeature => half_of(
                self.device_features,
                self.state.device_feature_select,
            ) as u64,
            CommonRegister::DriverFeatureSelect => self.state.driver_feature_select as u64,
            CommonRegister::DriverFeature => half_of(
                self.state.driver_features,
                self.state.driver_feature_select,
            ) as u64,
            CommonRegister::MsixConfig => self.state.msix_config as u64,
            CommonRegister::NumQueues => self.state.queues.len() as u64,
            CommonRegister::DeviceStatus => self.state.status as u64,
            CommonRegister::ConfigGeneration => self.state.config_generation as u64,
            CommonRegister::QueueSelect => self.state.queue_select as u64,
            CommonRegister::QueueSize => if present {
                queue.queue.layout.size as u64
            } else {
                0
            },
            CommonRegister::QueueMsixVector => 0xffff,
            CommonRegister::QueueEnable => if present && queue.enabled {
                1
            } else {
                0
            },
            CommonRegister::QueueNotifyOff => self.state.queue_select as u64,
            CommonRegister::QueueAddress(ring, part) => if present {
                part_of(ring_address(queue.queue.layout, ring), part)
            } else {
                0
            },
        }
    }

    /// The status that a nonzero status write leads to.
    ///
    /// A driver that asks for a feature which the device does not offer fails, and a device that
    /// needs a reset keeps saying so.
    pub open spec fn status_after(self, value: u8) -> u8 {
        let negotiated = if value & STATUS_FEATURES_OK != 0 && self.state.driver_features
            & !self.device_features != 0 {
            (value & !STATUS_FEATURES_OK) | STATUS_FAILED
        } else {
            value
        };
        if self.state.device_needs_reset {
            negotiated | STATUS_DEVICE_NEEDS_RESET
        } else {
            negotiated
        }
    }

    /// The transport after a write to the common configuration.
    pub open spec fn common_written(
        self,
        register: CommonRegister,
        value: u64,
    ) -> PciTransportModel<D> {
        let selected = self.state.queue_select as int;
        let queue = self.state.queues[selected];
        let state = self.state;
        match register {
            CommonRegister::DeviceFeatureSelect => PciTransportModel {
                state: TransportModel { device_feature_select: (value % HALF) as u32, ..state },
                ..self
            },
            CommonRegister::DriverFeatureSelect => PciTransportModel {
                state: TransportModel { driver_feature_select: (value % HALF) as u32, ..state },
                ..self
            },
            CommonRegister::DriverFeature => if state.status & STATUS_FEATURES_OK != 0 {
                self
            } else {
                PciTransportModel {
                    state: TransportModel {
                        driver_features: crate::virtio::mmio::with_half(
                            state.driver_features,
                            state.driver_feature_select,
                            (value % HALF) as u32,
                        ),
                        ..state
                    },
                    ..self
                }
            },
            CommonRegister::DeviceStatus => if value % 0x100 != 0 {
                PciTransportModel {
                    state: TransportModel {
                        status: self.status_after((value % 0x100) as u8),
                        ..state
                    },
                    ..self
                }
            } else {
                self.reset_requested()
            },
            CommonRegister::QueueSelect => PciTransportModel {
                state: TransportModel { queue_select: (value % 0x1_0000) as u16, ..state },
                ..self
            },
            CommonRegister::QueueSize => {
                let size = (value % 0x1_0000) as u16;
                if self.programmable() && queue.queue.accepts_size(size) {
                    let resized = VirtioQueue {
                        layout: QueueLayout { size, ..queue.queue.layout },
                        ..queue.queue
                    };
                    PciTransportModel {
                        state: TransportModel {
                            queue_size: size,
                            ..state.with_queue(selected, QueueState { queue: resized, ..queue })
                        },
                        ..self
                    }
                } else {
                    self
                }
            },
            CommonRegister::QueueEnable => if self.programmable() && (value % 0x1_0000 == 0
                || queue.queue.layout.configured()) {
                PciTransportModel {
                    state: state.with_queue(
                        selected,
                        QueueState { enabled: value % 0x1_0000 != 0, ..queue },
                    ),
                    ..self
                }
            } else {
                self
            },
            CommonRegister::QueueAddress(ring, part) => if self.programmable() {
                let address = with_part(ring_address(queue.queue.layout, ring), part, value);
                let moved = VirtioQueue {
                    layout: with_ring(queue.queue.layout, ring, address),
                    ..queue.queue
                };
                PciTransportModel {
                    state: state.with_queue(selected, QueueState { queue: moved, ..queue }),
                    ..self
                }
            } else {
                self
            },
            _ => self,
        }
    }

    /// What a write to the common configuration leaves to be done.
    pub open spec fn common_outcome(self, register: CommonRegister, value: u64) -> DeviceResult<
        VirtioPciWriteOutcome,
    > {
        let queue = self.state.queues[self.state.queue_select as int];
        if register == CommonRegister::DeviceStatus && value % 0x100 == 0 {
            match self.reset_result() {
                Ok(interrupt) => Ok(VirtioPciWriteOutcome::Reset { interrupt }),
                Err(error) => Err(error),
            }
        } else if register == CommonRegister::QueueEnable && value % 0x1_0000 != 0
            && self.programmable() && !queue.queue.layout.configured() {
            Err(unconfigured_queue())
        } else {
            Ok(VirtioPciWriteOutcome::Nothing)
        }
    }

    /// The transport after a reset was asked for.
    pub open spec fn reset_requested(self) -> PciTransportModel<D> {
        if self.activity.resetting {
            self
        } else if self.activity.active != 0 {
            self.reset_refused()
        } else {
            self.reset_begun()
        }
    }

    /// What asking for a reset returns.
    pub open spec fn reset_result(self) -> DeviceResult<InterruptTransition> {
        if self.activity.resetting {
            Err(reset_in_progress())
        } else if self.activity.active != 0 {
            Err(reset_not_drained())
        } else {
            Ok(self.interrupts.cleared().next())
        }
    }
}

impl<D> VirtioPciTransport<D> {
    /// Returns the status byte.
    pub fn status(&self) -> (status: u8)
        ensures
            status == self@.state.status,
    {
        self.state.status
    }

    /// Returns whether an interrupt bit is set, whatever the line does.
    pub fn interrupt_pending(&self) -> (pending: bool)
        ensures
            pending == (self@.interrupts.pending != 0),
    {
        self.interrupts.is_pending()
    }

    /// Takes back a line transition that was performed or failed, and hands out the next one.
    pub fn complete_interrupt_transition(
        &mut self,
        transition: InterruptTransition,
        success: bool,
    ) -> (next: InterruptTransition)
        ensures
            ({
                let reported = old(self)@.interrupts.reported(
                    transition,
                    if success {
                        InterruptPublication::Published
                    } else {
                        InterruptPublication::Failed
                    },
                );
                &&& next == reported.1
                &&& final(self)@ == (PciTransportModel { interrupts: reported.0, ..old(self)@ })
            }),
    {
        self.interrupts.complete_transition(transition, success)
    }

    /// Takes back a line transition that was not performed.
    pub fn suppress_interrupt_transition(&mut self, transition: InterruptTransition)
        ensures
            final(self)@ == (PciTransportModel {
                interrupts: if old(self)@.interrupts.owns(transition) {
                    old(self)@.interrupts.withdrawn()
                } else {
                    old(self)@.interrupts
                },
                ..old(self)@
            }),
    {
        self.interrupts.cancel_transition(transition);
    }

    /// Enables or disables the interrupt line, as the function's command register says.
    pub fn set_interrupt_disabled(&mut self, disabled: bool) -> (request: InterruptTransitionRequest)
        ensures
            ({
                let switched = VirtioPciInterruptCoordinator { disabled, ..old(self)@.interrupts };
                &&& request == (InterruptTransitionRequest {
                    transition: switched.next(),
                    activity: None,
                })
                &&& final(self)@ == (PciTransportModel {
                    interrupts: switched.started(),
                    ..old(self)@
                })
            }),
    {
        let transition = self.interrupts.set_disabled(disabled);
        InterruptTransitionRequest::without_activity(transition)
    }

    /// Closes the barrier of queue processing, forgets what the driver programmed and returns the
    /// line transition that the reset needs.
    ///
    /// Fails while another reset is going on or a queue is with an operation; in the latter case
    /// the barrier stays closed and a reset can be asked for again.
    pub fn reset(&mut self) -> (result: DeviceResult<InterruptTransition>)
        ensures
            result == old(self)@.reset_result(),
            final(self)@ == old(self)@.reset_requested(),
    {
        if !self.activity.begin_reset() {
            return Err(
                DeviceError::InvalidState {
                    operation: "virtio-pci reset",
                    detail: ErrorDetail::Text("another reset is in progress"),
                },
            );
        }
        if !self.activity.close_and_drain() {
            self.activity.finish_reset();
            return Err(
                DeviceError::InvalidState {
                    operation: "virtio-pci reset",
                    detail: ErrorDetail::Text("queue activity did not drain"),
                },
            );
        }
        self.state.reset(self.queue_size_max);
        Ok(self.interrupts.reset())
    }

    /// Publishes the end of a reset, if one waits for it: the status is zero and queues are
    /// processed again.
    pub fn complete_reset(&mut self)
        ensures
            final(self)@ == old(self)@.reset_completed(),
    {
        if self.state.reset_pending {
            self.state.status = 0;
            self.state.device_needs_reset = false;
            self.state.reset_pending = false;
            self.activity.reopen();
            self.activity.finish_reset();
        }
    }

    /// Gives a reset up whose line transition failed; the device keeps needing a reset.
    pub fn abort_reset(&mut self)
        ensures
            final(self)@ == (PciTransportModel {
                state: TransportModel { reset_pending: false, ..old(self)@.state },
                activity: QueueActivity { resetting: false, ..old(self)@.activity },
                ..old(self)@
            }),
    {
        self.state.reset_pending = false;
        self.activity.finish_reset();
    }

    /// Reads a register of the common configuration.
    pub fn read_common(&self, register: CommonRegister) -> (value: u64)
        ensures
            value == self@.common_value(register),
    {
        let selected: usize = self.state.queue_select as usize;
        let present = selected < self.state.queues.len();
        match register {
            CommonRegister::DeviceFeatureSelect => self.state.device_feature_select as u64,
            CommonRegister::DeviceFeature => {
                select_half(self.device_features, self.state.device_feature_select) as u64
            },
            CommonRegister::DriverFeatureSelect => self.state.driver_feature_select as u64,
            CommonRegister::DriverFeature => {
                select_half(self.state.driver_features, self.state.driver_feature_select) as u64
            },
            CommonRegister::MsixConfig => self.state.msix_config as u64,
            CommonRegister::NumQueues => self.state.queues.len() as u64,
            CommonRegister::DeviceStatus => self.state.status as u64,
            CommonRegister::ConfigGeneration => self.state.config_generation as u64,
            CommonRegister::QueueSelect => self.state.queue_select as u64,
            CommonRegister::QueueSize => if present {
                self.state.queues[selected].queue.layout.size as u64
            } else {
                0
            },
            CommonRegister::QueueMsixVector => 0xffff,
            CommonRegister::QueueEnable => if present && self.state.queues[selected].enabled {
                1
            } else {
                0
            },
            CommonRegister::QueueNotifyOff => self.state.queue_select as u64,
            CommonRegister::QueueAddress(ring, part) => if present {
                let layout = self.state.queues[selected].queue.layout;
                let address: u64 = match ring {
                    QueueRing::Desc => layout.desc_table_addr,
                    QueueRing::Driver => layout.avail_ring_addr,
                    QueueRing::Device => layout.used_ring_addr,
                };
                match part {
                    WordPart::Whole => address,
                    WordPart::Low => select_half(address, 0) as u64,
                    WordPart::High => select_half(address, 1) as u64,
                }
            } else {
                0
            },
        }
    }

    /// Writes a status byte other than zero.
    pub fn write_status(&mut self, value: u8)
        requires
            value != 0,
        ensures
            final(self)@ == (PciTransportModel {
                state: TransportModel {
                    status: old(self)@.status_after(value),
                    ..old(self)@.state
                },
                ..old(self)@
            }),
    {
        let mut status: u8 = value;
        if value & STATUS_FEATURES_OK != 0 && self.state.driver_features & !self.device_features
            != 0 {
            status = (value & !STATUS_FEATURES_OK) | STATUS_FAILED;
        }
        if self.state.device_needs_reset {
            status = status | STATUS_DEVICE_NEEDS_RESET;
        }
        self.state.status = status;
    }

    /// Writes a ring address of the selected queue, unless the queue is with an operation.
    pub fn write_ring_address(&mut self, ring: QueueRing, part: WordPart, value: u64)
        ensures
            final(self)@ == old(self)@.common_written(
                CommonRegister::QueueAddress(ring, part),
                value,
            ),
    {
        let selected: usize = self.state.queue_select as usize;
        if selected >= self.state.queues.len() || self.state.queues[selected].processing {
            return;
        }
        let layout = self.state.queues[selected].queue.layout;
        let current: u64 = match ring {
            QueueRing::Desc => layout.desc_table_addr,
            QueueRing::Driver => layout.avail_ring_addr,
            QueueRing::Device => layout.used_ring_addr,
        };
        let half: u32 = (value % HALF) as u32;
        let address: u64 = match part {
            WordPart::Whole => value,
            WordPart::Low => combine_half(current, 0, half),
            WordPart::High => combine_half(current, 1, half),
        };
        match ring {
            QueueRing::Desc => self.state.queues[selected].queue.set_desc_table_addr(address),
            QueueRing::Driver => self.state.queues[selected].queue.set_avail_ring_addr(address),
            QueueRing::Device => self.state.queues[selected].queue.set_used_ring_addr(address),
        }
    }

    /// Writes a register of the common configuration.
    pub fn write_common(&mut self, register: CommonRegister, value: u64) -> (outcome: DeviceResult<
        VirtioPciWriteOutcome,
    >)
        ensures
            final(self)@ == old(self)@.common_written(register, value),
            outcome == old(self)@.common_outcome(register, value),
    {
        let selected: usize = self.state.queue_select as usize;
        let programmable = selected < self.state.queues.len()
            && !self.state.queues[selected].processing;
        match register {
            CommonRegister::DeviceFeatureSelect => {
                self.state.device_feature_select = (value % HALF) as u32;
            },
            CommonRegister::DriverFeatureSelect => {
                self.state.driver_feature_select = (value % HALF) as u32;
            },
            CommonRegister::DriverFeature => {
                if self.state.status & STATUS_FEATURES_OK == 0 {
                    self.state.driver_features = combine_half(
                        self.state.driver_features,
                        self.state.driver_feature_select,
                        (value % HALF) as u32,
                    );
                }
            },
            CommonRegister::DeviceStatus => {
                let status: u8 = (value % 0x100) as u8;
                if status == 0 {
                    return match self.reset() {
                        Ok(interrupt) => Ok(VirtioPciWriteOutcome::Reset { interrupt }),
                        Err(error) => Err(error),
                    };
                }
                self.write_status(status);
            },
            CommonRegister::QueueSelect => {
                self.state.queue_select = (value % 0x1_0000) as u16;
            },
            CommonRegister::QueueSize => {
                let size: u16 = (value % 0x1_0000) as u16;
                if programmable {
                    if let Ok(_) = self.state.queues[selected].queue.set_size(size) {
                        self.state.queue_size = size;
                    }
                }
            },
            CommonRegister::QueueEnable => {
                let enable: u16 = (value % 0x1_0000) as u16;
                if programmable {
                    if enable != 0 && !self.state.queues[selected].queue.is_configured() {
                        return Err(
                            DeviceError::InvalidData {
                                operation: "virtio-pci queue enable",
                                detail: ErrorDetail::Text("queue addresses are not programmed"),
                            },
                        );
                    }
                    self.state.queues[selected].enabled = enable != 0;
                }
            },
            CommonRegister::QueueAddress(ring, part) => {
                self.write_ring_address(ring, part, value);
            },
            _ => {},
        }
        Ok(VirtioPciWriteOutcome::Nothing)
    }
}

/// Whether `result` is what creating a transport for a device with the given answers returns.
pub open spec fn is_created<D: VirtioDeviceCore>(
    core: D,
    queue_num_max: u16,
    queue_size_max: u16,
    deferred: bool,
    device_features: u64,
    result: DeviceResult<VirtioPciTransport<D>>,
) -> bool {
    match core_rejection(queue_num_max, queue_size_max, deferred) {
        Some(error) => result == Err::<VirtioPciTransport<D>, _>(error),
        None => {
            &&& result matches Ok(transport)
            &&& transport.core == core
            &&& transport.queue_size_max == queue_size_max
            &&& transport.device_features == device_features
            &&& is_fresh_transport(transport@, queue_num_max)
        },
    }
}

impl<D: VirtioDeviceCore> VirtioPciTransport<D> {
    /// Creates the transport of a device, whose answers decide whether it can be served.
    pub fn try_new(core: D) -> (result: DeviceResult<VirtioPciTransport<D>>)
        ensures
            exists|queue_num_max: u16, queue_size_max: u16, deferred: bool, device_features: u64|
                {
                    &&& call_ensures(D::queue_num_max, (&core,), queue_num_max)
                    &&& call_ensures(D::queue_size_max, (&core,), queue_size_max)
                    &&& call_ensures(D::deferred_processing, (&core,), deferred)
                    &&& call_ensures(D::device_features, (&core,), device_features)
                    &&& #[trigger] is_created(
                        core,
                        queue_num_max,
                        queue_size_max,
                        deferred,
                        device_features,
                        result,
                    )
                },
    {
        let queue_num_max: u16 = core.queue_num_max();
        let queue_size_max: u16 = core.queue_size_max();
        let deferred = core.deferred_processing();
        let device_features: u64 = core.device_features();
        let ghost device = core;
        let result = match check_core(queue_num_max, queue_size_max, deferred) {
            Ok(_) => Ok(
                VirtioPciTransport {
                    core,
                    queue_size_max,
                    device_features,
                    state: TransportState::new(queue_num_max, queue_size_max),
                    activity: QueueActivity::new(),
                    interrupts: VirtioPciInterruptCoordinator::new(),
                },
            ),
            Err(error) => Err(error),
        };
        assert(is_created(
            device,
            queue_num_max,
            queue_size_max,
            deferred,
            device_features,
            result,
        ));
        result
    }

    /// Reads the common or the device-specific configuration.
    pub fn read_mmio(&self, offset: u64, width: AccessWidth) -> (value: DeviceResult<u64>)
        ensures
            is_config_read(self@, offset, width, value),
    {
        if offset < NOTIFY_CONFIG_OFFSET {
            return match decode_common(offset, width) {
                Some(register) => Ok(self.read_common(register)),
                None => Err(DeviceError::OutOfRange { addr: offset }),
            };
        }
        if offset >= DEVICE_CONFIG_OFFSET && offset < VIRTIO_PCI_BAR_SIZE {
            return self.core.read_config(offset - DEVICE_CONFIG_OFFSET, width);
        }
        Err(DeviceError::OutOfRange { addr: offset })
    }

    /// Reads the BAR. Reading the interrupt status clears it, which may ask for a line transition.
    pub fn read_bar_with_interrupt(&mut self, offset: u64, width: AccessWidth) -> (result:
        DeviceResult<(u64, InterruptTransitionRequest)>)
        ensures
            if offset == ISR_CONFIG_OFFSET && width == AccessWidth::Byte {
                let read = VirtioPciInterruptCoordinator { pending: 0, ..old(self)@.interrupts };
                &&& result == Ok::<_, DeviceError>(
                    (
                        old(self)@.interrupts.pending as u64,
                        InterruptTransitionRequest { transition: read.next(), activity: None },
                    ),
                )
                &&& final(self)@ == (PciTransportModel {
                    interrupts: read.started(),
                    ..old(self)@
                })
            } else {
                &&& final(self)@ == old(self)@
                &&& match result {
                    Ok((value, request)) => {
                        &&& is_config_read(old(self)@, offset, width, Ok(value))
                        &&& request == (InterruptTransitionRequest {
                            transition: InterruptTransition::Unchanged,
                            activity: None,
                        })
                    },
                    Err(error) => is_config_read(old(self)@, offset, width, Err(error)),
                }
            },
    {
        if offset == ISR_CONFIG_OFFSET && width == AccessWidth::Byte {
            let (value, transition) = self.interrupts.read_isr();
            return Ok(
                (value as u64, InterruptTransitionRequest::without_activity(transition)),
            );
        }
        match self.read_mmio(offset, width) {
            Ok(value) => Ok(
                (
                    value,
                    InterruptTransitionRequest::without_activity(InterruptTransition::Unchanged),
                ),
            ),
            Err(error) => Err(error),
        }
    }

    /// Writes the BAR. A write to the notification register processes the queue that it names.
    pub fn write_mmio_with_dma<M: GuestMemory>(
        &mut self,
        offset: u64,
        width: AccessWidth,
        value: u64,
        dma_enabled: bool,
        memory: &mut M,
    ) -> (outcome: DeviceResult<VirtioPciWriteOutcome>)
        ensures
            exists|
                calls: Seq<&mut M>,
                states: Seq<M>,
                device: Option<&mut D>,
                queue: Option<&mut VirtioQueue<NoGuestMemoryAccessor>>,
            |
                {
                    &&& #[trigger] is_chain(calls, states)
                    &&& states.first() == *old(memory)
                    &&& states.last() == *final(memory)
                    &&& forall|i: int|
                        0 <= i < calls.len() ==> *final(#[trigger] calls[i]) == states[i + 1]
                    &&& #[trigger] is_work(device, queue)
                    &&& device matches Some(device) ==> *final(device) == final(self)@.core
                    &&& queue matches Some(queue) ==> *final(queue)
                        == final(self)@.state.queues[notified_queue(value) as int].queue
                    &&& is_bar_write(
                        calls,
                        device,
                        queue,
                        old(self)@,
                        offset,
                        width,
                        value,
                        dma_enabled,
                        final(self)@,
                        outcome,
                    )
                },
    {
        assert(is_chain(Seq::<&mut M>::empty(), seq![*memory]));
        assert(is_work(None::<&mut D>, None));
        if offset < NOTIFY_CONFIG_OFFSET {
            return match decode_common(offset, width) {
                Some(register) => self.write_common(register, value),
                None => Err(DeviceError::OutOfRange { addr: offset }),
            };
        }
        if offset == NOTIFY_CONFIG_OFFSET && width == AccessWidth::Word {
            return self.notify_queue((value % 0x1_0000) as u16, dma_enabled, memory);
        }
        if offset >= DEVICE_CONFIG_OFFSET && offset < VIRTIO_PCI_BAR_SIZE {
            let said = self.core.write_config(offset - DEVICE_CONFIG_OFFSET, width, value);
            proof {
                let device = choose|device: &mut D|
                    {
                        &&& #[trigger] call_ensures(
                            D::write_config,
                            (device, (offset - DEVICE_CONFIG_OFFSET) as u64, width, value),
                            said,
                        )
                        &&& *device == old(self)@.core
                        &&& *final(device) == self@.core
                    };
                assert(is_work(Some(device), None));
            }
            return match said {
                Ok(_) => Ok(VirtioPciWriteOutcome::Nothing),
                Err(error) => Err(error),
            };
        }
        Err(DeviceError::OutOfRange { addr: offset })
    }
}

/// Whether `value` is what a read of the common or the device-specific configuration returns.
pub open spec fn is_config_read<D: VirtioDeviceCore>(
    transport: PciTransportModel<D>,
    offset: u64,
    width: AccessWidth,
    value: DeviceResult<u64>,
) -> bool {
    if offset < NOTIFY_CONFIG_OFFSET {
        match common_register(offset, width) {
            Some(register) => value == Ok::<_, DeviceError>(transport.common_value(register)),
            None => value == Err::<u64, _>(DeviceError::OutOfRange { addr: offset }),
        }
    } else if DEVICE_CONFIG_OFFSET <= offset < VIRTIO_PCI_BAR_SIZE {
        call_ensures(
            D::read_config,
            (&transport.core, (offset - DEVICE_CONFIG_OFFSET) as u64, width),
            value,
        )
    } else {
        value == Err::<u64, _>(DeviceError::OutOfRange { addr: offset })
    }
}

/// The queue that a write of `value` to the notification register names.
pub open spec fn notified_queue(value: u64) -> u16 {
    (value % 0x1_0000) as u16
}

/// Whether `after` and `outcome` are what a write to the BAR makes of `before`: `calls` are the
/// accesses to guest memory, `device` is the call of the device, and `queue` the queue that is
/// handed to it, where there are any.
pub open spec fn is_bar_write<D: VirtioDeviceCore, M: GuestMemory>(
    calls: Seq<&mut M>,
    device: Option<&mut D>,
    queue: Option<&mut VirtioQueue<NoGuestMemoryAccessor>>,
    before: PciTransportModel<D>,
    offset: u64,
    width: AccessWidth,
    value: u64,
    dma_enabled: bool,
    after: PciTransportModel<D>,
    outcome: DeviceResult<VirtioPciWriteOutcome>,
) -> bool {
    if offset == NOTIFY_CONFIG_OFFSET && width == AccessWidth::Word {
        is_notification(
            calls,
            device,
            queue,
            before,
            notified_queue(value),
            dma_enabled,
            after,
            outcome,
        )
    } else {
        &&& calls.len() == 0
        &&& queue is None
        &&& if offset < NOTIFY_CONFIG_OFFSET {
            &&& device is None
            &&& match common_register(offset, width) {
                Some(register) => {
                    &&& after == before.common_written(register, value)
                    &&& outcome == before.common_outcome(register, value)
                },
                None => {
                    &&& after == before
                    &&& outcome == Err::<VirtioPciWriteOutcome, _>(
                        DeviceError::OutOfRange { addr: offset },
                    )
                },
            }
        } else if DEVICE_CONFIG_OFFSET <= offset < VIRTIO_PCI_BAR_SIZE {
            &&& after == (PciTransportModel { core: after.core, ..before })
            &&& device matches Some(device)
            &&& *device == before.core
            &&& exists|said: DeviceResult<()>|
                {
                    &&& #[trigger] call_ensures(
                        D::write_config,
                        (device, (offset - DEVICE_CONFIG_OFFSET) as u64, width, value),
                        said,
                    )
                    &&& outcome == (match said {
                        Ok(_) => Ok::<_, DeviceError>(VirtioPciWriteOutcome::Nothing),
                        Err(error) => Err(error),
                    })
                }
        } else {
            &&& device is None
            &&& after == before
            &&& outcome == Err::<VirtioPciWriteOutcome, _>(
                DeviceError::OutOfRange { addr: offset },
            )
        }
    }
}

/// A device that needs a reset keeps saying so, whatever nonzero status the driver writes.
pub proof fn law_fault_survives_status_writes<D>(model: PciTransportModel<D>, value: u64)
    requires
        model.state.device_needs_reset,
        value % 0x100 != 0,
    ensures
        ({
            let after = model.common_written(CommonRegister::DeviceStatus, value);
            &&& after.state.status & STATUS_DEVICE_NEEDS_RESET != 0
            &&& after.state.device_needs_reset
            &&& !after.state.running()
        }),
{
    let byte = (value % 0x100) as u8;
    assert(forall|status: u8| #[trigger] (status | 64) & 64 != 0) by (bit_vector);
    assert(model.status_after(byte) & STATUS_DEVICE_NEEDS_RESET != 0);
}

/// A fault raises its configuration interrupt once: a second fault before the reset raises none.
pub proof fn law_fault_is_reported_once<D>(model: PciTransportModel<D>)
    ensures
        model.fault().0.state.fault_reported,
        model.fault().0.fault().1 == InterruptTransition::Unchanged,
        model.fault().0.fault().0.interrupts == model.fault().0.interrupts,
        model.fault().0.state.status & STATUS_DEVICE_NEEDS_RESET != 0,
        !model.fault().0.state.running(),
{
    let status = model.state.status;
    assert((status | 64) & 64 != 0) by (bit_vector);
}

/// A reset that nothing holds up, once completed, leaves status zero, no interrupt bit, blank and
/// disabled queues, an open barrier, and another queue lifetime.
pub proof fn law_completed_reset_starts_over<D>(model: PciTransportModel<D>, index: int)
    requires
        model.reset_result() is Ok,
        0 <= index < model.state.queues.len(),
    ensures
        ({
            let after = model.reset_requested().reset_completed();
            &&& after.state.status == 0
            &&& after.interrupts.pending == 0
            &&& after.state.driver_features == 0
            &&& !after.state.fault_reported && !after.state.device_needs_reset
            &&& after.state.queues[index] == model.state.queues[index].as_reset()
            &&& !after.state.queues[index].enabled
            &&& after.activity.admits()
            &&& after.state.queue_generation != model.state.queue_generation
            &&& !model.reset_requested().activity.accepting
        }),
{
}

/// An operation that is inside the barrier holds up a reset; once it has left, the reset can be had.
pub proof fn law_activity_holds_up_reset<D>(model: PciTransportModel<D>)
    requires
        !model.activity.resetting,
        model.activity.active == 0,
    ensures
        ({
            let busy = PciTransportModel { activity: model.activity.entered(), ..model };
            let refused = busy.reset_requested();
            let left = PciTransportModel { activity: refused.activity.left(), ..refused };
            &&& busy.reset_result() == Err::<InterruptTransition, _>(reset_not_drained())
            &&& refused.state == model.state
            &&& !refused.activity.admits()
            &&& left.reset_result() is Ok
        }),
{
}

/// A queue that is with an operation is not processed a second time, and is not changed by any
/// register write but a reset.
pub proof fn law_processing_queue_is_exclusive<D>(
    model: PciTransportModel<D>,
    index: int,
    register: CommonRegister,
    value: u64,
    dma_enabled: bool,
)
    requires
        0 <= index < model.state.queues.len(),
        model.state.queues[index].processing,
    ensures
        !model.state.notifiable(index, dma_enabled),
        !(register == CommonRegister::DeviceStatus && value % 0x100 == 0) ==> model.common_written(
            register,
            value,
        ).state.queues[index] == model.state.queues[index],
{
}

} // verus!
