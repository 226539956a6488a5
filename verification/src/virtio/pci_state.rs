//! State of the VirtIO PCI transport: queues, activity barrier and notification outcomes.

use crate::access::DeviceError;
#[allow(unused_imports)]
use crate::calls::is_chain;
use crate::virtio::interrupt::{
    InterruptPublisher, InterruptTransition, VirtioPciInterruptCoordinator,
};
#[allow(unused_imports)]
use crate::virtio::interrupt::{is_publication_end, InterruptPublication};
use crate::virtio::queue::{NoGuestMemoryAccessor, VirtioQueue, VirtioQueueGeneration};
#[allow(unused_imports)]
use crate::virtio::queue::next_generation;
use std::sync::Arc;
use vstd::prelude::*;

verus! {

/// Status byte bit: the driver is ready to drive the device.
pub const STATUS_DRIVER_OK: u8 = 4;

/// Status byte bit: feature negotiation is complete.
pub const STATUS_FEATURES_OK: u8 = 8;

/// Status byte bit: the device met an error that only a reset repairs.
pub const STATUS_DEVICE_NEEDS_RESET: u8 = 64;

/// Status byte bit: the driver or the transport gave up.
pub const STATUS_FAILED: u8 = 128;

/// Barrier that queue-processing operations pass.
#[derive(Clone, Copy, Debug, PartialEq, Eq, Structural)]
pub struct QueueActivity {
    /// Whether new operations are let in.
    pub accepting: bool,
    /// Operations that are inside.
    pub active: usize,
    /// Whether a reset has begun and is not finished.
    pub resetting: bool,
}

/// Permit covering queue activity through completion publication.
#[derive(Debug)]
pub struct ActivityPermit {
    /// Lifetime that the operation was let in for.
    pub generation: VirtioQueueGeneration,
}

impl QueueActivity {
    /// The open barrier that nobody has passed.
    pub open spec fn fresh() -> QueueActivity {
        QueueActivity { accepting: true, active: 0, resetting: false }
    }

    /// Whether an operation may enter.
    pub open spec fn admits(self) -> bool {
        self.accepting && self.active < usize::MAX
    }

    /// This barrier with one more operation inside.
    pub open spec fn entered(self) -> QueueActivity {
        QueueActivity { active: (self.active + 1) as usize, ..self }
    }

    /// This barrier with one operation less inside.
    pub open spec fn left(self) -> QueueActivity {
        QueueActivity {
            active: if self.active == 0 {
                0
            } else {
                (self.active - 1) as usize
            },
            ..self
        }
    }

    /// Creates an open barrier.
    pub fn new() -> (activity: QueueActivity)
        ensures
            activity == Self::fresh(),
    {
        QueueActivity { accepting: true, active: 0, resetting: false }
    }

    /// Claims the barrier for a reset, unless another reset has it.
    pub fn begin_reset(&mut self) -> (begun: bool)
        ensures
            begun == !old(self).resetting,
            *final(self) == (QueueActivity { resetting: true, ..*old(self) }),
    {
        let begun = !self.resetting;
        self.resetting = true;
        begun
    }

    /// Lets an operation in.
    pub fn acquire(&mut self, generation: VirtioQueueGeneration) -> (permit: Option<ActivityPermit>)
        ensures
            permit == (if old(self).admits() {
                Some(ActivityPermit { generation })
            } else {
                None
            }),
            *final(self) == (if old(self).admits() {
                old(self).entered()
            } else {
                *old(self)
            }),
    {
        if !self.accepting || self.active == usize::MAX {
            return None;
        }
        self.active = self.active + 1;
        Some(ActivityPermit { generation })
    }

    /// Takes an operation out again.
    pub fn release(&mut self, permit: ActivityPermit)
        ensures
            *final(self) == old(self).left(),
    {
        if self.active > 0 {
            self.active = self.active - 1;
        }
    }

    /// Closes the barrier and returns whether nobody is inside.
    ///
    /// The transport is lent to the access that resets it, and every other access keeps it until its
    /// operation has left, so nobody could leave between two looks and one decides.
    pub fn close_and_drain(&mut self) -> (drained: bool)
        ensures
            drained == (old(self).active == 0),
            *final(self) == (QueueActivity { accepting: false, ..*old(self) }),
    {
        self.accepting = false;
        self.active == 0
    }

    /// Opens the barrier.
    pub fn reopen(&mut self)
        ensures
            *final(self) == (QueueActivity { accepting: true, ..*old(self) }),
    {
        self.accepting = true;
    }

    /// Gives the barrier up after a reset.
    pub fn finish_reset(&mut self)
        ensures
            *final(self) == (QueueActivity { resetting: false, ..*old(self) }),
    {
        self.resetting = false;
    }
}

/// One queue of the transport.
pub struct QueueState {
    /// The queue.
    pub queue: VirtioQueue<NoGuestMemoryAccessor>,
    /// Whether the driver has enabled it.
    pub enabled: bool,
    /// Whether it is with an operation.
    pub processing: bool,
}

impl QueueState {
    /// This queue as if the driver had never touched it.
    pub open spec fn as_reset(self) -> QueueState {
        QueueState { queue: self.queue.as_reset(), enabled: false, processing: false }
    }
}

/// A fresh queue with the given position.
pub open spec fn is_fresh_queue(queue: QueueState, index: int, size: u16) -> bool {
    &&& !queue.enabled
    &&& !queue.processing
    &&& queue.queue.index == index
    &&& queue.queue.max_size == size
    &&& queue.queue.layout == crate::virtio::queue::QueueLayout::blank(size)
    &&& queue.queue.last_avail_idx == 0
    &&& !queue.queue.faulted
    &&& !queue.queue.layout_rejected
}

/// Registers and queues of the transport.
pub struct TransportState {
    /// Selected device-feature window.
    pub device_feature_select: u32,
    /// Selected driver-feature window.
    pub driver_feature_select: u32,
    /// Features that the driver accepted.
    pub driver_features: u64,
    /// Vector of configuration changes.
    pub msix_config: u16,
    /// Status byte.
    pub status: u8,
    /// Selected queue.
    pub queue_select: u16,
    /// Size that the driver chose last.
    pub queue_size: u16,
    /// The queues.
    pub queues: Vec<QueueState>,
    /// Queue configuration lifetime.
    pub queue_generation: u64,
    /// Generation of the device-specific configuration.
    pub config_generation: u8,
    /// Whether a fault has raised the configuration interrupt.
    pub fault_reported: bool,
    /// Whether only a reset gets the device going again.
    pub device_needs_reset: bool,
    /// Whether a reset waits for its completion.
    pub reset_pending: bool,
}

/// What a [`TransportState`] holds, with its queues as a sequence.
#[verifier::ext_equal]
pub struct TransportModel {
    /// Selected device-feature window.
    pub device_feature_select: u32,
    /// Selected driver-feature window.
    pub driver_feature_select: u32,
    /// Features that the driver accepted.
    pub driver_features: u64,
    /// Vector of configuration changes.
    pub msix_config: u16,
    /// Status byte.
    pub status: u8,
    /// Selected queue.
    pub queue_select: u16,
    /// Size that the driver chose last.
    pub queue_size: u16,
    /// The queues.
    pub queues: Seq<QueueState>,
    /// Queue configuration lifetime.
    pub queue_generation: u64,
    /// Generation of the device-specific configuration.
    pub config_generation: u8,
    /// Whether a fault has raised the configuration interrupt.
    pub fault_reported: bool,
    /// Whether only a reset gets the device going again.
    pub device_needs_reset: bool,
    /// Whether a reset waits for its completion.
    pub reset_pending: bool,
}

impl View for TransportState {
    type V = TransportModel;

    open spec fn view(&self) -> TransportModel {
        TransportModel {
            device_feature_select: self.device_feature_select,
            driver_feature_select: self.driver_feature_select,
            driver_features: self.driver_features,
            msix_config: self.msix_config,
            status: self.status,
            queue_select: self.queue_select,
            queue_size: self.queue_size,
            queues: self.queues@,
            queue_generation: self.queue_generation,
            config_generation: self.config_generation,
            fault_reported: self.fault_reported,
            device_needs_reset: self.device_needs_reset,
            reset_pending: self.reset_pending,
        }
    }
}

impl TransportModel {
    /// Whether a driver may kick the device: it is ready and has met no error.
    pub open spec fn running(self) -> bool {
        self.status & STATUS_DRIVER_OK != 0 && self.status & STATUS_DEVICE_NEEDS_RESET == 0
    }

    /// Whether a notification of the given queue is processed.
    pub open spec fn notifiable(self, index: int, dma_enabled: bool) -> bool {
        &&& 0 <= index < self.queues.len()
        &&& self.running()
        &&& self.queues[index].enabled
        &&& !self.queues[index].processing
        &&& dma_enabled
    }

    /// This state with one queue replaced.
    pub open spec fn with_queue(self, index: int, queue: QueueState) -> TransportModel {
        TransportModel { queues: self.queues.update(index, queue), ..self }
    }

    /// This state after a fault.
    pub open spec fn faulted(self) -> TransportModel {
        TransportModel {
            device_needs_reset: true,
            status: self.status | STATUS_DEVICE_NEEDS_RESET,
            fault_reported: true,
            ..self
        }
    }

    /// This state after a reset, before its completion.
    pub open spec fn as_reset(self, queue_size_max: u16) -> TransportModel {
        TransportModel {
            device_feature_select: 0,
            driver_feature_select: 0,
            driver_features: 0,
            msix_config: u16::MAX,
            status: STATUS_DEVICE_NEEDS_RESET,
            queue_select: 0,
            queue_size: queue_size_max,
            queues: Seq::new(self.queues.len(), |i: int| self.queues[i].as_reset()),
            queue_generation: next_generation(self.queue_generation),
            config_generation: if self.config_generation == u8::MAX {
                0
            } else {
                (self.config_generation + 1) as u8
            },
            fault_reported: false,
            device_needs_reset: true,
            reset_pending: true,
        }
    }
}

impl TransportState {
    /// Creates the state of a device that no driver has touched.
    pub fn new(queue_num_max: u16, queue_size_max: u16) -> (state: TransportState)
        ensures
            state@ == (TransportModel {
                device_feature_select: 0,
                driver_feature_select: 0,
                driver_features: 0,
                msix_config: u16::MAX,
                status: 0,
                queue_select: 0,
                queue_size: queue_size_max,
                queues: state@.queues,
                queue_generation: 0,
                config_generation: 0,
                fault_reported: false,
                device_needs_reset: false,
                reset_pending: false,
            }),
            state@.queues.len() == queue_num_max,
            forall|i: int|
                #![trigger state@.queues[i]]
                0 <= i < queue_num_max ==> is_fresh_queue(state@.queues[i], i, queue_size_max),
    {
        let mut queues: Vec<QueueState> = Vec::new();
        let mut index: u16 = 0;
        while index < queue_num_max
            invariant
                index <= queue_num_max,
                queues@.len() == index,
                forall|i: int|
                    #![trigger queues@[i]]
                    0 <= i < index ==> is_fresh_queue(queues@[i], i, queue_size_max),
            decreases queue_num_max - index,
        {
            queues.push(
                QueueState {
                    queue: VirtioQueue::new(index, queue_size_max, Arc::new(NoGuestMemoryAccessor)),
                    enabled: false,
                    processing: false,
                },
            );
            index = index + 1;
        }
        TransportState {
            device_feature_select: 0,
            driver_feature_select: 0,
            driver_features: 0,
            msix_config: u16::MAX,
            status: 0,
            queue_select: 0,
            queue_size: queue_size_max,
            queues,
            queue_generation: 0,
            config_generation: 0,
            fault_reported: false,
            device_needs_reset: false,
            reset_pending: false,
        }
    }

    /// Forgets everything that the driver has programmed and starts a new queue lifetime.
    ///
    /// The status says that the device needs a reset until the reset is completed.
    pub fn reset(&mut self, queue_size_max: u16)
        ensures
            final(self)@ == old(self)@.as_reset(queue_size_max),
    {
        self.device_feature_select = 0;
        self.driver_feature_select = 0;
        self.driver_features = 0;
        self.msix_config = u16::MAX;
        self.status = STATUS_DEVICE_NEEDS_RESET;
        self.queue_select = 0;
        self.queue_size = queue_size_max;
        self.queue_generation = if self.queue_generation == u64::MAX {
            0
        } else {
            self.queue_generation + 1
        };
        self.config_generation = if self.config_generation == u8::MAX {
            0
        } else {
            self.config_generation + 1
        };
        self.fault_reported = false;
        self.device_needs_reset = true;
        self.reset_pending = true;
        let length: usize = self.queues.len();
        let mut index: usize = 0;
        while index < length
            invariant
                index <= length,
                length == old(self)@.queues.len(),
                self.queues@.len() == length,
                forall|i: int|
                    #![trigger self.queues@[i]]
                    0 <= i < index ==> self.queues@[i] == old(self)@.queues[i].as_reset(),
                forall|i: int|
                    #![trigger self.queues@[i]]
                    index <= i < length ==> self.queues@[i] == old(self)@.queues[i],
                self@ == (TransportModel {
                    queues: self.queues@,
                    ..old(self)@.as_reset(queue_size_max)
                }),
            decreases length - index,
        {
            self.queues[index].enabled = false;
            self.queues[index].processing = false;
            self.queues[index].queue.reset();
            index = index + 1;
        }
    }
}

/// What a device did about a queue notification.
#[derive(Clone, Copy, Debug, PartialEq, Eq, Structural)]
pub enum QueueNotifyOutcome {
    /// There was nothing to do.
    Idle,
    /// Buffers were used.
    Completed {
        /// Whether the driver asked to be interrupted.
        notify: bool,
    },
    /// The device goes on later.
    Deferred {
        /// Whether the driver asked to be interrupted when it does.
        notify: bool,
    },
}

/// Queue notification result whose activity permit remains alive until the endpoint has published
/// or deliberately suppressed the completion interrupt.
#[derive(Debug)]
pub struct QueueNotification {
    /// What the device did.
    pub outcome: QueueNotifyOutcome,
    /// Transition to be performed.
    pub interrupt: InterruptTransition,
    /// Permit of the operation, if processing was admitted.
    pub activity: Option<ActivityPermit>,
}

impl QueueNotification {
    /// The notification of a queue that was not processed.
    pub open spec fn idle() -> QueueNotification {
        QueueNotification {
            outcome: QueueNotifyOutcome::Idle,
            interrupt: InterruptTransition::Unchanged,
            activity: None,
        }
    }

    /// The barrier once this notification is through.
    pub open spec fn barrier_after(self, activity: QueueActivity) -> QueueActivity {
        match self.activity {
            Some(_) => activity.left(),
            None => activity,
        }
    }

    /// Returns the device result.
    pub fn outcome(&self) -> (outcome: QueueNotifyOutcome)
        ensures
            outcome == self.outcome,
    {
        self.outcome
    }

    /// Returns the interrupt transition to execute under the endpoint IRQ transition permit.
    pub fn interrupt_transition(&self) -> (transition: InterruptTransition)
        ensures
            transition == self.interrupt,
    {
        self.interrupt
    }

    /// Returns the queue configuration generation covered by this notification, if processing was
    /// admitted.
    pub fn generation(&self) -> (generation: Option<VirtioQueueGeneration>)
        ensures
            generation == (match self.activity {
                Some(permit) => Some(permit.generation),
                None => None,
            }),
    {
        match &self.activity {
            Some(permit) => Some(permit.generation),
            None => None,
        }
    }

    /// Ends the activity without publishing its transition, which is suppressed.
    pub fn complete(
        self,
        interrupts: &mut VirtioPciInterruptCoordinator,
        activity: &mut QueueActivity,
    )
        ensures
            *final(interrupts) == old(interrupts).reported(
                self.interrupt,
                InterruptPublication::Suppressed,
            ).0,
            *final(activity) == self.barrier_after(*old(activity)),
    {
        if self.interrupt != InterruptTransition::Unchanged {
            let _ = interrupts.suppress_queue_completion(self.interrupt);
        }
        if let Some(permit) = self.activity {
            activity.release(permit);
        }
    }

    /// Publishes the completion transition, and what follows from it, and then ends the activity.
    pub fn publish<P: InterruptPublisher>(
        self,
        interrupts: &mut VirtioPciInterruptCoordinator,
        activity: &mut QueueActivity,
        publisher: &mut P,
    )
        ensures
            exists|calls: Seq<&mut P>, states: Seq<P>|
                {
                    &&& #[trigger] is_chain(calls, states)
                    &&& states.first() == *old(publisher)
                    &&& states.last() == *final(publisher)
                    &&& forall|i: int|
                        0 <= i < calls.len() ==> *final(#[trigger] calls[i]) == states[i + 1]
                    &&& is_publication_end(
                        calls,
                        *old(interrupts),
                        self.interrupt,
                        *final(interrupts),
                    )
                },
            *final(activity) == self.barrier_after(*old(activity)),
    {
        interrupts.publish(self.interrupt, publisher);
        if let Some(permit) = self.activity {
            activity.release(permit);
        }
    }
}

/// Interrupt transition that is retained until its endpoint callback finishes.
#[derive(Debug)]
pub struct InterruptTransitionRequest {
    /// The transition.
    pub transition: InterruptTransition,
    /// Permit of the operation that it belongs to, if any.
    pub activity: Option<ActivityPermit>,
}

impl InterruptTransitionRequest {
    /// Retains a transition together with the permit of its operation.
    pub fn new(transition: InterruptTransition, activity: Option<ActivityPermit>) -> (request: Self)
        ensures
            request == (InterruptTransitionRequest { transition, activity }),
    {
        InterruptTransitionRequest { transition, activity }
    }

    /// Retains a transition that belongs to no operation.
    pub fn without_activity(transition: InterruptTransition) -> (request: Self)
        ensures
            request == (InterruptTransitionRequest { transition, activity: None }),
    {
        InterruptTransitionRequest { transition, activity: None }
    }

    /// Returns the physical transition that the endpoint must publish.
    pub fn transition(&self) -> (transition: InterruptTransition)
        ensures
            transition == self.transition,
    {
        self.transition
    }

    /// Ends the request: a transition that is still with the endpoint is taken back, and the
    /// operation leaves the barrier.
    pub fn finish(
        self,
        interrupts: &mut VirtioPciInterruptCoordinator,
        activity: &mut QueueActivity,
    )
        ensures
            *final(interrupts) == (if old(interrupts).owns(self.transition) {
                old(interrupts).withdrawn()
            } else {
                *old(interrupts)
            }),
            *final(activity) == (match self.activity {
                Some(_) => old(activity).left(),
                None => *old(activity),
            }),
    {
        interrupts.cancel_transition(self.transition);
        if let Some(permit) = self.activity {
            activity.release(permit);
        }
    }
}

/// What a write to the transport leaves to be done.
#[derive(Debug)]
#[allow(inconsistent_fields)]
pub enum VirtioPciWriteOutcome {
    /// Nothing.
    Nothing,
    /// A reset has begun: the transition is performed, and the reset completed.
    Reset {
        /// Transition that lowers the line.
        interrupt: InterruptTransition,
    },
    /// Queue processing failed: the transition is performed, the permit released, and the error
    /// reported.
    Fault {
        /// What went wrong.
        error: DeviceError,
        /// Transition that reports the configuration change.
        interrupt: InterruptTransition,
        /// Permit of the operation.
        activity: ActivityPermit,
    },
    /// A queue was notified.
    QueueNotified(QueueNotification),
}

} // verus!
