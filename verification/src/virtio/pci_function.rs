//! Endpoint adapter from the VirtIO transport to a PCI function.
//!
//! PCI topology and BAR placement belong to the PCI root. The adapter takes an authenticated BAR or
//! config callback to the BAR-relative transport, and performs the line transitions that follow.

use crate::access::{
    AccessWidth, DeviceAccess, DeviceError, DeviceResult, DmaGrant, ErrorDetail, Resource,
};
#[allow(unused_imports)]
use crate::access::BusKind;
#[allow(unused_imports)]
use crate::calls::is_chain;
use crate::pci::capability::PciConfigEffectId;
use crate::pci::config::PciCommandState;
use crate::pci::effect::{PciBarAccess, PciConfigReadEffect, PciConfigWriteEffect};
use crate::pci::endpoint::EndpointIrqTransitionPermit;
use crate::virtio::context_memory::DeviceContextMemory;
use crate::virtio::interrupt::{InterruptPublication, InterruptTransition};
#[allow(unused_imports)]
use crate::virtio::interrupt::VirtioPciInterruptCoordinator;
use crate::virtio::pci_capabilities::{decode_pci_cfg, VIRTIO_PCI_CONFIG_EFFECT_ID};
#[allow(unused_imports)]
use crate::virtio::pci_capabilities::{reaches_bar, window_error, window_target};
#[allow(unused_imports)]
use crate::virtio::pci_registers::{is_bar_write, is_config_read, is_created, notified_queue};
use crate::virtio::pci_state::{
    InterruptTransitionRequest, QueueNotification, VirtioPciWriteOutcome,
};
#[allow(unused_imports)]
use crate::virtio::pci_state::{QueueActivity, TransportModel};
use crate::virtio::pci_transport::{VirtioDeviceCore, VirtioPciTransport};
#[allow(unused_imports)]
use crate::virtio::pci_transport::{is_work, PciTransportModel, ISR_CONFIG_OFFSET};
use crate::virtio::queue::GuestMemory;
#[allow(unused_imports)]
use crate::virtio::queue::{NoGuestMemoryAccessor, VirtioQueue};
use vstd::prelude::*;

verus! {

/// What an endpoint callback offers to change the interrupt line with.
pub trait IrqTransitionContext {
    /// Performs `transition` on the endpoint's line under the endpoint's IRQ permit.
    ///
    /// Fails with `InvalidState` where no permit is granted.
    fn with_irq_transition(&mut self, transition: InterruptTransition) -> DeviceResult<()>;
}

/// How an attempt to change the line ended.
#[derive(Debug)]
pub enum TransitionResult {
    /// The line was changed.
    Published,
    /// No permit was granted.
    Suppressed,
    /// The line could not be changed.
    Failed(DeviceError),
}

/// What the answer to an attempt stands for.
pub open spec fn attempt_result(attempt: DeviceResult<()>) -> TransitionResult {
    match attempt {
        Ok(_) => TransitionResult::Published,
        Err(DeviceError::InvalidState { operation, detail }) => TransitionResult::Suppressed,
        Err(error) => TransitionResult::Failed(error),
    }
}

/// Tells what the answer to an attempt stands for.
pub fn classify_attempt(attempt: DeviceResult<()>) -> (result: TransitionResult)
    ensures
        result == attempt_result(attempt),
{
    match attempt {
        Ok(_) => TransitionResult::Published,
        Err(DeviceError::InvalidState { .. }) => TransitionResult::Suppressed,
        Err(error) => TransitionResult::Failed(error),
    }
}

/// Whether the attempt behind `call` to perform `transition` can end with `result`.
pub open spec fn attempts<C: IrqTransitionContext>(
    call: &mut C,
    transition: InterruptTransition,
    result: TransitionResult,
) -> bool {
    exists|said: DeviceResult<()>|
        {
            &&& #[trigger] call_ensures(C::with_irq_transition, (call, transition), said)
            &&& result == attempt_result(said)
        }
}

/// What the end of an attempt is reported as.
pub open spec fn publication_of(result: TransitionResult) -> InterruptPublication {
    match result {
        TransitionResult::Published => InterruptPublication::Published,
        TransitionResult::Suppressed => InterruptPublication::Suppressed,
        TransitionResult::Failed(_) => InterruptPublication::Failed,
    }
}

/// Attempts to change the line. Nothing is attempted where it is to be left alone.
pub fn execute_transition<C: IrqTransitionContext>(
    context: &mut C,
    transition: InterruptTransition,
) -> (result: TransitionResult)
    ensures
        transition == InterruptTransition::Unchanged ==> result == TransitionResult::Published
            && *final(context) == *old(context),
        transition != InterruptTransition::Unchanged ==> exists|call: &mut C|
            {
                &&& #[trigger] attempts(call, transition, result)
                &&& *call == *old(context)
                &&& *final(call) == *final(context)
            },
{
    if transition == InterruptTransition::Unchanged {
        return TransitionResult::Published;
    }
    let said = context.with_irq_transition(transition);
    let ghost answer = said;
    let result = classify_attempt(said);
    proof {
        let call = choose|call: &mut C|
            {
                &&& #[trigger] call_ensures(C::with_irq_transition, (call, transition), answer)
                &&& *call == *old(context)
                &&& *final(call) == *context
            };
        assert(attempts(call, transition, result));
    }
    result
}

/// Tells what the end of an attempt is reported as.
pub fn report_of(result: &TransitionResult) -> (publication: InterruptPublication)
    ensures
        publication == publication_of(*result),
{
    match result {
        TransitionResult::Published => InterruptPublication::Published,
        TransitionResult::Suppressed => InterruptPublication::Suppressed,
        TransitionResult::Failed(_) => InterruptPublication::Failed,
    }
}

/// Whether each of `calls` attempts the transition that the earlier ones lead to and is reported as
/// its place in `publications` says, and nothing is attempted once no transition is left.
pub open spec fn are_reports<C: IrqTransitionContext>(
    calls: Seq<&mut C>,
    coordinator: VirtioPciInterruptCoordinator,
    transition: InterruptTransition,
    publications: Seq<InterruptPublication>,
) -> bool {
    &&& calls.len() == publications.len()
    &&& forall|k: int|
        #![trigger calls[k]]
        0 <= k < calls.len() ==> reports(
            calls[k],
            coordinator.after_reports(transition, publications.take(k)).1,
            publications[k],
        )
    &&& forall|k: int|
        0 <= k < publications.len() ==> (#[trigger] coordinator.after_reports(
            transition,
            publications.take(k),
        )).1 != InterruptTransition::Unchanged
}

/// Whether the attempt behind `call` to perform `transition` can be reported as `publication`.
pub open spec fn reports<C: IrqTransitionContext>(
    call: &mut C,
    transition: InterruptTransition,
    publication: InterruptPublication,
) -> bool {
    exists|result: TransitionResult|
        {
            &&& #[trigger] attempts(call, transition, result)
            &&& publication == publication_of(result)
        }
}

/// Whether `calls` are a run of attempts that reports each of its ends to the coordinator, takes it
/// from `before` to `after`, and leaves no transition.
pub open spec fn is_report_end<C: IrqTransitionContext>(
    calls: Seq<&mut C>,
    before: VirtioPciInterruptCoordinator,
    transition: InterruptTransition,
    after: VirtioPciInterruptCoordinator,
) -> bool {
    exists|publications: Seq<InterruptPublication>|
        {
            &&& #[trigger] before.after_reports(transition, publications) == (
                after,
                InterruptTransition::Unchanged,
            )
            &&& are_reports(calls, before, transition, publications)
        }
}

/// What an attempt leads to: the coordinator, and the transition that follows.
pub open spec fn after_attempt(
    coordinator: VirtioPciInterruptCoordinator,
    transition: InterruptTransition,
    result: TransitionResult,
) -> (VirtioPciInterruptCoordinator, InterruptTransition) {
    match result {
        TransitionResult::Published => coordinator.reported(
            transition,
            InterruptPublication::Published,
        ),
        TransitionResult::Suppressed => (
            if coordinator.owns(transition) {
                coordinator.withdrawn()
            } else {
                coordinator
            },
            InterruptTransition::Unchanged,
        ),
        TransitionResult::Failed(_) => coordinator.reported(
            transition,
            InterruptPublication::Failed,
        ),
    }
}

/// What a run of attempts leads to.
pub open spec fn after_attempts(
    coordinator: VirtioPciInterruptCoordinator,
    transition: InterruptTransition,
    results: Seq<TransitionResult>,
) -> (VirtioPciInterruptCoordinator, InterruptTransition)
    decreases results.len(),
{
    if results.len() == 0 {
        (coordinator, transition)
    } else {
        let (reached, left) = after_attempts(coordinator, transition, results.drop_last());
        after_attempt(reached, left, results.last())
    }
}

/// Whether each of `calls` attempts the transition that the earlier ones lead to and ends as its
/// place in `results` says, and nothing is attempted once no transition is left.
pub open spec fn are_attempts<C: IrqTransitionContext>(
    calls: Seq<&mut C>,
    coordinator: VirtioPciInterruptCoordinator,
    transition: InterruptTransition,
    results: Seq<TransitionResult>,
) -> bool {
    &&& calls.len() == results.len()
    &&& forall|k: int|
        #![trigger calls[k]]
        0 <= k < calls.len() ==> attempts(
            calls[k],
            after_attempts(coordinator, transition, results.take(k)).1,
            results[k],
        )
    &&& forall|k: int|
        0 <= k < results.len() ==> (#[trigger] after_attempts(
            coordinator,
            transition,
            results.take(k),
        )).1 != InterruptTransition::Unchanged
}

/// What a run of attempts returns: the error of the last one, if it failed.
pub open spec fn attempts_result(results: Seq<TransitionResult>) -> DeviceResult<()> {
    if results.len() == 0 {
        Ok(())
    } else {
        match results.last() {
            TransitionResult::Failed(error) => Err(error),
            _ => Ok(()),
        }
    }
}

/// Whether `calls` are a run of attempts that takes the coordinator from `before` to `after`, leaves
/// no transition, and returns `result`.
pub open spec fn is_transition_end<C: IrqTransitionContext>(
    calls: Seq<&mut C>,
    before: VirtioPciInterruptCoordinator,
    transition: InterruptTransition,
    after: VirtioPciInterruptCoordinator,
    result: DeviceResult<()>,
) -> bool {
    exists|results: Seq<TransitionResult>|
        {
            &&& #[trigger] after_attempts(before, transition, results) == (
                after,
                InterruptTransition::Unchanged,
            )
            &&& result == attempts_result(results)
            &&& are_attempts(calls, before, transition, results)
        }
}

/// PCI endpoint of a modern VirtIO function.
pub struct VirtioPciFunction<D> {
    /// The transport.
    pub transport: VirtioPciTransport<D>,
    /// Right by which queue processing reaches guest memory.
    pub dma_grant: DmaGrant,
}

/// The error for an access to the endpoint that does not come through the PCI root.
pub open spec fn direct_access_error(operation: &'static str, bus: BusKind) -> DeviceError {
    DeviceError::Unsupported { operation, detail: ErrorDetail::DispatchedByPciRoot(bus) }
}

impl<D> VirtioPciFunction<D> {
    /// Returns the name of the device.
    pub fn name(&self) -> (name: &'static str)
        ensures
            name == "virtio-pci",
    {
        "virtio-pci"
    }

    /// Returns the bus ranges that the device claims of its own: none.
    pub fn resources(&self) -> (resources: Vec<Resource>)
        ensures
            resources@.len() == 0,
    {
        Vec::new()
    }

    /// Refuses a read that does not come through the PCI root.
    pub fn read(&self, access: &DeviceAccess) -> (result: DeviceResult<u64>)
        ensures
            result == Err::<u64, _>(
                direct_access_error("read VirtIO PCI endpoint as a generic device", access.bus),
            ),
    {
        Err(
            DeviceError::Unsupported {
                operation: "read VirtIO PCI endpoint as a generic device",
                detail: ErrorDetail::DispatchedByPciRoot(access.bus),
            },
        )
    }

    /// Refuses a write that does not come through the PCI root.
    pub fn write(&self, access: &DeviceAccess, _value: u64) -> (result: DeviceResult<()>)
        ensures
            result == Err::<(), _>(
                direct_access_error("write VirtIO PCI endpoint as a generic device", access.bus),
            ),
    {
        Err(
            DeviceError::Unsupported {
                operation: "write VirtIO PCI endpoint as a generic device",
                detail: ErrorDetail::DispatchedByPciRoot(access.bus),
            },
        )
    }

    /// Returns the transport.
    pub fn transport(&self) -> (transport: &VirtioPciTransport<D>)
        ensures
            *transport == self.transport,
    {
        &self.transport
    }

    /// Reaches the guest memory of a callback's context by the function's own right.
    pub fn memory<'a, C>(&self, context: &'a mut C) -> (memory: DeviceContextMemory<'a, C>)
        ensures
            *memory.context == *old(context),
            *final(memory.context) == *final(context),
            memory.grant == self.dma_grant,
    {
        DeviceContextMemory::new(context, &self.dma_grant)
    }

    /// Accepts accesses to BAR 0 only.
    pub fn require_bar_zero(access: PciBarAccess) -> (result: DeviceResult<()>)
        ensures
            result == (if access.route.bar.0 == 0 {
                Ok::<(), DeviceError>(())
            } else {
                Err(DeviceError::OutOfRange { addr: access.route.offset })
            }),
    {
        if access.bar().value() == 0 {
            Ok(())
        } else {
            Err(DeviceError::OutOfRange { addr: access.offset() })
        }
    }

    /// Returns whether an interrupt bit is set.
    pub fn intx_pending(&self) -> (pending: bool)
        ensures
            pending == (self.transport@.interrupts.pending != 0),
    {
        self.transport.interrupt_pending()
    }

    /// Returns the config effects of the function: those of the access window.
    pub fn supported_config_effects(&self) -> (effects: Vec<PciConfigEffectId>)
        ensures
            effects@ == seq![PciConfigEffectId(VIRTIO_PCI_CONFIG_EFFECT_ID)],
    {
        let mut effects: Vec<PciConfigEffectId> = Vec::new();
        effects.push(PciConfigEffectId(VIRTIO_PCI_CONFIG_EFFECT_ID));
        effects
    }

    /// Performs a transition and those that follow from it, until the line is as it ought to be or
    /// an attempt fails.
    pub fn finish_transition<C: IrqTransitionContext>(
        &mut self,
        context: &mut C,
        transition: InterruptTransition,
    ) -> (result: DeviceResult<()>)
        ensures
            final(self).dma_grant == old(self).dma_grant,
            final(self).transport@ == (PciTransportModel {
                interrupts: final(self).transport@.interrupts,
                ..old(self).transport@
            }),
            exists|calls: Seq<&mut C>, states: Seq<C>|
                {
                    &&& #[trigger] is_chain(calls, states)
                    &&& states.first() == *old(context)
                    &&& states.last() == *final(context)
                    &&& forall|i: int|
                        0 <= i < calls.len() ==> *final(#[trigger] calls[i]) == states[i + 1]
                    &&& is_transition_end(
                        calls,
                        old(self).transport@.interrupts,
                        transition,
                        final(self).transport@.interrupts,
                        result,
                    )
                },
    {
        let ghost start = self.transport@.interrupts;
        let ghost mut results: Seq<TransitionResult> = Seq::empty();
        let mut current = transition;
        assert(is_chain(Seq::<&mut C>::empty(), seq![*context]));
        while current != InterruptTransition::Unchanged
            invariant
                start == old(self).transport@.interrupts,
                self.dma_grant == old(self).dma_grant,
                self.transport@ == (PciTransportModel {
                    interrupts: self.transport@.interrupts,
                    ..old(self).transport@
                }),
                after_attempts(start, transition, results) == (
                    self.transport@.interrupts,
                    current,
                ),
                exists|calls: Seq<&mut C>, states: Seq<C>|
                    {
                        &&& #[trigger] is_chain(calls, states)
                        &&& states.first() == *old(context)
                        &&& states.last() == *context
                        &&& forall|i: int|
                            0 <= i < calls.len() ==> *final(#[trigger] calls[i]) == states[i + 1]
                        &&& are_attempts(calls, start, transition, results)
                    },
                attempts_result(results) == Ok::<(), DeviceError>(()),
            decreases self.transport@.interrupts.publications_left(current), (if current
                == InterruptTransition::Unchanged {
                0nat
            } else {
                1
            }),
        {
            let ghost before = self.transport@.interrupts;
            let ghost asked = *context;
            let attempt = execute_transition(context, current);
            let ghost longer = results.push(attempt);
            proof {
                let (calls, states) = choose|calls: Seq<&mut C>, states: Seq<C>|
                    {
                        &&& #[trigger] is_chain(calls, states)
                        &&& states.first() == *old(context)
                        &&& states.last() == asked
                        &&& forall|i: int|
                            0 <= i < calls.len() ==> *final(#[trigger] calls[i]) == states[i + 1]
                        &&& are_attempts(calls, start, transition, results)
                    };
                let call = choose|call: &mut C|
                    {
                        &&& #[trigger] attempts(call, current, attempt)
                        &&& *call == asked
                        &&& *final(call) == *context
                    };
                assert(longer.drop_last() =~= results);
                assert forall|k: int| 0 <= k <= results.len() implies #[trigger] longer.take(k)
                    == results.take(k) by {
                    assert(longer.take(k) =~= results.take(k));
                }
                assert(results.take(results.len() as int) =~= results);
                assert(calls.push(call)[calls.len() as int] == call);
                assert(are_attempts(calls.push(call), start, transition, longer));
                assert(is_chain(calls.push(call), states.push(*context)));
                crate::virtio::interrupt::law_publication_converges(
                    before,
                    current,
                    InterruptPublication::Published,
                );
            }
            match attempt {
                TransitionResult::Published => {
                    current = self.transport.complete_interrupt_transition(current, true);
                },
                TransitionResult::Suppressed => {
                    self.transport.suppress_interrupt_transition(current);
                    current = InterruptTransition::Unchanged;
                },
                TransitionResult::Failed(error) => {
                    let _ = self.transport.complete_interrupt_transition(current, false);
                    assert(after_attempts(start, transition, longer) == (
                        self.transport@.interrupts,
                        InterruptTransition::Unchanged,
                    ));
                    return Err(error);
                },
            }
            proof {
                results = longer;
            }
        }
        assert(after_attempts(start, transition, results) == (
            self.transport@.interrupts,
            InterruptTransition::Unchanged,
        ));
        Ok(())
    }

    /// Performs the transition of a request and then ends the request.
    pub fn finish_transition_request<C: IrqTransitionContext>(
        &mut self,
        context: &mut C,
        request: InterruptTransitionRequest,
    ) -> (result: DeviceResult<()>)
        ensures
            final(self).dma_grant == old(self).dma_grant,
            exists|calls: Seq<&mut C>, states: Seq<C>|
                {
                    &&& #[trigger] is_chain(calls, states)
                    &&& states.first() == *old(context)
                    &&& states.last() == *final(context)
                    &&& forall|i: int|
                        0 <= i < calls.len() ==> *final(#[trigger] calls[i]) == states[i + 1]
                    &&& is_request_end(
                        calls,
                        old(self).transport@,
                        request,
                        final(self).transport@,
                        result,
                    )
                },
    {
        let result = self.finish_transition(context, request.transition());
        let ghost reached = self.transport@.interrupts;
        request.finish(&mut self.transport.interrupts, &mut self.transport.activity);
        assert forall|calls: Seq<&mut C>| #[trigger]
            is_transition_end(
                calls,
                old(self).transport@.interrupts,
                request.transition,
                reached,
                result,
            ) implies is_request_end(
            calls,
            old(self).transport@,
            request,
            self.transport@,
            result,
        ) by {}
        result
    }

    /// Performs the transition that a read asked for.
    ///
    /// The value that was captured for the guest stays valid when the line fails: the coordinator
    /// records the failure, and the next transition lowers the line again.
    pub fn finish_read_transition<C: IrqTransitionContext>(
        &mut self,
        context: &mut C,
        request: InterruptTransitionRequest,
    )
        ensures
            final(self).dma_grant == old(self).dma_grant,
            exists|calls: Seq<&mut C>, states: Seq<C>|
                {
                    &&& #[trigger] is_chain(calls, states)
                    &&& states.first() == *old(context)
                    &&& states.last() == *final(context)
                    &&& forall|i: int|
                        0 <= i < calls.len() ==> *final(#[trigger] calls[i]) == states[i + 1]
                    &&& is_request_settled(
                        calls,
                        old(self).transport@,
                        request,
                        final(self).transport@,
                    )
                },
    {
        let result = self.finish_transition_request(context, request);
        assert forall|calls: Seq<&mut C>| #[trigger]
            is_request_end(
                calls,
                old(self).transport@,
                request,
                self.transport@,
                result,
            ) implies is_request_settled(
            calls,
            old(self).transport@,
            request,
            self.transport@,
        ) by {}
    }

    /// Notes a change of the function's command register.
    pub fn command_changed<C: IrqTransitionContext>(
        &mut self,
        command: PciCommandState,
        context: &mut C,
    ) -> (result: DeviceResult<()>)
        ensures
            final(self).dma_grant == old(self).dma_grant,
            exists|calls: Seq<&mut C>, states: Seq<C>|
                {
                    &&& #[trigger] is_chain(calls, states)
                    &&& states.first() == *old(context)
                    &&& states.last() == *final(context)
                    &&& forall|i: int|
                        0 <= i < calls.len() ==> *final(#[trigger] calls[i]) == states[i + 1]
                    &&& is_request_end(
                        calls,
                        PciTransportModel {
                            interrupts: old(self).transport@.interrupts.switched(
                                command.interrupt_disable,
                            ).started(),
                            ..old(self).transport@
                        },
                        InterruptTransitionRequest {
                            transition: old(self).transport@.interrupts.switched(
                                command.interrupt_disable,
                            ).next(),
                            activity: None,
                        },
                        final(self).transport@,
                        result,
                    )
                },
    {
        let request = self.transport.set_interrupt_disabled(command.interrupt_disable());
        self.finish_transition_request(context, request)
    }

    /// Resets the transport after the PCI root has restored its power-on configuration.
    ///
    /// The line is lowered when the interrupt source is withdrawn.
    pub fn reset(&mut self, command: PciCommandState) -> (result: DeviceResult<()>)
        ensures
            final(self).dma_grant == old(self).dma_grant,
            match old(self).transport@.reset_result() {
                Ok(_) => {
                    let begun = old(self).transport@.reset_begun();
                    let switched = VirtioPciInterruptCoordinator {
                        disabled: command.interrupt_disable,
                        ..begun.interrupts
                    };
                    &&& result is Ok
                    &&& final(self).transport@ == (PciTransportModel {
                        interrupts: switched.started().reported(
                            switched.next(),
                            InterruptPublication::Failed,
                        ).0,
                        ..begun
                    })
                },
                Err(error) => {
                    &&& result == Err::<(), _>(error)
                    &&& final(self).transport@ == old(self).transport@.reset_requested()
                },
            },
    {
        match self.transport.reset() {
            Ok(_) => {},
            Err(error) => {
                return Err(error);
            },
        }
        let request = self.transport.set_interrupt_disabled(command.interrupt_disable());
        let transition = request.transition();
        if transition != InterruptTransition::Unchanged {
            let _ = self.transport.complete_interrupt_transition(transition, false);
        }
        Ok(())
    }

    /// Notes that the interrupt source was withdrawn, with what lowering the line came to.
    ///
    /// A transition that a reset left with the endpoint is thereby performed, and the reset
    /// completed.
    pub fn withdraw_irq(
        &mut self,
        permit: &mut EndpointIrqTransitionPermit,
        lowered: Result<(), String>,
    ) -> (result: DeviceResult<()>)
        ensures
            final(self).dma_grant == old(self).dma_grant,
            *final(permit) == *old(permit),
            result is Ok <==> lowered is Ok,
            lowered matches Err(message) ==> {
                &&& result == Err::<(), _>(
                    DeviceError::Backend {
                        operation: "deassert PCI endpoint INTx line",
                        detail: crate::access::ErrorDetail::Message(message),
                    },
                )
                &&& final(self).transport@ == old(self).transport@
            },
            lowered is Ok ==> final(self).transport@ == (PciTransportModel {
                interrupts: old(self).transport@.interrupts.reported(
                    InterruptTransition::Deassert,
                    InterruptPublication::Published,
                ).0,
                ..old(self).transport@
            }).reset_completed(),
    {
        match permit.deassert_line(lowered) {
            Ok(_) => {},
            Err(error) => {
                return Err(error);
            },
        }
        let _ = self.transport.complete_interrupt_transition(InterruptTransition::Deassert, true);
        self.transport.complete_reset();
        Ok(())
    }
}

/// Whether `after` and `result` are what performing and ending a request makes of `before`.
pub open spec fn is_request_end<D, C: IrqTransitionContext>(
    calls: Seq<&mut C>,
    before: PciTransportModel<D>,
    request: InterruptTransitionRequest,
    after: PciTransportModel<D>,
    result: DeviceResult<()>,
) -> bool {
    exists|reached: VirtioPciInterruptCoordinator|
        {
            &&& #[trigger] is_transition_end(
                calls,
                before.interrupts,
                request.transition,
                reached,
                result,
            )
            &&& after == (PciTransportModel {
                interrupts: if reached.owns(request.transition) {
                    reached.withdrawn()
                } else {
                    reached
                },
                activity: match request.activity {
                    Some(_) => before.activity.left(),
                    None => before.activity,
                },
                ..before
            })
        }
}

/// Whether `after` is what performing and ending a request makes of `before`, whatever the attempts
/// came to.
pub open spec fn is_request_settled<D, C: IrqTransitionContext>(
    calls: Seq<&mut C>,
    before: PciTransportModel<D>,
    request: InterruptTransitionRequest,
    after: PciTransportModel<D>,
) -> bool {
    exists|result: DeviceResult<()>| #[trigger]
        is_request_end(calls, before, request, after, result)
}

/// A request without a transition and without a permit changes nothing.
proof fn lemma_nothing_to_settle<D, C: IrqTransitionContext>(
    calls: Seq<&mut C>,
    before: PciTransportModel<D>,
    request: InterruptTransitionRequest,
    after: PciTransportModel<D>,
)
    requires
        is_request_settled(calls, before, request, after),
        request.transition == InterruptTransition::Unchanged,
        request.activity is None,
    ensures
        calls.len() == 0,
        after == before,
{
    let result = choose|result: DeviceResult<()>| #[trigger]
        is_request_end(calls, before, request, after, result);
    let reached = choose|reached: VirtioPciInterruptCoordinator|
        {
            &&& #[trigger] is_transition_end(
                calls,
                before.interrupts,
                request.transition,
                reached,
                result,
            )
            &&& after == (PciTransportModel {
                interrupts: if reached.owns(request.transition) {
                    reached.withdrawn()
                } else {
                    reached
                },
                activity: before.activity,
                ..before
            })
        };
    let results = choose|results: Seq<TransitionResult>|
        {
            &&& #[trigger] after_attempts(before.interrupts, request.transition, results) == (
                reached,
                InterruptTransition::Unchanged,
            )
            &&& are_attempts(calls, before.interrupts, request.transition, results)
        };
    if results.len() > 0 {
        assert(results.take(0).len() == 0);
        assert(after_attempts(before.interrupts, request.transition, results.take(0)).1
            == InterruptTransition::Unchanged);
    }
}

/// Whether `after` and `result` are what follows a transport write with the given outcome.
pub open spec fn is_write_end<D, C: IrqTransitionContext>(
    calls: Seq<&mut C>,
    written: PciTransportModel<D>,
    outcome: DeviceResult<VirtioPciWriteOutcome>,
    after: PciTransportModel<D>,
    result: DeviceResult<()>,
) -> bool {
    match outcome {
        Err(error) => result == Err::<(), _>(error) && after == written && calls.len() == 0,
        Ok(VirtioPciWriteOutcome::Nothing) => {
            result is Ok && after == written && calls.len() == 0
        },
        Ok(VirtioPciWriteOutcome::Reset { interrupt }) => {
            let reached = PciTransportModel { interrupts: after.interrupts, ..written };
            &&& is_transition_end(
                calls,
                written.interrupts,
                interrupt,
                after.interrupts,
                result,
            )
            &&& after == (if result is Ok {
                reached.reset_completed()
            } else {
                PciTransportModel {
                    state: TransportModel { reset_pending: false, ..reached.state },
                    activity: QueueActivity { resetting: false, ..reached.activity },
                    ..reached
                }
            })
        },
        Ok(VirtioPciWriteOutcome::Fault { error, interrupt, activity }) => {
            &&& after == (PciTransportModel {
                interrupts: after.interrupts,
                activity: written.activity.left(),
                ..written
            })
            &&& exists|published: DeviceResult<()>|
                {
                    &&& #[trigger] is_transition_end(
                        calls,
                        written.interrupts,
                        interrupt,
                        after.interrupts,
                        published,
                    )
                    &&& result == (match published {
                        Ok(_) => Err::<(), _>(error),
                        Err(failure) => Err(failure),
                    })
                }
        },
        Ok(VirtioPciWriteOutcome::QueueNotified(notification)) => {
            &&& result is Ok
            &&& after == (PciTransportModel {
                interrupts: after.interrupts,
                activity: notification.barrier_after(written.activity),
                ..written
            })
            &&& is_report_end(
                calls,
                written.interrupts,
                notification.interrupt,
                after.interrupts,
            )
        },
    }
}

/// Whether `after` and `result` are what a BAR write makes of `before`: `reads` are the accesses to
/// guest memory, `device` and `queue` the call of the device, and `lines` the attempts to change the
/// interrupt line.
pub open spec fn is_endpoint_write<D: VirtioDeviceCore, M: GuestMemory, C: IrqTransitionContext>(
    reads: Seq<&mut M>,
    device: Option<&mut D>,
    queue: Option<&mut VirtioQueue<NoGuestMemoryAccessor>>,
    lines: Seq<&mut C>,
    before: PciTransportModel<D>,
    offset: u64,
    width: AccessWidth,
    value: u64,
    dma_enabled: bool,
    after: PciTransportModel<D>,
    result: DeviceResult<()>,
) -> bool {
    exists|written: PciTransportModel<D>, outcome: DeviceResult<VirtioPciWriteOutcome>|
        {
            &&& is_bar_write(
                reads,
                device,
                queue,
                before,
                offset,
                width,
                value,
                dma_enabled,
                written,
                outcome,
            )
            &&& #[trigger] is_write_end(lines, written, outcome, after, result)
        }
}

impl<D: VirtioDeviceCore> VirtioPciFunction<D> {
    /// Creates the endpoint of a device, which reaches guest memory by the right of `dma_grant`.
    ///
    /// # Errors
    ///
    /// Returns the transport's error when the device cannot be served.
    pub fn try_new(transport_core: D, dma_grant: DmaGrant) -> (result: DeviceResult<
        VirtioPciFunction<D>,
    >)
        ensures
            exists|
                queue_num_max: u16,
                queue_size_max: u16,
                deferred: bool,
                device_features: u64,
                transport: DeviceResult<VirtioPciTransport<D>>,
            |
                {
                    &&& call_ensures(D::queue_num_max, (&transport_core,), queue_num_max)
                    &&& call_ensures(D::queue_size_max, (&transport_core,), queue_size_max)
                    &&& call_ensures(D::deferred_processing, (&transport_core,), deferred)
                    &&& call_ensures(D::device_features, (&transport_core,), device_features)
                    &&& #[trigger] is_created(
                        transport_core,
                        queue_num_max,
                        queue_size_max,
                        deferred,
                        device_features,
                        transport,
                    )
                    &&& result == (match transport {
                        Ok(created) => Ok::<_, DeviceError>(
                            VirtioPciFunction { transport: created, dma_grant },
                        ),
                        Err(error) => Err(error),
                    })
                },
    {
        match VirtioPciTransport::try_new(transport_core) {
            Ok(transport) => Ok(VirtioPciFunction { transport, dma_grant }),
            Err(error) => Err(error),
        }
    }

    /// Publishes the interrupt of a queue notification through the callback's context, and then ends
    /// its activity.
    ///
    /// How each attempt ends is reported as [`QueueNotification::publish`] reports it. A line that is
    /// to be left alone is not attempted at all.
    pub fn publish_queue_notification<C: IrqTransitionContext>(
        &mut self,
        notification: QueueNotification,
        context: &mut C,
    )
        ensures
            final(self).dma_grant == old(self).dma_grant,
            final(self).transport@ == (PciTransportModel {
                interrupts: final(self).transport@.interrupts,
                activity: notification.barrier_after(old(self).transport@.activity),
                ..old(self).transport@
            }),
            exists|calls: Seq<&mut C>, states: Seq<C>|
                {
                    &&& #[trigger] is_chain(calls, states)
                    &&& states.first() == *old(context)
                    &&& states.last() == *final(context)
                    &&& forall|i: int|
                        0 <= i < calls.len() ==> *final(#[trigger] calls[i]) == states[i + 1]
                    &&& is_report_end(
                        calls,
                        old(self).transport@.interrupts,
                        notification.interrupt,
                        final(self).transport@.interrupts,
                    )
                },
    {
        let ghost start = self.transport@.interrupts;
        let ghost mut publications: Seq<InterruptPublication> = Seq::empty();
        let mut current = notification.interrupt_transition();
        assert(is_chain(Seq::<&mut C>::empty(), seq![*context]));
        while current != InterruptTransition::Unchanged
            invariant
                start == old(self).transport@.interrupts,
                self.dma_grant == old(self).dma_grant,
                self.transport@ == (PciTransportModel {
                    interrupts: self.transport@.interrupts,
                    ..old(self).transport@
                }),
                start.after_reports(notification.interrupt, publications) == (
                    self.transport@.interrupts,
                    current,
                ),
                exists|calls: Seq<&mut C>, states: Seq<C>|
                    {
                        &&& #[trigger] is_chain(calls, states)
                        &&& states.first() == *old(context)
                        &&& states.last() == *context
                        &&& forall|i: int|
                            0 <= i < calls.len() ==> *final(#[trigger] calls[i]) == states[i + 1]
                        &&& are_reports(calls, start, notification.interrupt, publications)
                    },
            decreases self.transport@.interrupts.publications_left(current), (if current
                == InterruptTransition::Unchanged {
                0nat
            } else {
                1
            }),
        {
            let ghost before = self.transport@.interrupts;
            let ghost asked = *context;
            let attempt = execute_transition(context, current);
            let publication = report_of(&attempt);
            let next = self.transport.interrupts.report(current, publication);
            proof {
                let (calls, states) = choose|calls: Seq<&mut C>, states: Seq<C>|
                    {
                        &&& #[trigger] is_chain(calls, states)
                        &&& states.first() == *old(context)
                        &&& states.last() == asked
                        &&& forall|i: int|
                            0 <= i < calls.len() ==> *final(#[trigger] calls[i]) == states[i + 1]
                        &&& are_reports(calls, start, notification.interrupt, publications)
                    };
                let call = choose|call: &mut C|
                    {
                        &&& #[trigger] attempts(call, current, attempt)
                        &&& *call == asked
                        &&& *final(call) == *context
                    };
                let longer = publications.push(publication);
                assert(reports(call, current, publication));
                assert(longer.drop_last() =~= publications);
                assert forall|k: int| 0 <= k <= publications.len() implies #[trigger] longer.take(k)
                    == publications.take(k) by {
                    assert(longer.take(k) =~= publications.take(k));
                }
                assert(publications.take(publications.len() as int) =~= publications);
                assert(calls.push(call)[calls.len() as int] == call);
                assert(are_reports(calls.push(call), start, notification.interrupt, longer));
                assert(is_chain(calls.push(call), states.push(*context)));
                publications = longer;
                crate::virtio::interrupt::law_publication_converges(before, current, publication);
            }
            current = next;
        }
        assert(start.after_reports(notification.interrupt, publications) == (
            self.transport@.interrupts,
            InterruptTransition::Unchanged,
        ));
        if let Some(permit) = notification.activity {
            self.transport.activity.release(permit);
        }
    }

    /// Writes the transport and does what the write leaves to be done.
    pub fn write_transport<M: GuestMemory, C: IrqTransitionContext>(
        &mut self,
        offset: u64,
        width: AccessWidth,
        value: u64,
        dma_enabled: bool,
        memory: &mut M,
        context: &mut C,
    ) -> (result: DeviceResult<()>)
        ensures
            final(self).dma_grant == old(self).dma_grant,
            exists|
                reads: Seq<&mut M>,
                memories: Seq<M>,
                device: Option<&mut D>,
                queue: Option<&mut VirtioQueue<NoGuestMemoryAccessor>>,
                lines: Seq<&mut C>,
                contexts: Seq<C>,
            |
                {
                    &&& #[trigger] is_chain(reads, memories)
                    &&& memories.first() == *old(memory)
                    &&& memories.last() == *final(memory)
                    &&& forall|i: int|
                        0 <= i < reads.len() ==> *final(#[trigger] reads[i]) == memories[i + 1]
                    &&& #[trigger] is_work(device, queue)
                    &&& device matches Some(device) ==> *final(device)
                        == final(self).transport@.core
                    &&& queue matches Some(queue) ==> *final(queue)
                        == final(self).transport@.state.queues[notified_queue(
                        value,
                    ) as int].queue
                    &&& #[trigger] is_chain(lines, contexts)
                    &&& contexts.first() == *old(context)
                    &&& contexts.last() == *final(context)
                    &&& forall|i: int|
                        0 <= i < lines.len() ==> *final(#[trigger] lines[i]) == contexts[i + 1]
                    &&& is_endpoint_write(
                        reads,
                        device,
                        queue,
                        lines,
                        old(self).transport@,
                        offset,
                        width,
                        value,
                        dma_enabled,
                        final(self).transport@,
                        result,
                    )
                },
    {
        let outcome = self.transport.write_mmio_with_dma(
            offset,
            width,
            value,
            dma_enabled,
            memory,
        );
        let ghost written = self.transport@;
        let ghost said = outcome;
        assert(is_chain(Seq::<&mut C>::empty(), seq![*context]));
        match outcome {
            Err(error) => {
                let result = Err(error);
                assert(is_write_end(Seq::<&mut C>::empty(), written, said, self.transport@, result));
                result
            },
            Ok(VirtioPciWriteOutcome::Nothing) => {
                let result = Ok(());
                assert(is_write_end(Seq::<&mut C>::empty(), written, said, self.transport@, result));
                result
            },
            Ok(VirtioPciWriteOutcome::Reset { interrupt }) => {
                let result = self.finish_transition(context, interrupt);
                let ghost reached = self.transport@.interrupts;
                if result.is_ok() {
                    self.transport.complete_reset();
                } else {
                    self.transport.abort_reset();
                }
                assert forall|lines: Seq<&mut C>| #[trigger]
                    is_transition_end(
                        lines,
                        written.interrupts,
                        interrupt,
                        reached,
                        result,
                    ) implies is_write_end(lines, written, said, self.transport@, result) by {}
                result
            },
            Ok(VirtioPciWriteOutcome::Fault { error, interrupt, activity }) => {
                let published = self.finish_transition(context, interrupt);
                let ghost line = published;
                let ghost reached = self.transport@.interrupts;
                self.transport.activity.release(activity);
                let result = match published {
                    Ok(_) => Err(error),
                    Err(failure) => Err(failure),
                };
                assert forall|lines: Seq<&mut C>| #[trigger]
                    is_transition_end(
                        lines,
                        written.interrupts,
                        interrupt,
                        reached,
                        line,
                    ) implies is_write_end(lines, written, said, self.transport@, result) by {}
                result
            },
            Ok(VirtioPciWriteOutcome::QueueNotified(notification)) => {
                self.publish_queue_notification(notification, context);
                let result = Ok(());
                assert forall|lines: Seq<&mut C>| #[trigger]
                    is_report_end(
                        lines,
                        written.interrupts,
                        notification.interrupt,
                        self.transport@.interrupts,
                    ) implies is_write_end(lines, written, said, self.transport@, result) by {}
                result
            },
        }
    }

    /// Answers a BAR read.
    pub fn read_bar<C: IrqTransitionContext>(&mut self, access: PciBarAccess, context: &mut C) -> (value:
        DeviceResult<u64>)
        ensures
            final(self).dma_grant == old(self).dma_grant,
            if access.route.bar.0 != 0 {
                &&& value == Err::<u64, _>(DeviceError::OutOfRange { addr: access.route.offset })
                &&& final(self).transport@ == old(self).transport@
                &&& *final(context) == *old(context)
            } else {
                exists|lines: Seq<&mut C>, contexts: Seq<C>|
                    {
                        &&& #[trigger] is_chain(lines, contexts)
                        &&& contexts.first() == *old(context)
                        &&& contexts.last() == *final(context)
                        &&& forall|i: int|
                            0 <= i < lines.len() ==> *final(#[trigger] lines[i]) == contexts[i + 1]
                        &&& is_endpoint_read(
                            lines,
                            old(self).transport@,
                            access.route.offset,
                            access.route.width,
                            final(self).transport@,
                            value,
                        )
                    }
            },
    {
        match Self::require_bar_zero(access) {
            Ok(_) => self.read_transport(access.offset(), access.width(), context),
            Err(error) => Err(error),
        }
    }

    /// Reads the transport and performs the line transition that the read asks for.
    pub fn read_transport<C: IrqTransitionContext>(
        &mut self,
        offset: u64,
        width: AccessWidth,
        context: &mut C,
    ) -> (value: DeviceResult<u64>)
        ensures
            final(self).dma_grant == old(self).dma_grant,
            exists|lines: Seq<&mut C>, contexts: Seq<C>|
                {
                    &&& #[trigger] is_chain(lines, contexts)
                    &&& contexts.first() == *old(context)
                    &&& contexts.last() == *final(context)
                    &&& forall|i: int|
                        0 <= i < lines.len() ==> *final(#[trigger] lines[i]) == contexts[i + 1]
                    &&& is_endpoint_read(
                        lines,
                        old(self).transport@,
                        offset,
                        width,
                        final(self).transport@,
                        value,
                    )
                },
    {
        assert(is_chain(Seq::<&mut C>::empty(), seq![*context]));
        match self.transport.read_bar_with_interrupt(offset, width) {
            Ok((value, request)) => {
                let ghost before = self.transport@;
                self.finish_read_transition(context, request);
                assert forall|lines: Seq<&mut C>| #[trigger]
                    is_request_settled(lines, before, request, self.transport@)
                        && request.transition
                        == InterruptTransition::Unchanged implies lines.len() == 0
                    && self.transport@ == before by {
                    lemma_nothing_to_settle(lines, before, request, self.transport@);
                }
                Ok(value)
            },
            Err(error) => Err(error),
        }
    }

    /// Answers a BAR write.
    pub fn write_bar<M: GuestMemory, C: IrqTransitionContext>(
        &mut self,
        access: PciBarAccess,
        value: u64,
        memory: &mut M,
        context: &mut C,
    ) -> (result: DeviceResult<()>)
        ensures
            final(self).dma_grant == old(self).dma_grant,
            if access.route.bar.0 != 0 {
                &&& result == Err::<(), _>(DeviceError::OutOfRange { addr: access.route.offset })
                &&& final(self).transport@ == old(self).transport@
                &&& *final(memory) == *old(memory)
                &&& *final(context) == *old(context)
            } else {
                exists|
                    reads: Seq<&mut M>,
                    memories: Seq<M>,
                    device: Option<&mut D>,
                    queue: Option<&mut VirtioQueue<NoGuestMemoryAccessor>>,
                    lines: Seq<&mut C>,
                    contexts: Seq<C>,
                |
                    {
                        &&& #[trigger] is_chain(reads, memories)
                        &&& memories.first() == *old(memory)
                        &&& memories.last() == *final(memory)
                        &&& forall|i: int|
                            0 <= i < reads.len() ==> *final(#[trigger] reads[i]) == memories[i + 1]
                        &&& #[trigger] is_work(device, queue)
                        &&& device matches Some(device) ==> *final(device)
                            == final(self).transport@.core
                        &&& queue matches Some(queue) ==> *final(queue)
                            == final(self).transport@.state.queues[notified_queue(
                            value,
                        ) as int].queue
                        &&& #[trigger] is_chain(lines, contexts)
                        &&& contexts.first() == *old(context)
                        &&& contexts.last() == *final(context)
                        &&& forall|i: int|
                            0 <= i < lines.len() ==> *final(#[trigger] lines[i]) == contexts[i + 1]
                        &&& is_endpoint_write(
                            reads,
                            device,
                            queue,
                            lines,
                            old(self).transport@,
                            access.route.offset,
                            access.route.width,
                            value,
                            access.dma_enabled,
                            final(self).transport@,
                            result,
                        )
                    }
            },
    {
        match Self::require_bar_zero(access) {
            Ok(_) => self.write_transport(
                access.offset(),
                access.width(),
                value,
                access.bus_master_enable(),
                memory,
                context,
            ),
            Err(error) => Err(error),
        }
    }

    /// Answers a read of the access window's data with what the window selects.
    pub fn read_config_effect<C: IrqTransitionContext>(
        &mut self,
        effect: PciConfigReadEffect,
        context: &mut C,
    ) -> (value: DeviceResult<u64>)
        requires
            effect.capability_snapshot.wf(),
        ensures
            final(self).dma_grant == old(self).dma_grant,
            ({
                let body = effect.capability_snapshot@;
                if reaches_bar(effect.effect, effect.offset, effect.width, body) {
                    exists|lines: Seq<&mut C>, contexts: Seq<C>|
                        {
                            &&& #[trigger] is_chain(lines, contexts)
                            &&& contexts.first() == *old(context)
                            &&& contexts.last() == *final(context)
                            &&& forall|i: int|
                                0 <= i < lines.len() ==> *final(#[trigger] lines[i]) == contexts[i + 1]
                            &&& is_endpoint_read(
                                lines,
                                old(self).transport@,
                                window_target(body, effect.offset) as u64,
                                effect.width,
                                final(self).transport@,
                                value,
                            )
                        }
                } else {
                    &&& value == Err::<u64, _>(window_error())
                    &&& final(self).transport@ == old(self).transport@
                    &&& *final(context) == *old(context)
                }
            }),
    {
        match decode_pci_cfg(
            effect.effect(),
            effect.offset(),
            effect.width(),
            effect.capability_snapshot(),
        ) {
            Ok(target) => self.read_transport(target, effect.width(), context),
            Err(error) => Err(error),
        }
    }

    /// Answers a write to the access window's data by writing what the window selects.
    pub fn write_config_effect<M: GuestMemory, C: IrqTransitionContext>(
        &mut self,
        effect: PciConfigWriteEffect,
        memory: &mut M,
        context: &mut C,
    ) -> (result: DeviceResult<()>)
        requires
            effect.read.capability_snapshot.wf(),
        ensures
            final(self).dma_grant == old(self).dma_grant,
            ({
                let body = effect.read.capability_snapshot@;
                if reaches_bar(effect.read.effect, effect.read.offset, effect.read.width, body) {
                    exists|
                        reads: Seq<&mut M>,
                        memories: Seq<M>,
                        device: Option<&mut D>,
                        queue: Option<&mut VirtioQueue<NoGuestMemoryAccessor>>,
                        lines: Seq<&mut C>,
                        contexts: Seq<C>,
                    |
                        {
                            &&& #[trigger] is_chain(reads, memories)
                            &&& memories.first() == *old(memory)
                            &&& memories.last() == *final(memory)
                            &&& forall|i: int|
                                0 <= i < reads.len() ==> *final(#[trigger] reads[i]) == memories[i + 1]
                            &&& #[trigger] is_work(device, queue)
                            &&& device matches Some(device) ==> *final(device)
                                == final(self).transport@.core
                            &&& queue matches Some(queue) ==> *final(queue)
                                == final(self).transport@.state.queues[notified_queue(
                                effect.value,
                            ) as int].queue
                            &&& #[trigger] is_chain(lines, contexts)
                            &&& contexts.first() == *old(context)
                            &&& contexts.last() == *final(context)
                            &&& forall|i: int|
                                0 <= i < lines.len() ==> *final(#[trigger] lines[i]) == contexts[i + 1]
                            &&& is_endpoint_write(
                                reads,
                                device,
                                queue,
                                lines,
                                old(self).transport@,
                                window_target(body, effect.read.offset) as u64,
                                effect.read.width,
                                effect.value,
                                effect.dma_enabled,
                                final(self).transport@,
                                result,
                            )
                        }
                } else {
                    &&& result == Err::<(), _>(window_error())
                    &&& final(self).transport@ == old(self).transport@
                    &&& *final(memory) == *old(memory)
                    &&& *final(context) == *old(context)
                }
            }),
    {
        match decode_pci_cfg(
            effect.effect(),
            effect.offset(),
            effect.width(),
            effect.capability_snapshot(),
        ) {
            Ok(target) => self.write_transport(
                target,
                effect.width(),
                effect.value(),
                effect.bus_master_enable(),
                memory,
                context,
            ),
            Err(error) => Err(error),
        }
    }
}

/// Whether `after` and `value` are what a BAR read makes of `before`. The value does not depend on
/// how the line transition ends.
pub open spec fn is_endpoint_read<D: VirtioDeviceCore, C: IrqTransitionContext>(
    lines: Seq<&mut C>,
    before: PciTransportModel<D>,
    offset: u64,
    width: AccessWidth,
    after: PciTransportModel<D>,
    value: DeviceResult<u64>,
) -> bool {
    if offset == ISR_CONFIG_OFFSET && width == AccessWidth::Byte {
        let read = VirtioPciInterruptCoordinator { pending: 0, ..before.interrupts };
        &&& value == Ok::<_, DeviceError>(before.interrupts.pending as u64)
        &&& is_request_settled(
            lines,
            PciTransportModel { interrupts: read.started(), ..before },
            InterruptTransitionRequest { transition: read.next(), activity: None },
            after,
        )
    } else {
        &&& is_config_read(before, offset, width, value)
        &&& after == before
        &&& lines.len() == 0
    }
}

/// A reset whose interrupt source is then withdrawn leaves status zero, an open barrier, no interrupt
/// bit, and a line that is known to be low.
pub proof fn law_reset_and_withdrawal_start_over<D>(model: PciTransportModel<D>, disabled: bool)
    requires
        model.reset_result() is Ok,
    ensures
        ({
            let begun = model.reset_begun();
            let switched = VirtioPciInterruptCoordinator { disabled, ..begun.interrupts };
            let reset = switched.started().reported(switched.next(), InterruptPublication::Failed).0;
            let withdrawn = PciTransportModel {
                interrupts: reset.reported(
                    InterruptTransition::Deassert,
                    InterruptPublication::Published,
                ).0,
                ..begun
            };
            let after = withdrawn.reset_completed();
            &&& after.state.status == 0
            &&& after.activity.accepting && !after.activity.resetting
            &&& after.interrupts == (VirtioPciInterruptCoordinator {
                disabled,
                ..VirtioPciInterruptCoordinator::idle()
            })
        }),
{
}

} // verus!
