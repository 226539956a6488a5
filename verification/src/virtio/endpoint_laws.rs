//! What a VirtIO PCI endpoint makes of its callbacks, from the callback to the interrupt line.

#[allow(unused_imports)]
use crate::access::{DeviceAccess, DeviceError, DeviceResult, DmaGrant, Resource};
#[allow(unused_imports)]
use crate::calls::is_chain;
#[allow(unused_imports)]
use crate::pci::capability::PciConfigEffectId;
#[allow(unused_imports)]
use crate::pci::config::PciCommandState;
#[allow(unused_imports)]
use crate::pci::effect::PciBarAccess;
#[allow(unused_imports)]
use crate::pci::endpoint::EndpointIrqTransitionPermit;
#[allow(unused_imports)]
use crate::virtio::interrupt::{
    InterruptPublication, InterruptTransition, LineLevel, VirtioPciInterruptCoordinator,
};
#[allow(unused_imports)]
use crate::virtio::mmio_registers::is_power;
#[allow(unused_imports)]
use crate::virtio::pci_function::{
    after_attempt, after_attempts, are_attempts, are_reports, attempts, classify_attempt,
    execute_transition, is_endpoint_read, is_endpoint_write, is_request_end, is_request_settled,
    is_transition_end, is_write_end, report_of, IrqTransitionContext, TransitionResult,
    VirtioPciFunction,
};
#[allow(unused_imports)]
use crate::virtio::pci_registers::{is_bar_write, notified_queue};
#[allow(unused_imports)]
use crate::virtio::pci_state::{
    ActivityPermit, InterruptTransitionRequest, QueueActivity, QueueNotification, TransportModel,
    VirtioPciWriteOutcome,
};
#[allow(unused_imports)]
use crate::virtio::pci_transport::{common_register, is_work, PciTransportModel, VirtioDeviceCore};
#[allow(unused_imports)]
use crate::virtio::queue::{GuestMemory, NoGuestMemoryAccessor, VirtioQueue, VirtioQueueGeneration};
use vstd::prelude::*;

verus! {

/// An attempt that succeeds was published, one that is refused for the state of things was
/// suppressed, and every other error is a failure, which is kept.
pub proof fn law_attempts_are_told_apart(
    attempt: DeviceResult<()>,
    result: TransitionResult,
    publication: InterruptPublication,
)
    requires
        call_ensures(classify_attempt, (attempt,), result),
        call_ensures(report_of, (&result,), publication),
    ensures
        result is Published <==> attempt is Ok,
        result is Suppressed <==> (attempt matches Err(DeviceError::InvalidState { .. })),
        result matches TransitionResult::Failed(error) ==> attempt == Err::<(), _>(error),
        publication is Published <==> attempt is Ok,
        publication is Suppressed <==> (attempt matches Err(DeviceError::InvalidState { .. })),
{
}

/// A line that is to be left alone is not attempted; any other transition is asked for once.
pub proof fn law_transition_is_asked_for_once<C: IrqTransitionContext>(
    context: &mut C,
    transition: InterruptTransition,
    result: TransitionResult,
)
    requires
        call_ensures(execute_transition::<C>, (context, transition), result),
    ensures
        transition is Unchanged ==> *final(context) == *old(context) && result is Published,
        !(transition is Unchanged) ==> exists|call: &mut C, said: DeviceResult<()>|
            {
                &&& #[trigger] call_ensures(C::with_irq_transition, (call, transition), said)
                &&& *call == *old(context) && *final(call) == *final(context)
                &&& result is Published <==> said is Ok
            },
{
    if !(transition is Unchanged) {
        let call = choose|call: &mut C|
            {
                &&& #[trigger] attempts(call, transition, result)
                &&& *call == *old(context)
                &&& *final(call) == *final(context)
            };
        let said = choose|said: DeviceResult<()>|
            #[trigger] call_ensures(C::with_irq_transition, (call, transition), said) && result
                == crate::virtio::pci_function::attempt_result(said);
        assert(call_ensures(C::with_irq_transition, (call, transition), said));
    }
}

/// Whether an attempt was taken for what it came to: a success moves the line, a refusal leaves it
/// where it was, and a failure leaves it unknown and is returned.
pub open spec fn is_taken_for(
    said: DeviceResult<()>,
    transition: InterruptTransition,
    before: VirtioPciInterruptCoordinator,
    after: VirtioPciInterruptCoordinator,
    result: DeviceResult<()>,
) -> bool {
    &&& after.pending == before.pending && after.disabled == before.disabled
    &&& after.in_flight is Unchanged
    &&& match said {
        Ok(_) => {
            &&& result is Ok
            &&& transition is Assert ==> after.line is High
            &&& transition is Deassert ==> after.line is Low
        },
        Err(DeviceError::InvalidState { .. }) => result is Ok && after.line == before.line,
        Err(error) => result == Err::<(), _>(error) && after.line is Unknown,
    }
}

/// A transition that is still wanted takes one attempt.
proof fn lemma_one_attempt<C: IrqTransitionContext>(
    calls: Seq<&mut C>,
    states: Seq<C>,
    before: VirtioPciInterruptCoordinator,
    transition: InterruptTransition,
    after: VirtioPciInterruptCoordinator,
    result: DeviceResult<()>,
)
    requires
        is_chain(calls, states),
        forall|i: int| 0 <= i < calls.len() ==> *final(#[trigger] calls[i]) == states[i + 1],
        is_transition_end(calls, before, transition, after, result),
        before.in_flight == transition,
        transition is Assert ==> before.pending != 0 && !before.disabled,
        transition is Deassert ==> before.pending == 0 || before.disabled,
        !(transition is Unchanged),
    ensures
        exists|call: &mut C, said: DeviceResult<()>|
            {
                &&& #[trigger] call_ensures(C::with_irq_transition, (call, transition), said)
                &&& *call == states.first() && *final(call) == states.last()
                &&& is_taken_for(said, transition, before, after, result)
            },
{
    let results = choose|results: Seq<TransitionResult>|
        {
            &&& #[trigger] after_attempts(before, transition, results) == (
                after,
                InterruptTransition::Unchanged,
            )
            &&& result == crate::virtio::pci_function::attempts_result(results)
            &&& are_attempts(calls, before, transition, results)
        };
    assert(results.len() > 0);
    let first = results[0];
    assert(results.take(0) =~= Seq::<TransitionResult>::empty());
    assert(results.take(1).drop_last() =~= Seq::<TransitionResult>::empty());
    assert(results.take(1).last() == first);
    assert(after_attempts(before, transition, results.take(0)) == (before, transition));
    assert(after_attempts(before, transition, results.take(1)) == after_attempt(
        before,
        transition,
        first,
    ));
    assert(after_attempts(before, transition, results.take(1)).1 is Unchanged);
    assert(results.len() == 1);
    assert(results.take(1) =~= results);
    assert(attempts(calls[0], transition, first));
    let said = choose|said: DeviceResult<()>|
        #[trigger] call_ensures(C::with_irq_transition, (calls[0], transition), said) && first
            == crate::virtio::pci_function::attempt_result(said);
    assert(call_ensures(C::with_irq_transition, (calls[0], transition), said));
    assert(*calls[0] == states[0]);
    assert(*final(calls[0]) == states[1]);
}

/// Nothing is attempted where nothing is to be changed.
proof fn lemma_no_attempt<C: IrqTransitionContext>(
    calls: Seq<&mut C>,
    states: Seq<C>,
    before: VirtioPciInterruptCoordinator,
    after: VirtioPciInterruptCoordinator,
    result: DeviceResult<()>,
)
    requires
        is_chain(calls, states),
        is_transition_end(calls, before, InterruptTransition::Unchanged, after, result),
    ensures
        after == before,
        result is Ok,
        states.first() == states.last(),
{
    let transition = InterruptTransition::Unchanged;
    let results = choose|results: Seq<TransitionResult>|
        {
            &&& #[trigger] after_attempts(before, transition, results) == (
                after,
                InterruptTransition::Unchanged,
            )
            &&& result == crate::virtio::pci_function::attempts_result(results)
            &&& are_attempts(calls, before, transition, results)
        };
    if results.len() > 0 {
        assert(results.take(0) =~= Seq::<TransitionResult>::empty());
        assert(after_attempts(before, transition, results.take(0)).1 is Unchanged);
        assert(false);
    }
    assert(calls.len() == 0);
}

/// Performing a transition that the line still needs takes one attempt, and touches nothing but the
/// line.
pub proof fn law_needed_transition_takes_one_attempt<D, C: IrqTransitionContext>(
    function: &mut VirtioPciFunction<D>,
    context: &mut C,
    transition: InterruptTransition,
    result: DeviceResult<()>,
)
    requires
        call_ensures(
            VirtioPciFunction::<D>::finish_transition::<C>,
            (function, context, transition),
            result,
        ),
        ({
            let line = old(function).transport@.interrupts;
            &&& line.in_flight == transition && !(transition is Unchanged)
            &&& transition is Assert ==> line.pending != 0 && !line.disabled
            &&& transition is Deassert ==> line.pending == 0 || line.disabled
        }),
    ensures
        exists|call: &mut C, said: DeviceResult<()>|
            {
                &&& #[trigger] call_ensures(C::with_irq_transition, (call, transition), said)
                &&& *call == *old(context) && *final(call) == *final(context)
                &&& is_taken_for(said, transition, old(function).transport@.interrupts,
                    final(function).transport@.interrupts, result)
            },
        final(function).transport@ == (PciTransportModel {
            interrupts: final(function).transport@.interrupts,
            ..old(function).transport@
        }),
{
    let (calls, states) = choose|calls: Seq<&mut C>, states: Seq<C>|
        {
            &&& #[trigger] is_chain(calls, states)
            &&& states.first() == *old(context)
            &&& states.last() == *final(context)
            &&& forall|i: int| 0 <= i < calls.len() ==> *final(#[trigger] calls[i]) == states[i + 1]
            &&& is_transition_end(
                calls,
                old(function).transport@.interrupts,
                transition,
                final(function).transport@.interrupts,
                result,
            )
        };
    lemma_one_attempt(
        calls,
        states,
        old(function).transport@.interrupts,
        transition,
        final(function).transport@.interrupts,
        result,
    );
}

/// The transition that brings a line to where it ought to be: up with an interrupt bit that is not
/// disabled, down without.
pub open spec fn way_to(line: LineLevel, pending: u8, disabled: bool) -> InterruptTransition {
    let high = pending != 0 && !disabled;
    if high && !(line is High) {
        InterruptTransition::Assert
    } else if !high && !(line is Low) {
        InterruptTransition::Deassert
    } else {
        InterruptTransition::Unchanged
    }
}

/// A settled request took one attempt, or none where nothing was to be changed.
proof fn lemma_request<D, C: IrqTransitionContext>(
    calls: Seq<&mut C>,
    states: Seq<C>,
    start: PciTransportModel<D>,
    before: PciTransportModel<D>,
    transition: InterruptTransition,
    after: PciTransportModel<D>,
    result: DeviceResult<()>,
)
    requires
        is_chain(calls, states),
        forall|i: int| 0 <= i < calls.len() ==> *final(#[trigger] calls[i]) == states[i + 1],
        is_request_end(
            calls,
            before,
            InterruptTransitionRequest { transition, activity: None },
            after,
            result,
        ),
        before == (PciTransportModel { interrupts: before.interrupts, ..start }),
        before.interrupts.in_flight == transition,
        transition == way_to(
            before.interrupts.line,
            before.interrupts.pending,
            before.interrupts.disabled,
        ),
    ensures
        after == (PciTransportModel { interrupts: after.interrupts, ..start }),
        transition is Unchanged ==> states.first() == states.last() && result is Ok
            && after.interrupts == before.interrupts,
        !(transition is Unchanged) ==> exists|call: &mut C, said: DeviceResult<()>|
            {
                &&& #[trigger] call_ensures(C::with_irq_transition, (call, transition), said)
                &&& *call == states.first() && *final(call) == states.last()
                &&& is_taken_for(said, transition, before.interrupts, after.interrupts, result)
            },
{
    let request = InterruptTransitionRequest { transition, activity: None };
    let reached = choose|reached: VirtioPciInterruptCoordinator|
        {
            &&& #[trigger] is_transition_end(
                calls,
                before.interrupts,
                request.transition,
                reached,
                result,
            )
            &&& after == (PciTransportModel {
                interrupts: if reached.owns(request.transition) {
                    reached.withdrawn()
                } else {
                    reached
                },
                activity: before.activity,
                ..before
            })
        };
    assert(is_transition_end(calls, before.interrupts, transition, reached, result));
    if transition is Unchanged {
        lemma_no_attempt(calls, states, before.interrupts, reached, result);
    } else {
        lemma_one_attempt(calls, states, before.interrupts, transition, reached, result);
    }
}

/// A change of the command register takes over its interrupt-disable bit and brings the line to
/// where it then ought to be, with one attempt if it is not there; nothing else changes.
pub proof fn law_command_moves_the_line<D, C: IrqTransitionContext>(
    function: &mut VirtioPciFunction<D>,
    command: PciCommandState,
    context: &mut C,
    result: DeviceResult<()>,
)
    requires
        call_ensures(
            VirtioPciFunction::<D>::command_changed::<C>,
            (function, command, context),
            result,
        ),
        old(function).transport@.interrupts.in_flight is Unchanged,
    ensures
        ({
            let before = old(function).transport@.interrupts;
            let after = final(function).transport@.interrupts;
            let way = way_to(before.line, before.pending, command.interrupt_disable);
            &&& final(function).transport@ == (PciTransportModel {
                interrupts: after,
                ..old(function).transport@
            })
            &&& way is Unchanged ==> result is Ok && *final(context) == *old(context) && after == (
            VirtioPciInterruptCoordinator { disabled: command.interrupt_disable, ..before })
            &&& !(way is Unchanged) ==> exists|call: &mut C, said: DeviceResult<()>|
            {
                &&& #[trigger] call_ensures(C::with_irq_transition, (call, way), said)
                &&& *call == *old(context) && *final(call) == *final(context)
                &&& is_taken_for(said, way,
                    VirtioPciInterruptCoordinator { disabled: command.interrupt_disable,
                    ..before }, after, result)
            }
        }),
{
    let before = old(function).transport@;
    let after = final(function).transport@;
    let way = way_to(before.interrupts.line, before.interrupts.pending, command.interrupt_disable);
    let begun = PciTransportModel {
        interrupts: before.interrupts.switched(command.interrupt_disable).started(),
        ..before
    };
    let (calls, states) = choose|calls: Seq<&mut C>, states: Seq<C>|
        {
            &&& #[trigger] is_chain(calls, states)
            &&& states.first() == *old(context)
            &&& states.last() == *final(context)
            &&& forall|i: int| 0 <= i < calls.len() ==> *final(#[trigger] calls[i]) == states[i + 1]
            &&& is_request_end(
                calls,
                begun,
                InterruptTransitionRequest {
                    transition: before.interrupts.switched(command.interrupt_disable).next(),
                    activity: None,
                },
                after,
                result,
            )
        };
    lemma_request(calls, states, before, begun, way, after, result);
}

/// Accesses to another BAR than the first are refused and change nothing.
pub proof fn law_only_the_first_bar_is_served<D: VirtioDeviceCore, C: IrqTransitionContext>(
    function: &mut VirtioPciFunction<D>,
    access: PciBarAccess,
    context: &mut C,
    value: DeviceResult<u64>,
    allowed: DeviceResult<()>,
)
    requires
        call_ensures(
            VirtioPciFunction::<D>::read_bar::<C>,
            (function, access, context),
            value,
        ),
        call_ensures(VirtioPciFunction::<D>::require_bar_zero, (access,), allowed),
    ensures
        allowed is Ok <==> access.route.bar.0 == 0,
        access.route.bar.0 != 0 ==> {
            &&& allowed == Err::<(), _>(DeviceError::OutOfRange { addr: access.route.offset })
            &&& value == Err::<u64, _>(DeviceError::OutOfRange { addr: access.route.offset })
            &&& final(function).transport@ == old(function).transport@
            &&& *final(context) == *old(context)
        },
{
}

/// A byte read at 0x200 of the BAR gives the interrupt bits and clears them, and lowers a line
/// that is not known to be low with one attempt, whose end does not change the value.
pub proof fn law_interrupt_bits_are_read_and_cleared<
    D: VirtioDeviceCore,
    C: IrqTransitionContext,
>(
    function: &mut VirtioPciFunction<D>,
    access: PciBarAccess,
    context: &mut C,
    value: DeviceResult<u64>,
)
    requires
        call_ensures(
            VirtioPciFunction::<D>::read_bar::<C>,
            (function, access, context),
            value,
        ),
        access.route.bar.0 == 0,
        access.route.offset == 0x200,
        access.route.width is Byte,
        old(function).transport@.interrupts.in_flight is Unchanged,
    ensures
        ({
            let before = old(function).transport@.interrupts;
            let after = final(function).transport@.interrupts;
            let cleared = VirtioPciInterruptCoordinator { pending: 0, ..before };
            &&& value matches Ok(bits) && bits == before.pending
            &&& final(function).transport@ == (PciTransportModel {
                interrupts: after,
                ..old(function).transport@
            })
            &&& before.line is Low ==> *final(context) == *old(context) && after == cleared
            &&& !(before.line is Low)
                ==> exists|call: &mut C, said: DeviceResult<()>, result: DeviceResult<()>|
                {
                    &&& #[trigger] call_ensures(C::with_irq_transition, (call,
                        InterruptTransition::Deassert), said)
                    &&& *call == *old(context) && *final(call) == *final(context)
                    &&& #[trigger] is_taken_for(said, InterruptTransition::Deassert, cleared,
                        after, result)
                }
        }),
{
    let before = old(function).transport@;
    let after = final(function).transport@;
    let cleared = VirtioPciInterruptCoordinator { pending: 0, ..before.interrupts };
    let begun = PciTransportModel { interrupts: cleared.started(), ..before };
    let way = way_to(before.interrupts.line, 0, before.interrupts.disabled);
    let (calls, states) = choose|calls: Seq<&mut C>, states: Seq<C>|
        {
            &&& #[trigger] is_chain(calls, states)
            &&& states.first() == *old(context)
            &&& states.last() == *final(context)
            &&& forall|i: int| 0 <= i < calls.len() ==> *final(#[trigger] calls[i]) == states[i + 1]
            &&& is_endpoint_read(
                calls,
                before,
                access.route.offset,
                access.route.width,
                after,
                value,
            )
        };
    let request = InterruptTransitionRequest { transition: cleared.next(), activity: None };
    assert(is_request_settled(calls, begun, request, after));
    let result = choose|result: DeviceResult<()>| #[trigger]
        is_request_end(calls, begun, request, after, result);
    assert(is_request_end(calls, begun, request, after, result));
    lemma_request(calls, states, before, begun, way, after, result);
    if !(before.interrupts.line is Low) {
        let attempted = VirtioPciInterruptCoordinator { in_flight: way, ..cleared };
        assert(begun.interrupts == attempted);
        let (call, said) = choose|call: &mut C, said: DeviceResult<()>|
            {
                &&& #[trigger] call_ensures(C::with_irq_transition, (call, way), said)
                &&& *call == states.first() && *final(call) == states.last()
                &&& is_taken_for(said, way, begun.interrupts, after.interrupts, result)
            };
        assert(call_ensures(C::with_irq_transition, (call, InterruptTransition::Deassert), said));
        assert(is_taken_for(
            said,
            InterruptTransition::Deassert,
            cleared,
            after.interrupts,
            result,
        ));
    }
}

/// Every other read leaves the transport and the line alone, and gives the register that is there:
/// the status at 0x14, the ring addresses of the selected queue at 0x20, 0x28 and 0x30, and the
/// device's own configuration from 0x300 on.
pub proof fn law_bar_read_gives_the_register<D: VirtioDeviceCore, C: IrqTransitionContext>(
    function: &mut VirtioPciFunction<D>,
    access: PciBarAccess,
    context: &mut C,
    value: DeviceResult<u64>,
)
    requires
        call_ensures(
            VirtioPciFunction::<D>::read_bar::<C>,
            (function, access, context),
            value,
        ),
        access.route.bar.0 == 0,
        access.route.offset != 0x200 || !(access.route.width is Byte),
    ensures
        final(function).transport@ == old(function).transport@,
        *final(context) == *old(context),
        ({
            let state = old(function).transport@.state;
            let layout = state.queues[state.queue_select as int].queue.layout;
            let present = state.queue_select < state.queues.len();
            let offset = access.route.offset;
            let width = access.route.width;
            &&& offset == 0x14 && width is Byte ==> value is Ok && value->Ok_0 == state.status
            &&& offset == 0x16 && width is Word ==> value is Ok && value->Ok_0 == state.queue_select
            &&& offset == 0x20 && width is Qword && present ==> value is Ok && value->Ok_0
                == layout.desc_table_addr
            &&& offset == 0x28 && width is Qword && present ==> value is Ok && value->Ok_0
                == layout.avail_ring_addr
            &&& offset == 0x30 && width is Qword && present ==> value is Ok && value->Ok_0
                == layout.used_ring_addr
            &&& 0x300 <= offset < 0x1000 ==> call_ensures(
                D::read_config,
                (&old(function).transport.core, (offset - 0x300) as u64, width),
                value,
            )
            &&& 0x100 <= offset < 0x300 || offset >= 0x1000 ==> value == Err::<u64, _>(
                DeviceError::OutOfRange { addr: offset },
            )
        }),
{
    let (calls, states) = choose|calls: Seq<&mut C>, states: Seq<C>|
        {
            &&& #[trigger] is_chain(calls, states)
            &&& states.first() == *old(context)
            &&& states.last() == *final(context)
            &&& forall|i: int| 0 <= i < calls.len() ==> *final(#[trigger] calls[i]) == states[i + 1]
            &&& is_endpoint_read(
                calls,
                old(function).transport@,
                access.route.offset,
                access.route.width,
                final(function).transport@,
                value,
            )
        };
    assert(calls.len() == 0);
}

/// The endpoint says that an interrupt is pending exactly while an interrupt bit is set,
/// answers one config effect, claims no bus range of its own, and refuses accesses that do not
/// come through the PCI root.
pub proof fn law_endpoint_is_reached_through_the_root<D>(
    function: VirtioPciFunction<D>,
    access: DeviceAccess,
    value: u64,
    pending: bool,
    effects: Vec<PciConfigEffectId>,
    resources: Vec<Resource>,
    read: DeviceResult<u64>,
    written: DeviceResult<()>,
)
    requires
        call_ensures(VirtioPciFunction::<D>::intx_pending, (&function,), pending),
        call_ensures(VirtioPciFunction::<D>::supported_config_effects, (&function,), effects),
        call_ensures(VirtioPciFunction::<D>::resources, (&function,), resources),
        call_ensures(VirtioPciFunction::<D>::read, (&function, &access), read),
        call_ensures(VirtioPciFunction::<D>::write, (&function, &access, value), written),
    ensures
        pending <==> function.transport@.interrupts.pending != 0,
        effects@.len() == 1,
        resources@.len() == 0,
        read matches Err(DeviceError::Unsupported { .. }),
        written matches Err(DeviceError::Unsupported { .. }),
{
}

/// A reset after which the interrupt source is withdrawn starts the device over: no status, no
/// interrupt bit, an open barrier, queues that are not enabled, and a line that is low. A line
/// that cannot be lowered leaves everything as the reset left it. With an operation inside, or
/// with another reset going on, the reset is refused.
pub proof fn law_reset_and_withdrawal_start_the_device_over<D>(
    reset: &mut VirtioPciFunction<D>,
    withdraw: &mut VirtioPciFunction<D>,
    command: PciCommandState,
    permit: &mut EndpointIrqTransitionPermit,
    lowered: Result<(), String>,
    result: DeviceResult<()>,
    withdrawn: DeviceResult<()>,
)
    requires
        call_ensures(VirtioPciFunction::<D>::reset, (reset, command), result),
        *old(withdraw) == *final(reset),
        call_ensures(
            VirtioPciFunction::<D>::withdraw_irq,
            (withdraw, permit, lowered),
            withdrawn,
        ),
    ensures
        ({
            let before = old(reset).transport@;
            let after = final(withdraw).transport@;
            &&& result is Ok <==> !before.activity.resetting && before.activity.active == 0
            &&& withdrawn is Ok <==> lowered is Ok
            &&& result is Ok ==> final(reset).transport@.state.status == 64
                && final(reset).transport@.state.reset_pending
                && final(reset).transport@.interrupts.pending
                == 0 && !final(reset).transport@.activity.accepting
            &&& result is Err ==> final(reset).transport@.state == before.state
                && final(reset).transport@.interrupts == before.interrupts
            &&& withdrawn is Err ==> after == final(reset).transport@
            &&& result is Ok && withdrawn is Ok ==> {
                &&& after.state.status == 0 && !after.state.device_needs_reset
                &&& !after.state.reset_pending && after.state.driver_features == 0
                &&& after.activity.accepting && !after.activity.resetting && after.activity.active
                    == 0
                &&& after.interrupts.pending == 0 && after.interrupts.line is Low
                &&& after.interrupts.disabled == command.interrupt_disable
                &&& after.interrupts.in_flight is Unchanged
                &&& after.core == before.core
                &&& after.state.queues.len() == before.state.queues.len()
                &&& forall|i: int|
                    #![trigger after.state.queues[i]]
                    0 <= i < after.state.queues.len() ==> !after.state.queues[i].enabled
                        && !after.state.queues[i].processing
            }
        }),
{
}

/// An endpoint of a device starts with the device's own right to memory, a zero status, one
/// queue that is not enabled, no interrupt bit and a low line; other devices are refused.
pub proof fn law_endpoint_starts_blank<D: VirtioDeviceCore>(
    core: D,
    dma_grant: DmaGrant,
    function: VirtioPciFunction<D>,
)
    requires
        call_ensures(VirtioPciFunction::<D>::try_new, (core, dma_grant), Ok(function)),
    ensures
        function.transport.core == core,
        function.dma_grant == dma_grant,
        function.transport@.state.status == 0,
        function.transport@.state.queues.len() == 1,
        !function.transport@.state.queues[0].enabled,
        is_power(function.transport@.queue_size_max as int),
        function.transport@.state.queues[0].queue.layout.size
            == function.transport@.queue_size_max,
        function.transport@.interrupts.pending == 0,
        function.transport@.interrupts.line is Low,
        function.transport@.activity.accepting,
        function.transport@.activity.active == 0,
        call_ensures(D::queue_size_max, (&core,), function.transport@.queue_size_max),
        call_ensures(D::device_features, (&core,), function.transport@.device_features),
{
    assert(crate::virtio::pci_state::is_fresh_queue(
        function.transport@.state.queues[0],
        0,
        function.transport@.queue_size_max,
    ));
}

/// Leaving the barrier undoes entering it; only an open barrier is entered.
pub proof fn law_barrier_counts_who_is_inside(
    enter: &mut QueueActivity,
    leave: &mut QueueActivity,
    generation: VirtioQueueGeneration,
    permit: Option<ActivityPermit>,
)
    requires
        call_ensures(QueueActivity::acquire, (enter, generation), permit),
        permit is Some ==> *old(leave) == *final(enter) && call_ensures(
            QueueActivity::release,
            (leave, permit->0),
            (),
        ),
    ensures
        permit is Some <==> old(enter).accepting && old(enter).active < usize::MAX,
        permit matches Some(permit) ==> {
            &&& permit.generation == generation
            &&& final(enter).active == old(enter).active + 1
            &&& *final(leave) == *old(enter)
        },
        permit is None ==> *final(enter) == *old(enter),
{
}

/// A closed barrier lets nobody in until it is opened again, and is drained once nobody is
/// inside; one reset has it at a time.
pub proof fn law_barrier_closes_for_a_reset(
    begin: &mut QueueActivity,
    again: &mut QueueActivity,
    close: &mut QueueActivity,
    enter: &mut QueueActivity,
    generation: VirtioQueueGeneration,
    begun: bool,
    another: bool,
    drained: bool,
    permit: Option<ActivityPermit>,
)
    requires
        call_ensures(QueueActivity::begin_reset, (begin,), begun),
        *old(again) == *final(begin),
        call_ensures(QueueActivity::begin_reset, (again,), another),
        *old(close) == *final(again),
        call_ensures(QueueActivity::close_and_drain, (close,), drained),
        *old(enter) == *final(close),
        call_ensures(QueueActivity::acquire, (enter, generation), permit),
    ensures
        begun <==> !old(begin).resetting,
        !another,
        drained <==> old(begin).active == 0,
        permit is None,
        final(enter).active == old(begin).active,
{
}

/// A notification that is completed without publishing gives its permit back and takes its
/// transition back; so does a request that is ended.
pub proof fn law_completion_leaves_the_barrier(
    notification: QueueNotification,
    request: InterruptTransitionRequest,
    interrupts: &mut VirtioPciInterruptCoordinator,
    activity: &mut QueueActivity,
    other: &mut VirtioPciInterruptCoordinator,
    barrier: &mut QueueActivity,
)
    requires
        call_ensures(QueueNotification::complete, (notification, interrupts, activity), ()),
        call_ensures(InterruptTransitionRequest::finish, (request, other, barrier), ()),
    ensures
        notification.activity is Some && old(activity).active > 0 ==> final(activity).active
            == old(activity).active - 1,
        notification.activity is None ==> *final(activity) == *old(activity),
        final(activity).accepting == old(activity).accepting,
        final(interrupts).pending == old(interrupts).pending,
        final(interrupts).line == old(interrupts).line,
        notification.interrupt is Unchanged ==> *final(interrupts) == *old(interrupts),
        request.activity is Some && old(barrier).active > 0 ==> final(barrier).active
            == old(barrier).active - 1,
        request.activity is None ==> *final(barrier) == *old(barrier),
        final(other).pending == old(other).pending,
        final(other).line == old(other).line,
        old(other).in_flight == request.transition ==> final(other).in_flight is Unchanged,
        old(other).in_flight != request.transition ==> *final(other) == *old(other),
{
}

/// What a register write through the endpoint leaves: the model that the write makes of the
/// transport, without any access to memory and without a word to the line.
proof fn lemma_plain_write<D: VirtioDeviceCore, M: GuestMemory, C: IrqTransitionContext>(
    function: &mut VirtioPciFunction<D>,
    access: PciBarAccess,
    value: u64,
    memory: &mut M,
    context: &mut C,
    result: DeviceResult<()>,
)
    requires
        call_ensures(
            VirtioPciFunction::<D>::write_bar::<M, C>,
            (function, access, value, memory, context),
            result,
        ),
        access.route.bar.0 == 0,
        access.route.offset < 0x100,
        !(access.route.offset == 0x14 && access.route.width is Byte && value % 0x100 == 0),
    ensures
        *final(memory) == *old(memory),
        *final(context) == *old(context),
        match common_register(access.route.offset, access.route.width) {
            Some(register) => {
                &&& final(function).transport@ == old(function).transport@.common_written(
                    register,
                    value,
                )
                &&& result is Ok <==> old(function).transport@.common_outcome(register, value) is Ok
            },
            None => final(function).transport@ == old(function).transport@ && result is Err,
        },
{
    let before = old(function).transport@;
    let after = final(function).transport@;
    let (reads, memories, device, queue, lines, contexts) = choose|
        reads: Seq<&mut M>,
        memories: Seq<M>,
        device: Option<&mut D>,
        queue: Option<&mut VirtioQueue<NoGuestMemoryAccessor>>,
        lines: Seq<&mut C>,
        contexts: Seq<C>,
    |
        {
            &&& #[trigger] is_chain(reads, memories)
            &&& memories.first() == *old(memory)
            &&& memories.last() == *final(memory)
            &&& #[trigger] is_work(device, queue)
            &&& #[trigger] is_chain(lines, contexts)
            &&& contexts.first() == *old(context)
            &&& contexts.last() == *final(context)
            &&& is_endpoint_write(
                reads,
                device,
                queue,
                lines,
                before,
                access.route.offset,
                access.route.width,
                value,
                access.dma_enabled,
                after,
                result,
            )
        };
    let (written, outcome) = choose|
        written: PciTransportModel<D>,
        outcome: DeviceResult<VirtioPciWriteOutcome>,
    |
        {
            &&& is_bar_write(
                reads,
                device,
                queue,
                before,
                access.route.offset,
                access.route.width,
                value,
                access.dma_enabled,
                written,
                outcome,
            )
            &&& #[trigger] is_write_end(lines, written, outcome, after, result)
        };
    assert(is_write_end(lines, written, outcome, after, result));
    assert(reads.len() == 0);
    assert(lines.len() == 0);
}

/// A status that is written to the BAR is read back from it: without the features-sealed bit,
/// and with no reset needed, every nonzero status is kept as it was written, and nothing else
/// changes.
pub proof fn law_status_reads_back_through_the_bar<
    D: VirtioDeviceCore,
    M: GuestMemory,
    C: IrqTransitionContext,
>(
    write: &mut VirtioPciFunction<D>,
    read: &mut VirtioPciFunction<D>,
    access: PciBarAccess,
    value: u64,
    memory: &mut M,
    context: &mut C,
    later: &mut C,
    result: DeviceResult<()>,
    status: DeviceResult<u64>,
)
    requires
        call_ensures(
            VirtioPciFunction::<D>::write_bar::<M, C>,
            (write, access, value, memory, context),
            result,
        ),
        *old(read) == *final(write),
        call_ensures(VirtioPciFunction::<D>::read_bar::<C>, (read, access, later), status),
        access.route.bar.0 == 0,
        access.route.offset == 0x14,
        access.route.width is Byte,
        value % 0x100 != 0,
        ((value % 0x100) as u8) & 8 == 0,
        !old(write).transport@.state.device_needs_reset,
    ensures
        result is Ok,
        status is Ok && status->Ok_0 == value % 0x100,
        final(write).transport@ == (PciTransportModel {
            state: TransportModel {
                status: (value % 0x100) as u8,
                ..old(write).transport@.state
            },
            ..old(write).transport@
        }),
        *final(memory) == *old(memory),
        *final(context) == *old(context),
{
    lemma_plain_write(write, access, value, memory, context, result);
    law_bar_read_gives_the_register(read, access, later, status);
}

/// A ring address that is written to the BAR is read back from it at the same offset, and the other
/// rings stay where they are.
pub proof fn law_ring_address_reads_back_through_the_bar<
    D: VirtioDeviceCore,
    M: GuestMemory,
    C: IrqTransitionContext,
>(
    write: &mut VirtioPciFunction<D>,
    read: &mut VirtioPciFunction<D>,
    access: PciBarAccess,
    value: u64,
    memory: &mut M,
    context: &mut C,
    later: &mut C,
    result: DeviceResult<()>,
    address: DeviceResult<u64>,
)
    requires
        call_ensures(
            VirtioPciFunction::<D>::write_bar::<M, C>,
            (write, access, value, memory, context),
            result,
        ),
        *old(read) == *final(write),
        call_ensures(VirtioPciFunction::<D>::read_bar::<C>, (read, access, later), address),
        access.route.bar.0 == 0,
        access.route.offset == 0x20 || access.route.offset == 0x28 || access.route.offset == 0x30,
        access.route.width is Qword,
        ({
            let state = old(write).transport@.state;
            &&& state.queue_select < state.queues.len()
            &&& !state.queues[state.queue_select as int].processing
        }),
    ensures
        result is Ok,
        address is Ok && address->Ok_0 == value,
        ({
            let selected = old(write).transport@.state.queue_select as int;
            let before = old(write).transport@.state.queues[selected].queue.layout;
            let after = final(write).transport@.state.queues[selected].queue.layout;
            let offset = access.route.offset;
            &&& offset == 0x20 ==> after.desc_table_addr == value
            &&& offset == 0x28 ==> after.avail_ring_addr == value
            &&& offset == 0x30 ==> after.used_ring_addr == value
            &&& offset != 0x20 ==> after.desc_table_addr == before.desc_table_addr
            &&& offset != 0x28 ==> after.avail_ring_addr == before.avail_ring_addr
            &&& offset != 0x30 ==> after.used_ring_addr == before.used_ring_addr
            &&& after.size == before.size && after.ready == before.ready
        }),
        final(write).transport@.state.status == old(write).transport@.state.status,
        *final(memory) == *old(memory),
        *final(context) == *old(context),
{
    lemma_plain_write(write, access, value, memory, context, result);
    law_bar_read_gives_the_register(read, access, later, address);
}

/// A zero status that is written to the BAR resets the device: with nobody inside and no other
/// reset going on, the line is lowered if it is not known to be low, and the device starts over
/// with a zero status. Where lowering the line fails, the error is returned, and the device
/// needs a reset still.
pub proof fn law_zero_status_starts_the_device_over<
    D: VirtioDeviceCore,
    M: GuestMemory,
    C: IrqTransitionContext,
>(
    function: &mut VirtioPciFunction<D>,
    access: PciBarAccess,
    value: u64,
    memory: &mut M,
    context: &mut C,
    result: DeviceResult<()>,
)
    requires
        call_ensures(
            VirtioPciFunction::<D>::write_bar::<M, C>,
            (function, access, value, memory, context),
            result,
        ),
        access.route.bar.0 == 0,
        access.route.offset == 0x14,
        access.route.width is Byte,
        value % 0x100 == 0,
        old(function).transport@.interrupts.in_flight is Unchanged,
    ensures
        ({
            let before = old(function).transport@;
            let after = final(function).transport@;
            let free = !before.activity.resetting && before.activity.active == 0;
            let cleared = VirtioPciInterruptCoordinator { pending: 0, ..before.interrupts };
            &&& !free ==> result is Err && after.state == before.state && after.interrupts
                == before.interrupts && *final(context) == *old(context)
            &&& free && before.interrupts.line is Low ==> result is Ok && after.interrupts
                == cleared && *final(context) == *old(context)
            &&& free && !(before.interrupts.line is Low) ==> exists|
                call: &mut C,
                said: DeviceResult<()>,
            |
                {
                    &&& #[trigger] call_ensures(
                        C::with_irq_transition,
                        (call, InterruptTransition::Deassert),
                        said,
                    )
                    &&& *call == *old(context) && *final(call) == *final(context)
                    &&& is_taken_for(
                        said,
                        InterruptTransition::Deassert,
                        cleared,
                        after.interrupts,
                        result,
                    )
                }
            &&& free && result is Ok ==> after.state.status == 0 && !after.state.device_needs_reset
                && after.activity.accepting && !after.activity.resetting
            &&& free && result is Err ==> after.state.status == 64 && after.state.device_needs_reset
                && !after.activity.accepting && !after.activity.resetting
            &&& free ==> after.state.driver_features == 0 && after.state.queue_select == 0
                && after.state.queues.len() == before.state.queues.len() && after.core
                == before.core
            &&& free ==> forall|i: int|
                #![trigger after.state.queues[i]]
                0 <= i < after.state.queues.len() ==> !after.state.queues[i].enabled
        }),
        *final(memory) == *old(memory),
{
    let before = old(function).transport@;
    let after = final(function).transport@;
    let cleared = VirtioPciInterruptCoordinator { pending: 0, ..before.interrupts };
    let (reads, memories, device, queue, lines, contexts) = choose|
        reads: Seq<&mut M>,
        memories: Seq<M>,
        device: Option<&mut D>,
        queue: Option<&mut VirtioQueue<NoGuestMemoryAccessor>>,
        lines: Seq<&mut C>,
        contexts: Seq<C>,
    |
        {
            &&& #[trigger] is_chain(reads, memories)
            &&& memories.first() == *old(memory)
            &&& memories.last() == *final(memory)
            &&& #[trigger] is_work(device, queue)
            &&& #[trigger] is_chain(lines, contexts)
            &&& contexts.first() == *old(context)
            &&& contexts.last() == *final(context)
            &&& forall|i: int|
                0 <= i < lines.len() ==> *final(#[trigger] lines[i]) == contexts[i + 1]
            &&& is_endpoint_write(
                reads,
                device,
                queue,
                lines,
                before,
                access.route.offset,
                access.route.width,
                value,
                access.dma_enabled,
                after,
                result,
            )
        };
    let (written, outcome) = choose|
        written: PciTransportModel<D>,
        outcome: DeviceResult<VirtioPciWriteOutcome>,
    |
        {
            &&& is_bar_write(
                reads,
                device,
                queue,
                before,
                access.route.offset,
                access.route.width,
                value,
                access.dma_enabled,
                written,
                outcome,
            )
            &&& #[trigger] is_write_end(lines, written, outcome, after, result)
        };
    assert(is_write_end(lines, written, outcome, after, result));
    assert(reads.len() == 0);
    if !before.activity.resetting && before.activity.active == 0 {
        let way = way_to(before.interrupts.line, 0, before.interrupts.disabled);
        assert(outcome == Ok::<_, DeviceError>(VirtioPciWriteOutcome::Reset { interrupt: way }));
        assert(written.interrupts == cleared.started());
        if way is Unchanged {
            lemma_no_attempt(lines, contexts, written.interrupts, after.interrupts, result);
        } else {
            lemma_one_attempt(
                lines,
                contexts,
                written.interrupts,
                way,
                after.interrupts,
                result,
            );
            let (call, said) = choose|call: &mut C, said: DeviceResult<()>|
                {
                    &&& #[trigger] call_ensures(C::with_irq_transition, (call, way), said)
                    &&& *call == contexts.first() && *final(call) == contexts.last()
                    &&& is_taken_for(said, way, written.interrupts, after.interrupts, result)
                };
            assert(call_ensures(
                C::with_irq_transition,
                (call, InterruptTransition::Deassert),
                said,
            ));
        }
    }
}

/// A notification that is written to the BAR has left the barrier again when the write returns,
/// whatever came of it; a fault is returned as an error, with the need of a reset in the status.
pub proof fn law_notified_queue_leaves_the_barrier<
    D: VirtioDeviceCore,
    M: GuestMemory,
    C: IrqTransitionContext,
>(
    function: &mut VirtioPciFunction<D>,
    access: PciBarAccess,
    value: u64,
    memory: &mut M,
    context: &mut C,
    result: DeviceResult<()>,
)
    requires
        call_ensures(
            VirtioPciFunction::<D>::write_bar::<M, C>,
            (function, access, value, memory, context),
            result,
        ),
        access.route.bar.0 == 0,
        access.route.offset == 0x100,
        access.route.width is Word,
    ensures
        final(function).transport@.activity == old(function).transport@.activity,
        ({
            let before = old(function).transport@;
            let after = final(function).transport@;
            let index = value as int % 0x1_0000;
            let present = index < before.state.queues.len();
            let ready = before.state.status & 4 != 0 && before.state.status & 64 == 0
                && before.state.queues[index].enabled && !before.state.queues[index].processing
                && access.dma_enabled;
            let admitted = before.activity.accepting && before.activity.active < usize::MAX;
            &&& !present ==> result is Err
            &&& present && ready && !admitted ==> result is Err
            &&& present && !ready ==> result is Ok
            &&& !present || !ready || !admitted ==> after == before && *final(memory)
                == *old(memory)
                && *final(context) == *old(context)
            &&& present && ready && admitted && result is Ok ==> after.state.status
                == before.state.status
            &&& present && ready && admitted && result is Err ==> after.state.status
                == before.state.status | 64 && after.state.device_needs_reset
        }),
{
    let before = old(function).transport@;
    let after = final(function).transport@;
    let index = value as int % 0x1_0000;
    assert(notified_queue(value) == index);
    let (reads, memories, device, queue, lines, contexts) = choose|
        reads: Seq<&mut M>,
        memories: Seq<M>,
        device: Option<&mut D>,
        queue: Option<&mut VirtioQueue<NoGuestMemoryAccessor>>,
        lines: Seq<&mut C>,
        contexts: Seq<C>,
    |
        {
            &&& #[trigger] is_chain(reads, memories)
            &&& memories.first() == *old(memory)
            &&& memories.last() == *final(memory)
            &&& #[trigger] is_work(device, queue)
            &&& #[trigger] is_chain(lines, contexts)
            &&& contexts.first() == *old(context)
            &&& contexts.last() == *final(context)
            &&& is_endpoint_write(
                reads,
                device,
                queue,
                lines,
                before,
                access.route.offset,
                access.route.width,
                value,
                access.dma_enabled,
                after,
                result,
            )
        };
    let (written, outcome) = choose|
        written: PciTransportModel<D>,
        outcome: DeviceResult<VirtioPciWriteOutcome>,
    |
        {
            &&& is_bar_write(
                reads,
                device,
                queue,
                before,
                access.route.offset,
                access.route.width,
                value,
                access.dma_enabled,
                written,
                outcome,
            )
            &&& #[trigger] is_write_end(lines, written, outcome, after, result)
        };
    assert(is_write_end(lines, written, outcome, after, result));
    if let Ok(VirtioPciWriteOutcome::QueueNotified(notification)) = outcome {
        if notification.interrupt is Unchanged {
            let publications = choose|publications: Seq<InterruptPublication>|
                {
                    &&& #[trigger] written.interrupts.after_reports(
                        notification.interrupt,
                        publications,
                    ) == (after.interrupts, InterruptTransition::Unchanged)
                    &&& are_reports(
                        lines,
                        written.interrupts,
                        notification.interrupt,
                        publications,
                    )
                };
            if publications.len() > 0 {
                assert(publications.take(0) =~= Seq::<InterruptPublication>::empty());
                assert(written.interrupts.after_reports(
                    notification.interrupt,
                    publications.take(0),
                ).1 is Unchanged);
                assert(false);
            }
            assert(lines.len() == 0);
        }
    }
}

} // verus!
