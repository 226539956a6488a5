//! Lifecycle of a root binding and endpoints whose interrupt is still to be withdrawn.

use crate::access::{DeviceId, DeviceManagerError, DeviceManagerResult, DeviceResult};
use crate::pci::endpoint::{EndpointIrqTransitionPermit, PciFunction};
#[allow(unused_imports)]
use crate::pci::endpoint::says_withdrawal;
use crate::pci::router::PendingIrqWithdrawal;
use crate::pci::routing::{DrainBudget, EndpointAdmission, EndpointAdmissions};
#[allow(unused_imports)]
use crate::pci::routing::irq_permit_drain_exceeded;
use vstd::prelude::*;

verus! {

/// What a root binding is doing.
#[derive(Clone, Copy, Debug, PartialEq, Eq, Structural)]
pub enum BindingLifecycleState {
    /// Routes are served; operations may start.
    Running,
    /// An endpoint is being bound.
    Binding,
    /// Root and endpoints are being reset.
    Resetting,
    /// A reset failed; routes stay closed.
    ResetFailed,
    /// An endpoint is being withdrawn.
    Withdrawing,
    /// The binding is being torn down.
    Stopping,
    /// The binding is gone.
    Dead,
}

/// Why a withdrawal cannot start.
#[derive(Clone, Copy, Debug, PartialEq, Eq, Structural)]
pub enum WithdrawalStartError {
    /// Another operation is in progress.
    Busy,
    /// The binding is stopping or dead.
    Terminal,
}

/// What an operation leaves behind when nobody completes it.
#[derive(Clone, Copy, Debug, PartialEq, Eq, Structural)]
pub enum LifecycleCompletion {
    /// The state from before the operation.
    Restore(BindingLifecycleState),
    /// A failed reset.
    Reset,
    /// A dead binding.
    Stop,
}

impl LifecycleCompletion {
    /// The state that an operation falls back to.
    pub open spec fn fallback(self) -> BindingLifecycleState {
        match self {
            LifecycleCompletion::Restore(state) => state,
            LifecycleCompletion::Reset => BindingLifecycleState::ResetFailed,
            LifecycleCompletion::Stop => BindingLifecycleState::Dead,
        }
    }
}

/// One logical lifecycle operation that owns the binding's state.
#[derive(Debug, PartialEq, Eq)]
pub struct LifecycleOperation {
    /// What becomes of the state when the operation is abandoned.
    pub completion: LifecycleCompletion,
}

/// State of a root binding, and the devices whose withdrawal had to wait.
#[derive(Debug)]
pub struct BindingLifecycle {
    /// What the binding is doing.
    pub state: BindingLifecycleState,
    /// Devices whose lease ended while an operation was in progress.
    pub pending_binding_withdrawals: Vec<DeviceId>,
}

/// Whether a withdrawal may start, and if not, why.
pub open spec fn withdrawal_start(state: BindingLifecycleState) -> Option<WithdrawalStartError> {
    match state {
        BindingLifecycleState::Running | BindingLifecycleState::ResetFailed => None,
        BindingLifecycleState::Binding
        | BindingLifecycleState::Resetting
        | BindingLifecycleState::Withdrawing => Some(WithdrawalStartError::Busy),
        BindingLifecycleState::Stopping | BindingLifecycleState::Dead => Some(
            WithdrawalStartError::Terminal,
        ),
    }
}

/// The error for an operation that only a running binding starts.
pub open spec fn not_running(operation: &'static str) -> DeviceManagerError {
    DeviceManagerError::InvalidState { operation, detail: "PCI root binding is not running" }
}

/// The error for a withdrawal that cannot start.
pub open spec fn withdrawal_refusal(reason: WithdrawalStartError) -> DeviceManagerError {
    DeviceManagerError::InvalidState {
        operation: "withdraw PCI endpoint IRQ",
        detail: match reason {
            WithdrawalStartError::Busy =>
                "PCI root binding lifecycle operation is already in progress",
            WithdrawalStartError::Terminal => "PCI root binding is stopping or dead",
        },
    }
}

impl BindingLifecycle {
    /// Creates the lifecycle of a running binding.
    pub fn new() -> (lifecycle: Self)
        ensures
            lifecycle.state == BindingLifecycleState::Running,
            lifecycle.pending_binding_withdrawals@ == Seq::<DeviceId>::empty(),
    {
        BindingLifecycle {
            state: BindingLifecycleState::Running,
            pending_binding_withdrawals: Vec::new(),
        }
    }

    /// Starts binding an endpoint.
    ///
    /// # Errors
    ///
    /// Returns [`DeviceManagerError::InvalidState`] when the binding is not
    /// running.
    pub fn begin_binding_operation(&mut self) -> (result: DeviceManagerResult<LifecycleOperation>)
        ensures
            final(self).pending_binding_withdrawals == old(self).pending_binding_withdrawals,
            old(self).state != BindingLifecycleState::Running ==> result == Err::<
                LifecycleOperation,
                DeviceManagerError,
            >(not_running("bind PCI endpoint route")) && final(self).state == old(self).state,
            old(self).state == BindingLifecycleState::Running ==> result == Ok::<
                LifecycleOperation,
                DeviceManagerError,
            >(
                LifecycleOperation {
                    completion: LifecycleCompletion::Restore(BindingLifecycleState::Running),
                },
            ) && final(self).state == BindingLifecycleState::Binding,
    {
        if self.state != BindingLifecycleState::Running {
            return Err(
                DeviceManagerError::InvalidState {
                    operation: "bind PCI endpoint route",
                    detail: "PCI root binding is not running",
                },
            );
        }
        self.state = BindingLifecycleState::Binding;
        Ok(
            LifecycleOperation {
                completion: LifecycleCompletion::Restore(BindingLifecycleState::Running),
            },
        )
    }

    /// Starts a reset.
    ///
    /// # Errors
    ///
    /// Returns [`DeviceManagerError::InvalidState`] when the binding is not
    /// running.
    pub fn begin_reset_operation(&mut self) -> (result: DeviceManagerResult<LifecycleOperation>)
        ensures
            final(self).pending_binding_withdrawals == old(self).pending_binding_withdrawals,
            old(self).state != BindingLifecycleState::Running ==> result == Err::<
                LifecycleOperation,
                DeviceManagerError,
            >(not_running("reset PCI root binding")) && final(self).state == old(self).state,
            old(self).state == BindingLifecycleState::Running ==> result == Ok::<
                LifecycleOperation,
                DeviceManagerError,
            >(LifecycleOperation { completion: LifecycleCompletion::Reset }) && final(self).state
                == BindingLifecycleState::Resetting,
    {
        if self.state != BindingLifecycleState::Running {
            return Err(
                DeviceManagerError::InvalidState {
                    operation: "reset PCI root binding",
                    detail: "PCI root binding is not running",
                },
            );
        }
        self.state = BindingLifecycleState::Resetting;
        Ok(LifecycleOperation { completion: LifecycleCompletion::Reset })
    }

    /// Starts a withdrawal.
    ///
    /// # Errors
    ///
    /// Returns [`DeviceManagerError::InvalidState`] while another operation is
    /// in progress and once the binding is stopping or dead.
    pub fn begin_withdrawal_operation(&mut self) -> (result: DeviceManagerResult<
        LifecycleOperation,
    >)
        ensures
            final(self).pending_binding_withdrawals == old(self).pending_binding_withdrawals,
            match withdrawal_start(old(self).state) {
                None => result == Ok::<LifecycleOperation, DeviceManagerError>(
                    LifecycleOperation {
                        completion: LifecycleCompletion::Restore(old(self).state),
                    },
                ) && final(self).state == BindingLifecycleState::Withdrawing,
                Some(reason) => result == Err::<LifecycleOperation, DeviceManagerError>(
                    withdrawal_refusal(reason),
                ) && final(self).state == old(self).state,
            },
    {
        match self.try_begin_withdrawal_operation() {
            Ok(operation) => Ok(operation),
            Err(WithdrawalStartError::Busy) => Err(
                DeviceManagerError::InvalidState {
                    operation: "withdraw PCI endpoint IRQ",
                    detail: "PCI root binding lifecycle operation is already in progress",
                },
            ),
            Err(WithdrawalStartError::Terminal) => Err(
                DeviceManagerError::InvalidState {
                    operation: "withdraw PCI endpoint IRQ",
                    detail: "PCI root binding is stopping or dead",
                },
            ),
        }
    }

    /// Starts a withdrawal, or tells why it cannot start.
    pub fn try_begin_withdrawal_operation(&mut self) -> (result: Result<
        LifecycleOperation,
        WithdrawalStartError,
    >)
        ensures
            final(self).pending_binding_withdrawals == old(self).pending_binding_withdrawals,
            match withdrawal_start(old(self).state) {
                None => result == Ok::<LifecycleOperation, WithdrawalStartError>(
                    LifecycleOperation {
                        completion: LifecycleCompletion::Restore(old(self).state),
                    },
                ) && final(self).state == BindingLifecycleState::Withdrawing,
                Some(reason) => result == Err::<LifecycleOperation, WithdrawalStartError>(reason)
                    && final(self).state == old(self).state,
            },
    {
        let previous = self.state;
        match previous {
            BindingLifecycleState::Running | BindingLifecycleState::ResetFailed => {},
            BindingLifecycleState::Binding
            | BindingLifecycleState::Resetting
            | BindingLifecycleState::Withdrawing => {
                return Err(WithdrawalStartError::Busy);
            },
            BindingLifecycleState::Stopping | BindingLifecycleState::Dead => {
                return Err(WithdrawalStartError::Terminal);
            },
        }
        self.state = BindingLifecycleState::Withdrawing;
        Ok(LifecycleOperation { completion: LifecycleCompletion::Restore(previous) })
    }

    /// Starts withdrawal of `device`, or leaves it to the operation in progress.
    ///
    /// Reset completion looks at the deferred devices under the same lock, so a
    /// lease cannot observe a busy reset and be deferred after the reset has
    /// already published `Running`.
    pub fn try_begin_withdrawal_or_defer(&mut self, device: DeviceId) -> (operation: Option<
        LifecycleOperation,
    >)
        ensures
            match withdrawal_start(old(self).state) {
                None => {
                    &&& operation == Some(
                        LifecycleOperation {
                            completion: LifecycleCompletion::Restore(old(self).state),
                        },
                    )
                    &&& final(self).state == BindingLifecycleState::Withdrawing
                },
                Some(reason) => {
                    &&& operation is None
                    &&& final(self).state == old(self).state
                },
            },
            final(self).pending_binding_withdrawals@ == deferred_after(
                old(self).state,
                old(self).pending_binding_withdrawals@,
                device,
            ),
    {
        match self.try_begin_withdrawal_operation() {
            Ok(operation) => Some(operation),
            Err(WithdrawalStartError::Busy) => {
                self.pending_binding_withdrawals.push(device);
                None
            },
            Err(WithdrawalStartError::Terminal) => None,
        }
    }

    /// Starts teardown, whatever is in progress.
    pub fn begin_stop_operation(&mut self) -> (operation: LifecycleOperation)
        ensures
            final(self).pending_binding_withdrawals == old(self).pending_binding_withdrawals,
            final(self).state == BindingLifecycleState::Stopping,
            operation == (LifecycleOperation { completion: LifecycleCompletion::Stop }),
    {
        self.state = BindingLifecycleState::Stopping;
        LifecycleOperation { completion: LifecycleCompletion::Stop }
    }

    /// Completes an operation with `state`.
    pub fn finish(&mut self, operation: LifecycleOperation, state: BindingLifecycleState)
        ensures
            final(self).state == state,
            final(self).pending_binding_withdrawals == old(self).pending_binding_withdrawals,
    {
        self.state = state;
    }

    /// Ends an operation with the state that it falls back to: the one from
    /// before it, a failed reset, or a dead binding.
    pub fn finish_restore(&mut self, operation: LifecycleOperation)
        ensures
            final(self).state == operation.completion.fallback(),
            final(self).pending_binding_withdrawals == old(self).pending_binding_withdrawals,
    {
        self.state =
        match operation.completion {
            LifecycleCompletion::Restore(state) => state,
            LifecycleCompletion::Reset => BindingLifecycleState::ResetFailed,
            LifecycleCompletion::Stop => BindingLifecycleState::Dead,
        };
    }

    /// Publishes `Running` after a reset, unless a device was deferred.
    ///
    /// Returns the operation when deferred devices must be withdrawn first.
    pub fn try_finish_reset(&mut self, operation: LifecycleOperation) -> (unfinished: Option<
        LifecycleOperation,
    >)
        ensures
            final(self).pending_binding_withdrawals == old(self).pending_binding_withdrawals,
            final(self).state == after_reset_attempt(
                old(self).state,
                old(self).pending_binding_withdrawals@,
            ),
            unfinished == (if old(self).pending_binding_withdrawals@.len() == 0 {
                None
            } else {
                Some(operation)
            }),
    {
        if self.pending_binding_withdrawals.len() == 0 {
            self.state = BindingLifecycleState::Running;
            None
        } else {
            Some(operation)
        }
    }
}

/// The state after a reset tried to finish: running, unless a device waits.
pub open spec fn after_reset_attempt(
    state: BindingLifecycleState,
    deferred: Seq<DeviceId>,
) -> BindingLifecycleState {
    if deferred.len() == 0 {
        BindingLifecycleState::Running
    } else {
        state
    }
}

/// The deferred devices after the lease of `device` ended in `state`.
pub open spec fn deferred_after(
    state: BindingLifecycleState,
    deferred: Seq<DeviceId>,
    device: DeviceId,
) -> Seq<DeviceId> {
    if withdrawal_start(state) == Some(WithdrawalStartError::Busy) {
        deferred.push(device)
    } else {
        deferred
    }
}

/// A lease that ends during a reset is never passed over: its device is
/// deferred, and the reset cannot publish `Running` while it waits.
pub proof fn law_deferred_withdrawal_holds_up_reset(deferred: Seq<DeviceId>, device: DeviceId)
    ensures
        deferred_after(BindingLifecycleState::Resetting, deferred, device).contains(device),
        after_reset_attempt(
            BindingLifecycleState::Resetting,
            deferred_after(BindingLifecycleState::Resetting, deferred, device),
        ) == BindingLifecycleState::Resetting,
{
    assert(deferred.push(device)[deferred.len() as int] == device);
}

/// What withdrawing the interrupt of `function` came to, with `told` the endpoint afterwards: while
/// transitions are inside `admission` an error, and the endpoint is not asked; else what the
/// endpoint says behind the one call of `asked`.
pub open spec fn is_withdrawal_answer<F: PciFunction>(
    asked: Option<&mut F>,
    function: F,
    told: F,
    admission: EndpointAdmission,
    outcome: DeviceManagerResult<()>,
) -> bool {
    if admission.permits > 0 {
        &&& asked is None
        &&& told == function
        &&& outcome == Err::<(), DeviceManagerError>(irq_permit_drain_exceeded())
    } else {
        &&& asked is Some
        &&& *(asked->0) == function
        &&& exists|said: DeviceResult<()>|
            #[trigger] says_withdrawal(asked->0, said) && outcome == (match said {
                Ok(()) => Ok::<(), DeviceManagerError>(()),
                Err(error) => Err(DeviceManagerError::Device(error)),
            })
    }
}

/// What withdrawing the interrupt of one endpoint came to.
pub open spec fn is_withdrawal_outcome<F: PciFunction>(
    asked: Option<&mut F>,
    withdrawal: PendingIrqWithdrawal<F>,
    told: F,
    admissions: EndpointAdmissions,
    outcome: DeviceManagerResult<()>,
) -> bool {
    is_withdrawal_answer(
        asked,
        withdrawal.function,
        told,
        admissions.at(withdrawal.admission),
        outcome,
    )
}

/// Withdraws the interrupt of one endpoint, if no transition is inside `admission`.
///
/// The admission is closed by now and this is what it holds: whoever lets transitions leave
/// meanwhile looks first until none is inside, at most [`DEFAULT_DRAIN_ATTEMPTS`] more times.
///
/// [`DEFAULT_DRAIN_ATTEMPTS`]: crate::pci::routing::DEFAULT_DRAIN_ATTEMPTS
pub fn ask_withdrawal<F: PciFunction>(function: &mut F, admission: EndpointAdmission) -> (outcome:
    DeviceManagerResult<()>)
    ensures
        exists|asked: Option<&mut F>| {
            &&& #[trigger] is_withdrawal_answer(
                asked,
                *old(function),
                *final(function),
                admission,
                outcome,
            )
            &&& asked is Some ==> *final(asked->0) == *final(function)
        },
        admission.permits > 0 ==> *final(function) == *old(function),
{
    let mut budget = DrainBudget::new(0);
    match admission.poll_irq_permits(&mut budget) {
        Some(Err(error)) => {
            let outcome = Err(error);
            assert(is_withdrawal_answer(
                None::<&mut F>,
                *old(function),
                *function,
                admission,
                outcome,
            ));
            return outcome;
        },
        _ => {},
    }
    let mut permit = EndpointIrqTransitionPermit::new();
    let said = function.withdraw_irq(&mut permit);
    let ghost answer = said;
    let outcome = match said {
        Ok(()) => Ok(()),
        Err(error) => Err(DeviceManagerError::Device(error)),
    };
    proof {
        let (call, _) = choose|call: &mut F, permit: &mut EndpointIrqTransitionPermit|
            {
                &&& #[trigger] call_ensures(F::withdraw_irq, (call, permit), answer)
                &&& *call == *old(function)
                &&& *final(call) == *function
            };
        let asked = Some(call);
        assert(says_withdrawal(asked->0, answer));
        assert(outcome == (match answer {
            Ok(()) => Ok::<(), DeviceManagerError>(()),
            Err(error) => Err(DeviceManagerError::Device(error)),
        }));
        assert(is_withdrawal_answer(asked, *old(function), *function, admission, outcome));
    }
    outcome
}

/// Withdraws the interrupt of one endpoint, if no transition is inside its
/// admission.
pub fn withdraw_endpoint_irq<F: PciFunction>(
    withdrawal: &mut PendingIrqWithdrawal<F>,
    admissions: &EndpointAdmissions,
) -> (outcome: DeviceManagerResult<()>)
    requires
        admissions.has(old(withdrawal).admission),
    ensures
        *final(withdrawal) == (PendingIrqWithdrawal {
            function: final(withdrawal).function,
            ..*old(withdrawal)
        }),
        exists|asked: Option<&mut F>| {
            &&& #[trigger] is_withdrawal_outcome(
                asked,
                *old(withdrawal),
                final(withdrawal).function,
                *admissions,
                outcome,
            )
            &&& asked is Some ==> *final(asked->0) == final(withdrawal).function
        },
{
    let outcome = ask_withdrawal(
        &mut withdrawal.function,
        admissions.get(withdrawal.admission),
    );
    proof {
        let asked = choose|asked: Option<&mut F>|
            {
                &&& #[trigger] is_withdrawal_answer(
                    asked,
                    old(withdrawal).function,
                    withdrawal.function,
                    admissions.at(old(withdrawal).admission),
                    outcome,
                )
                &&& asked is Some ==> *final(asked->0) == withdrawal.function
            };
        assert(is_withdrawal_outcome(
            asked,
            *old(withdrawal),
            withdrawal.function,
            *admissions,
            outcome,
        ));
    }
    outcome
}

/// Those of the first `count` endpoints whose withdrawal failed, in order and as `told` has them.
pub open spec fn still_pending<F>(
    pending: Seq<PendingIrqWithdrawal<F>>,
    told: Seq<F>,
    outcomes: Seq<DeviceManagerResult<()>>,
    count: int,
) -> Seq<PendingIrqWithdrawal<F>>
    decreases count,
{
    if count <= 0 {
        Seq::empty()
    } else {
        let rest = still_pending(pending, told, outcomes, count - 1);
        if outcomes[count - 1] is Err {
            rest.push(
                PendingIrqWithdrawal { function: told[count - 1], ..pending[count - 1] },
            )
        } else {
            rest
        }
    }
}

/// The first error of the first `count` outcomes.
pub open spec fn first_failure(outcomes: Seq<DeviceManagerResult<()>>, count: int) -> DeviceManagerResult<
    (),
>
    decreases count,
{
    if count <= 0 {
        Ok(())
    } else {
        match first_failure(outcomes, count - 1) {
            Err(error) => Err(error),
            Ok(()) => match outcomes[count - 1] {
                Err(error) => Err(error),
                Ok(()) => Ok(()),
            },
        }
    }
}

/// Whether asking the first `count` endpoints of `pending` came to these outcomes, with `told` the
/// endpoints afterwards.
pub open spec fn are_answers<F: PciFunction>(
    asked: Seq<Option<&mut F>>,
    pending: Seq<PendingIrqWithdrawal<F>>,
    told: Seq<F>,
    admissions: EndpointAdmissions,
    outcomes: Seq<DeviceManagerResult<()>>,
    count: int,
) -> bool {
    &&& asked.len() == count
    &&& told.len() == count
    &&& outcomes.len() == count
    &&& forall|i: int|
        #![trigger outcomes[i]]
        0 <= i < count ==> is_withdrawal_outcome(
            asked[i],
            pending[i],
            told[i],
            admissions,
            outcomes[i],
        )
}

/// Whether a retry with these outcomes turns `before` into `after`.
pub open spec fn is_retry<F: PciFunction>(
    asked: Seq<Option<&mut F>>,
    before: Seq<PendingIrqWithdrawal<F>>,
    told: Seq<F>,
    after: Seq<PendingIrqWithdrawal<F>>,
    admissions: EndpointAdmissions,
    outcomes: Seq<DeviceManagerResult<()>>,
    result: DeviceManagerResult<()>,
) -> bool {
    &&& are_answers(asked, before, told, admissions, outcomes, before.len() as int)
    &&& after == still_pending(before, told, outcomes, before.len() as int)
    &&& result == first_failure(outcomes, before.len() as int)
}

/// Retries the withdrawals of `pending` and keeps those that fail.
///
/// # Errors
///
/// Returns the first failure.
pub fn retry_pending_irq_withdrawals<F: PciFunction>(
    pending: &mut Vec<PendingIrqWithdrawal<F>>,
    admissions: &EndpointAdmissions,
) -> (result: DeviceManagerResult<()>)
    requires
        forall|i: int|
            #![trigger old(pending)@[i]]
            0 <= i < old(pending)@.len() ==> admissions.has(old(pending)@[i].admission),
    ensures
        exists|
            asked: Seq<Option<&mut F>>,
            told: Seq<F>,
            outcomes: Seq<DeviceManagerResult<()>>,
        | {
            &&& #[trigger] is_retry(
                asked,
                old(pending)@,
                told,
                final(pending)@,
                *admissions,
                outcomes,
                result,
            )
            &&& forall|k: int|
                0 <= k < asked.len() && (#[trigger] asked[k]) is Some ==> *final(asked[k]->0)
                    == told[k]
        },
        forall|i: int|
            #![trigger final(pending)@[i]]
            0 <= i < final(pending)@.len() ==> admissions.has(final(pending)@[i].admission),
{
    let count: usize = pending.len();
    let mut remaining: Vec<PendingIrqWithdrawal<F>> = Vec::new();
    let mut first: Option<DeviceManagerError> = None;
    let ghost mut outcomes: Seq<DeviceManagerResult<()>> = Seq::empty();
    let ghost mut told: Seq<F> = Seq::empty();
    assert(are_answers(
        Seq::<Option<&mut F>>::empty(),
        old(pending)@,
        told,
        *admissions,
        outcomes,
        0,
    ));
    let mut i: usize = 0;
    while i < count
        invariant
            i <= count == old(pending)@.len(),
            pending@ == old(pending)@.skip(i as int),
            forall|j: int|
                #![trigger old(pending)@[j]]
                0 <= j < old(pending)@.len() ==> admissions.has(old(pending)@[j].admission),
            outcomes.len() == i,
            told.len() == i,
            exists|asked: Seq<Option<&mut F>>| {
                &&& #[trigger] are_answers(
                    asked,
                    old(pending)@,
                    told,
                    *admissions,
                    outcomes,
                    i as int,
                )
                &&& forall|k: int|
                    0 <= k < asked.len() && (#[trigger] asked[k]) is Some ==> *final(asked[k]->0)
                        == told[k]
            },
            remaining@ == still_pending(old(pending)@, told, outcomes, i as int),
            forall|j: int|
                #![trigger remaining@[j]]
                0 <= j < remaining@.len() ==> admissions.has(remaining@[j].admission),
            first_failure(outcomes, i as int) == (match first {
                Some(error) => Err::<(), DeviceManagerError>(error),
                None => Ok(()),
            }),
        decreases count - i,
    {
        let mut withdrawal = pending.remove(0);
        let ghost before = withdrawal;
        assert(withdrawal == old(pending)@[i as int]);
        assert(pending@ =~= old(pending)@.skip(i + 1));
        let outcome = withdraw_endpoint_irq(&mut withdrawal, admissions);
        let ghost next = outcomes.push(outcome);
        let ghost next_told = told.push(withdrawal.function);
        proof {
            let asked = choose|asked: Seq<Option<&mut F>>|
                {
                    &&& #[trigger] are_answers(
                        asked,
                        old(pending)@,
                        told,
                        *admissions,
                        outcomes,
                        i as int,
                    )
                    &&& forall|k: int|
                        0 <= k < asked.len() && (#[trigger] asked[k]) is Some
                            ==> *final(asked[k]->0) == told[k]
                };
            let one = choose|one: Option<&mut F>|
                {
                    &&& #[trigger] is_withdrawal_outcome(
                        one,
                        before,
                        withdrawal.function,
                        *admissions,
                        outcome,
                    )
                    &&& one is Some ==> *final(one->0) == withdrawal.function
                };
            let longer = asked.push(one);
            assert forall|j: int| #![trigger next[j]] 0 <= j < i + 1 implies is_withdrawal_outcome(
                longer[j],
                old(pending)@[j],
                next_told[j],
                *admissions,
                next[j],
            ) by {
                if j < i {
                    assert(outcomes[j] == next[j]);
                }
            }
            assert forall|k: int|
                0 <= k < longer.len() && (#[trigger] longer[k]) is Some implies *final(longer[k]->0)
                == next_told[k] by {
                if k < i {
                    assert(asked[k] == longer[k]);
                }
            }
            assert(are_answers(
                longer,
                old(pending)@,
                next_told,
                *admissions,
                next,
                i + 1,
            ));
            lemma_retry_prefix(old(pending)@, told, next_told, outcomes, next, i as int);
        }
        if let Err(error) = outcome {
            if first.is_none() {
                first = Some(error);
            }
            remaining.push(withdrawal);
        }
        proof {
            outcomes = next;
            told = next_told;
        }
        i = i + 1;
    }
    *pending = remaining;
    let result = match first {
        Some(error) => Err(error),
        None => Ok(()),
    };
    proof {
        let asked = choose|asked: Seq<Option<&mut F>>|
            {
                &&& #[trigger] are_answers(
                    asked,
                    old(pending)@,
                    told,
                    *admissions,
                    outcomes,
                    i as int,
                )
                &&& forall|k: int|
                    0 <= k < asked.len() && (#[trigger] asked[k]) is Some ==> *final(asked[k]->0)
                        == told[k]
            };
        assert(is_retry(asked, old(pending)@, told, pending@, *admissions, outcomes, result));
    }
    result
}

/// Moves the endpoints of a binding that is torn down to those that nobody owns.
pub fn transfer_pending_irq_withdrawals<F>(
    pending: &mut Vec<PendingIrqWithdrawal<F>>,
    orphaned: &mut Vec<PendingIrqWithdrawal<F>>,
)
    ensures
        final(pending)@.len() == 0,
        final(orphaned)@ == old(orphaned)@ + old(pending)@,
{
    orphaned.append(pending);
}

/// Later outcomes do not change which of the earlier ones failed first.
pub proof fn lemma_first_failure_prefix(
    outcomes: Seq<DeviceManagerResult<()>>,
    longer: Seq<DeviceManagerResult<()>>,
    count: int,
)
    requires
        count <= outcomes.len() <= longer.len(),
        forall|j: int| #![trigger longer[j]] 0 <= j < outcomes.len() ==> longer[j] == outcomes[j],
    ensures
        first_failure(longer, count) == first_failure(outcomes, count),
    decreases count,
{
    if count > 0 {
        lemma_first_failure_prefix(outcomes, longer, count - 1);
    }
}

/// Later outcomes do not change what earlier ones came to.
proof fn lemma_retry_prefix<F>(
    pending: Seq<PendingIrqWithdrawal<F>>,
    told: Seq<F>,
    longer_told: Seq<F>,
    outcomes: Seq<DeviceManagerResult<()>>,
    longer: Seq<DeviceManagerResult<()>>,
    count: int,
)
    requires
        count <= outcomes.len() <= longer.len(),
        count <= told.len() <= longer_told.len(),
        forall|j: int| #![trigger longer[j]] 0 <= j < outcomes.len() ==> longer[j] == outcomes[j],
        forall|j: int|
            #![trigger longer_told[j]]
            0 <= j < told.len() ==> longer_told[j] == told[j],
    ensures
        still_pending(pending, longer_told, longer, count) == still_pending(
            pending,
            told,
            outcomes,
            count,
        ),
        first_failure(longer, count) == first_failure(outcomes, count),
    decreases count,
{
    lemma_first_failure_prefix(outcomes, longer, count);
    if count > 0 {
        lemma_retry_prefix(pending, told, longer_told, outcomes, longer, count - 1);
    }
}

/// No owner is lost by a retry: one whose withdrawal failed is still pending, as the endpoint then
/// is, and one that is not asked is pending as it was.
pub proof fn law_retry_keeps_failed_owners<F: PciFunction>(
    asked: Seq<Option<&mut F>>,
    before: Seq<PendingIrqWithdrawal<F>>,
    told: Seq<F>,
    after: Seq<PendingIrqWithdrawal<F>>,
    admissions: EndpointAdmissions,
    outcomes: Seq<DeviceManagerResult<()>>,
    result: DeviceManagerResult<()>,
    i: int,
)
    requires
        is_retry(asked, before, told, after, admissions, outcomes, result),
        0 <= i < before.len(),
    ensures
        outcomes[i] is Err ==> after.contains(
            PendingIrqWithdrawal { function: told[i], ..before[i] },
        ) && result is Err,
        admissions.at(before[i].admission).permits > 0 ==> asked[i] is None && after.contains(
            before[i],
        ),
        result is Ok ==> after.len() == 0,
{
    assert(is_withdrawal_outcome(asked[i], before[i], told[i], admissions, outcomes[i]));
    lemma_failed_are_pending(before, told, outcomes, before.len() as int, i);
    if result is Ok {
        lemma_success_empties(before, told, outcomes, before.len() as int);
    }
}

/// A failed withdrawal is among those still pending.
proof fn lemma_failed_are_pending<F>(
    pending: Seq<PendingIrqWithdrawal<F>>,
    told: Seq<F>,
    outcomes: Seq<DeviceManagerResult<()>>,
    count: int,
    i: int,
)
    requires
        0 <= i < count <= pending.len(),
        count <= outcomes.len(),
    ensures
        outcomes[i] is Err ==> still_pending(pending, told, outcomes, count).contains(
            PendingIrqWithdrawal { function: told[i], ..pending[i] },
        ) && first_failure(outcomes, count) is Err,
    decreases count,
{
    let owner = PendingIrqWithdrawal { function: told[i], ..pending[i] };
    let rest = still_pending(pending, told, outcomes, count - 1);
    if i < count - 1 {
        lemma_failed_are_pending(pending, told, outcomes, count - 1, i);
        if outcomes[i] is Err {
            let at = choose|at: int| 0 <= at < rest.len() && rest[at] == owner;
            assert(still_pending(pending, told, outcomes, count)[at] == owner);
        }
    } else if outcomes[i] is Err {
        assert(still_pending(pending, told, outcomes, count)[rest.len() as int] == owner);
    }
}

/// Without a failure nothing is pending.
proof fn lemma_success_empties<F>(
    pending: Seq<PendingIrqWithdrawal<F>>,
    told: Seq<F>,
    outcomes: Seq<DeviceManagerResult<()>>,
    count: int,
)
    requires
        first_failure(outcomes, count) is Ok,
    ensures
        still_pending(pending, told, outcomes, count).len() == 0,
    decreases count,
{
    if count > 0 {
        lemma_success_empties(pending, told, outcomes, count - 1);
    }
}

} // verus!
