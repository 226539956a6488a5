//! Withdrawal of endpoints and of their interrupts, now or at a later time.

use crate::access::{DeviceId, DeviceManagerError, DeviceManagerResult};
use crate::pci::binding::{PciBindingLease, PciRootBinding};
use crate::pci::endpoint::PciFunction;
use crate::pci::lifecycle::{
    retry_pending_irq_withdrawals, transfer_pending_irq_withdrawals, withdraw_endpoint_irq,
    BindingLifecycleState,
};
#[allow(unused_imports)]
use crate::pci::lifecycle::{
    deferred_after, first_failure, is_retry, is_withdrawal_outcome, law_retry_keeps_failed_owners,
    lemma_first_failure_prefix, withdrawal_refusal, withdrawal_start,
};
use crate::pci::router::{PendingIrqWithdrawal, RoutedEndpoint};
#[allow(unused_imports)]
use crate::pci::router::{barriers_set, is_removal};
use crate::pci::routing::{EndpointAdmission, EndpointAdmissions};
use vstd::prelude::*;

verus! {

/// Whether withdrawing `device` turns `before` into `after`: its route and
/// binding are gone, its admission is closed, and the endpoint is queued, as `told`
/// has it, when its interrupt could not be withdrawn.
pub open spec fn is_withdrawal<F: PciFunction>(
    asked: Option<&mut F>,
    before: PciRootBinding<F>,
    after: PciRootBinding<F>,
    old_admissions: EndpointAdmissions,
    new_admissions: EndpointAdmissions,
    device: DeviceId,
    told: F,
    result: DeviceManagerResult<()>,
) -> bool {
    &&& after.host == before.host
    &&& after.root.topology == before.root.topology
    &&& after.root.functions == before.root.functions
    &&& forall|i: int|
        #![trigger after.root.bindings@[i]]
        0 <= i < before.root.bindings@.len() ==> after.root.bindings@[i] == (
        match before.root.bindings@[i] {
            Some(token) if token.device == device => None,
            binding => binding,
        })
    &&& after.lifecycle == before.lifecycle
    &&& after.router.next_generation == before.router.next_generation
    &&& if !before.router.has_device(device) {
        &&& asked is None
        &&& result is Ok
        &&& after.router == before.router
        &&& new_admissions.entries@ == old_admissions.entries@
        &&& after.pending_irq_withdrawals@ == before.pending_irq_withdrawals@
    } else {
        exists|i: int|
            #[trigger] is_endpoint_withdrawal(
                asked,
                before,
                after,
                old_admissions,
                new_admissions,
                device,
                i,
                told,
                result,
            )
    }
}

/// Whether taking `device` out turns `before` into `after`: its route and binding are gone, its
/// admission is closed, and `withdrawal` is left to do.
pub open spec fn is_withdrawal_start<F>(
    before: PciRootBinding<F>,
    after: PciRootBinding<F>,
    old_admissions: EndpointAdmissions,
    new_admissions: EndpointAdmissions,
    device: DeviceId,
    withdrawal: Option<PendingIrqWithdrawal<F>>,
) -> bool {
    &&& after.host == before.host
    &&& after.root.topology == before.root.topology
    &&& after.root.functions == before.root.functions
    &&& forall|i: int|
        #![trigger after.root.bindings@[i]]
        0 <= i < before.root.bindings@.len() ==> after.root.bindings@[i] == (
        match before.root.bindings@[i] {
            Some(token) if token.device == device => None,
            binding => binding,
        })
    &&& after.lifecycle == before.lifecycle
    &&& after.pending_irq_withdrawals == before.pending_irq_withdrawals
    &&& after.router.next_generation == before.router.next_generation
    &&& withdrawal is Some <==> before.router.has_device(device)
    &&& match withdrawal {
        None => after.router == before.router && new_admissions.entries@
            == old_admissions.entries@,
        Some(owner) => exists|i: int|
            #[trigger] is_withdrawn_endpoint(
                before,
                after,
                old_admissions,
                new_admissions,
                device,
                i,
                owner,
            ),
    }
}

/// Whether the endpoint of `device` was the one at `i`, and `withdrawal` is left of it.
pub open spec fn is_withdrawn_endpoint<F>(
    before: PciRootBinding<F>,
    after: PciRootBinding<F>,
    old_admissions: EndpointAdmissions,
    new_admissions: EndpointAdmissions,
    device: DeviceId,
    i: int,
    withdrawal: PendingIrqWithdrawal<F>,
) -> bool {
    let entry = before.router.endpoints@[i];
    &&& 0 <= i < before.router.endpoints@.len()
    &&& entry.token.device == device
    &&& withdrawal == (PendingIrqWithdrawal {
        device,
        function: entry.function,
        admission: entry.token.admission,
    })
    &&& after.router.endpoints@ == before.router.endpoints@.remove(i)
    &&& new_admissions.entries@ == old_admissions.closed(entry.token.admission)
}

/// Whether the endpoint of `device` is the one at `i`, and was withdrawn.
pub open spec fn is_endpoint_withdrawal<F: PciFunction>(
    asked: Option<&mut F>,
    before: PciRootBinding<F>,
    after: PciRootBinding<F>,
    old_admissions: EndpointAdmissions,
    new_admissions: EndpointAdmissions,
    device: DeviceId,
    i: int,
    told: F,
    result: DeviceManagerResult<()>,
) -> bool {
    let entry = before.router.endpoints@[i];
    let withdrawal = PendingIrqWithdrawal {
        device,
        function: entry.function,
        admission: entry.token.admission,
    };
    &&& 0 <= i < before.router.endpoints@.len()
    &&& entry.token.device == device
    &&& after.router.endpoints@ == before.router.endpoints@.remove(i)
    &&& new_admissions.entries@ == old_admissions.closed(entry.token.admission)
    &&& is_withdrawal_outcome(asked, withdrawal, told, new_admissions, result)
    &&& after.pending_irq_withdrawals@ == (if result is Err {
        before.pending_irq_withdrawals@.push(
            PendingIrqWithdrawal { function: told, ..withdrawal },
        )
    } else {
        before.pending_irq_withdrawals@
    })
}

/// Whether withdrawing `devices` one after the other, with these outcomes and with `told` the
/// endpoints afterwards, turns `before` into `after`.
pub open spec fn is_drain<F: PciFunction>(
    asked: Seq<Option<&mut F>>,
    before: PciRootBinding<F>,
    after: PciRootBinding<F>,
    old_admissions: EndpointAdmissions,
    new_admissions: EndpointAdmissions,
    devices: Seq<DeviceId>,
    told: Seq<F>,
    outcomes: Seq<DeviceManagerResult<()>>,
) -> bool
    decreases devices.len(),
{
    &&& asked.len() == devices.len()
    &&& told.len() == devices.len()
    &&& outcomes.len() == devices.len()
    &&& if devices.len() == 0 {
        after == before && new_admissions == old_admissions
    } else {
        exists|middle: PciRootBinding<F>, admissions: EndpointAdmissions|
            #[trigger] is_withdrawal(
                asked.last(),
                middle,
                after,
                admissions,
                new_admissions,
                devices.last(),
                told.last(),
                outcomes.last(),
            ) && is_drain(
                asked.drop_last(),
                before,
                middle,
                old_admissions,
                admissions,
                devices.drop_last(),
                told.drop_last(),
                outcomes.drop_last(),
            )
    }
}

/// Whether withdrawing the endpoints that had to wait turns `before` into `after`.
pub open spec fn is_deferred_drain<F: PciFunction>(
    asked: Seq<Option<&mut F>>,
    before: PciRootBinding<F>,
    after: PciRootBinding<F>,
    old_admissions: EndpointAdmissions,
    new_admissions: EndpointAdmissions,
    told: Seq<F>,
    result: DeviceManagerResult<()>,
) -> bool {
    exists|start: PciRootBinding<F>, outcomes: Seq<DeviceManagerResult<()>>|
        #[trigger] is_drain(
            asked,
            start,
            after,
            old_admissions,
            new_admissions,
            before.lifecycle.pending_binding_withdrawals@,
            told,
            outcomes,
        ) && start == (PciRootBinding { lifecycle: start.lifecycle, ..before })
            && start.lifecycle.state == before.lifecycle.state
            && start.lifecycle.pending_binding_withdrawals@.len() == 0 && result == first_failure(
            outcomes,
            outcomes.len() as int,
        )
}

impl<F: PciFunction> PciRootBinding<F> {
    /// Takes the endpoint of `device` out, if there is one: first its route, then its admission. What
    /// is left to do is to withdraw its interrupt.
    pub fn start_withdrawal(&mut self, device: DeviceId, admissions: &mut EndpointAdmissions) -> (
        withdrawal: Option<PendingIrqWithdrawal<F>>)
        requires
            old(self).wf(*old(admissions)),
        ensures
            final(self).wf(*final(admissions)),
            final(admissions).entries@.len() == old(admissions).entries@.len(),
            old(self).routes_agree() ==> final(self).routes_agree(),
            is_withdrawal_start(
                *old(self),
                *final(self),
                *old(admissions),
                *final(admissions),
                device,
                withdrawal,
            ),
            withdrawal matches Some(owner) ==> final(admissions).has(owner.admission),
    {
        self.root.unbind_device(device);
        let entry = match self.router.invalidate_device(device, admissions) {
            Some(entry) => entry,
            None => {
                proof {
                    lemma_withdrawal_keeps_routes(*old(self), *self, *old(admissions), device, 0);
                }
                return None;
            },
        };
        let ghost position = choose|i: int|
            #[trigger] is_removal(
                old(self).router.endpoints@,
                self.router.endpoints@,
                i,
                entry.token,
                entry.function,
            );
        let withdrawal = PendingIrqWithdrawal {
            device,
            function: entry.function,
            admission: entry.token.admission,
        };
        proof {
            lemma_withdrawal_keeps_routes(
                *old(self),
                *self,
                *old(admissions),
                device,
                position,
            );
        }
        let started = Some(withdrawal);
        assert(is_withdrawn_endpoint(
            *old(self),
            *self,
            *old(admissions),
            *admissions,
            device,
            position,
            started->0,
        ));
        started
    }

    /// Ends a withdrawal with what withdrawing the interrupt came to: an endpoint that failed is
    /// kept for an explicit retry.
    ///
    /// # Errors
    ///
    /// Returns `outcome`.
    pub fn settle_withdrawal(
        &mut self,
        withdrawal: PendingIrqWithdrawal<F>,
        outcome: DeviceManagerResult<()>,
        admissions: &EndpointAdmissions,
    ) -> (result: DeviceManagerResult<()>)
        requires
            old(self).wf(*admissions),
            admissions.has(withdrawal.admission),
        ensures
            final(self).wf(*admissions),
            old(self).routes_agree() ==> final(self).routes_agree(),
            result == outcome,
            *final(self) == (PciRootBinding {
                pending_irq_withdrawals: final(self).pending_irq_withdrawals,
                ..*old(self)
            }),
            final(self).pending_irq_withdrawals@ == (if outcome is Err {
                old(self).pending_irq_withdrawals@.push(withdrawal)
            } else {
                old(self).pending_irq_withdrawals@
            }),
    {
        if outcome.is_err() {
            self.pending_irq_withdrawals.push(withdrawal);
        }
        outcome
    }

    /// Withdraws the endpoint of `device`: first its route, then its admission,
    /// then its interrupt.
    ///
    /// # Errors
    ///
    /// Returns why the interrupt could not be withdrawn; the endpoint is then
    /// kept for an explicit retry.
    pub fn withdraw_device(&mut self, device: DeviceId, admissions: &mut EndpointAdmissions) -> (result:
        DeviceManagerResult<()>)
        requires
            old(self).wf(*old(admissions)),
        ensures
            final(self).wf(*final(admissions)),
            final(admissions).entries@.len() == old(admissions).entries@.len(),
            old(self).routes_agree() ==> final(self).routes_agree(),
            exists|asked: Option<&mut F>, told: F| {
                &&& #[trigger] is_withdrawal(
                    asked,
                    *old(self),
                    *final(self),
                    *old(admissions),
                    *final(admissions),
                    device,
                    told,
                    result,
                )
                &&& asked is Some ==> *final(asked->0) == told
            },
    {
        let mut withdrawal = match self.start_withdrawal(device, admissions) {
            Some(withdrawal) => withdrawal,
            None => {
                let result = Ok(());
                assert(is_withdrawal(
                    None::<&mut F>,
                    *old(self),
                    *self,
                    *old(admissions),
                    *admissions,
                    device,
                    arbitrary(),
                    result,
                ));
                return result;
            },
        };
        let ghost started = *self;
        let ghost owner = withdrawal;
        let ghost position = choose|i: int|
            #[trigger] is_withdrawn_endpoint(
                *old(self),
                started,
                *old(admissions),
                *admissions,
                device,
                i,
                owner,
            );
        let outcome = withdraw_endpoint_irq(&mut withdrawal, admissions);
        let ghost told = withdrawal.function;
        let result = self.settle_withdrawal(withdrawal, outcome, admissions);
        proof {
            let asked = choose|asked: Option<&mut F>|
                {
                    &&& #[trigger] is_withdrawal_outcome(
                        asked,
                        owner,
                        told,
                        *admissions,
                        outcome,
                    )
                    &&& asked is Some ==> *final(asked->0) == told
                };
            assert(is_endpoint_withdrawal(
                asked,
                *old(self),
                *self,
                *old(admissions),
                *admissions,
                device,
                position,
                told,
                result,
            ));
            assert(is_withdrawal(
                asked,
                *old(self),
                *self,
                *old(admissions),
                *admissions,
                device,
                told,
                result,
            ));
        }
        result
    }

    /// Ends a binding lease: withdraws its endpoint, or leaves that to the
    /// operation in progress.
    ///
    /// An endpoint whose interrupt could not be withdrawn is kept for a retry.
    pub fn release_binding(&mut self, lease: PciBindingLease, admissions: &mut EndpointAdmissions)
        requires
            old(self).wf(*old(admissions)),
        ensures
            final(self).wf(*final(admissions)),
            final(self).lifecycle.state == old(self).lifecycle.state,
            old(self).routes_agree() ==> final(self).routes_agree(),
            final(self).lifecycle.pending_binding_withdrawals@ == deferred_after(
                old(self).lifecycle.state,
                old(self).lifecycle.pending_binding_withdrawals@,
                lease.token.device,
            ),
            withdrawal_start(old(self).lifecycle.state) is Some ==> {
                &&& *final(self) == (PciRootBinding {
                    lifecycle: final(self).lifecycle,
                    ..*old(self)
                })
                &&& *final(admissions) == *old(admissions)
            },
            withdrawal_start(old(self).lifecycle.state) is None ==> exists|
                asked: Option<&mut F>,
                before: PciRootBinding<F>,
                after: PciRootBinding<F>,
                told: F,
                result: DeviceManagerResult<()>,
            | {
                &&& #[trigger] is_withdrawal(
                    asked,
                    before,
                    after,
                    *old(admissions),
                    *final(admissions),
                    lease.token.device,
                    told,
                    result,
                )
                &&& asked is Some ==> *final(asked->0) == told
                &&& before == (PciRootBinding { lifecycle: before.lifecycle, ..*old(self) })
                &&& *final(self) == (PciRootBinding { lifecycle: final(self).lifecycle, ..after })
            },
    {
        let device = lease.token.device;
        if let Some(operation) = self.lifecycle.try_begin_withdrawal_or_defer(device) {
            let ghost before = *self;
            let result = self.withdraw_device(device, admissions);
            let ghost after = *self;
            self.lifecycle.finish_restore(operation);
        }
    }

    /// Withdraws the endpoints whose lease ended during another operation.
    ///
    /// # Errors
    ///
    /// Returns the first failure; each endpoint that fails is kept for a retry.
    pub fn drain_pending_binding_withdrawals(&mut self, admissions: &mut EndpointAdmissions) -> (result:
        DeviceManagerResult<()>)
        requires
            old(self).wf(*old(admissions)),
        ensures
            final(self).wf(*final(admissions)),
            exists|asked: Seq<Option<&mut F>>, told: Seq<F>| {
                &&& #[trigger] is_deferred_drain(
                    asked,
                    *old(self),
                    *final(self),
                    *old(admissions),
                    *final(admissions),
                    told,
                    result,
                )
                &&& forall|k: int|
                    0 <= k < asked.len() && (#[trigger] asked[k]) is Some ==> *final(asked[k]->0)
                        == told[k]
            },
            final(self).host == old(self).host,
            final(self).root.topology == old(self).root.topology,
            final(self).root.functions == old(self).root.functions,
            final(self).lifecycle.state == old(self).lifecycle.state,
            final(self).lifecycle.pending_binding_withdrawals@.len() == 0,
            final(self).router.next_generation == old(self).router.next_generation,
            final(admissions).entries@.len() == old(admissions).entries@.len(),
            forall|d: int|
                #![trigger old(self).lifecycle.pending_binding_withdrawals@[d]]
                0 <= d < old(self).lifecycle.pending_binding_withdrawals@.len()
                    ==> !final(self).router.has_device(
                    old(self).lifecycle.pending_binding_withdrawals@[d],
                ),
            forall|i: int|
                #![trigger final(self).router.endpoints@[i]]
                0 <= i < final(self).router.endpoints@.len() ==> old(
                    self,
                ).router.endpoints@.contains(final(self).router.endpoints@[i]),
            only_closes(old(admissions).entries@, final(admissions).entries@),
            old(self).routes_agree() ==> final(self).routes_agree(),
            result is Ok ==> final(self).pending_irq_withdrawals@ == old(
                self,
            ).pending_irq_withdrawals@,
            result is Err ==> final(self).pending_irq_withdrawals@.len() > old(
                self,
            ).pending_irq_withdrawals@.len(),
            forall|i: int|
                #![trigger final(self).root.bindings@[i]]
                0 <= i < final(self).root.bindings@.len() ==> final(self).root.bindings@[i] is None
                    || final(self).root.bindings@[i] == old(self).root.bindings@[i],
    {
        let mut first: Option<DeviceManagerError> = None;
        let mut devices: Vec<DeviceId> = Vec::new();
        devices.append(&mut self.lifecycle.pending_binding_withdrawals);
        let ghost start = *self;
        let ghost mut outcomes: Seq<DeviceManagerResult<()>> = Seq::empty();
        let ghost deferred = old(self).lifecycle.pending_binding_withdrawals@;
        assert(devices@ =~= deferred);
        assert(devices@.take(0) =~= Seq::<DeviceId>::empty());
        let count: usize = devices.len();
        let mut i: usize = 0;
        assert(is_drain(
            Seq::<Option<&mut F>>::empty(),
            start,
            *self,
            *old(admissions),
            *admissions,
            deferred.take(0),
            Seq::<F>::empty(),
            outcomes,
        ));
        while i < count
            invariant
                i <= count == deferred.len(),
                deferred == old(self).lifecycle.pending_binding_withdrawals@,
                devices@ == deferred,
                start == (PciRootBinding { lifecycle: start.lifecycle, ..*old(self) }),
                start.lifecycle.state == old(self).lifecycle.state,
                start.lifecycle.pending_binding_withdrawals@.len() == 0,
                outcomes.len() == i,
                exists|asked: Seq<Option<&mut F>>, told: Seq<F>| {
                    &&& #[trigger] is_drain(
                        asked,
                        start,
                        *self,
                        *old(admissions),
                        *admissions,
                        deferred.take(i as int),
                        told,
                        outcomes,
                    )
                    &&& forall|k: int|
                        0 <= k < asked.len() && (#[trigger] asked[k]) is Some
                            ==> *final(asked[k]->0) == told[k]
                },
                self.lifecycle == start.lifecycle,
                first_failure(outcomes, i as int) == (match first {
                    Some(error) => Err::<(), DeviceManagerError>(error),
                    None => Ok(()),
                }),
                old(self).wf(*old(admissions)),
                self.wf(*admissions),
                self.host == old(self).host,
                self.root.topology == old(self).root.topology,
                self.root.functions == old(self).root.functions,
                self.router.next_generation == old(self).router.next_generation,
                admissions.entries@.len() == old(admissions).entries@.len(),
                forall|d: int|
                    #![trigger old(self).lifecycle.pending_binding_withdrawals@[d]]
                    0 <= d < i ==> !self.router.has_device(
                        old(self).lifecycle.pending_binding_withdrawals@[d],
                    ),
                forall|j: int|
                    #![trigger self.router.endpoints@[j]]
                    0 <= j < self.router.endpoints@.len() ==> old(
                        self,
                    ).router.endpoints@.contains(self.router.endpoints@[j]),
                only_closes(old(admissions).entries@, admissions.entries@),
                old(self).routes_agree() ==> self.routes_agree(),
                first is None ==> self.pending_irq_withdrawals@ == old(
                    self,
                ).pending_irq_withdrawals@,
                first is Some ==> self.pending_irq_withdrawals@.len() > old(
                    self,
                ).pending_irq_withdrawals@.len(),
                self.root.bindings@.len() == old(self).root.bindings@.len(),
                forall|j: int|
                    #![trigger self.root.bindings@[j]]
                    0 <= j < self.root.bindings@.len() ==> self.root.bindings@[j] is None
                        || self.root.bindings@[j] == old(self).root.bindings@[j],
            decreases count - i,
        {
            let device = devices[i];
            let ghost before = *self;
            let ghost before_admissions = *admissions;
            let result = self.withdraw_device(device, admissions);
            proof {
                let (one, one_told) = choose|one: Option<&mut F>, one_told: F|
                    {
                        &&& #[trigger] is_withdrawal(
                            one,
                            before,
                            *self,
                            before_admissions,
                            *admissions,
                            device,
                            one_told,
                            result,
                        )
                        &&& one is Some ==> *final(one->0) == one_told
                    };
                lemma_withdrawal_effects(
                    one,
                    before,
                    *self,
                    before_admissions,
                    *admissions,
                    device,
                    one_told,
                    result,
                );
                assert forall|d: int|
                    #![trigger deferred[d]]
                    0 <= d < i + 1 implies !self.router.has_device(deferred[d]) by {
                    if self.router.has_device(deferred[d]) {
                        let j = choose|j: int|
                            #![trigger self.router.endpoints@[j]]
                            0 <= j < self.router.endpoints@.len()
                                && self.router.endpoints@[j].token.device == deferred[d];
                        assert(before.router.endpoints@.contains(self.router.endpoints@[j]));
                        assert(before.router.has_device(deferred[d]));
                    }
                }
                assert forall|j: int|
                    #![trigger self.router.endpoints@[j]]
                    0 <= j < self.router.endpoints@.len() implies old(
                    self,
                ).router.endpoints@.contains(self.router.endpoints@[j]) by {
                    assert(before.router.endpoints@.contains(self.router.endpoints@[j]));
                    let k = choose|k: int|
                        0 <= k < before.router.endpoints@.len() && before.router.endpoints@[k]
                            == self.router.endpoints@[j];
                    assert(old(self).router.endpoints@.contains(before.router.endpoints@[k]));
                }
                assert forall|j: int|
                    #![trigger self.root.bindings@[j]]
                    0 <= j < self.root.bindings@.len() implies self.root.bindings@[j] is None
                    || self.root.bindings@[j] == old(self).root.bindings@[j] by {
                    assert(before.root.bindings@[j] is None || before.root.bindings@[j] == old(
                        self,
                    ).root.bindings@[j]);
                }
            }
            proof {
                let next = outcomes.push(result);
                let (one, one_told) = choose|one: Option<&mut F>, one_told: F|
                    {
                        &&& #[trigger] is_withdrawal(
                            one,
                            before,
                            *self,
                            before_admissions,
                            *admissions,
                            device,
                            one_told,
                            result,
                        )
                        &&& one is Some ==> *final(one->0) == one_told
                    };
                let (asked, told) = choose|asked: Seq<Option<&mut F>>, told: Seq<F>|
                    {
                        &&& #[trigger] is_drain(
                            asked,
                            start,
                            before,
                            *old(admissions),
                            before_admissions,
                            deferred.take(i as int),
                            told,
                            outcomes,
                        )
                        &&& forall|k: int|
                            0 <= k < asked.len() && (#[trigger] asked[k]) is Some
                                ==> *final(asked[k]->0) == told[k]
                    };
                let longer = asked.push(one);
                let longer_told = told.push(one_told);
                assert(deferred.take(i + 1).drop_last() =~= deferred.take(i as int));
                assert(deferred.take(i + 1).last() == device);
                assert(next.drop_last() =~= outcomes);
                assert(longer.drop_last() =~= asked);
                assert(longer_told.drop_last() =~= told);
                lemma_first_failure_prefix(outcomes, next, i as int);
                assert(is_withdrawal(
                    longer.last(),
                    before,
                    *self,
                    before_admissions,
                    *admissions,
                    deferred.take(i + 1).last(),
                    longer_told.last(),
                    next.last(),
                ));
                assert(is_drain(
                    longer,
                    start,
                    *self,
                    *old(admissions),
                    *admissions,
                    deferred.take(i + 1),
                    longer_told,
                    next,
                ));
                assert forall|k: int|
                    0 <= k < longer.len() && (#[trigger] longer[k]) is Some implies *final(longer[k]->0) == longer_told[k] by {
                    if k < i {
                        assert(asked[k] == longer[k]);
                    }
                }
                outcomes = next;
            }
            if let Err(error) = result {
                if first.is_none() {
                    first = Some(error);
                }
            }
            i = i + 1;
        }
        let result = match first {
            Some(error) => Err(error),
            None => Ok(()),
        };
        assert(deferred.take(count as int) =~= deferred);
        proof {
            let (asked, told) = choose|asked: Seq<Option<&mut F>>, told: Seq<F>|
                {
                    &&& #[trigger] is_drain(
                        asked,
                        start,
                        *self,
                        *old(admissions),
                        *admissions,
                        deferred.take(i as int),
                        told,
                        outcomes,
                    )
                    &&& forall|k: int|
                        0 <= k < asked.len() && (#[trigger] asked[k]) is Some
                            ==> *final(asked[k]->0) == told[k]
                };
            assert(is_deferred_drain(
                asked,
                *old(self),
                *self,
                *old(admissions),
                *admissions,
                told,
                result,
            ));
        }
        result
    }
}

/// Withdrawing the routes of a device together with its endpoint keeps root and
/// router in agreement.
pub proof fn lemma_withdrawal_keeps_routes<F>(
    before: PciRootBinding<F>,
    after: PciRootBinding<F>,
    admissions: EndpointAdmissions,
    device: DeviceId,
    removed: int,
)
    requires
        before.router.wf(admissions),
        after.root.bindings@.len() == before.root.bindings@.len(),
        forall|i: int|
            #![trigger after.root.bindings@[i]]
            0 <= i < before.root.bindings@.len() ==> after.root.bindings@[i] == (
            match before.root.bindings@[i] {
                Some(token) if token.device == device => None,
                binding => binding,
            }),
        (after.router.endpoints@ == before.router.endpoints@ && !before.router.has_device(device))
            || (0 <= removed < before.router.endpoints@.len()
            && before.router.endpoints@[removed].token.device == device && after.router.endpoints@
            == before.router.endpoints@.remove(removed)),
    ensures
        before.routes_agree() ==> after.routes_agree(),
{
    if before.routes_agree() {
        assert forall|i: int|
            #![trigger after.root.bindings@[i]]
            0 <= i < after.root.bindings@.len()
                && after.root.bindings@[i] is Some implies after.router.has_token(
            after.root.bindings@[i]->0,
        ) by {
            let bound = after.root.bindings@[i]->0;
            assert(before.root.bindings@[i] == Some(bound));
            let j = choose|j: int|
                #![trigger before.router.endpoints@[j]]
                0 <= j < before.router.endpoints@.len() && before.router.endpoints@[j].token
                    == bound;
            if after.router.endpoints@ == before.router.endpoints@ {
                assert(after.router.endpoints@[j].token == bound);
            } else if j < removed {
                assert(after.router.endpoints@[j].token == bound);
            } else {
                assert(after.router.endpoints@[j - 1].token == bound);
            }
        }
        assert forall|j: int|
            #![trigger after.router.endpoints@[j]]
            0 <= j < after.router.endpoints@.len() implies after.root.bindings@.contains(
            Some(after.router.endpoints@[j].token),
        ) by {
            let k = if after.router.endpoints@ == before.router.endpoints@ || j < removed {
                j
            } else {
                j + 1
            };
            assert(after.router.endpoints@[j] == before.router.endpoints@[k]);
            assert(before.router.endpoints@[k].token.device != device);
            let i = choose|i: int|
                0 <= i < before.root.bindings@.len() && before.root.bindings@[i] == Some(
                    before.router.endpoints@[k].token,
                );
            assert(after.root.bindings@[i] == before.root.bindings@[i]);
        }
        assert forall|i: int, j: int|
            #![trigger after.root.bindings@[i], after.root.bindings@[j]]
            0 <= i < j < after.root.bindings@.len() && after.root.bindings@[i] is Some
                && after.root.bindings@[j] is Some implies after.root.bindings@[i]->0.device
            != after.root.bindings@[j]->0.device by {
            assert(before.root.bindings@[i] == after.root.bindings@[i]);
            assert(before.root.bindings@[j] == after.root.bindings@[j]);
        }
    }
}

/// Whether admissions only lost their `open` flag.
pub open spec fn only_closes(before: Seq<EndpointAdmission>, after: Seq<EndpointAdmission>) -> bool {
    &&& after.len() == before.len()
    &&& forall|k: int|
        #![trigger after[k]]
        0 <= k < after.len() ==> after[k] == before[k] || after[k] == (EndpointAdmission {
            open: false,
            ..before[k]
        })
}

/// What a withdrawal leaves: no endpoint of the device, no new endpoint, and no
/// opened admission.
pub proof fn lemma_withdrawal_effects<F: PciFunction>(
    asked: Option<&mut F>,
    before: PciRootBinding<F>,
    after: PciRootBinding<F>,
    old_admissions: EndpointAdmissions,
    new_admissions: EndpointAdmissions,
    device: DeviceId,
    told: F,
    result: DeviceManagerResult<()>,
)
    requires
        before.wf(old_admissions),
        is_withdrawal(asked, before, after, old_admissions, new_admissions, device, told, result),
    ensures
        !after.router.has_device(device),
        forall|j: int|
            #![trigger after.router.endpoints@[j]]
            0 <= j < after.router.endpoints@.len() ==> before.router.endpoints@.contains(
                after.router.endpoints@[j],
            ),
        only_closes(old_admissions.entries@, new_admissions.entries@),
        result is Ok ==> after.pending_irq_withdrawals@ == before.pending_irq_withdrawals@,
        result is Err ==> after.pending_irq_withdrawals@.len()
            == before.pending_irq_withdrawals@.len() + 1,
        after.pending_irq_withdrawals@.len() >= before.pending_irq_withdrawals@.len(),
{
    if before.router.has_device(device) {
        let i = choose|i: int|
            #[trigger] is_endpoint_withdrawal(
                asked,
                before,
                after,
                old_admissions,
                new_admissions,
                device,
                i,
                told,
                result,
            );
        let from = before.router.endpoints@;
        let to = after.router.endpoints@;
        assert(old_admissions.has(from[i].token.admission));
        assert forall|j: int| #![trigger to[j]] 0 <= j < to.len() implies from.contains(to[j])
            && to[j].token.device != device by {
            if j < i {
                assert(to[j] == from[j]);
            } else {
                assert(to[j] == from[j + 1]);
            }
        }
    } else {
        assert forall|j: int|
            #![trigger after.router.endpoints@[j]]
            0 <= j < after.router.endpoints@.len() implies before.router.endpoints@.contains(
            after.router.endpoints@[j],
        ) by {}
    }
}

impl<F: PciFunction> PciRootBinding<F> {
    /// Retries deferred endpoint withdrawals and pending interrupt withdrawals.
    ///
    /// Rebinding a device is rejected until its interrupt is withdrawn.
    ///
    /// # Errors
    ///
    /// Returns [`DeviceManagerError::InvalidState`] while another operation is
    /// in progress and once the binding is stopping or dead, else the first
    /// failure.
    pub fn retry_irq_withdrawals(&mut self, admissions: &mut EndpointAdmissions) -> (result:
        DeviceManagerResult<()>)
        requires
            old(self).wf(*old(admissions)),
        ensures
            final(self).wf(*final(admissions)),
            final(self).host == old(self).host,
            final(self).root.topology == old(self).root.topology,
            final(self).root.functions == old(self).root.functions,
            final(self).lifecycle.state == old(self).lifecycle.state,
            old(self).routes_agree() ==> final(self).routes_agree(),
            withdrawal_start(old(self).lifecycle.state) matches Some(reason) ==> {
                &&& result == Err::<(), DeviceManagerError>(withdrawal_refusal(reason))
                &&& *final(self) == *old(self)
                &&& *final(admissions) == *old(admissions)
            },
            withdrawal_start(old(self).lifecycle.state) is None ==> exists|
                asked: Seq<Option<&mut F>>,
                told: Seq<F>,
                asked_again: Seq<Option<&mut F>>,
                told_again: Seq<F>,
            | {
                &&& #[trigger] is_withdrawal_retry(
                    asked,
                    asked_again,
                    *old(self),
                    *final(self),
                    *old(admissions),
                    *final(admissions),
                    told,
                    told_again,
                    result,
                )
                &&& forall|k: int|
                    0 <= k < asked.len() && (#[trigger] asked[k]) is Some ==> *final(asked[k]->0)
                        == told[k]
                &&& forall|k: int|
                    0 <= k < asked_again.len() && (#[trigger] asked_again[k]) is Some
                        ==> *final(asked_again[k]->0) == told_again[k]
            },
            withdrawal_start(old(self).lifecycle.state) is None ==> {
                &&& final(self).lifecycle.pending_binding_withdrawals@.len() == 0
                &&& result is Ok ==> final(self).pending_irq_withdrawals@.len() == 0
                &&& only_closes(old(admissions).entries@, final(admissions).entries@)
            },
    {
        let operation = match self.lifecycle.begin_withdrawal_operation() {
            Ok(operation) => operation,
            Err(error) => {
                return Err(error);
            },
        };
        let ghost start = *self;
        let deferred = self.drain_pending_binding_withdrawals(admissions);
        let ghost drained = *self;
        let ghost before = self.pending_irq_withdrawals@;
        let retried = retry_pending_irq_withdrawals(&mut self.pending_irq_withdrawals, admissions);
        proof {
            let (asked, told, outcomes) = choose|
                asked: Seq<Option<&mut F>>,
                told: Seq<F>,
                outcomes: Seq<DeviceManagerResult<()>>,
            |
                {
                    &&& #[trigger] is_retry(
                        asked,
                        before,
                        told,
                        self.pending_irq_withdrawals@,
                        *admissions,
                        outcomes,
                        retried,
                    )
                    &&& forall|k: int|
                        0 <= k < asked.len() && (#[trigger] asked[k]) is Some
                            ==> *final(asked[k]->0) == told[k]
                };
            if retried is Ok && before.len() > 0 {
                law_retry_keeps_failed_owners(
                    asked,
                    before,
                    told,
                    self.pending_irq_withdrawals@,
                    *admissions,
                    outcomes,
                    retried,
                    0,
                );
            }
        }
        self.lifecycle.finish_restore(operation);
        let ghost drain_result = deferred;
        let ghost retry_result = retried;
        let result = match deferred {
            Err(error) => Err(error),
            Ok(()) => retried,
        };
        proof {
            let (asked, told) = choose|asked: Seq<Option<&mut F>>, told: Seq<F>|
                {
                    &&& #[trigger] is_deferred_drain(
                        asked,
                        start,
                        drained,
                        *old(admissions),
                        *admissions,
                        told,
                        drain_result,
                    )
                    &&& forall|k: int|
                        0 <= k < asked.len() && (#[trigger] asked[k]) is Some
                            ==> *final(asked[k]->0) == told[k]
                };
            let (asked_again, told_again, outcomes) = choose|
                asked: Seq<Option<&mut F>>,
                told: Seq<F>,
                outcomes: Seq<DeviceManagerResult<()>>,
            |
                {
                    &&& #[trigger] is_retry(
                        asked,
                        drained.pending_irq_withdrawals@,
                        told,
                        self.pending_irq_withdrawals@,
                        *admissions,
                        outcomes,
                        retry_result,
                    )
                    &&& forall|k: int|
                        0 <= k < asked.len() && (#[trigger] asked[k]) is Some
                            ==> *final(asked[k]->0) == told[k]
                };
            assert(is_withdrawal_retry(
                asked,
                asked_again,
                *old(self),
                *self,
                *old(admissions),
                *admissions,
                told,
                told_again,
                result,
            ));
        }
        result
    }

    /// Retries endpoint IRQ withdrawals orphaned by a previous root teardown.
    ///
    /// The orphans keep each endpoint and its closed admission until this
    /// succeeds. A failed retry leaves the endpoint for a later one.
    ///
    /// # Errors
    ///
    /// Returns the first failure.
    pub fn retry_orphaned_irq_withdrawals(
        orphaned: &mut Vec<PendingIrqWithdrawal<F>>,
        admissions: &EndpointAdmissions,
    ) -> (result: DeviceManagerResult<()>)
        requires
            forall|i: int|
                #![trigger old(orphaned)@[i]]
                0 <= i < old(orphaned)@.len() ==> admissions.has(old(orphaned)@[i].admission),
        ensures
            exists|
                asked: Seq<Option<&mut F>>,
                told: Seq<F>,
                outcomes: Seq<DeviceManagerResult<()>>,
            | {
                &&& #[trigger] is_retry(
                    asked,
                    old(orphaned)@,
                    told,
                    final(orphaned)@,
                    *admissions,
                    outcomes,
                    result,
                )
                &&& forall|k: int|
                    0 <= k < asked.len() && (#[trigger] asked[k]) is Some ==> *final(asked[k]->0)
                        == told[k]
            },
            forall|i: int|
                #![trigger final(orphaned)@[i]]
                0 <= i < final(orphaned)@.len() ==> admissions.has(final(orphaned)@[i].admission),
    {
        retry_pending_irq_withdrawals(orphaned, admissions)
    }

    /// Tears the binding down: every route ends, every endpoint is asked to
    /// withdraw its interrupt, and those that fail become orphans.
    pub fn stop(
        &mut self,
        orphaned: &mut Vec<PendingIrqWithdrawal<F>>,
        admissions: &mut EndpointAdmissions,
    )
        requires
            old(self).wf(*old(admissions)),
        ensures
            final(self).host == old(self).host,
            final(self).root == old(self).root,
            final(self).lifecycle.state == BindingLifecycleState::Dead,
            final(self).lifecycle.pending_binding_withdrawals
                == old(self).lifecycle.pending_binding_withdrawals,
            final(self).router.endpoints@.len() == 0,
            final(self).router.next_generation == old(self).router.next_generation,
            final(self).pending_irq_withdrawals@.len() == 0,
            barriers_set(
                old(self).router.endpoints@,
                old(admissions).entries@,
                final(admissions).entries@,
                false,
            ),
            exists|
                asked: Seq<Option<&mut F>>,
                told: Seq<F>,
                failed: Seq<PendingIrqWithdrawal<F>>,
                outcomes: Seq<DeviceManagerResult<()>>,
                result: DeviceManagerResult<()>,
            | {
                &&& #[trigger] is_retry(
                    asked,
                    old(self).pending_irq_withdrawals@ + withdrawals_of(
                        old(self).router.endpoints@,
                    ),
                    told,
                    failed,
                    *final(admissions),
                    outcomes,
                    result,
                )
                &&& forall|k: int|
                    0 <= k < asked.len() && (#[trigger] asked[k]) is Some ==> *final(asked[k]->0)
                        == told[k]
                &&& final(orphaned)@ == old(orphaned)@ + failed
                &&& forall|i: int|
                    #![trigger failed[i]]
                    0 <= i < failed.len() ==> final(admissions).has(failed[i].admission)
            },
    {
        let operation = self.lifecycle.begin_stop_operation();
        let mut ended = self.router.invalidate_all(admissions);
        let ghost ended_before = ended@;
        self.pending_irq_withdrawals.append(&mut ended);
        let ghost all = self.pending_irq_withdrawals@;
        proof {
            assert(ended_before =~= withdrawals_of(old(self).router.endpoints@));
            assert(all =~= old(self).pending_irq_withdrawals@ + withdrawals_of(
                old(self).router.endpoints@,
            ));
            assert forall|i: int|
                #![trigger all[i]]
                0 <= i < all.len() implies admissions.has(all[i].admission) by {
                let n = old(self).pending_irq_withdrawals@.len() as int;
                if i < n {
                    assert(old(admissions).has(
                        old(self).pending_irq_withdrawals@[i].admission,
                    ));
                } else {
                    assert(old(admissions).has(
                        old(self).router.endpoints@[i - n].token.admission,
                    ));
                }
            }
        }
        let result = retry_pending_irq_withdrawals(&mut self.pending_irq_withdrawals, admissions);
        let ghost failed = self.pending_irq_withdrawals@;
        transfer_pending_irq_withdrawals(&mut self.pending_irq_withdrawals, orphaned);
        self.lifecycle.finish_restore(operation);
        proof {
            let (asked, told, outcomes) = choose|
                asked: Seq<Option<&mut F>>,
                told: Seq<F>,
                outcomes: Seq<DeviceManagerResult<()>>,
            |
                {
                    &&& #[trigger] is_retry(
                        asked,
                        all,
                        told,
                        failed,
                        *admissions,
                        outcomes,
                        result,
                    )
                    &&& forall|k: int|
                        0 <= k < asked.len() && (#[trigger] asked[k]) is Some
                            ==> *final(asked[k]->0) == told[k]
                };
            assert(is_retry(
                asked,
                old(self).pending_irq_withdrawals@ + withdrawals_of(old(self).router.endpoints@),
                told,
                failed,
                *admissions,
                outcomes,
                result,
            ));
        }
    }
}

/// Whether a retry turns `before` into `after`: the endpoints that had to wait are
/// withdrawn, then every endpoint with a pending interrupt is asked again, and
/// the first failure is reported.
pub open spec fn is_withdrawal_retry<F: PciFunction>(
    asked: Seq<Option<&mut F>>,
    asked_again: Seq<Option<&mut F>>,
    before: PciRootBinding<F>,
    after: PciRootBinding<F>,
    old_admissions: EndpointAdmissions,
    new_admissions: EndpointAdmissions,
    told: Seq<F>,
    told_again: Seq<F>,
    result: DeviceManagerResult<()>,
) -> bool {
    exists|
        start: PciRootBinding<F>,
        drained: PciRootBinding<F>,
        deferred: DeviceManagerResult<()>,
        outcomes: Seq<DeviceManagerResult<()>>,
        retried: DeviceManagerResult<()>,
    |
        #[trigger] is_deferred_drain(
            asked,
            start,
            drained,
            old_admissions,
            new_admissions,
            told,
            deferred,
        ) && #[trigger] is_retry(
            asked_again,
            drained.pending_irq_withdrawals@,
            told_again,
            after.pending_irq_withdrawals@,
            new_admissions,
            outcomes,
            retried,
        ) && start == (PciRootBinding { lifecycle: start.lifecycle, ..before })
            && start.lifecycle.pending_binding_withdrawals
            == before.lifecycle.pending_binding_withdrawals && after == (PciRootBinding {
            lifecycle: after.lifecycle,
            pending_irq_withdrawals: after.pending_irq_withdrawals,
            ..drained
        }) && result == (match deferred {
            Err(error) => Err(error),
            Ok(()) => retried,
        })
}

/// The withdrawals that ending all bindings leaves to be done.
pub open spec fn withdrawals_of<F>(endpoints: Seq<RoutedEndpoint<F>>) -> Seq<
    PendingIrqWithdrawal<F>,
> {
    Seq::new(
        endpoints.len(),
        |i: int|
            PendingIrqWithdrawal {
                device: endpoints[i].token.device,
                function: endpoints[i].function,
                admission: endpoints[i].token.admission,
            },
    )
}

} // verus!
