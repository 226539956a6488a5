//! Reset of a PCI root and of the endpoints bound to it.

use crate::access::{DeviceId, DeviceManagerError, DeviceManagerResult, DeviceResult};
use crate::pci::binding::PciRootBinding;
use crate::pci::config::PciCommandState;
use crate::pci::endpoint::PciFunction;
#[allow(unused_imports)]
use crate::pci::endpoint::{says_reset, says_withdrawal};
use crate::pci::lifecycle::{
    BindingLifecycle, BindingLifecycleState, LifecycleCompletion, LifecycleOperation,
};
#[allow(unused_imports)]
use crate::pci::lifecycle::not_running;
#[allow(unused_imports)]
use crate::pci::root::{bound_commands, replaced_token};
use crate::pci::router::{EndpointRouter, RoutedEndpoint};
#[allow(unused_imports)]
use crate::pci::router::{
    are_resets, barriers_set, epoch_exhausted, first_error, has_last_epoch, is_endpoints_reset,
    is_reset_step, is_rotated, is_rotation, is_routed, lemma_same_tokens_keep_wf,
};
use crate::pci::routing::{DrainBudget, EndpointAdmission, EndpointAdmissions, EndpointRouteToken};
#[allow(unused_imports)]
use crate::pci::routing::route_drain_exceeded;
#[allow(unused_imports)]
use crate::pci::withdrawal::{is_deferred_drain, only_closes};
use vstd::prelude::*;

verus! {

/// Whether no endpoint of the router admits a callback.
pub open spec fn all_closed<F>(router: EndpointRouter<F>, admissions: EndpointAdmissions) -> bool {
    forall|i: int|
        #![trigger router.endpoints@[i]]
        0 <= i < router.endpoints@.len() ==> !admissions.at(
            router.endpoints@[i].token.admission,
        ).open
}

/// Whether every endpoint of the router admits callbacks.
pub open spec fn all_open<F>(router: EndpointRouter<F>, admissions: EndpointAdmissions) -> bool {
    forall|i: int|
        #![trigger router.endpoints@[i]]
        0 <= i < router.endpoints@.len() ==> admissions.at(
            router.endpoints@[i].token.admission,
        ).open
}

/// Whether `after` is one of the endpoints `before` in its next epoch.
pub open spec fn is_next_epoch_of<F>(
    before: Seq<RoutedEndpoint<F>>,
    after: RoutedEndpoint<F>,
) -> bool {
    exists|i: int|
        #![trigger before[i]]
        0 <= i < before.len() && after.token.device == before[i].token.device && after.token.binding_generation
            == before[i].token.binding_generation && after.token.admission_epoch
            == before[i].token.admission_epoch + 1
}

/// Whether nothing is inside the admissions of the endpoints.
pub open spec fn all_idle<F>(endpoints: Seq<RoutedEndpoint<F>>, admissions: EndpointAdmissions) -> bool {
    forall|i: int|
        #![trigger endpoints[i]]
        0 <= i < endpoints.len() ==> admissions.at(endpoints[i].token.admission).activity() == 0
}

/// Whether resetting root and endpoints turns `before` into `after`, with
/// `replacements` the old and new tokens and `rotated` the endpoints under the new ones.
///
/// An endpoint in its last epoch stops the reset before anything changes, and
/// something inside an old admission stops it before the root is touched. The
/// endpoints are then told, and only if all agree do the functions get the new
/// tokens.
pub open spec fn is_reset_of_routes<F: PciFunction>(
    resets: Seq<Option<&mut F>>,
    withdrawals: Seq<Option<&mut F>>,
    before: PciRootBinding<F>,
    rotated: Seq<RoutedEndpoint<F>>,
    after: PciRootBinding<F>,
    old_admissions: EndpointAdmissions,
    new_admissions: EndpointAdmissions,
    replacements: Seq<(EndpointRouteToken, EndpointRouteToken)>,
    told: Seq<F>,
    result: DeviceManagerResult<()>,
) -> bool {
    if has_last_epoch(before.router.endpoints@) {
        &&& resets.len() == 0
        &&& withdrawals.len() == 0
        &&& result == Err::<(), DeviceManagerError>(epoch_exhausted())
        &&& after == before
        &&& new_admissions == old_admissions
    } else {
        &&& after == (PciRootBinding { root: after.root, router: after.router, ..before })
        &&& after.router.next_generation == before.router.next_generation
        &&& is_rotation(
            before.router.endpoints@,
            rotated,
            old_admissions.entries@,
            new_admissions.entries@,
            replacements,
        )
        &&& if !all_idle(before.router.endpoints@, old_admissions) {
            &&& resets.len() == 0
            &&& withdrawals.len() == 0
            &&& result == Err::<(), DeviceManagerError>(route_drain_exceeded())
            &&& after.root == before.root
            &&& after.router.endpoints@ == rotated
        } else {
            &&& after.root.topology == before.root.topology
            &&& after.root.at_power_on()
            &&& is_endpoints_reset(
                resets,
                withdrawals,
                rotated,
                after.router.endpoints@,
                bound_commands(
                    after.root.functions@,
                    before.root.bindings@,
                    before.root.bindings@.len() as int,
                ),
                told,
                result,
            )
            &&& after.root.bindings@.len() == before.root.bindings@.len()
            &&& forall|i: int|
                #![trigger after.root.bindings@[i]]
                0 <= i < before.root.bindings@.len() ==> after.root.bindings@[i] == (
                match before.root.bindings@[i] {
                    Some(token) if result is Ok => Some(replaced_token(replacements, token, 0)),
                    binding => binding,
                })
        }
    }
}

/// Whether a running binding that is reset becomes `after`: reset, rid of the
/// endpoints that had to wait, and open again, or closed after a failure.
pub open spec fn is_lifecycle_reset<F: PciFunction>(
    resets: Seq<Option<&mut F>>,
    withdrawals: Seq<Option<&mut F>>,
    asked: Seq<Option<&mut F>>,
    before: PciRootBinding<F>,
    after: PciRootBinding<F>,
    old_admissions: EndpointAdmissions,
    new_admissions: EndpointAdmissions,
    told: Seq<F>,
    withdrawn: Seq<F>,
    result: DeviceManagerResult<()>,
) -> bool {
    exists|
        start: PciRootBinding<F>,
        rotated: Seq<RoutedEndpoint<F>>,
        reset: PciRootBinding<F>,
        admissions: EndpointAdmissions,
        replacements: Seq<(EndpointRouteToken, EndpointRouteToken)>,
        outcome: DeviceManagerResult<()>,
    |
        #[trigger] is_reset_of_routes(
            resets,
            withdrawals,
            start,
            rotated,
            reset,
            old_admissions,
            admissions,
            replacements,
            told,
            outcome,
        ) && start == (PciRootBinding { lifecycle: start.lifecycle, ..before })
            && start.lifecycle.state == BindingLifecycleState::Resetting
            && start.lifecycle.pending_binding_withdrawals
            == before.lifecycle.pending_binding_withdrawals && match outcome {
            Err(error) => {
                &&& asked.len() == 0
                &&& result == Err::<(), DeviceManagerError>(error)
                &&& after == (PciRootBinding { lifecycle: after.lifecycle, ..reset })
                &&& after.lifecycle.pending_binding_withdrawals
                    == before.lifecycle.pending_binding_withdrawals
                &&& barriers_set(
                    reset.router.endpoints@,
                    admissions.entries@,
                    new_admissions.entries@,
                    false,
                )
            },
            Ok(()) => is_reset_completion(
                asked,
                reset,
                after,
                admissions,
                new_admissions,
                withdrawn,
                result,
            ),
        }
}

/// Whether the rest of a reset turns `reset` into `after`: endpoints that had to
/// wait are withdrawn, and unless one fails the others are opened.
pub open spec fn is_reset_completion<F: PciFunction>(
    asked: Seq<Option<&mut F>>,
    reset: PciRootBinding<F>,
    after: PciRootBinding<F>,
    old_admissions: EndpointAdmissions,
    new_admissions: EndpointAdmissions,
    withdrawn: Seq<F>,
    result: DeviceManagerResult<()>,
) -> bool {
    exists|drained: PciRootBinding<F>, admissions: EndpointAdmissions|
        #[trigger] is_deferred_drain(
            asked,
            reset,
            drained,
            old_admissions,
            admissions,
            withdrawn,
            result,
        ) && after == (PciRootBinding { lifecycle: after.lifecycle, ..drained })
            && after.lifecycle.pending_binding_withdrawals
            == drained.lifecycle.pending_binding_withdrawals && match result {
            Err(_) => new_admissions == admissions,
            Ok(()) => barriers_set(
                drained.router.endpoints@,
                admissions.entries@,
                new_admissions.entries@,
                true,
            ),
        }
}

/// A reset that has begun: the admissions are rotated, and what is inside the old ones may leave.
#[derive(Debug)]
pub struct ResetProgress {
    /// The lifecycle operation that is in progress.
    pub operation: LifecycleOperation,
    /// Old and new token of each endpoint.
    pub replacements: Vec<(EndpointRouteToken, EndpointRouteToken)>,
}

/// Whether beginning a reset turns `before` into `after`: a binding that is not running is left
/// alone, an endpoint in its last epoch makes the reset fail with every route closed, and else the
/// admissions are rotated.
pub open spec fn is_reset_begin<F>(
    before: PciRootBinding<F>,
    after: PciRootBinding<F>,
    old_admissions: EndpointAdmissions,
    new_admissions: EndpointAdmissions,
    result: DeviceManagerResult<ResetProgress>,
) -> bool {
    if before.lifecycle.state != BindingLifecycleState::Running {
        &&& result == Err::<ResetProgress, DeviceManagerError>(
            not_running("reset PCI root binding"),
        )
        &&& after == before
        &&& new_admissions == old_admissions
    } else if has_last_epoch(before.router.endpoints@) {
        &&& result == Err::<ResetProgress, DeviceManagerError>(epoch_exhausted())
        &&& after == (PciRootBinding { lifecycle: after.lifecycle, ..before })
        &&& after.lifecycle.state == BindingLifecycleState::ResetFailed
        &&& after.lifecycle.pending_binding_withdrawals
            == before.lifecycle.pending_binding_withdrawals
        &&& barriers_set(
            before.router.endpoints@,
            old_admissions.entries@,
            new_admissions.entries@,
            false,
        )
    } else {
        &&& result is Ok
        &&& result->Ok_0.operation.completion == LifecycleCompletion::Reset
        &&& after == (PciRootBinding {
            lifecycle: after.lifecycle,
            router: after.router,
            ..before
        })
        &&& after.lifecycle.state == BindingLifecycleState::Resetting
        &&& after.lifecycle.pending_binding_withdrawals
            == before.lifecycle.pending_binding_withdrawals
        &&& after.router.next_generation == before.router.next_generation
        &&& is_rotation(
            before.router.endpoints@,
            after.router.endpoints@,
            old_admissions.entries@,
            new_admissions.entries@,
            result->Ok_0.replacements@,
        )
    }
}

/// Whether ending a reset, of which telling the endpoints came to `outcome`, turns `before` into
/// `after`, with `published` what has the new tokens: after a failure every route is closed, else the
/// functions get the new tokens and the rest of the reset is done.
pub open spec fn is_reset_end<F: PciFunction>(
    asked: Seq<Option<&mut F>>,
    before: PciRootBinding<F>,
    published: PciRootBinding<F>,
    after: PciRootBinding<F>,
    old_admissions: EndpointAdmissions,
    new_admissions: EndpointAdmissions,
    replacements: Seq<(EndpointRouteToken, EndpointRouteToken)>,
    withdrawn: Seq<F>,
    outcome: DeviceManagerResult<()>,
    result: DeviceManagerResult<()>,
) -> bool {
    match outcome {
        Err(error) => {
            &&& asked.len() == 0
            &&& published == before
            &&& result == Err::<(), DeviceManagerError>(error)
            &&& after == (PciRootBinding { lifecycle: after.lifecycle, ..before })
            &&& after.lifecycle.pending_binding_withdrawals
                == before.lifecycle.pending_binding_withdrawals
            &&& barriers_set(
                before.router.endpoints@,
                old_admissions.entries@,
                new_admissions.entries@,
                false,
            )
        },
        Ok(()) => {
            &&& published == (PciRootBinding { root: published.root, ..before })
            &&& published.root.topology == before.root.topology
            &&& published.root.functions == before.root.functions
            &&& published.root.bindings@.len() == before.root.bindings@.len()
            &&& forall|i: int|
                #![trigger published.root.bindings@[i]]
                0 <= i < before.root.bindings@.len() ==> published.root.bindings@[i] == (
                match before.root.bindings@[i] {
                    Some(token) => Some(replaced_token(replacements, token, 0)),
                    None => None,
                })
            &&& is_reset_completion(
                asked,
                published,
                after,
                old_admissions,
                new_admissions,
                withdrawn,
                result,
            )
        },
    }
}

impl<F: PciFunction> PciRootBinding<F> {
    /// Checks that nothing is inside the old admissions.
    fn check_drained(
        replacements: &Vec<(EndpointRouteToken, EndpointRouteToken)>,
        admissions: &EndpointAdmissions,
    ) -> (result: DeviceManagerResult<()>)
        requires
            forall|i: int|
                #![trigger replacements@[i]]
                0 <= i < replacements@.len() ==> admissions.has(replacements@[i].0.admission),
        ensures
            result is Ok <==> forall|i: int|
                #![trigger replacements@[i]]
                0 <= i < replacements@.len() ==> admissions.at(
                    replacements@[i].0.admission,
                ).activity() == 0,
            result matches Err(error) ==> error == route_drain_exceeded(),
    {
        let mut i: usize = 0;
        while i < replacements.len()
            invariant
                i <= replacements@.len(),
                forall|j: int|
                    #![trigger replacements@[j]]
                    0 <= j < replacements@.len() ==> admissions.has(replacements@[j].0.admission),
                forall|j: int|
                    #![trigger replacements@[j]]
                    0 <= j < i ==> admissions.at(replacements@[j].0.admission).activity() == 0,
            decreases replacements@.len() - i,
        {
            assert(admissions.has(replacements@[i as int].0.admission));
            let admission = admissions.get(replacements[i].0.admission);
            let mut budget = DrainBudget::new(0);
            if let Some(Err(error)) = admission.poll_idle(&mut budget) {
                assert(admissions.at(replacements@[i as int].0.admission).activity() != 0);
                return Err(error);
            }
            i = i + 1;
        }
        Ok(())
    }

    /// Begins a reset: rotates the admissions, so that nothing more gets in while what is inside
    /// leaves.
    ///
    /// # Errors
    ///
    /// Returns [`DeviceManagerError::InvalidState`] when the binding is not running and when an
    /// epoch is exhausted.
    pub fn begin_reset(&mut self, admissions: &mut EndpointAdmissions) -> (result:
        DeviceManagerResult<ResetProgress>)
        requires
            old(self).wf(*old(admissions)),
        ensures
            final(self).wf(*final(admissions)),
            is_reset_begin(*old(self), *final(self), *old(admissions), *final(admissions), result),
    {
        let operation = match self.lifecycle.begin_reset_operation() {
            Ok(operation) => operation,
            Err(error) => {
                return Err(error);
            },
        };
        match self.router.reset_admissions(admissions) {
            Ok(replacements) => Ok(ResetProgress { operation, replacements }),
            Err(error) => {
                self.router.close_admissions(admissions);
                self.lifecycle.finish_restore(operation);
                Err(error)
            },
        }
    }

    /// Ends a reset, of which telling the endpoints came to `outcome`: publishes the new tokens,
    /// withdraws the endpoints whose lease ended meanwhile, and opens the routes.
    ///
    /// A reset that fails leaves every route closed.
    ///
    /// # Errors
    ///
    /// Returns the error of `outcome`, else why an endpoint could not be withdrawn.
    pub fn finish_reset(
        &mut self,
        progress: ResetProgress,
        outcome: DeviceManagerResult<()>,
        admissions: &mut EndpointAdmissions,
    ) -> (result: DeviceManagerResult<()>)
        requires
            old(self).wf(*old(admissions)),
            progress.operation.completion == LifecycleCompletion::Reset,
        ensures
            final(self).wf(*final(admissions)),
            final(self).host == old(self).host,
            final(self).root.topology == old(self).root.topology,
            final(self).root.functions == old(self).root.functions,
            final(self).router.next_generation == old(self).router.next_generation,
            forall|i: int|
                #![trigger final(self).router.endpoints@[i]]
                0 <= i < final(self).router.endpoints@.len() ==> old(
                    self,
                ).router.endpoints@.contains(final(self).router.endpoints@[i]),
            exists|asked: Seq<Option<&mut F>>, published: PciRootBinding<F>, withdrawn: Seq<F>| {
                &&& #[trigger] is_reset_end(
                    asked,
                    *old(self),
                    published,
                    *final(self),
                    *old(admissions),
                    *final(admissions),
                    progress.replacements@,
                    withdrawn,
                    outcome,
                    result,
                )
                &&& published.routes_agree() ==> final(self).routes_agree()
                &&& forall|k: int|
                    0 <= k < asked.len() && (#[trigger] asked[k]) is Some ==> *final(asked[k]->0)
                        == withdrawn[k]
            },
            result is Ok ==> {
                &&& outcome is Ok
                &&& final(self).lifecycle.state == BindingLifecycleState::Running
                &&& final(self).lifecycle.pending_binding_withdrawals@.len() == 0
                &&& all_open(final(self).router, *final(admissions))
            },
            result is Err ==> {
                &&& final(self).lifecycle.state == BindingLifecycleState::ResetFailed
                &&& all_closed(old(self).router, *old(admissions)) || outcome is Err ==> all_closed(
                    final(self).router,
                    *final(admissions),
                )
            },
    {
        let ResetProgress { operation, replacements } = progress;
        if outcome.is_err() {
            let ghost before = admissions.entries@;
            self.router.close_admissions(admissions);
            proof {
                lemma_barriers_closed(self.router, before, *admissions);
            }
            self.lifecycle.finish_restore(operation);
            proof {
                assert forall|i: int|
                    #![trigger self.router.endpoints@[i]]
                    0 <= i < self.router.endpoints@.len() implies old(
                    self,
                ).router.endpoints@.contains(self.router.endpoints@[i]) by {}
                assert(is_reset_end(
                    Seq::<Option<&mut F>>::empty(),
                    *old(self),
                    *old(self),
                    *self,
                    *old(admissions),
                    *admissions,
                    replacements@,
                    Seq::<F>::empty(),
                    outcome,
                    outcome,
                ));
            }
            return outcome;
        }
        self.root.replace_endpoint_tokens(&replacements);
        let ghost published = *self;
        let drained = self.drain_pending_binding_withdrawals(admissions);
        let ghost drained_state = *self;
        let ghost drained_admissions = *admissions;
        proof {
            if all_closed(published.router, *old(admissions)) {
                lemma_stays_closed(published.router, self.router, *old(admissions), *admissions);
            }
        }
        if drained.is_err() {
            self.lifecycle.finish_restore(operation);
            proof {
                let (asked, withdrawn) = choose|asked: Seq<Option<&mut F>>, withdrawn: Seq<F>|
                    {
                        &&& #[trigger] is_deferred_drain(
                            asked,
                            published,
                            drained_state,
                            *old(admissions),
                            drained_admissions,
                            withdrawn,
                            drained,
                        )
                        &&& forall|k: int|
                            0 <= k < asked.len() && (#[trigger] asked[k]) is Some
                                ==> *final(asked[k]->0)
                                == withdrawn[k]
                    };
                assert(is_reset_completion(
                    asked,
                    published,
                    *self,
                    *old(admissions),
                    *admissions,
                    withdrawn,
                    drained,
                ));
                assert(is_reset_end(
                    asked,
                    *old(self),
                    published,
                    *self,
                    *old(admissions),
                    *admissions,
                    replacements@,
                    withdrawn,
                    outcome,
                    drained,
                ));
            }
            return drained;
        }
        match self.lifecycle.try_finish_reset(operation) {
            None => {},
            Some(unfinished) => {
                self.lifecycle.finish_restore(unfinished);
            },
        }
        let ghost before = admissions.entries@;
        self.router.open_admissions(admissions);
        proof {
            lemma_barriers_opened(self.router, before, *admissions);
            let (asked, withdrawn) = choose|asked: Seq<Option<&mut F>>, withdrawn: Seq<F>|
                {
                    &&& #[trigger] is_deferred_drain(
                        asked,
                        published,
                        drained_state,
                        *old(admissions),
                        drained_admissions,
                        withdrawn,
                        drained,
                    )
                    &&& forall|k: int|
                        0 <= k < asked.len() && (#[trigger] asked[k]) is Some ==> *final(asked[k]->0)
                            == withdrawn[k]
                };
            assert(is_reset_completion(
                asked,
                published,
                *self,
                *old(admissions),
                *admissions,
                withdrawn,
                drained,
            ));
            assert(is_reset_end(
                asked,
                *old(self),
                published,
                *self,
                *old(admissions),
                *admissions,
                replacements@,
                withdrawn,
                outcome,
                drained,
            ));
        }
        drained
    }

    /// Resets the root and all bound endpoints.
    ///
    /// A reset that fails leaves every route closed. Nobody else reaches the admissions
    /// meanwhile, so one look tells whether something is inside: what is inside now
    /// would be inside at every later look.
    ///
    /// # Errors
    ///
    /// Returns [`DeviceManagerError::InvalidState`] when the binding is not
    /// running, when an epoch is exhausted, and when a callback or transition is
    /// inside; else the first error of an endpoint.
    pub fn reset_lifecycle(&mut self, admissions: &mut EndpointAdmissions) -> (result:
        DeviceManagerResult<()>)
        requires
            old(self).wf(*old(admissions)),
        ensures
            final(self).wf(*final(admissions)),
            final(self).host == old(self).host,
            final(self).root.topology == old(self).root.topology,
            final(self).router.next_generation == old(self).router.next_generation,
            old(self).lifecycle.state != BindingLifecycleState::Running ==> {
                &&& result == Err::<(), DeviceManagerError>(not_running("reset PCI root binding"))
                &&& *final(self) == *old(self)
                &&& *final(admissions) == *old(admissions)
            },
            old(self).lifecycle.state == BindingLifecycleState::Running ==> exists|
                resets: Seq<Option<&mut F>>,
                withdrawals: Seq<Option<&mut F>>,
                told: Seq<F>,
                asked: Seq<Option<&mut F>>,
                withdrawn: Seq<F>,
            | {
                &&& #[trigger] is_lifecycle_reset(
                    resets,
                    withdrawals,
                    asked,
                    *old(self),
                    *final(self),
                    *old(admissions),
                    *final(admissions),
                    told,
                    withdrawn,
                    result,
                )
                &&& forall|k: int|
                    0 <= k < resets.len() && (#[trigger] resets[k]) is Some ==> *final(resets[k]->0)
                        == *(withdrawals[k]->0)
                &&& forall|k: int|
                    0 <= k < withdrawals.len() && (#[trigger] withdrawals[k]) is Some
                        ==> *final(withdrawals[k]->0) == told[k]
                &&& forall|k: int|
                    0 <= k < asked.len() && (#[trigger] asked[k]) is Some ==> *final(asked[k]->0)
                        == withdrawn[k]
            },
            old(self).lifecycle.state == BindingLifecycleState::Running && result is Ok ==> {
                &&& final(self).lifecycle.state == BindingLifecycleState::Running
                &&& final(self).lifecycle.pending_binding_withdrawals@.len() == 0
                &&& final(self).root.at_power_on()
                &&& old(self).routes_agree() ==> final(self).routes_agree()
                &&& all_open(final(self).router, *final(admissions))
                &&& forall|i: int|
                    #![trigger final(self).router.endpoints@[i]]
                    0 <= i < final(self).router.endpoints@.len() ==> is_next_epoch_of(
                        old(self).router.endpoints@,
                        final(self).router.endpoints@[i],
                    )
                &&& all_idle(old(self).router.endpoints@, *old(admissions))
            },
            old(self).lifecycle.state == BindingLifecycleState::Running && result is Err ==> {
                &&& final(self).lifecycle.state == BindingLifecycleState::ResetFailed
                &&& all_closed(final(self).router, *final(admissions))
            },
    {
        let progress = match self.begin_reset(admissions) {
            Ok(progress) => progress,
            Err(error) => {
                let result = Err(error);
                proof {
                    if old(self).lifecycle.state == BindingLifecycleState::Running {
                        let start = PciRootBinding {
                            lifecycle: BindingLifecycle {
                                state: BindingLifecycleState::Resetting,
                                ..old(self).lifecycle
                            },
                            ..*old(self)
                        };
                        assert(is_reset_of_routes(
                            Seq::<Option<&mut F>>::empty(),
                            Seq::<Option<&mut F>>::empty(),
                            start,
                            start.router.endpoints@,
                            start,
                            *old(admissions),
                            *old(admissions),
                            Seq::empty(),
                            Seq::<F>::empty(),
                            result,
                        ));
                        lemma_barriers_closed(
                            self.router,
                            old(admissions).entries@,
                            *admissions,
                        );
                        assert(is_lifecycle_reset(
                            Seq::<Option<&mut F>>::empty(),
                            Seq::<Option<&mut F>>::empty(),
                            Seq::<Option<&mut F>>::empty(),
                            *old(self),
                            *self,
                            *old(admissions),
                            *admissions,
                            Seq::<F>::empty(),
                            Seq::<F>::empty(),
                            result,
                        ));
                    }
                }
                return result;
            },
        };
        let ghost start = PciRootBinding { lifecycle: self.lifecycle, ..*old(self) };
        let ghost rotated = self.router.endpoints@;
        let ghost rotated_router = self.router;
        let ghost rotated_admissions = *admissions;
        let ghost replacements = progress.replacements@;
        assert(admissions.entries.len() == admissions.entries@.len());
        proof {
            lemma_rotated_activity(*old(self), rotated, *old(admissions), *admissions, replacements);
        }
        let drained = Self::check_drained(&progress.replacements, admissions);
        proof {
            lemma_drained_is_idle(
                *old(self),
                rotated,
                *old(admissions),
                *admissions,
                replacements,
                drained,
            );
        }
        let outcome = match drained {
            Err(error) => {
                let outcome = Err(error);
                assert(is_reset_of_routes(
                    Seq::<Option<&mut F>>::empty(),
                    Seq::<Option<&mut F>>::empty(),
                    start,
                    rotated,
                    *self,
                    *old(admissions),
                    *admissions,
                    replacements,
                    Seq::<F>::empty(),
                    outcome,
                ));
                outcome
            },
            Ok(()) => {
                let commands = self.root.reset_and_snapshot_commands();
                let outcome = self.router.reset_endpoints(&commands);
                proof {
                    lemma_same_tokens_keep_wf(rotated_router, self.router, *admissions);
                }
                outcome
            },
        };
        let ghost told_state = *self;
        proof {
            assert forall|i: int|
                #![trigger self.router.endpoints@[i]]
                0 <= i < self.router.endpoints@.len() implies self.router.endpoints@[i].token
                == rotated[i].token && !admissions.at(
                self.router.endpoints@[i].token.admission,
            ).open && is_next_epoch_of(old(self).router.endpoints@, self.router.endpoints@[i]) by {
                assert(is_rotated(
                    old(self).router.endpoints@[i],
                    rotated[i],
                    old(admissions).entries@.len() + i,
                ));
                let before = old(self).router.endpoints@[i];
                assert(before.token.admission_epoch != u64::MAX);
                assert(self.router.endpoints@[i].token == rotated[i].token);
            }
        }
        let result = self.finish_reset(progress, outcome, admissions);
        proof {
            assert forall|i: int|
                #![trigger self.router.endpoints@[i]]
                0 <= i < self.router.endpoints@.len() implies is_next_epoch_of(
                old(self).router.endpoints@,
                self.router.endpoints@[i],
            ) by {
                assert(told_state.router.endpoints@.contains(self.router.endpoints@[i]));
                let k = choose|k: int|
                    0 <= k < told_state.router.endpoints@.len() && told_state.router.endpoints@[k]
                        == self.router.endpoints@[i];
                assert(is_next_epoch_of(
                    old(self).router.endpoints@,
                    told_state.router.endpoints@[k],
                ));
            }
            let (asked, published, withdrawn) = choose|
                asked: Seq<Option<&mut F>>,
                published: PciRootBinding<F>,
                withdrawn: Seq<F>,
            |
                {
                    &&& #[trigger] is_reset_end(
                        asked,
                        told_state,
                        published,
                        *self,
                        rotated_admissions,
                        *admissions,
                        replacements,
                        withdrawn,
                        outcome,
                        result,
                    )
                    &&& published.routes_agree() ==> self.routes_agree()
                    &&& forall|k: int|
                        0 <= k < asked.len() && (#[trigger] asked[k]) is Some ==> *final(asked[k]->0)
                            == withdrawn[k]
                };
            if outcome is Ok {
                lemma_rotation_keeps_routes(
                    *old(self),
                    published,
                    *old(admissions),
                    replacements,
                );
            }
            if drained is Ok {
                let commands = bound_commands(
                    published.root.functions@,
                    old(self).root.bindings@,
                    old(self).root.bindings@.len() as int,
                );
                let (resets, withdrawals, told) = choose|
                    resets: Seq<Option<&mut F>>,
                    withdrawals: Seq<Option<&mut F>>,
                    told: Seq<F>,
                |
                    {
                        &&& #[trigger] is_endpoints_reset(
                            resets,
                            withdrawals,
                            rotated,
                            told_state.router.endpoints@,
                            commands,
                            told,
                            outcome,
                        )
                        &&& forall|k: int|
                            0 <= k < resets.len() && (#[trigger] resets[k]) is Some
                                ==> *final(resets[k]->0)
                                == *(withdrawals[k]->0)
                        &&& forall|k: int|
                            0 <= k < withdrawals.len() && (#[trigger] withdrawals[k]) is Some
                                ==> *final(withdrawals[k]->0) == told[k]
                    };
                assert(is_reset_of_routes(
                    resets,
                    withdrawals,
                    start,
                    rotated,
                    published,
                    *old(admissions),
                    rotated_admissions,
                    replacements,
                    told,
                    outcome,
                ));
                assert(is_lifecycle_reset(
                    resets,
                    withdrawals,
                    asked,
                    *old(self),
                    *self,
                    *old(admissions),
                    *admissions,
                    told,
                    withdrawn,
                    result,
                ));
            } else {
                assert(is_lifecycle_reset(
                    Seq::<Option<&mut F>>::empty(),
                    Seq::<Option<&mut F>>::empty(),
                    asked,
                    *old(self),
                    *self,
                    *old(admissions),
                    *admissions,
                    Seq::<F>::empty(),
                    withdrawn,
                    result,
                ));
            }
        }
        result
    }
}

/// A rotation leaves what is inside the old admissions.
proof fn lemma_rotated_activity<F>(
    before: PciRootBinding<F>,
    rotated: Seq<RoutedEndpoint<F>>,
    old_admissions: EndpointAdmissions,
    new_admissions: EndpointAdmissions,
    replacements: Seq<(EndpointRouteToken, EndpointRouteToken)>,
)
    requires
        before.router.wf(old_admissions),
        is_rotation(
            before.router.endpoints@,
            rotated,
            old_admissions.entries@,
            new_admissions.entries@,
            replacements,
        ),
    ensures
        forall|i: int|
            #![trigger replacements[i]]
            0 <= i < replacements.len() ==> new_admissions.has(replacements[i].0.admission)
                && new_admissions.at(replacements[i].0.admission).activity() == old_admissions.at(
                before.router.endpoints@[i].token.admission,
            ).activity(),
{
    assert forall|i: int|
        #![trigger replacements[i]]
        0 <= i < replacements.len() implies new_admissions.has(replacements[i].0.admission)
        && new_admissions.at(replacements[i].0.admission).activity() == old_admissions.at(
        before.router.endpoints@[i].token.admission,
    ).activity() by {
        assert(is_rotated(
            before.router.endpoints@[i],
            rotated[i],
            old_admissions.entries@.len() + i,
        ));
        assert(old_admissions.has(before.router.endpoints@[i].token.admission));
        let k = before.router.endpoints@[i].token.admission.0 as int;
        assert(new_admissions.entries@[k].leases == old_admissions.entries@[k].leases);
    }
}

/// The old admissions are drained just when nothing was inside before the rotation.
proof fn lemma_drained_is_idle<F>(
    before: PciRootBinding<F>,
    rotated: Seq<RoutedEndpoint<F>>,
    old_admissions: EndpointAdmissions,
    new_admissions: EndpointAdmissions,
    replacements: Seq<(EndpointRouteToken, EndpointRouteToken)>,
    drained: DeviceManagerResult<()>,
)
    requires
        before.router.wf(old_admissions),
        is_rotation(
            before.router.endpoints@,
            rotated,
            old_admissions.entries@,
            new_admissions.entries@,
            replacements,
        ),
        drained is Ok <==> forall|i: int|
            #![trigger replacements[i]]
            0 <= i < replacements.len() ==> new_admissions.at(
                replacements[i].0.admission,
            ).activity() == 0,
    ensures
        drained is Ok <==> all_idle(before.router.endpoints@, old_admissions),
{
    lemma_rotated_activity(before, rotated, old_admissions, new_admissions, replacements);
    if drained is Ok {
        assert forall|i: int|
            #![trigger before.router.endpoints@[i]]
            0 <= i < before.router.endpoints@.len() implies old_admissions.at(
            before.router.endpoints@[i].token.admission,
        ).activity() == 0 by {
            assert(new_admissions.at(replacements[i].0.admission).activity() == 0);
        }
    } else {
        let i = choose|i: int|
            #![trigger replacements[i]]
            0 <= i < replacements.len() && new_admissions.at(
                replacements[i].0.admission,
            ).activity() != 0;
        assert(old_admissions.at(
            before.router.endpoints@[i].token.admission,
        ).activity() != 0);
    }
}

/// Replacing the tokens of a rotation keeps root and router in agreement.
pub proof fn lemma_rotation_keeps_routes<F>(
    before: PciRootBinding<F>,
    after: PciRootBinding<F>,
    admissions: EndpointAdmissions,
    replacements: Seq<(EndpointRouteToken, EndpointRouteToken)>,
)
    requires
        before.router.wf(admissions),
        after.root.bindings@.len() == before.root.bindings@.len(),
        forall|i: int|
            #![trigger after.root.bindings@[i]]
            0 <= i < before.root.bindings@.len() ==> after.root.bindings@[i] == (
            match before.root.bindings@[i] {
                Some(token) => Some(replaced_token(replacements, token, 0)),
                None => None,
            }),
        replacements.len() == before.router.endpoints@.len(),
        after.router.endpoints@.len() == before.router.endpoints@.len(),
        forall|j: int|
            #![trigger after.router.endpoints@[j]]
            0 <= j < after.router.endpoints@.len() ==> replacements[j] == (
                before.router.endpoints@[j].token,
                after.router.endpoints@[j].token,
            ) && after.router.endpoints@[j].token.device == before.router.endpoints@[j].token.device,
    ensures
        before.routes_agree() ==> after.routes_agree(),
{
    if before.routes_agree() {
        assert forall|j: int|
            #![trigger before.router.endpoints@[j]]
            0 <= j < before.router.endpoints@.len() implies replaced_token(
            replacements,
            before.router.endpoints@[j].token,
            0,
        ) == after.router.endpoints@[j].token by {
            let token = before.router.endpoints@[j].token;
            assert(after.router.endpoints@[j].token.device == token.device);
            lemma_replaced_token(replacements, token, 0, j as nat);
            let k = choose|k: int|
                0 <= k < replacements.len() && replacements[k] == (
                    token,
                    replaced_token(replacements, token, 0),
                );
            assert(after.router.endpoints@[k].token.device
                == before.router.endpoints@[k].token.device);
            assert(k == j);
        }
        assert forall|i: int|
            #![trigger after.root.bindings@[i]]
            0 <= i < after.root.bindings@.len()
                && after.root.bindings@[i] is Some implies before.root.bindings@[i] is Some
            && after.router.has_token(after.root.bindings@[i]->0)
            && after.root.bindings@[i]->0.device == before.root.bindings@[i]->0.device by {
            assert(before.root.bindings@[i] is Some);
            let token = before.root.bindings@[i]->0;
            assert(before.router.has_token(token));
            let j = choose|j: int|
                #![trigger before.router.endpoints@[j]]
                0 <= j < before.router.endpoints@.len() && before.router.endpoints@[j].token
                    == token;
            assert(after.router.endpoints@[j].token.device == token.device);
            assert(after.root.bindings@[i] == Some(after.router.endpoints@[j].token));
        }
        assert forall|j: int|
            #![trigger after.router.endpoints@[j]]
            0 <= j < after.router.endpoints@.len() implies after.root.bindings@.contains(
            Some(after.router.endpoints@[j].token),
        ) by {
            let token = before.router.endpoints@[j].token;
            let i = choose|i: int|
                0 <= i < before.root.bindings@.len() && before.root.bindings@[i] == Some(token);
            assert(after.root.bindings@[i] == Some(after.router.endpoints@[j].token));
        }
        assert forall|i: int, j: int|
            #![trigger after.root.bindings@[i], after.root.bindings@[j]]
            0 <= i < j < after.root.bindings@.len() && after.root.bindings@[i] is Some
                && after.root.bindings@[j] is Some implies after.root.bindings@[i]->0.device
            != after.root.bindings@[j]->0.device by {
            assert(before.root.bindings@[i] is Some && before.root.bindings@[j] is Some);
        }
    }
}

/// A token that begins a pair is replaced with the second of such a pair.
pub proof fn lemma_replaced_token(
    replacements: Seq<(EndpointRouteToken, EndpointRouteToken)>,
    token: EndpointRouteToken,
    from: nat,
    j: nat,
)
    requires
        from <= j < replacements.len(),
        replacements[j as int].0 == token,
    ensures
        exists|k: int|
            0 <= k < replacements.len() && #[trigger] replacements[k] == (
                token,
                replaced_token(replacements, token, from),
            ),
    decreases replacements.len() - from,
{
    if replacements[from as int].0 == token {
        assert(replacements[from as int] == (token, replaced_token(replacements, token, from)));
    } else {
        lemma_replaced_token(replacements, token, from + 1, j);
    }
}

/// Closing all barriers closes every endpoint.
pub proof fn lemma_barriers_closed<F>(
    router: EndpointRouter<F>,
    before: Seq<EndpointAdmission>,
    admissions: EndpointAdmissions,
)
    requires
        router.wf(admissions),
        barriers_set(router.endpoints@, before, admissions.entries@, false),
    ensures
        all_closed(router, admissions),
{
    assert forall|i: int|
        #![trigger router.endpoints@[i]]
        0 <= i < router.endpoints@.len() implies !admissions.at(
        router.endpoints@[i].token.admission,
    ).open by {
        let k = router.endpoints@[i].token.admission.0 as int;
        assert(is_routed(router.endpoints@, k));
        assert(admissions.entries@[k].open == false);
    }
}

/// Opening all barriers opens every endpoint.
pub proof fn lemma_barriers_opened<F>(
    router: EndpointRouter<F>,
    before: Seq<EndpointAdmission>,
    admissions: EndpointAdmissions,
)
    requires
        router.wf(admissions),
        barriers_set(router.endpoints@, before, admissions.entries@, true),
    ensures
        all_open(router, admissions),
{
    assert forall|i: int|
        #![trigger router.endpoints@[i]]
        0 <= i < router.endpoints@.len() implies admissions.at(
        router.endpoints@[i].token.admission,
    ).open by {
        let k = router.endpoints@[i].token.admission.0 as int;
        assert(is_routed(router.endpoints@, k));
        assert(admissions.entries@[k].open);
    }
}

/// What is closed stays closed while endpoints are only taken away.
pub proof fn lemma_stays_closed<F>(
    before: EndpointRouter<F>,
    after: EndpointRouter<F>,
    old_admissions: EndpointAdmissions,
    new_admissions: EndpointAdmissions,
)
    requires
        all_closed(before, old_admissions),
        before.wf(old_admissions),
        only_closes(old_admissions.entries@, new_admissions.entries@),
        forall|i: int|
            #![trigger after.endpoints@[i]]
            0 <= i < after.endpoints@.len() ==> before.endpoints@.contains(after.endpoints@[i]),
    ensures
        all_closed(after, new_admissions),
{
    assert forall|i: int|
        #![trigger after.endpoints@[i]]
        0 <= i < after.endpoints@.len() implies !new_admissions.at(
        after.endpoints@[i].token.admission,
    ).open by {
        assert(before.endpoints@.contains(after.endpoints@[i]));
        let k = choose|k: int|
            0 <= k < before.endpoints@.len() && before.endpoints@[k] == after.endpoints@[i];
        assert(old_admissions.has(before.endpoints@[k].token.admission));
        let at = after.endpoints@[i].token.admission.0 as int;
        assert(new_admissions.entries@[at] == new_admissions.entries@[at]);
    }
}

/// The devices of the bound ones of the first `count` functions.
pub open spec fn bound_devices(bindings: Seq<Option<EndpointRouteToken>>, count: int) -> Seq<
    DeviceId,
>
    decreases count,
{
    if count <= 0 {
        Seq::empty()
    } else {
        let rest = bound_devices(bindings, count - 1);
        match bindings[count - 1] {
            Some(token) => rest.push(token.device),
            None => rest,
        }
    }
}

/// Bound devices are those of the tokens, once each where no two functions share
/// one, and as many as there are commands for.
pub proof fn lemma_bound_devices(
    functions: Seq<crate::pci::config::FunctionState>,
    bindings: Seq<Option<EndpointRouteToken>>,
    count: int,
)
    requires
        0 <= count <= bindings.len(),
        forall|i: int, j: int|
            #![trigger bindings[i], bindings[j]]
            0 <= i < j < bindings.len() && bindings[i] is Some && bindings[j] is Some
                ==> bindings[i]->0.device != bindings[j]->0.device,
    ensures
        bound_devices(bindings, count).len() == bound_commands(functions, bindings, count).len(),
        bound_devices(bindings, count).no_duplicates(),
        forall|device: DeviceId| #[trigger]
            bound_devices(bindings, count).contains(device) <==> has_bound_device(
                bindings,
                count,
                device,
            ),
    decreases count,
{
    if count > 0 {
        lemma_bound_devices(functions, bindings, count - 1);
        let rest = bound_devices(bindings, count - 1);
        let all = bound_devices(bindings, count);
        let last = bindings[count - 1];
        if last is Some {
            let device = last->0.device;
            assert(!rest.contains(device)) by {
                if rest.contains(device) {
                    assert(has_bound_device(bindings, count - 1, device));
                    let i = choose|i: int|
                        #![trigger bindings[i]]
                        0 <= i < count - 1 && bindings[i] is Some && bindings[i]->0.device
                            == device;
                    assert(bindings[i]->0.device != bindings[count - 1]->0.device);
                }
            }
        }
        assert forall|device: DeviceId| #[trigger]
            all.contains(device) <==> has_bound_device(bindings, count, device) by {
            if has_bound_device(bindings, count, device) {
                let i = choose|i: int|
                    #![trigger bindings[i]]
                    0 <= i < count && bindings[i] is Some && bindings[i]->0.device == device;
                if i == count - 1 {
                    assert(all[rest.len() as int] == device);
                } else {
                    assert(has_bound_device(bindings, count - 1, device));
                    assert(rest.contains(device));
                    let k = choose|k: int| 0 <= k < rest.len() && rest[k] == device;
                    assert(all[k] == device);
                }
            }
            if all.contains(device) {
                let k = choose|k: int| 0 <= k < all.len() && all[k] == device;
                if last is Some && k == rest.len() {
                    assert(bindings[count - 1]->0.device == device);
                } else {
                    assert(rest[k] == device);
                    assert(rest.contains(device));
                    assert(has_bound_device(bindings, count - 1, device));
                    let i = choose|i: int|
                        #![trigger bindings[i]]
                        0 <= i < count - 1 && bindings[i] is Some && bindings[i]->0.device
                            == device;
                    assert(bindings[i]->0.device == device);
                }
            }
        }
    }
}

/// Whether one of the first `count` functions is bound to `device`.
pub open spec fn has_bound_device(
    bindings: Seq<Option<EndpointRouteToken>>,
    count: int,
    device: DeviceId,
) -> bool {
    exists|i: int|
        #![trigger bindings[i]]
        0 <= i < count && bindings[i] is Some && bindings[i]->0.device == device
}

/// A root and a router that agree have one command for each endpoint.
pub proof fn lemma_commands_match_endpoints<F>(
    binding: PciRootBinding<F>,
    admissions: EndpointAdmissions,
    functions: Seq<crate::pci::config::FunctionState>,
)
    requires
        binding.router.wf(admissions),
        binding.routes_agree(),
    ensures
        bound_commands(
            functions,
            binding.root.bindings@,
            binding.root.bindings@.len() as int,
        ).len() == binding.router.endpoints@.len(),
{
    let bindings = binding.root.bindings@;
    let endpoints = binding.router.endpoints@;
    let bound = bound_devices(bindings, bindings.len() as int);
    let routed = Seq::new(endpoints.len(), |j: int| endpoints[j].token.device);
    lemma_bound_devices(functions, bindings, bindings.len() as int);
    assert(routed.no_duplicates()) by {
        assert forall|i: int, j: int|
            0 <= i < routed.len() && 0 <= j < routed.len() && i != j implies routed[i]
            != routed[j] by {
            if i < j {
                assert(endpoints[i].token.device.0 < endpoints[j].token.device.0);
            } else {
                assert(endpoints[j].token.device.0 < endpoints[i].token.device.0);
            }
        }
    }
    assert(bound.to_set() =~= routed.to_set()) by {
        assert forall|device: DeviceId|
            bound.to_set().contains(device) <==> routed.to_set().contains(device) by {
            if bound.contains(device) {
                assert(has_bound_device(bindings, bindings.len() as int, device));
                let i = choose|i: int|
                    #![trigger bindings[i]]
                    0 <= i < bindings.len() && bindings[i] is Some && bindings[i]->0.device
                        == device;
                assert(binding.router.has_token(bindings[i]->0));
                let j = choose|j: int|
                    #![trigger endpoints[j]]
                    0 <= j < endpoints.len() && endpoints[j].token == bindings[i]->0;
                assert(routed[j] == device);
            }
            if routed.contains(device) {
                let j = choose|j: int| 0 <= j < routed.len() && routed[j] == device;
                assert(bindings.contains(Some(endpoints[j].token)));
                let i = choose|i: int|
                    0 <= i < bindings.len() && bindings[i] == Some(endpoints[j].token);
                assert(bindings[i]->0.device == device);
                assert(has_bound_device(bindings, bindings.len() as int, device));
                assert(bound.contains(device));
            }
        }
    }
    bound.unique_seq_to_set();
    routed.unique_seq_to_set();
}

/// Whether endpoints of a kind never fail a reset nor the withdrawal of their interrupt.
pub open spec fn resets_reliably<F: PciFunction>() -> bool {
    &&& forall|call: &mut F, command: PciCommandState, said: DeviceResult<()>| #[trigger]
        says_reset(call, command, said) ==> said is Ok
    &&& forall|call: &mut F, said: DeviceResult<()>| #[trigger]
        says_withdrawal(call, said) ==> said is Ok
}

/// Endpoints that never fail have no first error.
pub proof fn lemma_reliable_outcomes<F: PciFunction>(
    resets: Seq<Option<&mut F>>,
    withdrawals: Seq<Option<&mut F>>,
    states: Seq<Seq<RoutedEndpoint<F>>>,
    commands: Seq<(DeviceId, PciCommandState)>,
    told: Seq<F>,
    outcomes: Seq<(DeviceResult<()>, DeviceResult<()>)>,
    count: int,
)
    requires
        resets_reliably::<F>(),
        0 <= count <= commands.len(),
        are_resets(
            resets,
            withdrawals,
            states,
            commands,
            told,
            outcomes,
            commands.len() as int,
        ),
    ensures
        first_error(outcomes, count) is Ok,
    decreases count,
{
    if count > 0 {
        lemma_reliable_outcomes(
            resets,
            withdrawals,
            states,
            commands,
            told,
            outcomes,
            count - 1,
        );
        let k = count - 1;
        assert(is_reset_step(
            resets[k],
            withdrawals[k],
            states[k],
            states[k + 1],
            commands[k].0,
            commands[k].1,
            told[k],
            outcomes[k],
        ));
    }
}

/// A reset succeeds when root and router agree, no endpoint is in its last epoch,
/// nothing is inside an admission, and endpoints do not fail.
pub proof fn law_reset_of_reliable_endpoints_succeeds<F: PciFunction>(
    resets: Seq<Option<&mut F>>,
    withdrawals: Seq<Option<&mut F>>,
    before: PciRootBinding<F>,
    rotated: Seq<RoutedEndpoint<F>>,
    after: PciRootBinding<F>,
    old_admissions: EndpointAdmissions,
    new_admissions: EndpointAdmissions,
    replacements: Seq<(EndpointRouteToken, EndpointRouteToken)>,
    told: Seq<F>,
    result: DeviceManagerResult<()>,
)
    requires
        before.wf(old_admissions),
        before.routes_agree(),
        !has_last_epoch(before.router.endpoints@),
        all_idle(before.router.endpoints@, old_admissions),
        resets_reliably::<F>(),
        is_reset_of_routes(
            resets,
            withdrawals,
            before,
            rotated,
            after,
            old_admissions,
            new_admissions,
            replacements,
            told,
            result,
        ),
    ensures
        result is Ok,
{
    lemma_commands_match_endpoints(before, old_admissions, after.root.functions@);
    let commands = bound_commands(
        after.root.functions@,
        before.root.bindings@,
        before.root.bindings@.len() as int,
    );
    let (states, outcomes) = choose|
        states: Seq<Seq<RoutedEndpoint<F>>>,
        outcomes: Seq<(DeviceResult<()>, DeviceResult<()>)>,
    |
        #[trigger] are_resets(
            resets,
            withdrawals,
            states,
            commands,
            told,
            outcomes,
            commands.len() as int,
        ) && result == first_error(outcomes, commands.len() as int);
    lemma_reliable_outcomes(
        resets,
        withdrawals,
        states,
        commands,
        told,
        outcomes,
        commands.len() as int,
    );
}

} // verus!
