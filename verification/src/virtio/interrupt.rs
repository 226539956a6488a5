//! Interrupt line of a VirtIO PCI function.
//!
//! The coordinator keeps the guest-visible interrupt bits and what is known of the physical
//! line. It hands out one line transition at a time; whoever performs it reports back.

#[allow(unused_imports)]
use crate::calls::is_chain;
use vstd::prelude::*;

verus! {

/// Interrupt bit: a queue has used buffers.
pub const ISR_QUEUE: u8 = 1;

/// Interrupt bit: the device configuration changed.
pub const ISR_CONFIG: u8 = 2;

/// Change of the physical interrupt line that an endpoint has to perform.
#[derive(Clone, Copy, Debug, PartialEq, Eq, Structural)]
pub enum InterruptTransition {
    /// Leave the line alone.
    Unchanged,
    /// Raise the line.
    Assert,
    /// Lower the line.
    Deassert,
}

/// What is known of the physical line.
#[derive(Clone, Copy, Debug, PartialEq, Eq, Structural)]
pub enum LineLevel {
    /// The line is low.
    Low,
    /// The line is high.
    High,
    /// A transition failed, so the level is not known.
    Unknown,
}

/// Result of attempting to publish one transition.
#[derive(Clone, Copy, Debug, PartialEq, Eq, Structural)]
pub enum InterruptPublication {
    /// The endpoint IRQ permit was acquired and the line operation succeeded.
    Published,
    /// The binding or queue generation was stale; suppress this completion.
    Suppressed,
    /// The line operation failed after admission.
    Failed,
}

/// Performs line transitions for the transport.
pub trait InterruptPublisher {
    /// Attempts to perform `transition`.
    fn publish_transition(&mut self, transition: InterruptTransition) -> InterruptPublication;
}

/// Interrupt bits and line of one VirtIO PCI function.
#[derive(Clone, Copy, Debug, PartialEq, Eq, Structural)]
pub struct VirtioPciInterruptCoordinator {
    /// Bits that the guest has yet to read.
    pub pending: u8,
    /// Whether the guest has disabled the interrupt line.
    pub disabled: bool,
    /// What is known of the line.
    pub line: LineLevel,
    /// Transition that is with an endpoint.
    pub in_flight: InterruptTransition,
}

/// The level that a transition leads to.
pub open spec fn level_after(transition: InterruptTransition) -> LineLevel {
    match transition {
        InterruptTransition::Assert => LineLevel::High,
        InterruptTransition::Deassert => LineLevel::Low,
        InterruptTransition::Unchanged => LineLevel::Unknown,
    }
}

impl VirtioPciInterruptCoordinator {
    /// The coordinator of a function that has raised nothing.
    pub open spec fn idle() -> VirtioPciInterruptCoordinator {
        VirtioPciInterruptCoordinator {
            pending: 0,
            disabled: false,
            line: LineLevel::Low,
            in_flight: InterruptTransition::Unchanged,
        }
    }

    /// This coordinator with the line enabled or disabled.
    pub open spec fn switched(self, disabled: bool) -> VirtioPciInterruptCoordinator {
        VirtioPciInterruptCoordinator { disabled, ..self }
    }

    /// The level that the line ought to have.
    pub open spec fn desired(self) -> LineLevel {
        if self.pending != 0 && !self.disabled {
            LineLevel::High
        } else {
            LineLevel::Low
        }
    }

    /// The transition that the line needs, where none is with an endpoint.
    pub open spec fn needed(self) -> InterruptTransition {
        if self.line == self.desired() {
            InterruptTransition::Unchanged
        } else if self.desired() == LineLevel::High {
            InterruptTransition::Assert
        } else {
            InterruptTransition::Deassert
        }
    }

    /// The transition that is handed out next.
    pub open spec fn next(self) -> InterruptTransition {
        if self.in_flight != InterruptTransition::Unchanged {
            InterruptTransition::Unchanged
        } else {
            self.needed()
        }
    }

    /// This coordinator after it handed out its next transition.
    pub open spec fn started(self) -> VirtioPciInterruptCoordinator {
        if self.in_flight != InterruptTransition::Unchanged {
            self
        } else {
            VirtioPciInterruptCoordinator { in_flight: self.needed(), ..self }
        }
    }

    /// Whether `transition` is the one with an endpoint.
    pub open spec fn owns(self, transition: InterruptTransition) -> bool {
        transition != InterruptTransition::Unchanged && self.in_flight == transition
    }

    /// This coordinator once `transition` has come back with the given success.
    pub open spec fn settled(self, transition: InterruptTransition, success: bool) -> Self {
        VirtioPciInterruptCoordinator {
            line: if success {
                level_after(transition)
            } else {
                LineLevel::Unknown
            },
            in_flight: InterruptTransition::Unchanged,
            ..self
        }
    }

    /// This coordinator with no transition with an endpoint.
    pub open spec fn withdrawn(self) -> Self {
        VirtioPciInterruptCoordinator { in_flight: InterruptTransition::Unchanged, ..self }
    }

    /// What reporting a publication leads to: the coordinator, and the transition that follows.
    pub open spec fn reported(
        self,
        transition: InterruptTransition,
        publication: InterruptPublication,
    ) -> (VirtioPciInterruptCoordinator, InterruptTransition) {
        if !self.owns(transition) {
            (self, InterruptTransition::Unchanged)
        } else {
            match publication {
                InterruptPublication::Published => {
                    let settled = self.settled(transition, true);
                    (settled.started(), settled.next())
                },
                InterruptPublication::Suppressed => {
                    let withdrawn = self.withdrawn();
                    if withdrawn.next() == transition {
                        (withdrawn, InterruptTransition::Unchanged)
                    } else {
                        (withdrawn.started(), withdrawn.next())
                    }
                },
                InterruptPublication::Failed => {
                    (self.settled(transition, false), InterruptTransition::Unchanged)
                },
            }
        }
    }

    /// What a run of publications leads to: the coordinator, and the transition that is left.
    pub open spec fn after_reports(
        self,
        transition: InterruptTransition,
        publications: Seq<InterruptPublication>,
    ) -> (VirtioPciInterruptCoordinator, InterruptTransition)
        decreases publications.len(),
    {
        if publications.len() == 0 {
            (self, transition)
        } else {
            let (coordinator, left) = self.after_reports(transition, publications.drop_last());
            coordinator.reported(left, publications.last())
        }
    }

    /// This coordinator after a reset, before the transition that the reset needs is handed out.
    pub open spec fn cleared(self) -> Self {
        VirtioPciInterruptCoordinator {
            pending: 0,
            line: if self.in_flight == InterruptTransition::Unchanged {
                self.line
            } else {
                LineLevel::Unknown
            },
            in_flight: InterruptTransition::Unchanged,
            ..self
        }
    }

    /// Creates the coordinator of a function that has raised nothing.
    pub fn new() -> (coordinator: VirtioPciInterruptCoordinator)
        ensures
            coordinator == Self::idle(),
    {
        VirtioPciInterruptCoordinator {
            pending: 0,
            disabled: false,
            line: LineLevel::Low,
            in_flight: InterruptTransition::Unchanged,
        }
    }

    /// Hands out the transition that the line needs, unless one is with an endpoint.
    pub fn start(&mut self) -> (transition: InterruptTransition)
        ensures
            transition == old(self).next(),
            *final(self) == old(self).started(),
    {
        if self.in_flight != InterruptTransition::Unchanged {
            return InterruptTransition::Unchanged;
        }
        let high = self.pending != 0 && !self.disabled;
        if high && self.line != LineLevel::High {
            self.in_flight = InterruptTransition::Assert;
        } else if !high && self.line != LineLevel::Low {
            self.in_flight = InterruptTransition::Deassert;
        }
        self.in_flight
    }

    /// Returns whether an interrupt bit is set, whatever the line does.
    pub fn is_pending(&self) -> (pending: bool)
        ensures
            pending == (self.pending != 0),
    {
        self.pending != 0
    }

    /// Records a queue completion, with an interrupt if the driver asked for one.
    pub fn record_queue_completion(&mut self, notify: bool) -> (transition: InterruptTransition)
        ensures
            ({
                let raised = VirtioPciInterruptCoordinator {
                    pending: if notify {
                        old(self).pending | ISR_QUEUE
                    } else {
                        old(self).pending
                    },
                    ..*old(self)
                };
                &&& transition == raised.next()
                &&& *final(self) == raised.started()
            }),
    {
        if notify {
            self.pending = self.pending | ISR_QUEUE;
        }
        self.start()
    }

    /// Records a configuration change.
    pub fn record_config_change(&mut self) -> (transition: InterruptTransition)
        ensures
            ({
                let raised = VirtioPciInterruptCoordinator {
                    pending: old(self).pending | ISR_CONFIG,
                    ..*old(self)
                };
                &&& transition == raised.next()
                &&& *final(self) == raised.started()
            }),
    {
        self.pending = self.pending | ISR_CONFIG;
        self.start()
    }

    /// Reads the interrupt bits, which clears them.
    pub fn read_isr(&mut self) -> (result: (u8, InterruptTransition))
        ensures
            result.0 == old(self).pending,
            ({
                let read = VirtioPciInterruptCoordinator { pending: 0, ..*old(self) };
                &&& result.1 == read.next()
                &&& *final(self) == read.started()
            }),
    {
        let value: u8 = self.pending;
        self.pending = 0;
        let transition = self.start();
        (value, transition)
    }

    /// Enables or disables the interrupt line.
    pub fn set_disabled(&mut self, disabled: bool) -> (transition: InterruptTransition)
        ensures
            ({
                let switched = VirtioPciInterruptCoordinator { disabled, ..*old(self) };
                &&& transition == switched.next()
                &&& *final(self) == switched.started()
            }),
    {
        self.disabled = disabled;
        self.start()
    }

    /// Takes back a transition that was performed or failed, and hands out the one that follows a
    /// success. A transition that is not with an endpoint is passed over.
    pub fn complete_transition(&mut self, transition: InterruptTransition, success: bool) -> (next:
        InterruptTransition)
        ensures
            (*final(self), next) == old(self).reported(
                transition,
                if success {
                    InterruptPublication::Published
                } else {
                    InterruptPublication::Failed
                },
            ),
    {
        if transition == InterruptTransition::Unchanged || self.in_flight != transition {
            return InterruptTransition::Unchanged;
        }
        self.in_flight = InterruptTransition::Unchanged;
        if !success {
            self.line = LineLevel::Unknown;
            return InterruptTransition::Unchanged;
        }
        self.line = if transition == InterruptTransition::Assert {
            LineLevel::High
        } else {
            LineLevel::Low
        };
        self.start()
    }

    /// Takes back a transition that was not performed, and hands out another if the line needs
    /// another by now.
    pub fn suppress_queue_completion(&mut self, transition: InterruptTransition) -> (next:
        InterruptTransition)
        ensures
            (*final(self), next) == old(self).reported(
                transition,
                InterruptPublication::Suppressed,
            ),
    {
        if transition == InterruptTransition::Unchanged || self.in_flight != transition {
            return InterruptTransition::Unchanged;
        }
        self.in_flight = InterruptTransition::Unchanged;
        let next = self.start();
        if next == transition {
            self.in_flight = InterruptTransition::Unchanged;
            return InterruptTransition::Unchanged;
        }
        next
    }

    /// Takes back a transition whose owner went away.
    pub fn cancel_transition(&mut self, transition: InterruptTransition)
        ensures
            *final(self) == (if old(self).owns(transition) {
                old(self).withdrawn()
            } else {
                *old(self)
            }),
    {
        if transition != InterruptTransition::Unchanged && self.in_flight == transition {
            self.in_flight = InterruptTransition::Unchanged;
        }
    }

    /// Clears the interrupt bits and hands out the transition that lowers the line, unless it is
    /// known to be low.
    pub fn reset(&mut self) -> (transition: InterruptTransition)
        ensures
            transition == old(self).cleared().next(),
            *final(self) == old(self).cleared().started(),
    {
        if self.in_flight != InterruptTransition::Unchanged {
            self.line = LineLevel::Unknown;
        }
        self.in_flight = InterruptTransition::Unchanged;
        self.pending = 0;
        self.start()
    }

    /// Reports one publication and returns the transition that follows.
    pub fn report(
        &mut self,
        transition: InterruptTransition,
        publication: InterruptPublication,
    ) -> (next: InterruptTransition)
        ensures
            (*final(self), next) == old(self).reported(transition, publication),
    {
        match publication {
            InterruptPublication::Published => self.complete_transition(transition, true),
            InterruptPublication::Suppressed => self.suppress_queue_completion(transition),
            InterruptPublication::Failed => self.complete_transition(transition, false),
        }
    }

    /// Whether each of `calls` attempts the transition that the earlier ones lead to and is answered
    /// with its place in `publications`, and nothing is attempted once no transition is left.
    pub open spec fn are_publications<P: InterruptPublisher>(
        self,
        calls: Seq<&mut P>,
        transition: InterruptTransition,
        publications: Seq<InterruptPublication>,
    ) -> bool {
        &&& calls.len() == publications.len()
        &&& forall|k: int|
            #![trigger calls[k]]
            0 <= k < calls.len() ==> call_ensures(
                P::publish_transition,
                (calls[k], self.after_reports(transition, publications.take(k)).1),
                publications[k],
            )
        &&& forall|k: int|
            1 <= k < publications.len() ==> (#[trigger] self.after_reports(
                transition,
                publications.take(k),
            )).1 != InterruptTransition::Unchanged
    }

    /// How many more publications a transition can lead to.
    pub open spec fn publications_left(self, transition: InterruptTransition) -> nat {
        if !self.owns(transition) {
            1
        } else if level_after(transition) == self.desired() {
            2
        } else {
            3
        }
    }

    /// Publishes transitions until none is left.
    ///
    /// The publisher decides how each attempt ends. It is asked at least once, and no more than
    /// twice after the first attempt.
    pub fn publish<P: InterruptPublisher>(
        &mut self,
        transition: InterruptTransition,
        publisher: &mut P,
    )
        ensures
            exists|calls: Seq<&mut P>, states: Seq<P>|
                {
                    &&& #[trigger] is_chain(calls, states)
                    &&& states.first() == *old(publisher)
                    &&& states.last() == *final(publisher)
                    &&& forall|i: int|
                        0 <= i < calls.len() ==> *final(#[trigger] calls[i]) == states[i + 1]
                    &&& is_publication_end(calls, *old(self), transition, *final(self))
                },
    {
        let ghost mut publications: Seq<InterruptPublication> = Seq::empty();
        let mut current = transition;
        assert(is_chain(Seq::<&mut P>::empty(), seq![*publisher]));
        loop
            invariant_except_break
                exists|calls: Seq<&mut P>, states: Seq<P>|
                    {
                        &&& #[trigger] is_chain(calls, states)
                        &&& states.first() == *old(publisher)
                        &&& states.last() == *publisher
                        &&& forall|i: int|
                            0 <= i < calls.len() ==> *final(#[trigger] calls[i]) == states[i + 1]
                        &&& old(self).are_publications(calls, transition, publications)
                    },
                old(self).after_reports(transition, publications) == (*self, current),
                publications.len() > 0 ==> current != InterruptTransition::Unchanged,
                publications.len() + self.publications_left(current) <= old(
                    self,
                ).publications_left(transition),
            ensures
                exists|calls: Seq<&mut P>, states: Seq<P>|
                    {
                        &&& #[trigger] is_chain(calls, states)
                        &&& states.first() == *old(publisher)
                        &&& states.last() == *publisher
                        &&& forall|i: int|
                            0 <= i < calls.len() ==> *final(#[trigger] calls[i]) == states[i + 1]
                        &&& old(self).are_publications(calls, transition, publications)
                    },
                old(self).after_reports(transition, publications) == (
                    *self,
                    InterruptTransition::Unchanged,
                ),
                1 <= publications.len() <= old(self).publications_left(transition),
            decreases self.publications_left(current),
        {
            let ghost asked = *publisher;
            let publication = publisher.publish_transition(current);
            let ghost before = *self;
            let next = self.report(current, publication);
            proof {
                let (calls, states) = choose|calls: Seq<&mut P>, states: Seq<P>|
                    {
                        &&& #[trigger] is_chain(calls, states)
                        &&& states.first() == *old(publisher)
                        &&& states.last() == asked
                        &&& forall|i: int|
                            0 <= i < calls.len() ==> *final(#[trigger] calls[i]) == states[i + 1]
                        &&& old(self).are_publications(calls, transition, publications)
                    };
                let call = choose|call: &mut P|
                    {
                        &&& #[trigger] call_ensures(
                            P::publish_transition,
                            (call, current),
                            publication,
                        )
                        &&& *call == asked
                        &&& *final(call) == *publisher
                    };
                let longer = publications.push(publication);
                assert(longer.drop_last() =~= publications);
                assert forall|k: int| 0 <= k <= publications.len() implies #[trigger] longer.take(k)
                    == publications.take(k) by {
                    assert(longer.take(k) =~= publications.take(k));
                }
                assert(publications.take(publications.len() as int) =~= publications);
                assert(calls.push(call)[calls.len() as int] == call);
                assert(old(self).are_publications(calls.push(call), transition, longer));
                assert(is_chain(calls.push(call), states.push(*publisher)));
                publications = longer;
                law_publication_converges(before, current, publication);
            }
            if next == InterruptTransition::Unchanged {
                break;
            }
            current = next;
        }
        assert(old(self).after_reports(transition, publications) == (
            *self,
            InterruptTransition::Unchanged,
        ));
    }
}

/// Whether `calls` are a run of publications that takes the coordinator from `before` to `after`
/// and leaves no transition.
pub open spec fn is_publication_end<P: InterruptPublisher>(
    calls: Seq<&mut P>,
    before: VirtioPciInterruptCoordinator,
    transition: InterruptTransition,
    after: VirtioPciInterruptCoordinator,
) -> bool {
    exists|publications: Seq<InterruptPublication>|
        {
            &&& 1 <= publications.len() <= before.publications_left(transition)
            &&& #[trigger] before.after_reports(transition, publications) == (
                after,
                InterruptTransition::Unchanged,
            )
            &&& before.are_publications(calls, transition, publications)
        }
}

/// Each publication that leads to another one brings the line closer to the level that it ought
/// to have, so that a run of publications ends.
pub proof fn law_publication_converges(
    coordinator: VirtioPciInterruptCoordinator,
    transition: InterruptTransition,
    publication: InterruptPublication,
)
    ensures
        ({
            let (after, next) = coordinator.reported(transition, publication);
            &&& next != InterruptTransition::Unchanged ==> after.publications_left(next)
                < coordinator.publications_left(transition)
            &&& next != InterruptTransition::Unchanged ==> after.owns(next)
            &&& after.pending == coordinator.pending
            &&& after.disabled == coordinator.disabled
        }),
{
}

/// A published transition that the interrupt bits still ask for leaves the line where it ought to
/// be, and asks for nothing more.
pub proof fn law_published_line_is_settled(
    coordinator: VirtioPciInterruptCoordinator,
    transition: InterruptTransition,
)
    requires
        coordinator.owns(transition),
        level_after(transition) == coordinator.desired(),
    ensures
        ({
            let (after, next) = coordinator.reported(transition, InterruptPublication::Published);
            &&& next == InterruptTransition::Unchanged
            &&& after.line == after.desired()
            &&& after.next() == InterruptTransition::Unchanged
        }),
{
}

/// After a transition failed, the next change of the interrupt bits or of the disable flag is
/// answered with a transition again, whichever level it asks for.
pub proof fn law_failed_transition_is_retried(
    coordinator: VirtioPciInterruptCoordinator,
    transition: InterruptTransition,
    pending: u8,
    disabled: bool,
)
    requires
        coordinator.owns(transition),
    ensures
        ({
            let (after, next) = coordinator.reported(transition, InterruptPublication::Failed);
            let changed = VirtioPciInterruptCoordinator { pending, disabled, ..after };
            &&& next == InterruptTransition::Unchanged
            &&& after.line == LineLevel::Unknown
            &&& changed.next() != InterruptTransition::Unchanged
            &&& level_after(changed.next()) == changed.desired()
        }),
{
}

/// While a transition is with an endpoint, no other one is handed out.
pub proof fn law_one_transition_at_a_time(coordinator: VirtioPciInterruptCoordinator)
    requires
        coordinator.in_flight != InterruptTransition::Unchanged,
    ensures
        coordinator.next() == InterruptTransition::Unchanged,
        coordinator.started() == coordinator,
{
}

/// A reset lowers a line that is not known to be low, and leaves a low line alone.
pub proof fn law_reset_lowers_the_line(coordinator: VirtioPciInterruptCoordinator)
    ensures
        coordinator.cleared().started().pending == 0,
        coordinator.cleared().next() == (if coordinator.line == LineLevel::Low
            && coordinator.in_flight == InterruptTransition::Unchanged {
            InterruptTransition::Unchanged
        } else {
            InterruptTransition::Deassert
        }),
{
}

} // verus!
