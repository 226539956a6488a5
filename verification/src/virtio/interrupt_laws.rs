//! What the interrupt bits of a VirtIO PCI function make of its line.

#[allow(unused_imports)]
use crate::virtio::interrupt::{InterruptTransition, LineLevel, VirtioPciInterruptCoordinator};
use vstd::prelude::*;

verus! {

/// Whether `transition` is the one that a line at `line` needs, where `raised` says whether it ought
/// to be high: up if it is not known to be high and ought to be, down if it is not known to be low and
/// ought not to be.
pub open spec fn is_needed(
    line: LineLevel,
    raised: bool,
    transition: InterruptTransition,
) -> bool {
    &&& transition is Assert <==> raised && !(line is High)
    &&& transition is Deassert <==> !raised && !(line is Low)
}

/// Whether a coordinator handed out the transition that its line needs: nothing while another one is
/// with an endpoint, and what it handed out is then with one.
pub open spec fn hands_out(
    before: VirtioPciInterruptCoordinator,
    after: VirtioPciInterruptCoordinator,
    transition: InterruptTransition,
) -> bool {
    &&& after.line == before.line
    &&& !(before.in_flight is Unchanged) ==> transition is Unchanged && after.in_flight
        == before.in_flight
    &&& before.in_flight is Unchanged ==> is_needed(
        before.line,
        after.pending != 0 && !after.disabled,
        transition,
    ) && after.in_flight == transition
}

/// The bits of the interrupt status: bit 0 for used buffers, bit 1 for a changed configuration.
proof fn lemma_status_bits(pending: u8)
    by (bit_vector)
    ensures
        (pending | 1) & 1 == 1,
        (pending | 1) & 0xfe == pending & 0xfe,
        (pending | 2) & 2 == 2,
        (pending | 2) & 0xfd == pending & 0xfd,
        (pending | 1) != 0,
        (pending | 2) != 0,
{
}

/// Used buffers set bit 0 where the driver asked for it, and the line follows.
pub proof fn law_completion_sets_the_queue_bit(
    coordinator: &mut VirtioPciInterruptCoordinator,
    notify: bool,
    transition: InterruptTransition,
)
    requires
        call_ensures(
            VirtioPciInterruptCoordinator::record_queue_completion,
            (coordinator, notify),
            transition,
        ),
    ensures
        notify ==> final(coordinator).pending & 1 == 1,
        final(coordinator).pending & 0xfe == old(coordinator).pending & 0xfe,
        !notify ==> final(coordinator).pending == old(coordinator).pending,
        final(coordinator).disabled == old(coordinator).disabled,
        hands_out(*old(coordinator), *final(coordinator), transition),
{
    lemma_status_bits(old(coordinator).pending);
}

/// A changed configuration sets bit 1, and the line follows.
pub proof fn law_config_change_sets_the_config_bit(
    coordinator: &mut VirtioPciInterruptCoordinator,
    transition: InterruptTransition,
)
    requires
        call_ensures(
            VirtioPciInterruptCoordinator::record_config_change,
            (coordinator,),
            transition,
        ),
    ensures
        final(coordinator).pending & 2 == 2,
        final(coordinator).pending & 0xfd == old(coordinator).pending & 0xfd,
        final(coordinator).disabled == old(coordinator).disabled,
        hands_out(*old(coordinator), *final(coordinator), transition),
{
    lemma_status_bits(old(coordinator).pending);
}

/// Reading the interrupt status gives the bits and clears them, and the line follows.
pub proof fn law_status_read_clears(
    coordinator: &mut VirtioPciInterruptCoordinator,
    value: u8,
    transition: InterruptTransition,
)
    requires
        call_ensures(
            VirtioPciInterruptCoordinator::read_isr,
            (coordinator,),
            (value, transition),
        ),
    ensures
        value == old(coordinator).pending,
        final(coordinator).pending == 0,
        final(coordinator).disabled == old(coordinator).disabled,
        hands_out(*old(coordinator), *final(coordinator), transition),
        old(coordinator).line is High && old(coordinator).in_flight is Unchanged
            ==> transition is Deassert,
{
}

/// Disabling the line holds it low whatever the bits say, without losing them; enabling it lets them
/// raise it.
pub proof fn law_disable_holds_the_line_low(
    coordinator: &mut VirtioPciInterruptCoordinator,
    disabled: bool,
    transition: InterruptTransition,
)
    requires
        call_ensures(
            VirtioPciInterruptCoordinator::set_disabled,
            (coordinator, disabled),
            transition,
        ),
    ensures
        final(coordinator).disabled == disabled,
        final(coordinator).pending == old(coordinator).pending,
        hands_out(*old(coordinator), *final(coordinator), transition),
        disabled ==> !(transition is Assert),
        !disabled && old(coordinator).pending == 0 ==> !(transition is Assert),
{
}

/// A performed transition puts the line where it led; the next one is handed out if the bits have
/// changed their mind. A transition that is not with an endpoint changes nothing.
pub proof fn law_performed_transition_moves_the_line(
    coordinator: &mut VirtioPciInterruptCoordinator,
    transition: InterruptTransition,
    next: InterruptTransition,
)
    requires
        call_ensures(
            VirtioPciInterruptCoordinator::complete_transition,
            (coordinator, transition, true),
            next,
        ),
    ensures
        final(coordinator).pending == old(coordinator).pending,
        final(coordinator).disabled == old(coordinator).disabled,
        ({
            let owned = !(transition is Unchanged) && old(coordinator).in_flight == transition;
            &&& !owned ==> *final(coordinator) == *old(coordinator) && next is Unchanged
            &&& owned && transition is Assert ==> final(coordinator).line is High
            &&& owned && transition is Deassert ==> final(coordinator).line is Low
            &&& owned ==> is_needed(
                final(coordinator).line,
                final(coordinator).pending != 0 && !final(coordinator).disabled,
                next,
            ) && final(coordinator).in_flight == next
        }),
{
}

/// After a transition that failed the line is not known, nothing is with an endpoint, and nothing is
/// handed out until something changes.
pub proof fn law_failed_transition_leaves_the_line_unknown(
    coordinator: &mut VirtioPciInterruptCoordinator,
    transition: InterruptTransition,
    next: InterruptTransition,
)
    requires
        call_ensures(
            VirtioPciInterruptCoordinator::complete_transition,
            (coordinator, transition, false),
            next,
        ),
    ensures
        next is Unchanged,
        final(coordinator).pending == old(coordinator).pending,
        final(coordinator).disabled == old(coordinator).disabled,
        !(transition is Unchanged) && old(coordinator).in_flight == transition ==> final(coordinator).line is Unknown && final(coordinator).in_flight is Unchanged,
        transition is Unchanged || old(coordinator).in_flight != transition ==> *final(coordinator)
            == *old(coordinator),
{
}

/// A transition that was not performed leaves the line where it was; the same one is not handed out
/// again at once, another one is.
pub proof fn law_suppressed_transition_leaves_the_line(
    coordinator: &mut VirtioPciInterruptCoordinator,
    transition: InterruptTransition,
    next: InterruptTransition,
)
    requires
        call_ensures(
            VirtioPciInterruptCoordinator::suppress_queue_completion,
            (coordinator, transition),
            next,
        ),
    ensures
        final(coordinator).pending == old(coordinator).pending,
        final(coordinator).disabled == old(coordinator).disabled,
        final(coordinator).line == old(coordinator).line,
        ({
            let owned = !(transition is Unchanged) && old(coordinator).in_flight == transition;
            let raised = old(coordinator).pending != 0 && !old(coordinator).disabled;
            &&& !owned ==> final(coordinator).in_flight == old(coordinator).in_flight
                && next is Unchanged
            &&& owned ==> next != transition && final(coordinator).in_flight == next
            &&& owned && !is_needed(old(coordinator).line, raised, transition) ==> is_needed(
                old(coordinator).line,
                raised,
                next,
            )
        }),
{
}

/// A cancelled transition is no longer with an endpoint; nothing else changes.
pub proof fn law_cancelled_transition_is_taken_back(
    coordinator: &mut VirtioPciInterruptCoordinator,
    transition: InterruptTransition,
)
    requires
        call_ensures(
            VirtioPciInterruptCoordinator::cancel_transition,
            (coordinator, transition),
            (),
        ),
    ensures
        old(coordinator).in_flight == transition ==> final(coordinator).in_flight is Unchanged,
        old(coordinator).in_flight != transition ==> final(coordinator).in_flight == old(coordinator).in_flight,
        final(coordinator).pending == old(coordinator).pending,
        final(coordinator).disabled == old(coordinator).disabled,
        final(coordinator).line == old(coordinator).line,
{
}

/// A reset clears the bits and lowers the line, unless it is known to be low; a transition that is
/// with an endpoint is forgotten, and the line with it.
pub proof fn law_reset_lowers_and_forgets(
    coordinator: &mut VirtioPciInterruptCoordinator,
    transition: InterruptTransition,
)
    requires
        call_ensures(VirtioPciInterruptCoordinator::reset, (coordinator,), transition),
    ensures
        final(coordinator).pending == 0,
        final(coordinator).disabled == old(coordinator).disabled,
        transition is Unchanged <==> old(coordinator).line is Low && old(coordinator).in_flight is Unchanged,
        !(transition is Assert),
        final(coordinator).in_flight == transition,
        old(coordinator).in_flight is Unchanged ==> final(coordinator).line == old(coordinator).line,
        !(old(coordinator).in_flight is Unchanged) ==> final(coordinator).line is Unknown,
{
}

/// A function starts with nothing raised, its line low and enabled, and nothing with an endpoint.
pub proof fn law_line_starts_low(coordinator: VirtioPciInterruptCoordinator, pending: bool)
    requires
        call_ensures(VirtioPciInterruptCoordinator::new, (), coordinator),
        call_ensures(VirtioPciInterruptCoordinator::is_pending, (&coordinator,), pending),
    ensures
        coordinator.pending == 0,
        !coordinator.disabled,
        coordinator.line is Low,
        coordinator.in_flight is Unchanged,
        !pending,
{
}

/// An interrupt is raised, seen and lowered again: used buffers raise a low line, performing that
/// makes it high, and reading the status asks for it to be lowered.
pub proof fn law_interrupt_goes_up_and_down(
    completed: &mut VirtioPciInterruptCoordinator,
    raised: &mut VirtioPciInterruptCoordinator,
    read: &mut VirtioPciInterruptCoordinator,
    up: InterruptTransition,
    after_up: InterruptTransition,
    value: u8,
    down: InterruptTransition,
)
    requires
        old(completed).line is Low,
        old(completed).in_flight is Unchanged,
        !old(completed).disabled,
        call_ensures(
            VirtioPciInterruptCoordinator::record_queue_completion,
            (completed, true),
            up,
        ),
        *old(raised) == *final(completed),
        call_ensures(
            VirtioPciInterruptCoordinator::complete_transition,
            (raised, up, true),
            after_up,
        ),
        *old(read) == *final(raised),
        call_ensures(VirtioPciInterruptCoordinator::read_isr, (read,), (value, down)),
    ensures
        up is Assert,
        after_up is Unchanged,
        final(raised).line is High,
        value & 1 == 1,
        down is Deassert,
        final(read).pending == 0,
{
    lemma_status_bits(old(completed).pending);
}

} // verus!
