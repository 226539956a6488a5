//! Who may reach an endpoint, and until when.

#[allow(unused_imports)]
use crate::access::{AccessWidth, DeviceError, DeviceId, DeviceManagerResult, DeviceResult};
#[allow(unused_imports)]
use crate::calls::is_chain;
#[allow(unused_imports)]
use crate::pci::binding::PciRootBinding;
#[allow(unused_imports)]
use crate::pci::config::PciCommandState;
#[allow(unused_imports)]
use crate::pci::dispatch::{
    answers_bar_read, answers_bar_write, answers_command, answers_read_effect, answers_status,
    answers_write_effect, is_visit, visit_bar_read, visit_bar_write, visit_command,
    visit_read_effect, visit_status, visit_write_effect,
};
#[allow(unused_imports)]
use crate::pci::effect::{PciBarAccess, PciConfigReadEffect, PciConfigWriteEffect};
#[allow(unused_imports)]
use crate::pci::endpoint::{
    says_command, says_read_bar, says_read_effect, says_write_bar, says_write_effect, DeviceContext,
    PciEndpointCallbacks, PciEndpointContext, PciFunction,
};
#[allow(unused_imports)]
use crate::pci::lifecycle::{
    BindingLifecycle, BindingLifecycleState, LifecycleCompletion, LifecycleOperation,
};
#[allow(unused_imports)]
use crate::pci::root::bar_serves;
#[allow(unused_imports)]
use crate::pci::route::BarDispatch;
#[allow(unused_imports)]
use crate::pci::router::{
    is_removal, is_routed, EndpointRouter, PendingIrqWithdrawal, RoutedEndpoint,
    RoutedEndpointLease,
};
#[allow(unused_imports)]
use crate::pci::routing::{
    AdmissionId, AdmissionLease, DrainBudget, DrainStep, EndpointAdmission, EndpointAdmissions,
    EndpointRouteToken, IrqPermitLease, RoutedDeviceGrant,
};
use vstd::prelude::*;

verus! {

/// A token is let in while its admission is open and of the token's own generation and epoch; each
/// that is let in is counted, and nothing else changes.
pub proof fn law_admission_takes_current_tokens(
    admission: &mut EndpointAdmission,
    token: EndpointRouteToken,
    result: DeviceResult<()>,
)
    requires
        call_ensures(EndpointAdmission::acquire, (admission, &token), result),
    ensures
        result is Ok <==> old(admission).open && token.binding_generation == old(
            admission).generation && token.admission_epoch == old(admission).epoch && old(
            admission).leases < usize::MAX,
        result is Ok ==> *final(admission) == (EndpointAdmission {
            leases: (old(admission).leases + 1) as usize,
            ..*old(admission)
        }),
        result is Err ==> *final(admission) == *old(admission),
{
}

/// An interrupt permit is given while the admission is open, and counted for itself.
pub proof fn law_permits_need_an_open_admission(
    admission: &mut EndpointAdmission,
    result: DeviceResult<()>,
)
    requires
        call_ensures(EndpointAdmission::acquire_irq_permit, (admission,), result),
    ensures
        result is Ok <==> old(admission).open && old(admission).permits < usize::MAX,
        result is Ok ==> *final(admission) == (EndpointAdmission {
            permits: (old(admission).permits + 1) as usize,
            ..*old(admission)
        }),
        result is Err ==> *final(admission) == *old(admission),
{
}

/// Leaving undoes entering: after a lease was taken and given back, every admission is as before.
pub proof fn law_leaving_undoes_entering(
    enter: &mut EndpointAdmissions,
    leave: &mut EndpointAdmissions,
    token: EndpointRouteToken,
    lease: AdmissionLease,
)
    requires
        old(enter).has(token.admission),
        call_ensures(EndpointAdmissions::acquire, (enter, &token), Ok(lease)),
        *old(leave) == *final(enter),
        call_ensures(EndpointAdmissions::release, (leave, lease), ()),
    ensures
        final(enter).entries@[token.admission.0 as int].leases == old(
            enter).entries@[token.admission.0 as int].leases + 1,
        final(leave).entries@ == old(enter).entries@,
{
    assert(final(leave).entries@ =~= old(enter).entries@);
}

/// The same of interrupt permits.
pub proof fn law_permits_are_given_back(
    enter: &mut EndpointAdmissions,
    leave: &mut EndpointAdmissions,
    id: AdmissionId,
    lease: IrqPermitLease,
)
    requires
        old(enter).has(id),
        call_ensures(EndpointAdmissions::acquire_irq_permit, (enter, id), Ok(lease)),
        *old(leave) == *final(enter),
        call_ensures(EndpointAdmissions::release_irq_permit, (leave, lease), ()),
    ensures
        final(enter).entries@[id.0 as int].permits == old(enter).entries@[id.0 as int].permits + 1,
        final(leave).entries@ == old(enter).entries@,
{
    assert(final(leave).entries@ =~= old(enter).entries@);
}

/// A closed admission lets nobody in until it is opened again, and keeps its counts.
pub proof fn law_closed_admission_lets_nobody_in(
    close: &mut EndpointAdmission,
    acquire: &mut EndpointAdmission,
    permit: &mut EndpointAdmission,
    token: EndpointRouteToken,
    result: DeviceResult<()>,
    permitted: DeviceResult<()>,
)
    requires
        call_ensures(EndpointAdmission::close, (close,), ()),
        *old(acquire) == *final(close),
        *old(permit) == *final(close),
        call_ensures(EndpointAdmission::acquire, (acquire, &token), result),
        call_ensures(EndpointAdmission::acquire_irq_permit, (permit,), permitted),
    ensures
        result is Err,
        permitted is Err,
        final(close).leases == old(close).leases,
        final(close).permits == old(close).permits,
        final(close).generation == old(close).generation,
        final(close).epoch == old(close).epoch,
{
}

/// Waiting ends as soon as nothing is inside; while something is, each look costs one of the
/// allowed ones, and with none left the wait is given up.
pub proof fn law_waiting_ends(budget: &mut DrainBudget, outstanding: usize, step: DrainStep)
    requires
        call_ensures(DrainBudget::observe, (budget, outstanding), step),
    ensures
        step is Drained <==> outstanding == 0,
        step is Retry <==> outstanding > 0 && old(budget).attempts > 0,
        step is Exhausted <==> outstanding > 0 && old(budget).attempts == 0,
        step is Retry ==> final(budget).attempts == old(budget).attempts - 1,
        !(step is Retry) ==> final(budget).attempts == old(budget).attempts,
{
}

/// An admission is idle with neither leases nor permits; its permits have drained without permits,
/// whatever its leases.
pub proof fn law_idle_means_nobody_inside(
    admission: EndpointAdmission,
    budget: &mut DrainBudget,
    other: &mut DrainBudget,
    idle: Option<DeviceManagerResult<()>>,
    drained: Option<DeviceManagerResult<()>>,
)
    requires
        call_ensures(EndpointAdmission::poll_idle, (&admission, budget), idle),
        call_ensures(EndpointAdmission::poll_irq_permits, (&admission, other), drained),
    ensures
        (idle matches Some(Ok(()))) <==> admission.leases == 0 && admission.permits == 0,
        (idle matches Some(Err(_))) <==> (admission.leases > 0 || admission.permits > 0) && old(
            budget).attempts == 0,
        (drained matches Some(Ok(()))) <==> admission.permits == 0,
        (drained matches Some(Err(_))) <==> admission.permits > 0 && old(other).attempts == 0,
{
}

/// A grant is good while the admission that it was given under is open.
pub proof fn law_grant_follows_its_admission(
    token: EndpointRouteToken,
    dma_enabled: bool,
    grant: RoutedDeviceGrant,
    admissions: EndpointAdmissions,
    open: bool,
)
    requires
        call_ensures(EndpointRouteToken::grant, (&token, dma_enabled), grant),
        call_ensures(RoutedDeviceGrant::admission_is_open, (&grant, &admissions), open),
    ensures
        grant.token == token,
        grant.dma_enabled == dma_enabled,
        open <==> token.admission.0 < admissions.entries@.len()
            && admissions.entries@[token.admission.0 as int].open,
{
}

/// A new route has a generation that no route had before, the first epoch, and an open admission of
/// its own with nobody inside; a device can have one route only.
pub proof fn law_new_route_is_its_own<F>(
    router: &mut EndpointRouter<F>,
    device: DeviceId,
    function: F,
    admissions: &mut EndpointAdmissions,
    result: DeviceManagerResult<EndpointRouteToken>,
    other: int,
)
    requires
        old(router).wf(*old(admissions)),
        call_ensures(
            EndpointRouter::<F>::activate,
            (router, device, function, admissions),
            result,
        ),
        0 <= other < old(router).endpoints@.len(),
    ensures
        old(router).endpoints@[other].token.device == device ==> result is Err,
        result is Err ==> final(router).endpoints@ == old(router).endpoints@ && final(
            admissions).entries@ == old(admissions).entries@,
        result matches Ok(token) ==> {
            let at = token.admission.0 as int;
            &&& token.device == device
            &&& token.binding_generation == old(router).next_generation + 1
            &&& token.binding_generation > old(router).endpoints@[other].token.binding_generation
            &&& token.admission_epoch == 1
            &&& at == old(admissions).entries@.len()
            &&& final(admissions).entries@.len() == at + 1
            &&& final(admissions).entries@[at] == (EndpointAdmission {
                generation: token.binding_generation,
                epoch: 1,
                open: true,
                leases: 0,
                permits: 0,
            })
            &&& final(router).endpoints@.len() == old(router).endpoints@.len() + 1
            &&& exists|i: int|
                #![trigger final(router).endpoints@[i]]
                0 <= i < final(router).endpoints@.len() && final(router).endpoints@[i].token
                    == token && final(router).endpoints@[i].function == function
            &&& exists|i: int|
                #![trigger final(router).endpoints@[i]]
                0 <= i < final(router).endpoints@.len() && final(router).endpoints@[i] == old(
                    router).endpoints@[other]
        },
{
    assert(old(router).endpoints@[other].token.binding_generation <= old(router).next_generation);
    if let Ok(token) = result {
        let entry = RoutedEndpoint { token, function };
        let at = choose|at: int|
            0 <= at <= old(router).endpoints@.len() && final(router).endpoints@
                == #[trigger] old(router).endpoints@.insert(at, entry);
        assert(final(router).endpoints@[at] == entry);
        if other < at {
            assert(final(router).endpoints@[other] == old(router).endpoints@[other]);
        } else {
            assert(final(router).endpoints@[other + 1] == old(router).endpoints@[other]);
        }
    }
}

/// A route that is taken out leads nowhere any more, its admission is closed, and every other route
/// and admission stays.
pub proof fn law_removed_route_leads_nowhere<F>(
    router: &mut EndpointRouter<F>,
    after: EndpointRouter<F>,
    device: DeviceId,
    admissions: &mut EndpointAdmissions,
    removed: RoutedEndpoint<F>,
    position: Option<usize>,
    other: int,
)
    requires
        old(router).wf(*old(admissions)),
        call_ensures(
            EndpointRouter::<F>::invalidate_device,
            (router, device, admissions),
            Some(removed),
        ),
        after == *final(router),
        call_ensures(EndpointRouter::<F>::position, (&after, device), position),
        0 <= other < old(admissions).entries@.len(),
    ensures
        removed.token.device == device,
        position is None,
        after.endpoints@.len() == old(router).endpoints@.len() - 1,
        !final(admissions).entries@[removed.token.admission.0 as int].open,
        other != removed.token.admission.0 ==> final(admissions).entries@[other] == old(
            admissions).entries@[other],
        final(admissions).entries@[other].leases == old(admissions).entries@[other].leases,
{
    let i = choose|i: int|
        #[trigger] is_removal(
            old(router).endpoints@,
            after.endpoints@,
            i,
            removed.token,
            removed.function,
        );
    assert(is_removal(
        old(router).endpoints@,
        after.endpoints@,
        i,
        removed.token,
        removed.function,
    ));
    if let Some(at) = position {
        let k = at as int;
        if k < i {
            assert(after.endpoints@[k] == old(router).endpoints@[k]);
            assert(old(router).endpoints@[k].token.device.0 < old(
                router).endpoints@[i].token.device.0);
        } else {
            assert(after.endpoints@[k] == old(router).endpoints@[k + 1]);
            assert(old(router).endpoints@[i].token.device.0 < old(router).endpoints@[k
                + 1].token.device.0);
        }
        assert(false);
    }
}

/// A dispatch needs a current token and an open admission; it is then counted inside, and acts with
/// the right to memory that it was given.
pub proof fn law_dispatch_needs_a_current_token<F>(
    router: EndpointRouter<F>,
    token: EndpointRouteToken,
    dma_enabled: bool,
    admissions: &mut EndpointAdmissions,
    result: DeviceResult<RoutedEndpointLease>,
)
    requires
        router.wf(*old(admissions)),
        call_ensures(
            EndpointRouter::<F>::lease,
            (&router, &token, dma_enabled, admissions),
            result,
        ),
    ensures
        result is Ok <==> {
            &&& exists|i: int|
                #![trigger router.endpoints@[i]]
                0 <= i < router.endpoints@.len() && router.endpoints@[i].token == token
            &&& old(admissions).entries@[token.admission.0 as int].open
            &&& old(admissions).entries@[token.admission.0 as int].leases < usize::MAX
        },
        result matches Ok(routed) ==> {
            &&& router.endpoints@[routed.position as int].token == token
            &&& routed.grant.token == token && routed.grant.dma_enabled == dma_enabled
            &&& routed.lease.admission == token.admission
            &&& final(admissions).entries@[token.admission.0 as int].leases == old(
                admissions).entries@[token.admission.0 as int].leases + 1
        },
        result is Err ==> final(admissions).entries@ == old(admissions).entries@,
{
}

/// A rotation closes the admission of every route and gives each route the next epoch with a new
/// admission, which stays closed until it is opened; who was inside stays counted in the old one.
pub proof fn law_rotation_moves_every_route_on<F>(
    router: &mut EndpointRouter<F>,
    admissions: &mut EndpointAdmissions,
    replacements: Vec<(EndpointRouteToken, EndpointRouteToken)>,
    i: int,
)
    requires
        old(router).wf(*old(admissions)),
        call_ensures(
            EndpointRouter::<F>::reset_admissions,
            (router, admissions),
            Ok(replacements),
        ),
        0 <= i < old(router).endpoints@.len(),
    ensures
        ({
            let before = old(router).endpoints@[i].token;
            let after = final(router).endpoints@[i].token;
            &&& final(router).endpoints@[i].function == old(router).endpoints@[i].function
            &&& after.device == before.device && after.binding_generation
                == before.binding_generation
            &&& before.admission_epoch < u64::MAX && after.admission_epoch == before.admission_epoch
                + 1
            &&& after.admission != before.admission
            &&& replacements@[i] == (before, after)
            &&& !final(admissions).entries@[before.admission.0 as int].open
            &&& final(admissions).entries@[before.admission.0 as int].leases == old(
                admissions).entries@[before.admission.0 as int].leases
            &&& !final(admissions).entries@[after.admission.0 as int].open
            &&& final(admissions).entries@[after.admission.0 as int].leases == 0
            &&& final(admissions).entries@[after.admission.0 as int].epoch == after.admission_epoch
            &&& final(admissions).entries@[after.admission.0 as int].generation
                == after.binding_generation
        }),
        replacements@.len() == old(router).endpoints@.len(),
{
    let before = old(router).endpoints@[i];
    let at = before.token.admission.0 as int;
    assert(old(admissions).has(before.token.admission));
    assert(crate::pci::router::is_rotated(
        before,
        final(router).endpoints@[i],
        old(admissions).entries@.len() + i,
    ));
    assert(is_routed(old(router).endpoints@, at));
    assert(final(admissions).entries@[at].leases == old(admissions).entries@[at].leases);
    assert(before.token.admission_epoch < u64::MAX) by {
        if before.token.admission_epoch == u64::MAX {
            assert(crate::pci::router::has_last_epoch(old(router).endpoints@));
        }
    }
    assert(old(admissions).entries@.len() + i < final(admissions).entries@.len());
    assert(final(admissions).entries@.len() == final(admissions).entries.len());
}

/// Closing or opening the routes closes or opens the admission of every route, and no other.
pub proof fn law_all_routes_are_closed_or_opened<F>(
    router: EndpointRouter<F>,
    close: &mut EndpointAdmissions,
    open: &mut EndpointAdmissions,
    i: int,
    other: int,
)
    requires
        router.wf(*old(close)),
        call_ensures(EndpointRouter::<F>::close_admissions, (&router, close), ()),
        *old(open) == *final(close),
        call_ensures(EndpointRouter::<F>::open_admissions, (&router, open), ()),
        0 <= i < router.endpoints@.len(),
        0 <= other < old(close).entries@.len(),
    ensures
        !final(close).entries@[router.endpoints@[i].token.admission.0 as int].open,
        final(open).entries@[router.endpoints@[i].token.admission.0 as int].open,
        (forall|j: int|
            #![trigger router.endpoints@[j]]
            0 <= j < router.endpoints@.len() ==> router.endpoints@[j].token.admission.0 != other)
            ==> final(open).entries@[other] == old(close).entries@[other] && final(
            close).entries@[other] == old(close).entries@[other],
        final(open).entries@[other].leases == old(close).entries@[other].leases,
        final(open).entries@[other].permits == old(close).entries@[other].permits,
        final(open).entries@[other].epoch == old(close).entries@[other].epoch,
{
    let at = router.endpoints@[i].token.admission.0 as int;
    assert(old(close).has(router.endpoints@[i].token.admission));
    assert(is_routed(router.endpoints@, at));
    assert(final(close).entries@[at] == final(close).entries@[at]);
    assert(final(open).entries@[at] == final(open).entries@[at]);
    assert(final(close).entries@[other] == final(close).entries@[other]);
    assert(final(open).entries@[other] == final(open).entries@[other]);
}

/// A memory access is not found where no bound BAR has it; where one has, it goes to the
/// endpoint of that function, with the right to memory that the bus-master bit gives, unless
/// the route is closed.
pub proof fn law_bar_access_goes_to_the_endpoint<F>(
    binding: PciRootBinding<F>,
    address: u64,
    width: AccessWidth,
    admissions: &mut EndpointAdmissions,
    result: DeviceResult<BarDispatch>,
    owner: int,
    bar: int,
)
    requires
        binding.wf(*old(admissions)),
        call_ensures(
            PciRootBinding::<F>::route_bar,
            (&binding, address, width, admissions),
            result,
        ),
        0 <= owner < binding.root.functions@.len(),
        0 <= bar < binding.root.functions@[owner].bars@.len(),
    ensures
        ({
            let function = binding.root.functions@[owner];
            let state = function.bars@[bar];
            let size = match width {
                AccessWidth::Byte => 1int,
                AccessWidth::Word => 2,
                AccessWidth::Dword => 4,
                AccessWidth::Qword => 8,
            };
            let master = function.config@[4] & 4 != 0;
            let token = binding.root.bindings@[owner]->0;
            function.config@[4] & 2 != 0 && state.address <= address && address + size
                <= state.address + state.plan.size ==> {
                &&& binding.root.bindings@[owner] is None ==> result == Err::<BarDispatch, _>(
                    DeviceError::NotFound,
                )
                &&& result matches Ok(dispatch) ==> {
                    &&& binding.root.bindings@[owner] is Some
                    &&& dispatch.access.route.bdf == function.bdf
                    &&& dispatch.access.route.bar == state.plan.index
                    &&& dispatch.access.route.offset == address - state.address
                    &&& dispatch.access.route.width == width
                    &&& dispatch.access.dma_enabled == master
                    &&& dispatch.routed.grant.token == token
                    &&& dispatch.routed.grant.dma_enabled == master
                    &&& binding.router.endpoints@[dispatch.routed.position as int].token == token
                    &&& old(admissions).entries@[token.admission.0 as int].open
                    &&& final(admissions).entries@[token.admission.0 as int].leases == old(
                        admissions).entries@[token.admission.0 as int].leases + 1
                }
            }
        }),
        result is Err ==> final(admissions).entries@ == old(admissions).entries@,
{
    let function = binding.root.functions@[owner];
    let state = function.bars@[bar];
    let size = width.bytes() as int;
    if function.config@[4] & 2 != 0 && state.address <= address && address + size <= state.address
        + state.plan.size {
        assert(bar_serves(binding.root.functions@, owner, bar, address as int, size));
        crate::pci::root::law_route_is_unique(binding.root, address as int, size);
        assert forall|token: EndpointRouteToken, route, command: PciCommandState| #[trigger]
            binding.root.is_bound_route(address, width, token, route, command)
                implies binding.root.is_route_of(
        owner, bar, address, width, token, route, command) by {
            let (i, b) = choose|i: int, b: int|
                #[trigger] binding.root.is_route_of(i, b, address, width, token, route, command);
            assert(binding.root.is_route_of(i, b, address, width, token, route, command));
            assert(bar_serves(binding.root.functions@, i, b, address as int, size));
        }
    }
}

/// Whether a visit of an endpoint goes as it ought to: the context enters for the device of the
/// grant first, and leaves last if it was let in; if it was not, the endpoint is not asked.
pub open spec fn enters_and_leaves<C: DeviceContext>(
    calls: Seq<&mut C>,
    grant: RoutedDeviceGrant,
    inside: int,
) -> bool {
    exists|said: DeviceResult<bool>|
        {
            &&& calls.len() > 0
            &&& #[trigger] call_ensures(C::enter_routed_device, (calls[0], &grant), said)
            &&& said matches Ok(true) ==> calls.len() == inside + 2 && call_ensures(
                C::leave_routed_device,
                (calls[inside + 1],),
                (),
            )
            &&& !(said matches Ok(true)) ==> calls.len() == 1
        }
}

/// A visit enters and leaves.
proof fn lemma_visit<C: DeviceContext>(
    calls: Seq<&mut C>,
    grant: RoutedDeviceGrant,
    entered: DeviceResult<()>,
    inside: nat,
)
    requires
        is_visit(calls, grant, entered, inside),
    ensures
        enters_and_leaves(calls, grant, inside as int),
{
    let said = choose|said: DeviceResult<bool>|
        #[trigger] call_ensures(C::enter_routed_device, (calls[0], &grant), said) && entered
            == crate::pci::dispatch::entry_result(said);
    assert(call_ensures(C::enter_routed_device, (calls[0], &grant), said));
}

/// A BAR read asks the endpoint once, between entering and leaving, and gives what it said.
pub proof fn law_bar_read_gives_the_answer<
    F: PciEndpointCallbacks<C, E>,
    C: DeviceContext,
    E: PciEndpointContext,
>(
    function: F,
    grant: RoutedDeviceGrant,
    access: PciBarAccess,
    admitted: E,
    context: &mut C,
    result: DeviceResult<u64>,
)
    requires
        call_ensures(
            visit_bar_read::<F, C, E>,
            (&function, &grant, access, admitted, context),
            result,
        ),
    ensures
        exists|calls: Seq<&mut C>|
            {
                &&& #[trigger] enters_and_leaves(calls, grant, 1)
                &&& *calls[0] == *old(context)
                &&& *final(calls.last()) == *final(context)
                &&& calls.len() == 1 ==> result is Err
                &&& calls.len() == 3 ==> exists|endpoint: &mut E|
                    #[trigger] call_ensures(
                        <F as PciEndpointCallbacks<C, E>>::read_bar,
                        (&function, access, endpoint, calls[1]),
                        result,
                    ) && *endpoint == admitted
            },
{
    let (calls, states) = choose|calls: Seq<&mut C>, states: Seq<C>|
        {
            &&& #[trigger] is_chain(calls, states)
            &&& states.first() == *old(context)
            &&& states.last() == *final(context)
            &&& forall|i: int| 0 <= i < calls.len() ==> *final(#[trigger] calls[i]) == states[i + 1]
            &&& answers_bar_read(calls, function, grant, access, admitted, result)
        };
    let entered = choose|entered: DeviceResult<()>|
        #[trigger] is_visit(calls, grant, entered, 1) && match entered {
            Err(error) => result == Err::<u64, DeviceError>(error),
            Ok(()) => says_read_bar(calls[1], function, access, admitted, result),
        };
    lemma_visit(calls, grant, entered, 1);
    assert(*calls[0] == states[0]);
    assert(*final(calls[calls.len() - 1]) == states[calls.len() as int]);
}

/// A BAR write hands the endpoint the value once, between entering and leaving, and gives what it
/// said.
pub proof fn law_bar_write_hands_over_the_value<
    F: PciEndpointCallbacks<C, E>,
    C: DeviceContext,
    E: PciEndpointContext,
>(
    function: F,
    grant: RoutedDeviceGrant,
    access: PciBarAccess,
    value: u64,
    admitted: E,
    context: &mut C,
    result: DeviceResult<()>,
)
    requires
        call_ensures(
            visit_bar_write::<F, C, E>,
            (&function, &grant, access, value, admitted, context),
            result,
        ),
    ensures
        exists|calls: Seq<&mut C>|
            {
                &&& #[trigger] enters_and_leaves(calls, grant, 1)
                &&& *calls[0] == *old(context)
                &&& *final(calls.last()) == *final(context)
                &&& calls.len() == 1 ==> result is Err
                &&& calls.len() == 3 ==> exists|endpoint: &mut E|
                    #[trigger] call_ensures(
                        <F as PciEndpointCallbacks<C, E>>::write_bar,
                        (&function, access, value, endpoint, calls[1]),
                        result,
                    ) && *endpoint == admitted
            },
{
    let (calls, states) = choose|calls: Seq<&mut C>, states: Seq<C>|
        {
            &&& #[trigger] is_chain(calls, states)
            &&& states.first() == *old(context)
            &&& states.last() == *final(context)
            &&& forall|i: int| 0 <= i < calls.len() ==> *final(#[trigger] calls[i]) == states[i + 1]
            &&& answers_bar_write(calls, function, grant, access, value, admitted, result)
        };
    let entered = choose|entered: DeviceResult<()>|
        #[trigger] is_visit(calls, grant, entered, 1) && match entered {
            Err(error) => result == Err::<(), DeviceError>(error),
            Ok(()) => says_write_bar(calls[1], function, access, value, admitted, result),
        };
    lemma_visit(calls, grant, entered, 1);
    assert(*calls[0] == states[0]);
    assert(*final(calls[calls.len() - 1]) == states[calls.len() as int]);
}

/// A read of an effect region asks the endpoint once, between entering and leaving, with the
/// effect as it was met, and gives what it said.
pub proof fn law_effect_read_gives_the_answer<
    F: PciEndpointCallbacks<C, E>,
    C: DeviceContext,
    E: PciEndpointContext,
>(
    function: F,
    grant: RoutedDeviceGrant,
    effect: PciConfigReadEffect,
    admitted: E,
    context: &mut C,
    result: DeviceResult<u64>,
)
    requires
        call_ensures(
            visit_read_effect::<F, C, E>,
            (&function, &grant, effect, admitted, context),
            result,
        ),
    ensures
        exists|calls: Seq<&mut C>|
            {
                &&& #[trigger] enters_and_leaves(calls, grant, 1)
                &&& *calls[0] == *old(context)
                &&& *final(calls.last()) == *final(context)
                &&& calls.len() == 1 ==> result is Err
                &&& calls.len() == 3 ==> exists|endpoint: &mut E|
                    #[trigger] call_ensures(
                        <F as PciEndpointCallbacks<C, E>>::read_config_effect,
                        (&function, effect, endpoint, calls[1]),
                        result,
                    ) && *endpoint == admitted
            },
{
    let (calls, states) = choose|calls: Seq<&mut C>, states: Seq<C>|
        {
            &&& #[trigger] is_chain(calls, states)
            &&& states.first() == *old(context)
            &&& states.last() == *final(context)
            &&& forall|i: int| 0 <= i < calls.len() ==> *final(#[trigger] calls[i]) == states[i + 1]
            &&& answers_read_effect(calls, function, grant, effect, admitted, result)
        };
    let entered = choose|entered: DeviceResult<()>|
        #[trigger] is_visit(calls, grant, entered, 1) && match entered {
            Err(error) => result == Err::<u64, DeviceError>(error),
            Ok(()) => says_read_effect(calls[1], function, effect, admitted, result),
        };
    lemma_visit(calls, grant, entered, 1);
    assert(*calls[0] == states[0]);
    assert(*final(calls[calls.len() - 1]) == states[calls.len() as int]);
}

/// A write of an effect region hands the endpoint the effect, with its value, once, between
/// entering and leaving, and gives what it said.
pub proof fn law_effect_write_hands_over_the_value<
    F: PciEndpointCallbacks<C, E>,
    C: DeviceContext,
    E: PciEndpointContext,
>(
    function: F,
    grant: RoutedDeviceGrant,
    effect: PciConfigWriteEffect,
    admitted: E,
    context: &mut C,
    result: DeviceResult<()>,
)
    requires
        call_ensures(
            visit_write_effect::<F, C, E>,
            (&function, &grant, effect, admitted, context),
            result,
        ),
    ensures
        exists|calls: Seq<&mut C>|
            {
                &&& #[trigger] enters_and_leaves(calls, grant, 1)
                &&& *calls[0] == *old(context)
                &&& *final(calls.last()) == *final(context)
                &&& calls.len() == 1 ==> result is Err
                &&& calls.len() == 3 ==> exists|endpoint: &mut E|
                    #[trigger] call_ensures(
                        <F as PciEndpointCallbacks<C, E>>::write_config_effect,
                        (&function, effect, endpoint, calls[1]),
                        result,
                    ) && *endpoint == admitted
            },
{
    let (calls, states) = choose|calls: Seq<&mut C>, states: Seq<C>|
        {
            &&& #[trigger] is_chain(calls, states)
            &&& states.first() == *old(context)
            &&& states.last() == *final(context)
            &&& forall|i: int| 0 <= i < calls.len() ==> *final(#[trigger] calls[i]) == states[i + 1]
            &&& answers_write_effect(calls, function, grant, effect, admitted, result)
        };
    let entered = choose|entered: DeviceResult<()>|
        #[trigger] is_visit(calls, grant, entered, 1) && match entered {
            Err(error) => result == Err::<(), DeviceError>(error),
            Ok(()) => says_write_effect(calls[1], function, effect, admitted, result),
        };
    lemma_visit(calls, grant, entered, 1);
    assert(*calls[0] == states[0]);
    assert(*final(calls[calls.len() - 1]) == states[calls.len() as int]);
}

/// A change of the command register is told to the endpoint once, between entering and leaving,
/// and what it said is given.
pub proof fn law_command_is_told_to_the_endpoint<
    F: PciEndpointCallbacks<C, E>,
    C: DeviceContext,
    E: PciEndpointContext,
>(
    function: F,
    grant: RoutedDeviceGrant,
    command: PciCommandState,
    admitted: E,
    context: &mut C,
    result: DeviceResult<()>,
)
    requires
        call_ensures(
            visit_command::<F, C, E>,
            (&function, &grant, command, admitted, context),
            result,
        ),
    ensures
        exists|calls: Seq<&mut C>|
            {
                &&& #[trigger] enters_and_leaves(calls, grant, 1)
                &&& *calls[0] == *old(context)
                &&& *final(calls.last()) == *final(context)
                &&& calls.len() == 1 ==> result is Err
                &&& calls.len() == 3 ==> exists|endpoint: &mut E|
                    #[trigger] call_ensures(
                        <F as PciEndpointCallbacks<C, E>>::command_changed,
                        (&function, command, endpoint, calls[1]),
                        result,
                    ) && *endpoint == admitted
            },
{
    let (calls, states) = choose|calls: Seq<&mut C>, states: Seq<C>|
        {
            &&& #[trigger] is_chain(calls, states)
            &&& states.first() == *old(context)
            &&& states.last() == *final(context)
            &&& forall|i: int| 0 <= i < calls.len() ==> *final(#[trigger] calls[i]) == states[i + 1]
            &&& answers_command(calls, function, grant, command, admitted, result)
        };
    let entered = choose|entered: DeviceResult<()>|
        #[trigger] is_visit(calls, grant, entered, 1) && match entered {
            Err(error) => result == Err::<(), DeviceError>(error),
            Ok(()) => says_command(calls[1], function, command, admitted, result),
        };
    lemma_visit(calls, grant, entered, 1);
    assert(*calls[0] == states[0]);
    assert(*final(calls[calls.len() - 1]) == states[calls.len() as int]);
}

/// A status read shows the interrupt bit as the endpoint says it is, and the other bits as they
/// were.
pub proof fn law_status_read_shows_the_endpoint<F: PciFunction, C: DeviceContext>(
    function: F,
    grant: RoutedDeviceGrant,
    value: u64,
    mask: u64,
    context: &mut C,
    status: u64,
)
    requires
        call_ensures(
            visit_status::<F, C>,
            (&function, &grant, value, mask, context),
            Ok(status),
        ),
    ensures
        status & !mask == value & !mask,
        exists|pending: bool|
            #[trigger] call_ensures(F::intx_pending, (&function,), pending) && (pending ==> status
                & mask == mask) && (!pending ==> status & mask == 0),
        exists|calls: Seq<&mut C>|
            #[trigger] enters_and_leaves(calls, grant, 0) && calls.len() == 2,
{
    let (calls, states) = choose|calls: Seq<&mut C>, states: Seq<C>|
        {
            &&& #[trigger] is_chain(calls, states)
            &&& states.first() == *old(context)
            &&& states.last() == *final(context)
            &&& forall|i: int| 0 <= i < calls.len() ==> *final(#[trigger] calls[i]) == states[i + 1]
            &&& answers_status(calls, function, grant, value, mask, Ok(status))
        };
    let entered = choose|entered: DeviceResult<()>|
        #[trigger] is_visit(calls, grant, entered, 0) && match entered {
            Err(error) => Ok::<u64, DeviceError>(status) == Err::<u64, DeviceError>(error),
            Ok(()) => exists|pending: bool|
                #[trigger] call_ensures(F::intx_pending, (&function,), pending) && Ok::<
                    u64,
                    DeviceError,
                >(status) == Ok::<u64, DeviceError>(
                    crate::pci::effect::status_with_interrupt(value, mask, pending),
                ),
        };
    lemma_visit(calls, grant, entered, 0);
    let pending = choose|pending: bool|
        #[trigger] call_ensures(F::intx_pending, (&function,), pending) && status
            == crate::pci::effect::status_with_interrupt(value, mask, pending);
    crate::pci::effect_laws::lemma_masked(value, mask);
    assert(call_ensures(F::intx_pending, (&function,), pending));
}

/// Binding and resetting need a running root; each is the only operation until it is finished. A
/// binding that is given up leaves the root running, a reset that is given up leaves it failed.
pub proof fn law_one_operation_at_a_time(
    bind: &mut BindingLifecycle,
    reset: &mut BindingLifecycle,
    bound: DeviceManagerResult<LifecycleOperation>,
    resetting: DeviceManagerResult<LifecycleOperation>,
)
    requires
        *old(bind) == *old(reset),
        call_ensures(BindingLifecycle::begin_binding_operation, (bind,), bound),
        call_ensures(BindingLifecycle::begin_reset_operation, (reset,), resetting),
    ensures
        bound is Ok <==> old(bind).state is Running,
        resetting is Ok <==> old(bind).state is Running,
        bound is Ok ==> final(bind).state is Binding && bound->Ok_0.completion
            == LifecycleCompletion::Restore(BindingLifecycleState::Running),
        resetting is Ok ==> final(reset).state is Resetting && resetting->Ok_0.completion is Reset,
        bound is Err ==> final(bind).state == old(bind).state,
        resetting is Err ==> final(reset).state == old(reset).state,
{
}

/// A withdrawal needs a root that runs or whose reset failed, and goes back to that; while another
/// operation is going on it is put off, and a root that stops or is dead has nothing to withdraw.
pub proof fn law_withdrawal_waits_its_turn(
    lifecycle: &mut BindingLifecycle,
    device: DeviceId,
    operation: Option<LifecycleOperation>,
)
    requires
        call_ensures(
            BindingLifecycle::try_begin_withdrawal_or_defer,
            (lifecycle, device),
            operation,
        ),
    ensures
        ({
            let state = old(lifecycle).state;
            let free = state is Running || state is ResetFailed;
            let busy = state is Binding || state is Resetting || state is Withdrawing;
            &&& operation is Some <==> free
            &&& free ==> final(lifecycle).state is Withdrawing && operation->0.completion
                == LifecycleCompletion::Restore(state)
            &&& !free ==> final(lifecycle).state == state
            &&& busy ==> final(lifecycle).pending_binding_withdrawals@ == old(
                lifecycle).pending_binding_withdrawals@.push(device)
            &&& !busy ==> final(lifecycle).pending_binding_withdrawals@ == old(
                lifecycle).pending_binding_withdrawals@
        }),
{
}

/// An operation that is given up goes back to the state that it names; a reset that is finished
/// runs again only with no withdrawal put off; stopping is always begun, and ends dead.
pub proof fn law_operations_end(
    give_up: &mut BindingLifecycle,
    finish: &mut BindingLifecycle,
    stop: &mut BindingLifecycle,
    operation: LifecycleOperation,
    unfinished: Option<LifecycleOperation>,
    stopping: LifecycleOperation,
)
    requires
        call_ensures(BindingLifecycle::finish_restore, (give_up, operation), ()),
        call_ensures(BindingLifecycle::try_finish_reset, (finish, operation), unfinished),
        call_ensures(BindingLifecycle::begin_stop_operation, (stop,), stopping),
    ensures
        operation.completion matches LifecycleCompletion::Restore(state) ==> final(give_up).state
            == state,
        operation.completion is Reset ==> final(give_up).state is ResetFailed,
        operation.completion is Stop ==> final(give_up).state is Dead,
        old(finish).pending_binding_withdrawals@.len() == 0 ==> final(finish).state is Running
            && unfinished is None,
        old(finish).pending_binding_withdrawals@.len() > 0 ==> final(finish).state == old(
            finish).state && unfinished == Some(operation),
        final(stop).state is Stopping,
        stopping.completion is Stop,
{
}

/// A token leads to its own route as long as the route is there, and nowhere once it was taken out.
pub proof fn law_token_leads_to_its_route<F>(
    router: EndpointRouter<F>,
    remove: &mut EndpointRouter<F>,
    after: EndpointRouter<F>,
    token: EndpointRouteToken,
    admissions: &mut EndpointAdmissions,
    later: EndpointAdmissions,
    found: DeviceResult<usize>,
    removed: Option<F>,
    lost: DeviceResult<usize>,
)
    requires
        router.wf(*old(admissions)),
        call_ensures(EndpointRouter::<F>::endpoint, (&router, &token, &*old(admissions)), found),
        *old(remove) == router,
        call_ensures(EndpointRouter::<F>::invalidate, (remove, &token, admissions), removed),
        after == *final(remove),
        later == *final(admissions),
        call_ensures(EndpointRouter::<F>::endpoint, (&after, &token, &later), lost),
    ensures
        found matches Ok(i) ==> router.endpoints@[i as int].token == token,
        found is Ok <==> removed is Some,
        removed is Some ==> removed->0 == router.endpoints@[found->Ok_0 as int].function,
        removed is Some ==> !later.entries@[token.admission.0 as int].open,
        removed is None ==> after == router,
        lost is Err,
{
    if removed is Some {
        let at = choose|at: int|
            #[trigger] is_removal(
                router.endpoints@,
                after.endpoints@,
                at,
                token,
                removed->0,
            );
        assert(is_removal(router.endpoints@, after.endpoints@, at, token, removed->0));
        let i = found->Ok_0 as int;
        if i != at {
            assert(router.endpoints@[i].token.device == router.endpoints@[at].token.device);
        }
        assert(old(admissions).has(token.admission));
        if lost is Ok {
            let k = lost->Ok_0 as int;
            if k < at {
                assert(after.endpoints@[k] == router.endpoints@[k]);
                assert(router.endpoints@[k].token.device.0 < router.endpoints@[at].token.device.0);
            } else {
                assert(after.endpoints@[k] == router.endpoints@[k + 1]);
                assert(router.endpoints@[at].token.device.0 < router.endpoints@[k
                    + 1].token.device.0);
            }
        }
    }
}

/// Taking all routes out leaves none, closes every admission of theirs, and hands each on as a
/// withdrawal that is pending.
pub proof fn law_all_routes_are_taken_out<F>(
    router: &mut EndpointRouter<F>,
    admissions: &mut EndpointAdmissions,
    pending: Vec<PendingIrqWithdrawal<F>>,
    i: int,
)
    requires
        old(router).wf(*old(admissions)),
        call_ensures(EndpointRouter::<F>::invalidate_all, (router, admissions), pending),
        0 <= i < old(router).endpoints@.len(),
    ensures
        final(router).endpoints@.len() == 0,
        pending@.len() == old(router).endpoints@.len(),
        pending@[i].device == old(router).endpoints@[i].token.device,
        pending@[i].function == old(router).endpoints@[i].function,
        pending@[i].admission == old(router).endpoints@[i].token.admission,
        !final(admissions).entries@[pending@[i].admission.0 as int].open,
{
    let at = old(router).endpoints@[i].token.admission.0 as int;
    assert(old(admissions).has(old(router).endpoints@[i].token.admission));
    assert(is_routed(old(router).endpoints@, at));
    assert(!final(admissions).entries@[at].open);
}

} // verus!
