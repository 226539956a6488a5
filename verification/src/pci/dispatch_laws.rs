//! What an access to the bus asks of an endpoint, from the address to the callback.

#[allow(unused_imports)]
use crate::access::{
    AccessWidth, DeviceError, DeviceId, DeviceManagerError, DeviceManagerResult, DeviceResult,
};
#[allow(unused_imports)]
use crate::calls::is_chain;
#[allow(unused_imports)]
use crate::pci::binding::PciRootBinding;
#[allow(unused_imports)]
use crate::pci::config::PciCommandState;
#[allow(unused_imports)]
use crate::pci::dispatch::{answers_bar_read, answers_bar_write, is_visit};
#[allow(unused_imports)]
use crate::pci::effect::PciBarAccess;
#[allow(unused_imports)]
use crate::pci::endpoint::{
    says_read_bar, says_write_bar, AdmittedContext, DeviceContext, PciEndpointCallbacks,
    PciFunction,
};
#[allow(unused_imports)]
use crate::pci::root::bar_serves;
#[allow(unused_imports)]
use crate::pci::route::BarDispatch;
#[allow(unused_imports)]
use crate::pci::router::{
    are_resets, is_endpoints_reset, is_reset_answer, is_reset_of, is_reset_step, note_outcome,
    reset_endpoint, EndpointRouter, RoutedEndpoint,
};
#[allow(unused_imports)]
use crate::pci::routing::{EndpointAdmissions, EndpointRouteToken};
use vstd::prelude::*;

verus! {

/// Whether an access of the given width at `address` lies in a BAR that the function decodes.
pub open spec fn lies_in_bar<F>(
    binding: PciRootBinding<F>,
    owner: int,
    bar: int,
    address: u64,
    width: AccessWidth,
) -> bool {
    let function = binding.root.functions@[owner];
    let state = function.bars@[bar];
    let size = match width {
        AccessWidth::Byte => 1int,
        AccessWidth::Word => 2,
        AccessWidth::Dword => 4,
        AccessWidth::Qword => 8,
    };
    &&& 0 <= owner < binding.root.functions@.len()
    &&& 0 <= bar < function.bars@.len()
    &&& function.config@[4] & 2 != 0
    &&& state.address <= address
    &&& address + size <= state.address + state.plan.size
}

/// Whether `access` is what the endpoint of a function sees of an access at `address`: its own BAR, the
/// distance from that BAR's start, and the right to memory that the bus-master bit gives.
pub open spec fn is_seen_as<F>(
    binding: PciRootBinding<F>,
    owner: int,
    bar: int,
    address: u64,
    width: AccessWidth,
    access: PciBarAccess,
) -> bool {
    let function = binding.root.functions@[owner];
    let state = function.bars@[bar];
    &&& access.route.bdf == function.bdf
    &&& access.route.bar == state.plan.index
    &&& access.route.offset == address - state.address
    &&& access.route.width == width
    &&& access.dma_enabled <==> function.config@[4] & 4 != 0
}

/// What an access that lies in a BAR is routed to.
proof fn lemma_dispatch<F>(
    binding: PciRootBinding<F>,
    before: EndpointAdmissions,
    during: EndpointAdmissions,
    owner: int,
    bar: int,
    address: u64,
    width: AccessWidth,
    routed: DeviceResult<BarDispatch>,
)
    requires
        binding.wf(before),
        binding.is_bar_dispatch(before, during, address, width, routed),
        lies_in_bar(binding, owner, bar, address, width),
    ensures
        binding.root.bindings@[owner] is None ==> routed == Err::<BarDispatch, DeviceError>(
            DeviceError::NotFound,
        ),
        routed matches Ok(dispatch) ==> {
            &&& binding.root.bindings@[owner] is Some
            &&& is_seen_as(binding, owner, bar, address, width, dispatch.access)
            &&& dispatch.routed.position < binding.router.endpoints@.len()
            &&& binding.router.endpoints@[dispatch.routed.position as int].token
                == binding.root.bindings@[owner]->0
        },
{
    let size = width.bytes() as int;
    assert(bar_serves(binding.root.functions@, owner, bar, address as int, size));
    crate::pci::root::law_route_is_unique(binding.root, address as int, size);
    assert forall|token: EndpointRouteToken, route, command: PciCommandState| #[trigger]
        binding.root.is_bound_route(
            address,
            width,
            token,
            route,
            command,
        ) implies binding.root.is_route_of(owner, bar, address, width, token, route, command) by {
        let (i, b) = choose|i: int, b: int|
            #[trigger] binding.root.is_route_of(i, b, address, width, token, route, command);
        assert(binding.root.is_route_of(i, b, address, width, token, route, command));
        assert(bar_serves(binding.root.functions@, i, b, address as int, size));
    }
}

/// A memory read in a BAR is answered by the endpoint that the function is bound to, and by no other;
/// without one it is not found. Whoever was inside an admission before is inside afterwards.
pub proof fn law_memory_read_is_answered_by_the_endpoint<
    F: PciEndpointCallbacks<C, AdmittedContext>,
    C: DeviceContext,
>(
    binding: PciRootBinding<F>,
    address: u64,
    width: AccessWidth,
    admissions: &mut EndpointAdmissions,
    context: &mut C,
    result: DeviceResult<u64>,
    owner: int,
    bar: int,
)
    requires
        binding.wf(*old(admissions)),
        call_ensures(
            PciRootBinding::<F>::read_bar_with_context::<C>,
            (&binding, address, width, admissions, context),
            result,
        ),
        lies_in_bar(binding, owner, bar, address, width),
    ensures
        final(admissions).entries@ == old(admissions).entries@,
        binding.root.bindings@[owner] is None ==> result == Err::<u64, _>(DeviceError::NotFound)
            && *final(context) == *old(context),
        result is Ok ==> exists|k: int, access: PciBarAccess, endpoint: &mut AdmittedContext, call: &mut C|
            {
                &&& 0 <= k < binding.router.endpoints@.len()
                &&& binding.root.bindings@[owner] == Some(binding.router.endpoints@[k].token)
                &&& is_seen_as(binding, owner, bar, address, width, access)
                &&& #[trigger] call_ensures(
                    <F as PciEndpointCallbacks<C, AdmittedContext>>::read_bar,
                    (&binding.router.endpoints@[k].function, access, endpoint, call),
                    result,
                )
                &&& endpoint.device == binding.router.endpoints@[k].token.device
            },
{
    let (calls, states) = choose|calls: Seq<&mut C>, states: Seq<C>|
        {
            &&& #[trigger] is_chain(calls, states)
            &&& states.first() == *old(context)
            &&& states.last() == *final(context)
            &&& binding.is_bar_read(calls, *old(admissions), address, width, result)
        };
    let (during, routed) = choose|during: EndpointAdmissions, routed: DeviceResult<BarDispatch>|
        #[trigger] binding.is_bar_dispatch(*old(admissions), during, address, width, routed)
            && match routed {
            Err(error) => result == Err::<u64, DeviceError>(error) && calls.len() == 0,
            Ok(dispatch) => answers_bar_read(
                calls,
                binding.function_of(dispatch.routed),
                dispatch.routed.grant,
                dispatch.access,
                crate::pci::dispatch::admitted_context(during, dispatch.routed),
                result,
            ),
        };
    assert(binding.is_bar_dispatch(*old(admissions), during, address, width, routed));
    lemma_dispatch(binding, *old(admissions), during, owner, bar, address, width, routed);
    if result is Ok {
        let dispatch = routed->Ok_0;
        let k = dispatch.routed.position as int;
        let function = binding.function_of(dispatch.routed);
        let admitted = crate::pci::dispatch::admitted_context(during, dispatch.routed);
        let entered = choose|entered: DeviceResult<()>|
            #[trigger] is_visit(calls, dispatch.routed.grant, entered, 1) && match entered {
                Err(error) => result == Err::<u64, DeviceError>(error),
                Ok(()) => says_read_bar(calls[1], function, dispatch.access, admitted, result),
            };
        assert(says_read_bar(calls[1], function, dispatch.access, admitted, result));
        let endpoint = choose|endpoint: &mut AdmittedContext|
            #[trigger] call_ensures(
                <F as PciEndpointCallbacks<C, AdmittedContext>>::read_bar,
                (&function, dispatch.access, endpoint, calls[1]),
                result,
            ) && *endpoint == admitted;
        assert(call_ensures(
            <F as PciEndpointCallbacks<C, AdmittedContext>>::read_bar,
            (&binding.router.endpoints@[k].function, dispatch.access, endpoint, calls[1]),
            result,
        ));
    }
}

/// A memory write in a BAR hands its value to the endpoint that the function is bound to, and to no
/// other; without one it is not found. Whoever was inside an admission before is inside afterwards.
pub proof fn law_memory_write_reaches_the_endpoint<
    F: PciEndpointCallbacks<C, AdmittedContext>,
    C: DeviceContext,
>(
    binding: PciRootBinding<F>,
    address: u64,
    width: AccessWidth,
    value: u64,
    admissions: &mut EndpointAdmissions,
    context: &mut C,
    result: DeviceResult<()>,
    owner: int,
    bar: int,
)
    requires
        binding.wf(*old(admissions)),
        call_ensures(
            PciRootBinding::<F>::write_bar_with_context::<C>,
            (&binding, address, width, value, admissions, context),
            result,
        ),
        lies_in_bar(binding, owner, bar, address, width),
    ensures
        final(admissions).entries@ == old(admissions).entries@,
        binding.root.bindings@[owner] is None ==> result == Err::<(), _>(DeviceError::NotFound)
            && *final(context) == *old(context),
        result is Ok ==> exists|k: int, access: PciBarAccess, endpoint: &mut AdmittedContext, call: &mut C|
            {
                &&& 0 <= k < binding.router.endpoints@.len()
                &&& binding.root.bindings@[owner] == Some(binding.router.endpoints@[k].token)
                &&& is_seen_as(binding, owner, bar, address, width, access)
                &&& #[trigger] call_ensures(
                    <F as PciEndpointCallbacks<C, AdmittedContext>>::write_bar,
                    (&binding.router.endpoints@[k].function, access, value, endpoint, call),
                    result,
                )
                &&& endpoint.device == binding.router.endpoints@[k].token.device
            },
{
    let (calls, states) = choose|calls: Seq<&mut C>, states: Seq<C>|
        {
            &&& #[trigger] is_chain(calls, states)
            &&& states.first() == *old(context)
            &&& states.last() == *final(context)
            &&& binding.is_bar_write(calls, *old(admissions), address, width, value, result)
        };
    let (during, routed) = choose|during: EndpointAdmissions, routed: DeviceResult<BarDispatch>|
        #[trigger] binding.is_bar_dispatch(*old(admissions), during, address, width, routed)
            && match routed {
            Err(error) => result == Err::<(), DeviceError>(error) && calls.len() == 0,
            Ok(dispatch) => answers_bar_write(
                calls,
                binding.function_of(dispatch.routed),
                dispatch.routed.grant,
                dispatch.access,
                value,
                crate::pci::dispatch::admitted_context(during, dispatch.routed),
                result,
            ),
        };
    assert(binding.is_bar_dispatch(*old(admissions), during, address, width, routed));
    lemma_dispatch(binding, *old(admissions), during, owner, bar, address, width, routed);
    if result is Ok {
        let dispatch = routed->Ok_0;
        let k = dispatch.routed.position as int;
        let function = binding.function_of(dispatch.routed);
        let admitted = crate::pci::dispatch::admitted_context(during, dispatch.routed);
        let entered = choose|entered: DeviceResult<()>|
            #[trigger] is_visit(calls, dispatch.routed.grant, entered, 1) && match entered {
                Err(error) => result == Err::<(), DeviceError>(error),
                Ok(()) => says_write_bar(
                    calls[1],
                    function,
                    dispatch.access,
                    value,
                    admitted,
                    result,
                ),
            };
        assert(says_write_bar(calls[1], function, dispatch.access, value, admitted, result));
        let endpoint = choose|endpoint: &mut AdmittedContext|
            #[trigger] call_ensures(
                <F as PciEndpointCallbacks<C, AdmittedContext>>::write_bar,
                (&function, dispatch.access, value, endpoint, calls[1]),
                result,
            ) && *endpoint == admitted;
        assert(call_ensures(
            <F as PciEndpointCallbacks<C, AdmittedContext>>::write_bar,
            (&binding.router.endpoints@[k].function, dispatch.access, value, endpoint, calls[1]),
            result,
        ));
    }
}

/// An endpoint that is reset is told the command state of its function, and then lowers its line,
/// whatever it said; both answers are kept apart.
pub proof fn law_endpoint_is_reset_and_withdrawn<F: PciFunction>(
    function: &mut F,
    command: PciCommandState,
    outcome: (DeviceResult<()>, DeviceResult<()>),
)
    requires
        call_ensures(reset_endpoint::<F>, (function, command), outcome),
    ensures
        exists|reset: &mut F, withdrawal: &mut F|
            {
                &&& #[trigger] call_ensures(F::reset, (reset, command), outcome.0)
                &&& #[trigger] crate::pci::endpoint::says_withdrawal(withdrawal, outcome.1)
                &&& *reset == *old(function)
                &&& *withdrawal == *final(reset)
                &&& *final(withdrawal) == *final(function)
            },
{
    let (reset, withdrawal) = choose|reset: &mut F, withdrawal: &mut F|
        {
            &&& #[trigger] is_reset_answer(reset, withdrawal, command, outcome)
            &&& *reset == *old(function)
            &&& *final(reset) == *withdrawal
            &&& *final(withdrawal) == *final(function)
        };
    assert(call_ensures(F::reset, (reset, command), outcome.0));
    assert(crate::pci::endpoint::says_withdrawal(withdrawal, outcome.1));
}

/// The first error stays; a success changes nothing.
pub proof fn law_first_error_stays(
    first: &mut Option<DeviceManagerError>,
    outcome: DeviceResult<()>,
)
    requires
        call_ensures(note_outcome, (first, outcome), ()),
    ensures
        *old(first) is Some ==> *final(first) == *old(first),
        outcome is Ok ==> *final(first) == *old(first),
        *old(first) is None && outcome is Err ==> *final(first) == Some(
            DeviceManagerError::Device(outcome->Err_0),
        ),
{
}

/// The state of one route through the resets before and after that of its own device.
proof fn lemma_route_of_another<F: PciFunction>(
    resets: Seq<Option<&mut F>>,
    withdrawals: Seq<Option<&mut F>>,
    states: Seq<Seq<RoutedEndpoint<F>>>,
    commands: Seq<(DeviceId, PciCommandState)>,
    told: Seq<F>,
    outcomes: Seq<(DeviceResult<()>, DeviceResult<()>)>,
    i: int,
    from: int,
    to: int,
)
    requires
        are_resets(resets, withdrawals, states, commands, told, outcomes, commands.len() as int),
        0 <= from <= to <= commands.len(),
        0 <= i < states[from].len(),
        forall|k: int|
            #![trigger commands[k]]
            from <= k < to ==> commands[k].0 != states[from][i].token.device,
    ensures
        states[to].len() == states[from].len(),
        states[to][i] == states[from][i],
        forall|j: int|
            #![trigger states[to][j]]
            0 <= j < states[to].len() ==> states[to][j].token == states[from][j].token,
    decreases to - from,
{
    if from < to {
        lemma_route_of_another(
            resets,
            withdrawals,
            states,
            commands,
            told,
            outcomes,
            i,
            from,
            to - 1,
        );
        let k = to - 1;
        assert(commands[k].0 != states[from][i].token.device);
        assert(is_reset_step(
            resets[k],
            withdrawals[k],
            states[k],
            states[k + 1],
            commands[k].0,
            commands[k].1,
            told[k],
            outcomes[k],
        ));
        if resets[k] is Some {
            let at = choose|at: int|
                #[trigger] is_reset_of(
                    resets[k]->0,
                    withdrawals[k]->0,
                    states[k],
                    states[k + 1],
                    at,
                    commands[k].0,
                    commands[k].1,
                    told[k],
                    outcomes[k],
                );
            assert(at != i);
        }
    }
}

/// Tokens stay through the resets.
proof fn lemma_tokens_stay<F: PciFunction>(
    resets: Seq<Option<&mut F>>,
    withdrawals: Seq<Option<&mut F>>,
    states: Seq<Seq<RoutedEndpoint<F>>>,
    commands: Seq<(DeviceId, PciCommandState)>,
    told: Seq<F>,
    outcomes: Seq<(DeviceResult<()>, DeviceResult<()>)>,
    to: int,
)
    requires
        are_resets(resets, withdrawals, states, commands, told, outcomes, commands.len() as int),
        0 <= to <= commands.len(),
    ensures
        states[to].len() == states[0].len(),
        forall|j: int|
            #![trigger states[to][j]]
            0 <= j < states[to].len() ==> states[to][j].token == states[0][j].token,
    decreases to,
{
    if to > 0 {
        lemma_tokens_stay(resets, withdrawals, states, commands, told, outcomes, to - 1);
        let k = to - 1;
        assert(is_reset_step(
            resets[k],
            withdrawals[k],
            states[k],
            states[k + 1],
            commands[k].0,
            commands[k].1,
            told[k],
            outcomes[k],
        ));
    }
}

/// Each endpoint is reset with the command state that is listed for its device, and then lowers its
/// line; nothing else is done to it, and its token stays.
pub proof fn law_each_endpoint_is_reset<F: PciFunction>(
    router: &mut EndpointRouter<F>,
    commands: Vec<(DeviceId, PciCommandState)>,
    result: DeviceManagerResult<()>,
    admissions: EndpointAdmissions,
    i: int,
    k: int,
)
    requires
        old(router).wf(admissions),
        call_ensures(EndpointRouter::<F>::reset_endpoints, (router, &commands), result),
        commands@.len() == old(router).endpoints@.len(),
        0 <= i < old(router).endpoints@.len(),
        0 <= k < commands@.len(),
        commands@[k].0 == old(router).endpoints@[i].token.device,
        forall|a: int, b: int|
            #![trigger commands@[a], commands@[b]]
            0 <= a < b < commands@.len() ==> commands@[a].0 != commands@[b].0,
    ensures
        final(router).endpoints@[i].token == old(router).endpoints@[i].token,
        exists|reset: &mut F, withdrawal: &mut F, said: DeviceResult<()>, lowered: DeviceResult<()>|
            {
                &&& #[trigger] call_ensures(F::reset, (reset, commands@[k].1), said)
                &&& #[trigger] crate::pci::endpoint::says_withdrawal(withdrawal, lowered)
                &&& *reset == old(router).endpoints@[i].function
                &&& *withdrawal == *final(reset)
                &&& *final(withdrawal) == final(router).endpoints@[i].function
                &&& said is Err || lowered is Err ==> result is Err
            },
{
    let (resets, withdrawals, told) = choose|
        resets: Seq<Option<&mut F>>,
        withdrawals: Seq<Option<&mut F>>,
        told: Seq<F>,
    |
        {
            &&& #[trigger] is_endpoints_reset(
                resets,
                withdrawals,
                old(router).endpoints@,
                final(router).endpoints@,
                commands@,
                told,
                result,
            )
            &&& forall|k: int|
                0 <= k < resets.len() && (#[trigger] resets[k]) is Some ==> *final(resets[k]->0)
                    == *(withdrawals[k]->0)
            &&& forall|k: int|
                0 <= k < withdrawals.len() && (#[trigger] withdrawals[k]) is Some
                    ==> *final(withdrawals[k]->0) == told[k]
        };
    let (states, outcomes) = choose|
        states: Seq<Seq<RoutedEndpoint<F>>>,
        outcomes: Seq<(DeviceResult<()>, DeviceResult<()>)>,
    |
        #[trigger] are_resets(
            resets,
            withdrawals,
            states,
            commands@,
            told,
            outcomes,
            commands@.len() as int,
        ) && states.first() == old(router).endpoints@ && states.last() == final(router).endpoints@
            && result == crate::pci::router::first_error(outcomes, commands@.len() as int);
    assert(are_resets(
        resets,
        withdrawals,
        states,
        commands@,
        told,
        outcomes,
        commands@.len() as int,
    ));
    let count = commands@.len() as int;
    lemma_tokens_stay(resets, withdrawals, states, commands@, told, outcomes, k);
    lemma_tokens_stay(resets, withdrawals, states, commands@, told, outcomes, k + 1);
    lemma_route_of_another(resets, withdrawals, states, commands@, told, outcomes, i, 0, k);
    assert(is_reset_step(
        resets[k],
        withdrawals[k],
        states[k],
        states[k + 1],
        commands@[k].0,
        commands@[k].1,
        told[k],
        outcomes[k],
    ));
    assert(states[k][i].token.device == commands@[k].0);
    let at = choose|at: int|
        #[trigger] is_reset_of(
            resets[k]->0,
            withdrawals[k]->0,
            states[k],
            states[k + 1],
            at,
            commands@[k].0,
            commands@[k].1,
            told[k],
            outcomes[k],
        );
    assert(states[k][at].token == old(router).endpoints@[at].token);
    assert(at == i);
    lemma_route_of_another(
        resets,
        withdrawals,
        states,
        commands@,
        told,
        outcomes,
        i,
        k + 1,
        count,
    );
    let reset = resets[k]->0;
    let withdrawal = withdrawals[k]->0;
    assert(call_ensures(F::reset, (reset, commands@[k].1), outcomes[k].0));
    assert(crate::pci::endpoint::says_withdrawal(withdrawal, outcomes[k].1));
    lemma_error_is_kept(outcomes, k, count);
}

/// An error anywhere makes the whole fail.
proof fn lemma_error_is_kept(
    outcomes: Seq<(DeviceResult<()>, DeviceResult<()>)>,
    k: int,
    count: int,
)
    requires
        0 <= k < count <= outcomes.len(),
    ensures
        outcomes[k].0 is Err || outcomes[k].1 is Err ==> crate::pci::router::first_error(
            outcomes,
            count,
        ) is Err,
    decreases count,
{
    if k < count - 1 {
        lemma_error_is_kept(outcomes, k, count - 1);
    }
}

} // verus!
