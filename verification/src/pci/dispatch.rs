//! Accesses that reach an endpoint and come back with its answer.

use crate::access::{AccessWidth, DeviceError, DeviceResult, ErrorDetail};
#[allow(unused_imports)]
use crate::calls::is_chain;
use crate::pci::address::{ConfigOffset, PciBdf};
use crate::pci::binding::PciRootBinding;
use crate::pci::config::PciCommandState;
use crate::pci::effect::{
    complete_dynamic_status, PciBarAccess, PciConfigReadEffect, PciConfigWriteEffect,
};
#[allow(unused_imports)]
use crate::pci::effect::{status_with_interrupt, PciConfigReadOutcome, PciConfigWriteOutcome};
use crate::pci::endpoint::{
    AdmittedContext, DeviceContext, PciEndpointCallbacks, PciEndpointContext, PciFunction,
    UnroutedContext,
};
#[allow(unused_imports)]
use crate::pci::endpoint::{
    says_command, says_read_bar, says_read_effect, says_write_bar, says_write_effect,
};
#[allow(unused_imports)]
use crate::pci::error::PciError;
use crate::pci::route::{BarDispatch, ConfigReadDispatch, ConfigWriteDispatch};
#[allow(unused_imports)]
use crate::pci::route::{is_read_dispatch, is_write_dispatch};
use crate::pci::router::RoutedEndpointLease;
use crate::pci::routing::{EndpointAdmissions, RoutedDeviceGrant};
use vstd::prelude::*;

verus! {

/// The error for a context that ran no callback.
pub open spec fn callback_not_executed() -> DeviceError {
    DeviceError::InvalidState {
        operation: "dispatch PCI endpoint route",
        detail: ErrorDetail::Text("routed context callback did not execute"),
    }
}

/// What entering a routed context comes to, where the context says `said`.
pub open spec fn entry_result(said: DeviceResult<bool>) -> DeviceResult<()> {
    match said {
        Ok(true) => Ok::<(), DeviceError>(()),
        Ok(false) => Err(callback_not_executed()),
        Err(error) => Err(error),
    }
}

/// Whether entering a routed context behind `call` can come to `entered`.
pub open spec fn enters<C: DeviceContext>(
    call: &mut C,
    grant: RoutedDeviceGrant,
    entered: DeviceResult<()>,
) -> bool {
    exists|said: DeviceResult<bool>|
        #[trigger] call_ensures(C::enter_routed_device, (call, &grant), said) && entered
            == entry_result(said)
}

/// Whether `calls` are one visit to a routed context: it is entered with the result `entered`, and
/// where it lets a callback run it is used `inside` times and then left.
pub open spec fn is_visit<C: DeviceContext>(
    calls: Seq<&mut C>,
    grant: RoutedDeviceGrant,
    entered: DeviceResult<()>,
    inside: nat,
) -> bool {
    &&& calls.len() == (if entered is Ok {
        inside + 2
    } else {
        1
    })
    &&& enters(calls[0], grant, entered)
    &&& entered is Ok ==> call_ensures(C::leave_routed_device, (calls.last(),), ())
}

/// Makes a context act for the device of a grant.
///
/// # Errors
///
/// Returns the error of the context, and [`DeviceError::InvalidState`] when it
/// lets no callback run.
fn enter<C: DeviceContext>(grant: &RoutedDeviceGrant, context: &mut C) -> (entered: DeviceResult<
    (),
>)
    ensures
        exists|call: &mut C|
            {
                &&& #[trigger] enters(call, *grant, entered)
                &&& *call == *old(context)
                &&& *final(call) == *final(context)
            },
{
    let said = context.enter_routed_device(grant);
    let ghost answer = said;
    let entered = match said {
        Ok(true) => Ok(()),
        Ok(false) => Err(
            DeviceError::InvalidState {
                operation: "dispatch PCI endpoint route",
                detail: ErrorDetail::Text("routed context callback did not execute"),
            },
        ),
        Err(error) => Err(error),
    };
    proof {
        let call = choose|call: &mut C|
            {
                &&& #[trigger] call_ensures(C::enter_routed_device, (call, grant), answer)
                &&& *call == *old(context)
                &&& *final(call) == *context
            };
        assert(enters(call, *grant, entered));
    }
    entered
}

/// A context that no runtime routes lets every callback run.
pub proof fn law_unrouted_context_enters(
    call: &mut UnroutedContext,
    grant: RoutedDeviceGrant,
    entered: DeviceResult<()>,
)
    requires
        enters(call, grant, entered),
    ensures
        entered is Ok,
{
}

/// What a callback is admitted with.
pub open spec fn admitted_context(
    admissions: EndpointAdmissions,
    routed: RoutedEndpointLease,
) -> AdmittedContext {
    AdmittedContext {
        device: routed.grant.token.device,
        admission: admissions.at(routed.lease.admission),
    }
}

/// Returns what a callback is admitted with, while nobody else reaches the admissions.
fn endpoint_context(admissions: &EndpointAdmissions, routed: &RoutedEndpointLease) -> (endpoint:
    AdmittedContext)
    requires
        admissions.has(routed.lease.admission),
    ensures
        endpoint == admitted_context(*admissions, *routed),
{
    AdmittedContext {
        device: routed.grant.token.device,
        admission: admissions.get(routed.lease.admission),
    }
}

/// Whether `calls` are a visit for a BAR read, in which the endpoint is
/// asked once, and come to `result`.
pub open spec fn answers_bar_read<F: PciEndpointCallbacks<C, E>, C: DeviceContext, E: PciEndpointContext>(
    calls: Seq<&mut C>,
    function: F,
    grant: RoutedDeviceGrant,
    access: PciBarAccess,
    admitted: E,
    result: DeviceResult<u64>,
) -> bool {
    exists|entered: DeviceResult<()>|
        #[trigger] is_visit(calls, grant, entered, 1) && match entered {
            Err(error) => result == Err::<u64, DeviceError>(error),
            Ok(()) => says_read_bar(calls[1], function, access, admitted, result),
        }
}

/// Asks an endpoint for a BAR read, in a context that acts for its device meanwhile.
///
/// # Errors
///
/// Returns the error of the context or of the endpoint, and [`DeviceError::InvalidState`] for a
/// context that lets no callback run.
pub fn visit_bar_read<F: PciEndpointCallbacks<C, E>, C: DeviceContext, E: PciEndpointContext>(
    function: &F,
    grant: &RoutedDeviceGrant,
    access: PciBarAccess,
    admitted: E,
    context: &mut C,
) -> (result: DeviceResult<u64>)
    ensures
        exists|calls: Seq<&mut C>, states: Seq<C>|
            {
                &&& #[trigger] is_chain(calls, states)
                &&& states.first() == *old(context)
                &&& states.last() == *final(context)
                &&& forall|i: int|
                    0 <= i < calls.len() ==> *final(#[trigger] calls[i]) == states[i + 1]
                &&& answers_bar_read(calls, *function, *grant, access, admitted, result)
            },
{
    let mut endpoint = admitted;
    let entered = enter(grant, context);
    let ghost entry = entered;
    let ghost inside = *context;
    match entered {
        Ok(()) => {
            let said = function.read_bar(access, &mut endpoint, context);
            let ghost answer = said;
            let ghost after = *context;
            context.leave_routed_device();
            proof {
                let first = choose|call: &mut C|
                    {
                        &&& #[trigger] enters(call, *grant, entry)
                        &&& *call == *old(context)
                        &&& *final(call) == inside
                    };
                let (own, second) = choose|own: &mut E, call: &mut C|
                    {
                        &&& #[trigger] call_ensures(
                            <F as PciEndpointCallbacks<C, E>>::read_bar,
                            (function, access, own, call),
                            answer,
                        )
                        &&& *own == admitted
                        &&& *call == inside
                        &&& *final(call) == after
                    };
                let third = choose|call: &mut C|
                    {
                        &&& #[trigger] call_ensures(C::leave_routed_device, (call,), ())
                        &&& *call == after
                        &&& *final(call) == *context
                    };
                let calls = seq![first, second, third];
                assert(says_read_bar(second, *function, access, admitted, answer));
                assert(is_visit(calls, *grant, entry, 1));
                assert(is_chain(calls, seq![*old(context), inside, after, *context]));
            }
            said
        },
        Err(error) => {
            proof {
                let call = choose|call: &mut C|
                    {
                        &&& #[trigger] enters(call, *grant, entry)
                        &&& *call == *old(context)
                        &&& *final(call) == *context
                    };
                assert(is_visit(seq![call], *grant, entry, 1));
                assert(is_chain(seq![call], seq![*old(context), *context]));
            }
            Err(error)
        },
    }
}

/// Whether `calls` are a visit for a BAR write, in which the endpoint is
/// asked once, and come to `result`.
pub open spec fn answers_bar_write<F: PciEndpointCallbacks<C, E>, C: DeviceContext, E: PciEndpointContext>(
    calls: Seq<&mut C>,
    function: F,
    grant: RoutedDeviceGrant,
    access: PciBarAccess,
    value: u64,
    admitted: E,
    result: DeviceResult<()>,
) -> bool {
    exists|entered: DeviceResult<()>|
        #[trigger] is_visit(calls, grant, entered, 1) && match entered {
            Err(error) => result == Err::<(), DeviceError>(error),
            Ok(()) => says_write_bar(calls[1], function, access, value, admitted, result),
        }
}

/// Asks an endpoint for a BAR write, in a context that acts for its device meanwhile.
///
/// # Errors
///
/// Returns the error of the context or of the endpoint, and [`DeviceError::InvalidState`] for a
/// context that lets no callback run.
pub fn visit_bar_write<F: PciEndpointCallbacks<C, E>, C: DeviceContext, E: PciEndpointContext>(
    function: &F,
    grant: &RoutedDeviceGrant,
    access: PciBarAccess,
    value: u64,
    admitted: E,
    context: &mut C,
) -> (result: DeviceResult<()>)
    ensures
        exists|calls: Seq<&mut C>, states: Seq<C>|
            {
                &&& #[trigger] is_chain(calls, states)
                &&& states.first() == *old(context)
                &&& states.last() == *final(context)
                &&& forall|i: int|
                    0 <= i < calls.len() ==> *final(#[trigger] calls[i]) == states[i + 1]
                &&& answers_bar_write(calls, *function, *grant, access, value, admitted, result)
            },
{
    let mut endpoint = admitted;
    let entered = enter(grant, context);
    let ghost entry = entered;
    let ghost inside = *context;
    match entered {
        Ok(()) => {
            let said = function.write_bar(access, value, &mut endpoint, context);
            let ghost answer = said;
            let ghost after = *context;
            context.leave_routed_device();
            proof {
                let first = choose|call: &mut C|
                    {
                        &&& #[trigger] enters(call, *grant, entry)
                        &&& *call == *old(context)
                        &&& *final(call) == inside
                    };
                let (own, second) = choose|own: &mut E, call: &mut C|
                    {
                        &&& #[trigger] call_ensures(
                            <F as PciEndpointCallbacks<C, E>>::write_bar,
                            (function, access, value, own, call),
                            answer,
                        )
                        &&& *own == admitted
                        &&& *call == inside
                        &&& *final(call) == after
                    };
                let third = choose|call: &mut C|
                    {
                        &&& #[trigger] call_ensures(C::leave_routed_device, (call,), ())
                        &&& *call == after
                        &&& *final(call) == *context
                    };
                let calls = seq![first, second, third];
                assert(says_write_bar(second, *function, access, value, admitted, answer));
                assert(is_visit(calls, *grant, entry, 1));
                assert(is_chain(calls, seq![*old(context), inside, after, *context]));
            }
            said
        },
        Err(error) => {
            proof {
                let call = choose|call: &mut C|
                    {
                        &&& #[trigger] enters(call, *grant, entry)
                        &&& *call == *old(context)
                        &&& *final(call) == *context
                    };
                assert(is_visit(seq![call], *grant, entry, 1));
                assert(is_chain(seq![call], seq![*old(context), *context]));
            }
            Err(error)
        },
    }
}

/// Whether `calls` are a visit for a config read, in which the endpoint is
/// asked once, and come to `result`.
pub open spec fn answers_read_effect<F: PciEndpointCallbacks<C, E>, C: DeviceContext, E: PciEndpointContext>(
    calls: Seq<&mut C>,
    function: F,
    grant: RoutedDeviceGrant,
    effect: PciConfigReadEffect,
    admitted: E,
    result: DeviceResult<u64>,
) -> bool {
    exists|entered: DeviceResult<()>|
        #[trigger] is_visit(calls, grant, entered, 1) && match entered {
            Err(error) => result == Err::<u64, DeviceError>(error),
            Ok(()) => says_read_effect(calls[1], function, effect, admitted, result),
        }
}

/// Asks an endpoint to read its config region, in a context that acts for its device meanwhile.
///
/// # Errors
///
/// Returns the error of the context or of the endpoint, and [`DeviceError::InvalidState`] for a
/// context that lets no callback run.
pub fn visit_read_effect<F: PciEndpointCallbacks<C, E>, C: DeviceContext, E: PciEndpointContext>(
    function: &F,
    grant: &RoutedDeviceGrant,
    effect: PciConfigReadEffect,
    admitted: E,
    context: &mut C,
) -> (result: DeviceResult<u64>)
    ensures
        exists|calls: Seq<&mut C>, states: Seq<C>|
            {
                &&& #[trigger] is_chain(calls, states)
                &&& states.first() == *old(context)
                &&& states.last() == *final(context)
                &&& forall|i: int|
                    0 <= i < calls.len() ==> *final(#[trigger] calls[i]) == states[i + 1]
                &&& answers_read_effect(calls, *function, *grant, effect, admitted, result)
            },
{
    let mut endpoint = admitted;
    let entered = enter(grant, context);
    let ghost entry = entered;
    let ghost inside = *context;
    match entered {
        Ok(()) => {
            let said = function.read_config_effect(effect, &mut endpoint, context);
            let ghost answer = said;
            let ghost after = *context;
            context.leave_routed_device();
            proof {
                let first = choose|call: &mut C|
                    {
                        &&& #[trigger] enters(call, *grant, entry)
                        &&& *call == *old(context)
                        &&& *final(call) == inside
                    };
                let (own, second) = choose|own: &mut E, call: &mut C|
                    {
                        &&& #[trigger] call_ensures(
                            <F as PciEndpointCallbacks<C, E>>::read_config_effect,
                            (function, effect, own, call),
                            answer,
                        )
                        &&& *own == admitted
                        &&& *call == inside
                        &&& *final(call) == after
                    };
                let third = choose|call: &mut C|
                    {
                        &&& #[trigger] call_ensures(C::leave_routed_device, (call,), ())
                        &&& *call == after
                        &&& *final(call) == *context
                    };
                let calls = seq![first, second, third];
                assert(says_read_effect(second, *function, effect, admitted, answer));
                assert(is_visit(calls, *grant, entry, 1));
                assert(is_chain(calls, seq![*old(context), inside, after, *context]));
            }
            said
        },
        Err(error) => {
            proof {
                let call = choose|call: &mut C|
                    {
                        &&& #[trigger] enters(call, *grant, entry)
                        &&& *call == *old(context)
                        &&& *final(call) == *context
                    };
                assert(is_visit(seq![call], *grant, entry, 1));
                assert(is_chain(seq![call], seq![*old(context), *context]));
            }
            Err(error)
        },
    }
}

/// Whether `calls` are a visit for a config write, in which the endpoint is
/// asked once, and come to `result`.
pub open spec fn answers_write_effect<F: PciEndpointCallbacks<C, E>, C: DeviceContext, E: PciEndpointContext>(
    calls: Seq<&mut C>,
    function: F,
    grant: RoutedDeviceGrant,
    effect: PciConfigWriteEffect,
    admitted: E,
    result: DeviceResult<()>,
) -> bool {
    exists|entered: DeviceResult<()>|
        #[trigger] is_visit(calls, grant, entered, 1) && match entered {
            Err(error) => result == Err::<(), DeviceError>(error),
            Ok(()) => says_write_effect(calls[1], function, effect, admitted, result),
        }
}

/// Asks an endpoint to write its config region, in a context that acts for its device meanwhile.
///
/// # Errors
///
/// Returns the error of the context or of the endpoint, and [`DeviceError::InvalidState`] for a
/// context that lets no callback run.
pub fn visit_write_effect<F: PciEndpointCallbacks<C, E>, C: DeviceContext, E: PciEndpointContext>(
    function: &F,
    grant: &RoutedDeviceGrant,
    effect: PciConfigWriteEffect,
    admitted: E,
    context: &mut C,
) -> (result: DeviceResult<()>)
    ensures
        exists|calls: Seq<&mut C>, states: Seq<C>|
            {
                &&& #[trigger] is_chain(calls, states)
                &&& states.first() == *old(context)
                &&& states.last() == *final(context)
                &&& forall|i: int|
                    0 <= i < calls.len() ==> *final(#[trigger] calls[i]) == states[i + 1]
                &&& answers_write_effect(calls, *function, *grant, effect, admitted, result)
            },
{
    let mut endpoint = admitted;
    let entered = enter(grant, context);
    let ghost entry = entered;
    let ghost inside = *context;
    match entered {
        Ok(()) => {
            let said = function.write_config_effect(effect, &mut endpoint, context);
            let ghost answer = said;
            let ghost after = *context;
            context.leave_routed_device();
            proof {
                let first = choose|call: &mut C|
                    {
                        &&& #[trigger] enters(call, *grant, entry)
                        &&& *call == *old(context)
                        &&& *final(call) == inside
                    };
                let (own, second) = choose|own: &mut E, call: &mut C|
                    {
                        &&& #[trigger] call_ensures(
                            <F as PciEndpointCallbacks<C, E>>::write_config_effect,
                            (function, effect, own, call),
                            answer,
                        )
                        &&& *own == admitted
                        &&& *call == inside
                        &&& *final(call) == after
                    };
                let third = choose|call: &mut C|
                    {
                        &&& #[trigger] call_ensures(C::leave_routed_device, (call,), ())
                        &&& *call == after
                        &&& *final(call) == *context
                    };
                let calls = seq![first, second, third];
                assert(says_write_effect(second, *function, effect, admitted, answer));
                assert(is_visit(calls, *grant, entry, 1));
                assert(is_chain(calls, seq![*old(context), inside, after, *context]));
            }
            said
        },
        Err(error) => {
            proof {
                let call = choose|call: &mut C|
                    {
                        &&& #[trigger] enters(call, *grant, entry)
                        &&& *call == *old(context)
                        &&& *final(call) == *context
                    };
                assert(is_visit(seq![call], *grant, entry, 1));
                assert(is_chain(seq![call], seq![*old(context), *context]));
            }
            Err(error)
        },
    }
}

/// Whether `calls` are a visit for a command transition, in which the endpoint is
/// asked once, and come to `result`.
pub open spec fn answers_command<F: PciEndpointCallbacks<C, E>, C: DeviceContext, E: PciEndpointContext>(
    calls: Seq<&mut C>,
    function: F,
    grant: RoutedDeviceGrant,
    command: PciCommandState,
    admitted: E,
    result: DeviceResult<()>,
) -> bool {
    exists|entered: DeviceResult<()>|
        #[trigger] is_visit(calls, grant, entered, 1) && match entered {
            Err(error) => result == Err::<(), DeviceError>(error),
            Ok(()) => says_command(calls[1], function, command, admitted, result),
        }
}

/// Tells an endpoint of a command transition, in a context that acts for its device meanwhile.
///
/// # Errors
///
/// Returns the error of the context or of the endpoint, and [`DeviceError::InvalidState`] for a
/// context that lets no callback run.
pub fn visit_command<F: PciEndpointCallbacks<C, E>, C: DeviceContext, E: PciEndpointContext>(
    function: &F,
    grant: &RoutedDeviceGrant,
    command: PciCommandState,
    admitted: E,
    context: &mut C,
) -> (result: DeviceResult<()>)
    ensures
        exists|calls: Seq<&mut C>, states: Seq<C>|
            {
                &&& #[trigger] is_chain(calls, states)
                &&& states.first() == *old(context)
                &&& states.last() == *final(context)
                &&& forall|i: int|
                    0 <= i < calls.len() ==> *final(#[trigger] calls[i]) == states[i + 1]
                &&& answers_command(calls, *function, *grant, command, admitted, result)
            },
{
    let mut endpoint = admitted;
    let entered = enter(grant, context);
    let ghost entry = entered;
    let ghost inside = *context;
    match entered {
        Ok(()) => {
            let said = function.command_changed(command, &mut endpoint, context);
            let ghost answer = said;
            let ghost after = *context;
            context.leave_routed_device();
            proof {
                let first = choose|call: &mut C|
                    {
                        &&& #[trigger] enters(call, *grant, entry)
                        &&& *call == *old(context)
                        &&& *final(call) == inside
                    };
                let (own, second) = choose|own: &mut E, call: &mut C|
                    {
                        &&& #[trigger] call_ensures(
                            <F as PciEndpointCallbacks<C, E>>::command_changed,
                            (function, command, own, call),
                            answer,
                        )
                        &&& *own == admitted
                        &&& *call == inside
                        &&& *final(call) == after
                    };
                let third = choose|call: &mut C|
                    {
                        &&& #[trigger] call_ensures(C::leave_routed_device, (call,), ())
                        &&& *call == after
                        &&& *final(call) == *context
                    };
                let calls = seq![first, second, third];
                assert(says_command(second, *function, command, admitted, answer));
                assert(is_visit(calls, *grant, entry, 1));
                assert(is_chain(calls, seq![*old(context), inside, after, *context]));
            }
            said
        },
        Err(error) => {
            proof {
                let call = choose|call: &mut C|
                    {
                        &&& #[trigger] enters(call, *grant, entry)
                        &&& *call == *old(context)
                        &&& *final(call) == *context
                    };
                assert(is_visit(seq![call], *grant, entry, 1));
                assert(is_chain(seq![call], seq![*old(context), *context]));
            }
            Err(error)
        },
    }
}

/// Whether `calls` are a visit in which the endpoint is asked whether an interrupt is pending, and
/// come to `result`, the status with that bit.
pub open spec fn answers_status<F: PciFunction, C: DeviceContext>(
    calls: Seq<&mut C>,
    function: F,
    grant: RoutedDeviceGrant,
    value: u64,
    interrupt_status_mask: u64,
    result: DeviceResult<u64>,
) -> bool {
    exists|entered: DeviceResult<()>|
        #[trigger] is_visit(calls, grant, entered, 0) && match entered {
            Err(error) => result == Err::<u64, DeviceError>(error),
            Ok(()) => exists|pending: bool|
                #[trigger] call_ensures(F::intx_pending, (&function,), pending) && result == Ok::<
                    u64,
                    DeviceError,
                >(status_with_interrupt(value, interrupt_status_mask, pending)),
        }
}

/// Completes a status read with what an endpoint says of its interrupt, in a context that acts for
/// its device meanwhile.
///
/// # Errors
///
/// Returns the error of the context, and [`DeviceError::InvalidState`] for a context that lets no
/// callback run.
pub fn visit_status<F: PciFunction, C: DeviceContext>(
    function: &F,
    grant: &RoutedDeviceGrant,
    value: u64,
    interrupt_status_mask: u64,
    context: &mut C,
) -> (result: DeviceResult<u64>)
    ensures
        exists|calls: Seq<&mut C>, states: Seq<C>|
            {
                &&& #[trigger] is_chain(calls, states)
                &&& states.first() == *old(context)
                &&& states.last() == *final(context)
                &&& forall|i: int|
                    0 <= i < calls.len() ==> *final(#[trigger] calls[i]) == states[i + 1]
                &&& answers_status(
                    calls,
                    *function,
                    *grant,
                    value,
                    interrupt_status_mask,
                    result,
                )
            },
{
    let entered = enter(grant, context);
    let ghost entry = entered;
    let ghost inside = *context;
    match entered {
        Ok(()) => {
            let pending = function.intx_pending();
            assert(call_ensures(F::intx_pending, (function,), pending));
            context.leave_routed_device();
            let result = Ok(complete_dynamic_status(value, interrupt_status_mask, pending));
            proof {
                let first = choose|call: &mut C|
                    {
                        &&& #[trigger] enters(call, *grant, entry)
                        &&& *call == *old(context)
                        &&& *final(call) == inside
                    };
                let second = choose|call: &mut C|
                    {
                        &&& #[trigger] call_ensures(C::leave_routed_device, (call,), ())
                        &&& *call == inside
                        &&& *final(call) == *context
                    };
                let calls = seq![first, second];
                assert(is_visit(calls, *grant, entry, 0));
                assert(is_chain(calls, seq![*old(context), inside, *context]));
            }
            result
        },
        Err(error) => {
            proof {
                let call = choose|call: &mut C|
                    {
                        &&& #[trigger] enters(call, *grant, entry)
                        &&& *call == *old(context)
                        &&& *final(call) == *context
                    };
                assert(is_visit(seq![call], *grant, entry, 0));
                assert(is_chain(seq![call], seq![*old(context), *context]));
            }
            Err(error)
        },
    }
}

impl<F: PciFunction> PciRootBinding<F> {
    /// The endpoint that a callback was routed to.
    pub open spec fn function_of(self, routed: RoutedEndpointLease) -> F {
        self.router.endpoints@[routed.position as int].function
    }

    /// Whether `calls` are what a BAR read asks of its context, and it comes to `result`: it is
    /// refused, or the endpoint answers it.
    pub open spec fn is_bar_read<C: DeviceContext>(
        self,
        calls: Seq<&mut C>,
        admissions: EndpointAdmissions,
        address: u64,
        width: AccessWidth,
        result: DeviceResult<u64>,
    ) -> bool where F: PciEndpointCallbacks<C, AdmittedContext>, {
        exists|during: EndpointAdmissions, routed: DeviceResult<BarDispatch>|
            #[trigger] self.is_bar_dispatch(admissions, during, address, width, routed)
                && match routed {
                Err(error) => result == Err::<u64, DeviceError>(error) && calls.len() == 0,
                Ok(dispatch) => answers_bar_read(
                    calls,
                    self.function_of(dispatch.routed),
                    dispatch.routed.grant,
                    dispatch.access,
                    admitted_context(during, dispatch.routed),
                    result,
                ),
            }
    }

    /// Dispatches a BAR read through an authenticated runtime context.
    ///
    /// # Errors
    ///
    /// As [`PciRootBinding::route_bar`]; else the error of the context or of the
    /// endpoint.
    pub fn read_bar_with_context<C: DeviceContext>(
        &self,
        address: u64,
        width: AccessWidth,
        admissions: &mut EndpointAdmissions,
        context: &mut C,
    ) -> (result: DeviceResult<u64>) where F: PciEndpointCallbacks<C, AdmittedContext>,

        requires
            self.wf(*old(admissions)),
        ensures
            final(admissions).entries@ == old(admissions).entries@,
            exists|calls: Seq<&mut C>, states: Seq<C>|
                {
                    &&& #[trigger] is_chain(calls, states)
                    &&& states.first() == *old(context)
                    &&& states.last() == *final(context)
                    &&& forall|i: int|
                        0 <= i < calls.len() ==> *final(#[trigger] calls[i]) == states[i + 1]
                    &&& self.is_bar_read(calls, *old(admissions), address, width, result)
                },
    {
        assert(is_chain(Seq::<&mut C>::empty(), seq![*context]));
        let dispatch = match self.route_bar(address, width, admissions) {
            Ok(dispatch) => dispatch,
            Err(error) => {
                return Err(error);
            },
        };
        let admitted = endpoint_context(admissions, &dispatch.routed);
        let result = visit_bar_read(
            &self.router.endpoints[dispatch.routed.position].function,
            &dispatch.routed.grant,
            dispatch.access,
            admitted,
            context,
        );
        self.finish_dispatch(dispatch.routed, admissions);
        assert(admissions.entries@ =~= old(admissions).entries@);
        result
    }

    /// Whether `calls` are what a BAR write asks of its context, and it comes to `result`: it is
    /// refused, or the endpoint answers it.
    pub open spec fn is_bar_write<C: DeviceContext>(
        self,
        calls: Seq<&mut C>,
        admissions: EndpointAdmissions,
        address: u64,
        width: AccessWidth,
        value: u64,
        result: DeviceResult<()>,
    ) -> bool where F: PciEndpointCallbacks<C, AdmittedContext>, {
        exists|during: EndpointAdmissions, routed: DeviceResult<BarDispatch>|
            #[trigger] self.is_bar_dispatch(admissions, during, address, width, routed)
                && match routed {
                Err(error) => result == Err::<(), DeviceError>(error) && calls.len() == 0,
                Ok(dispatch) => answers_bar_write(
                    calls,
                    self.function_of(dispatch.routed),
                    dispatch.routed.grant,
                    dispatch.access,
            value,
                    admitted_context(during, dispatch.routed),
                    result,
                ),
            }
    }

    /// Dispatches a BAR write through an authenticated runtime context.
    ///
    /// # Errors
    ///
    /// As [`PciRootBinding::read_bar_with_context`].
    pub fn write_bar_with_context<C: DeviceContext>(
        &self,
        address: u64,
        width: AccessWidth,
        value: u64,
        admissions: &mut EndpointAdmissions,
        context: &mut C,
    ) -> (result: DeviceResult<()>) where F: PciEndpointCallbacks<C, AdmittedContext>,

        requires
            self.wf(*old(admissions)),
        ensures
            final(admissions).entries@ == old(admissions).entries@,
            exists|calls: Seq<&mut C>, states: Seq<C>|
                {
                    &&& #[trigger] is_chain(calls, states)
                    &&& states.first() == *old(context)
                    &&& states.last() == *final(context)
                    &&& forall|i: int|
                        0 <= i < calls.len() ==> *final(#[trigger] calls[i]) == states[i + 1]
                    &&& self.is_bar_write(calls, *old(admissions), address, width, value, result)
                },
    {
        assert(is_chain(Seq::<&mut C>::empty(), seq![*context]));
        let dispatch = match self.route_bar(address, width, admissions) {
            Ok(dispatch) => dispatch,
            Err(error) => {
                return Err(error);
            },
        };
        let admitted = endpoint_context(admissions, &dispatch.routed);
        let result = visit_bar_write(
            &self.router.endpoints[dispatch.routed.position].function,
            &dispatch.routed.grant,
            dispatch.access,
            value,
            admitted,
            context,
        );
        self.finish_dispatch(dispatch.routed, admissions);
        assert(admissions.entries@ =~= old(admissions).entries@);
        result
    }

    /// Whether `calls` are what a routed config read asks of its context, and it comes to `result`.
    pub open spec fn answers_config_read<C: DeviceContext>(
        self,
        calls: Seq<&mut C>,
        admissions: EndpointAdmissions,
        dispatch: ConfigReadDispatch,
        result: DeviceResult<u64>,
    ) -> bool where F: PciEndpointCallbacks<C, AdmittedContext>, {
        match dispatch {
            ConfigReadDispatch::Value(value) => result == Ok::<u64, DeviceError>(value)
                && calls.len() == 0,
            ConfigReadDispatch::Status { routed, value, interrupt_status_mask } => answers_status(
                calls,
                self.function_of(routed),
                routed.grant,
                value,
                interrupt_status_mask,
                result,
            ),
            ConfigReadDispatch::Effect { routed, effect } => answers_read_effect(
                calls,
                self.function_of(routed),
                routed.grant,
                effect,
                admitted_context(admissions, routed),
                result,
            ),
        }
    }

    /// Whether `calls` are what a config read, of which the root made `outcome`, asks of its
    /// context, and it comes to `result`.
    pub open spec fn completes_config_read<C: DeviceContext>(
        self,
        calls: Seq<&mut C>,
        admissions: EndpointAdmissions,
        outcome: Result<PciConfigReadOutcome, PciError>,
        result: DeviceResult<u64>,
    ) -> bool where F: PciEndpointCallbacks<C, AdmittedContext>, {
        exists|during: EndpointAdmissions, routed: DeviceResult<ConfigReadDispatch>|
            #[trigger] is_read_dispatch(self.router, admissions, during, outcome, routed)
                && match routed {
                Err(error) => result == Err::<u64, DeviceError>(error) && calls.len() == 0,
                Ok(dispatch) => self.answers_config_read(calls, during, dispatch, result),
            }
    }

    /// Completes a config read with the answer of its endpoint, if it has one.
    ///
    /// # Errors
    ///
    /// Returns the error of the context or of the endpoint.
    pub fn complete_read_config<C: DeviceContext>(
        &self,
        dispatch: ConfigReadDispatch,
        admissions: &mut EndpointAdmissions,
        context: &mut C,
    ) -> (result: DeviceResult<u64>) where F: PciEndpointCallbacks<C, AdmittedContext>,

        requires
            self.wf(*old(admissions)),
            dispatch matches ConfigReadDispatch::Status { routed, .. } ==> self.is_inside(
                *old(admissions),
                routed,
            ),
            dispatch matches ConfigReadDispatch::Effect { routed, .. } ==> self.is_inside(
                *old(admissions),
                routed,
            ),
        ensures
            exists|calls: Seq<&mut C>, states: Seq<C>|
                {
                    &&& #[trigger] is_chain(calls, states)
                    &&& states.first() == *old(context)
                    &&& states.last() == *final(context)
                    &&& forall|i: int|
                        0 <= i < calls.len() ==> *final(#[trigger] calls[i]) == states[i + 1]
                    &&& self.answers_config_read(calls, *old(admissions), dispatch, result)
                },
            final(admissions).entries@ == (match dispatch {
                ConfigReadDispatch::Value(_) => old(admissions).entries@,
                ConfigReadDispatch::Status { routed, .. } => old(admissions).after_lease(routed.lease),
                ConfigReadDispatch::Effect { routed, .. } => old(admissions).after_lease(routed.lease),
            }),
    {
        assert(is_chain(Seq::<&mut C>::empty(), seq![*context]));
        match dispatch {
            ConfigReadDispatch::Value(value) => Ok(value),
            ConfigReadDispatch::Status { routed, value, interrupt_status_mask } => {
                let result = visit_status(
                    &self.router.endpoints[routed.position].function,
                    &routed.grant,
                    value,
                    interrupt_status_mask,
                    context,
                );
                self.finish_dispatch(routed, admissions);
                result
            },
            ConfigReadDispatch::Effect { routed, effect } => {
                let admitted = endpoint_context(admissions, &routed);
                let result = visit_read_effect(
                    &self.router.endpoints[routed.position].function,
                    &routed.grant,
                    effect,
                    admitted,
                    context,
                );
                self.finish_dispatch(routed, admissions);
                result
            },
        }
    }

    /// Whether a callback is inside the admission of the endpoint that it was
    /// routed to.
    pub open spec fn is_inside(
        self,
        admissions: EndpointAdmissions,
        routed: RoutedEndpointLease,
    ) -> bool {
        &&& routed.position < self.router.endpoints@.len()
        &&& admissions.has(routed.lease.admission)
        &&& admissions.at(routed.lease.admission).leases > 0
    }

    /// Whether `calls` are what a config read asks of its context, and it comes to `result`.
    pub open spec fn is_config_read<C: DeviceContext>(
        self,
        calls: Seq<&mut C>,
        admissions: EndpointAdmissions,
        bdf: PciBdf,
        offset: ConfigOffset,
        width: AccessWidth,
        result: DeviceResult<u64>,
    ) -> bool where F: PciEndpointCallbacks<C, AdmittedContext>, {
        exists|outcome: Result<PciConfigReadOutcome, PciError>|
            #[trigger] self.is_root_read(admissions, bdf, offset, width, outcome)
                && self.completes_config_read(calls, admissions, outcome, result)
    }

    /// Dispatches one complete conventional config read through an authenticated
    /// runtime context.
    ///
    /// # Errors
    ///
    /// As [`PciRootBinding::route_read_config`]; else the error of the context
    /// or of the endpoint.
    pub fn read_config_with_context<C: DeviceContext>(
        &self,
        bdf: PciBdf,
        offset: ConfigOffset,
        width: AccessWidth,
        admissions: &mut EndpointAdmissions,
        context: &mut C,
    ) -> (result: DeviceResult<u64>) where F: PciEndpointCallbacks<C, AdmittedContext>,

        requires
            self.wf(*old(admissions)),
        ensures
            final(admissions).entries@ == old(admissions).entries@,
            exists|calls: Seq<&mut C>, states: Seq<C>|
                {
                    &&& #[trigger] is_chain(calls, states)
                    &&& states.first() == *old(context)
                    &&& states.last() == *final(context)
                    &&& forall|i: int|
                        0 <= i < calls.len() ==> *final(#[trigger] calls[i]) == states[i + 1]
                    &&& self.is_config_read(calls, *old(admissions), bdf, offset, width, result)
                },
    {
        assert(is_chain(Seq::<&mut C>::empty(), seq![*context]));
        let routed = self.route_read_config(bdf, offset, width, admissions);
        let ghost during = *admissions;
        let ghost handed = routed;
        let ghost outcome = choose|outcome: Result<PciConfigReadOutcome, PciError>|
            #[trigger] self.is_root_read(*old(admissions), bdf, offset, width, outcome)
                && is_read_dispatch(self.router, *old(admissions), during, outcome, handed);
        let result = match routed {
            Err(error) => Err(error),
            Ok(dispatch) => self.complete_read_config(dispatch, admissions, context),
        };
        assert(is_read_dispatch(self.router, *old(admissions), during, outcome, handed));
        assert(admissions.entries@ =~= old(admissions).entries@);
        result
    }

    /// Whether `calls` are what a routed config write asks of its context, and it comes to
    /// `result`.
    pub open spec fn answers_config_write<C: DeviceContext>(
        self,
        calls: Seq<&mut C>,
        admissions: EndpointAdmissions,
        dispatch: ConfigWriteDispatch,
        result: DeviceResult<()>,
    ) -> bool where F: PciEndpointCallbacks<C, AdmittedContext>, {
        match dispatch {
            ConfigWriteDispatch::Complete => result == Ok::<(), DeviceError>(()) && calls.len()
                == 0,
            ConfigWriteDispatch::Effect { routed, effect } => answers_write_effect(
                calls,
                self.function_of(routed),
                routed.grant,
                effect,
                admitted_context(admissions, routed),
                result,
            ),
            ConfigWriteDispatch::Command { routed, command } => answers_command(
                calls,
                self.function_of(routed),
                routed.grant,
                command,
                admitted_context(admissions, routed),
                result,
            ),
        }
    }

    /// Completes a config write with the answer of its endpoint, if it has one. The root is
    /// only shared meanwhile.
    ///
    /// # Errors
    ///
    /// Returns the error of the context or of the endpoint.
    pub fn complete_write_config<C: DeviceContext>(
        &self,
        dispatch: ConfigWriteDispatch,
        admissions: &mut EndpointAdmissions,
        context: &mut C,
    ) -> (result: DeviceResult<()>) where F: PciEndpointCallbacks<C, AdmittedContext>,

        requires
            self.wf(*old(admissions)),
            dispatch matches ConfigWriteDispatch::Effect { routed, .. } ==> self.is_inside(
                *old(admissions),
                routed,
            ),
            dispatch matches ConfigWriteDispatch::Command { routed, .. } ==> self.is_inside(
                *old(admissions),
                routed,
            ),
        ensures
            self.wf(*final(admissions)),
            exists|calls: Seq<&mut C>, states: Seq<C>|
                {
                    &&& #[trigger] is_chain(calls, states)
                    &&& states.first() == *old(context)
                    &&& states.last() == *final(context)
                    &&& forall|i: int|
                        0 <= i < calls.len() ==> *final(#[trigger] calls[i]) == states[i + 1]
                    &&& self.answers_config_write(calls, *old(admissions), dispatch, result)
                },
            final(admissions).entries@ == (match dispatch {
                ConfigWriteDispatch::Complete => old(admissions).entries@,
                ConfigWriteDispatch::Effect { routed, .. } => old(admissions).after_lease(
                    routed.lease,
                ),
                ConfigWriteDispatch::Command { routed, .. } => old(admissions).after_lease(
                    routed.lease,
                ),
            }),
    {
        assert(is_chain(Seq::<&mut C>::empty(), seq![*context]));
        match dispatch {
            ConfigWriteDispatch::Complete => Ok(()),
            ConfigWriteDispatch::Effect { routed, effect } => {
                let admitted = endpoint_context(admissions, &routed);
                let result = visit_write_effect(
                    &self.router.endpoints[routed.position].function,
                    &routed.grant,
                    effect,
                    admitted,
                    context,
                );
                self.finish_dispatch(routed, admissions);
                result
            },
            ConfigWriteDispatch::Command { routed, command } => {
                let admitted = endpoint_context(admissions, &routed);
                let result = visit_command(
                    &self.router.endpoints[routed.position].function,
                    &routed.grant,
                    command,
                    admitted,
                    context,
                );
                self.finish_dispatch(routed, admissions);
                result
            },
        }
    }

    /// Whether a config write turns this binding's root into `after`, makes `calls` of its context,
    /// and comes to `result`.
    pub open spec fn is_config_write<C: DeviceContext>(
        self,
        calls: Seq<&mut C>,
        after: crate::pci::root::PciRootState,
        admissions: EndpointAdmissions,
        bdf: PciBdf,
        offset: ConfigOffset,
        width: AccessWidth,
        value: u64,
        result: DeviceResult<()>,
    ) -> bool where F: PciEndpointCallbacks<C, AdmittedContext>, {
        exists|
            outcome: Result<PciConfigWriteOutcome, PciError>,
            during: EndpointAdmissions,
            routed: DeviceResult<ConfigWriteDispatch>,
        |
            #[trigger] self.is_root_write(after, admissions, bdf, offset, width, value, outcome)
                && #[trigger] is_write_dispatch(self.router, admissions, during, outcome, routed)
                && match routed {
                Err(error) => result == Err::<(), DeviceError>(error) && calls.len() == 0,
                Ok(dispatch) => self.answers_config_write(calls, during, dispatch, result),
            }
    }

    /// Dispatches one complete conventional config write through an authenticated
    /// runtime context.
    ///
    /// What the root changed stays changed, whatever the endpoint says.
    ///
    /// # Errors
    ///
    /// As [`PciRootBinding::read_config_with_context`].
    pub fn write_config_with_context<C: DeviceContext>(
        &mut self,
        bdf: PciBdf,
        offset: ConfigOffset,
        width: AccessWidth,
        value: u64,
        admissions: &mut EndpointAdmissions,
        context: &mut C,
    ) -> (result: DeviceResult<()>) where F: PciEndpointCallbacks<C, AdmittedContext>,

        requires
            old(self).wf(*old(admissions)),
        ensures
            final(self).wf(*final(admissions)),
            *final(self) == (PciRootBinding { root: final(self).root, ..*old(self) }),
            final(admissions).entries@ == old(admissions).entries@,
            exists|calls: Seq<&mut C>, states: Seq<C>|
                {
                    &&& #[trigger] is_chain(calls, states)
                    &&& states.first() == *old(context)
                    &&& states.last() == *final(context)
                    &&& forall|i: int|
                        0 <= i < calls.len() ==> *final(#[trigger] calls[i]) == states[i + 1]
                    &&& old(self).is_config_write(
                        calls,
                        final(self).root,
                        *old(admissions),
                        bdf,
                        offset,
                        width,
                        value,
                        result,
                    )
                },
    {
        assert(is_chain(Seq::<&mut C>::empty(), seq![*context]));
        let routed = self.route_write_config(bdf, offset, width, value, admissions);
        let ghost during = *admissions;
        let ghost handed = routed;
        let ghost outcome = choose|outcome: Result<PciConfigWriteOutcome, PciError>|
            #[trigger] old(self).is_root_write(
                self.root,
                *old(admissions),
                bdf,
                offset,
                width,
                value,
                outcome,
            ) && is_write_dispatch(self.router, *old(admissions), during, outcome, handed);
        let result = match routed {
            Err(error) => Err(error),
            Ok(dispatch) => self.complete_write_config(dispatch, admissions, context),
        };
        assert(is_write_dispatch(old(self).router, *old(admissions), during, outcome, handed));
        assert(admissions.entries@ =~= old(admissions).entries@);
        result
    }

    /// Dispatches a BAR read after root lookup and token validation.
    ///
    /// # Errors
    ///
    /// As [`PciRootBinding::route_bar`]; else the error of the endpoint.
    pub fn read_bar(&self, address: u64, width: AccessWidth, admissions: &mut EndpointAdmissions) -> (result:
        DeviceResult<u64>) where F: PciEndpointCallbacks<UnroutedContext, AdmittedContext>,

        requires
            self.wf(*old(admissions)),
        ensures
            final(admissions).entries@ == old(admissions).entries@,
            exists|calls: Seq<&mut UnroutedContext>| #[trigger]
                self.is_bar_read(calls, *old(admissions), address, width, result),
    {
        self.read_bar_with_context(address, width, admissions, &mut UnroutedContext {  })
    }

    /// Dispatches a BAR write after root lookup and token validation.
    ///
    /// # Errors
    ///
    /// As [`PciRootBinding::read_bar`].
    pub fn write_bar(
        &self,
        address: u64,
        width: AccessWidth,
        value: u64,
        admissions: &mut EndpointAdmissions,
    ) -> (result: DeviceResult<()>) where F: PciEndpointCallbacks<UnroutedContext, AdmittedContext>,

        requires
            self.wf(*old(admissions)),
        ensures
            final(admissions).entries@ == old(admissions).entries@,
            exists|calls: Seq<&mut UnroutedContext>| #[trigger]
                self.is_bar_write(calls, *old(admissions), address, width, value, result),
    {
        self.write_bar_with_context(address, width, value, admissions, &mut UnroutedContext {  })
    }

    /// Dispatches one complete conventional config read.
    ///
    /// # Errors
    ///
    /// As [`PciRootBinding::route_read_config`]; else the error of the endpoint.
    pub fn read_config(
        &self,
        bdf: PciBdf,
        offset: ConfigOffset,
        width: AccessWidth,
        admissions: &mut EndpointAdmissions,
    ) -> (result: DeviceResult<u64>) where F: PciEndpointCallbacks<UnroutedContext, AdmittedContext>,

        requires
            self.wf(*old(admissions)),
        ensures
            final(admissions).entries@ == old(admissions).entries@,
            exists|calls: Seq<&mut UnroutedContext>| #[trigger]
                self.is_config_read(calls, *old(admissions), bdf, offset, width, result),
    {
        self.read_config_with_context(bdf, offset, width, admissions, &mut UnroutedContext {  })
    }

    /// Dispatches one complete conventional config write.
    ///
    /// What the root changed stays changed, whatever the endpoint says.
    ///
    /// # Errors
    ///
    /// As [`PciRootBinding::read_config`].
    pub fn write_config(
        &mut self,
        bdf: PciBdf,
        offset: ConfigOffset,
        width: AccessWidth,
        value: u64,
        admissions: &mut EndpointAdmissions,
    ) -> (result: DeviceResult<()>) where F: PciEndpointCallbacks<UnroutedContext, AdmittedContext>,

        requires
            old(self).wf(*old(admissions)),
        ensures
            final(self).wf(*final(admissions)),
            *final(self) == (PciRootBinding { root: final(self).root, ..*old(self) }),
            final(admissions).entries@ == old(admissions).entries@,
            exists|calls: Seq<&mut UnroutedContext>| #[trigger]
                old(self).is_config_write(
                    calls,
                    final(self).root,
                    *old(admissions),
                    bdf,
                    offset,
                    width,
                    value,
                    result,
                ),
    {
        self.write_config_with_context(
            bdf,
            offset,
            width,
            value,
            admissions,
            &mut UnroutedContext {  },
        )
    }
}

} // verus!
