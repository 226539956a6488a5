//! What becomes of an endpoint from its binding to its withdrawal.

#[allow(unused_imports)]
use crate::access::{ConfigFault, DeviceId, DeviceManagerResult, DeviceNodeId};
#[allow(unused_imports)]
use crate::pci::binding::{PciBindingLease, PciRootBinding};
#[allow(unused_imports)]
use crate::pci::capability::{PciCapabilityLayout, PciConfigEffectId};
#[allow(unused_imports)]
use crate::pci::contract::{advertised_fault, config_effect_fault, declares_effect};
#[allow(unused_imports)]
use crate::pci::endpoint::PciFunction;
#[allow(unused_imports)]
use crate::pci::lifecycle::{
    first_failure, is_retry, is_withdrawal_outcome, retry_pending_irq_withdrawals, still_pending,
    transfer_pending_irq_withdrawals,
};
#[allow(unused_imports)]
use crate::pci::reset::ResetProgress;
#[allow(unused_imports)]
use crate::pci::router::{is_routed, PendingIrqWithdrawal, RoutedEndpoint};
#[allow(unused_imports)]
use crate::pci::routing::{EndpointAdmissions, RoutedDeviceGrant};
#[allow(unused_imports)]
use crate::pci::topology::lemma_position_of;
#[allow(unused_imports)]
use crate::pci::withdrawal::{is_endpoint_withdrawal, is_withdrawal};
use vstd::prelude::*;

verus! {

/// A binding that succeeds ties the function with the given name, which had no endpoint, to the
/// device, with an open admission that nobody has passed, and hands out a grant without a right to
/// memory; every other function keeps its endpoint.
pub proof fn law_bound_endpoint_is_routed<F>(
    binding: &mut PciRootBinding<F>,
    function_id: DeviceNodeId,
    device: DeviceId,
    function: F,
    supported: Vec<PciConfigEffectId>,
    has_resources: bool,
    grants: &mut Vec<RoutedDeviceGrant>,
    admissions: &mut EndpointAdmissions,
    lease: PciBindingLease,
)
    requires
        old(binding).wf(*old(admissions)),
        call_ensures(
            PciRootBinding::<F>::bind_registered_inner,
            (
                binding,
                &function_id,
                device,
                function,
                &supported,
                has_resources,
                grants,
                admissions,
            ),
            Ok(lease),
        ),
    ensures
        lease.token.device == device,
        old(binding).lifecycle.state is Running && final(binding).lifecycle.state is Running,
        !has_resources,
        exists|i: int|
            #![trigger final(binding).root.bindings@[i]]
            {
                &&& 0 <= i < old(binding).root.bindings@.len()
                &&& old(binding).root.topology.functions@[i].id@ == function_id@
                &&& old(binding).root.bindings@[i] is None
                &&& final(binding).root.bindings@[i] == Some(lease.token)
                &&& forall|j: int|
                    #![trigger final(binding).root.bindings@[j]]
                    0 <= j < old(binding).root.bindings@.len() && j != i
                        ==> final(binding).root.bindings@[j] == old(binding).root.bindings@[j]
            },
        exists|k: int|
            #![trigger final(binding).router.endpoints@[k]]
            0 <= k < final(binding).router.endpoints@.len() && final(binding).router.endpoints@[k]
                == (RoutedEndpoint { token: lease.token, function }),
        ({
            let at = lease.token.admission.0 as int;
            &&& at == old(admissions).entries@.len()
            &&& final(admissions).entries@[at].open
            &&& final(admissions).entries@[at].leases == 0
            &&& final(admissions).entries@[at].permits == 0
            &&& final(admissions).entries@[at].generation == lease.token.binding_generation
            &&& final(admissions).entries@[at].epoch == lease.token.admission_epoch
        }),
        final(grants)@.len() == old(grants)@.len() + 1,
        final(grants)@.last().token == lease.token,
        !final(grants)@.last().dma_enabled,
        final(binding).root.functions == old(binding).root.functions,
        final(binding).router.next_generation == old(binding).router.next_generation + 1,
{
    let topology = old(binding).root.topology;
    lemma_position_of(topology, function_id@, 0);
    let position = topology.position_of(function_id@, 0)->0 as int;
    assert(final(binding).root.bindings@[position] == Some(lease.token));
    let entry = RoutedEndpoint { token: lease.token, function };
    let at = choose|at: int|
        0 <= at <= old(binding).router.endpoints@.len() && final(binding).router.endpoints@
            == #[trigger] old(binding).router.endpoints@.insert(at, entry);
    assert(final(binding).router.endpoints@[at] == entry);
    assert(old(admissions).entries@.len() == old(admissions).entries.len());
}

/// A binding is refused outside the running state, for a device that has a route or whose
/// withdrawal is pending, for a function with ordinary resources, and for a function that is
/// not there; a refused binding leaves every function and every route as it was, and hands out
/// no grant.
pub proof fn law_refused_binding_leaves_the_routes<F>(
    binding: &mut PciRootBinding<F>,
    function_id: DeviceNodeId,
    device: DeviceId,
    function: F,
    supported: Vec<PciConfigEffectId>,
    has_resources: bool,
    grants: &mut Vec<RoutedDeviceGrant>,
    admissions: &mut EndpointAdmissions,
    result: DeviceManagerResult<PciBindingLease>,
    i: int,
)
    requires
        old(binding).wf(*old(admissions)),
        call_ensures(
            PciRootBinding::<F>::bind_registered_inner,
            (
                binding,
                &function_id,
                device,
                function,
                &supported,
                has_resources,
                grants,
                admissions,
            ),
            result,
        ),
    ensures
        !(old(binding).lifecycle.state is Running) ==> result is Err,
        has_resources ==> result is Err,
        0 <= i < old(binding).router.endpoints@.len()
            && old(binding).router.endpoints@[i].token.device == device ==> result is Err,
        0 <= i < old(binding).pending_irq_withdrawals@.len()
            && old(binding).pending_irq_withdrawals@[i].device == device ==> result is Err,
        (forall|j: int|
            #![trigger old(binding).root.topology.functions@[j]]
            0 <= j < old(binding).root.topology.functions@.len()
                ==> old(binding).root.topology.functions@[j].id@ != function_id@) ==> result is Err,
        result is Err ==> {
            &&& final(binding).root.bindings@ == old(binding).root.bindings@
            &&& final(binding).router.endpoints@ == old(binding).router.endpoints@
            &&& final(grants)@ == old(grants)@
            &&& final(binding).lifecycle.state == old(binding).lifecycle.state
        },
{
    let topology = old(binding).root.topology;
    lemma_position_of(topology, function_id@, 0);
    if 0 <= i < old(binding).router.endpoints@.len()
        && old(binding).router.endpoints@[i].token.device == device {
        assert(old(binding).router.has_device(device));
    }
    if 0 <= i < old(binding).pending_irq_withdrawals@.len()
        && old(binding).pending_irq_withdrawals@[i].device == device {
        assert(old(binding).is_pending(device));
    }
}

/// The config effects of an endpoint have to be those that its capabilities declare, each named
/// once.
pub proof fn law_effects_are_those_declared(
    supported: Vec<PciConfigEffectId>,
    capabilities: Vec<PciCapabilityLayout>,
    fault: Option<ConfigFault>,
)
    requires
        call_ensures(config_effect_fault, (&supported, &capabilities), fault),
    ensures
        fault is None <==> {
            &&& supported@.no_duplicates()
            &&& forall|i: int|
                #![trigger supported@[i]]
                0 <= i < supported@.len() ==> exists|c: int, e: int|
                    #![trigger capabilities@[c].spec.effects@[e]]
                    0 <= c < capabilities@.len() && 0 <= e < capabilities@[c].spec.effects@.len()
                        && capabilities@[c].spec.effects@[e].effect == supported@[i]
            &&& forall|c: int, e: int|
                #![trigger capabilities@[c].spec.effects@[e]]
                0 <= c < capabilities@.len() && 0 <= e < capabilities@[c].spec.effects@.len()
                    ==> supported@.contains(capabilities@[c].spec.effects@[e].effect)
        },
{
    if fault is None {
        assert forall|i: int, j: int| 0 <= i < j < supported@.len() implies supported@[i]
            != supported@[j] by {
            assert(advertised_fault(supported@, capabilities@, j) is None);
            if supported@[i] == supported@[j] {
                assert(supported@.take(j)[i] == supported@[j]);
                assert(supported@.take(j).contains(supported@[j]));
            }
        }
        assert forall|i: int|
            #![trigger supported@[i]]
            0 <= i < supported@.len() implies declares_effect(capabilities@, supported@[i]) by {
            assert(advertised_fault(supported@, capabilities@, i) is None);
        }
    }
    if supported@.no_duplicates() {
        assert forall|i: int|
            #![trigger supported@[i]]
            0 <= i < supported@.len() implies !supported@.take(i).contains(supported@[i]) by {
            if supported@.take(i).contains(supported@[i]) {
                let j = choose|j: int| 0 <= j < i && supported@.take(i)[j] == supported@[i];
                assert(supported@[j] == supported@[i]);
            }
        }
    }
}

/// A device that is withdrawn is gone: no function and no route leads to it, and its admission
/// is closed. Other functions keep their endpoints, and nobody else's admission changes. Where
/// lowering its line failed, the withdrawal stays pending; with an interrupt permit out, the
/// endpoint is not even asked.
pub proof fn law_withdrawn_device_is_gone<F: PciFunction>(
    binding: &mut PciRootBinding<F>,
    device: DeviceId,
    admissions: &mut EndpointAdmissions,
    result: DeviceManagerResult<()>,
    i: int,
    j: int,
    k: int,
)
    requires
        old(binding).wf(*old(admissions)),
        call_ensures(
            PciRootBinding::<F>::withdraw_device,
            (binding, device, admissions),
            result,
        ),
        0 <= i < old(binding).root.bindings@.len(),
        0 <= j < old(binding).router.endpoints@.len(),
        0 <= k < final(binding).router.endpoints@.len(),
    ensures
        ({
            let before = old(binding).root.bindings@[i];
            let after = final(binding).root.bindings@[i];
            &&& before is Some && before->0.device == device ==> after is None
            &&& !(before is Some && before->0.device == device) ==> after == before
        }),
        final(binding).router.endpoints@[k].token.device != device,
        old(binding).router.endpoints@.contains(final(binding).router.endpoints@[k]),
        ({
            let route = old(binding).router.endpoints@[j];
            let at = route.token.admission.0 as int;
            &&& route.token.device == device ==> {
                &&& !final(admissions).entries@[at].open
                &&& final(binding).router.endpoints@.len() == old(binding).router.endpoints@.len()
                    - 1
                &&& result is Err ==> {
                    &&& final(binding).pending_irq_withdrawals@.len()
                        == old(binding).pending_irq_withdrawals@.len() + 1
                    &&& final(binding).pending_irq_withdrawals@.last().device == device
                    &&& final(binding).pending_irq_withdrawals@.last().admission
                        == route.token.admission
                }
                &&& old(admissions).entries@[at].permits > 0 ==> result is Err
                    && final(binding).pending_irq_withdrawals@.last().function == route.function
            }
            &&& route.token.device != device ==> final(admissions).entries@[at]
                == old(admissions).entries@[at]
        }),
        result is Ok ==> final(binding).pending_irq_withdrawals@
            == old(binding).pending_irq_withdrawals@,
        final(binding).lifecycle == old(binding).lifecycle,
{
    let (asked, told) = choose|asked: Option<&mut F>, told: F|
        {
            &&& #[trigger] is_withdrawal(
                asked,
                *old(binding),
                *final(binding),
                *old(admissions),
                *final(admissions),
                device,
                told,
                result,
            )
            &&& asked is Some ==> *final(asked->0) == told
        };
    crate::pci::withdrawal::lemma_withdrawal_effects(
        asked,
        *old(binding),
        *final(binding),
        *old(admissions),
        *final(admissions),
        device,
        told,
        result,
    );
    let route = old(binding).router.endpoints@[j];
    if final(binding).router.endpoints@[k].token.device == device {
        assert(final(binding).router.has_device(device));
    }
    assert(old(admissions).has(route.token.admission));
    if old(binding).router.has_device(device) {
        let r = choose|r: int|
            #[trigger] is_endpoint_withdrawal(
                asked,
                *old(binding),
                *final(binding),
                *old(admissions),
                *final(admissions),
                device,
                r,
                told,
                result,
            );
        assert(is_endpoint_withdrawal(
            asked,
            *old(binding),
            *final(binding),
            *old(admissions),
            *final(admissions),
            device,
            r,
            told,
            result,
        ));
        let entry = old(binding).router.endpoints@[r];
        assert(old(admissions).has(entry.token.admission));
        if route.token.device == device {
            assert(r == j);
        } else {
            assert(r != j);
            assert(entry.token.admission != route.token.admission);
        }
    } else {
        assert(route.token.device != device);
    }
}

/// Withdrawing undoes binding: a device that was bound and withdrawn again leaves the functions
/// bound as they were.
pub proof fn law_withdrawal_undoes_binding<F: PciFunction>(
    bind: &mut PciRootBinding<F>,
    withdraw: &mut PciRootBinding<F>,
    function_id: DeviceNodeId,
    device: DeviceId,
    function: F,
    supported: Vec<PciConfigEffectId>,
    grants: &mut Vec<RoutedDeviceGrant>,
    admissions: &mut EndpointAdmissions,
    later: &mut EndpointAdmissions,
    lease: PciBindingLease,
    result: DeviceManagerResult<()>,
)
    requires
        old(bind).wf(*old(admissions)),
        old(bind).routes_agree(),
        call_ensures(
            PciRootBinding::<F>::bind_registered_inner,
            (bind, &function_id, device, function, &supported, false, grants, admissions),
            Ok(lease),
        ),
        *old(withdraw) == *final(bind),
        *old(later) == *final(admissions),
        call_ensures(PciRootBinding::<F>::withdraw_device, (withdraw, device, later), result),
    ensures
        final(withdraw).root.bindings@ == old(bind).root.bindings@,
        final(withdraw).root.functions == old(bind).root.functions,
        final(withdraw).router.endpoints@.len() == old(bind).router.endpoints@.len(),
        !final(later).entries@[lease.token.admission.0 as int].open,
{
    law_bound_endpoint_is_routed(
        bind,
        function_id,
        device,
        function,
        supported,
        false,
        grants,
        admissions,
        lease,
    );
    let (asked, told) = choose|asked: Option<&mut F>, told: F|
        {
            &&& #[trigger] is_withdrawal(
                asked,
                *old(withdraw),
                *final(withdraw),
                *old(later),
                *final(later),
                device,
                told,
                result,
            )
            &&& asked is Some ==> *final(asked->0) == told
        };
    assert(!old(bind).router.has_device(device));
    let k = choose|k: int|
        #![trigger final(bind).router.endpoints@[k]]
        0 <= k < final(bind).router.endpoints@.len() && final(bind).router.endpoints@[k] == (
        RoutedEndpoint { token: lease.token, function });
    assert(old(withdraw).router.has_device(device));
    let r = choose|r: int|
        #[trigger] is_endpoint_withdrawal(
            asked,
            *old(withdraw),
            *final(withdraw),
            *old(later),
            *final(later),
            device,
            r,
            told,
            result,
        );
    assert(old(withdraw).router.endpoints@[r].token.device
        == old(withdraw).router.endpoints@[k].token.device);
    assert(r == k);
    assert(final(withdraw).root.bindings@.len() == old(bind).root.bindings@.len());
    assert forall|i: int| 0 <= i < old(bind).root.bindings@.len()
        implies final(withdraw).root.bindings@[i] == old(bind).root.bindings@[i] by {
        let before = old(bind).root.bindings@[i];
        if before is Some {
            assert(old(bind).router.has_token(before->0));
            assert(before->0.device != device);
        }
        assert(final(bind).root.bindings@[i] == before || final(bind).root.bindings@[i] == Some(
            lease.token,
        ));
    }
    assert(final(withdraw).root.bindings@ =~= old(bind).root.bindings@);
}

/// A reset that succeeds leaves the root running, with no withdrawal put off, every function as
/// at power on, and every route one epoch further behind an open admission; one that fails
/// leaves it failed, with every route closed; a root that is not running is not reset.
pub proof fn law_reset_starts_every_route_over<F: PciFunction>(
    binding: &mut PciRootBinding<F>,
    admissions: &mut EndpointAdmissions,
    result: DeviceManagerResult<()>,
    i: int,
    f: int,
)
    requires
        old(binding).wf(*old(admissions)),
        call_ensures(PciRootBinding::<F>::reset_lifecycle, (binding, admissions), result),
        0 <= i < final(binding).router.endpoints@.len(),
        0 <= f < final(binding).root.functions@.len(),
    ensures
        ({
            let route = final(binding).router.endpoints@[i].token;
            let at = route.admission.0 as int;
            let state = final(binding).root.functions@[f];
            &&& !(old(binding).lifecycle.state is Running) ==> result is Err && *final(binding)
                == *old(binding) && *final(admissions) == *old(admissions)
            &&& old(binding).lifecycle.state is Running && result is Ok ==> {
                &&& final(binding).lifecycle.state is Running
                &&& final(binding).lifecycle.pending_binding_withdrawals@.len() == 0
                &&& final(admissions).entries@[at].open
                &&& exists|j: int|
                    #![trigger old(binding).router.endpoints@[j]]
                    {
                        &&& 0 <= j < old(binding).router.endpoints@.len()
                        &&& old(binding).router.endpoints@[j].token.device == route.device
                        &&& old(binding).router.endpoints@[j].token.binding_generation
                            == route.binding_generation
                        &&& old(binding).router.endpoints@[j].token.admission_epoch + 1
                            == route.admission_epoch
                    }
                &&& state.config@ == state.power_on.bytes@
                &&& forall|b: int|
                    #![trigger state.bars@[b]]
                    0 <= b < state.bars@.len() ==> !state.bars@[b].probing && state.bars@[b].address
                        == state.bars@[b].plan.address
                &&& old(binding).routes_agree() && final(binding).root.bindings@[f] is Some
                    ==> exists|k: int|
                    #![trigger final(binding).router.endpoints@[k]]
                    0 <= k < final(binding).router.endpoints@.len()
                        && final(binding).router.endpoints@[k].token == final(
                        binding).root.bindings@[f]->0
            }
            &&& old(binding).lifecycle.state is Running && result is Err ==> {
                &&& final(binding).lifecycle.state is ResetFailed
                &&& !final(admissions).entries@[at].open
            }
        }),
{
    if old(binding).lifecycle.state is Running && result is Ok {
        assert(final(binding).root.functions@[f].at_power_on());
        if old(binding).routes_agree() && final(binding).root.bindings@[f] is Some {
            assert(final(binding).router.has_token(final(binding).root.bindings@[f]->0));
        }
        assert(crate::pci::reset::is_next_epoch_of(
            old(binding).router.endpoints@,
            final(binding).router.endpoints@[i],
        ));
    }
}

/// A stopped root is dead: it has no routes and no withdrawals pending, every admission of its
/// routes is closed, and what could not be withdrawn is handed on.
pub proof fn law_stopped_root_is_dead<F: PciFunction>(
    binding: &mut PciRootBinding<F>,
    orphaned: &mut Vec<PendingIrqWithdrawal<F>>,
    admissions: &mut EndpointAdmissions,
    i: int,
    j: int,
)
    requires
        old(binding).wf(*old(admissions)),
        call_ensures(PciRootBinding::<F>::stop, (binding, orphaned, admissions), ()),
        0 <= i < old(binding).router.endpoints@.len(),
        0 <= j < old(orphaned)@.len(),
    ensures
        final(binding).lifecycle.state is Dead,
        final(binding).router.endpoints@.len() == 0,
        final(binding).pending_irq_withdrawals@.len() == 0,
        !final(admissions).entries@[old(binding).router.endpoints@[i].token.admission.0 as int].open,
        final(orphaned)@.len() >= old(orphaned)@.len(),
        final(orphaned)@[j] == old(orphaned)@[j],
        old(admissions).entries@[old(binding).router.endpoints@[i].token.admission.0 as int].permits > 0 ==> exists|o: int|
            #![trigger final(orphaned)@[o]]
            0 <= o < final(orphaned)@.len() && final(orphaned)@[o] == (PendingIrqWithdrawal {
                device: old(binding).router.endpoints@[i].token.device,
                function: old(binding).router.endpoints@[i].function,
                admission: old(binding).router.endpoints@[i].token.admission,
            }),
{
    let endpoints = old(binding).router.endpoints@;
    let at = endpoints[i].token.admission.0 as int;
    assert(old(admissions).has(endpoints[i].token.admission));
    assert(is_routed(endpoints, at));
    assert(!final(admissions).entries@[at].open);
    let owners = old(binding).pending_irq_withdrawals@ + crate::pci::withdrawal::withdrawals_of(
        endpoints,
    );
    let (asked, told, failed, outcomes, result) = choose|
        asked: Seq<Option<&mut F>>,
        told: Seq<F>,
        failed: Seq<PendingIrqWithdrawal<F>>,
        outcomes: Seq<DeviceManagerResult<()>>,
        result: DeviceManagerResult<()>,
    |
        {
            &&& #[trigger] is_retry(
                asked,
                owners,
                told,
                failed,
                *final(admissions),
                outcomes,
                result,
            )
            &&& final(orphaned)@ == old(orphaned)@ + failed
        };
    assert(final(orphaned)@[j] == (old(orphaned)@ + failed)[j]);
    if old(admissions).entries@[at].permits > 0 {
        let o = old(binding).pending_irq_withdrawals@.len() + i;
        assert(owners[o].admission == endpoints[i].token.admission);
        crate::pci::lifecycle::law_retry_keeps_failed_owners(
            asked,
            owners,
            told,
            failed,
            *final(admissions),
            outcomes,
            result,
            o,
        );
        assert(failed.contains(owners[o]));
        let q = choose|q: int| 0 <= q < failed.len() && failed[q] == owners[o];
        assert(final(orphaned)@[old(orphaned)@.len() + q] == owners[o]);
    }
}

/// Trying the pending withdrawals again keeps those that fail, in particular every one with an
/// interrupt permit out, and drops the others; it succeeds with none left.
pub proof fn law_failed_withdrawals_stay_pending<F: PciFunction>(
    pending: &mut Vec<PendingIrqWithdrawal<F>>,
    admissions: EndpointAdmissions,
    result: DeviceManagerResult<()>,
    i: int,
)
    requires
        call_ensures(
            retry_pending_irq_withdrawals::<F>,
            (pending, &admissions),
            result,
        ),
        0 <= i < old(pending)@.len(),
    ensures
        result is Ok <==> final(pending)@.len() == 0,
        final(pending)@.len() <= old(pending)@.len(),
        admissions.entries@[old(pending)@[i].admission.0 as int].permits > 0 ==> result is Err
            && final(pending)@.contains(old(pending)@[i]),
{
    let (asked, told, outcomes) = choose|
        asked: Seq<Option<&mut F>>,
        told: Seq<F>,
        outcomes: Seq<DeviceManagerResult<()>>,
    |
        #[trigger] is_retry(
            asked,
            old(pending)@,
            told,
            final(pending)@,
            admissions,
            outcomes,
            result,
        );
    assert(is_retry(asked, old(pending)@, told, final(pending)@, admissions, outcomes, result));
    lemma_still_pending(old(pending)@, told, outcomes, old(pending)@.len() as int);
    crate::pci::lifecycle::law_retry_keeps_failed_owners(
        asked,
        old(pending)@,
        told,
        final(pending)@,
        admissions,
        outcomes,
        result,
        i,
    );
    assert(is_withdrawal_outcome(asked[i], old(pending)@[i], told[i], admissions, outcomes[i]));
}

/// What is left after a failure is not empty, and never more than there was.
proof fn lemma_still_pending<F>(
    pending: Seq<PendingIrqWithdrawal<F>>,
    told: Seq<F>,
    outcomes: Seq<DeviceManagerResult<()>>,
    count: int,
)
    requires
        0 <= count <= outcomes.len(),
    ensures
        still_pending(pending, told, outcomes, count).len() <= count,
        first_failure(outcomes, count) is Ok <==> still_pending(
            pending,
            told,
            outcomes,
            count,
        ).len() == 0,
    decreases count,
{
    if count > 0 {
        lemma_still_pending(pending, told, outcomes, count - 1);
    }
}

/// Withdrawals that are handed on go behind those that are there, in their order.
pub proof fn law_withdrawals_are_handed_on<F>(
    pending: &mut Vec<PendingIrqWithdrawal<F>>,
    orphaned: &mut Vec<PendingIrqWithdrawal<F>>,
    i: int,
)
    requires
        call_ensures(transfer_pending_irq_withdrawals::<F>, (pending, orphaned), ()),
        0 <= i < old(pending)@.len() + old(orphaned)@.len(),
    ensures
        final(pending)@.len() == 0,
        final(orphaned)@.len() == old(pending)@.len() + old(orphaned)@.len(),
        i < old(orphaned)@.len() ==> final(orphaned)@[i] == old(orphaned)@[i],
        i >= old(orphaned)@.len() ==> final(orphaned)@[i]
            == old(pending)@[i - old(orphaned)@.len()],
{
}

/// A reset begins only while the root runs and no route is at its last epoch; it then waits in the
/// resetting state, and a reset that is given up leaves the root failed with every route closed.
pub proof fn law_abandoned_reset_closes_the_routes<F: PciFunction>(
    begin: &mut PciRootBinding<F>,
    finish: &mut PciRootBinding<F>,
    admissions: &mut EndpointAdmissions,
    later: &mut EndpointAdmissions,
    progress: ResetProgress,
    outcome: DeviceManagerResult<()>,
    result: DeviceManagerResult<()>,
    i: int,
)
    requires
        old(begin).wf(*old(admissions)),
        call_ensures(PciRootBinding::<F>::begin_reset, (begin, admissions), Ok(progress)),
        *old(finish) == *final(begin),
        *old(later) == *final(admissions),
        outcome is Err,
        call_ensures(
            PciRootBinding::<F>::finish_reset,
            (finish, progress, outcome, later),
            result,
        ),
        0 <= i < final(finish).router.endpoints@.len(),
    ensures
        old(begin).lifecycle.state is Running,
        final(begin).lifecycle.state is Resetting,
        result is Err,
        final(finish).lifecycle.state is ResetFailed,
        !final(later).entries@[final(finish).router.endpoints@[i].token.admission.0 as int].open,
{
}

/// A lease that is given back withdraws its device, unless another operation is going on, which then
/// finds the withdrawal put off, or the root stops; the state that the root is in stays.
pub proof fn law_released_lease_withdraws<F: PciFunction>(
    binding: &mut PciRootBinding<F>,
    lease: PciBindingLease,
    admissions: &mut EndpointAdmissions,
    k: int,
)
    requires
        old(binding).wf(*old(admissions)),
        call_ensures(PciRootBinding::<F>::release_binding, (binding, lease, admissions), ()),
        0 <= k < final(binding).router.endpoints@.len(),
    ensures
        ({
            let state = old(binding).lifecycle.state;
            let free = state is Running || state is ResetFailed;
            let busy = state is Binding || state is Resetting || state is Withdrawing;
            let deferred = old(binding).lifecycle.pending_binding_withdrawals@;
            &&& final(binding).lifecycle.state == state
            &&& free ==> final(binding).router.endpoints@[k].token.device != lease.token.device
            &&& !free ==> final(binding).router == old(binding).router && final(binding).root
                == old(binding).root && *final(admissions) == *old(admissions)
            &&& busy ==> final(binding).lifecycle.pending_binding_withdrawals@ == deferred.push(
                lease.token.device,
            )
            &&& !busy ==> final(binding).lifecycle.pending_binding_withdrawals@ == deferred
        }),
{
    let state = old(binding).lifecycle.state;
    if state is Running || state is ResetFailed {
        let (asked, before, after, told, result) = choose|
            asked: Option<&mut F>,
            before: PciRootBinding<F>,
            after: PciRootBinding<F>,
            told: F,
            result: DeviceManagerResult<()>,
        |
            {
                &&& #[trigger] is_withdrawal(
                    asked,
                    before,
                    after,
                    *old(admissions),
                    *final(admissions),
                    lease.token.device,
                    told,
                    result,
                )
                &&& before == (PciRootBinding { lifecycle: before.lifecycle, ..*old(binding) })
                &&& *final(binding) == (PciRootBinding {
                    lifecycle: final(binding).lifecycle,
                    ..after
                })
            };
        assert(before.wf(*old(admissions)));
        crate::pci::withdrawal::lemma_withdrawal_effects(
            asked,
            before,
            after,
            *old(admissions),
            *final(admissions),
            lease.token.device,
            told,
            result,
        );
        if final(binding).router.endpoints@[k].token.device == lease.token.device {
            assert(after.router.endpoints@[k].token.device == lease.token.device);
            assert(after.router.has_device(lease.token.device));
        }
    }
}

} // verus!
