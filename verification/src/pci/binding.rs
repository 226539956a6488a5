//! Runtime-authenticated PCI endpoint binding.

use crate::access::{ConfigFault, DeviceId, DeviceManagerError, DeviceManagerResult, DeviceNodeId};
use crate::pci::capability::PciConfigEffectId;
use crate::pci::contract::config_effect_fault;
#[allow(unused_imports)]
use crate::pci::contract::{effects_match, is_effect_fault};
use crate::pci::endpoint::PciFunction;
use crate::pci::error::PciError;
use crate::pci::lifecycle::{BindingLifecycle, BindingLifecycleState};
#[allow(unused_imports)]
use crate::pci::lifecycle::not_running;
use crate::pci::root::PciRootState;
use crate::pci::router::{EndpointRouter, PendingIrqWithdrawal, RoutedEndpoint};
#[allow(unused_imports)]
use crate::pci::router::is_removal;
use crate::pci::routing::{
    AdmissionId, EndpointAdmission, EndpointAdmissions, EndpointRouteToken, RoutedDeviceGrant,
};
#[allow(unused_imports)]
use crate::pci::topology::lemma_position_of;
use vstd::prelude::*;

verus! {

/// Lease of one endpoint binding; ending it withdraws the endpoint.
#[derive(Debug, PartialEq, Eq)]
pub struct PciBindingLease {
    /// Token that the binding started with.
    pub token: EndpointRouteToken,
}

/// Key of the service under which a PCI host publishes its root binding.
#[derive(Clone, Copy, Debug, PartialEq, Eq, Structural)]
pub struct PciRootBindingKey;

impl PciRootBindingKey {
    /// Returns the name of the service.
    pub fn name() -> (name: &'static str)
        ensures
            name == "pci-root-binding",
    {
        "pci-root-binding"
    }
}

/// Host-owned root binding.
#[derive(Debug)]
pub struct PciRootBinding<F> {
    /// Graph identity of the host.
    pub host: DeviceNodeId,
    /// Config and BAR state.
    pub root: PciRootState,
    /// Bound endpoints.
    pub router: EndpointRouter<F>,
    /// What the binding is doing.
    pub lifecycle: BindingLifecycle,
    /// Endpoints whose interrupt is still to be withdrawn.
    pub pending_irq_withdrawals: Vec<PendingIrqWithdrawal<F>>,
}

impl<F> PciRootBinding<F> {
    /// Root and router are well formed, and pending endpoints name admissions.
    pub open spec fn wf(self, admissions: EndpointAdmissions) -> bool {
        &&& self.root.wf()
        &&& self.router.wf(admissions)
        &&& forall|i: int|
            #![trigger self.pending_irq_withdrawals@[i]]
            0 <= i < self.pending_irq_withdrawals@.len() ==> admissions.has(
                self.pending_irq_withdrawals@[i].admission,
            )
    }

    /// Whether root and router agree on what is bound: every token that the root
    /// holds leads to an endpoint, every endpoint is bound to a function, and no
    /// two functions share a device.
    pub open spec fn routes_agree(self) -> bool {
        &&& forall|i: int|
            #![trigger self.root.bindings@[i]]
            0 <= i < self.root.bindings@.len() && self.root.bindings@[i] is Some
                ==> self.router.has_token(self.root.bindings@[i]->0)
        &&& forall|j: int|
            #![trigger self.router.endpoints@[j]]
            0 <= j < self.router.endpoints@.len() ==> self.root.bindings@.contains(
                Some(self.router.endpoints@[j].token),
            )
        &&& forall|i: int, j: int|
            #![trigger self.root.bindings@[i], self.root.bindings@[j]]
            0 <= i < j < self.root.bindings@.len() && self.root.bindings@[i] is Some
                && self.root.bindings@[j] is Some ==> self.root.bindings@[i]->0.device
                != self.root.bindings@[j]->0.device
    }

    /// Creates a binding service for one resolved host root.
    pub fn new(host: DeviceNodeId, root: PciRootState) -> (binding: Self)
        requires
            root.wf(),
        ensures
            binding.host == host,
            binding.root == root,
            binding.router.endpoints@.len() == 0,
            binding.router.next_generation == 0,
            binding.lifecycle.state == BindingLifecycleState::Running,
            binding.lifecycle.pending_binding_withdrawals@.len() == 0,
            binding.pending_irq_withdrawals@.len() == 0,
            forall|admissions: EndpointAdmissions| #[trigger] binding.wf(admissions),
            (forall|i: int|
                #![trigger root.bindings@[i]]
                0 <= i < root.bindings@.len() ==> root.bindings@[i] is None)
                ==> binding.routes_agree(),
    {
        PciRootBinding {
            host,
            root,
            router: EndpointRouter::new(),
            lifecycle: BindingLifecycle::new(),
            pending_irq_withdrawals: Vec::new(),
        }
    }

    /// Returns the host graph identity publishing this service.
    pub fn host(&self) -> (host: &DeviceNodeId)
        ensures
            *host == self.host,
    {
        &self.host
    }

    /// Whether an endpoint of `device` still has to withdraw its interrupt.
    pub open spec fn is_pending(self, device: DeviceId) -> bool {
        exists|i: int|
            #![trigger self.pending_irq_withdrawals@[i]]
            0 <= i < self.pending_irq_withdrawals@.len()
                && self.pending_irq_withdrawals@[i].device == device
    }

    /// Returns whether an endpoint of `device` still has to withdraw its interrupt.
    pub fn has_pending_irq_withdrawal(&self, device: DeviceId) -> (pending: bool)
        ensures
            pending == self.is_pending(device),
    {
        let mut i: usize = 0;
        while i < self.pending_irq_withdrawals.len()
            invariant
                i <= self.pending_irq_withdrawals@.len(),
                forall|j: int|
                    #![trigger self.pending_irq_withdrawals@[j]]
                    0 <= j < i ==> self.pending_irq_withdrawals@[j].device != device,
            decreases self.pending_irq_withdrawals@.len() - i,
        {
            if self.pending_irq_withdrawals[i].device == device {
                assert(self.pending_irq_withdrawals@[i as int].device == device);
                return true;
            }
            i = i + 1;
        }
        false
    }
}

/// The error for a device whose previous endpoint still owns an interrupt.
pub open spec fn withdrawal_still_pending() -> DeviceManagerError {
    DeviceManagerError::InvalidState {
        operation: "bind PCI endpoint route",
        detail: "the previous PCI endpoint IRQ withdrawal is still pending",
    }
}

/// The error for an endpoint that cannot be bound as configured.
pub open spec fn bind_config_error(function: DeviceNodeId, detail: ConfigFault) -> DeviceManagerError {
    DeviceManagerError::InvalidConfig { operation: "bind PCI endpoint route", function, detail }
}

impl<F> PciRootBinding<F> {
    /// Whether binding is refused before anything changes, and with which error.
    pub open spec fn is_bind_refusal(
        self,
        function_id: DeviceNodeId,
        device: DeviceId,
        supported: Seq<PciConfigEffectId>,
        has_resources: bool,
        error: DeviceManagerError,
    ) -> bool {
        let position = self.root.topology.position_of(function_id@, 0);
        if position is None {
            error == DeviceManagerError::Pci(PciError::UnknownFunction { function: function_id })
        } else {
            let capabilities = self.root.topology.functions@[position->0 as int].power_on.capabilities@;
            if !effects_match(supported, capabilities) {
                exists|fault: ConfigFault|
                    #[trigger] is_effect_fault(supported, capabilities, fault) && error
                        == bind_config_error(function_id, fault)
            } else if has_resources {
                error == bind_config_error(function_id, ConfigFault::OrdinaryResources)
            } else if self.lifecycle.state != BindingLifecycleState::Running {
                error == not_running("bind PCI endpoint route")
            } else if self.is_pending(device) {
                error == withdrawal_still_pending()
            } else if self.router.has_device(device) {
                error == (DeviceManagerError::ResourceConflict {
                    operation: "bind PCI endpoint route",
                    device,
                })
            } else if self.router.next_generation == u64::MAX {
                error == (DeviceManagerError::InvalidState {
                    operation: "bind PCI endpoint route",
                    detail: "PCI binding generation is exhausted",
                })
            } else {
                false
            }
        }
    }

    /// Whether an endpoint may be bound, but for one that the function may have.
    pub open spec fn is_bindable(
        self,
        function_id: Seq<char>,
        device: DeviceId,
        supported: Seq<PciConfigEffectId>,
        has_resources: bool,
    ) -> bool {
        &&& self.root.topology.position_of(function_id, 0) is Some
        &&& effects_match(
            supported,
            self.root.topology.functions@[self.root.topology.position_of(
                function_id,
                0,
            )->0 as int].power_on.capabilities@,
        )
        &&& !has_resources
        &&& self.lifecycle.state == BindingLifecycleState::Running
        &&& !self.is_pending(device)
        &&& !self.router.has_device(device)
        &&& self.router.next_generation < u64::MAX
    }

    /// The token that the next binding of `device` gets.
    pub open spec fn next_token(self, admissions: EndpointAdmissions, device: DeviceId) -> EndpointRouteToken {
        EndpointRouteToken {
            device,
            binding_generation: (self.router.next_generation + 1) as u64,
            admission_epoch: 1,
            admission: AdmissionId(admissions.entries@.len() as usize),
        }
    }

    /// Checks that an endpoint that advertises `supported` fits a function.
    ///
    /// # Errors
    ///
    /// Returns [`DeviceManagerError::Pci`] for an unknown function, and
    /// [`DeviceManagerError::InvalidConfig`] for an effect that is advertised
    /// twice, advertised and not declared, or declared and not advertised.
    pub fn validate_config_effect_contract(
        &self,
        function_id: &DeviceNodeId,
        supported: &Vec<PciConfigEffectId>,
    ) -> (result: DeviceManagerResult<()>)
        ensures
            match self.root.topology.position_of(function_id@, 0) {
                None => result == Err::<(), DeviceManagerError>(
                    DeviceManagerError::Pci(PciError::UnknownFunction { function: *function_id }),
                ),
                Some(position) => {
                    let capabilities = self.root.topology.functions@[position as int].power_on.capabilities@;
                    if effects_match(supported@, capabilities) {
                        result is Ok
                    } else {
                        result is Err && exists|fault: ConfigFault|
                            #[trigger] is_effect_fault(supported@, capabilities, fault)
                                && result->Err_0 == bind_config_error(*function_id, fault)
                    }
                },
            },
    {
        let position: usize = match self.root.topology.function_position(function_id) {
            Some(position) => position,
            None => {
                return Err(
                    DeviceManagerError::Pci(
                        PciError::UnknownFunction { function: function_id.clone() },
                    ),
                );
            },
        };
        match config_effect_fault(
            supported,
            self.root.topology.functions[position].capabilities(),
        ) {
            None => Ok(()),
            Some(detail) => Err(
                DeviceManagerError::InvalidConfig {
                    operation: "bind PCI endpoint route",
                    function: function_id.clone(),
                    detail,
                },
            ),
        }
    }

    /// Binds an endpoint that advertises `supported` to a function.
    ///
    /// # Errors
    ///
    /// Returns [`DeviceManagerError::Pci`] for an unknown or already bound
    /// function, [`DeviceManagerError::InvalidConfig`] for an endpoint that does
    /// not fit it, [`DeviceManagerError::InvalidState`] while the binding is not
    /// running or the device's previous interrupt is not withdrawn, and
    /// [`DeviceManagerError::ResourceConflict`] for a device with an endpoint.
    pub fn bind_registered_inner(
        &mut self,
        function_id: &DeviceNodeId,
        device: DeviceId,
        function: F,
        supported: &Vec<PciConfigEffectId>,
        has_resources: bool,
        routed_grants: &mut Vec<RoutedDeviceGrant>,
        admissions: &mut EndpointAdmissions,
    ) -> (result: DeviceManagerResult<PciBindingLease>)
        requires
            old(self).wf(*old(admissions)),
        ensures
            final(self).wf(*final(admissions)),
            old(self).routes_agree() ==> final(self).routes_agree(),
            is_binding(
                *old(self),
                *final(self),
                *old(admissions),
                *final(admissions),
                old(routed_grants)@,
                final(routed_grants)@,
                *function_id,
                device,
                function,
                supported@,
                has_resources,
                result,
            ),
    {
        if let Err(error) = self.validate_config_effect_contract(function_id, supported) {
            return Err(error);
        }
        if has_resources {
            return Err(
                DeviceManagerError::InvalidConfig {
                    operation: "bind PCI endpoint route",
                    function: function_id.clone(),
                    detail: ConfigFault::OrdinaryResources,
                },
            );
        }
        // The operation owns the state from here to publication, so that a full
        // reset cannot rotate the route between those steps.
        let operation = match self.lifecycle.begin_binding_operation() {
            Ok(operation) => operation,
            Err(error) => {
                return Err(error);
            },
        };
        if self.has_pending_irq_withdrawal(device) {
            self.lifecycle.finish_restore(operation);
            return Err(
                DeviceManagerError::InvalidState {
                    operation: "bind PCI endpoint route",
                    detail: "the previous PCI endpoint IRQ withdrawal is still pending",
                },
            );
        }
        let token = match self.router.activate(device, function, admissions) {
            Ok(token) => token,
            Err(error) => {
                self.lifecycle.finish_restore(operation);
                return Err(error);
            },
        };
        let ghost activated = *self;
        let ghost activated_admissions = *admissions;
        match self.root.bind_endpoint(function_id, token) {
            Ok(()) => {
                routed_grants.push(token.grant(false));
                self.lifecycle.finish_restore(operation);
                proof {
                    lemma_position_of(old(self).root.topology, function_id@, 0);
                    lemma_bind_keeps_routes(
                        *old(self),
                        *self,
                        token,
                        function,
                        old(self).root.topology.position_of(function_id@, 0)->0 as int,
                    );
                }
                Ok(PciBindingLease { token })
            },
            Err(error) => {
                let removed = self.router.invalidate(&token, admissions);
                proof {
                    lemma_rollback(
                        old(self).router,
                        activated.router,
                        self.router,
                        activated_admissions,
                        token,
                        function,
                        removed,
                    );
                    assert(admissions.entries@ =~= old(admissions).entries@.push(
                        EndpointAdmission {
                            open: false,
                            ..EndpointAdmission::fresh(token.binding_generation, 1)
                        },
                    ));
                }
                self.lifecycle.finish_restore(operation);
                Err(DeviceManagerError::Pci(error))
            },
        }
    }
}

/// Whether binding an endpoint, which says this of itself, turns `before` into
/// `after`: it is refused and nothing changes, the function has an endpoint and
/// only a generation is used up, or the endpoint gets the next token.
pub open spec fn is_binding<F>(
    before: PciRootBinding<F>,
    after: PciRootBinding<F>,
    old_admissions: EndpointAdmissions,
    new_admissions: EndpointAdmissions,
    old_grants: Seq<RoutedDeviceGrant>,
    new_grants: Seq<RoutedDeviceGrant>,
    function_id: DeviceNodeId,
    device: DeviceId,
    function: F,
    supported: Seq<PciConfigEffectId>,
    has_resources: bool,
    result: DeviceManagerResult<PciBindingLease>,
) -> bool {
    let token = before.next_token(old_admissions, device);
    let position = before.root.topology.position_of(function_id@, 0)->0 as int;
    let barrier = EndpointAdmission::fresh(token.binding_generation, 1);
    &&& after.host == before.host
    &&& after.lifecycle.state == before.lifecycle.state
    &&& after.lifecycle.pending_binding_withdrawals == before.lifecycle.pending_binding_withdrawals
    &&& after.pending_irq_withdrawals == before.pending_irq_withdrawals
    &&& after.root.topology == before.root.topology
    &&& after.root.functions == before.root.functions
    &&& if !before.is_bindable(function_id@, device, supported, has_resources) {
        &&& result matches Err(error)
        &&& before.is_bind_refusal(function_id, device, supported, has_resources, error)
        &&& after.root.bindings@ == before.root.bindings@
        &&& after.router == before.router
        &&& new_admissions.entries@ == old_admissions.entries@
        &&& new_grants == old_grants
    } else if before.root.bindings@[position] is Some {
        &&& result == Err::<PciBindingLease, DeviceManagerError>(
            DeviceManagerError::Pci(PciError::FunctionAlreadyBound { function: function_id }),
        )
        &&& after.root.bindings@ == before.root.bindings@
        &&& after.router.next_generation == before.router.next_generation + 1
        &&& after.router.endpoints@ == before.router.endpoints@
        &&& new_admissions.entries@ == old_admissions.entries@.push(
            EndpointAdmission { open: false, ..barrier },
        )
        &&& new_grants == old_grants
    } else {
        &&& result == Ok::<PciBindingLease, DeviceManagerError>(PciBindingLease { token })
        &&& after.root.bindings@ == before.root.bindings@.update(position, Some(token))
        &&& after.router.next_generation == before.router.next_generation + 1
        &&& exists|at: int|
            0 <= at <= before.router.endpoints@.len() && after.router.endpoints@
                == #[trigger] before.router.endpoints@.insert(
                at,
                RoutedEndpoint { token, function },
            )
        &&& new_admissions.entries@ == old_admissions.entries@.push(barrier)
        &&& new_grants == old_grants.push(RoutedDeviceGrant { token, dma_enabled: false })
    }
}

/// Binding one more endpoint keeps root and router in agreement.
pub proof fn lemma_bind_keeps_routes<F>(
    before: PciRootBinding<F>,
    after: PciRootBinding<F>,
    token: EndpointRouteToken,
    function: F,
    position: int,
)
    requires
        exists|at: int|
            0 <= at <= before.router.endpoints@.len() && after.router.endpoints@
                == #[trigger] before.router.endpoints@.insert(
                at,
                RoutedEndpoint { token, function },
            ),
        0 <= position < before.root.bindings@.len(),
        before.root.bindings@[position] is None,
        !before.router.has_device(token.device),
        after.root.bindings@ == before.root.bindings@.update(position, Some(token)),
    ensures
        before.routes_agree() ==> after.routes_agree(),
{
    let at = choose|at: int|
        0 <= at <= before.router.endpoints@.len() && after.router.endpoints@
            == #[trigger] before.router.endpoints@.insert(at, RoutedEndpoint { token, function });
    if before.routes_agree() {
        assert forall|i: int|
            #![trigger after.root.bindings@[i]]
            0 <= i < after.root.bindings@.len()
                && after.root.bindings@[i] is Some implies after.router.has_token(
            after.root.bindings@[i]->0,
        ) by {
            let bound = after.root.bindings@[i]->0;
            if bound == token {
                assert(after.router.endpoints@[at].token == token);
            } else {
                assert(before.root.bindings@[i] == Some(bound));
                let j = choose|j: int|
                    #![trigger before.router.endpoints@[j]]
                    0 <= j < before.router.endpoints@.len() && before.router.endpoints@[j].token
                        == bound;
                if j < at {
                    assert(after.router.endpoints@[j].token == bound);
                } else {
                    assert(after.router.endpoints@[j + 1].token == bound);
                }
            }
        }
        assert forall|j: int|
            #![trigger after.router.endpoints@[j]]
            0 <= j < after.router.endpoints@.len() implies after.root.bindings@.contains(
            Some(after.router.endpoints@[j].token),
        ) by {
            if j == at {
                assert(after.root.bindings@[position] == Some(token));
            } else {
                let k = if j < at {
                    j
                } else {
                    j - 1
                };
                assert(after.router.endpoints@[j] == before.router.endpoints@[k]);
                let i = choose|i: int|
                    0 <= i < before.root.bindings@.len() && before.root.bindings@[i] == Some(
                        before.router.endpoints@[k].token,
                    );
                assert(after.root.bindings@[i] == before.root.bindings@[i]);
            }
        }
        assert forall|i: int|
            #![trigger before.root.bindings@[i]]
            0 <= i < before.root.bindings@.len()
                && before.root.bindings@[i] is Some implies before.root.bindings@[i]->0.device
            != token.device by {
            assert(before.router.has_token(before.root.bindings@[i]->0));
        }
    }
}

/// Ending a binding right after it started gives the endpoints from before.
pub proof fn lemma_rollback<F>(
    before: EndpointRouter<F>,
    activated: EndpointRouter<F>,
    after: EndpointRouter<F>,
    admissions: EndpointAdmissions,
    token: EndpointRouteToken,
    function: F,
    removed: Option<F>,
)
    requires
        activated.wf(admissions),
        exists|at: int|
            0 <= at <= before.endpoints@.len() && activated.endpoints@
                == #[trigger] before.endpoints@.insert(at, RoutedEndpoint { token, function }),
        removed is Some <==> activated.has_token(token),
        removed is Some ==> exists|at: int|
            #[trigger] is_removal(
                activated.endpoints@,
                after.endpoints@,
                at,
                token,
                removed->0,
            ),
    ensures
        removed is Some,
        after.endpoints@ == before.endpoints@,
{
    let at = choose|at: int|
        0 <= at <= before.endpoints@.len() && activated.endpoints@
            == #[trigger] before.endpoints@.insert(at, RoutedEndpoint { token, function });
    assert(activated.endpoints@[at].token == token);
    let i = choose|i: int|
        #[trigger] is_removal(
            activated.endpoints@,
            after.endpoints@,
            i,
            token,
            removed->0,
        );
    assert(i == at) by {
        assert(activated.endpoints@[i].token.device == activated.endpoints@[at].token.device);
    }
    assert(after.endpoints@ =~= before.endpoints@);
}

impl<F: PciFunction> PciRootBinding<F> {
    /// Binds an endpoint to a function.
    ///
    /// # Errors
    ///
    /// As [`PciRootBinding::bind_registered_inner`], for what the endpoint says of
    /// itself.
    pub fn bind_registered(
        &mut self,
        function_id: &DeviceNodeId,
        device: DeviceId,
        function: F,
        routed_grants: &mut Vec<RoutedDeviceGrant>,
        admissions: &mut EndpointAdmissions,
    ) -> (result: DeviceManagerResult<PciBindingLease>)
        requires
            old(self).wf(*old(admissions)),
        ensures
            final(self).wf(*final(admissions)),
            old(self).routes_agree() ==> final(self).routes_agree(),
            exists|supported: Vec<PciConfigEffectId>, has_resources: bool|
                #[trigger] call_ensures(F::supported_config_effects, (&function,), supported)
                    && #[trigger] call_ensures(F::has_resources, (&function,), has_resources)
                    && is_binding(
                    *old(self),
                    *final(self),
                    *old(admissions),
                    *final(admissions),
                    old(routed_grants)@,
                    final(routed_grants)@,
                    *function_id,
                    device,
                    function,
                    supported@,
                    has_resources,
                    result,
                ),
    {
        let supported = function.supported_config_effects();
        let has_resources = function.has_resources();
        assert(call_ensures(F::supported_config_effects, (&function,), supported));
        assert(call_ensures(F::has_resources, (&function,), has_resources));
        self.bind_registered_inner(
            function_id,
            device,
            function,
            &supported,
            has_resources,
            routed_grants,
            admissions,
        )
    }
}

} // verus!
