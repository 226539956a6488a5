//! Routes from the PCI root to the endpoint that answers an access.

use crate::access::{AccessWidth, DeviceError, DeviceResult, ErrorDetail};
#[allow(unused_imports)]
use crate::bytes::lane_scale;
use crate::pci::address::{ConfigOffset, PciBdf};
#[allow(unused_imports)]
use crate::pci::address::{invalid_config_access, valid_config_access};
use crate::pci::binding::PciRootBinding;
use crate::pci::config::PciCommandState;
use crate::pci::effect::{
    PciBarAccess, PciConfigReadEffect, PciConfigReadOutcome, PciConfigWriteEffect,
    PciConfigWriteOutcome,
};
use crate::pci::error::PciError;
use crate::pci::root::PciRootState;
#[allow(unused_imports)]
use crate::pci::root::{admitted_token, bar_serves, is_read_outcome, is_write_outcome};
use crate::pci::router::{EndpointRouter, RoutedEndpointLease};
#[allow(unused_imports)]
use crate::pci::router::stale_token;
use crate::pci::routing::{
    EndpointAdmission, EndpointAdmissions, EndpointRouteToken, RoutedDeviceGrant,
};
#[allow(unused_imports)]
use crate::pci::routing::{leases_exhausted, stale_admission};
use vstd::prelude::*;

verus! {

/// An error of the config space, as a device error.
pub open spec fn config_error(error: PciError) -> DeviceError {
    DeviceError::InvalidInput {
        operation: "access PCI configuration",
        detail: ErrorDetail::Pci(error),
    }
}

/// Reports an error of the config space as a device error.
pub fn pci_config_error(error: PciError) -> (result: DeviceError)
    ensures
        result == config_error(error),
{
    DeviceError::InvalidInput {
        operation: "access PCI configuration",
        detail: ErrorDetail::Pci(error),
    }
}

/// A BAR access on its way to an endpoint.
#[derive(Debug)]
pub struct BarDispatch {
    /// The admitted callback.
    pub routed: RoutedEndpointLease,
    /// What the endpoint is asked.
    pub access: PciBarAccess,
}

/// A config read, complete or on its way to an endpoint.
#[derive(Debug)]
#[allow(inconsistent_fields)]
pub enum ConfigReadDispatch {
    /// This is the value.
    Value(u64),
    /// The endpoint is asked whether an interrupt is pending.
    Status {
        /// The admitted callback.
        routed: RoutedEndpointLease,
        /// Value without the endpoint's part.
        value: u64,
        /// The interrupt-status bit in the value.
        interrupt_status_mask: u64,
    },
    /// The endpoint reads its region.
    Effect {
        /// The admitted callback.
        routed: RoutedEndpointLease,
        /// What the access falls into.
        effect: PciConfigReadEffect,
    },
}

/// A config write, complete or on its way to an endpoint.
#[derive(Debug)]
#[allow(inconsistent_fields)]
pub enum ConfigWriteDispatch {
    /// Nothing is left to do.
    Complete,
    /// The endpoint writes its region.
    Effect {
        /// The admitted callback.
        routed: RoutedEndpointLease,
        /// What the access falls into.
        effect: PciConfigWriteEffect,
    },
    /// The endpoint learns of a command transition.
    Command {
        /// The admitted callback.
        routed: RoutedEndpointLease,
        /// Command register after the write.
        command: PciCommandState,
    },
}

/// Whether a callback routed by `token` was let in, and what then changed.
pub open spec fn is_admission_of<F>(
    router: EndpointRouter<F>,
    before: EndpointAdmissions,
    after: EndpointAdmissions,
    token: EndpointRouteToken,
    dma_enabled: bool,
    routed: RoutedEndpointLease,
) -> bool {
    &&& routed.position < router.endpoints@.len()
    &&& router.endpoints@[routed.position as int].token == token
    &&& routed.lease.admission == token.admission
    &&& routed.grant == (RoutedDeviceGrant { token, dma_enabled })
    &&& before.has(token.admission)
    &&& before.at(token.admission).open
    &&& before.at(token.admission).leases < usize::MAX
    &&& after.entries@ == before.entries@.update(
        token.admission.0 as int,
        EndpointAdmission {
            leases: (before.at(token.admission).leases + 1) as usize,
            ..before.at(token.admission)
        },
    )
}

/// Whether a callback routed by `token` is refused with `error`: the token is
/// stale, its admission closed, or the lease count exhausted.
pub open spec fn is_refusal_of<F>(
    router: EndpointRouter<F>,
    admissions: EndpointAdmissions,
    token: EndpointRouteToken,
    error: DeviceError,
) -> bool {
    if !router.has_token(token) {
        error == stale_token()
    } else if !admissions.at(token.admission).open {
        error == stale_admission()
    } else {
        admissions.at(token.admission).leases == usize::MAX && error == leases_exhausted()
    }
}

impl<F> PciRootBinding<F> {
    /// Ends a callback.
    pub fn finish_dispatch(&self, routed: RoutedEndpointLease, admissions: &mut EndpointAdmissions)
        requires
            self.wf(*old(admissions)),
            old(admissions).has(routed.lease.admission),
            old(admissions).at(routed.lease.admission).leases > 0,
        ensures
            self.wf(*final(admissions)),
            final(admissions).entries@ == old(admissions).after_lease(routed.lease),
    {
        admissions.release(routed.lease);
    }

    /// Whether a BAR access reaches an endpoint or is refused.
    pub open spec fn is_bar_dispatch(
        self,
        before: EndpointAdmissions,
        after: EndpointAdmissions,
        address: u64,
        width: AccessWidth,
        result: DeviceResult<BarDispatch>,
    ) -> bool {
        ||| {
            &&& forall|i: int, b: int|
                #[trigger] bar_serves(
                    self.root.functions@,
                    i,
                    b,
                    address as int,
                    width.bytes() as int,
                ) ==> self.root.bindings@[i] is None
            &&& result == Err::<BarDispatch, DeviceError>(DeviceError::NotFound)
            &&& after.entries@ == before.entries@
        }
        ||| exists|token: EndpointRouteToken, route, command: PciCommandState|
            #[trigger] self.root.is_bound_route(address, width, token, route, command) && (
            match result {
                Ok(dispatch) => is_admission_of(
                    self.router,
                    before,
                    after,
                    token,
                    command.bus_master_enable,
                    dispatch.routed,
                ) && dispatch.access == (PciBarAccess {
                    route,
                    dma_enabled: command.bus_master_enable,
                }),
                Err(error) => is_refusal_of(self.router, before, token, error) && after.entries@
                    == before.entries@,
            })
    }

    /// Finds the endpoint of a BAR access and lets its callback in.
    ///
    /// # Errors
    ///
    /// Returns [`DeviceError::NotFound`] when no bound BAR serves the access,
    /// and [`DeviceError::InvalidState`] when the endpoint does not admit it.
    pub fn route_bar(
        &self,
        address: u64,
        width: AccessWidth,
        admissions: &mut EndpointAdmissions,
    ) -> (result: DeviceResult<BarDispatch>)
        requires
            self.wf(*old(admissions)),
        ensures
            self.wf(*final(admissions)),
            self.is_bar_dispatch(*old(admissions), *final(admissions), address, width, result),
    {
        let (token, route, command) = match self.root.resolve_bound_bar(address, width) {
            Some(found) => found,
            None => {
                return Err(DeviceError::NotFound);
            },
        };
        let result = match self.router.lease(&token, command.bus_master_enable, admissions) {
            Ok(routed) => Ok(
                BarDispatch {
                    routed,
                    access: PciBarAccess::new(route, command.bus_master_enable),
                },
            ),
            Err(error) => Err(error),
        };
        assert(self.root.is_bound_route(address, width, token, route, command));
        result
    }
}

/// Whether a config read outcome of the root is dispatched: a value at once, the
/// rest once the endpoint lets its callback in.
pub open spec fn is_read_dispatch<F>(
    router: EndpointRouter<F>,
    before: EndpointAdmissions,
    after: EndpointAdmissions,
    outcome: Result<PciConfigReadOutcome, PciError>,
    result: DeviceResult<ConfigReadDispatch>,
) -> bool {
    match outcome {
        Err(error) => result == Err::<ConfigReadDispatch, DeviceError>(config_error(error))
            && after.entries@ == before.entries@,
        Ok(PciConfigReadOutcome::Value(value)) => result == Ok::<ConfigReadDispatch, DeviceError>(
            ConfigReadDispatch::Value(value),
        ) && after.entries@ == before.entries@,
        Ok(
            PciConfigReadOutcome::DynamicStatus { token, command, value, interrupt_status_mask },
        ) => match result {
            Ok(dispatch) => {
                &&& dispatch matches ConfigReadDispatch::Status {
                    routed,
                    value: plain,
                    interrupt_status_mask: mask,
                }
                &&& is_admission_of(
                    router,
                    before,
                    after,
                    token,
                    command.bus_master_enable,
                    routed,
                )
                &&& plain == value
                &&& mask == interrupt_status_mask
            },
            Err(error) => is_refusal_of(router, before, token, error) && after.entries@
                == before.entries@,
        },
        Ok(PciConfigReadOutcome::Effect { token, command, effect }) => match result {
            Ok(dispatch) => {
                &&& dispatch matches ConfigReadDispatch::Effect { routed, effect: handed }
                &&& is_admission_of(
                    router,
                    before,
                    after,
                    token,
                    command.bus_master_enable,
                    routed,
                )
                &&& handed == effect
            },
            Err(error) => is_refusal_of(router, before, token, error) && after.entries@
                == before.entries@,
        },
    }
}

/// Whether a config write outcome of the root is dispatched: nothing to do for a
/// complete one and for a command transition without endpoint, the rest once the
/// endpoint lets its callback in.
pub open spec fn is_write_dispatch<F>(
    router: EndpointRouter<F>,
    before: EndpointAdmissions,
    after: EndpointAdmissions,
    outcome: Result<PciConfigWriteOutcome, PciError>,
    result: DeviceResult<ConfigWriteDispatch>,
) -> bool {
    match outcome {
        Err(error) => result == Err::<ConfigWriteDispatch, DeviceError>(config_error(error))
            && after.entries@ == before.entries@,
        Ok(PciConfigWriteOutcome::Complete)
        | Ok(PciConfigWriteOutcome::CommandChanged { token: None, .. }) => result == Ok::<
            ConfigWriteDispatch,
            DeviceError,
        >(ConfigWriteDispatch::Complete) && after.entries@ == before.entries@,
        Ok(PciConfigWriteOutcome::Effect { token, command, effect }) => match result {
            Ok(dispatch) => {
                &&& dispatch matches ConfigWriteDispatch::Effect { routed, effect: handed }
                &&& is_admission_of(
                    router,
                    before,
                    after,
                    token,
                    command.bus_master_enable,
                    routed,
                )
                &&& handed == effect
            },
            Err(error) => is_refusal_of(router, before, token, error) && after.entries@
                == before.entries@,
        },
        Ok(PciConfigWriteOutcome::CommandChanged { token: Some(token), command }) => match result {
            Ok(dispatch) => {
                &&& dispatch matches ConfigWriteDispatch::Command { routed, command: handed }
                &&& is_admission_of(
                    router,
                    before,
                    after,
                    token,
                    command.bus_master_enable,
                    routed,
                )
                &&& handed == command
            },
            Err(error) => is_refusal_of(router, before, token, error) && after.entries@
                == before.entries@,
        },
    }
}

impl<F> PciRootBinding<F> {
    /// Whether the root's outcome of a config read of `bdf` is `outcome`.
    pub open spec fn is_root_read(
        self,
        admissions: EndpointAdmissions,
        bdf: PciBdf,
        offset: ConfigOffset,
        width: AccessWidth,
        outcome: Result<PciConfigReadOutcome, PciError>,
    ) -> bool {
        if !valid_config_access(offset.0 as int, width) {
            outcome == Err::<PciConfigReadOutcome, PciError>(
                invalid_config_access(offset.0, width),
            )
        } else if self.root.is_absent(bdf) {
            outcome == Ok::<PciConfigReadOutcome, PciError>(
                PciConfigReadOutcome::Value((lane_scale(width.bytes()) - 1) as u64),
            )
        } else {
            forall|i: int|
                #![trigger self.root.functions@[i]]
                0 <= i < self.root.functions@.len() && self.root.functions@[i].bdf == bdf
                    ==> is_read_outcome(
                    self.root.functions@[i],
                    admitted_token(self.root.bindings@[i], admissions),
                    offset.0 as int,
                    width,
                    outcome,
                )
        }
    }

    /// Reads the configuration space, up to what an endpoint has to say.
    ///
    /// # Errors
    ///
    /// Returns [`DeviceError::InvalidInput`] for an access that the root
    /// rejects, and [`DeviceError::InvalidState`] when the endpoint does not
    /// admit it.
    pub fn route_read_config(
        &self,
        bdf: PciBdf,
        offset: ConfigOffset,
        width: AccessWidth,
        admissions: &mut EndpointAdmissions,
    ) -> (result: DeviceResult<ConfigReadDispatch>)
        requires
            self.wf(*old(admissions)),
        ensures
            self.wf(*final(admissions)),
            exists|outcome: Result<PciConfigReadOutcome, PciError>|
                #[trigger] self.is_root_read(*old(admissions), bdf, offset, width, outcome)
                    && is_read_dispatch(
                    self.router,
                    *old(admissions),
                    *final(admissions),
                    outcome,
                    result,
                ),
    {
        let outcome = self.root.prepare_read_config(bdf, offset, width, admissions);
        assert(self.is_root_read(*old(admissions), bdf, offset, width, outcome));
        match outcome {
            Err(error) => Err(pci_config_error(error)),
            Ok(PciConfigReadOutcome::Value(value)) => Ok(ConfigReadDispatch::Value(value)),
            Ok(
                PciConfigReadOutcome::DynamicStatus {
                    token,
                    command,
                    value,
                    interrupt_status_mask,
                },
            ) => match self.router.lease(&token, command.bus_master_enable, admissions) {
                Ok(routed) => Ok(
                    ConfigReadDispatch::Status { routed, value, interrupt_status_mask },
                ),
                Err(error) => Err(error),
            },
            Ok(PciConfigReadOutcome::Effect { token, command, effect }) => match self.router.lease(
                &token,
                command.bus_master_enable,
                admissions,
            ) {
                Ok(routed) => Ok(ConfigReadDispatch::Effect { routed, effect }),
                Err(error) => Err(error),
            },
        }
    }

    /// Returns whether an access meets an endpoint-owned region.
    ///
    /// # Errors
    ///
    /// Returns [`DeviceError::InvalidInput`] for a qword access and for one that
    /// leaves the configuration space.
    pub fn config_access_intersects_effect(
        &self,
        bdf: PciBdf,
        offset: ConfigOffset,
        width: AccessWidth,
    ) -> (result: DeviceResult<bool>)
        requires
            self.root.wf(),
        ensures
            width == AccessWidth::Qword || offset.0 + width.bytes() > 256 ==> result == Err::<
                bool,
                DeviceError,
            >(config_error(invalid_config_access(offset.0, width))),
            !(width == AccessWidth::Qword || offset.0 + width.bytes() > 256) ==> {
                &&& result is Ok
                &&& self.root.is_absent(bdf) ==> result == Ok::<bool, DeviceError>(false)
                &&& forall|i: int|
                    #![trigger self.root.functions@[i]]
                    0 <= i < self.root.functions@.len() && self.root.functions@[i].bdf == bdf
                        ==> result == Ok::<bool, DeviceError>(
                        self.root.functions@[i].meets_config_effect(
                            offset.0 as int,
                            width.bytes() as int,
                        ),
                    )
            },
    {
        match self.root.config_access_intersects_effect(bdf, offset, width) {
            Ok(intersects) => Ok(intersects),
            Err(error) => Err(pci_config_error(error)),
        }
    }

    /// Whether a config write of `bdf` turns this binding's root into `after`
    /// with `outcome`.
    pub open spec fn is_root_write(
        self,
        after: PciRootState,
        admissions: EndpointAdmissions,
        bdf: PciBdf,
        offset: ConfigOffset,
        width: AccessWidth,
        value: u64,
        outcome: Result<PciConfigWriteOutcome, PciError>,
    ) -> bool {
        &&& after.topology == self.root.topology
        &&& after.bindings == self.root.bindings
        &&& if !valid_config_access(offset.0 as int, width) {
            outcome == Err::<PciConfigWriteOutcome, PciError>(
                invalid_config_access(offset.0, width),
            ) && after.functions@ == self.root.functions@
        } else if self.root.is_absent(bdf) {
            outcome == Ok::<PciConfigWriteOutcome, PciError>(PciConfigWriteOutcome::Complete)
                && after.functions@ == self.root.functions@
        } else {
            forall|i: int|
                #![trigger self.root.functions@[i]]
                0 <= i < self.root.functions@.len() && self.root.functions@[i].bdf == bdf
                    ==> is_write_outcome(
                    self.root.functions@,
                    after.functions@,
                    self.root.topology.aperture_start as int,
                    self.root.topology.aperture_end as int,
                    i,
                    admitted_token(self.root.bindings@[i], admissions),
                    offset.0 as int,
                    width,
                    value,
                    outcome,
                )
        }
    }

    /// Writes the configuration space, up to what an endpoint has to say.
    ///
    /// What the root changed stays changed, whatever the endpoint says.
    ///
    /// # Errors
    ///
    /// As [`PciRootBinding::route_read_config`].
    pub fn route_write_config(
        &mut self,
        bdf: PciBdf,
        offset: ConfigOffset,
        width: AccessWidth,
        value: u64,
        admissions: &mut EndpointAdmissions,
    ) -> (result: DeviceResult<ConfigWriteDispatch>)
        requires
            old(self).wf(*old(admissions)),
        ensures
            final(self).wf(*final(admissions)),
            *final(self) == (PciRootBinding { root: final(self).root, ..*old(self) }),
            exists|outcome: Result<PciConfigWriteOutcome, PciError>|
                #[trigger] old(self).is_root_write(
                    final(self).root,
                    *old(admissions),
                    bdf,
                    offset,
                    width,
                    value,
                    outcome,
                ) && is_write_dispatch(
                    old(self).router,
                    *old(admissions),
                    *final(admissions),
                    outcome,
                    result,
                ),
    {
        let outcome = self.root.prepare_write_config(bdf, offset, width, value, admissions);
        assert(old(self).is_root_write(
            self.root,
            *old(admissions),
            bdf,
            offset,
            width,
            value,
            outcome,
        ));
        match outcome {
            Err(error) => Err(pci_config_error(error)),
            Ok(PciConfigWriteOutcome::Complete) => Ok(ConfigWriteDispatch::Complete),
            Ok(PciConfigWriteOutcome::Effect { token, command, effect }) => match self.router.lease(
                &token,
                command.bus_master_enable,
                admissions,
            ) {
                Ok(routed) => Ok(ConfigWriteDispatch::Effect { routed, effect }),
                Err(error) => Err(error),
            },
            Ok(PciConfigWriteOutcome::CommandChanged { token, command }) => match token {
                None => Ok(ConfigWriteDispatch::Complete),
                Some(token) => match self.router.lease(
                    &token,
                    command.bus_master_enable,
                    admissions,
                ) {
                    Ok(routed) => Ok(ConfigWriteDispatch::Command { routed, command }),
                    Err(error) => Err(error),
                },
            },
        }
    }
}

} // verus!
