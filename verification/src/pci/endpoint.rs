//! Endpoint-owned behavior, and what a callback is given to act with.

use crate::access::{DeviceError, DeviceId, DeviceResult, DmaGrant, ErrorDetail};
use crate::pci::capability::PciConfigEffectId;
use crate::pci::config::PciCommandState;
use crate::pci::effect::{PciBarAccess, PciConfigReadEffect, PciConfigWriteEffect};
use crate::pci::routing::{EndpointAdmission, RoutedDeviceGrant};
#[allow(unused_imports)]
use crate::pci::routing::{closed_admission, permits_exhausted};
use vstd::prelude::*;

verus! {

/// Permit held while an endpoint publishes one interrupt-line transition.
///
/// The permit exposes only the line operations needed by an admitted callback;
/// the admission barrier remains private and the endpoint cannot retain the
/// permit beyond the callback that acquired it.
#[derive(Debug)]
pub struct EndpointIrqTransitionPermit {}

impl EndpointIrqTransitionPermit {
    /// Creates a permit.
    pub fn new() -> (permit: Self)
        ensures
            permit == (EndpointIrqTransitionPermit {  }),
    {
        EndpointIrqTransitionPermit {  }
    }

    /// Reports what asserting one endpoint-owned level-triggered source came to.
    pub fn assert_line(&mut self, outcome: Result<(), String>) -> (result: DeviceResult<()>)
        ensures
            *final(self) == *old(self),
            result == (match outcome {
                Ok(()) => Ok::<(), DeviceError>(()),
                Err(message) => Err(
                    DeviceError::Backend {
                        operation: "assert PCI endpoint INTx line",
                        detail: ErrorDetail::Message(message),
                    },
                ),
            }),
    {
        match outcome {
            Ok(()) => Ok(()),
            Err(message) => Err(
                DeviceError::Backend {
                    operation: "assert PCI endpoint INTx line",
                    detail: ErrorDetail::Message(message),
                },
            ),
        }
    }

    /// Reports what deasserting one endpoint-owned level-triggered source came to.
    pub fn deassert_line(&mut self, outcome: Result<(), String>) -> (result: DeviceResult<()>)
        ensures
            *final(self) == *old(self),
            result == (match outcome {
                Ok(()) => Ok::<(), DeviceError>(()),
                Err(message) => Err(
                    DeviceError::Backend {
                        operation: "deassert PCI endpoint INTx line",
                        detail: ErrorDetail::Message(message),
                    },
                ),
            }),
    {
        match outcome {
            Ok(()) => Ok(()),
            Err(message) => Err(
                DeviceError::Backend {
                    operation: "deassert PCI endpoint INTx line",
                    detail: ErrorDetail::Message(message),
                },
            ),
        }
    }
}

/// One change of an endpoint-owned interrupt line.
pub trait IrqTransition {
    /// Changes the line under `permit`.
    fn run(&mut self, permit: &mut EndpointIrqTransitionPermit) -> DeviceResult<()>;
}

/// What one endpoint callback is admitted with.
pub trait PciEndpointContext: Sized {
    /// Returns the device that the callback acts for.
    fn device_id(&self) -> DeviceId;

    /// Runs one interrupt publication transition while the endpoint binding
    /// remains admitted and the transition permit is held.
    ///
    /// Whether a permit is left is judged on the admission as it is when the
    /// transition begins.
    ///
    /// # Errors
    ///
    /// Returns [`DeviceError::InvalidState`] when the admission is closed or has
    /// no permit left, else what the transition says.
    fn with_irq_transition<T: IrqTransition>(&mut self, transition: &mut T) -> DeviceResult<()>;
}

/// What a callback is admitted with where all admissions are lent to the dispatch
/// that makes it, from before the callback until after it.
///
/// Nobody else reaches the admissions meanwhile, so what they hold when the callback
/// begins is what they hold throughout, but for the transitions of the callback itself,
/// each of which leaves before the next. A runtime that lets others at the admissions
/// during a callback gives it a context of its own, which takes each permit from them.
#[derive(Debug, PartialEq, Eq, Structural)]
pub struct AdmittedContext {
    /// Device that the callback acts for.
    pub device: DeviceId,
    /// Admission that the callback passed.
    pub admission: EndpointAdmission,
}

impl PciEndpointContext for AdmittedContext {
    fn device_id(&self) -> (device: DeviceId)
        ensures
            device == self.device,
    {
        self.device
    }

    fn with_irq_transition<T: IrqTransition>(&mut self, transition: &mut T) -> (result:
        DeviceResult<()>)
        ensures
            *final(self) == *old(self),
            !old(self).admission.open ==> result == Err::<(), _>(closed_admission())
                && *final(transition) == *old(transition),
            old(self).admission.open && old(self).admission.permits == usize::MAX ==> result
                == Err::<(), _>(permits_exhausted()) && *final(transition) == *old(transition),
            old(self).admission.open && old(self).admission.permits < usize::MAX ==> exists|
                run: &mut T,
                permit: &mut EndpointIrqTransitionPermit,
            |
                {
                    &&& #[trigger] call_ensures(T::run, (run, permit), result)
                    &&& *run == *old(transition)
                    &&& *final(run) == *final(transition)
                },
    {
        if let Err(error) = self.admission.acquire_irq_permit() {
            return Err(error);
        }
        let mut permit = EndpointIrqTransitionPermit::new();
        let result = transition.run(&mut permit);
        self.admission.permits = self.admission.permits - 1;
        result
    }
}

/// What a routed callback runs in: it acts for the routed device, and reaches
/// guest memory.
pub trait DeviceContext {
    /// Makes the context act for the device of `grant`. Says whether a callback
    /// may run.
    fn enter_routed_device(&mut self, grant: &RoutedDeviceGrant) -> DeviceResult<bool>;

    /// Makes the context act for the device from before.
    fn leave_routed_device(&mut self);

    /// Reads guest memory by the right of `grant`.
    fn read_guest_memory(
        &mut self,
        grant: &DmaGrant,
        address: u64,
        length: usize,
    ) -> DeviceResult<Vec<u8>>;

    /// Writes guest memory by the right of `grant`.
    fn write_guest_memory(
        &mut self,
        grant: &DmaGrant,
        address: u64,
        bytes: Vec<u8>,
    ) -> DeviceResult<()>;
}

/// The error of a context without guest memory.
pub open spec fn no_guest_memory() -> DeviceError {
    DeviceError::Unsupported {
        operation: "access guest memory",
        detail: ErrorDetail::Text("the device context has no guest memory"),
    }
}

/// Context of a callback that no runtime routes: every device is let in, and
/// there is no guest memory.
#[derive(Clone, Copy, Debug, PartialEq, Eq, Structural)]
pub struct UnroutedContext {}

impl DeviceContext for UnroutedContext {
    fn enter_routed_device(&mut self, _grant: &RoutedDeviceGrant) -> (entered: DeviceResult<bool>)
        ensures
            entered == Ok::<bool, DeviceError>(true),
            *final(self) == *old(self),
    {
        Ok(true)
    }

    fn leave_routed_device(&mut self)
        ensures
            *final(self) == *old(self),
    {
    }

    fn read_guest_memory(&mut self, _grant: &DmaGrant, _address: u64, _length: usize) -> (bytes:
        DeviceResult<Vec<u8>>)
        ensures
            bytes == Err::<Vec<u8>, _>(no_guest_memory()),
            *final(self) == *old(self),
    {
        Err(
            DeviceError::Unsupported {
                operation: "access guest memory",
                detail: ErrorDetail::Text("the device context has no guest memory"),
            },
        )
    }

    fn write_guest_memory(&mut self, _grant: &DmaGrant, _address: u64, _bytes: Vec<u8>) -> (result:
        DeviceResult<()>)
        ensures
            result == Err::<(), _>(no_guest_memory()),
            *final(self) == *old(self),
    {
        Err(
            DeviceError::Unsupported {
                operation: "access guest memory",
                detail: ErrorDetail::Text("the device context has no guest memory"),
            },
        )
    }
}

/// The error of an endpoint that has no config effects, for a read or a write.
pub open spec fn unsupported_effect(operation: &'static str) -> DeviceError {
    DeviceError::Unsupported {
        operation,
        detail: ErrorDetail::Text("the endpoint does not implement this config effect"),
    }
}

/// The error of an endpoint that has no lifecycle reset.
pub open spec fn unsupported_reset() -> DeviceError {
    DeviceError::Unsupported {
        operation: "reset PCI endpoint",
        detail: ErrorDetail::Text("the endpoint does not implement lifecycle reset"),
    }
}

/// Endpoint-owned behavior reached after authenticated PCI routing.
///
/// The route is validated and the endpoint entered before a callback runs. A callback
/// of a read, and the callback of a write that is completed by itself, run with the root
/// shared, so that they may read it. Where one function both changes the root and runs
/// the callback, and where an owner resets or withdraws endpoints, the root stays lent
/// to that function.
pub trait PciFunction: Sized {
    /// Returns whether endpoint-owned interrupt state is pending.
    fn intx_pending(&self) -> (pending: bool)
        default_ensures
            !pending,
    {
        false
    }

    /// Returns the endpoint-owned config effects implemented by this function.
    ///
    /// The runtime compares this list with the effect IDs declared in the
    /// resolved PCI capabilities before publishing a route.
    fn supported_config_effects(&self) -> (effects: Vec<PciConfigEffectId>)
        default_ensures
            effects@.len() == 0,
    {
        Vec::new()
    }

    /// Returns whether the function claims bus ranges of its own.
    fn has_resources(&self) -> bool;

    /// Resets endpoint-owned state after the PCI root has restored its
    /// power-on configuration.
    ///
    /// Endpoints that participate in full lifecycle reset have one of their
    /// own. Without it, `Unsupported` keeps the runtime from reopening a
    /// binding whose endpoint state was not reset.
    fn reset(&mut self, _command: PciCommandState) -> (result: DeviceResult<()>)
        default_ensures
            result == Err::<(), _>(unsupported_reset()),
            *final(self) == *old(self),
    {
        Err(
            DeviceError::Unsupported {
                operation: "reset PCI endpoint",
                detail: ErrorDetail::Text("the endpoint does not implement lifecycle reset"),
            },
        )
    }

    /// Withdraws the endpoint-owned IRQ source during binding teardown or
    /// lifecycle reset.
    ///
    /// The runtime invokes this only after the root route is withdrawn or
    /// reset, new IRQ permits are closed, and previously acquired permits are
    /// drained. The operation must be idempotent so a failed reset can be
    /// followed by final teardown. Functions without an interrupt source have
    /// nothing to withdraw.
    fn withdraw_irq(&mut self, _permit: &mut EndpointIrqTransitionPermit) -> (result: DeviceResult<
        (),
    >)
        default_ensures
            result is Ok,
            *final(self) == *old(self),
    {
        Ok(())
    }
}

/// Endpoint-owned answers to accesses, given in a context of type `C` to callbacks that are
/// admitted with an `E`.
pub trait PciEndpointCallbacks<C: DeviceContext, E: PciEndpointContext>: PciFunction {
    /// Reads one complete memory BAR access.
    fn read_bar(
        &self,
        access: PciBarAccess,
        endpoint: &mut E,
        context: &mut C,
    ) -> DeviceResult<u64>;

    /// Writes one complete memory BAR access.
    fn write_bar(
        &self,
        access: PciBarAccess,
        value: u64,
        endpoint: &mut E,
        context: &mut C,
    ) -> DeviceResult<()>;

    /// Handles one endpoint-owned conventional config read effect.
    fn read_config_effect(
        &self,
        _effect: PciConfigReadEffect,
        _endpoint: &mut E,
        _context: &mut C,
    ) -> (value: DeviceResult<u64>)
        default_ensures
            value == Err::<u64, _>(unsupported_effect("read PCI config effect")),
    {
        Err(
            DeviceError::Unsupported {
                operation: "read PCI config effect",
                detail: ErrorDetail::Text("the endpoint does not implement this config effect"),
            },
        )
    }

    /// Handles one endpoint-owned conventional config write effect.
    fn write_config_effect(
        &self,
        _effect: PciConfigWriteEffect,
        _endpoint: &mut E,
        _context: &mut C,
    ) -> (result: DeviceResult<()>)
        default_ensures
            result == Err::<(), _>(unsupported_effect("write PCI config effect")),
    {
        Err(
            DeviceError::Unsupported {
                operation: "write PCI config effect",
                detail: ErrorDetail::Text("the endpoint does not implement this config effect"),
            },
        )
    }

    /// Observes a root-owned command-register transition.
    fn command_changed(
        &self,
        _command: PciCommandState,
        _endpoint: &mut E,
        _context: &mut C,
    ) -> (result: DeviceResult<()>)
        default_ensures
            result is Ok,
    {
        Ok(())
    }
}

/// Whether the endpoint behind `call` can answer the withdrawal of its interrupt with `said`.
pub open spec fn says_withdrawal<F: PciFunction>(call: &mut F, said: DeviceResult<()>) -> bool {
    exists|permit: &mut EndpointIrqTransitionPermit|
        #[trigger] call_ensures(F::withdraw_irq, (call, permit), said)
}

/// Whether the endpoint behind `call` can answer a reset with `said`.
pub open spec fn says_reset<F: PciFunction>(
    call: &mut F,
    command: PciCommandState,
    said: DeviceResult<()>,
) -> bool {
    call_ensures(F::reset, (call, command), said)
}

/// Whether an endpoint can answer a BAR read, made behind `call`, with `said`.
pub open spec fn says_read_bar<F: PciEndpointCallbacks<C, E>, C: DeviceContext, E: PciEndpointContext>(
    call: &mut C,
    function: F,
    access: PciBarAccess,
    admitted: E,
    said: DeviceResult<u64>,
) -> bool {
    exists|endpoint: &mut E|
        #[trigger] call_ensures(
            <F as PciEndpointCallbacks<C, E>>::read_bar,
            (&function, access, endpoint, call),
            said,
        ) && *endpoint == admitted
}

/// Whether an endpoint can answer a BAR write, made behind `call`, with `said`.
pub open spec fn says_write_bar<F: PciEndpointCallbacks<C, E>, C: DeviceContext, E: PciEndpointContext>(
    call: &mut C,
    function: F,
    access: PciBarAccess,
    value: u64,
    admitted: E,
    said: DeviceResult<()>,
) -> bool {
    exists|endpoint: &mut E|
        #[trigger] call_ensures(
            <F as PciEndpointCallbacks<C, E>>::write_bar,
            (&function, access, value, endpoint, call),
            said,
        ) && *endpoint == admitted
}

/// Whether an endpoint can answer a read of its config region, made behind `call`, with `said`.
pub open spec fn says_read_effect<F: PciEndpointCallbacks<C, E>, C: DeviceContext, E: PciEndpointContext>(
    call: &mut C,
    function: F,
    effect: PciConfigReadEffect,
    admitted: E,
    said: DeviceResult<u64>,
) -> bool {
    exists|endpoint: &mut E|
        #[trigger] call_ensures(
            <F as PciEndpointCallbacks<C, E>>::read_config_effect,
            (&function, effect, endpoint, call),
            said,
        ) && *endpoint == admitted
}

/// Whether an endpoint can answer a write of its config region, made behind `call`, with `said`.
pub open spec fn says_write_effect<F: PciEndpointCallbacks<C, E>, C: DeviceContext, E: PciEndpointContext>(
    call: &mut C,
    function: F,
    effect: PciConfigWriteEffect,
    admitted: E,
    said: DeviceResult<()>,
) -> bool {
    exists|endpoint: &mut E|
        #[trigger] call_ensures(
            <F as PciEndpointCallbacks<C, E>>::write_config_effect,
            (&function, effect, endpoint, call),
            said,
        ) && *endpoint == admitted
}

/// Whether an endpoint can answer a command transition, made behind `call`, with `said`.
pub open spec fn says_command<F: PciEndpointCallbacks<C, E>, C: DeviceContext, E: PciEndpointContext>(
    call: &mut C,
    function: F,
    command: PciCommandState,
    admitted: E,
    said: DeviceResult<()>,
) -> bool {
    exists|endpoint: &mut E|
        #[trigger] call_ensures(
            <F as PciEndpointCallbacks<C, E>>::command_changed,
            (&function, command, endpoint, call),
            said,
        ) && *endpoint == admitted
}

} // verus!
