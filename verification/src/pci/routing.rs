//! Endpoint routes: tokens, admissions, leases and the router.

use crate::access::{
    DeviceError, DeviceId, DeviceManagerError, DeviceManagerResult, DeviceResult, ErrorDetail,
};
use vstd::prelude::*;

verus! {

/// Names one admission of an [`EndpointAdmissions`] table.
#[derive(Clone, Copy, Debug, PartialEq, Eq, Structural)]
pub struct AdmissionId(pub usize);

/// Barrier that routed callbacks and interrupt transitions of one binding epoch pass.
#[derive(Clone, Copy, Debug, PartialEq, Eq, Structural)]
pub struct EndpointAdmission {
    /// Binding generation that the barrier belongs to.
    pub generation: u64,
    /// Admission epoch that the barrier belongs to.
    pub epoch: u64,
    /// Whether new callbacks and transitions are let in.
    pub open: bool,
    /// Callbacks that are inside.
    pub leases: usize,
    /// Interrupt transitions that are inside.
    pub permits: usize,
}

/// Non-capability token identifying one active endpoint binding generation and
/// routed admission epoch.
#[derive(Clone, Copy, Debug, PartialEq, Eq, Structural)]
pub struct EndpointRouteToken {
    /// Device that the route selects.
    pub device: DeviceId,
    /// Binding generation that the route was minted for.
    pub binding_generation: u64,
    /// Admission epoch that the route was minted for.
    pub admission_epoch: u64,
    /// Barrier of that epoch.
    pub admission: AdmissionId,
}

impl EndpointRouteToken {
    /// Returns the final device selected by this route.
    pub fn device_id(&self) -> (device: DeviceId)
        ensures
            device == self.device,
    {
        self.device
    }

    /// Returns the binding generation selected by this route.
    pub fn binding_generation(&self) -> (generation: u64)
        ensures
            generation == self.binding_generation,
    {
        self.binding_generation
    }

    /// Returns the admission epoch selected by this route.
    pub fn admission_epoch(&self) -> (epoch: u64)
        ensures
            epoch == self.admission_epoch,
    {
        self.admission_epoch
    }

    /// Returns the grant that a routed callback runs under.
    pub fn grant(&self, dma_enabled: bool) -> (grant: RoutedDeviceGrant)
        ensures
            grant == (RoutedDeviceGrant { token: *self, dma_enabled }),
    {
        RoutedDeviceGrant { token: *self, dma_enabled }
    }
}

/// Permission of one routed callback to act for its device.
#[derive(Clone, Copy, Debug, PartialEq, Eq, Structural)]
pub struct RoutedDeviceGrant {
    /// Route that the grant belongs to.
    pub token: EndpointRouteToken,
    /// Whether the function's bus-master enable was set.
    pub dma_enabled: bool,
}

impl RoutedDeviceGrant {
    /// Whether the route's admission lets callbacks in.
    pub open spec fn is_open(self, admissions: EndpointAdmissions) -> bool {
        self.token.admission.0 < admissions.entries@.len()
            && admissions.entries@[self.token.admission.0 as int].open
    }

    /// Returns whether the route's admission lets callbacks in.
    pub fn admission_is_open(&self, admissions: &EndpointAdmissions) -> (open: bool)
        ensures
            open == self.is_open(*admissions),
    {
        self.token.admission.0 < admissions.entries.len()
            && admissions.entries[self.token.admission.0].open
    }
}

/// The error for a route whose admission is closed or of another epoch.
pub open spec fn stale_admission() -> DeviceError {
    DeviceError::InvalidState {
        operation: "admit PCI endpoint route",
        detail: ErrorDetail::Text("PCI endpoint route admission is closed or stale"),
    }
}

/// The error for a route that already has the largest number of callbacks.
pub open spec fn leases_exhausted() -> DeviceError {
    DeviceError::InvalidState {
        operation: "admit PCI endpoint route",
        detail: ErrorDetail::Text("PCI endpoint route lease count is exhausted"),
    }
}

/// The error for an admission with the largest number of transitions.
pub open spec fn permits_exhausted() -> DeviceError {
    DeviceError::InvalidState {
        operation: "publish PCI endpoint interrupt state",
        detail: ErrorDetail::Text("PCI interrupt transition permit count is exhausted"),
    }
}

/// The error for a transition whose admission is closed.
pub open spec fn closed_admission() -> DeviceError {
    DeviceError::InvalidState {
        operation: "publish PCI endpoint interrupt state",
        detail: ErrorDetail::Text("PCI endpoint route admission is closed"),
    }
}

impl EndpointAdmission {
    /// The open barrier of an epoch that nobody has passed.
    pub open spec fn fresh(generation: u64, epoch: u64) -> EndpointAdmission {
        EndpointAdmission { generation, epoch, open: true, leases: 0, permits: 0 }
    }

    /// Creates an open admission that nobody has passed.
    pub fn new(generation: u64, epoch: u64) -> (admission: Self)
        ensures
            admission == EndpointAdmission::fresh(generation, epoch),
    {
        EndpointAdmission { generation, epoch, open: true, leases: 0, permits: 0 }
    }

    /// Whether a callback routed by `token` may enter.
    pub open spec fn admits(self, token: EndpointRouteToken) -> bool {
        self.open && token.binding_generation == self.generation && token.admission_epoch
            == self.epoch
    }

    /// Lets one routed callback in.
    ///
    /// # Errors
    ///
    /// Returns [`DeviceError::InvalidState`] when the barrier is closed or of
    /// another epoch, and when its lease count is exhausted.
    pub fn acquire(&mut self, token: &EndpointRouteToken) -> (result: DeviceResult<()>)
        ensures
            !old(self).admits(*token) ==> result == Err::<(), DeviceError>(stale_admission()),
            old(self).admits(*token) && old(self).leases == usize::MAX ==> result == Err::<
                (),
                DeviceError,
            >(leases_exhausted()),
            old(self).admits(*token) && old(self).leases < usize::MAX ==> result is Ok,
            result is Ok ==> *final(self) == (EndpointAdmission {
                leases: (old(self).leases + 1) as usize,
                ..*old(self)
            }),
            result is Err ==> *final(self) == *old(self),
    {
        if !self.open || token.binding_generation != self.generation || token.admission_epoch
            != self.epoch {
            return Err(
                DeviceError::InvalidState {
                    operation: "admit PCI endpoint route",
                    detail: ErrorDetail::Text("PCI endpoint route admission is closed or stale"),
                },
            );
        }
        match self.leases.checked_add(1) {
            Some(leases) => {
                self.leases = leases;
                Ok(())
            },
            None => Err(
                DeviceError::InvalidState {
                    operation: "admit PCI endpoint route",
                    detail: ErrorDetail::Text("PCI endpoint route lease count is exhausted"),
                },
            ),
        }
    }

    /// Lets one interrupt transition in.
    ///
    /// # Errors
    ///
    /// Returns [`DeviceError::InvalidState`] when the barrier is closed, and when
    /// its permit count is exhausted.
    pub fn acquire_irq_permit(&mut self) -> (result: DeviceResult<()>)
        ensures
            !old(self).open ==> result == Err::<(), DeviceError>(closed_admission()),
            old(self).open && old(self).permits == usize::MAX ==> result == Err::<(), DeviceError>(
                permits_exhausted(),
            ),
            old(self).open && old(self).permits < usize::MAX ==> result is Ok,
            result is Ok ==> *final(self) == (EndpointAdmission {
                permits: (old(self).permits + 1) as usize,
                ..*old(self)
            }),
            result is Err ==> *final(self) == *old(self),
    {
        if !self.open {
            return Err(
                DeviceError::InvalidState {
                    operation: "publish PCI endpoint interrupt state",
                    detail: ErrorDetail::Text("PCI endpoint route admission is closed"),
                },
            );
        }
        match self.permits.checked_add(1) {
            Some(permits) => {
                self.permits = permits;
                Ok(())
            },
            None => Err(
                DeviceError::InvalidState {
                    operation: "publish PCI endpoint interrupt state",
                    detail: ErrorDetail::Text("PCI interrupt transition permit count is exhausted"),
                },
            ),
        }
    }

    /// Refuses new callbacks and transitions; those inside stay.
    pub fn close(&mut self)
        ensures
            *final(self) == (EndpointAdmission { open: false, ..*old(self) }),
    {
        self.open = false;
    }

    /// Lets callbacks and transitions in again.
    pub fn reopen(&mut self)
        ensures
            *final(self) == (EndpointAdmission { open: true, ..*old(self) }),
    {
        self.open = true;
    }

    /// Looks once whether all interrupt transitions have left.
    ///
    /// Returns `None` while the caller should look again.
    pub fn poll_irq_permits(&self, budget: &mut DrainBudget) -> (result: Option<
        DeviceManagerResult<()>,
    >)
        ensures
            *final(budget) == old(budget).after(self.permits),
            result == (match old(budget).step(self.permits) {
                DrainStep::Drained => Some(Ok::<(), DeviceManagerError>(())),
                DrainStep::Retry => None,
                DrainStep::Exhausted => Some(Err(irq_permit_drain_exceeded())),
            }),
    {
        match budget.observe(self.permits) {
            DrainStep::Drained => Some(Ok(())),
            DrainStep::Retry => None,
            DrainStep::Exhausted => Some(
                Err(
                    DeviceManagerError::InvalidState {
                        operation: "drain PCI endpoint IRQ permits",
                        detail: "PCI endpoint IRQ permit drain exceeded its bounded wait budget",
                    },
                ),
            ),
        }
    }

    /// Number of callbacks and transitions inside, as one number that does not
    /// overflow: the sum, or the largest number.
    pub open spec fn activity(self) -> usize {
        if self.leases + self.permits > usize::MAX {
            usize::MAX
        } else {
            (self.leases + self.permits) as usize
        }
    }

    /// Looks once whether all callbacks and interrupt transitions have left.
    ///
    /// Returns `None` while the caller should look again.
    pub fn poll_idle(&self, budget: &mut DrainBudget) -> (result: Option<DeviceManagerResult<()>>)
        ensures
            *final(budget) == old(budget).after(self.activity()),
            result == (match old(budget).step(self.activity()) {
                DrainStep::Drained => Some(Ok::<(), DeviceManagerError>(())),
                DrainStep::Retry => None,
                DrainStep::Exhausted => Some(Err(route_drain_exceeded())),
            }),
    {
        let activity: usize = self.leases.saturating_add(self.permits);
        match budget.observe(activity) {
            DrainStep::Drained => Some(Ok(())),
            DrainStep::Retry => None,
            DrainStep::Exhausted => Some(
                Err(
                    DeviceManagerError::InvalidState {
                        operation: "drain PCI endpoint route leases",
                        detail: "PCI endpoint route drain exceeded its bounded wait budget",
                    },
                ),
            ),
        }
    }
}

/// The error for interrupt transitions that did not leave in time.
pub open spec fn irq_permit_drain_exceeded() -> DeviceManagerError {
    DeviceManagerError::InvalidState {
        operation: "drain PCI endpoint IRQ permits",
        detail: "PCI endpoint IRQ permit drain exceeded its bounded wait budget",
    }
}

/// The error for callbacks that did not leave in time.
pub open spec fn route_drain_exceeded() -> DeviceManagerError {
    DeviceManagerError::InvalidState {
        operation: "drain PCI endpoint route leases",
        detail: "PCI endpoint route drain exceeded its bounded wait budget",
    }
}

/// Number of further looks that a drain gets by default.
///
/// It is for a runtime that lets callbacks and transitions leave while it looks: such a runtime
/// gives its [`DrainBudget`] this many before it finishes a reset or asks an endpoint to withdraw
/// its interrupt. Where the admissions are lent for the whole of an operation nothing can leave
/// meanwhile, and the first look decides.
pub const DEFAULT_DRAIN_ATTEMPTS: usize = 1_000_000;

/// What one look of a bounded drain came to.
#[derive(Clone, Copy, Debug, PartialEq, Eq, Structural)]
pub enum DrainStep {
    /// Nothing is left inside.
    Drained,
    /// Something is inside; look again.
    Retry,
    /// Something is inside and no look is left.
    Exhausted,
}

/// Bounds how often a drain looks again.
#[derive(Clone, Copy, Debug, PartialEq, Eq, Structural)]
pub struct DrainBudget {
    /// Looks that are left after the next one.
    pub attempts: usize,
}

impl DrainBudget {
    /// Allows one look and `attempts` further ones.
    pub fn new(attempts: usize) -> (budget: Self)
        ensures
            budget.attempts == attempts,
    {
        DrainBudget { attempts }
    }

    /// What a look that finds `outstanding` inside comes to.
    pub open spec fn step(self, outstanding: usize) -> DrainStep {
        if outstanding == 0 {
            DrainStep::Drained
        } else if self.attempts > 0 {
            DrainStep::Retry
        } else {
            DrainStep::Exhausted
        }
    }

    /// The budget after a look that finds `outstanding` inside.
    pub open spec fn after(self, outstanding: usize) -> DrainBudget {
        if self.step(outstanding) == DrainStep::Retry {
            DrainBudget { attempts: (self.attempts - 1) as usize }
        } else {
            self
        }
    }

    /// Takes one look that finds `outstanding` inside.
    pub fn observe(&mut self, outstanding: usize) -> (step: DrainStep)
        ensures
            step == old(self).step(outstanding),
            *final(self) == old(self).after(outstanding),
    {
        if outstanding == 0 {
            DrainStep::Drained
        } else if self.attempts > 0 {
            self.attempts = self.attempts - 1;
            DrainStep::Retry
        } else {
            DrainStep::Exhausted
        }
    }

    /// The budget after looks that found `observed` inside.
    pub open spec fn after_all(self, observed: Seq<usize>) -> DrainBudget
        decreases observed.len(),
    {
        if observed.len() == 0 {
            self
        } else {
            self.after_all(observed.drop_last()).after(observed.last())
        }
    }
}

/// A drain that always finds something inside gives up at look `attempts + 1`
/// and not before.
pub proof fn law_drain_gives_up_after_its_budget(budget: DrainBudget, observed: Seq<usize>)
    requires
        forall|i: int| #![trigger observed[i]] 0 <= i < observed.len() ==> observed[i] != 0,
        observed.len() > 0,
        observed.len() <= budget.attempts + 1,
    ensures
        budget.after_all(observed.drop_last()).step(observed.last()) == (if observed.len()
            == budget.attempts + 1 {
            DrainStep::Exhausted
        } else {
            DrainStep::Retry
        }),
        budget.after_all(observed).attempts == (if observed.len() <= budget.attempts {
            budget.attempts - observed.len()
        } else {
            0
        }),
    decreases observed.len(),
{
    if observed.len() > 1 {
        law_drain_gives_up_after_its_budget(budget, observed.drop_last());
    } else {
        assert(budget.after_all(observed.drop_last()) == budget);
    }
}

/// All admissions of a machine, those of ended epochs among them.
#[derive(Debug)]
pub struct EndpointAdmissions {
    /// Admissions; an identity is a position.
    pub entries: Vec<EndpointAdmission>,
}

impl EndpointAdmissions {
    /// Creates an empty table.
    pub fn new() -> (admissions: Self)
        ensures
            admissions.entries@ == Seq::<EndpointAdmission>::empty(),
    {
        EndpointAdmissions { entries: Vec::new() }
    }

    /// Whether `id` names an admission of this table.
    pub open spec fn has(self, id: AdmissionId) -> bool {
        id.0 < self.entries@.len()
    }

    /// The admission that `id` names.
    pub open spec fn at(self, id: AdmissionId) -> EndpointAdmission {
        self.entries@[id.0 as int]
    }

    /// Adds an admission.
    pub fn insert(&mut self, admission: EndpointAdmission) -> (id: AdmissionId)
        ensures
            final(self).entries@ == old(self).entries@.push(admission),
            id.0 == old(self).entries@.len(),
    {
        let id = AdmissionId(self.entries.len());
        self.entries.push(admission);
        id
    }

    /// Returns a copy of an admission.
    pub fn get(&self, id: AdmissionId) -> (admission: EndpointAdmission)
        requires
            self.has(id),
        ensures
            admission == self.at(id),
    {
        self.entries[id.0]
    }

    /// The table with the admission `id` closed.
    pub open spec fn closed(self, id: AdmissionId) -> Seq<EndpointAdmission> {
        self.entries@.update(
            id.0 as int,
            EndpointAdmission { open: false, ..self.entries@[id.0 as int] },
        )
    }

    /// Closes an admission.
    pub fn close(&mut self, id: AdmissionId)
        requires
            old(self).has(id),
        ensures
            final(self).entries@ == old(self).closed(id),
    {
        self.entries[id.0].close();
    }

    /// Opens an admission.
    pub fn reopen(&mut self, id: AdmissionId)
        requires
            old(self).has(id),
        ensures
            final(self).entries@ == old(self).entries@.update(
                id.0 as int,
                EndpointAdmission { open: true, ..old(self).entries@[id.0 as int] },
            ),
    {
        self.entries[id.0].reopen();
    }

    /// Lets one callback routed by `token` in.
    ///
    /// # Errors
    ///
    /// As [`EndpointAdmission::acquire`].
    pub fn acquire(&mut self, token: &EndpointRouteToken) -> (result: DeviceResult<AdmissionLease>)
        requires
            old(self).has(token.admission),
        ensures
            !old(self).at(token.admission).admits(*token) ==> result == Err::<
                AdmissionLease,
                DeviceError,
            >(stale_admission()),
            old(self).at(token.admission).admits(*token) && old(self).at(token.admission).leases
                == usize::MAX ==> result == Err::<AdmissionLease, DeviceError>(leases_exhausted()),
            old(self).at(token.admission).admits(*token) && old(self).at(token.admission).leases
                < usize::MAX ==> result is Ok,
            result matches Ok(lease) ==> lease.admission == token.admission && old(self).at(
                token.admission,
            ).admits(*token) && old(self).at(token.admission).leases < usize::MAX
                && final(self).entries@ == old(self).entries@.update(
                token.admission.0 as int,
                EndpointAdmission {
                    leases: (old(self).at(token.admission).leases + 1) as usize,
                    ..old(self).at(token.admission)
                },
            ),
            result is Err ==> final(self).entries@ == old(self).entries@,
    {
        match self.entries[token.admission.0].acquire(token) {
            Ok(()) => Ok(AdmissionLease { admission: token.admission }),
            Err(error) => {
                assert(self.entries@ =~= old(self).entries@);
                Err(error)
            },
        }
    }

    /// The table after one callback ended.
    pub open spec fn after_lease(self, lease: AdmissionLease) -> Seq<EndpointAdmission> {
        self.entries@.update(
            lease.admission.0 as int,
            EndpointAdmission {
                leases: (self.at(lease.admission).leases - 1) as usize,
                ..self.at(lease.admission)
            },
        )
    }

    /// Ends one callback.
    pub fn release(&mut self, lease: AdmissionLease)
        requires
            old(self).has(lease.admission),
            old(self).at(lease.admission).leases > 0,
        ensures
            final(self).entries@ == old(self).after_lease(lease),
    {
        let leases: usize = self.entries[lease.admission.0].leases - 1;
        self.entries[lease.admission.0].leases = leases;
    }

    /// Lets one interrupt transition in.
    ///
    /// # Errors
    ///
    /// As [`EndpointAdmission::acquire_irq_permit`].
    pub fn acquire_irq_permit(&mut self, id: AdmissionId) -> (result: DeviceResult<IrqPermitLease>)
        requires
            old(self).has(id),
        ensures
            !old(self).at(id).open ==> result == Err::<IrqPermitLease, DeviceError>(
                closed_admission(),
            ),
            old(self).at(id).open && old(self).at(id).permits == usize::MAX ==> result == Err::<
                IrqPermitLease,
                DeviceError,
            >(permits_exhausted()),
            old(self).at(id).open && old(self).at(id).permits < usize::MAX ==> result is Ok,
            result matches Ok(lease) ==> lease.admission == id && old(self).at(id).open && old(
                self,
            ).at(id).permits < usize::MAX && final(self).entries@ == old(self).entries@.update(
                id.0 as int,
                EndpointAdmission {
                    permits: (old(self).at(id).permits + 1) as usize,
                    ..old(self).at(id)
                },
            ),
            result is Err ==> final(self).entries@ == old(self).entries@,
    {
        match self.entries[id.0].acquire_irq_permit() {
            Ok(()) => Ok(IrqPermitLease { admission: id }),
            Err(error) => {
                assert(self.entries@ =~= old(self).entries@);
                Err(error)
            },
        }
    }

    /// Ends one interrupt transition.
    pub fn release_irq_permit(&mut self, lease: IrqPermitLease)
        requires
            old(self).has(lease.admission),
            old(self).at(lease.admission).permits > 0,
        ensures
            final(self).entries@ == old(self).entries@.update(
                lease.admission.0 as int,
                EndpointAdmission {
                    permits: (old(self).at(lease.admission).permits - 1) as usize,
                    ..old(self).at(lease.admission)
                },
            ),
    {
        let permits: usize = self.entries[lease.admission.0].permits - 1;
        self.entries[lease.admission.0].permits = permits;
    }
}

/// One callback that passed an admission.
#[derive(Debug, PartialEq, Eq)]
pub struct AdmissionLease {
    /// Admission that was passed.
    pub admission: AdmissionId,
}

/// One interrupt transition that passed an admission.
#[derive(Debug, PartialEq, Eq)]
pub struct IrqPermitLease {
    /// Admission that was passed.
    pub admission: AdmissionId,
}

/// Ending a callback undoes its start.
pub proof fn law_release_undoes_acquire(
    before: EndpointAdmissions,
    during: EndpointAdmissions,
    after: EndpointAdmissions,
    token: EndpointRouteToken,
)
    requires
        before.has(token.admission),
        before.at(token.admission).admits(token),
        before.at(token.admission).leases < usize::MAX,
        during.entries@ == before.entries@.update(
            token.admission.0 as int,
            EndpointAdmission {
                leases: (before.at(token.admission).leases + 1) as usize,
                ..before.at(token.admission)
            },
        ),
        after.entries@ == during.entries@.update(
            token.admission.0 as int,
            EndpointAdmission {
                leases: (during.at(token.admission).leases - 1) as usize,
                ..during.at(token.admission)
            },
        ),
    ensures
        after.entries@ == before.entries@,
{
    assert(after.entries@ =~= before.entries@);
}

} // verus!
