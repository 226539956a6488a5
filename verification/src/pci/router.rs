//! The router: which endpoint a token leads to.

use crate::access::{
    DeviceError, DeviceId, DeviceManagerError, DeviceManagerResult, DeviceResult, ErrorDetail,
};
use crate::pci::config::PciCommandState;
use crate::pci::endpoint::{EndpointIrqTransitionPermit, PciFunction};
#[allow(unused_imports)]
use crate::pci::endpoint::{says_reset, says_withdrawal};
use crate::pci::routing::{
    AdmissionId, AdmissionLease, EndpointAdmission, EndpointAdmissions, EndpointRouteToken,
    RoutedDeviceGrant,
};
#[allow(unused_imports)]
use crate::pci::routing::{leases_exhausted, stale_admission};
use vstd::prelude::*;

verus! {

/// An endpoint with its current token.
#[derive(Debug)]
pub struct RoutedEndpoint<F> {
    /// Current token of the binding.
    pub token: EndpointRouteToken,
    /// The endpoint.
    pub function: F,
}

/// An endpoint whose route is withdrawn and whose interrupt source is not.
#[derive(Debug)]
pub struct PendingIrqWithdrawal<F> {
    /// Device of the endpoint.
    pub device: DeviceId,
    /// The endpoint.
    pub function: F,
    /// Its closed admission.
    pub admission: AdmissionId,
}

/// A callback that may enter the endpoint at a position of the router.
#[derive(Debug)]
pub struct RoutedEndpointLease {
    /// Position of the endpoint.
    pub position: usize,
    /// The passed admission.
    pub lease: AdmissionLease,
    /// What the callback may do.
    pub grant: RoutedDeviceGrant,
}

/// Maps devices to the endpoints that are bound to a root.
#[derive(Debug)]
pub struct EndpointRouter<F> {
    /// Generation of the latest binding.
    pub next_generation: u64,
    /// Endpoints in the order of their devices.
    pub endpoints: Vec<RoutedEndpoint<F>>,
}

/// The error for a token that no longer leads to an endpoint.
pub open spec fn stale_token() -> DeviceError {
    DeviceError::InvalidState {
        operation: "dispatch PCI endpoint route",
        detail: ErrorDetail::Text("PCI endpoint route token is stale"),
    }
}

/// Whether an admission belongs to one of the endpoints.
pub open spec fn is_routed<F>(endpoints: Seq<RoutedEndpoint<F>>, admission: int) -> bool {
    exists|j: int|
        #![trigger endpoints[j]]
        0 <= j < endpoints.len() && endpoints[j].token.admission.0 == admission
}

/// The admissions with those of the endpoints closed or opened.
pub open spec fn barriers_set<F>(
    endpoints: Seq<RoutedEndpoint<F>>,
    before: Seq<EndpointAdmission>,
    after: Seq<EndpointAdmission>,
    open: bool,
) -> bool {
    &&& after.len() == before.len()
    &&& forall|k: int|
        #![trigger after[k]]
        0 <= k < before.len() ==> after[k] == (if is_routed(endpoints, k) {
            EndpointAdmission { open, ..before[k] }
        } else {
            before[k]
        })
}

impl<F> EndpointRouter<F> {
    /// Endpoints are strictly increasing by device; each token names an
    /// admission of its own generation and epoch, and no two the same.
    pub open spec fn wf(self, admissions: EndpointAdmissions) -> bool {
        &&& forall|i: int, j: int|
            #![trigger self.endpoints@[i], self.endpoints@[j]]
            0 <= i < j < self.endpoints@.len() ==> self.endpoints@[i].token.device.0
                < self.endpoints@[j].token.device.0 && self.endpoints@[i].token.admission
                != self.endpoints@[j].token.admission
        &&& forall|i: int|
            #![trigger self.endpoints@[i]]
            0 <= i < self.endpoints@.len() ==> {
                let token = self.endpoints@[i].token;
                &&& admissions.has(token.admission)
                &&& admissions.at(token.admission).generation == token.binding_generation
                &&& admissions.at(token.admission).epoch == token.admission_epoch
                &&& token.binding_generation <= self.next_generation
            }
    }

    /// Creates a router without endpoints.
    pub fn new() -> (router: Self)
        ensures
            router.next_generation == 0,
            router.endpoints@ == Seq::<RoutedEndpoint<F>>::empty(),
    {
        EndpointRouter { next_generation: 0, endpoints: Vec::new() }
    }

    /// Whether `device` has an endpoint.
    pub open spec fn has_device(self, device: DeviceId) -> bool {
        exists|i: int|
            #![trigger self.endpoints@[i]]
            0 <= i < self.endpoints@.len() && self.endpoints@[i].token.device == device
    }

    /// Whether `token` leads to an endpoint.
    pub open spec fn has_token(self, token: EndpointRouteToken) -> bool {
        exists|i: int|
            #![trigger self.endpoints@[i]]
            0 <= i < self.endpoints@.len() && self.endpoints@[i].token == token
    }

    /// Returns the position of the endpoint of `device`.
    pub fn position(&self, device: DeviceId) -> (position: Option<usize>)
        ensures
            position is Some <==> self.has_device(device),
            position matches Some(i) ==> i < self.endpoints@.len()
                && self.endpoints@[i as int].token.device == device,
    {
        let mut i: usize = 0;
        while i < self.endpoints.len()
            invariant
                i <= self.endpoints@.len(),
                forall|j: int|
                    #![trigger self.endpoints@[j]]
                    0 <= j < i ==> self.endpoints@[j].token.device != device,
            decreases self.endpoints@.len() - i,
        {
            if self.endpoints[i].token.device == device {
                assert(self.endpoints@[i as int].token.device == device);
                return Some(i);
            }
            i = i + 1;
        }
        None
    }

    /// Binds an endpoint to `device` under a new generation, its first epoch open.
    ///
    /// # Errors
    ///
    /// Returns [`DeviceManagerError::ResourceConflict`] when the device has an
    /// endpoint, and [`DeviceManagerError::InvalidState`] when no generation is
    /// left.
    pub fn activate(
        &mut self,
        device: DeviceId,
        function: F,
        admissions: &mut EndpointAdmissions,
    ) -> (result: DeviceManagerResult<EndpointRouteToken>)
        requires
            old(self).wf(*old(admissions)),
        ensures
            final(self).wf(*final(admissions)),
            old(self).has_device(device) ==> result == Err::<
                EndpointRouteToken,
                DeviceManagerError,
            >(
                DeviceManagerError::ResourceConflict {
                    operation: "bind PCI endpoint route",
                    device,
                },
            ),
            !old(self).has_device(device) && old(self).next_generation == u64::MAX ==> result
                == Err::<EndpointRouteToken, DeviceManagerError>(
                DeviceManagerError::InvalidState {
                    operation: "bind PCI endpoint route",
                    detail: "PCI binding generation is exhausted",
                },
            ),
            !old(self).has_device(device) && old(self).next_generation < u64::MAX ==> result is Ok,
            result is Err ==> *final(self) == *old(self) && *final(admissions) == *old(admissions),
            result matches Ok(token) ==> {
                &&& token == (EndpointRouteToken {
                    device,
                    binding_generation: (old(self).next_generation + 1) as u64,
                    admission_epoch: 1,
                    admission: AdmissionId(old(admissions).entries@.len() as usize),
                })
                &&& token.admission.0 == old(admissions).entries@.len()
                &&& final(self).next_generation == old(self).next_generation + 1
                &&& final(admissions).entries@ == old(admissions).entries@.push(
                    EndpointAdmission::fresh(token.binding_generation, 1),
                )
                &&& exists|at: int|
                    0 <= at <= old(self).endpoints@.len() && final(self).endpoints@
                        == #[trigger] old(self).endpoints@.insert(
                        at,
                        RoutedEndpoint { token, function },
                    )
            },
    {
        if self.position(device).is_some() {
            return Err(
                DeviceManagerError::ResourceConflict {
                    operation: "bind PCI endpoint route",
                    device,
                },
            );
        }
        let generation: u64 = match self.next_generation.checked_add(1) {
            Some(generation) => generation,
            None => {
                return Err(
                    DeviceManagerError::InvalidState {
                        operation: "bind PCI endpoint route",
                        detail: "PCI binding generation is exhausted",
                    },
                );
            },
        };
        self.next_generation = generation;
        let mut at: usize = 0;
        while at < self.endpoints.len() && self.endpoints[at].token.device.0 < device.0
            invariant
                at <= self.endpoints@.len(),
                self.endpoints == old(self).endpoints,
                self.next_generation == generation,
                forall|j: int|
                    #![trigger self.endpoints@[j]]
                    0 <= j < at ==> self.endpoints@[j].token.device.0 < device.0,
            decreases self.endpoints@.len() - at,
        {
            at = at + 1;
        }
        let admission = admissions.insert(EndpointAdmission::new(generation, 1));
        let token = EndpointRouteToken {
            device,
            binding_generation: generation,
            admission_epoch: 1,
            admission,
        };
        self.endpoints.insert(at, RoutedEndpoint { token, function });
        proof {
            let before = old(self).endpoints@;
            let after = self.endpoints@;
            assert forall|j: int|
                #![trigger after[j]]
                0 <= j < after.len() implies (if j < at {
                after[j] == before[j]
            } else if j > at {
                after[j] == before[j - 1]
            } else {
                after[j].token == token
            }) by {}
            assert forall|j: int|
                #![trigger before[j]]
                at <= j < before.len() implies device.0 < before[j].token.device.0 by {
                assert(before[j].token.device != device);
                assert(before[at as int].token.device.0 >= device.0);
            }
            assert forall|i: int, j: int|
                #![trigger after[i], after[j]]
                0 <= i < j < after.len() implies after[i].token.device.0 < after[j].token.device.0
                && after[i].token.admission != after[j].token.admission by {}
        }
        Ok(token)
    }

    /// Ends the binding that `token` names and returns its endpoint.
    ///
    /// Returns `None` for an unknown or stale token.
    pub fn invalidate(&mut self, token: &EndpointRouteToken, admissions: &mut EndpointAdmissions) -> (function:
        Option<F>)
        requires
            old(self).wf(*old(admissions)),
        ensures
            final(self).wf(*final(admissions)),
            final(self).next_generation == old(self).next_generation,
            function is Some <==> old(self).has_token(*token),
            function is None ==> *final(self) == *old(self) && *final(admissions) == *old(
                admissions,
            ),
            function is Some ==> final(admissions).entries@ == old(admissions).closed(
                token.admission,
            ),
            function is Some ==> exists|at: int|
                #[trigger] is_removal(
                    old(self).endpoints@,
                    final(self).endpoints@,
                    at,
                    *token,
                    function->0,
                ),
    {
        let i: usize = match self.position(token.device) {
            Some(i) => i,
            None => {
                return None;
            },
        };
        if self.endpoints[i].token != *token {
            proof {
                lemma_device_has_one_token(*self, *admissions, i as int, *token);
            }
            return None;
        }
        assert(self.endpoints@[i as int].token == *token);
        let entry = self.endpoints.remove(i);
        admissions.close(token.admission);
        proof {
            lemma_removal_keeps_wf(*old(self), *self, *old(admissions), *admissions, i as int);
        }
        let removed = Some(entry.function);
        assert(is_removal(
            old(self).endpoints@,
            self.endpoints@,
            i as int,
            *token,
            removed->0,
        ));
        removed
    }

    /// Ends the binding of `device` and returns its endpoint and closed admission.
    pub fn invalidate_device(&mut self, device: DeviceId, admissions: &mut EndpointAdmissions) -> (removed:
        Option<RoutedEndpoint<F>>)
        requires
            old(self).wf(*old(admissions)),
        ensures
            final(self).wf(*final(admissions)),
            final(self).next_generation == old(self).next_generation,
            removed is Some <==> old(self).has_device(device),
            removed is None ==> *final(self) == *old(self) && *final(admissions) == *old(
                admissions,
            ),
            removed matches Some(entry) ==> {
                &&& entry.token.device == device
                &&& old(admissions).has(entry.token.admission)
                &&& final(admissions).entries@ == old(admissions).closed(entry.token.admission)
                &&& exists|i: int|
                    #[trigger] is_removal(
                        old(self).endpoints@,
                        final(self).endpoints@,
                        i,
                        entry.token,
                        entry.function,
                    )
            },
    {
        match self.position(device) {
            Some(i) => {
                assert(old(admissions).has(self.endpoints@[i as int].token.admission));
                let entry = self.endpoints.remove(i);
                admissions.close(entry.token.admission);
                proof {
                    lemma_removal_keeps_wf(*old(self), *self, *old(admissions), *admissions, i as int);
                    assert(is_removal(
                        old(self).endpoints@,
                        self.endpoints@,
                        i as int,
                        entry.token,
                        entry.function,
                    ));
                }
                Some(entry)
            },
            None => None,
        }
    }

    /// Returns the position of the endpoint that `token` leads to.
    ///
    /// # Errors
    ///
    /// Returns [`DeviceError::InvalidState`] for an unknown or stale token.
    pub fn endpoint(&self, token: &EndpointRouteToken, admissions: &EndpointAdmissions) -> (result:
        DeviceResult<usize>)
        requires
            self.wf(*admissions),
        ensures
            !self.has_token(*token) ==> result == Err::<usize, DeviceError>(stale_token()),
            self.has_token(*token) ==> (result matches Ok(i) && i < self.endpoints@.len()
                && self.endpoints@[i as int].token == *token),
    {
        match self.position(token.device) {
            Some(i) => {
                if self.endpoints[i].token == *token {
                    assert(self.endpoints@[i as int].token == *token);
                    return Ok(i);
                }
                proof {
                    lemma_device_has_one_token(*self, *admissions, i as int, *token);
                }
            },
            None => {},
        }
        Err(
            DeviceError::InvalidState {
                operation: "dispatch PCI endpoint route",
                detail: ErrorDetail::Text("PCI endpoint route token is stale"),
            },
        )
    }

    /// Lets one callback into the endpoint that `token` leads to.
    ///
    /// # Errors
    ///
    /// Returns [`DeviceError::InvalidState`] for a stale token, a closed
    /// admission, and an exhausted lease count.
    pub fn lease(
        &self,
        token: &EndpointRouteToken,
        dma_enabled: bool,
        admissions: &mut EndpointAdmissions,
    ) -> (result: DeviceResult<RoutedEndpointLease>)
        requires
            self.wf(*old(admissions)),
        ensures
            self.wf(*final(admissions)),
            !self.has_token(*token) ==> result == Err::<RoutedEndpointLease, DeviceError>(
                stale_token(),
            ),
            self.has_token(*token) && !old(admissions).at(token.admission).open ==> result == Err::<
                RoutedEndpointLease,
                DeviceError,
            >(stale_admission()),
            self.has_token(*token) && old(admissions).at(token.admission).open && old(
                admissions,
            ).at(token.admission).leases == usize::MAX ==> result == Err::<
                RoutedEndpointLease,
                DeviceError,
            >(leases_exhausted()),
            self.has_token(*token) && old(admissions).at(token.admission).open && old(
                admissions,
            ).at(token.admission).leases < usize::MAX ==> result is Ok,
            result matches Ok(routed) ==> {
                &&& routed.position < self.endpoints@.len()
                &&& self.endpoints@[routed.position as int].token == *token
                &&& routed.lease.admission == token.admission
                &&& routed.grant == (RoutedDeviceGrant { token: *token, dma_enabled })
                &&& old(admissions).has(token.admission)
                &&& old(admissions).at(token.admission).open
                &&& old(admissions).at(token.admission).leases < usize::MAX
                &&& final(admissions).entries@ == old(admissions).entries@.update(
                    token.admission.0 as int,
                    EndpointAdmission {
                        leases: (old(admissions).at(token.admission).leases + 1) as usize,
                        ..old(admissions).at(token.admission)
                    },
                )
            },
            result is Err ==> final(admissions).entries@ == old(admissions).entries@,
    {
        let position: usize = match self.endpoint(token, admissions) {
            Ok(position) => position,
            Err(error) => {
                return Err(error);
            },
        };
        assert(old(admissions).has(self.endpoints@[position as int].token.admission));
        match admissions.acquire(token) {
            Ok(lease) => {
                Ok(RoutedEndpointLease { position, lease, grant: token.grant(dma_enabled) })
            },
            Err(error) => Err(error),
        }
    }

    /// Starts a new closed epoch for every endpoint and closes the old ones.
    ///
    /// Returns the old and the new token of each; the old admissions may still
    /// have callbacks inside.
    ///
    /// # Errors
    ///
    /// Returns [`DeviceManagerError::InvalidState`], and changes nothing, when
    /// an endpoint has no epoch left.
    pub fn reset_admissions(&mut self, admissions: &mut EndpointAdmissions) -> (result:
        DeviceManagerResult<Vec<(EndpointRouteToken, EndpointRouteToken)>>)
        requires
            old(self).wf(*old(admissions)),
        ensures
            final(self).wf(*final(admissions)),
            final(self).next_generation == old(self).next_generation,
            result is Err <==> has_last_epoch(old(self).endpoints@),
            result matches Err(error) ==> {
                &&& error == epoch_exhausted()
                &&& *final(self) == *old(self)
                &&& *final(admissions) == *old(admissions)
            },
            result matches Ok(replacements) ==> is_rotation(
                old(self).endpoints@,
                final(self).endpoints@,
                old(admissions).entries@,
                final(admissions).entries@,
                replacements@,
            ),
    {
        let mut i: usize = 0;
        while i < self.endpoints.len()
            invariant
                i <= self.endpoints@.len(),
                *self == *old(self),
                *admissions == *old(admissions),
                self.wf(*admissions),
                forall|j: int|
                    #![trigger self.endpoints@[j]]
                    0 <= j < i ==> self.endpoints@[j].token.admission_epoch != u64::MAX,
            decreases self.endpoints@.len() - i,
        {
            if self.endpoints[i].token.admission_epoch == u64::MAX {
                assert(self.endpoints@[i as int].token.admission_epoch == u64::MAX);
                return Err(
                    DeviceManagerError::InvalidState {
                        operation: "reset PCI endpoint route admission",
                        detail: "PCI route admission epoch is exhausted",
                    },
                );
            }
            i = i + 1;
        }
        let ghost base = admissions.entries@.len() as int;
        assert(admissions.entries.len() == admissions.entries@.len());
        let count: usize = self.endpoints.len();
        let mut replacements: Vec<(EndpointRouteToken, EndpointRouteToken)> = Vec::new();
        let mut i: usize = 0;
        while i < count
            invariant
                i <= count == self.endpoints@.len() == old(self).endpoints@.len(),
                old(self).wf(*old(admissions)),
                base == old(admissions).entries@.len(),
                base + i <= usize::MAX,
                self.next_generation == old(self).next_generation,
                forall|j: int|
                    #![trigger old(self).endpoints@[j]]
                    0 <= j < count ==> old(self).endpoints@[j].token.admission_epoch != u64::MAX,
                admissions.entries@.len() == base + i,
                replacements@.len() == i,
                forall|k: int|
                    #![trigger admissions.entries@[k]]
                    0 <= k < base ==> admissions.entries@[k] == (if is_routed(
                        old(self).endpoints@.take(i as int),
                        k,
                    ) {
                        EndpointAdmission { open: false, ..old(admissions).entries@[k] }
                    } else {
                        old(admissions).entries@[k]
                    }),
                forall|j: int|
                    #![trigger self.endpoints@[j]]
                    0 <= j < count ==> (if j < i {
                        is_rotated(
                            old(self).endpoints@[j],
                            self.endpoints@[j],
                            base + j,
                        ) && replacements@[j] == (
                            old(self).endpoints@[j].token,
                            self.endpoints@[j].token,
                        ) && admissions.entries@[base + j] == rotated_admission(
                            old(self).endpoints@[j].token,
                        )
                    } else {
                        self.endpoints@[j] == old(self).endpoints@[j]
                    }),
            decreases count - i,
        {
            let token = self.endpoints[i].token;
            assert(token == old(self).endpoints@[i as int].token);
            let epoch: u64 = token.admission_epoch + 1;
            let ghost entries = admissions.entries@;
            let ghost endpoints = self.endpoints@;
            admissions.close(token.admission);
            let mut admission = EndpointAdmission::new(token.binding_generation, epoch);
            admission.close();
            let id = admissions.insert(admission);
            assert(admissions.entries.len() == admissions.entries@.len());
            let fresh = EndpointRouteToken {
                device: token.device,
                binding_generation: token.binding_generation,
                admission_epoch: epoch,
                admission: id,
            };
            self.endpoints[i].token = fresh;
            replacements.push((token, fresh));
            proof {
                let before = old(self).endpoints@.take(i as int);
                let after = old(self).endpoints@.take(i + 1);
                assert forall|k: int|
                    #![trigger admissions.entries@[k]]
                    0 <= k < base implies admissions.entries@[k] == (if is_routed(after, k) {
                    EndpointAdmission { open: false, ..old(admissions).entries@[k] }
                } else {
                    old(admissions).entries@[k]
                }) by {
                    lemma_routed_step(old(self).endpoints@, i as int, k);
                    assert(entries[k] == entries[k]);
                }
                assert forall|j: int|
                    #![trigger self.endpoints@[j]]
                    0 <= j < i implies admissions.entries@[base + j] == rotated_admission(
                    old(self).endpoints@[j].token,
                ) by {
                    assert(self.endpoints@[j] == endpoints[j]);
                    assert(entries[base + j] == rotated_admission(old(self).endpoints@[j].token));
                    assert(token.admission.0 < base);
                }
            }
            i = i + 1;
        }
        proof {
            assert(old(self).endpoints@.take(count as int) =~= old(self).endpoints@);
            lemma_rotation_keeps_wf(*old(self), *self, *old(admissions), *admissions, replacements@);
        }
        Ok(replacements)
    }

    /// Closes the admissions of all endpoints.
    pub fn close_admissions(&self, admissions: &mut EndpointAdmissions)
        requires
            self.wf(*old(admissions)),
        ensures
            self.wf(*final(admissions)),
            barriers_set(
                self.endpoints@,
                old(admissions).entries@,
                final(admissions).entries@,
                false,
            ),
    {
        let mut i: usize = 0;
        while i < self.endpoints.len()
            invariant
                i <= self.endpoints@.len(),
                self.wf(*old(admissions)),
                barriers_set(
                    self.endpoints@.take(i as int),
                    old(admissions).entries@,
                    admissions.entries@,
                    false,
                ),
            decreases self.endpoints@.len() - i,
        {
            let ghost entries = admissions.entries@;
            assert(old(admissions).has(self.endpoints@[i as int].token.admission));
            admissions.close(self.endpoints[i].token.admission);
            proof {
                lemma_barriers_step(
                    self.endpoints@,
                    i as int,
                    old(admissions).entries@,
                    entries,
                    admissions.entries@,
                    false,
                );
            }
            i = i + 1;
        }
        assert(self.endpoints@.take(i as int) =~= self.endpoints@);
        assert forall|j: int|
            #![trigger self.endpoints@[j]]
            0 <= j < self.endpoints@.len() implies admissions.at(
            self.endpoints@[j].token.admission,
        ).generation == self.endpoints@[j].token.binding_generation && admissions.at(
            self.endpoints@[j].token.admission,
        ).epoch == self.endpoints@[j].token.admission_epoch by {
            let k = self.endpoints@[j].token.admission.0 as int;
            assert(admissions.entries@[k].generation == old(admissions).entries@[k].generation);
        }
    }

    /// Opens the admissions of all endpoints.
    pub fn open_admissions(&self, admissions: &mut EndpointAdmissions)
        requires
            self.wf(*old(admissions)),
        ensures
            self.wf(*final(admissions)),
            barriers_set(self.endpoints@, old(admissions).entries@, final(admissions).entries@, true),
    {
        let mut i: usize = 0;
        while i < self.endpoints.len()
            invariant
                i <= self.endpoints@.len(),
                self.wf(*old(admissions)),
                barriers_set(
                    self.endpoints@.take(i as int),
                    old(admissions).entries@,
                    admissions.entries@,
                    true,
                ),
            decreases self.endpoints@.len() - i,
        {
            let ghost entries = admissions.entries@;
            assert(old(admissions).has(self.endpoints@[i as int].token.admission));
            admissions.reopen(self.endpoints[i].token.admission);
            proof {
                lemma_barriers_step(
                    self.endpoints@,
                    i as int,
                    old(admissions).entries@,
                    entries,
                    admissions.entries@,
                    true,
                );
            }
            i = i + 1;
        }
        assert(self.endpoints@.take(i as int) =~= self.endpoints@);
        assert forall|j: int|
            #![trigger self.endpoints@[j]]
            0 <= j < self.endpoints@.len() implies admissions.at(
            self.endpoints@[j].token.admission,
        ).generation == self.endpoints@[j].token.binding_generation && admissions.at(
            self.endpoints@[j].token.admission,
        ).epoch == self.endpoints@[j].token.admission_epoch by {
            let k = self.endpoints@[j].token.admission.0 as int;
            assert(admissions.entries@[k].generation == old(admissions).entries@[k].generation);
        }
    }

    /// Ends all bindings: their admissions close, and each endpoint is left to
    /// withdraw its interrupt.
    pub fn invalidate_all(&mut self, admissions: &mut EndpointAdmissions) -> (pending: Vec<
        PendingIrqWithdrawal<F>,
    >)
        requires
            old(self).wf(*old(admissions)),
        ensures
            final(self).endpoints@ == Seq::<RoutedEndpoint<F>>::empty(),
            final(self).next_generation == old(self).next_generation,
            barriers_set(
                old(self).endpoints@,
                old(admissions).entries@,
                final(admissions).entries@,
                false,
            ),
            pending@.len() == old(self).endpoints@.len(),
            forall|i: int|
                #![trigger pending@[i]]
                0 <= i < pending@.len() ==> pending@[i] == (PendingIrqWithdrawal {
                    device: old(self).endpoints@[i].token.device,
                    function: old(self).endpoints@[i].function,
                    admission: old(self).endpoints@[i].token.admission,
                }),
    {
        self.close_admissions(admissions);
        let count: usize = self.endpoints.len();
        let mut pending: Vec<PendingIrqWithdrawal<F>> = Vec::new();
        let mut i: usize = 0;
        while i < count
            invariant
                i <= count == old(self).endpoints@.len(),
                self.next_generation == old(self).next_generation,
                self.endpoints@ == old(self).endpoints@.skip(i as int),
                pending@.len() == i,
                forall|j: int|
                    #![trigger pending@[j]]
                    0 <= j < i ==> pending@[j] == (PendingIrqWithdrawal {
                        device: old(self).endpoints@[j].token.device,
                        function: old(self).endpoints@[j].function,
                        admission: old(self).endpoints@[j].token.admission,
                    }),
            decreases count - i,
        {
            let entry = self.endpoints.remove(0);
            assert(self.endpoints@ =~= old(self).endpoints@.skip(i + 1));
            pending.push(
                PendingIrqWithdrawal {
                    device: entry.token.device,
                    function: entry.function,
                    admission: entry.token.admission,
                },
            );
            i = i + 1;
        }
        assert(self.endpoints@ =~= Seq::<RoutedEndpoint<F>>::empty());
        pending
    }
}

/// Whether removing the endpoint at `i`, with this token and function, turns
/// `before` into `after`.
pub open spec fn is_removal<F>(
    before: Seq<RoutedEndpoint<F>>,
    after: Seq<RoutedEndpoint<F>>,
    i: int,
    token: EndpointRouteToken,
    function: F,
) -> bool {
    &&& 0 <= i < before.len()
    &&& before[i].token == token
    &&& before[i].function == function
    &&& after == before.remove(i)
}

/// Whether one of the endpoints is in the last epoch.
pub open spec fn has_last_epoch<F>(endpoints: Seq<RoutedEndpoint<F>>) -> bool {
    exists|i: int|
        #![trigger endpoints[i]]
        0 <= i < endpoints.len() && endpoints[i].token.admission_epoch == u64::MAX
}

/// The error for an endpoint that has no epoch left.
pub open spec fn epoch_exhausted() -> DeviceManagerError {
    DeviceManagerError::InvalidState {
        operation: "reset PCI endpoint route admission",
        detail: "PCI route admission epoch is exhausted",
    }
}

/// The closed admission of the epoch after that of `token`.
pub open spec fn rotated_admission(token: EndpointRouteToken) -> EndpointAdmission {
    EndpointAdmission {
        generation: token.binding_generation,
        epoch: (token.admission_epoch + 1) as u64,
        open: false,
        leases: 0,
        permits: 0,
    }
}

/// Whether `after` is the endpoint `before` in its next epoch, with `admission`.
pub open spec fn is_rotated<F>(
    before: RoutedEndpoint<F>,
    after: RoutedEndpoint<F>,
    admission: int,
) -> bool {
    &&& after.function == before.function
    &&& after.token == (EndpointRouteToken {
        admission_epoch: (before.token.admission_epoch + 1) as u64,
        admission: AdmissionId(admission as usize),
        ..before.token
    })
}

/// Whether every endpoint got a new closed epoch, and the old ones are closed.
pub open spec fn is_rotation<F>(
    before: Seq<RoutedEndpoint<F>>,
    after: Seq<RoutedEndpoint<F>>,
    old_entries: Seq<EndpointAdmission>,
    new_entries: Seq<EndpointAdmission>,
    replacements: Seq<(EndpointRouteToken, EndpointRouteToken)>,
) -> bool {
    &&& after.len() == before.len()
    &&& replacements.len() == before.len()
    &&& new_entries.len() == old_entries.len() + before.len()
    &&& forall|k: int|
        #![trigger new_entries[k]]
        0 <= k < old_entries.len() ==> new_entries[k] == (if is_routed(before, k) {
            EndpointAdmission { open: false, ..old_entries[k] }
        } else {
            old_entries[k]
        })
    &&& forall|j: int|
        #![trigger after[j]]
        0 <= j < before.len() ==> is_rotated(before[j], after[j], old_entries.len() + j)
            && replacements[j] == (before[j].token, after[j].token) && new_entries[old_entries.len()
            + j] == rotated_admission(before[j].token)
}

/// An admission belongs to the first `i + 1` endpoints when it belongs to the
/// first `i` or to the next one.
proof fn lemma_routed_step<F>(endpoints: Seq<RoutedEndpoint<F>>, i: int, k: int)
    requires
        0 <= i < endpoints.len(),
    ensures
        is_routed(endpoints.take(i + 1), k) == (is_routed(endpoints.take(i), k)
            || endpoints[i].token.admission.0 == k),
{
    let before = endpoints.take(i);
    let after = endpoints.take(i + 1);
    if is_routed(before, k) {
        let j = choose|j: int|
            #![trigger before[j]]
            0 <= j < before.len() && before[j].token.admission.0 == k;
        assert(after[j].token.admission.0 == k);
    }
    if endpoints[i].token.admission.0 == k {
        assert(after[i].token.admission.0 == k);
    }
    if is_routed(after, k) {
        let j = choose|j: int|
            #![trigger after[j]]
            0 <= j < after.len() && after[j].token.admission.0 == k;
        if j < i {
            assert(before[j].token.admission.0 == k);
        }
    }
}

/// Setting one more barrier.
proof fn lemma_barriers_step<F>(
    endpoints: Seq<RoutedEndpoint<F>>,
    i: int,
    first: Seq<EndpointAdmission>,
    before: Seq<EndpointAdmission>,
    after: Seq<EndpointAdmission>,
    open: bool,
)
    requires
        0 <= i < endpoints.len(),
        barriers_set(endpoints.take(i), first, before, open),
        endpoints[i].token.admission.0 < first.len(),
        after == before.update(
            endpoints[i].token.admission.0 as int,
            EndpointAdmission { open, ..before[endpoints[i].token.admission.0 as int] },
        ),
    ensures
        barriers_set(endpoints.take(i + 1), first, after, open),
{
    assert forall|k: int|
        #![trigger after[k]]
        0 <= k < first.len() implies after[k] == (if is_routed(endpoints.take(i + 1), k) {
        EndpointAdmission { open, ..first[k] }
    } else {
        first[k]
    }) by {
        lemma_routed_step(endpoints, i, k);
        assert(before[k] == before[k]);
    }
}

/// A device has one endpoint, so another token of it leads nowhere.
proof fn lemma_device_has_one_token<F>(
    router: EndpointRouter<F>,
    admissions: EndpointAdmissions,
    i: int,
    token: EndpointRouteToken,
)
    requires
        router.wf(admissions),
        0 <= i < router.endpoints@.len(),
        router.endpoints@[i].token.device == token.device,
        router.endpoints@[i].token != token,
    ensures
        !router.has_token(token),
{
    if router.has_token(token) {
        let j = choose|j: int|
            #![trigger router.endpoints@[j]]
            0 <= j < router.endpoints@.len() && router.endpoints@[j].token == token;
        assert(router.endpoints@[i].token.device.0 == router.endpoints@[j].token.device.0);
    }
}

/// Removing one endpoint and closing its admission keeps the router well formed.
proof fn lemma_removal_keeps_wf<F>(
    before: EndpointRouter<F>,
    after: EndpointRouter<F>,
    old_admissions: EndpointAdmissions,
    new_admissions: EndpointAdmissions,
    i: int,
)
    requires
        before.wf(old_admissions),
        0 <= i < before.endpoints@.len(),
        after.next_generation == before.next_generation,
        after.endpoints@ == before.endpoints@.remove(i),
        new_admissions.entries@ == old_admissions.closed(before.endpoints@[i].token.admission),
    ensures
        after.wf(new_admissions),
{
    let from = before.endpoints@;
    let to = after.endpoints@;
    assert forall|j: int| #![trigger to[j]] 0 <= j < to.len() implies to[j] == (if j < i {
        from[j]
    } else {
        from[j + 1]
    }) by {}
    assert forall|j: int, k: int| #![trigger to[j], to[k]] 0 <= j < k < to.len() implies to[j].token.device.0
        < to[k].token.device.0 && to[j].token.admission != to[k].token.admission by {}
    assert(old_admissions.has(from[i].token.admission));
}

/// A rotation keeps the router well formed.
proof fn lemma_rotation_keeps_wf<F>(
    before: EndpointRouter<F>,
    after: EndpointRouter<F>,
    old_admissions: EndpointAdmissions,
    new_admissions: EndpointAdmissions,
    replacements: Seq<(EndpointRouteToken, EndpointRouteToken)>,
)
    requires
        before.wf(old_admissions),
        after.next_generation == before.next_generation,
        old_admissions.entries@.len() + before.endpoints@.len() <= usize::MAX,
        is_rotation(
            before.endpoints@,
            after.endpoints@,
            old_admissions.entries@,
            new_admissions.entries@,
            replacements,
        ),
    ensures
        after.wf(new_admissions),
{
    let from = before.endpoints@;
    let to = after.endpoints@;
    assert forall|j: int, k: int| #![trigger to[j], to[k]] 0 <= j < k < to.len() implies to[j].token.device.0
        < to[k].token.device.0 && to[j].token.admission != to[k].token.admission by {
        assert(from[j].token.device.0 < from[k].token.device.0);
        assert(is_rotated(from[j], to[j], old_admissions.entries@.len() + j));
        assert(is_rotated(from[k], to[k], old_admissions.entries@.len() + k));
    }
    assert forall|j: int| #![trigger to[j]] 0 <= j < to.len() implies {
        let token = to[j].token;
        &&& new_admissions.has(token.admission)
        &&& new_admissions.at(token.admission).generation == token.binding_generation
        &&& new_admissions.at(token.admission).epoch == token.admission_epoch
        &&& token.binding_generation <= after.next_generation
    } by {
        assert(from[j].token.binding_generation <= before.next_generation);
        assert(is_rotated(from[j], to[j], old_admissions.entries@.len() + j));
    }
}

/// The first error of the first `count` resets and withdrawals, as an error of the manager.
pub open spec fn first_error(
    outcomes: Seq<(DeviceResult<()>, DeviceResult<()>)>,
    count: int,
) -> DeviceManagerResult<()>
    decreases count,
{
    if count <= 0 {
        Ok(())
    } else {
        match first_error(outcomes, count - 1) {
            Err(error) => Err(error),
            Ok(()) => match outcomes[count - 1] {
                (Err(error), _) => Err(DeviceManagerError::Device(error)),
                (Ok(()), Err(error)) => Err(DeviceManagerError::Device(error)),
                (Ok(()), Ok(())) => Ok(()),
            },
        }
    }
}

/// Keeps the first error of a series.
pub fn note_outcome(first: &mut Option<DeviceManagerError>, outcome: DeviceResult<()>)
    ensures
        *final(first) == (match (*old(first), outcome) {
            (None, Err(error)) => Some(DeviceManagerError::Device(error)),
            (first, _) => first,
        }),
{
    if let Err(error) = outcome {
        if first.is_none() {
            *first = Some(DeviceManagerError::Device(error));
        }
    }
}

/// The first error so far, as a result.
pub open spec fn as_result(first: Option<DeviceManagerError>) -> DeviceManagerResult<()> {
    match first {
        Some(error) => Err(error),
        None => Ok(()),
    }
}

/// Whether resetting the endpoint behind `reset`, and then withdrawing its interrupt behind
/// `withdrawal`, came to these outcomes.
pub open spec fn is_reset_answer<F: PciFunction>(
    reset: &mut F,
    withdrawal: &mut F,
    command: PciCommandState,
    outcome: (DeviceResult<()>, DeviceResult<()>),
) -> bool {
    &&& says_reset(reset, command, outcome.0)
    &&& says_withdrawal(withdrawal, outcome.1)
}

/// Resets one endpoint, and whatever came of that withdraws its interrupt.
pub fn reset_endpoint<F: PciFunction>(function: &mut F, command: PciCommandState) -> (outcome: (
    DeviceResult<()>,
    DeviceResult<()>,
))
    ensures
        exists|reset: &mut F, withdrawal: &mut F| {
            &&& #[trigger] is_reset_answer(reset, withdrawal, command, outcome)
            &&& *reset == *old(function)
            &&& *final(reset) == *withdrawal
            &&& *final(withdrawal) == *final(function)
        },
{
    let told = function.reset(command);
    let ghost middle = *function;
    // The new admission is still closed and the old one drained: the reset itself
    // authorizes this transition.
    let mut permit = EndpointIrqTransitionPermit::new();
    let withdrawn = function.withdraw_irq(&mut permit);
    let outcome = (told, withdrawn);
    proof {
        let reset = choose|call: &mut F|
            {
                &&& #[trigger] call_ensures(F::reset, (call, command), outcome.0)
                &&& *call == *old(function)
                &&& *final(call) == middle
            };
        let (withdrawal, _) = choose|call: &mut F, permit: &mut EndpointIrqTransitionPermit|
            {
                &&& #[trigger] call_ensures(F::withdraw_irq, (call, permit), outcome.1)
                &&& *call == middle
                &&& *final(call) == *function
            };
        assert(is_reset_answer(reset, withdrawal, command, outcome));
    }
    outcome
}

/// Whether endpoint `i` is that of `device`, and its reset turns `before` into `after`, with `told`
/// the endpoint afterwards.
pub open spec fn is_reset_of<F: PciFunction>(
    reset: &mut F,
    withdrawal: &mut F,
    before: Seq<RoutedEndpoint<F>>,
    after: Seq<RoutedEndpoint<F>>,
    i: int,
    device: DeviceId,
    command: PciCommandState,
    told: F,
    outcome: (DeviceResult<()>, DeviceResult<()>),
) -> bool {
    &&& 0 <= i < before.len()
    &&& before[i].token.device == device
    &&& *reset == before[i].function
    &&& is_reset_answer(reset, withdrawal, command, outcome)
    &&& after == before.update(i, RoutedEndpoint { function: told, ..before[i] })
}

/// Whether one command turns the endpoints `before` into those `after`: a device without an endpoint
/// is passed over, another is reset and then withdraws its interrupt.
pub open spec fn is_reset_step<F: PciFunction>(
    reset: Option<&mut F>,
    withdrawal: Option<&mut F>,
    before: Seq<RoutedEndpoint<F>>,
    after: Seq<RoutedEndpoint<F>>,
    device: DeviceId,
    command: PciCommandState,
    told: F,
    outcome: (DeviceResult<()>, DeviceResult<()>),
) -> bool {
    if forall|i: int|
        #![trigger before[i]]
        0 <= i < before.len() ==> before[i].token.device != device {
        &&& reset is None
        &&& withdrawal is None
        &&& after == before
        &&& outcome.0 is Ok
        &&& outcome.1 is Ok
    } else {
        &&& reset is Some
        &&& withdrawal is Some
        &&& exists|i: int|
            #[trigger] is_reset_of(
                reset->0,
                withdrawal->0,
                before,
                after,
                i,
                device,
                command,
                told,
                outcome,
            )
    }
}

/// Whether the first `count` of `commands`, one after the other, take the endpoints through
/// `states`.
pub open spec fn are_resets<F: PciFunction>(
    resets: Seq<Option<&mut F>>,
    withdrawals: Seq<Option<&mut F>>,
    states: Seq<Seq<RoutedEndpoint<F>>>,
    commands: Seq<(DeviceId, PciCommandState)>,
    told: Seq<F>,
    outcomes: Seq<(DeviceResult<()>, DeviceResult<()>)>,
    count: int,
) -> bool {
    &&& resets.len() == count
    &&& withdrawals.len() == count
    &&& told.len() == count
    &&& outcomes.len() == count
    &&& states.len() == count + 1
    &&& forall|k: int|
        #![trigger outcomes[k]]
        0 <= k < count ==> is_reset_step(
            resets[k],
            withdrawals[k],
            states[k],
            states[k + 1],
            commands[k].0,
            commands[k].1,
            told[k],
            outcomes[k],
        )
}

/// The same endpoints, but for what is in them.
pub open spec fn same_tokens<F>(
    before: Seq<RoutedEndpoint<F>>,
    after: Seq<RoutedEndpoint<F>>,
) -> bool {
    &&& after.len() == before.len()
    &&& forall|i: int|
        #![trigger after[i]]
        0 <= i < after.len() ==> after[i] == (RoutedEndpoint {
            function: after[i].function,
            ..before[i]
        })
}

/// Other endpoints under the same tokens keep the router well formed.
pub proof fn lemma_same_tokens_keep_wf<F>(
    before: EndpointRouter<F>,
    after: EndpointRouter<F>,
    admissions: EndpointAdmissions,
)
    requires
        before.wf(admissions),
        after.next_generation == before.next_generation,
        same_tokens(before.endpoints@, after.endpoints@),
    ensures
        after.wf(admissions),
{
    let from = before.endpoints@;
    let to = after.endpoints@;
    assert forall|j: int| #![trigger to[j]] 0 <= j < to.len() implies to[j].token
        == from[j].token by {}
}

/// The error for a root and a router that disagree on what is bound.
pub open spec fn inconsistent_routes() -> DeviceManagerError {
    DeviceManagerError::InvalidState {
        operation: "reset PCI endpoints",
        detail: "PCI root and endpoint route sets are inconsistent",
    }
}

/// What resetting the endpoints of `commands` comes to: an error unless there is
/// one command for each endpoint, else the first error of an endpoint.
pub open spec fn is_endpoints_reset<F: PciFunction>(
    resets: Seq<Option<&mut F>>,
    withdrawals: Seq<Option<&mut F>>,
    before: Seq<RoutedEndpoint<F>>,
    after: Seq<RoutedEndpoint<F>>,
    commands: Seq<(DeviceId, PciCommandState)>,
    told: Seq<F>,
    result: DeviceManagerResult<()>,
) -> bool {
    if commands.len() != before.len() {
        &&& resets.len() == 0
        &&& withdrawals.len() == 0
        &&& after == before
        &&& result == Err::<(), DeviceManagerError>(inconsistent_routes())
    } else {
        exists|
            states: Seq<Seq<RoutedEndpoint<F>>>,
            outcomes: Seq<(DeviceResult<()>, DeviceResult<()>)>,
        |
            #[trigger] are_resets(
                resets,
                withdrawals,
                states,
                commands,
                told,
                outcomes,
                commands.len() as int,
            ) && states.first() == before && states.last() == after && result == first_error(
                outcomes,
                commands.len() as int,
            )
    }
}

/// Later outcomes do not change the first error of the earlier ones.
proof fn lemma_first_error_prefix(
    outcomes: Seq<(DeviceResult<()>, DeviceResult<()>)>,
    longer: Seq<(DeviceResult<()>, DeviceResult<()>)>,
    count: int,
)
    requires
        count <= outcomes.len() <= longer.len(),
        forall|j: int| #![trigger longer[j]] 0 <= j < outcomes.len() ==> longer[j] == outcomes[j],
    ensures
        first_error(longer, count) == first_error(outcomes, count),
    decreases count,
{
    if count > 0 {
        lemma_first_error_prefix(outcomes, longer, count - 1);
    }
}

impl<F: PciFunction> EndpointRouter<F> {
    /// Checks that there is one command for each endpoint.
    ///
    /// # Errors
    ///
    /// Returns [`DeviceManagerError::InvalidState`] when the commands are not
    /// one for each endpoint.
    pub fn check_commands(&self, commands: &Vec<(DeviceId, PciCommandState)>) -> (result:
        DeviceManagerResult<()>)
        ensures
            result == (if commands@.len() == self.endpoints@.len() {
                Ok::<(), DeviceManagerError>(())
            } else {
                Err(inconsistent_routes())
            }),
    {
        if commands.len() != self.endpoints.len() {
            return Err(
                DeviceManagerError::InvalidState {
                    operation: "reset PCI endpoints",
                    detail: "PCI root and endpoint route sets are inconsistent",
                },
            );
        }
        Ok(())
    }

    /// Resets every bound endpoint and then withdraws its interrupt, whatever
    /// became of the others.
    ///
    /// # Errors
    ///
    /// Returns [`DeviceManagerError::InvalidState`] when the commands are not
    /// one for each endpoint, else the first error of an endpoint.
    pub fn reset_endpoints(&mut self, commands: &Vec<(DeviceId, PciCommandState)>) -> (result:
        DeviceManagerResult<()>)
        ensures
            final(self).next_generation == old(self).next_generation,
            same_tokens(old(self).endpoints@, final(self).endpoints@),
            exists|
                resets: Seq<Option<&mut F>>,
                withdrawals: Seq<Option<&mut F>>,
                told: Seq<F>,
            | {
                &&& #[trigger] is_endpoints_reset(
                    resets,
                    withdrawals,
                    old(self).endpoints@,
                    final(self).endpoints@,
                    commands@,
                    told,
                    result,
                )
                &&& forall|k: int|
                    0 <= k < resets.len() && (#[trigger] resets[k]) is Some ==> *final(resets[k]->0)
                        == *(withdrawals[k]->0)
                &&& forall|k: int|
                    0 <= k < withdrawals.len() && (#[trigger] withdrawals[k]) is Some
                        ==> *final(withdrawals[k]->0) == told[k]
            },
    {
        if let Err(error) = self.check_commands(commands) {
            let result = Err(error);
            assert(is_endpoints_reset(
                Seq::<Option<&mut F>>::empty(),
                Seq::<Option<&mut F>>::empty(),
                old(self).endpoints@,
                self.endpoints@,
                commands@,
                Seq::<F>::empty(),
                result,
            ));
            return result;
        }
        let mut first: Option<DeviceManagerError> = None;
        let ghost mut outcomes: Seq<(DeviceResult<()>, DeviceResult<()>)> = Seq::empty();
        let ghost mut states: Seq<Seq<RoutedEndpoint<F>>> = seq![self.endpoints@];
        let ghost mut told: Seq<F> = Seq::empty();
        assert(are_resets(
            Seq::<Option<&mut F>>::empty(),
            Seq::<Option<&mut F>>::empty(),
            states,
            commands@,
            told,
            outcomes,
            0,
        ));
        let mut i: usize = 0;
        while i < commands.len()
            invariant
                i <= commands@.len(),
                commands@.len() == old(self).endpoints@.len(),
                self.next_generation == old(self).next_generation,
                same_tokens(old(self).endpoints@, self.endpoints@),
                states.len() == i + 1,
                states.first() == old(self).endpoints@,
                states.last() == self.endpoints@,
                told.len() == i,
                outcomes.len() == i,
                exists|resets: Seq<Option<&mut F>>, withdrawals: Seq<Option<&mut F>>| {
                    &&& #[trigger] are_resets(
                        resets,
                        withdrawals,
                        states,
                        commands@,
                        told,
                        outcomes,
                        i as int,
                    )
                    &&& forall|k: int|
                        0 <= k < resets.len() && (#[trigger] resets[k]) is Some
                            ==> *final(resets[k]->0) == *(withdrawals[k]->0)
                    &&& forall|k: int|
                        0 <= k < withdrawals.len() && (#[trigger] withdrawals[k]) is Some
                            ==> *final(withdrawals[k]->0) == told[k]
                },
                as_result(first) == first_error(outcomes, i as int),
            decreases commands@.len() - i,
        {
            let (device, command) = commands[i];
            let ghost before = self.endpoints@;
            match self.position(device) {
                None => {
                    proof {
                        let outcome = (Ok::<(), DeviceError>(()), Ok::<(), DeviceError>(()));
                        let next = outcomes.push(outcome);
                        let next_told = told.push(arbitrary());
                        let next_states = states.push(self.endpoints@);
                        let (resets, withdrawals) = choose|
                            resets: Seq<Option<&mut F>>,
                            withdrawals: Seq<Option<&mut F>>,
                        |
                            {
                                &&& #[trigger] are_resets(
                                    resets,
                                    withdrawals,
                                    states,
                                    commands@,
                                    told,
                                    outcomes,
                                    i as int,
                                )
                                &&& forall|k: int|
                                    0 <= k < resets.len() && (#[trigger] resets[k]) is Some
                                        ==> *final(resets[k]->0) == *(withdrawals[k]->0)
                                &&& forall|k: int|
                                    0 <= k < withdrawals.len() && (#[trigger] withdrawals[k]) is Some
                                        ==> *final(withdrawals[k]->0) == told[k]
                            };
                        lemma_resets_step(
                            resets,
                            withdrawals,
                            states,
                            commands@,
                            told,
                            outcomes,
                            i as int,
                            None,
                            None,
                            self.endpoints@,
                            next_told.last(),
                            outcome,
                        );
                        let more_resets = resets.push(None);
                        let more_withdrawals = withdrawals.push(None);
                        assert forall|k: int|
                            0 <= k < more_resets.len() && (#[trigger] more_resets[k])
                                is Some implies *final(more_resets[k]->0) == *(more_withdrawals[k]->0)
                            by {
                            assert(k < i);
                            assert(resets[k] == more_resets[k]);
                            assert(withdrawals[k] == more_withdrawals[k]);
                        }
                        assert forall|k: int|
                            0 <= k < more_withdrawals.len() && (#[trigger] more_withdrawals[k])
                                is Some implies *final(more_withdrawals[k]->0) == next_told[k] by {
                            assert(k < i);
                            assert(withdrawals[k] == more_withdrawals[k]);
                        }
                        assert(are_resets(
                            more_resets,
                            more_withdrawals,
                            next_states,
                            commands@,
                            next_told,
                            next,
                            i + 1,
                        ));
                        lemma_first_error_prefix(outcomes, next, i as int);
                        outcomes = next;
                        told = next_told;
                        states = next_states;
                    }
                },
                Some(position) => {
                    let outcome = reset_endpoint(&mut self.endpoints[position].function, command);
                    let ghost answer = outcome;
                    let (reset, withdrawn) = outcome;
                    note_outcome(&mut first, reset);
                    note_outcome(&mut first, withdrawn);
                    proof {
                        let now = self.endpoints@[position as int].function;
                        let next = outcomes.push(answer);
                        let next_told = told.push(now);
                        let next_states = states.push(self.endpoints@);
                        let (resets, withdrawals) = choose|
                            resets: Seq<Option<&mut F>>,
                            withdrawals: Seq<Option<&mut F>>,
                        |
                            {
                                &&& #[trigger] are_resets(
                                    resets,
                                    withdrawals,
                                    states,
                                    commands@,
                                    told,
                                    outcomes,
                                    i as int,
                                )
                                &&& forall|k: int|
                                    0 <= k < resets.len() && (#[trigger] resets[k]) is Some
                                        ==> *final(resets[k]->0) == *(withdrawals[k]->0)
                                &&& forall|k: int|
                                    0 <= k < withdrawals.len() && (#[trigger] withdrawals[k]) is Some
                                        ==> *final(withdrawals[k]->0) == told[k]
                            };
                        let (one_reset, one_withdrawal) = choose|
                            reset: &mut F,
                            withdrawal: &mut F,
                        |
                            {
                                &&& #[trigger] is_reset_answer(reset, withdrawal, command, answer)
                                &&& *reset == before[position as int].function
                                &&& *final(reset) == *withdrawal
                                &&& *final(withdrawal) == now
                            };
                        assert(self.endpoints@ =~= before.update(
                            position as int,
                            RoutedEndpoint { function: now, ..before[position as int] },
                        ));
                        assert(before[position as int].token.device == device);
                        let (given_reset, given_withdrawal) = (
                            Some(one_reset),
                            Some(one_withdrawal),
                        );
                        assert(is_reset_of(
                            given_reset->0,
                            given_withdrawal->0,
                            before,
                            self.endpoints@,
                            position as int,
                            device,
                            command,
                            now,
                            answer,
                        ));
                        lemma_resets_step(
                            resets,
                            withdrawals,
                            states,
                            commands@,
                            told,
                            outcomes,
                            i as int,
                            given_reset,
                            given_withdrawal,
                            self.endpoints@,
                            now,
                            answer,
                        );
                        let more_resets = resets.push(given_reset);
                        let more_withdrawals = withdrawals.push(given_withdrawal);
                        assert forall|k: int|
                            0 <= k < more_resets.len() && (#[trigger] more_resets[k])
                                is Some implies *final(more_resets[k]->0) == *(more_withdrawals[k]->0)
                            by {
                            if k < i {
                                assert(resets[k] == more_resets[k]);
                                assert(withdrawals[k] == more_withdrawals[k]);
                            }
                        }
                        assert forall|k: int|
                            0 <= k < more_withdrawals.len() && (#[trigger] more_withdrawals[k])
                                is Some implies *final(more_withdrawals[k]->0) == next_told[k] by {
                            if k < i {
                                assert(withdrawals[k] == more_withdrawals[k]);
                            }
                        }
                        assert(are_resets(
                            more_resets,
                            more_withdrawals,
                            next_states,
                            commands@,
                            next_told,
                            next,
                            i + 1,
                        ));
                        lemma_first_error_prefix(outcomes, next, i as int);
                        outcomes = next;
                        told = next_told;
                        states = next_states;
                    }
                },
            }
            i = i + 1;
        }
        let result = match first {
            Some(error) => Err(error),
            None => Ok(()),
        };
        proof {
            let (resets, withdrawals) = choose|
                resets: Seq<Option<&mut F>>,
                withdrawals: Seq<Option<&mut F>>,
            |
                {
                    &&& #[trigger] are_resets(
                        resets,
                        withdrawals,
                        states,
                        commands@,
                        told,
                        outcomes,
                        i as int,
                    )
                    &&& forall|k: int|
                        0 <= k < resets.len() && (#[trigger] resets[k]) is Some
                            ==> *final(resets[k]->0) == *(withdrawals[k]->0)
                    &&& forall|k: int|
                        0 <= k < withdrawals.len() && (#[trigger] withdrawals[k]) is Some
                            ==> *final(withdrawals[k]->0) == told[k]
                };
            assert(is_endpoints_reset(
                resets,
                withdrawals,
                old(self).endpoints@,
                self.endpoints@,
                commands@,
                told,
                result,
            ));
        }
        result
    }
}

/// One more command extends a series of resets.
proof fn lemma_resets_step<F: PciFunction>(
    resets: Seq<Option<&mut F>>,
    withdrawals: Seq<Option<&mut F>>,
    states: Seq<Seq<RoutedEndpoint<F>>>,
    commands: Seq<(DeviceId, PciCommandState)>,
    told: Seq<F>,
    outcomes: Seq<(DeviceResult<()>, DeviceResult<()>)>,
    count: int,
    reset: Option<&mut F>,
    withdrawal: Option<&mut F>,
    after: Seq<RoutedEndpoint<F>>,
    now: F,
    outcome: (DeviceResult<()>, DeviceResult<()>),
)
    requires
        are_resets(resets, withdrawals, states, commands, told, outcomes, count),
        0 <= count < commands.len(),
        is_reset_step(
            reset,
            withdrawal,
            states.last(),
            after,
            commands[count].0,
            commands[count].1,
            now,
            outcome,
        ),
    ensures
        are_resets(
            resets.push(reset),
            withdrawals.push(withdrawal),
            states.push(after),
            commands,
            told.push(now),
            outcomes.push(outcome),
            count + 1,
        ),
{
    let next = outcomes.push(outcome);
    assert forall|k: int| #![trigger next[k]] 0 <= k < count + 1 implies is_reset_step(
        resets.push(reset)[k],
        withdrawals.push(withdrawal)[k],
        states.push(after)[k],
        states.push(after)[k + 1],
        commands[k].0,
        commands[k].1,
        told.push(now)[k],
        next[k],
    ) by {
        if k < count {
            assert(outcomes[k] == next[k]);
        }
    }
}

} // verus!
