//! What the nodes of a device graph share about one PCI bus.

use crate::access::{DeviceManagerError, DeviceManagerResult, DeviceNodeId};
#[allow(unused_imports)]
use crate::pci::address::PciBarIndex;
use crate::pci::bar::PciMemoryBar;
use crate::pci::error::{PciError, PciResult};
use crate::pci::function::{PciEndpointIdentity, PciFunctionSpec};
use crate::pci::topology::ResolvedPciTopology;
use vstd::prelude::*;

verus! {

/// Name of a PCI host that functions are attached to.
#[derive(Debug, PartialEq, Eq)]
pub struct PciHostKey {
    /// Non-empty name.
    pub name: String,
}

impl View for PciHostKey {
    type V = Seq<char>;

    open spec fn view(&self) -> Seq<char> {
        self.name@
    }
}

impl PciHostKey {
    /// Names a host; the empty name is none.
    pub fn new(name: &str) -> (result: PciResult<PciHostKey>)
        ensures
            name@.len() == 0 ==> result == Err::<PciHostKey, _>(PciError::InvalidHostKey),
            name@.len() > 0 ==> (result matches Ok(key) && key@ == name@),
    {
        if name.is_empty() {
            return Err(PciError::InvalidHostKey);
        }
        Ok(PciHostKey { name: name.to_owned() })
    }

    /// Returns the name.
    pub fn as_str(&self) -> (name: &str)
        ensures
            name@ == self@,
    {
        self.name.as_str()
    }
}

/// A PCI function that a device asks the graph for.
#[derive(Debug, PartialEq, Eq)]
pub struct PciFunctionRequirement {
    /// Host that the function is attached to.
    pub host: PciHostKey,
    /// Identity registers.
    pub identity: PciEndpointIdentity,
    /// Memory BARs.
    pub bars: Vec<PciMemoryBar>,
}

impl PciFunctionRequirement {
    /// BARs are usable and have different slots.
    pub open spec fn wf(self) -> bool {
        &&& forall|i: int|
            #![trigger self.bars@[i]]
            0 <= i < self.bars@.len() ==> self.bars@[i].wf()
        &&& forall|i: int, j: int|
            #![trigger self.bars@[i], self.bars@[j]]
            0 <= i < j < self.bars@.len() ==> self.bars@[i].index != self.bars@[j].index
    }

    /// Asks for a function without BARs.
    pub fn new(host: PciHostKey, identity: PciEndpointIdentity) -> (requirement: Self)
        ensures
            requirement.wf(),
            requirement.host == host,
            requirement.identity == identity,
            requirement.bars@ == Seq::<PciMemoryBar>::empty(),
    {
        PciFunctionRequirement { host, identity, bars: Vec::new() }
    }

    /// Whether slot `index` is taken.
    pub open spec fn has_bar(self, index: PciBarIndex) -> bool {
        exists|i: int|
            #![trigger self.bars@[i]]
            0 <= i < self.bars@.len() && self.bars@[i].index == index
    }

    /// Adds one BAR.
    ///
    /// # Errors
    ///
    /// Returns [`PciError::InvalidBar`] when the slot is taken.
    pub fn with_bar(self, bar: PciMemoryBar) -> (result: PciResult<PciFunctionRequirement>)
        requires
            self.wf(),
            bar.wf(),
        ensures
            self.has_bar(bar.index) ==> result == Err::<PciFunctionRequirement, PciError>(
                PciError::InvalidBar { bar: bar.index.0, detail: "slot is already in use" },
            ),
            !self.has_bar(bar.index) ==> (result matches Ok(requirement) && {
                &&& requirement.wf()
                &&& requirement.bars@ == self.bars@.push(bar)
                &&& requirement == (PciFunctionRequirement { bars: requirement.bars, ..self })
            }),
    {
        let mut requirement = self;
        let mut i: usize = 0;
        while i < requirement.bars.len()
            invariant
                i <= requirement.bars@.len(),
                requirement == self,
                forall|j: int|
                    #![trigger self.bars@[j]]
                    0 <= j < i ==> self.bars@[j].index != bar.index,
            decreases requirement.bars@.len() - i,
        {
            if requirement.bars[i].index == bar.index {
                assert(self.bars@[i as int].index == bar.index);
                return Err(
                    PciError::InvalidBar { bar: bar.index.0, detail: "slot is already in use" },
                );
            }
            i = i + 1;
        }
        requirement.bars.push(bar);
        Ok(requirement)
    }

    /// Returns the host that the function is attached to.
    pub fn host(&self) -> (host: &PciHostKey)
        ensures
            *host == self.host,
    {
        &self.host
    }

    /// Turns the requirement of a device into the function that a topology places.
    pub fn into_function(self, id: DeviceNodeId) -> (spec: PciFunctionSpec)
        requires
            self.wf(),
        ensures
            spec.wf(),
            spec.id == id,
            spec.identity == self.identity,
            spec.bars == self.bars,
            spec.bdf == crate::access::ResourceRequest::<crate::pci::address::PciBdf>::Auto,
            spec.config_bytes@.len() == 0,
            spec.capabilities@.len() == 0,
            !spec.intx,
    {
        let mut spec = PciFunctionSpec::new(id, self.identity);
        spec.bars = self.bars;
        spec
    }
}

/// Resolved host of one bus.
#[derive(Debug)]
pub struct PciHostPlan {
    /// Topology of the bus.
    pub topology: ResolvedPciTopology,
    /// First address of the configuration window.
    pub ecam_start: u64,
    /// Address behind the configuration window.
    pub ecam_end: u64,
}

impl PciHostPlan {
    /// Both windows have a size.
    pub open spec fn wf(self) -> bool {
        self.ecam_start <= self.ecam_end && self.topology.aperture_start
            <= self.topology.aperture_end
    }

    /// Whether claimed ranges, as address and size, are the windows of the host.
    pub open spec fn matches_claims(self, ecam: (u64, u64), memory: (u64, u64)) -> bool {
        &&& ecam == (self.ecam_start, (self.ecam_end - self.ecam_start) as u64)
        &&& memory == (
            self.topology.aperture_start,
            (self.topology.aperture_end - self.topology.aperture_start) as u64,
        )
    }
}

/// The error for claimed ranges that are not the windows of the host.
pub open spec fn drifted_ranges() -> DeviceManagerError {
    DeviceManagerError::InvalidState {
        operation: "build PCI host",
        detail: "claimed host ranges differ from the resolved PCI topology",
    }
}

/// What host and endpoint nodes of one bus share. A root is known by its handle; whether the root
/// that was published last still exists is for the caller to say.
#[derive(Debug)]
pub struct PciBusShared<R> {
    /// Resolved host.
    pub plan: Option<PciHostPlan>,
    /// Root that was published last.
    pub root: Option<R>,
}

impl<R> PciBusShared<R> {
    /// Creates the state of a bus that is not resolved.
    pub fn new() -> (shared: PciBusShared<R>)
        ensures
            shared.plan is None,
            shared.root is None,
            shared.wf(),
    {
        PciBusShared { plan: None, root: None }
    }

    /// The plan, if there is one, has windows with a size.
    pub open spec fn wf(self) -> bool {
        self.plan matches Some(plan) ==> plan.wf()
    }

    /// Whether the bus has a root, where `alive` says whether the last one still exists.
    pub open spec fn has_root(self, alive: bool) -> bool {
        self.root is Some && alive
    }

    /// Publishes the resolved host. A bus is resolved once.
    pub fn publish_plan(&mut self, plan: PciHostPlan) -> (result: PciResult<()>)
        requires
            old(self).wf(),
            plan.wf(),
        ensures
            final(self).wf(),
            final(self).root == old(self).root,
            old(self).plan is Some ==> result == Err::<(), _>(PciError::TopologyAlreadyResolved)
                && final(self).plan == old(self).plan,
            old(self).plan is None ==> result is Ok && final(self).plan == Some(plan),
    {
        if self.plan.is_some() {
            return Err(PciError::TopologyAlreadyResolved);
        }
        self.plan = Some(plan);
        Ok(())
    }

    /// Returns the resolved host.
    pub fn plan(&self) -> (plan: PciResult<&PciHostPlan>)
        ensures
            match self.plan {
                Some(resolved) => plan == Ok::<_, PciError>(&resolved),
                None => plan == Err::<&PciHostPlan, _>(PciError::TopologyNotResolved),
            },
    {
        match &self.plan {
            Some(plan) => Ok(plan),
            None => Err(PciError::TopologyNotResolved),
        }
    }

    /// Publishes the root of the bus, unless it has one.
    pub fn publish_root(&mut self, root: R, alive: bool) -> (result: PciResult<()>)
        ensures
            final(self).plan == old(self).plan,
            old(self).has_root(alive) ==> result == Err::<(), _>(PciError::HostAlreadyRegistered)
                && final(self).root == old(self).root,
            !old(self).has_root(alive) ==> result is Ok && final(self).root == Some(root),
    {
        if self.root.is_some() && alive {
            return Err(PciError::HostAlreadyRegistered);
        }
        self.root = Some(root);
        Ok(())
    }

    /// Returns the root that a function is bound to.
    pub fn root_lock(&self, function: &DeviceNodeId, alive: bool) -> (root: PciResult<&R>)
        ensures
            self.has_root(alive) ==> root == Ok::<_, PciError>(&self.root->0),
            !self.has_root(alive) ==> (root matches Err(PciError::HostUnavailable { function: named })
                && named@ == function@),
    {
        match &self.root {
            Some(root) => if alive {
                Ok(root)
            } else {
                Err(PciError::HostUnavailable { function: function.clone() })
            },
            None => Err(PciError::HostUnavailable { function: function.clone() }),
        }
    }

    /// Builds the host: the claimed ranges have to be the resolved windows before anything is
    /// published for the bus.
    pub fn build_host(
        &mut self,
        claimed_ecam: (u64, u64),
        claimed_memory: (u64, u64),
        root: R,
        alive: bool,
    ) -> (result: DeviceManagerResult<()>)
        requires
            old(self).wf(),
        ensures
            final(self).wf(),
            final(self).plan == old(self).plan,
            match old(self).plan {
                None => result == Err::<(), _>(
                    DeviceManagerError::Pci(PciError::TopologyNotResolved),
                ),
                Some(plan) => if !plan.matches_claims(claimed_ecam, claimed_memory) {
                    result == Err::<(), _>(drifted_ranges())
                } else if old(self).has_root(alive) {
                    result == Err::<(), _>(DeviceManagerError::Pci(PciError::HostAlreadyRegistered))
                } else {
                    result is Ok
                },
            },
            result is Ok ==> final(self).root == Some(root),
            result is Err ==> final(self).root == old(self).root,
    {
        let matched = match self.plan() {
            Ok(plan) => {
                let aperture = plan.topology.memory_aperture();
                claimed_ecam.0 == plan.ecam_start && claimed_ecam.1 == plan.ecam_end
                    - plan.ecam_start && claimed_memory.0 == aperture.start && claimed_memory.1
                    == aperture.end - aperture.start
            },
            Err(error) => {
                return Err(DeviceManagerError::Pci(error));
            },
        };
        if !matched {
            return Err(
                DeviceManagerError::InvalidState {
                    operation: "build PCI host",
                    detail: "claimed host ranges differ from the resolved PCI topology",
                },
            );
        }
        match self.publish_root(root, alive) {
            Ok(done) => Ok(done),
            Err(error) => Err(DeviceManagerError::Pci(error)),
        }
    }
}

} // verus!
