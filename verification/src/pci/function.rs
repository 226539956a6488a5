//! Identity and resource declaration of one Type-0 function.

use crate::access::{DeviceNodeId, ResourceRequest};
use crate::pci::address::{ConfigOffset, PciBarIndex, PciBdf};
use crate::pci::bar::PciMemoryBar;
use crate::pci::capability::PciCapabilitySpec;
use crate::pci::error::{PciError, PciResult};
use vstd::prelude::*;

verus! {

/// Base class, subclass and programming interface of a function.
#[derive(Clone, Copy, Debug, PartialEq, Eq, Structural)]
pub struct PciClass {
    /// Base class.
    pub base: u8,
    /// Subclass.
    pub subclass: u8,
    /// Programming interface.
    pub programming_interface: u8,
}

impl PciClass {
    /// Creates a class code.
    pub fn new(base: u8, subclass: u8, programming_interface: u8) -> (class: Self)
        ensures
            class == (PciClass { base, subclass, programming_interface }),
    {
        PciClass { base, subclass, programming_interface }
    }

    /// Returns the base class.
    pub fn base(self) -> (base: u8)
        ensures
            base == self.base,
    {
        self.base
    }

    /// Returns the subclass.
    pub fn subclass(self) -> (subclass: u8)
        ensures
            subclass == self.subclass,
    {
        self.subclass
    }

    /// Returns the programming interface.
    pub fn programming_interface(self) -> (programming_interface: u8)
        ensures
            programming_interface == self.programming_interface,
    {
        self.programming_interface
    }
}

/// Identity registers of a function.
#[derive(Clone, Copy, Debug, PartialEq, Eq, Structural)]
pub struct PciEndpointIdentity {
    /// Vendor ID.
    pub vendor_id: u16,
    /// Device ID.
    pub device_id: u16,
    /// Class code.
    pub class: PciClass,
    /// Revision ID.
    pub revision: u8,
    /// Subsystem vendor ID.
    pub subsystem_vendor_id: u16,
    /// Subsystem device ID.
    pub subsystem_device_id: u16,
}

impl PciEndpointIdentity {
    /// Creates an identity with revision 0 and no subsystem.
    pub fn new(vendor_id: u16, device_id: u16, class: PciClass) -> (identity: Self)
        ensures
            identity == (PciEndpointIdentity {
                vendor_id,
                device_id,
                class,
                revision: 0,
                subsystem_vendor_id: 0,
                subsystem_device_id: 0,
            }),
    {
        PciEndpointIdentity {
            vendor_id,
            device_id,
            class,
            revision: 0,
            subsystem_vendor_id: 0,
            subsystem_device_id: 0,
        }
    }

    /// Replaces the revision ID.
    pub fn with_revision(self, revision: u8) -> (identity: Self)
        ensures
            identity == (PciEndpointIdentity { revision, ..self }),
    {
        let mut identity = self;
        identity.revision = revision;
        identity
    }

    /// Replaces the subsystem IDs.
    pub fn with_subsystem(self, vendor_id: u16, device_id: u16) -> (identity: Self)
        ensures
            identity == (PciEndpointIdentity {
                subsystem_vendor_id: vendor_id,
                subsystem_device_id: device_id,
                ..self
            }),
    {
        let mut identity = self;
        identity.subsystem_vendor_id = vendor_id;
        identity.subsystem_device_id = device_id;
        identity
    }

    /// Whether a function with this identity can be told from an absent one.
    pub open spec fn wf(self) -> bool {
        self.vendor_id != 0xffff
    }

    /// Returns the vendor ID.
    pub fn vendor_id(&self) -> (vendor_id: u16)
        ensures
            vendor_id == self.vendor_id,
    {
        self.vendor_id
    }
}

/// Overrides one byte of the power-on image and of its write mask.
#[derive(Clone, Copy, Debug, PartialEq, Eq, Structural)]
pub struct PciConfigByte {
    /// Config offset of the byte.
    pub offset: ConfigOffset,
    /// Power-on value.
    pub value: u8,
    /// Which bits a guest can write.
    pub write_mask: u8,
}

/// Whether the root owns the config byte: IDs, command, status, revision and
/// class, the BARs, the subsystem IDs and the capability pointer.
pub open spec fn is_root_owned(offset: int) -> bool {
    offset < 0x0c || 0x10 <= offset < 0x28 || 0x2c <= offset < 0x30 || offset == 0x34
}

/// A function that a topology places.
#[derive(Debug)]
pub struct PciFunctionSpec {
    /// Graph identity.
    pub id: DeviceNodeId,
    /// Identity registers.
    pub identity: PciEndpointIdentity,
    /// Requested address.
    pub bdf: ResourceRequest<PciBdf>,
    /// Memory BARs.
    pub bars: Vec<PciMemoryBar>,
    /// Config byte overrides.
    pub config_bytes: Vec<PciConfigByte>,
    /// Capabilities, first to last.
    pub capabilities: Vec<PciCapabilitySpec>,
    /// Whether the function has a legacy interrupt pin.
    pub intx: bool,
}

impl PciFunctionSpec {
    /// BARs are usable and have different slots, overrides leave the root's
    /// bytes alone, capabilities are well formed.
    pub open spec fn wf(self) -> bool {
        &&& forall|i: int|
            #![trigger self.bars@[i]]
            0 <= i < self.bars@.len() ==> self.bars@[i].wf()
        &&& forall|i: int, j: int|
            #![trigger self.bars@[i], self.bars@[j]]
            0 <= i < j < self.bars@.len() ==> self.bars@[i].index != self.bars@[j].index
        &&& forall|i: int|
            #![trigger self.config_bytes@[i]]
            0 <= i < self.config_bytes@.len() ==> self.config_bytes@[i].offset.wf()
                && !is_root_owned(self.config_bytes@[i].offset.0 as int)
        &&& forall|i: int|
            #![trigger self.capabilities@[i]]
            0 <= i < self.capabilities@.len() ==> self.capabilities@[i].wf()
    }

    /// Declares a function without BARs, overrides and capabilities, to be
    /// placed automatically.
    pub fn new(id: DeviceNodeId, identity: PciEndpointIdentity) -> (spec: Self)
        ensures
            spec.wf(),
            spec.id == id,
            spec.identity == identity,
            spec.bdf == ResourceRequest::<PciBdf>::Auto,
            spec.bars@ == Seq::<PciMemoryBar>::empty(),
            spec.config_bytes@ == Seq::<PciConfigByte>::empty(),
            spec.capabilities@ == Seq::<PciCapabilitySpec>::empty(),
            !spec.intx,
    {
        PciFunctionSpec {
            id,
            identity,
            bdf: ResourceRequest::Auto,
            bars: Vec::new(),
            config_bytes: Vec::new(),
            capabilities: Vec::new(),
            intx: false,
        }
    }

    /// Replaces the address request.
    pub fn with_bdf(self, bdf: ResourceRequest<PciBdf>) -> (spec: Self)
        ensures
            spec == (PciFunctionSpec { bdf, ..self }),
    {
        let mut spec = self;
        spec.bdf = bdf;
        spec
    }

    /// Gives the function a legacy interrupt pin.
    pub fn with_intx(self) -> (spec: Self)
        ensures
            spec == (PciFunctionSpec { intx: true, ..self }),
    {
        let mut spec = self;
        spec.intx = true;
        spec
    }

    /// Whether slot `index` is taken.
    pub open spec fn has_bar(self, index: PciBarIndex) -> bool {
        exists|i: int|
            #![trigger self.bars@[i]]
            0 <= i < self.bars@.len() && self.bars@[i].index == index
    }

    /// Adds one BAR.
    ///
    /// # Errors
    ///
    /// Returns [`PciError::InvalidBar`] when the slot is taken.
    pub fn with_bar(self, bar: PciMemoryBar) -> (result: PciResult<PciFunctionSpec>)
        requires
            self.wf(),
            bar.wf(),
        ensures
            self.has_bar(bar.index) ==> result == Err::<PciFunctionSpec, PciError>(
                PciError::InvalidBar { bar: bar.index.0, detail: "slot is already in use" },
            ),
            !self.has_bar(bar.index) ==> (result matches Ok(spec) && {
                &&& spec.wf()
                &&& spec.bars@ == self.bars@.push(bar)
                &&& spec == (PciFunctionSpec { bars: spec.bars, ..self })
            }),
    {
        let mut spec = self;
        let mut i: usize = 0;
        while i < spec.bars.len()
            invariant
                i <= spec.bars@.len(),
                spec == self,
                forall|j: int|
                    #![trigger self.bars@[j]]
                    0 <= j < i ==> self.bars@[j].index != bar.index,
            decreases spec.bars@.len() - i,
        {
            if spec.bars[i].index == bar.index {
                assert(self.bars@[i as int].index == bar.index);
                return Err(
                    PciError::InvalidBar { bar: bar.index.0, detail: "slot is already in use" },
                );
            }
            i = i + 1;
        }
        spec.bars.push(bar);
        Ok(spec)
    }

    /// Overrides one byte of the power-on image.
    ///
    /// # Errors
    ///
    /// Returns [`PciError::InvalidConfigPatch`] for a byte that the root owns.
    pub fn with_platform_config_byte(self, offset: ConfigOffset, value: u8, write_mask: u8) -> (result:
        PciResult<PciFunctionSpec>)
        requires
            self.wf(),
            offset.wf(),
        ensures
            is_root_owned(offset.0 as int) ==> result == Err::<PciFunctionSpec, PciError>(
                PciError::InvalidConfigPatch {
                    offset: offset.0,
                    detail: "byte belongs to the identity, command, BAR or capability registers",
                },
            ),
            !is_root_owned(offset.0 as int) ==> (result matches Ok(spec) && {
                &&& spec.wf()
                &&& spec.config_bytes@ == self.config_bytes@.push(
                    PciConfigByte { offset, value, write_mask },
                )
                &&& spec == (PciFunctionSpec { config_bytes: spec.config_bytes, ..self })
            }),
    {
        let raw: u16 = offset.0;
        if raw < 0x0c || (0x10 <= raw && raw < 0x28) || (0x2c <= raw && raw < 0x30) || raw == 0x34 {
            return Err(
                PciError::InvalidConfigPatch {
                    offset: raw,
                    detail: "byte belongs to the identity, command, BAR or capability registers",
                },
            );
        }
        let mut spec = self;
        spec.config_bytes.push(PciConfigByte { offset, value, write_mask });
        Ok(spec)
    }

    /// Adds one capability behind those already declared.
    pub fn with_capability(self, capability: PciCapabilitySpec) -> (spec: Self)
        requires
            self.wf(),
            capability.wf(),
        ensures
            spec.wf(),
            spec.capabilities@ == self.capabilities@.push(capability),
            spec == (PciFunctionSpec { capabilities: spec.capabilities, ..self }),
    {
        let mut spec = self;
        spec.capabilities.push(capability);
        spec
    }
}

} // verus!
