//! Standard capabilities and the endpoint-owned effect regions inside them.

use crate::access::AccessWidth;
use crate::pci::address::ConfigOffset;
use crate::pci::error::{PciError, PciResult};
use vstd::prelude::*;

verus! {

/// First config offset that a capability can have.
pub const CAPABILITY_BASE: usize = 0x40;

/// Longest capability body: the space behind the header less the two header
/// bytes of the capability.
pub const CAPABILITY_BODY_MAX: usize = 190;

/// Standard capability ID.
#[derive(Clone, Copy, Debug, PartialEq, Eq, Structural)]
pub struct PciCapabilityId(pub u8);

impl PciCapabilityId {
    /// Creates a capability ID.
    pub fn new(value: u8) -> (id: Self)
        ensures
            id.0 == value,
    {
        PciCapabilityId(value)
    }

    /// Returns the raw ID.
    pub fn value(self) -> (value: u8)
        ensures
            value == self.0,
    {
        self.0
    }
}

/// Identifier of one endpoint-owned config effect.
#[derive(Clone, Copy, Debug, PartialEq, Eq, Structural)]
pub struct PciConfigEffectId(pub u16);

impl PciConfigEffectId {
    /// Creates an effect identifier.
    pub fn new(value: u16) -> (id: Self)
        ensures
            id.0 == value,
    {
        PciConfigEffectId(value)
    }

    /// Returns the raw identifier.
    pub fn value(self) -> (value: u16)
        ensures
            value == self.0,
    {
        self.0
    }
}

/// Which accesses to an effect region reach the endpoint.
#[derive(Clone, Copy, Debug, PartialEq, Eq, Structural)]
pub enum PciCapabilityEffectAccess {
    /// Reads only.
    Read,
    /// Writes only.
    Write,
    /// Reads and writes.
    ReadWrite,
}

impl PciCapabilityEffectAccess {
    /// Whether an access in this direction reaches the endpoint.
    pub open spec fn admits(self, write: bool) -> bool {
        match self {
            PciCapabilityEffectAccess::Read => !write,
            PciCapabilityEffectAccess::Write => write,
            PciCapabilityEffectAccess::ReadWrite => true,
        }
    }

    /// Returns whether an access in this direction reaches the endpoint.
    pub fn allows(self, write: bool) -> (result: bool)
        ensures
            result == self.admits(write),
    {
        match self {
            PciCapabilityEffectAccess::Read => !write,
            PciCapabilityEffectAccess::Write => write,
            PciCapabilityEffectAccess::ReadWrite => true,
        }
    }
}

/// A byte range of one capability whose accesses the endpoint handles.
#[derive(Clone, Copy, Debug, PartialEq, Eq, Structural)]
pub struct PciCapabilityEffectRegion {
    /// Effect identifier.
    pub effect: PciConfigEffectId,
    /// Offset from the start of the capability.
    pub offset: u8,
    /// Number of bytes.
    pub length: u8,
    /// Directions that reach the endpoint.
    pub access: PciCapabilityEffectAccess,
}

impl PciCapabilityEffectRegion {
    /// Offset behind the region.
    pub open spec fn end(self) -> int {
        self.offset + self.length
    }

    /// The region is not empty and leaves the two header bytes alone.
    pub open spec fn wf(self) -> bool {
        self.offset >= 2 && self.length > 0 && self.end() <= 255
    }

    /// Declares a region.
    ///
    /// # Errors
    ///
    /// Returns [`PciError::InvalidCapability`] for an empty region, one that
    /// touches the capability header, and one that ends behind offset 255.
    pub fn new(
        effect: PciConfigEffectId,
        offset: u8,
        length: u8,
        access: PciCapabilityEffectAccess,
    ) -> (result: PciResult<PciCapabilityEffectRegion>)
        ensures
            ({
                let region = PciCapabilityEffectRegion { effect, offset, length, access };
                result == (if region.wf() {
                    Ok::<PciCapabilityEffectRegion, PciError>(region)
                } else {
                    Err(
                        PciError::InvalidCapability {
                            detail: "effect region is empty or outside the capability body",
                        },
                    )
                })
            }),
    {
        if offset < 2 || length == 0 || offset as u16 + length as u16 > 255 {
            return Err(
                PciError::InvalidCapability {
                    detail: "effect region is empty or outside the capability body",
                },
            );
        }
        Ok(PciCapabilityEffectRegion { effect, offset, length, access })
    }

    /// Returns the effect identifier.
    pub fn effect(self) -> (effect: PciConfigEffectId)
        ensures
            effect == self.effect,
    {
        self.effect
    }

    /// Returns the offset from the start of the capability.
    pub fn offset(self) -> (offset: u8)
        ensures
            offset == self.offset,
    {
        self.offset
    }

    /// Returns the number of bytes.
    pub fn length(self) -> (length: u8)
        ensures
            length == self.length,
    {
        self.length
    }

    /// Returns the directions that reach the endpoint.
    pub fn access(self) -> (access: PciCapabilityEffectAccess)
        ensures
            access == self.access,
    {
        self.access
    }

    /// Whether the bytes from `start` to `end`, counted from the start of the
    /// capability, share one with the region.
    pub open spec fn meets(self, start: int, end: int) -> bool {
        start < self.end() && self.offset < end
    }

    /// Whether the region holds the bytes from `start` to `end`.
    pub open spec fn covers(self, start: int, end: int) -> bool {
        self.offset <= start && end <= self.end()
    }
}

/// A capability that a function declares.
#[derive(Debug, PartialEq, Eq)]
pub struct PciCapabilitySpec {
    /// Capability ID.
    pub id: PciCapabilityId,
    /// Power-on bytes behind the ID and the next pointer.
    pub body: Vec<u8>,
    /// Which bits of the body a guest can write.
    pub write_mask: Vec<u8>,
    /// Endpoint-owned regions.
    pub effects: Vec<PciCapabilityEffectRegion>,
}

impl PciCapabilitySpec {
    /// The mask is as long as the body, the body fits the configuration space,
    /// and the effect regions lie in the capability without overlap.
    pub open spec fn wf(self) -> bool {
        &&& self.body@.len() == self.write_mask@.len() <= CAPABILITY_BODY_MAX
        &&& forall|i: int|
            #![trigger self.effects@[i]]
            0 <= i < self.effects@.len() ==> self.effects@[i].wf() && self.effects@[i].end()
                <= self.size()
        &&& forall|i: int, j: int|
            #![trigger self.effects@[i], self.effects@[j]]
            0 <= i < j < self.effects@.len() ==> !self.effects@[j].meets(
                self.effects@[i].offset as int,
                self.effects@[i].end(),
            )
    }

    /// Size with the two header bytes.
    pub open spec fn size(self) -> int {
        self.body@.len() as int + 2
    }

    /// Declares a capability without effects.
    ///
    /// # Errors
    ///
    /// Returns [`PciError::InvalidCapability`] when body and mask differ in
    /// length or the body is longer than 190 bytes.
    pub fn new(id: PciCapabilityId, body: Vec<u8>, write_mask: Vec<u8>) -> (result: PciResult<
        PciCapabilitySpec,
    >)
        ensures
            body@.len() != write_mask@.len() || body@.len() > CAPABILITY_BODY_MAX ==> result == Err::<
                PciCapabilitySpec,
                PciError,
            >(
                PciError::InvalidCapability {
                    detail: "body and write mask differ in length or do not fit",
                },
            ),
            body@.len() == write_mask@.len() <= CAPABILITY_BODY_MAX ==> (result matches Ok(spec) && {
                &&& spec.wf()
                &&& spec.id == id
                &&& spec.body == body
                &&& spec.write_mask == write_mask
                &&& spec.effects@ == Seq::<PciCapabilityEffectRegion>::empty()
            }),
    {
        if body.len() != write_mask.len() || body.len() > CAPABILITY_BODY_MAX {
            return Err(
                PciError::InvalidCapability {
                    detail: "body and write mask differ in length or do not fit",
                },
            );
        }
        Ok(PciCapabilitySpec { id, body, write_mask, effects: Vec::new() })
    }

    /// Whether `effect` lies in the capability and meets no earlier region.
    pub open spec fn accepts(self, effect: PciCapabilityEffectRegion) -> bool {
        &&& effect.wf()
        &&& effect.end() <= self.size()
        &&& forall|i: int|
            #![trigger self.effects@[i]]
            0 <= i < self.effects@.len() ==> !effect.meets(
                self.effects@[i].offset as int,
                self.effects@[i].end(),
            )
    }

    /// Adds one effect region.
    ///
    /// # Errors
    ///
    /// Returns [`PciError::InvalidCapability`] when the region leaves the
    /// capability or overlaps an earlier one.
    pub fn with_effect(self, effect: PciCapabilityEffectRegion) -> (result: PciResult<
        PciCapabilitySpec,
    >)
        requires
            self.wf(),
        ensures
            !self.accepts(effect) ==> result == Err::<PciCapabilitySpec, PciError>(
                PciError::InvalidCapability {
                    detail: "effect region leaves the capability or overlaps another",
                },
            ),
            self.accepts(effect) ==> (result matches Ok(spec) && {
                &&& spec.wf()
                &&& spec.id == self.id
                &&& spec.body == self.body
                &&& spec.write_mask == self.write_mask
                &&& spec.effects@ == self.effects@.push(effect)
            }),
    {
        let mut spec = self;
        let size: usize = spec.body.len() + 2;
        let start: usize = effect.offset as usize;
        let end: usize = start + effect.length as usize;
        let mut fits = start >= 2 && effect.length > 0 && end <= 255 && end <= size;
        let mut i: usize = 0;
        while i < spec.effects.len()
            invariant
                i <= spec.effects@.len(),
                spec == self,
                start == effect.offset,
                end == effect.end(),
                size == self.size(),
                fits == (effect.wf() && end <= size && forall|j: int|
                    #![trigger self.effects@[j]]
                    0 <= j < i ==> !effect.meets(
                        self.effects@[j].offset as int,
                        self.effects@[j].end(),
                    )),
            decreases spec.effects@.len() - i,
        {
            let other = spec.effects[i];
            let other_start: usize = other.offset as usize;
            let other_end: usize = other_start + other.length as usize;
            if other_start < end && start < other_end {
                fits = false;
            }
            i = i + 1;
        }
        if !fits {
            return Err(
                PciError::InvalidCapability {
                    detail: "effect region leaves the capability or overlaps another",
                },
            );
        }
        spec.effects.push(effect);
        Ok(spec)
    }

    /// Returns the capability ID.
    pub fn id(&self) -> (id: PciCapabilityId)
        ensures
            id == self.id,
    {
        self.id
    }

    /// Returns the power-on body.
    pub fn body(&self) -> (body: &Vec<u8>)
        ensures
            *body == self.body,
    {
        &self.body
    }

    /// Returns the write mask of the body.
    pub fn write_mask(&self) -> (mask: &Vec<u8>)
        ensures
            *mask == self.write_mask,
    {
        &self.write_mask
    }

    /// Returns the effect regions.
    pub fn effects(&self) -> (effects: &Vec<PciCapabilityEffectRegion>)
        ensures
            *effects == self.effects,
    {
        &self.effects
    }
}

impl Clone for PciCapabilitySpec {
    fn clone(&self) -> (spec: PciCapabilitySpec)
        ensures
            spec.id == self.id,
            spec.body@ == self.body@,
            spec.write_mask@ == self.write_mask@,
            spec.effects@ == self.effects@,
    {
        PciCapabilitySpec {
            id: self.id,
            body: self.body.clone(),
            write_mask: self.write_mask.clone(),
            effects: self.effects.clone(),
        }
    }
}

/// The body of one capability at the time of an access.
#[derive(Clone, Copy, Debug, PartialEq, Eq)]
pub struct PciCapabilitySnapshot {
    /// Body bytes, with zeroes behind the body.
    pub bytes: [u8; 254],
    /// Length of the body.
    pub length: u8,
}

impl View for PciCapabilitySnapshot {
    type V = Seq<u8>;

    open spec fn view(&self) -> Seq<u8> {
        self.bytes@.subrange(0, self.length as int)
    }
}

impl PciCapabilitySnapshot {
    /// The length fits the buffer.
    pub open spec fn wf(self) -> bool {
        self.length <= 254
    }

    /// Returns the body bytes.
    pub fn bytes(&self) -> (bytes: Vec<u8>)
        requires
            self.wf(),
        ensures
            bytes@ == self@,
    {
        let mut bytes: Vec<u8> = Vec::new();
        let mut i: usize = 0;
        while i < self.length as usize
            invariant
                i <= self.length <= 254,
                bytes@ == self.bytes@.subrange(0, i as int),
            decreases self.length - i,
        {
            bytes.push(self.bytes[i]);
            i = i + 1;
        }
        bytes
    }
}

/// A capability with its place in the configuration space.
#[derive(Debug, PartialEq, Eq)]
pub struct PciCapabilityLayout {
    /// Config offset of the capability.
    pub offset: u8,
    /// What the function declared.
    pub spec: PciCapabilitySpec,
}

/// The error for an access that reaches over the edge of an effect region.
pub open spec fn straddling_access(offset: int, width: AccessWidth) -> PciError {
    PciError::InvalidConfigAccess {
        offset: offset as u16,
        width,
        detail: "access crosses the edge of an endpoint-owned capability region",
    }
}

impl PciCapabilityLayout {
    /// The capability lies behind the header and inside the configuration space.
    pub open spec fn wf(self) -> bool {
        self.spec.wf() && CAPABILITY_BASE <= self.offset && self.end() <= 256
    }

    /// Config offset behind the capability.
    pub open spec fn end(self) -> int {
        self.offset + self.spec.size()
    }

    /// Returns the config offset of the capability.
    pub fn offset(&self) -> (offset: ConfigOffset)
        ensures
            offset.0 == self.offset,
    {
        ConfigOffset(self.offset as u16)
    }

    /// Returns the capability ID.
    pub fn id(&self) -> (id: PciCapabilityId)
        ensures
            id == self.spec.id,
    {
        self.spec.id
    }

    /// Returns the size with the two header bytes.
    pub fn length(&self) -> (length: u8)
        requires
            self.wf(),
        ensures
            length == self.spec.size(),
    {
        (self.spec.body.len() + 2) as u8
    }

    /// Returns the power-on body.
    pub fn body(&self) -> (body: &Vec<u8>)
        ensures
            *body == self.spec.body,
    {
        &self.spec.body
    }

    /// Returns the write mask of the body.
    pub fn write_mask(&self) -> (mask: &Vec<u8>)
        ensures
            *mask == self.spec.write_mask,
    {
        &self.spec.write_mask
    }

    /// Returns the effect regions.
    pub fn effects(&self) -> (effects: &Vec<PciCapabilityEffectRegion>)
        ensures
            *effects == self.spec.effects,
    {
        &self.spec.effects
    }

    /// The first region, at or after `from`, that an access in this direction
    /// meets.
    pub open spec fn effect_met(self, from: nat, offset: int, size: int, write: bool) -> Option<nat>
        decreases self.spec.effects@.len() - from,
    {
        if from >= self.spec.effects@.len() {
            None
        } else if self.spec.effects@[from as int].access.admits(write)
            && self.spec.effects@[from as int].meets(
            offset - self.offset,
            offset - self.offset + size,
        ) {
            Some(from)
        } else {
            self.effect_met(from + 1, offset, size, write)
        }
    }

    /// What an access means for this capability: nothing where it meets no
    /// region, the region that holds it, or an error where it crosses an edge.
    pub open spec fn effect_of(
        self,
        offset: int,
        size: int,
        write: bool,
        width: AccessWidth,
    ) -> PciResult<Option<PciCapabilityEffectRegion>> {
        match self.effect_met(0, offset, size, write) {
            None => Ok(None),
            Some(index) => {
                let region = self.spec.effects@[index as int];
                if region.covers(offset - self.offset, offset - self.offset + size) {
                    Ok(Some(region))
                } else {
                    Err(straddling_access(offset, width))
                }
            },
        }
    }

    /// Returns the endpoint-owned region that one access falls into.
    ///
    /// # Errors
    ///
    /// Returns [`PciError::InvalidConfigAccess`] for an access that crosses the
    /// edge of a region.
    pub fn effect_for_access(&self, offset: usize, size: usize, write: bool, width: AccessWidth) -> (result:
        PciResult<Option<PciCapabilityEffectRegion>>)
        requires
            self.wf(),
            offset + size <= 256,
        ensures
            result == self.effect_of(offset as int, size as int, write, width),
    {
        let base: usize = self.offset as usize;
        let mut i: usize = 0;
        while i < self.spec.effects.len()
            invariant
                i <= self.spec.effects@.len(),
                self.wf(),
                offset + size <= 256,
                base == self.offset,
                self.effect_met(0, offset as int, size as int, write) == self.effect_met(
                    i as nat,
                    offset as int,
                    size as int,
                    write,
                ),
            decreases self.spec.effects@.len() - i,
        {
            let region = self.spec.effects[i];
            let start: usize = base + region.offset as usize;
            let end: usize = start + region.length as usize;
            if region.access.allows(write) && offset < end && start < offset + size {
                if start <= offset && offset + size <= end {
                    return Ok(Some(region));
                }
                return Err(
                    PciError::InvalidConfigAccess {
                        offset: offset as u16,
                        width,
                        detail: "access crosses the edge of an endpoint-owned capability region",
                    },
                );
            }
            i = i + 1;
        }
        Ok(None)
    }

    /// Whether an access meets any region.
    pub open spec fn meets_effect(self, offset: int, size: int) -> bool {
        exists|i: int|
            #![trigger self.spec.effects@[i]]
            0 <= i < self.spec.effects@.len() && self.spec.effects@[i].meets(
                offset - self.offset,
                offset - self.offset + size,
            )
    }

    /// Returns whether an access meets any region.
    pub fn intersects_effect(&self, offset: usize, size: usize) -> (result: bool)
        requires
            self.wf(),
            offset + size <= 256,
        ensures
            result == self.meets_effect(offset as int, size as int),
    {
        let base: usize = self.offset as usize;
        let mut i: usize = 0;
        while i < self.spec.effects.len()
            invariant
                i <= self.spec.effects@.len(),
                self.wf(),
                offset + size <= 256,
                base == self.offset,
                forall|j: int|
                    #![trigger self.spec.effects@[j]]
                    0 <= j < i ==> !self.spec.effects@[j].meets(
                        offset - self.offset,
                        offset - self.offset + size,
                    ),
            decreases self.spec.effects@.len() - i,
        {
            let region = self.spec.effects[i];
            let start: usize = base + region.offset as usize;
            let end: usize = start + region.length as usize;
            if offset < end && start < offset + size {
                assert(self.spec.effects@[i as int].meets(
                    offset - self.offset,
                    offset - self.offset + size,
                ));
                return true;
            }
            i = i + 1;
        }
        false
    }

    /// Copies the body of the capability out of a config image.
    pub fn snapshot(&self, config: &[u8; 256]) -> (snapshot: PciCapabilitySnapshot)
        requires
            self.wf(),
        ensures
            snapshot.wf(),
            snapshot@ == config@.subrange(self.offset + 2, self.end()),
            forall|i: int| snapshot.length <= i < 254 ==> snapshot.bytes@[i] == 0,
    {
        let base: usize = self.offset as usize + 2;
        let length: usize = self.spec.body.len();
        let mut bytes: [u8; 254] = [0; 254];
        let mut i: usize = 0;
        while i < length
            invariant
                i <= length <= CAPABILITY_BODY_MAX,
                base + length <= 256,
                forall|j: int| 0 <= j < i ==> bytes@[j] == config@[base + j],
                forall|j: int| i <= j < 254 ==> bytes@[j] == 0,
            decreases length - i,
        {
            bytes[i] = config[base + i];
            i = i + 1;
        }
        let snapshot = PciCapabilitySnapshot { bytes, length: length as u8 };
        assert(snapshot@ =~= config@.subrange(self.offset + 2, self.end()));
        snapshot
    }
}

} // verus!
