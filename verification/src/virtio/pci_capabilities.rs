//! PCI capabilities of a VirtIO function, and the configuration access window among them.

use crate::access::{AccessWidth, DeviceError, DeviceResult, ErrorDetail};
use crate::bytes::{le_decode, le_lane};
#[allow(unused_imports)]
use crate::bytes::{le_bytes, le_value};
use crate::pci::capability::{
    PciCapabilityEffectAccess, PciCapabilityEffectRegion, PciCapabilityId, PciCapabilitySnapshot,
    PciCapabilitySpec, PciConfigEffectId,
};
use crate::pci::error::PciResult;
use crate::virtio::pci_transport::{
    DEVICE_CONFIG_OFFSET, ISR_CONFIG_OFFSET, NOTIFY_CONFIG_OFFSET, VIRTIO_PCI_BAR_SIZE,
};
use vstd::prelude::*;

verus! {

/// Effect of the configuration access window.
pub const VIRTIO_PCI_CONFIG_EFFECT_ID: u16 = 1;

/// Identifier of vendor-specific capabilities.
pub const PCI_CAPABILITY_VENDOR: u8 = 9;

/// Offset of the access window's data in its capability.
pub const PCI_CFG_DATA_OFFSET: u8 = 16;

/// Offset behind the access window's data.
pub const PCI_CFG_DATA_END: u8 = 20;

/// Bytes of the common configuration.
pub const COMMON_CONFIG_LENGTH: u32 = 0x38;

/// Bytes of the notification register, and distance between those of two queues.
pub const NOTIFY_LENGTH: u32 = 4;

/// What a VirtIO capability describes.
#[derive(Clone, Copy, Debug, PartialEq, Eq, Structural)]
pub enum VirtioPciCapabilityType {
    /// The common configuration.
    Common,
    /// The notification registers.
    Notify,
    /// The interrupt status.
    Isr,
    /// The device-specific configuration.
    Device,
    /// The window that reaches the BAR through the configuration space.
    PciConfig,
}

impl VirtioPciCapabilityType {
    /// The number that a capability carries for its type.
    pub open spec fn number(self) -> u8 {
        match self {
            VirtioPciCapabilityType::Common => 1,
            VirtioPciCapabilityType::Notify => 2,
            VirtioPciCapabilityType::Isr => 3,
            VirtioPciCapabilityType::Device => 4,
            VirtioPciCapabilityType::PciConfig => 5,
        }
    }

    /// Returns the number that a capability carries for its type.
    pub fn code(self) -> (code: u8)
        ensures
            code == self.number(),
    {
        match self {
            VirtioPciCapabilityType::Common => 1,
            VirtioPciCapabilityType::Notify => 2,
            VirtioPciCapabilityType::Isr => 3,
            VirtioPciCapabilityType::Device => 4,
            VirtioPciCapabilityType::PciConfig => 5,
        }
    }
}

/// Capabilities of one VirtIO function.
#[derive(Clone, Copy, Debug, PartialEq, Eq, Structural)]
pub struct VirtioPciCapabilitySet {
    /// Bytes of the device-specific configuration.
    pub device_config_length: u32,
}

impl VirtioPciCapabilitySet {
    /// Describes a function with a device-specific configuration of the given length.
    pub fn new(device_config_length: u32) -> (set: Self)
        ensures
            set.device_config_length == device_config_length,
    {
        VirtioPciCapabilitySet { device_config_length }
    }
}

/// The body of a VirtIO capability that points into BAR 0: the capability's length, its type, the
/// BAR, an identifier, two bytes of padding, offset and length of the structure, and what the type
/// adds.
pub open spec fn capability_body(
    kind: VirtioPciCapabilityType,
    offset: u32,
    length: u32,
    tail: Seq<u8>,
) -> Seq<u8> {
    seq![(16 + tail.len()) as u8, kind.number(), 0u8, 0u8, 0u8, 0u8] + le_bytes(
        offset as nat,
        4,
    ) + le_bytes(length as nat, 4) + tail
}

/// Appends the four bytes of a number, least significant first.
pub fn push_dword(bytes: &mut Vec<u8>, value: u32)
    ensures
        final(bytes)@ == old(bytes)@ + le_bytes(value as nat, 4),
{
    let mut lane: usize = 0;
    while lane < 4
        invariant
            lane <= 4,
            bytes@ == old(bytes)@ + le_bytes(value as nat, lane as nat),
        decreases 4 - lane,
    {
        bytes.push(le_lane(value as u64, lane));
        assert(bytes@ =~= old(bytes)@ + le_bytes(value as nat, (lane + 1) as nat));
        lane = lane + 1;
    }
    assert(lane == 4);
}

/// Builds the body of a VirtIO capability that points into BAR 0.
pub fn build_body(
    kind: VirtioPciCapabilityType,
    offset: u32,
    length: u32,
    tail: Option<u32>,
) -> (body: Vec<u8>)
    ensures
        body@ == capability_body(
            kind,
            offset,
            length,
            match tail {
                Some(value) => le_bytes(value as nat, 4),
                None => Seq::empty(),
            },
        ),
{
    let mut body: Vec<u8> = Vec::new();
    body.push(
        match tail {
            Some(_) => 20,
            None => 16,
        },
    );
    body.push(kind.code());
    body.push(0);
    body.push(0);
    body.push(0);
    body.push(0);
    let ghost tail_bytes = match tail {
        Some(value) => le_bytes(value as nat, 4),
        None => Seq::empty(),
    };
    assert(body@ =~= seq![
        (16 + tail_bytes.len()) as u8,
        kind.number(),
        0u8,
        0u8,
        0u8,
        0u8,
    ]);
    push_dword(&mut body, offset);
    push_dword(&mut body, length);
    if let Some(value) = tail {
        push_dword(&mut body, value);
    }
    assert(body@ =~= capability_body(kind, offset, length, tail_bytes));
    body
}

/// Returns a write mask that refuses every bit.
pub fn read_only_mask(length: usize) -> (mask: Vec<u8>)
    ensures
        mask@ == Seq::new(length as nat, |i: int| 0u8),
{
    let mut mask: Vec<u8> = Vec::new();
    while mask.len() < length
        invariant
            mask@ == Seq::new(mask@.len(), |i: int| 0u8),
            mask@.len() <= length,
        decreases length - mask@.len(),
    {
        mask.push(0);
        assert(mask@ =~= Seq::new(mask@.len(), |i: int| 0u8));
    }
    mask
}

/// The write mask of the access window: BAR, offset and length can be written.
pub open spec fn window_mask() -> Seq<u8> {
    Seq::new(
        18,
        |i: int|
            if i == 2 || 6 <= i < 14 {
                0xffu8
            } else {
                0u8
            },
    )
}

/// Whether `spec` is a capability with the given body that no access but a plain read reaches.
pub open spec fn is_plain(spec: PciCapabilitySpec, body: Seq<u8>) -> bool {
    &&& spec.wf()
    &&& spec.id.0 == PCI_CAPABILITY_VENDOR
    &&& spec.body@ == body
    &&& spec.write_mask@ == Seq::new(body.len(), |i: int| 0u8)
    &&& spec.effects@ == Seq::<PciCapabilityEffectRegion>::empty()
}

/// Whether `spec` is the configuration access window.
pub open spec fn is_window(spec: PciCapabilitySpec) -> bool {
    &&& spec.wf()
    &&& spec.id.0 == PCI_CAPABILITY_VENDOR
    &&& spec.body@ == capability_body(VirtioPciCapabilityType::PciConfig, 0, 0, le_bytes(0, 4))
    &&& spec.write_mask@ == window_mask()
    &&& spec.effects@ == seq![
        PciCapabilityEffectRegion {
            effect: PciConfigEffectId(VIRTIO_PCI_CONFIG_EFFECT_ID),
            offset: PCI_CFG_DATA_OFFSET,
            length: 4,
            access: PciCapabilityEffectAccess::ReadWrite,
        },
    ]
}

/// Declares a capability that can only be read.
pub fn plain_capability(body: Vec<u8>) -> (result: PciResult<PciCapabilitySpec>)
    requires
        body@.len() <= 18,
    ensures
        result matches Ok(spec) && is_plain(spec, body@),
{
    let mask = read_only_mask(body.len());
    PciCapabilitySpec::new(PciCapabilityId(PCI_CAPABILITY_VENDOR), body, mask)
}

/// Declares the configuration access window, whose data the endpoint answers for.
pub fn window_capability() -> (result: PciResult<PciCapabilitySpec>)
    ensures
        result matches Ok(spec) && is_window(spec),
{
    let body = build_body(VirtioPciCapabilityType::PciConfig, 0, 0, Some(0));
    let mut mask = read_only_mask(18);
    mask.set(2, 0xff);
    let mut index: usize = 6;
    while index < 14
        invariant
            6 <= index <= 14,
            mask@ == Seq::new(
                18,
                |i: int|
                    if i == 2 || 6 <= i < index {
                        0xffu8
                    } else {
                        0u8
                    },
            ),
        decreases 14 - index,
    {
        mask.set(index, 0xff);
        index = index + 1;
        assert(mask@ =~= Seq::new(
            18,
            |i: int|
                if i == 2 || 6 <= i < index {
                    0xffu8
                } else {
                    0u8
                },
        ));
    }
    assert(mask@ =~= window_mask());
    let effect = PciCapabilityEffectRegion::new(
        PciConfigEffectId(VIRTIO_PCI_CONFIG_EFFECT_ID),
        PCI_CFG_DATA_OFFSET,
        4,
        PciCapabilityEffectAccess::ReadWrite,
    )?;
    let spec = PciCapabilitySpec::new(PciCapabilityId(PCI_CAPABILITY_VENDOR), body, mask)?;
    spec.with_effect(effect)
}

/// Whether `specs` are the capabilities of a VirtIO function with a device-specific configuration
/// of the given length: common configuration, notification, interrupt status, device-specific
/// configuration and access window.
pub open spec fn are_virtio_capabilities(
    specs: Seq<PciCapabilitySpec>,
    device_config_length: u32,
) -> bool {
    &&& specs.len() == 5
    &&& is_plain(
        specs[0],
        capability_body(VirtioPciCapabilityType::Common, 0, COMMON_CONFIG_LENGTH, Seq::empty()),
    )
    &&& is_plain(
        specs[1],
        capability_body(
            VirtioPciCapabilityType::Notify,
            NOTIFY_CONFIG_OFFSET as u32,
            NOTIFY_LENGTH,
            le_bytes(NOTIFY_LENGTH as nat, 4),
        ),
    )
    &&& is_plain(
        specs[2],
        capability_body(
            VirtioPciCapabilityType::Isr,
            ISR_CONFIG_OFFSET as u32,
            1,
            Seq::empty(),
        ),
    )
    &&& is_plain(
        specs[3],
        capability_body(
            VirtioPciCapabilityType::Device,
            DEVICE_CONFIG_OFFSET as u32,
            device_config_length,
            Seq::empty(),
        ),
    )
    &&& is_window(specs[4])
}

/// Declares the capabilities of a VirtIO function.
pub fn virtio_capabilities(set: &VirtioPciCapabilitySet) -> (result: PciResult<
    Vec<PciCapabilitySpec>,
>)
    ensures
        result matches Ok(specs) && are_virtio_capabilities(specs@, set.device_config_length),
{
    let mut specs: Vec<PciCapabilitySpec> = Vec::new();
    specs.push(
        plain_capability(
            build_body(VirtioPciCapabilityType::Common, 0, COMMON_CONFIG_LENGTH, None),
        )?,
    );
    specs.push(
        plain_capability(
            build_body(
                VirtioPciCapabilityType::Notify,
                NOTIFY_CONFIG_OFFSET as u32,
                NOTIFY_LENGTH,
                Some(NOTIFY_LENGTH),
            ),
        )?,
    );
    specs.push(
        plain_capability(
            build_body(VirtioPciCapabilityType::Isr, ISR_CONFIG_OFFSET as u32, 1, None),
        )?,
    );
    specs.push(
        plain_capability(
            build_body(
                VirtioPciCapabilityType::Device,
                DEVICE_CONFIG_OFFSET as u32,
                set.device_config_length,
                None,
            ),
        )?,
    );
    specs.push(window_capability()?);
    Ok(specs)
}

/// The offset that the access window is programmed with.
pub open spec fn window_offset(body: Seq<u8>) -> nat {
    le_value(body.subrange(6, 10))
}

/// The length that the access window is programmed with.
pub open spec fn window_length(body: Seq<u8>) -> nat {
    le_value(body.subrange(10, 14))
}

/// The BAR offset that an access to the window's data reaches.
pub open spec fn window_target(body: Seq<u8>, offset: u8) -> int {
    window_offset(body) + (offset - PCI_CFG_DATA_OFFSET)
}

/// Whether an access to the window's data reaches BAR 0: it lies in the data, the window selects
/// BAR 0 and exactly the access's width, and the target ends inside the BAR.
pub open spec fn reaches_bar(
    effect: PciConfigEffectId,
    offset: u8,
    width: AccessWidth,
    body: Seq<u8>,
) -> bool {
    &&& effect.0 == VIRTIO_PCI_CONFIG_EFFECT_ID
    &&& PCI_CFG_DATA_OFFSET <= offset
    &&& offset + width.bytes() <= PCI_CFG_DATA_END
    &&& body.len() >= 14
    &&& body[2] == 0
    &&& window_length(body) == width.bytes()
    &&& window_target(body, offset) + width.bytes() <= VIRTIO_PCI_BAR_SIZE
}

/// The error for an access that the window does not let through.
pub open spec fn window_error() -> DeviceError {
    DeviceError::InvalidInput {
        operation: "decode VirtIO PCI configuration access",
        detail: ErrorDetail::Text("the access window does not select this access"),
    }
}

/// Returns the BAR offset that an access to the window's data reaches.
pub fn decode_pci_cfg_bytes(
    effect: PciConfigEffectId,
    offset: u8,
    width: AccessWidth,
    body: &[u8],
) -> (target: DeviceResult<u64>)
    ensures
        reaches_bar(effect, offset, width, body@) ==> target == Ok::<_, DeviceError>(
            window_target(body@, offset) as u64,
        ),
        !reaches_bar(effect, offset, width, body@) ==> target == Err::<u64, _>(window_error()),
{
    let size: u64 = width.size() as u64;
    if effect.0 == VIRTIO_PCI_CONFIG_EFFECT_ID && offset >= PCI_CFG_DATA_OFFSET && offset as u64
        + size <= PCI_CFG_DATA_END as u64 && body.len() >= 14 {
        let selected: u64 = le_decode(body, 6, 4);
        let length: u64 = le_decode(body, 10, 4);
        proof {
            crate::bytes::lemma_lane_scale_values();
        }
        let target: u64 = selected + (offset as u64 - PCI_CFG_DATA_OFFSET as u64);
        if body[2] == 0 && length == size && target + size <= VIRTIO_PCI_BAR_SIZE {
            return Ok(target);
        }
    }
    Err(
        DeviceError::InvalidInput {
            operation: "decode VirtIO PCI configuration access",
            detail: ErrorDetail::Text("the access window does not select this access"),
        },
    )
}

/// Returns the BAR offset that a configuration effect reaches.
pub fn decode_pci_cfg(
    effect: PciConfigEffectId,
    offset: u8,
    width: AccessWidth,
    snapshot: PciCapabilitySnapshot,
) -> (target: DeviceResult<u64>)
    requires
        snapshot.wf(),
    ensures
        reaches_bar(effect, offset, width, snapshot@) ==> target == Ok::<_, DeviceError>(
            window_target(snapshot@, offset) as u64,
        ),
        !reaches_bar(effect, offset, width, snapshot@) ==> target == Err::<u64, _>(window_error()),
{
    let body = snapshot.bytes();
    decode_pci_cfg_bytes(effect, offset, width, body.as_slice())
}

/// An access that the window lets through stays inside the BAR and does not move with its width.
pub proof fn law_window_stays_in_bar(
    effect: PciConfigEffectId,
    offset: u8,
    width: AccessWidth,
    body: Seq<u8>,
)
    requires
        reaches_bar(effect, offset, width, body),
    ensures
        0 <= window_target(body, offset),
        window_target(body, offset) + width.bytes() <= VIRTIO_PCI_BAR_SIZE,
        window_target(body, offset) - window_target(body, PCI_CFG_DATA_OFFSET) == offset
            - PCI_CFG_DATA_OFFSET,
{
}

} // verus!
