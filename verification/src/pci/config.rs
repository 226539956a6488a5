//! Conventional Type-0 config image and guest-writable root state.

use crate::access::AccessWidth;
use crate::bytes::{le_decode, le_lane};
#[allow(unused_imports)]
use crate::bytes::{le_byte, le_value};
use crate::pci::address::PciBdf;
use crate::pci::bar::{BarState, ResolvedBarPlan, FOUR_GIB};
use crate::pci::capability::{
    PciCapabilityEffectRegion, PciCapabilityId, PciCapabilityLayout, PciCapabilitySnapshot,
};
use crate::pci::error::{PciError, PciResult};
use crate::pci::function::{PciConfigByte, PciEndpointIdentity};
use vstd::prelude::*;

verus! {

/// Bus-master enable bit in the low command byte.
pub const COMMAND_BUS_MASTER_ENABLE: u8 = 0x04;

/// Interrupt-disable bit in the high command byte.
pub const COMMAND_INTERRUPT_DISABLE: u8 = 0x04;

/// Memory-space enable bit in the low command byte.
pub const COMMAND_MEMORY_SPACE_ENABLE: u8 = 0x02;

/// Capabilities-list bit in the low status byte.
pub const STATUS_CAPABILITIES_LIST: u8 = 0x10;

/// Immutable command-register state captured for one endpoint notification.
#[derive(Clone, Copy, Debug, PartialEq, Eq, Structural)]
pub struct PciCommandState {
    /// Whether memory BARs are decoded.
    pub memory_space_enable: bool,
    /// Whether the function may initiate DMA.
    pub bus_master_enable: bool,
    /// Whether legacy interrupts are disabled.
    pub interrupt_disable: bool,
}

impl PciCommandState {
    /// Captures the command register.
    pub fn new(
        memory_space_enable: bool,
        bus_master_enable: bool,
        interrupt_disable: bool,
    ) -> (state: Self)
        ensures
            state == (PciCommandState {
                memory_space_enable,
                bus_master_enable,
                interrupt_disable,
            }),
    {
        PciCommandState { memory_space_enable, bus_master_enable, interrupt_disable }
    }

    /// Returns whether the PCI function's memory BAR decode is enabled.
    pub fn memory_space_enable(self) -> (enabled: bool)
        ensures
            enabled == self.memory_space_enable,
    {
        self.memory_space_enable
    }

    /// Returns whether the PCI function may initiate bus-master DMA.
    pub fn bus_master_enable(self) -> (enabled: bool)
        ensures
            enabled == self.bus_master_enable,
    {
        self.bus_master_enable
    }

    /// Returns whether legacy INTx delivery is disabled.
    pub fn interrupt_disable(self) -> (disabled: bool)
        ensures
            disabled == self.interrupt_disable,
    {
        self.interrupt_disable
    }
}

/// Byte `i` of the header that the identity registers fill.
pub open spec fn identity_byte(identity: PciEndpointIdentity, i: int) -> u8 {
    if 0 <= i < 2 {
        le_byte(identity.vendor_id as nat, i as nat)
    } else if 2 <= i < 4 {
        le_byte(identity.device_id as nat, (i - 2) as nat)
    } else if i == 8 {
        identity.revision
    } else if i == 9 {
        identity.class.programming_interface
    } else if i == 10 {
        identity.class.subclass
    } else if i == 11 {
        identity.class.base
    } else if 0x2c <= i < 0x2e {
        le_byte(identity.subsystem_vendor_id as nat, (i - 0x2c) as nat)
    } else if 0x2e <= i < 0x30 {
        le_byte(identity.subsystem_device_id as nat, (i - 0x2e) as nat)
    } else {
        0
    }
}

/// An image with the overridden bytes; the last override of a byte counts.
pub open spec fn patched_bytes(image: Seq<u8>, patches: Seq<PciConfigByte>) -> Seq<u8>
    decreases patches.len(),
{
    if patches.len() == 0 {
        image
    } else {
        patched_bytes(image, patches.drop_last()).update(
            patches.last().offset.0 as int,
            patches.last().value,
        )
    }
}

/// A write mask with the overridden masks; the last override of a byte counts.
pub open spec fn patched_masks(masks: Seq<u8>, patches: Seq<PciConfigByte>) -> Seq<u8>
    decreases patches.len(),
{
    if patches.len() == 0 {
        masks
    } else {
        patched_masks(masks, patches.drop_last()).update(
            patches.last().offset.0 as int,
            patches.last().write_mask,
        )
    }
}

/// `image` with `bytes` laid over it from `start` on.
pub open spec fn overlaid(image: Seq<u8>, start: int, bytes: Seq<u8>) -> Seq<u8> {
    Seq::new(
        image.len(),
        |i: int|
            if start <= i < start + bytes.len() {
                bytes[i - start]
            } else {
                image[i]
            },
    )
}

/// An image with the BAR registers at their power-on addresses.
pub open spec fn with_bars(image: Seq<u8>, bars: Seq<ResolvedBarPlan>) -> Seq<u8>
    decreases bars.len(),
{
    if bars.len() == 0 {
        image
    } else {
        overlaid(
            with_bars(image, bars.drop_last()),
            bars.last().index.register(),
            crate::bytes::le_bytes(bars.last().address as nat, 4),
        )
    }
}

/// The next pointer of capability `index`: 0 ends the list.
pub open spec fn next_pointer(capabilities: Seq<PciCapabilityLayout>, index: int) -> u8 {
    if index + 1 < capabilities.len() {
        capabilities[index + 1].offset
    } else {
        0
    }
}

/// An image with the first `count` capabilities in it.
pub open spec fn with_capability_bytes(
    image: Seq<u8>,
    capabilities: Seq<PciCapabilityLayout>,
    count: nat,
) -> Seq<u8>
    decreases count,
{
    if count == 0 {
        image
    } else {
        let index = count - 1;
        let capability = capabilities[index];
        overlaid(
            with_capability_bytes(image, capabilities, index as nat),
            capability.offset as int,
            seq![capability.spec.id.0, next_pointer(capabilities, index)]
                + capability.spec.body@,
        )
    }
}

/// A write mask with the masks of the first `count` capability bodies.
pub open spec fn with_capability_masks(
    masks: Seq<u8>,
    capabilities: Seq<PciCapabilityLayout>,
    count: nat,
) -> Seq<u8>
    decreases count,
{
    if count == 0 {
        masks
    } else {
        let index = count - 1;
        let capability = capabilities[index];
        overlaid(
            with_capability_masks(masks, capabilities, index as nat),
            capability.offset + 2,
            capability.spec.write_mask@,
        )
    }
}

/// An image whose status and pointer registers announce a capability list.
pub open spec fn with_capability_list(
    image: Seq<u8>,
    capabilities: Seq<PciCapabilityLayout>,
) -> Seq<u8> {
    if capabilities.len() == 0 {
        image
    } else {
        image.update(0x06, image[0x06] | STATUS_CAPABILITIES_LIST).update(
            0x34,
            capabilities[0].offset,
        )
    }
}

/// The power-on image of a function: identity, overrides, BARs and
/// capabilities, each laid over what comes before it.
pub open spec fn power_on_bytes(
    identity: PciEndpointIdentity,
    bars: Seq<ResolvedBarPlan>,
    patches: Seq<PciConfigByte>,
    capabilities: Seq<PciCapabilityLayout>,
) -> Seq<u8> {
    let header = Seq::new(256, |i: int| identity_byte(identity, i));
    let listed = with_capability_list(
        with_bars(patched_bytes(header, patches), bars),
        capabilities,
    );
    with_capability_bytes(listed, capabilities, capabilities.len())
}

/// The power-on write mask of a function: memory-space enable, bus-master
/// enable and interrupt disable, the overrides and the capability masks.
pub open spec fn power_on_masks(
    patches: Seq<PciConfigByte>,
    capabilities: Seq<PciCapabilityLayout>,
) -> Seq<u8> {
    let command = Seq::new(
        256,
        |i: int|
            if i == 4 {
                0x06u8
            } else if i == 5 {
                COMMAND_INTERRUPT_DISABLE
            } else {
                0
            },
    );
    with_capability_masks(patched_masks(command, patches), capabilities, capabilities.len())
}

/// Power-on config image of one function.
#[derive(Debug)]
pub struct PowerOnConfig {
    /// Power-on bytes.
    pub bytes: [u8; 256],
    /// Which bits a guest can write.
    pub write_mask: [u8; 256],
    /// Capabilities in list order.
    pub capabilities: Vec<PciCapabilityLayout>,
}

impl PowerOnConfig {
    /// Every capability lies behind the header and inside the space.
    pub open spec fn wf(self) -> bool {
        forall|i: int|
            #![trigger self.capabilities@[i]]
            0 <= i < self.capabilities@.len() ==> self.capabilities@[i].wf()
    }

    /// Builds the image of a resolved function.
    ///
    /// # Errors
    ///
    /// Returns [`PciError::InvalidEndpointIdentity`] for vendor ID `0xffff`,
    /// which denotes an absent function.
    pub fn build(
        identity: PciEndpointIdentity,
        bars: &Vec<ResolvedBarPlan>,
        config_bytes: &Vec<PciConfigByte>,
        capabilities: Vec<PciCapabilityLayout>,
    ) -> (result: PciResult<PowerOnConfig>)
        requires
            forall|i: int|
                #![trigger bars@[i]]
                0 <= i < bars@.len() ==> bars@[i].wf(),
            forall|i: int|
                #![trigger config_bytes@[i]]
                0 <= i < config_bytes@.len() ==> config_bytes@[i].offset.wf(),
            forall|i: int|
                #![trigger capabilities@[i]]
                0 <= i < capabilities@.len() ==> capabilities@[i].wf(),
        ensures
            !identity.wf() ==> result == Err::<PowerOnConfig, PciError>(
                PciError::InvalidEndpointIdentity {
                    detail: "vendor ID 0xffff denotes an absent function",
                },
            ),
            identity.wf() ==> (result matches Ok(config) && {
                &&& config.wf()
                &&& config.bytes@ == power_on_bytes(
                    identity,
                    bars@,
                    config_bytes@,
                    capabilities@,
                )
                &&& config.write_mask@ == power_on_masks(config_bytes@, capabilities@)
                &&& config.capabilities == capabilities
            }),
    {
        if identity.vendor_id == 0xffff {
            return Err(
                PciError::InvalidEndpointIdentity {
                    detail: "vendor ID 0xffff denotes an absent function",
                },
            );
        }
        let mut bytes: [u8; 256] = [0; 256];
        let mut write_mask: [u8; 256] = [0; 256];
        put_word(&mut bytes, 0, identity.vendor_id);
        put_word(&mut bytes, 2, identity.device_id);
        put_word(&mut bytes, 0x2c, identity.subsystem_vendor_id);
        put_word(&mut bytes, 0x2e, identity.subsystem_device_id);
        assert(0x02u8 | 0x04u8 == 0x06u8) by (bit_vector);
        write_mask[4] = COMMAND_MEMORY_SPACE_ENABLE | COMMAND_BUS_MASTER_ENABLE;
        write_mask[5] = COMMAND_INTERRUPT_DISABLE;
        bytes[8] = identity.revision;
        bytes[9] = identity.class.programming_interface;
        bytes[10] = identity.class.subclass;
        bytes[11] = identity.class.base;
        let ghost header = Seq::new(256, |i: int| identity_byte(identity, i));
        let ghost command = Seq::new(
            256,
            |i: int|
                if i == 4 {
                    0x06u8
                } else if i == 5 {
                    COMMAND_INTERRUPT_DISABLE
                } else {
                    0
                },
        );
        assert(bytes@ =~= header);
        assert(write_mask@ =~= command);
        let mut i: usize = 0;
        while i < config_bytes.len()
            invariant
                i <= config_bytes@.len(),
                forall|j: int|
                    #![trigger config_bytes@[j]]
                    0 <= j < config_bytes@.len() ==> config_bytes@[j].offset.wf(),
                bytes@ == patched_bytes(header, config_bytes@.take(i as int)),
                write_mask@ == patched_masks(command, config_bytes@.take(i as int)),
            decreases config_bytes@.len() - i,
        {
            let patch = config_bytes[i];
            proof {
                let next = config_bytes@.take(i + 1);
                assert(next.drop_last() =~= config_bytes@.take(i as int));
                assert(next.last() == patch);
            }
            let offset: usize = patch.offset.0 as usize;
            bytes[offset] = patch.value;
            write_mask[offset] = patch.write_mask;
            i = i + 1;
        }
        assert(config_bytes@.take(i as int) =~= config_bytes@);
        let ghost patched = bytes@;
        let mut i: usize = 0;
        while i < bars.len()
            invariant
                i <= bars@.len(),
                forall|j: int|
                    #![trigger bars@[j]]
                    0 <= j < bars@.len() ==> bars@[j].wf(),
                bytes@ == with_bars(patched, bars@.take(i as int)),
            decreases bars@.len() - i,
        {
            let bar = bars[i];
            proof {
                let next = bars@.take(i + 1);
                assert(next.drop_last() =~= bars@.take(i as int));
                assert(next.last() == bar);
            }
            let ghost before = bytes@;
            let offset: usize = bar.index.config_offset();
            bytes[offset] = le_lane(bar.address, 0);
            bytes[offset + 1] = le_lane(bar.address, 1);
            bytes[offset + 2] = le_lane(bar.address, 2);
            bytes[offset + 3] = le_lane(bar.address, 3);
            assert(bytes@ =~= overlaid(
                before,
                bar.index.register(),
                crate::bytes::le_bytes(bar.address as nat, 4),
            ));
            i = i + 1;
        }
        assert(bars@.take(i as int) =~= bars@);
        let ghost barred = bytes@;
        if capabilities.len() > 0 {
            bytes[0x06] = bytes[0x06] | STATUS_CAPABILITIES_LIST;
            bytes[0x34] = capabilities[0].offset;
        }
        let ghost listed = bytes@;
        let ghost masked = write_mask@;
        assert(listed =~= with_capability_list(barred, capabilities@));
        let mut i: usize = 0;
        while i < capabilities.len()
            invariant
                i <= capabilities@.len(),
                forall|j: int|
                    #![trigger capabilities@[j]]
                    0 <= j < capabilities@.len() ==> capabilities@[j].wf(),
                bytes@ == with_capability_bytes(listed, capabilities@, i as nat),
                write_mask@ == with_capability_masks(masked, capabilities@, i as nat),
            decreases capabilities@.len() - i,
        {
            let capability = &capabilities[i];
            let next: u8 = if i + 1 < capabilities.len() {
                capabilities[i + 1].offset
            } else {
                0
            };
            place_capability(&mut bytes, &mut write_mask, capability, next);
            i = i + 1;
        }
        Ok(PowerOnConfig { bytes, write_mask, capabilities })
    }
}

/// Whether two placed capabilities are the same.
pub open spec fn same_capability(first: PciCapabilityLayout, second: PciCapabilityLayout) -> bool {
    &&& first.offset == second.offset
    &&& first.spec.id == second.spec.id
    &&& first.spec.body@ == second.spec.body@
    &&& first.spec.write_mask@ == second.spec.write_mask@
    &&& first.spec.effects@ == second.spec.effects@
}

/// Whether two power-on images are the same.
pub open spec fn same_image(first: PowerOnConfig, second: PowerOnConfig) -> bool {
    &&& first.bytes == second.bytes
    &&& first.write_mask == second.write_mask
    &&& first.capabilities@.len() == second.capabilities@.len()
    &&& forall|i: int|
        #![trigger first.capabilities@[i]]
        #![trigger second.capabilities@[i]]
        0 <= i < first.capabilities@.len() ==> same_capability(
            first.capabilities@[i],
            second.capabilities@[i],
        )
}

impl Clone for PowerOnConfig {
    fn clone(&self) -> (copy: PowerOnConfig)
        ensures
            same_image(copy, *self),
    {
        let mut capabilities: Vec<PciCapabilityLayout> = Vec::new();
        let mut i: usize = 0;
        while i < self.capabilities.len()
            invariant
                i <= self.capabilities@.len(),
                capabilities@.len() == i,
                forall|j: int|
                    #![trigger capabilities@[j]]
                    0 <= j < i ==> same_capability(capabilities@[j], self.capabilities@[j]),
            decreases self.capabilities@.len() - i,
        {
            let layout = &self.capabilities[i];
            capabilities.push(
                PciCapabilityLayout { offset: layout.offset, spec: layout.spec.clone() },
            );
            i = i + 1;
        }
        PowerOnConfig { bytes: self.bytes, write_mask: self.write_mask, capabilities }
    }
}

/// A copy of a well-formed image is well formed.
pub proof fn lemma_same_image_wf(first: PowerOnConfig, second: PowerOnConfig)
    requires
        same_image(first, second),
        second.wf(),
    ensures
        first.wf(),
{
    assert forall|i: int|
        #![trigger first.capabilities@[i]]
        0 <= i < first.capabilities@.len() implies first.capabilities@[i].wf() by {
        assert(same_capability(first.capabilities@[i], second.capabilities@[i]));
        assert(second.capabilities@[i].wf());
    }
}

/// Stores a little-endian word.
fn put_word(bytes: &mut [u8; 256], offset: usize, value: u16)
    requires
        offset < 255,
    ensures
        final(bytes)@ == overlaid(
            old(bytes)@,
            offset as int,
            crate::bytes::le_bytes(value as nat, 2),
        ),
{
    bytes[offset] = le_lane(value as u64, 0);
    bytes[offset + 1] = le_lane(value as u64, 1);
    assert(bytes@ =~= overlaid(
        old(bytes)@,
        offset as int,
        crate::bytes::le_bytes(value as nat, 2),
    ));
}

/// Lays one capability over an image and its write mask.
fn place_capability(
    bytes: &mut [u8; 256],
    write_mask: &mut [u8; 256],
    capability: &PciCapabilityLayout,
    next: u8,
)
    requires
        capability.wf(),
    ensures
        final(bytes)@ == overlaid(
            old(bytes)@,
            capability.offset as int,
            seq![capability.spec.id.0, next] + capability.spec.body@,
        ),
        final(write_mask)@ == overlaid(
            old(write_mask)@,
            capability.offset + 2,
            capability.spec.write_mask@,
        ),
{
    let base: usize = capability.offset as usize;
    let length: usize = capability.spec.body.len();
    bytes[base] = capability.spec.id.0;
    bytes[base + 1] = next;
    let mut i: usize = 0;
    while i < length
        invariant
            i <= length,
            capability.wf(),
            base == capability.offset,
            length == capability.spec.body@.len(),
            forall|j: int|
                0 <= j < 256 ==> #[trigger] bytes@[j] == (if j == base {
                    capability.spec.id.0
                } else if j == base + 1 {
                    next
                } else if base + 2 <= j < base + 2 + i {
                    capability.spec.body@[j - base - 2]
                } else {
                    old(bytes)@[j]
                }),
            forall|j: int|
                0 <= j < 256 ==> #[trigger] write_mask@[j] == (if base + 2 <= j < base + 2 + i {
                    capability.spec.write_mask@[j - base - 2]
                } else {
                    old(write_mask)@[j]
                }),
        decreases length - i,
    {
        bytes[base + 2 + i] = capability.spec.body[i];
        write_mask[base + 2 + i] = capability.spec.write_mask[i];
        i = i + 1;
    }
    assert(bytes@ =~= overlaid(
        old(bytes)@,
        capability.offset as int,
        seq![capability.spec.id.0, next] + capability.spec.body@,
    ));
    assert(write_mask@ =~= overlaid(
        old(write_mask)@,
        capability.offset + 2,
        capability.spec.write_mask@,
    ));
}

/// What one write to a BAR register asks for.
#[derive(Clone, Copy, Debug, PartialEq, Eq, Structural)]
pub enum BarWriteAction {
    /// Report the size on the next reads.
    Probe {
        /// Position of the BAR in the function.
        bar: usize,
    },
    /// Decode another address.
    Relocate {
        /// Position of the BAR in the function.
        bar: usize,
        /// Base address that is asked for.
        candidate: u64,
    },
}

/// The first BAR, at or after `from`, in slot `slot`.
pub open spec fn bar_in_slot(bars: Seq<BarState>, slot: int, from: nat) -> Option<nat>
    decreases bars.len() - from,
{
    if from >= bars.len() {
        None
    } else if bars[from as int].plan.index.0 == slot {
        Some(from)
    } else {
        bar_in_slot(bars, slot, from + 1)
    }
}

/// The BAR whose register holds config byte `offset`.
pub open spec fn bar_at(bars: Seq<BarState>, offset: int) -> Option<nat> {
    if 0x10 <= offset < 0x28 {
        bar_in_slot(bars, (offset - 0x10) / 4, 0)
    } else {
        None
    }
}

/// A found BAR exists.
pub proof fn lemma_bar_in_slot(bars: Seq<BarState>, slot: int, from: nat)
    ensures
        bar_in_slot(bars, slot, from) matches Some(bar) ==> bar < bars.len()
            && bars[bar as int].plan.index.0 == slot,
    decreases bars.len() - from,
{
    if from < bars.len() && bars[from as int].plan.index.0 != slot {
        lemma_bar_in_slot(bars, slot, from + 1);
    }
}

/// `config` after a guest wrote the low `size` bytes of `value` at `offset`:
/// only the bits that `masks` allows change.
pub open spec fn merged_bytes(
    config: Seq<u8>,
    masks: Seq<u8>,
    offset: int,
    size: int,
    value: u64,
) -> Seq<u8> {
    Seq::new(
        config.len(),
        |i: int|
            if offset <= i < offset + size {
                (config[i] & !masks[i]) | (le_byte(value as nat, (i - offset) as nat) & masks[i])
            } else {
                config[i]
            },
    )
}

/// The register value that a write of `size` bytes at lane `lane` leaves.
pub open spec fn merged_dword(dword: nat, lane: int, size: int, value: u64) -> nat {
    le_value(
        Seq::new(
            4,
            |i: int|
                if lane <= i < lane + size {
                    le_byte(value as nat, (i - lane) as nat)
                } else {
                    le_byte(dword, i as nat)
                },
        ),
    )
}

/// What an access to a function's configuration space means for its endpoint.
pub type ConfigEffect = (
    PciCapabilityId,
    PciCapabilityEffectRegion,
    u8,
    PciCapabilitySnapshot,
);

/// Config and BAR state of one function.
#[derive(Debug)]
pub struct FunctionState {
    /// Address of the function.
    pub bdf: PciBdf,
    /// Power-on image.
    pub power_on: PowerOnConfig,
    /// Current image.
    pub config: [u8; 256],
    /// BAR decode state.
    pub bars: Vec<BarState>,
    /// Whether the function has a legacy interrupt pin.
    pub intx: bool,
}

impl FunctionState {
    /// The power-on image and every BAR are well formed.
    pub open spec fn wf(self) -> bool {
        &&& self.power_on.wf()
        &&& forall|i: int|
            #![trigger self.bars@[i]]
            0 <= i < self.bars@.len() ==> self.bars@[i].wf()
    }

    /// Whether the state is that of power-on.
    pub open spec fn at_power_on(self) -> bool {
        &&& self.config@ == self.power_on.bytes@
        &&& forall|i: int|
            #![trigger self.bars@[i]]
            0 <= i < self.bars@.len() ==> self.bars@[i] == BarState::initial(self.bars@[i].plan)
    }

    /// Whether `other` is the same function, in whatever state.
    pub open spec fn same_function(self, other: FunctionState) -> bool {
        &&& self.bdf == other.bdf
        &&& self.power_on == other.power_on
        &&& self.intx == other.intx
        &&& self.bars@.len() == other.bars@.len()
        &&& forall|i: int|
            #![trigger self.bars@[i]]
            0 <= i < self.bars@.len() ==> self.bars@[i].plan == other.bars@[i].plan
    }

    /// Creates a function in its power-on state.
    pub fn new(
        bdf: PciBdf,
        power_on: PowerOnConfig,
        plans: &Vec<ResolvedBarPlan>,
        intx: bool,
    ) -> (state: FunctionState)
        requires
            power_on.wf(),
            forall|i: int| #![trigger plans@[i]] 0 <= i < plans@.len() ==> plans@[i].wf(),
        ensures
            state.wf(),
            state.at_power_on(),
            state.bdf == bdf,
            state.power_on == power_on,
            state.intx == intx,
            state.bars@.len() == plans@.len(),
            forall|i: int|
                #![trigger state.bars@[i]]
                0 <= i < plans@.len() ==> state.bars@[i].plan == plans@[i],
    {
        let mut bars: Vec<BarState> = Vec::new();
        let mut i: usize = 0;
        while i < plans.len()
            invariant
                i <= plans@.len(),
                bars@.len() == i,
                forall|j: int|
                    #![trigger bars@[j]]
                    0 <= j < i ==> bars@[j] == BarState::initial(plans@[j]),
            decreases plans@.len() - i,
        {
            bars.push(BarState::new(plans[i]));
            i = i + 1;
        }
        FunctionState { bdf, config: power_on.bytes, power_on, bars, intx }
    }

    /// Returns the address of the function.
    pub fn bdf(&self) -> (bdf: PciBdf)
        ensures
            bdf == self.bdf,
    {
        self.bdf
    }

    /// Whether memory BARs are decoded.
    pub open spec fn decodes_memory(self) -> bool {
        self.config@[4] & COMMAND_MEMORY_SPACE_ENABLE != 0
    }

    /// Returns whether the function decodes its memory BARs.
    pub fn memory_decode_enabled(&self) -> (enabled: bool)
        ensures
            enabled == self.decodes_memory(),
    {
        self.config[4] & COMMAND_MEMORY_SPACE_ENABLE != 0
    }

    /// The command register's three implemented bits.
    pub open spec fn command(self) -> PciCommandState {
        PciCommandState {
            memory_space_enable: self.config@[4] & COMMAND_MEMORY_SPACE_ENABLE != 0,
            bus_master_enable: self.config@[4] & COMMAND_BUS_MASTER_ENABLE != 0,
            interrupt_disable: self.config@[5] & COMMAND_INTERRUPT_DISABLE != 0,
        }
    }

    /// Returns the command register as endpoints see it.
    pub fn command_state(&self) -> (state: PciCommandState)
        ensures
            state == self.command(),
    {
        PciCommandState::new(
            self.config[4] & COMMAND_MEMORY_SPACE_ENABLE != 0,
            self.config[4] & COMMAND_BUS_MASTER_ENABLE != 0,
            self.config[5] & COMMAND_INTERRUPT_DISABLE != 0,
        )
    }

    /// Config byte `i` as a guest reads it: a lane of a BAR register, or the
    /// byte of the image.
    pub open spec fn visible_byte(self, i: int) -> u8 {
        match bar_at(self.bars@, i) {
            Some(bar) => le_byte(
                self.bars@[bar as int].register() as nat,
                ((i - 0x10) % 4) as nat,
            ),
            None => self.config@[i],
        }
    }

    /// The `size` config bytes at `offset` as a guest reads them.
    pub open spec fn visible_bytes(self, offset: int, size: int) -> Seq<u8> {
        Seq::new(size as nat, |i: int| self.visible_byte(offset + i))
    }

    /// Reads `size` config bytes at `offset`.
    pub fn read(&self, offset: usize, size: usize) -> (value: u64)
        requires
            self.wf(),
            size <= 8,
            offset + size <= 256,
        ensures
            value == le_value(self.visible_bytes(offset as int, size as int)),
    {
        let mut bytes: Vec<u8> = Vec::new();
        let mut i: usize = 0;
        while i < size
            invariant
                i <= size,
                self.wf(),
                offset + size <= 256,
                bytes@ == self.visible_bytes(offset as int, i as int),
            decreases size - i,
        {
            let at: usize = offset + i;
            let byte: u8 = match self.bar_dword(at) {
                Some(bar) => le_lane(self.bars[bar].raw_dword() as u64, (at - 0x10) % 4),
                None => self.config[at],
            };
            bytes.push(byte);
            assert(bytes@ =~= self.visible_bytes(offset as int, i + 1));
            i = i + 1;
        }
        assert(bytes@.subrange(0, size as int) =~= bytes@);
        le_decode(bytes.as_slice(), 0, size)
    }

    /// The first capability, at or after `from`, that an access meets an
    /// endpoint-owned region of.
    pub open spec fn effect_capability(
        self,
        from: nat,
        offset: int,
        size: int,
        width: AccessWidth,
        write: bool,
    ) -> Option<nat>
        decreases self.power_on.capabilities@.len() - from,
    {
        if from >= self.power_on.capabilities@.len() {
            None
        } else if self.power_on.capabilities@[from as int].effect_of(offset, size, write, width)
            != Ok::<Option<PciCapabilityEffectRegion>, PciError>(None) {
            Some(from)
        } else {
            self.effect_capability(from + 1, offset, size, width, write)
        }
    }

    /// Returns the endpoint-owned effect that one access has: the capability,
    /// its region, the access offset in the capability, and the capability's
    /// body at this moment.
    ///
    /// # Errors
    ///
    /// Returns [`PciError::InvalidConfigAccess`] for an access that crosses the
    /// edge of a region.
    pub fn config_effect(&self, offset: usize, size: usize, width: AccessWidth, write: bool) -> (result:
        PciResult<Option<ConfigEffect>>)
        requires
            self.wf(),
            0 < size,
            offset + size <= 256,
        ensures
            match self.effect_capability(0, offset as int, size as int, width, write) {
                None => result == Ok::<Option<ConfigEffect>, PciError>(None),
                Some(index) => {
                    let capability = self.power_on.capabilities@[index as int];
                    match capability.effect_of(offset as int, size as int, write, width) {
                        Err(error) => result == Err::<Option<ConfigEffect>, PciError>(error),
                        Ok(region) => {
                            &&& region is Some
                            &&& result matches Ok(Some(effect))
                            &&& effect.0 == capability.spec.id
                            &&& effect.1 == region->0
                            &&& effect.2 == offset - capability.offset
                            &&& effect.3.wf()
                            &&& effect.3@ == self.config@.subrange(
                                capability.offset + 2,
                                capability.end(),
                            )
                        },
                    }
                },
            },
    {
        let mut i: usize = 0;
        while i < self.power_on.capabilities.len()
            invariant
                i <= self.power_on.capabilities@.len(),
                self.wf(),
                0 < size,
                offset + size <= 256,
                self.effect_capability(0, offset as int, size as int, width, write)
                    == self.effect_capability(i as nat, offset as int, size as int, width, write),
            decreases self.power_on.capabilities@.len() - i,
        {
            let capability = &self.power_on.capabilities[i];
            match capability.effect_for_access(offset, size, write, width) {
                Err(error) => {
                    return Err(error);
                },
                Ok(None) => {},
                Ok(Some(region)) => {
                    assert(self.effect_capability(
                        0,
                        offset as int,
                        size as int,
                        width,
                        write,
                    ) == Some(i as nat));
                    proof {
                        lemma_effect_met_exists(*capability, 0, offset as int, size as int, write);
                    }
                    let relative: usize = offset - capability.offset as usize;
                    return Ok(
                        Some(
                            (
                                capability.id(),
                                region,
                                relative as u8,
                                capability.snapshot(&self.config),
                            ),
                        ),
                    );
                },
            }
            i = i + 1;
        }
        Ok(None)
    }

    /// Whether an access meets any endpoint-owned region.
    pub open spec fn meets_config_effect(self, offset: int, size: int) -> bool {
        exists|i: int|
            #![trigger self.power_on.capabilities@[i]]
            0 <= i < self.power_on.capabilities@.len()
                && self.power_on.capabilities@[i].meets_effect(offset, size)
    }

    /// Returns whether an access touches an endpoint-owned region.
    pub fn intersects_config_effect(&self, offset: usize, size: usize) -> (result: bool)
        requires
            self.wf(),
            offset + size <= 256,
        ensures
            result == self.meets_config_effect(offset as int, size as int),
    {
        let mut i: usize = 0;
        while i < self.power_on.capabilities.len()
            invariant
                i <= self.power_on.capabilities@.len(),
                self.wf(),
                offset + size <= 256,
                forall|j: int|
                    #![trigger self.power_on.capabilities@[j]]
                    0 <= j < i ==> !self.power_on.capabilities@[j].meets_effect(
                        offset as int,
                        size as int,
                    ),
            decreases self.power_on.capabilities@.len() - i,
        {
            if self.power_on.capabilities[i].intersects_effect(offset, size) {
                assert(self.power_on.capabilities@[i as int].meets_effect(
                    offset as int,
                    size as int,
                ));
                return true;
            }
            i = i + 1;
        }
        false
    }

    /// What a write of `size` bytes at `offset` asks of the BARs: nothing
    /// outside their registers; else a probe where the merged register is all
    /// ones, and a relocation otherwise.
    pub open spec fn bar_action(self, offset: int, size: int, value: u64) -> Option<
        BarWriteAction,
    > {
        match bar_at(self.bars@, offset) {
            None => None,
            Some(bar) => {
                let merged = merged_dword(
                    self.bars@[bar as int].address as nat,
                    (offset - 0x10) % 4,
                    size,
                    value,
                );
                if merged == 0xffff_ffff {
                    Some(BarWriteAction::Probe { bar: bar as usize })
                } else {
                    Some(
                        BarWriteAction::Relocate {
                            bar: bar as usize,
                            candidate: BarState::candidate(merged as u32) as u64,
                        },
                    )
                }
            },
        }
    }

    /// Classifies one BAR write after merging the guest lanes into a full
    /// dword. The size probe is recognized only when the merged dword equals
    /// all ones in one access; lane-wise accumulation across multiple writes
    /// is intentionally not tracked.
    pub fn prepare_bar_write(&self, offset: usize, size: usize, value: u64) -> (action: Option<
        BarWriteAction,
    >)
        requires
            self.wf(),
            offset % 4 + size <= 4,
        ensures
            action == self.bar_action(offset as int, size as int, value),
            action matches Some(BarWriteAction::Probe { bar }) ==> bar < self.bars@.len(),
            action matches Some(BarWriteAction::Relocate { bar, candidate }) ==> bar
                < self.bars@.len() && candidate < FOUR_GIB,
    {
        let bar: usize = match self.bar_dword(offset) {
            Some(bar) => bar,
            None => return None,
        };
        let lane: usize = offset % 4;
        let dword: u64 = self.bars[bar].committed_dword() as u64;
        let ghost expected = Seq::new(
            4,
            |i: int|
                if lane <= i < lane + size {
                    le_byte(value as nat, (i - lane) as nat)
                } else {
                    le_byte(dword as nat, i as nat)
                },
        );
        let mut bytes: Vec<u8> = Vec::new();
        let mut i: usize = 0;
        while i < 4
            invariant
                i <= 4,
                lane + size <= 4,
                expected.len() == 4,
                forall|j: int|
                    0 <= j < 4 ==> #[trigger] expected[j] == (if lane <= j < lane + size {
                        le_byte(value as nat, (j - lane) as nat)
                    } else {
                        le_byte(dword as nat, j as nat)
                    }),
                bytes@ == expected.take(i as int),
            decreases 4 - i,
        {
            let byte: u8 = if lane <= i && i < lane + size {
                le_lane(value, i - lane)
            } else {
                le_lane(dword, i)
            };
            assert(byte == expected[i as int]);
            bytes.push(byte);
            assert(bytes@ =~= expected.take(i + 1));
            i = i + 1;
        }
        assert(bytes@.subrange(0, 4) =~= expected);
        assert((offset - 0x10) % 4 == lane);
        let merged: u64 = le_decode(bytes.as_slice(), 0, 4);
        proof {
            crate::bytes::lemma_lane_scale_values();
        }
        if merged == 0xffff_ffff {
            return Some(BarWriteAction::Probe { bar });
        }
        Some(
            BarWriteAction::Relocate { bar, candidate: BarState::candidate_address(merged as u32) },
        )
    }

    /// Merges a write into the image under the write mask.
    pub fn write_non_bar(&mut self, offset: usize, size: usize, value: u64)
        requires
            offset + size <= 256,
        ensures
            final(self).config@ == merged_bytes(
                old(self).config@,
                old(self).power_on.write_mask@,
                offset as int,
                size as int,
                value,
            ),
            *final(self) == (FunctionState { config: final(self).config, ..*old(self) }),
    {
        let mut i: usize = 0;
        while i < size
            invariant
                i <= size,
                offset + size <= 256,
                *self == (FunctionState { config: self.config, ..*old(self) }),
                self.config@ == merged_bytes(
                    old(self).config@,
                    old(self).power_on.write_mask@,
                    offset as int,
                    i as int,
                    value,
                ),
            decreases size - i,
        {
            let at: usize = offset + i;
            let mask: u8 = self.power_on.write_mask[at];
            let update: u8 = le_lane(value, i);
            self.config[at] = (self.config[at] & !mask) | (update & mask);
            assert(self.config@ =~= merged_bytes(
                old(self).config@,
                old(self).power_on.write_mask@,
                offset as int,
                i + 1,
                value,
            ));
            i = i + 1;
        }
        assert(self.config@ =~= merged_bytes(
            old(self).config@,
            old(self).power_on.write_mask@,
            offset as int,
            size as int,
            value,
        ));
    }

    /// Makes the next read of a BAR return its size mask.
    pub fn apply_probe(&mut self, bar: usize)
        requires
            bar < old(self).bars@.len(),
        ensures
            final(self).bars@ == old(self).bars@.update(
                bar as int,
                BarState { probing: true, ..old(self).bars@[bar as int] },
            ),
            *final(self) == (FunctionState { bars: final(self).bars, ..*old(self) }),
    {
        self.bars[bar].set_probe();
    }

    /// Ends the relocation of a BAR at the accepted address, or where it was.
    pub fn finish_relocation(&mut self, bar: usize, accepted: Option<u64>)
        requires
            bar < old(self).bars@.len(),
        ensures
            final(self).bars@ == old(self).bars@.update(
                bar as int,
                old(self).bars@[bar as int].relocated(accepted),
            ),
            *final(self) == (FunctionState { bars: final(self).bars, ..*old(self) }),
    {
        self.bars[bar].finish_relocation(accepted);
    }

    /// Restores the power-on image and every BAR.
    pub fn reset(&mut self)
        requires
            old(self).wf(),
        ensures
            final(self).wf(),
            final(self).at_power_on(),
            final(self).same_function(*old(self)),
    {
        self.config = self.power_on.bytes;
        let mut i: usize = 0;
        while i < self.bars.len()
            invariant
                i <= self.bars@.len(),
                old(self).wf(),
                self.config@ == self.power_on.bytes@,
                self.same_function(*old(self)),
                forall|j: int|
                    #![trigger self.bars@[j]]
                    0 <= j < self.bars@.len() ==> self.bars@[j] == (if j < i {
                        BarState::initial(old(self).bars@[j].plan)
                    } else {
                        old(self).bars@[j]
                    }),
            decreases self.bars@.len() - i,
        {
            self.bars[i].reset();
            i = i + 1;
        }
    }

    /// Returns the BAR whose register holds config byte `offset`.
    pub fn bar_dword(&self, offset: usize) -> (bar: Option<usize>)
        ensures
            bar is Some <==> bar_at(self.bars@, offset as int) is Some,
            bar matches Some(b) ==> b < self.bars@.len() && bar_at(self.bars@, offset as int)
                == Some(b as nat),
    {
        if offset < 0x10 || offset >= 0x28 {
            return None;
        }
        let slot: u8 = ((offset - 0x10) / 4) as u8;
        let mut i: usize = 0;
        while i < self.bars.len()
            invariant
                i <= self.bars@.len(),
                0x10 <= offset < 0x28,
                slot == (offset - 0x10) / 4,
                bar_in_slot(self.bars@, slot as int, 0) == bar_in_slot(
                    self.bars@,
                    slot as int,
                    i as nat,
                ),
            decreases self.bars@.len() - i,
        {
            if self.bars[i].index().value() == slot {
                return Some(i);
            }
            i = i + 1;
        }
        None
    }
}

/// A region that an access meets is one of the capability's, and an access that
/// it covers starts behind the start of the capability.
proof fn lemma_effect_met_exists(
    capability: PciCapabilityLayout,
    from: nat,
    offset: int,
    size: int,
    write: bool,
)
    ensures
        capability.effect_met(from, offset, size, write) matches Some(index) ==> index
            < capability.spec.effects@.len(),
    decreases capability.spec.effects@.len() - from,
{
    if from < capability.spec.effects@.len() {
        lemma_effect_met_exists(capability, from + 1, offset, size, write);
    }
}

} // verus!
