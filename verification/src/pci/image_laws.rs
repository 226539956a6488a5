//! What a guest finds in the power-on image of a function.

#[allow(unused_imports)]
use crate::bytes::{law_byte_lanes, le_byte};
#[allow(unused_imports)]
use crate::pci::bar::ResolvedBarPlan;
#[allow(unused_imports)]
use crate::pci::capability::{PciCapabilityLayout, PciCapabilitySpec};
#[allow(unused_imports)]
use crate::pci::config::{
    identity_byte, patched_bytes, patched_masks, power_on_bytes, power_on_masks, with_bars,
    with_capability_bytes, with_capability_list, with_capability_masks, PowerOnConfig,
};
#[allow(unused_imports)]
use crate::pci::function::{PciConfigByte, PciEndpointIdentity};
#[allow(unused_imports)]
use crate::pci::placement::place_capabilities;
use vstd::prelude::*;

verus! {

/// Whether the capabilities stand behind the header, each behind the one before it.
pub open spec fn are_separate(capabilities: Seq<PciCapabilityLayout>) -> bool {
    forall|i: int, j: int|
        #![trigger capabilities[i], capabilities[j]]
        0 <= i < j < capabilities.len() ==> capabilities[i].offset + 2
            + capabilities[i].spec.body@.len() <= capabilities[j].offset
}

/// The places that a guest visits which starts at `at` and follows the next pointers, for at most
/// `steps` steps.
pub open spec fn visited(image: Seq<u8>, at: u8, steps: nat) -> Seq<u8>
    decreases steps,
{
    if at == 0 || steps == 0 {
        Seq::empty()
    } else {
        seq![at] + visited(image, image[at + 1], (steps - 1) as nat)
    }
}

/// Byte `at` of the image with some capabilities: what the capability that holds it says, or what was
/// there before.
proof fn lemma_capability_bytes(
    image: Seq<u8>,
    capabilities: Seq<PciCapabilityLayout>,
    count: nat,
    at: int,
)
    requires
        image.len() == 256,
        0 <= at < 256,
        count <= capabilities.len(),
        are_separate(capabilities),
        forall|i: int| #![trigger capabilities[i]] 0 <= i < capabilities.len() ==> capabilities[i].wf(),
    ensures
        with_capability_bytes(image, capabilities, count).len() == 256,
        forall|i: int|
            #![trigger capabilities[i]]
            0 <= i < count && capabilities[i].offset <= at < capabilities[i].offset + 2
                + capabilities[i].spec.body@.len() ==> with_capability_bytes(
                image,
                capabilities,
                count,
            )[at] == (if at == capabilities[i].offset {
                capabilities[i].spec.id.0
            } else if at == capabilities[i].offset + 1 {
                if i + 1 < capabilities.len() {
                    capabilities[i + 1].offset
                } else {
                    0
                }
            } else {
                capabilities[i].spec.body@[at - capabilities[i].offset - 2]
            }),
        (forall|i: int|
            #![trigger capabilities[i]]
            0 <= i < count ==> !(capabilities[i].offset <= at < capabilities[i].offset + 2
                + capabilities[i].spec.body@.len())) ==> with_capability_bytes(
            image,
            capabilities,
            count,
        )[at] == image[at],
    decreases count,
{
    if count > 0 {
        lemma_capability_bytes(image, capabilities, (count - 1) as nat, at);
        let last = capabilities[count - 1];
        assert(last.wf());
        assert forall|i: int|
            #![trigger capabilities[i]]
            0 <= i < count - 1 && capabilities[i].offset <= at < capabilities[i].offset + 2
                + capabilities[i].spec.body@.len() implies at < last.offset by {}
    }
}

/// Byte `at` of the write mask with some capabilities.
proof fn lemma_capability_masks(
    masks: Seq<u8>,
    capabilities: Seq<PciCapabilityLayout>,
    count: nat,
    at: int,
)
    requires
        masks.len() == 256,
        0 <= at < 256,
        count <= capabilities.len(),
        are_separate(capabilities),
        forall|i: int| #![trigger capabilities[i]] 0 <= i < capabilities.len() ==> capabilities[i].wf(),
    ensures
        with_capability_masks(masks, capabilities, count).len() == 256,
        forall|i: int|
            #![trigger capabilities[i]]
            0 <= i < count && capabilities[i].offset + 2 <= at < capabilities[i].offset + 2
                + capabilities[i].spec.body@.len() ==> with_capability_masks(
                masks,
                capabilities,
                count,
            )[at] == capabilities[i].spec.write_mask@[at - capabilities[i].offset - 2],
        (forall|i: int|
            #![trigger capabilities[i]]
            0 <= i < count ==> !(capabilities[i].offset + 2 <= at < capabilities[i].offset + 2
                + capabilities[i].spec.body@.len())) ==> with_capability_masks(
            masks,
            capabilities,
            count,
        )[at] == masks[at],
    decreases count,
{
    if count > 0 {
        lemma_capability_masks(masks, capabilities, (count - 1) as nat, at);
        let last = capabilities[count - 1];
        assert(last.wf());
        assert forall|i: int|
            #![trigger capabilities[i]]
            0 <= i < count - 1 && capabilities[i].offset + 2 <= at < capabilities[i].offset + 2
                + capabilities[i].spec.body@.len() implies at < last.offset by {}
    }
}

/// Byte `at` of the image with some BARs.
proof fn lemma_bar_bytes(image: Seq<u8>, bars: Seq<ResolvedBarPlan>, at: int)
    requires
        image.len() == 256,
        0 <= at < 256,
        forall|i: int| #![trigger bars[i]] 0 <= i < bars.len() ==> bars[i].wf(),
        forall|i: int, j: int|
            #![trigger bars[i], bars[j]]
            0 <= i < j < bars.len() ==> bars[i].index != bars[j].index,
    ensures
        with_bars(image, bars).len() == 256,
        forall|i: int|
            #![trigger bars[i]]
            0 <= i < bars.len() && 0x10 + 4 * bars[i].index.0 <= at < 0x14 + 4 * bars[i].index.0
                ==> with_bars(image, bars)[at] == le_byte(
                bars[i].address as nat,
                (at - 0x10 - 4 * bars[i].index.0) as nat,
            ),
        !(0x10 <= at < 0x28) ==> with_bars(image, bars)[at] == image[at],
    decreases bars.len(),
{
    if bars.len() > 0 {
        let rest = bars.drop_last();
        let last = bars.last();
        assert(last == bars[bars.len() - 1]);
        assert(last.wf());
        assert forall|i: int| #![trigger rest[i]] 0 <= i < rest.len() implies rest[i].wf() by {
            assert(rest[i] == bars[i]);
        }
        assert forall|i: int, j: int|
            #![trigger rest[i], rest[j]]
            0 <= i < j < rest.len() implies rest[i].index != rest[j].index by {
            assert(rest[i] == bars[i] && rest[j] == bars[j]);
        }
        lemma_bar_bytes(image, rest, at);
        assert forall|i: int|
            #![trigger bars[i]]
            0 <= i < bars.len() && 0x10 + 4 * bars[i].index.0 <= at < 0x14 + 4
                * bars[i].index.0 implies with_bars(image, bars)[at] == le_byte(
            bars[i].address as nat,
            (at - 0x10 - 4 * bars[i].index.0) as nat,
        ) by {
            if i < rest.len() {
                assert(rest[i] == bars[i]);
                assert(bars[i].index != bars[bars.len() - 1].index);
                assert(bars[i].index.0 != last.index.0);
            }
        }
    }
}

/// Byte `at` of the image with some overrides.
proof fn lemma_patched(image: Seq<u8>, patches: Seq<PciConfigByte>, at: int)
    requires
        image.len() == 256,
        0 <= at < 256,
        forall|i: int|
            #![trigger patches[i]]
            0 <= i < patches.len() ==> patches[i].offset.0 < 256,
    ensures
        patched_bytes(image, patches).len() == 256,
        patched_masks(image, patches).len() == 256,
        forall|i: int|
            #![trigger patches[i]]
            0 <= i < patches.len() && patches[i].offset.0 == at && (forall|j: int|
                #![trigger patches[j]]
                i < j < patches.len() ==> patches[j].offset.0 != at) ==> patched_bytes(
                image,
                patches,
            )[at] == patches[i].value && patched_masks(image, patches)[at] == patches[i].write_mask,
        (forall|i: int|
            #![trigger patches[i]]
            0 <= i < patches.len() ==> patches[i].offset.0 != at) ==> patched_bytes(
            image,
            patches,
        )[at] == image[at] && patched_masks(image, patches)[at] == image[at],
    decreases patches.len(),
{
    if patches.len() > 0 {
        let rest = patches.drop_last();
        let last = patches.last();
        assert(last == patches[patches.len() - 1]);
        assert forall|i: int| #![trigger rest[i]] 0 <= i < rest.len() implies rest[i].offset.0
            < 256 by {
            assert(rest[i] == patches[i]);
        }
        lemma_patched(image, rest, at);
        if forall|i: int|
            #![trigger patches[i]]
            0 <= i < patches.len() ==> patches[i].offset.0 != at {
            assert forall|i: int| #![trigger rest[i]] 0 <= i < rest.len() implies rest[i].offset.0
                != at by {
                assert(rest[i] == patches[i]);
            }
        }
        assert forall|i: int|
            #![trigger patches[i]]
            0 <= i < patches.len() && patches[i].offset.0 == at && (forall|j: int|
                #![trigger patches[j]]
                i < j < patches.len() ==> patches[j].offset.0 != at) implies patched_bytes(
            image,
            patches,
        )[at] == patches[i].value && patched_masks(image, patches)[at] == patches[i].write_mask by {
            if i < rest.len() {
                assert(patches[patches.len() - 1].offset.0 != at);
                assert(rest[i] == patches[i]);
                assert forall|j: int| #![trigger rest[j]] i < j < rest.len() implies rest[j].offset.0
                    != at by {
                    assert(rest[j] == patches[j]);
                }
            }
        }
    }
}

/// What building an image asks for.
pub open spec fn are_image_parts(
    bars: Seq<ResolvedBarPlan>,
    config_bytes: Seq<PciConfigByte>,
    capabilities: Seq<PciCapabilityLayout>,
) -> bool {
    &&& forall|i: int| #![trigger bars[i]] 0 <= i < bars.len() ==> bars[i].wf()
    &&& forall|i: int, j: int|
        #![trigger bars[i], bars[j]]
        0 <= i < j < bars.len() ==> bars[i].index != bars[j].index
    &&& forall|i: int|
        #![trigger config_bytes[i]]
        0 <= i < config_bytes.len() ==> config_bytes[i].offset.0 < 256
    &&& forall|i: int|
        #![trigger capabilities[i]]
        0 <= i < capabilities.len() ==> capabilities[i].wf()
    &&& are_separate(capabilities)
}

/// Whether an image is that of a function with these parts.
pub open spec fn is_image(
    identity: PciEndpointIdentity,
    bars: Seq<ResolvedBarPlan>,
    config_bytes: Seq<PciConfigByte>,
    capabilities: Seq<PciCapabilityLayout>,
    config: PowerOnConfig,
) -> bool {
    &&& config.bytes@ == power_on_bytes(identity, bars, config_bytes, capabilities)
    &&& config.write_mask@ == power_on_masks(config_bytes, capabilities)
}

/// A guest that starts at the pointer in byte 0x34 and follows the next pointers visits every
/// capability once, in order, and comes to an end: each has its ID in the first byte, the place of the
/// next one in the second, and its body behind them. The status register announces the list.
pub proof fn law_capability_list_visits_every_capability(
    identity: PciEndpointIdentity,
    bars: Vec<ResolvedBarPlan>,
    config_bytes: Vec<PciConfigByte>,
    capabilities: Vec<PciCapabilityLayout>,
    config: PowerOnConfig,
    steps: nat,
)
    requires
        are_image_parts(bars@, config_bytes@, capabilities@),
        identity.vendor_id != 0xffff,
        call_ensures(
            PowerOnConfig::build,
            (identity, &bars, &config_bytes, capabilities),
            Ok(config),
        ),
        capabilities@.len() > 0,
        steps >= capabilities@.len(),
    ensures
        config.bytes@[0x34] == capabilities@[0].offset,
        config.bytes@[0x06] & 0x10 != 0,
        forall|i: int|
            #![trigger capabilities@[i]]
            0 <= i < capabilities@.len() ==> config.bytes@[capabilities@[i].offset as int]
                == capabilities@[i].spec.id.0,
        forall|i: int|
            #![trigger capabilities@[i]]
            0 <= i < capabilities@.len() ==> config.bytes@[capabilities@[i].offset + 1] == (if i
                + 1 < capabilities@.len() {
                capabilities@[i + 1].offset
            } else {
                0
            }),
        forall|i: int, k: int|
            #![trigger capabilities@[i].spec.body@[k]]
            0 <= i < capabilities@.len() && 0 <= k < capabilities@[i].spec.body@.len()
                ==> config.bytes@[capabilities@[i].offset + 2 + k]
                == capabilities@[i].spec.body@[k] && config.write_mask@[capabilities@[i].offset + 2
                + k] == capabilities@[i].spec.write_mask@[k],
        visited(config.bytes@, config.bytes@[0x34], steps) == Seq::new(
            capabilities@.len(),
            |i: int| capabilities@[i].offset,
        ),
        config.capabilities@ == capabilities@,
{
    lemma_capability_list_visits_every_capability(identity, bars@, config_bytes@, capabilities@, config, steps);
}

/// The same of an image, whoever built it.
pub proof fn lemma_capability_list_visits_every_capability(
    identity: PciEndpointIdentity,
    bars: Seq<ResolvedBarPlan>,
    config_bytes: Seq<PciConfigByte>,
    capabilities: Seq<PciCapabilityLayout>,
    config: PowerOnConfig,
    steps: nat,
)
    requires
        are_image_parts(bars, config_bytes, capabilities),
        identity.vendor_id != 0xffff,
        is_image(identity, bars, config_bytes, capabilities, config),
        capabilities.len() > 0,
        steps >= capabilities.len(),
    ensures
        config.bytes@[0x34] == capabilities[0].offset,
        config.bytes@[0x06] & 0x10 != 0,
        forall|i: int|
            #![trigger capabilities[i]]
            0 <= i < capabilities.len() ==> config.bytes@[capabilities[i].offset as int]
                == capabilities[i].spec.id.0,
        forall|i: int|
            #![trigger capabilities[i]]
            0 <= i < capabilities.len() ==> config.bytes@[capabilities[i].offset + 1] == (if i
                + 1 < capabilities.len() {
                capabilities[i + 1].offset
            } else {
                0
            }),
        forall|i: int, k: int|
            #![trigger capabilities[i].spec.body@[k]]
            0 <= i < capabilities.len() && 0 <= k < capabilities[i].spec.body@.len()
                ==> config.bytes@[capabilities[i].offset + 2 + k]
                == capabilities[i].spec.body@[k] && config.write_mask@[capabilities[i].offset + 2
                + k] == capabilities[i].spec.write_mask@[k],
        visited(config.bytes@, config.bytes@[0x34], steps) == Seq::new(
            capabilities.len(),
            |i: int| capabilities[i].offset,
        ),
{
    let caps = capabilities;
    let header = Seq::new(256, |i: int| identity_byte(identity, i));
    let patched = patched_bytes(header, config_bytes);
    let barred = with_bars(patched, bars);
    let listed = with_capability_list(barred, caps);
    let command = Seq::new(
        256,
        |i: int|
            if i == 4 {
                0x06u8
            } else if i == 5 {
                0x04u8
            } else {
                0
            },
    );
    lemma_patched(header, config_bytes, 6);
    lemma_patched(command, config_bytes, 6);
    lemma_bar_bytes(patched, bars, 6);
    lemma_bar_bytes(patched, bars, 0x34);
    lemma_capability_bytes(listed, caps, caps.len(), 0x34);
    lemma_capability_bytes(listed, caps, caps.len(), 6);
    let byte = barred[6];
    assert((byte | 0x10) & 0x10 != 0) by (bit_vector);
    assert forall|i: int| #![trigger caps[i]] 0 <= i < caps.len() implies config.bytes@[caps[i].offset as int]
        == caps[i].spec.id.0 by {
        assert(caps[i].wf());
        lemma_capability_bytes(listed, caps, caps.len(), caps[i].offset as int);
    }
    assert forall|i: int| #![trigger caps[i]] 0 <= i < caps.len() implies config.bytes@[caps[i].offset
        + 1] == (if i + 1 < caps.len() {
        caps[i + 1].offset
    } else {
        0
    }) by {
        assert(caps[i].wf());
        lemma_capability_bytes(listed, caps, caps.len(), caps[i].offset + 1);
    }
    assert forall|i: int, k: int|
        #![trigger caps[i].spec.body@[k]]
        0 <= i < caps.len() && 0 <= k < caps[i].spec.body@.len() implies config.bytes@[caps[i].offset
        + 2 + k] == caps[i].spec.body@[k] && config.write_mask@[caps[i].offset + 2 + k]
        == caps[i].spec.write_mask@[k] by {
        assert(caps[i].wf());
        lemma_capability_bytes(listed, caps, caps.len(), caps[i].offset + 2 + k);
        lemma_capability_masks(
            patched_masks(command, config_bytes),
            caps,
            caps.len(),
            caps[i].offset + 2 + k,
        );
    }
    lemma_visits(config.bytes@, caps, 0, steps);
    assert(visited(config.bytes@, config.bytes@[0x34], steps) =~= Seq::new(
        caps.len(),
        |i: int| caps[i].offset,
    ));
}

/// Following the next pointers from capability `from` on visits the rest of the list.
proof fn lemma_visits(image: Seq<u8>, capabilities: Seq<PciCapabilityLayout>, from: int, steps: nat)
    requires
        0 <= from < capabilities.len(),
        steps >= capabilities.len() - from,
        forall|i: int| #![trigger capabilities[i]] 0 <= i < capabilities.len() ==> capabilities[i].wf(),
        forall|i: int|
            #![trigger capabilities[i]]
            0 <= i < capabilities.len() ==> image[capabilities[i].offset + 1] == (if i + 1
                < capabilities.len() {
                capabilities[i + 1].offset
            } else {
                0
            }),
    ensures
        visited(image, capabilities[from].offset, steps) =~= Seq::new(
            (capabilities.len() - from) as nat,
            |i: int| capabilities[from + i].offset,
        ),
    decreases capabilities.len() - from,
{
    assert(capabilities[from].wf());
    if from + 1 < capabilities.len() {
        lemma_visits(image, capabilities, from + 1, (steps - 1) as nat);
        let rest = visited(image, capabilities[from + 1].offset, (steps - 1) as nat);
        assert forall|i: int| 0 <= i < rest.len() implies #[trigger] rest[i] == capabilities[from + 1
            + i].offset by {}
    } else {
        assert(visited(image, 0, (steps - 1) as nat) =~= Seq::<u8>::empty());
    }
}

/// Without capabilities there is no list: the pointer is 0 and the status register announces none.
pub proof fn law_function_without_capabilities_announces_none(
    identity: PciEndpointIdentity,
    bars: Vec<ResolvedBarPlan>,
    config_bytes: Vec<PciConfigByte>,
    capabilities: Vec<PciCapabilityLayout>,
    config: PowerOnConfig,
)
    requires
        are_image_parts(bars@, config_bytes@, capabilities@),
        identity.vendor_id != 0xffff,
        call_ensures(
            PowerOnConfig::build,
            (identity, &bars, &config_bytes, capabilities),
            Ok(config),
        ),
        capabilities@.len() == 0,
        forall|i: int|
            #![trigger config_bytes@[i]]
            0 <= i < config_bytes@.len() ==> config_bytes@[i].offset.0 != 6
                && config_bytes@[i].offset.0 != 0x34,
    ensures
        config.bytes@[0x34] == 0,
        config.bytes@[0x06] == 0,
{
    lemma_function_without_capabilities_announces_none(identity, bars@, config_bytes@, capabilities@, config);
}

/// The same of an image, whoever built it.
pub proof fn lemma_function_without_capabilities_announces_none(
    identity: PciEndpointIdentity,
    bars: Seq<ResolvedBarPlan>,
    config_bytes: Seq<PciConfigByte>,
    capabilities: Seq<PciCapabilityLayout>,
    config: PowerOnConfig,
)
    requires
        are_image_parts(bars, config_bytes, capabilities),
        identity.vendor_id != 0xffff,
        is_image(identity, bars, config_bytes, capabilities, config),
        capabilities.len() == 0,
        forall|i: int|
            #![trigger config_bytes[i]]
            0 <= i < config_bytes.len() ==> config_bytes[i].offset.0 != 6
                && config_bytes[i].offset.0 != 0x34,
    ensures
        config.bytes@[0x34] == 0,
        config.bytes@[0x06] == 0,
{
    let header = Seq::new(256, |i: int| identity_byte(identity, i));
    lemma_patched(header, config_bytes, 6);
    lemma_patched(header, config_bytes, 0x34);
    lemma_bar_bytes(patched_bytes(header, config_bytes), bars, 6);
    lemma_bar_bytes(patched_bytes(header, config_bytes), bars, 0x34);
}

/// The identity registers hold the identity, little-endian: vendor and device, revision, the three
/// parts of the class, and the subsystem. No guest can write them.
pub proof fn law_image_holds_the_identity(
    identity: PciEndpointIdentity,
    bars: Vec<ResolvedBarPlan>,
    config_bytes: Vec<PciConfigByte>,
    capabilities: Vec<PciCapabilityLayout>,
    config: PowerOnConfig,
)
    requires
        are_image_parts(bars@, config_bytes@, capabilities@),
        identity.vendor_id != 0xffff,
        call_ensures(
            PowerOnConfig::build,
            (identity, &bars, &config_bytes, capabilities),
            Ok(config),
        ),
        forall|i: int|
            #![trigger config_bytes@[i]]
            0 <= i < config_bytes@.len() ==> {
                let at = config_bytes@[i].offset.0;
                &&& at >= 0x0c
                &&& !(0x2c <= at < 0x30)
            },
    ensures
        config.bytes@[0] + 0x100 * config.bytes@[1] == identity.vendor_id,
        config.bytes@[2] + 0x100 * config.bytes@[3] == identity.device_id,
        config.bytes@[8] == identity.revision,
        config.bytes@[9] == identity.class.programming_interface,
        config.bytes@[10] == identity.class.subclass,
        config.bytes@[11] == identity.class.base,
        config.bytes@[0x2c] + 0x100 * config.bytes@[0x2d] == identity.subsystem_vendor_id,
        config.bytes@[0x2e] + 0x100 * config.bytes@[0x2f] == identity.subsystem_device_id,
        config.bytes@[4] == 0 && config.bytes@[5] == 0 && config.bytes@[7] == 0,
        forall|at: int|
            #![trigger config.write_mask@[at]]
            (0 <= at < 4 || 6 <= at < 0x0c || 0x2c <= at < 0x30) ==> config.write_mask@[at] == 0,
        config.write_mask@[4] == 6,
        config.write_mask@[5] == 4,
{
    lemma_image_holds_the_identity(identity, bars@, config_bytes@, capabilities@, config);
}

/// The same of an image, whoever built it.
pub proof fn lemma_image_holds_the_identity(
    identity: PciEndpointIdentity,
    bars: Seq<ResolvedBarPlan>,
    config_bytes: Seq<PciConfigByte>,
    capabilities: Seq<PciCapabilityLayout>,
    config: PowerOnConfig,
)
    requires
        are_image_parts(bars, config_bytes, capabilities),
        identity.vendor_id != 0xffff,
        is_image(identity, bars, config_bytes, capabilities, config),
        forall|i: int|
            #![trigger config_bytes[i]]
            0 <= i < config_bytes.len() ==> {
                let at = config_bytes[i].offset.0;
                &&& at >= 0x0c
                &&& !(0x2c <= at < 0x30)
            },
    ensures
        config.bytes@[0] + 0x100 * config.bytes@[1] == identity.vendor_id,
        config.bytes@[2] + 0x100 * config.bytes@[3] == identity.device_id,
        config.bytes@[8] == identity.revision,
        config.bytes@[9] == identity.class.programming_interface,
        config.bytes@[10] == identity.class.subclass,
        config.bytes@[11] == identity.class.base,
        config.bytes@[0x2c] + 0x100 * config.bytes@[0x2d] == identity.subsystem_vendor_id,
        config.bytes@[0x2e] + 0x100 * config.bytes@[0x2f] == identity.subsystem_device_id,
        config.bytes@[4] == 0 && config.bytes@[5] == 0 && config.bytes@[7] == 0,
        forall|at: int|
            #![trigger config.write_mask@[at]]
            (0 <= at < 4 || 6 <= at < 0x0c || 0x2c <= at < 0x30) ==> config.write_mask@[at] == 0,
        config.write_mask@[4] == 6,
        config.write_mask@[5] == 4,
{
    let header = Seq::new(256, |i: int| identity_byte(identity, i));
    let caps = capabilities;
    let patched = patched_bytes(header, config_bytes);
    let barred = with_bars(patched, bars);
    let listed = with_capability_list(barred, caps);
    let command = Seq::new(
        256,
        |i: int|
            if i == 4 {
                0x06u8
            } else if i == 5 {
                0x04u8
            } else {
                0
            },
    );
    assert forall|at: int|
        (0 <= at < 0x0c || 0x2c <= at < 0x30) && at != 6 implies #[trigger] config.bytes@[at]
        == header[at] by {
        lemma_patched(header, config_bytes, at);
        lemma_bar_bytes(patched, bars, at);
        lemma_bar_bytes(patched, bars, 0x34);
        lemma_capability_bytes(listed, caps, caps.len(), at);
    }
    assert forall|at: int|
        (0 <= at < 0x0c || 0x2c <= at < 0x30) implies #[trigger] config.write_mask@[at]
        == command[at] by {
        lemma_patched(command, config_bytes, at);
        lemma_capability_masks(patched_masks(command, config_bytes), caps, caps.len(), at);
    }
    law_byte_lanes(identity.vendor_id as nat);
    law_byte_lanes(identity.device_id as nat);
    law_byte_lanes(identity.subsystem_vendor_id as nat);
    law_byte_lanes(identity.subsystem_device_id as nat);
    assert(config.bytes@[0] == header[0] && config.bytes@[1] == header[1] && config.bytes@[2]
        == header[2] && config.bytes@[3] == header[3]);
    assert(config.bytes@[0x2c] == header[0x2c] && config.bytes@[0x2d] == header[0x2d]
        && config.bytes@[0x2e] == header[0x2e] && config.bytes@[0x2f] == header[0x2f]);
}

/// The register of each BAR, four bytes from 0x10 on for each slot, holds its power-on address.
pub proof fn law_image_holds_the_bars(
    identity: PciEndpointIdentity,
    bars: Vec<ResolvedBarPlan>,
    config_bytes: Vec<PciConfigByte>,
    capabilities: Vec<PciCapabilityLayout>,
    config: PowerOnConfig,
    bar: int,
)
    requires
        are_image_parts(bars@, config_bytes@, capabilities@),
        identity.vendor_id != 0xffff,
        call_ensures(
            PowerOnConfig::build,
            (identity, &bars, &config_bytes, capabilities),
            Ok(config),
        ),
        0 <= bar < bars@.len(),
    ensures
        ({
            let at = 0x10 + 4 * bars@[bar].index.0;
            config.bytes@[at] + 0x100 * config.bytes@[at + 1] + 0x1_0000 * config.bytes@[at + 2]
                + 0x100_0000 * config.bytes@[at + 3] == bars@[bar].address
        }),
{
    lemma_image_holds_the_bars(identity, bars@, config_bytes@, capabilities@, config, bar);
}

/// The same of an image, whoever built it.
pub proof fn lemma_image_holds_the_bars(
    identity: PciEndpointIdentity,
    bars: Seq<ResolvedBarPlan>,
    config_bytes: Seq<PciConfigByte>,
    capabilities: Seq<PciCapabilityLayout>,
    config: PowerOnConfig,
    bar: int,
)
    requires
        are_image_parts(bars, config_bytes, capabilities),
        identity.vendor_id != 0xffff,
        is_image(identity, bars, config_bytes, capabilities, config),
        0 <= bar < bars.len(),
    ensures
        ({
            let at = 0x10 + 4 * bars[bar].index.0;
            config.bytes@[at] + 0x100 * config.bytes@[at + 1] + 0x1_0000 * config.bytes@[at + 2]
                + 0x100_0000 * config.bytes@[at + 3] == bars[bar].address
        }),
{
    let header = Seq::new(256, |i: int| identity_byte(identity, i));
    let caps = capabilities;
    let patched = patched_bytes(header, config_bytes);
    let barred = with_bars(patched, bars);
    let listed = with_capability_list(barred, caps);
    let at = 0x10 + 4 * bars[bar].index.0;
    assert(bars[bar].wf());
    assert forall|k: int| 0 <= k < 4 implies #[trigger] config.bytes@[at + k] == le_byte(
        bars[bar].address as nat,
        k as nat,
    ) by {
        lemma_patched(header, config_bytes, at + k);
        lemma_bar_bytes(patched, bars, at + k);
        lemma_capability_bytes(listed, caps, caps.len(), at + k);
    }
    assert(config.bytes@[at + 0] == le_byte(bars[bar].address as nat, 0));
    law_byte_lanes(bars[bar].address as nat);
}

/// An overridden byte outside BARs and capabilities has the value and the mask of its last override;
/// without an override a guest can write nothing there but the three command bits.
pub proof fn law_image_holds_the_overrides(
    identity: PciEndpointIdentity,
    bars: Vec<ResolvedBarPlan>,
    config_bytes: Vec<PciConfigByte>,
    capabilities: Vec<PciCapabilityLayout>,
    config: PowerOnConfig,
    at: int,
)
    requires
        are_image_parts(bars@, config_bytes@, capabilities@),
        identity.vendor_id != 0xffff,
        call_ensures(
            PowerOnConfig::build,
            (identity, &bars, &config_bytes, capabilities),
            Ok(config),
        ),
        0x0c <= at < 256,
        at != 0x34,
        !(0x10 <= at < 0x28),
        forall|i: int|
            #![trigger capabilities@[i]]
            0 <= i < capabilities@.len() ==> !(capabilities@[i].offset <= at
                < capabilities@[i].offset + 2 + capabilities@[i].spec.body@.len()),
    ensures
        forall|i: int|
            #![trigger config_bytes@[i]]
            0 <= i < config_bytes@.len() && config_bytes@[i].offset.0 == at && (forall|j: int|
                #![trigger config_bytes@[j]]
                i < j < config_bytes@.len() ==> config_bytes@[j].offset.0 != at)
                ==> config.bytes@[at] == config_bytes@[i].value && config.write_mask@[at]
                == config_bytes@[i].write_mask,
        (forall|i: int|
            #![trigger config_bytes@[i]]
            0 <= i < config_bytes@.len() ==> config_bytes@[i].offset.0 != at)
            ==> config.write_mask@[at] == 0 && (at >= 0x30 ==> config.bytes@[at] == 0),
{
    lemma_image_holds_the_overrides(identity, bars@, config_bytes@, capabilities@, config, at);
}

/// The same of an image, whoever built it.
pub proof fn lemma_image_holds_the_overrides(
    identity: PciEndpointIdentity,
    bars: Seq<ResolvedBarPlan>,
    config_bytes: Seq<PciConfigByte>,
    capabilities: Seq<PciCapabilityLayout>,
    config: PowerOnConfig,
    at: int,
)
    requires
        are_image_parts(bars, config_bytes, capabilities),
        identity.vendor_id != 0xffff,
        is_image(identity, bars, config_bytes, capabilities, config),
        0x0c <= at < 256,
        at != 0x34,
        !(0x10 <= at < 0x28),
        forall|i: int|
            #![trigger capabilities[i]]
            0 <= i < capabilities.len() ==> !(capabilities[i].offset <= at
                < capabilities[i].offset + 2 + capabilities[i].spec.body@.len()),
    ensures
        forall|i: int|
            #![trigger config_bytes[i]]
            0 <= i < config_bytes.len() && config_bytes[i].offset.0 == at && (forall|j: int|
                #![trigger config_bytes[j]]
                i < j < config_bytes.len() ==> config_bytes[j].offset.0 != at)
                ==> config.bytes@[at] == config_bytes[i].value && config.write_mask@[at]
                == config_bytes[i].write_mask,
        (forall|i: int|
            #![trigger config_bytes[i]]
            0 <= i < config_bytes.len() ==> config_bytes[i].offset.0 != at)
            ==> config.write_mask@[at] == 0 && (at >= 0x30 ==> config.bytes@[at] == 0),
{
    let header = Seq::new(256, |i: int| identity_byte(identity, i));
    let caps = capabilities;
    let patched = patched_bytes(header, config_bytes);
    let barred = with_bars(patched, bars);
    let listed = with_capability_list(barred, caps);
    let command = Seq::new(
        256,
        |i: int|
            if i == 4 {
                0x06u8
            } else if i == 5 {
                0x04u8
            } else {
                0
            },
    );
    lemma_patched(header, config_bytes, at);
    lemma_patched(command, config_bytes, at);
    lemma_bar_bytes(patched, bars, at);
    lemma_bar_bytes(patched, bars, 6);
    lemma_capability_bytes(listed, caps, caps.len(), at);
    lemma_capability_masks(patched_masks(command, config_bytes), caps, caps.len(), at);
}

/// Capabilities stand in the order of their declaration, from 0x40 on, each at the first multiple of
/// four behind the one before it; so they do not overlap.
pub proof fn law_capabilities_follow_one_another(
    capabilities: Vec<PciCapabilitySpec>,
    layouts: Vec<PciCapabilityLayout>,
)
    requires
        forall|i: int|
            #![trigger capabilities@[i]]
            0 <= i < capabilities@.len() ==> capabilities@[i].wf(),
        call_ensures(place_capabilities, (capabilities,), Ok(layouts)),
    ensures
        layouts@.len() == capabilities@.len(),
        layouts@.len() > 0 ==> layouts@[0].offset == 0x40,
        forall|i: int|
            #![trigger layouts@[i]]
            0 <= i < layouts@.len() ==> {
                &&& layouts@[i].spec == capabilities@[i]
                &&& layouts@[i].offset % 4 == 0
                &&& layouts@[i].offset + 2 + capabilities@[i].body@.len() <= 256
            },
        forall|i: int|
            #![trigger layouts@[i]]
            0 < i < layouts@.len() ==> {
                let end = layouts@[i - 1].offset + 2 + capabilities@[i - 1].body@.len();
                end <= layouts@[i].offset < end + 4
            },
        are_separate(layouts@),
{
    assert forall|i: int| #![trigger layouts@[i]] 0 <= i < layouts@.len() implies layouts@[i].offset
        % 4 == 0 && layouts@[i].offset + 2 + capabilities@[i].body@.len() <= 256 by {
        assert(layouts@[i].wf());
    }
    assert forall|i: int| #![trigger layouts@[i]] 0 < i < layouts@.len() implies {
        let end = layouts@[i - 1].offset + 2 + capabilities@[i - 1].body@.len();
        end <= layouts@[i].offset < end + 4
    } by {
        assert(layouts@[i - 1].wf());
    }
    assert forall|i: int, j: int|
        #![trigger layouts@[i], layouts@[j]]
        0 <= i < j < layouts@.len() implies layouts@[i].offset + 2 + layouts@[i].spec.body@.len()
        <= layouts@[j].offset by {
        lemma_separate(layouts@, i, j);
    }
}

/// Neighbours that do not overlap make a row that does not.
pub proof fn lemma_separate(layouts: Seq<PciCapabilityLayout>, i: int, j: int)
    requires
        0 <= i < j < layouts.len(),
        forall|k: int|
            #![trigger layouts[k]]
            0 < k < layouts.len() ==> layouts[k - 1].offset + 2 + layouts[k - 1].spec.body@.len()
                <= layouts[k].offset,
    ensures
        layouts[i].offset + 2 + layouts[i].spec.body@.len() <= layouts[j].offset,
    decreases j - i,
{
    assert(layouts[j - 1].offset + 2 + layouts[j - 1].spec.body@.len() <= layouts[j].offset);
    if i < j - 1 {
        lemma_separate(layouts, i, j - 1);
    }
}

} // verus!
