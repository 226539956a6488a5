//! What the VirtIO MMIO transport keeps across register accesses.

#[allow(unused_imports)]
use crate::access::AccessWidth;
#[allow(unused_imports)]
use crate::virtio::mmio::{
    half_of, is_mmio_write, with_event_idx, with_half, InterruptState, MmioModel, MmioWriteAction,
    HALF, VIRTIO_MMIO_DRIVER_FEATURES, VIRTIO_MMIO_INTERRUPT_ACK, VIRTIO_MMIO_INTERRUPT_STATUS,
    VIRTIO_MMIO_QUEUE_AVAIL_LOW, VIRTIO_MMIO_QUEUE_DESC_LOW, VIRTIO_MMIO_QUEUE_NOTIFY,
    VIRTIO_MMIO_QUEUE_USED_LOW, VIRTIO_MMIO_STATUS,
};
use crate::virtio::queue::{VirtioError, VIRTIO_STATUS_FAILED, VIRTIO_STATUS_FEATURES_OK};
#[allow(unused_imports)]
use vstd::prelude::*;

verus! {

/// Once negotiation is complete no register write changes the driver's features or opens the
/// negotiation again, and every nonzero status keeps `FEATURES_OK`.
pub proof fn law_sealed_features_are_final<T>(state: MmioModel<T>, register: u64, value: u32)
    requires
        state.features_sealed,
    ensures
        state.written(register, value).features_sealed,
        state.written(register, value).driver_features == state.driver_features,
        register == VIRTIO_MMIO_STATUS && value != 0 ==> state.written(register, value).status
            & VIRTIO_STATUS_FEATURES_OK != 0,
{
    assert((value | 8) & 8 != 0) by (bit_vector);
}

/// A driver that asks for a feature which the device does not offer ends with `FAILED` and
/// without `FEATURES_OK`, and may negotiate again.
pub proof fn law_unsupported_features_fail<T>(state: MmioModel<T>, value: u32)
    requires
        !state.features_sealed,
        !state.features_supported(),
        value & VIRTIO_STATUS_FEATURES_OK != 0,
    ensures
        state.status_written(value).status & VIRTIO_STATUS_FEATURES_OK == 0,
        state.status_written(value).status & VIRTIO_STATUS_FAILED != 0,
        !state.status_written(value).features_sealed,
        state.status_written(value).queues == state.queues,
{
    assert(((value & !8) | 128) & 8 == 0 && ((value & !8) | 128) & 128 != 0) by (bit_vector);
}

/// What is written through a window of a 64-bit word is read back from it, and the other half
/// stays as it was.
pub proof fn law_half_reads_back(word: u64, selector: u32, half: u32)
    requires
        selector < 2,
    ensures
        half_of(with_half(word, selector, half), selector) == half,
        half_of(with_half(word, selector, half), (1 - selector) as u32) == half_of(
            word,
            (1 - selector) as u32,
        ),
{
    assert(word / HALF < HALF);
    assert((word / HALF * HALF + half) % 0x1_0000_0000 == half);
    assert((word / HALF * HALF + half) / 0x1_0000_0000 == word / HALF);
    assert((half * HALF + word % HALF) % 0x1_0000_0000 == word % HALF);
    assert((half * HALF + word % HALF) / 0x1_0000_0000 == half);
}

/// Before negotiation is complete the driver reads back the features that it wrote.
pub proof fn law_driver_features_read_back<T>(state: MmioModel<T>, value: u32)
    requires
        !state.features_sealed,
        state.driver_features_sel < 2,
    ensures
        state.written(VIRTIO_MMIO_DRIVER_FEATURES, value).register(VIRTIO_MMIO_DRIVER_FEATURES)
            == Some(value),
{
    law_half_reads_back(state.driver_features, state.driver_features_sel, value);
}

/// The two halves of a queue address are independent of each other: in either order, writing
/// both gives the address that they make up.
pub proof fn law_address_halves_are_independent<T>(
    state: MmioModel<T>,
    low_register: u64,
    low: u32,
    high: u32,
)
    requires
        state.wf(),
        state.configurable(state.queue_sel as int),
        low_register == VIRTIO_MMIO_QUEUE_DESC_LOW || low_register == VIRTIO_MMIO_QUEUE_AVAIL_LOW
            || low_register == VIRTIO_MMIO_QUEUE_USED_LOW,
    ensures
        ({
            let high_register = (low_register + 4) as u64;
            let index = state.queue_sel as int;
            let address = (high * HALF + low) as u64;
            let low_first = state.address_written(low_register, low).address_written(
                high_register,
                high,
            );
            let high_first = state.address_written(high_register, high).address_written(
                low_register,
                low,
            );
            let layout = low_first.queues[index].layout;
            &&& low_first =~= high_first
            &&& low_register == VIRTIO_MMIO_QUEUE_DESC_LOW ==> layout.desc_table_addr == address
            &&& low_register == VIRTIO_MMIO_QUEUE_AVAIL_LOW ==> layout.avail_ring_addr == address
            &&& low_register == VIRTIO_MMIO_QUEUE_USED_LOW ==> layout.used_ring_addr == address
        }),
{
    let high_register = (low_register + 4) as u64;
    let index = state.queue_sel as int;
    let layout = state.queues[index].layout;
    let word = if low_register == VIRTIO_MMIO_QUEUE_DESC_LOW {
        layout.desc_table_addr
    } else if low_register == VIRTIO_MMIO_QUEUE_AVAIL_LOW {
        layout.avail_ring_addr
    } else {
        layout.used_ring_addr
    };
    assert(word / HALF < HALF);
    assert(with_half(with_half(word, 0, low), 1, high) == (high * HALF + low) as u64) by {
        assert((word / HALF * HALF + low) % 0x1_0000_0000 == low);
    }
    assert(with_half(with_half(word, 1, high), 0, low) == (high * HALF + low) as u64) by {
        assert((high * HALF + word % HALF) / 0x1_0000_0000 == high);
    }
    let low_first = state.address_written(low_register, low).address_written(high_register, high);
    let high_first = state.address_written(high_register, high).address_written(low_register, low);
    assert(low_first.queues =~= high_first.queues);
}

/// An acknowledgement clears exactly the named bits that were not raised again since the driver
/// read the status; a bit that was raised again stays pending and is signalled again.
pub proof fn law_acknowledgement_keeps_new_interrupts<T>(state: MmioModel<T>, value: u32)
    ensures
        ({
            let raised = state.raised_again(value);
            let pending = state.written(VIRTIO_MMIO_INTERRUPT_ACK, value).interrupt.pending;
            &&& pending & (value & !raised) == 0
            &&& pending & !value == state.interrupt.pending & !value
            &&& pending & raised == state.interrupt.pending & raised
            &&& raised != 0 <==> state.write_action(VIRTIO_MMIO_INTERRUPT_ACK, value) == Ok::<
                _,
                VirtioError,
            >(MmioWriteAction::InterruptPending)
        }),
{
    let before = state.interrupt.pending;
    let seen = state.interrupt.raised_after_read;
    assert((before & !(value & !(seen & value))) & (value & !(seen & value)) == 0) by (bit_vector);
    assert((before & !(value & !(seen & value))) & !value == before & !value) by (bit_vector);
    assert((before & !(value & !(seen & value))) & (seen & value) == before & (seen & value))
        by (bit_vector);
}

/// A driver that reads the status and acknowledges what it read leaves nothing pending and
/// nothing to be signalled again.
pub proof fn law_read_and_acknowledge_clears<T>(state: MmioModel<T>)
    ensures
        ({
            let value = state.interrupt.pending;
            let seen = state.after_read(VIRTIO_MMIO_INTERRUPT_STATUS);
            &&& state.register(VIRTIO_MMIO_INTERRUPT_STATUS) == Some(value)
            &&& seen.written(VIRTIO_MMIO_INTERRUPT_ACK, value).interrupt == (InterruptState {
                pending: 0,
                raised_after_read: 0,
            })
            &&& seen.write_action(VIRTIO_MMIO_INTERRUPT_ACK, value) == Ok::<_, VirtioError>(
                MmioWriteAction::Nothing,
            )
        }),
{
    let value = state.interrupt.pending;
    assert(0 & value == 0 && value & !(value & !(0 & value)) == 0) by (bit_vector);
}

/// A reset clears the negotiation, the selectors, the interrupt bits, the status and every
/// queue, keeps the device's identity, and starts a lifetime for which no earlier notification
/// is valid.
pub proof fn law_reset_starts_over<T>(state: MmioModel<T>, index: int)
    requires
        state.wf(),
        state.activity.may_reset(),
        0 <= index < state.queues.len(),
    ensures
        ({
            let after = state.reset_begun().reset_completed();
            &&& after.wf()
            &&& after.status == 0 && !after.features_sealed && after.driver_features == 0
            &&& after.interrupt == (InterruptState { pending: 0, raised_after_read: 0 })
            &&& after.queues[index] == state.queues[index].as_reset()
            &&& after.device_id == state.device_id && after.vendor_id == state.vendor_id
            &&& after.device_features == state.device_features
            &&& after.activity.accepting && after.activity.active == 0
            &&& !after.lends(index, state.activity.generation)
        }),
{
    assert(0u32 & 4 == 0) by (bit_vector);
}

/// While a reset is going on or has failed, no queue can be taken, no notification goes through
/// and no enable request is looked at.
pub proof fn law_reset_closes_the_barrier<T>(
    state: MmioModel<T>,
    index: int,
    generation: u64,
    value: u32,
)
    requires
        !state.activity.resetting,
    ensures
        !state.reset_begun().lends(index, generation),
        !state.reset_begun().takes_ready(index),
        state.reset_begun().write_action(VIRTIO_MMIO_QUEUE_NOTIFY, value) == Ok::<_, VirtioError>(
            MmioWriteAction::Nothing,
        ),
{
}

/// A queue that is with an operation is not changed by any register write, but for the event
/// index that a completed negotiation switches.
pub proof fn law_lent_queue_is_frozen<T>(
    before: MmioModel<T>,
    address: u64,
    width: AccessWidth,
    value: u64,
    layout_ok: bool,
    after: MmioModel<T>,
    action: Result<MmioWriteAction, VirtioError>,
    index: int,
)
    requires
        before.wf(),
        0 <= index < before.queues.len(),
        before.processing[index],
        is_mmio_write(before, address, width, value, layout_ok, after, action),
    ensures
        after.processing == before.processing,
        address - before.base_ipa != VIRTIO_MMIO_STATUS ==> after.queues[index]
            == before.queues[index],
        after.queues[index] == before.queues[index] || exists|enabled: bool|
            after.queues[index] == #[trigger] with_event_idx(before.queues[index], enabled),
{
}

/// Taking a queue and giving it back unchanged leaves the transport as it was.
pub proof fn law_restore_undoes_take<T>(state: MmioModel<T>, index: int, generation: u64)
    requires
        state.wf(),
        state.lends(index, generation),
    ensures
        state.lent(index).restored(index, state.queues[index]).released() =~= state,
{
    assert(state.queues.update(index, state.queues[index]) =~= state.queues);
    assert(state.processing.update(index, true).update(index, false) =~= state.processing);
}

/// A queue that was taken is not taken a second time, and holds up a reset until it is given
/// back.
pub proof fn law_taken_queue_is_exclusive<T>(
    state: MmioModel<T>,
    index: int,
    generation: u64,
    other: u64,
)
    requires
        state.wf(),
        state.lends(index, generation),
    ensures
        !state.lent(index).lends(index, other),
        !state.lent(index).activity.may_reset(),
        state.activity.may_reset() ==> state.lent(index).reset_begun().restored(
            index,
            state.queues[index],
        ).released().activity.may_reset(),
{
}

} // verus!
