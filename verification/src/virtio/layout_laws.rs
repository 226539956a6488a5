//! Where the rings of a queue lie, and how a VirtIO PCI function describes its registers.

#[allow(unused_imports)]
use crate::access::{AccessWidth, DeviceResult};
#[allow(unused_imports)]
use crate::bytes::{law_byte_lanes, law_bytes_are_little_endian, le_bytes};
#[allow(unused_imports)]
use crate::pci::capability::{PciCapabilitySpec, PciConfigEffectId};
#[allow(unused_imports)]
use crate::virtio::mmio_registers::is_power;
#[allow(unused_imports)]
use crate::virtio::pci_capabilities::{
    decode_pci_cfg_bytes, virtio_capabilities, VirtioPciCapabilitySet,
};
#[allow(unused_imports)]
use crate::virtio::queue::{
    is_probing, says_write, valid_queue_size, GuestMemory, QueueLayout, VirtioError, VirtioQueue,
    VirtioResult,
};
use std::sync::Arc;
use vstd::prelude::*;

verus! {

/// The ends of the three rings that have to be in memory: a descriptor takes 16 bytes; the driver's
/// ring has two words, a word for each entry and a word behind them; the device's ring has two words,
/// eight bytes for each entry and a word behind them. A layout without an address or a size, or one
/// that leaves the address space, has none.
pub proof fn law_ring_ends(layout: QueueLayout, probes: Option<Vec<u64>>)
    requires
        call_ensures(QueueLayout::layout_probes, (&layout,), probes),
    ensures
        ({
            let size = layout.size as int;
            let table = layout.desc_table_addr as int;
            let driver = layout.avail_ring_addr as int;
            let device = layout.used_ring_addr as int;
            let fits = table != 0 && driver != 0 && device != 0 && size != 0 && table + 16 * size
                <= 0x1_0000_0000_0000_0000 && driver + 4 + 2 * size + 2 <= 0x1_0000_0000_0000_0000
                && device + 4 + 8 * size + 2 <= 0x1_0000_0000_0000_0000;
            &&& fits <==> probes is Some
            &&& probes matches Some(at) ==> at@.len() == 6 && at@[0] == table && at@[1] == table + 16
                * size - 1 && at@[2] == driver && at@[3] == driver + 4 + 2 * size + 2 - 1 && at@[4]
                == device && at@[5] == device + 4 + 8 * size + 2 - 1
        }),
{
}

/// A layout is valid only if guest memory answers at both ends of every ring; one that does not fit
/// the address space is refused without asking.
pub proof fn law_valid_layout_was_probed<T, M: GuestMemory>(
    queue: VirtioQueue<T>,
    memory: &mut M,
    result: VirtioResult<()>,
    probes: Option<Vec<u64>>,
)
    requires
        call_ensures(
            VirtioQueue::<T>::validate_layout_with_memory::<M>,
            (&queue, memory),
            result,
        ),
        call_ensures(QueueLayout::layout_probes, (&queue.layout,), probes),
    ensures
        probes is None ==> result == Err::<(), _>(VirtioError::InvalidQueueLayout)
            && *final(memory) == *old(memory),
        probes is Some ==> exists|calls: Seq<&mut M>|
            {
                &&& #[trigger] is_probing(calls, probes->0@, result)
                &&& result is Ok ==> calls.len() == 6
                &&& calls.len() > 0
                &&& *calls[0] == *old(memory)
            },
{
    if probes is Some {
        let (calls, states) = choose|calls: Seq<&mut M>, states: Seq<M>|
            {
                &&& #[trigger] crate::calls::is_chain(calls, states)
                &&& states.first() == *old(memory)
                &&& states.last() == *final(memory)
                &&& forall|i: int|
                    0 <= i < calls.len() ==> *final(#[trigger] calls[i]) == states[i + 1]
                &&& is_probing(calls, queue.layout.probes(), result)
            };
        assert(is_probing(calls, probes->0@, result));
        assert(*calls[0] == states[0]);
    }
}

/// Rearming writes the position up to which buffers were taken, little-endian, into the word behind
/// the entries of the device's ring; without event index suppression there is nothing to write.
pub proof fn law_rearming_writes_the_position<T, M: GuestMemory>(
    queue: VirtioQueue<T>,
    memory: &mut M,
    result: VirtioResult<bool>,
    probes: Option<Vec<u64>>,
)
    requires
        call_ensures(
            VirtioQueue::<T>::rearm_available_event_with_memory::<M>,
            (&queue, memory),
            result,
        ),
        call_ensures(QueueLayout::layout_probes, (&queue.layout,), probes),
    ensures
        !queue.layout.event_idx_enabled ==> result == Ok::<_, VirtioError>(false)
            && *final(memory) == *old(memory),
        queue.layout.event_idx_enabled && probes is None ==> result is Err && *final(memory) == *old(
            memory),
        queue.layout.event_idx_enabled && probes is Some ==> exists|
            call: &mut M,
            bytes: Vec<u8>,
            said: VirtioResult<()>,
        |
            {
                &&& #[trigger] call_ensures(
                    M::write,
                    (
                        call,
                        (queue.layout.used_ring_addr + 4 + 8 * queue.layout.size) as u64,
                        bytes,
                    ),
                    said,
                )
                &&& *call == *old(memory) && *final(call) == *final(memory)
                &&& bytes@.len() == 2
                &&& bytes@[0] + 0x100 * bytes@[1] == queue.last_avail_idx
                &&& said is Ok ==> result == Ok::<_, VirtioError>(true)
                &&& said matches Err(error) ==> result == Err::<bool, _>(error)
            },
{
    if queue.layout.event_idx_enabled && probes is Some {
        let call = choose|call: &mut M|
            {
                &&& #[trigger] queue.is_rearming(call, result)
                &&& *call == *old(memory)
                &&& *final(call) == *final(memory)
            };
        let said = choose|said: VirtioResult<()>|
            {
                &&& #[trigger] says_write(
                    call,
                    queue.layout.available_event_addr(),
                    queue.rearm_bytes(),
                    said,
                )
                &&& result == (match said {
                    Ok(_) => Ok::<bool, VirtioError>(true),
                    Err(error) => Err(error),
                })
            };
        assert(says_write(
            call,
            queue.layout.available_event_addr(),
            queue.rearm_bytes(),
            said,
        ));
        assert(queue.layout.available_event_addr() == (queue.layout.used_ring_addr + 4 + 8
            * queue.layout.size) as u64);
    }
}

/// A queue starts with its largest size, nothing programmed, and nothing taken.
pub proof fn law_queue_starts_blank<T>(
    index: u16,
    max_size: u16,
    accessor: Arc<T>,
    queue: VirtioQueue<T>,
)
    requires
        call_ensures(VirtioQueue::<T>::new, (index, max_size, accessor), queue),
    ensures
        queue.index == index && queue.max_size == max_size && queue.accessor == accessor,
        queue.layout.size == max_size && !queue.layout.ready,
        queue.layout.desc_table_addr == 0 && queue.layout.avail_ring_addr == 0
            && queue.layout.used_ring_addr == 0,
        !queue.layout.event_idx_enabled && queue.last_avail_idx == 0,
        !queue.faulted && !queue.layout_rejected,
{
}

/// A reset makes a queue what it was when it was created.
pub proof fn law_reset_queue_is_new<T>(queue: &mut VirtioQueue<T>, fresh: VirtioQueue<T>)
    requires
        call_ensures(VirtioQueue::<T>::reset, (queue,), ()),
        call_ensures(
            VirtioQueue::<T>::new,
            (old(queue).index, old(queue).max_size, old(queue).accessor),
            fresh,
        ),
    ensures
        *final(queue) == fresh,
{
}

/// A queue takes a size that is a power of two and at most its largest; it refuses others and keeps
/// what it has.
pub proof fn law_queue_takes_powers_of_two<T>(
    queue: &mut VirtioQueue<T>,
    size: u16,
    result: VirtioResult<()>,
    valid: bool,
)
    requires
        call_ensures(VirtioQueue::<T>::set_size, (queue, size), result),
        call_ensures(valid_queue_size, (size,), valid),
    ensures
        valid <==> is_power(size as int),
        result is Ok <==> is_power(size as int) && size <= old(queue).max_size,
        result is Ok ==> *final(queue) == (VirtioQueue {
            layout: QueueLayout { size, ..old(queue).layout },
            ..*old(queue)
        }),
        result is Err ==> *final(queue) == *old(queue),
{
}

/// Whether a capability body describes a region of BAR 0: its length, its kind, the BAR, and the
/// offset and the length of the region.
pub open spec fn describes(body: Seq<u8>, length: int, kind: int, offset: int, size: int) -> bool {
    &&& body.len() == length - 2
    &&& body[0] == length
    &&& body[1] == kind
    &&& body[2] == 0 && body[3] == 0 && body[4] == 0 && body[5] == 0
    &&& body[6] + 0x100 * body[7] + 0x1_0000 * body[8] + 0x100_0000 * body[9] == offset
    &&& body[10] + 0x100 * body[11] + 0x1_0000 * body[12] + 0x100_0000 * body[13] == size
}

/// Four bytes of a value, weighed.
proof fn lemma_dword_bytes(value: u32)
    ensures
        le_bytes(value as nat, 4).len() == 4,
        le_bytes(value as nat, 4)[0] + 0x100 * le_bytes(value as nat, 4)[1] + 0x1_0000 * le_bytes(
            value as nat,
            4,
        )[2] + 0x100_0000 * le_bytes(value as nat, 4)[3] == value,
{
    law_byte_lanes(value as nat);
}

/// A VirtIO function has five vendor capabilities: the common configuration at offset 0, the
/// notifications at 0x100 with a multiplier of four, the interrupt status at 0x200, the device's own
/// configuration at 0x300, and a window onto the BAR whose place a guest can choose and whose data
/// register the function answers itself. The first four cannot be written.
pub proof fn law_virtio_capabilities(
    set: VirtioPciCapabilitySet,
    specs: Vec<PciCapabilitySpec>,
    index: int,
    at: int,
)
    requires
        call_ensures(virtio_capabilities, (&set,), Ok(specs)),
    ensures
        specs@.len() == 5,
        0 <= index < 5 ==> specs@[index].id.0 == 9,
        describes(specs@[0].body@, 16, 1, 0, 0x38),
        describes(specs@[1].body@, 20, 2, 0x100, 4),
        specs@[1].body@[14] == 4 && specs@[1].body@[15] == 0 && specs@[1].body@[16] == 0
            && specs@[1].body@[17] == 0,
        describes(specs@[2].body@, 16, 3, 0x200, 1),
        describes(specs@[3].body@, 16, 4, 0x300, set.device_config_length as int),
        describes(specs@[4].body@, 20, 5, 0, 0),
        0 <= index < 4 && 0 <= at < specs@[index].body@.len() ==> specs@[index].write_mask@[at]
            == 0,
        0 <= index < 4 ==> specs@[index].effects@.len() == 0,
        0 <= at < 18 ==> specs@[4].write_mask@[at] == (if at == 2 || 6 <= at < 14 {
            0xffu8
        } else {
            0
        }),
        specs@[4].effects@.len() == 1,
        specs@[4].effects@[0].effect.0 == 1 && specs@[4].effects@[0].offset == 16
            && specs@[4].effects@[0].length == 4
            && specs@[4].effects@[0].access is ReadWrite,
{
    lemma_dword_bytes(0);
    lemma_dword_bytes(4);
    lemma_dword_bytes(1);
    lemma_dword_bytes(0x38);
    lemma_dword_bytes(0x100);
    lemma_dword_bytes(0x200);
    lemma_dword_bytes(0x300);
    lemma_dword_bytes(set.device_config_length);
    law_byte_lanes(4);
}

/// The window leads an access to its data register into the BAR where the guest has pointed it: the
/// BAR is 0, the length is that of the access, and the place, with the distance from the start of the
/// data register, ends inside the 0x1000 bytes of the BAR. Otherwise it leads nowhere.
pub proof fn law_window_leads_into_the_bar(
    effect: PciConfigEffectId,
    offset: u8,
    width: AccessWidth,
    body: &[u8],
    target: DeviceResult<u64>,
)
    requires
        body@.len() >= 14,
        call_ensures(decode_pci_cfg_bytes, (effect, offset, width, body), target),
    ensures
        ({
            let size = match width {
                AccessWidth::Byte => 1int,
                AccessWidth::Word => 2,
                AccessWidth::Dword => 4,
                AccessWidth::Qword => 8,
            };
            let place = body@[6] + 0x100 * body@[7] + 0x1_0000 * body@[8] + 0x100_0000 * body@[9];
            let length = body@[10] + 0x100 * body@[11] + 0x1_0000 * body@[12] + 0x100_0000
                * body@[13];
            let leads = effect.0 == 1 && 16 <= offset && offset + size <= 20 && body@[2] == 0
                && length == size && place + (offset - 16) + size <= 0x1000;
            &&& target is Ok <==> leads
            &&& target matches Ok(at) ==> at == place + (offset - 16)
        }),
{
    law_bytes_are_little_endian(body@.subrange(6, 10));
    law_bytes_are_little_endian(body@.subrange(10, 14));
}

} // verus!
