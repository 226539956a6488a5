//! What each register of the VirtIO MMIO transport does, access by access.

#[allow(unused_imports)]
use crate::access::AccessWidth;
#[allow(unused_imports)]
use crate::virtio::mmio::{
    InterruptState, MmioModel, MmioQueueLease, MmioReadOutcome, MmioWriteAction,
    QueueReadyValidationSnapshot, VirtioMmioState,
};
#[allow(unused_imports)]
use crate::virtio::queue::{
    GuestMemory, GuestMemoryAccessor, QueueLayout, VirtioError, VirtioQueue, VirtioQueueGeneration,
    VirtioResult,
};
use vstd::prelude::*;

verus! {

/// Whether `address` is that of the register at `offset`.
pub open spec fn is_register<T>(state: MmioModel<T>, address: u64, offset: int) -> bool {
    address == state.base_ipa + offset && offset < state.length
}

/// The low doubleword of a value.
pub open spec fn low_dword(value: u64) -> u32 {
    (value % 0x1_0000_0000) as u32
}

/// The 32 bits of a feature word that a selector shows: the low ones, the high ones, or none.
pub open spec fn window(word: u64, selector: u32) -> int {
    if selector == 0 {
        word as int % 0x1_0000_0000
    } else if selector == 1 {
        word as int / 0x1_0000_0000
    } else {
        0
    }
}

/// Where each register is and what a doubleword read of it gives.
pub proof fn law_register_map<T>(
    state: &mut VirtioMmioState<T>,
    address: u64,
    offset: int,
    outcome: VirtioResult<MmioReadOutcome>,
)
    requires
        0 <= offset < 0x100,
        is_register(old(state)@, address, offset),
        call_ensures(
            VirtioMmioState::<T>::mmio_read,
            (state, address, AccessWidth::Dword),
            outcome,
        ),
    ensures
        ({
            let model = old(state)@;
            let selected = model.queue_sel as int;
            let known = selected < model.queues.len();
            let value = (outcome->Ok_0)->Standard_0;
            let is_value = outcome is Ok && outcome->Ok_0 is Standard;
            &&& offset == 0x000 ==> is_value && value == 0x7472_6976
            &&& offset == 0x004 ==> is_value && value == 2
            &&& offset == 0x008 ==> is_value && value == model.device_id
            &&& offset == 0x00c ==> is_value && value == model.vendor_id
            &&& offset == 0x010 ==> is_value && value == window(
                model.device_features,
                model.device_features_sel,
            )
            &&& offset == 0x014 ==> is_value && value == model.device_features_sel
            &&& offset == 0x020 ==> is_value && value == window(
                model.driver_features,
                model.driver_features_sel,
            )
            &&& offset == 0x024 ==> is_value && value == model.driver_features_sel
            &&& offset == 0x030 ==> is_value && value == model.queue_sel
            &&& offset == 0x034 ==> is_value && value == 256
            &&& offset == 0x038 && known ==> is_value && value == model.queues[selected].layout.size
            &&& offset == 0x038 && !known ==> is_value && value == 0
            &&& offset == 0x044 && known ==> is_value && (value == 1
                <==> model.queues[selected].layout.ready) && value <= 1
            &&& offset == 0x044 && !known ==> is_value && value == 0
            &&& offset == 0x060 ==> is_value && value == model.interrupt.pending
            &&& offset == 0x070 ==> is_value && value == model.status
            &&& offset == 0x0fc ==> is_value && value == model.config_generation
            &&& !(offset == 0x000 || offset == 0x004 || offset == 0x008 || offset == 0x00c || offset
                == 0x010 || offset == 0x014 || offset == 0x020 || offset == 0x024 || offset == 0x030
                || offset == 0x034 || offset == 0x038 || offset == 0x044 || offset == 0x060
                || offset == 0x070 || offset == 0x0fc) ==> outcome == Err::<MmioReadOutcome, _>(
                VirtioError::InvalidRegister,
            )
        }),
        offset == 0x060 ==> final(state)@ == (MmioModel {
            interrupt: InterruptState {
                pending: old(state)@.interrupt.pending,
                raised_after_read: 0,
            },
            ..old(state)@
        }),
        offset != 0x060 ==> final(state)@ == old(state)@,
{
}

/// Reads that meet no standard register: outside the block they give zero, in the device's own part
/// they are handed on with their distance from its start, and elsewhere only doublewords are read.
pub proof fn law_reads_beside_the_registers<T>(
    state: &mut VirtioMmioState<T>,
    address: u64,
    width: AccessWidth,
    outcome: VirtioResult<MmioReadOutcome>,
)
    requires
        call_ensures(VirtioMmioState::<T>::mmio_read, (state, address, width), outcome),
    ensures
        ({
            let base = old(state)@.base_ipa;
            let inside = base <= address && address < base + old(state)@.length;
            &&& !inside ==> outcome == Ok::<_, VirtioError>(MmioReadOutcome::Standard(0))
            &&& inside && address >= base + 0x100 ==> outcome == Ok::<_, VirtioError>(
                MmioReadOutcome::DeviceConfig { offset: (address - base - 0x100) as u64, width },
            )
            &&& inside && address < base + 0x100 && !(width is Dword) ==> outcome == Err::<
                MmioReadOutcome,
                _,
            >(VirtioError::InvalidAccessWidth)
            &&& !inside || address >= base + 0x100 || !(width is Dword) ==> final(state)@ == old(state)@
        }),
{
}

/// Writes that meet no register change nothing: outside the block they are ignored, at the registers
/// only doublewords are taken, and what cannot be written says so.
pub proof fn law_writes_beside_the_registers<T: GuestMemoryAccessor>(
    state: &mut VirtioMmioState<T>,
    address: u64,
    width: AccessWidth,
    value: u64,
    action: VirtioResult<MmioWriteAction>,
)
    requires
        old(state)@.wf(),
        call_ensures(VirtioMmioState::<T>::mmio_write, (state, address, width, value), action),
    ensures
        ({
            let base = old(state)@.base_ipa;
            let inside = base <= address && address < base + old(state)@.length;
            let offset = address - base;
            let writable = offset == 0x014 || offset == 0x020 || offset == 0x024 || offset == 0x030
                || offset == 0x038 || offset == 0x044 || offset == 0x050 || offset == 0x064
                || offset == 0x070 || offset == 0x080 || offset == 0x084 || offset == 0x090
                || offset == 0x094 || offset == 0x0a0 || offset == 0x0a4;
            &&& !inside ==> action == Ok::<_, VirtioError>(MmioWriteAction::Nothing)
            &&& inside && offset < 0x100 && !(width is Dword) ==> action == Err::<
                MmioWriteAction,
                _,
            >(VirtioError::InvalidAccessWidth)
            &&& inside && !writable && (width is Dword || offset >= 0x100) ==> action == Err::<
                MmioWriteAction,
                _,
            >(VirtioError::InvalidRegister)
            &&& !inside || !(width is Dword) || !writable ==> final(state)@ == old(state)@
        }),
{
}

/// A write through a memory capability does what a write through the queues' own accessor does, at
/// every register but the one that enables a queue; it does not touch the memory there.
pub proof fn law_both_writes_agree<T: GuestMemoryAccessor, M: GuestMemory>(
    own: &mut VirtioMmioState<T>,
    lent: &mut VirtioMmioState<T>,
    address: u64,
    width: AccessWidth,
    value: u64,
    memory: &mut M,
    own_action: VirtioResult<MmioWriteAction>,
    lent_action: VirtioResult<MmioWriteAction>,
)
    requires
        old(own)@.wf(),
        *old(own) == *old(lent),
        !is_register(old(own)@, address, 0x044),
        call_ensures(VirtioMmioState::<T>::mmio_write, (own, address, width, value), own_action),
        call_ensures(
            VirtioMmioState::<T>::mmio_write_with_memory::<M>,
            (lent, address, width, value, memory),
            lent_action,
        ),
    ensures
        final(own)@ == final(lent)@,
        own_action == lent_action,
        *final(memory) == *old(memory),
{
}

/// Only the low doubleword of a value counts.
pub proof fn law_only_the_low_dword_counts<T: GuestMemoryAccessor>(
    one: &mut VirtioMmioState<T>,
    other: &mut VirtioMmioState<T>,
    address: u64,
    width: AccessWidth,
    value: u64,
    same: u64,
    one_action: VirtioResult<MmioWriteAction>,
    other_action: VirtioResult<MmioWriteAction>,
)
    requires
        old(one)@.wf(),
        *old(one) == *old(other),
        !is_register(old(one)@, address, 0x044),
        value % 0x1_0000_0000 == same % 0x1_0000_0000,
        call_ensures(VirtioMmioState::<T>::mmio_write, (one, address, width, value), one_action),
        call_ensures(VirtioMmioState::<T>::mmio_write, (other, address, width, same), other_action),
    ensures
        final(one)@ == final(other)@,
        one_action == other_action,
{
}

/// A write to a feature selector selects the window, and changes nothing else.
pub proof fn law_device_feature_selector_selects<T: GuestMemoryAccessor>(
    state: &mut VirtioMmioState<T>,
    address: u64,
    value: u64,
    action: VirtioResult<MmioWriteAction>,
)
    requires
        old(state)@.wf(),
        is_register(old(state)@, address, 0x014),
        call_ensures(
            VirtioMmioState::<T>::mmio_write,
            (state, address, AccessWidth::Dword, value),
            action,
        ),
    ensures
        final(state)@ == (MmioModel { device_features_sel: low_dword(value), ..old(state)@ }),
        action == Ok::<_, VirtioError>(MmioWriteAction::Nothing),
{
}

/// A write to the selector of the driver's features selects the window, and changes nothing else.
pub proof fn law_driver_feature_selector_selects<T: GuestMemoryAccessor>(
    state: &mut VirtioMmioState<T>,
    address: u64,
    value: u64,
    action: VirtioResult<MmioWriteAction>,
)
    requires
        old(state)@.wf(),
        is_register(old(state)@, address, 0x024),
        call_ensures(
            VirtioMmioState::<T>::mmio_write,
            (state, address, AccessWidth::Dword, value),
            action,
        ),
    ensures
        final(state)@ == (MmioModel { driver_features_sel: low_dword(value), ..old(state)@ }),
        action == Ok::<_, VirtioError>(MmioWriteAction::Nothing),
{
}

/// The driver writes its features 32 bits at a time, through the selected window, until they are
/// sealed; the other half and every other register stay.
pub proof fn law_driver_features_are_written_by_window<T: GuestMemoryAccessor>(
    state: &mut VirtioMmioState<T>,
    address: u64,
    value: u64,
    action: VirtioResult<MmioWriteAction>,
)
    requires
        old(state)@.wf(),
        is_register(old(state)@, address, 0x020),
        call_ensures(
            VirtioMmioState::<T>::mmio_write,
            (state, address, AccessWidth::Dword, value),
            action,
        ),
    ensures
        ({
            let before = old(state)@.driver_features as int;
            let after = final(state)@.driver_features as int;
            let selector = old(state)@.driver_features_sel;
            let sealed = old(state)@.features_sealed;
            &&& !sealed && selector == 0 ==> after % 0x1_0000_0000 == low_dword(value) && after
                / 0x1_0000_0000 == before / 0x1_0000_0000
            &&& !sealed && selector == 1 ==> after / 0x1_0000_0000 == low_dword(value) && after
                % 0x1_0000_0000 == before % 0x1_0000_0000
            &&& sealed || selector > 1 ==> after == before
        }),
        final(state)@ == (MmioModel {
            driver_features: final(state)@.driver_features,
            ..old(state)@
        }),
        action == Ok::<_, VirtioError>(MmioWriteAction::Nothing),
{
}

/// A write to the queue selector selects a queue that exists, and changes nothing else.
pub proof fn law_queue_selector_selects<T: GuestMemoryAccessor>(
    state: &mut VirtioMmioState<T>,
    address: u64,
    value: u64,
    action: VirtioResult<MmioWriteAction>,
)
    requires
        old(state)@.wf(),
        is_register(old(state)@, address, 0x030),
        call_ensures(
            VirtioMmioState::<T>::mmio_write,
            (state, address, AccessWidth::Dword, value),
            action,
        ),
    ensures
        ({
            let index = value as int % 0x1_0000;
            &&& index < old(state)@.queues.len() ==> final(state)@.queue_sel == index
            &&& index >= old(state)@.queues.len() ==> final(state)@.queue_sel == old(state)@.queue_sel
        }),
        final(state)@ == (MmioModel { queue_sel: final(state)@.queue_sel, ..old(state)@ }),
        action == Ok::<_, VirtioError>(MmioWriteAction::Nothing),
{
    assert((value % 0x1_0000_0000) % 0x1_0000 == value % 0x1_0000);
}

/// This state with another layout in the selected queue, if there is one that is not with an
/// operation.
pub open spec fn relaid<T>(state: MmioModel<T>, layout: QueueLayout) -> MmioModel<T> {
    let selected = state.queue_sel as int;
    if selected < state.queues.len() && !state.processing[selected] {
        MmioModel {
            queues: state.queues.update(
                selected,
                VirtioQueue { layout, ..state.queues[selected] },
            ),
            ..state
        }
    } else {
        state
    }
}

/// A size that is a power of two and no larger than the queue allows becomes the size of the selected
/// queue; another one changes nothing.
pub proof fn law_queue_size_is_programmed<T: GuestMemoryAccessor>(
    state: &mut VirtioMmioState<T>,
    address: u64,
    value: u64,
    action: VirtioResult<MmioWriteAction>,
)
    requires
        old(state)@.wf(),
        is_register(old(state)@, address, 0x038),
        call_ensures(
            VirtioMmioState::<T>::mmio_write,
            (state, address, AccessWidth::Dword, value),
            action,
        ),
    ensures
        ({
            let size = value as int % 0x1_0000;
            let queue = old(state)@.queues[old(state)@.queue_sel as int];
            &&& is_power(size) && size <= queue.max_size ==> final(state)@ == relaid(
                old(state)@,
                QueueLayout { size: size as u16, ..queue.layout },
            )
            &&& !is_power(size) || size > queue.max_size ==> final(state)@ == old(state)@
        }),
        action == Ok::<_, VirtioError>(MmioWriteAction::Nothing),
{
    assert((value % 0x1_0000_0000) % 0x1_0000 == value % 0x1_0000);
}

/// Whether a size is a power of two that 16 bits hold.
pub open spec fn is_power(size: int) -> bool {
    size == 1 || size == 2 || size == 4 || size == 8 || size == 16 || size == 32 || size == 64 || size
        == 128 || size == 256 || size == 512 || size == 1024 || size == 2048 || size == 4096 || size
        == 8192 || size == 16384 || size == 32768
}

/// The low half of the address of the descriptor table, of the selected queue; the other half, the
/// other addresses and everything else stay.
pub proof fn law_descriptor_table_low_half<T: GuestMemoryAccessor>(
    state: &mut VirtioMmioState<T>,
    address: u64,
    value: u64,
    action: VirtioResult<MmioWriteAction>,
)
    requires
        old(state)@.wf(),
        is_register(old(state)@, address, 0x080),
        call_ensures(
            VirtioMmioState::<T>::mmio_write,
            (state, address, AccessWidth::Dword, value),
            action,
        ),
    ensures
        ({
            let layout = old(state)@.queues[old(state)@.queue_sel as int].layout;
            let before = layout.desc_table_addr as int;
            final(state)@ == relaid(
                old(state)@,
                QueueLayout {
                    desc_table_addr: (before / 0x1_0000_0000 * 0x1_0000_0000 + low_dword(value)) as u64,
                    ..layout
                },
            )
        }),
        action == Ok::<_, VirtioError>(MmioWriteAction::Nothing),
{
}

/// The high half of the address of the descriptor table, of the selected queue; the other half, the
/// other addresses and everything else stay.
pub proof fn law_descriptor_table_high_half<T: GuestMemoryAccessor>(
    state: &mut VirtioMmioState<T>,
    address: u64,
    value: u64,
    action: VirtioResult<MmioWriteAction>,
)
    requires
        old(state)@.wf(),
        is_register(old(state)@, address, 0x084),
        call_ensures(
            VirtioMmioState::<T>::mmio_write,
            (state, address, AccessWidth::Dword, value),
            action,
        ),
    ensures
        ({
            let layout = old(state)@.queues[old(state)@.queue_sel as int].layout;
            let before = layout.desc_table_addr as int;
            final(state)@ == relaid(
                old(state)@,
                QueueLayout {
                    desc_table_addr: (low_dword(value) * 0x1_0000_0000 + before % 0x1_0000_0000) as u64,
                    ..layout
                },
            )
        }),
        action == Ok::<_, VirtioError>(MmioWriteAction::Nothing),
{
}

/// The low half of the address of the ring that the driver fills, of the selected queue; the other half, the
/// other addresses and everything else stay.
pub proof fn law_driver_ring_low_half<T: GuestMemoryAccessor>(
    state: &mut VirtioMmioState<T>,
    address: u64,
    value: u64,
    action: VirtioResult<MmioWriteAction>,
)
    requires
        old(state)@.wf(),
        is_register(old(state)@, address, 0x090),
        call_ensures(
            VirtioMmioState::<T>::mmio_write,
            (state, address, AccessWidth::Dword, value),
            action,
        ),
    ensures
        ({
            let layout = old(state)@.queues[old(state)@.queue_sel as int].layout;
            let before = layout.avail_ring_addr as int;
            final(state)@ == relaid(
                old(state)@,
                QueueLayout {
                    avail_ring_addr: (before / 0x1_0000_0000 * 0x1_0000_0000 + low_dword(value)) as u64,
                    ..layout
                },
            )
        }),
        action == Ok::<_, VirtioError>(MmioWriteAction::Nothing),
{
}

/// The high half of the address of the ring that the driver fills, of the selected queue; the other half, the
/// other addresses and everything else stay.
pub proof fn law_driver_ring_high_half<T: GuestMemoryAccessor>(
    state: &mut VirtioMmioState<T>,
    address: u64,
    value: u64,
    action: VirtioResult<MmioWriteAction>,
)
    requires
        old(state)@.wf(),
        is_register(old(state)@, address, 0x094),
        call_ensures(
            VirtioMmioState::<T>::mmio_write,
            (state, address, AccessWidth::Dword, value),
            action,
        ),
    ensures
        ({
            let layout = old(state)@.queues[old(state)@.queue_sel as int].layout;
            let before = layout.avail_ring_addr as int;
            final(state)@ == relaid(
                old(state)@,
                QueueLayout {
                    avail_ring_addr: (low_dword(value) * 0x1_0000_0000 + before % 0x1_0000_0000) as u64,
                    ..layout
                },
            )
        }),
        action == Ok::<_, VirtioError>(MmioWriteAction::Nothing),
{
}

/// The low half of the address of the ring that the device fills, of the selected queue; the other half, the
/// other addresses and everything else stay.
pub proof fn law_device_ring_low_half<T: GuestMemoryAccessor>(
    state: &mut VirtioMmioState<T>,
    address: u64,
    value: u64,
    action: VirtioResult<MmioWriteAction>,
)
    requires
        old(state)@.wf(),
        is_register(old(state)@, address, 0x0a0),
        call_ensures(
            VirtioMmioState::<T>::mmio_write,
            (state, address, AccessWidth::Dword, value),
            action,
        ),
    ensures
        ({
            let layout = old(state)@.queues[old(state)@.queue_sel as int].layout;
            let before = layout.used_ring_addr as int;
            final(state)@ == relaid(
                old(state)@,
                QueueLayout {
                    used_ring_addr: (before / 0x1_0000_0000 * 0x1_0000_0000 + low_dword(value)) as u64,
                    ..layout
                },
            )
        }),
        action == Ok::<_, VirtioError>(MmioWriteAction::Nothing),
{
}

/// The high half of the address of the ring that the device fills, of the selected queue; the other half, the
/// other addresses and everything else stay.
pub proof fn law_device_ring_high_half<T: GuestMemoryAccessor>(
    state: &mut VirtioMmioState<T>,
    address: u64,
    value: u64,
    action: VirtioResult<MmioWriteAction>,
)
    requires
        old(state)@.wf(),
        is_register(old(state)@, address, 0x0a4),
        call_ensures(
            VirtioMmioState::<T>::mmio_write,
            (state, address, AccessWidth::Dword, value),
            action,
        ),
    ensures
        ({
            let layout = old(state)@.queues[old(state)@.queue_sel as int].layout;
            let before = layout.used_ring_addr as int;
            final(state)@ == relaid(
                old(state)@,
                QueueLayout {
                    used_ring_addr: (low_dword(value) * 0x1_0000_0000 + before % 0x1_0000_0000) as u64,
                    ..layout
                },
            )
        }),
        action == Ok::<_, VirtioError>(MmioWriteAction::Nothing),
{
}

/// A notification names its queue to a device whose driver is ready and which is not being reset, with
/// the lifetime of the configuration; it changes no register.
pub proof fn law_notification_names_its_queue<T: GuestMemoryAccessor>(
    state: &mut VirtioMmioState<T>,
    address: u64,
    value: u64,
    action: VirtioResult<MmioWriteAction>,
)
    requires
        old(state)@.wf(),
        is_register(old(state)@, address, 0x050),
        call_ensures(
            VirtioMmioState::<T>::mmio_write,
            (state, address, AccessWidth::Dword, value),
            action,
        ),
    ensures
        final(state)@ == old(state)@,
        ({
            let heard = old(state)@.status & 4 != 0 && old(state)@.activity.accepting;
            &&& heard ==> action == Ok::<_, VirtioError>(
                MmioWriteAction::QueueNotified {
                    index: (value % 0x1_0000) as u16,
                    generation: VirtioQueueGeneration(old(state)@.activity.generation),
                },
            )
            &&& !heard ==> action == Ok::<_, VirtioError>(MmioWriteAction::Nothing)
        }),
{
    assert((value % 0x1_0000_0000) % 0x1_0000 == value % 0x1_0000);
}

/// An acknowledgement clears the bits that are written, but for those that were raised since the driver
/// last read the status, and asks for a new signal where it kept one.
pub proof fn law_acknowledgement_clears_old_bits<T: GuestMemoryAccessor>(
    state: &mut VirtioMmioState<T>,
    address: u64,
    value: u64,
    action: VirtioResult<MmioWriteAction>,
)
    requires
        old(state)@.wf(),
        is_register(old(state)@, address, 0x064),
        call_ensures(
            VirtioMmioState::<T>::mmio_write,
            (state, address, AccessWidth::Dword, value),
            action,
        ),
    ensures
        ({
            let bits = low_dword(value);
            let before = old(state)@.interrupt.pending;
            let after = final(state)@.interrupt.pending;
            let new = old(state)@.interrupt.raised_after_read;
            &&& after & !bits == before & !bits
            &&& after & bits & !new == 0
            &&& after & bits & new == before & bits & new
            &&& bits & new != 0 ==> action == Ok::<_, VirtioError>(
                MmioWriteAction::InterruptPending,
            )
            &&& bits & new == 0 ==> action == Ok::<_, VirtioError>(MmioWriteAction::Nothing)
        }),
        final(state)@ == (MmioModel {
            interrupt: InterruptState {
                pending: final(state)@.interrupt.pending,
                raised_after_read: old(state)@.interrupt.raised_after_read,
            },
            ..old(state)@
        }),
{
    lemma_acknowledged(
        old(state)@.interrupt.pending,
        old(state)@.interrupt.raised_after_read,
        low_dword(value),
    );
}

/// Acknowledged bits, bit by bit.
proof fn lemma_acknowledged(pending: u32, new: u32, bits: u32)
    by (bit_vector)
    ensures
        (pending & !(bits & !(new & bits))) & !bits == pending & !bits,
        (pending & !(bits & !(new & bits))) & bits & !new == 0,
        (pending & !(bits & !(new & bits))) & bits & new == pending & bits & new,
        new & bits == bits & new,
{
}

/// Whether a write of the status leaves it as written: while the features are not sealed, any status
/// that does not ask to seal them does.
pub open spec fn is_plain_status<T>(state: MmioModel<T>, status: u32) -> bool {
    status != 0 && !state.features_sealed && status & 8 == 0
}

/// While the features are not sealed, a status that does not ask to seal them is what the status then
/// is, and nothing else changes.
pub proof fn law_plain_status_is_kept<T: GuestMemoryAccessor>(
    state: &mut VirtioMmioState<T>,
    address: u64,
    value: u64,
    action: VirtioResult<MmioWriteAction>,
)
    requires
        old(state)@.wf(),
        is_register(old(state)@, address, 0x070),
        call_ensures(
            VirtioMmioState::<T>::mmio_write,
            (state, address, AccessWidth::Dword, value),
            action,
        ),
        is_plain_status(old(state)@, low_dword(value)),
    ensures
        final(state)@ == (MmioModel { status: low_dword(value), ..old(state)@ }),
        action == Ok::<_, VirtioError>(MmioWriteAction::Nothing),
{
}

/// Features that the device does not offer are refused: the status fails, without the bit that would
/// seal them, and nothing else changes.
pub proof fn law_foreign_features_are_refused<T: GuestMemoryAccessor>(
    state: &mut VirtioMmioState<T>,
    address: u64,
    value: u64,
    action: VirtioResult<MmioWriteAction>,
)
    requires
        old(state)@.wf(),
        is_register(old(state)@, address, 0x070),
        call_ensures(
            VirtioMmioState::<T>::mmio_write,
            (state, address, AccessWidth::Dword, value),
            action,
        ),
        !old(state)@.features_sealed,
        low_dword(value) & 8 != 0,
        old(state)@.driver_features & !old(state)@.device_features != 0,
    ensures
        final(state)@.status & 8 == 0,
        final(state)@.status & 128 == 128,
        final(state)@.status & !136 == low_dword(value) & !136,
        final(state)@ == (MmioModel { status: final(state)@.status, ..old(state)@ }),
        action == Ok::<_, VirtioError>(MmioWriteAction::Nothing),
{
    lemma_failed_status(low_dword(value));
}

/// A status with the failure bit in place of the feature bit.
proof fn lemma_failed_status(status: u32)
    by (bit_vector)
    ensures
        ((status & !8) | 128) & 8 == 0,
        ((status & !8) | 128) & 128 == 128,
        ((status & !8) | 128) & !136 == status & !136,
        (status | 8) & 8 == 8,
        (status | 8) & !8 == status & !8,
        status & 8 != 0 ==> status != 0,
{
}

/// Features that the device offers are sealed: the status is what was written, every queue suppresses
/// its notifications by event index just where that feature is among them, and nothing else changes.
pub proof fn law_offered_features_are_sealed<T: GuestMemoryAccessor>(
    state: &mut VirtioMmioState<T>,
    address: u64,
    value: u64,
    action: VirtioResult<MmioWriteAction>,
)
    requires
        old(state)@.wf(),
        is_register(old(state)@, address, 0x070),
        call_ensures(
            VirtioMmioState::<T>::mmio_write,
            (state, address, AccessWidth::Dword, value),
            action,
        ),
        !old(state)@.features_sealed,
        low_dword(value) & 8 != 0,
        old(state)@.driver_features & !old(state)@.device_features == 0,
    ensures
        final(state)@.status == low_dword(value),
        final(state)@.features_sealed,
        final(state)@.queues.len() == old(state)@.queues.len(),
        forall|i: int|
            #![trigger final(state)@.queues[i]]
            0 <= i < old(state)@.queues.len() ==> final(state)@.queues[i] == (VirtioQueue {
                layout: QueueLayout {
                    event_idx_enabled: old(state)@.driver_features & 0x2000_0000 != 0,
                    ..old(state)@.queues[i].layout
                },
                ..old(state)@.queues[i]
            }),
        final(state)@ == (MmioModel {
            status: low_dword(value),
            features_sealed: true,
            queues: final(state)@.queues,
            ..old(state)@
        }),
        action == Ok::<_, VirtioError>(MmioWriteAction::Nothing),
{
    lemma_failed_status(low_dword(value));
}

/// Once the features are sealed a nonzero status keeps the bit that says so, and is otherwise what was
/// written; nothing else changes.
pub proof fn law_sealed_status_keeps_its_seal<T: GuestMemoryAccessor>(
    state: &mut VirtioMmioState<T>,
    address: u64,
    value: u64,
    action: VirtioResult<MmioWriteAction>,
)
    requires
        old(state)@.wf(),
        is_register(old(state)@, address, 0x070),
        call_ensures(
            VirtioMmioState::<T>::mmio_write,
            (state, address, AccessWidth::Dword, value),
            action,
        ),
        old(state)@.features_sealed,
        low_dword(value) != 0,
    ensures
        final(state)@.status & 8 == 8,
        final(state)@.status & !8 == low_dword(value) & !8,
        final(state)@ == (MmioModel { status: final(state)@.status, ..old(state)@ }),
        action == Ok::<_, VirtioError>(MmioWriteAction::Nothing),
{
    lemma_failed_status(low_dword(value));
}

/// A zero status asks for a reset: where no other one is going on and no operation is inside, the device
/// is told so; the barrier closes and a new lifetime begins, and no register changes yet.
pub proof fn law_zero_status_begins_a_reset<T: GuestMemoryAccessor>(
    state: &mut VirtioMmioState<T>,
    address: u64,
    value: u64,
    action: VirtioResult<MmioWriteAction>,
)
    requires
        old(state)@.wf(),
        is_register(old(state)@, address, 0x070),
        call_ensures(
            VirtioMmioState::<T>::mmio_write,
            (state, address, AccessWidth::Dword, value),
            action,
        ),
        low_dword(value) == 0,
    ensures
        ({
            let before = old(state)@.activity;
            let after = final(state)@.activity;
            &&& action == Ok::<_, VirtioError>(MmioWriteAction::Reset) <==> !before.resetting
                && before.active == 0
            &&& before.resetting || before.active != 0 ==> action == Err::<MmioWriteAction, _>(
                VirtioError::WouldBlock,
            )
            &&& before.resetting ==> after == before
            &&& !before.resetting ==> !after.accepting && after.resetting == (before.active == 0)
                && after.active == before.active && (after.generation == before.generation + 1
                || before.generation == u64::MAX && after.generation == 0)
        }),
        final(state)@ == (MmioModel { activity: final(state)@.activity, ..old(state)@ }),
{
}

/// A request to disable the selected queue disables it, if it is not with an operation and no reset is
/// going on; a request to enable it never changes anything but its readiness and its rejection.
pub proof fn law_readiness_is_requested<T: GuestMemoryAccessor>(
    state: &mut VirtioMmioState<T>,
    address: u64,
    value: u64,
    action: VirtioResult<MmioWriteAction>,
)
    requires
        old(state)@.wf(),
        is_register(old(state)@, address, 0x044),
        call_ensures(
            VirtioMmioState::<T>::mmio_write,
            (state, address, AccessWidth::Dword, value),
            action,
        ),
    ensures
        ({
            let selected = old(state)@.queue_sel as int;
            let before = old(state)@.queues[selected];
            let after = final(state)@.queues[selected];
            let taken = old(state)@.activity.accepting && selected < old(state)@.queues.len()
                && !old(state)@.processing[selected];
            &&& !taken ==> final(state)@ == old(state)@
            &&& taken && low_dword(value) == 0 ==> !after.layout.ready && after.layout_rejected
                == before.layout_rejected
            &&& taken && low_dword(value) != 0 && (before.layout.desc_table_addr == 0
                || before.layout.avail_ring_addr == 0 || before.layout.used_ring_addr == 0)
                ==> !after.layout.ready && after.layout_rejected == before.layout_rejected
            &&& taken && low_dword(value) != 0 && before.layout.desc_table_addr != 0
                && before.layout.avail_ring_addr != 0 && before.layout.used_ring_addr != 0
                ==> after.layout.ready || after.layout_rejected
            &&& taken ==> final(state)@ == (MmioModel {
                queues: old(state)@.queues.update(
                    selected,
                    VirtioQueue {
                        layout: QueueLayout { ready: after.layout.ready, ..before.layout },
                        layout_rejected: after.layout_rejected,
                        ..before
                    },
                ),
                ..old(state)@
            })
        }),
        action == Ok::<_, VirtioError>(MmioWriteAction::Nothing),
{
}

/// After a plain status was written, the status register reads it, and every other register reads what
/// it would have read before.
pub proof fn law_plain_status_reads_back<T: GuestMemoryAccessor>(
    before: &mut VirtioMmioState<T>,
    state: &mut VirtioMmioState<T>,
    after: &mut VirtioMmioState<T>,
    at: u64,
    value: u64,
    address: u64,
    offset: int,
    action: VirtioResult<MmioWriteAction>,
    read_before: VirtioResult<MmioReadOutcome>,
    read_after: VirtioResult<MmioReadOutcome>,
)
    requires
        old(state)@.wf(),
        *old(before) == *old(state),
        *old(after) == *final(state),
        is_register(old(state)@, at, 0x070),
        is_plain_status(old(state)@, low_dword(value)),
        call_ensures(
            VirtioMmioState::<T>::mmio_write,
            (state, at, AccessWidth::Dword, value),
            action,
        ),
        0 <= offset < 0x100,
        is_register(old(state)@, address, offset),
        call_ensures(
            VirtioMmioState::<T>::mmio_read,
            (before, address, AccessWidth::Dword),
            read_before,
        ),
        call_ensures(
            VirtioMmioState::<T>::mmio_read,
            (after, address, AccessWidth::Dword),
            read_after,
        ),
    ensures
        offset == 0x070 ==> read_after == Ok::<_, VirtioError>(
            MmioReadOutcome::Standard(low_dword(value)),
        ),
        offset != 0x070 ==> read_after == read_before,
{
    law_plain_status_is_kept(state, at, value, action);
    law_register_map(before, address, offset, read_before);
    law_register_map(after, address, offset, read_after);
}

/// A finished reset forgets what the driver has set, in every register and every queue, opens the
/// barrier, and keeps what the device is; without a reset going on there is nothing to finish.
pub proof fn law_finished_reset_forgets_the_driver<T>(
    state: &mut VirtioMmioState<T>,
    result: VirtioResult<()>,
    index: int,
)
    requires
        old(state)@.wf(),
        call_ensures(VirtioMmioState::<T>::complete_reset, (state,), result),
        0 <= index < old(state)@.queues.len(),
    ensures
        result is Ok <==> old(state)@.activity.resetting,
        !old(state)@.activity.resetting ==> final(state)@ == old(state)@ && result == Err::<(), _>(
            VirtioError::WouldBlock,
        ),
        old(state)@.activity.resetting ==> {
            let before = old(state)@;
            let after = final(state)@;
            let queue = after.queues[index];
            &&& after.base_ipa == before.base_ipa && after.length == before.length
            &&& after.device_id == before.device_id && after.vendor_id == before.vendor_id
            &&& after.device_features == before.device_features && after.config_generation
                == before.config_generation
            &&& after.status == 0 && after.driver_features == 0 && !after.features_sealed
            &&& after.device_features_sel == 0 && after.driver_features_sel == 0 && after.queue_sel
                == 0
            &&& after.interrupt.pending == 0 && after.interrupt.raised_after_read == 0
            &&& after.activity.accepting && !after.activity.resetting && after.activity.generation
                == before.activity.generation && after.activity.active == before.activity.active
            &&& after.queues.len() == before.queues.len() && !after.processing[index]
            &&& queue.layout.size == before.queues[index].max_size && !queue.layout.ready
            &&& queue.layout.desc_table_addr == 0 && queue.layout.avail_ring_addr == 0
                && queue.layout.used_ring_addr == 0 && !queue.layout.event_idx_enabled
            &&& queue.last_avail_idx == 0 && !queue.faulted && !queue.layout_rejected
            &&& queue.index == before.queues[index].index && queue.max_size
                == before.queues[index].max_size && queue.accessor == before.queues[index].accessor
        },
{
}

/// A whole reset begins and finishes at once, unless an operation is inside or another reset is going
/// on: the transport is then as a finished reset leaves it, in its next lifetime.
pub proof fn law_reset_begins_and_finishes<T>(
    state: &mut VirtioMmioState<T>,
    result: VirtioResult<()>,
)
    requires
        old(state)@.wf(),
        call_ensures(VirtioMmioState::<T>::reset, (state,), result),
    ensures
        result is Ok <==> !old(state)@.activity.resetting && old(state)@.activity.active == 0,
        result is Ok ==> {
            let after = final(state)@;
            &&& after.status == 0 && after.driver_features == 0 && !after.features_sealed
            &&& after.activity.accepting && !after.activity.resetting
            &&& old(state)@.activity.generation < u64::MAX ==> after.activity.generation == old(state)@.activity.generation + 1
        },
        result is Err ==> final(state)@.status == old(state)@.status && final(state)@.queues == old(state)@.queues,
{
}

/// A queue is handed out for processing to one operation at a time, of the current lifetime, while the
/// driver is ready and no reset is going on; the operation counts as inside until it leaves.
pub proof fn law_queue_is_lent_to_one_operation<T>(
    state: &mut VirtioMmioState<T>,
    index: u16,
    generation: VirtioQueueGeneration,
    lease: Option<MmioQueueLease<T>>,
)
    requires
        old(state)@.wf(),
        call_ensures(
            VirtioMmioState::<T>::take_queue_for_processing,
            (state, index, generation),
            lease,
        ),
    ensures
        lease is Some <==> {
            &&& old(state)@.activity.accepting
            &&& old(state)@.activity.generation == generation.0
            &&& old(state)@.activity.active < usize::MAX
            &&& old(state)@.status & 4 != 0
            &&& index < old(state)@.queues.len()
            &&& !old(state)@.processing[index as int]
        },
        lease is None ==> final(state)@ == old(state)@,
        lease matches Some(taken) ==> {
            &&& taken.index == index
            &&& taken.generation == generation
            &&& taken.queue == Some(old(state)@.queues[index as int])
            &&& final(state)@.processing[index as int]
            &&& final(state)@.activity.active == old(state)@.activity.active + 1
            &&& final(state)@.queues == old(state)@.queues
            &&& final(state)@.status == old(state)@.status
            &&& forall|i: int|
                #![trigger final(state)@.processing[i]]
                0 <= i < old(state)@.processing.len() && i != index
                    ==> final(state)@.processing[i] == old(state)@.processing[i]
        },
{
}

/// An operation that leaves puts its queue back as it has made it, frees it for the next one, and no
/// longer counts as inside.
pub proof fn law_released_queue_comes_back<T>(
    lease: MmioQueueLease<T>,
    state: &mut VirtioMmioState<T>,
)
    requires
        old(state)@.wf(),
        call_ensures(MmioQueueLease::<T>::release, (lease, state), ()),
        lease.queue is Some,
        lease.index < old(state)@.queues.len(),
    ensures
        final(state)@.queues[lease.index as int] == lease.queue->0,
        !final(state)@.processing[lease.index as int],
        old(state)@.activity.active > 0 ==> final(state)@.activity.active == old(state)@.activity.active - 1,
        final(state)@.activity.accepting == old(state)@.activity.accepting,
        final(state)@.activity.generation == old(state)@.activity.generation,
        final(state)@.status == old(state)@.status,
        forall|i: int|
            #![trigger final(state)@.queues[i]]
            0 <= i < old(state)@.queues.len() && i != lease.index ==> final(state)@.queues[i] == old(state)@.queues[i] && final(state)@.processing[i] == old(state)@.processing[i],
{
}

/// Raised bits are pending, and new, until the driver reads and acknowledges them; bits that were
/// pending stay.
pub proof fn law_raised_bits_are_pending<T>(state: &mut VirtioMmioState<T>, bits: u32)
    requires
        call_ensures(VirtioMmioState::<T>::set_interrupt, (state, bits), ()),
    ensures
        final(state)@.interrupt.pending & bits == bits,
        final(state)@.interrupt.raised_after_read & bits == bits,
        final(state)@.interrupt.pending & !bits == old(state)@.interrupt.pending & !bits,
        final(state)@.interrupt.raised_after_read & !bits == old(state)@.interrupt.raised_after_read & !bits,
        final(state)@ == (MmioModel { interrupt: final(state)@.interrupt, ..old(state)@ }),
{
    lemma_raised(old(state)@.interrupt.pending, bits);
    lemma_raised(old(state)@.interrupt.raised_after_read, bits);
}

/// Bits that are set among others.
proof fn lemma_raised(word: u32, bits: u32)
    by (bit_vector)
    ensures
        (word | bits) & bits == bits,
        (word | bits) & !bits == word & !bits,
{
}

/// A change of the device's own configuration counts its generation up, around the end of 32 bits.
pub proof fn law_config_generation_counts<T>(state: &mut VirtioMmioState<T>)
    requires
        call_ensures(VirtioMmioState::<T>::bump_config_generation, (state,), ()),
    ensures
        final(state)@.config_generation == (old(state)@.config_generation + 1) % 0x1_0000_0000,
        final(state)@ == (MmioModel {
            config_generation: final(state)@.config_generation,
            ..old(state)@
        }),
{
}

/// A new transport has nothing set, no queue with an operation, and an open barrier.
pub proof fn law_transport_starts_blank<T>(
    base_ipa: u64,
    length: u64,
    device_id: u32,
    vendor_id: u32,
    device_features: u64,
    queues: Vec<VirtioQueue<T>>,
    state: VirtioMmioState<T>,
    index: int,
)
    requires
        call_ensures(
            VirtioMmioState::<T>::new,
            (base_ipa, length, device_id, vendor_id, device_features, queues),
            state,
        ),
        0 <= index < queues@.len(),
    ensures
        state@.wf(),
        state@.base_ipa == base_ipa && state@.length == length,
        state@.device_id == device_id && state@.vendor_id == vendor_id,
        state@.device_features == device_features,
        state@.status == 0 && state@.driver_features == 0 && !state@.features_sealed,
        state@.device_features_sel == 0 && state@.driver_features_sel == 0 && state@.queue_sel == 0,
        state@.queues == queues@ && !state@.processing[index],
        state@.activity.accepting && !state@.activity.resetting && state@.activity.active == 0,
        state@.activity.generation == 0,
        state@.interrupt.pending == 0 && state@.interrupt.raised_after_read == 0,
        state@.config_generation == 0,
{
}

/// The end of a validation counts only for the queue that was validated: it has to be there still, in
/// the same lifetime, with the same configuration and with nobody processing it, behind an open
/// barrier. The queue is then ready if that was asked for and the layout is good; nothing else about
/// its layout, and no other queue, changes.
pub proof fn law_validation_counts_for_what_was_validated<T>(
    before: VirtioMmioState<T>,
    later: &mut VirtioMmioState<T>,
    index: u16,
    value: u32,
    snapshot: QueueReadyValidationSnapshot<T>,
    layout_ok: bool,
    other: int,
)
    requires
        before@.wf(),
        old(later)@.wf(),
        call_ensures(
            VirtioMmioState::<T>::snapshot_queue_ready_validation,
            (&before, index, value),
            Some(snapshot),
        ),
        call_ensures(
            VirtioMmioState::<T>::commit_queue_ready_validation,
            (later, snapshot.index, snapshot.value, snapshot.token, layout_ok),
            (),
        ),
        0 <= other < old(later)@.queues.len(),
    ensures
        ({
            let current = {
                &&& old(later)@.activity.accepting
                &&& index < old(later)@.queues.len()
                &&& !old(later)@.processing[index as int]
                &&& old(later)@.activity.generation == before@.activity.generation
                &&& old(later)@.queues[index as int].layout == before@.queues[index as int].layout
            };
            &&& !current ==> final(later)@ == old(later)@
            &&& current ==> final(later)@.queues[index as int].layout == (QueueLayout {
                ready: value != 0 && layout_ok,
                ..old(later)@.queues[index as int].layout
            })
            &&& other != index ==> final(later)@.queues[other] == old(later)@.queues[other]
            &&& final(later)@.status == old(later)@.status
            &&& final(later)@.activity == old(later)@.activity
        }),
{
}

/// A snapshot for a validation is taken of a queue that nobody processes, behind an open barrier.
pub proof fn law_validation_needs_a_free_queue<T>(
    state: VirtioMmioState<T>,
    index: u16,
    value: u32,
    snapshot: Option<QueueReadyValidationSnapshot<T>>,
)
    requires
        state@.wf(),
        call_ensures(
            VirtioMmioState::<T>::snapshot_queue_ready_validation,
            (&state, index, value),
            snapshot,
        ),
    ensures
        snapshot is Some <==> state@.activity.accepting && index < state@.queues.len()
            && !state@.processing[index as int],
        snapshot matches Some(taken) ==> taken.index == index && taken.value == value
            && taken.queue == state@.queues[index as int],
{
}

} // verus!
