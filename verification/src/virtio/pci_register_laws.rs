//! What each register in the BAR of a VirtIO PCI function does, access by access.

#[allow(unused_imports)]
use crate::access::{AccessWidth, DeviceError, DeviceResult};
#[allow(unused_imports)]
use crate::calls::is_chain;
#[allow(unused_imports)]
use crate::virtio::interrupt_laws::hands_out;
#[allow(unused_imports)]
use crate::virtio::mmio_registers::is_power;
#[allow(unused_imports)]
use crate::virtio::pci_state::{
    ActivityPermit, InterruptTransitionRequest, QueueNotifyOutcome, QueueState, TransportModel,
    VirtioPciWriteOutcome,
};
#[allow(unused_imports)]
use crate::virtio::pci_transport::{
    is_processed, is_work, PciTransportModel, VirtioDeviceCore, VirtioPciTransport,
};
#[allow(unused_imports)]
use crate::virtio::queue::{GuestMemory, NoGuestMemoryAccessor, QueueLayout, VirtioQueue};
use vstd::prelude::*;

verus! {

/// The 32 bits of a feature word that a selector shows: the low ones, the high ones, or none.
pub open spec fn feature_window(word: u64, selector: u32) -> int {
    if selector == 0 {
        word as int % 0x1_0000_0000
    } else if selector == 1 {
        word as int / 0x1_0000_0000
    } else {
        0
    }
}

/// Where each register of the common configuration is, how wide it is, and what a read gives.
pub proof fn law_common_register_map<D: VirtioDeviceCore>(
    transport: VirtioPciTransport<D>,
    offset: u64,
    width: AccessWidth,
    result: DeviceResult<u64>,
)
    requires
        offset < 0x100,
        call_ensures(VirtioPciTransport::<D>::read_mmio, (&transport, offset, width), result),
    ensures
        ({
            let state = transport@.state;
            let selected = state.queue_select as int;
            let present = selected < state.queues.len();
            let queue = state.queues[selected];
            let layout = queue.queue.layout;
            let value = result->Ok_0;
            let ok = result is Ok;
            &&& width is Byte && offset == 0x14 ==> ok && value == state.status
            &&& width is Byte && offset == 0x15 ==> ok && value == state.config_generation
            &&& width is Word && offset == 0x10 ==> ok && value == state.msix_config
            &&& width is Word && offset == 0x12 ==> ok && (state.queues.len() <= 0xffff ==> value
                == state.queues.len())
            &&& width is Word && offset == 0x16 ==> ok && value == state.queue_select
            &&& width is Word && offset == 0x18 && present ==> ok && value == layout.size
            &&& width is Word && offset == 0x18 && !present ==> ok && value == 0
            &&& width is Word && offset == 0x1a ==> ok && value == 0xffff
            &&& width is Word && offset == 0x1c ==> ok && value <= 1 && (value == 1 <==> present
                && queue.enabled)
            &&& width is Word && offset == 0x1e ==> ok && value == state.queue_select
            &&& width is Dword && offset == 0x00 ==> ok && value == state.device_feature_select
            &&& width is Dword && offset == 0x04 ==> ok && value == feature_window(
                transport@.device_features,
                state.device_feature_select,
            )
            &&& width is Dword && offset == 0x08 ==> ok && value == state.driver_feature_select
            &&& width is Dword && offset == 0x0c ==> ok && value == feature_window(
                state.driver_features,
                state.driver_feature_select,
            )
            &&& width is Qword && present && offset == 0x20 ==> ok && value
                == layout.desc_table_addr
            &&& width is Qword && present && offset == 0x28 ==> ok && value
                == layout.avail_ring_addr
            &&& width is Qword && present && offset == 0x30 ==> ok && value == layout.used_ring_addr
            &&& width is Dword && present && offset == 0x20 ==> ok && value
                == layout.desc_table_addr % 0x1_0000_0000
            &&& width is Dword && present && offset == 0x28 ==> ok && value
                == layout.avail_ring_addr % 0x1_0000_0000
            &&& width is Dword && present && offset == 0x30 ==> ok && value == layout.used_ring_addr
                % 0x1_0000_0000
            &&& width is Dword && present && offset == 0x24 ==> ok && value
                == layout.desc_table_addr / 0x1_0000_0000
            &&& width is Dword && present && offset == 0x2c ==> ok && value
                == layout.avail_ring_addr / 0x1_0000_0000
            &&& width is Dword && present && offset == 0x34 ==> ok && value == layout.used_ring_addr
                / 0x1_0000_0000
            &&& !is_common_register(offset as int, width) ==> result == Err::<u64, _>(
                DeviceError::OutOfRange { addr: offset },
            )
        }),
{
}

/// The offsets at which an access of the given width meets a register of the common configuration.
pub open spec fn is_common_register(offset: int, width: AccessWidth) -> bool {
    match width {
        AccessWidth::Byte => offset == 0x14 || offset == 0x15,
        AccessWidth::Word => offset == 0x10 || offset == 0x12 || offset == 0x16 || offset == 0x18
            || offset == 0x1a || offset == 0x1c || offset == 0x1e,
        AccessWidth::Dword => offset == 0x00 || offset == 0x04 || offset == 0x08 || offset == 0x0c
            || offset == 0x20 || offset == 0x24 || offset == 0x28 || offset == 0x2c || offset
            == 0x30 || offset == 0x34,
        AccessWidth::Qword => offset == 0x20 || offset == 0x28 || offset == 0x30,
    }
}

/// Behind the common configuration a read gives the device's own configuration, from 0x300 up to the
/// end of the BAR at 0x1000, and nothing elsewhere.
pub proof fn law_device_config_is_read_from_the_device<D: VirtioDeviceCore>(
    transport: VirtioPciTransport<D>,
    offset: u64,
    width: AccessWidth,
    result: DeviceResult<u64>,
)
    requires
        offset >= 0x100,
        call_ensures(VirtioPciTransport::<D>::read_mmio, (&transport, offset, width), result),
    ensures
        0x300 <= offset < 0x1000 ==> call_ensures(
            D::read_config,
            (&transport.core, (offset - 0x300) as u64, width),
            result,
        ),
        offset < 0x300 || offset >= 0x1000 ==> result == Err::<u64, _>(
            DeviceError::OutOfRange { addr: offset },
        ),
{
}

/// A byte read at 0x200 gives the interrupt bits, clears them, and lets the line follow; every other
/// read leaves the transport alone.
pub proof fn law_interrupt_status_is_read_at_its_place<D: VirtioDeviceCore>(
    transport: &mut VirtioPciTransport<D>,
    offset: u64,
    width: AccessWidth,
    result: DeviceResult<(u64, InterruptTransitionRequest)>,
)
    requires
        call_ensures(
            VirtioPciTransport::<D>::read_bar_with_interrupt,
            (transport, offset, width),
            result,
        ),
    ensures
        offset == 0x200 && width is Byte ==> {
            &&& result matches Ok((value, request))
            &&& value == old(transport)@.interrupts.pending
            &&& request.activity is None
            &&& final(transport)@.interrupts.pending == 0
            &&& hands_out(
                old(transport)@.interrupts,
                final(transport)@.interrupts,
                request.transition,
            )
            &&& final(transport)@ == (PciTransportModel {
                interrupts: final(transport)@.interrupts,
                ..old(transport)@
            })
        },
        offset != 0x200 || !(width is Byte) ==> final(transport)@ == old(transport)@ && (
        result matches Ok((_, request)) ==> request.transition is Unchanged),
{
}

/// This transport with another layout in the selected queue, if there is one that is not with an
/// operation.
pub open spec fn with_layout<D>(
    transport: PciTransportModel<D>,
    layout: QueueLayout,
) -> PciTransportModel<D> {
    let selected = transport.state.queue_select as int;
    let queue = transport.state.queues[selected];
    if selected < transport.state.queues.len() && !queue.processing {
        PciTransportModel {
            state: TransportModel {
                queues: transport.state.queues.update(
                    selected,
                    QueueState { queue: VirtioQueue { layout, ..queue.queue }, ..queue },
                ),
                ..transport.state
            },
            ..transport
        }
    } else {
        transport
    }
}

/// The selector of the device's features takes what is written; nothing else changes.
pub proof fn law_device_feature_select_is_written<D: VirtioDeviceCore, M: GuestMemory>(
    transport: &mut VirtioPciTransport<D>,
    value: u64,
    dma_enabled: bool,
    memory: &mut M,
    outcome: DeviceResult<VirtioPciWriteOutcome>,
)
    requires
        call_ensures(
            VirtioPciTransport::<D>::write_mmio_with_dma::<M>,
            (transport, 0x00, AccessWidth::Dword, value, dma_enabled, memory),
            outcome,
        ),
    ensures
        final(transport)@ == (PciTransportModel {
            state: TransportModel { device_feature_select: (value % 0x1_0000_0000) as u32, ..old(transport)@.state },
            ..old(transport)@
        }),
        outcome == Ok::<_, DeviceError>(VirtioPciWriteOutcome::Nothing),
        *final(memory) == *old(memory),
{
}

/// The selector of the driver's features takes what is written; nothing else changes.
pub proof fn law_driver_feature_select_is_written<D: VirtioDeviceCore, M: GuestMemory>(
    transport: &mut VirtioPciTransport<D>,
    value: u64,
    dma_enabled: bool,
    memory: &mut M,
    outcome: DeviceResult<VirtioPciWriteOutcome>,
)
    requires
        call_ensures(
            VirtioPciTransport::<D>::write_mmio_with_dma::<M>,
            (transport, 0x08, AccessWidth::Dword, value, dma_enabled, memory),
            outcome,
        ),
    ensures
        final(transport)@ == (PciTransportModel {
            state: TransportModel { driver_feature_select: (value % 0x1_0000_0000) as u32, ..old(transport)@.state },
            ..old(transport)@
        }),
        outcome == Ok::<_, DeviceError>(VirtioPciWriteOutcome::Nothing),
        *final(memory) == *old(memory),
{
}

/// The queue selector takes what is written; nothing else changes.
pub proof fn law_queue_select_is_written<D: VirtioDeviceCore, M: GuestMemory>(
    transport: &mut VirtioPciTransport<D>,
    value: u64,
    dma_enabled: bool,
    memory: &mut M,
    outcome: DeviceResult<VirtioPciWriteOutcome>,
)
    requires
        call_ensures(
            VirtioPciTransport::<D>::write_mmio_with_dma::<M>,
            (transport, 0x16, AccessWidth::Word, value, dma_enabled, memory),
            outcome,
        ),
    ensures
        final(transport)@ == (PciTransportModel {
            state: TransportModel { queue_select: (value % 0x1_0000) as u16, ..old(transport)@.state },
            ..old(transport)@
        }),
        outcome == Ok::<_, DeviceError>(VirtioPciWriteOutcome::Nothing),
        *final(memory) == *old(memory),
{
}

/// The driver writes its features through the selected window, until the status seals them; the other
/// half and everything else stay.
pub proof fn law_driver_feature_window_is_written<D: VirtioDeviceCore, M: GuestMemory>(
    transport: &mut VirtioPciTransport<D>,
    value: u64,
    dma_enabled: bool,
    memory: &mut M,
    outcome: DeviceResult<VirtioPciWriteOutcome>,
)
    requires
        call_ensures(
            VirtioPciTransport::<D>::write_mmio_with_dma::<M>,
            (transport, 0x0c, AccessWidth::Dword, value, dma_enabled, memory),
            outcome,
        ),
    ensures
        ({
            let before = old(transport)@.state.driver_features as int;
            let after = final(transport)@.state.driver_features as int;
            let selector = old(transport)@.state.driver_feature_select;
            let sealed = old(transport)@.state.status & 8 != 0;
            let written = value % 0x1_0000_0000;
            &&& !sealed && selector == 0 ==> after % 0x1_0000_0000 == written && after
                / 0x1_0000_0000 == before / 0x1_0000_0000
            &&& !sealed && selector == 1 ==> after / 0x1_0000_0000 == written && after
                % 0x1_0000_0000 == before % 0x1_0000_0000
            &&& sealed || selector > 1 ==> after == before
        }),
        final(transport)@ == (PciTransportModel {
            state: TransportModel { driver_features: final(transport)@.state.driver_features, ..old(transport)@.state },
            ..old(transport)@
        }),
        outcome == Ok::<_, DeviceError>(VirtioPciWriteOutcome::Nothing),
        *final(memory) == *old(memory),
{
}

/// A quadword write at 0x20 sets the address of the descriptor table of the selected queue; the other
/// addresses and everything else stay.
pub proof fn law_descriptor_table_address_is_written<D: VirtioDeviceCore, M: GuestMemory>(
    transport: &mut VirtioPciTransport<D>,
    value: u64,
    dma_enabled: bool,
    memory: &mut M,
    outcome: DeviceResult<VirtioPciWriteOutcome>,
)
    requires
        call_ensures(
            VirtioPciTransport::<D>::write_mmio_with_dma::<M>,
            (transport, 0x20, AccessWidth::Qword, value, dma_enabled, memory),
            outcome,
        ),
    ensures
        final(transport)@ == with_layout(
            old(transport)@,
            QueueLayout {
                desc_table_addr: value,
                ..old(transport)@.state.queues[old(transport)@.state.queue_select as int].queue.layout
            },
        ),
        outcome == Ok::<_, DeviceError>(VirtioPciWriteOutcome::Nothing),
        *final(memory) == *old(memory),
{
}

/// A doubleword write at 0x20 sets the low half of the address of the descriptor table; the other
/// half, the other addresses and everything else stay.
pub proof fn law_descriptor_table_low_half_is_written<D: VirtioDeviceCore, M: GuestMemory>(
    transport: &mut VirtioPciTransport<D>,
    value: u64,
    dma_enabled: bool,
    memory: &mut M,
    outcome: DeviceResult<VirtioPciWriteOutcome>,
)
    requires
        call_ensures(
            VirtioPciTransport::<D>::write_mmio_with_dma::<M>,
            (transport, 0x20, AccessWidth::Dword, value, dma_enabled, memory),
            outcome,
        ),
    ensures
        ({
            let layout = old(transport)@.state.queues[old(transport)@.state.queue_select as int].queue.layout;
            let before = layout.desc_table_addr;
            final(transport)@ == with_layout(
                old(transport)@,
                QueueLayout {
                    desc_table_addr: (before / 0x1_0000_0000 * 0x1_0000_0000 + value % 0x1_0000_0000) as u64,
                    ..layout
                },
            )
        }),
        outcome == Ok::<_, DeviceError>(VirtioPciWriteOutcome::Nothing),
        *final(memory) == *old(memory),
{
}

/// A doubleword write at 0x24 sets the high half of the address of the descriptor table; the other
/// half, the other addresses and everything else stay.
pub proof fn law_descriptor_table_high_half_is_written<D: VirtioDeviceCore, M: GuestMemory>(
    transport: &mut VirtioPciTransport<D>,
    value: u64,
    dma_enabled: bool,
    memory: &mut M,
    outcome: DeviceResult<VirtioPciWriteOutcome>,
)
    requires
        call_ensures(
            VirtioPciTransport::<D>::write_mmio_with_dma::<M>,
            (transport, 0x24, AccessWidth::Dword, value, dma_enabled, memory),
            outcome,
        ),
    ensures
        ({
            let layout = old(transport)@.state.queues[old(transport)@.state.queue_select as int].queue.layout;
            let before = layout.desc_table_addr;
            final(transport)@ == with_layout(
                old(transport)@,
                QueueLayout {
                    desc_table_addr: (value % 0x1_0000_0000 * 0x1_0000_0000 + before % 0x1_0000_0000) as u64,
                    ..layout
                },
            )
        }),
        outcome == Ok::<_, DeviceError>(VirtioPciWriteOutcome::Nothing),
        *final(memory) == *old(memory),
{
}

/// A quadword write at 0x28 sets the address of the ring that the driver fills of the selected queue; the other
/// addresses and everything else stay.
pub proof fn law_driver_ring_address_is_written<D: VirtioDeviceCore, M: GuestMemory>(
    transport: &mut VirtioPciTransport<D>,
    value: u64,
    dma_enabled: bool,
    memory: &mut M,
    outcome: DeviceResult<VirtioPciWriteOutcome>,
)
    requires
        call_ensures(
            VirtioPciTransport::<D>::write_mmio_with_dma::<M>,
            (transport, 0x28, AccessWidth::Qword, value, dma_enabled, memory),
            outcome,
        ),
    ensures
        final(transport)@ == with_layout(
            old(transport)@,
            QueueLayout {
                avail_ring_addr: value,
                ..old(transport)@.state.queues[old(transport)@.state.queue_select as int].queue.layout
            },
        ),
        outcome == Ok::<_, DeviceError>(VirtioPciWriteOutcome::Nothing),
        *final(memory) == *old(memory),
{
}

/// A doubleword write at 0x28 sets the low half of the address of the ring that the driver fills; the other
/// half, the other addresses and everything else stay.
pub proof fn law_driver_ring_low_half_is_written<D: VirtioDeviceCore, M: GuestMemory>(
    transport: &mut VirtioPciTransport<D>,
    value: u64,
    dma_enabled: bool,
    memory: &mut M,
    outcome: DeviceResult<VirtioPciWriteOutcome>,
)
    requires
        call_ensures(
            VirtioPciTransport::<D>::write_mmio_with_dma::<M>,
            (transport, 0x28, AccessWidth::Dword, value, dma_enabled, memory),
            outcome,
        ),
    ensures
        ({
            let layout = old(transport)@.state.queues[old(transport)@.state.queue_select as int].queue.layout;
            let before = layout.avail_ring_addr;
            final(transport)@ == with_layout(
                old(transport)@,
                QueueLayout {
                    avail_ring_addr: (before / 0x1_0000_0000 * 0x1_0000_0000 + value % 0x1_0000_0000) as u64,
                    ..layout
                },
            )
        }),
        outcome == Ok::<_, DeviceError>(VirtioPciWriteOutcome::Nothing),
        *final(memory) == *old(memory),
{
}

/// A doubleword write at 0x2c sets the high half of the address of the ring that the driver fills; the other
/// half, the other addresses and everything else stay.
pub proof fn law_driver_ring_high_half_is_written<D: VirtioDeviceCore, M: GuestMemory>(
    transport: &mut VirtioPciTransport<D>,
    value: u64,
    dma_enabled: bool,
    memory: &mut M,
    outcome: DeviceResult<VirtioPciWriteOutcome>,
)
    requires
        call_ensures(
            VirtioPciTransport::<D>::write_mmio_with_dma::<M>,
            (transport, 0x2c, AccessWidth::Dword, value, dma_enabled, memory),
            outcome,
        ),
    ensures
        ({
            let layout = old(transport)@.state.queues[old(transport)@.state.queue_select as int].queue.layout;
            let before = layout.avail_ring_addr;
            final(transport)@ == with_layout(
                old(transport)@,
                QueueLayout {
                    avail_ring_addr: (value % 0x1_0000_0000 * 0x1_0000_0000 + before % 0x1_0000_0000) as u64,
                    ..layout
                },
            )
        }),
        outcome == Ok::<_, DeviceError>(VirtioPciWriteOutcome::Nothing),
        *final(memory) == *old(memory),
{
}

/// A quadword write at 0x30 sets the address of the ring that the device fills of the selected queue; the other
/// addresses and everything else stay.
pub proof fn law_device_ring_address_is_written<D: VirtioDeviceCore, M: GuestMemory>(
    transport: &mut VirtioPciTransport<D>,
    value: u64,
    dma_enabled: bool,
    memory: &mut M,
    outcome: DeviceResult<VirtioPciWriteOutcome>,
)
    requires
        call_ensures(
            VirtioPciTransport::<D>::write_mmio_with_dma::<M>,
            (transport, 0x30, AccessWidth::Qword, value, dma_enabled, memory),
            outcome,
        ),
    ensures
        final(transport)@ == with_layout(
            old(transport)@,
            QueueLayout {
                used_ring_addr: value,
                ..old(transport)@.state.queues[old(transport)@.state.queue_select as int].queue.layout
            },
        ),
        outcome == Ok::<_, DeviceError>(VirtioPciWriteOutcome::Nothing),
        *final(memory) == *old(memory),
{
}

/// A doubleword write at 0x30 sets the low half of the address of the ring that the device fills; the other
/// half, the other addresses and everything else stay.
pub proof fn law_device_ring_low_half_is_written<D: VirtioDeviceCore, M: GuestMemory>(
    transport: &mut VirtioPciTransport<D>,
    value: u64,
    dma_enabled: bool,
    memory: &mut M,
    outcome: DeviceResult<VirtioPciWriteOutcome>,
)
    requires
        call_ensures(
            VirtioPciTransport::<D>::write_mmio_with_dma::<M>,
            (transport, 0x30, AccessWidth::Dword, value, dma_enabled, memory),
            outcome,
        ),
    ensures
        ({
            let layout = old(transport)@.state.queues[old(transport)@.state.queue_select as int].queue.layout;
            let before = layout.used_ring_addr;
            final(transport)@ == with_layout(
                old(transport)@,
                QueueLayout {
                    used_ring_addr: (before / 0x1_0000_0000 * 0x1_0000_0000 + value % 0x1_0000_0000) as u64,
                    ..layout
                },
            )
        }),
        outcome == Ok::<_, DeviceError>(VirtioPciWriteOutcome::Nothing),
        *final(memory) == *old(memory),
{
}

/// A doubleword write at 0x34 sets the high half of the address of the ring that the device fills; the other
/// half, the other addresses and everything else stay.
pub proof fn law_device_ring_high_half_is_written<D: VirtioDeviceCore, M: GuestMemory>(
    transport: &mut VirtioPciTransport<D>,
    value: u64,
    dma_enabled: bool,
    memory: &mut M,
    outcome: DeviceResult<VirtioPciWriteOutcome>,
)
    requires
        call_ensures(
            VirtioPciTransport::<D>::write_mmio_with_dma::<M>,
            (transport, 0x34, AccessWidth::Dword, value, dma_enabled, memory),
            outcome,
        ),
    ensures
        ({
            let layout = old(transport)@.state.queues[old(transport)@.state.queue_select as int].queue.layout;
            let before = layout.used_ring_addr;
            final(transport)@ == with_layout(
                old(transport)@,
                QueueLayout {
                    used_ring_addr: (value % 0x1_0000_0000 * 0x1_0000_0000 + before % 0x1_0000_0000) as u64,
                    ..layout
                },
            )
        }),
        outcome == Ok::<_, DeviceError>(VirtioPciWriteOutcome::Nothing),
        *final(memory) == *old(memory),
{
}

/// A size that is a power of two and no larger than the queue allows becomes the size of the selected
/// queue; another one changes nothing.
pub proof fn law_queue_size_is_written<D: VirtioDeviceCore, M: GuestMemory>(
    transport: &mut VirtioPciTransport<D>,
    value: u64,
    dma_enabled: bool,
    memory: &mut M,
    outcome: DeviceResult<VirtioPciWriteOutcome>,
)
    requires
        call_ensures(
            VirtioPciTransport::<D>::write_mmio_with_dma::<M>,
            (transport, 0x18, AccessWidth::Word, value, dma_enabled, memory),
            outcome,
        ),
    ensures
        ({
            let size = value as int % 0x1_0000;
            let queue = old(transport)@.state.queues[old(transport)@.state.queue_select as int].queue;
            let sized = with_layout(
                old(transport)@,
                QueueLayout { size: size as u16, ..queue.layout },
            );
            let taken = old(transport)@.state.queue_select < old(transport)@.state.queues.len() && !old(transport)@.state.queues[old(transport)@.state.queue_select as int].processing && is_power(size) && size <= queue.max_size;
            &&& taken ==> final(transport)@ == (PciTransportModel {
                state: TransportModel { queue_size: size as u16, ..sized.state },
                ..sized
            })
            &&& !taken ==> final(transport)@ == old(transport)@
        }),
        outcome == Ok::<_, DeviceError>(VirtioPciWriteOutcome::Nothing),
        *final(memory) == *old(memory),
{
}

/// Enabling the selected queue takes all three addresses, and says so where one is missing; disabling
/// it takes none. Nothing else changes, and a queue that is with an operation stays as it is.
pub proof fn law_queue_enable_is_written<D: VirtioDeviceCore, M: GuestMemory>(
    transport: &mut VirtioPciTransport<D>,
    value: u64,
    dma_enabled: bool,
    memory: &mut M,
    outcome: DeviceResult<VirtioPciWriteOutcome>,
)
    requires
        call_ensures(
            VirtioPciTransport::<D>::write_mmio_with_dma::<M>,
            (transport, 0x1c, AccessWidth::Word, value, dma_enabled, memory),
            outcome,
        ),
    ensures
        ({
            let selected = old(transport)@.state.queue_select as int;
            let queue = old(transport)@.state.queues[selected];
            let layout = queue.queue.layout;
            let wanted = value as int % 0x1_0000 != 0;
            let placed = layout.desc_table_addr != 0 && layout.avail_ring_addr != 0
                && layout.used_ring_addr != 0;
            let programmable = selected < old(transport)@.state.queues.len() && !queue.processing;
            &&& programmable && (placed || !wanted) ==> final(transport)@ == (PciTransportModel {
                state: TransportModel {
                    queues: old(transport)@.state.queues.update(
                        selected,
                        QueueState { enabled: wanted, ..queue },
                    ),
                    ..old(transport)@.state
                },
                ..old(transport)@
            })
            &&& !programmable || wanted && !placed ==> final(transport)@ == old(transport)@
            &&& programmable && wanted && !placed ==> (outcome matches Err(
                DeviceError::InvalidData { .. },
            ))
            &&& !(programmable && wanted && !placed) ==> outcome == Ok::<_, DeviceError>(
                VirtioPciWriteOutcome::Nothing,
            )
        }),
        *final(memory) == *old(memory),
{
}

/// A nonzero status is kept as it is written, but for two things: features that the device does not
/// offer turn the bit that seals them into a failure, and a device that needs a reset says so until it
/// is reset. Nothing else changes.
pub proof fn law_device_status_is_written<D: VirtioDeviceCore, M: GuestMemory>(
    transport: &mut VirtioPciTransport<D>,
    value: u64,
    dma_enabled: bool,
    memory: &mut M,
    outcome: DeviceResult<VirtioPciWriteOutcome>,
)
    requires
        call_ensures(
            VirtioPciTransport::<D>::write_mmio_with_dma::<M>,
            (transport, 0x14, AccessWidth::Byte, value, dma_enabled, memory),
            outcome,
        ),
        value % 0x100 != 0,
    ensures
        ({
            let written = (value % 0x100) as u8;
            let status = final(transport)@.state.status;
            let foreign = old(transport)@.state.driver_features & !old(transport)@.device_features != 0;
            let refused = written & 8 != 0 && foreign;
            let faulted = old(transport)@.state.device_needs_reset;
            &&& !refused && !faulted ==> status == written
            &&& refused ==> status & 8 == 0 && status & 128 == 128
            &&& faulted ==> status & 64 == 64
            &&& status & 0x37 == written & 0x37
            &&& !refused ==> status & 0x88 == written & 0x88
            &&& !faulted ==> status & 64 == written & 64
        }),
        final(transport)@ == (PciTransportModel {
            state: TransportModel { status: final(transport)@.state.status, ..old(transport)@.state },
            ..old(transport)@
        }),
        outcome == Ok::<_, DeviceError>(VirtioPciWriteOutcome::Nothing),
        *final(memory) == *old(memory),
{
    lemma_status((value % 0x100) as u8);
}

/// Bits of a status byte.
proof fn lemma_status(status: u8)
    by (bit_vector)
    ensures
        ((status & !8) | 128) & 8 == 0,
        ((status & !8) | 128) & 128 == 128,
        ((status & !8) | 128) & 64 == status & 64,
        ((status & !8) | 128) & 0x37 == status & 0x37,
        (((status & !8) | 128) | 64) & 8 == 0,
        (((status & !8) | 128) | 64) & 128 == 128,
        (((status & !8) | 128) | 64) & 64 == 64,
        (((status & !8) | 128) | 64) & 0x37 == status & 0x37,
        (status | 64) & 64 == 64,
        (status | 64) & 0x37 == status & 0x37,
        (status | 64) & 0x88 == status & 0x88,
{
}

/// A zero status resets the device: with no operation inside and no other reset going on, everything
/// that the driver programmed is forgotten, the interrupt line is lowered, and a new lifetime begins; the
/// status asks for a reset until the reset is complete. Otherwise the write fails.
pub proof fn law_zero_status_resets<D: VirtioDeviceCore, M: GuestMemory>(
    transport: &mut VirtioPciTransport<D>,
    value: u64,
    dma_enabled: bool,
    memory: &mut M,
    outcome: DeviceResult<VirtioPciWriteOutcome>,
)
    requires
        call_ensures(
            VirtioPciTransport::<D>::write_mmio_with_dma::<M>,
            (transport, 0x14, AccessWidth::Byte, value, dma_enabled, memory),
            outcome,
        ),
        value % 0x100 == 0,
    ensures
        ({
            let before = old(transport)@;
            let after = final(transport)@;
            let free = !before.activity.resetting && before.activity.active == 0;
            &&& free ==> (outcome matches Ok(VirtioPciWriteOutcome::Reset { interrupt })
                && !(interrupt is Assert) && after.interrupts.in_flight == interrupt)
            &&& !free ==> (outcome matches Err(DeviceError::InvalidState { .. }))
                && after.state == before.state && after.interrupts == before.interrupts
            &&& after.core == before.core && after.queue_size_max == before.queue_size_max
                && after.device_features == before.device_features
            &&& free ==> after.state.device_feature_select == 0
                && after.state.driver_feature_select == 0 && after.state.driver_features == 0
                && after.state.msix_config == 0xffff && after.state.status == 64
                && after.state.queue_select == 0 && after.state.queue_size
                == before.queue_size_max && !after.state.fault_reported
                && after.state.device_needs_reset && after.state.reset_pending
            &&& free ==> after.state.config_generation == (before.state.config_generation + 1)
                % 0x100
            &&& free && before.state.queue_generation < u64::MAX ==> after.state.queue_generation
                == before.state.queue_generation + 1
            &&& free ==> after.interrupts.pending == 0 && !after.activity.accepting
                && after.activity.resetting
            &&& free ==> after.state.queues.len() == before.state.queues.len()
            &&& free ==> forall|i: int|
                #![trigger after.state.queues[i]]
                0 <= i < after.state.queues.len() ==> {
                    let queue = after.state.queues[i];
                    &&& !queue.enabled && !queue.processing
                    &&& queue.queue.layout.size == queue.queue.max_size
                    &&& queue.queue.max_size == before.state.queues[i].queue.max_size
                    &&& queue.queue.layout.desc_table_addr == 0 && queue.queue.layout.avail_ring_addr
                        == 0 && queue.queue.layout.used_ring_addr == 0
                    &&& !queue.queue.layout.ready && queue.queue.last_avail_idx == 0
                        && !queue.queue.faulted
                }
        }),
        *final(memory) == *old(memory),
{
}

/// A write that meets no register changes nothing; read-only registers take it and keep what they
/// have.
pub proof fn law_other_writes_change_nothing<D: VirtioDeviceCore, M: GuestMemory>(
    transport: &mut VirtioPciTransport<D>,
    offset: u64,
    width: AccessWidth,
    value: u64,
    dma_enabled: bool,
    memory: &mut M,
    outcome: DeviceResult<VirtioPciWriteOutcome>,
)
    requires
        call_ensures(
            VirtioPciTransport::<D>::write_mmio_with_dma::<M>,
            (transport, offset, width, value, dma_enabled, memory),
            outcome,
        ),
        ({
            ||| offset < 0x100 && !is_common_register(offset as int, width)
            ||| is_read_only(offset as int, width)
            ||| offset == 0x100 && !(width is Word)
            ||| 0x100 < offset < 0x300
            ||| offset >= 0x1000
        }),
    ensures
        final(transport)@ == old(transport)@,
        *final(memory) == *old(memory),
        is_read_only(offset as int, width) ==> outcome == Ok::<_, DeviceError>(
            VirtioPciWriteOutcome::Nothing,
        ),
        !is_read_only(offset as int, width) ==> outcome == Err::<VirtioPciWriteOutcome, _>(
            DeviceError::OutOfRange { addr: offset },
        ),
{
}

/// The registers of the common configuration that a driver cannot change.
pub open spec fn is_read_only(offset: int, width: AccessWidth) -> bool {
    match width {
        AccessWidth::Byte => offset == 0x15,
        AccessWidth::Word => offset == 0x10 || offset == 0x12 || offset == 0x1a || offset == 0x1e,
        AccessWidth::Dword => offset == 0x04,
        AccessWidth::Qword => false,
    }
}

/// A write to the device's own configuration goes to the device, with its distance from 0x300, and
/// touches nothing of the transport.
pub proof fn law_device_config_is_written_by_the_device<D: VirtioDeviceCore, M: GuestMemory>(
    transport: &mut VirtioPciTransport<D>,
    offset: u64,
    width: AccessWidth,
    value: u64,
    dma_enabled: bool,
    memory: &mut M,
    outcome: DeviceResult<VirtioPciWriteOutcome>,
)
    requires
        call_ensures(
            VirtioPciTransport::<D>::write_mmio_with_dma::<M>,
            (transport, offset, width, value, dma_enabled, memory),
            outcome,
        ),
        0x300 <= offset < 0x1000,
    ensures
        *final(memory) == *old(memory),
        final(transport)@ == (PciTransportModel {
            core: final(transport)@.core,
            ..old(transport)@
        }),
        exists|device: &mut D, said: DeviceResult<()>|
            {
                &&& #[trigger] call_ensures(
                    D::write_config,
                    (device, (offset - 0x300) as u64, width, value),
                    said,
                )
                &&& *device == old(transport)@.core
                &&& *final(device) == final(transport)@.core
                &&& outcome is Ok <==> said is Ok
                &&& said matches Err(error) ==> outcome == Err::<VirtioPciWriteOutcome, _>(error)
            },
{
}

/// The three addresses of a queue are written one by one and read back as written.
pub proof fn law_queue_addresses_read_back<D: VirtioDeviceCore, M: GuestMemory>(
    first: &mut VirtioPciTransport<D>,
    second: &mut VirtioPciTransport<D>,
    third: &mut VirtioPciTransport<D>,
    after: VirtioPciTransport<D>,
    table: u64,
    driver: u64,
    device: u64,
    dma_enabled: bool,
    memory: &mut M,
    more: &mut M,
    last: &mut M,
    outcomes: (
        DeviceResult<VirtioPciWriteOutcome>,
        DeviceResult<VirtioPciWriteOutcome>,
        DeviceResult<VirtioPciWriteOutcome>,
    ),
    read: (DeviceResult<u64>, DeviceResult<u64>, DeviceResult<u64>),
)
    requires
        old(first)@.state.queue_select < old(first)@.state.queues.len(),
        !old(first)@.state.queues[old(first)@.state.queue_select as int].processing,
        call_ensures(
            VirtioPciTransport::<D>::write_mmio_with_dma::<M>,
            (first, 0x20, AccessWidth::Qword, table, dma_enabled, memory),
            outcomes.0,
        ),
        *old(second) == *final(first),
        call_ensures(
            VirtioPciTransport::<D>::write_mmio_with_dma::<M>,
            (second, 0x28, AccessWidth::Qword, driver, dma_enabled, more),
            outcomes.1,
        ),
        *old(third) == *final(second),
        call_ensures(
            VirtioPciTransport::<D>::write_mmio_with_dma::<M>,
            (third, 0x30, AccessWidth::Qword, device, dma_enabled, last),
            outcomes.2,
        ),
        after == *final(third),
        call_ensures(
            VirtioPciTransport::<D>::read_mmio,
            (&after, 0x20, AccessWidth::Qword),
            read.0,
        ),
        call_ensures(
            VirtioPciTransport::<D>::read_mmio,
            (&after, 0x28, AccessWidth::Qword),
            read.1,
        ),
        call_ensures(
            VirtioPciTransport::<D>::read_mmio,
            (&after, 0x30, AccessWidth::Qword),
            read.2,
        ),
    ensures
        read.0 == Ok::<u64, DeviceError>(table),
        read.1 == Ok::<u64, DeviceError>(driver),
        read.2 == Ok::<u64, DeviceError>(device),
        ({
            let selected = old(first)@.state.queue_select as int;
            let layout = after@.state.queues[selected].queue.layout;
            &&& layout.desc_table_addr == table
            &&& layout.avail_ring_addr == driver
            &&& layout.used_ring_addr == device
        }),
{
    law_descriptor_table_address_is_written(first, table, dma_enabled, memory, outcomes.0);
    law_driver_ring_address_is_written(second, driver, dma_enabled, more, outcomes.1);
    law_device_ring_address_is_written(third, device, dma_enabled, last, outcomes.2);
    law_common_register_map(after, 0x20, AccessWidth::Qword, read.0);
    law_common_register_map(after, 0x28, AccessWidth::Qword, read.1);
    law_common_register_map(after, 0x30, AccessWidth::Qword, read.2);
}

/// A notification of a queue that does not exist fails, and one that finds the driver not ready, the
/// device in need of a reset, the queue disabled or with an operation, or the function without bus
/// mastering does nothing.
pub proof fn law_unready_notification_does_nothing<D: VirtioDeviceCore, M: GuestMemory>(
    transport: &mut VirtioPciTransport<D>,
    value: u64,
    dma_enabled: bool,
    memory: &mut M,
    outcome: DeviceResult<VirtioPciWriteOutcome>,
)
    requires
        call_ensures(
            VirtioPciTransport::<D>::write_mmio_with_dma::<M>,
            (transport, 0x100, AccessWidth::Word, value, dma_enabled, memory),
            outcome,
        ),
    ensures
        ({
            let state = old(transport)@.state;
            let index = value as int % 0x1_0000;
            let present = index < state.queues.len();
            let ready = state.status & 4 != 0 && state.status & 64 == 0
                && state.queues[index].enabled && !state.queues[index].processing && dma_enabled;
            let admitted = old(transport)@.activity.accepting && old(transport)@.activity.active < usize::MAX;
            &&& !present || !ready || !admitted ==> final(transport)@ == old(transport)@
                && *final(memory) == *old(memory)
            &&& !present ==> (outcome matches Err(DeviceError::InvalidInput { .. }))
            &&& present && !ready ==> (outcome matches Ok(
                VirtioPciWriteOutcome::QueueNotified(notification),
            ) && notification.outcome is Idle && notification.interrupt is Unchanged
                && notification.activity is None)
            &&& present && ready && !admitted ==> (outcome matches Err(
                DeviceError::InvalidState { .. },
            ))
            &&& present && ready && admitted ==> outcome is Ok
        }),
{
}

/// A notification that is taken hands the queue, as the driver programmed it and marked ready, to the
/// device, and puts back what the device made of it. Used buffers raise the queue interrupt where the
/// driver asked for it; a failure of the rings or of the device latches the need of a reset. Other
/// queues stay as they are, and the operation counts as inside until its permit is released.
pub proof fn law_notification_hands_the_queue_to_the_device<D: VirtioDeviceCore, M: GuestMemory>(
    transport: &mut VirtioPciTransport<D>,
    value: u64,
    memory: &mut M,
    outcome: VirtioPciWriteOutcome,
)
    requires
        call_ensures(
            VirtioPciTransport::<D>::write_mmio_with_dma::<M>,
            (transport, 0x100, AccessWidth::Word, value, true, memory),
            Ok(outcome),
        ),
        ({
            let state = old(transport)@.state;
            let index = value as int % 0x1_0000;
            &&& index < state.queues.len()
            &&& state.status & 4 != 0 && state.status & 64 == 0
            &&& state.queues[index].enabled && !state.queues[index].processing
            &&& old(transport)@.activity.accepting && old(transport)@.activity.active < usize::MAX
        }),
    ensures
        ({
            let before = old(transport)@;
            let after = final(transport)@;
            let index = value as int % 0x1_0000;
            let lent = before.state.queues[index].queue;
            &&& after.activity.active == before.activity.active + 1 && after.activity.accepting
            &&& after.state.queues.len() == before.state.queues.len()
            &&& after.state.queues[index].enabled && !after.state.queues[index].processing
            &&& forall|i: int|
                #![trigger after.state.queues[i]]
                0 <= i < after.state.queues.len() && i != index ==> after.state.queues[i]
                    == before.state.queues[i]
            &&& after.state.driver_features == before.state.driver_features
                && after.state.queue_select == before.state.queue_select
                && after.state.queue_generation == before.state.queue_generation
            &&& match outcome {
                VirtioPciWriteOutcome::QueueNotified(notification) => {
                    &&& !(notification.outcome is Deferred)
                    &&& notification.activity == Some(
                        ActivityPermit {
                            generation: crate::virtio::queue::VirtioQueueGeneration(
                                before.state.queue_generation,
                            ),
                        },
                    )
                    &&& after.state.status == before.state.status
                    &&& notification.outcome == (QueueNotifyOutcome::Completed { notify: true })
                        ==> after.interrupts.pending == before.interrupts.pending | 1 && hands_out(
                        before.interrupts,
                        after.interrupts,
                        notification.interrupt,
                    )
                    &&& notification.outcome != (QueueNotifyOutcome::Completed { notify: true })
                        ==> after.interrupts == before.interrupts
                        && notification.interrupt is Unchanged
                    &&& exists|
                        device: &mut D,
                        queue: &mut VirtioQueue<NoGuestMemoryAccessor>,
                        guest: &mut M,
                    |
                        {
                            &&& #[trigger] call_ensures(
                                D::notify_queue::<M>,
                                (device, queue, guest),
                                Ok(notification.outcome),
                            )
                            &&& *device == before.core && *final(device) == after.core
                            &&& *queue == (VirtioQueue {
                                layout: QueueLayout { ready: true, ..lent.layout },
                                ..lent
                            })
                            &&& *final(queue) == after.state.queues[index].queue
                            &&& *final(guest) == *final(memory)
                        }
                },
                VirtioPciWriteOutcome::Fault { error, interrupt, activity } => {
                    &&& activity.generation.0 == before.state.queue_generation
                    &&& after.state.status == before.state.status | 64
                    &&& after.state.device_needs_reset && after.state.fault_reported
                    &&& !before.state.fault_reported ==> after.interrupts.pending
                        == before.interrupts.pending | 2 && hands_out(
                        before.interrupts,
                        after.interrupts,
                        interrupt,
                    )
                    &&& before.state.fault_reported ==> after.interrupts == before.interrupts
                        && interrupt is Unchanged
                },
                _ => false,
            }
        }),
{
    let before = old(transport)@;
    let after = final(transport)@;
    let index = value as int % 0x1_0000;
    assert(crate::virtio::pci_registers::notified_queue(value) == index);
    let (calls, states, device, queue) = choose|
        calls: Seq<&mut M>,
        states: Seq<M>,
        device: Option<&mut D>,
        queue: Option<&mut VirtioQueue<NoGuestMemoryAccessor>>,
    |
        {
            &&& #[trigger] is_chain(calls, states)
            &&& states.first() == *old(memory)
            &&& states.last() == *final(memory)
            &&& forall|i: int|
                0 <= i < calls.len() ==> *final(#[trigger] calls[i]) == states[i + 1]
            &&& #[trigger] is_work(device, queue)
            &&& device matches Some(device) ==> *final(device) == after.core
            &&& queue matches Some(queue) ==> *final(queue) == after.state.queues[index].queue
            &&& crate::virtio::pci_registers::is_bar_write(
                calls,
                device,
                queue,
                before,
                0x100,
                AccessWidth::Word,
                value,
                true,
                after,
                Ok(outcome),
            )
        };
    assert(before.state.notifiable(index, true));
    let (placeholder, answer) = choose|
        placeholder: QueueState,
        answer: DeviceResult<QueueNotifyOutcome>,
    | #[trigger]
        is_processed(calls, device, queue, before, index, placeholder, answer, after, outcome);
    assert(is_processed(calls, device, queue, before, index, placeholder, answer, after, outcome));
    if answer is Ok {
        assert(*final(calls.last()) == states[calls.len() - 1 + 1]);
        assert(calls.len() + 1 == states.len());
    }
}

/// A completed reset publishes a zero status and lets notifications in again; without a reset that
/// waits for it nothing changes.
pub proof fn law_completed_reset_opens_the_device<D>(transport: &mut VirtioPciTransport<D>)
    requires
        call_ensures(VirtioPciTransport::<D>::complete_reset, (transport,), ()),
    ensures
        !old(transport)@.state.reset_pending ==> final(transport)@ == old(transport)@,
        old(transport)@.state.reset_pending ==> {
            &&& final(transport)@.state == (TransportModel {
                status: 0,
                device_needs_reset: false,
                reset_pending: false,
                ..old(transport)@.state
            })
            &&& final(transport)@.activity.accepting && !final(transport)@.activity.resetting
            &&& final(transport)@.activity.active == old(transport)@.activity.active
            &&& final(transport)@.interrupts == old(transport)@.interrupts
            &&& final(transport)@.core == old(transport)@.core
        },
{
}

/// A reset that is given up leaves the device in need of one, with its barrier closed.
pub proof fn law_aborted_reset_keeps_the_need<D>(transport: &mut VirtioPciTransport<D>)
    requires
        call_ensures(VirtioPciTransport::<D>::abort_reset, (transport,), ()),
    ensures
        !final(transport)@.state.reset_pending,
        !final(transport)@.activity.resetting,
        final(transport)@.activity.accepting == old(transport)@.activity.accepting,
        final(transport)@.state.status == old(transport)@.state.status,
        final(transport)@.state.device_needs_reset == old(transport)@.state.device_needs_reset,
        final(transport)@.state.queues == old(transport)@.state.queues,
        final(transport)@.interrupts == old(transport)@.interrupts,
{
}

/// Enabling or disabling the line through the transport does what it does to the line itself, and
/// nothing else.
pub proof fn law_transport_passes_the_disable_on<D>(
    transport: &mut VirtioPciTransport<D>,
    disabled: bool,
    request: InterruptTransitionRequest,
)
    requires
        call_ensures(
            VirtioPciTransport::<D>::set_interrupt_disabled,
            (transport, disabled),
            request,
        ),
    ensures
        final(transport)@.interrupts.disabled == disabled,
        final(transport)@.interrupts.pending == old(transport)@.interrupts.pending,
        hands_out(
            old(transport)@.interrupts,
            final(transport)@.interrupts,
            request.transition,
        ),
        request.activity is None,
        final(transport)@ == (PciTransportModel {
            interrupts: final(transport)@.interrupts,
            ..old(transport)@
        }),
{
}

/// A device can be served if it has one queue, whose size is a power of two, and does not answer
/// later; its transport then starts blank, with that queue, and offers what the device offers.
pub proof fn law_transport_takes_simple_devices(
    queue_num_max: u16,
    queue_size_max: u16,
    deferred: bool,
    result: DeviceResult<()>,
)
    requires
        call_ensures(
            crate::virtio::pci_registers::check_core,
            (queue_num_max, queue_size_max, deferred),
            result,
        ),
    ensures
        result is Ok <==> queue_num_max == 1 && is_power(queue_size_max as int) && !deferred,
        result matches Err(error) ==> (error is Unsupported <==> queue_num_max > 0 && is_power(
            queue_size_max as int,
        ) && deferred),
{
}

} // verus!
