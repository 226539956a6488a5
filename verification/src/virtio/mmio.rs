//! VirtIO MMIO transport state machine.
//!
//! Device implementations own only their device-specific config space and data paths. The
//! standard register set (magic, version, feature selectors, driver features, queue
//! selector, size and readiness, queue addresses, status, interrupt status and
//! acknowledgement, config generation) is handled here.

use crate::access::AccessWidth;
#[allow(unused_imports)]
use crate::calls::{is_chain, lemma_unchanged_states};
use crate::virtio::queue::{
    AddressSpaceMemory, GuestMemory, GuestMemoryAccessor, QueueLayout, VirtioError, VirtioQueue,
    VirtioQueueGeneration, VirtioResult, DEFAULT_QUEUE_SIZE, VIRTIO_F_RING_EVENT_IDX,
    VIRTIO_STATUS_DRIVER_OK, VIRTIO_STATUS_FAILED, VIRTIO_STATUS_FEATURES_OK,
};
#[allow(unused_imports)]
use crate::virtio::queue::{finds_byte, is_probing, next_generation, says_write};
use vstd::prelude::*;

verus! {

/// Register that identifies the transport.
pub const VIRTIO_MMIO_MAGIC_VALUE: u64 = 0x000;

/// Register that holds the transport version.
pub const VIRTIO_MMIO_VERSION: u64 = 0x004;

/// Register that holds the device type.
pub const VIRTIO_MMIO_DEVICE_ID: u64 = 0x008;

/// Register that holds the vendor.
pub const VIRTIO_MMIO_VENDOR_ID: u64 = 0x00c;

/// Window onto the device's features.
pub const VIRTIO_MMIO_DEVICE_FEATURES: u64 = 0x010;

/// Selector of the device-feature window.
pub const VIRTIO_MMIO_DEVICE_FEATURES_SEL: u64 = 0x014;

/// Window onto the driver's features.
pub const VIRTIO_MMIO_DRIVER_FEATURES: u64 = 0x020;

/// Selector of the driver-feature window.
pub const VIRTIO_MMIO_DRIVER_FEATURES_SEL: u64 = 0x024;

/// Selector of the queue registers.
pub const VIRTIO_MMIO_QUEUE_SEL: u64 = 0x030;

/// Largest size of the selected queue.
pub const VIRTIO_MMIO_QUEUE_NUM_MAX: u64 = 0x034;

/// Size of the selected queue.
pub const VIRTIO_MMIO_QUEUE_NUM: u64 = 0x038;

/// Readiness of the selected queue.
pub const VIRTIO_MMIO_QUEUE_READY: u64 = 0x044;

/// Queue notification.
pub const VIRTIO_MMIO_QUEUE_NOTIFY: u64 = 0x050;

/// Pending interrupt bits.
pub const VIRTIO_MMIO_INTERRUPT_STATUS: u64 = 0x060;

/// Interrupt acknowledgement.
pub const VIRTIO_MMIO_INTERRUPT_ACK: u64 = 0x064;

/// Device status.
pub const VIRTIO_MMIO_STATUS: u64 = 0x070;

/// Low half of the descriptor table's address.
pub const VIRTIO_MMIO_QUEUE_DESC_LOW: u64 = 0x080;

/// High half of the descriptor table's address.
pub const VIRTIO_MMIO_QUEUE_DESC_HIGH: u64 = 0x084;

/// Low half of the driver ring's address.
pub const VIRTIO_MMIO_QUEUE_AVAIL_LOW: u64 = 0x090;

/// High half of the driver ring's address.
pub const VIRTIO_MMIO_QUEUE_AVAIL_HIGH: u64 = 0x094;

/// Low half of the device ring's address.
pub const VIRTIO_MMIO_QUEUE_USED_LOW: u64 = 0x0a0;

/// High half of the device ring's address.
pub const VIRTIO_MMIO_QUEUE_USED_HIGH: u64 = 0x0a4;

/// Generation of the device-specific configuration.
pub const VIRTIO_MMIO_CONFIG_GENERATION: u64 = 0x0fc;

/// Start of the device-specific configuration.
pub const VIRTIO_MMIO_CONFIG_OFFSET: u64 = 0x100;

/// Value of the magic register, "virt" in little-endian order.
pub const MMIO_MAGIC_VALUE: u32 = 0x7472_6976;

/// Value of the version register.
pub const MMIO_VERSION: u32 = 2;

/// Number of values of a 32-bit half.
pub const HALF: u64 = 0x1_0000_0000;

/// Result of a standard-register MMIO read.
#[derive(Clone, Copy, Debug, PartialEq, Eq, Structural)]
pub enum MmioReadOutcome {
    /// A standard register value.
    Standard(u32),
    /// A read inside the device-specific config region; the device interprets it.
    DeviceConfig {
        /// Offset inside the region.
        offset: u64,
        /// Width of the access.
        width: AccessWidth,
    },
}

/// Side effect that an MMIO write asks the device to perform.
#[derive(Clone, Copy, Debug, PartialEq, Eq, Structural)]
pub enum MmioWriteAction {
    /// Nothing for the device to do.
    Nothing,
    /// The guest kicked a queue; the device runs its data path.
    QueueNotified {
        /// Queue selected by the guest notification.
        index: u16,
        /// Queue configuration lifetime observed for this notification.
        generation: VirtioQueueGeneration,
    },
    /// The guest started a reset; the device completes its own cleanup before the final
    /// status is published.
    Reset,
    /// An acknowledged interrupt bit was raised again after the guest's last
    /// interrupt-status read and must be signalled again.
    InterruptPending,
}

/// Interrupt bits of the transport.
#[derive(Clone, Copy, Debug, PartialEq, Eq, Structural)]
pub struct InterruptState {
    /// Bits that the driver has yet to acknowledge.
    pub pending: u32,
    /// Bits that were raised after the driver last read the status.
    pub raised_after_read: u32,
}

/// Number of looks after which a runtime that shares a transport stops waiting for the operations
/// inside it to leave, before a reset.
pub const RESET_DRAIN_SPIN_LIMIT: usize = 1_048_576;

/// Barrier that queue-processing operations pass.
#[derive(Clone, Copy, Debug, PartialEq, Eq, Structural)]
pub struct MmioActivity {
    /// Whether new operations are let in.
    pub accepting: bool,
    /// Operations that are inside.
    pub active: usize,
    /// Whether a reset has begun and is not complete.
    pub resetting: bool,
    /// Queue configuration lifetime.
    pub generation: u64,
}

/// Right of one queue-processing operation to be inside the barrier.
#[derive(Debug)]
pub struct MmioActivityPermit {
    /// Lifetime that the operation was let in for.
    pub generation: VirtioQueueGeneration,
}

impl MmioActivity {
    /// The open barrier of the first lifetime.
    pub open spec fn fresh() -> MmioActivity {
        MmioActivity { accepting: true, active: 0, resetting: false, generation: 0 }
    }

    /// Whether an operation of `generation` may enter.
    pub open spec fn admits(self, generation: u64) -> bool {
        self.accepting && self.generation == generation && self.active < usize::MAX
    }

    /// Whether a reset that begins now succeeds.
    pub open spec fn may_reset(self) -> bool {
        !self.resetting && self.active == 0
    }

    /// The barrier after a reset was asked for.
    pub open spec fn reset_begun(self) -> MmioActivity {
        if self.resetting {
            self
        } else {
            MmioActivity {
                accepting: false,
                resetting: self.active == 0,
                generation: next_generation(self.generation),
                ..self
            }
        }
    }

    /// Lets an operation of the given lifetime in.
    pub fn acquire(&mut self, generation: VirtioQueueGeneration) -> (permit: Option<
        MmioActivityPermit,
    >)
        ensures
            permit is Some <==> old(self).admits(generation.0),
            permit matches Some(granted) ==> granted.generation == generation && *final(self) == (
            MmioActivity { active: (old(self).active + 1) as usize, ..*old(self) }),
            permit is None ==> *final(self) == *old(self),
    {
        if !self.accepting || self.generation != generation.0 || self.active == usize::MAX {
            return None;
        }
        self.active = self.active + 1;
        Some(MmioActivityPermit { generation })
    }

    /// Takes an operation out again.
    pub fn release(&mut self, permit: MmioActivityPermit)
        ensures
            *final(self) == (MmioActivity {
                active: if old(self).active == 0 {
                    0
                } else {
                    (old(self).active - 1) as usize
                },
                ..*old(self)
            }),
    {
        if self.active > 0 {
            self.active = self.active - 1;
        }
    }

    /// Closes the barrier for a reset, which starts a new lifetime; fails while another reset is
    /// going on or an operation is inside. After a failure of the latter kind the barrier stays
    /// closed and a reset can be asked for again.
    ///
    /// Nothing inside can leave during this call, so one look decides. A runtime that shares the
    /// transport waits for what is inside before it asks, for at most
    /// [`RESET_DRAIN_SPIN_LIMIT`] looks.
    pub fn begin_reset(&mut self) -> (begun: bool)
        ensures
            begun == old(self).may_reset(),
            *final(self) == old(self).reset_begun(),
    {
        if self.resetting {
            return false;
        }
        self.accepting = false;
        self.generation = if self.generation == u64::MAX {
            0
        } else {
            self.generation + 1
        };
        self.resetting = self.active == 0;
        self.resetting
    }

    /// Opens the barrier after a reset.
    pub fn reopen(&mut self)
        ensures
            *final(self) == (MmioActivity { accepting: true, resetting: false, ..*old(self) }),
    {
        self.accepting = true;
        self.resetting = false;
    }
}

/// VirtIO MMIO transport state plus the device's queues.
///
/// `device_id`, `vendor_id` and `device_features` are fixed at construction. Feature
/// negotiation is validated here: the driver's features must be a subset of the device's when
/// the driver seals `FEATURES_OK`.
pub struct VirtioMmioState<T> {
    /// Guest address of the register block.
    pub base_ipa: u64,
    /// Bytes of the register block.
    pub length: u64,
    /// Device type.
    pub device_id: u32,
    /// Vendor.
    pub vendor_id: u32,
    /// Features that the device offers.
    pub device_features: u64,
    /// Status register.
    pub status: u32,
    /// Features that the driver accepted.
    pub driver_features: u64,
    /// Whether negotiation is complete.
    pub features_sealed: bool,
    /// Selected device-feature window.
    pub device_features_sel: u32,
    /// Selected driver-feature window.
    pub driver_features_sel: u32,
    /// Selected queue.
    pub queue_sel: u16,
    /// The queues.
    pub queues: Vec<VirtioQueue<T>>,
    /// Which queues are with an operation.
    pub queue_processing: Vec<bool>,
    /// Barrier of those operations.
    pub activity: MmioActivity,
    /// Interrupt bits.
    pub interrupt: InterruptState,
    /// Generation of the device-specific configuration.
    pub config_generation: u32,
}

/// What a [`VirtioMmioState`] holds, with its queues as sequences.
#[verifier::ext_equal]
pub struct MmioModel<T> {
    /// Guest address of the register block.
    pub base_ipa: u64,
    /// Bytes of the register block.
    pub length: u64,
    /// Device type.
    pub device_id: u32,
    /// Vendor.
    pub vendor_id: u32,
    /// Features that the device offers.
    pub device_features: u64,
    /// Status register.
    pub status: u32,
    /// Features that the driver accepted.
    pub driver_features: u64,
    /// Whether negotiation is complete.
    pub features_sealed: bool,
    /// Selected device-feature window.
    pub device_features_sel: u32,
    /// Selected driver-feature window.
    pub driver_features_sel: u32,
    /// Selected queue.
    pub queue_sel: u16,
    /// The queues.
    pub queues: Seq<VirtioQueue<T>>,
    /// Which queues are with an operation.
    pub processing: Seq<bool>,
    /// Barrier of those operations.
    pub activity: MmioActivity,
    /// Interrupt bits.
    pub interrupt: InterruptState,
    /// Generation of the device-specific configuration.
    pub config_generation: u32,
}

impl<T> View for VirtioMmioState<T> {
    type V = MmioModel<T>;

    open spec fn view(&self) -> MmioModel<T> {
        MmioModel {
            base_ipa: self.base_ipa,
            length: self.length,
            device_id: self.device_id,
            vendor_id: self.vendor_id,
            device_features: self.device_features,
            status: self.status,
            driver_features: self.driver_features,
            features_sealed: self.features_sealed,
            device_features_sel: self.device_features_sel,
            driver_features_sel: self.driver_features_sel,
            queue_sel: self.queue_sel,
            queues: self.queues@,
            processing: self.queue_processing@,
            activity: self.activity,
            interrupt: self.interrupt,
            config_generation: self.config_generation,
        }
    }
}

/// The 32-bit half of `word` with the given number, zero past the second.
pub open spec fn half_of(word: u64, selector: u32) -> u32 {
    if selector == 0 {
        (word % HALF) as u32
    } else if selector == 1 {
        (word / HALF) as u32
    } else {
        0
    }
}

/// `word` with its 32-bit half of the given number replaced.
pub open spec fn with_half(word: u64, selector: u32, half: u32) -> u64 {
    if selector == 0 {
        (word / HALF * HALF + half) as u64
    } else if selector == 1 {
        (half * HALF + word % HALF) as u64
    } else {
        word
    }
}

/// Returns one half of a 64-bit word, zero past the second.
pub fn select_half(word: u64, selector: u32) -> (half: u32)
    ensures
        half == half_of(word, selector),
{
    if selector >= 2 {
        return 0;
    }
    assert(word % 0x1_0000_0000 < 0x1_0000_0000 && word / 0x1_0000_0000 < 0x1_0000_0000);
    if selector == 0 {
        (word % HALF) as u32
    } else {
        (word / HALF) as u32
    }
}

/// Combines a 32-bit half with the current value of the other half.
pub fn combine_half(current: u64, selector: u32, half: u32) -> (combined: u64)
    ensures
        combined == with_half(current, selector, half),
{
    assert((current & 0xffff_ffff_0000_0000) | (half as u64) == current / 0x1_0000_0000
        * 0x1_0000_0000 + half) by (bit_vector);
    assert((current & 0x0000_0000_ffff_ffff) | ((half as u64) << 32) == half * 0x1_0000_0000
        + current % 0x1_0000_0000) by (bit_vector);
    if selector == 0 {
        (current & 0xffff_ffff_0000_0000) | (half as u64)
    } else if selector == 1 {
        (current & 0x0000_0000_ffff_ffff) | ((half as u64) << 32)
    } else {
        current
    }
}

/// `queue` with its event-index suppression switched.
pub open spec fn with_event_idx<T>(queue: VirtioQueue<T>, enabled: bool) -> VirtioQueue<T> {
    VirtioQueue { layout: QueueLayout { event_idx_enabled: enabled, ..queue.layout }, ..queue }
}

/// `layout` after a write of `half` to an address register.
pub open spec fn addressed(layout: QueueLayout, register: u64, half: u32) -> QueueLayout {
    if register == VIRTIO_MMIO_QUEUE_DESC_LOW {
        QueueLayout { desc_table_addr: with_half(layout.desc_table_addr, 0, half), ..layout }
    } else if register == VIRTIO_MMIO_QUEUE_DESC_HIGH {
        QueueLayout { desc_table_addr: with_half(layout.desc_table_addr, 1, half), ..layout }
    } else if register == VIRTIO_MMIO_QUEUE_AVAIL_LOW {
        QueueLayout { avail_ring_addr: with_half(layout.avail_ring_addr, 0, half), ..layout }
    } else if register == VIRTIO_MMIO_QUEUE_AVAIL_HIGH {
        QueueLayout { avail_ring_addr: with_half(layout.avail_ring_addr, 1, half), ..layout }
    } else if register == VIRTIO_MMIO_QUEUE_USED_LOW {
        QueueLayout { used_ring_addr: with_half(layout.used_ring_addr, 0, half), ..layout }
    } else if register == VIRTIO_MMIO_QUEUE_USED_HIGH {
        QueueLayout { used_ring_addr: with_half(layout.used_ring_addr, 1, half), ..layout }
    } else {
        layout
    }
}

/// Whether `register` holds half of a queue address.
pub open spec fn is_address_register(register: u64) -> bool {
    register == VIRTIO_MMIO_QUEUE_DESC_LOW || register == VIRTIO_MMIO_QUEUE_DESC_HIGH || register
        == VIRTIO_MMIO_QUEUE_AVAIL_LOW || register == VIRTIO_MMIO_QUEUE_AVAIL_HIGH || register
        == VIRTIO_MMIO_QUEUE_USED_LOW || register == VIRTIO_MMIO_QUEUE_USED_HIGH
}

impl<T> MmioModel<T> {
    /// Whether every queue has its processing flag.
    pub open spec fn wf(self) -> bool {
        self.queues.len() == self.processing.len()
    }

    /// Whether `address` is inside the register block.
    pub open spec fn covers(self, address: u64) -> bool {
        self.base_ipa <= address && address - self.base_ipa < self.length
    }

    /// Whether the queue with the given position may be programmed.
    pub open spec fn configurable(self, index: int) -> bool {
        0 <= index < self.queues.len() && !self.processing[index]
    }

    /// This state with one queue replaced.
    pub open spec fn with_queue(self, index: int, queue: VirtioQueue<T>) -> MmioModel<T> {
        MmioModel { queues: self.queues.update(index, queue), ..self }
    }

    /// What a read of a standard register returns, if there is such a register.
    pub open spec fn register(self, offset: u64) -> Option<u32> {
        let selected = self.queue_sel as int;
        if offset == VIRTIO_MMIO_MAGIC_VALUE {
            Some(MMIO_MAGIC_VALUE)
        } else if offset == VIRTIO_MMIO_VERSION {
            Some(MMIO_VERSION)
        } else if offset == VIRTIO_MMIO_DEVICE_ID {
            Some(self.device_id)
        } else if offset == VIRTIO_MMIO_VENDOR_ID {
            Some(self.vendor_id)
        } else if offset == VIRTIO_MMIO_DEVICE_FEATURES {
            Some(half_of(self.device_features, self.device_features_sel))
        } else if offset == VIRTIO_MMIO_DEVICE_FEATURES_SEL {
            Some(self.device_features_sel)
        } else if offset == VIRTIO_MMIO_DRIVER_FEATURES {
            Some(half_of(self.driver_features, self.driver_features_sel))
        } else if offset == VIRTIO_MMIO_DRIVER_FEATURES_SEL {
            Some(self.driver_features_sel)
        } else if offset == VIRTIO_MMIO_QUEUE_SEL {
            Some(self.queue_sel as u32)
        } else if offset == VIRTIO_MMIO_QUEUE_NUM_MAX {
            Some(DEFAULT_QUEUE_SIZE as u32)
        } else if offset == VIRTIO_MMIO_QUEUE_NUM {
            Some(
                if selected < self.queues.len() {
                    self.queues[selected].layout.size as u32
                } else {
                    0
                },
            )
        } else if offset == VIRTIO_MMIO_QUEUE_READY {
            Some(
                if selected < self.queues.len() && self.queues[selected].layout.ready {
                    1
                } else {
                    0
                },
            )
        } else if offset == VIRTIO_MMIO_INTERRUPT_STATUS {
            Some(self.interrupt.pending)
        } else if offset == VIRTIO_MMIO_STATUS {
            Some(self.status)
        } else if offset == VIRTIO_MMIO_CONFIG_GENERATION {
            Some(self.config_generation)
        } else {
            None
        }
    }

    /// This state after a read of a standard register.
    pub open spec fn after_read(self, offset: u64) -> MmioModel<T> {
        if offset == VIRTIO_MMIO_INTERRUPT_STATUS {
            MmioModel {
                interrupt: InterruptState { raised_after_read: 0, ..self.interrupt },
                ..self
            }
        } else {
            self
        }
    }

    /// This state after the driver wrote its features through the selected window.
    pub open spec fn features_written(self, value: u32) -> MmioModel<T> {
        if self.features_sealed {
            self
        } else {
            MmioModel {
                driver_features: with_half(self.driver_features, self.driver_features_sel, value),
                ..self
            }
        }
    }

    /// This state after a write to the queue selector.
    pub open spec fn queue_selected(self, value: u32) -> MmioModel<T> {
        let index = (value % 0x1_0000) as u16;
        if index < self.queues.len() {
            MmioModel { queue_sel: index, ..self }
        } else {
            self
        }
    }

    /// This state after a size was written for the selected queue.
    pub open spec fn size_written(self, value: u32) -> MmioModel<T> {
        let selected = self.queue_sel as int;
        let size = (value % 0x1_0000) as u16;
        let queue = self.queues[selected];
        if self.configurable(selected) && queue.accepts_size(size) {
            self.with_queue(
                selected,
                VirtioQueue { layout: QueueLayout { size, ..queue.layout }, ..queue },
            )
        } else {
            self
        }
    }

    /// This state after half of an address was written for the selected queue.
    pub open spec fn address_written(self, register: u64, value: u32) -> MmioModel<T> {
        let selected = self.queue_sel as int;
        let queue = self.queues[selected];
        if self.configurable(selected) {
            self.with_queue(
                selected,
                VirtioQueue { layout: addressed(queue.layout, register, value), ..queue },
            )
        } else {
            self
        }
    }

    /// Whether an enable or disable request for the given queue is looked at.
    pub open spec fn takes_ready(self, index: int) -> bool {
        self.activity.accepting && self.configurable(index)
    }

    /// This state after the given queue was asked to be enabled or disabled, with its rings
    /// found to be in memory or not.
    pub open spec fn ready_written(self, index: int, value: u32, layout_ok: bool) -> MmioModel<T> {
        let queue = self.queues[index];
        self.with_queue(
            index,
            VirtioQueue {
                layout: QueueLayout { ready: value != 0 && layout_ok, ..queue.layout },
                layout_rejected: queue.layout_rejected || (value != 0 && queue.layout.configured()
                    && !layout_ok),
                ..queue
            },
        )
    }

    /// Bits of `value` that were raised again since the driver read the status.
    pub open spec fn raised_again(self, value: u32) -> u32 {
        self.interrupt.raised_after_read & value
    }

    /// This state after interrupt bits were acknowledged.
    pub open spec fn acknowledged(self, value: u32) -> MmioModel<T> {
        MmioModel {
            interrupt: InterruptState {
                pending: self.interrupt.pending & !(value & !self.raised_again(value)),
                ..self.interrupt
            },
            ..self
        }
    }

    /// Whether the driver's features are all offered by the device.
    pub open spec fn features_supported(self) -> bool {
        self.driver_features & !self.device_features == 0
    }

    /// This state after a nonzero status was written.
    pub open spec fn status_written(self, value: u32) -> MmioModel<T> {
        if self.features_sealed {
            MmioModel { status: value | VIRTIO_STATUS_FEATURES_OK, ..self }
        } else if value & VIRTIO_STATUS_FEATURES_OK == 0 {
            MmioModel { status: value, ..self }
        } else if !self.features_supported() {
            MmioModel {
                status: (value & !VIRTIO_STATUS_FEATURES_OK) | VIRTIO_STATUS_FAILED,
                ..self
            }
        } else {
            let enabled = self.driver_features & VIRTIO_F_RING_EVENT_IDX != 0;
            MmioModel {
                status: value,
                features_sealed: true,
                queues: Seq::new(
                    self.queues.len(),
                    |i: int| with_event_idx(self.queues[i], enabled),
                ),
                ..self
            }
        }
    }

    /// This state after a reset was asked for.
    pub open spec fn reset_begun(self) -> MmioModel<T> {
        MmioModel { activity: self.activity.reset_begun(), ..self }
    }

    /// This state after a reset was completed.
    pub open spec fn reset_completed(self) -> MmioModel<T> {
        MmioModel {
            status: 0,
            driver_features: 0,
            features_sealed: false,
            device_features_sel: 0,
            driver_features_sel: 0,
            queue_sel: 0,
            queues: Seq::new(self.queues.len(), |i: int| self.queues[i].as_reset()),
            processing: Seq::new(self.processing.len(), |i: int| false),
            activity: MmioActivity { accepting: true, resetting: false, ..self.activity },
            interrupt: InterruptState { pending: 0, raised_after_read: 0 },
            ..self
        }
    }

    /// Whether the driver has set `DRIVER_OK`.
    pub open spec fn driver_ok(self) -> bool {
        self.status & VIRTIO_STATUS_DRIVER_OK != 0
    }

    /// Whether `register` can be written, the readiness register left aside.
    pub open spec fn is_writable(register: u64) -> bool {
        register == VIRTIO_MMIO_DEVICE_FEATURES_SEL || register == VIRTIO_MMIO_DRIVER_FEATURES_SEL
            || register == VIRTIO_MMIO_DRIVER_FEATURES || register == VIRTIO_MMIO_QUEUE_SEL
            || register == VIRTIO_MMIO_QUEUE_NUM || register == VIRTIO_MMIO_QUEUE_NOTIFY || register
            == VIRTIO_MMIO_INTERRUPT_ACK || register == VIRTIO_MMIO_STATUS || is_address_register(
            register,
        )
    }

    /// This state after a write to a register other than the readiness register.
    pub open spec fn written(self, register: u64, value: u32) -> MmioModel<T> {
        if register == VIRTIO_MMIO_DEVICE_FEATURES_SEL {
            MmioModel { device_features_sel: value, ..self }
        } else if register == VIRTIO_MMIO_DRIVER_FEATURES_SEL {
            MmioModel { driver_features_sel: value, ..self }
        } else if register == VIRTIO_MMIO_DRIVER_FEATURES {
            self.features_written(value)
        } else if register == VIRTIO_MMIO_QUEUE_SEL {
            self.queue_selected(value)
        } else if register == VIRTIO_MMIO_QUEUE_NUM {
            self.size_written(value)
        } else if register == VIRTIO_MMIO_INTERRUPT_ACK {
            self.acknowledged(value)
        } else if register == VIRTIO_MMIO_STATUS {
            if value == 0 {
                self.reset_begun()
            } else {
                self.status_written(value)
            }
        } else if is_address_register(register) {
            self.address_written(register, value)
        } else {
            self
        }
    }

    /// What a write to a register other than the readiness register asks of the device.
    pub open spec fn write_action(self, register: u64, value: u32) -> VirtioResult<
        MmioWriteAction,
    > {
        if !Self::is_writable(register) {
            Err(VirtioError::InvalidRegister)
        } else if register == VIRTIO_MMIO_QUEUE_NOTIFY && self.driver_ok()
            && self.activity.accepting {
            Ok(
                MmioWriteAction::QueueNotified {
                    index: (value % 0x1_0000) as u16,
                    generation: VirtioQueueGeneration(self.activity.generation),
                },
            )
        } else if register == VIRTIO_MMIO_INTERRUPT_ACK && self.raised_again(value) != 0 {
            Ok(MmioWriteAction::InterruptPending)
        } else if register == VIRTIO_MMIO_STATUS && value == 0 {
            if self.activity.may_reset() {
                Ok(MmioWriteAction::Reset)
            } else {
                Err(VirtioError::WouldBlock)
            }
        } else {
            Ok(MmioWriteAction::Nothing)
        }
    }
}

/// Whether a register belongs to the configuration of a queue.
pub open spec fn configures_queue(offset: u64) -> bool {
    offset == VIRTIO_MMIO_QUEUE_SEL || offset == VIRTIO_MMIO_QUEUE_NUM || offset
        == VIRTIO_MMIO_QUEUE_READY || is_address_register(offset)
}

/// Returns whether a register belongs to the configuration of a queue. Writes to such registers
/// follow one another: the next one waits until the rings of an enable request are screened and the
/// outcome is committed.
pub fn is_queue_config_register(offset: u64) -> (configures: bool)
    ensures
        configures == configures_queue(offset),
{
    offset == VIRTIO_MMIO_QUEUE_SEL || offset == VIRTIO_MMIO_QUEUE_NUM || offset
        == VIRTIO_MMIO_QUEUE_READY || offset == VIRTIO_MMIO_QUEUE_DESC_LOW || offset
        == VIRTIO_MMIO_QUEUE_DESC_HIGH || offset == VIRTIO_MMIO_QUEUE_AVAIL_LOW || offset
        == VIRTIO_MMIO_QUEUE_AVAIL_HIGH || offset == VIRTIO_MMIO_QUEUE_USED_LOW || offset
        == VIRTIO_MMIO_QUEUE_USED_HIGH
}

/// Configuration that an enable request was screened with.
#[derive(Clone, Copy, Debug, PartialEq, Eq, Structural)]
pub struct QueueReadyValidationToken {
    /// Lifetime of the configuration.
    pub generation: VirtioQueueGeneration,
    /// The configuration.
    pub configuration: QueueLayout,
}

/// Queue whose rings have to be screened before an enable request is committed.
pub struct QueueReadyValidationSnapshot<T> {
    /// Position of the queue.
    pub index: u16,
    /// Value that the driver wrote.
    pub value: u32,
    /// Configuration that is screened.
    pub token: QueueReadyValidationToken,
    /// The queue as it was when the request came.
    pub queue: VirtioQueue<T>,
}

/// What is left to do of a register write.
pub enum MmioWriteStep<T> {
    /// The write is complete.
    Complete(MmioWriteAction),
    /// The rings of the queue are to be screened, and the outcome committed.
    Screen(QueueReadyValidationSnapshot<T>),
}

/// Queue that one queue-processing operation owns for a while.
pub struct MmioQueueLease<T> {
    /// Position of the queue.
    pub index: u16,
    /// Lifetime that the operation was let in for.
    pub generation: VirtioQueueGeneration,
    /// The queue, until it is restored.
    pub queue: Option<VirtioQueue<T>>,
    /// Right to be inside the barrier.
    pub activity: MmioActivityPermit,
}

/// Whether `calls` probe the rings of a queue with the result `probed`, then rearm its available
/// event where that is due, and by that come to `layout_ok`.
pub open spec fn screens<M: GuestMemory, T>(
    calls: Seq<&mut M>,
    queue: VirtioQueue<T>,
    probed: VirtioResult<()>,
    layout_ok: bool,
) -> bool {
    if probed is Ok && queue.layout.event_idx_enabled {
        &&& calls.len() > 0
        &&& is_probing(calls.drop_last(), queue.layout.probes(), probed)
        &&& exists|rearmed: VirtioResult<bool>|
            {
                &&& #[trigger] queue.is_rearming(calls.last(), rearmed)
                &&& layout_ok == rearmed is Ok
            }
    } else {
        &&& is_probing(calls, queue.layout.probes(), probed)
        &&& layout_ok == probed is Ok
    }
}

/// Whether screening a request to enable or disable a queue makes `calls` and comes to `layout_ok`.
///
/// A disable request is always granted. An enable request is granted where the queue is fully
/// placed, guest memory holds the ends of its rings, and the available event could be rearmed.
pub open spec fn is_screening<M: GuestMemory, T>(
    calls: Seq<&mut M>,
    queue: VirtioQueue<T>,
    value: u32,
    layout_ok: bool,
) -> bool {
    if value == 0 {
        calls.len() == 0 && layout_ok
    } else if !queue.layout.placed() {
        calls.len() == 0 && !layout_ok
    } else {
        exists|probed: VirtioResult<()>| #[trigger] screens(calls, queue, probed, layout_ok)
    }
}

/// Whether an accessor can find the byte at `address`.
pub open spec fn reaches_byte<T: GuestMemoryAccessor>(accessor: T, address: u64) -> bool {
    exists|bytes: Vec<u8>| #[trigger]
        call_ensures(T::read, (&accessor, address, 1usize), Ok(bytes))
}

/// Whether an accessor fails the read at `probes[failed]` with `error`, having answered those
/// before it.
pub open spec fn misses_byte<T: GuestMemoryAccessor>(
    accessor: T,
    probes: Seq<u64>,
    failed: int,
    error: VirtioError,
) -> bool {
    &&& 0 <= failed < probes.len()
    &&& forall|index: int|
        0 <= index < failed ==> reaches_byte(accessor, #[trigger] probes[index])
    &&& call_ensures(T::read, (&accessor, probes[failed], 1usize), Err(error))
}

/// Whether `result` is what an accessor makes of reading one byte at each of `probes`.
pub open spec fn is_own_probing<T: GuestMemoryAccessor>(
    accessor: T,
    probes: Seq<u64>,
    result: VirtioResult<()>,
) -> bool {
    match result {
        Ok(_) => forall|index: int|
            0 <= index < probes.len() ==> reaches_byte(accessor, #[trigger] probes[index]),
        Err(error) => exists|failed: int| #[trigger]
            misses_byte(accessor, probes, failed, error),
    }
}

/// Whether an accessor can answer a write of `bytes` at `address` with `said`.
pub open spec fn takes_bytes<T: GuestMemoryAccessor>(
    accessor: T,
    address: u64,
    bytes: Seq<u8>,
    said: VirtioResult<()>,
) -> bool {
    exists|sent: Vec<u8>|
        sent@ == bytes && #[trigger] call_ensures(T::write, (&accessor, address, sent), said)
}

/// Whether the queue's own accessor answers the probes with `probed`, and by that and by the
/// rearming of the available event, where that is due, comes to `layout_ok`.
pub open spec fn screens_itself<T: GuestMemoryAccessor>(
    queue: VirtioQueue<T>,
    probed: VirtioResult<()>,
    layout_ok: bool,
) -> bool {
    &&& is_own_probing(*queue.accessor, queue.layout.probes(), probed)
    &&& if probed is Ok && queue.layout.event_idx_enabled {
        exists|said: VirtioResult<()>|
            {
                &&& #[trigger] takes_bytes(
                    *queue.accessor,
                    queue.layout.available_event_addr(),
                    queue.rearm_bytes(),
                    said,
                )
                &&& layout_ok == said is Ok
            }
    } else {
        layout_ok == probed is Ok
    }
}

/// Whether screening a request to enable or disable a queue through the queue's own accessor can
/// come to `layout_ok`.
pub open spec fn is_own_screening<T: GuestMemoryAccessor>(
    queue: VirtioQueue<T>,
    value: u32,
    layout_ok: bool,
) -> bool {
    if value == 0 {
        layout_ok
    } else if !queue.layout.placed() {
        !layout_ok
    } else {
        exists|probed: VirtioResult<()>| #[trigger] screens_itself(queue, probed, layout_ok)
    }
}

/// Screening through a memory that reaches a queue's accessor leaves that memory as it is.
proof fn lemma_screening_keeps_memory<T: GuestMemoryAccessor>(
    calls: Seq<&mut AddressSpaceMemory<T>>,
    queue: VirtioQueue<T>,
    value: u32,
    layout_ok: bool,
)
    requires
        is_screening(calls, queue, value, layout_ok),
    ensures
        forall|i: int|
            #![trigger calls[i]]
            0 <= i < calls.len() ==> *final(calls[i]) == *calls[i],
{
    if value != 0 && queue.layout.placed() {
        let probes = queue.layout.probes();
        let probed = choose|probed: VirtioResult<()>| #[trigger]
            screens(calls, queue, probed, layout_ok);
        let rearms = probed is Ok && queue.layout.event_idx_enabled;
        let reads = if rearms {
            calls.drop_last()
        } else {
            calls
        };
        assert forall|i: int| #![trigger calls[i]] 0 <= i < calls.len() implies *final(calls[i])
            == *calls[i] by {
            if i < reads.len() {
                assert(reads[i] == calls[i]);
                assert(finds_byte(reads[i], probes[i]) || probed is Err);
            } else {
                assert(calls[i] == calls.last());
            }
        }
    }
}

/// What holds of screening through a memory that reaches the queue's accessor holds of the accessor
/// itself.
proof fn lemma_own_screening<T: GuestMemoryAccessor>(
    calls: Seq<&mut AddressSpaceMemory<T>>,
    queue: VirtioQueue<T>,
    value: u32,
    layout_ok: bool,
)
    requires
        is_screening(calls, queue, value, layout_ok),
        forall|i: int|
            #![trigger calls[i]]
            0 <= i < calls.len() ==> (*calls[i]).accessor == queue.accessor,
    ensures
        is_own_screening(queue, value, layout_ok),
{
    if value != 0 && queue.layout.placed() {
        let probes = queue.layout.probes();
        let probed = choose|probed: VirtioResult<()>| #[trigger]
            screens(calls, queue, probed, layout_ok);
        let reads = if probed is Ok && queue.layout.event_idx_enabled {
            calls.drop_last()
        } else {
            calls
        };
        assert forall|i: int| #![trigger reads[i]] 0 <= i < reads.len() && finds_byte(
            reads[i],
            probes[i],
        ) implies reaches_byte(*queue.accessor, probes[i]) by {
            assert(reads[i] == calls[i]);
            let bytes = choose|bytes: Vec<u8>| #[trigger]
                call_ensures(
                    AddressSpaceMemory::<T>::read,
                    (reads[i], probes[i], 1usize),
                    Ok(bytes),
                );
            assert(call_ensures(T::read, (&*queue.accessor, probes[i], 1usize), Ok(bytes)));
        }
        match probed {
            Ok(_) => {
                assert forall|i: int| 0 <= i < probes.len() implies reaches_byte(
                    *queue.accessor,
                    #[trigger] probes[i],
                ) by {
                    assert(finds_byte(reads[i], probes[i]));
                }
                if queue.layout.event_idx_enabled {
                    let rearmed = choose|rearmed: VirtioResult<bool>|
                        {
                            &&& #[trigger] queue.is_rearming(calls.last(), rearmed)
                            &&& layout_ok == rearmed is Ok
                        };
                    let said = choose|said: VirtioResult<()>|
                        {
                            &&& #[trigger] says_write(
                                calls.last(),
                                queue.layout.available_event_addr(),
                                queue.rearm_bytes(),
                                said,
                            )
                            &&& rearmed == (match said {
                                Ok(_) => Ok::<bool, VirtioError>(true),
                                Err(error) => Err(error),
                            })
                        };
                    assert(calls.last() == calls[calls.len() - 1]);
                    assert(takes_bytes(
                        *queue.accessor,
                        queue.layout.available_event_addr(),
                        queue.rearm_bytes(),
                        said,
                    ));
                }
            },
            Err(error) => {
                let failed = reads.len() - 1;
                assert forall|i: int| 0 <= i < failed implies reaches_byte(
                    *queue.accessor,
                    #[trigger] probes[i],
                ) by {
                    assert(finds_byte(reads[i], probes[i]));
                }
                assert(reads[failed] == calls[failed]);
                assert(misses_byte(*queue.accessor, probes, failed, error));
            },
        }
        assert(screens_itself(queue, probed, layout_ok));
    }
}

impl<T> QueueReadyValidationSnapshot<T> {
    /// Returns whether the request may be granted, where `memory` holds the rings.
    ///
    /// A disable request always may. An enable request may where the queue is fully placed,
    /// `memory` holds its ends, and the available event could be rearmed.
    pub fn screen_with_memory<M: GuestMemory>(&self, memory: &mut M) -> (layout_ok: bool)
        ensures
            exists|calls: Seq<&mut M>, states: Seq<M>|
                {
                    &&& #[trigger] is_chain(calls, states)
                    &&& states.first() == *old(memory)
                    &&& states.last() == *final(memory)
                    &&& forall|i: int|
                        0 <= i < calls.len() ==> *final(#[trigger] calls[i]) == states[i + 1]
                    &&& is_screening(calls, self.queue, self.value, layout_ok)
                },
    {
        assert(is_chain(Seq::<&mut M>::empty(), seq![*memory]));
        if self.value == 0 {
            return true;
        }
        if !self.queue.is_configured() || self.queue.layout.layout_probes().is_none() {
            return false;
        }
        let probed = self.queue.validate_layout_with_memory(memory);
        let ghost middle = *memory;
        let ghost answer = probed;
        match probed {
            Ok(_) => {
                let mut enabled = self.queue.clone();
                enabled.set_ready(true);
                let rearmed = enabled.rearm_available_event_with_memory(memory);
                let layout_ok = rearmed.is_ok();
                proof {
                    let (calls, states) = choose|calls: Seq<&mut M>, states: Seq<M>|
                        {
                            &&& #[trigger] is_chain(calls, states)
                            &&& states.first() == *old(memory)
                            &&& states.last() == middle
                            &&& forall|i: int|
                                0 <= i < calls.len() ==> *final(#[trigger] calls[i]) == states[i
                                    + 1]
                            &&& is_probing(calls, self.queue.layout.probes(), answer)
                        };
                    if self.queue.layout.event_idx_enabled {
                        let call = choose|call: &mut M|
                            {
                                &&& #[trigger] enabled.is_rearming(call, rearmed)
                                &&& *call == middle
                                &&& *final(call) == *memory
                            };
                        assert(enabled.rearm_bytes() =~= self.queue.rearm_bytes());
                        assert(enabled.layout.available_event_addr()
                            == self.queue.layout.available_event_addr());
                        assert(self.queue.is_rearming(call, rearmed));
                        let longer = calls.push(call);
                        assert(longer.drop_last() =~= calls);
                        assert(longer.last() == call);
                        assert(screens(longer, self.queue, answer, layout_ok));
                        assert(is_chain(longer, states.push(*memory)));
                    } else {
                        assert(screens(calls, self.queue, answer, layout_ok));
                    }
                }
                layout_ok
            },
            Err(_) => {
                proof {
                    let (calls, states) = choose|calls: Seq<&mut M>, states: Seq<M>|
                        {
                            &&& #[trigger] is_chain(calls, states)
                            &&& states.first() == *old(memory)
                            &&& states.last() == middle
                            &&& forall|i: int|
                                0 <= i < calls.len() ==> *final(#[trigger] calls[i]) == states[i
                                    + 1]
                            &&& is_probing(calls, self.queue.layout.probes(), answer)
                        };
                    assert(screens(calls, self.queue, answer, false));
                }
                false
            },
        }
    }
}

impl<T: GuestMemoryAccessor> QueueReadyValidationSnapshot<T> {
    /// Returns whether the request may be granted, where the queue's own accessor reaches the
    /// rings.
    pub fn screen(&self) -> (layout_ok: bool)
        ensures
            is_own_screening(self.queue, self.value, layout_ok),
    {
        let mut memory = AddressSpaceMemory { accessor: self.queue.accessor.clone() };
        let ghost own = memory;
        let layout_ok = self.screen_with_memory(&mut memory);
        proof {
            let (calls, states) = choose|
                calls: Seq<&mut AddressSpaceMemory<T>>,
                states: Seq<AddressSpaceMemory<T>>,
            |
                {
                    &&& #[trigger] is_chain(calls, states)
                    &&& states.first() == own
                    &&& states.last() == memory
                    &&& forall|i: int|
                        0 <= i < calls.len() ==> *final(#[trigger] calls[i]) == states[i + 1]
                    &&& is_screening(calls, self.queue, self.value, layout_ok)
                };
            lemma_screening_keeps_memory(calls, self.queue, self.value, layout_ok);
            assert forall|i: int| #![trigger states[i]] 0 <= i < states.len()
                - 1 implies states[i + 1] == states[i] by {
                assert(*calls[i] == states[i]);
            }
            assert forall|i: int| #![trigger calls[i]] 0 <= i < calls.len() implies (
            *calls[i]).accessor == self.queue.accessor by {
                lemma_unchanged_states(states, i);
            }
            lemma_own_screening(calls, self.queue, self.value, layout_ok);
        }
        layout_ok
    }
}

impl<T> VirtioMmioState<T> {
    /// Constructs the transport state with the given device identity, advertised features and
    /// queues.
    pub fn new(
        base_ipa: u64,
        length: u64,
        device_id: u32,
        vendor_id: u32,
        device_features: u64,
        queues: Vec<VirtioQueue<T>>,
    ) -> (state: VirtioMmioState<T>)
        ensures
            state@ == (MmioModel {
                base_ipa,
                length,
                device_id,
                vendor_id,
                device_features,
                status: 0,
                driver_features: 0,
                features_sealed: false,
                device_features_sel: 0,
                driver_features_sel: 0,
                queue_sel: 0,
                queues: queues@,
                processing: Seq::new(queues@.len(), |i: int| false),
                activity: MmioActivity::fresh(),
                interrupt: InterruptState { pending: 0, raised_after_read: 0 },
                config_generation: 0,
            }),
            state@.wf(),
    {
        let length_of_queues: usize = queues.len();
        let mut queue_processing: Vec<bool> = Vec::new();
        let mut index: usize = 0;
        while index < length_of_queues
            invariant
                index <= length_of_queues,
                queue_processing@ == Seq::new(index as nat, |i: int| false),
            decreases length_of_queues - index,
        {
            queue_processing.push(false);
            index = index + 1;
        }
        VirtioMmioState {
            base_ipa,
            length,
            device_id,
            vendor_id,
            device_features,
            status: 0,
            driver_features: 0,
            features_sealed: false,
            device_features_sel: 0,
            driver_features_sel: 0,
            queue_sel: 0,
            queues,
            queue_processing,
            activity: MmioActivity {
                accepting: true,
                active: 0,
                resetting: false,
                generation: 0,
            },
            interrupt: InterruptState { pending: 0, raised_after_read: 0 },
            config_generation: 0,
        }
    }

    /// Returns the guest address of the register block.
    pub fn base_ipa(&self) -> (base: u64)
        ensures
            base == self@.base_ipa,
    {
        self.base_ipa
    }

    /// Returns the number of queues.
    pub fn num_queues(&self) -> (count: usize)
        ensures
            count == self@.queues.len(),
    {
        self.queues.len()
    }

    /// Returns the queue configuration lifetime currently admitted for work.
    pub fn queue_generation(&self) -> (generation: VirtioQueueGeneration)
        ensures
            generation.0 == self@.activity.generation,
    {
        VirtioQueueGeneration(self.activity.generation)
    }

    /// Returns a queue's size and ready state as one configuration snapshot.
    pub fn queue_configuration(&self, index: u16) -> (configuration: Option<(u16, bool)>)
        ensures
            configuration == (if index < self@.queues.len() {
                let layout = self@.queues[index as int].layout;
                Some((layout.size, layout.ready))
            } else {
                None
            }),
    {
        let position: usize = index as usize;
        if position < self.queues.len() {
            let layout = self.queues[position].layout;
            Some((layout.size, layout.ready))
        } else {
            None
        }
    }

    /// Returns whether one queue has latched a runtime fault.
    pub fn is_queue_faulted(&self, index: usize) -> (faulted: bool)
        ensures
            faulted == (index < self@.queues.len() && self@.queues[index as int].faulted),
    {
        index < self.queues.len() && self.queues[index].is_faulted()
    }

    /// Clones one queue for diagnostic or configuration inspection.
    pub fn queue_snapshot(&self, index: u16) -> (snapshot: Option<VirtioQueue<T>>)
        ensures
            snapshot == (if index < self@.queues.len() {
                Some(self@.queues[index as int])
            } else {
                None
            }),
    {
        let position: usize = index as usize;
        if position < self.queues.len() {
            Some(self.queues[position].clone())
        } else {
            None
        }
    }

    /// Returns whether the driver has set `DRIVER_OK`.
    pub fn is_driver_ok(&self) -> (driver_ok: bool)
        ensures
            driver_ok == self@.driver_ok(),
    {
        (self.status & VIRTIO_STATUS_DRIVER_OK) != 0
    }

    /// Returns the raw status register value.
    pub fn status(&self) -> (status: u32)
        ensures
            status == self@.status,
    {
        self.status
    }

    /// Sets the status register directly, bypassing validation.
    ///
    /// Intended only for device bring-up helpers that emulate the full driver sequence; normal
    /// status transitions go through [`mmio_write`](Self::mmio_write).
    pub fn set_status(&mut self, status: u32)
        ensures
            final(self)@ == (MmioModel { status, ..old(self)@ }),
    {
        self.status = status;
    }

    /// Returns the currently selected queue index, if it is in range.
    pub fn selected_queue_index(&self) -> (selected: Option<u16>)
        ensures
            selected == (if self@.queue_sel < self@.queues.len() {
                Some(self@.queue_sel)
            } else {
                None
            }),
    {
        if (self.queue_sel as usize) < self.queues.len() {
            Some(self.queue_sel)
        } else {
            None
        }
    }

    /// Returns the currently negotiated driver features.
    pub fn driver_features(&self) -> (features: u64)
        ensures
            features == self@.driver_features,
    {
        self.driver_features
    }

    /// Returns the advertised device features.
    pub fn device_features(&self) -> (features: u64)
        ensures
            features == self@.device_features,
    {
        self.device_features
    }

    /// Returns the current interrupt status bits.
    pub fn interrupt_status(&self) -> (pending: u32)
        ensures
            pending == self@.interrupt.pending,
    {
        self.interrupt.pending
    }

    /// Raises interrupt bits (used-ring or config-change notification).
    pub fn set_interrupt(&mut self, bits: u32)
        ensures
            final(self)@ == (MmioModel {
                interrupt: InterruptState {
                    pending: old(self)@.interrupt.pending | bits,
                    raised_after_read: old(self)@.interrupt.raised_after_read | bits,
                },
                ..old(self)@
            }),
    {
        self.interrupt = InterruptState {
            pending: self.interrupt.pending | bits,
            raised_after_read: self.interrupt.raised_after_read | bits,
        };
    }

    /// Increments the config-space generation, modulo 2^32.
    pub fn bump_config_generation(&mut self)
        ensures
            final(self)@ == (MmioModel {
                config_generation: if old(self)@.config_generation == u32::MAX {
                    0
                } else {
                    (old(self)@.config_generation + 1) as u32
                },
                ..old(self)@
            }),
    {
        self.config_generation = if self.config_generation == u32::MAX {
            0
        } else {
            self.config_generation + 1
        };
    }

    /// Closes activity admission for a reset and starts a new queue configuration lifetime.
    ///
    /// [`complete_reset`](Self::complete_reset) follows once the device-specific state is
    /// reset. Until it does, the old nonzero status and the closed barrier remain visible. Fails
    /// while another reset is going on or a queue is with an operation.
    pub fn begin_reset(&mut self) -> (result: VirtioResult<()>)
        ensures
            final(self)@ == old(self)@.reset_begun(),
            result == (if old(self)@.activity.may_reset() {
                Ok::<(), VirtioError>(())
            } else {
                Err(VirtioError::WouldBlock)
            }),
    {
        if self.activity.begin_reset() {
            Ok(())
        } else {
            Err(VirtioError::WouldBlock)
        }
    }

    /// Publishes completion of a reset after device-specific cleanup.
    pub fn complete_reset(&mut self) -> (result: VirtioResult<()>)
        requires
            old(self)@.wf(),
        ensures
            final(self)@.wf(),
            result == (if old(self)@.activity.resetting {
                Ok::<(), VirtioError>(())
            } else {
                Err(VirtioError::WouldBlock)
            }),
            final(self)@ == (if old(self)@.activity.resetting {
                old(self)@.reset_completed()
            } else {
                old(self)@
            }),
    {
        if !self.activity.resetting {
            return Err(VirtioError::WouldBlock);
        }
        self.driver_features = 0;
        self.driver_features_sel = 0;
        self.device_features_sel = 0;
        self.queue_sel = 0;
        let length: usize = self.queues.len();
        let mut index: usize = 0;
        while index < length
            invariant
                index <= length,
                length == old(self)@.queues.len(),
                self.queues@.len() == length,
                self.queue_processing@.len() == length,
                forall|i: int|
                    #![trigger self.queues@[i]]
                    0 <= i < index ==> self.queues@[i] == old(self)@.queues[i].as_reset(),
                forall|i: int|
                    #![trigger self.queues@[i]]
                    index <= i < length ==> self.queues@[i] == old(self)@.queues[i],
                forall|i: int|
                    #![trigger self.queue_processing@[i]]
                    0 <= i < index ==> !self.queue_processing@[i],
                self@ == (MmioModel {
                    queues: self.queues@,
                    processing: self.queue_processing@,
                    driver_features: 0,
                    driver_features_sel: 0,
                    device_features_sel: 0,
                    queue_sel: 0,
                    ..old(self)@
                }),
            decreases length - index,
        {
            self.queues[index].reset();
            self.queue_processing.set(index, false);
            index = index + 1;
        }
        self.interrupt = InterruptState { pending: 0, raised_after_read: 0 };
        self.status = 0;
        self.features_sealed = false;
        self.activity.reopen();
        Ok(())
    }

    /// Resets the transport: clears driver features, selectors, interrupt status, status and
    /// every queue. Device identity and features are kept.
    pub fn reset(&mut self) -> (result: VirtioResult<()>)
        requires
            old(self)@.wf(),
        ensures
            final(self)@.wf(),
            result == (if old(self)@.activity.may_reset() {
                Ok::<(), VirtioError>(())
            } else {
                Err(VirtioError::WouldBlock)
            }),
            final(self)@ == (if old(self)@.activity.may_reset() {
                old(self)@.reset_begun().reset_completed()
            } else {
                old(self)@.reset_begun()
            }),
    {
        match self.begin_reset() {
            Ok(_) => self.complete_reset(),
            Err(error) => Err(error),
        }
    }

    /// Handles a standard MMIO read. Reads outside the register block yield zero, and reads in
    /// the config region [`MmioReadOutcome::DeviceConfig`].
    pub fn mmio_read(&mut self, address: u64, width: AccessWidth) -> (outcome: VirtioResult<
        MmioReadOutcome,
    >)
        ensures
            ({
                let offset = (address - old(self)@.base_ipa) as u64;
                if !old(self)@.covers(address) {
                    &&& outcome == Ok::<_, VirtioError>(MmioReadOutcome::Standard(0))
                    &&& final(self)@ == old(self)@
                } else if offset >= VIRTIO_MMIO_CONFIG_OFFSET {
                    &&& outcome == Ok::<_, VirtioError>(
                        MmioReadOutcome::DeviceConfig {
                            offset: (offset - VIRTIO_MMIO_CONFIG_OFFSET) as u64,
                            width,
                        },
                    )
                    &&& final(self)@ == old(self)@
                } else if width != AccessWidth::Dword {
                    &&& outcome == Err::<MmioReadOutcome, _>(VirtioError::InvalidAccessWidth)
                    &&& final(self)@ == old(self)@
                } else {
                    match old(self)@.register(offset) {
                        Some(value) => {
                            &&& outcome == Ok::<_, VirtioError>(MmioReadOutcome::Standard(value))
                            &&& final(self)@ == old(self)@.after_read(offset)
                        },
                        None => {
                            &&& outcome == Err::<MmioReadOutcome, _>(VirtioError::InvalidRegister)
                            &&& final(self)@ == old(self)@
                        },
                    }
                }
            }),
    {
        if address < self.base_ipa || address - self.base_ipa >= self.length {
            return Ok(MmioReadOutcome::Standard(0));
        }
        let offset: u64 = address - self.base_ipa;
        if offset >= VIRTIO_MMIO_CONFIG_OFFSET {
            return Ok(
                MmioReadOutcome::DeviceConfig { offset: offset - VIRTIO_MMIO_CONFIG_OFFSET, width },
            );
        }
        if width != AccessWidth::Dword {
            return Err(VirtioError::InvalidAccessWidth);
        }
        let value: u32 = if offset == VIRTIO_MMIO_MAGIC_VALUE {
            MMIO_MAGIC_VALUE
        } else if offset == VIRTIO_MMIO_VERSION {
            MMIO_VERSION
        } else if offset == VIRTIO_MMIO_DEVICE_ID {
            self.device_id
        } else if offset == VIRTIO_MMIO_VENDOR_ID {
            self.vendor_id
        } else if offset == VIRTIO_MMIO_DEVICE_FEATURES {
            select_half(self.device_features, self.device_features_sel)
        } else if offset == VIRTIO_MMIO_DEVICE_FEATURES_SEL {
            self.device_features_sel
        } else if offset == VIRTIO_MMIO_DRIVER_FEATURES {
            select_half(self.driver_features, self.driver_features_sel)
        } else if offset == VIRTIO_MMIO_DRIVER_FEATURES_SEL {
            self.driver_features_sel
        } else if offset == VIRTIO_MMIO_QUEUE_SEL {
            self.queue_sel as u32
        } else if offset == VIRTIO_MMIO_QUEUE_NUM_MAX {
            DEFAULT_QUEUE_SIZE as u32
        } else if offset == VIRTIO_MMIO_QUEUE_NUM {
            match self.queue_configuration(self.queue_sel) {
                Some((size, _)) => size as u32,
                None => 0,
            }
        } else if offset == VIRTIO_MMIO_QUEUE_READY {
            match self.queue_configuration(self.queue_sel) {
                Some((_, ready)) => if ready {
                    1
                } else {
                    0
                },
                None => 0,
            }
        } else if offset == VIRTIO_MMIO_INTERRUPT_STATUS {
            self.interrupt.raised_after_read = 0;
            self.interrupt.pending
        } else if offset == VIRTIO_MMIO_STATUS {
            self.status
        } else if offset == VIRTIO_MMIO_CONFIG_GENERATION {
            self.config_generation
        } else {
            return Err(VirtioError::InvalidRegister);
        };
        Ok(MmioReadOutcome::Standard(value))
    }

    /// Combines half of an address with the selected queue's current address.
    ///
    /// A queue that is with an operation is left alone.
    pub fn write_queue_address(&mut self, register: u64, value: u32)
        requires
            old(self)@.wf(),
            is_address_register(register),
        ensures
            final(self)@ == old(self)@.address_written(register, value),
    {
        let selected: usize = self.queue_sel as usize;
        if selected >= self.queues.len() || self.queue_processing[selected] {
            return;
        }
        let layout = self.queues[selected].layout;
        if register == VIRTIO_MMIO_QUEUE_DESC_LOW {
            let address: u64 = combine_half(layout.desc_table_addr, 0, value);
            self.queues[selected].set_desc_table_addr(address);
        } else if register == VIRTIO_MMIO_QUEUE_DESC_HIGH {
            let address: u64 = combine_half(layout.desc_table_addr, 1, value);
            self.queues[selected].set_desc_table_addr(address);
        } else if register == VIRTIO_MMIO_QUEUE_AVAIL_LOW {
            let address: u64 = combine_half(layout.avail_ring_addr, 0, value);
            self.queues[selected].set_avail_ring_addr(address);
        } else if register == VIRTIO_MMIO_QUEUE_AVAIL_HIGH {
            let address: u64 = combine_half(layout.avail_ring_addr, 1, value);
            self.queues[selected].set_avail_ring_addr(address);
        } else if register == VIRTIO_MMIO_QUEUE_USED_LOW {
            let address: u64 = combine_half(layout.used_ring_addr, 0, value);
            self.queues[selected].set_used_ring_addr(address);
        } else {
            let address: u64 = combine_half(layout.used_ring_addr, 1, value);
            self.queues[selected].set_used_ring_addr(address);
        }
    }

    /// Validates a status write. Writing 0 begins a reset; sealing `FEATURES_OK` fails unless
    /// the driver's features are a subset of the device's.
    pub fn handle_status_write(&mut self, value: u32) -> (action: VirtioResult<MmioWriteAction>)
        requires
            old(self)@.wf(),
        ensures
            final(self)@.wf(),
            final(self)@ == old(self)@.written(VIRTIO_MMIO_STATUS, value),
            action == old(self)@.write_action(VIRTIO_MMIO_STATUS, value),
    {
        if value == 0 {
            return match self.begin_reset() {
                Ok(_) => Ok(MmioWriteAction::Reset),
                Err(error) => Err(error),
            };
        }
        let sealed = self.features_sealed;
        let mut status: u32 = if sealed {
            value | VIRTIO_STATUS_FEATURES_OK
        } else {
            value
        };
        if !sealed && (status & VIRTIO_STATUS_FEATURES_OK) != 0 {
            if (self.driver_features & !self.device_features) != 0 {
                status = (status & !VIRTIO_STATUS_FEATURES_OK) | VIRTIO_STATUS_FAILED;
            } else {
                let enabled = (self.driver_features & VIRTIO_F_RING_EVENT_IDX) != 0;
                let length: usize = self.queues.len();
                let mut index: usize = 0;
                while index < length
                    invariant
                        index <= length,
                        length == old(self)@.queues.len(),
                        self.queues@.len() == length,
                        forall|i: int|
                            #![trigger self.queues@[i]]
                            0 <= i < index ==> self.queues@[i] == with_event_idx(
                                old(self)@.queues[i],
                                enabled,
                            ),
                        forall|i: int|
                            #![trigger self.queues@[i]]
                            index <= i < length ==> self.queues@[i] == old(self)@.queues[i],
                        self@ == (MmioModel { queues: self.queues@, ..old(self)@ }),
                    decreases length - index,
                {
                    self.queues[index].layout.event_idx_enabled = enabled;
                    index = index + 1;
                }
                self.features_sealed = true;
            }
        }
        self.status = status;
        Ok(MmioWriteAction::Nothing)
    }

    /// Takes the configuration that an enable or disable request is screened with, unless a
    /// reset is going on or the queue is with an operation.
    pub fn snapshot_queue_ready_validation(&self, index: u16, value: u32) -> (snapshot: Option<
        QueueReadyValidationSnapshot<T>,
    >)
        requires
            self@.wf(),
        ensures
            snapshot is Some <==> self@.takes_ready(index as int),
            snapshot matches Some(taken) ==> {
                &&& taken.index == index
                &&& taken.value == value
                &&& taken.queue == self@.queues[index as int]
                &&& taken.token.generation.0 == self@.activity.generation
                &&& taken.token.configuration == taken.queue.layout
            },
    {
        let position: usize = index as usize;
        if !self.activity.accepting || position >= self.queues.len()
            || self.queue_processing[position] {
            return None;
        }
        Some(
            QueueReadyValidationSnapshot {
                index,
                value,
                token: QueueReadyValidationToken {
                    generation: VirtioQueueGeneration(self.activity.generation),
                    configuration: self.queues[position].layout,
                },
                queue: self.queues[position].clone(),
            },
        )
    }

    /// Grants or refuses an enable or disable request that was screened, unless the queue's
    /// configuration, its lifetime or its owner changed since.
    pub fn commit_queue_ready_validation(
        &mut self,
        index: u16,
        value: u32,
        validation: QueueReadyValidationToken,
        layout_ok: bool,
    )
        requires
            old(self)@.wf(),
        ensures
            final(self)@.wf(),
            final(self)@ == (if old(self)@.takes_ready(index as int)
                && old(self)@.activity.generation == validation.generation.0
                && old(self)@.queues[index as int].layout == validation.configuration {
                old(self)@.ready_written(index as int, value, layout_ok)
            } else {
                old(self)@
            }),
    {
        let position: usize = index as usize;
        if self.activity.accepting && self.activity.generation == validation.generation.0
            && position < self.queues.len() && !self.queue_processing[position]
            && self.queues[position].layout == validation.configuration {
            if value != 0 && self.queues[position].is_configured() && !layout_ok {
                self.queues[position].report_layout_rejection();
            }
            self.queues[position].set_ready(value != 0 && layout_ok);
        }
    }

    /// Handles a standard MMIO write up to the screening of ring layouts, and reports any action
    /// that the device must take.
    ///
    /// A write to the readiness register hands the queue out for screening. Its outcome goes to
    /// [`commit_queue_ready_validation`](Self::commit_queue_ready_validation).
    pub fn mmio_write_inner(&mut self, address: u64, width: AccessWidth, value: u64) -> (step:
        VirtioResult<MmioWriteStep<T>>)
        requires
            old(self)@.wf(),
        ensures
            final(self)@.wf(),
            ({
                let offset = (address - old(self)@.base_ipa) as u64;
                let value = (value % HALF) as u32;
                let selected = old(self)@.queue_sel;
                if !old(self)@.covers(address) {
                    &&& step == Ok::<_, VirtioError>(
                        MmioWriteStep::<T>::Complete(MmioWriteAction::Nothing),
                    )
                    &&& final(self)@ == old(self)@
                } else if offset < VIRTIO_MMIO_CONFIG_OFFSET && width != AccessWidth::Dword {
                    &&& step == Err::<MmioWriteStep<T>, _>(VirtioError::InvalidAccessWidth)
                    &&& final(self)@ == old(self)@
                } else if offset == VIRTIO_MMIO_QUEUE_READY {
                    &&& final(self)@ == old(self)@
                    &&& !old(self)@.takes_ready(selected as int) ==> step == Ok::<_, VirtioError>(
                        MmioWriteStep::<T>::Complete(MmioWriteAction::Nothing),
                    )
                    &&& old(self)@.takes_ready(selected as int) ==> {
                        &&& step matches Ok(MmioWriteStep::Screen(snapshot))
                        &&& snapshot.index == selected
                        &&& snapshot.value == value
                        &&& snapshot.queue == old(self)@.queues[selected as int]
                        &&& snapshot.token.generation.0 == old(self)@.activity.generation
                        &&& snapshot.token.configuration == snapshot.queue.layout
                    }
                } else {
                    &&& final(self)@ == old(self)@.written(offset, value)
                    &&& match old(self)@.write_action(offset, value) {
                        Ok(action) => step == Ok::<_, VirtioError>(
                            MmioWriteStep::<T>::Complete(action),
                        ),
                        Err(error) => step == Err::<MmioWriteStep<T>, _>(error),
                    }
                }
            }),
    {
        if address < self.base_ipa || address - self.base_ipa >= self.length {
            return Ok(MmioWriteStep::Complete(MmioWriteAction::Nothing));
        }
        let offset: u64 = address - self.base_ipa;
        if offset < VIRTIO_MMIO_CONFIG_OFFSET && width != AccessWidth::Dword {
            return Err(VirtioError::InvalidAccessWidth);
        }
        let value: u32 = (value % HALF) as u32;
        let low_half: u16 = (value % 0x1_0000) as u16;
        let mut action = MmioWriteAction::Nothing;
        if offset == VIRTIO_MMIO_DEVICE_FEATURES_SEL {
            self.device_features_sel = value;
        } else if offset == VIRTIO_MMIO_DRIVER_FEATURES_SEL {
            self.driver_features_sel = value;
        } else if offset == VIRTIO_MMIO_DRIVER_FEATURES {
            if !self.features_sealed {
                self.driver_features = combine_half(
                    self.driver_features,
                    self.driver_features_sel,
                    value,
                );
            }
        } else if offset == VIRTIO_MMIO_QUEUE_SEL {
            if (low_half as usize) < self.queues.len() {
                self.queue_sel = low_half;
            }
        } else if offset == VIRTIO_MMIO_QUEUE_NUM {
            let selected: usize = self.queue_sel as usize;
            if selected < self.queues.len() && !self.queue_processing[selected] {
                let _ = self.queues[selected].set_size(low_half);
            }
        } else if offset == VIRTIO_MMIO_QUEUE_READY {
            if let Some(snapshot) = self.snapshot_queue_ready_validation(self.queue_sel, value) {
                return Ok(MmioWriteStep::Screen(snapshot));
            }
        } else if offset == VIRTIO_MMIO_QUEUE_NOTIFY {
            if self.is_driver_ok() && self.activity.accepting {
                action = MmioWriteAction::QueueNotified {
                    index: low_half,
                    generation: self.queue_generation(),
                };
            }
        } else if offset == VIRTIO_MMIO_INTERRUPT_ACK {
            let raised: u32 = self.interrupt.raised_after_read & value;
            self.interrupt.pending = self.interrupt.pending & !(value & !raised);
            if raised != 0 {
                action = MmioWriteAction::InterruptPending;
            }
        } else if offset == VIRTIO_MMIO_STATUS {
            return match self.handle_status_write(value) {
                Ok(action) => Ok(MmioWriteStep::Complete(action)),
                Err(error) => Err(error),
            };
        } else if offset == VIRTIO_MMIO_QUEUE_DESC_LOW || offset == VIRTIO_MMIO_QUEUE_DESC_HIGH
            || offset == VIRTIO_MMIO_QUEUE_AVAIL_LOW || offset == VIRTIO_MMIO_QUEUE_AVAIL_HIGH
            || offset == VIRTIO_MMIO_QUEUE_USED_LOW || offset == VIRTIO_MMIO_QUEUE_USED_HIGH {
            self.write_queue_address(offset, value);
        } else {
            return Err(VirtioError::InvalidRegister);
        }
        Ok(MmioWriteStep::Complete(action))
    }

    /// Handles a standard MMIO write using a scoped guest-memory capability.
    ///
    /// The capability serves the `QUEUE_READY` layout validation and must be backed by the same
    /// guest memory that the queues' runtime accesses use.
    pub fn mmio_write_with_memory<M: GuestMemory>(
        &mut self,
        address: u64,
        width: AccessWidth,
        value: u64,
        memory: &mut M,
    ) -> (action: VirtioResult<MmioWriteAction>)
        requires
            old(self)@.wf(),
        ensures
            exists|layout_ok: bool, calls: Seq<&mut M>, states: Seq<M>|
                {
                    &&& #[trigger] is_chain(calls, states)
                    &&& states.first() == *old(memory)
                    &&& states.last() == *final(memory)
                    &&& forall|i: int|
                        0 <= i < calls.len() ==> *final(#[trigger] calls[i]) == states[i + 1]
                    &&& if old(self)@.has_screened(address, width) {
                        is_screening(
                            calls,
                            old(self)@.queues[old(self)@.queue_sel as int],
                            (value % HALF) as u32,
                            layout_ok,
                        )
                    } else {
                        calls.len() == 0
                    }
                    &&& #[trigger] is_mmio_write(
                        old(self)@,
                        address,
                        width,
                        value,
                        layout_ok,
                        final(self)@,
                        action,
                    )
                },
    {
        assert(is_chain(Seq::<&mut M>::empty(), seq![*memory]));
        let ghost mut screened = true;
        let action = match self.mmio_write_inner(address, width, value) {
            Ok(MmioWriteStep::Complete(action)) => Ok(action),
            Ok(MmioWriteStep::Screen(snapshot)) => {
                let layout_ok = snapshot.screen_with_memory(memory);
                proof {
                    screened = layout_ok;
                }
                self.commit_queue_ready_validation(
                    snapshot.index,
                    snapshot.value,
                    snapshot.token,
                    layout_ok,
                );
                Ok(MmioWriteAction::Nothing)
            },
            Err(error) => Err(error),
        };
        assert(is_mmio_write(old(self)@, address, width, value, screened, self@, action));
        action
    }

    /// Takes exclusive ownership of one queue for processing.
    ///
    /// Nothing is handed out while the driver is not ready, for a lifetime that is over, or while
    /// the queue is with another operation. A read-only image of the queue stays behind.
    pub fn take_queue_for_processing(
        &mut self,
        index: u16,
        generation: VirtioQueueGeneration,
    ) -> (lease: Option<MmioQueueLease<T>>)
        requires
            old(self)@.wf(),
        ensures
            final(self)@.wf(),
            lease is Some <==> old(self)@.lends(index as int, generation.0),
            lease is None ==> final(self)@ == old(self)@,
            lease matches Some(taken) ==> {
                &&& taken.index == index
                &&& taken.generation == generation
                &&& taken.activity.generation == generation
                &&& taken.queue == Some(old(self)@.queues[index as int])
                &&& final(self)@ == old(self)@.lent(index as int)
            },
    {
        let permit = match self.activity.acquire(generation) {
            Some(permit) => permit,
            None => {
                return None;
            },
        };
        let position: usize = index as usize;
        if !self.is_driver_ok() || position >= self.queue_processing.len()
            || self.queue_processing[position] {
            self.activity.release(permit);
            return None;
        }
        self.queue_processing.set(position, true);
        Some(
            MmioQueueLease {
                index,
                generation,
                queue: Some(self.queues[position].clone()),
                activity: permit,
            },
        )
    }
}

impl<T: GuestMemoryAccessor> VirtioMmioState<T> {
    /// Handles a standard MMIO write and reports any action that the device must take.
    ///
    /// The `QUEUE_READY` layout validation goes through the selected queue's own guest-memory
    /// accessor. Where guest memory only exists as a capability for the length of one access,
    /// [`mmio_write_with_memory`](Self::mmio_write_with_memory) is used instead.
    pub fn mmio_write(&mut self, address: u64, width: AccessWidth, value: u64) -> (action:
        VirtioResult<MmioWriteAction>)
        requires
            old(self)@.wf(),
        ensures
            exists|layout_ok: bool|
                {
                    &&& #[trigger] is_mmio_write(
                        old(self)@,
                        address,
                        width,
                        value,
                        layout_ok,
                        final(self)@,
                        action,
                    )
                    &&& old(self)@.has_screened(address, width) ==> is_own_screening(
                        old(self)@.queues[old(self)@.queue_sel as int],
                        (value % HALF) as u32,
                        layout_ok,
                    )
                },
    {
        let ghost mut screened = true;
        let action = match self.mmio_write_inner(address, width, value) {
            Ok(MmioWriteStep::Complete(action)) => Ok(action),
            Ok(MmioWriteStep::Screen(snapshot)) => {
                let layout_ok = snapshot.screen();
                proof {
                    screened = layout_ok;
                }
                self.commit_queue_ready_validation(
                    snapshot.index,
                    snapshot.value,
                    snapshot.token,
                    layout_ok,
                );
                Ok(MmioWriteAction::Nothing)
            },
            Err(error) => Err(error),
        };
        assert(is_mmio_write(old(self)@, address, width, value, screened, self@, action));
        action
    }
}

impl<T> MmioModel<T> {
    /// Whether a queue can be taken for processing.
    pub open spec fn lends(self, index: int, generation: u64) -> bool {
        self.activity.admits(generation) && self.driver_ok() && self.configurable(index)
    }

    /// Whether a write of the given width at `address` has the rings of the selected queue screened.
    pub open spec fn has_screened(self, address: u64, width: AccessWidth) -> bool {
        &&& self.covers(address)
        &&& width == AccessWidth::Dword
        &&& address - self.base_ipa == VIRTIO_MMIO_QUEUE_READY
        &&& self.takes_ready(self.queue_sel as int)
    }

    /// This state while a queue is with an operation.
    pub open spec fn lent(self, index: int) -> MmioModel<T> {
        MmioModel {
            processing: self.processing.update(index, true),
            activity: MmioActivity {
                active: (self.activity.active + 1) as usize,
                ..self.activity
            },
            ..self
        }
    }

    /// This state after an operation gave its queue back.
    pub open spec fn restored(self, index: int, queue: VirtioQueue<T>) -> MmioModel<T> {
        if 0 <= index < self.queues.len() {
            MmioModel {
                queues: self.queues.update(index, queue),
                processing: self.processing.update(index, false),
                ..self
            }
        } else {
            self
        }
    }

    /// This state after an operation left the barrier.
    pub open spec fn released(self) -> MmioModel<T> {
        MmioModel {
            activity: MmioActivity {
                active: if self.activity.active == 0 {
                    0
                } else {
                    (self.activity.active - 1) as usize
                },
                ..self.activity
            },
            ..self
        }
    }
}

/// Whether `after` and `action` are what a register write makes of `before`, where screening the
/// rings of the selected queue, if it comes to that, says `layout_ok`.
pub open spec fn is_mmio_write<T>(
    before: MmioModel<T>,
    address: u64,
    width: AccessWidth,
    value: u64,
    layout_ok: bool,
    after: MmioModel<T>,
    action: VirtioResult<MmioWriteAction>,
) -> bool {
    let offset = (address - before.base_ipa) as u64;
    let value = (value % HALF) as u32;
    let selected = before.queue_sel as int;
    &&& after.wf()
    &&& if !before.covers(address) {
        &&& action == Ok::<_, VirtioError>(MmioWriteAction::Nothing)
        &&& after == before
    } else if offset < VIRTIO_MMIO_CONFIG_OFFSET && width != AccessWidth::Dword {
        &&& action == Err::<MmioWriteAction, _>(VirtioError::InvalidAccessWidth)
        &&& after == before
    } else if offset == VIRTIO_MMIO_QUEUE_READY {
        &&& action == Ok::<_, VirtioError>(MmioWriteAction::Nothing)
        &&& after == (if before.takes_ready(selected) {
            before.ready_written(selected, value, layout_ok)
        } else {
            before
        })
    } else {
        &&& after == before.written(offset, value)
        &&& action == before.write_action(offset, value)
    }
}

impl<T> MmioQueueLease<T> {
    /// Accesses the queue owned by this processing operation, if not restored.
    pub fn queue(&self) -> (queue: Option<&VirtioQueue<T>>)
        ensures
            queue == (match self.queue {
                Some(owned) => Some(&owned),
                None => None,
            }),
    {
        self.queue.as_ref()
    }

    /// Mutably accesses the queue owned by this processing operation, if not restored.
    pub fn queue_mut(&mut self) -> (queue: Option<&mut VirtioQueue<T>>)
        ensures
            queue is Some <==> old(self).queue is Some,
            queue matches Some(owned) ==> {
                &&& *owned == old(self).queue->0
                &&& final(self).queue == Some(*final(owned))
            },
            queue is None ==> final(self).queue is None,
            final(self).index == old(self).index,
            final(self).generation == old(self).generation,
            final(self).activity == old(self).activity,
    {
        self.queue.as_mut()
    }

    /// Returns the queue configuration lifetime admitted by this lease.
    pub fn generation(&self) -> (generation: VirtioQueueGeneration)
        ensures
            generation == self.generation,
    {
        self.generation
    }

    /// Returns the queue while retaining the activity permit.
    ///
    /// The owner keeps this lease until any interrupt or other completion notification has been
    /// published or suppressed.
    pub fn restore_queue(&mut self, state: &mut VirtioMmioState<T>)
        requires
            old(state)@.wf(),
        ensures
            final(state)@.wf(),
            final(self).queue is None,
            final(self).index == old(self).index,
            final(self).generation == old(self).generation,
            final(self).activity == old(self).activity,
            final(state)@ == (match old(self).queue {
                Some(queue) => old(state)@.restored(old(self).index as int, queue),
                None => old(state)@,
            }),
    {
        if let Some(queue) = self.queue.take() {
            let position: usize = self.index as usize;
            if position < state.queues.len() {
                state.queues.set(position, queue);
                state.queue_processing.set(position, false);
            }
        }
    }

    /// Ends the operation: gives the queue back if it is still here, and leaves the barrier.
    pub fn release(self, state: &mut VirtioMmioState<T>)
        requires
            old(state)@.wf(),
        ensures
            final(state)@.wf(),
            final(state)@ == (match self.queue {
                Some(queue) => old(state)@.restored(self.index as int, queue),
                None => old(state)@,
            }).released(),
    {
        let mut lease = self;
        lease.restore_queue(state);
        state.activity.release(lease.activity);
    }
}

} // verus!
