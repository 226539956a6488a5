//! Virtqueue configuration shared by the VirtIO transports.

#[allow(unused_imports)]
use crate::calls::is_chain;
use std::sync::Arc;
use vstd::prelude::*;

verus! {

/// Largest queue size that a transport advertises.
pub const DEFAULT_QUEUE_SIZE: u16 = 256;

/// Status bit: the driver is ready to drive the device.
pub const VIRTIO_STATUS_DRIVER_OK: u32 = 4;

/// Status bit: feature negotiation is complete.
pub const VIRTIO_STATUS_FEATURES_OK: u32 = 8;

/// Status bit: the device met an error that only a reset repairs.
pub const VIRTIO_STATUS_DEVICE_NEEDS_RESET: u32 = 64;

/// Status bit: the driver or the transport gave up.
pub const VIRTIO_STATUS_FAILED: u32 = 128;

/// Feature bit: notifications are suppressed by event index.
pub const VIRTIO_F_RING_EVENT_IDX: u64 = 0x2000_0000;

/// Failure of a VirtIO transport operation.
#[derive(Clone, Copy, Debug, PartialEq, Eq, Structural)]
pub enum VirtioError {
    /// No register has the accessed offset.
    InvalidRegister,
    /// A register was accessed with a width other than 32 bits.
    InvalidAccessWidth,
    /// The queue size is zero, no power of two, or above the maximum.
    InvalidQueueSize,
    /// The rings are outside guest memory.
    InvalidQueueLayout,
    /// Another operation holds the transport.
    WouldBlock,
}

/// Result of a VirtIO transport operation.
pub type VirtioResult<T> = Result<T, VirtioError>;

/// Identity of one queue configuration lifetime.
#[derive(Clone, Copy, Debug, PartialEq, Eq, Structural)]
pub struct VirtioQueueGeneration(pub u64);

impl VirtioQueueGeneration {
    /// Returns the numeric generation for diagnostics and tests.
    pub fn value(self) -> (value: u64)
        ensures
            value == self.0,
    {
        self.0
    }

    /// Names the lifetime with the given number.
    pub fn from_value(value: u64) -> (generation: VirtioQueueGeneration)
        ensures
            generation.0 == value,
    {
        VirtioQueueGeneration(value)
    }
}

/// The configuration lifetime that follows `generation`.
pub open spec fn next_generation(generation: u64) -> u64 {
    if generation == u64::MAX {
        0
    } else {
        (generation + 1) as u64
    }
}

/// Guest memory that is reachable for the length of one access.
pub trait GuestMemory {
    /// Reads `length` bytes at a guest address.
    fn read(&mut self, address: u64, length: usize) -> VirtioResult<Vec<u8>>;

    /// Writes bytes at a guest address.
    fn write(&mut self, address: u64, bytes: Vec<u8>) -> VirtioResult<()>;
}

/// Whether the read behind `call` can find the byte at `address`.
pub open spec fn finds_byte<M: GuestMemory>(call: &mut M, address: u64) -> bool {
    exists|bytes: Vec<u8>| #[trigger] call_ensures(M::read, (call, address, 1usize), Ok(bytes))
}

/// Whether `result` is what `calls`, which read one byte at each of `probes`, come to: success where
/// every read is answered, else the error of the first one that is not, and no read after it.
pub open spec fn is_probing<M: GuestMemory>(
    calls: Seq<&mut M>,
    probes: Seq<u64>,
    result: VirtioResult<()>,
) -> bool {
    match result {
        Ok(_) => {
            &&& calls.len() == probes.len()
            &&& forall|index: int|
                #![trigger calls[index]]
                0 <= index < probes.len() ==> finds_byte(calls[index], probes[index])
        },
        Err(error) => {
            let failed = calls.len() - 1;
            &&& 0 <= failed < probes.len()
            &&& forall|index: int|
                #![trigger calls[index]]
                0 <= index < failed ==> finds_byte(calls[index], probes[index])
            &&& call_ensures(M::read, (calls[failed], probes[failed], 1usize), Err(error))
        },
    }
}

/// Whether the write behind `call` can answer `bytes` at `address` with `said`.
pub open spec fn says_write<M: GuestMemory>(
    call: &mut M,
    address: u64,
    bytes: Seq<u8>,
    said: VirtioResult<()>,
) -> bool {
    exists|sent: Vec<u8>|
        sent@ == bytes && #[trigger] call_ensures(M::write, (call, address, sent), said)
}

/// Guest memory that a queue reaches by itself.
pub trait GuestMemoryAccessor {
    /// Reads `length` bytes at a guest address.
    fn read(&self, address: u64, length: usize) -> VirtioResult<Vec<u8>>;

    /// Writes bytes at a guest address.
    fn write(&self, address: u64, bytes: Vec<u8>) -> VirtioResult<()>;
}

/// Guest memory of a queue that reaches it by itself.
pub struct AddressSpaceMemory<T> {
    /// The queue's accessor.
    pub accessor: Arc<T>,
}

impl<T: GuestMemoryAccessor> GuestMemory for AddressSpaceMemory<T> {
    fn read(&mut self, address: u64, length: usize) -> (said: VirtioResult<Vec<u8>>)
        ensures
            call_ensures(T::read, (&*old(self).accessor, address, length), said),
            *final(self) == *old(self),
    {
        self.accessor.read(address, length)
    }

    fn write(&mut self, address: u64, bytes: Vec<u8>) -> (said: VirtioResult<()>)
        ensures
            call_ensures(T::write, (&*old(self).accessor, address, bytes), said),
            *final(self) == *old(self),
    {
        self.accessor.write(address, bytes)
    }
}

/// Accessor of queues whose memory only comes with each access.
#[derive(Clone, Copy, Debug, PartialEq, Eq, Structural)]
pub struct NoGuestMemoryAccessor;

/// What the driver has programmed into one queue.
#[derive(Clone, Copy, Debug, PartialEq, Eq, Structural)]
pub struct QueueLayout {
    /// Number of descriptors.
    pub size: u16,
    /// Whether the driver has enabled the queue.
    pub ready: bool,
    /// Guest address of the descriptor table.
    pub desc_table_addr: u64,
    /// Guest address of the ring that the driver fills.
    pub avail_ring_addr: u64,
    /// Guest address of the ring that the device fills.
    pub used_ring_addr: u64,
    /// Whether notifications are suppressed by event index.
    pub event_idx_enabled: bool,
}

impl QueueLayout {
    /// The layout that a driver has not touched.
    pub open spec fn blank(size: u16) -> QueueLayout {
        QueueLayout {
            size,
            ready: false,
            desc_table_addr: 0,
            avail_ring_addr: 0,
            used_ring_addr: 0,
            event_idx_enabled: false,
        }
    }

    /// Whether the driver has given all three ring addresses.
    pub open spec fn configured(self) -> bool {
        self.desc_table_addr != 0 && self.avail_ring_addr != 0 && self.used_ring_addr != 0
    }

    /// Address of the last byte of the descriptor table.
    pub open spec fn desc_end(self) -> int {
        self.desc_table_addr + 16 * self.size - 1
    }

    /// Address of the last byte of the ring that the driver fills.
    pub open spec fn avail_end(self) -> int {
        self.avail_ring_addr + 2 * self.size + 5
    }

    /// Address of the last byte of the ring that the device fills.
    pub open spec fn used_end(self) -> int {
        self.used_ring_addr + 8 * self.size + 5
    }

    /// Address of the available event, behind the entries of the ring that the device fills.
    pub open spec fn available_event_addr(self) -> u64 {
        (self.used_ring_addr + 8 * self.size + 4) as u64
    }

    /// Whether the driver has given a size and all three addresses, and nothing runs past the end
    /// of the address space.
    pub open spec fn placed(self) -> bool {
        &&& self.configured()
        &&& self.size > 0
        &&& self.desc_end() <= u64::MAX
        &&& self.avail_end() <= u64::MAX
        &&& self.used_end() <= u64::MAX
    }

    /// The first and last byte of the descriptor table and of both rings.
    pub open spec fn probes(self) -> Seq<u64> {
        seq![
            self.desc_table_addr,
            self.desc_end() as u64,
            self.avail_ring_addr,
            self.avail_end() as u64,
            self.used_ring_addr,
            self.used_end() as u64,
        ]
    }

    /// Returns the addresses that have to be in guest memory for the queue to work, where the
    /// layout is usable at all.
    pub fn layout_probes(&self) -> (probes: Option<Vec<u64>>)
        ensures
            probes is Some <==> self.placed(),
            probes matches Some(addresses) ==> addresses@ == self.probes(),
    {
        if self.desc_table_addr == 0 || self.avail_ring_addr == 0 || self.used_ring_addr == 0
            || self.size == 0 {
            return None;
        }
        let size: u64 = self.size as u64;
        if self.desc_table_addr > u64::MAX - (16 * size - 1) || self.avail_ring_addr > u64::MAX - (2
            * size + 5) || self.used_ring_addr > u64::MAX - (8 * size + 5) {
            return None;
        }
        let mut probes: Vec<u64> = Vec::new();
        probes.push(self.desc_table_addr);
        probes.push(self.desc_table_addr + (16 * size - 1));
        probes.push(self.avail_ring_addr);
        probes.push(self.avail_ring_addr + (2 * size + 5));
        probes.push(self.used_ring_addr);
        probes.push(self.used_ring_addr + (8 * size + 5));
        assert(probes@ =~= self.probes());
        Some(probes)
    }
}

/// One virtqueue as its transport sees it.
pub struct VirtioQueue<T> {
    /// Position of the queue in its device.
    pub index: u16,
    /// Largest size that the driver may choose.
    pub max_size: u16,
    /// What the driver has programmed.
    pub layout: QueueLayout,
    /// Position in the driver's ring up to which the device has taken buffers.
    pub last_avail_idx: u16,
    /// Whether a runtime fault is latched.
    pub faulted: bool,
    /// Whether an enable request was refused for its ring layout.
    pub layout_rejected: bool,
    /// Memory that the queue reaches by itself.
    pub accessor: Arc<T>,
}

/// Whether `size` is one of 1, 2, 4, ... 32768.
pub open spec fn is_queue_size(size: int) -> bool {
    size == 1 || size == 2 || size == 4 || size == 8 || size == 16 || size == 32 || size == 64
        || size == 128 || size == 256 || size == 512 || size == 1024 || size == 2048 || size
        == 4096 || size == 8192 || size == 16384 || size == 32768
}

/// Returns whether `size` is a nonzero power of two.
pub fn valid_queue_size(size: u16) -> (valid: bool)
    ensures
        valid == is_queue_size(size as int),
{
    assert((size != 0 && size & (size - 1) as u16 == 0) == (size == 1 || size == 2 || size == 4 || size
        == 8 || size == 16 || size == 32 || size == 64 || size == 128 || size == 256 || size == 512
        || size == 1024 || size == 2048 || size == 4096 || size == 8192 || size == 16384 || size
        == 32768)) by (bit_vector);
    size != 0 && size & (size - 1) == 0
}

impl<T> VirtioQueue<T> {
    /// Creates an unconfigured queue of the largest size.
    pub fn new(index: u16, max_size: u16, accessor: Arc<T>) -> (queue: VirtioQueue<T>)
        ensures
            queue == (VirtioQueue {
                index,
                max_size,
                layout: QueueLayout::blank(max_size),
                last_avail_idx: 0,
                faulted: false,
                layout_rejected: false,
                accessor,
            }),
    {
        VirtioQueue {
            index,
            max_size,
            layout: QueueLayout {
                size: max_size,
                ready: false,
                desc_table_addr: 0,
                avail_ring_addr: 0,
                used_ring_addr: 0,
                event_idx_enabled: false,
            },
            last_avail_idx: 0,
            faulted: false,
            layout_rejected: false,
            accessor,
        }
    }

    /// This queue as if the driver had never touched it.
    pub open spec fn as_reset(self) -> VirtioQueue<T> {
        VirtioQueue {
            layout: QueueLayout::blank(self.max_size),
            last_avail_idx: 0,
            faulted: false,
            layout_rejected: false,
            ..self
        }
    }

    /// Forgets everything that the driver has programmed.
    pub fn reset(&mut self)
        ensures
            *final(self) == old(self).as_reset(),
    {
        self.layout = QueueLayout {
            size: self.max_size,
            ready: false,
            desc_table_addr: 0,
            avail_ring_addr: 0,
            used_ring_addr: 0,
            event_idx_enabled: false,
        };
        self.last_avail_idx = 0;
        self.faulted = false;
        self.layout_rejected = false;
    }

    /// Whether the driver may choose `size`.
    pub open spec fn accepts_size(self, size: u16) -> bool {
        is_queue_size(size as int) && size <= self.max_size
    }

    /// Chooses the number of descriptors.
    pub fn set_size(&mut self, size: u16) -> (result: VirtioResult<()>)
        ensures
            result is Ok <==> old(self).accepts_size(size),
            result is Ok ==> *final(self) == (VirtioQueue {
                layout: QueueLayout { size, ..old(self).layout },
                ..*old(self)
            }),
            result matches Err(error) ==> error == VirtioError::InvalidQueueSize && *final(self)
                == *old(self),
    {
        if !valid_queue_size(size) || size > self.max_size {
            return Err(VirtioError::InvalidQueueSize);
        }
        self.layout.size = size;
        Ok(())
    }

    /// Places the descriptor table.
    pub fn set_desc_table_addr(&mut self, address: u64)
        ensures
            *final(self) == (VirtioQueue {
                layout: QueueLayout { desc_table_addr: address, ..old(self).layout },
                ..*old(self)
            }),
    {
        self.layout.desc_table_addr = address;
    }

    /// Places the ring that the driver fills.
    pub fn set_avail_ring_addr(&mut self, address: u64)
        ensures
            *final(self) == (VirtioQueue {
                layout: QueueLayout { avail_ring_addr: address, ..old(self).layout },
                ..*old(self)
            }),
    {
        self.layout.avail_ring_addr = address;
    }

    /// Places the ring that the device fills.
    pub fn set_used_ring_addr(&mut self, address: u64)
        ensures
            *final(self) == (VirtioQueue {
                layout: QueueLayout { used_ring_addr: address, ..old(self).layout },
                ..*old(self)
            }),
    {
        self.layout.used_ring_addr = address;
    }

    /// Enables or disables the queue.
    pub fn set_ready(&mut self, ready: bool)
        ensures
            *final(self) == (VirtioQueue {
                layout: QueueLayout { ready, ..old(self).layout },
                ..*old(self)
            }),
    {
        self.layout.ready = ready;
    }

    /// Records that an enable request was refused for its ring layout.
    pub fn report_layout_rejection(&mut self)
        ensures
            *final(self) == (VirtioQueue { layout_rejected: true, ..*old(self) }),
    {
        self.layout_rejected = true;
    }

    /// Returns whether the driver has given all three ring addresses.
    pub fn is_configured(&self) -> (configured: bool)
        ensures
            configured == self.layout.configured(),
    {
        self.layout.desc_table_addr != 0 && self.layout.avail_ring_addr != 0
            && self.layout.used_ring_addr != 0
    }

    /// Reads the ends of the descriptor table and of both rings, and fails with the first read
    /// that does.
    pub fn validate_layout_with_memory<M: GuestMemory>(&self, memory: &mut M) -> (result:
        VirtioResult<()>)
        ensures
            !self.layout.placed() ==> result == Err::<(), _>(VirtioError::InvalidQueueLayout)
                && *final(memory) == *old(memory),
            self.layout.placed() ==> exists|calls: Seq<&mut M>, states: Seq<M>|
                {
                    &&& #[trigger] is_chain(calls, states)
                    &&& states.first() == *old(memory)
                    &&& states.last() == *final(memory)
                    &&& forall|i: int|
                        0 <= i < calls.len() ==> *final(#[trigger] calls[i]) == states[i + 1]
                    &&& is_probing(calls, self.layout.probes(), result)
                },
    {
        let probes = match self.layout.layout_probes() {
            Some(probes) => probes,
            None => {
                return Err(VirtioError::InvalidQueueLayout);
            },
        };
        let length: usize = probes.len();
        let mut index: usize = 0;
        proof {
            assert(is_chain(Seq::<&mut M>::empty(), seq![*memory]));
        }
        while index < length
            invariant
                index <= length,
                length == probes@.len(),
                self.layout.placed(),
                probes@ == self.layout.probes(),
                exists|calls: Seq<&mut M>, states: Seq<M>|
                    {
                        &&& #[trigger] is_chain(calls, states)
                        &&& states.first() == *old(memory)
                        &&& states.last() == *memory
                        &&& forall|i: int|
                            0 <= i < calls.len() ==> *final(#[trigger] calls[i]) == states[i + 1]
                        &&& calls.len() == index
                        &&& forall|i: int|
                            #![trigger calls[i]]
                            0 <= i < index ==> finds_byte(calls[i], probes@[i])
                    },
            decreases length - index,
        {
            let ghost before = *memory;
            let said = memory.read(probes[index], 1);
            let ghost answer = said;
            proof {
                let (calls, states) = choose|calls: Seq<&mut M>, states: Seq<M>|
                    {
                        &&& #[trigger] is_chain(calls, states)
                        &&& states.first() == *old(memory)
                        &&& states.last() == before
                        &&& forall|i: int|
                            0 <= i < calls.len() ==> *final(#[trigger] calls[i]) == states[i + 1]
                        &&& calls.len() == index
                        &&& forall|i: int|
                            #![trigger calls[i]]
                            0 <= i < index ==> finds_byte(calls[i], probes@[i])
                    };
                let call = choose|call: &mut M|
                    {
                        &&& #[trigger] call_ensures(
                            M::read,
                            (call, probes@[index as int], 1usize),
                            answer,
                        )
                        &&& *call == before
                        &&& *final(call) == *memory
                    };
                assert(calls.push(call)[index as int] == call);
                assert(is_chain(calls.push(call), states.push(*memory)));
                match answer {
                    Ok(bytes) => {
                        assert(call_ensures(
                            M::read,
                            (call, probes@[index as int], 1usize),
                            Ok(bytes),
                        ));
                    },
                    Err(error) => {
                        assert(is_probing(calls.push(call), probes@, Err::<(), _>(error)));
                    },
                }
            }
            match said {
                Ok(_) => {},
                Err(error) => {
                    return Err(error);
                },
            }
            index = index + 1;
        }
        Ok(())
    }

    /// The position up to which the device has taken buffers, as the rings hold it.
    pub open spec fn rearm_bytes(self) -> Seq<u8> {
        seq![(self.last_avail_idx % 256) as u8, (self.last_avail_idx / 256) as u8]
    }

    /// Whether `result` is what the write of the available event behind `call` comes to.
    pub open spec fn is_rearming<M: GuestMemory>(
        self,
        call: &mut M,
        result: VirtioResult<bool>,
    ) -> bool {
        exists|said: VirtioResult<()>|
            {
                &&& #[trigger] says_write(
                    call,
                    self.layout.available_event_addr(),
                    self.rearm_bytes(),
                    said,
                )
                &&& result == (match said {
                    Ok(_) => Ok::<bool, VirtioError>(true),
                    Err(error) => Err(error),
                })
            }
    }

    /// Tells the driver to notify for the next buffer, where notifications are suppressed by event
    /// index, and returns whether it did. Fails for rings that are not placed.
    pub fn rearm_available_event_with_memory<M: GuestMemory>(&self, memory: &mut M) -> (result:
        VirtioResult<bool>)
        ensures
            !self.layout.event_idx_enabled ==> result == Ok::<_, VirtioError>(false)
                && *final(memory) == *old(memory),
            self.layout.event_idx_enabled && !self.layout.placed() ==> result == Err::<bool, _>(
                VirtioError::InvalidQueueLayout,
            ) && *final(memory) == *old(memory),
            self.layout.event_idx_enabled && self.layout.placed() ==> exists|call: &mut M|
                {
                    &&& #[trigger] self.is_rearming(call, result)
                    &&& *call == *old(memory)
                    &&& *final(call) == *final(memory)
                },
    {
        if !self.layout.event_idx_enabled {
            return Ok(false);
        }
        if self.layout.layout_probes().is_none() {
            return Err(VirtioError::InvalidQueueLayout);
        }
        let address: u64 = self.layout.used_ring_addr + 8 * (self.layout.size as u64) + 4;
        let mut bytes: Vec<u8> = Vec::new();
        bytes.push((self.last_avail_idx % 256) as u8);
        bytes.push((self.last_avail_idx / 256) as u8);
        assert(bytes@ =~= self.rearm_bytes());
        let ghost sent = bytes;
        let said = memory.write(address, bytes);
        let ghost answer = said;
        let result = match said {
            Ok(_) => Ok(true),
            Err(error) => Err(error),
        };
        proof {
            let call = choose|call: &mut M|
                {
                    &&& #[trigger] call_ensures(M::write, (call, address, sent), answer)
                    &&& *call == *old(memory)
                    &&& *final(call) == *memory
                };
            assert(says_write(
                call,
                self.layout.available_event_addr(),
                self.rearm_bytes(),
                answer,
            ));
            assert(self.is_rearming(call, result));
        }
        result
    }

    /// Returns whether the queue has latched a runtime fault.
    pub fn is_faulted(&self) -> (faulted: bool)
        ensures
            faulted == self.faulted,
    {
        self.faulted
    }
}

impl<T> Clone for VirtioQueue<T> {
    fn clone(&self) -> (queue: VirtioQueue<T>)
        ensures
            queue == *self,
    {
        VirtioQueue {
            index: self.index,
            max_size: self.max_size,
            layout: self.layout,
            last_avail_idx: self.last_avail_idx,
            faulted: self.faulted,
            layout_rejected: self.layout_rejected,
            accessor: self.accessor.clone(),
        }
    }
}

/// A queue that was reset is unconfigured, disabled and free of faults, and resetting it again
/// changes nothing.
pub proof fn law_reset_queue_is_blank<T>(queue: VirtioQueue<T>)
    ensures
        !queue.as_reset().layout.configured(),
        !queue.as_reset().layout.ready,
        !queue.as_reset().faulted,
        queue.as_reset().as_reset() == queue.as_reset(),
{
}

} // verus!
