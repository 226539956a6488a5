use axvisor::access::AccessWidth;
use axvisor::virtio::mmio::{
    is_queue_config_register, MmioReadOutcome, MmioWriteAction, MmioWriteStep, VirtioMmioState,
    VIRTIO_MMIO_CONFIG_GENERATION,
    VIRTIO_MMIO_DEVICE_FEATURES, VIRTIO_MMIO_DEVICE_FEATURES_SEL, VIRTIO_MMIO_DEVICE_ID,
    VIRTIO_MMIO_DRIVER_FEATURES, VIRTIO_MMIO_DRIVER_FEATURES_SEL, VIRTIO_MMIO_INTERRUPT_ACK,
    VIRTIO_MMIO_INTERRUPT_STATUS, VIRTIO_MMIO_MAGIC_VALUE, VIRTIO_MMIO_QUEUE_AVAIL_HIGH,
    VIRTIO_MMIO_QUEUE_AVAIL_LOW, VIRTIO_MMIO_QUEUE_DESC_HIGH, VIRTIO_MMIO_QUEUE_DESC_LOW,
    VIRTIO_MMIO_QUEUE_NOTIFY, VIRTIO_MMIO_QUEUE_NUM, VIRTIO_MMIO_QUEUE_NUM_MAX,
    VIRTIO_MMIO_QUEUE_READY, VIRTIO_MMIO_QUEUE_SEL, VIRTIO_MMIO_QUEUE_USED_HIGH,
    VIRTIO_MMIO_QUEUE_USED_LOW, VIRTIO_MMIO_STATUS, VIRTIO_MMIO_VENDOR_ID, VIRTIO_MMIO_VERSION,
};
use axvisor::virtio::queue::{
    GuestMemory, GuestMemoryAccessor, VirtioError, VirtioQueue, VirtioResult, DEFAULT_QUEUE_SIZE,
    VIRTIO_STATUS_DRIVER_OK, VIRTIO_STATUS_FAILED, VIRTIO_STATUS_FEATURES_OK,
};
use std::cell::Cell;
use std::sync::Arc;

const BASE: u64 = 0xa00_0000;
const EVENT_IDX: u64 = 1 << 29;
const VERSION_1: u64 = 1 << 32;

/// Guest memory below a limit.
#[derive(Default)]
struct Accessor {
    limit: u64,
    reads: Cell<usize>,
}

impl GuestMemoryAccessor for Accessor {
    fn read(&self, address: u64, length: usize) -> VirtioResult<Vec<u8>> {
        self.reads.set(self.reads.get() + 1);
        if address + length as u64 <= self.limit {
            Ok(vec![0; length])
        } else {
            Err(VirtioError::InvalidQueueLayout)
        }
    }
    fn write(&self, _address: u64, _bytes: Vec<u8>) -> VirtioResult<()> {
        Ok(())
    }
}

struct Memory {
    limit: u64,
}

impl GuestMemory for Memory {
    fn read(&mut self, address: u64, length: usize) -> VirtioResult<Vec<u8>> {
        if address + length as u64 <= self.limit {
            Ok(vec![0; length])
        } else {
            Err(VirtioError::InvalidQueueLayout)
        }
    }
    fn write(&mut self, _address: u64, _bytes: Vec<u8>) -> VirtioResult<()> {
        Ok(())
    }
}

type State = VirtioMmioState<Accessor>;

fn device(limit: u64) -> State {
    let accessor = Arc::new(Accessor {
        limit,
        reads: Cell::new(0),
    });
    VirtioMmioState::new(
        BASE,
        0x200,
        2,
        0x1af4,
        VERSION_1 | EVENT_IDX,
        vec![
            VirtioQueue::new(0, 8, Arc::clone(&accessor)),
            VirtioQueue::new(1, 8, accessor),
        ],
    )
}

fn read(state: &mut State, register: u64) -> u32 {
    match state.mmio_read(BASE + register, AccessWidth::Dword) {
        Ok(MmioReadOutcome::Standard(value)) => value,
        other => panic!("unexpected read outcome {other:?}"),
    }
}

fn write(state: &mut State, register: u64, value: u64) -> MmioWriteAction {
    state
        .mmio_write(BASE + register, AccessWidth::Dword, value)
        .unwrap()
}

fn negotiate(state: &mut State, features: u64) {
    write(state, VIRTIO_MMIO_STATUS, 1);
    write(state, VIRTIO_MMIO_STATUS, 3);
    for selector in 0..2 {
        write(state, VIRTIO_MMIO_DRIVER_FEATURES_SEL, selector);
        write(
            state,
            VIRTIO_MMIO_DRIVER_FEATURES,
            (features >> (32 * selector)) & 0xffff_ffff,
        );
    }
    write(state, VIRTIO_MMIO_STATUS, 11);
}

fn place(state: &mut State) {
    write(state, VIRTIO_MMIO_QUEUE_SEL, 0);
    write(state, VIRTIO_MMIO_QUEUE_NUM, 4);
    write(state, VIRTIO_MMIO_QUEUE_DESC_LOW, 0x1000);
    write(state, VIRTIO_MMIO_QUEUE_AVAIL_LOW, 0x2000);
    write(state, VIRTIO_MMIO_QUEUE_USED_LOW, 0x3000);
}

fn run(state: &mut State) {
    negotiate(state, VERSION_1);
    place(state);
    write(state, VIRTIO_MMIO_QUEUE_READY, 1);
    write(state, VIRTIO_MMIO_STATUS, 15);
}

#[test]
fn identity_registers_read_back() {
    let mut state = device(0x10_0000);
    assert_eq!(read(&mut state, VIRTIO_MMIO_MAGIC_VALUE), 0x7472_6976);
    assert_eq!(read(&mut state, VIRTIO_MMIO_VERSION), 2);
    assert_eq!(read(&mut state, VIRTIO_MMIO_DEVICE_ID), 2);
    assert_eq!(read(&mut state, VIRTIO_MMIO_VENDOR_ID), 0x1af4);
    assert_eq!(
        read(&mut state, VIRTIO_MMIO_QUEUE_NUM_MAX),
        DEFAULT_QUEUE_SIZE as u32
    );
    state.bump_config_generation();
    assert_eq!(read(&mut state, VIRTIO_MMIO_CONFIG_GENERATION), 1);
    assert_eq!(state.base_ipa(), BASE);
    assert_eq!(state.num_queues(), 2);
}

#[test]
fn accesses_outside_the_registers_are_told_apart() {
    let mut state = device(0x10_0000);
    assert_eq!(
        state.mmio_read(BASE - 4, AccessWidth::Dword),
        Ok(MmioReadOutcome::Standard(0))
    );
    assert_eq!(
        state.mmio_read(BASE + 0x200, AccessWidth::Dword),
        Ok(MmioReadOutcome::Standard(0))
    );
    assert_eq!(
        state.mmio_read(BASE + 0x108, AccessWidth::Byte),
        Ok(MmioReadOutcome::DeviceConfig {
            offset: 8,
            width: AccessWidth::Byte
        })
    );
    assert_eq!(
        state.mmio_read(BASE, AccessWidth::Byte),
        Err(VirtioError::InvalidAccessWidth)
    );
    assert_eq!(
        state.mmio_read(BASE + 0x28, AccessWidth::Dword),
        Err(VirtioError::InvalidRegister)
    );
    assert_eq!(
        state.mmio_write(BASE - 1, AccessWidth::Byte, 1),
        Ok(MmioWriteAction::Nothing)
    );
    assert_eq!(
        state.mmio_write(BASE + VIRTIO_MMIO_STATUS, AccessWidth::Byte, 1),
        Err(VirtioError::InvalidAccessWidth)
    );
    assert_eq!(
        state.mmio_write(BASE + VIRTIO_MMIO_MAGIC_VALUE, AccessWidth::Dword, 1),
        Err(VirtioError::InvalidRegister)
    );
}

#[test]
fn feature_windows_show_the_selected_half() {
    let mut state = device(0x10_0000);
    assert_eq!(
        read(&mut state, VIRTIO_MMIO_DEVICE_FEATURES),
        EVENT_IDX as u32
    );
    write(&mut state, VIRTIO_MMIO_DEVICE_FEATURES_SEL, 1);
    assert_eq!(read(&mut state, VIRTIO_MMIO_DEVICE_FEATURES), 1);
    write(&mut state, VIRTIO_MMIO_DEVICE_FEATURES_SEL, 2);
    assert_eq!(read(&mut state, VIRTIO_MMIO_DEVICE_FEATURES), 0);

    write(&mut state, VIRTIO_MMIO_DRIVER_FEATURES_SEL, 2);
    write(&mut state, VIRTIO_MMIO_DRIVER_FEATURES, 0xffff_ffff);
    assert_eq!(state.driver_features(), 0);
    write(&mut state, VIRTIO_MMIO_DRIVER_FEATURES_SEL, 1);
    write(&mut state, VIRTIO_MMIO_DRIVER_FEATURES, 1);
    assert_eq!(state.driver_features(), VERSION_1);
    assert_eq!(read(&mut state, VIRTIO_MMIO_DRIVER_FEATURES), 1);
}

#[test]
fn sealed_features_are_final() {
    let mut state = device(0x10_0000);
    negotiate(&mut state, VERSION_1 | EVENT_IDX);
    assert_ne!(
        read(&mut state, VIRTIO_MMIO_STATUS) & VIRTIO_STATUS_FEATURES_OK,
        0
    );
    assert!(state.queue_snapshot(0).unwrap().layout.event_idx_enabled);
    write(&mut state, VIRTIO_MMIO_DRIVER_FEATURES, 0xff);
    assert_eq!(state.driver_features(), VERSION_1 | EVENT_IDX);
    // The bit stays although the driver leaves it out.
    write(&mut state, VIRTIO_MMIO_STATUS, 7);
    assert_eq!(read(&mut state, VIRTIO_MMIO_STATUS), 15);
}

#[test]
fn unoffered_features_fail_negotiation() {
    let mut state = device(0x10_0000);
    negotiate(&mut state, VERSION_1 | 1);
    let status = read(&mut state, VIRTIO_MMIO_STATUS);
    assert_eq!(status & VIRTIO_STATUS_FEATURES_OK, 0);
    assert_ne!(status & VIRTIO_STATUS_FAILED, 0);
}

#[test]
fn address_halves_are_independent() {
    let mut state = device(0x10_0000);
    for (low, high) in [
        (VIRTIO_MMIO_QUEUE_DESC_LOW, VIRTIO_MMIO_QUEUE_DESC_HIGH),
        (VIRTIO_MMIO_QUEUE_AVAIL_LOW, VIRTIO_MMIO_QUEUE_AVAIL_HIGH),
        (VIRTIO_MMIO_QUEUE_USED_LOW, VIRTIO_MMIO_QUEUE_USED_HIGH),
    ] {
        write(&mut state, high, 0x1);
        write(&mut state, low, 0x2000);
    }
    let layout = state.queue_snapshot(0).unwrap().layout;
    assert_eq!(layout.desc_table_addr, 0x1_0000_2000);
    assert_eq!(layout.avail_ring_addr, 0x1_0000_2000);
    assert_eq!(layout.used_ring_addr, 0x1_0000_2000);
    write(&mut state, VIRTIO_MMIO_QUEUE_DESC_HIGH, 0);
    assert_eq!(
        state.queue_snapshot(0).unwrap().layout.desc_table_addr,
        0x2000
    );
    assert_eq!(state.queue_snapshot(1).unwrap().layout.desc_table_addr, 0);
}

#[test]
fn queue_selection_and_size_are_checked() {
    let mut state = device(0x10_0000);
    write(&mut state, VIRTIO_MMIO_QUEUE_SEL, 1);
    assert_eq!(state.selected_queue_index(), Some(1));
    write(&mut state, VIRTIO_MMIO_QUEUE_SEL, 2);
    assert_eq!(read(&mut state, VIRTIO_MMIO_QUEUE_SEL), 1);
    write(&mut state, VIRTIO_MMIO_QUEUE_NUM, 4);
    assert_eq!(read(&mut state, VIRTIO_MMIO_QUEUE_NUM), 4);
    for refused in [0, 3, 16] {
        write(&mut state, VIRTIO_MMIO_QUEUE_NUM, refused);
        assert_eq!(read(&mut state, VIRTIO_MMIO_QUEUE_NUM), 4);
    }
    assert_eq!(state.queue_configuration(1), Some((4, false)));
    assert_eq!(state.queue_configuration(2), None);
}

#[test]
fn ready_queues_have_their_rings_in_memory() {
    let mut state = device(0x10_0000);
    write(&mut state, VIRTIO_MMIO_QUEUE_READY, 1);
    assert_eq!(read(&mut state, VIRTIO_MMIO_QUEUE_READY), 0);
    place(&mut state);
    write(&mut state, VIRTIO_MMIO_QUEUE_READY, 1);
    assert_eq!(read(&mut state, VIRTIO_MMIO_QUEUE_READY), 1);
    write(&mut state, VIRTIO_MMIO_QUEUE_READY, 0);
    assert_eq!(read(&mut state, VIRTIO_MMIO_QUEUE_READY), 0);

    let mut state = device(0x3000);
    place(&mut state);
    write(&mut state, VIRTIO_MMIO_QUEUE_READY, 1);
    assert_eq!(read(&mut state, VIRTIO_MMIO_QUEUE_READY), 0);
    assert!(state.queue_snapshot(0).unwrap().layout_rejected);
    // The same request, screened with a capability that covers the rings.
    state
        .mmio_write_with_memory(
            BASE + VIRTIO_MMIO_QUEUE_READY,
            AccessWidth::Dword,
            1,
            &mut Memory { limit: 0x4000 },
        )
        .unwrap();
    assert_eq!(read(&mut state, VIRTIO_MMIO_QUEUE_READY), 1);
}

#[test]
fn stale_screenings_change_nothing() {
    let mut state = device(0x10_0000);
    place(&mut state);
    let Ok(MmioWriteStep::Screen(snapshot)) =
        state.mmio_write_inner(BASE + VIRTIO_MMIO_QUEUE_READY, AccessWidth::Dword, 1)
    else {
        panic!("expected a screening");
    };
    let layout_ok = snapshot.screen();
    assert!(layout_ok);
    write(&mut state, VIRTIO_MMIO_QUEUE_DESC_LOW, 0x8000);
    state.commit_queue_ready_validation(snapshot.index, snapshot.value, snapshot.token, layout_ok);
    assert_eq!(read(&mut state, VIRTIO_MMIO_QUEUE_READY), 0);
}

#[test]
fn acknowledgements_keep_interrupts_that_were_raised_again() {
    let mut state = device(0x10_0000);
    state.set_interrupt(1);
    assert_eq!(read(&mut state, VIRTIO_MMIO_INTERRUPT_STATUS), 1);
    state.set_interrupt(3);
    assert_eq!(
        write(&mut state, VIRTIO_MMIO_INTERRUPT_ACK, 1),
        MmioWriteAction::InterruptPending
    );
    assert_eq!(state.interrupt_status(), 3);
    assert_eq!(read(&mut state, VIRTIO_MMIO_INTERRUPT_STATUS), 3);
    assert_eq!(
        write(&mut state, VIRTIO_MMIO_INTERRUPT_ACK, 3),
        MmioWriteAction::Nothing
    );
    assert_eq!(state.interrupt_status(), 0);
}

#[test]
fn notifications_need_a_running_driver() {
    let mut state = device(0x10_0000);
    assert_eq!(
        write(&mut state, VIRTIO_MMIO_QUEUE_NOTIFY, 1),
        MmioWriteAction::Nothing
    );
    run(&mut state);
    assert!(state.is_driver_ok());
    assert_ne!(state.status() & VIRTIO_STATUS_DRIVER_OK, 0);
    assert_eq!(
        write(&mut state, VIRTIO_MMIO_QUEUE_NOTIFY, 1),
        MmioWriteAction::QueueNotified {
            index: 1,
            generation: state.queue_generation()
        }
    );
}

#[test]
fn lent_queues_are_exclusive_and_frozen() {
    let mut state = device(0x10_0000);
    run(&mut state);
    let generation = state.queue_generation();
    let mut lease = state.take_queue_for_processing(0, generation).unwrap();
    assert!(state.take_queue_for_processing(0, generation).is_none());
    assert!(state.take_queue_for_processing(2, generation).is_none());
    write(&mut state, VIRTIO_MMIO_QUEUE_DESC_LOW, 0x9000);
    write(&mut state, VIRTIO_MMIO_QUEUE_READY, 0);
    assert_eq!(read(&mut state, VIRTIO_MMIO_QUEUE_READY), 1);

    lease.queue_mut().unwrap().last_avail_idx = 5;
    assert_eq!(lease.queue().unwrap().layout.desc_table_addr, 0x1000);
    assert_eq!(lease.generation(), generation);
    lease.restore_queue(&mut state);
    assert!(lease.queue().is_none());
    assert_eq!(state.queue_snapshot(0).unwrap().last_avail_idx, 5);
    assert!(!state.is_queue_faulted(0));
    // The operation is not over before its notification is out.
    assert_eq!(state.begin_reset(), Err(VirtioError::WouldBlock));
    lease.release(&mut state);
    assert_eq!(state.complete_reset(), Err(VirtioError::WouldBlock));
    assert_eq!(state.reset(), Ok(()));
}

#[test]
fn reset_starts_over_and_makes_leases_stale() {
    let mut state = device(0x10_0000);
    run(&mut state);
    let generation = state.queue_generation();
    assert_eq!(
        write(&mut state, VIRTIO_MMIO_STATUS, 0),
        MmioWriteAction::Reset
    );
    assert!(state.take_queue_for_processing(0, generation).is_none());
    assert_eq!(
        state.mmio_write(BASE + VIRTIO_MMIO_STATUS, AccessWidth::Dword, 0),
        Err(VirtioError::WouldBlock)
    );
    state.complete_reset().unwrap();
    assert_eq!(read(&mut state, VIRTIO_MMIO_STATUS), 0);
    assert_eq!(state.driver_features(), 0);
    assert_eq!(state.device_features(), VERSION_1 | EVENT_IDX);
    assert_eq!(state.queue_configuration(0), Some((8, false)));
    assert_ne!(state.queue_generation(), generation);
    run(&mut state);
    assert!(state.take_queue_for_processing(0, generation).is_none());
    let current = state.queue_generation();
    assert!(state.take_queue_for_processing(0, current).is_some());
}

#[test]
fn queue_registers_are_told_apart() {
    for offset in [0x30, 0x38, 0x44, 0x80, 0x84, 0x90, 0x94, 0xa0, 0xa4] {
        assert!(is_queue_config_register(offset), "{offset:#x}");
    }
    for offset in [0x00, 0x34, 0x50, 0x64, 0x70, 0x88, 0x100] {
        assert!(!is_queue_config_register(offset), "{offset:#x}");
    }
}

/// Memory that keeps what is written.
struct Written {
    refuses: bool,
    writes: Vec<(u64, Vec<u8>)>,
}

impl GuestMemory for Written {
    fn read(&mut self, _address: u64, length: usize) -> VirtioResult<Vec<u8>> {
        Ok(vec![0; length])
    }

    fn write(&mut self, address: u64, bytes: Vec<u8>) -> VirtioResult<()> {
        if self.refuses {
            return Err(VirtioError::InvalidQueueLayout);
        }
        self.writes.push((address, bytes));
        Ok(())
    }
}

#[test]
fn rearming_writes_the_available_event() {
    let accessor = Arc::new(Accessor {
        limit: 0x10_0000,
        reads: Cell::new(0),
    });
    let mut queue = VirtioQueue::new(0, DEFAULT_QUEUE_SIZE, accessor);
    let mut memory = Written {
        refuses: false,
        writes: Vec::new(),
    };
    queue.last_avail_idx = 0x1234;
    assert_eq!(queue.rearm_available_event_with_memory(&mut memory), Ok(false));
    queue.layout.event_idx_enabled = true;
    assert_eq!(
        queue.rearm_available_event_with_memory(&mut memory),
        Err(VirtioError::InvalidQueueLayout)
    );
    queue.set_size(4).unwrap();
    queue.set_desc_table_addr(0x1000);
    queue.set_avail_ring_addr(0x2000);
    queue.set_used_ring_addr(u64::MAX);
    assert_eq!(
        queue.rearm_available_event_with_memory(&mut memory),
        Err(VirtioError::InvalidQueueLayout)
    );
    assert!(memory.writes.is_empty());
    queue.set_used_ring_addr(0x3000);
    assert_eq!(queue.rearm_available_event_with_memory(&mut memory), Ok(true));
    assert_eq!(memory.writes, vec![(0x3024, vec![0x34, 0x12])]);
    memory.refuses = true;
    assert_eq!(
        queue.rearm_available_event_with_memory(&mut memory),
        Err(VirtioError::InvalidQueueLayout)
    );
}

#[test]
fn enable_requests_are_screened_by_the_selected_queues_accessor() {
    let accessors = [0x10_0000, 0x1000].map(|limit| {
        Arc::new(Accessor {
            limit,
            reads: Cell::new(0),
        })
    });
    let mut state = VirtioMmioState::new(
        BASE,
        0x200,
        2,
        0x1af4,
        VERSION_1 | EVENT_IDX,
        vec![
            VirtioQueue::new(0, 8, Arc::clone(&accessors[0])),
            VirtioQueue::new(1, 8, Arc::clone(&accessors[1])),
        ],
    );
    for (queue, ready, reads) in [(1, 0, [0, 1]), (0, 1, [6, 1])] {
        write(&mut state, VIRTIO_MMIO_QUEUE_SEL, queue);
        write(&mut state, VIRTIO_MMIO_QUEUE_NUM, 4);
        write(&mut state, VIRTIO_MMIO_QUEUE_DESC_LOW, 0x1000);
        write(&mut state, VIRTIO_MMIO_QUEUE_AVAIL_LOW, 0x2000);
        write(&mut state, VIRTIO_MMIO_QUEUE_USED_LOW, 0x3000);
        write(&mut state, VIRTIO_MMIO_QUEUE_READY, 1);
        assert_eq!(read(&mut state, VIRTIO_MMIO_QUEUE_READY), ready);
        assert_eq!(accessors.each_ref().map(|accessor| accessor.reads.get()), reads);
    }
}
