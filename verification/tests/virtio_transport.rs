use axvisor::access::{AccessWidth, DeviceError, DeviceResult, ErrorDetail};
use axvisor::virtio::interrupt::{
    InterruptPublication, InterruptPublisher, InterruptTransition, LineLevel,
    VirtioPciInterruptCoordinator,
};
use axvisor::virtio::pci_state::{QueueActivity, QueueNotifyOutcome, VirtioPciWriteOutcome};
use axvisor::virtio::pci_transport::{
    VirtioDeviceCore, VirtioPciTransport, DEVICE_CONFIG_OFFSET, ISR_CONFIG_OFFSET,
    NOTIFY_CONFIG_OFFSET,
};
use axvisor::virtio::queue::{
    GuestMemory, NoGuestMemoryAccessor, VirtioError, VirtioQueue, VirtioResult,
    VIRTIO_STATUS_DEVICE_NEEDS_RESET,
};

const DEVICE_STATUS: u64 = 0x14;
const QUEUE_ENABLE: u64 = 0x1c;
const QUEUE_DESC: u64 = 0x20;
const QUEUE_DRIVER: u64 = 0x28;
const QUEUE_DEVICE: u64 = 0x30;

#[derive(Default)]
struct TestMemory {
    reads: usize,
}

impl GuestMemory for TestMemory {
    fn read(&mut self, _address: u64, length: usize) -> VirtioResult<Vec<u8>> {
        self.reads += 1;
        Ok(vec![0; length])
    }
    fn write(&mut self, _address: u64, _bytes: Vec<u8>) -> VirtioResult<()> {
        Ok(())
    }
}

struct FailingMemory;

impl GuestMemory for FailingMemory {
    fn read(&mut self, _address: u64, _length: usize) -> VirtioResult<Vec<u8>> {
        Err(VirtioError::InvalidQueueLayout)
    }
    fn write(&mut self, _address: u64, _bytes: Vec<u8>) -> VirtioResult<()> {
        Err(VirtioError::InvalidQueueLayout)
    }
}

struct TestCore {
    queue_num_max: u16,
    queue_size_max: u16,
    deferred: bool,
    features: u64,
    outcome: DeviceResult<QueueNotifyOutcome>,
    config: u64,
}

fn test_core() -> TestCore {
    TestCore {
        queue_num_max: 1,
        queue_size_max: 8,
        deferred: false,
        features: 1 << 32,
        outcome: Ok(QueueNotifyOutcome::Idle),
        config: 0x1234,
    }
}

fn invalid_core(queue_num_max: u16, queue_size_max: u16, deferred: bool) -> TestCore {
    TestCore {
        queue_num_max,
        queue_size_max,
        deferred,
        ..test_core()
    }
}

impl VirtioDeviceCore for TestCore {
    fn queue_num_max(&self) -> u16 {
        self.queue_num_max
    }
    fn queue_size_max(&self) -> u16 {
        self.queue_size_max
    }
    fn deferred_processing(&self) -> bool {
        self.deferred
    }
    fn device_features(&self) -> u64 {
        self.features
    }
    fn read_config(&self, _offset: u64, _width: AccessWidth) -> DeviceResult<u64> {
        Ok(self.config)
    }
    fn write_config(&mut self, _offset: u64, _width: AccessWidth, value: u64) -> DeviceResult<()> {
        self.config = value;
        Ok(())
    }
    fn notify_queue<M: GuestMemory>(
        &mut self,
        queue: &mut VirtioQueue<NoGuestMemoryAccessor>,
        _memory: &mut M,
    ) -> DeviceResult<QueueNotifyOutcome> {
        queue.last_avail_idx += 1;
        std::mem::replace(&mut self.outcome, Ok(QueueNotifyOutcome::Idle))
    }
}

fn transport() -> VirtioPciTransport<TestCore> {
    VirtioPciTransport::try_new(test_core()).expect("valid test transport")
}

fn write<M: GuestMemory>(
    transport: &mut VirtioPciTransport<TestCore>,
    offset: u64,
    width: AccessWidth,
    value: u64,
    memory: &mut M,
) {
    transport
        .write_mmio_with_dma(offset, width, value, false, memory)
        .expect("register write should succeed");
}

fn program<M: GuestMemory>(transport: &mut VirtioPciTransport<TestCore>, memory: &mut M) {
    write(transport, DEVICE_STATUS, AccessWidth::Byte, 0x0b, memory);
    write(transport, DEVICE_STATUS, AccessWidth::Byte, 0x0f, memory);
    write(transport, QUEUE_DESC, AccessWidth::Qword, 0x1000, memory);
    write(transport, QUEUE_DRIVER, AccessWidth::Qword, 0x2000, memory);
    write(transport, QUEUE_DEVICE, AccessWidth::Qword, 0x3000, memory);
    write(transport, QUEUE_ENABLE, AccessWidth::Word, 1, memory);
}

fn notify<M: GuestMemory>(
    transport: &mut VirtioPciTransport<TestCore>,
    dma_enabled: bool,
    memory: &mut M,
) -> DeviceResult<VirtioPciWriteOutcome> {
    transport.write_mmio_with_dma(
        NOTIFY_CONFIG_OFFSET,
        AccessWidth::Word,
        0,
        dma_enabled,
        memory,
    )
}

#[test]
fn queue_notify_probes_the_programmed_ring() {
    let mut transport = transport();
    let mut memory = TestMemory::default();
    program(&mut transport, &mut memory);
    let outcome = notify(&mut transport, true, &mut memory).expect("queue notify should succeed");

    let VirtioPciWriteOutcome::QueueNotified(notification) = outcome else {
        panic!("expected queue notification");
    };
    assert_eq!(notification.outcome(), QueueNotifyOutcome::Idle);
    notification.complete(&mut transport.interrupts, &mut transport.activity);
    assert_eq!(memory.reads, 6);
}

#[test]
fn admitted_queue_fault_sets_needs_reset_and_config_isr_once() {
    let mut transport = transport();
    let mut configuration_memory = TestMemory::default();
    program(&mut transport, &mut configuration_memory);

    let mut failing_memory = FailingMemory;
    let outcome = notify(&mut transport, true, &mut failing_memory)
        .expect("queue faults are reported as a transport outcome");
    let VirtioPciWriteOutcome::Fault { interrupt, .. } = outcome else {
        panic!("expected a queue fault outcome");
    };
    assert_eq!(interrupt, InterruptTransition::Assert);
    assert_ne!(
        transport.status() & VIRTIO_STATUS_DEVICE_NEEDS_RESET as u8,
        0
    );
    transport.complete_interrupt_transition(interrupt, true);
    let (value, request) = transport
        .read_bar_with_interrupt(ISR_CONFIG_OFFSET, AccessWidth::Byte)
        .expect("ISR read should succeed");
    assert_eq!(value, 2);
    transport.complete_interrupt_transition(request.transition(), true);
    request.finish(&mut transport.interrupts, &mut transport.activity);
}

#[test]
fn queue_fault_activity_blocks_reset_until_terminal_publication() {
    let mut transport = transport();
    let mut configuration_memory = TestMemory::default();
    program(&mut transport, &mut configuration_memory);

    let outcome = notify(&mut transport, true, &mut FailingMemory)
        .expect("queue faults are returned as an outcome");
    let VirtioPciWriteOutcome::Fault {
        interrupt,
        activity,
        ..
    } = outcome
    else {
        panic!("expected a queue fault");
    };

    assert!(matches!(
        transport.reset(),
        Err(DeviceError::InvalidState { .. })
    ));
    transport.complete_interrupt_transition(interrupt, true);
    transport.activity.release(activity);

    let reset_transition = transport
        .reset()
        .expect("reset should proceed after fault publication");
    transport.complete_interrupt_transition(reset_transition, true);
    transport.complete_reset();
    assert_eq!(transport.status(), 0);
}

#[test]
fn concurrent_notify_same_queue_does_not_fault_or_replace_owner_queue() {
    let mut transport = transport();
    let mut memory = TestMemory::default();
    program(&mut transport, &mut memory);

    let generation = transport.select_notification(0, true).unwrap().unwrap();
    let work = transport
        .admit_notification(0, generation, true)
        .unwrap()
        .unwrap();

    let second = notify(&mut transport, true, &mut memory).expect("second notify should not fail");
    let VirtioPciWriteOutcome::QueueNotified(notification) = second else {
        panic!("expected an idle queue notification");
    };
    assert_eq!(notification.outcome(), QueueNotifyOutcome::Idle);
    notification.complete(&mut transport.interrupts, &mut transport.activity);
    assert_eq!(
        transport.status() & VIRTIO_STATUS_DEVICE_NEEDS_RESET as u8,
        0
    );

    let first = transport.finish_notification(work, Ok(QueueNotifyOutcome::Idle));
    let VirtioPciWriteOutcome::QueueNotified(notification) = first else {
        panic!("expected first queue notification");
    };
    assert_eq!(notification.generation(), Some(generation));
    notification.complete(&mut transport.interrupts, &mut transport.activity);
    assert_eq!(
        transport.state.queues[0].queue.layout.desc_table_addr,
        0x1000
    );
    assert_eq!(transport.activity.active, 0);
}

#[test]
fn queue_programming_does_not_probe_guest_memory() {
    let mut transport = transport();
    let mut memory = TestMemory::default();
    program(&mut transport, &mut memory);

    assert_eq!(memory.reads, 0);
    assert_eq!(transport.status(), 0x0f);
}

#[test]
fn queue_enable_rejects_an_unconfigured_layout() {
    let mut transport = transport();
    let mut memory = TestMemory::default();

    assert!(matches!(
        transport.write_mmio_with_dma(QUEUE_ENABLE, AccessWidth::Word, 1, false, &mut memory),
        Err(DeviceError::InvalidData { .. })
    ));
    assert_eq!(
        transport
            .read_mmio(QUEUE_ENABLE, AccessWidth::Word)
            .expect("queue enable read should succeed"),
        0
    );
    assert_eq!(memory.reads, 0);
}

#[test]
fn disabled_dma_stops_notify_before_guest_memory_access() {
    let mut transport = transport();
    let mut memory = TestMemory::default();
    program(&mut transport, &mut memory);

    let outcome = notify(&mut transport, false, &mut memory)
        .expect("disabled-DMA notify should be accepted as a stopped queue");
    let VirtioPciWriteOutcome::QueueNotified(notification) = outcome else {
        panic!("expected queue notification");
    };
    assert_eq!(notification.outcome(), QueueNotifyOutcome::Idle);
    notification.complete(&mut transport.interrupts, &mut transport.activity);
    assert_eq!(memory.reads, 0);
}

#[test]
fn try_new_rejects_invalid_core_configuration_without_panicking() {
    assert!(matches!(
        VirtioPciTransport::try_new(invalid_core(0, 8, false)),
        Err(DeviceError::InvalidInput { .. })
    ));
    assert!(matches!(
        VirtioPciTransport::try_new(invalid_core(1, 3, false)),
        Err(DeviceError::InvalidInput { .. })
    ));
    assert!(matches!(
        VirtioPciTransport::try_new(invalid_core(1, 8, true)),
        Err(DeviceError::Unsupported { .. })
    ));
    assert!(matches!(
        VirtioPciTransport::try_new(invalid_core(2, 8, false)),
        Err(DeviceError::InvalidInput { .. })
    ));
}

#[test]
fn queue_fault_status_cannot_be_cleared_by_nonzero_status_write() {
    let mut transport = transport();
    let mut configuration_memory = TestMemory::default();
    program(&mut transport, &mut configuration_memory);

    let outcome = notify(&mut transport, true, &mut FailingMemory)
        .expect("queue faults are returned as an outcome");
    let VirtioPciWriteOutcome::Fault { .. } = outcome else {
        panic!("expected a queue fault");
    };

    write(
        &mut transport,
        DEVICE_STATUS,
        AccessWidth::Byte,
        0x0f,
        &mut configuration_memory,
    );
    assert_ne!(
        transport.status() & VIRTIO_STATUS_DEVICE_NEEDS_RESET as u8,
        0
    );
}

#[test]
fn second_fault_raises_no_second_interrupt() {
    let mut transport = transport();
    let mut memory = TestMemory::default();
    program(&mut transport, &mut memory);
    let generation = transport.select_notification(0, true).unwrap().unwrap();
    let first = transport
        .admit_notification(0, generation, true)
        .unwrap()
        .unwrap();
    let failure = || DeviceError::Backend {
        operation: "process test queue",
        detail: ErrorDetail::Text("injected test failure"),
    };
    let outcome = transport.finish_notification(first, Err(failure()));
    let VirtioPciWriteOutcome::Fault {
        interrupt,
        activity,
        ..
    } = outcome
    else {
        panic!("expected a queue fault");
    };
    assert_eq!(interrupt, InterruptTransition::Assert);
    let second = transport.queue_fault(failure(), activity);
    assert!(matches!(
        second,
        VirtioPciWriteOutcome::Fault {
            interrupt: InterruptTransition::Unchanged,
            ..
        }
    ));
}

#[test]
fn deferred_answers_are_faults() {
    let mut transport = VirtioPciTransport::try_new(TestCore {
        outcome: Ok(QueueNotifyOutcome::Deferred { notify: true }),
        ..test_core()
    })
    .unwrap();
    let mut memory = TestMemory::default();
    program(&mut transport, &mut memory);
    assert!(matches!(
        notify(&mut transport, true, &mut memory),
        Ok(VirtioPciWriteOutcome::Fault {
            error: DeviceError::Unsupported { .. },
            ..
        })
    ));
}

#[test]
fn notifications_of_unknown_queues_fail() {
    let mut transport = transport();
    let mut memory = TestMemory::default();
    program(&mut transport, &mut memory);
    assert!(matches!(
        transport.write_mmio_with_dma(
            NOTIFY_CONFIG_OFFSET,
            AccessWidth::Word,
            1,
            true,
            &mut memory
        ),
        Err(DeviceError::InvalidInput { .. })
    ));
}

#[test]
fn reset_makes_selected_notifications_stale() {
    let mut transport = transport();
    let mut memory = TestMemory::default();
    program(&mut transport, &mut memory);
    let generation = transport.select_notification(0, true).unwrap().unwrap();
    let transition = transport.reset().unwrap();
    assert!(matches!(
        transport.admit_notification(0, generation, true),
        Err(DeviceError::InvalidState { .. })
    ));
    assert_eq!(
        transport.status(),
        VIRTIO_STATUS_DEVICE_NEEDS_RESET as u8
    );
    transport.complete_interrupt_transition(transition, true);
    transport.complete_reset();
    program(&mut transport, &mut memory);
    assert!(transport
        .admit_notification(0, generation, true)
        .unwrap()
        .is_none());
}

#[test]
fn aborted_reset_keeps_the_device_in_need_of_one() {
    let mut transport = transport();
    transport.reset().unwrap();
    transport.abort_reset();
    assert_eq!(
        transport.status(),
        VIRTIO_STATUS_DEVICE_NEEDS_RESET as u8
    );
    assert!(transport.reset().is_ok());
    assert!(matches!(
        transport.reset(),
        Err(DeviceError::InvalidState { .. })
    ));
}

#[test]
fn common_registers_read_back() {
    let mut transport = transport();
    let mut memory = TestMemory::default();
    write(&mut transport, 0x00, AccessWidth::Dword, 1, &mut memory);
    assert_eq!(transport.read_mmio(0x04, AccessWidth::Dword), Ok(1));
    write(&mut transport, 0x08, AccessWidth::Dword, 1, &mut memory);
    write(&mut transport, 0x0c, AccessWidth::Dword, 1, &mut memory);
    assert_eq!(transport.read_mmio(0x0c, AccessWidth::Dword), Ok(1));
    assert_eq!(transport.read_mmio(0x12, AccessWidth::Word), Ok(1));
    write(&mut transport, 0x18, AccessWidth::Word, 4, &mut memory);
    assert_eq!(transport.read_mmio(0x18, AccessWidth::Word), Ok(4));
    write(&mut transport, 0x18, AccessWidth::Word, 3, &mut memory);
    assert_eq!(transport.read_mmio(0x18, AccessWidth::Word), Ok(4));
    write(&mut transport, 0x24, AccessWidth::Dword, 0x12, &mut memory);
    write(&mut transport, 0x20, AccessWidth::Dword, 0x3400, &mut memory);
    assert_eq!(
        transport.read_mmio(0x20, AccessWidth::Qword),
        Ok(0x12_0000_3400)
    );
    write(
        &mut transport,
        DEVICE_CONFIG_OFFSET,
        AccessWidth::Dword,
        77,
        &mut memory,
    );
    assert_eq!(
        transport.read_mmio(DEVICE_CONFIG_OFFSET, AccessWidth::Dword),
        Ok(77)
    );
    assert_eq!(
        transport.read_mmio(0x13, AccessWidth::Byte),
        Err(DeviceError::OutOfRange { addr: 0x13 })
    );
    assert_eq!(
        transport.read_mmio(0x1000, AccessWidth::Byte),
        Err(DeviceError::OutOfRange { addr: 0x1000 })
    );
}

#[test]
fn unoffered_features_end_negotiation() {
    let mut transport = transport();
    let mut memory = TestMemory::default();
    write(&mut transport, 0x0c, AccessWidth::Dword, 1, &mut memory);
    write(
        &mut transport,
        DEVICE_STATUS,
        AccessWidth::Byte,
        0x0b,
        &mut memory,
    );
    assert_eq!(transport.status(), 0x83);
}

struct Script(Vec<InterruptPublication>, Vec<InterruptTransition>);

impl InterruptPublisher for Script {
    fn publish_transition(&mut self, transition: InterruptTransition) -> InterruptPublication {
        self.1.push(transition);
        self.0.remove(0)
    }
}

#[test]
fn publications_end_when_the_line_is_right() {
    let mut interrupts = VirtioPciInterruptCoordinator::new();
    let transition = interrupts.record_queue_completion(true);
    assert_eq!(transition, InterruptTransition::Assert);
    // The guest reads the status before the line was raised.
    let (value, next) = interrupts.read_isr();
    assert_eq!((value, next), (1, InterruptTransition::Unchanged));
    let mut publisher = Script(
        vec![
            InterruptPublication::Published,
            InterruptPublication::Published,
        ],
        Vec::new(),
    );
    interrupts.publish(transition, &mut publisher);
    assert_eq!(
        publisher.1,
        vec![InterruptTransition::Assert, InterruptTransition::Deassert]
    );
    assert_eq!(interrupts.line, LineLevel::Low);
}

#[test]
fn failed_transition_is_retried_by_the_next_change() {
    let mut interrupts = VirtioPciInterruptCoordinator::new();
    let transition = interrupts.record_config_change();
    assert_eq!(
        interrupts.complete_transition(transition, false),
        InterruptTransition::Unchanged
    );
    assert_eq!(interrupts.line, LineLevel::Unknown);
    assert_eq!(
        interrupts.set_disabled(true),
        InterruptTransition::Deassert
    );
    assert_eq!(
        interrupts.complete_transition(InterruptTransition::Deassert, true),
        InterruptTransition::Unchanged
    );
    assert_eq!(interrupts.set_disabled(false), InterruptTransition::Assert);
}

#[test]
fn one_transition_is_out_at_a_time() {
    let mut interrupts = VirtioPciInterruptCoordinator::new();
    assert_eq!(
        interrupts.record_queue_completion(true),
        InterruptTransition::Assert
    );
    assert_eq!(
        interrupts.record_config_change(),
        InterruptTransition::Unchanged
    );
    interrupts.cancel_transition(InterruptTransition::Assert);
    assert_eq!(interrupts.reset(), InterruptTransition::Unchanged);
    assert!(!interrupts.is_pending());
}

#[test]
fn notifications_publish_and_then_leave() {
    let mut transport = VirtioPciTransport::try_new(TestCore {
        outcome: Ok(QueueNotifyOutcome::Completed { notify: true }),
        ..test_core()
    })
    .unwrap();
    let mut memory = TestMemory::default();
    program(&mut transport, &mut memory);
    let Ok(VirtioPciWriteOutcome::QueueNotified(notification)) =
        notify(&mut transport, true, &mut memory)
    else {
        panic!("expected queue notification");
    };
    assert_eq!(
        notification.interrupt_transition(),
        InterruptTransition::Assert
    );
    assert_eq!(transport.activity.active, 1);
    let mut publisher = Script(vec![InterruptPublication::Published], Vec::new());
    notification.publish(
        &mut transport.interrupts,
        &mut transport.activity,
        &mut publisher,
    );
    assert_eq!(transport.activity, QueueActivity::new());
    assert_eq!(transport.interrupts.line, LineLevel::High);
    assert_eq!(transport.state.queues[0].queue.last_avail_idx, 1);
}

#[test]
fn publisher_is_not_asked_again_after_a_failure() {
    let mut interrupts = VirtioPciInterruptCoordinator::new();
    let transition = interrupts.record_queue_completion(true);
    let mut publisher = Script(vec![InterruptPublication::Failed], Vec::new());
    interrupts.publish(transition, &mut publisher);
    assert_eq!(publisher.1, vec![InterruptTransition::Assert]);
    assert_eq!(interrupts.line, LineLevel::Unknown);

    // It is asked once even where the line is to be left alone.
    let mut interrupts = VirtioPciInterruptCoordinator::new();
    let mut publisher = Script(vec![InterruptPublication::Published], Vec::new());
    interrupts.publish(InterruptTransition::Unchanged, &mut publisher);
    assert_eq!(publisher.1, vec![InterruptTransition::Unchanged]);
    assert_eq!(interrupts, VirtioPciInterruptCoordinator::new());
}

#[test]
fn failed_processing_keeps_what_the_device_made_of_the_queue() {
    let mut transport = VirtioPciTransport::try_new(TestCore {
        outcome: Err(DeviceError::NotFound),
        ..test_core()
    })
    .unwrap();
    let mut memory = TestMemory::default();
    program(&mut transport, &mut memory);
    assert!(matches!(
        notify(&mut transport, true, &mut memory),
        Ok(VirtioPciWriteOutcome::Fault {
            error: DeviceError::NotFound,
            ..
        })
    ));
    assert_eq!(transport.state.queues[0].queue.last_avail_idx, 1);
    assert!(!transport.state.queues[0].processing);
}
