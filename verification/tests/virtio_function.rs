use axvisor::access::{
    AccessWidth, BusKind, DeviceAccess, DeviceError, DeviceId, DeviceNodeId, DeviceResult,
    DeviceVcpuId, DmaGrant, ErrorDetail,
};
use axvisor::pci::address::{ConfigOffset, PciBarIndex, PciBdf};
use axvisor::pci::bar::PciMemoryBar;
use axvisor::pci::binding::PciRootBinding;
use axvisor::pci::capability::{PciCapabilityEffectAccess, PciConfigEffectId};
use axvisor::pci::config::PciCommandState;
use axvisor::pci::effect::{PciBarAccess, PciConfigReadEffect, PciConfigWriteEffect};
use axvisor::pci::endpoint::{
    DeviceContext, EndpointIrqTransitionPermit, IrqTransition, PciEndpointCallbacks,
    PciEndpointContext, PciFunction,
};
use axvisor::pci::function::{PciClass, PciEndpointIdentity, PciFunctionSpec};
use axvisor::pci::root::PciRootState;
use axvisor::pci::routing::{EndpointAdmissions, RoutedDeviceGrant};
use axvisor::pci::topology::PciTopologyBuilder;
use axvisor::virtio::context_memory::DeviceContextMemory;
use axvisor::virtio::interrupt::InterruptTransition;
use axvisor::virtio::pci_capabilities::{
    decode_pci_cfg_bytes, virtio_capabilities, VirtioPciCapabilitySet, VirtioPciCapabilityType,
};
use axvisor::virtio::pci_function::{IrqTransitionContext, VirtioPciFunction};
use axvisor::virtio::pci_state::QueueNotifyOutcome;
use axvisor::virtio::pci_transport::VirtioDeviceCore;
use axvisor::virtio::queue::{
    GuestMemory, NoGuestMemoryAccessor, VirtioError, VirtioQueue, VirtioResult,
    VIRTIO_STATUS_DEVICE_NEEDS_RESET,
};
use std::cell::{Cell, RefCell};
use std::rc::Rc;

const APERTURE_BASE: u64 = 0xc000_0000;
const GRANT: DmaGrant = DmaGrant {
    device: DeviceId(4),
};

#[test]
fn conversion_preserves_derived_lengths_and_pci_cfg_effect() {
    let specs = virtio_capabilities(&VirtioPciCapabilitySet::new(16)).unwrap();
    assert_eq!(specs.len(), 5);
    assert_eq!(specs[0].body().len(), 14);
    assert_eq!(specs[1].body().len(), 18);
    assert_eq!(specs[3].body().len(), 14);
    assert_eq!(specs[4].body().len(), 18);
    assert_eq!(specs[4].effects().len(), 1);
    assert_eq!(specs[0].body()[0], 16);
    assert_eq!(specs[1].body()[0], 20);
    assert_eq!(specs[4].body()[0], 20);
    let effect = specs[4].effects()[0];
    assert_eq!(effect.effect(), PciConfigEffectId::new(1));
    assert_eq!(effect.offset(), 16);
    assert_eq!(effect.length(), 4);
    assert_eq!(effect.access(), PciCapabilityEffectAccess::ReadWrite);
    assert_eq!(specs[4].write_mask()[2], u8::MAX);
    assert!(
        specs[4].write_mask()[6..14]
            .iter()
            .all(|mask| *mask == u8::MAX)
    );
    assert!(specs[4].write_mask()[14..].iter().all(|mask| *mask == 0));
}

#[test]
fn pci_cfg_selector_targets_bar_zero_without_including_access_width() {
    let mut body = [0; 18];
    body[0] = 20;
    body[1] = VirtioPciCapabilityType::PciConfig.code();
    body[2] = 0;
    body[6..10].copy_from_slice(&0x2f0_u32.to_le_bytes());
    body[10..14].copy_from_slice(&4_u32.to_le_bytes());

    assert_eq!(
        decode_pci_cfg_bytes(PciConfigEffectId::new(1), 16, AccessWidth::Dword, &body,),
        Ok(0x2f0)
    );

    body[10..14].copy_from_slice(&2_u32.to_le_bytes());
    assert_eq!(
        decode_pci_cfg_bytes(PciConfigEffectId::new(1), 17, AccessWidth::Word, &body,),
        Ok(0x2f1)
    );

    body[10..14].copy_from_slice(&1_u32.to_le_bytes());
    assert_eq!(
        decode_pci_cfg_bytes(PciConfigEffectId::new(1), 18, AccessWidth::Byte, &body,),
        Ok(0x2f2)
    );
}

#[test]
fn pci_cfg_selector_rejects_wrong_bar_width_and_boundary() {
    let mut body = [0; 18];
    body[0] = 20;
    body[1] = VirtioPciCapabilityType::PciConfig.code();
    body[2] = 1;
    body[6..10].copy_from_slice(&0x0_u32.to_le_bytes());
    body[10..14].copy_from_slice(&1_u32.to_le_bytes());
    assert!(decode_pci_cfg_bytes(PciConfigEffectId::new(1), 16, AccessWidth::Byte, &body).is_err());

    body[2] = 0;
    body[6..10].copy_from_slice(&0xfff_u32.to_le_bytes());
    body[10..14].copy_from_slice(&4_u32.to_le_bytes());
    assert!(
        decode_pci_cfg_bytes(PciConfigEffectId::new(1), 16, AccessWidth::Dword, &body,).is_err()
    );
}

/// Wired line: changes reach the backend only when the level changes.
#[derive(Default)]
struct Sink {
    level: Cell<bool>,
    fail_assert: Cell<bool>,
    fail_deassert: Cell<bool>,
    assert_calls: Cell<usize>,
    deassert_calls: Cell<usize>,
}

impl Sink {
    fn set_level(&self, high: bool) -> Result<(), String> {
        if self.level.get() == high {
            return Ok(());
        }
        let (calls, fails) = if high {
            (&self.assert_calls, &self.fail_assert)
        } else {
            (&self.deassert_calls, &self.fail_deassert)
        };
        calls.set(calls.get() + 1);
        if fails.get() {
            return Err("injected test failure".to_string());
        }
        self.level.set(high);
        Ok(())
    }
}

/// One change of the line.
struct LineChange {
    sink: Rc<Sink>,
    transition: InterruptTransition,
}

impl IrqTransition for LineChange {
    fn run(&mut self, permit: &mut EndpointIrqTransitionPermit) -> DeviceResult<()> {
        match self.transition {
            InterruptTransition::Assert => permit.assert_line(self.sink.set_level(true)),
            InterruptTransition::Deassert => permit.deassert_line(self.sink.set_level(false)),
            InterruptTransition::Unchanged => Ok(()),
        }
    }
}

/// Interrupt side of one endpoint callback.
struct LineContext<'a, E> {
    sink: Rc<Sink>,
    endpoint: &'a mut E,
}

impl<E: PciEndpointContext> IrqTransitionContext for LineContext<'_, E> {
    fn with_irq_transition(&mut self, transition: InterruptTransition) -> DeviceResult<()> {
        self.endpoint.with_irq_transition(&mut LineChange {
            sink: Rc::clone(&self.sink),
            transition,
        })
    }
}

#[derive(Default)]
struct Memory {
    reads: usize,
    writes: usize,
    grants: Vec<DmaGrant>,
}

impl DeviceContext for Memory {
    fn enter_routed_device(&mut self, _grant: &RoutedDeviceGrant) -> DeviceResult<bool> {
        Ok(true)
    }
    fn leave_routed_device(&mut self) {}
    fn read_guest_memory(
        &mut self,
        grant: &DmaGrant,
        _address: u64,
        length: usize,
    ) -> DeviceResult<Vec<u8>> {
        self.grants.push(*grant);
        self.reads += 1;
        Ok(vec![0; length])
    }
    fn write_guest_memory(
        &mut self,
        grant: &DmaGrant,
        _address: u64,
        _bytes: Vec<u8>,
    ) -> DeviceResult<()> {
        self.grants.push(*grant);
        self.writes += 1;
        Ok(())
    }
}

struct Core {
    fails: bool,
}

impl VirtioDeviceCore for Core {
    fn queue_num_max(&self) -> u16 {
        1
    }
    fn queue_size_max(&self) -> u16 {
        8
    }
    fn deferred_processing(&self) -> bool {
        false
    }
    fn device_features(&self) -> u64 {
        0
    }
    fn read_config(&self, offset: u64, _width: AccessWidth) -> DeviceResult<u64> {
        Ok(0x5566_0000 + offset)
    }
    fn write_config(&mut self, _offset: u64, _width: AccessWidth, _value: u64) -> DeviceResult<()> {
        Ok(())
    }
    fn notify_queue<M: GuestMemory>(
        &mut self,
        queue: &mut VirtioQueue<NoGuestMemoryAccessor>,
        memory: &mut M,
    ) -> DeviceResult<QueueNotifyOutcome> {
        if self.fails {
            return Err(DeviceError::NotFound);
        }
        let _ = memory.read(queue.layout.avail_ring_addr, 4);
        let _ = memory.write(queue.layout.used_ring_addr, vec![0; 4]);
        Ok(QueueNotifyOutcome::Completed { notify: true })
    }
}

/// Endpoint that owner-side operations and callbacks share.
#[derive(Clone)]
struct Endpoint {
    function: Rc<RefCell<VirtioPciFunction<Core>>>,
    sink: Rc<Sink>,
}

impl Endpoint {
    fn line<'a, E>(&self, endpoint: &'a mut E) -> LineContext<'a, E> {
        LineContext {
            sink: Rc::clone(&self.sink),
            endpoint,
        }
    }
}

impl PciFunction for Endpoint {
    fn intx_pending(&self) -> bool {
        self.function.borrow().intx_pending()
    }

    fn supported_config_effects(&self) -> Vec<PciConfigEffectId> {
        self.function.borrow().supported_config_effects()
    }

    fn has_resources(&self) -> bool {
        false
    }

    fn reset(&mut self, command: PciCommandState) -> DeviceResult<()> {
        self.function.borrow_mut().reset(command)
    }

    fn withdraw_irq(&mut self, permit: &mut EndpointIrqTransitionPermit) -> DeviceResult<()> {
        self.function
            .borrow_mut()
            .withdraw_irq(permit, self.sink.set_level(false))
    }
}

impl<C: DeviceContext, E: PciEndpointContext> PciEndpointCallbacks<C, E> for Endpoint {
    fn read_bar(
        &self,
        access: PciBarAccess,
        endpoint: &mut E,
        _context: &mut C,
    ) -> DeviceResult<u64> {
        self.function
            .borrow_mut()
            .read_bar(access, &mut self.line(endpoint))
    }

    fn write_bar(
        &self,
        access: PciBarAccess,
        value: u64,
        endpoint: &mut E,
        context: &mut C,
    ) -> DeviceResult<()> {
        let mut function = self.function.borrow_mut();
        let mut memory = function.memory(context);
        function.write_bar(access, value, &mut memory, &mut self.line(endpoint))
    }

    fn read_config_effect(
        &self,
        effect: PciConfigReadEffect,
        endpoint: &mut E,
        _context: &mut C,
    ) -> DeviceResult<u64> {
        self.function
            .borrow_mut()
            .read_config_effect(effect, &mut self.line(endpoint))
    }

    fn write_config_effect(
        &self,
        effect: PciConfigWriteEffect,
        endpoint: &mut E,
        context: &mut C,
    ) -> DeviceResult<()> {
        let mut function = self.function.borrow_mut();
        let mut memory = function.memory(context);
        function.write_config_effect(effect, &mut memory, &mut self.line(endpoint))
    }

    fn command_changed(
        &self,
        command: PciCommandState,
        endpoint: &mut E,
        _context: &mut C,
    ) -> DeviceResult<()> {
        self.function
            .borrow_mut()
            .command_changed(command, &mut self.line(endpoint))
    }
}

struct Machine {
    binding: PciRootBinding<Endpoint>,
    admissions: EndpointAdmissions,
    bdf: PciBdf,
    bar: u64,
    window: u16,
    sink: Rc<Sink>,
    memory: Memory,
}

fn node(id: &str) -> DeviceNodeId {
    DeviceNodeId::new(id).unwrap()
}

fn machine(fails: bool) -> Machine {
    let bar0 = PciBarIndex::new(0).unwrap();
    let mut function = PciFunctionSpec::new(
        node("virtio-pci"),
        PciEndpointIdentity::new(0x1af4, 0x1042, PciClass::new(0x01, 0, 0)),
    )
    .with_intx()
    .with_bar(PciMemoryBar::new(bar0, 0x1000).unwrap())
    .unwrap();
    for capability in virtio_capabilities(&VirtioPciCapabilitySet::new(16)).unwrap() {
        function = function.with_capability(capability);
    }
    let mut builder = PciTopologyBuilder::new();
    builder.add_function(function).unwrap();
    let topology = builder
        .resolve(APERTURE_BASE..APERTURE_BASE + 0x10_0000)
        .unwrap();
    let resolved = topology.function(&node("virtio-pci")).unwrap();
    let bdf = resolved.bdf();
    let bar = resolved.bar(bar0).unwrap().address();
    let window = resolved.capabilities()[4].offset().value();
    let sink = Rc::new(Sink::default());
    let mut binding = PciRootBinding::new(node("host"), PciRootState::new(topology));
    let mut admissions = EndpointAdmissions::new();
    let endpoint = Endpoint {
        function: Rc::new(RefCell::new(
            VirtioPciFunction::try_new(Core { fails }, GRANT).unwrap(),
        )),
        sink: Rc::clone(&sink),
    };
    binding
        .bind_registered(
            &node("virtio-pci"),
            DeviceId::new(4),
            endpoint,
            &mut Vec::new(),
            &mut admissions,
        )
        .unwrap();
    Machine {
        binding,
        admissions,
        bdf,
        bar,
        window,
        sink,
        memory: Memory::default(),
    }
}

impl Machine {
    fn read_bar(&mut self, address: u64, width: AccessWidth) -> DeviceResult<u64> {
        self.binding
            .read_bar_with_context(address, width, &mut self.admissions, &mut self.memory)
    }

    fn write_bar(&mut self, address: u64, width: AccessWidth, value: u64) -> DeviceResult<()> {
        self.binding.write_bar_with_context(
            address,
            width,
            value,
            &mut self.admissions,
            &mut self.memory,
        )
    }

    fn read_config(&mut self, at: u16, width: AccessWidth) -> DeviceResult<u64> {
        self.binding.read_config_with_context(
            self.bdf,
            ConfigOffset::new(at).unwrap(),
            width,
            &mut self.admissions,
            &mut self.memory,
        )
    }

    fn write_config(&mut self, at: u16, width: AccessWidth, value: u64) -> DeviceResult<()> {
        self.binding.write_config_with_context(
            self.bdf,
            ConfigOffset::new(at).unwrap(),
            width,
            value,
            &mut self.admissions,
            &mut self.memory,
        )
    }

    fn program(&mut self) {
        for (offset, width, value) in [
            (0x14, AccessWidth::Byte, 0x0f),
            (0x20, AccessWidth::Qword, 0x1000),
            (0x28, AccessWidth::Qword, 0x2000),
            (0x30, AccessWidth::Qword, 0x3000),
            (0x1c, AccessWidth::Word, 1),
        ] {
            self.write_bar(self.bar + offset, width, value).unwrap();
        }
    }

    fn run(&mut self) {
        self.write_config(4, AccessWidth::Word, 6).unwrap();
        self.program();
    }
}

#[test]
fn adapter_retries_completion_assert_after_irq_failure() {
    let mut machine = machine(false);
    machine.run();

    machine.sink.fail_assert.set(true);
    machine
        .write_bar(machine.bar + 0x100, AccessWidth::Word, 0)
        .expect("completion IRQ failure is not a queue access failure");
    assert_eq!(machine.sink.assert_calls.get(), 1);

    machine.sink.fail_assert.set(false);
    machine
        .write_config(4, AccessWidth::Word, 0x406)
        .expect("disabling INTx should reconcile the failed Assert state");
    machine
        .write_config(4, AccessWidth::Word, 6)
        .expect("reenabling INTx should retry the pending Assert");
    assert_eq!(machine.sink.assert_calls.get(), 2);
}

#[test]
fn adapter_retries_fault_assert_before_status_reset() {
    let mut machine = machine(true);
    machine.run();

    machine.sink.fail_assert.set(true);
    machine
        .write_bar(machine.bar + 0x100, AccessWidth::Word, 0)
        .expect_err("queue fault should be reported after failed Assert publication");
    assert_eq!(machine.sink.assert_calls.get(), 1);
    assert_ne!(
        machine
            .read_bar(machine.bar + 0x14, AccessWidth::Byte)
            .expect("status read should succeed")
            & VIRTIO_STATUS_DEVICE_NEEDS_RESET as u64,
        0
    );

    machine.sink.fail_assert.set(false);
    machine
        .write_bar(machine.bar + 0x14, AccessWidth::Byte, 0)
        .expect("status reset should deassert the resynchronized line");
    assert_eq!(
        machine
            .read_bar(machine.bar + 0x14, AccessWidth::Byte)
            .expect("reset status read should succeed"),
        0
    );
    assert_eq!(machine.sink.assert_calls.get(), 1);
}

#[test]
fn adapter_records_command_deassert_failure_for_later_isr_retry() {
    let mut machine = machine(false);
    machine.run();
    machine
        .write_bar(machine.bar + 0x100, AccessWidth::Word, 0)
        .expect("completion should assert the line");

    machine.sink.fail_deassert.set(true);
    machine
        .write_config(4, AccessWidth::Word, 0x406)
        .expect_err("command transition failure should reach the adapter");
    assert_eq!(machine.sink.deassert_calls.get(), 1);

    machine.sink.fail_deassert.set(false);
    assert_eq!(
        machine
            .read_bar(machine.bar + 0x200, AccessWidth::Byte)
            .expect("ISR read should retain its value"),
        1
    );
    assert_eq!(machine.sink.deassert_calls.get(), 2);
}

#[test]
fn adapter_records_isr_deassert_failure_for_command_retry() {
    let mut machine = machine(false);
    machine.run();
    machine
        .write_bar(machine.bar + 0x100, AccessWidth::Word, 0)
        .expect("completion should assert the line");

    machine.sink.fail_deassert.set(true);
    assert_eq!(
        machine
            .read_bar(machine.bar + 0x200, AccessWidth::Byte)
            .expect("ISR read value should not depend on line publication"),
        1
    );
    assert_eq!(machine.sink.deassert_calls.get(), 1);

    machine.sink.fail_deassert.set(false);
    machine
        .write_config(4, AccessWidth::Word, 0x406)
        .expect("command transition should retry ISR deassertion");
    assert_eq!(machine.sink.deassert_calls.get(), 2);
}

#[test]
fn bound_virtio_endpoint_serializes_dispatches_and_relocates_bar() {
    let mut machine = machine(false);
    let bar = machine.bar;
    let window = machine.window;

    assert_eq!(machine.read_config(0x40, AccessWidth::Byte), Ok(9));
    assert_eq!(machine.read_config(window + 2, AccessWidth::Byte), Ok(20));
    assert_eq!(machine.read_config(window + 3, AccessWidth::Byte), Ok(5));

    machine.write_config(4, AccessWidth::Word, 2).unwrap();
    assert_eq!(machine.read_config(4, AccessWidth::Word), Ok(2));
    assert!(machine
        .binding
        .root
        .resolve_bar(bar + 0x300, AccessWidth::Dword)
        .is_some());
    let direct = machine.read_bar(bar + 0x300, AccessWidth::Dword).unwrap();

    machine
        .write_config(window + 4, AccessWidth::Byte, 0)
        .unwrap();
    machine
        .write_config(window + 8, AccessWidth::Dword, 0x300)
        .unwrap();
    machine
        .write_config(window + 12, AccessWidth::Dword, 4)
        .unwrap();
    let through_pci_cfg = machine
        .read_config(window + 16, AccessWidth::Dword)
        .unwrap();
    assert_eq!(through_pci_cfg, direct);

    machine.program();
    machine
        .write_bar(bar + 0x100, AccessWidth::Word, 0)
        .unwrap();
    assert_eq!(machine.memory.reads, 0);
    assert_eq!(machine.memory.writes, 0);

    machine.write_config(4, AccessWidth::Word, 6).unwrap();
    assert_eq!(machine.read_config(4, AccessWidth::Word), Ok(6));
    machine.write_config(4, AccessWidth::Word, 2).unwrap();
    let reads_before_stopped_notify = machine.memory.reads;
    machine
        .write_bar(bar + 0x100, AccessWidth::Word, 0)
        .unwrap();
    assert_eq!(machine.memory.reads, reads_before_stopped_notify);
    machine.write_config(4, AccessWidth::Word, 6).unwrap();
    machine
        .write_bar(bar + 0x100, AccessWidth::Word, 0)
        .unwrap();
    assert!(machine.memory.reads >= 7);
    assert!(machine.memory.writes >= 1);
    assert!(machine.memory.grants.iter().all(|grant| *grant == GRANT));
    assert_eq!(machine.read_bar(bar + 0x200, AccessWidth::Byte), Ok(1));

    machine
        .write_config(window + 8, AccessWidth::Dword, 0x100)
        .unwrap();
    machine
        .write_config(window + 12, AccessWidth::Dword, 2)
        .unwrap();
    machine
        .write_config(window + 16, AccessWidth::Word, 0)
        .unwrap();
    assert_eq!(machine.read_bar(bar + 0x200, AccessWidth::Byte), Ok(1));

    let relocated = APERTURE_BASE + 0x80000;
    machine
        .write_config(0x10, AccessWidth::Dword, relocated)
        .unwrap();
    assert_eq!(
        machine.read_bar(relocated + 0x300, AccessWidth::Dword),
        Ok(direct)
    );
    assert_eq!(
        machine.read_bar(bar + 0x300, AccessWidth::Dword),
        Err(DeviceError::NotFound)
    );
}

#[test]
fn interrupt_status_bit_follows_the_transport() {
    let mut machine = machine(false);
    machine.run();
    assert_eq!(machine.read_config(6, AccessWidth::Byte).unwrap() & 8, 0);
    machine
        .write_bar(machine.bar + 0x100, AccessWidth::Word, 0)
        .unwrap();
    assert_eq!(machine.read_config(6, AccessWidth::Byte).unwrap() & 8, 8);
    machine
        .read_bar(machine.bar + 0x200, AccessWidth::Byte)
        .unwrap();
    assert_eq!(machine.read_config(6, AccessWidth::Byte).unwrap() & 8, 0);
}

#[test]
fn lifecycle_reset_lowers_the_line_and_clears_the_transport() {
    let mut machine = machine(false);
    machine.run();
    machine
        .write_bar(machine.bar + 0x100, AccessWidth::Word, 0)
        .unwrap();
    assert!(machine.sink.level.get());
    machine
        .binding
        .reset_lifecycle(&mut machine.admissions)
        .unwrap();
    assert!(!machine.sink.level.get());
    machine.write_config(4, AccessWidth::Word, 2).unwrap();
    assert_eq!(
        machine.read_bar(machine.bar + 0x14, AccessWidth::Byte),
        Ok(0)
    );
    assert_eq!(
        machine.read_bar(machine.bar + 0x1c, AccessWidth::Word),
        Ok(0)
    );
}

#[test]
fn unplaced_queues_are_never_probed() {
    let queue = VirtioQueue::new(0, 8, std::sync::Arc::new(NoGuestMemoryAccessor));
    let mut memory = Memory::default();
    assert_eq!(
        queue.validate_layout_with_memory(&mut DeviceContextMemory::new(&mut memory, &GRANT)),
        Err(VirtioError::InvalidQueueLayout)
    );
    assert_eq!(memory.reads, 0);
}

#[test]
fn endpoint_refuses_accesses_that_bypass_the_pci_root() {
    let function = VirtioPciFunction::try_new(Core { fails: false }, GRANT).unwrap();
    let access = DeviceAccess::new(DeviceVcpuId::new(1), BusKind::Port, 4, AccessWidth::Dword);
    assert_eq!(function.name(), "virtio-pci");
    assert!(function.resources().is_empty());
    assert_eq!(
        function.read(&access),
        Err(DeviceError::Unsupported {
            operation: "read VirtIO PCI endpoint as a generic device",
            detail: ErrorDetail::DispatchedByPciRoot(BusKind::Port),
        })
    );
    assert_eq!(
        function.write(&access, 1),
        Err(DeviceError::Unsupported {
            operation: "write VirtIO PCI endpoint as a generic device",
            detail: ErrorDetail::DispatchedByPciRoot(BusKind::Port),
        })
    );
}
