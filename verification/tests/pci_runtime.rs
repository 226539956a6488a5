use axvisor::access::{
    AccessWidth, DeviceError, DeviceId, DeviceManagerError, DeviceNodeId, DeviceResult, DmaGrant,
    ErrorDetail,
};
use axvisor::pci::address::{ConfigOffset, PciBarIndex, PciBdf};
use axvisor::pci::bar::PciMemoryBar;
use axvisor::pci::binding::{PciBindingLease, PciRootBinding};
use axvisor::pci::capability::{
    PciCapabilityEffectAccess, PciCapabilityEffectRegion, PciCapabilityId, PciCapabilitySpec,
    PciConfigEffectId,
};
use axvisor::pci::config::PciCommandState;
use axvisor::pci::effect::{PciBarAccess, PciConfigReadEffect, PciConfigWriteEffect};
use axvisor::pci::dispatch::visit_bar_write;
use axvisor::pci::endpoint::{
    AdmittedContext, DeviceContext, EndpointIrqTransitionPermit, IrqTransition, PciEndpointCallbacks,
    PciEndpointContext, PciFunction, UnroutedContext,
};
use axvisor::pci::error::PciError;
use axvisor::pci::function::{PciClass, PciEndpointIdentity, PciFunctionSpec};
use axvisor::pci::lifecycle::{ask_withdrawal, BindingLifecycleState, WithdrawalStartError};
use axvisor::pci::root::PciRootState;
use axvisor::pci::router::{reset_endpoint, EndpointRouter};
use axvisor::pci::routing::{
    AdmissionId, DrainBudget, EndpointAdmission, EndpointAdmissions, EndpointRouteToken,
    RoutedDeviceGrant,
};
use axvisor::pci::topology::PciTopologyBuilder;
use std::cell::{Cell, RefCell};
use std::rc::{Rc, Weak};

/// Level-triggered line whose lowering can be made to fail.
#[derive(Default)]
struct FailingDeassertSink {
    fail_deassert: Cell<bool>,
    asserted: Cell<bool>,
}

impl FailingDeassertSink {
    fn set_level(&self, asserted: bool) -> Result<(), String> {
        if !asserted && self.fail_deassert.get() {
            return Err("injected test failure".to_string());
        }
        self.asserted.set(asserted);
        Ok(())
    }
}

struct StubFunction {
    fail_command: bool,
}

impl PciFunction for StubFunction {
    fn has_resources(&self) -> bool {
        false
    }
}

impl<C: DeviceContext, E: PciEndpointContext> PciEndpointCallbacks<C, E> for StubFunction {
    fn read_bar(
        &self,
        _access: PciBarAccess,
        _endpoint: &mut E,
        _context: &mut C,
    ) -> DeviceResult<u64> {
        Ok(0)
    }

    fn write_bar(
        &self,
        _access: PciBarAccess,
        _value: u64,
        _endpoint: &mut E,
        _context: &mut C,
    ) -> DeviceResult<()> {
        Ok(())
    }

    fn command_changed(
        &self,
        _command: PciCommandState,
        _endpoint: &mut E,
        _context: &mut C,
    ) -> DeviceResult<()> {
        if self.fail_command {
            return Err(DeviceError::Unsupported {
                operation: "synchronize PCI command state",
                detail: ErrorDetail::Text("test endpoint rejected the command transition"),
            });
        }
        Ok(())
    }
}

#[derive(Default)]
struct Recording {
    root: RefCell<Weak<RefCell<PciRootBinding<RecordingFunction>>>>,
    bdf: Cell<Option<PciBdf>>,
    reads: RefCell<Vec<(PciConfigReadEffect, DeviceId, u64)>>,
    writes: RefCell<Vec<(PciConfigWriteEffect, DeviceId)>>,
    commands: RefCell<Vec<(PciCommandState, DeviceId)>>,
    resets: RefCell<Vec<PciCommandState>>,
    reset_failures: Cell<usize>,
    withdrawals: Cell<usize>,
    withdraw_failures: Cell<usize>,
    line: Option<Rc<FailingDeassertSink>>,
    supports_effects: bool,
    has_resources: bool,
    pending: bool,
}

impl Recording {
    /// Reads the root from a callback, which proves that the root is not held.
    fn read_root(&self) -> DeviceResult<u64> {
        let Some(bdf) = self.bdf.get() else {
            return Ok(0);
        };
        let binding = self.root.borrow().upgrade().unwrap();
        let value = binding
            .borrow()
            .root
            .read_config(bdf, offset(0), AccessWidth::Dword)
            .map_err(|error| DeviceError::InvalidInput {
                operation: "read recording PCI function",
                detail: ErrorDetail::Message(format!("{error:?}")),
            })?;
        Ok(value)
    }
}

#[derive(Clone)]
struct RecordingFunction(Rc<Recording>);

impl PciFunction for RecordingFunction {
    fn intx_pending(&self) -> bool {
        let _ = self.0.read_root();
        self.0.pending
    }

    fn supported_config_effects(&self) -> Vec<PciConfigEffectId> {
        if self.0.supports_effects {
            vec![PciConfigEffectId::new(7)]
        } else {
            Vec::new()
        }
    }

    fn has_resources(&self) -> bool {
        self.0.has_resources
    }

    fn reset(&mut self, command: PciCommandState) -> DeviceResult<()> {
        self.0.resets.borrow_mut().push(command);
        if self.0.reset_failures.get() != 0 {
            self.0.reset_failures.set(self.0.reset_failures.get() - 1);
            return Err(DeviceError::Backend {
                operation: "reset test PCI endpoint",
                detail: ErrorDetail::Text("injected test failure"),
            });
        }
        Ok(())
    }

    fn withdraw_irq(&mut self, permit: &mut EndpointIrqTransitionPermit) -> DeviceResult<()> {
        if self.0.withdraw_failures.get() != 0 {
            self.0
                .withdraw_failures
                .set(self.0.withdraw_failures.get() - 1);
            return Err(DeviceError::Backend {
                operation: "withdraw test PCI endpoint IRQ",
                detail: ErrorDetail::Text("injected test failure"),
            });
        }
        if let Some(line) = &self.0.line {
            permit.deassert_line(line.set_level(false))?;
        }
        self.0.withdrawals.set(self.0.withdrawals.get() + 1);
        Ok(())
    }
}

impl<C: DeviceContext, E: PciEndpointContext> PciEndpointCallbacks<C, E> for RecordingFunction {
    fn read_bar(
        &self,
        access: PciBarAccess,
        _endpoint: &mut E,
        _context: &mut C,
    ) -> DeviceResult<u64> {
        assert!(access.bus_master_enable());
        Ok(0x1000 + access.offset())
    }

    fn write_bar(
        &self,
        _access: PciBarAccess,
        _value: u64,
        endpoint: &mut E,
        context: &mut C,
    ) -> DeviceResult<()> {
        if context
            .write_guest_memory(&DmaGrant::new(DeviceId::new(4)), 0x1000, vec![1])
            .is_ok() {
            return Ok(());
        }
        endpoint.with_irq_transition(&mut Raise(self.0.line.clone().unwrap()))
    }

    fn read_config_effect(
        &self,
        effect: PciConfigReadEffect,
        endpoint: &mut E,
        _context: &mut C,
    ) -> DeviceResult<u64> {
        let vendor_device = self.0.read_root()?;
        self.0
            .reads
            .borrow_mut()
            .push((effect, endpoint.device_id(), vendor_device));
        Ok(0x5a)
    }

    fn write_config_effect(
        &self,
        effect: PciConfigWriteEffect,
        endpoint: &mut E,
        _context: &mut C,
    ) -> DeviceResult<()> {
        self.0.read_root()?;
        self.0
            .writes
            .borrow_mut()
            .push((effect, endpoint.device_id()));
        Ok(())
    }

    fn command_changed(
        &self,
        command: PciCommandState,
        endpoint: &mut E,
        _context: &mut C,
    ) -> DeviceResult<()> {
        self.0.read_root()?;
        self.0
            .commands
            .borrow_mut()
            .push((command, endpoint.device_id()));
        Ok(())
    }
}

/// Raises a line.
struct Raise(Rc<FailingDeassertSink>);

impl IrqTransition for Raise {
    fn run(&mut self, permit: &mut EndpointIrqTransitionPermit) -> DeviceResult<()> {
        permit.assert_line(self.0.set_level(true))
    }
}

fn node(id: &str) -> DeviceNodeId {
    DeviceNodeId::new(id).unwrap()
}

fn offset(value: u16) -> ConfigOffset {
    ConfigOffset::new(value).unwrap()
}

fn function(id: &str, device: u16) -> PciFunctionSpec {
    PciFunctionSpec::new(
        node(id),
        PciEndpointIdentity::new(0x1af4, device, PciClass::new(0xff, 0, 0)),
    )
}

fn bind_root<F: PciFunction>(function: PciFunctionSpec) -> (PciRootBinding<F>, PciBdf) {
    let id = node(function.id.as_str());
    let mut builder = PciTopologyBuilder::new();
    builder.add_function(function).unwrap();
    let topology = builder.resolve(0xc000_0000..0xc100_0000).unwrap();
    let bdf = topology.function(&id).unwrap().bdf();
    (
        PciRootBinding::new(node("host"), PciRootState::new(topology)),
        bdf,
    )
}

/// A root that callbacks may read.
type SharedBinding = Rc<RefCell<PciRootBinding<RecordingFunction>>>;

/// Lets the callbacks of an endpoint read its root.
fn share_root(
    binding: PciRootBinding<RecordingFunction>,
    bdf: PciBdf,
    recording: &Recording,
) -> SharedBinding {
    let binding = Rc::new(RefCell::new(binding));
    *recording.root.borrow_mut() = Rc::downgrade(&binding);
    recording.bdf.set(Some(bdf));
    binding
}

fn read_config(
    binding: &SharedBinding,
    bdf: PciBdf,
    at: u16,
    width: AccessWidth,
    admissions: &mut EndpointAdmissions,
) -> DeviceResult<u64> {
    binding
        .borrow()
        .read_config(bdf, offset(at), width, admissions)
}

fn write_config(
    binding: &SharedBinding,
    bdf: PciBdf,
    at: u16,
    width: AccessWidth,
    value: u64,
    admissions: &mut EndpointAdmissions,
) -> DeviceResult<()> {
    let dispatch =
        binding
            .borrow_mut()
            .route_write_config(bdf, offset(at), width, value, admissions)?;
    binding
        .borrow()
        .complete_write_config(dispatch, admissions, &mut UnroutedContext {})
}

fn current_token(binding: &PciRootBinding<RecordingFunction>, device: u32) -> EndpointRouteToken {
    let position = binding.router.position(DeviceId::new(device)).unwrap();
    binding.router.endpoints[position].token
}

#[test]
fn irq_transition_permit_surfaces_real_line_backend_failures() {
    let sink = FailingDeassertSink::default();
    let mut permit = EndpointIrqTransitionPermit::new();

    permit.assert_line(sink.set_level(true)).unwrap();
    sink.fail_deassert.set(true);
    let error = permit.deassert_line(sink.set_level(false)).unwrap_err();
    assert!(matches!(
        error,
        DeviceError::Backend {
            operation: "deassert PCI endpoint INTx line",
            ..
        }
    ));
}

#[test]
fn binding_rejects_an_unsupported_config_effect_before_publishing_route() {
    let effect = PciCapabilityEffectRegion::new(
        PciConfigEffectId::new(7),
        2,
        1,
        PciCapabilityEffectAccess::ReadWrite,
    )
    .unwrap();
    let capability = PciCapabilitySpec::new(PciCapabilityId::new(9), vec![0], vec![0])
        .unwrap()
        .with_effect(effect)
        .unwrap();
    let function_id = node("unsupported-effect-endpoint");
    let (mut binding, bdf) = bind_root::<StubFunction>(
        function("unsupported-effect-endpoint", 0x1041).with_capability(capability),
    );
    let mut admissions = EndpointAdmissions::new();
    let mut grants = Vec::new();

    assert!(matches!(
        binding.bind_registered(
            &function_id,
            DeviceId::new(7),
            StubFunction {
                fail_command: false
            },
            &mut grants,
            &mut admissions,
        ),
        Err(DeviceManagerError::InvalidConfig { .. })
    ));
    assert!(grants.is_empty());
    assert!(matches!(
        binding.read_config(bdf, offset(0x42), AccessWidth::Byte, &mut admissions),
        Err(DeviceError::InvalidInput { .. })
    ));
}

#[test]
fn rebind_mints_a_new_generation_and_rejects_stale_tokens() {
    let mut router = EndpointRouter::new();
    let mut admissions = EndpointAdmissions::new();
    let recording = Rc::new(Recording::default());
    let function = RecordingFunction(Rc::clone(&recording));
    let device = DeviceId::new(7);

    let first = router
        .activate(device, function.clone(), &mut admissions)
        .unwrap();
    assert_eq!(first.binding_generation(), 1);
    assert!(router.endpoint(&first, &admissions).is_ok());

    let removed = router.invalidate(&first, &mut admissions).unwrap();
    assert!(Rc::ptr_eq(&removed.0, &recording));
    let second = router.activate(device, function, &mut admissions).unwrap();
    assert_eq!(second.binding_generation(), 2);

    assert!(matches!(
        router.endpoint(&first, &admissions),
        Err(DeviceError::InvalidState { .. })
    ));
    router.endpoint(&second, &admissions).unwrap();
}

#[test]
fn invalidate_returns_none_for_unknown_or_stale_tokens() {
    let mut router = EndpointRouter::new();
    let mut admissions = EndpointAdmissions::new();
    let recording = Rc::new(Recording::default());
    let token = router
        .activate(
            DeviceId::new(3),
            RecordingFunction(Rc::clone(&recording)),
            &mut admissions,
        )
        .unwrap();
    let forged = EndpointRouteToken {
        binding_generation: token.binding_generation().saturating_add(1),
        ..token
    };
    assert!(router.invalidate(&forged, &mut admissions).is_none());
    assert!(router.endpoint(&token, &admissions).is_ok());
    assert_eq!(
        router
            .invalidate(&token, &mut admissions)
            .map(|removed| Rc::strong_count(&removed.0)),
        Some(2)
    );
    assert!(router.invalidate(&token, &mut admissions).is_none());
}

#[test]
fn invalidation_closes_new_irq_permits_but_does_not_revoke_an_acquired_one() {
    let mut router = EndpointRouter::new();
    let mut admissions = EndpointAdmissions::new();
    let token = router
        .activate(
            DeviceId::new(4),
            StubFunction {
                fail_command: false,
            },
            &mut admissions,
        )
        .unwrap();
    let permit = admissions.acquire_irq_permit(token.admission).unwrap();

    router.invalidate(&token, &mut admissions);
    assert!(matches!(
        admissions.acquire_irq_permit(token.admission),
        Err(DeviceError::InvalidState { .. })
    ));
    admissions.release_irq_permit(permit);
}

#[test]
fn irq_permit_drain_has_a_bounded_failure_path() {
    let mut router = EndpointRouter::new();
    let mut admissions = EndpointAdmissions::new();
    let token = router
        .activate(
            DeviceId::new(4),
            StubFunction {
                fail_command: false,
            },
            &mut admissions,
        )
        .unwrap();
    let permit = admissions.acquire_irq_permit(token.admission).unwrap();

    assert!(matches!(
        admissions
            .get(token.admission)
            .poll_irq_permits(&mut DrainBudget::new(0)),
        Some(Err(DeviceManagerError::InvalidState { .. }))
    ));
    admissions.release_irq_permit(permit);
    assert!(matches!(
        admissions
            .get(token.admission)
            .poll_irq_permits(&mut DrainBudget::new(0)),
        Some(Ok(()))
    ));
}

fn epoch_scenario() {
    let mut router = EndpointRouter::new();
    let mut admissions = EndpointAdmissions::new();
    let old = router
        .activate(
            DeviceId::new(5),
            StubFunction {
                fail_command: false,
            },
            &mut admissions,
        )
        .unwrap();
    let old_grant = old.grant(false);
    let replacements = router.reset_admissions(&mut admissions).unwrap();
    assert_eq!(replacements.len(), 1);
    assert!(matches!(
        admissions.acquire(&old),
        Err(DeviceError::InvalidState { .. })
    ));
    assert!(!old_grant.admission_is_open(&admissions));

    router.open_admissions(&mut admissions);
    let (_, fresh) = &replacements[0];
    assert_eq!(fresh.binding_generation(), old.binding_generation());
    assert_eq!(fresh.admission_epoch(), old.admission_epoch() + 1);
    assert!(router.endpoint(fresh, &admissions).is_ok());
    assert!(admissions.acquire(fresh).is_ok());
    assert!(fresh.grant(false).admission_is_open(&admissions));
}

#[test]
fn runtime_lifecycle_reset_advances_only_the_admission_epoch() {
    epoch_scenario();
}

#[test]
fn lifecycle_lifecycle_reset_advances_only_the_admission_epoch() {
    epoch_scenario();
}

fn recorded(
    id: &str,
    device: u32,
    recording: &Rc<Recording>,
    admissions: &mut EndpointAdmissions,
) -> (PciRootBinding<RecordingFunction>, PciBindingLease) {
    let (mut binding, _) = bind_root(function(id, 0x1042));
    let mut grants = Vec::new();
    let lease = binding
        .bind_registered(
            &node(id),
            DeviceId::new(device),
            RecordingFunction(Rc::clone(recording)),
            &mut grants,
            admissions,
        )
        .unwrap();
    (binding, lease)
}

fn full_reset_scenario() {
    let sink = Rc::new(FailingDeassertSink::default());
    sink.set_level(true).unwrap();
    let recording = Rc::new(Recording {
        line: Some(Rc::clone(&sink)),
        ..Recording::default()
    });
    let mut admissions = EndpointAdmissions::new();
    let (mut binding, lease) = recorded("resettable-endpoint", 7, &recording, &mut admissions);

    binding.reset_lifecycle(&mut admissions).unwrap();

    assert_eq!(recording.withdrawals.get(), 1);
    assert!(!sink.asserted.get());
    assert_eq!(recording.resets.borrow().len(), 1);
    assert!(!recording.resets.borrow()[0].bus_master_enable());
    let token = current_token(&binding, 7);
    assert_eq!(token.binding_generation(), lease.token.binding_generation());
    assert_eq!(token.admission_epoch(), 2);
    assert!(admissions.acquire(&token).is_ok());
}

#[test]
fn runtime_full_lifecycle_reset_resets_endpoint_before_reopening_admission() {
    full_reset_scenario();
}

#[test]
fn lifecycle_full_lifecycle_reset_resets_endpoint_before_reopening_admission() {
    full_reset_scenario();
}

fn failed_reset_scenario() {
    let sink = Rc::new(FailingDeassertSink::default());
    sink.set_level(true).unwrap();
    let recording = Rc::new(Recording {
        line: Some(Rc::clone(&sink)),
        reset_failures: Cell::new(1),
        ..Recording::default()
    });
    let mut admissions = EndpointAdmissions::new();
    let (mut binding, lease) = recorded("unresettable-endpoint", 7, &recording, &mut admissions);

    assert!(matches!(
        binding.reset_lifecycle(&mut admissions),
        Err(DeviceManagerError::Device(DeviceError::Backend { .. }))
    ));
    assert_eq!(recording.resets.borrow().len(), 1);
    assert_eq!(recording.withdrawals.get(), 1);
    assert!(!sink.asserted.get());
    assert_eq!(binding.lifecycle.state, BindingLifecycleState::ResetFailed);
    let token = current_token(&binding, 7);
    assert!(!token.grant(false).admission_is_open(&admissions));
    assert!(matches!(
        admissions.acquire(&token),
        Err(DeviceError::InvalidState { .. })
    ));
    binding.release_binding(lease, &mut admissions);
}

#[test]
fn runtime_full_lifecycle_reset_failure_keeps_endpoint_admission_closed() {
    failed_reset_scenario();
}

#[test]
fn lifecycle_full_lifecycle_reset_failure_keeps_endpoint_admission_closed() {
    failed_reset_scenario();
}

fn failed_cleanup_scenario() {
    let sink = Rc::new(FailingDeassertSink::default());
    sink.set_level(true).unwrap();
    let recording = Rc::new(Recording {
        line: Some(Rc::clone(&sink)),
        withdraw_failures: Cell::new(1),
        ..Recording::default()
    });
    let mut admissions = EndpointAdmissions::new();
    let (mut binding, lease) = recorded(
        "reset-cleanup-failure-endpoint",
        12,
        &recording,
        &mut admissions,
    );

    assert!(matches!(
        binding.reset_lifecycle(&mut admissions),
        Err(DeviceManagerError::Device(DeviceError::Backend { .. }))
    ));
    assert_eq!(binding.lifecycle.state, BindingLifecycleState::ResetFailed);
    assert!(!current_token(&binding, 12)
        .grant(false)
        .admission_is_open(&admissions));
    assert!(sink.asserted.get());

    recording.withdraw_failures.set(0);
    binding.release_binding(lease, &mut admissions);
    assert!(!sink.asserted.get());
    assert_eq!(recording.withdrawals.get(), 1);
}

#[test]
fn runtime_reset_irq_cleanup_failure_stays_closed_until_teardown_retries_withdrawal() {
    failed_cleanup_scenario();
}

#[test]
fn lifecycle_reset_irq_cleanup_failure_stays_closed_until_teardown_retries_withdrawal() {
    failed_cleanup_scenario();
}

fn second_binding_scenario() {
    let mut builder = PciTopologyBuilder::new();
    builder.add_function(function("endpoint", 0x1110)).unwrap();
    let topology = builder.resolve(0xc000_0000..0xc100_0000).unwrap();
    let mut root = PciRootState::new(topology);
    let function_id = node("endpoint");

    let mut router = EndpointRouter::new();
    let mut admissions = EndpointAdmissions::new();
    let first = router
        .activate(
            DeviceId::new(1),
            StubFunction {
                fail_command: false,
            },
            &mut admissions,
        )
        .unwrap();
    root.bind_endpoint(&function_id, first).unwrap();
    assert!(matches!(
        root.bind_endpoint(&function_id, first),
        Err(PciError::FunctionAlreadyBound { .. })
    ));

    router.invalidate(&first, &mut admissions);
    root.unbind_device(first.device_id());
    assert_eq!(
        root.resolve_bound_bar(0xc000_0000, AccessWidth::Byte),
        None
    );
    let second = router
        .activate(
            DeviceId::new(1),
            StubFunction {
                fail_command: false,
            },
            &mut admissions,
        )
        .unwrap();
    root.bind_endpoint(&function_id, second).unwrap();
}

#[test]
fn runtime_root_rejects_a_second_binding_for_the_same_function() {
    second_binding_scenario();
}

#[test]
fn lifecycle_root_rejects_a_second_binding_for_the_same_function() {
    second_binding_scenario();
}

fn dispatch_scenario() {
    let effect = PciCapabilityEffectRegion::new(
        PciConfigEffectId::new(7),
        8,
        6,
        PciCapabilityEffectAccess::ReadWrite,
    )
    .unwrap();
    let capability = PciCapabilitySpec::new(
        PciCapabilityId::new(9),
        vec![0, 0, 0x11, 0x22, 0x33, 0x44, 0, 0, 0, 0, 0, 0, 0, 0],
        vec![0, 0, 0xff, 0xff, 0xff, 0xff, 0, 0, 0, 0, 0, 0, 0, 0],
    )
    .unwrap()
    .with_effect(effect)
    .unwrap();
    let function_id = node("effect-endpoint");
    let (mut binding, bdf) =
        bind_root(function("effect-endpoint", 0x1041).with_capability(capability));
    let recording = Rc::new(Recording {
        supports_effects: true,
        ..Recording::default()
    });
    let mut admissions = EndpointAdmissions::new();
    let mut grants = Vec::new();
    let lease = binding
        .bind_registered(
            &function_id,
            DeviceId::new(7),
            RecordingFunction(Rc::clone(&recording)),
            &mut grants,
            &mut admissions,
        )
        .unwrap();
    let capability_offset = binding
        .root
        .topology()
        .function(&function_id)
        .unwrap()
        .capabilities()[0]
        .offset()
        .value();
    let binding = share_root(binding, bdf, &recording);

    write_config(
        &binding,
        bdf,
        capability_offset + 4,
        AccessWidth::Dword,
        0x6655_4433,
        &mut admissions,
    )
    .unwrap();
    assert!(recording.reads.borrow().is_empty());
    assert!(recording.writes.borrow().is_empty());

    assert_eq!(
        read_config(
            &binding,
            bdf,
            capability_offset + 8,
            AccessWidth::Dword,
            &mut admissions
        )
        .unwrap(),
        0x5a
    );
    let read = recording.reads.borrow_mut().pop().unwrap();
    assert_eq!(read.0.capability(), PciCapabilityId::new(9));
    assert_eq!(read.0.effect(), PciConfigEffectId::new(7));
    assert_eq!(read.0.offset(), 8);
    assert_eq!(read.0.width(), AccessWidth::Dword);
    assert_eq!(read.1, DeviceId::new(7));
    assert_eq!(read.2, 0x1041_1af4);
    assert_eq!(
        &read.0.capability_snapshot().bytes()[..8],
        &[0, 0, 0x33, 0x44, 0x55, 0x66, 0, 0]
    );

    write_config(
        &binding,
        bdf,
        capability_offset + 8,
        AccessWidth::Dword,
        0xfeed_beef,
        &mut admissions,
    )
    .unwrap();
    let write = recording.writes.borrow_mut().pop().unwrap();
    assert_eq!(write.0.value(), 0xfeed_beef);
    assert_eq!(write.1, DeviceId::new(7));
    assert_eq!(
        &write.0.capability_snapshot().bytes()[..8],
        &[0, 0, 0x33, 0x44, 0x55, 0x66, 0, 0]
    );

    assert_eq!(
        read_config(
            &binding,
            bdf,
            capability_offset + 8,
            AccessWidth::Dword,
            &mut admissions
        )
        .unwrap(),
        0x5a
    );
    let second_read = recording.reads.borrow_mut().pop().unwrap();
    assert_eq!(second_read.0.effect(), PciConfigEffectId::new(7));
    assert_eq!(second_read.1, DeviceId::new(7));

    write_config(
        &binding,
        bdf,
        4,
        AccessWidth::Word,
        0x0406,
        &mut admissions,
    )
    .unwrap();
    let command = recording.commands.borrow_mut().pop().unwrap();
    assert!(command.0.memory_space_enable());
    assert!(command.0.bus_master_enable());
    assert!(command.0.interrupt_disable());
    assert_eq!(command.1, DeviceId::new(7));

    assert!(matches!(
        read_config(
            &binding,
            bdf,
            capability_offset + 12,
            AccessWidth::Dword,
            &mut admissions
        ),
        Err(DeviceError::InvalidInput { .. })
    ));
    assert!(recording.reads.borrow().is_empty());

    binding
        .borrow_mut()
        .release_binding(lease, &mut admissions);
    assert!(matches!(
        read_config(
            &binding,
            bdf,
            capability_offset + 8,
            AccessWidth::Dword,
            &mut admissions
        ),
        Err(DeviceError::InvalidInput { .. })
    ));
}

#[test]
fn runtime_binding_dispatches_config_effects_and_command_transitions() {
    dispatch_scenario();
}

#[test]
fn dispatch_binding_dispatches_config_effects_and_command_transitions() {
    dispatch_scenario();
}

fn dynamic_status_scenario() {
    let function_id = node("intx-endpoint");
    let (mut binding, bdf) = bind_root(function("intx-endpoint", 0x1041).with_intx());
    assert!(
        binding
            .root
            .topology()
            .function(&function_id)
            .unwrap()
            .intx
    );
    let recording = Rc::new(Recording {
        pending: true,
        ..Recording::default()
    });
    let mut admissions = EndpointAdmissions::new();
    let mut grants = Vec::new();
    let lease = binding
        .bind_registered(
            &function_id,
            DeviceId::new(9),
            RecordingFunction(Rc::clone(&recording)),
            &mut grants,
            &mut admissions,
        )
        .unwrap();
    let binding = share_root(binding, bdf, &recording);

    assert_eq!(
        read_config(&binding, bdf, 0x06, AccessWidth::Byte, &mut admissions).unwrap() & 0x08,
        0x08
    );
    binding
        .borrow_mut()
        .release_binding(lease, &mut admissions);
    assert_eq!(recording.withdrawals.get(), 1);
    assert_eq!(
        read_config(&binding, bdf, 0x06, AccessWidth::Byte, &mut admissions).unwrap() & 0x08,
        0
    );
}

#[test]
fn runtime_dynamic_interrupt_status_is_read_from_the_bound_endpoint() {
    dynamic_status_scenario();
}

#[test]
fn dispatch_dynamic_interrupt_status_is_read_from_the_bound_endpoint() {
    dynamic_status_scenario();
}

#[test]
fn failed_irq_withdrawal_survives_root_binding_destruction() {
    let function_id = node("pending-withdrawal-endpoint");
    let (mut binding, _) = bind_root(function("pending-withdrawal-endpoint", 0x1041).with_intx());
    let recording = Rc::new(Recording::default());
    let mut admissions = EndpointAdmissions::new();
    let mut grants = Vec::new();
    let lease = binding
        .bind_registered(
            &function_id,
            DeviceId::new(10),
            RecordingFunction(Rc::clone(&recording)),
            &mut grants,
            &mut admissions,
        )
        .unwrap();
    let permit = admissions
        .acquire_irq_permit(lease.token.admission)
        .unwrap();

    binding.release_binding(lease, &mut admissions);
    let mut orphaned = Vec::new();
    binding.stop(&mut orphaned, &mut admissions);
    assert_eq!(recording.withdrawals.get(), 0);

    admissions.release_irq_permit(permit);
    PciRootBinding::retry_orphaned_irq_withdrawals(&mut orphaned, &admissions).unwrap();
    assert_eq!(recording.withdrawals.get(), 1);
}

#[test]
fn failed_owner_irq_withdrawal_is_retryable() {
    let recording = Rc::new(Recording {
        withdraw_failures: Cell::new(1),
        ..Recording::default()
    });
    let mut admissions = EndpointAdmissions::new();
    let (mut binding, lease) =
        recorded("failed-withdrawal-endpoint", 11, &recording, &mut admissions);

    binding.release_binding(lease, &mut admissions);
    assert_eq!(recording.withdrawals.get(), 0);
    assert!(binding.retry_irq_withdrawals(&mut admissions).is_ok());
    assert_eq!(recording.withdrawals.get(), 1);
}

#[test]
fn command_callback_failure_keeps_the_root_owned_command_commit() {
    let function_id = node("failing-command-endpoint");
    let (mut binding, bdf) = bind_root(function("failing-command-endpoint", 0x1041));
    let mut admissions = EndpointAdmissions::new();
    let mut grants = Vec::new();
    let _lease = binding
        .bind_registered(
            &function_id,
            DeviceId::new(8),
            StubFunction { fail_command: true },
            &mut grants,
            &mut admissions,
        )
        .unwrap();

    assert!(matches!(
        binding.write_config(bdf, offset(4), AccessWidth::Word, 0x0406, &mut admissions),
        Err(DeviceError::Unsupported { .. })
    ));
    assert_eq!(
        binding
            .read_config(bdf, offset(4), AccessWidth::Word, &mut admissions)
            .unwrap(),
        0x0406
    );
}

#[test]
fn withdrawal_operation_reports_busy_lifecycle_without_spinning() {
    let recording = Rc::new(Recording::default());
    let mut admissions = EndpointAdmissions::new();
    let (mut binding, lease) =
        recorded("deferred-withdrawal-endpoint", 5, &recording, &mut admissions);
    let reset = binding.lifecycle.begin_reset_operation().unwrap();

    binding.release_binding(lease, &mut admissions);
    assert_eq!(
        binding.lifecycle.pending_binding_withdrawals.as_slice(),
        &[DeviceId::new(5)]
    );
    binding
        .lifecycle
        .finish(reset, BindingLifecycleState::Running);
}

#[test]
fn reset_refuses_to_finish_while_a_withdrawal_is_deferred() {
    let recording = Rc::new(Recording::default());
    let mut admissions = EndpointAdmissions::new();
    let (mut binding, lease) = recorded("handoff-endpoint", 13, &recording, &mut admissions);
    let reset = binding.lifecycle.begin_reset_operation().unwrap();
    binding.release_binding(lease, &mut admissions);
    let reset = binding
        .lifecycle
        .try_finish_reset(reset)
        .expect("the deferred withdrawal holds the reset up");
    binding
        .drain_pending_binding_withdrawals(&mut admissions)
        .unwrap();
    assert!(binding.lifecycle.try_finish_reset(reset).is_none());
    assert!(binding.lifecycle.pending_binding_withdrawals.is_empty());
    assert!(binding.router.position(DeviceId::new(13)).is_none());
    assert_eq!(binding.lifecycle.state, BindingLifecycleState::Running);
}

#[test]
fn stopped_binding_refuses_everything() {
    let recording = Rc::new(Recording::default());
    let mut admissions = EndpointAdmissions::new();
    let (mut binding, _lease) = recorded("stopped-endpoint", 2, &recording, &mut admissions);
    let mut orphaned = Vec::new();
    binding.stop(&mut orphaned, &mut admissions);
    assert!(orphaned.is_empty());
    assert_eq!(binding.lifecycle.state, BindingLifecycleState::Dead);
    assert!(binding.reset_lifecycle(&mut admissions).is_err());
    assert!(matches!(
        binding.lifecycle.try_begin_withdrawal_operation(),
        Err(WithdrawalStartError::Terminal)
    ));
}

#[test]
fn endpoints_with_ranges_of_their_own_are_rejected() {
    let recording = Rc::new(Recording {
        has_resources: true,
        ..Recording::default()
    });
    let (mut binding, _) = bind_root(function("ranged-endpoint", 0x1042));
    let mut admissions = EndpointAdmissions::new();
    let mut grants = Vec::new();
    assert!(matches!(
        binding.bind_registered(
            &node("ranged-endpoint"),
            DeviceId::new(1),
            RecordingFunction(recording),
            &mut grants,
            &mut admissions,
        ),
        Err(DeviceManagerError::InvalidConfig { .. })
    ));
}

#[test]
fn unknown_functions_and_devices_are_named_in_errors() {
    let recording = Rc::new(Recording::default());
    let mut admissions = EndpointAdmissions::new();
    let (mut binding, _lease) = recorded("known-endpoint", 1, &recording, &mut admissions);
    let mut grants = Vec::new();
    assert!(matches!(
        binding.bind_registered(
            &node("unknown-endpoint"),
            DeviceId::new(2),
            RecordingFunction(Rc::clone(&recording)),
            &mut grants,
            &mut admissions,
        ),
        Err(DeviceManagerError::Pci(PciError::UnknownFunction { .. }))
    ));
    assert!(matches!(
        binding.bind_registered(
            &node("known-endpoint"),
            DeviceId::new(2),
            RecordingFunction(Rc::clone(&recording)),
            &mut grants,
            &mut admissions,
        ),
        Err(DeviceManagerError::Pci(PciError::FunctionAlreadyBound { .. }))
    ));
}

#[test]
fn bar_dispatch_carries_offset_and_bus_master_state() {
    let function_id = node("bar-endpoint");
    let bar = PciBarIndex::new(0).unwrap();
    let spec = function("bar-endpoint", 0x1042)
        .with_bar(PciMemoryBar::new(bar, 0x1000).unwrap())
        .unwrap();
    let (mut binding, bdf) = bind_root(spec);
    let recording = Rc::new(Recording::default());
    let mut admissions = EndpointAdmissions::new();
    let mut grants = Vec::new();
    let lease = binding
        .bind_registered(
            &function_id,
            DeviceId::new(6),
            RecordingFunction(Rc::clone(&recording)),
            &mut grants,
            &mut admissions,
        )
        .unwrap();
    assert!(matches!(
        binding.read_bar(0xc000_0010, AccessWidth::Dword, &mut admissions),
        Err(DeviceError::NotFound)
    ));
    binding
        .write_config(bdf, offset(4), AccessWidth::Word, 6, &mut admissions)
        .unwrap();
    assert_eq!(
        binding.read_bar(0xc000_0010, AccessWidth::Dword, &mut admissions),
        Ok(0x1010)
    );
    assert_eq!(admissions.get(lease.token.admission).leases, 0);
    let dispatch = binding
        .route_bar(0xc000_0010, AccessWidth::Dword, &mut admissions)
        .unwrap();
    assert_eq!(dispatch.access.offset(), 0x10);
    assert!(dispatch.access.bus_master_enable());
    assert_eq!(admissions.get(lease.token.admission).leases, 1);
    binding.finish_dispatch(dispatch.routed, &mut admissions);
    assert_eq!(admissions.get(lease.token.admission).leases, 0);
}

/// Context of a runtime that answers as told.
struct Runtime {
    answer: DeviceResult<bool>,
    entered: Vec<RoutedDeviceGrant>,
    left: usize,
}

impl Runtime {
    fn new(answer: DeviceResult<bool>) -> Runtime {
        Runtime {
            answer,
            entered: Vec::new(),
            left: 0,
        }
    }
}

impl DeviceContext for Runtime {
    fn enter_routed_device(&mut self, grant: &RoutedDeviceGrant) -> DeviceResult<bool> {
        self.entered.push(*grant);
        std::mem::replace(&mut self.answer, Ok(true))
    }
    fn leave_routed_device(&mut self) {
        self.left += 1;
    }
    fn read_guest_memory(
        &mut self,
        _grant: &DmaGrant,
        _address: u64,
        length: usize,
    ) -> DeviceResult<Vec<u8>> {
        Ok(vec![0; length])
    }
    fn write_guest_memory(
        &mut self,
        _grant: &DmaGrant,
        _address: u64,
        _bytes: Vec<u8>,
    ) -> DeviceResult<()> {
        Ok(())
    }
}

#[test]
fn routed_contexts_decide_whether_the_endpoint_is_reached() {
    let bar = PciBarIndex::new(0).unwrap();
    let spec = function("bar-endpoint", 0x1042)
        .with_bar(PciMemoryBar::new(bar, 0x1000).unwrap())
        .unwrap();
    let (mut binding, bdf) = bind_root(spec);
    let sink = Rc::new(FailingDeassertSink::default());
    let recording = Rc::new(Recording {
        line: Some(Rc::clone(&sink)),
        ..Recording::default()
    });
    let mut admissions = EndpointAdmissions::new();
    let lease = binding
        .bind_registered(
            &node("bar-endpoint"),
            DeviceId::new(6),
            RecordingFunction(recording),
            &mut Vec::new(),
            &mut admissions,
        )
        .unwrap();
    binding
        .write_config(bdf, offset(4), AccessWidth::Word, 6, &mut admissions)
        .unwrap();

    let mut runtime = Runtime::new(Ok(true));
    assert_eq!(
        binding.read_bar_with_context(
            0xc000_0020,
            AccessWidth::Dword,
            &mut admissions,
            &mut runtime
        ),
        Ok(0x1020)
    );
    assert_eq!(runtime.entered, vec![lease.token.grant(true)]);
    assert_eq!(runtime.left, 1);

    let mut refusing = Runtime::new(Err(DeviceError::NotFound));
    assert_eq!(
        binding.read_bar_with_context(
            0xc000_0020,
            AccessWidth::Dword,
            &mut admissions,
            &mut refusing
        ),
        Err(DeviceError::NotFound)
    );
    assert_eq!(refusing.left, 0);

    let mut idle = Runtime::new(Ok(false));
    assert!(matches!(
        binding.read_bar_with_context(
            0xc000_0020,
            AccessWidth::Dword,
            &mut admissions,
            &mut idle
        ),
        Err(DeviceError::InvalidState {
            operation: "dispatch PCI endpoint route",
            ..
        })
    ));
    assert_eq!(admissions.get(lease.token.admission).leases, 0);

    // With guest memory the endpoint writes it, without it raises its line.
    let mut runtime = Runtime::new(Ok(true));
    binding
        .write_bar_with_context(
            0xc000_0000,
            AccessWidth::Byte,
            1,
            &mut admissions,
            &mut runtime,
        )
        .unwrap();
    assert!(!sink.asserted.get());
    binding
        .write_bar(0xc000_0000, AccessWidth::Byte, 1, &mut admissions)
        .unwrap();
    assert!(sink.asserted.get());
    assert_eq!(admissions.get(lease.token.admission).permits, 0);
}

#[test]
fn endpoint_defaults_have_no_effects_and_no_reset() {
    let mut stub = StubFunction {
        fail_command: false,
    };
    assert!(!stub.intx_pending());
    assert!(stub.supported_config_effects().is_empty());
    assert!(matches!(
        stub.reset(PciCommandState::new(false, false, false)),
        Err(DeviceError::Unsupported {
            operation: "reset PCI endpoint",
            ..
        })
    ));
    assert_eq!(
        stub.withdraw_irq(&mut EndpointIrqTransitionPermit::new()),
        Ok(())
    );
}

#[test]
fn closed_admissions_grant_no_transition() {
    let mut endpoint = AdmittedContext {
        device: DeviceId::new(1),
        admission: EndpointAdmission::new(1, 1),
    };
    let sink = Rc::new(FailingDeassertSink::default());
    endpoint.admission.close();
    assert!(matches!(
        endpoint.with_irq_transition(&mut Raise(Rc::clone(&sink))),
        Err(DeviceError::InvalidState { .. })
    ));
    assert!(!sink.asserted.get());
    endpoint.admission.reopen();
    assert_eq!(
        endpoint.with_irq_transition(&mut Raise(Rc::clone(&sink))),
        Ok(())
    );
    assert!(sink.asserted.get());
    assert_eq!(endpoint.admission.permits, 0);
}

#[test]
fn unbinding_a_token_leaves_other_routes() {
    let mut router = EndpointRouter::new();
    let mut admissions = EndpointAdmissions::new();
    let mut tokens = Vec::new();
    for device in [1, 2] {
        tokens.push(
            router
                .activate(
                    DeviceId::new(device),
                    StubFunction {
                        fail_command: false,
                    },
                    &mut admissions,
                )
                .unwrap(),
        );
    }
    let mut builder = PciTopologyBuilder::new();
    for name in ["first", "second"] {
        builder
            .add_function(PciFunctionSpec::new(
                DeviceNodeId::new(name).unwrap(),
                PciEndpointIdentity::new(0x1af4, 0x1110, PciClass::new(6, 0, 0)),
            ))
            .unwrap();
    }
    let mut root = PciRootState::new(builder.resolve(0xc000_0000..0xc010_0000).unwrap());
    for (name, token) in ["first", "second"].into_iter().zip(&tokens) {
        root.bind_endpoint(&DeviceNodeId::new(name).unwrap(), *token)
            .unwrap();
    }
    root.unbind_endpoint(&tokens[0]);
    assert_eq!(root.bindings, vec![None, Some(tokens[1])]);
    root.unbind_endpoint(&tokens[0]);
    assert_eq!(root.bindings, vec![None, Some(tokens[1])]);
}

/// Endpoint that comes back to its binding from its callbacks.
struct ReentrantLifecycleFunction {
    binding: Weak<RefCell<PciRootBinding<ReentrantLifecycleFunction>>>,
    refused: Rc<Cell<bool>>,
}

impl PciFunction for ReentrantLifecycleFunction {
    fn has_resources(&self) -> bool {
        let binding = self.binding.upgrade().unwrap();
        let running = binding.borrow().lifecycle.state == BindingLifecycleState::Running;
        !running
    }

    fn withdraw_irq(&mut self, _permit: &mut EndpointIrqTransitionPermit) -> DeviceResult<()> {
        let binding = self.binding.upgrade().unwrap();
        let started = binding.borrow_mut().lifecycle.begin_binding_operation();
        self.refused.set(started.is_err());
        Ok(())
    }
}

#[test]
fn binding_callback_can_reenter_lifecycle_without_holding_its_lock() {
    let (binding, _) = bind_root(function("reentrant-endpoint", 0x1042));
    let binding = Rc::new(RefCell::new(binding));
    let refused = Rc::new(Cell::new(false));
    let function = ReentrantLifecycleFunction {
        binding: Rc::downgrade(&binding),
        refused: Rc::clone(&refused),
    };
    let mut grants = Vec::new();
    let mut admissions = EndpointAdmissions::new();

    let supported = function.supported_config_effects();
    let has_resources = function.has_resources();
    let lease = binding
        .borrow_mut()
        .bind_registered_inner(
            &node("reentrant-endpoint"),
            DeviceId::new(7),
            function,
            &supported,
            has_resources,
            &mut grants,
            &mut admissions,
        )
        .unwrap();

    let device = lease.token.device_id();
    let operation = binding
        .borrow_mut()
        .lifecycle
        .try_begin_withdrawal_or_defer(device)
        .unwrap();
    let mut withdrawal = binding
        .borrow_mut()
        .start_withdrawal(device, &mut admissions)
        .unwrap();
    let outcome = ask_withdrawal(
        &mut withdrawal.function,
        admissions.get(withdrawal.admission),
    );
    binding
        .borrow_mut()
        .settle_withdrawal(withdrawal, outcome, &admissions)
        .unwrap();
    binding.borrow_mut().lifecycle.finish_restore(operation);
    assert!(refused.get());
    assert_eq!(
        binding.borrow().lifecycle.state,
        BindingLifecycleState::Running
    );
}

#[test]
fn failed_withdrawal_keeps_its_owner() {
    let (mut binding, _) = bind_root(function("endpoint", 0x1042));
    let sink = Rc::new(FailingDeassertSink::default());
    let recording = Rc::new(Recording {
        line: Some(Rc::clone(&sink)),
        ..Recording::default()
    });
    let mut admissions = EndpointAdmissions::new();
    let lease = binding
        .bind_registered(
            &node("endpoint"),
            DeviceId::new(3),
            RecordingFunction(recording),
            &mut Vec::new(),
            &mut admissions,
        )
        .unwrap();
    assert!(binding
        .start_withdrawal(DeviceId::new(9), &mut admissions)
        .is_none());
    let withdrawal = binding
        .start_withdrawal(DeviceId::new(3), &mut admissions)
        .unwrap();
    assert_eq!(withdrawal.admission, lease.token.admission);
    assert!(!admissions.get(withdrawal.admission).open);
    let failure = DeviceManagerError::Device(DeviceError::NotFound);
    assert!(binding
        .settle_withdrawal(withdrawal, Err(failure), &admissions)
        .is_err());
    assert!(binding.has_pending_irq_withdrawal(DeviceId::new(3)));
}

/// What a callback is admitted with while others reach the admissions.
struct LiveContext {
    admissions: Rc<RefCell<EndpointAdmissions>>,
    device: DeviceId,
    admission: AdmissionId,
}

impl PciEndpointContext for LiveContext {
    fn device_id(&self) -> DeviceId {
        self.device
    }

    fn with_irq_transition<T: IrqTransition>(&mut self, transition: &mut T) -> DeviceResult<()> {
        let permit = self
            .admissions
            .borrow_mut()
            .acquire_irq_permit(self.admission)?;
        let result = transition.run(&mut EndpointIrqTransitionPermit::new());
        self.admissions.borrow_mut().release_irq_permit(permit);
        result
    }
}

#[test]
fn withdrawal_shuts_out_transitions_of_a_callback_that_is_inside() {
    for withdrawn in [false, true] {
        let spec = function("bar-endpoint", 0x1042)
            .with_bar(PciMemoryBar::new(PciBarIndex::new(0).unwrap(), 0x1000).unwrap())
            .unwrap();
        let (mut binding, bdf) = bind_root(spec);
        let sink = Rc::new(FailingDeassertSink::default());
        let endpoint = RecordingFunction(Rc::new(Recording {
            line: Some(Rc::clone(&sink)),
            ..Recording::default()
        }));
        let admissions = Rc::new(RefCell::new(EndpointAdmissions::new()));
        binding
            .bind_registered(
                &node("bar-endpoint"),
                DeviceId::new(6),
                endpoint.clone(),
                &mut Vec::new(),
                &mut admissions.borrow_mut(),
            )
            .unwrap();
        binding
            .write_config(
                bdf,
                offset(4),
                AccessWidth::Word,
                6,
                &mut admissions.borrow_mut(),
            )
            .unwrap();
        let dispatch = binding
            .route_bar(0xc000_0000, AccessWidth::Byte, &mut admissions.borrow_mut())
            .unwrap();
        let routed = dispatch.routed;
        let admitted = LiveContext {
            admissions: Rc::clone(&admissions),
            device: routed.grant.token.device_id(),
            admission: routed.lease.admission,
        };
        if withdrawn {
            binding
                .start_withdrawal(DeviceId::new(6), &mut admissions.borrow_mut())
                .unwrap();
        }
        let result = visit_bar_write(
            &endpoint,
            &routed.grant,
            dispatch.access,
            1,
            admitted,
            &mut UnroutedContext {},
        );
        if withdrawn {
            assert!(matches!(
                result,
                Err(DeviceError::InvalidState {
                    operation: "publish PCI endpoint interrupt state",
                    ..
                })
            ));
        } else {
            assert_eq!(result, Ok(()));
        }
        assert_eq!(sink.asserted.get(), !withdrawn);
        let admission = routed.lease.admission;
        binding.finish_dispatch(routed, &mut admissions.borrow_mut());
        assert_eq!(admissions.borrow().get(admission).leases, 0);
        assert_eq!(admissions.borrow().get(admission).permits, 0);
    }
}

/// Endpoint that notes what its owner asks of it, in order.
struct OrderedFunction {
    asked: Rc<RefCell<Vec<&'static str>>>,
}

impl PciFunction for OrderedFunction {
    fn has_resources(&self) -> bool {
        false
    }

    fn reset(&mut self, _command: PciCommandState) -> DeviceResult<()> {
        self.asked.borrow_mut().push("reset");
        Err(DeviceError::NotFound)
    }

    fn withdraw_irq(&mut self, _permit: &mut EndpointIrqTransitionPermit) -> DeviceResult<()> {
        self.asked.borrow_mut().push("withdraw");
        Ok(())
    }
}

#[test]
fn reset_is_told_before_the_interrupt_is_withdrawn() {
    let (mut binding, _) = bind_root(function("endpoint", 0x1042));
    let asked = Rc::new(RefCell::new(Vec::new()));
    let mut admissions = EndpointAdmissions::new();
    binding
        .bind_registered(
            &node("endpoint"),
            DeviceId::new(3),
            OrderedFunction {
                asked: Rc::clone(&asked),
            },
            &mut Vec::new(),
            &mut admissions,
        )
        .unwrap();
    assert_eq!(
        binding.reset_lifecycle(&mut admissions),
        Err(DeviceManagerError::Device(DeviceError::NotFound))
    );
    assert_eq!(*asked.borrow(), ["reset", "withdraw"]);
    assert_eq!(binding.lifecycle.state, BindingLifecycleState::ResetFailed);
}

#[test]
fn endpoint_is_not_asked_while_a_transition_is_inside() {
    let asked = Rc::new(RefCell::new(Vec::new()));
    let mut function = OrderedFunction {
        asked: Rc::clone(&asked),
    };
    let mut admission = EndpointAdmission::new(1, 1);
    admission.acquire_irq_permit().unwrap();
    admission.close();
    assert!(matches!(
        ask_withdrawal(&mut function, admission),
        Err(DeviceManagerError::InvalidState {
            operation: "drain PCI endpoint IRQ permits",
            ..
        })
    ));
    assert!(asked.borrow().is_empty());
    admission.permits = 0;
    assert_eq!(ask_withdrawal(&mut function, admission), Ok(()));
    assert_eq!(*asked.borrow(), ["withdraw"]);
}

#[test]
fn callbacks_may_leave_between_the_steps_of_a_reset() {
    let (mut binding, bdf) = bind_root(function("endpoint", 0x1042));
    let recording = Rc::new(Recording::default());
    let mut admissions = EndpointAdmissions::new();
    let lease = binding
        .bind_registered(
            &node("endpoint"),
            DeviceId::new(3),
            RecordingFunction(Rc::clone(&recording)),
            &mut Vec::new(),
            &mut admissions,
        )
        .unwrap();
    binding
        .write_config(bdf, offset(4), AccessWidth::Word, 6, &mut admissions)
        .unwrap();
    let inside = admissions.acquire(&lease.token).unwrap();

    let progress = binding.begin_reset(&mut admissions).unwrap();
    assert_eq!(binding.lifecycle.state, BindingLifecycleState::Resetting);
    assert_eq!(progress.replacements.len(), 1);
    let (old, new) = progress.replacements[0];
    assert_eq!(old, lease.token);
    let mut budget = DrainBudget::new(2);
    assert_eq!(admissions.get(old.admission).poll_idle(&mut budget), None);
    admissions.release(inside);
    assert_eq!(
        admissions.get(old.admission).poll_idle(&mut budget),
        Some(Ok(()))
    );
    assert!(binding.begin_reset(&mut admissions).is_err());

    let commands = binding.root.reset_and_snapshot_commands();
    assert_eq!(binding.router.check_commands(&commands), Ok(()));
    assert!(binding.router.check_commands(&Vec::new()).is_err());
    let mut endpoint = RecordingFunction(Rc::clone(&recording));
    assert_eq!(
        reset_endpoint(&mut endpoint, commands[0].1),
        (Ok(()), Ok(()))
    );
    assert_eq!(
        *recording.resets.borrow(),
        [PciCommandState::new(false, false, false)]
    );
    assert_eq!(
        binding.finish_reset(progress, Ok(()), &mut admissions),
        Ok(())
    );
    assert_eq!(binding.lifecycle.state, BindingLifecycleState::Running);
    assert!(admissions.get(new.admission).open);
    assert!(!admissions.get(old.admission).open);
    assert_eq!(current_token(&binding, 3), new);

    let progress = binding.begin_reset(&mut admissions).unwrap();
    let (_, newest) = progress.replacements[0];
    assert_eq!(
        binding.finish_reset(
            progress,
            Err(DeviceManagerError::Device(DeviceError::NotFound)),
            &mut admissions
        ),
        Err(DeviceManagerError::Device(DeviceError::NotFound))
    );
    assert_eq!(binding.lifecycle.state, BindingLifecycleState::ResetFailed);
    assert!(!admissions.get(newest.admission).open);
}

#[test]
fn teardown_keeps_deferred_devices_and_the_generation() {
    let (mut binding, _) = bind_root(function("endpoint", 0x1042));
    let mut admissions = EndpointAdmissions::new();
    binding
        .bind_registered(
            &node("endpoint"),
            DeviceId::new(3),
            RecordingFunction(Rc::new(Recording::default())),
            &mut Vec::new(),
            &mut admissions,
        )
        .unwrap();
    let _reset = binding.lifecycle.begin_reset_operation().unwrap();
    assert_eq!(
        binding
            .lifecycle
            .try_begin_withdrawal_or_defer(DeviceId::new(3)),
        None
    );
    let generation = binding.router.next_generation;
    assert_eq!(generation, 1);
    binding.stop(&mut Vec::new(), &mut admissions);
    assert_eq!(
        binding.lifecycle.pending_binding_withdrawals,
        [DeviceId::new(3)]
    );
    assert_eq!(binding.router.next_generation, generation);
    assert!(binding.router.endpoints.is_empty());
}
