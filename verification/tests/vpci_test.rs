use axvisor::access::{
    AccessWidth, BusKind, DeviceAccess, DeviceError, DeviceId, DeviceManagerError, DeviceNodeId,
    DeviceResult, DeviceVcpuId, ErrorDetail,
};
use axvisor::devices::vpci_test::{
    requirements, VpciTestFunction, BAR_INDEX, BAR_SIZE, DEVICE_ID, HOST_KEY,
    VENDOR_ID,
};
use axvisor::pci::address::{ConfigOffset, PciBarIndex};
use axvisor::pci::bar::PciMemoryBar;
use axvisor::pci::binding::PciRootBinding;
use axvisor::pci::effect::PciBarAccess;
use axvisor::pci::endpoint::{DeviceContext, PciEndpointCallbacks, PciEndpointContext, PciFunction};
use axvisor::pci::error::PciError;
use axvisor::pci::function::{PciClass, PciEndpointIdentity};
use axvisor::pci::graph::{PciBusShared, PciFunctionRequirement, PciHostKey, PciHostPlan};
use axvisor::pci::root::PciRootState;
use axvisor::pci::routing::EndpointAdmissions;
use axvisor::pci::topology::{PciTopologyBuilder, ResolvedPciTopology};
use std::sync::Mutex;

const APERTURE_BASE: u64 = 0xc000_0000;
const APERTURE_SIZE: u64 = 0x10_0000;

fn id(value: &str) -> DeviceNodeId {
    DeviceNodeId::new(value).unwrap()
}

fn topology() -> ResolvedPciTopology {
    let mut builder = PciTopologyBuilder::new();
    builder
        .add_function(requirements().unwrap().into_function(id("vpci-test0")))
        .unwrap();
    builder
        .resolve(APERTURE_BASE..APERTURE_BASE + APERTURE_SIZE)
        .unwrap()
}

#[test]
fn requirements_declare_only_the_test_pci_function() {
    let function = requirements().unwrap();
    assert_eq!(function.host().as_str(), HOST_KEY);
    let expected = PciFunctionRequirement::new(
        PciHostKey::new(HOST_KEY).unwrap(),
        PciEndpointIdentity::new(VENDOR_ID, DEVICE_ID, PciClass::new(0x06, 0, 0)),
    )
    .with_bar(PciMemoryBar::new(PciBarIndex::new(BAR_INDEX).unwrap(), BAR_SIZE as u64).unwrap())
    .unwrap();
    assert_eq!(function, expected);
}

#[test]
fn backing_is_zeroed_per_endpoint() {
    let mut first = VpciTestFunction::new().unwrap();
    let second = VpciTestFunction::new().unwrap();
    first.backing[0] = 0xa5;
    assert_eq!(second.backing[0], 0);
}

/// The function behind a lock.
struct Endpoint(Mutex<VpciTestFunction>);

impl PciFunction for Endpoint {
    fn has_resources(&self) -> bool {
        false
    }
}

impl<C: DeviceContext, E: PciEndpointContext> PciEndpointCallbacks<C, E> for Endpoint {
    fn read_bar(
        &self,
        access: PciBarAccess,
        _endpoint: &mut E,
        _context: &mut C,
    ) -> DeviceResult<u64> {
        self.0.lock().unwrap().read_bar(access)
    }

    fn write_bar(
        &self,
        access: PciBarAccess,
        value: u64,
        _endpoint: &mut E,
        _context: &mut C,
    ) -> DeviceResult<()> {
        self.0.lock().unwrap().write_bar(access, value)
    }
}

#[test]
fn graph_build_routes_private_bar_backing() {
    let topology = topology();
    let function = topology.function(&id("vpci-test0")).unwrap();
    let bdf = function.bdf();
    let bar = function
        .bar(PciBarIndex::new(BAR_INDEX).unwrap())
        .unwrap()
        .address();
    let mut binding = PciRootBinding::new(id("pci-host"), PciRootState::new(topology));
    let mut admissions = EndpointAdmissions::new();
    binding
        .bind_registered(
            &id("vpci-test0"),
            DeviceId::new(1),
            Endpoint(Mutex::new(VpciTestFunction::new().unwrap())),
            &mut Vec::new(),
            &mut admissions,
        )
        .unwrap();
    binding
        .root
        .write_config(bdf, ConfigOffset::new(4).unwrap(), AccessWidth::Word, 2)
        .unwrap();
    assert_eq!(
        binding
            .read_bar(bar, AccessWidth::Dword, &mut admissions)
            .unwrap(),
        0
    );
    binding
        .write_bar(bar + 4, AccessWidth::Dword, 0x1122_3344, &mut admissions)
        .unwrap();
    assert_eq!(
        binding
            .read_bar(bar + 4, AccessWidth::Dword, &mut admissions)
            .unwrap(),
        0x1122_3344
    );
    assert_eq!(
        binding.read_bar(bar + BAR_SIZE as u64, AccessWidth::Byte, &mut admissions),
        Err(DeviceError::NotFound)
    );
    // Bytes around the write are as they were, and parts of it read back.
    assert_eq!(
        binding.read_bar(bar + 3, AccessWidth::Byte, &mut admissions),
        Ok(0)
    );
    assert_eq!(
        binding.read_bar(bar + 5, AccessWidth::Word, &mut admissions),
        Ok(0x2233)
    );
    assert_eq!(
        binding.read_bar(bar + 8, AccessWidth::Byte, &mut admissions),
        Ok(0)
    );
}

#[test]
fn direct_accesses_and_missing_memory_are_errors() {
    let function = VpciTestFunction::new().unwrap();
    let access = DeviceAccess::new(DeviceVcpuId::new(0), BusKind::Mmio, 0, AccessWidth::Dword);
    let refusal = || DeviceError::Unsupported {
        operation: "access vpci-test endpoint device",
        detail: ErrorDetail::Text("direct access is routed through the PCI BAR"),
    };
    assert_eq!(function.name(), "vpci-test");
    assert!(function.resources().is_empty());
    assert_eq!(function.read(&access), Err(refusal()));
    assert_eq!(function.write(&access, 1), Err(refusal()));
    assert!(matches!(
        VpciTestFunction::with_backing(Vec::new(), false),
        Err(DeviceManagerError::OutOfMemory {
            operation: "allocate vpci-test BAR backing"
        })
    ));
}

#[test]
fn requirements_take_one_bar_per_slot() {
    assert_eq!(PciHostKey::new(""), Err(PciError::InvalidHostKey));
    let bar = || PciMemoryBar::new(PciBarIndex::new(BAR_INDEX).unwrap(), 0x1000).unwrap();
    assert!(matches!(
        requirements().unwrap().with_bar(bar()),
        Err(PciError::InvalidBar { bar: BAR_INDEX, .. })
    ));
}

#[test]
fn bus_is_resolved_and_hosted_once() {
    let function = id("vpci-test0");
    let mut shared: PciBusShared<u32> = PciBusShared::new();
    assert!(matches!(shared.plan(), Err(PciError::TopologyNotResolved)));
    let plan = || PciHostPlan {
        topology: topology(),
        ecam_start: 0xe000_0000,
        ecam_end: 0xe010_0000,
    };
    let ecam = (0xe000_0000, 0x10_0000);
    let memory = (APERTURE_BASE, APERTURE_SIZE);
    assert_eq!(
        shared.build_host(ecam, memory, 7, false),
        Err(DeviceManagerError::Pci(PciError::TopologyNotResolved))
    );
    shared.publish_plan(plan()).unwrap();
    assert_eq!(
        shared.publish_plan(plan()),
        Err(PciError::TopologyAlreadyResolved)
    );
    assert!(matches!(
        shared.build_host((0xe000_0000, 0x20_0000), memory, 7, false),
        Err(DeviceManagerError::InvalidState { .. })
    ));
    assert!(matches!(
        shared.root_lock(&function, true),
        Err(PciError::HostUnavailable { .. })
    ));
    shared.build_host(ecam, memory, 7, false).unwrap();
    assert_eq!(shared.root_lock(&function, true), Ok(&7));
    assert_eq!(
        shared.build_host(ecam, memory, 8, true),
        Err(DeviceManagerError::Pci(PciError::HostAlreadyRegistered))
    );
    // The host is gone: endpoints find none, and another one can take its place.
    assert!(matches!(
        shared.root_lock(&function, false),
        Err(PciError::HostUnavailable { .. })
    ));
    shared.publish_root(8, false).unwrap();
    assert_eq!(shared.root_lock(&function, true), Ok(&8));
}
