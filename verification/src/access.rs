//! Widths, buses and errors shared by the device models.

use crate::pci::error::PciError;
use vstd::prelude::*;

verus! {

/// Width of one guest access to a device.
#[derive(Clone, Copy, Debug, PartialEq, Eq, Structural)]
pub enum AccessWidth {
    /// 8-bit access.
    Byte,
    /// 16-bit access.
    Word,
    /// 32-bit access.
    Dword,
    /// 64-bit access.
    Qword,
}

impl AccessWidth {
    /// Number of bytes that an access of this width covers.
    pub open spec fn bytes(self) -> nat {
        match self {
            AccessWidth::Byte => 1,
            AccessWidth::Word => 2,
            AccessWidth::Dword => 4,
            AccessWidth::Qword => 8,
        }
    }

    /// Returns the width in bytes.
    pub fn size(self) -> (size: usize)
        ensures
            size == self.bytes(),
    {
        match self {
            AccessWidth::Byte => 1,
            AccessWidth::Word => 2,
            AccessWidth::Dword => 4,
            AccessWidth::Qword => 8,
        }
    }
}

/// Identity of one device in the runtime.
#[derive(Clone, Copy, Debug, PartialEq, Eq, PartialOrd, Ord, Hash, Structural)]
pub struct DeviceId(pub u32);

impl DeviceId {
    /// Creates a device identity.
    pub fn new(value: u32) -> (id: Self)
        ensures
            id.0 == value,
    {
        DeviceId(value)
    }

    /// Returns the raw identity.
    pub fn as_u32(self) -> (value: u32)
        ensures
            value == self.0,
    {
        self.0
    }
}

/// Bus that an access arrives on.
#[derive(Clone, Copy, Debug, PartialEq, Eq, Structural)]
pub enum BusKind {
    /// Memory-mapped I/O.
    Mmio,
    /// Port I/O.
    Port,
    /// System registers.
    SystemRegister,
}

/// Right of one registered device to reach guest memory.
///
/// A route that leads to an endpoint is no substitute for it.
#[derive(Clone, Copy, Debug, PartialEq, Eq, Structural)]
pub struct DmaGrant {
    /// Device that the right was given to.
    pub device: DeviceId,
}

impl DmaGrant {
    /// Gives the right to a device.
    pub fn new(device: DeviceId) -> (grant: Self)
        ensures
            grant.device == device,
    {
        DmaGrant { device }
    }

    /// Returns the device that the right was given to.
    pub fn device_id(&self) -> (device: DeviceId)
        ensures
            device == self.device,
    {
        self.device
    }
}

/// Virtual processor that accesses a device.
#[derive(Clone, Copy, Debug, PartialEq, Eq, Structural)]
pub struct DeviceVcpuId(pub usize);

impl DeviceVcpuId {
    /// Names the virtual processor with the given number.
    pub fn new(id: usize) -> (vcpu: Self)
        ensures
            vcpu.0 == id,
    {
        DeviceVcpuId(id)
    }
}

/// One guest access to a device.
#[derive(Clone, Copy, Debug, PartialEq, Eq, Structural)]
pub struct DeviceAccess {
    /// Virtual processor that the access comes from.
    pub vcpu: DeviceVcpuId,
    /// Bus that the access arrives on.
    pub bus: BusKind,
    /// Address on that bus.
    pub address: u64,
    /// Width of the access.
    pub width: AccessWidth,
}

impl DeviceAccess {
    /// Describes one access.
    pub fn new(vcpu: DeviceVcpuId, bus: BusKind, address: u64, width: AccessWidth) -> (access: Self)
        ensures
            access == (DeviceAccess { vcpu, bus, address, width }),
    {
        DeviceAccess { vcpu, bus, address, width }
    }
}

/// A range that a device claims on a bus.
#[derive(Clone, Copy, Debug, PartialEq, Eq, Structural)]
#[allow(inconsistent_fields)]
pub enum Resource {
    /// Ports from `base` on.
    PortRange {
        /// First port.
        base: u16,
        /// Number of ports.
        size: u16,
    },
    /// Memory addresses from `base` on.
    MmioRange {
        /// First address.
        base: u64,
        /// Number of bytes.
        size: u64,
    },
}

/// What an error is about.
#[derive(Debug, PartialEq, Eq)]
pub enum ErrorDetail {
    /// A fixed explanation.
    Text(&'static str),
    /// A PCI error.
    Pci(PciError),
    /// What a backend reported.
    Message(String),
    /// The PCI root dispatches what arrives on this bus.
    DispatchedByPciRoot(BusKind),
}

/// Result of a device operation.
pub type DeviceResult<T> = Result<T, DeviceError>;

/// Why a device operation failed.
#[derive(Debug, PartialEq, Eq)]
pub enum DeviceError {
    /// No device answers.
    NotFound,
    /// The address is outside the device.
    OutOfRange {
        /// Rejected address.
        addr: u64,
    },
    /// The guest or the caller passed something unusable.
    InvalidInput {
        /// What was attempted.
        operation: &'static str,
        /// What went wrong.
        detail: ErrorDetail,
    },
    /// The device is in the wrong state.
    InvalidState {
        /// What was attempted.
        operation: &'static str,
        /// What went wrong.
        detail: ErrorDetail,
    },
    /// The device does not implement the operation.
    Unsupported {
        /// What was attempted.
        operation: &'static str,
        /// What went wrong.
        detail: ErrorDetail,
    },
    /// The guest programmed something unusable.
    InvalidData {
        /// What was attempted.
        operation: &'static str,
        /// What went wrong.
        detail: ErrorDetail,
    },
    /// The host backend failed.
    Backend {
        /// What was attempted.
        operation: &'static str,
        /// What went wrong.
        detail: ErrorDetail,
    },
    /// A host allocation failed.
    OutOfMemory {
        /// What was attempted.
        operation: &'static str,
    },
}

/// Result of a device-management operation.
pub type DeviceManagerResult<T> = Result<T, DeviceManagerError>;

/// Why a device-management operation failed.
#[derive(Debug, PartialEq, Eq)]
#[allow(inconsistent_fields)]
pub enum DeviceManagerError {
    /// The manager is in the wrong state.
    InvalidState {
        /// What was attempted.
        operation: &'static str,
        /// What went wrong.
        detail: &'static str,
    },
    /// A configured device cannot be used as asked.
    InvalidConfig {
        /// What was attempted.
        operation: &'static str,
        /// Graph identity of the device.
        function: DeviceNodeId,
        /// What went wrong.
        detail: ConfigFault,
    },
    /// A device already has what is asked for.
    ResourceConflict {
        /// What was attempted.
        operation: &'static str,
        /// The device.
        device: DeviceId,
    },
    /// There is no memory for a device.
    OutOfMemory {
        /// What was attempted.
        operation: &'static str,
    },
    /// A device failed.
    Device(DeviceError),
    /// PCI configuration failed.
    Pci(PciError),
}

/// What is wrong with a configured device.
#[derive(Clone, Copy, Debug, PartialEq, Eq, Structural)]
pub enum ConfigFault {
    /// An effect is advertised twice.
    DuplicateEffect(u16),
    /// An effect is advertised and not declared.
    UndeclaredEffect(u16),
    /// An effect is declared and not advertised.
    UnsupportedEffect(u16),
    /// The device claims bus ranges of its own.
    OrdinaryResources,
}

/// A resource that is asked for by value or left to the resolver.
#[derive(Clone, Copy, Debug, PartialEq, Eq, Structural)]
pub enum ResourceRequest<T> {
    /// Exactly this one.
    Fixed(T),
    /// Any free one.
    Auto,
}

/// Identity of one device in the machine's device graph.
#[derive(Debug, PartialEq, Eq)]
pub struct DeviceNodeId {
    /// Non-empty name.
    pub name: String,
}

impl View for DeviceNodeId {
    type V = Seq<char>;

    open spec fn view(&self) -> Seq<char> {
        self.name@
    }
}

impl DeviceNodeId {
    /// Creates a graph identity; the empty name is none.
    pub fn new(name: &str) -> (id: Option<DeviceNodeId>)
        ensures
            id is Some <==> name@.len() > 0,
            id matches Some(id) ==> id@ == name@,
    {
        if name.is_empty() {
            return None;
        }
        Some(DeviceNodeId { name: name.to_owned() })
    }

    /// Returns the name.
    pub fn as_str(&self) -> (name: &str)
        ensures
            name@ == self@,
    {
        self.name.as_str()
    }

    /// Returns whether both name the same node.
    pub fn same(&self, other: &DeviceNodeId) -> (result: bool)
        ensures
            result == (self@ == other@),
    {
        self.name == other.name
    }
}

/// Whether `first` comes before `second` in lexicographic order.
pub open spec fn bytes_before(first: Seq<u8>, second: Seq<u8>) -> bool
    decreases first.len(),
{
    if second.len() == 0 {
        false
    } else if first.len() == 0 {
        true
    } else if first[0] != second[0] {
        first[0] < second[0]
    } else {
        bytes_before(first.drop_first(), second.drop_first())
    }
}

/// Of two different byte strings one comes first.
proof fn lemma_bytes_before_total(first: Seq<u8>, second: Seq<u8>)
    ensures
        first == second || bytes_before(first, second) || bytes_before(second, first),
    decreases first.len(),
{
    if first.len() > 0 && second.len() > 0 && first[0] == second[0] {
        lemma_bytes_before_total(first.drop_first(), second.drop_first());
        if first.drop_first() == second.drop_first() {
            assert(first =~= seq![first[0]] + first.drop_first());
            assert(second =~= seq![second[0]] + second.drop_first());
        }
    } else if first.len() == 0 && second.len() == 0 {
        assert(first =~= second);
    }
}

/// The lexicographic order is transitive.
proof fn lemma_bytes_before_transitive(first: Seq<u8>, second: Seq<u8>, third: Seq<u8>)
    requires
        bytes_before(first, second),
        bytes_before(second, third),
    ensures
        bytes_before(first, third),
    decreases first.len(),
{
    if first.len() > 0 && first[0] == second[0] && second[0] == third[0] {
        lemma_bytes_before_transitive(
            first.drop_first(),
            second.drop_first(),
            third.drop_first(),
        );
    }
}

/// Whether name `first` comes before name `second`, by their UTF-8 bytes.
pub open spec fn name_before(first: Seq<char>, second: Seq<char>) -> bool {
    bytes_before(vstd::utf8::encode_utf8(first), vstd::utf8::encode_utf8(second))
}

/// Of two different names one comes first.
pub proof fn lemma_name_before_total(first: Seq<char>, second: Seq<char>)
    ensures
        first == second || name_before(first, second) || name_before(second, first),
{
    lemma_bytes_before_total(
        vstd::utf8::encode_utf8(first),
        vstd::utf8::encode_utf8(second),
    );
    vstd::utf8::encode_utf8_decode_utf8(first);
    vstd::utf8::encode_utf8_decode_utf8(second);
}

/// The order of names is transitive.
pub proof fn lemma_name_before_transitive(first: Seq<char>, second: Seq<char>, third: Seq<char>)
    requires
        name_before(first, second),
        name_before(second, third),
    ensures
        name_before(first, third),
{
    lemma_bytes_before_transitive(
        vstd::utf8::encode_utf8(first),
        vstd::utf8::encode_utf8(second),
        vstd::utf8::encode_utf8(third),
    );
}

impl DeviceNodeId {
    /// Returns whether this name comes before the other one.
    pub fn precedes(&self, other: &DeviceNodeId) -> (result: bool)
        ensures
            result == name_before(self@, other@),
    {
        let first = self.name.as_str().as_bytes();
        let second = other.name.as_str().as_bytes();
        let first_len: usize = first.len();
        let second_len: usize = second.len();
        let mut i: usize = 0;
        assert(first@.skip(0) =~= first@);
        assert(second@.skip(0) =~= second@);
        while i < first_len && i < second_len && first[i] == second[i]
            invariant
                i <= first_len == first@.len(),
                i <= second_len == second@.len(),
                bytes_before(first@, second@) == bytes_before(
                    first@.skip(i as int),
                    second@.skip(i as int),
                ),
            decreases first_len - i,
        {
            assert(first@.skip(i as int).drop_first() =~= first@.skip(i + 1));
            assert(second@.skip(i as int).drop_first() =~= second@.skip(i + 1));
            i = i + 1;
        }
        if i >= second_len {
            return false;
        }
        if i >= first_len {
            return true;
        }
        first[i] < second[i]
    }
}

impl Clone for DeviceNodeId {
    fn clone(&self) -> (id: DeviceNodeId)
        ensures
            id == *self,
    {
        DeviceNodeId { name: self.name.clone() }
    }
}

} // verus!
