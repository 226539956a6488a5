//! PCI function with nothing but a memory BAR, for tests of PCI enumeration.

use crate::access::{
    DeviceAccess, DeviceError, DeviceManagerError, DeviceManagerResult, DeviceResult, ErrorDetail,
    Resource,
};
#[allow(unused_imports)]
use crate::access::AccessWidth;
use crate::bytes::{le_decode, le_lane};
#[allow(unused_imports)]
use crate::bytes::{lane_scale, le_byte, le_bytes, le_value};
use crate::pci::address::PciBarIndex;
use crate::pci::bar::PciMemoryBar;
use crate::pci::effect::PciBarAccess;
use crate::pci::function::{PciClass, PciEndpointIdentity};
use crate::pci::graph::{PciFunctionRequirement, PciHostKey};
use vstd::prelude::*;

verus! {

/// Name of the model.
pub const MODEL: &'static str = "vpci-test";

/// Host that the function is attached to.
pub const HOST_KEY: &'static str = "x86-q35";

/// Slot of the BAR.
pub const BAR_INDEX: u8 = 2;

/// Size of the BAR.
pub const BAR_SIZE: usize = 0x1_0000;

/// Vendor of the function.
pub const VENDOR_ID: u16 = 0x1af4;

/// Device number of the function.
pub const DEVICE_ID: u16 = 0x1110;

/// What the function asks of the device graph: a place on the host, an identity and one BAR.
pub fn requirements() -> (result: DeviceManagerResult<PciFunctionRequirement>)
    ensures
        result matches Ok(requirement) && {
            &&& requirement.wf()
            &&& requirement.host@ == HOST_KEY@
            &&& requirement.identity == (PciEndpointIdentity {
                vendor_id: VENDOR_ID,
                device_id: DEVICE_ID,
                class: PciClass { base: 6, subclass: 0, programming_interface: 0 },
                revision: 0,
                subsystem_vendor_id: 0,
                subsystem_device_id: 0,
            })
            &&& requirement.bars@ == seq![
                PciMemoryBar {
                    index: PciBarIndex(BAR_INDEX),
                    size: BAR_SIZE as u64,
                    address: crate::access::ResourceRequest::Auto,
                },
            ]
        },
{
    let index = match PciBarIndex::new(BAR_INDEX) {
        Ok(index) => index,
        Err(error) => {
            return Err(DeviceManagerError::Pci(error));
        },
    };
    assert(0x1_0000u64 & 0xffff == 0) by (bit_vector);
    let bar = match PciMemoryBar::new(index, BAR_SIZE as u64) {
        Ok(bar) => bar,
        Err(error) => {
            return Err(DeviceManagerError::Pci(error));
        },
    };
    proof {
        reveal_strlit("x86-q35");
    }
    let host = match PciHostKey::new(HOST_KEY) {
        Ok(host) => host,
        Err(error) => {
            return Err(DeviceManagerError::Pci(error));
        },
    };
    let requirement = PciFunctionRequirement::new(
        host,
        PciEndpointIdentity::new(VENDOR_ID, DEVICE_ID, PciClass::new(0x06, 0x00, 0x00)),
    );
    match requirement.with_bar(bar) {
        Ok(requirement) => Ok(requirement),
        Err(error) => Err(DeviceManagerError::Pci(error)),
    }
}

/// The function: memory behind its BAR.
#[derive(Debug)]
pub struct VpciTestFunction {
    /// The memory.
    pub backing: Vec<u8>,
}

/// Whether an access lies inside the BAR.
pub open spec fn in_bar(access: PciBarAccess) -> bool {
    access.route.offset + access.route.width.bytes() <= BAR_SIZE
}

impl VpciTestFunction {
    /// The memory is as large as the BAR.
    pub open spec fn wf(self) -> bool {
        self.backing@.len() == BAR_SIZE
    }

    /// Creates a function whose memory is zero.
    ///
    /// # Errors
    ///
    /// Returns [`DeviceManagerError::OutOfMemory`] when there is no memory for the BAR, which is
    /// for the allocator to say.
    pub fn new() -> (result: DeviceManagerResult<VpciTestFunction>)
        ensures
            match result {
                Ok(function) => function.wf() && function.backing@ == Seq::new(
                    BAR_SIZE as nat,
                    |i: int| 0u8,
                ),
                Err(error) => error == (DeviceManagerError::OutOfMemory {
                    operation: "allocate vpci-test BAR backing",
                }),
            },
    {
        let mut backing: Vec<u8> = Vec::new();
        let reserved = backing.try_reserve(BAR_SIZE).is_ok();
        VpciTestFunction::with_backing(backing, reserved)
    }

    /// Creates a function whose memory is zero in `backing`, for which `reserved` says whether
    /// there is memory.
    pub fn with_backing(backing: Vec<u8>, reserved: bool) -> (result: DeviceManagerResult<
        VpciTestFunction,
    >)
        requires
            backing@.len() == 0,
        ensures
            reserved ==> (result matches Ok(function) && function.wf() && function.backing@
                == Seq::new(BAR_SIZE as nat, |i: int| 0u8)),
            !reserved ==> result == Err::<VpciTestFunction, _>(
                DeviceManagerError::OutOfMemory { operation: "allocate vpci-test BAR backing" },
            ),
    {
        if !reserved {
            return Err(
                DeviceManagerError::OutOfMemory { operation: "allocate vpci-test BAR backing" },
            );
        }
        let mut backing = backing;
        while backing.len() < BAR_SIZE
            invariant
                backing@ == Seq::new(backing@.len(), |i: int| 0u8),
                backing@.len() <= BAR_SIZE,
            decreases BAR_SIZE - backing@.len(),
        {
            backing.push(0);
            assert(backing@ =~= Seq::new(backing@.len(), |i: int| 0u8));
        }
        Ok(VpciTestFunction { backing })
    }

    /// Returns offset and size of an access inside the BAR.
    pub fn access_range(&self, access: PciBarAccess) -> (range: DeviceResult<(usize, usize)>)
        ensures
            range == (if in_bar(access) {
                Ok::<_, DeviceError>(
                    (access.route.offset as usize, access.route.width.bytes() as usize),
                )
            } else {
                Err(DeviceError::OutOfRange { addr: access.route.offset })
            }),
    {
        let offset: u64 = access.offset();
        let size: usize = access.width().size();
        if offset > BAR_SIZE as u64 || offset + size as u64 > BAR_SIZE as u64 {
            return Err(DeviceError::OutOfRange { addr: offset });
        }
        Ok((offset as usize, size))
    }

    /// Reads the BAR, least significant byte first.
    pub fn read_bar(&self, access: PciBarAccess) -> (value: DeviceResult<u64>)
        requires
            self.wf(),
        ensures
            value == (if in_bar(access) {
                Ok::<_, DeviceError>(
                    le_value(
                        self.backing@.subrange(
                            access.route.offset as int,
                            access.route.offset + access.route.width.bytes(),
                        ),
                    ) as u64,
                )
            } else {
                Err(DeviceError::OutOfRange { addr: access.route.offset })
            }),
    {
        match self.access_range(access) {
            Ok((offset, size)) => Ok(le_decode(self.backing.as_slice(), offset, size)),
            Err(error) => Err(error),
        }
    }

    /// Writes the BAR, least significant byte first.
    pub fn write_bar(&mut self, access: PciBarAccess, value: u64) -> (result: DeviceResult<()>)
        requires
            old(self).wf(),
        ensures
            final(self).wf(),
            result == (if in_bar(access) {
                Ok::<(), DeviceError>(())
            } else {
                Err(DeviceError::OutOfRange { addr: access.route.offset })
            }),
            final(self).backing@ == (if in_bar(access) {
                stored(
                    old(self).backing@,
                    access.route.offset as int,
                    access.route.width.bytes(),
                    value,
                )
            } else {
                old(self).backing@
            }),
    {
        let (offset, size) = match self.access_range(access) {
            Ok(range) => range,
            Err(error) => {
                return Err(error);
            },
        };
        let mut lane: usize = 0;
        while lane < size
            invariant
                lane <= size <= 8,
                offset + size <= BAR_SIZE,
                old(self).wf(),
                self.backing@ == stored(old(self).backing@, offset as int, lane as nat, value),
            decreases size - lane,
        {
            self.backing.set(offset + lane, le_lane(value, lane));
            lane = lane + 1;
            assert(self.backing@ =~= stored(
                old(self).backing@,
                offset as int,
                lane as nat,
                value,
            ));
        }
        Ok(())
    }
}

/// `bytes` with the low `size` bytes of `value` stored at `offset`.
pub open spec fn stored(bytes: Seq<u8>, offset: int, size: nat, value: u64) -> Seq<u8> {
    Seq::new(
        bytes.len(),
        |i: int|
            if offset <= i < offset + size {
                le_byte(value as nat, (i - offset) as nat)
            } else {
                bytes[i]
            },
    )
}

/// A read of what was written gives the value back, cut to the width of the access.
pub proof fn law_read_gives_back_write(bytes: Seq<u8>, offset: int, size: nat, value: u64)
    requires
        0 <= offset,
        offset + size <= bytes.len(),
    ensures
        le_value(stored(bytes, offset, size, value).subrange(offset, offset + size)) == value as nat
            % lane_scale(size),
{
    assert(stored(bytes, offset, size, value).subrange(offset, offset + size) =~= le_bytes(
        value as nat,
        size,
    ));
    crate::bytes::lemma_le_value_of_bytes(value as nat, size);
}

/// A write leaves the bytes around it alone.
pub proof fn law_write_keeps_other_bytes(
    bytes: Seq<u8>,
    offset: int,
    size: nat,
    value: u64,
    index: int,
)
    requires
        0 <= index < bytes.len(),
        index < offset || offset + size <= index,
    ensures
        stored(bytes, offset, size, value)[index] == bytes[index],
{
}

/// The error for an access that does not come through the PCI root.
pub open spec fn direct_access_error() -> DeviceError {
    DeviceError::Unsupported {
        operation: "access vpci-test endpoint device",
        detail: ErrorDetail::Text("direct access is routed through the PCI BAR"),
    }
}

impl VpciTestFunction {
    /// Returns the name of the device.
    pub fn name(&self) -> (name: &'static str)
        ensures
            name == MODEL,
    {
        MODEL
    }

    /// Returns the bus ranges that the device claims of its own: none.
    pub fn resources(&self) -> (resources: Vec<Resource>)
        ensures
            resources@.len() == 0,
    {
        Vec::new()
    }

    /// Refuses a read that does not come through the PCI root.
    pub fn read(&self, _access: &DeviceAccess) -> (result: DeviceResult<u64>)
        ensures
            result == Err::<u64, _>(direct_access_error()),
    {
        Err(
            DeviceError::Unsupported {
                operation: "access vpci-test endpoint device",
                detail: ErrorDetail::Text("direct access is routed through the PCI BAR"),
            },
        )
    }

    /// Refuses a write that does not come through the PCI root.
    pub fn write(&self, _access: &DeviceAccess, _value: u64) -> (result: DeviceResult<()>)
        ensures
            result == Err::<(), _>(direct_access_error()),
    {
        Err(
            DeviceError::Unsupported {
                operation: "access vpci-test endpoint device",
                detail: ErrorDetail::Text("direct access is routed through the PCI BAR"),
            },
        )
    }
}

/// What is written into the BAR is read back from the same place, as far as the access covers it,
/// and other bytes keep what they held; an access that leaves the 0x10000 bytes is refused and changes
/// nothing.
pub proof fn law_bar_reads_back(
    function: &mut VpciTestFunction,
    after: VpciTestFunction,
    access: PciBarAccess,
    value: u64,
    written: DeviceResult<()>,
    read: DeviceResult<u64>,
    index: int,
)
    requires
        old(function).wf(),
        call_ensures(VpciTestFunction::write_bar, (function, access, value), written),
        after == *final(function),
        call_ensures(VpciTestFunction::read_bar, (&after, access), read),
    ensures
        ({
            let size = match access.route.width {
                AccessWidth::Byte => 1int,
                AccessWidth::Word => 2,
                AccessWidth::Dword => 4,
                AccessWidth::Qword => 8,
            };
            let inside = access.route.offset + size <= 0x1_0000;
            &&& written is Ok <==> inside
            &&& read is Ok <==> inside
            &&& !inside ==> after.backing@ == old(function).backing@ && read == Err::<u64, _>(
                DeviceError::OutOfRange { addr: access.route.offset },
            )
            &&& inside && access.route.width is Byte ==> read->Ok_0 == value % 0x100
            &&& inside && access.route.width is Word ==> read->Ok_0 == value % 0x1_0000
            &&& inside && access.route.width is Dword ==> read->Ok_0 == value % 0x1_0000_0000
            &&& inside && access.route.width is Qword ==> read->Ok_0 == value
            &&& inside ==> after.backing@[access.route.offset as int] == value % 0x100
            &&& 0 <= index < 0x1_0000 && !(access.route.offset <= index < access.route.offset
                + size) ==> after.backing@[index] == old(function).backing@[index]
        }),
{
    let offset = access.route.offset as int;
    let size = access.route.width.bytes();
    crate::bytes::lemma_lane_scale_values();
    if in_bar(access) {
        law_read_gives_back_write(old(function).backing@, offset, size, value);
        assert(after.backing@[offset] == le_byte(value as nat, 0));
        if access.route.width is Qword {
            vstd::arithmetic::div_mod::lemma_small_mod(value as nat, lane_scale(8));
        }
    }
}

/// The function asks for a 64 KiB BAR in slot 2, under the IDs 1af4 and 1110 of a host bridge.
pub proof fn law_test_function_identity(requirement: PciFunctionRequirement)
    requires
        call_ensures(requirements, (), Ok(requirement)),
    ensures
        requirement.identity.vendor_id == 0x1af4,
        requirement.identity.device_id == 0x1110,
        requirement.identity.class.base == 6,
        requirement.identity.class.subclass == 0,
        requirement.bars@.len() == 1,
        requirement.bars@[0].index.0 == 2,
        requirement.bars@[0].size == 0x1_0000,
        requirement.bars@[0].address is Auto,
        requirement.host@ == "x86-q35"@,
{
}

} // verus!
