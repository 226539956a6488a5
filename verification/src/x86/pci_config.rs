//! x86 PCI configuration mechanism #1 and the memory aperture.

use crate::access::{
    AccessWidth, BusKind, DeviceAccess, DeviceError, DeviceManagerResult, DeviceResult, ErrorDetail,
    Resource,
};
use crate::bytes::{le_decode, le_lane};
#[allow(unused_imports)]
use crate::bytes::{
    lane_scale, le_byte, le_bytes, le_value, lemma_lane_scale_values, lemma_le_byte_of_value,
    lemma_le_value_of_bytes,
};
#[allow(unused_imports)]
use crate::calls::{is_chain, lemma_chains_join};
use crate::pci::address::{ConfigOffset, PciBdf, PciSegment};
use crate::pci::binding::PciRootBinding;
use crate::pci::effect::PciConfigReadOutcome;
use crate::pci::endpoint::{AdmittedContext, DeviceContext, PciEndpointCallbacks, PciFunction};
#[allow(unused_imports)]
use crate::pci::error::PciError;
#[allow(unused_imports)]
use crate::pci::lifecycle::{not_running, BindingLifecycleState};
#[allow(unused_imports)]
use crate::pci::reset::is_lifecycle_reset;
use crate::pci::root::all_ones;
#[allow(unused_imports)]
use crate::pci::root::{admitted_token, plain_read_outcome};
use crate::pci::route::ConfigReadDispatch;
#[allow(unused_imports)]
use crate::pci::route::is_read_dispatch;
use crate::pci::routing::EndpointAdmissions;
#[allow(unused_imports)]
use crate::pci::routing::EndpointAdmission;
use vstd::prelude::*;

verus! {

/// Port of the address latch.
pub const CONFIG_ADDRESS_PORT: u16 = 0xcf8;

/// First port of the data window.
pub const CONFIG_DATA_PORT: u16 = 0xcfc;

/// Enable bit of the address latch.
pub const CONFIG_ADDRESS_ENABLE: u32 = 0x8000_0000;

/// One access to the data window under an enabled latch.
#[derive(Clone, Copy, Debug, PartialEq, Eq, Structural)]
pub struct ConfigWindow {
    /// Selected function.
    pub bdf: PciBdf,
    /// Config offset of the first byte.
    pub register: ConfigOffset,
    /// Offset of the first byte in the window.
    pub data_offset: usize,
    /// Number of bytes.
    pub size: usize,
    /// Width of the access.
    pub width: AccessWidth,
}

impl ConfigWindow {
    /// The access lies in the window and in the configuration space.
    pub open spec fn wf(self) -> bool {
        &&& self.size == self.width.bytes()
        &&& self.width != AccessWidth::Qword
        &&& self.data_offset + self.size <= 4
        &&& self.register.0 + self.size <= 256
        &&& self.register.0 as int % 4 == self.data_offset
    }

    /// Whether the access is naturally aligned, so that it goes through whole.
    pub open spec fn is_aligned(self) -> bool {
        self.data_offset as int % self.size as int == 0
    }
}

/// One part of a data-window write.
#[derive(Clone, Copy, Debug, PartialEq, Eq, Structural)]
pub struct WindowPart {
    /// Register that the part writes.
    pub register: ConfigOffset,
    /// Width of the part.
    pub width: AccessWidth,
    /// Value of the part.
    pub value: u64,
}

impl ConfigWindow {
    /// Returns one part of a write of `value`: the access itself if it is aligned, else one of its
    /// bytes.
    pub fn part(&self, value: u64, index: usize) -> (part: WindowPart)
        requires
            self.wf(),
            index < self.size,
        ensures
            part == (if self.is_aligned() {
                WindowPart { register: self.register, width: self.width, value }
            } else {
                WindowPart {
                    register: ConfigOffset((self.register.0 + index) as u16),
                    width: AccessWidth::Byte,
                    value: le_byte(value as nat, index as nat) as u64,
                }
            }),
    {
        if self.data_offset % self.size == 0 {
            WindowPart { register: self.register, width: self.width, value }
        } else {
            WindowPart {
                register: ConfigOffset(self.register.0 + index as u16),
                width: AccessWidth::Byte,
                value: le_lane(value, index) as u64,
            }
        }
    }
}

/// A port read: answered by the latch, or one of the data window.
#[derive(Clone, Copy, Debug, PartialEq, Eq, Structural)]
pub enum ConfigPortRead {
    /// This is the value.
    Value(u64),
    /// The configuration space has the value.
    Window(ConfigWindow),
}

/// A port write: taken by the latch or dropped, or one of the data window.
#[derive(Clone, Copy, Debug, PartialEq, Eq, Structural)]
pub enum ConfigPortWrite {
    /// Nothing is left to do.
    Complete,
    /// The configuration space takes the value.
    Window(ConfigWindow),
}

/// What the latch and the data offset select: nothing while the latch is
/// disabled, else the function in bits 23..8 and the register in bits 7..2.
pub open spec fn selected(address: u32, data_offset: int) -> Option<(PciBdf, ConfigOffset)> {
    if address < CONFIG_ADDRESS_ENABLE {
        None
    } else {
        Some(
            (
                PciBdf {
                    segment: PciSegment(0),
                    bus: (address / 0x1_0000 % 256) as u8,
                    device: (address / 0x800 % 32) as u8,
                    function: (address / 0x100 % 8) as u8,
                },
                ConfigOffset((address % 256 / 4 * 4 + data_offset) as u16),
            ),
        )
    }
}

/// The port and size of an access, or why it is none to a config port.
pub open spec fn decoded_access(access: DeviceAccess) -> DeviceResult<(u16, usize)> {
    if access.bus != BusKind::Port {
        Err(DeviceError::OutOfRange { addr: access.address })
    } else if access.width == AccessWidth::Qword {
        Err(
            DeviceError::Unsupported {
                operation: "access x86 PCI configuration port",
                detail: ErrorDetail::Text("CF8/CFC supports byte, word, and dword accesses only"),
            },
        )
    } else if access.address > 0xffff {
        Err(DeviceError::OutOfRange { addr: access.address })
    } else {
        Ok((access.address as u16, access.width.bytes() as usize))
    }
}

/// Whether `result` is what a data-window access comes to: `None` while the latch
/// is disabled, an error where the access leaves the window, else the window.
pub open spec fn is_window_access(
    address: u32,
    port: u16,
    width: AccessWidth,
    result: DeviceResult<Option<ConfigWindow>>,
) -> bool {
    let data_offset = port - CONFIG_DATA_PORT;
    match selected(address, data_offset) {
        None => result == Ok::<Option<ConfigWindow>, DeviceError>(None),
        Some(selection) => if data_offset + width.bytes() > 4 {
            result == Err::<Option<ConfigWindow>, DeviceError>(
                DeviceError::OutOfRange { addr: port as u64 },
            )
        } else {
            result == Ok::<Option<ConfigWindow>, DeviceError>(
                Some(
                    ConfigWindow {
                        bdf: selection.0,
                        register: selection.1,
                        data_offset: data_offset as usize,
                        size: width.bytes() as usize,
                        width,
                    },
                ),
            )
        },
    }
}

/// CF8/CFC frontend that only decodes x86 port accesses.
#[derive(Debug)]
pub struct X86PciConfigFrontend {
    /// Address latch.
    pub address: u32,
}

impl X86PciConfigFrontend {
    /// Creates a frontend with a disabled latch.
    pub fn new() -> (frontend: Self)
        ensures
            frontend.address == 0,
    {
        X86PciConfigFrontend { address: 0 }
    }

    /// Returns the ports that the frontend claims.
    pub fn resources(&self) -> (resources: Vec<Resource>)
        ensures
            resources@ == seq![Resource::PortRange { base: CONFIG_ADDRESS_PORT, size: 8 }],
    {
        let mut resources: Vec<Resource> = Vec::new();
        resources.push(Resource::PortRange { base: CONFIG_ADDRESS_PORT, size: 8 });
        resources
    }

    /// Returns port and size of an access to the configuration ports.
    pub fn decode_access(access: &DeviceAccess) -> (result: DeviceResult<(u16, usize)>)
        ensures
            result == decoded_access(*access),
            result matches Ok(decoded) ==> decoded.0 == access.address && decoded.1
                == access.width.bytes(),
    {
        if access.bus != BusKind::Port {
            return Err(DeviceError::OutOfRange { addr: access.address });
        }
        if access.width == AccessWidth::Qword {
            return Err(
                DeviceError::Unsupported {
                    operation: "access x86 PCI configuration port",
                    detail: ErrorDetail::Text(
                        "CF8/CFC supports byte, word, and dword accesses only",
                    ),
                },
            );
        }
        if access.address > 0xffff {
            return Err(DeviceError::OutOfRange { addr: access.address });
        }
        Ok((access.address as u16, access.width.size()))
    }

    /// Classifies one data-port access against the latched address.
    ///
    /// Returns `Ok(None)` for a disabled enable bit (PCI-compatible
    /// absent-function behavior), and a structured [`DeviceError::OutOfRange`]
    /// when the access leaves the 4-byte data window.
    pub fn selection(&self, port: u16, width: AccessWidth) -> (result: DeviceResult<
        Option<ConfigWindow>,
    >)
        requires
            CONFIG_DATA_PORT <= port < CONFIG_DATA_PORT + 4,
            width != AccessWidth::Qword,
        ensures
            is_window_access(self.address, port, width, result),
            result matches Ok(Some(window)) ==> window.wf(),
    {
        let address: u32 = self.address;
        if address < CONFIG_ADDRESS_ENABLE {
            return Ok(None);
        }
        let data_offset: usize = (port - CONFIG_DATA_PORT) as usize;
        let size: usize = width.size();
        if data_offset + size > 4 {
            return Err(DeviceError::OutOfRange { addr: port as u64 });
        }
        let bdf = PciBdf {
            segment: PciSegment(0),
            bus: (address / 0x1_0000 % 256) as u8,
            device: (address / 0x800 % 32) as u8,
            function: (address / 0x100 % 8) as u8,
        };
        let register = ConfigOffset((address % 256 / 4 * 4) as u16 + data_offset as u16);
        Ok(Some(ConfigWindow { bdf, register, data_offset, size, width }))
    }

    /// Whether `result` is what a port read comes to.
    pub open spec fn is_port_read(
        self,
        access: DeviceAccess,
        result: DeviceResult<ConfigPortRead>,
    ) -> bool {
        match decoded_access(access) {
            Err(error) => result == Err::<ConfigPortRead, DeviceError>(error),
            Ok((port, size)) => if CONFIG_ADDRESS_PORT <= port < CONFIG_DATA_PORT {
                let offset = port - CONFIG_ADDRESS_PORT;
                if offset + size > 4 {
                    result == Err::<ConfigPortRead, DeviceError>(
                        DeviceError::OutOfRange { addr: access.address },
                    )
                } else {
                    result == Ok::<ConfigPortRead, DeviceError>(
                        ConfigPortRead::Value(
                            le_value(
                                le_bytes(self.address as nat, 4).subrange(offset, offset + size),
                            ) as u64,
                        ),
                    )
                }
            } else if CONFIG_DATA_PORT <= port < CONFIG_DATA_PORT + 4 {
                exists|window: DeviceResult<Option<ConfigWindow>>|
                    #[trigger] is_window_access(self.address, port, access.width, window)
                        && result == (match window {
                        Err(error) => Err::<ConfigPortRead, DeviceError>(error),
                        Ok(None) => Ok(ConfigPortRead::Value((lane_scale(size as nat) - 1) as u64)),
                        Ok(Some(window)) => Ok(ConfigPortRead::Window(window)),
                    })
            } else {
                result == Err::<ConfigPortRead, DeviceError>(
                    DeviceError::OutOfRange { addr: access.address },
                )
            },
        }
    }

    /// Decodes one port read.
    ///
    /// # Errors
    ///
    /// Returns [`DeviceError::Unsupported`] for a qword access, and
    /// [`DeviceError::OutOfRange`] for one outside the eight ports or across
    /// the edge of the latch or the window.
    pub fn decode_read(&self, access: &DeviceAccess) -> (result: DeviceResult<ConfigPortRead>)
        ensures
            self.is_port_read(*access, result),
            result matches Ok(ConfigPortRead::Window(window)) ==> window.wf() && window.width
                == access.width,
    {
        let (port, size) = match X86PciConfigFrontend::decode_access(access) {
            Ok(decoded) => decoded,
            Err(error) => {
                return Err(error);
            },
        };
        if CONFIG_ADDRESS_PORT <= port && port < CONFIG_DATA_PORT {
            let offset: usize = (port - CONFIG_ADDRESS_PORT) as usize;
            if offset + size > 4 {
                return Err(DeviceError::OutOfRange { addr: access.address });
            }
            let bytes = latch_bytes(self.address);
            return Ok(ConfigPortRead::Value(le_decode(bytes.as_slice(), offset, size)));
        }
        if CONFIG_DATA_PORT <= port && port < CONFIG_DATA_PORT + 4 {
            let window = self.selection(port, access.width);
            assert(is_window_access(self.address, port, access.width, window));
            return match window {
                Err(error) => Err(error),
                Ok(None) => Ok(ConfigPortRead::Value(all_ones(size))),
                Ok(Some(window)) => Ok(ConfigPortRead::Window(window)),
            };
        }
        Err(DeviceError::OutOfRange { addr: access.address })
    }

    /// The latch after the low `size` bytes of `value` are written at `offset`.
    pub open spec fn latch_written(address: u32, offset: int, size: int, value: u64) -> nat {
        crate::pci::config::merged_dword(address as nat, offset, size, value)
    }

    /// Whether `result` is what a port write comes to, and `after` the latch.
    pub open spec fn is_port_write(
        self,
        after: u32,
        access: DeviceAccess,
        value: u64,
        result: DeviceResult<ConfigPortWrite>,
    ) -> bool {
        match decoded_access(access) {
            Err(error) => result == Err::<ConfigPortWrite, DeviceError>(error) && after
                == self.address,
            Ok((port, size)) => if CONFIG_ADDRESS_PORT <= port < CONFIG_DATA_PORT {
                let offset = port - CONFIG_ADDRESS_PORT;
                if offset + size > 4 {
                    result == Err::<ConfigPortWrite, DeviceError>(
                        DeviceError::OutOfRange { addr: access.address },
                    ) && after == self.address
                } else {
                    result == Ok::<ConfigPortWrite, DeviceError>(ConfigPortWrite::Complete) && after
                        == X86PciConfigFrontend::latch_written(
                        self.address,
                        offset,
                        size as int,
                        value,
                    )
                }
            } else if CONFIG_DATA_PORT <= port < CONFIG_DATA_PORT + 4 {
                &&& after == self.address
                &&& exists|window: DeviceResult<Option<ConfigWindow>>|
                    #[trigger] is_window_access(self.address, port, access.width, window)
                        && result == (match window {
                        Err(error) => Err::<ConfigPortWrite, DeviceError>(error),
                        Ok(None) => Ok(ConfigPortWrite::Complete),
                        Ok(Some(window)) => Ok(ConfigPortWrite::Window(window)),
                    })
            } else {
                result == Err::<ConfigPortWrite, DeviceError>(
                    DeviceError::OutOfRange { addr: access.address },
                ) && after == self.address
            },
        }
    }

    /// Decodes one port write, and applies it where the latch takes it.
    ///
    /// # Errors
    ///
    /// As [`X86PciConfigFrontend::decode_read`].
    pub fn decode_write(&mut self, access: &DeviceAccess, value: u64) -> (result: DeviceResult<
        ConfigPortWrite,
    >)
        ensures
            old(self).is_port_write(final(self).address, *access, value, result),
            result matches Ok(ConfigPortWrite::Window(window)) ==> window.wf() && window.width
                == access.width,
    {
        let (port, size) = match X86PciConfigFrontend::decode_access(access) {
            Ok(decoded) => decoded,
            Err(error) => {
                return Err(error);
            },
        };
        if CONFIG_ADDRESS_PORT <= port && port < CONFIG_DATA_PORT {
            let offset: usize = (port - CONFIG_ADDRESS_PORT) as usize;
            if offset + size > 4 {
                return Err(DeviceError::OutOfRange { addr: access.address });
            }
            let mut bytes = latch_bytes(self.address);
            write_bytes(&mut bytes, offset, size, value);
            proof {
                assert(bytes@.subrange(0, 4) =~= Seq::new(
                    4,
                    |i: int|
                        if offset <= i < offset + size {
                            le_byte(value as nat, (i - offset) as nat)
                        } else {
                            le_byte(self.address as nat, i as nat)
                        },
                ));
                lemma_lane_scale_values();
            }
            self.address = le_decode(bytes.as_slice(), 0, 4) as u32;
            return Ok(ConfigPortWrite::Complete);
        }
        if CONFIG_DATA_PORT <= port && port < CONFIG_DATA_PORT + 4 {
            let window = self.selection(port, access.width);
            assert(is_window_access(self.address, port, access.width, window));
            return match window {
                Err(error) => Err(error),
                Ok(None) => Ok(ConfigPortWrite::Complete),
                Ok(Some(window)) => Ok(ConfigPortWrite::Window(window)),
            };
        }
        Err(DeviceError::OutOfRange { addr: access.address })
    }
}

/// Returns the four bytes of the latch.
fn latch_bytes(address: u32) -> (bytes: Vec<u8>)
    ensures
        bytes@ == le_bytes(address as nat, 4),
{
    let mut bytes: Vec<u8> = Vec::new();
    bytes.push(le_lane(address as u64, 0));
    bytes.push(le_lane(address as u64, 1));
    bytes.push(le_lane(address as u64, 2));
    bytes.push(le_lane(address as u64, 3));
    assert(bytes@ =~= le_bytes(address as nat, 4));
    bytes
}

/// Stores the low `size` bytes of `value` at `offset`.
fn write_bytes(bytes: &mut Vec<u8>, offset: usize, size: usize, value: u64)
    requires
        offset + size <= old(bytes)@.len(),
    ensures
        final(bytes)@ == Seq::new(
            old(bytes)@.len(),
            |i: int|
                if offset <= i < offset + size {
                    le_byte(value as nat, (i - offset) as nat)
                } else {
                    old(bytes)@[i]
                },
        ),
{
    let length: usize = bytes.len();
    let mut i: usize = 0;
    while i < size
        invariant
            i <= size,
            offset + size <= length,
            length == old(bytes)@.len(),
            bytes@.len() == length,
            forall|j: int|
                #![trigger bytes@[j]]
                0 <= j < length ==> bytes@[j] == (if offset <= j < offset + i {
                    le_byte(value as nat, (j - offset) as nat)
                } else {
                    old(bytes)@[j]
                }),
        decreases size - i,
    {
        bytes.set(offset + i, le_lane(value, i));
        i = i + 1;
    }
}

/// The error for an unaligned access that meets an endpoint-owned region.
pub open spec fn unaligned_effect() -> DeviceError {
    DeviceError::InvalidInput {
        operation: "access x86 PCI configuration",
        detail: ErrorDetail::Text("an unaligned access cannot partially cover a config effect"),
    }
}

/// Whether an access meets an endpoint-owned region of the selected function.
pub open spec fn window_meets_effect<F>(binding: PciRootBinding<F>, window: ConfigWindow) -> bool {
    exists|i: int|
        #![trigger binding.root.functions@[i]]
        0 <= i < binding.root.functions@.len() && binding.root.functions@[i].bdf == window.bdf
            && binding.root.functions@[i].meets_config_effect(
            window.register.0 as int,
            window.size as int,
        )
}

/// Whether `outcome` is what the root makes of the bytes of an unaligned read.
pub open spec fn is_lane_read<F>(
    binding: PciRootBinding<F>,
    admissions: EndpointAdmissions,
    window: ConfigWindow,
    outcome: Result<PciConfigReadOutcome, PciError>,
) -> bool {
    &&& outcome is Ok
    &&& binding.root.is_absent(window.bdf) ==> outcome->Ok_0 == PciConfigReadOutcome::Value(
        (lane_scale(window.width.bytes()) - 1) as u64,
    )
    &&& forall|i: int|
        #![trigger binding.root.functions@[i]]
        0 <= i < binding.root.functions@.len() && binding.root.functions@[i].bdf == window.bdf
            ==> outcome->Ok_0 == plain_read_outcome(
            binding.root.functions@[i],
            admitted_token(binding.root.bindings@[i], admissions),
            window.register.0 as int,
            window.width,
        )
}

/// Returns whether an access meets an endpoint-owned region.
fn check_window_effect<F>(binding: &PciRootBinding<F>, window: ConfigWindow) -> (result:
    DeviceResult<()>)
    requires
        binding.root.wf(),
        window.wf(),
    ensures
        result == (if window_meets_effect(*binding, window) {
            Err::<(), DeviceError>(unaligned_effect())
        } else {
            Ok(())
        }),
{
    match binding.config_access_intersects_effect(window.bdf, window.register, window.width) {
        Err(error) => Err(error),
        Ok(meets) => {
            if meets {
                Err(
                    DeviceError::InvalidInput {
                        operation: "access x86 PCI configuration",
                        detail: ErrorDetail::Text(
                            "an unaligned access cannot partially cover a config effect",
                        ),
                    },
                )
            } else {
                Ok(())
            }
        },
    }
}

/// Returns how many parts a data-window write has, each of which is one config write.
///
/// # Errors
///
/// Returns [`DeviceError::InvalidInput`] for an unaligned access that meets an
/// endpoint-owned region.
pub fn window_write_parts<F>(binding: &PciRootBinding<F>, window: ConfigWindow) -> (parts:
    DeviceResult<usize>)
    requires
        binding.root.wf(),
        window.wf(),
    ensures
        parts == (if window.is_aligned() {
            Ok::<usize, DeviceError>(1)
        } else if window_meets_effect(*binding, window) {
            Err(unaligned_effect())
        } else {
            Ok(window.size)
        }),
{
    if window.data_offset % window.size == 0 {
        return Ok(1);
    }
    match check_window_effect(binding, window) {
        Err(error) => Err(error),
        Ok(()) => Ok(window.size),
    }
}

/// Whether `calls` are what a data-window read asks of its context, and it comes to `result`: as one
/// config read if it is aligned, an error if it meets an endpoint-owned region, else from the
/// bytes.
pub open spec fn is_window_read<F: PciEndpointCallbacks<C, AdmittedContext>, C: DeviceContext>(
    calls: Seq<&mut C>,
    binding: PciRootBinding<F>,
    admissions: EndpointAdmissions,
    window: ConfigWindow,
    result: DeviceResult<u64>,
) -> bool {
    exists|during: EndpointAdmissions, routed: DeviceResult<ConfigReadDispatch>|
        #[trigger] is_window_dispatch(binding, admissions, during, window, routed) && match routed {
            Err(error) => result == Err::<u64, DeviceError>(error) && calls.len() == 0,
            Ok(dispatch) => binding.answers_config_read(calls, during, dispatch, result),
        }
}

/// Whether a data-window read reaches an endpoint, is answered by the root, or is refused.
pub open spec fn is_window_dispatch<F>(
    binding: PciRootBinding<F>,
    before: EndpointAdmissions,
    after: EndpointAdmissions,
    window: ConfigWindow,
    routed: DeviceResult<ConfigReadDispatch>,
) -> bool {
    if !window.is_aligned() && window_meets_effect(binding, window) {
        routed == Err::<ConfigReadDispatch, DeviceError>(unaligned_effect()) && after == before
    } else {
        exists|outcome: Result<PciConfigReadOutcome, PciError>|
            #[trigger] is_window_outcome(binding, before, window, outcome) && is_read_dispatch(
                binding.router,
                before,
                after,
                outcome,
                routed,
            )
    }
}

/// Whether `outcome` is what the root makes of a data-window read.
pub open spec fn is_window_outcome<F>(
    binding: PciRootBinding<F>,
    admissions: EndpointAdmissions,
    window: ConfigWindow,
    outcome: Result<PciConfigReadOutcome, PciError>,
) -> bool {
    if window.is_aligned() {
        binding.is_root_read(admissions, window.bdf, window.register, window.width, outcome)
    } else {
        is_lane_read(binding, admissions, window, outcome)
    }
}

/// Reads the bytes of an unaligned access, up to what an endpoint has to say.
fn route_lane_read<F>(
    binding: &PciRootBinding<F>,
    window: ConfigWindow,
    admissions: &mut EndpointAdmissions,
) -> (result: DeviceResult<ConfigReadDispatch>)
    requires
        binding.wf(*old(admissions)),
        window.wf(),
        !window_meets_effect(*binding, window),
    ensures
        binding.wf(*final(admissions)),
        exists|outcome: Result<PciConfigReadOutcome, PciError>|
            #[trigger] is_lane_read(*binding, *old(admissions), window, outcome)
                && is_read_dispatch(
                binding.router,
                *old(admissions),
                *final(admissions),
                outcome,
                result,
            ),
{
    let outcome = binding.root.prepare_lane_read(
        window.bdf,
        window.register,
        window.width,
        admissions,
    );
    assert(is_lane_read(
        *binding,
        *old(admissions),
        window,
        Ok::<PciConfigReadOutcome, PciError>(outcome),
    ));
    match outcome {
        PciConfigReadOutcome::DynamicStatus { token, command, value, interrupt_status_mask } => {
            match binding.router.lease(&token, command.bus_master_enable, admissions) {
                Ok(routed) => Ok(
                    ConfigReadDispatch::Status { routed, value, interrupt_status_mask },
                ),
                Err(error) => Err(error),
            }
        },
        PciConfigReadOutcome::Value(value) => Ok(ConfigReadDispatch::Value(value)),
        PciConfigReadOutcome::Effect { token, command, effect } => {
            match binding.router.lease(&token, command.bus_master_enable, admissions) {
                Ok(routed) => Ok(ConfigReadDispatch::Effect { routed, effect }),
                Err(error) => Err(error),
            }
        },
    }
}

/// Reads one data-window access up to what an endpoint has to say; an unaligned one is split into
/// its bytes, as real bridges do.
///
/// # Errors
///
/// Returns [`DeviceError::InvalidInput`] for an unaligned access that meets an
/// endpoint-owned region, else as [`PciRootBinding::route_read_config`].
pub fn route_window_read<F>(
    binding: &PciRootBinding<F>,
    window: ConfigWindow,
    admissions: &mut EndpointAdmissions,
) -> (result: DeviceResult<ConfigReadDispatch>)
    requires
        binding.wf(*old(admissions)),
        window.wf(),
    ensures
        binding.wf(*final(admissions)),
        is_window_dispatch(*binding, *old(admissions), *final(admissions), window, result),
{
    if window.data_offset % window.size != 0 {
        if let Err(error) = check_window_effect(binding, window) {
            return Err(error);
        }
        let result = route_lane_read(binding, window, admissions);
        assert forall|outcome: Result<PciConfigReadOutcome, PciError>| #[trigger]
            is_lane_read(*binding, *old(admissions), window, outcome) implies is_window_outcome(
            *binding,
            *old(admissions),
            window,
            outcome,
        ) by {}
        return result;
    }
    let result = binding.route_read_config(
        window.bdf,
        window.register,
        window.width,
        admissions,
    );
    assert forall|outcome: Result<PciConfigReadOutcome, PciError>| #[trigger]
        binding.is_root_read(
            *old(admissions),
            window.bdf,
            window.register,
            window.width,
            outcome,
        ) implies is_window_outcome(*binding, *old(admissions), window, outcome) by {}
    result
}

/// Reads one data-window access; an unaligned one is split into its bytes.
///
/// # Errors
///
/// As [`route_window_read`]; else the error of the context or of the endpoint.
pub fn read_data_window<F: PciEndpointCallbacks<C, AdmittedContext>, C: DeviceContext>(
    binding: &PciRootBinding<F>,
    window: ConfigWindow,
    admissions: &mut EndpointAdmissions,
    context: &mut C,
) -> (result: DeviceResult<u64>)
    requires
        binding.wf(*old(admissions)),
        window.wf(),
    ensures
        final(admissions).entries@ == old(admissions).entries@,
        exists|calls: Seq<&mut C>, states: Seq<C>|
            {
                &&& #[trigger] is_chain(calls, states)
                &&& states.first() == *old(context)
                &&& states.last() == *final(context)
                &&& forall|i: int|
                    0 <= i < calls.len() ==> *final(#[trigger] calls[i]) == states[i + 1]
                &&& is_window_read(calls, *binding, *old(admissions), window, result)
            },
{
    assert(is_chain(Seq::<&mut C>::empty(), seq![*context]));
    let routed = route_window_read(binding, window, admissions);
    let ghost during = *admissions;
    let ghost handed = routed;
    let result = match routed {
        Err(error) => Err(error),
        Ok(dispatch) => binding.complete_read_config(dispatch, admissions, context),
    };
    assert(is_window_dispatch(*binding, *old(admissions), during, window, handed));
    assert(admissions.entries@ =~= old(admissions).entries@);
    result
}

/// Whether writing the first `count` bytes of an unaligned access, one by one up
/// to the first error, turns `before` into `after`, makes `calls` of its context, and comes to
/// `result`.
pub open spec fn are_lane_writes<F: PciEndpointCallbacks<C, AdmittedContext>, C: DeviceContext>(
    calls: Seq<&mut C>,
    before: PciRootBinding<F>,
    after: PciRootBinding<F>,
    admissions: Seq<EndpointAdmission>,
    window: ConfigWindow,
    value: u64,
    count: nat,
    result: DeviceResult<()>,
) -> bool
    decreases count,
{
    if count == 0 {
        after == before && result == Ok::<(), DeviceError>(()) && calls.len() == 0
    } else {
        exists|cut: int, middle: PciRootBinding<F>, earlier: DeviceResult<()>|
            0 <= cut <= calls.len() && #[trigger] is_lane_step(
                calls.skip(cut),
                middle,
                after,
                admissions,
                window,
                value,
                (count - 1) as nat,
                earlier,
                result,
            ) && are_lane_writes(
                calls.take(cut),
                before,
                middle,
                admissions,
                window,
                value,
                (count - 1) as nat,
                earlier,
            )
    }
}

/// Whether the next byte of an unaligned access turns `before` into `after`, makes `calls` of its
/// context, and comes to `result`: an earlier error stays, else the byte is written.
pub open spec fn is_lane_step<F: PciEndpointCallbacks<C, AdmittedContext>, C: DeviceContext>(
    calls: Seq<&mut C>,
    before: PciRootBinding<F>,
    after: PciRootBinding<F>,
    admissions: Seq<EndpointAdmission>,
    window: ConfigWindow,
    value: u64,
    lane: nat,
    earlier: DeviceResult<()>,
    result: DeviceResult<()>,
) -> bool {
    match earlier {
        Err(error) => after == before && result == Err::<(), DeviceError>(error) && calls.len()
            == 0,
        Ok(()) => is_lane_write(calls, before, after, admissions, window, value, lane, result),
    }
}

/// Whether writing one byte of an unaligned access turns `before` into `after`, makes `calls` of
/// its context, and comes to `result`.
pub open spec fn is_lane_write<F: PciEndpointCallbacks<C, AdmittedContext>, C: DeviceContext>(
    calls: Seq<&mut C>,
    before: PciRootBinding<F>,
    after: PciRootBinding<F>,
    admissions: Seq<EndpointAdmission>,
    window: ConfigWindow,
    value: u64,
    lane: nat,
    result: DeviceResult<()>,
) -> bool {
    exists|table: EndpointAdmissions|
        #[trigger] before.is_config_write(
            calls,
            after.root,
            table,
            window.bdf,
            ConfigOffset((window.register.0 + lane) as u16),
            AccessWidth::Byte,
            le_byte(value as nat, lane) as u64,
            result,
        ) && table.entries@ == admissions && after == (PciRootBinding {
            root: after.root,
            ..before
        })
}

/// Whether a data-window write turns `before` into `after`, makes `calls` of its context, and comes
/// to `result`: as one config write if it is aligned, an error if it meets an
/// endpoint-owned region, else byte by byte.
pub open spec fn is_window_write<F: PciEndpointCallbacks<C, AdmittedContext>, C: DeviceContext>(
    calls: Seq<&mut C>,
    before: PciRootBinding<F>,
    after: PciRootBinding<F>,
    admissions: EndpointAdmissions,
    window: ConfigWindow,
    value: u64,
    result: DeviceResult<()>,
) -> bool {
    if window.is_aligned() {
        before.is_config_write(
            calls,
            after.root,
            admissions,
            window.bdf,
            window.register,
            window.width,
            value,
            result,
        )
    } else if window_meets_effect(before, window) {
        result == Err::<(), DeviceError>(unaligned_effect()) && after == before && calls.len() == 0
    } else {
        are_lane_writes(
            calls,
            before,
            after,
            admissions.entries@,
            window,
            value,
            window.size as nat,
            result,
        )
    }
}

/// Writes one data-window access; an unaligned one byte by byte, up to the first
/// error.
///
/// # Errors
///
/// Returns [`DeviceError::InvalidInput`] for an unaligned access that meets an
/// endpoint-owned region, else as [`PciRootBinding::write_config_with_context`].
pub fn write_data_window<F: PciEndpointCallbacks<C, AdmittedContext>, C: DeviceContext>(
    binding: &mut PciRootBinding<F>,
    window: ConfigWindow,
    value: u64,
    admissions: &mut EndpointAdmissions,
    context: &mut C,
) -> (result: DeviceResult<()>)
    requires
        old(binding).wf(*old(admissions)),
        window.wf(),
    ensures
        final(binding).wf(*final(admissions)),
        *final(binding) == (PciRootBinding { root: final(binding).root, ..*old(binding) }),
        final(admissions).entries@ == old(admissions).entries@,
        exists|calls: Seq<&mut C>, states: Seq<C>|
            {
                &&& #[trigger] is_chain(calls, states)
                &&& states.first() == *old(context)
                &&& states.last() == *final(context)
                &&& forall|i: int|
                    0 <= i < calls.len() ==> *final(#[trigger] calls[i]) == states[i + 1]
                &&& is_window_write(
                    calls,
                    *old(binding),
                    *final(binding),
                    *old(admissions),
                    window,
                    value,
                    result,
                )
            },
{
    assert(is_chain(Seq::<&mut C>::empty(), seq![*context]));
    let parts: usize = match window_write_parts(binding, window) {
        Ok(parts) => parts,
        Err(error) => {
            return Err(error);
        },
    };
    if window.data_offset % window.size == 0 {
        let whole = window.part(value, 0);
        return binding.write_config_with_context(
            window.bdf,
            whole.register,
            whole.width,
            whole.value,
            admissions,
            context,
        );
    }
    let mut result: DeviceResult<()> = Ok(());
    let mut index: usize = 0;
    while index < parts
        invariant
            index <= parts == window.size,
            window.wf(),
            !window.is_aligned(),
            binding.wf(*admissions),
            *binding == (PciRootBinding { root: binding.root, ..*old(binding) }),
            admissions.entries@ == old(admissions).entries@,
            exists|calls: Seq<&mut C>, states: Seq<C>|
                {
                    &&& #[trigger] is_chain(calls, states)
                    &&& states.first() == *old(context)
                    &&& states.last() == *context
                    &&& forall|i: int|
                        0 <= i < calls.len() ==> *final(#[trigger] calls[i]) == states[i + 1]
                    &&& are_lane_writes(
                        calls,
                        *old(binding),
                        *binding,
                        old(admissions).entries@,
                        window,
                        value,
                        index as nat,
                        result,
                    )
                },
        decreases parts - index,
    {
        let ghost middle = *binding;
        let ghost earlier = result;
        let ghost table = *admissions;
        let ghost before = *context;
        if result.is_ok() {
            let part = window.part(value, index);
            result =
            binding.write_config_with_context(
                window.bdf,
                part.register,
                part.width,
                part.value,
                admissions,
                context,
            );
        }
        proof {
            let (calls, states) = choose|calls: Seq<&mut C>, states: Seq<C>|
                {
                    &&& #[trigger] is_chain(calls, states)
                    &&& states.first() == *old(context)
                    &&& states.last() == before
                    &&& forall|i: int|
                        0 <= i < calls.len() ==> *final(#[trigger] calls[i]) == states[i + 1]
                    &&& are_lane_writes(
                        calls,
                        *old(binding),
                        middle,
                        old(admissions).entries@,
                        window,
                        value,
                        index as nat,
                        earlier,
                    )
                };
            if earlier is Ok {
                let (added, reached) = choose|added: Seq<&mut C>, reached: Seq<C>|
                    {
                        &&& #[trigger] is_chain(added, reached)
                        &&& reached.first() == before
                        &&& reached.last() == *context
                        &&& forall|i: int|
                            0 <= i < added.len() ==> *final(#[trigger] added[i]) == reached[i + 1]
                        &&& middle.is_config_write(
                            added,
                            binding.root,
                            table,
                            window.bdf,
                            ConfigOffset((window.register.0 + index) as u16),
                            AccessWidth::Byte,
                            le_byte(value as nat, index as nat) as u64,
                            result,
                        )
                    };
                let joined = calls + added;
                let run = states + reached.drop_first();
                lemma_chains_join(calls, states, added, reached);
                assert(joined.take(calls.len() as int) =~= calls);
                assert(joined.skip(calls.len() as int) =~= added);
                assert forall|i: int| 0 <= i < joined.len() implies *final(#[trigger] joined[i])
                    == run[i + 1] by {
                    if i < calls.len() {
                        assert(joined[i] == calls[i]);
                    } else {
                        assert(joined[i] == added[i - calls.len()]);
                    }
                }
                assert(is_lane_step(
                    joined.skip(calls.len() as int),
                    middle,
                    *binding,
                    old(admissions).entries@,
                    window,
                    value,
                    ((index + 1) as nat - 1) as nat,
                    earlier,
                    result,
                ));
            } else {
                assert(calls.take(calls.len() as int) =~= calls);
                assert(is_lane_step(
                    calls.skip(calls.len() as int),
                    middle,
                    *binding,
                    old(admissions).entries@,
                    window,
                    value,
                    ((index + 1) as nat - 1) as nat,
                    earlier,
                    result,
                ));
            }
        }
        index = index + 1;
    }
    result
}

impl X86PciConfigFrontend {
    /// Reads a config port: the latch, or the register that it selects.
    ///
    /// # Errors
    ///
    /// As [`X86PciConfigFrontend::decode_read`] and [`read_data_window`].
    pub fn read<F: PciEndpointCallbacks<C, AdmittedContext>, C: DeviceContext>(
        &self,
        access: &DeviceAccess,
        binding: &PciRootBinding<F>,
        admissions: &mut EndpointAdmissions,
        context: &mut C,
    ) -> (result: DeviceResult<u64>)
        requires
            binding.wf(*old(admissions)),
        ensures
            final(admissions).entries@ == old(admissions).entries@,
            exists|decoded: DeviceResult<ConfigPortRead>, calls: Seq<&mut C>, states: Seq<C>|
                {
                    &&& #[trigger] is_chain(calls, states)
                    &&& states.first() == *old(context)
                    &&& states.last() == *final(context)
                    &&& forall|i: int|
                        0 <= i < calls.len() ==> *final(#[trigger] calls[i]) == states[i + 1]
                    &&& #[trigger] self.is_port_read(*access, decoded)
                    &&& match decoded {
                        Err(error) => result == Err::<u64, DeviceError>(error) && calls.len() == 0,
                        Ok(ConfigPortRead::Value(value)) => result == Ok::<u64, DeviceError>(value)
                            && calls.len() == 0,
                        Ok(ConfigPortRead::Window(window)) => is_window_read(
                            calls,
                            *binding,
                            *old(admissions),
                            window,
                            result,
                        ),
                    }
                },
    {
        assert(is_chain(Seq::<&mut C>::empty(), seq![*context]));
        let decoded = self.decode_read(access);
        let ghost handed = decoded;
        let result = match decoded {
            Err(error) => Err(error),
            Ok(ConfigPortRead::Value(value)) => Ok(value),
            Ok(ConfigPortRead::Window(window)) => read_data_window(
                binding,
                window,
                admissions,
                context,
            ),
        };
        assert(self.is_port_read(*access, handed));
        result
    }

    /// Writes a config port: the latch, or the register that it selects.
    ///
    /// # Errors
    ///
    /// As [`X86PciConfigFrontend::decode_write`] and [`write_data_window`].
    pub fn write<F: PciEndpointCallbacks<C, AdmittedContext>, C: DeviceContext>(
        &mut self,
        access: &DeviceAccess,
        value: u64,
        binding: &mut PciRootBinding<F>,
        admissions: &mut EndpointAdmissions,
        context: &mut C,
    ) -> (result: DeviceResult<()>)
        requires
            old(binding).wf(*old(admissions)),
        ensures
            final(binding).wf(*final(admissions)),
            *final(binding) == (PciRootBinding { root: final(binding).root, ..*old(binding) }),
            final(admissions).entries@ == old(admissions).entries@,
            exists|decoded: DeviceResult<ConfigPortWrite>, calls: Seq<&mut C>, states: Seq<C>|
                {
                    &&& #[trigger] is_chain(calls, states)
                    &&& states.first() == *old(context)
                    &&& states.last() == *final(context)
                    &&& forall|i: int|
                        0 <= i < calls.len() ==> *final(#[trigger] calls[i]) == states[i + 1]
                    &&& #[trigger] old(self).is_port_write(
                        final(self).address,
                        *access,
                        value,
                        decoded,
                    )
                    &&& match decoded {
                        Err(error) => result == Err::<(), DeviceError>(error) && *final(binding)
                            == *old(binding) && calls.len() == 0,
                        Ok(ConfigPortWrite::Complete) => result == Ok::<(), DeviceError>(())
                            && *final(binding) == *old(binding) && calls.len() == 0,
                        Ok(ConfigPortWrite::Window(window)) => is_window_write(
                            calls,
                            *old(binding),
                            *final(binding),
                            *old(admissions),
                            window,
                            value,
                            result,
                        ),
                    }
                },
    {
        assert(is_chain(Seq::<&mut C>::empty(), seq![*context]));
        let decoded = self.decode_write(access, value);
        let ghost handed = decoded;
        let result = match decoded {
            Err(error) => Err(error),
            Ok(ConfigPortWrite::Complete) => Ok(()),
            Ok(ConfigPortWrite::Window(window)) => write_data_window(
                binding,
                window,
                value,
                admissions,
                context,
            ),
        };
        assert(old(self).is_port_write(self.address, *access, value, handed));
        result
    }
}

/// What a read of the aperture comes to: all ones where nobody answers.
pub open spec fn answered_read(width: AccessWidth, outcome: DeviceResult<u64>) -> DeviceResult<u64> {
    match outcome {
        Err(DeviceError::NotFound) => Ok::<u64, DeviceError>(
            (lane_scale(width.bytes()) - 1) as u64,
        ),
        outcome => outcome,
    }
}

/// What a write of the aperture comes to: dropped where nobody answers.
pub open spec fn answered_write(outcome: DeviceResult<()>) -> DeviceResult<()> {
    match outcome {
        Err(DeviceError::NotFound) => Ok::<(), DeviceError>(()),
        outcome => outcome,
    }
}

/// Single top-level MMIO device owning a PCI root's complete memory aperture.
#[derive(Clone, Copy, Debug, PartialEq, Eq, Structural)]
pub struct PciMemoryApertureDevice {
    /// First address of the aperture.
    pub base: u64,
    /// Size of the aperture.
    pub size: u64,
}

impl PciMemoryApertureDevice {
    /// Creates the aperture device from the resolved range.
    pub fn new(base: u64, size: u64) -> (device: Self)
        ensures
            device == (PciMemoryApertureDevice { base, size }),
    {
        PciMemoryApertureDevice { base, size }
    }

    /// Returns the range that the device claims.
    pub fn resources(&self) -> (resources: Vec<Resource>)
        ensures
            resources@ == seq![Resource::MmioRange { base: self.base, size: self.size }],
    {
        let mut resources: Vec<Resource> = Vec::new();
        resources.push(Resource::MmioRange { base: self.base, size: self.size });
        resources
    }

    /// Reads the aperture: the endpoint that serves the address answers, or nobody.
    ///
    /// # Errors
    ///
    /// Returns [`DeviceError::OutOfRange`] for an access on another bus, else as
    /// [`PciRootBinding::read_bar_with_context`], but for an address that nobody
    /// answers.
    pub fn read<F: PciEndpointCallbacks<C, AdmittedContext>, C: DeviceContext>(
        &self,
        access: &DeviceAccess,
        binding: &PciRootBinding<F>,
        admissions: &mut EndpointAdmissions,
        context: &mut C,
    ) -> (result: DeviceResult<u64>)
        requires
            binding.wf(*old(admissions)),
        ensures
            final(admissions).entries@ == old(admissions).entries@,
            access.bus != BusKind::Mmio ==> result == Err::<u64, DeviceError>(
                DeviceError::OutOfRange { addr: access.address },
            ) && *final(context) == *old(context),
            access.bus == BusKind::Mmio ==> exists|
                outcome: DeviceResult<u64>,
                calls: Seq<&mut C>,
                states: Seq<C>,
            |
                {
                    &&& #[trigger] is_chain(calls, states)
                    &&& states.first() == *old(context)
                    &&& states.last() == *final(context)
                    &&& forall|i: int|
                        0 <= i < calls.len() ==> *final(#[trigger] calls[i]) == states[i + 1]
                    &&& #[trigger] binding.is_bar_read(
                        calls,
                        *old(admissions),
                        access.address,
                        access.width,
                        outcome,
                    )
                    &&& result == answered_read(access.width, outcome)
                },
    {
        if let Err(error) = PciMemoryApertureDevice::check_bus(access) {
            return Err(error);
        }
        let outcome = binding.read_bar_with_context(
            access.address,
            access.width,
            admissions,
            context,
        );
        PciMemoryApertureDevice::complete_read(access.width, outcome)
    }

    /// Writes the aperture: the endpoint that serves the address answers, or nobody.
    ///
    /// # Errors
    ///
    /// As [`PciMemoryApertureDevice::read`].
    pub fn write<F: PciEndpointCallbacks<C, AdmittedContext>, C: DeviceContext>(
        &self,
        access: &DeviceAccess,
        value: u64,
        binding: &PciRootBinding<F>,
        admissions: &mut EndpointAdmissions,
        context: &mut C,
    ) -> (result: DeviceResult<()>)
        requires
            binding.wf(*old(admissions)),
        ensures
            final(admissions).entries@ == old(admissions).entries@,
            access.bus != BusKind::Mmio ==> result == Err::<(), DeviceError>(
                DeviceError::OutOfRange { addr: access.address },
            ) && *final(context) == *old(context),
            access.bus == BusKind::Mmio ==> exists|
                outcome: DeviceResult<()>,
                calls: Seq<&mut C>,
                states: Seq<C>,
            |
                {
                    &&& #[trigger] is_chain(calls, states)
                    &&& states.first() == *old(context)
                    &&& states.last() == *final(context)
                    &&& forall|i: int|
                        0 <= i < calls.len() ==> *final(#[trigger] calls[i]) == states[i + 1]
                    &&& #[trigger] binding.is_bar_write(
                        calls,
                        *old(admissions),
                        access.address,
                        access.width,
                        value,
                        outcome,
                    )
                    &&& result == answered_write(outcome)
                },
    {
        if let Err(error) = PciMemoryApertureDevice::check_bus(access) {
            return Err(error);
        }
        let outcome = binding.write_bar_with_context(
            access.address,
            access.width,
            value,
            admissions,
            context,
        );
        PciMemoryApertureDevice::complete_write(outcome)
    }

    /// Checks that an access is one to memory.
    ///
    /// # Errors
    ///
    /// Returns [`DeviceError::OutOfRange`] for an access on another bus.
    pub fn check_bus(access: &DeviceAccess) -> (result: DeviceResult<()>)
        ensures
            result == (if access.bus == BusKind::Mmio {
                Ok::<(), DeviceError>(())
            } else {
                Err(DeviceError::OutOfRange { addr: access.address })
            }),
    {
        if access.bus != BusKind::Mmio {
            return Err(DeviceError::OutOfRange { addr: access.address });
        }
        Ok(())
    }

    /// Completes a read: an address that nobody answers reads as all ones.
    pub fn complete_read(width: AccessWidth, outcome: DeviceResult<u64>) -> (result: DeviceResult<
        u64,
    >)
        ensures
            result == answered_read(width, outcome),
    {
        match outcome {
            Ok(value) => Ok(value),
            Err(DeviceError::NotFound) => Ok(all_ones(width.size())),
            Err(error) => Err(error),
        }
    }

    /// Completes a write: one to an address that nobody answers is dropped.
    pub fn complete_write(outcome: DeviceResult<()>) -> (result: DeviceResult<()>)
        ensures
            result == answered_write(outcome),
    {
        match outcome {
            Err(DeviceError::NotFound) => Ok(()),
            outcome => outcome,
        }
    }
}

/// Lifecycle adapter restoring the PCI root and all bound endpoint state.
#[derive(Clone, Copy, Debug, PartialEq, Eq, Structural)]
pub struct PciRootLifecycle {}

impl PciRootLifecycle {
    /// Creates a lifecycle adapter.
    pub fn new() -> (lifecycle: Self)
        ensures
            lifecycle == (PciRootLifecycle {  }),
    {
        PciRootLifecycle {  }
    }

    /// Resets the root and all bound endpoints.
    ///
    /// # Errors
    ///
    /// As [`PciRootBinding::reset_lifecycle`].
    pub fn reset<F: PciFunction>(
        &self,
        binding: &mut PciRootBinding<F>,
        admissions: &mut EndpointAdmissions,
    ) -> (result: DeviceManagerResult<()>)
        requires
            old(binding).wf(*old(admissions)),
        ensures
            final(binding).wf(*final(admissions)),
            old(binding).lifecycle.state == BindingLifecycleState::Running ==> exists|
                resets: Seq<Option<&mut F>>,
                withdrawals: Seq<Option<&mut F>>,
                told: Seq<F>,
                asked: Seq<Option<&mut F>>,
                withdrawn: Seq<F>,
            | {
                &&& #[trigger] is_lifecycle_reset(
                    resets,
                    withdrawals,
                    asked,
                    *old(binding),
                    *final(binding),
                    *old(admissions),
                    *final(admissions),
                    told,
                    withdrawn,
                    result,
                )
                &&& forall|k: int|
                    0 <= k < resets.len() && (#[trigger] resets[k]) is Some ==> *final(resets[k]->0)
                        == *(withdrawals[k]->0)
                &&& forall|k: int|
                    0 <= k < withdrawals.len() && (#[trigger] withdrawals[k]) is Some
                        ==> *final(withdrawals[k]->0) == told[k]
                &&& forall|k: int|
                    0 <= k < asked.len() && (#[trigger] asked[k]) is Some ==> *final(asked[k]->0)
                        == withdrawn[k]
            },
            old(binding).lifecycle.state != BindingLifecycleState::Running ==> {
                &&& result == Err::<(), _>(not_running("reset PCI root binding"))
                &&& *final(binding) == *old(binding)
                &&& *final(admissions) == *old(admissions)
            },
    {
        binding.reset_lifecycle(admissions)
    }

    /// Suspending leaves the root as it is.
    pub fn suspend(&self) -> (result: DeviceManagerResult<()>)
        ensures
            result is Ok,
    {
        Ok(())
    }

    /// Resuming leaves the root as it is.
    pub fn resume(&self) -> (result: DeviceManagerResult<()>)
        ensures
            result is Ok,
    {
        Ok(())
    }
}

/// What a write puts into the latch is what a read of the same lanes gives back, and the other
/// lanes keep what they held.
pub proof fn law_latch_reads_back(
    before: X86PciConfigFrontend,
    after: X86PciConfigFrontend,
    access: DeviceAccess,
    value: u64,
    read: DeviceResult<ConfigPortRead>,
)
    requires
        CONFIG_ADDRESS_PORT <= access.address < CONFIG_DATA_PORT,
        before.is_port_write(
            after.address,
            access,
            value,
            Ok::<ConfigPortWrite, DeviceError>(ConfigPortWrite::Complete),
        ),
        after.is_port_read(access, read),
    ensures
        read == Ok::<ConfigPortRead, DeviceError>(
            ConfigPortRead::Value((value as nat % lane_scale(access.width.bytes())) as u64),
        ),
        forall|lane: int|
            0 <= lane < 4 && !(0 <= lane - (access.address - CONFIG_ADDRESS_PORT)
                < access.width.bytes()) ==> #[trigger] le_byte(after.address as nat, lane as nat)
                == le_byte(before.address as nat, lane as nat),
{
    let offset = access.address - CONFIG_ADDRESS_PORT;
    let size = access.width.bytes();
    let merged = Seq::new(
        4,
        |i: int|
            if offset <= i < offset + size {
                le_byte(value as nat, (i - offset) as nat)
            } else {
                le_byte(before.address as nat, i as nat)
            },
    );
    assert(after.address == le_value(merged));
    assert forall|lane: int| 0 <= lane < 4 implies #[trigger] le_byte(
        after.address as nat,
        lane as nat,
    ) == merged[lane] by {
        lemma_le_byte_of_value(merged, lane as nat);
    }
    assert(le_bytes(after.address as nat, 4).subrange(offset, offset + size) =~= le_bytes(
        value as nat,
        size,
    ));
    lemma_le_value_of_bytes(value as nat, size);
}

/// A disabled latch selects nothing, whatever else it holds.
pub proof fn law_disabled_latch_selects_nothing(address: u32, data_offset: int)
    ensures
        address < CONFIG_ADDRESS_ENABLE ==> selected(address, data_offset) is None,
        address >= CONFIG_ADDRESS_ENABLE && 0 <= data_offset < 4 ==> (selected(
            address,
            data_offset,
        ) matches Some(selection) && selection.0.wf() && selection.1.wf()),
{
}

} // verus!
