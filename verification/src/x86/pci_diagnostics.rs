//! Which accesses to the PCI configuration ports and to the memory aperture are reported.
//!
//! Accesses are counted, and the first of each kind are reported together with those whose number
//! is a power of two. Configuration accesses to one endpoint are all reported.

use crate::access::{BusKind, DeviceAccess, DeviceResult};
use crate::x86::exit::{count_up, power_of_two};
#[allow(unused_imports)]
use crate::x86::exit::{counted, is_power_of_two, is_reported};
use crate::x86::pci_config::{
    ConfigPortRead, ConfigPortWrite, ConfigWindow, X86PciConfigFrontend, CONFIG_ADDRESS_PORT,
    CONFIG_DATA_PORT,
};
#[allow(unused_imports)]
use crate::x86::pci_config::decoded_access;
use vstd::prelude::*;

verus! {

/// Number of accesses of each kind that are all reported.
pub const ACCESS_SAMPLE_LIMIT: u64 = 128;

/// Device number of the endpoint whose configuration accesses are all reported.
pub const REPORTED_DEVICE: u8 = 1;

/// Function number of the endpoint whose configuration accesses are all reported.
pub const REPORTED_FUNCTION: u8 = 0;

/// The number of an access, if it is reported.
pub open spec fn sampled(number: u64) -> Option<u64> {
    if is_reported(number, ACCESS_SAMPLE_LIMIT) {
        Some(number)
    } else {
        None
    }
}

/// Counts one access. Returns its number if it is reported.
pub fn sample(count: &mut u64) -> (report: Option<u64>)
    ensures
        *final(count) == counted(*old(count)),
        report == (if *final(count) <= 128 || is_power_of_two(*final(count) as nat) {
            Some(*final(count))
        } else {
            None
        }),
        report == sampled(*final(count)),
{
    *count = count_up(*count);
    if *count <= ACCESS_SAMPLE_LIMIT || power_of_two(*count) {
        Some(*count)
    } else {
        None
    }
}

/// What is reported of one configuration port access.
#[derive(Clone, Copy, Debug, PartialEq, Eq, Structural)]
pub struct ConfigPortReport {
    /// Number of the access among those of its kind, if the access is a sample.
    pub sample: Option<u64>,
    /// The access, if it is one to the endpoint whose accesses are all reported.
    pub endpoint: Option<ConfigWindow>,
}

/// What an access that is not reported leaves.
pub open spec fn no_report() -> ConfigPortReport {
    ConfigPortReport { sample: None, endpoint: None }
}

/// The fields of the configuration address latch.
#[derive(Clone, Copy, Debug, PartialEq, Eq, Structural)]
pub struct LatchFields {
    /// Whether data accesses reach a function.
    pub enabled: bool,
    /// Selected bus.
    pub bus: u8,
    /// Selected device.
    pub device: u8,
    /// Selected function.
    pub function: u8,
    /// Selected register, aligned to four bytes.
    pub register: u8,
}

impl LatchFields {
    /// Takes the latch apart.
    pub fn of(address: u32) -> (fields: Self)
        ensures
            fields == (LatchFields {
                enabled: address >= 0x8000_0000,
                bus: (address / 0x1_0000 % 256) as u8,
                device: (address / 0x800 % 32) as u8,
                function: (address / 0x100 % 8) as u8,
                register: (address % 256 / 4 * 4) as u8,
            }),
    {
        LatchFields {
            enabled: address >= 0x8000_0000,
            bus: (address / 0x1_0000 % 256) as u8,
            device: (address / 0x800 % 32) as u8,
            function: (address / 0x100 % 8) as u8,
            register: (address % 256 / 4 * 4) as u8,
        }
    }
}

/// Whether an access goes to the address latch.
pub open spec fn is_latch_access(access: DeviceAccess) -> bool {
    decoded_access(access) matches Ok(decoded) && CONFIG_ADDRESS_PORT <= decoded.0
        < CONFIG_DATA_PORT
}

/// Whether an access goes to the data window.
pub open spec fn is_data_access(access: DeviceAccess) -> bool {
    decoded_access(access) matches Ok(decoded) && CONFIG_DATA_PORT <= decoded.0 < CONFIG_DATA_PORT
        + 4
}

/// Whether a data-window access goes to the endpoint whose accesses are all reported.
pub open spec fn is_reported_endpoint(window: ConfigWindow) -> bool {
    window.bdf.device == REPORTED_DEVICE && window.bdf.function == REPORTED_FUNCTION
}

/// Returns a data-window access if it goes to the endpoint whose accesses are all reported.
fn reported_endpoint(window: ConfigWindow) -> (endpoint: Option<ConfigWindow>)
    ensures
        endpoint == (if is_reported_endpoint(window) {
            Some(window)
        } else {
            None
        }),
{
    if window.bdf.device == REPORTED_DEVICE && window.bdf.function == REPORTED_FUNCTION {
        Some(window)
    } else {
        None
    }
}

/// Counters of the accesses to the configuration ports.
#[derive(Clone, Copy, Debug, PartialEq, Eq, Structural)]
pub struct ConfigPortCounters {
    /// Writes that the latch took.
    pub address_writes: u64,
    /// Reads of the data window.
    pub data_reads: u64,
    /// Writes of the data window.
    pub data_writes: u64,
}

impl ConfigPortCounters {
    /// Creates counters that have counted nothing.
    pub fn new() -> (counters: Self)
        ensures
            counters == (ConfigPortCounters { address_writes: 0, data_reads: 0, data_writes: 0 }),
    {
        ConfigPortCounters { address_writes: 0, data_reads: 0, data_writes: 0 }
    }

    /// The counters after a port read.
    pub open spec fn after_read(self, access: DeviceAccess) -> ConfigPortCounters {
        if is_data_access(access) {
            ConfigPortCounters { data_reads: counted(self.data_reads), ..self }
        } else {
            self
        }
    }

    /// What is reported of a port read that decodes to `decoded`: nothing of one that is refused.
    pub open spec fn read_report(
        self,
        access: DeviceAccess,
        decoded: DeviceResult<ConfigPortRead>,
    ) -> ConfigPortReport {
        if !is_data_access(access) || decoded is Err {
            no_report()
        } else {
            ConfigPortReport {
                sample: sampled(counted(self.data_reads)),
                endpoint: match decoded {
                    Ok(ConfigPortRead::Window(window)) if is_reported_endpoint(window) => Some(
                        window,
                    ),
                    _ => None,
                },
            }
        }
    }

    /// Counts a port read that decodes to `decoded`. Says what is reported of it, once it is
    /// answered.
    pub fn note_read(&mut self, access: &DeviceAccess, decoded: &DeviceResult<ConfigPortRead>) -> (
        report: ConfigPortReport)
        ensures
            *final(self) == old(self).after_read(*access),
            report == old(self).read_report(*access, *decoded),
    {
        let port: u16 = match X86PciConfigFrontend::decode_access(access) {
            Ok(place) => place.0,
            Err(_) => {
                return ConfigPortReport { sample: None, endpoint: None };
            },
        };
        if port < CONFIG_DATA_PORT || port >= CONFIG_DATA_PORT + 4 {
            return ConfigPortReport { sample: None, endpoint: None };
        }
        let sample = sample(&mut self.data_reads);
        match decoded {
            Err(_) => ConfigPortReport { sample: None, endpoint: None },
            Ok(ConfigPortRead::Value(_)) => ConfigPortReport { sample, endpoint: None },
            Ok(ConfigPortRead::Window(window)) => ConfigPortReport {
                sample,
                endpoint: reported_endpoint(*window),
            },
        }
    }

    /// The counters after a port write that decodes to `decoded`: the latch counts what it takes,
    /// the data window every access.
    pub open spec fn after_write(
        self,
        access: DeviceAccess,
        decoded: DeviceResult<ConfigPortWrite>,
    ) -> ConfigPortCounters {
        if is_latch_access(access) && decoded is Ok {
            ConfigPortCounters { address_writes: counted(self.address_writes), ..self }
        } else if is_data_access(access) {
            ConfigPortCounters { data_writes: counted(self.data_writes), ..self }
        } else {
            self
        }
    }

    /// What is reported of a port write that decodes to `decoded`: nothing of one that is refused.
    pub open spec fn write_report(
        self,
        access: DeviceAccess,
        decoded: DeviceResult<ConfigPortWrite>,
    ) -> ConfigPortReport {
        if decoded is Err {
            no_report()
        } else if is_latch_access(access) {
            ConfigPortReport { sample: sampled(counted(self.address_writes)), endpoint: None }
        } else if is_data_access(access) {
            ConfigPortReport {
                sample: sampled(counted(self.data_writes)),
                endpoint: match decoded {
                    Ok(ConfigPortWrite::Window(window)) if is_reported_endpoint(window) => Some(
                        window,
                    ),
                    _ => None,
                },
            }
        } else {
            no_report()
        }
    }

    /// Counts a port write that decodes to `decoded`. Says what is reported of it: the sample before
    /// it is done, the endpoint access once it is answered.
    pub fn note_write(&mut self, access: &DeviceAccess, decoded: &DeviceResult<ConfigPortWrite>) -> (
        report: ConfigPortReport)
        ensures
            *final(self) == old(self).after_write(*access, *decoded),
            report == old(self).write_report(*access, *decoded),
    {
        let port: u16 = match X86PciConfigFrontend::decode_access(access) {
            Ok(place) => place.0,
            Err(_) => {
                return ConfigPortReport { sample: None, endpoint: None };
            },
        };
        if CONFIG_ADDRESS_PORT <= port && port < CONFIG_DATA_PORT {
            return match decoded {
                Err(_) => ConfigPortReport { sample: None, endpoint: None },
                Ok(_) => ConfigPortReport {
                    sample: sample(&mut self.address_writes),
                    endpoint: None,
                },
            };
        }
        if port < CONFIG_DATA_PORT || port >= CONFIG_DATA_PORT + 4 {
            return ConfigPortReport { sample: None, endpoint: None };
        }
        let sample = sample(&mut self.data_writes);
        match decoded {
            Err(_) => ConfigPortReport { sample: None, endpoint: None },
            Ok(ConfigPortWrite::Complete) => ConfigPortReport { sample, endpoint: None },
            Ok(ConfigPortWrite::Window(window)) => ConfigPortReport {
                sample,
                endpoint: reported_endpoint(*window),
            },
        }
    }
}

/// Counters of the accesses to the memory aperture.
#[derive(Clone, Copy, Debug, PartialEq, Eq, Structural)]
pub struct ApertureCounters {
    /// Reads of the aperture.
    pub reads: u64,
    /// Writes of the aperture.
    pub writes: u64,
}

impl ApertureCounters {
    /// Creates counters that have counted nothing.
    pub fn new() -> (counters: Self)
        ensures
            counters == (ApertureCounters { reads: 0, writes: 0 }),
    {
        ApertureCounters { reads: 0, writes: 0 }
    }

    /// Counts a read, unless it is one on another bus. Returns its number if it is reported.
    pub fn note_read(&mut self, access: &DeviceAccess) -> (report: Option<u64>)
        ensures
            access.bus != BusKind::Mmio ==> *final(self) == *old(self) && report is None,
            access.bus == BusKind::Mmio ==> *final(self) == (ApertureCounters {
                reads: counted(old(self).reads),
                ..*old(self)
            }) && report == sampled(counted(old(self).reads)),
    {
        if access.bus != BusKind::Mmio {
            return None;
        }
        sample(&mut self.reads)
    }

    /// Counts a write, unless it is one on another bus. Returns its number if it is reported.
    pub fn note_write(&mut self, access: &DeviceAccess) -> (report: Option<u64>)
        ensures
            access.bus != BusKind::Mmio ==> *final(self) == *old(self) && report is None,
            access.bus == BusKind::Mmio ==> *final(self) == (ApertureCounters {
                writes: counted(old(self).writes),
                ..*old(self)
            }) && report == sampled(counted(old(self).writes)),
    {
        if access.bus != BusKind::Mmio {
            return None;
        }
        sample(&mut self.writes)
    }
}

} // verus!
