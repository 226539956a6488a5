//! Guest memory that a device context reaches by a device's right to it.

use crate::access::DmaGrant;
#[allow(unused_imports)]
use crate::access::DeviceResult;
use crate::pci::endpoint::DeviceContext;
use crate::virtio::queue::{GuestMemory, VirtioError, VirtioResult};
use vstd::prelude::*;

verus! {

/// What an access to guest memory comes to, where the context says `said`.
pub open spec fn memory_result<T>(said: DeviceResult<T>) -> VirtioResult<T> {
    match said {
        Ok(value) => Ok(value),
        Err(_) => Err(VirtioError::InvalidQueueLayout),
    }
}

/// Guest memory for the length of one callback.
pub struct DeviceContextMemory<'a, C> {
    /// Context of the callback.
    pub context: &'a mut C,
    /// Right that every access is made by.
    pub grant: DmaGrant,
}

impl<'a, C> DeviceContextMemory<'a, C> {
    /// Reaches the memory of a context by the right of `grant`.
    pub fn new(context: &'a mut C, grant: &DmaGrant) -> (memory: DeviceContextMemory<'a, C>)
        ensures
            *memory.context == *old(context),
            *final(memory.context) == *final(context),
            memory.grant == *grant,
    {
        DeviceContextMemory { context, grant: *grant }
    }
}

impl<'a, C: DeviceContext> GuestMemory for DeviceContextMemory<'a, C> {
    fn read(&mut self, address: u64, length: usize) -> (result: VirtioResult<Vec<u8>>)
        ensures
            final(self).grant == old(self).grant,
            *final(final(self).context) == *final(old(self).context),
            exists|call: &mut C, said: DeviceResult<Vec<u8>>|
                {
                    &&& #[trigger] call_ensures(
                        C::read_guest_memory,
                        (call, &old(self).grant, address, length),
                        said,
                    )
                    &&& *call == *old(self).context
                    &&& *final(call) == *final(self).context
                    &&& result == memory_result(said)
                },
    {
        match self.context.read_guest_memory(&self.grant, address, length) {
            Ok(bytes) => Ok(bytes),
            Err(_) => Err(VirtioError::InvalidQueueLayout),
        }
    }

    fn write(&mut self, address: u64, bytes: Vec<u8>) -> (result: VirtioResult<()>)
        ensures
            final(self).grant == old(self).grant,
            *final(final(self).context) == *final(old(self).context),
            exists|call: &mut C, said: DeviceResult<()>|
                {
                    &&& #[trigger] call_ensures(
                        C::write_guest_memory,
                        (call, &old(self).grant, address, bytes),
                        said,
                    )
                    &&& *call == *old(self).context
                    &&& *final(call) == *final(self).context
                    &&& result == memory_result(said)
                },
    {
        match self.context.write_guest_memory(&self.grant, address, bytes) {
            Ok(written) => Ok(written),
            Err(_) => Err(VirtioError::InvalidQueueLayout),
        }
    }
}

} // verus!
