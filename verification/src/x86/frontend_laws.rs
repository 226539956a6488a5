//! What the guest finds behind the configuration ports, from the port to the function.

#[allow(unused_imports)]
use crate::access::{AccessWidth, DeviceAccess, DeviceError, DeviceResult};
#[allow(unused_imports)]
use crate::calls::is_chain;
#[allow(unused_imports)]
use crate::pci::binding::PciRootBinding;
#[allow(unused_imports)]
use crate::pci::effect::PciConfigReadOutcome;
#[allow(unused_imports)]
use crate::pci::effect_laws::lemma_header_has_no_effect;
#[allow(unused_imports)]
use crate::pci::endpoint::{AdmittedContext, DeviceContext, PciEndpointCallbacks};
#[allow(unused_imports)]
use crate::pci::error::PciError;
#[allow(unused_imports)]
use crate::pci::root_laws::dword_of;
#[allow(unused_imports)]
use crate::pci::route::{is_read_dispatch, ConfigReadDispatch};
#[allow(unused_imports)]
use crate::pci::routing::EndpointAdmissions;
#[allow(unused_imports)]
use crate::x86::pci_config::{
    is_window_access, is_window_dispatch, is_window_outcome, is_window_read, selected,
    ConfigPortRead, ConfigWindow, X86PciConfigFrontend,
};
use vstd::prelude::*;

verus! {

/// Whether the address that the latch holds names function `owner`: the bus in bits 16 to 23,
/// the device in bits 11 to 15, the function in bits 8 to 10, all of segment 0.
pub open spec fn names<F>(latch: u32, binding: PciRootBinding<F>, owner: int) -> bool {
    let bdf = binding.root.functions@[owner].bdf;
    &&& bdf.segment.0 == 0
    &&& bdf.bus == latch as int / 0x1_0000 % 0x100
    &&& bdf.device == latch as int / 0x800 % 0x20
    &&& bdf.function == latch as int / 0x100 % 8
}

/// What a doubleword read of the data port with an enabled latch comes to.
proof fn lemma_data_read<F: PciEndpointCallbacks<C, AdmittedContext>, C: DeviceContext>(
    frontend: X86PciConfigFrontend,
    access: DeviceAccess,
    binding: PciRootBinding<F>,
    admissions: &mut EndpointAdmissions,
    context: &mut C,
    result: DeviceResult<u64>,
)
    requires
        call_ensures(
            X86PciConfigFrontend::read::<F, C>,
            (&frontend, &access, &binding, admissions, context),
            result,
        ),
        frontend.address >= 0x8000_0000,
        access.bus is Port,
        access.address == 0xcfc,
        access.width is Dword,
    ensures
        ({
            let bdf = (selected(frontend.address, 0)->0).0;
            let register = (selected(frontend.address, 0)->0).1;
            exists|outcome: Result<PciConfigReadOutcome, PciError>|
                {
                    &&& #[trigger] binding.is_root_read(
                        *old(admissions),
                        bdf,
                        register,
                        AccessWidth::Dword,
                        outcome,
                    )
                    &&& outcome matches Ok(PciConfigReadOutcome::Value(value)) ==> result == Ok::<
                        u64,
                        DeviceError,
                    >(value) && *final(context) == *old(context)
                }
        }),
{
    let (decoded, calls, states) = choose|
        decoded: DeviceResult<ConfigPortRead>,
        calls: Seq<&mut C>,
        states: Seq<C>,
    |
        {
            &&& #[trigger] is_chain(calls, states)
            &&& states.first() == *old(context)
            &&& states.last() == *final(context)
            &&& #[trigger] frontend.is_port_read(access, decoded)
            &&& match decoded {
                Err(error) => result == Err::<u64, DeviceError>(error) && calls.len() == 0,
                Ok(ConfigPortRead::Value(value)) => result == Ok::<u64, DeviceError>(value)
                    && calls.len() == 0,
                Ok(ConfigPortRead::Window(window)) => is_window_read(
                    calls,
                    binding,
                    *old(admissions),
                    window,
                    result,
                ),
            }
        };
    let found = choose|found: DeviceResult<Option<ConfigWindow>>|
        #[trigger] is_window_access(frontend.address, 0xcfc, access.width, found) && decoded == (
        match found {
            Err(error) => Err::<ConfigPortRead, DeviceError>(error),
            Ok(None) => Ok(
                ConfigPortRead::Value((crate::bytes::lane_scale(4) - 1) as u64),
            ),
            Ok(Some(window)) => Ok(ConfigPortRead::Window(window)),
        });
    assert(is_window_access(frontend.address, 0xcfc, access.width, found));
    let window = found->Ok_0->0;
    assert(decoded == Ok::<ConfigPortRead, DeviceError>(ConfigPortRead::Window(window)));
    assert(window.data_offset == 0 && window.size == 4);
    assert(0int % 4 == 0);
    assert(window.is_aligned());
    let (during, routed) = choose|
        during: EndpointAdmissions,
        routed: DeviceResult<ConfigReadDispatch>,
    |
        #[trigger] is_window_dispatch(binding, *old(admissions), during, window, routed)
            && match routed {
            Err(error) => result == Err::<u64, DeviceError>(error) && calls.len() == 0,
            Ok(dispatch) => binding.answers_config_read(calls, during, dispatch, result),
        };
    let outcome = choose|outcome: Result<PciConfigReadOutcome, PciError>|
        #[trigger] is_window_outcome(binding, *old(admissions), window, outcome)
            && is_read_dispatch(binding.router, *old(admissions), during, outcome, routed);
    assert(is_window_outcome(binding, *old(admissions), window, outcome));
}

/// A function that is not there reads as all ones through the data port, and nobody is asked.
pub proof fn law_absent_function_reads_all_ones_through_the_port<
    F: PciEndpointCallbacks<C, AdmittedContext>,
    C: DeviceContext,
>(
    frontend: X86PciConfigFrontend,
    access: DeviceAccess,
    binding: PciRootBinding<F>,
    admissions: &mut EndpointAdmissions,
    context: &mut C,
    result: DeviceResult<u64>,
)
    requires
        binding.wf(*old(admissions)),
        call_ensures(
            X86PciConfigFrontend::read::<F, C>,
            (&frontend, &access, &binding, admissions, context),
            result,
        ),
        frontend.address >= 0x8000_0000,
        access.bus is Port,
        access.address == 0xcfc,
        access.width is Dword,
        forall|i: int|
            #![trigger binding.root.functions@[i]]
            0 <= i < binding.root.functions@.len() ==> !names(frontend.address, binding, i),
    ensures
        result is Ok,
        result->Ok_0 == 0xffff_ffff,
        *final(context) == *old(context),
{
    lemma_data_read(frontend, access, binding, admissions, context, result);
    let bdf = (selected(frontend.address, 0)->0).0;
    let register = (selected(frontend.address, 0)->0).1;
    let outcome = choose|outcome: Result<PciConfigReadOutcome, PciError>|
        {
            &&& #[trigger] binding.is_root_read(
                *old(admissions),
                bdf,
                register,
                AccessWidth::Dword,
                outcome,
            )
            &&& outcome matches Ok(PciConfigReadOutcome::Value(value)) ==> result == Ok::<
                u64,
                DeviceError,
            >(value) && *final(context) == *old(context)
        };
    assert(binding.root.is_absent(bdf)) by {
        assert forall|i: int|
            #![trigger binding.root.functions@[i]]
            0 <= i < binding.root.functions@.len() implies binding.root.functions@[i].bdf
                != bdf by {
            assert(!names(frontend.address, binding, i));
        }
    }
    crate::bytes::lemma_lane_scale_values();
}

/// A doubleword of the header that the latch selects reads, outside the BARs and the status, as the
/// bytes that the selected function has there, and nobody is asked.
pub proof fn law_header_is_read_through_the_port<
    F: PciEndpointCallbacks<C, AdmittedContext>,
    C: DeviceContext,
>(
    frontend: X86PciConfigFrontend,
    access: DeviceAccess,
    binding: PciRootBinding<F>,
    admissions: &mut EndpointAdmissions,
    context: &mut C,
    result: DeviceResult<u64>,
    owner: int,
)
    requires
        binding.wf(*old(admissions)),
        call_ensures(
            X86PciConfigFrontend::read::<F, C>,
            (&frontend, &access, &binding, admissions, context),
            result,
        ),
        frontend.address >= 0x8000_0000,
        access.bus is Port,
        access.address == 0xcfc,
        access.width is Dword,
        0 <= owner < binding.root.functions@.len(),
        names(frontend.address, binding, owner),
        ({
            let register = frontend.address as int % 0x100 / 4 * 4;
            register == 0 || 8 <= register < 0x10 || 0x28 <= register < 0x40
        }),
    ensures
        ({
            let register = frontend.address as int % 0x100 / 4 * 4;
            let config = binding.root.functions@[owner].config@;
            &&& result is Ok
            &&& result->Ok_0 == dword_of(
                config[register] as int,
                config[register + 1] as int,
                config[register + 2] as int,
                config[register + 3] as int,
            )
            &&& *final(context) == *old(context)
        }),
{
    lemma_data_read(frontend, access, binding, admissions, context, result);
    let bdf = (selected(frontend.address, 0)->0).0;
    let register = (selected(frontend.address, 0)->0).1;
    let outcome = choose|outcome: Result<PciConfigReadOutcome, PciError>|
        {
            &&& #[trigger] binding.is_root_read(
                *old(admissions),
                bdf,
                register,
                AccessWidth::Dword,
                outcome,
            )
            &&& outcome matches Ok(PciConfigReadOutcome::Value(value)) ==> result == Ok::<
                u64,
                DeviceError,
            >(value) && *final(context) == *old(context)
        };
    let at = frontend.address as int % 0x100 / 4 * 4;
    let function = binding.root.functions@[owner];
    assert(register.0 == at);
    assert(function.bdf == bdf);
    assert(!binding.root.is_absent(bdf));
    assert(crate::pci::address::valid_config_access(at, AccessWidth::Dword));
    assert(function.wf());
    lemma_header_has_no_effect(function, 0, at, 4, AccessWidth::Dword, false);
    let seen = function.visible_bytes(at, 4);
    crate::bytes::law_bytes_are_little_endian(seen);
    assert forall|j: int| 0 <= j < 4 implies #[trigger] seen[j] == function.config@[at + j] by {
        assert(crate::pci::config::bar_at(function.bars@, at + j) is None);
    }
    assert(seen.len() == 4);
    assert(outcome == Ok::<PciConfigReadOutcome, PciError>(
        PciConfigReadOutcome::Value(crate::bytes::le_value(seen) as u64),
    ));
}

} // verus!
