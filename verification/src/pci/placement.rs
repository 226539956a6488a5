//! Deterministic placement of functions, BARs and capabilities.

use crate::access::ResourceRequest;
use crate::pci::address::PciBdf;
use crate::pci::bar::FOUR_GIB;
#[allow(unused_imports)]
use crate::pci::bar::is_bar_size;
use crate::pci::capability::{PciCapabilityLayout, PciCapabilitySpec};
use crate::pci::error::{PciError, PciResult};
use vstd::prelude::*;

verus! {

/// Number of devices on one bus.
pub const DEVICES_PER_BUS: u8 = 32;

/// What is wrong with the fixed address of function `i`, if anything: a function
/// number other than 0, a reserved address, or one that an earlier function has.
pub open spec fn fixed_bdf_fault(
    requests: Seq<ResourceRequest<PciBdf>>,
    reserved: Seq<PciBdf>,
    i: int,
) -> Option<PciError> {
    match requests[i] {
        ResourceRequest::Auto => None,
        ResourceRequest::Fixed(bdf) => if bdf.function != 0 {
            Some(PciError::UnsupportedFunctionPlacement { bdf })
        } else if reserved.contains(bdf) {
            Some(PciError::BdfReserved { bdf })
        } else if is_fixed(requests, bdf, i) {
            Some(PciError::DuplicateBdf { bdf })
        } else {
            None
        },
    }
}

/// Whether one of the first `count` requests is for `bdf`.
pub open spec fn is_fixed(requests: Seq<ResourceRequest<PciBdf>>, bdf: PciBdf, count: int) -> bool {
    exists|j: int|
        #![trigger requests[j]]
        0 <= j < count && requests[j] == ResourceRequest::Fixed(bdf)
}

/// Whether the resolver may give `device` on bus 0 away: it is neither reserved
/// nor asked for by a fixed request.
pub open spec fn is_free_device(
    requests: Seq<ResourceRequest<PciBdf>>,
    reserved: Seq<PciBdf>,
    device: int,
) -> bool {
    !reserved.contains(PciBdf::on_bus_zero(device as u8)) && !is_fixed(
        requests,
        PciBdf::on_bus_zero(device as u8),
        requests.len() as int,
    )
}

/// Number of free devices below `device`.
pub open spec fn free_devices(
    requests: Seq<ResourceRequest<PciBdf>>,
    reserved: Seq<PciBdf>,
    device: int,
) -> nat
    decreases device,
{
    if device <= 0 {
        0
    } else {
        free_devices(requests, reserved, device - 1) + if is_free_device(
            requests,
            reserved,
            device - 1,
        ) {
            1nat
        } else {
            0nat
        }
    }
}

/// Number of automatic requests among the first `count`.
pub open spec fn auto_requests(requests: Seq<ResourceRequest<PciBdf>>, count: int) -> nat
    decreases count,
{
    if count <= 0 {
        0
    } else {
        auto_requests(requests, count - 1) + if requests[count - 1] is Auto {
            1nat
        } else {
            0nat
        }
    }
}

/// Whether request `i` is answered with `bdf`: a fixed one with its address, the
/// n-th automatic one with the n-th free device of bus 0.
pub open spec fn is_placed_at(
    requests: Seq<ResourceRequest<PciBdf>>,
    reserved: Seq<PciBdf>,
    i: int,
    bdf: PciBdf,
) -> bool {
    match requests[i] {
        ResourceRequest::Fixed(fixed) => bdf == fixed,
        ResourceRequest::Auto => {
            &&& bdf == PciBdf::on_bus_zero(bdf.device)
            &&& bdf.device < DEVICES_PER_BUS
            &&& is_free_device(requests, reserved, bdf.device as int)
            &&& free_devices(requests, reserved, bdf.device as int) == auto_requests(requests, i)
        },
    }
}

/// Whether no fixed request is at fault.
pub open spec fn fixed_bdfs_valid(
    requests: Seq<ResourceRequest<PciBdf>>,
    reserved: Seq<PciBdf>,
) -> bool {
    forall|i: int|
        #![trigger requests[i]]
        0 <= i < requests.len() ==> fixed_bdf_fault(requests, reserved, i) is None
}

/// Whether every request is answered, and no request is at fault.
pub open spec fn bdfs_placed(
    requests: Seq<ResourceRequest<PciBdf>>,
    reserved: Seq<PciBdf>,
    bdfs: Seq<PciBdf>,
) -> bool {
    &&& fixed_bdfs_valid(requests, reserved)
    &&& auto_requests(requests, requests.len() as int) <= free_devices(requests, reserved, 32)
    &&& bdfs.len() == requests.len()
    &&& forall|i: int|
        #![trigger bdfs[i]]
        0 <= i < bdfs.len() ==> is_placed_at(requests, reserved, i, bdfs[i])
}

/// Whether the requests fail with `error`: the fault of the first faulty fixed
/// request, else exhaustion where bus 0 has fewer free devices than there are
/// automatic requests.
pub open spec fn is_bdf_error(
    requests: Seq<ResourceRequest<PciBdf>>,
    reserved: Seq<PciBdf>,
    error: PciError,
) -> bool {
    if fixed_bdfs_valid(requests, reserved) {
        &&& auto_requests(requests, requests.len() as int) > free_devices(requests, reserved, 32)
        &&& error == PciError::BdfExhausted
    } else {
        exists|i: int|
            #![trigger requests[i]]
            0 <= i < requests.len() && (forall|j: int|
                #![trigger requests[j]]
                0 <= j < i ==> fixed_bdf_fault(requests, reserved, j) is None) && fixed_bdf_fault(
                requests,
                reserved,
                i,
            ) == Some(error)
    }
}

fn holds_bdf(list: &Vec<PciBdf>, bdf: PciBdf) -> (result: bool)
    ensures
        result == list@.contains(bdf),
{
    let mut i: usize = 0;
    while i < list.len()
        invariant
            i <= list@.len(),
            forall|j: int| 0 <= j < i ==> list@[j] != bdf,
        decreases list@.len() - i,
    {
        if list[i] == bdf {
            return true;
        }
        i = i + 1;
    }
    false
}

fn asks_for_bdf(requests: &Vec<ResourceRequest<PciBdf>>, bdf: PciBdf, count: usize) -> (result:
    bool)
    requires
        count <= requests@.len(),
    ensures
        result == is_fixed(requests@, bdf, count as int),
{
    let mut i: usize = 0;
    while i < count
        invariant
            i <= count <= requests@.len(),
            forall|j: int|
                #![trigger requests@[j]]
                0 <= j < i ==> requests@[j] != ResourceRequest::Fixed(bdf),
        decreases count - i,
    {
        if let ResourceRequest::Fixed(fixed) = requests[i] {
            if fixed == bdf {
                assert(requests@[i as int] == ResourceRequest::Fixed(bdf));
                return true;
            }
        }
        i = i + 1;
    }
    false
}

/// Free devices do not get fewer towards higher device numbers.
pub proof fn lemma_free_devices_monotonic(
    requests: Seq<ResourceRequest<PciBdf>>,
    reserved: Seq<PciBdf>,
    low: int,
    high: int,
)
    requires
        low <= high,
    ensures
        free_devices(requests, reserved, low) <= free_devices(requests, reserved, high),
    decreases high - low,
{
    if low < high {
        lemma_free_devices_monotonic(requests, reserved, low, high - 1);
    }
}

/// Automatic requests do not get fewer towards the end.
pub proof fn lemma_auto_requests_monotonic(
    requests: Seq<ResourceRequest<PciBdf>>,
    low: int,
    high: int,
)
    requires
        low <= high,
    ensures
        auto_requests(requests, low) <= auto_requests(requests, high),
    decreases high - low,
{
    if low < high {
        lemma_auto_requests_monotonic(requests, low, high - 1);
    }
}

/// Gives every request an address.
///
/// # Errors
///
/// Returns what is wrong with the first faulty fixed request, else
/// [`PciError::BdfExhausted`] where bus 0 has fewer free devices than there are
/// automatic requests.
pub fn place_bdfs(requests: &Vec<ResourceRequest<PciBdf>>, reserved: &Vec<PciBdf>) -> (result:
    PciResult<Vec<PciBdf>>)
    ensures
        result matches Ok(bdfs) ==> bdfs_placed(requests@, reserved@, bdfs@),
        result matches Err(error) ==> is_bdf_error(requests@, reserved@, error),
{
    let mut i: usize = 0;
    while i < requests.len()
        invariant
            i <= requests@.len(),
            forall|j: int|
                #![trigger requests@[j]]
                0 <= j < i ==> fixed_bdf_fault(requests@, reserved@, j) is None,
        decreases requests@.len() - i,
    {
        if let ResourceRequest::Fixed(bdf) = requests[i] {
            if bdf.function != 0 {
                assert(fixed_bdf_fault(requests@, reserved@, i as int) is Some);
                return Err(PciError::UnsupportedFunctionPlacement { bdf });
            }
            if holds_bdf(reserved, bdf) {
                assert(fixed_bdf_fault(requests@, reserved@, i as int) is Some);
                return Err(PciError::BdfReserved { bdf });
            }
            if asks_for_bdf(requests, bdf, i) {
                assert(fixed_bdf_fault(requests@, reserved@, i as int) is Some);
                return Err(PciError::DuplicateBdf { bdf });
            }
        }
        i = i + 1;
    }
    assert(fixed_bdfs_valid(requests@, reserved@));
    let mut bdfs: Vec<PciBdf> = Vec::new();
    let mut device: u8 = 0;
    let mut i: usize = 0;
    while i < requests.len()
        invariant
            i <= requests@.len(),
            device <= 32,
            fixed_bdfs_valid(requests@, reserved@),
            bdfs@.len() == i,
            free_devices(requests@, reserved@, device as int) == auto_requests(
                requests@,
                i as int,
            ),
            forall|j: int|
                #![trigger bdfs@[j]]
                0 <= j < i ==> is_placed_at(requests@, reserved@, j, bdfs@[j]),
        decreases requests@.len() - i,
    {
        let bdf = match requests[i] {
            ResourceRequest::Fixed(bdf) => bdf,
            ResourceRequest::Auto => {
                while device < DEVICES_PER_BUS && (holds_bdf(reserved, PciBdf::bus_zero(device))
                    || asks_for_bdf(requests, PciBdf::bus_zero(device), requests.len()))
                    invariant
                        device <= 32,
                        free_devices(requests@, reserved@, device as int) == auto_requests(
                            requests@,
                            i as int,
                        ),
                    decreases 32 - device,
                {
                    device = device + 1;
                }
                if device == DEVICES_PER_BUS {
                    proof {
                        lemma_auto_requests_monotonic(
                            requests@,
                            i + 1,
                            requests@.len() as int,
                        );
                    }
                    return Err(PciError::BdfExhausted);
                }
                let bdf = PciBdf::bus_zero(device);
                device = device + 1;
                bdf
            },
        };
        bdfs.push(bdf);
        i = i + 1;
    }
    proof {
        lemma_free_devices_monotonic(requests@, reserved@, device as int, 32);
    }
    Ok(bdfs)
}

/// No two requests are answered with one address, and none with a reserved one.
pub proof fn law_placed_bdfs_are_distinct(
    requests: Seq<ResourceRequest<PciBdf>>,
    reserved: Seq<PciBdf>,
    bdfs: Seq<PciBdf>,
)
    requires
        bdfs_placed(requests, reserved, bdfs),
    ensures
        forall|i: int, j: int|
            #![trigger bdfs[i], bdfs[j]]
            0 <= i < j < bdfs.len() ==> bdfs[i] != bdfs[j],
        forall|i: int| #![trigger bdfs[i]] 0 <= i < bdfs.len() ==> !reserved.contains(bdfs[i]),
{
    assert forall|i: int, j: int|
        #![trigger bdfs[i], bdfs[j]]
        0 <= i < j < bdfs.len() implies bdfs[i] != bdfs[j] by {
        assert(fixed_bdf_fault(requests, reserved, i) is None) by {
            assert(requests[i] == requests[i]);
        }
        assert(fixed_bdf_fault(requests, reserved, j) is None) by {
            assert(requests[j] == requests[j]);
        }
        if requests[i] is Auto && requests[j] is Auto {
            lemma_auto_requests_monotonic(requests, i + 1, j);
        }
    }
    assert forall|i: int| #![trigger bdfs[i]] 0 <= i < bdfs.len() implies !reserved.contains(
        bdfs[i],
    ) by {
        assert(fixed_bdf_fault(requests, reserved, i) is None) by {
            assert(requests[i] == requests[i]);
        }
    }
}

/// A BAR to be placed.
#[derive(Clone, Copy, Debug, PartialEq, Eq, Structural)]
pub struct BarRequest {
    /// BAR slot, for the errors.
    pub bar: u8,
    /// Size in bytes.
    pub size: u64,
    /// Requested base address.
    pub address: ResourceRequest<u64>,
}

/// Whether a BAR of `size` bytes can stand at `address`: aligned to its size and
/// inside the aperture.
pub open spec fn fits_aperture(address: int, size: int, start: int, end: int) -> bool {
    address % size == 0 && start <= address && address + size <= end
}

/// Whether two address ranges share an address.
pub open spec fn ranges_overlap(first: int, first_size: int, second: int, second_size: int) -> bool {
    first < second + second_size && second < first + first_size
}

/// What is wrong with the fixed address of BAR `i`, if anything: it does not fit
/// the aperture, or it overlaps an earlier fixed BAR.
pub open spec fn fixed_bar_fault(
    requests: Seq<BarRequest>,
    start: int,
    end: int,
    i: int,
) -> Option<PciError> {
    let request = requests[i];
    match request.address {
        ResourceRequest::Auto => None,
        ResourceRequest::Fixed(address) => if !fits_aperture(
            address as int,
            request.size as int,
            start,
            end,
        ) {
            Some(
                PciError::InvalidBar {
                    bar: request.bar,
                    detail: "fixed address is misaligned or outside the aperture",
                },
            )
        } else if overlaps_fixed(requests, i) {
            Some(PciError::BarConflict { bar: request.bar, size: request.size })
        } else {
            None
        },
    }
}

/// Whether the fixed BAR `i` overlaps an earlier fixed one.
pub open spec fn overlaps_fixed(requests: Seq<BarRequest>, i: int) -> bool {
    exists|j: int|
        #![trigger requests[j]]
        0 <= j < i && requests[j].address is Fixed && ranges_overlap(
            requests[i].address->Fixed_0 as int,
            requests[i].size as int,
            requests[j].address->Fixed_0 as int,
            requests[j].size as int,
        )
}

/// Whether no fixed BAR is at fault.
pub open spec fn fixed_bars_valid(requests: Seq<BarRequest>, start: int, end: int) -> bool {
    forall|i: int|
        #![trigger requests[i]]
        0 <= i < requests.len() ==> fixed_bar_fault(requests, start, end, i) is None
}

/// Whether BAR `j` has its address before the automatic BAR `i` gets one: fixed
/// BARs first, then larger before smaller, then in order.
pub open spec fn places_before(requests: Seq<BarRequest>, j: int, i: int) -> bool {
    requests[i].address is Auto && (requests[j].address is Fixed || requests[j].size
        > requests[i].size || (requests[j].size == requests[i].size && j < i))
}

/// Whether a BAR of the size of BAR `i` at `address` overlaps one that is placed
/// before BAR `i`.
pub open spec fn is_blocked(
    requests: Seq<BarRequest>,
    addresses: Seq<Option<u64>>,
    i: int,
    address: int,
) -> bool {
    exists|j: int|
        #![trigger addresses[j]]
        0 <= j < requests.len() && places_before(requests, j, i) && addresses[j] is Some
            && ranges_overlap(
            address,
            requests[i].size as int,
            addresses[j]->0 as int,
            requests[j].size as int,
        )
}

/// Whether `address` is the lowest place for BAR `i` that those placed before it
/// leave free.
pub open spec fn is_lowest_free(
    requests: Seq<BarRequest>,
    addresses: Seq<Option<u64>>,
    start: int,
    end: int,
    i: int,
    address: int,
) -> bool {
    &&& fits_aperture(address, requests[i].size as int, start, end)
    &&& !is_blocked(requests, addresses, i, address)
    &&& forall|lower: int|
        #![trigger is_blocked(requests, addresses, i, lower)]
        start <= lower < address && lower % requests[i].size as int == 0 ==> is_blocked(
            requests,
            addresses,
            i,
            lower,
        )
}

/// Whether the placed BARs stand where they belong: a fixed one at its address,
/// an automatic one at the lowest free place.
pub open spec fn bars_placed(
    requests: Seq<BarRequest>,
    addresses: Seq<Option<u64>>,
    start: int,
    end: int,
) -> bool {
    &&& addresses.len() == requests.len()
    &&& forall|i: int|
        #![trigger addresses[i]]
        0 <= i < addresses.len() && addresses[i] is Some ==> match requests[i].address {
            ResourceRequest::Fixed(address) => addresses[i]->0 == address,
            ResourceRequest::Auto => {
                &&& is_lowest_free(requests, addresses, start, end, i, addresses[i]->0 as int)
                &&& forall|j: int|
                    #![trigger addresses[j]]
                    0 <= j < addresses.len() && places_before(requests, j, i)
                        ==> addresses[j] is Some
            },
        }
}

/// Whether all BARs placed before the automatic BAR `i` are placed, and no place
/// is left for it.
pub open spec fn is_stuck(
    requests: Seq<BarRequest>,
    addresses: Seq<Option<u64>>,
    start: int,
    end: int,
    i: int,
) -> bool {
    &&& bars_placed(requests, addresses, start, end)
    &&& 0 <= i < requests.len()
    &&& requests[i].address is Auto
    &&& forall|j: int|
        #![trigger addresses[j]]
        0 <= j < addresses.len() && places_before(requests, j, i) ==> addresses[j] is Some
    &&& forall|address: int|
        #![trigger is_blocked(requests, addresses, i, address)]
        fits_aperture(address, requests[i].size as int, start, end) ==> is_blocked(
            requests,
            addresses,
            i,
            address,
        )
}

/// Whether the BARs fail with `error`: the fault of the first faulty fixed BAR,
/// else exhaustion for an automatic BAR that is stuck.
pub open spec fn is_bar_error(
    requests: Seq<BarRequest>,
    start: int,
    end: int,
    error: PciError,
) -> bool {
    if fixed_bars_valid(requests, start, end) {
        exists|addresses: Seq<Option<u64>>, i: int|
            #[trigger] is_stuck(requests, addresses, start, end, i) && error
                == (PciError::ApertureExhausted { bar: requests[i].bar, size: requests[i].size })
    } else {
        exists|i: int|
            #![trigger requests[i]]
            0 <= i < requests.len() && (forall|j: int|
                #![trigger requests[j]]
                0 <= j < i ==> fixed_bar_fault(requests, start, end, j) is None)
                && fixed_bar_fault(requests, start, end, i) == Some(error)
    }
}

/// Two multiples of `size` are at least `size` apart.
proof fn lemma_multiples_apart(low: int, high: int, size: int)
    requires
        size > 0,
        low % size == 0,
        high % size == 0,
        low < high,
    ensures
        low + size <= high,
{
    vstd::arithmetic::div_mod::lemma_fundamental_div_mod(low, size);
    vstd::arithmetic::div_mod::lemma_fundamental_div_mod(high, size);
    let a = low / size;
    let b = high / size;
    assert(size * a < size * b ==> a < b) by (nonlinear_arith)
        requires
            size > 0,
    ;
    assert(a + 1 <= b ==> size * a + size <= size * b) by (nonlinear_arith)
        requires
            size > 0,
    ;
}

/// Rounds `address` up to a multiple of `size`.
fn align_up(address: u64, size: u64) -> (aligned: u64)
    requires
        0 < size <= FOUR_GIB,
        address <= FOUR_GIB,
    ensures
        aligned as int % size as int == 0,
        address <= aligned < address + size,
{
    let rest: u64 = address % size;
    proof {
        vstd::arithmetic::div_mod::lemma_fundamental_div_mod(address as int, size as int);
        let q = address as int / size as int;
        if rest != 0 {
            assert(address + (size - rest) == (q + 1) * size) by (nonlinear_arith)
                requires
                    address == size * q + rest,
            ;
            vstd::arithmetic::div_mod::lemma_mod_multiples_basic(q + 1, size as int);
        }
    }
    if rest == 0 {
        address
    } else {
        address + (size - rest)
    }
}

/// Returns a placed BAR that overlaps the range.
fn find_overlap(
    requests: &Vec<BarRequest>,
    addresses: &Vec<Option<u64>>,
    address: u64,
    size: u64,
) -> (found: Option<usize>)
    requires
        addresses@.len() == requests@.len(),
        address <= 2 * FOUR_GIB,
        size <= FOUR_GIB,
        forall|j: int|
            #![trigger addresses@[j]]
            0 <= j < addresses@.len() && addresses@[j] is Some ==> addresses@[j]->0
                + requests@[j].size <= FOUR_GIB,
    ensures
        found matches Some(j) ==> j < addresses@.len() && addresses@[j as int] is Some
            && ranges_overlap(
            address as int,
            size as int,
            addresses@[j as int]->0 as int,
            requests@[j as int].size as int,
        ),
        found is None ==> forall|j: int|
            #![trigger addresses@[j]]
            0 <= j < addresses@.len() && addresses@[j] is Some ==> !ranges_overlap(
                address as int,
                size as int,
                addresses@[j]->0 as int,
                requests@[j].size as int,
            ),
{
    let mut i: usize = 0;
    while i < addresses.len()
        invariant
            i <= addresses@.len() == requests@.len(),
            address <= 2 * FOUR_GIB,
            size <= FOUR_GIB,
            forall|j: int|
                #![trigger addresses@[j]]
                0 <= j < addresses@.len() && addresses@[j] is Some ==> addresses@[j]->0
                    + requests@[j].size <= FOUR_GIB,
            forall|j: int|
                #![trigger addresses@[j]]
                0 <= j < i && addresses@[j] is Some ==> !ranges_overlap(
                    address as int,
                    size as int,
                    addresses@[j]->0 as int,
                    requests@[j].size as int,
                ),
        decreases addresses@.len() - i,
    {
        if let Some(other) = addresses[i] {
            if address < other + requests[i].size && other < address + size {
                return Some(i);
            }
        }
        i = i + 1;
    }
    None
}

/// Returns the lowest aligned place in the aperture that overlaps no placed BAR.
fn lowest_free(
    requests: &Vec<BarRequest>,
    addresses: &Vec<Option<u64>>,
    start: u64,
    end: u64,
    size: u64,
) -> (found: Option<u64>)
    requires
        addresses@.len() == requests@.len(),
        start <= end <= FOUR_GIB,
        0 < size <= FOUR_GIB,
        forall|j: int|
            #![trigger addresses@[j]]
            0 <= j < addresses@.len() && addresses@[j] is Some ==> addresses@[j]->0
                + requests@[j].size <= FOUR_GIB,
    ensures
        found matches Some(address) ==> {
            &&& fits_aperture(address as int, size as int, start as int, end as int)
            &&& forall|j: int|
                #![trigger addresses@[j]]
                0 <= j < addresses@.len() && addresses@[j] is Some ==> !ranges_overlap(
                    address as int,
                    size as int,
                    addresses@[j]->0 as int,
                    requests@[j].size as int,
                )
        },
        forall|lower: int|
            #![trigger meets_placed(requests@, addresses@, lower, size as int)]
            start <= lower && lower % size as int == 0 && (found matches Some(address) ==> lower
                < address) && (found is None ==> lower + size <= end) ==> meets_placed(
                requests@,
                addresses@,
                lower,
                size as int,
            ),
{
    let mut candidate: u64 = align_up(start, size);
    proof {
        assert forall|lower: int| start <= lower < candidate && lower % size as int
            == 0 implies #[trigger] meets_placed(requests@, addresses@, lower, size as int) by {
            lemma_multiples_apart(lower, candidate as int, size as int);
        }
    }
    while candidate + size <= end
        invariant
            addresses@.len() == requests@.len(),
            start <= end <= FOUR_GIB,
            0 < size <= FOUR_GIB,
            start <= candidate <= 2 * FOUR_GIB,
            candidate as int % size as int == 0,
            forall|j: int|
                #![trigger addresses@[j]]
                0 <= j < addresses@.len() && addresses@[j] is Some ==> addresses@[j]->0
                    + requests@[j].size <= FOUR_GIB,
            forall|lower: int|
                #![trigger meets_placed(requests@, addresses@, lower, size as int)]
                start <= lower < candidate && lower % size as int == 0 ==> meets_placed(
                    requests@,
                    addresses@,
                    lower,
                    size as int,
                ),
        decreases 3 * FOUR_GIB - candidate,
    {
        match find_overlap(requests, addresses, candidate, size) {
            None => {
                return Some(candidate);
            },
            Some(other) => {
                let other_start: u64 = addresses[other].unwrap();
                let other_end: u64 = other_start + requests[other].size;
                let next: u64 = align_up(other_end, size);
                proof {
                    assert forall|lower: int| start <= lower < next && lower % size as int
                        == 0 implies #[trigger] meets_placed(
                        requests@,
                        addresses@,
                        lower,
                        size as int,
                    ) by {
                        if lower >= candidate {
                            lemma_multiples_apart(lower, next as int, size as int);
                            assert(addresses@[other as int] is Some);
                        }
                    }
                }
                candidate = next;
            },
        }
    }
    None
}

/// Whether a range overlaps any placed BAR.
pub open spec fn meets_placed(
    requests: Seq<BarRequest>,
    addresses: Seq<Option<u64>>,
    address: int,
    size: int,
) -> bool {
    exists|j: int|
        #![trigger addresses[j]]
        0 <= j < addresses.len() && addresses[j] is Some && ranges_overlap(
            address,
            size,
            addresses[j]->0 as int,
            requests[j].size as int,
        )
}

/// Whether every unplaced BAR comes after every placed one in the placement
/// order.
spec fn placed_prefix(requests: Seq<BarRequest>, addresses: Seq<Option<u64>>) -> bool {
    forall|i: int, j: int|
        #![trigger addresses[i], addresses[j]]
        0 <= i < addresses.len() && 0 <= j < addresses.len() && addresses[i] is None
            && addresses[j] is Some ==> places_before(requests, j, i)
}

/// Returns the unplaced BAR that comes next: the largest one, the first of them.
fn next_unplaced(requests: &Vec<BarRequest>, addresses: &Vec<Option<u64>>) -> (next: Option<usize>)
    requires
        addresses@.len() == requests@.len(),
    ensures
        next is None ==> forall|i: int|
            #![trigger addresses@[i]]
            0 <= i < addresses@.len() ==> addresses@[i] is Some,
        next matches Some(k) ==> {
            &&& k < addresses@.len()
            &&& addresses@[k as int] is None
            &&& forall|i: int|
                #![trigger addresses@[i]]
                0 <= i < addresses@.len() && addresses@[i] is None && i != k
                    ==> requests@[k as int].size > requests@[i].size || (requests@[k as int].size
                    == requests@[i].size && k < i)
        },
{
    let mut next: Option<usize> = None;
    let mut i: usize = 0;
    while i < addresses.len()
        invariant
            i <= addresses@.len() == requests@.len(),
            next is None ==> forall|j: int|
                #![trigger addresses@[j]]
                0 <= j < i ==> addresses@[j] is Some,
            next matches Some(k) ==> {
                &&& k < i
                &&& addresses@[k as int] is None
                &&& forall|j: int|
                    #![trigger addresses@[j]]
                    0 <= j < i && addresses@[j] is None && j != k ==> requests@[k as int].size
                        > requests@[j].size || (requests@[k as int].size == requests@[j].size && k
                        < j)
            },
        decreases addresses@.len() - i,
    {
        if addresses[i].is_none() {
            match next {
                None => {
                    next = Some(i);
                },
                Some(k) => {
                    if requests[i].size > requests[k].size {
                        next = Some(i);
                    }
                },
            }
        }
        i = i + 1;
    }
    next
}

/// The number of unplaced BARs.
spec fn unplaced(addresses: Seq<Option<u64>>) -> nat
    decreases addresses.len(),
{
    if addresses.len() == 0 {
        0
    } else {
        unplaced(addresses.drop_last()) + if addresses.last() is None {
            1nat
        } else {
            0nat
        }
    }
}

/// Placing one BAR leaves one fewer.
proof fn lemma_unplaced_decreases(addresses: Seq<Option<u64>>, k: int, address: u64)
    requires
        0 <= k < addresses.len(),
        addresses[k] is None,
    ensures
        unplaced(addresses.update(k, Some(address))) + 1 == unplaced(addresses),
    decreases addresses.len(),
{
    let updated = addresses.update(k, Some(address));
    if k == addresses.len() - 1 {
        assert(updated.drop_last() =~= addresses.drop_last());
    } else {
        lemma_unplaced_decreases(addresses.drop_last(), k, address);
        assert(updated.drop_last() =~= addresses.drop_last().update(k, Some(address)));
    }
}

/// Placing the next BAR at the lowest place free of all placed ones keeps every
/// placed BAR where it belongs.
proof fn lemma_place_next(
    requests: Seq<BarRequest>,
    addresses: Seq<Option<u64>>,
    start: int,
    end: int,
    k: int,
    address: u64,
)
    requires
        bars_placed(requests, addresses, start, end),
        placed_prefix(requests, addresses),
        0 <= k < addresses.len(),
        addresses[k] is None,
        requests[k].address is Auto,
        forall|i: int|
            #![trigger addresses[i]]
            0 <= i < addresses.len() && addresses[i] is None ==> requests[i].address is Auto,
        forall|i: int|
            #![trigger addresses[i]]
            0 <= i < addresses.len() && addresses[i] is None && i != k ==> requests[k].size
                > requests[i].size || (requests[k].size == requests[i].size && k < i),
        fits_aperture(address as int, requests[k].size as int, start, end),
        !meets_placed(requests, addresses, address as int, requests[k].size as int),
        forall|lower: int|
            #![trigger meets_placed(requests, addresses, lower, requests[k].size as int)]
            start <= lower < address && lower % requests[k].size as int == 0 ==> meets_placed(
                requests,
                addresses,
                lower,
                requests[k].size as int,
            ),
    ensures
        bars_placed(requests, addresses.update(k, Some(address)), start, end),
        placed_prefix(requests, addresses.update(k, Some(address))),
{
    let updated = addresses.update(k, Some(address));
    assert forall|j: int|
        #![trigger updated[j]]
        0 <= j < updated.len() && places_before(requests, j, k) implies updated[j] is Some by {
        if addresses[j] is None {
        }
    }
    // What blocks the new BAR is exactly what was placed.
    assert forall|at: int|
        #![trigger is_blocked(requests, updated, k, at)]
        is_blocked(requests, updated, k, at) == meets_placed(
            requests,
            addresses,
            at,
            requests[k].size as int,
        ) by {
        if is_blocked(requests, updated, k, at) {
            let j = choose|j: int|
                #![trigger updated[j]]
                0 <= j < requests.len() && places_before(requests, j, k) && updated[j] is Some
                    && ranges_overlap(
                    at,
                    requests[k].size as int,
                    updated[j]->0 as int,
                    requests[j].size as int,
                );
            assert(addresses[j] is Some);
        }
        if meets_placed(requests, addresses, at, requests[k].size as int) {
            let j = choose|j: int|
                #![trigger addresses[j]]
                0 <= j < addresses.len() && addresses[j] is Some && ranges_overlap(
                    at,
                    requests[k].size as int,
                    addresses[j]->0 as int,
                    requests[j].size as int,
                );
            assert(addresses[k] is None);
            assert(places_before(requests, j, k));
            assert(updated[j] is Some);
        }
    }
    assert(is_lowest_free(requests, updated, start, end, k, address as int)) by {
        assert forall|lower: int|
            #![trigger is_blocked(requests, updated, k, lower)]
            start <= lower < address && lower % requests[k].size as int == 0 implies is_blocked(
            requests,
            updated,
            k,
            lower,
        ) by {
            assert(meets_placed(requests, addresses, lower, requests[k].size as int));
        }
    }
    // What blocks a BAR that was placed earlier has not changed.
    assert forall|i: int|
        #![trigger updated[i]]
        0 <= i < updated.len() && i != k && updated[i] is Some && requests[i].address is Auto implies {
        &&& is_lowest_free(requests, updated, start, end, i, updated[i]->0 as int)
        &&& forall|j: int|
            #![trigger updated[j]]
            0 <= j < updated.len() && places_before(requests, j, i) ==> updated[j] is Some
    } by {
        assert(addresses[i] is Some);
        assert(addresses[k] is None);
        assert(places_before(requests, i, k));
        assert(!places_before(requests, k, i));
        assert forall|at: int|
            #![trigger is_blocked(requests, updated, i, at)]
            is_blocked(requests, updated, i, at) == is_blocked(requests, addresses, i, at) by {
            if is_blocked(requests, updated, i, at) {
                let j = choose|j: int|
                    #![trigger updated[j]]
                    0 <= j < requests.len() && places_before(requests, j, i) && updated[j] is Some
                        && ranges_overlap(
                        at,
                        requests[i].size as int,
                        updated[j]->0 as int,
                        requests[j].size as int,
                    );
                assert(addresses[j] == updated[j]);
            }
            if is_blocked(requests, addresses, i, at) {
                let j = choose|j: int|
                    #![trigger addresses[j]]
                    0 <= j < requests.len() && places_before(requests, j, i) && addresses[j] is Some
                        && ranges_overlap(
                        at,
                        requests[i].size as int,
                        addresses[j]->0 as int,
                        requests[j].size as int,
                    );
                assert(addresses[j] == updated[j]);
            }
        }
        assert forall|j: int|
            #![trigger updated[j]]
            0 <= j < updated.len() && places_before(requests, j, i) implies updated[j] is Some by {
            assert(addresses[j] is Some);
        }
    }
    assert forall|i: int|
        #![trigger updated[i]]
        0 <= i < updated.len() && updated[i] is Some && requests[i].address is Fixed implies updated[i]->0
        == requests[i].address->Fixed_0 by {
        assert(addresses[i] == updated[i]);
    }
    assert forall|i: int, j: int|
        #![trigger updated[i], updated[j]]
        0 <= i < updated.len() && 0 <= j < updated.len() && updated[i] is None
            && updated[j] is Some implies places_before(requests, j, i) by {
        assert(addresses[i] is None);
        if j != k {
            assert(addresses[j] is Some);
        }
    }
}

/// Gives every BAR an address.
///
/// # Errors
///
/// Returns what is wrong with the first faulty fixed BAR, else
/// [`PciError::ApertureExhausted`] for the first automatic BAR, in placement
/// order, that finds no place.
pub fn place_bars(requests: &Vec<BarRequest>, start: u64, end: u64) -> (result: PciResult<
    Vec<Option<u64>>,
>)
    requires
        start <= end <= FOUR_GIB,
        forall|i: int|
            #![trigger requests@[i]]
            0 <= i < requests@.len() ==> is_bar_size(requests@[i].size),
    ensures
        result matches Ok(addresses) ==> {
            &&& fixed_bars_valid(requests@, start as int, end as int)
            &&& bars_placed(requests@, addresses@, start as int, end as int)
            &&& forall|i: int|
                #![trigger addresses@[i]]
                0 <= i < addresses@.len() ==> addresses@[i] is Some
        },
        result matches Err(error) ==> is_bar_error(requests@, start as int, end as int, error),
{
    let mut addresses: Vec<Option<u64>> = Vec::new();
    let mut i: usize = 0;
    while i < requests.len()
        invariant
            i <= requests@.len(),
            start <= end <= FOUR_GIB,
            forall|j: int|
                #![trigger requests@[j]]
                0 <= j < requests@.len() ==> is_bar_size(requests@[j].size),
            addresses@.len() == i,
            forall|j: int|
                #![trigger requests@[j]]
                0 <= j < i ==> fixed_bar_fault(requests@, start as int, end as int, j) is None,
            forall|j: int|
                #![trigger addresses@[j]]
                0 <= j < i ==> addresses@[j] == (match requests@[j].address {
                    ResourceRequest::Fixed(address) => Some(address),
                    ResourceRequest::Auto => None,
                }),
        decreases requests@.len() - i,
    {
        let request = requests[i];
        match request.address {
            ResourceRequest::Auto => {
                addresses.push(None);
            },
            ResourceRequest::Fixed(address) => {
                if address % request.size != 0 || address < start || address > end || end - address
                    < request.size {
                    assert(fixed_bar_fault(requests@, start as int, end as int, i as int) is Some);
                    return Err(
                        PciError::InvalidBar {
                            bar: request.bar,
                            detail: "fixed address is misaligned or outside the aperture",
                        },
                    );
                }
                let mut j: usize = 0;
                while j < i
                    invariant
                        j <= i < requests@.len(),
                        request == requests@[i as int],
                        request.address == ResourceRequest::Fixed(address),
                        start <= end <= FOUR_GIB,
                        fits_aperture(
                            address as int,
                            request.size as int,
                            start as int,
                            end as int,
                        ),
                        forall|m: int|
                            #![trigger requests@[m]]
                            0 <= m < i ==> fixed_bar_fault(
                                requests@,
                                start as int,
                                end as int,
                                m,
                            ) is None,
                        forall|m: int|
                            #![trigger requests@[m]]
                            0 <= m < j && requests@[m].address is Fixed ==> !ranges_overlap(
                                address as int,
                                request.size as int,
                                requests@[m].address->Fixed_0 as int,
                                requests@[m].size as int,
                            ),
                    decreases i - j,
                {
                    let other = requests[j];
                    if let ResourceRequest::Fixed(placed) = other.address {
                        assert(fixed_bar_fault(requests@, start as int, end as int, j as int)
                            is None);
                        if address < placed + other.size && placed < address + request.size {
                            assert(requests@[j as int].address is Fixed);
                            assert(overlaps_fixed(requests@, i as int));
                            assert(fixed_bar_fault(requests@, start as int, end as int, i as int)
                                is Some);
                            return Err(
                                PciError::BarConflict { bar: request.bar, size: request.size },
                            );
                        }
                    }
                    j = j + 1;
                }
                addresses.push(Some(address));
            },
        }
        i = i + 1;
    }
    assert(fixed_bars_valid(requests@, start as int, end as int));
    assert(bars_placed(requests@, addresses@, start as int, end as int));
    assert(placed_prefix(requests@, addresses@));
    loop
        invariant
            start <= end <= FOUR_GIB,
            fixed_bars_valid(requests@, start as int, end as int),
            forall|j: int|
                #![trigger requests@[j]]
                0 <= j < requests@.len() ==> is_bar_size(requests@[j].size),
            bars_placed(requests@, addresses@, start as int, end as int),
            placed_prefix(requests@, addresses@),
            forall|j: int|
                #![trigger addresses@[j]]
                0 <= j < addresses@.len() && addresses@[j] is None ==> requests@[j].address is Auto,
        decreases unplaced(addresses@),
    {
        let next: usize = match next_unplaced(requests, &addresses) {
            Some(next) => next,
            None => {
                return Ok(addresses);
            },
        };
        let size: u64 = requests[next].size;
        assert forall|j: int|
            #![trigger addresses@[j]]
            0 <= j < addresses@.len() && addresses@[j] is Some implies addresses@[j]->0
            + requests@[j].size <= FOUR_GIB by {
            assert(fixed_bar_fault(requests@, start as int, end as int, j) is None) by {
                assert(requests@[j] == requests@[j]);
            }
        }
        match lowest_free(requests, &addresses, start, end, size) {
            Some(address) => {
                proof {
                    lemma_place_next(
                        requests@,
                        addresses@,
                        start as int,
                        end as int,
                        next as int,
                        address,
                    );
                    lemma_unplaced_decreases(addresses@, next as int, address);
                }
                addresses.set(next, Some(address));
            },
            None => {
                proof {
                    lemma_stuck(requests@, addresses@, start as int, end as int, next as int);
                }
                return Err(
                    PciError::ApertureExhausted { bar: requests[next].bar, size },
                );
            },
        }
    }
}

/// When every place meets a placed BAR, the next BAR is stuck.
proof fn lemma_stuck(
    requests: Seq<BarRequest>,
    addresses: Seq<Option<u64>>,
    start: int,
    end: int,
    k: int,
)
    requires
        bars_placed(requests, addresses, start, end),
        placed_prefix(requests, addresses),
        0 <= k < addresses.len(),
        addresses[k] is None,
        requests[k].address is Auto,
        forall|i: int|
            #![trigger addresses[i]]
            0 <= i < addresses.len() && addresses[i] is None ==> requests[i].address is Auto,
        forall|i: int|
            #![trigger addresses[i]]
            0 <= i < addresses.len() && addresses[i] is None && i != k ==> requests[k].size
                > requests[i].size || (requests[k].size == requests[i].size && k < i),
        forall|lower: int|
            #![trigger meets_placed(requests, addresses, lower, requests[k].size as int)]
            fits_aperture(lower, requests[k].size as int, start, end) ==> meets_placed(
                requests,
                addresses,
                lower,
                requests[k].size as int,
            ),
    ensures
        is_stuck(requests, addresses, start, end, k),
{
    assert forall|at: int|
        #![trigger is_blocked(requests, addresses, k, at)]
        fits_aperture(at, requests[k].size as int, start, end) implies is_blocked(
        requests,
        addresses,
        k,
        at,
    ) by {
        assert(meets_placed(requests, addresses, at, requests[k].size as int));
        let j = choose|j: int|
            #![trigger addresses[j]]
            0 <= j < addresses.len() && addresses[j] is Some && ranges_overlap(
                at,
                requests[k].size as int,
                addresses[j]->0 as int,
                requests[j].size as int,
            );
        assert(addresses[k] is None);
        assert(places_before(requests, j, k));
    }
}

/// Placed BARs are aligned, inside the aperture, and no two of them overlap.
pub proof fn law_placed_bars_are_disjoint(
    requests: Seq<BarRequest>,
    addresses: Seq<Option<u64>>,
    start: int,
    end: int,
)
    requires
        fixed_bars_valid(requests, start, end),
        bars_placed(requests, addresses, start, end),
    ensures
        forall|i: int|
            #![trigger addresses[i]]
            0 <= i < addresses.len() && addresses[i] is Some ==> fits_aperture(
                addresses[i]->0 as int,
                requests[i].size as int,
                start,
                end,
            ),
        forall|i: int, j: int|
            #![trigger addresses[i], addresses[j]]
            0 <= i < addresses.len() && 0 <= j < addresses.len() && i != j && addresses[i] is Some
                && addresses[j] is Some ==> !ranges_overlap(
                addresses[i]->0 as int,
                requests[i].size as int,
                addresses[j]->0 as int,
                requests[j].size as int,
            ),
{
    assert forall|i: int|
        #![trigger addresses[i]]
        0 <= i < addresses.len() && addresses[i] is Some implies fits_aperture(
        addresses[i]->0 as int,
        requests[i].size as int,
        start,
        end,
    ) by {
        assert(fixed_bar_fault(requests, start, end, i) is None) by {
            assert(requests[i] == requests[i]);
        }
    }
    assert forall|i: int, j: int|
        #![trigger addresses[i], addresses[j]]
        0 <= i < addresses.len() && 0 <= j < addresses.len() && i != j && addresses[i] is Some
            && addresses[j] is Some implies !ranges_overlap(
        addresses[i]->0 as int,
        requests[i].size as int,
        addresses[j]->0 as int,
        requests[j].size as int,
    ) by {
        assert(fixed_bar_fault(requests, start, end, i) is None) by {
            assert(requests[i] == requests[i]);
        }
        assert(fixed_bar_fault(requests, start, end, j) is None) by {
            assert(requests[j] == requests[j]);
        }
        if places_before(requests, j, i) {
            assert(!is_blocked(requests, addresses, i, addresses[i]->0 as int));
        } else if places_before(requests, i, j) {
            assert(!is_blocked(requests, addresses, j, addresses[j]->0 as int));
        } else {
            assert(requests[i].address is Fixed && requests[j].address is Fixed);
            if i < j {
                assert(!overlaps_fixed(requests, j));
            } else {
                assert(!overlaps_fixed(requests, i));
            }
        }
    }
}

/// Config offset of capability `i`: the first stands at `0x40`, each other at the
/// next multiple of 4 behind the one before it.
pub open spec fn capability_offset(capabilities: Seq<PciCapabilitySpec>, i: int) -> int
    decreases i,
{
    if i <= 0 {
        0x40
    } else {
        (capability_offset(capabilities, i - 1) + capabilities[i - 1].size() + 3) / 4 * 4
    }
}

/// Whether every capability ends inside the configuration space.
pub open spec fn capabilities_fit(capabilities: Seq<PciCapabilitySpec>) -> bool {
    forall|i: int|
        #![trigger capabilities[i]]
        0 <= i < capabilities.len() ==> capability_offset(capabilities, i) + capabilities[i].size()
            <= 256
}

/// Whether `layouts` are the capabilities at their offsets.
pub open spec fn capabilities_placed(
    capabilities: Seq<PciCapabilitySpec>,
    layouts: Seq<PciCapabilityLayout>,
) -> bool {
    &&& layouts.len() == capabilities.len()
    &&& forall|i: int|
        #![trigger layouts[i]]
        0 <= i < layouts.len() ==> layouts[i].wf() && layouts[i].spec == capabilities[i]
            && layouts[i].offset == capability_offset(capabilities, i)
}

/// Gives every capability its place.
///
/// # Errors
///
/// Returns [`PciError::InvalidCapability`] when one of them does not fit.
pub fn place_capabilities(capabilities: Vec<PciCapabilitySpec>) -> (result: PciResult<
    Vec<PciCapabilityLayout>,
>)
    requires
        forall|i: int|
            #![trigger capabilities@[i]]
            0 <= i < capabilities@.len() ==> capabilities@[i].wf(),
    ensures
        capabilities_fit(capabilities@) ==> (result matches Ok(layouts) && capabilities_placed(
            capabilities@,
            layouts@,
        )),
        !capabilities_fit(capabilities@) ==> result == Err::<Vec<PciCapabilityLayout>, PciError>(
            PciError::InvalidCapability { detail: "capabilities exceed the configuration space" },
        ),
{
    let count: usize = capabilities.len();
    let mut rest = capabilities;
    let mut layouts: Vec<PciCapabilityLayout> = Vec::new();
    let mut offset: usize = 0x40;
    let mut i: usize = 0;
    while i < count
        invariant
            i <= count == capabilities@.len(),
            rest@ == capabilities@.skip(i as int),
            forall|j: int|
                #![trigger capabilities@[j]]
                0 <= j < capabilities@.len() ==> capabilities@[j].wf(),
            0x40 <= offset <= 256,
            offset == capability_offset(capabilities@, i as int),
            layouts@.len() == i,
            forall|j: int|
                #![trigger layouts@[j]]
                0 <= j < i ==> layouts@[j].wf() && layouts@[j].spec == capabilities@[j]
                    && layouts@[j].offset == capability_offset(capabilities@, j),
        decreases count - i,
    {
        let spec = rest.remove(0);
        assert(spec == capabilities@[i as int]);
        assert(rest@ =~= capabilities@.skip(i + 1));
        let end: usize = offset + spec.body.len() + 2;
        if end > 256 {
            assert(capability_offset(capabilities@, i as int) + capabilities@[i as int].size()
                > 256);
            return Err(
                PciError::InvalidCapability {
                    detail: "capabilities exceed the configuration space",
                },
            );
        }
        layouts.push(PciCapabilityLayout { offset: offset as u8, spec });
        offset = (end + 3) / 4 * 4;
        i = i + 1;
    }
    assert forall|j: int|
        #![trigger capabilities@[j]]
        0 <= j < capabilities@.len() implies capability_offset(capabilities@, j)
        + capabilities@[j].size() <= 256 by {
        assert(layouts@[j].wf());
    }
    Ok(layouts)
}

/// The addresses of functions follow from the requests and the reservations alone.
pub proof fn law_bdf_placement_is_unique(
    requests: Seq<ResourceRequest<PciBdf>>,
    reserved: Seq<PciBdf>,
    first: Seq<PciBdf>,
    second: Seq<PciBdf>,
)
    requires
        bdfs_placed(requests, reserved, first),
        bdfs_placed(requests, reserved, second),
    ensures
        first == second,
{
    assert forall|i: int| 0 <= i < first.len() implies #[trigger] first[i] == second[i] by {
        let one = first[i];
        let other = second[i];
        assert(is_placed_at(requests, reserved, i, one));
        assert(is_placed_at(requests, reserved, i, other));
        if requests[i] is Auto {
            if one.device < other.device {
                lemma_free_devices_monotonic(
                    requests,
                    reserved,
                    one.device + 1,
                    other.device as int,
                );
            } else if other.device < one.device {
                lemma_free_devices_monotonic(
                    requests,
                    reserved,
                    other.device + 1,
                    one.device as int,
                );
            }
        }
    }
    assert(first =~= second);
}

/// The BARs that are placed before BAR `i`.
spec fn placed_before(requests: Seq<BarRequest>, i: int) -> Set<int> {
    vstd::set_lib::set_int_range(0, requests.len() as int).filter(
        |j: int| places_before(requests, j, i),
    )
}

/// A BAR that is placed before another has fewer BARs placed before itself.
proof fn lemma_placed_before_shrinks(requests: Seq<BarRequest>, j: int, i: int)
    requires
        0 <= j < requests.len(),
        0 <= i < requests.len(),
        places_before(requests, j, i),
    ensures
        placed_before(requests, j).len() < placed_before(requests, i).len(),
{
    let all = vstd::set_lib::set_int_range(0, requests.len() as int);
    vstd::set_lib::lemma_int_range(0, requests.len() as int);
    let smaller = placed_before(requests, j);
    let larger = placed_before(requests, i);
    vstd::set_lib::lemma_len_subset(smaller, all);
    vstd::set_lib::lemma_len_subset(larger, all);
    assert(!smaller.contains(j));
    assert(smaller.insert(j).subset_of(larger)) by {
        assert forall|k: int| smaller.insert(j).contains(k) implies larger.contains(k) by {
            if k != j {
                assert(places_before(requests, k, j));
                assert(places_before(requests, k, i));
            }
        }
    }
    vstd::set_lib::lemma_len_subset(smaller.insert(j), larger);
}

/// One BAR gets the same address in both placements.
proof fn lemma_bar_placement_agrees(
    requests: Seq<BarRequest>,
    first: Seq<Option<u64>>,
    second: Seq<Option<u64>>,
    start: int,
    end: int,
    i: int,
)
    requires
        bars_placed(requests, first, start, end),
        bars_placed(requests, second, start, end),
        0 <= i < requests.len(),
        first[i] is Some,
        second[i] is Some,
    ensures
        first[i] == second[i],
    decreases placed_before(requests, i).len(),
{
    if requests[i].address is Auto {
        assert forall|j: int| 0 <= j < requests.len() && places_before(requests, j, i) implies
            #[trigger] first[j] == second[j] by {
            assert(first[j] is Some && second[j] is Some);
            lemma_placed_before_shrinks(requests, j, i);
            lemma_bar_placement_agrees(requests, first, second, start, end, j);
        }
        assert forall|address: int| #[trigger] is_blocked(requests, first, i, address) == is_blocked(
            requests,
            second,
            i,
            address,
        ) by {
            if is_blocked(requests, first, i, address) {
                let j = choose|j: int|
                    #![trigger first[j]]
                    0 <= j < requests.len() && places_before(requests, j, i) && first[j] is Some
                        && ranges_overlap(
                        address,
                        requests[i].size as int,
                        first[j]->0 as int,
                        requests[j].size as int,
                    );
                assert(second[j] == first[j]);
            }
            if is_blocked(requests, second, i, address) {
                let j = choose|j: int|
                    #![trigger second[j]]
                    0 <= j < requests.len() && places_before(requests, j, i) && second[j] is Some
                        && ranges_overlap(
                        address,
                        requests[i].size as int,
                        second[j]->0 as int,
                        requests[j].size as int,
                    );
                assert(first[j] == second[j]);
            }
        }
        let one = first[i]->0 as int;
        let other = second[i]->0 as int;
        assert(is_lowest_free(requests, first, start, end, i, one));
        assert(is_lowest_free(requests, second, start, end, i, other));
        if one < other {
            assert(is_blocked(requests, second, i, one));
        } else if other < one {
            assert(is_blocked(requests, first, i, other));
        }
    }
}

/// The addresses of BARs follow from the requests and the aperture alone.
pub proof fn law_bar_placement_is_unique(
    requests: Seq<BarRequest>,
    first: Seq<Option<u64>>,
    second: Seq<Option<u64>>,
    start: int,
    end: int,
)
    requires
        bars_placed(requests, first, start, end),
        bars_placed(requests, second, start, end),
        forall|i: int| #![trigger first[i]] 0 <= i < first.len() ==> first[i] is Some,
        forall|i: int| #![trigger second[i]] 0 <= i < second.len() ==> second[i] is Some,
    ensures
        first == second,
{
    assert forall|i: int| 0 <= i < first.len() implies #[trigger] first[i] == second[i] by {
        lemma_bar_placement_agrees(requests, first, second, start, end, i);
    }
    assert(first =~= second);
}

} // verus!
