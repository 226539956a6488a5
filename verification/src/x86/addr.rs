//! Guest and host addresses of the x86 vCPU core.

use core::ops::Add;
use vstd::prelude::*;
use vstd::std_specs::convert::FromSpecImpl;
use vstd::std_specs::ops::AddSpecImpl;

verus! {

/// Size of a 4 KiB page.
pub const X86_PAGE_SIZE_4K: usize = 0x1000;

/// Guest physical address.
#[derive(Clone, Copy, Debug, PartialEq, Eq, PartialOrd, Ord, Structural)]
pub struct X86GuestPhysAddr(pub usize);

impl X86GuestPhysAddr {
    /// Creates an address from a raw `usize`.
    pub fn from_usize(addr: usize) -> (result: Self)
        ensures
            result.0 == addr,
    {
        X86GuestPhysAddr(addr)
    }

    /// Returns the raw address value.
    pub fn as_usize(self) -> (addr: usize)
        ensures
            addr == self.0,
    {
        self.0
    }

    /// Moves the address up by `rhs` bytes.
    pub fn advance(&mut self, rhs: usize)
        requires
            old(self).0 + rhs <= usize::MAX,
        ensures
            final(self).0 == old(self).0 + rhs,
    {
        self.0 = self.0 + rhs;
    }
}

impl FromSpecImpl<usize> for X86GuestPhysAddr {
    open spec fn obeys_from_spec() -> bool {
        true
    }

    open spec fn from_spec(value: usize) -> Self {
        X86GuestPhysAddr(value)
    }
}

impl From<usize> for X86GuestPhysAddr {
    fn from(value: usize) -> (result: Self) {
        X86GuestPhysAddr::from_usize(value)
    }
}

impl FromSpecImpl<X86GuestPhysAddr> for usize {
    open spec fn obeys_from_spec() -> bool {
        true
    }

    open spec fn from_spec(value: X86GuestPhysAddr) -> Self {
        value.0
    }
}

impl From<X86GuestPhysAddr> for usize {
    fn from(value: X86GuestPhysAddr) -> (result: Self) {
        value.as_usize()
    }
}

impl AddSpecImpl<usize> for X86GuestPhysAddr {
    open spec fn obeys_add_spec() -> bool {
        true
    }

    open spec fn add_req(self, rhs: usize) -> bool {
        self.0 + rhs <= usize::MAX
    }

    open spec fn add_spec(self, rhs: usize) -> Self {
        X86GuestPhysAddr((self.0 + rhs) as usize)
    }
}

impl Add<usize> for X86GuestPhysAddr {
    type Output = Self;

    fn add(self, rhs: usize) -> (result: Self) {
        X86GuestPhysAddr(self.0 + rhs)
    }
}

/// Guest virtual address.
#[derive(Clone, Copy, Debug, PartialEq, Eq, PartialOrd, Ord, Structural)]
pub struct X86GuestVirtAddr(pub usize);

impl X86GuestVirtAddr {
    /// Creates an address from a raw `usize`.
    pub fn from_usize(addr: usize) -> (result: Self)
        ensures
            result.0 == addr,
    {
        X86GuestVirtAddr(addr)
    }

    /// Returns the raw address value.
    pub fn as_usize(self) -> (addr: usize)
        ensures
            addr == self.0,
    {
        self.0
    }

    /// Moves the address up by `rhs` bytes.
    pub fn advance(&mut self, rhs: usize)
        requires
            old(self).0 + rhs <= usize::MAX,
        ensures
            final(self).0 == old(self).0 + rhs,
    {
        self.0 = self.0 + rhs;
    }
}

impl FromSpecImpl<usize> for X86GuestVirtAddr {
    open spec fn obeys_from_spec() -> bool {
        true
    }

    open spec fn from_spec(value: usize) -> Self {
        X86GuestVirtAddr(value)
    }
}

impl From<usize> for X86GuestVirtAddr {
    fn from(value: usize) -> (result: Self) {
        X86GuestVirtAddr::from_usize(value)
    }
}

impl FromSpecImpl<X86GuestVirtAddr> for usize {
    open spec fn obeys_from_spec() -> bool {
        true
    }

    open spec fn from_spec(value: X86GuestVirtAddr) -> Self {
        value.0
    }
}

impl From<X86GuestVirtAddr> for usize {
    fn from(value: X86GuestVirtAddr) -> (result: Self) {
        value.as_usize()
    }
}

impl AddSpecImpl<usize> for X86GuestVirtAddr {
    open spec fn obeys_add_spec() -> bool {
        true
    }

    open spec fn add_req(self, rhs: usize) -> bool {
        self.0 + rhs <= usize::MAX
    }

    open spec fn add_spec(self, rhs: usize) -> Self {
        X86GuestVirtAddr((self.0 + rhs) as usize)
    }
}

impl Add<usize> for X86GuestVirtAddr {
    type Output = Self;

    fn add(self, rhs: usize) -> (result: Self) {
        X86GuestVirtAddr(self.0 + rhs)
    }
}

/// Host physical address.
#[derive(Clone, Copy, Debug, PartialEq, Eq, PartialOrd, Ord, Structural)]
pub struct X86HostPhysAddr(pub usize);

impl X86HostPhysAddr {
    /// Creates an address from a raw `usize`.
    pub fn from_usize(addr: usize) -> (result: Self)
        ensures
            result.0 == addr,
    {
        X86HostPhysAddr(addr)
    }

    /// Returns the raw address value.
    pub fn as_usize(self) -> (addr: usize)
        ensures
            addr == self.0,
    {
        self.0
    }

    /// Moves the address up by `rhs` bytes.
    pub fn advance(&mut self, rhs: usize)
        requires
            old(self).0 + rhs <= usize::MAX,
        ensures
            final(self).0 == old(self).0 + rhs,
    {
        self.0 = self.0 + rhs;
    }
}

impl FromSpecImpl<usize> for X86HostPhysAddr {
    open spec fn obeys_from_spec() -> bool {
        true
    }

    open spec fn from_spec(value: usize) -> Self {
        X86HostPhysAddr(value)
    }
}

impl From<usize> for X86HostPhysAddr {
    fn from(value: usize) -> (result: Self) {
        X86HostPhysAddr::from_usize(value)
    }
}

impl FromSpecImpl<X86HostPhysAddr> for usize {
    open spec fn obeys_from_spec() -> bool {
        true
    }

    open spec fn from_spec(value: X86HostPhysAddr) -> Self {
        value.0
    }
}

impl From<X86HostPhysAddr> for usize {
    fn from(value: X86HostPhysAddr) -> (result: Self) {
        value.as_usize()
    }
}

impl AddSpecImpl<usize> for X86HostPhysAddr {
    open spec fn obeys_add_spec() -> bool {
        true
    }

    open spec fn add_req(self, rhs: usize) -> bool {
        self.0 + rhs <= usize::MAX
    }

    open spec fn add_spec(self, rhs: usize) -> Self {
        X86HostPhysAddr((self.0 + rhs) as usize)
    }
}

impl Add<usize> for X86HostPhysAddr {
    type Output = Self;

    fn add(self, rhs: usize) -> (result: Self) {
        X86HostPhysAddr(self.0 + rhs)
    }
}

/// Host virtual address.
#[derive(Clone, Copy, Debug, PartialEq, Eq, PartialOrd, Ord, Structural)]
pub struct X86HostVirtAddr(pub usize);

impl X86HostVirtAddr {
    /// Creates an address from a raw `usize`.
    pub fn from_usize(addr: usize) -> (result: Self)
        ensures
            result.0 == addr,
    {
        X86HostVirtAddr(addr)
    }

    /// Returns the raw address value.
    pub fn as_usize(self) -> (addr: usize)
        ensures
            addr == self.0,
    {
        self.0
    }

    /// Moves the address up by `rhs` bytes.
    pub fn advance(&mut self, rhs: usize)
        requires
            old(self).0 + rhs <= usize::MAX,
        ensures
            final(self).0 == old(self).0 + rhs,
    {
        self.0 = self.0 + rhs;
    }
}

impl FromSpecImpl<usize> for X86HostVirtAddr {
    open spec fn obeys_from_spec() -> bool {
        true
    }

    open spec fn from_spec(value: usize) -> Self {
        X86HostVirtAddr(value)
    }
}

impl From<usize> for X86HostVirtAddr {
    fn from(value: usize) -> (result: Self) {
        X86HostVirtAddr::from_usize(value)
    }
}

impl FromSpecImpl<X86HostVirtAddr> for usize {
    open spec fn obeys_from_spec() -> bool {
        true
    }

    open spec fn from_spec(value: X86HostVirtAddr) -> Self {
        value.0
    }
}

impl From<X86HostVirtAddr> for usize {
    fn from(value: X86HostVirtAddr) -> (result: Self) {
        value.as_usize()
    }
}

impl AddSpecImpl<usize> for X86HostVirtAddr {
    open spec fn obeys_add_spec() -> bool {
        true
    }

    open spec fn add_req(self, rhs: usize) -> bool {
        self.0 + rhs <= usize::MAX
    }

    open spec fn add_spec(self, rhs: usize) -> Self {
        X86HostVirtAddr((self.0 + rhs) as usize)
    }
}

impl Add<usize> for X86HostVirtAddr {
    type Output = Self;

    fn add(self, rhs: usize) -> (result: Self) {
        X86HostVirtAddr(self.0 + rhs)
    }
}

} // verus!
