//! Where a tunnel leads.

use vstd::prelude::*;

verus! {

/// A destination: a socket address of either family, or a host name to be
/// resolved on the far side, each with its port.
#[derive(Clone, Debug, PartialEq, Eq)]
pub enum Address {
    /// The four bytes of an IPv4 address, and the port.
    Ipv4([u8; 4], u16),
    /// A host name, and the port.
    DomainName(String, u16),
    /// The sixteen bytes of an IPv6 address, and the port.
    Ipv6([u8; 16], u16),
}

/// An [`Address`] as contracts see it.
pub enum AddressView {
    Ipv4(Seq<u8>, u16),
    DomainName(Seq<char>, u16),
    Ipv6(Seq<u8>, u16),
}

impl View for Address {
    type V = AddressView;

    open spec fn view(&self) -> AddressView {
        match *self {
            Address::Ipv4(ip, port) => AddressView::Ipv4(ip@, port),
            Address::DomainName(name, port) => AddressView::DomainName(name@, port),
            Address::Ipv6(ip, port) => AddressView::Ipv6(ip@, port),
        }
    }
}

impl AddressView {
    /// The port, whatever the kind of address.
    pub open spec fn port(self) -> u16 {
        match self {
            AddressView::Ipv4(_, port) => port,
            AddressView::DomainName(_, port) => port,
            AddressView::Ipv6(_, port) => port,
        }
    }

    /// Holds of every view of an [`Address`]: the raw addresses have
    /// their four and sixteen bytes.
    pub open spec fn wf(self) -> bool {
        match self {
            AddressView::Ipv4(ip, _) => ip.len() == 4,
            AddressView::DomainName(_, _) => true,
            AddressView::Ipv6(ip, _) => ip.len() == 16,
        }
    }
}

impl Address {
    /// The port, whatever the kind of address.
    pub fn port(&self) -> (p: u16)
        ensures
            p == self@.port(),
    {
        match self {
            Address::Ipv4(_, port) => *port,
            Address::DomainName(_, port) => *port,
            Address::Ipv6(_, port) => *port,
        }
    }

    /// A copy of this address.
    pub fn duplicate(&self) -> (a: Address)
        ensures
            a@ == self@,
    {
        match self {
            Address::Ipv4(ip, port) => Address::Ipv4(*ip, *port),
            Address::DomainName(name, port) => Address::DomainName(name.clone(), *port),
            Address::Ipv6(ip, port) => Address::Ipv6(*ip, *port),
        }
    }
}

/// Every address has a well-formed view.
pub proof fn lemma_address_view_wf(a: Address)
    ensures
        a@.wf(),
{
}

/// The four bytes of `b` from `at` on, as an array.
pub(crate) fn take4(b: &[u8], at: usize) -> (r: [u8; 4])
    requires
        at + 4 <= b@.len(),
    ensures
        r@ == b@.subrange(at as int, at + 4),
{
    let r: [u8; 4] = [b[at], b[at + 1], b[at + 2], b[at + 3]];
    assert(r@ =~= b@.subrange(at as int, at + 4));
    r
}

/// The sixteen bytes of `b` from `at` on, as an array.
pub(crate) fn take16(b: &[u8], at: usize) -> (r: [u8; 16])
    requires
        at + 16 <= b@.len(),
    ensures
        r@ == b@.subrange(at as int, at + 16),
{
    let r: [u8; 16] = [
        b[at],
        b[at + 1],
        b[at + 2],
        b[at + 3],
        b[at + 4],
        b[at + 5],
        b[at + 6],
        b[at + 7],
        b[at + 8],
        b[at + 9],
        b[at + 10],
        b[at + 11],
        b[at + 12],
        b[at + 13],
        b[at + 14],
        b[at + 15],
    ];
    assert(r@ =~= b@.subrange(at as int, at + 16));
    r
}

} // verus!
