//! IP addresses and CIDR exclusion ranges.
//!
//! An address value is modelled by its numeric form, used for prefix
//! tests, together with its canonical text form, used as the target
//! of DNS records and for matching existing records. A CIDR keeps the
//! network bits and the prefix length; an address is inside it when
//! it is of the same family and agrees on the first `prefix` bits.

use vstd::prelude::*;

verus! {

/// The numeric value of an address.
#[derive(Clone, Copy, Debug, PartialEq, Eq, Structural)]
pub enum IpBits {
    V4(u32),
    V6(u128),
}

/// One address value: its numeric form and its canonical text form.
pub struct Ip {
    pub bits: IpBits,
    pub text: String,
}

/// The mathematical value of an address.
pub ghost struct IpView {
    pub bits: IpBits,
    pub text: Seq<char>,
}

impl View for Ip {
    type V = IpView;

    open spec fn view(&self) -> IpView {
        IpView { bits: self.bits, text: self.text@ }
    }
}

impl Ip {
    /// A copy of this address.
    pub fn clone_ip(&self) -> (r: Ip)
        ensures
            r@ == self@,
    {
        Ip { bits: self.bits, text: self.text.clone() }
    }
}

/// A network prefix excluded from DNS management.
#[derive(Clone, Copy, Debug, PartialEq, Eq, Structural)]
pub struct Cidr {
    pub bits: IpBits,
    pub prefix: u8,
}

/// A prefix length that fits its family.
pub open spec fn cidr_wf(c: Cidr) -> bool {
    match c.bits {
        IpBits::V4(_) => c.prefix <= 32,
        IpBits::V6(_) => c.prefix <= 128,
    }
}

/// The network mask for a 32-bit prefix length.
pub open spec fn mask4(prefix: u8) -> u32 {
    if prefix == 0 {
        0u32
    } else if prefix >= 32 {
        u32::MAX
    } else {
        !(u32::MAX >> prefix)
    }
}

/// The network mask for a 128-bit prefix length.
pub open spec fn mask6(prefix: u8) -> u128 {
    if prefix == 0 {
        0u128
    } else if prefix >= 128 {
        u128::MAX
    } else {
        !(u128::MAX >> prefix)
    }
}

/// Whether the address is inside the range: same family, and equal
/// under the network mask. A mixed-family pair never matches.
pub open spec fn cidr_contains(c: Cidr, ip: IpBits) -> bool {
    match (c.bits, ip) {
        (IpBits::V4(net), IpBits::V4(a)) => a & mask4(c.prefix) == net & mask4(c.prefix),
        (IpBits::V6(net), IpBits::V6(a)) => a & mask6(c.prefix) == net & mask6(c.prefix),
        _ => false,
    }
}

impl Cidr {
    /// Whether `ip` falls inside this range.
    pub fn contains_ip(&self, ip: &IpBits) -> (r: bool)
        requires
            cidr_wf(*self),
        ensures
            r == cidr_contains(*self, *ip),
    {
        match (self.bits, *ip) {
            (IpBits::V4(net), IpBits::V4(a)) => {
                let mask: u32 = if self.prefix == 0 {
                    0u32
                } else if self.prefix >= 32 {
                    u32::MAX
                } else {
                    !(u32::MAX >> self.prefix)
                };
                a & mask == net & mask
            },
            (IpBits::V6(net), IpBits::V6(a)) => {
                let mask: u128 = if self.prefix == 0 {
                    0u128
                } else if self.prefix >= 128 {
                    u128::MAX
                } else {
                    !(u128::MAX >> self.prefix)
                };
                a & mask == net & mask
            },
            _ => false,
        }
    }
}

/// The first range of the list that contains the address, if any.
pub open spec fn spec_first_match(cidrs: Seq<Cidr>, ip: IpBits) -> Option<Cidr>
    decreases cidrs.len(),
{
    if cidrs.len() == 0 {
        None
    } else if cidr_contains(cidrs[0], ip) {
        Some(cidrs[0])
    } else {
        spec_first_match(cidrs.skip(1), ip)
    }
}

/// Look up the first excluded range that contains the address.
pub fn contains(cidrs: &Vec<Cidr>, ip: &IpBits) -> (r: Option<Cidr>)
    requires
        forall|i: int| 0 <= i < cidrs@.len() ==> cidr_wf(#[trigger] cidrs@[i]),
    ensures
        r == spec_first_match(cidrs@, *ip),
{
    let mut i: usize = 0;
    proof {
        assert(cidrs@.skip(0) =~= cidrs@);
    }
    while i < cidrs.len()
        invariant
            i <= cidrs@.len(),
            forall|k: int| 0 <= k < cidrs@.len() ==> cidr_wf(#[trigger] cidrs@[k]),
            spec_first_match(cidrs@, *ip) == spec_first_match(cidrs@.skip(i as int), *ip),
        decreases cidrs@.len() - i,
    {
        if cidrs[i].contains_ip(ip) {
            return Some(cidrs[i]);
        }
        proof {
            assert(cidrs@.skip(i as int).skip(1) =~= cidrs@.skip(i as int + 1));
        }
        i = i + 1;
    }
    None
}

} // verus!
