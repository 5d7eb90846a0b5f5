//! IPv4 networks: a base address with a prefix length, the derived host
//! mask, and the broadcast address Wake-on-LAN packets are sent to.

use vstd::prelude::*;
use vstd::arithmetic::power2::lemma2_to64;
use vstd::arithmetic::power2::lemma_pow2_unfold;
use vstd::arithmetic::power2::pow2;

use crate::errors::NetworkError;

verus! {

/// An IPv4 network: a base address and a prefix length of at most 32 bits.
/// The address is held in host order (the first octet in the highest byte).
#[derive(Clone, Copy, Debug)]
pub struct NetworkTarget {
    pub addr: u32,
    pub prefix: u8,
}

/// The host mask of a prefix length: ones in exactly the `32 - prefix` low
/// bits.
pub open spec fn spec_hostmask(prefix: u8) -> u32 {
    if prefix >= 32 {
        0u32
    } else {
        0xFFFF_FFFFu32 >> (prefix as u32)
    }
}

/// The broadcast address of a network: its base address with all host bits
/// set.
pub open spec fn spec_broadcast(addr: u32, prefix: u8) -> u32 {
    addr | spec_hostmask(prefix)
}

/// Number of set bits in the binary form of `n`.
pub open spec fn popcount(n: nat) -> nat
    decreases n,
{
    if n == 0 {
        0
    } else {
        popcount(n / 2) + n % 2
    }
}

proof fn lemma_popcount_bound(n: nat, b: nat)
    requires
        n < pow2(b),
    ensures
        popcount(n) <= b,
    decreases b,
{
    if n > 0 {
        if b == 0 {
            assert(pow2(0) == 1) by {
                lemma2_to64();
            }
        } else {
            lemma_pow2_unfold(b);
            lemma_popcount_bound(n / 2, (b - 1) as nat);
        }
    }
}

impl NetworkTarget {
    /// A well-formed network has a prefix length of at most 32.
    pub open spec fn wf(&self) -> bool {
        self.prefix <= 32
    }

    /// Builds a network from a base address and a prefix length, rejecting
    /// prefix lengths over 32.
    pub fn new(addr: u32, prefix: u8) -> (r: Option<NetworkTarget>)
        ensures
            r is Some <==> prefix <= 32,
            r matches Some(n) ==> n.wf() && n.addr == addr && n.prefix == prefix,
    {
        if prefix <= 32 {
            Some(NetworkTarget { addr, prefix })
        } else {
            None
        }
    }

    /// The broadcast address of this network: the base address OR-ed with
    /// the inverted network mask.
    pub fn broadcast(&self) -> (r: u32)
        requires
            self.wf(),
        ensures
            r == spec_broadcast(self.addr, self.prefix),
    {
        let host: u32 = if self.prefix >= 32 {
            0
        } else {
            0xFFFF_FFFFu32 >> (self.prefix as u32)
        };
        self.addr | host
    }

    /// Parses one network string in CIDR notation (`a.b.c.d/p`).
    pub fn from_cidr(s: &str) -> (r: Result<NetworkTarget, NetworkError>)
        ensures
            r is Ok <==> cidr_parse_of(s@) is Some,
            r matches Ok(n) ==> n.wf() && Some((n.addr, n.prefix)) == cidr_parse_of(s@),
            r matches Err(e) ==> (e matches NetworkError::InvalidCidr { input } && input@ == s@),
    {
        match parse_cidr(s) {
            Some((addr, prefix)) => Ok(NetworkTarget { addr, prefix }),
            None => Err(NetworkError::InvalidCidr { input: s.to_owned() }),
        }
    }
}

/// Counts the set bits of `mask`; for a network mask this is its prefix
/// length, and it never exceeds 32.
pub fn prefix_from_netmask(mask: u32) -> (r: u8)
    ensures
        r == popcount(mask as nat),
        r <= 32,
{
    proof {
        assert(pow2(32) == 0x1_0000_0000) by {
            lemma2_to64();
        }
        lemma_popcount_bound(mask as nat, 32);
    }
    let mut x = mask;
    let mut count: u8 = 0;
    while x > 0
        invariant
            count + popcount(x as nat) == popcount(mask as nat),
            popcount(mask as nat) <= 32,
        decreases x,
    {
        if x % 2 == 1 {
            count = count + 1;
        }
        x = x / 2;
    }
    count
}

/// What `ipnet`'s IPv4-network parser returns for a given string: the base
/// address and the prefix length, or `None` when the string is not IPv4
/// CIDR notation. A function of the string alone.
pub uninterp spec fn cidr_parse_of(s: Seq<char>) -> Option<(u32, u8)>;

/// Relies on ipnet::Ipv4Net::from_str (with Ipv4Net::addr and
/// Ipv4Net::prefix_len): it parses `a.b.c.d/p` CIDR notation, accepts
/// prefix lengths up to 32 only, and fails on any string without a `/`.
#[verifier::external_body]
fn parse_cidr(s: &str) -> (r: Option<(u32, u8)>)
    ensures
        r == cidr_parse_of(s@),
        r matches Some(t) ==> t.1 <= 32,
        (forall|i: int| 0 <= i < s@.len() ==> s@[i] != '/') ==> r is None,
{
    match s.parse::<ipnet::Ipv4Net>() {
        Ok(net) => Some((u32::from(net.addr()), net.prefix_len())),
        Err(_) => None,
    }
}

} // verus!
