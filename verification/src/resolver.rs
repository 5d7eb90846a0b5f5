//! Resolution of the send targets: MAC candidates from the lines of a file,
//! and broadcast networks from CIDR strings or from the local interfaces.

use vstd::prelude::*;
use vstd::string::StrSliceExecFns;

use crate::errors::NetworkError;
use crate::mac::count_char;
use crate::mac::count_char_exec;
use crate::net::popcount;
use crate::net::prefix_from_netmask;
use crate::net::NetworkTarget;

verus! {

/// The whitespace characters trimmed from the ends of a file line.
pub open spec fn is_space(c: char) -> bool {
    c == ' ' || c == '\t' || c == '\n' || c == '\r' || c == '\x0c'
}

/// `s` without its leading whitespace.
pub open spec fn trim_front(s: Seq<char>) -> Seq<char>
    decreases s.len(),
{
    if s.len() > 0 && is_space(s[0]) {
        trim_front(s.drop_first())
    } else {
        s
    }
}

/// `s` without its trailing whitespace.
pub open spec fn trim_back(s: Seq<char>) -> Seq<char>
    decreases s.len(),
{
    if s.len() > 0 && is_space(s[s.len() - 1]) {
        trim_back(s.drop_last())
    } else {
        s
    }
}

/// `s` without leading and trailing whitespace.
pub open spec fn trimmed(s: Seq<char>) -> Seq<char> {
    trim_back(trim_front(s))
}

fn is_space_exec(c: char) -> (r: bool)
    ensures
        r == is_space(c),
{
    c == ' ' || c == '\t' || c == '\n' || c == '\r' || c == '\x0c'
}

/// Removes leading and trailing whitespace from a line.
fn trim_exec(s: &str) -> (r: String)
    ensures
        r@ == trimmed(s@),
{
    let len = s.unicode_len();
    let mut a: usize = 0;
    proof {
        assert(s@.skip(0) =~= s@);
    }
    while a < len && is_space_exec(s.get_char(a))
        invariant
            a <= len,
            len == s@.len(),
            trim_front(s@) == trim_front(s@.skip(a as int)),
        decreases len - a,
    {
        proof {
            assert(s@.skip(a as int).drop_first() =~= s@.skip(a as int + 1));
        }
        a = a + 1;
    }
    proof {
        assert(trim_front(s@) == s@.skip(a as int));
    }
    let mut b: usize = len;
    while b > a && is_space_exec(s.get_char(b - 1))
        invariant
            a <= b <= len,
            len == s@.len(),
            trim_front(s@) == s@.skip(a as int),
            trim_back(s@.skip(a as int)) == trim_back(s@.subrange(a as int, b as int)),
        decreases b,
    {
        proof {
            assert(s@.subrange(a as int, b as int).drop_last() =~= s@.subrange(
                a as int,
                b as int - 1,
            ));
        }
        b = b - 1;
    }
    proof {
        assert(trimmed(s@) == s@.subrange(a as int, b as int));
    }
    let t = s.substring_char(a, b);
    t.to_owned()
}

/// A file line survives filtering when, after trimming, it is no comment
/// (`#` or `//`), is exactly 17 characters long, and contains a `:` or `-`
/// separator.
pub open spec fn keep_line(l: Seq<char>) -> bool {
    let t = trimmed(l);
    &&& t.len() == 17
    &&& t[0] != '#'
    &&& !(t[0] == '/' && t[1] == '/')
    &&& (count_char(t, ':') > 0 || count_char(t, '-') > 0)
}

/// The trimmed MAC candidates that a list of file lines yields, in order.
pub open spec fn kept_lines(ls: Seq<Seq<char>>) -> Seq<Seq<char>>
    decreases ls.len(),
{
    if ls.len() == 0 {
        Seq::empty()
    } else {
        kept_lines(ls.drop_last()) + (if keep_line(ls.last()) {
            seq![trimmed(ls.last())]
        } else {
            Seq::<Seq<char>>::empty()
        })
    }
}

/// Filters the lines of a MAC-address file: each line is trimmed, and a
/// line is kept exactly when it is no comment, no blank, is 17 characters
/// long and contains a separator. A line that fails is dropped silently,
/// with no report.
pub fn filter_mac_lines(lines: &Vec<String>) -> (r: Vec<String>)
    ensures
        r@.map_values(|l: String| l@) == kept_lines(lines@.map_values(|l: String| l@)),
{
    let ghost lv = lines@.map_values(|l: String| l@);
    let mut r: Vec<String> = Vec::new();
    let mut i: usize = 0;
    while i < lines.len()
        invariant
            i <= lines@.len(),
            lv == lines@.map_values(|l: String| l@),
            r@.map_values(|l: String| l@) == kept_lines(lv.take(i as int)),
        decreases lines@.len() - i,
    {
        let t = trim_exec(lines[i].as_str());
        let ts = t.as_str();
        let tl = ts.unicode_len();
        let keep: bool = if tl != 17 {
            false
        } else if ts.get_char(0) == '#' {
            false
        } else if ts.get_char(0) == '/' && ts.get_char(1) == '/' {
            false
        } else {
            count_char_exec(ts, ':') > 0 || count_char_exec(ts, '-') > 0
        };
        proof {
            assert(keep == keep_line(lv[i as int]));
            assert(lv.take(i as int + 1).drop_last() =~= lv.take(i as int));
            assert(lv.take(i as int + 1).last() == lv[i as int]);
        }
        if keep {
            r.push(t);
            proof {
                assert(r@.map_values(|l: String| l@) =~= kept_lines(lv.take(i as int + 1)));
            }
        } else {
            proof {
                assert(r@.map_values(|l: String| l@) =~= kept_lines(lv.take(i as int + 1)));
            }
        }
        i = i + 1;
    }
    proof {
        assert(lv.take(lines@.len() as int) =~= lv);
    }
    r
}

/// Parses caller-supplied CIDR strings into network targets. The first
/// string that is not valid CIDR notation fails the whole resolution.
pub fn networks_from_cidrs(strs: &Vec<String>) -> (r: Result<Vec<NetworkTarget>, NetworkError>)
    ensures
        r is Ok <==> (forall|j: int|
            0 <= j < strs@.len() ==> (#[trigger] crate::net::cidr_parse_of(strs@[j]@)) is Some),
        r matches Ok(nets) ==> nets@.len() == strs@.len() && (forall|j: int|
            0 <= j < strs@.len() ==> (#[trigger] nets@[j]).wf() && Some(
                (nets@[j].addr, nets@[j].prefix),
            ) == crate::net::cidr_parse_of(strs@[j]@)),
        r matches Err(e) ==> (e matches NetworkError::InvalidCidr { input } && exists|j: int|
            0 <= j < strs@.len() && (#[trigger] crate::net::cidr_parse_of(strs@[j]@)) is None
                && input@ == strs@[j]@ && (forall|t: int|
                0 <= t < j ==> crate::net::cidr_parse_of(strs@[t]@) is Some)),
{
    let mut nets: Vec<NetworkTarget> = Vec::new();
    let mut i: usize = 0;
    while i < strs.len()
        invariant
            i <= strs@.len(),
            nets@.len() == i,
            forall|j: int|
                0 <= j < i ==> (#[trigger] nets@[j]).wf() && Some((nets@[j].addr, nets@[j].prefix))
                    == crate::net::cidr_parse_of(strs@[j]@),
        decreases strs@.len() - i,
    {
        match NetworkTarget::from_cidr(strs[i].as_str()) {
            Ok(n) => {
                nets.push(n);
            },
            Err(e) => {
                proof {
                    let j = i as int;
                    assert(crate::net::cidr_parse_of(strs@[j]@) is None);
                    assert forall|t: int|
                        0 <= t < j implies crate::net::cidr_parse_of(strs@[t]@) is Some by {
                        assert(nets@[t].wf());
                    }
                }
                return Err(e);
            },
        }
        i = i + 1;
    }
    proof {
        assert forall|j: int|
            0 <= j < strs@.len() implies (#[trigger] crate::net::cidr_parse_of(strs@[j]@))
            is Some by {
            assert(nets@[j].wf());
        }
    }
    Ok(nets)
}

/// One local interface address as the operating system reports it.
#[derive(Clone, Copy, Debug)]
pub enum IfaceAddr {
    /// An IPv4 address with its netmask, both in host order.
    V4 { ip: u32, netmask: u32 },
    /// An IPv6 address; Wake-on-LAN resolution ignores these.
    V6,
}

/// The network targets a list of interface addresses yields: one per IPv4
/// entry, keeping its address, with the set-bit count of its netmask as the
/// prefix length.
pub open spec fn interface_networks(entries: Seq<IfaceAddr>) -> Seq<NetworkTarget>
    decreases entries.len(),
{
    if entries.len() == 0 {
        Seq::empty()
    } else {
        interface_networks(entries.drop_last()) + (match entries.last() {
            IfaceAddr::V4 { ip, netmask } => seq![
                NetworkTarget { addr: ip, prefix: popcount(netmask as nat) as u8 },
            ],
            IfaceAddr::V6 => Seq::<NetworkTarget>::empty(),
        })
    }
}

/// Derives one broadcast network per IPv4 interface address; the prefix
/// length is the number of set bits of the interface's netmask. IPv6
/// entries are skipped.
pub fn networks_from_interfaces(entries: &Vec<IfaceAddr>) -> (r: Vec<NetworkTarget>)
    ensures
        r@ == interface_networks(entries@),
        forall|j: int| 0 <= j < r@.len() ==> (#[trigger] r@[j]).wf(),
{
    let mut r: Vec<NetworkTarget> = Vec::new();
    let mut i: usize = 0;
    while i < entries.len()
        invariant
            i <= entries@.len(),
            r@ == interface_networks(entries@.take(i as int)),
            forall|j: int| 0 <= j < r@.len() ==> (#[trigger] r@[j]).wf(),
        decreases entries@.len() - i,
    {
        proof {
            assert(entries@.take(i as int + 1).drop_last() =~= entries@.take(i as int));
            assert(entries@.take(i as int + 1).last() == entries@[i as int]);
        }
        match entries[i] {
            IfaceAddr::V4 { ip, netmask } => {
                let prefix = prefix_from_netmask(netmask);
                r.push(NetworkTarget { addr: ip, prefix });
            },
            IfaceAddr::V6 => {},
        }
        proof {
            assert(r@ =~= interface_networks(entries@.take(i as int + 1)));
        }
        i = i + 1;
    }
    proof {
        assert(entries@.take(entries@.len() as int) =~= entries@);
    }
    r
}

/// Relies on if_addrs::get_if_addrs: it lists the addresses of the local
/// interfaces, one entry per address, an IPv4 entry carrying the address
/// and its netmask. What comes back depends on the machine, so nothing
/// more is assumed of the result.
#[verifier::external_body]
fn fetch_interface_addrs() -> (r: Result<Vec<IfaceAddr>, ()>) {
    match if_addrs::get_if_addrs() {
        Ok(list) => Ok(list.into_iter().map(|e| match e.addr {
            if_addrs::IfAddr::V4(a) => IfaceAddr::V4 { ip: u32::from(a.ip), netmask: u32::from(a.netmask) },
            if_addrs::IfAddr::V6(_) => IfaceAddr::V6,
        }).collect()),
        Err(_) => Err(()),
    }
}

/// Resolves the target networks from the local interfaces: one broadcast
/// network per IPv4 interface address. Fails when the operating system
/// cannot enumerate the interfaces; whatever the enumeration returned, every
/// derived network is well formed.
pub fn discover_local_networks() -> (r: Result<Vec<NetworkTarget>, NetworkError>)
    ensures
        r matches Ok(nets) ==> (forall|j: int|
            0 <= j < nets@.len() ==> (#[trigger] nets@[j]).wf()),
        r matches Err(e) ==> e matches NetworkError::InterfaceEnumeration,
{
    match fetch_interface_addrs() {
        Ok(entries) => Ok(networks_from_interfaces(&entries)),
        Err(_) => Err(NetworkError::InterfaceEnumeration),
    }
}

} // verus!
