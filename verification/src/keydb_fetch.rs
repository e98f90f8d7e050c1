//! Fetching the key database: where a URL leads, which addresses may be
//! connected to, and what a reply is worth. The transport is the caller's.

use crate::text::{
    CharClass, begins, chars_of, lemma_until_len, len_until, matches_at, parse_unsigned,
    parsed_unsigned, string_of, until,
};
use vstd::prelude::*;
use vstd::string::*;

verus! {

/// How long connecting may take, in seconds.
pub const CONNECT_TIMEOUT_SECS: u64 = 10;

/// How long the head of the reply may take, in seconds.
pub const READ_TIMEOUT_SECS: u64 = 60;

/// How long the body may stand still, in seconds.
pub const STALL_TIMEOUT_SECS: u64 = 20;

/// How long the body may take in all, in seconds.
pub const BODY_TRANSFER_BUDGET_SECS: u64 = 120;

/// How long resolving a name may take, in seconds.
pub const DNS_TIMEOUT_SECS: u64 = 10;

/// How many bytes a body may have.
pub const MAX_BODY_BYTES: u64 = 67108864;

/// How many addresses a connection is pinned to at most.
pub const MAX_PINNED_ADDRS: usize = 16;

/// How many names may be resolved at once.
pub const MAX_DNS_IN_FLIGHT: usize = 4;

/// An address of the Internet.
#[derive(Clone, Copy, Debug, PartialEq, Eq)]
pub enum IpAddress {
    V4([u8; 4]),
    V6([u16; 8]),
}

/// An IPv4 address that no public server has: loopback, private, link-local,
/// broadcast, documentation, unspecified, multicast, shared by carriers, used
/// for benchmarks, assigned to protocols, or reserved.
pub open spec fn is_internal_v4(a: int, b: int, c: int, d: int) -> bool {
    ||| a == 127
    ||| a == 10
    ||| a == 172 && 16 <= b < 32
    ||| a == 192 && b == 168
    ||| a == 169 && b == 254
    ||| a == 255 && b == 255 && c == 255 && d == 255
    ||| a == 192 && b == 0 && c == 2
    ||| a == 198 && b == 51 && c == 100
    ||| a == 203 && b == 0 && c == 113
    ||| 224 <= a < 240
    ||| a == 100 && 64 <= b < 128
    ||| a == 198 && 18 <= b < 20
    ||| a == 192 && b == 0 && c == 0
    ||| a == 0
    ||| a >= 240
}

/// The IPv4 address in two segments is internal.
pub open spec fn is_internal_pair(hi: int, lo: int) -> bool {
    is_internal_v4(hi / 256, hi % 256, lo / 256, lo % 256)
}

/// An IPv6 address that no public server has: loopback, unspecified, multicast,
/// unique local, link-local, or one that stands for or tunnels to an internal
/// IPv4 address.
pub open spec fn is_internal_v6(s: Seq<u16>) -> bool {
    let top_zero = s[0] == 0 && s[1] == 0 && s[2] == 0 && s[3] == 0 && s[4] == 0;
    ||| top_zero && s[5] == 0 && s[6] == 0 && (s[7] == 1 || s[7] == 0)
    ||| s[0] >= 0xff00
    ||| 0xfc00 <= s[0] < 0xfe00
    ||| 0xfe80 <= s[0] < 0xfec0
    ||| top_zero && (s[5] == 0 || s[5] == 0xffff) && is_internal_pair(s[6] as int, s[7] as int)
    ||| s[0] == 0x2002 && is_internal_pair(s[1] as int, s[2] as int)
    ||| s[0] == 0x2001 && s[1] == 0 && is_internal_pair(0xffff - s[6], 0xffff - s[7])
    ||| s[0] == 0x0064 && s[1] == 0xff9b && is_internal_pair(s[6] as int, s[7] as int)
}

/// An address that must not be connected to.
pub open spec fn is_internal(ip: IpAddress) -> bool {
    match ip {
        IpAddress::V4(o) => is_internal_v4(o@[0] as int, o@[1] as int, o@[2] as int, o@[3] as int),
        IpAddress::V6(s) => is_internal_v6(s@),
    }
}

fn is_blocked_v4(a: u8, b: u8, c: u8, d: u8) -> (r: bool)
    ensures
        r == is_internal_v4(a as int, b as int, c as int, d as int),
{
    a == 127 || a == 10 || (a == 172 && 16 <= b && b < 32) || (a == 192 && b == 168) || (a == 169
        && b == 254) || (a == 255 && b == 255 && c == 255 && d == 255) || (a == 192 && b == 0 && c
        == 2) || (a == 198 && b == 51 && c == 100) || (a == 203 && b == 0 && c == 113) || (224 <= a
        && a < 240) || (a == 100 && 64 <= b && b < 128) || (a == 198 && 18 <= b && b < 20) || (a
        == 192 && b == 0 && c == 0) || a == 0 || a >= 240
}

fn is_blocked_pair(hi: u16, lo: u16) -> (r: bool)
    ensures
        r == is_internal_pair(hi as int, lo as int),
{
    is_blocked_v4((hi / 256) as u8, (hi % 256) as u8, (lo / 256) as u8, (lo % 256) as u8)
}

fn is_blocked_v6(s: &[u16; 8]) -> (r: bool)
    ensures
        r == is_internal_v6(s@),
{
    let top_zero = s[0] == 0 && s[1] == 0 && s[2] == 0 && s[3] == 0 && s[4] == 0;
    (top_zero && s[5] == 0 && s[6] == 0 && (s[7] == 1 || s[7] == 0)) || s[0] >= 0xff00 || (0xfc00
        <= s[0] && s[0] < 0xfe00) || (0xfe80 <= s[0] && s[0] < 0xfec0) || (top_zero && (s[5] == 0
        || s[5] == 0xffff) && is_blocked_pair(s[6], s[7])) || (s[0] == 0x2002 && is_blocked_pair(
        s[1],
        s[2],
    )) || (s[0] == 0x2001 && s[1] == 0 && is_blocked_pair(0xffff - s[6], 0xffff - s[7])) || (s[0]
        == 0x0064 && s[1] == 0xff9b && is_blocked_pair(s[6], s[7]))
}

/// Whether an address must not be connected to.
pub fn is_blocked_ip(ip: &IpAddress) -> (r: bool)
    ensures
        r == is_internal(*ip),
{
    match ip {
        IpAddress::V4(o) => is_blocked_v4(o[0], o[1], o[2], o[3]),
        IpAddress::V6(s) => is_blocked_v6(s),
    }
}

/// Law: an IPv6 address that stands for an IPv4 address, plain or mapped, is
/// internal exactly when that is.
pub proof fn law_mapped_ipv4_is_judged_by_itself(s: Seq<u16>, plain: bool)
    requires
        s.len() == 8,
        s[0] == 0 && s[1] == 0 && s[2] == 0 && s[3] == 0 && s[4] == 0,
        s[5] == (if plain {
            0u16
        } else {
            0xffffu16
        }),
    ensures
        is_internal_v6(s) == is_internal_pair(s[6] as int, s[7] as int),
{
}

/// Law: an address of a 6to4 tunnel is internal exactly when the IPv4 address
/// at its end is, whatever the rest of it says.
pub proof fn law_6to4_is_judged_by_its_end(s: Seq<u16>)
    requires
        s.len() == 8,
        s[0] == 0x2002,
    ensures
        is_internal_v6(s) == is_internal_pair(s[1] as int, s[2] as int),
{
}

/// Law: an address of a Teredo tunnel is internal exactly when the IPv4 address
/// of its client is, which stands in it with every bit flipped.
pub proof fn law_teredo_is_judged_by_its_client(s: Seq<u16>)
    requires
        s.len() == 8,
        s[0] == 0x2001,
        s[1] == 0,
    ensures
        is_internal_v6(s) == is_internal_pair(0xffff - s[6], 0xffff - s[7]),
{
}

/// Law: an address of the well-known translator is internal exactly when the
/// IPv4 address that it translates to is.
pub proof fn law_nat64_is_judged_by_its_target(s: Seq<u16>)
    requires
        s.len() == 8,
        s[0] == 0x0064,
        s[1] == 0xff9b,
    ensures
        is_internal_v6(s) == is_internal_pair(s[6] as int, s[7] as int),
{
}

/// What is wrong with a URL.
#[derive(Clone, Copy, Debug, PartialEq, Eq, Structural)]
pub enum UrlFault {
    Scheme,
    NoHost,
    BadIpv6,
    BadPort,
}

impl UrlFault {
    /// What is wrong, in words.
    pub open spec fn words(self) -> Seq<char> {
        match self {
            UrlFault::Scheme => "URL must start with http:// or https://"@,
            UrlFault::NoHost => "URL has no host"@,
            UrlFault::BadIpv6 => "malformed IPv6 host"@,
            UrlFault::BadPort => "invalid port"@,
        }
    }

    /// What is wrong, in words.
    pub fn to_words(self) -> (r: &'static str)
        ensures
            r@ == self.words(),
    {
        match self {
            UrlFault::Scheme => "URL must start with http:// or https://",
            UrlFault::NoHost => "URL has no host",
            UrlFault::BadIpv6 => "malformed IPv6 host",
            UrlFault::BadPort => "invalid port",
        }
    }
}

/// `s` behind the last `c` in it; all of `s` where there is none.
pub open spec fn behind_last(s: Seq<char>, c: char) -> Seq<char>
    decreases s.len(),
{
    if s.len() == 0 || s.last() == c {
        Seq::empty()
    } else {
        behind_last(s.drop_last(), c).push(s.last())
    }
}

/// The authority of what stands behind the scheme: up to the path, the query or
/// the fragment, without the user.
pub open spec fn authority_of(rest: Seq<char>) -> Seq<char> {
    behind_last(until(rest, CharClass::UrlDelimiter), '@')
}

/// The port that `text` writes, if it writes one.
pub open spec fn port_of(text: Seq<char>) -> Option<nat> {
    parsed_unsigned(text, 65535)
}

/// The host and the port of an authority with an IPv6 address in brackets.
pub open spec fn bracketed(inner: Seq<char>, default_port: nat) -> Result<(Seq<char>, nat), UrlFault> {
    let host = until(inner, CharClass::CloseBracket);
    if host.len() == inner.len() {
        Err(UrlFault::BadIpv6)
    } else {
        let after = inner.skip(host.len() + 1int);
        if after.len() > 0 && after[0] == ':' {
            match port_of(after.skip(1)) {
                Some(p) => Ok((host, p)),
                None => Err(UrlFault::BadPort),
            }
        } else {
            Ok((host, default_port))
        }
    }
}

/// The host and the port of an authority without brackets. What stands behind
/// the last colon is a port only if it is a number.
pub open spec fn unbracketed(authority: Seq<char>, default_port: nat) -> (Seq<char>, nat) {
    let tail = behind_last(authority, ':');
    if tail.len() < authority.len() {
        match port_of(tail) {
            Some(p) => (authority.take(authority.len() - tail.len() - 1), p),
            None => (authority, default_port),
        }
    } else {
        (authority, default_port)
    }
}

/// The host and the port that an authority names.
pub open spec fn host_and_port(authority: Seq<char>, default_port: nat) -> Result<
    (Seq<char>, nat),
    UrlFault,
> {
    if authority.len() == 0 {
        Err(UrlFault::NoHost)
    } else {
        let parts = if authority[0] == '[' {
            bracketed(authority.skip(1), default_port)
        } else {
            Ok(unbracketed(authority, default_port))
        };
        match parts {
            Ok((host, port)) => if host.len() == 0 {
                Err(UrlFault::NoHost)
            } else {
                Ok((host, port))
            },
            Err(e) => Err(e),
        }
    }
}

/// Where a URL leads: the host and the port.
pub open spec fn target_of(url: Seq<char>) -> Result<(Seq<char>, nat), UrlFault> {
    if begins(url, "https://"@) {
        host_and_port(authority_of(url.skip("https://"@.len() as int)), 443)
    } else if begins(url, "http://"@) {
        host_and_port(authority_of(url.skip("http://"@.len() as int)), 80)
    } else {
        Err(UrlFault::Scheme)
    }
}

/// Where the part behind the last `c` starts.
fn last_part_at(v: &[char], c: char) -> (n: usize)
    ensures
        n <= v@.len(),
        v@.skip(n as int) == behind_last(v@, c),
        n == v@.len() - behind_last(v@, c).len(),
{
    let mut n: usize = v.len();
    assert(v@.take(n as int) =~= v@);
    assert(behind_last(v@, c) + v@.skip(n as int) =~= behind_last(v@, c));
    while n > 0 && v[n - 1] != c
        invariant
            n <= v@.len(),
            behind_last(v@, c) == behind_last(v@.take(n as int), c) + v@.skip(n as int),
        decreases n,
    {
        assert(v@.take(n as int).drop_last() =~= v@.take(n - 1));
        assert(behind_last(v@.take(n - 1), c).push(v@[n - 1]) + v@.skip(n as int) =~= behind_last(
            v@.take(n - 1),
            c,
        ) + v@.skip(n - 1));
        n = n - 1;
    }
    assert(Seq::empty() + v@.skip(n as int) =~= v@.skip(n as int));
    n
}

fn authority<'a>(rest: &'a [char]) -> (r: &'a [char])
    ensures
        r@ == authority_of(rest@),
{
    let n: usize = len_until(rest, CharClass::UrlDelimiter);
    let head = vstd::slice::slice_subrange(rest, 0, n);
    assert(head@ =~= rest@.take(n as int));
    let at: usize = last_part_at(head, '@');
    let r = vstd::slice::slice_subrange(head, at, head.len());
    assert(r@ =~= head@.skip(at as int));
    r
}

fn split_bracketed(inner: &[char], default_port: u16) -> (r: Result<(String, u16), UrlFault>)
    ensures
        match r {
            Ok((host, port)) => bracketed(inner@, default_port as nat) == Ok::<
                (Seq<char>, nat),
                UrlFault,
            >((host@, port as nat)),
            Err(e) => bracketed(inner@, default_port as nat) == Err::<(Seq<char>, nat), UrlFault>(
                e,
            ),
        },
{
    let n: usize = len_until(inner, CharClass::CloseBracket);
    proof {
        lemma_until_len(inner@, CharClass::CloseBracket);
    }
    if n == inner.len() {
        return Err(UrlFault::BadIpv6);
    }
    let head = vstd::slice::slice_subrange(inner, 0, n);
    assert(head@ =~= inner@.take(n as int));
    let host = string_of(head);
    let after = vstd::slice::slice_subrange(inner, n + 1, inner.len());
    assert(after@ =~= inner@.skip(n + 1));
    if after.len() > 0 && after[0] == ':' {
        let digits = string_of(vstd::slice::slice_subrange(after, 1, after.len()));
        assert(digits@ =~= after@.skip(1));
        match parse_unsigned(digits.as_str(), 65535) {
            Some(p) => Ok((host, p as u16)),
            None => Err(UrlFault::BadPort),
        }
    } else {
        Ok((host, default_port))
    }
}

fn split_unbracketed(a: &[char], default_port: u16) -> (r: (String, u16))
    ensures
        (r.0@, r.1 as nat) == unbracketed(a@, default_port as nat),
{
    let n: usize = last_part_at(a, ':');
    if n > 0 {
        let digits = string_of(vstd::slice::slice_subrange(a, n, a.len()));
        assert(digits@ =~= a@.skip(n as int));
        match parse_unsigned(digits.as_str(), 65535) {
            Some(p) => {
                let host = string_of(vstd::slice::slice_subrange(a, 0, n - 1));
                assert(host@ =~= a@.take(n - 1));
                return (host, p as u16);
            },
            None => {},
        }
    }
    (string_of(a), default_port)
}

/// Where a URL leads: the host and the port.
pub fn parse_target(url: &str) -> (r: Result<(String, u16), UrlFault>)
    ensures
        match r {
            Ok((host, port)) => target_of(url@) == Ok::<(Seq<char>, nat), UrlFault>(
                (host@, port as nat),
            ),
            Err(e) => target_of(url@) == Err::<(Seq<char>, nat), UrlFault>(e),
        },
{
    let v = chars_of(url);
    let https = chars_of("https://");
    let http = chars_of("http://");
    let default_port: u16;
    let skip: usize;
    if matches_at(v.as_slice(), https.as_slice(), 0) {
        default_port = 443;
        skip = https.len();
    } else if matches_at(v.as_slice(), http.as_slice(), 0) {
        default_port = 80;
        skip = http.len();
    } else {
        return Err(UrlFault::Scheme);
    }
    let rest = vstd::slice::slice_subrange(v.as_slice(), skip, v.len());
    assert(rest@ =~= url@.skip(skip as int));
    let a = authority(rest);
    if a.len() == 0 {
        return Err(UrlFault::NoHost);
    }
    let (host, port) = if a[0] == '[' {
        let inner = vstd::slice::slice_subrange(a, 1, a.len());
        assert(inner@ =~= a@.skip(1));
        match split_bracketed(inner, default_port) {
            Ok(parts) => parts,
            Err(e) => {
                return Err(e);
            },
        }
    } else {
        split_unbracketed(a, default_port)
    };
    if host.as_str().is_empty() {
        return Err(UrlFault::NoHost);
    }
    Ok((host, port))
}

/// The host of a URL, for a message: its authority, whatever its scheme.
pub open spec fn named_host(url: Seq<char>) -> Seq<char> {
    authority_of(
        if begins(url, "https://"@) {
            url.skip("https://"@.len() as int)
        } else if begins(url, "http://"@) {
            url.skip("http://"@.len() as int)
        } else {
            url
        },
    )
}

/// The host of a URL, for a message.
pub fn host_of(url: &str) -> (r: String)
    ensures
        r@ == named_host(url@),
{
    let v = chars_of(url);
    let https = chars_of("https://");
    let http = chars_of("http://");
    let skip: usize = if matches_at(v.as_slice(), https.as_slice(), 0) {
        https.len()
    } else if matches_at(v.as_slice(), http.as_slice(), 0) {
        http.len()
    } else {
        0
    };
    let rest = vstd::slice::slice_subrange(v.as_slice(), skip, v.len());
    assert(rest@ =~= url@.skip(skip as int));
    assert(url@.skip(0) =~= url@);
    string_of(authority(rest))
}

/// Why a name that resolved may not be connected to.
#[derive(Clone, Copy, Debug, PartialEq, Eq)]
pub enum GuardFault {
    /// It resolved to nothing.
    NoAddress,
    /// One of its addresses is internal.
    Internal(IpAddress),
}

/// The first internal address among those from position `i` on.
pub open spec fn first_internal(addrs: Seq<IpAddress>, i: int) -> Option<IpAddress>
    decreases addrs.len() - i,
{
    if i < 0 || i >= addrs.len() {
        None
    } else if is_internal(addrs[i]) {
        Some(addrs[i])
    } else {
        first_internal(addrs, i + 1)
    }
}

/// Whether the addresses that a name resolved to may be connected to: there is
/// one, and none of them is internal. The first that is, is named.
pub fn guard_addresses(addrs: &Vec<IpAddress>) -> (r: Result<(), GuardFault>)
    ensures
        r == (if addrs@.len() == 0 {
            Err::<(), GuardFault>(GuardFault::NoAddress)
        } else {
            match first_internal(addrs@, 0) {
                Some(ip) => Err(GuardFault::Internal(ip)),
                None => Ok(()),
            }
        }),
{
    if addrs.len() == 0 {
        return Err(GuardFault::NoAddress);
    }
    for i in 0..addrs.len()
        invariant
            first_internal(addrs@, 0) == first_internal(addrs@, i as int),
    {
        if is_blocked_ip(&addrs[i]) {
            return Err(GuardFault::Internal(addrs[i]));
        }
    }
    Ok(())
}

proof fn lemma_first_internal(addrs: Seq<IpAddress>, i: int, j: int)
    requires
        0 <= i <= j < addrs.len(),
        first_internal(addrs, i) is None,
    ensures
        !is_internal(addrs[j]),
    decreases addrs.len() - i,
{
    if i < j {
        lemma_first_internal(addrs, i + 1, j);
    }
}

/// Why a URL is not asked for.
#[derive(Clone, Copy, Debug, PartialEq, Eq)]
pub enum Refusal {
    /// It is not one that can be.
    Url(UrlFault),
    /// Its host was not found in time.
    Unresolved,
    /// Its host must not be connected to.
    Guarded(GuardFault),
}

/// Where a URL is asked for, given the addresses that its host resolved to, if
/// it did: at these, and at this port.
pub open spec fn guarded_target(url: Seq<char>, resolved: Option<Seq<IpAddress>>) -> Result<
    (Seq<IpAddress>, nat),
    Refusal,
> {
    match target_of(url) {
        Err(fault) => Err(Refusal::Url(fault)),
        Ok((_, port)) => match resolved {
            None => Err(Refusal::Unresolved),
            Some(addrs) => if addrs.len() == 0 {
                Err(Refusal::Guarded(GuardFault::NoAddress))
            } else {
                match first_internal(addrs, 0) {
                    Some(ip) => Err(Refusal::Guarded(GuardFault::Internal(ip))),
                    None => Ok((addrs, port)),
                }
            },
        },
    }
}

/// Where a URL is asked for, given the addresses that its host resolved to, if
/// it did: at all of them, if every one is public.
pub fn resolve_and_guard(url: &str, resolved: Option<Vec<IpAddress>>) -> (r: Result<
    (Vec<IpAddress>, u16),
    Refusal,
>)
    ensures
        match r {
            Ok((addrs, port)) => guarded_target(url@, opt_addresses(resolved)) == Ok::<
                (Seq<IpAddress>, nat),
                Refusal,
            >((addrs@, port as nat)),
            Err(e) => guarded_target(url@, opt_addresses(resolved)) == Err::<
                (Seq<IpAddress>, nat),
                Refusal,
            >(e),
        },
{
    let port: u16 = match parse_target(url) {
        Ok((_, port)) => port,
        Err(fault) => {
            return Err(Refusal::Url(fault));
        },
    };
    match resolved {
        None => Err(Refusal::Unresolved),
        Some(addrs) => match guard_addresses(&addrs) {
            Ok(_) => Ok((addrs, port)),
            Err(fault) => Err(Refusal::Guarded(fault)),
        },
    }
}

/// The addresses in an optional list.
pub open spec fn opt_addresses(o: Option<Vec<IpAddress>>) -> Option<Seq<IpAddress>> {
    match o {
        Some(v) => Some(v@),
        None => None,
    }
}

/// Whether another name may be resolved while `in_flight` are.
pub fn may_resolve(in_flight: usize) -> (r: bool)
    ensures
        r == (in_flight < MAX_DNS_IN_FLIGHT),
{
    in_flight < MAX_DNS_IN_FLIGHT
}

/// How many of `n` addresses a connection is pinned to.
pub fn pinned_count(n: usize) -> (r: usize)
    ensures
        r == (if n <= MAX_PINNED_ADDRS {
            n
        } else {
            MAX_PINNED_ADDRS
        }),
{
    if n <= MAX_PINNED_ADDRS {
        n
    } else {
        MAX_PINNED_ADDRS
    }
}

/// How long a read may wait, in milliseconds: one of the body, no longer than
/// the body may stand still; any other, as long as it may.
pub fn capped_wait(body: bool, wait_ms: u64, idle_ms: u64) -> (r: u64)
    ensures
        r == (if body && wait_ms > idle_ms {
            idle_ms
        } else {
            wait_ms
        }),
{
    if body && wait_ms > idle_ms {
        idle_ms
    } else {
        wait_ms
    }
}

/// Why a body was not taken.
#[derive(Clone, Copy, Debug, PartialEq, Eq, Structural)]
pub enum CapError {
    /// It has more bytes than it may.
    TooLarge,
    /// The connection failed on the way.
    Io,
}

/// Judges a body of which at most one byte more than `cap` was read: `None`
/// where reading failed. A body that is too large is refused, not cut.
pub fn read_capped(read: Option<Vec<u8>>, cap: u64) -> (r: Result<Vec<u8>, CapError>)
    ensures
        match read {
            None => r == Err::<Vec<u8>, CapError>(CapError::Io),
            Some(body) => r == (if body@.len() > cap {
                Err(CapError::TooLarge)
            } else {
                Ok(body)
            }),
        },
{
    match read {
        None => Err(CapError::Io),
        Some(body) => {
            if body.len() as u64 > cap {
                Err(CapError::TooLarge)
            } else {
                Ok(body)
            }
        },
    }
}

/// Why the key database was not fetched.
#[derive(Clone, Debug, PartialEq, Eq)]
pub enum FetchError {
    /// The host could not be reached, or must not be.
    Connect { host: String },
    /// The server answered with this status.
    Http { status: u16 },
    /// What came is not a key database.
    Invalid,
}

/// What a [`FetchError`] says.
pub enum FetchFault {
    Connect(Seq<char>),
    Http(u16),
    Invalid,
}

impl View for FetchError {
    type V = FetchFault;

    open spec fn view(&self) -> FetchFault {
        match *self {
            FetchError::Connect { host } => FetchFault::Connect(host@),
            FetchError::Http { status } => FetchFault::Http(status),
            FetchError::Invalid => FetchFault::Invalid,
        }
    }
}

/// What a body that was not taken is to the one who asked for it.
pub open spec fn body_fault(e: CapError, url: Seq<char>) -> FetchFault {
    match e {
        CapError::TooLarge => FetchFault::Invalid,
        CapError::Io => FetchFault::Connect(named_host(url)),
    }
}

/// What a body that was not taken is to the one who asked for it: one that is
/// too large says something of the content, a dead connection of the network.
pub fn cap_error(e: CapError, url: &str) -> (r: FetchError)
    ensures
        r@ == body_fault(e, url@),
{
    match e {
        CapError::TooLarge => FetchError::Invalid,
        CapError::Io => FetchError::Connect { host: host_of(url) },
    }
}

/// What a failed request is to the one who made it: an answer that is no
/// success, by its status, or else a host that was not reached.
pub fn map_request_error(url: &str, status: Option<u16>) -> (r: FetchError)
    ensures
        r@ == (match status {
            Some(s) => FetchFault::Http(s),
            None => FetchFault::Connect(named_host(url@)),
        }),
{
    match status {
        Some(status) => FetchError::Http { status },
        None => FetchError::Connect { host: host_of(url) },
    }
}

/// What asking for a URL came to.
pub enum Reply {
    /// The request failed, with a status where the server answered.
    Refused(Option<u16>),
    /// A body came, as far as it was read.
    Body(Option<Vec<u8>>),
}

/// What fetching `url` comes to, given what asking for it came to.
pub open spec fn fetched(url: Seq<char>, reply: Reply) -> Result<Seq<u8>, FetchFault> {
    match reply {
        Reply::Refused(Some(s)) => Err(FetchFault::Http(s)),
        Reply::Refused(None) => Err(FetchFault::Connect(named_host(url))),
        Reply::Body(None) => Err(FetchFault::Connect(named_host(url))),
        Reply::Body(Some(b)) => if b@.len() > MAX_BODY_BYTES {
            Err(FetchFault::Invalid)
        } else {
            Ok(b@)
        },
    }
}

/// What fetching a URL comes to, given what asking for it came to.
pub fn fetch(url: &str, reply: Reply) -> (r: Result<Vec<u8>, FetchError>)
    ensures
        fetch_result(r) == fetched(url@, reply),
{
    match reply {
        Reply::Refused(status) => Err(map_request_error(url, status)),
        Reply::Body(read) => match read_capped(read, MAX_BODY_BYTES) {
            Ok(b) => Ok(b),
            Err(e) => Err(cap_error(e, url)),
        },
    }
}

/// What a result of fetching says.
pub open spec fn fetch_result(r: Result<Vec<u8>, FetchError>) -> Result<Seq<u8>, FetchFault> {
    match r {
        Ok(b) => Ok(b@),
        Err(e) => Err(e@),
    }
}

/// What the caller reports of a download.
pub enum FetchEvent {
    Begin,
    /// The addresses of the host, unless it was not found in time.
    Resolved(Option<Vec<IpAddress>>),
    Answered(Reply),
}

/// What the caller is to do for a download.
#[derive(Debug)]
pub enum FetchAction {
    /// Find out the addresses of this host.
    Resolve { host: String, port: u16 },
    /// Ask for the URL, at one of these addresses and nowhere else.
    Get { addrs: Vec<IpAddress>, port: u16 },
    Finish(Result<Vec<u8>, FetchError>),
}

/// What a [`FetchAction`] says.
pub enum FetchMove {
    Resolve { host: Seq<char>, port: nat },
    Get { addrs: Seq<IpAddress>, port: nat },
    Finish(Result<Seq<u8>, FetchFault>),
}

impl View for FetchAction {
    type V = FetchMove;

    open spec fn view(&self) -> FetchMove {
        match *self {
            FetchAction::Resolve { host, port } => FetchMove::Resolve {
                host: host@,
                port: port as nat,
            },
            FetchAction::Get { addrs, port } => FetchMove::Get { addrs: addrs@, port: port as nat },
            FetchAction::Finish(r) => FetchMove::Finish(fetch_result(r)),
        }
    }
}

/// What is done next for a download.
pub open spec fn fetch_move(url: Seq<char>, event: FetchEvent) -> FetchMove {
    let unreached = FetchMove::Finish(Err(FetchFault::Connect(named_host(url))));
    match event {
        FetchEvent::Begin => match target_of(url) {
            Ok((host, port)) => FetchMove::Resolve { host, port },
            Err(_) => unreached,
        },
        FetchEvent::Resolved(found) => match guarded_target(url, opt_addresses(found)) {
            Ok((addrs, port)) => FetchMove::Get { addrs, port },
            Err(_) => unreached,
        },
        FetchEvent::Answered(reply) => FetchMove::Finish(fetched(url, reply)),
    }
}

/// What is done next for a download: the host of the URL is resolved, its
/// addresses are judged, and only then is the URL asked for. A URL that is
/// refused, a host that is not found and one that the guard refuses all count as
/// a host not reached: the request never leaves.
pub fn fetch_step(url: &str, event: FetchEvent) -> (r: FetchAction)
    ensures
        r@ == fetch_move(url@, event),
{
    match event {
        FetchEvent::Begin => match parse_target(url) {
            Ok((host, port)) => FetchAction::Resolve { host, port },
            Err(_) => FetchAction::Finish(Err(FetchError::Connect { host: host_of(url) })),
        },
        FetchEvent::Resolved(found) => match resolve_and_guard(url, found) {
            Ok((addrs, port)) => FetchAction::Get { addrs, port },
            Err(_) => FetchAction::Finish(Err(FetchError::Connect { host: host_of(url) })),
        },
        FetchEvent::Answered(reply) => FetchAction::Finish(fetch(url, reply)),
    }
}

/// Law: nothing is ever asked for but at public addresses, and at none that the
/// host did not resolve to.
pub proof fn law_only_public_addresses_are_asked(url: Seq<char>, event: FetchEvent)
    ensures
        fetch_move(url, event) matches FetchMove::Get { addrs, .. } ==> {
            &&& event matches FetchEvent::Resolved(Some(found)) && found@ == addrs
            &&& addrs.len() > 0
            &&& forall|i: int| 0 <= i < addrs.len() ==> !is_internal(#[trigger] addrs[i])
        },
{
    if let FetchMove::Get { addrs, .. } = fetch_move(url, event) {
        assert forall|i: int| 0 <= i < addrs.len() implies !is_internal(#[trigger] addrs[i]) by {
            lemma_first_internal(addrs, 0, i);
        }
    }
}

/// Law: a URL that is refused neither has its host resolved nor is asked for,
/// and what is said of it is that its host was not reached.
pub proof fn law_refused_urls_never_leave(url: Seq<char>, found: Option<Vec<IpAddress>>)
    requires
        target_of(url) is Err,
    ensures
        fetch_move(url, FetchEvent::Begin) == FetchMove::Finish(
            Err(FetchFault::Connect(named_host(url))),
        ),
        fetch_move(url, FetchEvent::Resolved(found)) == FetchMove::Finish(
            Err(FetchFault::Connect(named_host(url))),
        ),
{
}

/// Law: a body that is too large is refused and not cut: what is fetched is a
/// whole body, and no longer than it may be.
pub proof fn law_fetched_bodies_are_whole(url: Seq<char>, reply: Reply)
    ensures
        fetched(url, reply) matches Ok(b) ==> {
            &&& reply matches Reply::Body(Some(body)) && body@ == b
            &&& b.len() <= MAX_BODY_BYTES
        },
{
}

} // verus!
