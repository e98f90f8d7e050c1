//! What holds of every download of the key database.

use crate::keydb_fetch::{
    FetchEvent, FetchFault, FetchMove, IpAddress, Reply, UrlFault, behind_last, fetch_move,
    first_internal, host_and_port, is_internal, is_internal_v4, is_internal_v6, named_host, port_of,
    target_of,
};
use crate::reading::{lacks, law_number_reads_back, starts_with};
use crate::text::{CharClass, begins, dec, is_digit, until};
use vstd::prelude::*;
use vstd::string::*;

verus! {

/// A part of a URL that holds nothing by which a URL is taken apart.
pub open spec fn is_plain(s: Seq<char>) -> bool {
    &&& lacks(s, '/') && lacks(s, '?') && lacks(s, '#')
    &&& lacks(s, '@') && lacks(s, ':') && lacks(s, '[') && lacks(s, ']')
}

/// What may stand behind the host of a URL: nothing, or a path, a query or a
/// fragment.
pub open spec fn is_url_tail(s: Seq<char>) -> bool {
    s.len() == 0 || s[0] == '/' || s[0] == '?' || s[0] == '#'
}

/// The schemes that may be asked, each with its port.
pub open spec fn schemes() -> Seq<(Seq<char>, nat)> {
    seq![("https://"@, 443), ("http://"@, 80)]
}

/// Law: a URL leads to its host, at the port that it names, or else at the port of
/// its scheme, whatever stands behind them.
#[verifier::rlimit(60)]
pub proof fn law_url_leads_to_its_host(k: int, host: Seq<char>, port: nat, tail: Seq<char>)
    requires
        0 <= k < 2,
        is_plain(host) && host.len() > 0,
        port <= 65535,
        is_url_tail(tail),
    ensures
        target_of(schemes()[k].0 + host + tail) == Ok::<(Seq<char>, nat), UrlFault>(
            (host, schemes()[k].1),
        ),
        target_of(schemes()[k].0 + host + seq![':'] + dec(port) + tail) == Ok::<
            (Seq<char>, nat),
            UrlFault,
        >((host, port)),
        named_host(schemes()[k].0 + host + tail) == host,
{
    let s = schemes()[k].0;
    let hp = host + seq![':'] + dec(port);
    assert(target_of(s + hp + tail) == Ok::<(Seq<char>, nat), UrlFault>((host, port))) by {
        lemma_host_with_port(host, port, schemes()[k].1);
        lemma_clean_authority(k, hp, tail);
    }
    assert(s + hp + tail =~= s + host + seq![':'] + dec(port) + tail);
    lemma_unnamed(host, schemes()[k].1);
    lemma_scheme(k, host, tail);
    lemma_all_behind(host, '@');
}

/// Law: a user before the host changes nothing of where a URL leads.
#[verifier::rlimit(60)]
pub proof fn law_user_changes_nothing(
    k: int,
    user: Seq<char>,
    host: Seq<char>,
    port: nat,
    tail: Seq<char>,
)
    requires
        0 <= k < 2,
        is_plain(user),
        is_plain(host) && host.len() > 0,
        port <= 65535,
        is_url_tail(tail),
    ensures
        target_of(schemes()[k].0 + (user + seq!['@'] + host) + tail) == Ok::<
            (Seq<char>, nat),
            UrlFault,
        >((host, schemes()[k].1)),
        target_of(
            schemes()[k].0 + (user + seq!['@'] + (host + seq![':'] + dec(port))) + tail,
        ) == Ok::<(Seq<char>, nat), UrlFault>((host, port)),
{
    let s = schemes()[k].0;
    let d = schemes()[k].1;
    let hp = host + seq![':'] + dec(port);
    assert(is_clean(user) && is_clean(host)) by {
        reveal(is_clean);
    }
    assert(target_of(s + (user + seq!['@'] + hp) + tail) == Ok::<(Seq<char>, nat), UrlFault>(
        (host, port),
    )) by {
        lemma_host_with_port(host, port, d);
        lemma_user_is_left_out(k, user, hp, tail);
    }
    assert(target_of(s + (user + seq!['@'] + host) + tail) == Ok::<(Seq<char>, nat), UrlFault>(
        (host, d),
    )) by {
        lemma_unnamed(host, d);
        lemma_user_is_left_out(k, user, host, tail);
    }
}

proof fn lemma_host_with_port(host: Seq<char>, port: nat, d: nat)
    requires
        is_plain(host) && host.len() > 0,
        port <= 65535,
    ensures
        is_clean(host + seq![':'] + dec(port)),
        host_and_port(host + seq![':'] + dec(port), d) == Ok::<(Seq<char>, nat), UrlFault>(
            (host, port),
        ),
{
    lemma_number_is_clean(port);
    lemma_marks_are_clean();
    assert(is_clean(host)) by {
        reveal(is_clean);
    }
    lemma_clean(host, seq![':']);
    lemma_clean(host + seq![':'], dec(port));
    lemma_named(host, dec(port), d);
}

/// Law: an IPv6 address stands in brackets, with the port behind them.
#[verifier::rlimit(60)]
pub proof fn law_bracketed_host_is_read(k: int, host: Seq<char>, port: nat, tail: Seq<char>)
    requires
        0 <= k < 2,
        lacks(host, '/') && lacks(host, '?') && lacks(host, '#'),
        lacks(host, '@') && lacks(host, ']') && host.len() > 0,
        port <= 65535,
        is_url_tail(tail),
    ensures
        ({
            let s = schemes()[k].0;
            &&& target_of(s + seq!['['] + host + seq![']'] + tail) == Ok::<
                (Seq<char>, nat),
                UrlFault,
            >((host, schemes()[k].1))
            &&& target_of(s + seq!['['] + host + seq![']', ':'] + dec(port) + tail) == Ok::<
                (Seq<char>, nat),
                UrlFault,
            >((host, port))
            &&& target_of(s + seq!['['] + host + tail) == Err::<(Seq<char>, nat), UrlFault>(
                UrlFault::BadIpv6,
            )
        }),
{
    let s = schemes()[k].0;
    let d = schemes()[k].1;
    let p = dec(port);
    let e = Seq::<char>::empty();
    let a = seq!['['] + host + seq![']'];
    let b = seq!['['] + host + seq![']', ':'] + p;
    let c = seq!['['] + host;
    assert(host_and_port(a, d) == Ok::<(Seq<char>, nat), UrlFault>((host, d))) by {
        lemma_bracketed(host, e, d);
        assert(seq!['['] + host + seq![']'] + e =~= a);
    }
    assert(host_and_port(b, d) == Ok::<(Seq<char>, nat), UrlFault>((host, port))) by {
        lemma_number_is_clean(port);
        lemma_bracketed(host, seq![':'] + p, d);
        assert(seq!['['] + host + seq![']'] + (seq![':'] + p) =~= b);
        assert((seq![':'] + p).skip(1) =~= p);
    }
    assert(host_and_port(c, d) == Err::<(Seq<char>, nat), UrlFault>(UrlFault::BadIpv6)) by {
        lemma_until(host, e, CharClass::CloseBracket);
        assert(c.skip(1) =~= host);
        assert(host + e =~= host);
    }
    assert(is_clean(a) && is_clean(b) && is_clean(c)) by {
        lemma_number_is_clean(port);
        lemma_marks_are_clean();
        assert(is_clean(host)) by {
            reveal(is_clean);
        }
        lemma_clean(seq!['['], host);
        lemma_clean(c, seq![']']);
        lemma_clean(c, seq![']', ':']);
        lemma_clean(c + seq![']', ':'], p);
    }
    lemma_clean_authority(k, a, tail);
    lemma_clean_authority(k, b, tail);
    lemma_clean_authority(k, c, tail);
    assert(s + a + tail =~= s + seq!['['] + host + seq![']'] + tail);
    assert(s + b + tail =~= s + seq!['['] + host + seq![']', ':'] + p + tail);
    assert(s + c + tail =~= s + seq!['['] + host + tail);
}

/// A text with neither a user nor anything behind the host in it.
#[verifier::opaque]
spec fn is_clean(s: Seq<char>) -> bool {
    lacks(s, '/') && lacks(s, '?') && lacks(s, '#') && lacks(s, '@')
}

proof fn lemma_clean(a: Seq<char>, b: Seq<char>)
    requires
        is_clean(a),
        is_clean(b),
    ensures
        is_clean(a + b),
{
    reveal(is_clean);
}

proof fn lemma_clean_authority(k: int, a: Seq<char>, tail: Seq<char>)
    requires
        0 <= k < 2,
        is_clean(a),
        is_url_tail(tail),
    ensures
        target_of(schemes()[k].0 + a + tail) == host_and_port(a, schemes()[k].1),
{
    reveal(is_clean);
    lemma_scheme(k, a, tail);
    lemma_all_behind(a, '@');
}

/// The user before the host changes nothing.
proof fn lemma_user_is_left_out(k: int, user: Seq<char>, a: Seq<char>, tail: Seq<char>)
    requires
        0 <= k < 2,
        is_clean(user),
        is_clean(a),
        is_url_tail(tail),
    ensures
        target_of(schemes()[k].0 + (user + seq!['@'] + a) + tail) == host_and_port(
            a,
            schemes()[k].1,
        ),
{
    reveal(is_clean);
    lemma_scheme(k, user + seq!['@'] + a, tail);
    lemma_behind(user, a, '@');
}

proof fn lemma_number_is_clean(port: nat)
    ensures
        is_clean(dec(port)),
        lacks(dec(port), ':'),
        port <= 65535 ==> port_of(dec(port)) == Some(port),
{
    reveal(is_clean);
    law_number_reads_back(port);
    assert forall|i: int| 0 <= i < dec(port).len() implies is_digit(#[trigger] dec(port)[i]) by {}
}

proof fn lemma_marks_are_clean()
    ensures
        is_clean(seq!['[']),
        is_clean(seq![']']),
        is_clean(seq![']', ':']),
        is_clean(seq![':']),
{
    reveal(is_clean);
}

proof fn lemma_bracketed(host: Seq<char>, after: Seq<char>, d: nat)
    requires
        lacks(host, ']') && host.len() > 0,
    ensures
        after.len() == 0 ==> host_and_port(seq!['['] + host + seq![']'] + after, d) == Ok::<
            (Seq<char>, nat),
            UrlFault,
        >((host, d)),
        after.len() > 0 && after[0] == ':' && port_of(after.skip(1)) is Some ==> host_and_port(
            seq!['['] + host + seq![']'] + after,
            d,
        ) == Ok::<(Seq<char>, nat), UrlFault>((host, port_of(after.skip(1))->0)),
{
    let a = seq!['['] + host + seq![']'] + after;
    let t = seq![']'] + after;
    assert(a[0] == '[');
    assert(a.skip(1) =~= host + t);
    lemma_until(host, t, CharClass::CloseBracket);
    assert(a.skip(1).skip(host.len() + 1int) =~= after);
}

/// Law: what starts with no scheme that may be asked leads nowhere, and neither
/// does a scheme without a host.
pub proof fn law_other_urls_lead_nowhere(url: Seq<char>, k: int, tail: Seq<char>)
    requires
        0 <= k < 2,
        is_url_tail(tail),
    ensures
        !starts_with(url, "https://"@) && !starts_with(url, "http://"@) ==> target_of(url) == Err::<
            (Seq<char>, nat),
            UrlFault,
        >(UrlFault::Scheme),
        target_of(schemes()[k].0 + tail) == Err::<(Seq<char>, nat), UrlFault>(UrlFault::NoHost),
{
    if begins(url, "https://"@) {
        assert(url.take("https://"@.len() as int) =~= "https://"@);
    }
    if begins(url, "http://"@) {
        assert(url.take("http://"@.len() as int) =~= "http://"@);
    }
    let e = Seq::<char>::empty();
    lemma_scheme(k, e, tail);
    assert(schemes()[k].0 + e + tail =~= schemes()[k].0 + tail);
}

proof fn lemma_scheme(k: int, authority: Seq<char>, tail: Seq<char>)
    requires
        0 <= k < 2,
        lacks(authority, '/') && lacks(authority, '?') && lacks(authority, '#'),
        is_url_tail(tail),
    ensures
        target_of(schemes()[k].0 + authority + tail) == host_and_port(
            behind_last(authority, '@'),
            schemes()[k].1,
        ),
        named_host(schemes()[k].0 + authority + tail) == behind_last(authority, '@'),
{
    reveal_strlit("https://");
    reveal_strlit("http://");
    let s = schemes()[k].0;
    let rest = authority + tail;
    let url = s + authority + tail;
    assert(url =~= s + rest);
    assert(url.skip(s.len() as int) =~= rest);
    assert(url.subrange(0, s.len() as int) =~= s);
    assert("https://"@[4] == 's' && "http://"@[4] == ':');
    if k == 1 {
        assert(url[4] == ':');
        if begins(url, "https://"@) {
            assert(url.subrange(0, 8)[4] == "https://"@[4]);
        }
    }
    lemma_until(authority, tail, CharClass::UrlDelimiter);
}

pub proof fn lemma_until(a: Seq<char>, b: Seq<char>, k: CharClass)
    requires
        forall|i: int| 0 <= i < a.len() ==> !k.has(#[trigger] a[i]),
        b.len() == 0 || k.has(b[0]),
    ensures
        until(a + b, k) == a,
    decreases a.len(),
{
    let s = a + b;
    if a.len() > 0 {
        let t = a.skip(1);
        assert forall|i: int| 0 <= i < t.len() implies !k.has(#[trigger] t[i]) by {
            assert(t[i] == a[i + 1]);
        }
        lemma_until(t, b, k);
        assert(s.skip(1) =~= t + b);
        assert(s[0] == a[0]);
        assert(seq![a[0]] + t =~= a);
    } else {
        assert(s =~= b);
    }
}

proof fn lemma_all_behind(s: Seq<char>, c: char)
    requires
        lacks(s, c),
    ensures
        behind_last(s, c) == s,
    decreases s.len(),
{
    if s.len() > 0 {
        let t = s.drop_last();
        assert forall|i: int| 0 <= i < t.len() implies #[trigger] t[i] != c by {
            assert(t[i] == s[i]);
        }
        lemma_all_behind(t, c);
        assert(s.last() == s[s.len() - 1]);
        assert(t.push(s.last()) =~= s);
    }
}

proof fn lemma_behind(a: Seq<char>, b: Seq<char>, c: char)
    requires
        lacks(b, c),
    ensures
        behind_last(a + seq![c] + b, c) == b,
    decreases b.len(),
{
    let s = a + seq![c] + b;
    if b.len() > 0 {
        let t = b.drop_last();
        assert forall|i: int| 0 <= i < t.len() implies #[trigger] t[i] != c by {
            assert(t[i] == b[i]);
        }
        lemma_behind(a, t, c);
        assert(s.drop_last() =~= a + seq![c] + t);
        assert(s.last() == b[b.len() - 1]);
        assert(t.push(s.last()) =~= b);
    } else {
        assert(s.last() == c);
    }
}

proof fn lemma_unnamed(host: Seq<char>, d: nat)
    requires
        is_plain(host) && host.len() > 0,
    ensures
        host_and_port(host, d) == Ok::<(Seq<char>, nat), UrlFault>((host, d)),
{
    lemma_all_behind(host, ':');
    assert(host[0] != '[');
}

proof fn lemma_named(host: Seq<char>, p: Seq<char>, d: nat)
    requires
        is_plain(host) && host.len() > 0,
        lacks(p, ':'),
        port_of(p) is Some,
    ensures
        host_and_port(host + seq![':'] + p, d) == Ok::<(Seq<char>, nat), UrlFault>(
            (host, port_of(p)->0),
        ),
{
    let a = host + seq![':'] + p;
    lemma_behind(host, p, ':');
    assert(a[0] == host[0]);
    assert(host[0] != '[');
    assert(a.take(a.len() - p.len() - 1) =~= host);
}

/// The blocks of IPv4 addresses that no public server has: where each starts, and
/// how many addresses it has.
pub open spec fn internal_blocks() -> Seq<(int, int)> {
    seq![
        (0, 0x100_0000),
        (0x0a00_0000, 0x100_0000),
        (0x6440_0000, 0x40_0000),
        (0x7f00_0000, 0x100_0000),
        (0xa9fe_0000, 0x1_0000),
        (0xac10_0000, 0x10_0000),
        (0xc000_0000, 0x100),
        (0xc000_0200, 0x100),
        (0xc0a8_0000, 0x1_0000),
        (0xc612_0000, 0x2_0000),
        (0xc633_6400, 0x100),
        (0xcb00_7100, 0x100),
        (0xe000_0000, 0x2000_0000),
    ]
}

/// Law: an IPv4 address is refused if and only if it lies, as a number, in one of
/// the blocks that no public server has.
pub proof fn law_internal_blocks_are_refused(a: int, b: int, c: int, d: int)
    requires
        0 <= a < 256 && 0 <= b < 256 && 0 <= c < 256 && 0 <= d < 256,
    ensures
        is_internal_v4(a, b, c, d) <==> exists|k: int|
            0 <= k < internal_blocks().len() && (#[trigger] internal_blocks()[k]).0 <= a * 0x100_0000
                + b * 0x1_0000 + c * 0x100 + d < internal_blocks()[k].0 + internal_blocks()[k].1,
{
    let v = a * 0x100_0000 + b * 0x1_0000 + c * 0x100 + d;
    let t = internal_blocks();
    if is_internal_v4(a, b, c, d) {
        let k: int = if a == 0 {
            0
        } else if a == 10 {
            1
        } else if a == 100 {
            2
        } else if a == 127 {
            3
        } else if a == 169 {
            4
        } else if a == 172 {
            5
        } else if a == 192 && b == 0 && c == 0 {
            6
        } else if a == 192 && b == 0 {
            7
        } else if a == 192 {
            8
        } else if a == 198 && b < 20 {
            9
        } else if a == 198 {
            10
        } else if a == 203 {
            11
        } else {
            12
        };
        assert(t[k].0 <= v < t[k].0 + t[k].1);
    }
    if exists|k: int| 0 <= k < t.len() && (#[trigger] t[k]).0 <= v < t[k].0 + t[k].1 {
        let k = choose|k: int| 0 <= k < t.len() && (#[trigger] t[k]).0 <= v < t[k].0 + t[k].1;
        assert(is_internal_v4(a, b, c, d));
    }
}

/// Law: the loopback and the unspecified address of IPv6, and those of the blocks
/// ff00::/8, fc00::/7 and fe80::/10, are refused; a global address that stands for
/// no IPv4 address is not.
pub proof fn law_internal_ipv6_is_refused(s: Seq<u16>)
    requires
        s.len() == 8,
    ensures
        s =~= seq![0u16, 0, 0, 0, 0, 0, 0, 1] ==> is_internal_v6(s),
        s =~= seq![0u16, 0, 0, 0, 0, 0, 0, 0] ==> is_internal_v6(s),
        s[0] / 0x100 == 0xff ==> is_internal_v6(s),
        s[0] / 0x200 == 0x7e ==> is_internal_v6(s),
        s[0] / 0x40 == 0x3fa ==> is_internal_v6(s),
        s[0] / 0x2000 == 1 && s[0] != 0x2002 && !(s[0] == 0x2001 && s[1] == 0) ==> !is_internal_v6(
            s,
        ),
{
}

/// Law: a download first asks for the addresses of the host that the URL leads to;
/// then it asks at all of them, at the URL's port, if there is one and every one is
/// public, and else not at all; and it ends with what the server said: its status,
/// or its body.
pub proof fn law_download_goes_to_the_host(
    url: Seq<char>,
    found: Option<Vec<IpAddress>>,
    reply: Reply,
    host: Seq<char>,
    port: nat,
)
    requires
        target_of(url) == Ok::<(Seq<char>, nat), UrlFault>((host, port)),
    ensures
        fetch_move(url, FetchEvent::Begin) == (FetchMove::Resolve { host, port }),
        ({
            let m = fetch_move(url, FetchEvent::Resolved(found));
            let fit = found matches Some(v) && v@.len() > 0 && forall|i: int|
                0 <= i < v@.len() ==> !is_internal(#[trigger] v@[i]);
            &&& fit ==> m == (FetchMove::Get { addrs: found->0@, port })
            &&& !fit ==> m == FetchMove::Finish(Err(FetchFault::Connect(named_host(url))))
        }),
        ({
            let m = fetch_move(url, FetchEvent::Answered(reply));
            &&& reply matches Reply::Body(Some(b)) ==> (b@.len() <= 0x400_0000 ==> m
                == FetchMove::Finish(Ok(b@)))
            &&& reply matches Reply::Body(Some(b)) ==> (b@.len() > 0x400_0000 ==> m
                == FetchMove::Finish(Err(FetchFault::Invalid)))
            &&& reply matches Reply::Refused(Some(status)) ==> m == FetchMove::Finish(
                Err(FetchFault::Http(status)),
            )
            &&& (reply matches Reply::Refused(None) || reply matches Reply::Body(None)) ==> m
                == FetchMove::Finish(Err(FetchFault::Connect(named_host(url))))
        }),
{
    if let Some(v) = found {
        lemma_first_internal_tells(v@, 0);
    }
}

proof fn lemma_first_internal_tells(addrs: Seq<IpAddress>, i: int)
    requires
        0 <= i <= addrs.len(),
    ensures
        first_internal(addrs, i) is None <==> forall|j: int|
            i <= j < addrs.len() ==> !is_internal(#[trigger] addrs[j]),
    decreases addrs.len() - i,
{
    if i < addrs.len() {
        lemma_first_internal_tells(addrs, i + 1);
        if first_internal(addrs, i + 1) is None && !is_internal(addrs[i]) {
            assert forall|j: int| i <= j < addrs.len() implies !is_internal(#[trigger] addrs[j]) by {
                if j > i {
                    assert(i + 1 <= j);
                }
            }
        }
    }
}

} // verus!
