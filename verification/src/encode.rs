//! The encodings in which captured data leave this machine: base64, the strings
//! of TOML and JSON, hexadecimal dumps and names that are safe in a file system.

use crate::text::{
    CharClass, char_is_c0, char_is_control, char_lower, chars_of, cut, drop_leading, drop_trailing,
    hex2, hex4, hex4_upper, hex_digit, hex_digit_upper, is_c0, is_control, join_texts, joined,
    lemma_drop_leading, lemma_drop_trailing, lower, push_hex2, push_hex4, push_hex4_upper,
    push_text, string_of, texts, trimmed,
};
use vstd::prelude::*;
use vstd::string::*;

verus! {

/// The character that stands for six bits.
pub open spec fn sextet_char(n: nat) -> char {
    if n < 26 {
        (65 + n) as char
    } else if n < 52 {
        (97 + n - 26) as char
    } else if n < 62 {
        (48 + n - 52) as char
    } else if n == 62 {
        '+'
    } else {
        '/'
    }
}

/// The six bits that a character stands for.
pub open spec fn char_sextet(c: char) -> Option<nat> {
    if 'A' <= c <= 'Z' {
        Some((c as nat - 65) as nat)
    } else if 'a' <= c <= 'z' {
        Some((c as nat - 97 + 26) as nat)
    } else if '0' <= c <= '9' {
        Some((c as nat - 48 + 52) as nat)
    } else if c == '+' {
        Some(62)
    } else if c == '/' {
        Some(63)
    } else {
        None
    }
}

/// Three bytes as four characters; what is missing of the last three is
/// written as `=`.
pub open spec fn base64_of(b: Seq<u8>) -> Seq<char>
    decreases b.len(),
{
    if b.len() == 0 {
        Seq::empty()
    } else if b.len() == 1 {
        seq![
            sextet_char((b[0] / 4) as nat),
            sextet_char((b[0] % 4 * 16) as nat),
            '=',
            '=',
        ]
    } else if b.len() == 2 {
        seq![
            sextet_char((b[0] / 4) as nat),
            sextet_char((b[0] % 4 * 16 + b[1] / 16) as nat),
            sextet_char((b[1] % 16 * 4) as nat),
            '=',
        ]
    } else {
        seq![
            sextet_char((b[0] / 4) as nat),
            sextet_char((b[0] % 4 * 16 + b[1] / 16) as nat),
            sextet_char((b[1] % 16 * 4 + b[2] / 64) as nat),
            sextet_char((b[2] % 64) as nat),
        ] + base64_of(b.skip(3))
    }
}

fn sextet(n: u8) -> (c: char)
    requires
        n < 64,
    ensures
        c == sextet_char(n as nat),
{
    if n < 26 {
        (65 + n) as char
    } else if n < 52 {
        (97 + (n - 26)) as char
    } else if n < 62 {
        (48 + (n - 52)) as char
    } else if n == 62 {
        '+'
    } else {
        '/'
    }
}

fn sextet_value(c: char) -> (r: Option<u8>)
    ensures
        match r {
            Some(n) => char_sextet(c) == Some(n as nat) && n < 64,
            None => char_sextet(c) is None,
        },
{
    if 'A' <= c && c <= 'Z' {
        Some(c as u8 - 65)
    } else if 'a' <= c && c <= 'z' {
        Some(c as u8 - 97 + 26)
    } else if '0' <= c && c <= '9' {
        Some(c as u8 - 48 + 52)
    } else if c == '+' {
        Some(62)
    } else if c == '/' {
        Some(63)
    } else {
        None
    }
}

/// The bytes in base64.
pub fn base64_encode(input: &[u8]) -> (r: String)
    ensures
        r@ == base64_of(input@),
{
    let mut out = String::new();
    let mut i: usize = 0;
    assert(input@.skip(0) =~= input@);
    assert(out@ + base64_of(input@) =~= base64_of(input@));
    while i < input.len()
        invariant
            i <= input@.len(),
            base64_of(input@) == out@ + base64_of(input@.skip(i as int)),
        decreases input@.len() - i,
    {
        let ghost rest = input@.skip(i as int);
        let ghost before = out@;
        let left: usize = input.len() - i;
        let b0: u8 = input[i];
        out.push(sextet(b0 / 4));
        if left == 1 {
            out.push(sextet(b0 % 4 * 16));
            out.push('=');
            out.push('=');
            assert(rest.len() == 1 && rest[0] == b0);
            assert(out@ =~= before + base64_of(rest));
            assert(out@ + base64_of(input@.skip(i + 1)) =~= out@);
            i = i + 1;
        } else if left == 2 {
            let b1: u8 = input[i + 1];
            out.push(sextet(b0 % 4 * 16 + b1 / 16));
            out.push(sextet(b1 % 16 * 4));
            out.push('=');
            assert(rest.len() == 2 && rest[0] == b0 && rest[1] == b1);
            assert(out@ =~= before + base64_of(rest));
            assert(out@ + base64_of(input@.skip(i + 2)) =~= out@);
            i = i + 2;
        } else {
            let b1: u8 = input[i + 1];
            let b2: u8 = input[i + 2];
            out.push(sextet(b0 % 4 * 16 + b1 / 16));
            out.push(sextet(b1 % 16 * 4 + b2 / 64));
            out.push(sextet(b2 % 64));
            assert(rest[0] == b0 && rest[1] == b1 && rest[2] == b2);
            assert(rest.skip(3) =~= input@.skip(i + 3));
            assert(before + base64_of(rest) =~= out@ + base64_of(input@.skip(i + 3)));
            i = i + 3;
        }
    }
    assert(out@ + base64_of(input@.skip(i as int)) =~= out@);
    out
}

/// The sextets that a base64 text writes, up to its first `=`; what is no
/// character of base64 counts for nothing.
pub open spec fn sextets_of(s: Seq<char>) -> Seq<nat>
    decreases s.len(),
{
    if s.len() == 0 || s[0] == '=' {
        Seq::empty()
    } else {
        match char_sextet(s[0]) {
            Some(n) => seq![n] + sextets_of(s.skip(1)),
            None => sextets_of(s.skip(1)),
        }
    }
}

/// The whole bytes in a run of sextets.
pub open spec fn bytes_of(v: Seq<nat>) -> Seq<u8>
    decreases v.len(),
{
    if v.len() < 2 {
        Seq::empty()
    } else {
        let b0 = (v[0] * 4 + v[1] / 16) as u8;
        if v.len() == 2 {
            seq![b0]
        } else {
            let b1 = (v[1] % 16 * 16 + v[2] / 4) as u8;
            if v.len() == 3 {
                seq![b0, b1]
            } else {
                seq![b0, b1, (v[2] % 4 * 64 + v[3]) as u8] + bytes_of(v.skip(4))
            }
        }
    }
}

/// The bytes that a base64 text writes.
pub fn base64_decode(input: &str) -> (r: Vec<u8>)
    ensures
        r@ == bytes_of(sextets_of(input@)),
{
    let chars = chars_of(input);
    let mut v: Vec<u8> = Vec::new();
    let mut i: usize = 0;
    let ghost wanted = sextets_of(input@);
    let ghost mut seen: Seq<nat> = Seq::empty();
    assert(chars@.skip(0) =~= input@);
    assert(seen + sextets_of(chars@.skip(0)) =~= wanted);
    while i < chars.len() && chars[i] != '='
        invariant
            i <= chars@.len(),
            wanted == seen + sextets_of(chars@.skip(i as int)),
            seen == v@.map_values(|n: u8| n as nat),
            forall|j: int| 0 <= j < v@.len() ==> #[trigger] v@[j] < 64,
        decreases chars@.len() - i,
    {
        let ghost rest = chars@.skip(i as int);
        assert(rest.skip(1) =~= chars@.skip(i + 1));
        match sextet_value(chars[i]) {
            Some(n) => {
                let ghost before = v@;
                v.push(n);
                proof {
                    let next = seen.push(n as nat);
                    assert(next =~= v@.map_values(|n: u8| n as nat));
                    assert(seen + (seq![n as nat] + sextets_of(rest.skip(1))) =~= next + sextets_of(
                        rest.skip(1),
                    ));
                    seen = next;
                }
            },
            None => {},
        }
        i = i + 1;
    }
    assert(seen + sextets_of(chars@.skip(i as int)) =~= seen);
    let mut out: Vec<u8> = Vec::new();
    let mut k: usize = 0;
    assert(wanted.skip(0) =~= wanted);
    assert(out@ + bytes_of(wanted) =~= bytes_of(wanted));
    while v.len() - k >= 2
        invariant
            k <= v@.len(),
            wanted == v@.map_values(|n: u8| n as nat),
            forall|j: int| 0 <= j < v@.len() ==> #[trigger] v@[j] < 64,
            bytes_of(wanted) == out@ + bytes_of(wanted.skip(k as int)),
        decreases v@.len() - k,
    {
        let ghost rest = wanted.skip(k as int);
        let ghost before = out@;
        let left: usize = v.len() - k;
        assert(v@[k as int] < 64 && v@[k + 1] < 64);
        out.push(v[k] * 4 + v[k + 1] / 16);
        if left == 2 {
            assert(out@ =~= before + bytes_of(rest));
            k = k + 2;
            assert(out@ + bytes_of(wanted.skip(k as int)) =~= out@);
        } else {
            assert(v@[k + 2] < 64);
            out.push(v[k + 1] % 16 * 16 + v[k + 2] / 4);
            if left == 3 {
                assert(out@ =~= before + bytes_of(rest));
                k = k + 3;
                assert(out@ + bytes_of(wanted.skip(k as int)) =~= out@);
            } else {
                assert(v@[k + 3] < 64);
                out.push(v[k + 2] % 4 * 64 + v[k + 3]);
                assert(rest.skip(4) =~= wanted.skip(k + 4));
                assert(before + bytes_of(rest) =~= out@ + bytes_of(wanted.skip(k + 4)));
                k = k + 4;
            }
        }
    }
    assert(out@ + bytes_of(wanted.skip(k as int)) =~= out@);
    out
}

proof fn lemma_sextet_round_trip(n: nat)
    requires
        n < 64,
    ensures
        char_sextet(sextet_char(n)) == Some(n),
        sextet_char(n) != '=',
{
}

/// The sextets of a text that starts with the character of one.
proof fn lemma_sextets_head(n: nat, rest: Seq<char>)
    requires
        n < 64,
    ensures
        sextets_of(seq![sextet_char(n)] + rest) == seq![n] + sextets_of(rest),
{
    lemma_sextet_round_trip(n);
    let s = seq![sextet_char(n)] + rest;
    assert(s.skip(1) =~= rest);
}

/// Law: what base64 wrote reads back as what it was, for every run of bytes.
pub proof fn law_base64_round_trip(b: Seq<u8>)
    ensures
        bytes_of(sextets_of(base64_of(b))) == b,
    decreases b.len(),
{
    if b.len() == 0 {
        assert(bytes_of(sextets_of(base64_of(b))) =~= b);
    } else if b.len() == 1 {
        let n0 = (b[0] / 4) as nat;
        let n1 = (b[0] % 4 * 16) as nat;
        let tail = seq!['=', '='];
        lemma_sextets_head(n1, tail);
        lemma_sextets_head(n0, seq![sextet_char(n1)] + tail);
        assert(base64_of(b) =~= seq![sextet_char(n0)] + (seq![sextet_char(n1)] + tail));
        assert(sextets_of(tail) =~= Seq::empty());
        assert(sextets_of(base64_of(b)) =~= seq![n0, n1]);
        assert(bytes_of(seq![n0, n1]) =~= b);
    } else if b.len() == 2 {
        let n0 = (b[0] / 4) as nat;
        let n1 = (b[0] % 4 * 16 + b[1] / 16) as nat;
        let n2 = (b[1] % 16 * 4) as nat;
        let tail = seq!['='];
        lemma_sextets_head(n2, tail);
        lemma_sextets_head(n1, seq![sextet_char(n2)] + tail);
        lemma_sextets_head(n0, seq![sextet_char(n1)] + (seq![sextet_char(n2)] + tail));
        assert(base64_of(b) =~= seq![sextet_char(n0)] + (seq![sextet_char(n1)] + (seq![
            sextet_char(n2),
        ] + tail)));
        assert(sextets_of(tail) =~= Seq::empty());
        assert(sextets_of(base64_of(b)) =~= seq![n0, n1, n2]);
        assert(bytes_of(seq![n0, n1, n2]) =~= b);
    } else {
        let n0 = (b[0] / 4) as nat;
        let n1 = (b[0] % 4 * 16 + b[1] / 16) as nat;
        let n2 = (b[1] % 16 * 4 + b[2] / 64) as nat;
        let n3 = (b[2] % 64) as nat;
        let tail = base64_of(b.skip(3));
        law_base64_round_trip(b.skip(3));
        lemma_sextets_head(n3, tail);
        lemma_sextets_head(n2, seq![sextet_char(n3)] + tail);
        lemma_sextets_head(n1, seq![sextet_char(n2)] + (seq![sextet_char(n3)] + tail));
        lemma_sextets_head(
            n0,
            seq![sextet_char(n1)] + (seq![sextet_char(n2)] + (seq![sextet_char(n3)] + tail)),
        );
        assert(base64_of(b) =~= seq![sextet_char(n0)] + (seq![sextet_char(n1)] + (seq![
            sextet_char(n2),
        ] + (seq![sextet_char(n3)] + tail))));
        let v = sextets_of(base64_of(b));
        assert(v =~= seq![n0, n1, n2, n3] + sextets_of(tail));
        assert(v.skip(4) =~= sextets_of(tail));
        assert(bytes_of(v) =~= seq![b[0], b[1], b[2]] + b.skip(3));
        assert(b =~= seq![b[0], b[1], b[2]] + b.skip(3));
    }
}

/// A character inside a TOML string: a quote, a backslash and a control
/// character are written as an escape.
pub open spec fn toml_char(c: char) -> Seq<char> {
    if c == '\\' {
        seq!['\\', '\\']
    } else if c == '"' {
        seq!['\\', '"']
    } else if c == '\n' {
        seq!['\\', 'n']
    } else if c == '\r' {
        seq!['\\', 'r']
    } else if c == '\t' {
        seq!['\\', 't']
    } else if is_control(c) {
        seq!['\\', 'u'] + hex4_upper(c as nat)
    } else {
        seq![c]
    }
}

/// A text as the inside of a TOML string.
pub open spec fn toml_escaped(s: Seq<char>) -> Seq<char>
    decreases s.len(),
{
    if s.len() == 0 {
        Seq::empty()
    } else {
        toml_char(s[0]) + toml_escaped(s.skip(1))
    }
}

fn push_toml_char(out: &mut String, c: char)
    ensures
        final(out)@ == old(out)@ + toml_char(c),
{
    let ghost before = out@;
    if c == '\\' {
        out.push('\\');
        out.push('\\');
    } else if c == '"' {
        out.push('\\');
        out.push('"');
    } else if c == '\n' {
        out.push('\\');
        out.push('n');
    } else if c == '\r' {
        out.push('\\');
        out.push('r');
    } else if c == '\t' {
        out.push('\\');
        out.push('t');
    } else if char_is_control(c) {
        out.push('\\');
        out.push('u');
        push_hex4_upper(out, c as u16);
    } else {
        out.push(c);
    }
    assert(out@ =~= before + toml_char(c));
}

/// `s` as the inside of a TOML string in double quotes.
pub fn toml_escape(s: &str) -> (r: String)
    ensures
        r@ == toml_escaped(s@),
{
    let v = chars_of(s);
    let mut out = String::new();
    assert(v@.skip(0) =~= s@);
    assert(out@ + toml_escaped(s@) =~= toml_escaped(s@));
    for i in 0..v.len()
        invariant
            v@ == s@,
            toml_escaped(s@) == out@ + toml_escaped(s@.skip(i as int)),
    {
        let c = v[i];
        let ghost before = out@;
        push_toml_char(&mut out, c);
        assert(s@.skip(i as int).skip(1) =~= s@.skip(i + 1));
        assert(before + (toml_char(c) + toml_escaped(s@.skip(i + 1))) =~= out@ + toml_escaped(
            s@.skip(i + 1),
        ));
    }
    assert(out@ + toml_escaped(s@.skip(v@.len() as int)) =~= out@);
    out
}

/// The number that a hexadecimal digit stands for.
pub open spec fn hex_value(c: char) -> Option<nat> {
    if '0' <= c <= '9' {
        Some((c as nat - 48) as nat)
    } else if 'a' <= c <= 'f' {
        Some((c as nat - 87) as nat)
    } else if 'A' <= c <= 'F' {
        Some((c as nat - 55) as nat)
    } else {
        None
    }
}

/// The number that four hexadecimal digits write.
pub open spec fn hex4_value(a: char, b: char, c: char, d: char) -> Option<nat> {
    match (hex_value(a), hex_value(b), hex_value(c), hex_value(d)) {
        (Some(w), Some(x), Some(y), Some(z)) => Some(w * 4096 + x * 256 + y * 16 + z),
        _ => None,
    }
}

/// The number `n` is the number of a character.
pub open spec fn is_scalar(n: nat) -> bool {
    n < 0xd800 || 0xdfff < n <= 0x10ffff
}

/// The first character that a TOML string holds, and how many characters write
/// it; nothing where the string is not well formed there.
pub open spec fn toml_next(s: Seq<char>) -> Option<(char, int)> {
    if s.len() == 0 {
        None
    } else if s[0] != '\\' {
        if s[0] == '"' || is_control(s[0]) {
            None
        } else {
            Some((s[0], 1))
        }
    } else if s.len() < 2 {
        None
    } else if s[1] == '\\' {
        Some(('\\', 2))
    } else if s[1] == '"' {
        Some(('"', 2))
    } else if s[1] == 'n' {
        Some(('\n', 2))
    } else if s[1] == 'r' {
        Some(('\r', 2))
    } else if s[1] == 't' {
        Some(('\t', 2))
    } else if s[1] == 'u' && s.len() >= 6 {
        match hex4_value(s[2], s[3], s[4], s[5]) {
            Some(n) => if is_scalar(n) {
                Some((n as char, 6))
            } else {
                None
            },
            None => None,
        }
    } else {
        None
    }
}

/// The text that the inside of a TOML string holds; nothing where it is not
/// well formed.
pub open spec fn toml_unescaped(s: Seq<char>) -> Option<Seq<char>>
    decreases s.len(),
{
    if s.len() == 0 {
        Some(Seq::empty())
    } else {
        match toml_next(s) {
            Some((c, n)) => match toml_unescaped(s.skip(n)) {
                Some(t) => Some(seq![c] + t),
                None => None,
            },
            None => None,
        }
    }
}

fn hex_digit_value(c: char) -> (r: Option<u32>)
    ensures
        match r {
            Some(n) => hex_value(c) == Some(n as nat) && n < 16,
            None => hex_value(c) is None,
        },
{
    if '0' <= c && c <= '9' {
        Some(c as u32 - 48)
    } else if 'a' <= c && c <= 'f' {
        Some(c as u32 - 87)
    } else if 'A' <= c && c <= 'F' {
        Some(c as u32 - 55)
    } else {
        None
    }
}

fn toml_next_at(v: &[char]) -> (r: Option<(char, usize)>)
    ensures
        match r {
            Some((c, n)) => toml_next(v@) == Some((c, n as int)) && 0 < n <= v@.len(),
            None => toml_next(v@) is None,
        },
{
    if v.len() == 0 {
        return None;
    }
    let c = v[0];
    if c != '\\' {
        if c == '"' || char_is_control(c) {
            return None;
        }
        return Some((c, 1));
    }
    if v.len() < 2 {
        return None;
    }
    let e = v[1];
    if e == '\\' {
        Some(('\\', 2))
    } else if e == '"' {
        Some(('"', 2))
    } else if e == 'n' {
        Some(('\n', 2))
    } else if e == 'r' {
        Some(('\r', 2))
    } else if e == 't' {
        Some(('\t', 2))
    } else if e == 'u' && v.len() >= 6 {
        match (
            hex_digit_value(v[2]),
            hex_digit_value(v[3]),
            hex_digit_value(v[4]),
            hex_digit_value(v[5]),
        ) {
            (Some(w), Some(x), Some(y), Some(z)) => {
                let n: u32 = w * 4096 + x * 256 + y * 16 + z;
                match char::from_u32(n) {
                    Some(c) => Some((c, 6)),
                    None => None,
                }
            },
            _ => None,
        }
    } else {
        None
    }
}

/// The text that the inside of a TOML string holds. The string is well formed,
/// as what [`toml_escape`] writes always is.
pub fn toml_basic_unescape(s: &str) -> (r: String)
    requires
        toml_unescaped(s@) is Some,
    ensures
        toml_unescaped(s@) == Some(r@),
{
    let v = chars_of(s);
    let mut out = String::new();
    let mut i: usize = 0;
    assert(v@.skip(0) =~= s@);
    assert(out@ + toml_unescaped(s@)->0 =~= toml_unescaped(s@)->0);
    while i < v.len()
        invariant
            v@ == s@,
            i <= v@.len(),
            toml_unescaped(s@) is Some,
            toml_unescaped(s@.skip(i as int)) is Some,
            toml_unescaped(s@)->0 == out@ + toml_unescaped(s@.skip(i as int))->0,
        decreases v@.len() - i,
    {
        let ghost rest = s@.skip(i as int);
        let ghost before = out@;
        assert(v@.subrange(i as int, v@.len() as int) =~= rest);
        match toml_next_at(vstd::slice::slice_subrange(v.as_slice(), i, v.len())) {
            Some((c, n)) => {
                out.push(c);
                assert(rest.skip(n as int) =~= s@.skip(i + n));
                let ghost tail = toml_unescaped(s@.skip(i + n))->0;
                assert(before + (seq![c] + tail) =~= out@ + tail);
                i = i + n;
            },
            None => {
                assert(false);
                return out;
            },
        }
    }
    assert(toml_unescaped(s@.skip(i as int))->0 =~= Seq::empty());
    assert(out@ + Seq::empty() =~= out@);
    out
}

/// The escape of one character, before anything, reads back as that character.
proof fn lemma_toml_char(c: char, rest: Seq<char>)
    ensures
        toml_next(toml_char(c) + rest) == Some((c, toml_char(c).len() as int)),
        (toml_char(c) + rest).skip(toml_char(c).len() as int) == rest,
        toml_char(c).len() > 0,
{
    let s = toml_char(c) + rest;
    assert(s.skip(toml_char(c).len() as int) =~= rest);
    if is_control(c) && c != '\n' && c != '\r' && c != '\t' {
        let n = c as nat;
        assert(n < 256);
        assert(s[2] == hex_digit_upper(n / 256 / 16 % 16));
        assert(s[3] == hex_digit_upper(n / 256 % 16));
        assert(s[4] == hex_digit_upper(n % 256 / 16 % 16));
        assert(s[5] == hex_digit_upper(n % 256 % 16));
        assert(hex4_value(s[2], s[3], s[4], s[5]) == Some(n));
        assert(n as char == c);
    }
}

/// Law: every text survives its way through a TOML string: escaped, it is well
/// formed, and reads back as what it was.
pub proof fn law_toml_round_trip(s: Seq<char>)
    ensures
        toml_unescaped(toml_escaped(s)) == Some(s),
    decreases s.len(),
{
    if s.len() == 0 {
        assert(toml_escaped(s) =~= Seq::empty());
        assert(s =~= Seq::empty());
    } else {
        lemma_toml_char(s[0], toml_escaped(s.skip(1)));
        law_toml_round_trip(s.skip(1));
        assert(seq![s[0]] + s.skip(1) =~= s);
    }
}

/// Law: an escaped text stays on its line: it holds no control character.
pub proof fn law_toml_escape_leaves_no_control(s: Seq<char>)
    ensures
        forall|i: int|
            0 <= i < toml_escaped(s).len() ==> !is_control(#[trigger] toml_escaped(s)[i]),
    decreases s.len(),
{
    if s.len() > 0 {
        law_toml_escape_leaves_no_control(s.skip(1));
        let head = toml_char(s[0]);
        let tail = toml_escaped(s.skip(1));
        assert forall|i: int| 0 <= i < toml_escaped(s).len() implies !is_control(
            #[trigger] toml_escaped(s)[i],
        ) by {
            if i < head.len() {
                assert(toml_escaped(s)[i] == head[i]);
            } else {
                assert(toml_escaped(s)[i] == tail[i - head.len()]);
            }
        }
    }
}

/// A character inside a JSON string, with the short escapes.
pub open spec fn json_char(c: char) -> Seq<char> {
    if c == '"' {
        seq!['\\', '"']
    } else if c == '\\' {
        seq!['\\', '\\']
    } else if c == '\n' {
        seq!['\\', 'n']
    } else if c == '\r' {
        seq!['\\', 'r']
    } else if c == '\t' {
        seq!['\\', 't']
    } else if is_c0(c) {
        seq!['\\', 'u'] + hex4(c as nat)
    } else {
        seq![c]
    }
}

/// A text as the inside of a JSON string.
pub open spec fn json_escaped(s: Seq<char>) -> Seq<char>
    decreases s.len(),
{
    if s.len() == 0 {
        Seq::empty()
    } else {
        json_escaped(s.drop_last()) + json_char(s.last())
    }
}

fn push_json_char(out: &mut String, c: char)
    ensures
        final(out)@ == old(out)@ + json_char(c),
{
    let ghost before = out@;
    if c == '"' {
        out.push('\\');
        out.push('"');
    } else if c == '\\' {
        out.push('\\');
        out.push('\\');
    } else if c == '\n' {
        out.push('\\');
        out.push('n');
    } else if c == '\r' {
        out.push('\\');
        out.push('r');
    } else if c == '\t' {
        out.push('\\');
        out.push('t');
    } else if char_is_c0(c) {
        out.push('\\');
        out.push('u');
        push_hex4(out, c as u16);
    } else {
        out.push(c);
    }
    assert(out@ =~= before + json_char(c));
}

/// `s` as the inside of a JSON string.
pub fn json_escape(s: &str) -> (r: String)
    ensures
        r@ == json_escaped(s@),
{
    let v = chars_of(s);
    let mut out = String::new();
    for i in 0..v.len()
        invariant
            v@ == s@,
            out@ == json_escaped(s@.take(i as int)),
    {
        push_json_char(&mut out, v[i]);
        assert(s@.take(i + 1).drop_last() =~= s@.take(i as int));
    }
    assert(s@.take(s@.len() as int) =~= s@);
    out
}

/// A character inside a JSON string, every control character by its number.
pub open spec fn json_plain_char(c: char) -> Seq<char> {
    if c == '"' {
        seq!['\\', '"']
    } else if c == '\\' {
        seq!['\\', '\\']
    } else if is_c0(c) {
        seq!['\\', 'u'] + hex4(c as nat)
    } else {
        seq![c]
    }
}

/// A text as the inside of a JSON string, every control character by its
/// number.
pub open spec fn json_plain(s: Seq<char>) -> Seq<char>
    decreases s.len(),
{
    if s.len() == 0 {
        Seq::empty()
    } else {
        json_plain(s.drop_last()) + json_plain_char(s.last())
    }
}

fn push_json_plain_char(out: &mut String, c: char)
    ensures
        final(out)@ == old(out)@ + json_plain_char(c),
{
    let ghost before = out@;
    if c == '"' {
        out.push('\\');
        out.push('"');
    } else if c == '\\' {
        out.push('\\');
        out.push('\\');
    } else if char_is_c0(c) {
        out.push('\\');
        out.push('u');
        push_hex4(out, c as u16);
    } else {
        out.push(c);
    }
    assert(out@ =~= before + json_plain_char(c));
}

/// `s` as the inside of a JSON string, every control character by its number.
pub fn json_esc(s: &str) -> (r: String)
    ensures
        r@ == json_plain(s@),
{
    let v = chars_of(s);
    let mut out = String::new();
    for i in 0..v.len()
        invariant
            v@ == s@,
            out@ == json_plain(s@.take(i as int)),
    {
        push_json_plain_char(&mut out, v[i]);
        assert(s@.take(i + 1).drop_last() =~= s@.take(i as int));
    }
    assert(s@.take(s@.len() as int) =~= s@);
    out
}

/// What four hexadecimal digits at position `i` stand for.
pub open spec fn hex4_at(s: Seq<char>, i: int) -> Option<nat> {
    if i < 0 || i + 4 > s.len() {
        None
    } else {
        hex4_value(s[i], s[i + 1], s[i + 2], s[i + 3])
    }
}

/// What an escape of one character stands for.
pub open spec fn json_short(c: char) -> Option<char> {
    if c == '"' || c == '\\' || c == '/' {
        Some(c)
    } else if c == 'b' {
        Some('\u{8}')
    } else if c == 'f' {
        Some('\u{c}')
    } else if c == 'n' {
        Some('\n')
    } else if c == 'r' {
        Some('\r')
    } else if c == 't' {
        Some('\t')
    } else {
        None
    }
}

/// What the inside of a JSON string begins with: a character, and how many it is
/// written with. Nothing where it begins with no character of a JSON string: a
/// bare quote, a control character, or an escape that JSON does not know.
pub open spec fn json_first(s: Seq<char>) -> Option<(char, int)> {
    if s.len() == 0 || s[0] == '"' || is_c0(s[0]) {
        None
    } else if s[0] != '\\' {
        Some((s[0], 1))
    } else if s.len() < 2 {
        None
    } else if s[1] != 'u' {
        match json_short(s[1]) {
            Some(c) => Some((c, 2)),
            None => None,
        }
    } else {
        match hex4_at(s, 2) {
            Some(n) => if n < 0xd800 || n > 0xdfff {
                Some((n as char, 6))
            } else if n < 0xdc00 && s.len() >= 8 && s[6] == '\\' && s[7] == 'u' {
                match hex4_at(s, 8) {
                    Some(m) => if 0xdc00 <= m <= 0xdfff {
                        Some(((0x10000 + (n - 0xd800) * 0x400 + (m - 0xdc00)) as char, 12))
                    } else {
                        None
                    },
                    None => None,
                }
            } else {
                None
            },
            None => None,
        }
    }
}

/// The text that a JSON string with this inside stands for; nothing where it is
/// not the inside of one.
pub open spec fn json_decoded(s: Seq<char>) -> Option<Seq<char>>
    decreases s.len(),
{
    if s.len() == 0 {
        Some(Seq::empty())
    } else {
        match json_first(s) {
            Some((c, k)) => if 0 < k <= s.len() {
                match json_decoded(s.skip(k)) {
                    Some(rest) => Some(seq![c] + rest),
                    None => None,
                }
            } else {
                None
            },
            None => None,
        }
    }
}

/// The number of a control character is read back from its escape.
proof fn lemma_json_unicode(n: nat, rest: Seq<char>)
    requires
        n < 32,
    ensures
        hex4_at(seq!['\\', 'u'] + hex4(n) + rest, 2) == Some(n),
{
    let s = seq!['\\', 'u'] + hex4(n) + rest;
    assert(s[2] == hex_digit(n / 256 / 16 % 16) && s[3] == hex_digit(n / 256 % 16));
    assert(s[4] == hex_digit(n % 256 / 16 % 16) && s[5] == hex_digit(n % 256 % 16));
    assert(hex_value(hex_digit(0)) == Some(0nat));
    assert(hex_value(hex_digit(n % 256 / 16 % 16)) == Some((n / 16) as nat));
    assert(hex_value(hex_digit(n % 256 % 16)) == Some((n % 16) as nat));
}

/// An escaped character before an escaped text is read back as that character.
proof fn lemma_json_char(c: char, rest: Seq<char>)
    ensures
        json_decoded(rest) is Some ==> json_decoded(json_char(c) + rest) == Some(
            seq![c] + json_decoded(rest)->0,
        ),
        json_decoded(rest) is Some ==> json_decoded(json_plain_char(c) + rest) == Some(
            seq![c] + json_decoded(rest)->0,
        ),
{
    let a = json_char(c);
    let b = json_plain_char(c);
    let s = a + rest;
    let t = b + rest;
    if is_c0(c) {
        lemma_json_unicode(c as nat, rest);
    }
    assert(s.skip(a.len() as int) =~= rest);
    assert(t.skip(b.len() as int) =~= rest);
    assert(s[0] == a[0] && t[0] == b[0]);
    assert(a.len() > 1 ==> s[1] == a[1]);
    assert(b.len() > 1 ==> t[1] == b[1]);
    assert(json_first(s) == Some((c, a.len() as int)));
    assert(json_first(t) == Some((c, b.len() as int)));
}

/// Law: texts can be escaped in pieces.
pub proof fn law_json_escape_distributes(a: Seq<char>, b: Seq<char>)
    ensures
        json_escaped(a + b) == json_escaped(a) + json_escaped(b),
        json_plain(a + b) == json_plain(a) + json_plain(b),
    decreases b.len(),
{
    if b.len() == 0 {
        assert(a + b =~= a);
        assert(json_escaped(a) + Seq::<char>::empty() =~= json_escaped(a));
        assert(json_plain(a) + Seq::<char>::empty() =~= json_plain(a));
    } else {
        assert((a + b).drop_last() =~= a + b.drop_last());
        law_json_escape_distributes(a, b.drop_last());
        let c = b.last();
        assert(json_escaped(a) + json_escaped(b.drop_last()) + json_char(c) =~= json_escaped(a) + (
        json_escaped(b.drop_last()) + json_char(c)));
        assert(json_plain(a) + json_plain(b.drop_last()) + json_plain_char(c) =~= json_plain(a) + (
        json_plain(b.drop_last()) + json_plain_char(c)));
    }
}

/// Law: an escaped text between quotes is a JSON string that stands for the text,
/// whatever the text: it cannot end the string that it stands in, nor break it.
pub proof fn law_json_escape_round_trip(s: Seq<char>)
    ensures
        json_decoded(json_escaped(s)) == Some(s),
        json_decoded(json_plain(s)) == Some(s),
    decreases s.len(),
{
    if s.len() == 0 {
        assert(s =~= Seq::empty());
    } else {
        let head = seq![s[0]];
        let rest = s.skip(1);
        law_json_escape_round_trip(rest);
        assert(s =~= head + rest);
        law_json_escape_distributes(head, rest);
        assert(head.drop_last() =~= Seq::empty());
        assert(json_escaped(head.drop_last()) + json_char(s[0]) =~= json_char(s[0]));
        assert(json_plain(head.drop_last()) + json_plain_char(s[0]) =~= json_plain_char(s[0]));
        assert(json_escaped(head) == json_char(s[0]));
        assert(json_plain(head) == json_plain_char(s[0]));
        lemma_json_char(s[0], json_escaped(rest));
        lemma_json_char(s[0], json_plain(rest));
    }
}

/// Law: a text without quotes, backslashes and control characters is left as it
/// is.
pub proof fn law_plain_text_is_not_escaped(s: Seq<char>)
    requires
        forall|i: int|
            0 <= i < s.len() ==> #[trigger] s[i] != '"' && s[i] != '\\' && !is_c0(s[i]),
    ensures
        json_escaped(s) == s,
        json_plain(s) == s,
    decreases s.len(),
{
    if s.len() > 0 {
        let head = s.drop_last();
        assert forall|i: int| 0 <= i < head.len() implies #[trigger] head[i] != '"' && head[i]
            != '\\' && !is_c0(head[i]) by {
            assert(head[i] == s[i]);
        }
        law_plain_text_is_not_escaped(head);
        assert(s[s.len() - 1] != '"');
        assert(head + seq![s.last()] =~= s);
    } else {
        assert(s =~= Seq::empty());
    }
}

/// The bytes in hexadecimal, with a space between each two.
pub open spec fn hex_row(b: Seq<u8>) -> Seq<char> {
    joined(b.map_values(|x: u8| hex2(x as nat)), " "@)
}

/// The rows of a dump: thirty-two bytes each, but for the last.
pub open spec fn dump_rows(b: Seq<u8>) -> Seq<Seq<char>>
    decreases b.len(),
{
    if b.len() == 0 {
        Seq::empty()
    } else if b.len() <= 32 {
        seq![hex_row(b)]
    } else {
        seq![hex_row(b.take(32))] + dump_rows(b.skip(32))
    }
}

fn hex_row_text(b: &[u8]) -> (r: String)
    ensures
        r@ == hex_row(b@),
{
    let mut cells: Vec<String> = Vec::new();
    let ghost wanted = b@.map_values(|x: u8| hex2(x as nat));
    for i in 0..b.len()
        invariant
            wanted == b@.map_values(|x: u8| hex2(x as nat)),
            texts(cells@) == wanted.take(i as int),
    {
        let mut s = String::new();
        push_hex2(&mut s, b[i]);
        assert(s@ =~= hex2(b@[i as int] as nat));
        push_text(&mut cells, s);
        assert(texts(cells@) =~= wanted.take(i + 1));
    }
    assert(wanted.take(b@.len() as int) =~= wanted);
    join_texts(&cells, " ")
}

/// A dump of the bytes, thirty-two to a line.
pub fn hex_dump(data: &[u8]) -> (r: String)
    ensures
        r@ == joined(dump_rows(data@), "\n  "@),
{
    let mut rows: Vec<String> = Vec::new();
    let mut i: usize = 0;
    assert(data@.skip(0) =~= data@);
    assert(texts(rows@) + dump_rows(data@) =~= dump_rows(data@));
    while i < data.len()
        invariant
            i <= data@.len(),
            dump_rows(data@) == texts(rows@) + dump_rows(data@.skip(i as int)),
        decreases data@.len() - i,
    {
        let ghost rest = data@.skip(i as int);
        let ghost before = texts(rows@);
        let n: usize = if data.len() - i <= 32 {
            data.len()
        } else {
            i + 32
        };
        let row = hex_row_text(vstd::slice::slice_subrange(data, i, n));
        push_text(&mut rows, row);
        proof {
            if rest.len() <= 32 {
                assert(data@.subrange(i as int, n as int) =~= rest);
                assert(data@.skip(n as int) =~= Seq::empty());
                assert(before + seq![row@] =~= texts(rows@) + dump_rows(data@.skip(n as int)));
            } else {
                assert(data@.subrange(i as int, n as int) =~= rest.take(32));
                assert(rest.skip(32) =~= data@.skip(n as int));
                assert(before + (seq![row@] + dump_rows(rest.skip(32))) =~= texts(rows@)
                    + dump_rows(data@.skip(n as int)));
            }
        }
        i = n;
    }
    assert(texts(rows@) + dump_rows(data@.skip(i as int)) =~= texts(rows@));
    join_texts(&rows, "\n  ")
}

/// The characters that may stand in the name of a profile.
pub open spec fn is_name_char(c: char) -> bool {
    'a' <= c <= 'z' || 'A' <= c <= 'Z' || '0' <= c <= '9' || c == '_'
}

/// A text in lower case, with each run of other characters as one hyphen.
pub open spec fn hyphenated(s: Seq<char>) -> Seq<char>
    decreases s.len(),
{
    if s.len() == 0 {
        Seq::empty()
    } else {
        let before = hyphenated(s.drop_last());
        let c = s.last();
        if is_name_char(c) {
            before.push(lower(c))
        } else if s.len() >= 2 && !is_name_char(s[s.len() - 2]) {
            before
        } else {
            before.push('-')
        }
    }
}

/// An untrusted text as one part of a path: letters in lower case, digits,
/// underscores and single hyphens within.
pub open spec fn component_of(s: Seq<char>) -> Seq<char> {
    let t = trimmed(hyphenated(s), CharClass::Dash);
    if t.len() == 0 {
        "drive"@
    } else {
        t
    }
}

/// An untrusted text as one part of a path.
pub fn sanitize_component(s: &str) -> (r: String)
    ensures
        r@ == component_of(s@),
{
    let v = chars_of(s);
    let mut out: Vec<char> = Vec::new();
    let mut last_dash = false;
    for i in 0..v.len()
        invariant
            v@ == s@,
            out@ == hyphenated(s@.take(i as int)),
            last_dash == (i > 0 && !is_name_char(s@[i - 1])),
    {
        let c = v[i];
        assert(s@.take(i + 1).drop_last() =~= s@.take(i as int));
        if ('a' <= c && c <= 'z') || ('A' <= c && c <= 'Z') || ('0' <= c && c <= '9') || c == '_' {
            out.push(char_lower(c));
            last_dash = false;
        } else {
            if !last_dash {
                out.push('-');
            }
            last_dash = true;
        }
    }
    assert(s@.take(s@.len() as int) =~= s@);
    let t = cut(out.as_slice(), CharClass::Dash);
    if t.len() == 0 {
        "drive".to_owned()
    } else {
        string_of(t)
    }
}

/// The characters that a part of a path made by [`sanitize_component`] holds.
pub open spec fn is_component_char(c: char) -> bool {
    'a' <= c <= 'z' || '0' <= c <= '9' || c == '_' || c == '-'
}

proof fn lemma_hyphenated_chars(s: Seq<char>)
    ensures
        forall|i: int| 0 <= i < hyphenated(s).len() ==> is_component_char(#[trigger] hyphenated(s)[i]),
    decreases s.len(),
{
    if s.len() > 0 {
        lemma_hyphenated_chars(s.drop_last());
        lemma_lower_name_char(s.last());
        let before = hyphenated(s.drop_last());
        assert forall|i: int| 0 <= i < hyphenated(s).len() implies is_component_char(
            #[trigger] hyphenated(s)[i],
        ) by {
            if i < before.len() {
                assert(is_component_char(before[i]));
                assert(hyphenated(s)[i] == before[i]);
            }
        }
    }
}

proof fn lemma_lower_name_char(c: char)
    ensures
        is_name_char(c) ==> is_component_char(lower(c)),
{
}

/// Law: whatever a drive calls itself, the part of a path made of it is not
/// empty, holds only letters in lower case, digits, underscores and hyphens,
/// and starts and ends with no hyphen. So it is never `.` or `..`, holds no
/// separator, and leads nowhere but into the directory it is joined to.
pub proof fn law_component_is_harmless(s: Seq<char>)
    ensures
        component_of(s).len() > 0,
        forall|i: int|
            0 <= i < component_of(s).len() ==> is_component_char(#[trigger] component_of(s)[i]),
        component_of(s)[0] != '-',
        component_of(s).last() != '-',
{
    reveal_strlit("drive");
    let h = hyphenated(s);
    lemma_hyphenated_chars(s);
    lemma_drop_leading(h, CharClass::Dash);
    let d = drop_leading(h, CharClass::Dash);
    lemma_drop_trailing(d, CharClass::Dash);
    let t = drop_trailing(d, CharClass::Dash);
    assert forall|i: int| 0 <= i < t.len() implies is_component_char(#[trigger] t[i]) by {
        assert(t[i] == d[i]);
        assert(d[i] == h[h.len() - d.len() + i]);
    }
    if t.len() > 0 {
        assert(t[0] == d[0]);
    }
}

/// No two hyphens stand together.
pub open spec fn single_hyphens(s: Seq<char>) -> bool {
    forall|i: int| 0 < i < s.len() ==> !(#[trigger] s[i] == '-' && s[i - 1] == '-')
}

proof fn lemma_hyphenated_single(s: Seq<char>)
    ensures
        single_hyphens(hyphenated(s)),
        s.len() > 0 ==> hyphenated(s).len() > 0 && (hyphenated(s).last() == '-') == !is_name_char(
            s.last(),
        ),
    decreases s.len(),
{
    if s.len() > 0 {
        let head = s.drop_last();
        lemma_hyphenated_single(head);
        let before = hyphenated(head);
        let now = hyphenated(s);
        assert(is_name_char(s.last()) ==> lower(s.last()) != '-');
        if head.len() > 0 {
            assert(head.last() == s[s.len() - 2]);
        }
        assert forall|i: int| 0 < i < now.len() implies !(#[trigger] now[i] == '-' && now[i - 1]
            == '-') by {
            if i < before.len() {
                assert(now[i] == before[i] && now[i - 1] == before[i - 1]);
            } else {
                assert(now[i - 1] == before.last());
            }
        }
    }
}

/// A text that is a component already keeps its characters.
proof fn lemma_hyphenated_component(t: Seq<char>)
    requires
        forall|i: int| 0 <= i < t.len() ==> is_component_char(#[trigger] t[i]),
        single_hyphens(t),
    ensures
        hyphenated(t) == t,
    decreases t.len(),
{
    if t.len() > 0 {
        let head = t.drop_last();
        assert forall|i: int| 0 <= i < head.len() implies is_component_char(#[trigger] head[i]) by {
            assert(head[i] == t[i]);
        }
        assert forall|i: int| 0 < i < head.len() implies !(#[trigger] head[i] == '-' && head[i - 1]
            == '-') by {
            assert(head[i] == t[i] && head[i - 1] == t[i - 1]);
        }
        lemma_hyphenated_component(head);
        let c = t[t.len() - 1];
        assert(is_component_char(c));
        assert(is_name_char(c) ==> lower(c) == c);
        if t.len() >= 2 {
            assert(is_component_char(t[t.len() - 2]));
        }
        assert(head.push(c) =~= t);
    } else {
        assert(t =~= Seq::empty());
    }
}

/// A text that starts and ends with no hyphen is not cut.
proof fn lemma_uncut(t: Seq<char>)
    requires
        t.len() > 0,
        t[0] != '-',
        t.last() != '-',
    ensures
        trimmed(t, CharClass::Dash) == t,
{
    assert(drop_leading(t, CharClass::Dash) == t);
    assert(drop_trailing(t, CharClass::Dash) == t);
}

/// There is a hyphenated character for every character of a name.
proof fn lemma_hyphenated_keeps(s: Seq<char>, i: int)
    requires
        0 <= i < s.len(),
        is_name_char(s[i]),
    ensures
        exists|j: int| 0 <= j < hyphenated(s).len() && #[trigger] hyphenated(s)[j] != '-',
    decreases s.len(),
{
    let now = hyphenated(s);
    let before = hyphenated(s.drop_last());
    if i == s.len() - 1 {
        assert(lower(s[i]) != '-');
        assert(now[before.len() as int] != '-');
    } else {
        assert(s.drop_last()[i] == s[i]);
        lemma_hyphenated_keeps(s.drop_last(), i);
        let j = choose|j: int| 0 <= j < before.len() && #[trigger] before[j] != '-';
        assert(now[j] == before[j]);
    }
}

/// Cutting leaves every text something that holds more than hyphens.
proof fn lemma_cut_keeps(h: Seq<char>, j: int)
    requires
        0 <= j < h.len(),
        h[j] != '-',
    ensures
        trimmed(h, CharClass::Dash).len() > 0,
{
    lemma_drop_leading(h, CharClass::Dash);
    let d = drop_leading(h, CharClass::Dash);
    lemma_drop_trailing(d, CharClass::Dash);
    lemma_lead_is_hyphens(h, j);
    lemma_tail_is_hyphens(d, j - (h.len() - d.len()));
}

proof fn lemma_lead_is_hyphens(h: Seq<char>, j: int)
    requires
        0 <= j < h.len(),
        h[j] != '-',
    ensures
        h.len() - drop_leading(h, CharClass::Dash).len() <= j,
    decreases h.len(),
{
    if h[0] == '-' {
        lemma_lead_is_hyphens(h.skip(1), j - 1);
    }
}

proof fn lemma_tail_is_hyphens(d: Seq<char>, j: int)
    requires
        0 <= j < d.len(),
        d[j] != '-',
    ensures
        drop_trailing(d, CharClass::Dash).len() > j,
    decreases d.len(),
{
    if d.last() == '-' {
        assert(d.drop_last()[j] == d[j]);
        lemma_tail_is_hyphens(d.drop_last(), j);
    }
}

proof fn lemma_only_hyphens(s: Seq<char>)
    requires
        forall|i: int| 0 <= i < s.len() ==> !is_name_char(#[trigger] s[i]),
    ensures
        hyphenated(s) == (if s.len() == 0 {
            Seq::empty()
        } else {
            seq!['-']
        }),
    decreases s.len(),
{
    if s.len() > 0 {
        assert forall|i: int| 0 <= i < s.drop_last().len() implies !is_name_char(
            #[trigger] s.drop_last()[i],
        ) by {
            assert(s.drop_last()[i] == s[i]);
        }
        lemma_only_hyphens(s.drop_last());
        assert(!is_name_char(s[s.len() - 1]));
        assert(hyphenated(s) =~= seq!['-']);
    }
}

/// Law: a part of a path that was made of a text holds no two hyphens together,
/// and making one of it again changes nothing.
pub proof fn law_component_is_settled(s: Seq<char>)
    ensures
        single_hyphens(component_of(s)),
        component_of(component_of(s)) == component_of(s),
{
    reveal_strlit("drive");
    let r = component_of(s);
    law_component_is_harmless(s);
    lemma_hyphenated_single(s);
    let h = hyphenated(s);
    lemma_drop_leading(h, CharClass::Dash);
    let d = drop_leading(h, CharClass::Dash);
    lemma_drop_trailing(d, CharClass::Dash);
    let t = drop_trailing(d, CharClass::Dash);
    assert forall|i: int| 0 < i < r.len() implies !(#[trigger] r[i] == '-' && r[i - 1] == '-') by {
        if t.len() > 0 {
            assert(t[i] == d[i] && t[i - 1] == d[i - 1]);
            let k = h.len() - d.len();
            assert(d[i] == h[k + i] && d[i - 1] == h[k + i - 1]);
            assert(!(h[k + i] == '-' && h[k + i - 1] == '-'));
        }
    }
    lemma_hyphenated_component(r);
    lemma_uncut(r);
}

/// Law: the stand-in name is given where there is nothing to make a name of, and
/// only there.
pub proof fn law_nameless_component_has_a_stand_in(s: Seq<char>)
    ensures
        (forall|i: int| 0 <= i < s.len() ==> !is_name_char(#[trigger] s[i])) ==> component_of(s)
            == "drive"@,
        (exists|i: int| 0 <= i < s.len() && is_name_char(#[trigger] s[i])) ==> component_of(s)
            == trimmed(hyphenated(s), CharClass::Dash),
{
    if exists|i: int| 0 <= i < s.len() && is_name_char(#[trigger] s[i]) {
        let i = choose|i: int| 0 <= i < s.len() && is_name_char(#[trigger] s[i]);
        lemma_hyphenated_keeps(s, i);
        let h = hyphenated(s);
        let j = choose|j: int| 0 <= j < h.len() && #[trigger] h[j] != '-';
        lemma_cut_keeps(h, j);
    } else {
        lemma_only_hyphens(s);
        reveal_with_fuel(drop_leading, 2);
        assert(seq!['-'].skip(1) =~= Seq::empty());
        assert(trimmed(hyphenated(s), CharClass::Dash).len() == 0);
    }
}

/// A firmware date for a person to read. Twelve digits that start with a
/// century of twenty-one are read with two digits for the year.
pub open spec fn date_text(s: Seq<char>) -> Seq<char> {
    if s.len() < 8 || !vstd::utf8::is_ascii_chars(s) {
        s
    } else if s[0] == '2' && s[1] == '1' && s.len() >= 12 {
        "20"@ + s.subrange(2, 4) + "-"@ + s.subrange(4, 6) + "-"@ + s.subrange(6, 8)
    } else {
        s.subrange(0, 4) + "-"@ + s.subrange(4, 6) + "-"@ + s.subrange(6, 8)
    }
}

/// A firmware date for a person to read. What is too short or not ASCII comes
/// through as it is.
pub fn format_date(fw_date: &str) -> (r: String)
    ensures
        r@ == date_text(fw_date@),
{
    let v = chars_of(fw_date);
    if v.len() < 8 || !fw_date.is_ascii() {
        return fw_date.to_owned();
    }
    let mut out = if v[0] == '2' && v[1] == '1' && v.len() >= 12 {
        let mut century = "20".to_owned();
        century.append(string_of(vstd::slice::slice_subrange(v.as_slice(), 2, 4)).as_str());
        century
    } else {
        string_of(vstd::slice::slice_subrange(v.as_slice(), 0, 4))
    };
    out.append("-");
    out.append(string_of(vstd::slice::slice_subrange(v.as_slice(), 4, 6)).as_str());
    out.append("-");
    out.append(string_of(vstd::slice::slice_subrange(v.as_slice(), 6, 8)).as_str());
    out
}

/// A text broken into lines of at most `width` characters, each ended.
pub open spec fn wrapped(s: Seq<char>, width: nat) -> Seq<char>
    decreases s.len(),
{
    if s.len() == 0 || width == 0 {
        Seq::empty()
    } else if s.len() <= width {
        s.push('\n')
    } else {
        s.take(width as int).push('\n') + wrapped(s.skip(width as int), width)
    }
}

/// Appends a text in lines of at most `width` characters.
pub fn push_wrapped(out: &mut String, s: &str, width: usize)
    requires
        width > 0,
    ensures
        final(out)@ == old(out)@ + wrapped(s@, width as nat),
{
    let v = chars_of(s);
    let ghost start = out@;
    let mut i: usize = 0;
    assert(v@.skip(0) =~= s@);
    while i < v.len()
        invariant
            v@ == s@,
            i <= v@.len(),
            width > 0,
            start + wrapped(s@, width as nat) == out@ + wrapped(s@.skip(i as int), width as nat),
        decreases v@.len() - i,
    {
        let ghost rest = s@.skip(i as int);
        let ghost before = out@;
        let n: usize = if v.len() - i <= width {
            v.len()
        } else {
            i + width
        };
        let line = string_of(vstd::slice::slice_subrange(v.as_slice(), i, n));
        out.append(line.as_str());
        out.push('\n');
        proof {
            if rest.len() <= width {
                assert(line@ =~= rest);
                assert(s@.skip(n as int) =~= Seq::empty());
                assert(before + rest.push('\n') =~= out@ + wrapped(
                    s@.skip(n as int),
                    width as nat,
                ));
            } else {
                assert(line@ =~= rest.take(width as int));
                assert(rest.skip(width as int) =~= s@.skip(n as int));
                assert(before + wrapped(rest, width as nat) =~= out@ + wrapped(
                    s@.skip(n as int),
                    width as nat,
                ));
            }
        }
        i = n;
    }
    assert(out@ + wrapped(s@.skip(i as int), width as nat) =~= out@);
}

} // verus!
