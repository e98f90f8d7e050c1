//! Reading back what was written: how the texts that the program writes are
//! taken apart again, and that nothing is lost on the way.

use crate::strings::{filled, placeholder, text_of, text_or};
use crate::text::{
    CharClass, all_digits, begins, dec, digit, drop_leading, drop_trailing, has_text, hex2,
    hex2_upper, hex4, hex4_upper, hex_digit, hex_digit_upper, is_digit, joined, lemma_drop_leading,
    lemma_drop_trailing, lowered, occurs_at, pad_end, pad_start, replaced, run_of, trimmed, uppered,
    value_of,
};
use vstd::prelude::*;
use vstd::string::*;

verus! {

/// `s` starts with `t`.
pub open spec fn starts_with(s: Seq<char>, t: Seq<char>) -> bool {
    t.len() <= s.len() && s.take(t.len() as int) == t
}

/// `s` ends with `t`.
pub open spec fn ends_with(s: Seq<char>, t: Seq<char>) -> bool {
    t.len() <= s.len() && s.skip(s.len() - t.len()) == t
}

/// `s` is `head`, then something, then `tail`: what stands between them.
pub open spec fn between(s: Seq<char>, head: Seq<char>, tail: Seq<char>) -> Option<Seq<char>> {
    if head.len() + tail.len() <= s.len() && starts_with(s, head) && ends_with(s, tail) {
        Some(s.subrange(head.len() as int, s.len() - tail.len()))
    } else {
        None
    }
}

/// No character of `s` is `c`.
pub open spec fn lacks(s: Seq<char>, c: char) -> bool {
    forall|i: int| 0 <= i < s.len() ==> #[trigger] s[i] != c
}

pub proof fn lemma_between(head: Seq<char>, middle: Seq<char>, tail: Seq<char>)
    ensures
        between(head + middle + tail, head, tail) == Some(middle),
        starts_with(head + middle + tail, head),
        ends_with(head + middle + tail, tail),
{
    let s = head + middle + tail;
    assert(s.take(head.len() as int) =~= head);
    assert(s.skip(s.len() - tail.len()) =~= tail);
    assert(s.subrange(head.len() as int, s.len() - tail.len()) =~= middle);
}

pub proof fn lemma_starts(a: Seq<char>, b: Seq<char>)
    ensures
        starts_with(a + b, a),
        ends_with(a + b, b),
        (a + b).skip(a.len() as int) == b,
        (a + b).take(a.len() as int) == a,
{
    assert((a + b).take(a.len() as int) =~= a);
    assert((a + b).skip(a.len() as int) =~= b);
    assert((a + b).skip((a + b).len() - b.len()) =~= b);
}

/// What stands in a part stands in the whole.
pub proof fn lemma_has_part(a: Seq<char>, p: Seq<char>, b: Seq<char>)
    ensures
        has_text(a + p + b, p),
{
    assert((a + p + b).subrange(a.len() as int, (a.len() + p.len()) as int) =~= p);
    assert(occurs_at(a + p + b, p, a.len() as int));
}

/// What stands in one of two texts stands in both together.
pub proof fn lemma_has_either(a: Seq<char>, b: Seq<char>, p: Seq<char>)
    requires
        has_text(a, p) || has_text(b, p),
    ensures
        has_text(a + b, p),
{
    if has_text(a, p) {
        let i = choose|i: int| occurs_at(a, p, i);
        assert((a + b).subrange(i, i + p.len()) =~= a.subrange(i, i + p.len()));
        assert(occurs_at(a + b, p, i));
    } else {
        let i = choose|i: int| occurs_at(b, p, i);
        assert((a + b).subrange(a.len() + i, a.len() + i + p.len()) =~= b.subrange(
            i,
            i + p.len(),
        ));
        assert(occurs_at(a + b, p, a.len() + i));
    }
}

/// What stands in the front of a text stands in the text.
pub broadcast proof fn lemma_has_more(a: Seq<char>, b: Seq<char>, p: Seq<char>)
    requires
        has_text(a, p),
    ensures
        #[trigger] has_text(a + b, p),
{
    lemma_has_either(a, b, p);
}

/// The three last parts of a text stand in it as one.
pub proof fn lemma_has_three(x: Seq<char>, a: Seq<char>, b: Seq<char>, c: Seq<char>)
    ensures
        has_text(x + a + b + c, a + b + c),
{
    let p = a + b + c;
    let s = x + a + b + c;
    assert(s.subrange(x.len() as int, (x.len() + p.len()) as int) =~= p);
    assert(occurs_at(s, p, x.len() as int));
}

/// Law: a number that was written in decimal reads back: it is written in digits
/// alone, without a nought before it, and they have its value.
pub proof fn law_number_reads_back(n: nat)
    ensures
        all_digits(dec(n)),
        dec(n).len() > 0,
        n > 0 ==> dec(n)[0] != '0',
        value_of(dec(n)) == n,
    decreases n,
{
    assert(digit(n % 10) as nat == 48 + n % 10);
    if n < 10 {
        assert(dec(n).drop_last() =~= Seq::empty());
        assert(value_of(dec(n).drop_last()) == 0);
        assert(dec(n).last() == digit(n % 10));
    } else {
        law_number_reads_back(n / 10);
        assert(dec(n).drop_last() =~= dec(n / 10));
        assert(dec(n).last() == digit(n % 10));
        assert forall|i: int| 0 <= i < dec(n).len() implies is_digit(#[trigger] dec(n)[i]) by {
            if i < dec(n / 10).len() {
                assert(dec(n)[i] == dec(n / 10)[i]);
            }
        }
        if n / 10 < 10 {
            assert(dec(n)[0] == digit(n / 10));
        }
    }
}

/// Law: two numbers that are written alike are the same.
pub proof fn law_numbers_differ(m: nat, n: nat)
    ensures
        (dec(m) == dec(n)) == (m == n),
{
    law_number_reads_back(m);
    law_number_reads_back(n);
}

/// The number that a hexadecimal digit stands for, in either case.
pub open spec fn nibble(c: char) -> nat {
    if '0' <= c <= '9' {
        (c as nat - 48) as nat
    } else if 'a' <= c <= 'f' {
        (c as nat - 87) as nat
    } else {
        (c as nat - 55) as nat
    }
}

/// The number that hexadecimal digits write.
pub open spec fn hex_value(s: Seq<char>) -> nat
    decreases s.len(),
{
    if s.len() == 0 {
        0
    } else {
        hex_value(s.drop_last()) * 16 + nibble(s.last())
    }
}

/// Law: a byte that was written in hexadecimal reads back, in either case.
pub proof fn law_byte_reads_back(b: nat)
    requires
        b < 256,
    ensures
        hex2(b).len() == 2,
        hex2_upper(b).len() == 2,
        hex_value(hex2(b)) == b,
        hex_value(hex2_upper(b)) == b,
        forall|i: int| 0 <= i < 2 ==> '0' <= #[trigger] hex2(b)[i] <= '9' || 'a' <= hex2(b)[i] <= 'f',
        forall|i: int|
            0 <= i < 2 ==> '0' <= #[trigger] hex2_upper(b)[i] <= '9' || 'A' <= hex2_upper(b)[i]
                <= 'F',
{
    reveal_with_fuel(hex_value, 3);
    let (h, l) = (b / 16 % 16, b % 16);
    assert(nibble(hex_digit(h)) == h && nibble(hex_digit(l)) == l);
    assert(nibble(hex_digit_upper(h)) == h && nibble(hex_digit_upper(l)) == l);
    assert(hex2(b).drop_last() =~= seq![hex_digit(h)]);
    assert(hex2_upper(b).drop_last() =~= seq![hex_digit_upper(h)]);
    assert(seq![hex_digit(h)].drop_last() =~= Seq::empty());
    assert(seq![hex_digit_upper(h)].drop_last() =~= Seq::empty());
}

/// Law: sixteen bits that were written in hexadecimal read back, in either case.
pub proof fn law_word_reads_back(n: nat)
    requires
        n < 65536,
    ensures
        hex4(n).len() == 4,
        hex4_upper(n).len() == 4,
        hex_value(hex4(n)) == n,
        hex_value(hex4_upper(n)) == n,
{
    reveal_with_fuel(hex_value, 5);
    let (a, b) = (n / 256, n % 256);
    law_byte_reads_back(a);
    law_byte_reads_back(b);
    let s = hex4(n);
    assert(s.drop_last().drop_last() =~= hex2(a));
    assert(s.last() == hex2(b)[1] && s.drop_last().last() == hex2(b)[0]);
    assert(hex2(b).drop_last() =~= seq![hex2(b)[0]]);
    assert(seq![hex2(b)[0]].drop_last() =~= Seq::empty());
    let u = hex4_upper(n);
    assert(u.drop_last().drop_last() =~= hex2_upper(a));
    assert(u.last() == hex2_upper(b)[1] && u.drop_last().last() == hex2_upper(b)[0]);
    assert(hex2_upper(b).drop_last() =~= seq![hex2_upper(b)[0]]);
    assert(seq![hex2_upper(b)[0]].drop_last() =~= Seq::empty());
}

/// Law: a text that is made wider keeps what it says: it ends with the text, or
/// starts with it, is as wide as it was to be or as the text is, and the rest is
/// the filler.
pub proof fn law_padding_keeps_the_text(s: Seq<char>, w: nat, c: char)
    ensures
        ends_with(pad_start(s, w, c), s),
        starts_with(pad_end(s, w, c), s),
        pad_start(s, w, c).len() == pad_end(s, w, c).len(),
        pad_start(s, w, c).len() == (if s.len() < w {
            w
        } else {
            s.len()
        }),
        forall|i: int|
            0 <= i < pad_start(s, w, c).len() - s.len() ==> #[trigger] pad_start(s, w, c)[i] == c,
        forall|i: int|
            s.len() <= i < pad_end(s, w, c).len() ==> #[trigger] pad_end(s, w, c)[i] == c,
{
    lemma_starts(run_of(c, w - s.len()), s);
    lemma_starts(s, run_of(c, w - s.len()));
}

/// Law: a number with noughts before it reads back.
pub proof fn law_padded_number_reads_back(n: nat, w: nat)
    ensures
        all_digits(pad_start(dec(n), w, '0')),
        value_of(pad_start(dec(n), w, '0')) == n,
        pad_start(dec(n), w, '0').len() >= w,
{
    law_number_reads_back(n);
    let d = dec(n);
    let p = pad_start(d, w, '0');
    lemma_noughts(d, (p.len() - d.len()) as nat);
    assert(p =~= run_of('0', p.len() - d.len()) + d);
    assert forall|i: int| 0 <= i < p.len() implies is_digit(#[trigger] p[i]) by {
        if i >= p.len() - d.len() {
            assert(p[i] == d[i - (p.len() - d.len())]);
        }
    }
}

proof fn lemma_noughts(s: Seq<char>, k: nat)
    ensures
        value_of(run_of('0', k as int) + s) == value_of(s),
    decreases s.len() + k,
{
    let p = run_of('0', k as int) + s;
    if s.len() > 0 {
        assert(p.drop_last() =~= run_of('0', k as int) + s.drop_last());
        lemma_noughts(s.drop_last(), k);
    } else if k > 0 {
        assert(p.drop_last() =~= run_of('0', k - 1) + s);
        lemma_noughts(s, (k - 1) as nat);
    } else {
        assert(p =~= s);
    }
}

/// Law: what is trimmed off a text is of the kind that is trimmed, and what is
/// left neither starts nor ends with it; so a text that does neither stays.
pub proof fn law_trimming_takes_only_the_ends(s: Seq<char>, k: CharClass)
    ensures
        exists|i: int|
            0 <= i && i + trimmed(s, k).len() <= s.len() && #[trigger] s.subrange(
                i,
                i + trimmed(s, k).len(),
            ) == trimmed(s, k) && all_of(s.take(i), k) && all_of(
                s.skip(i + trimmed(s, k).len()),
                k,
            ),
        trimmed(s, k).len() > 0 ==> !k.has(trimmed(s, k)[0]) && !k.has(trimmed(s, k).last()),
        s.len() > 0 && !k.has(s[0]) && !k.has(s.last()) ==> trimmed(s, k) == s,
{
    let a = drop_leading(s, k);
    let b = trimmed(s, k);
    lemma_drop_leading(s, k);
    lemma_drop_trailing(a, k);
    lemma_leading_all(s, k);
    lemma_trailing_all(a, k);
    let i = s.len() - a.len();
    assert(s.subrange(i, i + b.len()) =~= b);
    assert(s.skip(i + b.len()) =~= a.skip(b.len() as int));
    assert(s.take(i) =~= s.take(s.len() - a.len()));
}

/// Every character of `s` is of kind `k`.
pub open spec fn all_of(s: Seq<char>, k: CharClass) -> bool {
    forall|i: int| 0 <= i < s.len() ==> k.has(#[trigger] s[i])
}

pub proof fn lemma_leading_all(s: Seq<char>, k: CharClass)
    ensures
        drop_leading(s, k).len() <= s.len(),
        all_of(s.take(s.len() - drop_leading(s, k).len()), k),
    decreases s.len(),
{
    lemma_drop_leading(s, k);
    if s.len() > 0 && k.has(s[0]) {
        let t = s.skip(1);
        lemma_leading_all(t, k);
        let n = s.len() - drop_leading(s, k).len();
        assert forall|i: int| 0 <= i < n implies k.has(#[trigger] s.take(n)[i]) by {
            if i > 0 {
                assert(t.take(n - 1)[i - 1] == s[i]);
            }
        }
    }
}

pub proof fn lemma_trailing_all(s: Seq<char>, k: CharClass)
    ensures
        drop_trailing(s, k).len() <= s.len(),
        all_of(s.skip(drop_trailing(s, k).len() as int), k),
    decreases s.len(),
{
    lemma_drop_trailing(s, k);
    if s.len() > 0 && k.has(s.last()) {
        let t = s.drop_last();
        lemma_trailing_all(t, k);
        let n = drop_trailing(s, k).len() as int;
        assert forall|i: int| 0 <= i < s.skip(n).len() implies k.has(#[trigger] s.skip(n)[i]) by {
            if n + i < t.len() {
                assert(t.skip(n)[i] == s[n + i]);
            }
        }
    }
}

/// Law: only the case of letters changes, and no letter of the other case is
/// left; a text that is in that case already stays.
pub proof fn law_case_is_all_that_changes(s: Seq<char>)
    ensures
        lowered(s).len() == s.len(),
        uppered(s).len() == s.len(),
        lowered(uppered(s)) == lowered(s),
        uppered(lowered(s)) == uppered(s),
        forall|i: int| 0 <= i < s.len() ==> !('A' <= #[trigger] lowered(s)[i] <= 'Z'),
        forall|i: int| 0 <= i < s.len() ==> !('a' <= #[trigger] uppered(s)[i] <= 'z'),
        forall|i: int|
            0 <= i < s.len() && !('A' <= s[i] <= 'Z') ==> #[trigger] lowered(s)[i] == s[i],
        forall|i: int|
            0 <= i < s.len() && !('a' <= s[i] <= 'z') ==> #[trigger] uppered(s)[i] == s[i],
        forall|i: int|
            0 <= i < s.len() && 'A' <= s[i] <= 'Z' ==> #[trigger] lowered(s)[i] as nat == s[i] as nat
                + 32,
{
    assert(lowered(uppered(s)) =~= lowered(s));
    assert(uppered(lowered(s)) =~= uppered(s));
}

/// Law: a list of texts that is joined has every one of them in it, in their
/// order, and nothing but them and what stands between each two.
pub proof fn law_joining_keeps_the_parts(parts: Seq<Seq<char>>, more: Seq<Seq<char>>, sep: Seq<char>)
    requires
        parts.len() > 0,
        more.len() > 0,
    ensures
        joined(seq![parts[0]], sep) == parts[0],
        joined(parts + more, sep) == joined(parts, sep) + sep + joined(more, sep),
    decreases more.len(),
{
    let all = parts + more;
    assert(all.drop_last() =~= parts + more.drop_last());
    assert(all.last() == more.last());
    if more.len() == 1 {
        assert(parts + more.drop_last() =~= parts);
        assert(joined(more, sep) == more[0]);
    } else {
        law_joining_keeps_the_parts(parts, more.drop_last(), sep);
        assert(joined(all, sep) =~= joined(parts, sep) + sep + joined(more, sep));
    }
}

/// Law: each of the joined texts stands in the joined one.
pub proof fn law_joined_has_each_part(parts: Seq<Seq<char>>, sep: Seq<char>, i: int)
    requires
        0 <= i < parts.len(),
    ensures
        has_text(joined(parts, sep), parts[i]),
    decreases parts.len(),
{
    let e = Seq::<char>::empty();
    if parts.len() == 1 {
        lemma_has_part(e, parts[0], e);
        assert(e + parts[0] + e =~= parts[0]);
    } else if i == parts.len() - 1 {
        lemma_has_part(joined(parts.drop_last(), sep) + sep, parts.last(), e);
        assert(joined(parts.drop_last(), sep) + sep + parts.last() + e =~= joined(parts, sep));
    } else {
        law_joined_has_each_part(parts.drop_last(), sep, i);
        lemma_has_either(joined(parts.drop_last(), sep), sep + parts.last(), parts[i]);
        assert(joined(parts.drop_last(), sep) + (sep + parts.last()) =~= joined(parts, sep));
    }
}

/// `s` up to its first line end; all of `s` where there is none.
pub open spec fn first_line(s: Seq<char>) -> Seq<char>
    decreases s.len(),
{
    if s.len() == 0 || s[0] == '\n' {
        Seq::empty()
    } else {
        seq![s[0]] + first_line(s.skip(1))
    }
}

/// The lines of a text, each without its end. What stands behind the last line
/// end is a line where there is anything.
pub open spec fn lines_of(s: Seq<char>) -> Seq<Seq<char>>
    decreases s.len(),
    via lines_shrink
{
    if s.len() == 0 {
        Seq::empty()
    } else {
        let l = first_line(s);
        if l.len() >= s.len() {
            seq![l]
        } else {
            seq![l] + lines_of(s.skip((l.len() + 1) as int))
        }
    }
}

#[via_fn]
proof fn lines_shrink(s: Seq<char>) {
}

pub proof fn lemma_first_line(l: Seq<char>, rest: Seq<char>)
    requires
        lacks(l, '\n'),
    ensures
        first_line(l + seq!['\n'] + rest) == l,
        first_line(l) == l,
    decreases l.len(),
{
    let s = l + seq!['\n'] + rest;
    if l.len() > 0 {
        let t = l.skip(1);
        assert(l[0] != '\n');
        assert forall|i: int| 0 <= i < t.len() implies #[trigger] t[i] != '\n' by {
            assert(l[i + 1] != '\n');
        }
        lemma_first_line(t, rest);
        assert(s.skip(1) =~= t + seq!['\n'] + rest);
        assert(seq![l[0]] + t =~= l);
    }
}

/// A text whose first line is known has that line, and then the others.
pub proof fn lemma_lines(l: Seq<char>, rest: Seq<char>)
    requires
        lacks(l, '\n'),
    ensures
        lines_of(l + seq!['\n'] + rest) == seq![l] + lines_of(rest),
{
    let s = l + seq!['\n'] + rest;
    lemma_first_line(l, rest);
    assert(s.skip((l.len() + 1) as int) =~= rest);
}

pub proof fn lemma_lacks_concat(a: Seq<char>, b: Seq<char>, c: char)
    ensures
        lacks(a + b, c) == (lacks(a, c) && lacks(b, c)),
{
    if lacks(a + b, c) {
        assert forall|i: int| 0 <= i < a.len() implies #[trigger] a[i] != c by {
            assert((a + b)[i] == a[i]);
        }
        assert forall|i: int| 0 <= i < b.len() implies #[trigger] b[i] != c by {
            assert((a + b)[a.len() + i] == b[i]);
        }
    }
}

/// A text of whole lines: empty, or with a line end at its end.
pub open spec fn is_whole(s: Seq<char>) -> bool {
    s.len() == 0 || s.last() == '\n'
}

proof fn lemma_first_line_of_whole(a: Seq<char>, b: Seq<char>)
    requires
        a.len() > 0,
        is_whole(a),
    ensures
        first_line(a + b) == first_line(a),
        first_line(a).len() < a.len(),
        a[first_line(a).len() as int] == '\n',
        lacks(first_line(a), '\n'),
    decreases a.len(),
{
    if a[0] != '\n' {
        let t = a.skip(1);
        assert(t.last() == a.last());
        lemma_first_line_of_whole(t, b);
        assert((a + b).skip(1) =~= t + b);
        let l = first_line(a);
        assert forall|i: int| 0 <= i < l.len() implies #[trigger] l[i] != '\n' by {
            if i > 0 {
                assert(l[i] == first_line(t)[i - 1]);
            }
        }
    }
}

/// The lines of two texts, the first of which is whole, are the lines of the one
/// and then those of the other.
pub proof fn lemma_lines_concat(a: Seq<char>, b: Seq<char>)
    requires
        is_whole(a),
    ensures
        lines_of(a + b) == lines_of(a) + lines_of(b),
        is_whole(b) ==> is_whole(a + b),
    decreases a.len(),
{
    if a.len() == 0 {
        assert(a + b =~= b);
        assert(lines_of(a) + lines_of(b) =~= lines_of(b));
    } else {
        lemma_first_line_of_whole(a, b);
        let l = first_line(a);
        let n = (l.len() + 1) as int;
        let t = a.skip(n);
        if t.len() > 0 {
            assert(t.last() == a.last());
        }
        lemma_lines_concat(t, b);
        assert((a + b).skip(n) =~= t + b);
        assert(lines_of(a + b) =~= seq![l] + lines_of(t + b));
        assert(lines_of(a) =~= seq![l] + lines_of(t));
        assert(lines_of(a) + lines_of(b) =~= seq![l] + (lines_of(t) + lines_of(b)));
    }
}

/// A text without a line end, ended, is one line.
pub proof fn lemma_one_line(l: Seq<char>)
    requires
        lacks(l, '\n'),
    ensures
        lines_of(l + seq!['\n']) == seq![l],
        is_whole(l + seq!['\n']),
{
    lemma_lines(l, Seq::empty());
    assert(l + seq!['\n'] + Seq::<char>::empty() =~= l + seq!['\n']);
    assert(seq![l] + lines_of(Seq::<char>::empty()) =~= seq![l]);
}

/// What the first line that is about `key`, at position `i` or later, holds: the
/// lines are of the form `key = "value"`.
pub open spec fn read_key(lines: Seq<Seq<char>>, key: Seq<char>, i: int) -> Option<Seq<char>>
    decreases lines.len() - i,
{
    if i < 0 || i >= lines.len() {
        None
    } else {
        match between(lines[i], key + " = \""@, "\""@) {
            Some(v) => Some(v),
            None => read_key(lines, key, i + 1),
        }
    }
}

pub proof fn lemma_read_key(lines: Seq<Seq<char>>, key: Seq<char>, value: Seq<char>, k: int, i: int)
    requires
        0 <= i <= k < lines.len(),
        lines[k] == key + " = \""@ + value + "\""@,
        forall|j: int|
            i <= j < k ==> !starts_with(#[trigger] lines[j], key + " = \""@),
    ensures
        read_key(lines, key, i) == Some(value),
    decreases k - i,
{
    if i < k {
        assert(!starts_with(lines[i], key + " = \""@));
        lemma_read_key(lines, key, value, k, i + 1);
    } else {
        lemma_between(key + " = \""@, value, "\""@);
    }
}

/// What lacks the start of what is replaced stays.
pub proof fn lemma_replaced_behind(pre: Seq<char>, t: Seq<char>, p: Seq<char>, by: Seq<char>)
    requires
        p.len() > 0,
        lacks(pre, p[0]),
    ensures
        replaced(pre + t, p, by) == pre + replaced(t, p, by),
    decreases pre.len(),
{
    let s = pre + t;
    if pre.len() == 0 {
        assert(s =~= t);
        assert(pre + replaced(t, p, by) =~= replaced(t, p, by));
    } else {
        assert(s[0] == pre[0] && pre[0] != p[0]);
        if begins(s, p) {
            assert(s.subrange(0, p.len() as int)[0] == s[0]);
        }
        let u = pre.skip(1);
        assert forall|i: int| 0 <= i < u.len() implies #[trigger] u[i] != p[0] by {
            assert(u[i] == pre[i + 1]);
        }
        lemma_replaced_behind(u, t, p, by);
        assert(s.skip(1) =~= u + t);
        assert(seq![pre[0]] + (u + replaced(t, p, by)) =~= pre + replaced(t, p, by));
    }
}

/// Law: what is replaced is every occurrence and nothing else: before the first
/// one nothing changes, in its place stands what it is replaced by, and the rest
/// is treated alike.
pub proof fn law_replacing_changes_nothing_else(
    pre: Seq<char>,
    p: Seq<char>,
    post: Seq<char>,
    by: Seq<char>,
)
    requires
        p.len() > 0,
        lacks(pre, p[0]),
    ensures
        replaced(pre, p, by) == pre,
        replaced(pre + p + post, p, by) == pre + by + replaced(post, p, by),
{
    let e = Seq::<char>::empty();
    lemma_replaced_behind(pre, e, p, by);
    assert(pre + e =~= pre);
    assert(pre + replaced(e, p, by) =~= pre);
    let t = p + post;
    lemma_replaced_behind(pre, t, p, by);
    assert(pre + t =~= pre + p + post);
    assert(t.subrange(0, p.len() as int) =~= p);
    assert(t.skip(p.len() as int) =~= post);
    assert(pre + (by + replaced(post, p, by)) =~= pre + by + replaced(post, p, by));
}

/// Law: a catalogue gives the text that stands under a key, the first where there
/// are several, and the key itself where there is none.
pub proof fn law_catalog_gives_its_texts(
    c: Seq<(Seq<char>, Seq<char>)>,
    key: Seq<char>,
    english: Seq<char>,
    i: int,
)
    ensures
        0 <= i < c.len() && c[i].0 == key && (forall|j: int| 0 <= j < i ==> (#[trigger] c[j]).0 != key)
            ==> text_of(c, key) == c[i].1 && text_or(c, key, english) == c[i].1,
        (forall|j: int| 0 <= j < c.len() ==> (#[trigger] c[j]).0 != key) ==> text_of(c, key) == key
            && text_or(c, key, english) == english,
    decreases c.len(),
{
    if c.len() > 0 && c[0].0 != key {
        let d = c.skip(1);
        law_catalog_gives_its_texts(d, key, english, i - 1);
        if 0 <= i < c.len() && c[i].0 == key && (forall|j: int|
            0 <= j < i ==> (#[trigger] c[j]).0 != key) {
            assert forall|j: int| 0 <= j < i - 1 implies (#[trigger] d[j]).0 != key by {
                assert(d[j] == c[j + 1]);
            }
            assert(d[i - 1] == c[i]);
        }
        if forall|j: int| 0 <= j < c.len() ==> (#[trigger] c[j]).0 != key {
            assert forall|j: int| 0 <= j < d.len() implies (#[trigger] d[j]).0 != key by {
                assert(d[j] == c[j + 1]);
            }
        }
    } else if c.len() > 0 {
        assert(c[0].0 == key);
    }
}

/// Law: a text with a placeholder gets the value in its place, and a text without
/// any stays; two placeholders each get their own.
pub proof fn law_placeholders_are_filled(
    pre: Seq<char>,
    a: Seq<char>,
    x: Seq<char>,
    mid: Seq<char>,
    b: Seq<char>,
    y: Seq<char>,
    post: Seq<char>,
)
    requires
        lacks(pre, '{'),
        lacks(mid, '{'),
        lacks(post, '{'),
        lacks(x, '{'),
        a != b,
        lacks(a, '}'),
        lacks(b, '}'),
        lacks(a, '{'),
        lacks(b, '{'),
    ensures
        filled(pre, seq![(a, x)]) == pre,
        filled(pre + placeholder(a) + post, seq![(a, x)]) == pre + x + post,
        filled(
            pre + placeholder(a) + mid + placeholder(b) + post,
            seq![(a, x), (b, y)],
        ) == pre + x + mid + y + post,
{
    let p = placeholder(a);
    let q = placeholder(b);
    let one = seq![(a, x)];
    let two = seq![(a, x), (b, y)];
    assert(one.drop_last() =~= Seq::empty());
    assert(two.drop_last() =~= one);
    reveal_with_fuel(filled, 3);
    law_replacing_changes_nothing_else(pre, p, post, x);
    lemma_replaced_behind(post, Seq::empty(), p, x);
    assert(post + Seq::<char>::empty() =~= post);
    assert(replaced(post, p, x) =~= post);
    let t = mid + q + post;
    law_replacing_changes_nothing_else(pre, p, t, x);
    assert(pre + p + t =~= pre + p + mid + q + post);
    lemma_replaced_behind(mid, q + post, p, x);
    assert(mid + (q + post) =~= t);
    lemma_other_placeholder(a, b, post, x);
    assert(replaced(q + post, p, x) == q + post);
    let u = pre + x + t;
    let head = pre + x + mid;
    lemma_lacks_concat(pre, x, '{');
    lemma_lacks_concat(pre + x, mid, '{');
    law_replacing_changes_nothing_else(head, q, post, y);
    assert(head + q + post =~= u);
    lemma_replaced_behind(post, Seq::empty(), q, y);
    assert(replaced(post, q, y) =~= post);
}

/// One placeholder is not taken for another.
proof fn lemma_other_placeholder(a: Seq<char>, b: Seq<char>, post: Seq<char>, x: Seq<char>)
    requires
        a != b,
        lacks(a, '}'),
        lacks(b, '}'),
        lacks(b, '{'),
        lacks(post, '{'),
    ensures
        replaced(placeholder(b) + post, placeholder(a), x) == placeholder(b) + post,
{
    let p = placeholder(a);
    let q = placeholder(b);
    let s = q + post;
    if begins(s, p) {
        let h = s.subrange(0, p.len() as int);
        assert(h == p);
        assert(p[p.len() - 1] == '}' && q[q.len() - 1] == '}');
        if a.len() < b.len() {
            assert(h[a.len() as int + 1] == b[a.len() as int]);
            assert(b[a.len() as int] != '}');
        } else if a.len() > b.len() {
            assert(h[b.len() as int + 1] == q[b.len() as int + 1]);
            assert(p[b.len() as int + 1] == a[b.len() as int]);
            assert(a[b.len() as int] != '}');
        } else {
            assert forall|i: int| 0 <= i < a.len() implies a[i] == b[i] by {
                assert(h[i + 1] == p[i + 1] && p[i + 1] == a[i] && h[i + 1] == q[i + 1] && q[i + 1]
                    == b[i]);
            }
            assert(a =~= b);
        }
    }
    let rest = b + seq!['}'] + post;
    assert(s.skip(1) =~= rest);
    lemma_lacks_concat(b, seq!['}'], '{');
    lemma_lacks_concat(b + seq!['}'], post, '{');
    lemma_replaced_behind(rest, Seq::empty(), p, x);
    assert(rest + Seq::<char>::empty() =~= rest);
    assert(replaced(rest, p, x) =~= rest);
    assert(seq!['{'] + rest =~= s);
}

/// Law: a place in a text gets the value that goes by its name, whatever else there
/// is to fill in.
pub proof fn law_placeholder_gets_its_value(
    pre: Seq<char>,
    post: Seq<char>,
    args: Seq<(Seq<char>, Seq<char>)>,
    k: int,
)
    requires
        lacks(pre, '{') && lacks(post, '{'),
        0 <= k < args.len(),
        lacks(args[k].1, '{'),
        forall|i: int|
            0 <= i < args.len() ==> lacks((#[trigger] args[i]).0, '{') && lacks(args[i].0, '}'),
        forall|i: int| 0 <= i < args.len() && i != k ==> (#[trigger] args[i]).0 != args[k].0,
    ensures
        filled(pre + placeholder(args[k].0) + post, args) == pre + args[k].1 + post,
    decreases args.len(),
{
    let front = args.drop_last();
    let last = args[args.len() - 1];
    let p = placeholder(last.0);
    assert forall|i: int| 0 <= i < front.len() implies (#[trigger] front[i]) == args[i] by {}
    lemma_lacks_concat(pre, args[k].1, '{');
    lemma_lacks_concat(pre + args[k].1, post, '{');
    if k < front.len() {
        law_placeholder_gets_its_value(pre, post, front, k);
        law_replacing_changes_nothing_else(pre + args[k].1 + post, p, Seq::empty(), last.1);
    } else {
        lemma_place_is_kept(pre, args[k].0, post, front);
        law_replacing_changes_nothing_else(pre, p, post, last.1);
        law_replacing_changes_nothing_else(post, p, Seq::empty(), last.1);
    }
}

proof fn lemma_place_is_kept(
    pre: Seq<char>,
    a: Seq<char>,
    post: Seq<char>,
    args: Seq<(Seq<char>, Seq<char>)>,
)
    requires
        lacks(pre, '{') && lacks(post, '{'),
        lacks(a, '{') && lacks(a, '}'),
        forall|i: int|
            0 <= i < args.len() ==> lacks((#[trigger] args[i]).0, '{') && lacks(args[i].0, '}')
                && args[i].0 != a,
    ensures
        filled(pre + placeholder(a) + post, args) == pre + placeholder(a) + post,
    decreases args.len(),
{
    if args.len() > 0 {
        let front = args.drop_last();
        let last = args[args.len() - 1];
        assert forall|i: int| 0 <= i < front.len() implies (#[trigger] front[i]) == args[i] by {}
        lemma_place_is_kept(pre, a, post, front);
        let t = placeholder(a) + post;
        assert(pre + t =~= pre + placeholder(a) + post);
        lemma_replaced_behind(pre, t, placeholder(last.0), last.1);
        lemma_other_placeholder(last.0, a, post, last.1);
    }
}

} // verus!
