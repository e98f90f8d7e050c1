//! Text as sequences of characters: the vocabulary every contract in this
//! crate is written in, and the few operations that build and take apart text.

use vstd::prelude::*;
use vstd::string::*;

verus! {

/// `String::push` appends one character and changes nothing else.
pub assume_specification[ String::push ](s: &mut String, c: char)
    ensures
        final(s)@ == old(s)@.push(c),
;

/// The texts of a list of strings, in order.
pub open spec fn texts(v: Seq<String>) -> Seq<Seq<char>> {
    v.map_values(|s: String| s@)
}

/// Appending a string to a list appends its text to the texts.
pub broadcast proof fn lemma_texts_push(v: Seq<String>, s: String)
    ensures
        #[trigger] texts(v.push(s)) == texts(v).push(s@),
{
    assert(texts(v.push(s)) =~= texts(v).push(s@));
}

/// The characters of `s`, one by one.
pub fn chars_of(s: &str) -> (v: Vec<char>)
    ensures
        v@ == s@,
{
    let mut v: Vec<char> = Vec::new();
    for c in it: s.chars()
        invariant
            it.seq() == s@,
            v@ == s@.take(it.index()),
    {
        v.push(c);
    }
    v
}

/// The string made of `chars`.
pub fn string_of(chars: &[char]) -> (s: String)
    ensures
        s@ == chars@,
{
    let mut s = String::new();
    for i in 0..chars.len()
        invariant
            s@ == chars@.take(i as int),
    {
        s.push(chars[i]);
    }
    assert(chars@.take(chars@.len() as int) =~= chars@);
    s
}

/// Whether two texts are the same, character for character.
pub fn same_text(a: &str, b: &str) -> (r: bool)
    ensures
        r == (a@ == b@),
{
    let x = a.to_owned();
    let y = b.to_owned();
    x == y
}

/// The decimal digit for `d`, for `d` below ten.
pub open spec fn digit(d: nat) -> char {
    (48 + d) as char
}

/// `n` written in decimal, without leading zeros.
pub open spec fn dec(n: nat) -> Seq<char>
    decreases n,
{
    if n < 10 {
        seq![digit(n)]
    } else {
        dec(n / 10).push(digit(n % 10))
    }
}

/// Appends `n` in decimal.
pub fn push_dec(out: &mut String, n: u64)
    ensures
        final(out)@ == old(out)@ + dec(n as nat),
    decreases n,
{
    if n >= 10 {
        push_dec(out, n / 10);
    }
    let d: u8 = (n % 10) as u8;
    out.push((48 + d) as char);
    assert(out@ =~= old(out)@ + dec(n as nat));
}

/// `n` in decimal.
pub fn dec_text(n: u64) -> (s: String)
    ensures
        s@ == dec(n as nat),
{
    let mut s = String::new();
    push_dec(&mut s, n);
    assert(Seq::<char>::empty() + dec(n as nat) =~= dec(n as nat));
    s
}

/// The lower-case hexadecimal digit for `d`, for `d` below sixteen.
pub open spec fn hex_digit(d: nat) -> char {
    if d < 10 {
        (48 + d) as char
    } else {
        (87 + d) as char
    }
}

/// The upper-case hexadecimal digit for `d`, for `d` below sixteen.
pub open spec fn hex_digit_upper(d: nat) -> char {
    if d < 10 {
        (48 + d) as char
    } else {
        (55 + d) as char
    }
}

/// Two lower-case hexadecimal digits.
pub open spec fn hex2(b: nat) -> Seq<char> {
    seq![hex_digit(b / 16 % 16), hex_digit(b % 16)]
}

/// Two upper-case hexadecimal digits.
pub open spec fn hex2_upper(b: nat) -> Seq<char> {
    seq![hex_digit_upper(b / 16 % 16), hex_digit_upper(b % 16)]
}

/// Four lower-case hexadecimal digits.
pub open spec fn hex4(n: nat) -> Seq<char> {
    hex2(n / 256) + hex2(n % 256)
}

/// Four upper-case hexadecimal digits.
pub open spec fn hex4_upper(n: nat) -> Seq<char> {
    hex2_upper(n / 256) + hex2_upper(n % 256)
}

fn hex_char(d: u8) -> (c: char)
    requires
        d < 16,
    ensures
        c == hex_digit(d as nat),
{
    if d < 10 {
        (48 + d) as char
    } else {
        (87 + d) as char
    }
}

fn hex_char_upper(d: u8) -> (c: char)
    requires
        d < 16,
    ensures
        c == hex_digit_upper(d as nat),
{
    if d < 10 {
        (48 + d) as char
    } else {
        (55 + d) as char
    }
}

/// Appends one byte as two lower-case hexadecimal digits.
pub fn push_hex2(out: &mut String, b: u8)
    ensures
        final(out)@ == old(out)@ + hex2(b as nat),
{
    out.push(hex_char(b / 16));
    out.push(hex_char(b % 16));
    assert(out@ =~= old(out)@ + hex2(b as nat));
}

/// Appends one byte as two upper-case hexadecimal digits.
pub fn push_hex2_upper(out: &mut String, b: u8)
    ensures
        final(out)@ == old(out)@ + hex2_upper(b as nat),
{
    out.push(hex_char_upper(b / 16));
    out.push(hex_char_upper(b % 16));
    assert(out@ =~= old(out)@ + hex2_upper(b as nat));
}

/// Appends `n` as four lower-case hexadecimal digits.
pub fn push_hex4(out: &mut String, n: u16)
    ensures
        final(out)@ == old(out)@ + hex4(n as nat),
{
    push_hex2(out, (n / 256) as u8);
    push_hex2(out, (n % 256) as u8);
    assert(out@ =~= old(out)@ + hex4(n as nat));
}

/// Appends `n` as four upper-case hexadecimal digits.
pub fn push_hex4_upper(out: &mut String, n: u16)
    ensures
        final(out)@ == old(out)@ + hex4_upper(n as nat),
{
    push_hex2_upper(out, (n / 256) as u8);
    push_hex2_upper(out, (n % 256) as u8);
    assert(out@ =~= old(out)@ + hex4_upper(n as nat));
}

/// `n` copies of `c`.
pub open spec fn run_of(c: char, n: int) -> Seq<char> {
    Seq::new(
        if n > 0 {
            n as nat
        } else {
            0
        },
        |i: int| c,
    )
}

/// `s` with `c` put before it until it is `w` characters wide.
pub open spec fn pad_start(s: Seq<char>, w: nat, c: char) -> Seq<char> {
    run_of(c, w - s.len()) + s
}

/// `s` with `c` put behind it until it is `w` characters wide.
pub open spec fn pad_end(s: Seq<char>, w: nat, c: char) -> Seq<char> {
    s + run_of(c, w - s.len())
}

/// Appends `n` copies of `c`.
pub fn push_run(out: &mut String, c: char, n: usize)
    ensures
        final(out)@ == old(out)@ + run_of(c, n as int),
{
    for i in 0..n
        invariant
            out@ == old(out)@ + run_of(c, i as int),
    {
        out.push(c);
        assert(run_of(c, i + 1) =~= run_of(c, i as int).push(c));
    }
    assert(out@ =~= old(out)@ + run_of(c, n as int));
}

/// `s`, with `c` put before it until it is `w` characters wide.
pub fn pad_start_text(s: &str, w: usize, c: char) -> (r: String)
    ensures
        r@ == pad_start(s@, w as nat, c),
{
    let n: usize = s.unicode_len();
    let mut out = String::new();
    if n < w {
        push_run(&mut out, c, w - n);
    }
    out.append(s);
    assert(out@ =~= pad_start(s@, w as nat, c));
    out
}

/// `s`, with `c` put behind it until it is `w` characters wide.
pub fn pad_end_text(s: &str, w: usize, c: char) -> (r: String)
    ensures
        r@ == pad_end(s@, w as nat, c),
{
    let n: usize = s.unicode_len();
    let mut out = s.to_owned();
    if n < w {
        push_run(&mut out, c, w - n);
    }
    assert(out@ =~= pad_end(s@, w as nat, c));
    out
}

/// Unicode's `White_Space` property.
pub open spec fn is_white(c: char) -> bool {
    '\u{9}' <= c <= '\u{d}' || c == '\u{20}' || c == '\u{85}' || c == '\u{a0}' || c == '\u{1680}'
        || '\u{2000}' <= c <= '\u{200a}' || c == '\u{2028}' || c == '\u{2029}' || c == '\u{202f}' || c
        == '\u{205f}' || c == '\u{3000}'
}

/// The control characters of C0.
pub open spec fn is_c0(c: char) -> bool {
    c <= '\u{1f}'
}

/// The control characters, C0, DEL and C1.
pub open spec fn is_control(c: char) -> bool {
    c <= '\u{1f}' || '\u{7f}' <= c <= '\u{9f}'
}

/// A decimal digit of ASCII.
pub open spec fn is_digit(c: char) -> bool {
    '0' <= c <= '9'
}

/// Whether `c` is white space.
pub fn char_is_white(c: char) -> (r: bool)
    ensures
        r == is_white(c),
{
    ('\u{9}' <= c && c <= '\u{d}') || c == '\u{20}' || c == '\u{85}' || c == '\u{a0}' || c
        == '\u{1680}' || ('\u{2000}' <= c && c <= '\u{200a}') || c == '\u{2028}' || c == '\u{2029}' || c
        == '\u{202f}' || c == '\u{205f}' || c == '\u{3000}'
}

/// Whether `c` is a control character.
pub fn char_is_control(c: char) -> (r: bool)
    ensures
        r == is_control(c),
{
    c <= '\u{1f}' || ('\u{7f}' <= c && c <= '\u{9f}')
}

/// Whether `c` is a control character of C0.
pub fn char_is_c0(c: char) -> (r: bool)
    ensures
        r == is_c0(c),
{
    c <= '\u{1f}'
}

/// The kinds of character that text is cut or trimmed at.
#[derive(Clone, Copy, PartialEq, Eq, Structural)]
pub enum CharClass {
    /// White space.
    White,
    /// A dot or a space.
    DotOrSpace,
    /// A hyphen.
    Dash,
    /// A dot.
    Dot,
    /// What ends the authority of a URL: `/`, `?` or `#`.
    UrlDelimiter,
    /// What ends the language part of a locale name: `.` or `@`.
    LocaleDelimiter,
    /// A closing square bracket.
    CloseBracket,
    /// A double quote.
    Quote,
    /// A slash or a backslash.
    PathSeparator,
}

impl CharClass {
    /// Whether `c` is of this kind.
    pub open spec fn has(self, c: char) -> bool {
        match self {
            CharClass::White => is_white(c),
            CharClass::DotOrSpace => c == '.' || c == ' ',
            CharClass::Dash => c == '-',
            CharClass::Dot => c == '.',
            CharClass::UrlDelimiter => c == '/' || c == '?' || c == '#',
            CharClass::LocaleDelimiter => c == '.' || c == '@',
            CharClass::CloseBracket => c == ']',
            CharClass::Quote => c == '"',
            CharClass::PathSeparator => c == '/' || c == '\\',
        }
    }

    /// Whether `c` is of this kind.
    pub fn test(self, c: char) -> (r: bool)
        ensures
            r == self.has(c),
    {
        match self {
            CharClass::White => char_is_white(c),
            CharClass::DotOrSpace => c == '.' || c == ' ',
            CharClass::Dash => c == '-',
            CharClass::Dot => c == '.',
            CharClass::UrlDelimiter => c == '/' || c == '?' || c == '#',
            CharClass::LocaleDelimiter => c == '.' || c == '@',
            CharClass::CloseBracket => c == ']',
            CharClass::Quote => c == '"',
            CharClass::PathSeparator => c == '/' || c == '\\',
        }
    }
}

/// `s` without the characters of kind `k` that it starts with.
pub open spec fn drop_leading(s: Seq<char>, k: CharClass) -> Seq<char>
    decreases s.len(),
{
    if s.len() > 0 && k.has(s[0]) {
        drop_leading(s.skip(1), k)
    } else {
        s
    }
}

/// `s` without the characters of kind `k` that it ends with.
pub open spec fn drop_trailing(s: Seq<char>, k: CharClass) -> Seq<char>
    decreases s.len(),
{
    if s.len() > 0 && k.has(s.last()) {
        drop_trailing(s.drop_last(), k)
    } else {
        s
    }
}

/// `s` without the characters of kind `k` at either end.
pub open spec fn trimmed(s: Seq<char>, k: CharClass) -> Seq<char> {
    drop_trailing(drop_leading(s, k), k)
}

/// `s` up to its first character of kind `k`; all of `s` where there is none.
pub open spec fn until(s: Seq<char>, k: CharClass) -> Seq<char>
    decreases s.len(),
{
    if s.len() == 0 || k.has(s[0]) {
        Seq::empty()
    } else {
        seq![s[0]] + until(s.skip(1), k)
    }
}

/// The part of `v` without the leading characters of kind `k`.
pub fn cut_leading<'a>(v: &'a [char], k: CharClass) -> (r: &'a [char])
    ensures
        r@ == drop_leading(v@, k),
{
    let mut i: usize = 0;
    assert(v@.skip(0) =~= v@);
    while i < v.len() && k.test(v[i])
        invariant
            i <= v@.len(),
            drop_leading(v@, k) == drop_leading(v@.skip(i as int), k),
        decreases v@.len() - i,
    {
        assert(v@.skip(i as int).skip(1) =~= v@.skip(i + 1));
        i = i + 1;
    }
    assert(v@.subrange(i as int, v@.len() as int) =~= v@.skip(i as int));
    vstd::slice::slice_subrange(v, i, v.len())
}

/// The part of `v` without the trailing characters of kind `k`.
pub fn cut_trailing<'a>(v: &'a [char], k: CharClass) -> (r: &'a [char])
    ensures
        r@ == drop_trailing(v@, k),
{
    let mut n: usize = v.len();
    assert(v@.take(n as int) =~= v@);
    while n > 0 && k.test(v[n - 1])
        invariant
            n <= v@.len(),
            drop_trailing(v@, k) == drop_trailing(v@.take(n as int), k),
        decreases n,
    {
        assert(v@.take(n as int).drop_last() =~= v@.take(n - 1));
        n = n - 1;
    }
    assert(v@.subrange(0, n as int) =~= v@.take(n as int));
    vstd::slice::slice_subrange(v, 0, n)
}

/// The part of `v` without the characters of kind `k` at either end.
pub fn cut<'a>(v: &'a [char], k: CharClass) -> (r: &'a [char])
    ensures
        r@ == trimmed(v@, k),
{
    cut_trailing(cut_leading(v, k), k)
}

/// How many characters stand before the first one of kind `k`.
pub fn len_until(v: &[char], k: CharClass) -> (n: usize)
    ensures
        n <= v@.len(),
        v@.take(n as int) == until(v@, k),
        n < v@.len() ==> k.has(v@[n as int]),
        forall|i: int| 0 <= i < n ==> !k.has(#[trigger] v@[i]),
{
    let mut i: usize = 0;
    assert(v@.skip(0) =~= v@);
    assert(v@.take(0) + until(v@, k) =~= until(v@, k));
    while i < v.len() && !k.test(v[i])
        invariant
            i <= v@.len(),
            until(v@, k) == v@.take(i as int) + until(v@.skip(i as int), k),
            forall|j: int| 0 <= j < i ==> !k.has(#[trigger] v@[j]),
        decreases v@.len() - i,
    {
        assert(v@.skip(i as int).skip(1) =~= v@.skip(i + 1));
        assert(v@.take(i as int) + (seq![v@[i as int]] + until(v@.skip(i + 1), k)) =~= v@.take(
            i + 1,
        ) + until(v@.skip(i + 1), k));
        i = i + 1;
    }
    assert(v@.take(i as int) + Seq::empty() =~= v@.take(i as int));
    i
}

/// `s` without the white space at either end.
pub fn trim_text(s: &str) -> (r: String)
    ensures
        r@ == trimmed(s@, CharClass::White),
{
    let v = chars_of(s);
    string_of(cut(v.as_slice(), CharClass::White))
}

/// `p` stands in `s` at position `i`.
pub open spec fn occurs_at(s: Seq<char>, p: Seq<char>, i: int) -> bool {
    0 <= i && i + p.len() <= s.len() && s.subrange(i, i + p.len()) == p
}

/// `p` stands somewhere in `s`.
pub open spec fn has_text(s: Seq<char>, p: Seq<char>) -> bool {
    exists|i: int| occurs_at(s, p, i)
}

/// `s` starts with `p`.
pub open spec fn begins(s: Seq<char>, p: Seq<char>) -> bool {
    occurs_at(s, p, 0)
}

/// Whether `p` stands in `v` at position `i`.
pub fn matches_at(v: &[char], p: &[char], i: usize) -> (r: bool)
    ensures
        r == occurs_at(v@, p@, i as int),
{
    if i > v.len() || p.len() > v.len() - i {
        return false;
    }
    let mut j: usize = 0;
    while j < p.len()
        invariant
            j <= p@.len(),
            i + p@.len() <= v.len(),
            forall|l: int| 0 <= l < j ==> v@[i + l] == p@[l],
        decreases p@.len() - j,
    {
        if v[i + j] != p[j] {
            assert(v@.subrange(i as int, i + p@.len())[j as int] != p@[j as int]);
            return false;
        }
        j = j + 1;
    }
    assert(v@.subrange(i as int, i + p@.len()) =~= p@);
    true
}

/// Where `p` first stands in `v`, at position `from` or later.
pub fn find_from(v: &[char], p: &[char], from: usize) -> (r: Option<usize>)
    ensures
        match r {
            Some(i) => from <= i && occurs_at(v@, p@, i as int) && (forall|j: int|
                from <= j < i ==> !occurs_at(v@, p@, j)),
            None => forall|j: int| from <= j ==> !occurs_at(v@, p@, j),
        },
{
    let mut i: usize = from;
    while i <= v.len() && p.len() <= v.len() - i
        invariant
            from <= i,
            i <= v@.len() + 1 || i == from,
            forall|j: int| from <= j < i ==> !occurs_at(v@, p@, j),
        decreases v@.len() + 1 - i,
    {
        if matches_at(v, p, i) {
            return Some(i);
        }
        if i == v.len() {
            return None;
        }
        i = i + 1;
    }
    None
}

/// Where `p` next stands in `s`, at position `i` or later.
pub open spec fn next_at(s: Seq<char>, p: Seq<char>, i: int) -> Option<int>
    decreases s.len() + 1 - i,
{
    if i < 0 || i + p.len() > s.len() {
        None
    } else if occurs_at(s, p, i) {
        Some(i)
    } else {
        next_at(s, p, i + 1)
    }
}

/// The first occurrence is the one with none before it.
pub proof fn lemma_next_at(s: Seq<char>, p: Seq<char>, from: int, r: Option<int>)
    requires
        from >= 0,
        match r {
            Some(i) => from <= i && occurs_at(s, p, i) && (forall|j: int|
                from <= j < i ==> !occurs_at(s, p, j)),
            None => forall|j: int| from <= j ==> !occurs_at(s, p, j),
        },
    ensures
        next_at(s, p, from) == r,
    decreases s.len() + 1 - from,
{
    if from + p.len() <= s.len() {
        if !occurs_at(s, p, from) {
            lemma_next_at(s, p, from + 1, r);
        }
    }
}

/// Whether `s` starts with `p`.
pub fn text_begins(s: &str, p: &str) -> (r: bool)
    ensures
        r == begins(s@, p@),
{
    let v = chars_of(s);
    let q = chars_of(p);
    matches_at(v.as_slice(), q.as_slice(), 0)
}

/// Whether `p` stands somewhere in `s`.
pub fn text_has(s: &str, p: &str) -> (r: bool)
    ensures
        r == has_text(s@, p@),
{
    let v = chars_of(s);
    let q = chars_of(p);
    find_from(v.as_slice(), q.as_slice(), 0).is_some()
}

/// `s` with every occurrence of `p`, taken from the left, replaced by `by`.
pub open spec fn replaced(s: Seq<char>, p: Seq<char>, by: Seq<char>) -> Seq<char>
    decreases s.len(),
{
    if p.len() == 0 || s.len() == 0 {
        s
    } else if begins(s, p) {
        by + replaced(s.skip(p.len() as int), p, by)
    } else {
        seq![s[0]] + replaced(s.skip(1), p, by)
    }
}

/// `s` with every occurrence of `p` replaced by `by`; `p` is not empty.
pub fn replace_text(s: &str, p: &str, by: &str) -> (r: String)
    requires
        p@.len() > 0,
    ensures
        r@ == replaced(s@, p@, by@),
{
    let v = chars_of(s);
    let q = chars_of(p);
    let mut out = String::new();
    let mut i: usize = 0;
    assert(v@.skip(0) =~= v@);
    assert(out@ + replaced(s@, p@, by@) =~= replaced(s@, p@, by@));
    while i < v.len()
        invariant
            i <= v@.len(),
            v@ == s@,
            q@ == p@,
            p@.len() > 0,
            replaced(s@, p@, by@) == out@ + replaced(v@.skip(i as int), p@, by@),
        decreases v@.len() - i,
    {
        let ghost rest = v@.skip(i as int);
        assert(occurs_at(v@, p@, i as int) == begins(rest, p@)) by {
            if i + p@.len() <= v@.len() {
                assert(v@.subrange(i as int, i + p@.len()) =~= rest.subrange(0, p@.len() as int));
            }
        }
        if matches_at(v.as_slice(), q.as_slice(), i) {
            let ghost before = out@;
            out.append(by);
            assert(rest.skip(p@.len() as int) =~= v@.skip(i + p@.len()));
            assert(before + (by@ + replaced(v@.skip(i + p@.len()), p@, by@)) =~= out@ + replaced(
                v@.skip(i + p@.len()),
                p@,
                by@,
            ));
            i = i + q.len();
        } else {
            let ghost before = out@;
            out.push(v[i]);
            assert(rest.skip(1) =~= v@.skip(i + 1));
            assert(before + (seq![rest[0]] + replaced(v@.skip(i + 1), p@, by@)) =~= out@ + replaced(
                v@.skip(i + 1),
                p@,
                by@,
            ));
            i = i + 1;
        }
    }
    assert(out@ + replaced(v@.skip(i as int), p@, by@) =~= out@);
    out
}

/// The texts in order, with `sep` between each two.
pub open spec fn joined(parts: Seq<Seq<char>>, sep: Seq<char>) -> Seq<char>
    decreases parts.len(),
{
    if parts.len() == 0 {
        Seq::empty()
    } else if parts.len() == 1 {
        parts[0]
    } else {
        joined(parts.drop_last(), sep) + sep + parts.last()
    }
}

/// The strings in order, with `sep` between each two.
pub fn join_texts(parts: &Vec<String>, sep: &str) -> (r: String)
    ensures
        r@ == joined(texts(parts@), sep@),
{
    let mut out = String::new();
    let ghost all = texts(parts@);
    for i in 0..parts.len()
        invariant
            all == texts(parts@),
            all.len() == parts@.len(),
            out@ == joined(all.take(i as int), sep@),
    {
        assert(all.take(i + 1).drop_last() =~= all.take(i as int));
        assert(all[i as int] == parts@[i as int]@);
        if i > 0 {
            out.append(sep);
            out.append(parts[i].as_str());
        } else {
            assert(out@ =~= Seq::<char>::empty());
            out.append(parts[i].as_str());
            assert(out@ =~= all.take(1)[0]);
        }
    }
    assert(all.take(parts@.len() as int) =~= all);
    out
}

/// An ASCII letter in lower case; any other character as it is.
pub open spec fn lower(c: char) -> char {
    if 'A' <= c <= 'Z' {
        (c as nat + 32) as char
    } else {
        c
    }
}

/// An ASCII letter in upper case; any other character as it is.
pub open spec fn upper(c: char) -> char {
    if 'a' <= c <= 'z' {
        (c as nat - 32) as char
    } else {
        c
    }
}

/// `s` with its ASCII letters in lower case.
pub open spec fn lowered(s: Seq<char>) -> Seq<char> {
    s.map_values(|c: char| lower(c))
}

/// `s` with its ASCII letters in upper case.
pub open spec fn uppered(s: Seq<char>) -> Seq<char> {
    s.map_values(|c: char| upper(c))
}

/// `c` in lower case, where it is an ASCII letter.
pub fn char_lower(c: char) -> (r: char)
    ensures
        r == lower(c),
{
    if 'A' <= c && c <= 'Z' {
        ((c as u8) + 32) as char
    } else {
        c
    }
}

/// `c` in upper case, where it is an ASCII letter.
pub fn char_upper(c: char) -> (r: char)
    ensures
        r == upper(c),
{
    if 'a' <= c && c <= 'z' {
        ((c as u8) - 32) as char
    } else {
        c
    }
}

/// The characters with their ASCII letters in lower case.
pub fn lower_chars(v: &[char]) -> (r: Vec<char>)
    ensures
        r@ == lowered(v@),
{
    let mut r: Vec<char> = Vec::new();
    for i in 0..v.len()
        invariant
            r@ == lowered(v@).take(i as int),
    {
        r.push(char_lower(v[i]));
        assert(r@ =~= lowered(v@).take(i + 1));
    }
    assert(lowered(v@).take(v@.len() as int) =~= lowered(v@));
    r
}

/// `s` with its ASCII letters in lower case.
pub fn lower_text(s: &str) -> (r: String)
    ensures
        r@ == lowered(s@),
{
    let v = chars_of(s);
    let w = lower_chars(v.as_slice());
    string_of(w.as_slice())
}

/// `s` with its ASCII letters in upper case.
pub fn upper_text(s: &str) -> (r: String)
    ensures
        r@ == uppered(s@),
{
    let v = chars_of(s);
    let mut r = String::new();
    for i in 0..v.len()
        invariant
            v@ == s@,
            r@ == uppered(s@).take(i as int),
    {
        r.push(char_upper(v[i]));
        assert(r@ =~= uppered(s@).take(i + 1));
    }
    assert(uppered(s@).take(s@.len() as int) =~= uppered(s@));
    r
}

/// Every character of `s` is a decimal digit.
pub open spec fn all_digits(s: Seq<char>) -> bool {
    forall|i: int| 0 <= i < s.len() ==> is_digit(#[trigger] s[i])
}

/// The number that a run of decimal digits writes.
pub open spec fn value_of(s: Seq<char>) -> nat
    decreases s.len(),
{
    if s.len() == 0 {
        0
    } else {
        value_of(s.drop_last()) * 10 + (s.last() as nat - 48) as nat
    }
}

/// What an unsigned number of at most `max` may be written as: digits, of which
/// there is at least one, behind at most one plus sign.
pub open spec fn parsed_unsigned(s: Seq<char>, max: nat) -> Option<nat> {
    let digits = if s.len() > 0 && s[0] == '+' {
        s.skip(1)
    } else {
        s
    };
    if digits.len() > 0 && all_digits(digits) && value_of(digits) <= max {
        Some(value_of(digits))
    } else {
        None
    }
}

/// A longer run of digits writes a number that is no smaller.
proof fn lemma_value_grows(s: Seq<char>, n: int)
    requires
        0 <= n <= s.len(),
        all_digits(s),
    ensures
        value_of(s.take(n)) <= value_of(s),
    decreases s.len() - n,
{
    if n < s.len() {
        lemma_value_grows(s, n + 1);
        assert(s.take(n + 1).drop_last() =~= s.take(n));
        assert(is_digit(s[n]));
    } else {
        assert(s.take(n) =~= s);
    }
}

/// The number that `digits` writes, unless it is above `max`.
fn digits_value(digits: &[char], max: u64) -> (r: Option<u64>)
    requires
        max <= 0xffff_ffff,
    ensures
        match r {
            Some(n) => all_digits(digits@) && value_of(digits@) == n && n <= max,
            None => !(all_digits(digits@) && value_of(digits@) <= max),
        },
{
    let mut n: u64 = 0;
    for i in 0..digits.len()
        invariant
            all_digits(digits@.take(i as int)),
            n == value_of(digits@.take(i as int)),
            n <= max,
            max <= 0xffff_ffff,
    {
        let c = digits[i];
        if !('0' <= c && c <= '9') {
            assert(!is_digit(digits@[i as int]));
            return None;
        }
        assert(digits@.take(i + 1).drop_last() =~= digits@.take(i as int));
        n = n * 10 + (c as u64 - 48);
        if n > max {
            proof {
                if all_digits(digits@) {
                    lemma_value_grows(digits@, i + 1);
                }
            }
            return None;
        }
    }
    assert(digits@.take(digits@.len() as int) =~= digits@);
    Some(n)
}

/// Reads an unsigned number of at most `max`.
pub fn parse_unsigned(s: &str, max: u64) -> (r: Option<u64>)
    requires
        max <= 0xffff_ffff,
    ensures
        match r {
            Some(n) => parsed_unsigned(s@, max as nat) == Some(n as nat),
            None => parsed_unsigned(s@, max as nat) is None,
        },
{
    let v = chars_of(s);
    if v.len() > 0 && v[0] == '+' {
        assert(v@.subrange(1, v@.len() as int) =~= v@.skip(1));
        let digits = vstd::slice::slice_subrange(v.as_slice(), 1, v.len());
        if digits.len() == 0 {
            return None;
        }
        digits_value(digits, max)
    } else {
        if v.len() == 0 {
            return None;
        }
        digits_value(v.as_slice(), max)
    }
}

/// `parts`, with `part` behind them where `cond` holds.
pub open spec fn plus_if(parts: Seq<Seq<char>>, cond: bool, part: Seq<char>) -> Seq<Seq<char>> {
    if cond {
        parts.push(part)
    } else {
        parts
    }
}

/// Puts `part` behind `parts`.
pub fn push_text(parts: &mut Vec<String>, part: String)
    ensures
        texts(final(parts)@) == texts(old(parts)@).push(part@),
{
    proof {
        lemma_texts_push(parts@, part);
    }
    parts.push(part);
}

/// Moves all of `more` behind `parts`.
pub fn push_texts(parts: &mut Vec<String>, more: Vec<String>)
    ensures
        texts(final(parts)@) == texts(old(parts)@) + texts(more@),
{
    let ghost before = texts(parts@);
    let ghost added = texts(more@);
    let mut more = more;
    parts.append(&mut more);
    assert(texts(parts@) =~= before + added);
}

/// The maximal runs of `s` that hold no white space, in order.
pub open spec fn words_of(s: Seq<char>) -> Seq<Seq<char>>
    decreases s.len(),
    via words_shrink
{
    let t = drop_leading(s, CharClass::White);
    if t.len() == 0 {
        Seq::empty()
    } else {
        let w = until(t, CharClass::White);
        seq![w] + words_of(t.skip(w.len() as int))
    }
}

#[via_fn]
proof fn words_shrink(s: Seq<char>) {
    lemma_drop_leading(s, CharClass::White);
    let t = drop_leading(s, CharClass::White);
    if t.len() > 0 {
        lemma_until_len(t, CharClass::White);
    }
}

/// What is left after dropping the start is a tail that does not start with
/// what was dropped.
pub proof fn lemma_drop_leading(s: Seq<char>, k: CharClass)
    ensures
        drop_leading(s, k).len() <= s.len(),
        drop_leading(s, k) == s.skip(s.len() - drop_leading(s, k).len()),
        drop_leading(s, k).len() > 0 ==> !k.has(drop_leading(s, k)[0]),
    decreases s.len(),
{
    if s.len() > 0 && k.has(s[0]) {
        lemma_drop_leading(s.skip(1), k);
        let t = drop_leading(s, k);
        assert(s.skip(1).skip(s.skip(1).len() - t.len()) =~= s.skip(s.len() - t.len()));
    } else {
        assert(s.skip(0) =~= s);
    }
}

/// What is left after dropping the end is a head that does not end with what
/// was dropped.
pub proof fn lemma_drop_trailing(s: Seq<char>, k: CharClass)
    ensures
        drop_trailing(s, k).len() <= s.len(),
        drop_trailing(s, k) == s.take(drop_trailing(s, k).len() as int),
        drop_trailing(s, k).len() > 0 ==> !k.has(drop_trailing(s, k).last()),
    decreases s.len(),
{
    if s.len() > 0 && k.has(s.last()) {
        lemma_drop_trailing(s.drop_last(), k);
        let t = drop_trailing(s, k);
        assert(s.drop_last().take(t.len() as int) =~= s.take(t.len() as int));
    } else {
        assert(s.take(s.len() as int) =~= s);
    }
}

/// The part before a delimiter is a head of the text, and is not empty where
/// the text does not start with the delimiter.
pub proof fn lemma_until_len(s: Seq<char>, k: CharClass)
    ensures
        until(s, k).len() <= s.len(),
        until(s, k) == s.take(until(s, k).len() as int),
        s.len() > 0 && !k.has(s[0]) ==> until(s, k).len() > 0,
        until(s, k).len() < s.len() ==> k.has(s[until(s, k).len() as int]),
    decreases s.len(),
{
    if s.len() == 0 || k.has(s[0]) {
        assert(until(s, k) =~= s.take(0));
    } else {
        lemma_until_len(s.skip(1), k);
        let u = until(s.skip(1), k);
        assert(seq![s[0]] + s.skip(1).take(u.len() as int) =~= s.take(1int + u.len()));
    }
}

/// The words of `s`.
pub fn split_words(s: &str) -> (r: Vec<String>)
    ensures
        texts(r@) == words_of(s@),
{
    let v = chars_of(s);
    let mut r: Vec<String> = Vec::new();
    let mut rest: &[char] = v.as_slice();
    assert(texts(r@) + words_of(rest@) =~= words_of(s@));
    loop
        invariant
            words_of(s@) == texts(r@) + words_of(rest@),
        ensures
            words_of(s@) == texts(r@),
        decreases rest@.len(),
    {
        let ghost before = rest@;
        proof {
            lemma_drop_leading(before, CharClass::White);
        }
        let t = cut_leading(rest, CharClass::White);
        if t.len() == 0 {
            assert(texts(r@) + words_of(before) =~= texts(r@));
            break;
        }
        let n: usize = len_until(t, CharClass::White);
        proof {
            lemma_until_len(t@, CharClass::White);
        }
        assert(t@.subrange(0, n as int) =~= t@.take(n as int));
        assert(t@.subrange(n as int, t@.len() as int) =~= t@.skip(n as int));
        let word = string_of(vstd::slice::slice_subrange(t, 0, n));
        let ghost done = texts(r@);
        push_text(&mut r, word);
        rest = vstd::slice::slice_subrange(t, n, t.len());
        assert(done + (seq![word@] + words_of(rest@)) =~= texts(r@) + words_of(rest@));
    }
    r
}

/// Documented by `char::from_u32`: every number but those of the surrogates
/// and those past the last character is the number of a character.
pub assume_specification[ char::from_u32 ](i: u32) -> (r: Option<char>)
    ensures
        match r {
            Some(c) => c == i as char && (i < 0xd800 || 0xdfff < i <= 0x10ffff),
            None => 0xd800 <= i <= 0xdfff || i > 0x10ffff,
        },
;

/// The texts of `args` from position `from` on.
pub fn copy_from(args: &[String], from: usize) -> (r: Vec<String>)
    requires
        from <= args@.len(),
    ensures
        texts(r@) == texts(args@).skip(from as int),
{
    let mut r: Vec<String> = Vec::new();
    for i in from..args.len()
        invariant
            from <= i <= args@.len(),
            texts(r@) == texts(args@).subrange(from as int, i as int),
    {
        let s = args[i].clone();
        proof {
            lemma_texts_push(r@, s);
        }
        r.push(s);
        assert(texts(r@) =~= texts(args@).subrange(from as int, i + 1));
    }
    assert(texts(r@) =~= texts(args@).skip(from as int));
    r
}

} // verus!
