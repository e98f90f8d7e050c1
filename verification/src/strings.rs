//! What is shown to a person: the catalogue of translated texts, and the rule
//! on which characters of an untrusted text may reach a screen.

use crate::text::{
    CharClass, char_is_control, chars_of, drop_leading, drop_trailing, is_control, replace_text,
    replaced, same_text,
};
use vstd::prelude::*;
use vstd::string::*;

verus! {

/// A character that must not reach a terminal or a window out of an untrusted
/// text: a control character, a line or paragraph separator, a zero-width
/// character or one that changes the direction of writing.
pub open spec fn is_unsafe_char(c: char) -> bool {
    is_control(c) || c == '\u{61c}' || '\u{200b}' <= c <= '\u{200f}' || '\u{2028}' <= c
        <= '\u{202e}' || '\u{2060}' <= c <= '\u{206f}' || c == '\u{feff}'
}

/// Whether `c` must not reach a screen.
pub fn is_unsafe_display_char(c: char) -> (r: bool)
    ensures
        r == is_unsafe_char(c),
{
    char_is_control(c) || c == '\u{61c}' || ('\u{200b}' <= c && c <= '\u{200f}') || ('\u{2028}'
        <= c && c <= '\u{202e}') || ('\u{2060}' <= c && c <= '\u{206f}') || c == '\u{feff}'
}

/// No character of `s` is unsafe to show.
pub open spec fn is_safe(s: Seq<char>) -> bool {
    forall|i: int| 0 <= i < s.len() ==> !is_unsafe_char(#[trigger] s[i])
}

/// `s` without its unsafe characters; the others keep their order.
pub open spec fn sanitized(s: Seq<char>) -> Seq<char>
    decreases s.len(),
{
    if s.len() == 0 {
        s
    } else if is_unsafe_char(s.last()) {
        sanitized(s.drop_last())
    } else {
        sanitized(s.drop_last()).push(s.last())
    }
}

/// `s` without the characters that must not reach a screen.
pub fn sanitize_display(s: &str) -> (r: String)
    ensures
        r@ == sanitized(s@),
        is_safe(r@),
{
    let v = chars_of(s);
    let mut out = String::new();
    assert(out@ =~= sanitized(s@.take(0)));
    for i in 0..v.len()
        invariant
            v@ == s@,
            out@ == sanitized(s@.take(i as int)),
    {
        assert(s@.take(i + 1).drop_last() =~= s@.take(i as int));
        if !is_unsafe_display_char(v[i]) {
            out.push(v[i]);
        }
    }
    assert(s@.take(s@.len() as int) =~= s@);
    proof {
        law_sanitized_is_safe(s@);
    }
    out
}

/// Law: what is left after sanitising holds no unsafe character.
pub proof fn law_sanitized_is_safe(s: Seq<char>)
    ensures
        is_safe(sanitized(s)),
    decreases s.len(),
{
    if s.len() > 0 {
        law_sanitized_is_safe(s.drop_last());
    }
}

/// Law: a text that is safe already comes through unchanged.
pub proof fn law_safe_text_is_kept(s: Seq<char>)
    requires
        is_safe(s),
    ensures
        sanitized(s) == s,
    decreases s.len(),
{
    if s.len() > 0 {
        assert(!is_unsafe_char(s[s.len() - 1]));
        assert forall|i: int| 0 <= i < s.drop_last().len() implies !is_unsafe_char(
            #[trigger] s.drop_last()[i],
        ) by {
            assert(!is_unsafe_char(s[i]));
        }
        law_safe_text_is_kept(s.drop_last());
        assert(s.drop_last().push(s.last()) =~= s);
    }
}

/// Law: sanitising a second time changes nothing.
pub proof fn law_sanitizing_is_idempotent(s: Seq<char>)
    ensures
        sanitized(sanitized(s)) == sanitized(s),
{
    law_sanitized_is_safe(s);
    law_safe_text_is_kept(sanitized(s));
}

/// Safe text put behind safe text is safe.
pub proof fn lemma_safe_concat(a: Seq<char>, b: Seq<char>)
    requires
        is_safe(a),
        is_safe(b),
    ensures
        is_safe(a + b),
{
    assert forall|i: int| 0 <= i < (a + b).len() implies !is_unsafe_char(#[trigger] (a + b)[i]) by {
        if i < a.len() {
            assert((a + b)[i] == a[i]);
        } else {
            assert((a + b)[i] == b[i - a.len()]);
        }
    }
}

/// A part of a safe text is safe.
pub proof fn lemma_safe_part(s: Seq<char>, i: int, j: int)
    requires
        is_safe(s),
        0 <= i <= j <= s.len(),
    ensures
        is_safe(s.subrange(i, j)),
{
    assert forall|l: int| 0 <= l < j - i implies !is_unsafe_char(
        #[trigger] s.subrange(i, j)[l],
    ) by {
        assert(s.subrange(i, j)[l] == s[i + l]);
    }
}

/// Trimming a safe text leaves it safe.
pub proof fn lemma_safe_trimmed(s: Seq<char>, k: CharClass)
    requires
        is_safe(s),
    ensures
        is_safe(drop_leading(s, k)),
        is_safe(drop_trailing(s, k)),
    decreases s.len(),
{
    if s.len() > 0 {
        lemma_safe_part(s, 1, s.len() as int);
        assert(s.skip(1) =~= s.subrange(1, s.len() as int));
        lemma_safe_trimmed(s.skip(1), k);
        lemma_safe_part(s, 0, s.len() - 1);
        assert(s.drop_last() =~= s.subrange(0, s.len() - 1));
        lemma_safe_trimmed(s.drop_last(), k);
    }
}

/// The translated texts of one language, each under its dotted key.
pub struct Catalog {
    pub entries: Vec<(String, String)>,
}

/// The text under `key` in `entries`: that of the first entry with that key.
pub open spec fn looked_up(entries: Seq<(Seq<char>, Seq<char>)>, key: Seq<char>) -> Option<
    Seq<char>,
>
    decreases entries.len(),
{
    if entries.len() == 0 {
        None
    } else if entries[0].0 == key {
        Some(entries[0].1)
    } else {
        looked_up(entries.skip(1), key)
    }
}

/// A placeholder as it stands in a template: the name in braces.
pub open spec fn placeholder(name: Seq<char>) -> Seq<char> {
    seq!['{'] + name + seq!['}']
}

/// `template` with the placeholder of each argument replaced by its value, one
/// argument after the other.
pub open spec fn filled(template: Seq<char>, args: Seq<(Seq<char>, Seq<char>)>) -> Seq<char>
    decreases args.len(),
{
    if args.len() == 0 {
        template
    } else {
        replaced(
            filled(template, args.drop_last()),
            placeholder(args.last().0),
            args.last().1,
        )
    }
}

/// The names and values of a list of arguments.
pub open spec fn arg_texts(args: Seq<(&str, &str)>) -> Seq<(Seq<char>, Seq<char>)> {
    args.map_values(|a: (&str, &str)| (a.0@, a.1@))
}

impl View for Catalog {
    type V = Seq<(Seq<char>, Seq<char>)>;

    open spec fn view(&self) -> Seq<(Seq<char>, Seq<char>)> {
        self.entries@.map_values(|e: (String, String)| (e.0@, e.1@))
    }
}

/// The text under `key`, or `english` where the catalogue has none.
pub open spec fn text_or(c: Seq<(Seq<char>, Seq<char>)>, key: Seq<char>, english: Seq<char>) -> Seq<
    char,
> {
    match looked_up(c, key) {
        Some(t) => t,
        None => english,
    }
}

/// The text under `key`; a key without a text renders as itself.
pub open spec fn text_of(c: Seq<(Seq<char>, Seq<char>)>, key: Seq<char>) -> Seq<char> {
    text_or(c, key, key)
}

impl Catalog {
    /// The text under `key`; a key without a text renders as itself.
    pub fn get(&self, key: &str) -> (r: String)
        ensures
            r@ == text_of(self@, key@),
    {
        self.get_or(key, key)
    }

    /// The text under `key`, or `english` where there is none.
    pub fn get_or(&self, key: &str, english: &str) -> (r: String)
        ensures
            r@ == text_or(self@, key@, english@),
    {
        assert(self@.skip(0) =~= self@);
        for i in 0..self.entries.len()
            invariant
                self@.len() == self.entries@.len(),
                looked_up(self@, key@) == looked_up(self@.skip(i as int), key@),
        {
            assert(self@.skip(i as int).skip(1) =~= self@.skip(i + 1));
            assert(self@[i as int] == (self.entries@[i as int].0@, self.entries@[i as int].1@));
            if same_text(self.entries[i].0.as_str(), key) {
                return self.entries[i].1.clone();
            }
        }
        english.to_owned()
    }

    /// The text under `key` with its placeholders filled in.
    pub fn fmt(&self, key: &str, args: &[(&str, &str)]) -> (r: String)
        ensures
            r@ == filled(text_of(self@, key@), arg_texts(args@)),
    {
        self.fmt_or(key, key, args)
    }

    /// The text under `key`, or `english` where there is none, with its
    /// placeholders filled in.
    pub fn fmt_or(&self, key: &str, english: &str, args: &[(&str, &str)]) -> (r: String)
        ensures
            r@ == filled(text_or(self@, key@, english@), arg_texts(args@)),
    {
        let template = self.get_or(key, english);
        let mut out = template;
        let ghost all = arg_texts(args@);
        for i in 0..args.len()
            invariant
                all == arg_texts(args@),
                all.len() == args@.len(),
                out@ == filled(text_or(self@, key@, english@), all.take(i as int)),
        {
            let mut name = String::new();
            name.push('{');
            name.append(args[i].0);
            name.push('}');
            assert(name@ =~= placeholder(args@[i as int].0@));
            out = replace_text(out.as_str(), name.as_str(), args[i].1);
            assert(all.take(i + 1).drop_last() =~= all.take(i as int));
            assert(all.take(i + 1).last() == (args@[i as int].0@, args@[i as int].1@));
        }
        assert(all.take(args@.len() as int) =~= all);
        out
    }

    /// The text under `key` with its one placeholder filled in.
    pub fn fmt1(&self, key: &str, name: &str, value: &str) -> (r: String)
        ensures
            r@ == filled(text_of(self@, key@), seq![(name@, value@)]),
    {
        self.fmt1_or(key, key, name, value)
    }

    /// The text under `key`, or `english` where there is none, with its one
    /// placeholder filled in.
    pub fn fmt1_or(&self, key: &str, english: &str, name: &str, value: &str) -> (r: String)
        ensures
            r@ == filled(text_or(self@, key@, english@), seq![(name@, value@)]),
    {
        let mut args: Vec<(&str, &str)> = Vec::new();
        args.push((name, value));
        assert(arg_texts(args@) =~= seq![(name@, value@)]);
        self.fmt_or(key, english, args.as_slice())
    }
}

} // verus!
