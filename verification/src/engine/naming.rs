//! Where output goes and what it is called.

use crate::cli_entry::opt_text;
use crate::engine::rip::disc_label;
use crate::paths::{
    behind_last_dot, extension, file_stem, join, last_part, law_join_keeps_the_name, path_extension,
    path_file_name, path_join, path_stem,
};
use crate::text::{
    CharClass, begins, char_is_control, chars_of, cut, cut_trailing, dec, dec_text, digit,
    drop_leading, drop_trailing, find_from, has_text, is_control, lemma_drop_leading,
    lemma_drop_trailing, lemma_until_len, len_until, lower_text, lowered, matches_at, occurs_at,
    pad_start, pad_start_text, push_dec, same_text, string_of, text_begins, text_has, trimmed,
    until, upper_text, uppered, value_of,
};
use vstd::prelude::*;
use vstd::string::*;

verus! {

/// `source` names a drive.
pub open spec fn is_drive(source: Seq<char>) -> bool {
    begins(source, "disc://"@)
}

/// Whether `source` names a drive.
pub fn is_disc_source(source: &str) -> (r: bool)
    ensures
        r == is_drive(source@),
{
    text_begins(source, "disc://")
}

/// The device of a drive's source; none where the first drive will do.
pub open spec fn device_of(source: Seq<char>) -> Option<Seq<char>> {
    if is_drive(source) && source.len() > "disc://"@.len() {
        Some(source.skip("disc://"@.len() as int))
    } else {
        None
    }
}

/// The device of a drive's source; none where the first drive will do.
pub fn disc_device(source: &str) -> (r: Option<String>)
    ensures
        opt_text(r) == device_of(source@),
{
    let v = chars_of(source);
    let p = chars_of("disc://");
    if matches_at(v.as_slice(), p.as_slice(), 0) && v.len() > p.len() {
        let rest = vstd::slice::slice_subrange(v.as_slice(), p.len(), v.len());
        assert(rest@ =~= source@.skip(p@.len() as int));
        Some(string_of(rest))
    } else {
        None
    }
}

/// The extension of a source in lower case; empty where it has none.
pub open spec fn source_extension(path: Seq<char>) -> Seq<char> {
    match path_extension(path) {
        Some(e) => lowered(e),
        None => Seq::empty(),
    }
}

fn lower_extension(path: &str) -> (r: String)
    ensures
        r@ == source_extension(path@),
{
    match extension(path) {
        Some(e) => lower_text(e.as_str()),
        None => String::new(),
    }
}

/// The source is a container file.
pub open spec fn is_container(path: Seq<char>) -> bool {
    let e = source_extension(path);
    e == "mkv"@ || e == "m2ts"@ || e == "mts"@ || e == "mp4"@
}

/// Whether the source is a container file.
pub fn is_stream_source(path: &str) -> (r: bool)
    ensures
        r == is_container(path@),
{
    let e = lower_extension(path);
    let e = e.as_str();
    same_text(e, "mkv") || same_text(e, "m2ts") || same_text(e, "mts") || same_text(e, "mp4")
}

/// The scheme of a source that is neither a drive nor a container: a folder or
/// an image, whatever its name.
pub fn image_or_dir_scheme(is_dir: bool) -> (r: &'static str)
    ensures
        r@ == (if is_dir {
            "dir"@
        } else {
            "iso"@
        }),
{
    if is_dir {
        "dir"
    } else {
        "iso"
    }
}

/// The scheme of a container, by its extension.
pub open spec fn scheme_of(path: Seq<char>) -> Seq<char> {
    let e = source_extension(path);
    if e == "mkv"@ || e == "mp4"@ || e == "iso"@ {
        e
    } else {
        "m2ts"@
    }
}

/// The scheme of a container, by its extension.
pub fn source_scheme(path: &str) -> (r: &'static str)
    ensures
        r@ == scheme_of(path@),
{
    let e = lower_extension(path);
    let e = e.as_str();
    if same_text(e, "mkv") {
        "mkv"
    } else if same_text(e, "mp4") {
        "mp4"
    } else if same_text(e, "iso") {
        "iso"
    } else {
        "m2ts"
    }
}

/// What an output format makes.
#[derive(Clone, Copy, Debug)]
pub enum OutKind {
    /// One file per title. The text is both the scheme and the extension.
    File(&'static str),
    /// The tracks of each title in files of their own. The text is the scheme.
    Demux(&'static str),
    /// The files of the disc, decrypted.
    DecryptedFolder,
    /// An image of the whole disc.
    IsoImage,
}

/// What an [`OutKind`] says.
pub enum Sink {
    File(Seq<char>),
    Demux(Seq<char>),
    DecryptedFolder,
    IsoImage,
}

impl View for OutKind {
    type V = Sink;

    open spec fn view(&self) -> Sink {
        match *self {
            OutKind::File(s) => Sink::File(s@),
            OutKind::Demux(s) => Sink::Demux(s@),
            OutKind::DecryptedFolder => Sink::DecryptedFolder,
            OutKind::IsoImage => Sink::IsoImage,
        }
    }
}

/// What the format of that name makes, by the mark that is in it.
pub open spec fn sink_of(format: Seq<char>) -> Sink {
    if has_text(format, "decrypted folder"@) {
        Sink::DecryptedFolder
    } else if has_text(format, "ISO image"@) {
        Sink::IsoImage
    } else if has_text(format, "separate track"@) {
        Sink::Demux("demux"@)
    } else if has_text(format, "video tracks"@) {
        Sink::Demux("video"@)
    } else if has_text(format, "audio tracks"@) {
        Sink::Demux("audio"@)
    } else if has_text(format, "subtitle tracks"@) {
        Sink::Demux("sub"@)
    } else if has_text(format, "MP4"@) {
        Sink::File("mp4"@)
    } else if has_text(format, "M2TS"@) {
        Sink::File("m2ts"@)
    } else if has_text(format, "Chapters"@) {
        Sink::File("chapters"@)
    } else if has_text(format, "JSON"@) {
        Sink::File("json"@)
    } else if has_text(format, ".fvi"@) {
        Sink::File("fvi"@)
    } else {
        Sink::File("mkv"@)
    }
}

/// What the format of that name makes.
pub fn out_kind(format: &str) -> (r: OutKind)
    ensures
        r@ == sink_of(format@),
{
    if text_has(format, "decrypted folder") {
        OutKind::DecryptedFolder
    } else if text_has(format, "ISO image") {
        OutKind::IsoImage
    } else if text_has(format, "separate track") {
        OutKind::Demux("demux")
    } else if text_has(format, "video tracks") {
        OutKind::Demux("video")
    } else if text_has(format, "audio tracks") {
        OutKind::Demux("audio")
    } else if text_has(format, "subtitle tracks") {
        OutKind::Demux("sub")
    } else if text_has(format, "MP4") {
        OutKind::File("mp4")
    } else if text_has(format, "M2TS") {
        OutKind::File("m2ts")
    } else if text_has(format, "Chapters") {
        OutKind::File("chapters")
    } else if text_has(format, "JSON") {
        OutKind::File("json")
    } else if text_has(format, ".fvi") {
        OutKind::File("fvi")
    } else {
        OutKind::File("mkv")
    }
}

/// The word for what a sink writes.
pub open spec fn sink_word(s: Sink) -> Seq<char> {
    match s {
        Sink::File(e) => if e == "mp4"@ {
            "MP4"@
        } else if e == "m2ts"@ {
            "M2TS"@
        } else if e == "chapters"@ {
            "chapter"@
        } else if e == "json"@ {
            "JSON"@
        } else if e == "fvi"@ {
            "FVI"@
        } else {
            "MKV"@
        },
        Sink::Demux(e) => if e == "video"@ {
            "video track"@
        } else if e == "audio"@ {
            "audio track"@
        } else if e == "sub"@ {
            "subtitle track"@
        } else {
            "track"@
        },
        Sink::IsoImage => "ISO"@,
        Sink::DecryptedFolder => "UDF"@,
    }
}

/// The word for what a format writes: a function of what it makes, so that the
/// caption and the file cannot disagree.
pub fn container_word(format: &str) -> (r: &'static str)
    ensures
        r@ == sink_word(sink_of(format@)),
{
    match out_kind(format) {
        OutKind::File(e) => {
            if same_text(e, "mp4") {
                "MP4"
            } else if same_text(e, "m2ts") {
                "M2TS"
            } else if same_text(e, "chapters") {
                "chapter"
            } else if same_text(e, "json") {
                "JSON"
            } else if same_text(e, "fvi") {
                "FVI"
            } else {
                "MKV"
            }
        },
        OutKind::Demux(e) => {
            if same_text(e, "video") {
                "video track"
            } else if same_text(e, "audio") {
                "audio track"
            } else if same_text(e, "sub") {
                "subtitle track"
            } else {
                "track"
            }
        },
        OutKind::IsoImage => "ISO",
        OutKind::DecryptedFolder => "UDF",
    }
}

/// A character that may not stand in the name of a file: a separator, the colon
/// of a drive letter, a wildcard or redirection, a quote, or a control
/// character.
pub open spec fn is_path_char(c: char) -> bool {
    c == '/' || c == '\\' || c == ':' || c == '<' || c == '>' || c == '"' || c == '|' || c == '?'
        || c == '*' || is_control(c)
}

/// `c`, or an underscore in place of what may not stand in a name.
pub open spec fn name_char(c: char) -> char {
    if is_path_char(c) {
        '_'
    } else {
        c
    }
}

/// A stem that Windows keeps for a device.
pub open spec fn is_device_name(stem: Seq<char>) -> bool {
    let s = uppered(stem);
    ||| s == "CON"@ || s == "PRN"@ || s == "AUX"@ || s == "NUL"@
    ||| s.len() == 4 && (begins(s, "COM"@) || begins(s, "LPT"@)) && '1' <= s[3] <= '9'
}

/// Whether Windows keeps a stem for a device.
pub fn is_windows_reserved(stem: &str) -> (r: bool)
    ensures
        r == is_device_name(stem@),
{
    let s = upper_text(stem);
    let t = s.as_str();
    if same_text(t, "CON") || same_text(t, "PRN") || same_text(t, "AUX") || same_text(t, "NUL") {
        return true;
    }
    let v = chars_of(t);
    v.len() == 4 && (text_begins(t, "COM") || text_begins(t, "LPT")) && '1' <= v[3] && v[3] <= '9'
}

/// The characters of a label that are left of it as a name.
pub open spec fn label_core(label: Seq<char>) -> Seq<char> {
    drop_trailing(
        trimmed(label.map_values(|c: char| name_char(c)), CharClass::White),
        CharClass::DotOrSpace,
    )
}

/// The label of a disc as the name of a file.
pub open spec fn safe_label(label: Seq<char>) -> Seq<char> {
    if label == "."@ || label == ".."@ {
        "disc"@
    } else {
        let t = label_core(label);
        if t.len() == 0 {
            "disc"@
        } else if is_device_name(until(t, CharClass::Dot)) {
            "_"@ + t
        } else {
            t
        }
    }
}

/// The label of a disc as the name of a file: one part of a path, whatever the
/// disc calls itself. Letters of every script are kept.
pub fn sanitize_label(label: &str) -> (r: String)
    ensures
        r@ == safe_label(label@),
{
    if same_text(label, ".") || same_text(label, "..") {
        return "disc".to_owned();
    }
    let v = chars_of(label);
    let mut mapped: Vec<char> = Vec::new();
    let ghost wanted = label@.map_values(|c: char| name_char(c));
    for i in 0..v.len()
        invariant
            v@ == label@,
            wanted == label@.map_values(|c: char| name_char(c)),
            mapped@ == wanted.take(i as int),
    {
        let c = v[i];
        let bad = c == '/' || c == '\\' || c == ':' || c == '<' || c == '>' || c == '"' || c == '|'
            || c == '?' || c == '*' || char_is_control(c);
        if bad {
            mapped.push('_');
        } else {
            mapped.push(c);
        }
        assert(mapped@ =~= wanted.take(i + 1));
    }
    assert(wanted.take(v@.len() as int) =~= wanted);
    let t = cut_trailing(cut(mapped.as_slice(), CharClass::White), CharClass::DotOrSpace);
    if t.len() == 0 {
        return "disc".to_owned();
    }
    let n: usize = len_until(t, CharClass::Dot);
    let stem = string_of(vstd::slice::slice_subrange(t, 0, n));
    assert(stem@ =~= t@.take(n as int));
    let name = string_of(t);
    if is_windows_reserved(stem.as_str()) {
        let mut s = "_".to_owned();
        s.append(name.as_str());
        s
    } else {
        name
    }
}

/// `c`, or an underscore in place of a separator of paths.
pub open spec fn inner_char(c: char) -> char {
    if c == '/' || c == '\\' {
        '_'
    } else {
        c
    }
}

/// A template as it is filled in: without the white space around it, and with an
/// underscore in place of each separator of paths.
pub open spec fn flat_template(template: Seq<char>) -> Seq<char> {
    trimmed(template, CharClass::White).map_values(|c: char| inner_char(c))
}

/// A template filled in, from left to right. What was filled in is not read
/// again.
pub open spec fn filled_in(t: Seq<char>, title: Seq<char>, number: Seq<char>) -> Seq<char>
    decreases t.len(),
{
    if t.len() == 0 {
        Seq::empty()
    } else if begins(t, "{title}"@) && "{title}"@.len() > 0 {
        title + filled_in(t.skip("{title}"@.len() as int), title, number)
    } else if begins(t, "{n}"@) && "{n}"@.len() > 0 {
        number + filled_in(t.skip("{n}"@.len() as int), title, number)
    } else {
        seq![t[0]] + filled_in(t.skip(1), title, number)
    }
}

/// The name of a title's file, without its extension.
pub open spec fn basename_of(template: Seq<char>, label: Seq<char>, n: nat) -> Seq<char> {
    let t = flat_template(template);
    let l = safe_label(label);
    if t.len() == 0 {
        l + "_t"@ + dec(n)
    } else if has_text(t, "{n}"@) {
        filled_in(t, l, dec(n))
    } else {
        filled_in(t, l, dec(n)) + "_t"@ + dec(n)
    }
}

fn flatten(template: &str) -> (r: Vec<char>)
    ensures
        r@ == flat_template(template@),
{
    let v = chars_of(template);
    let t = cut(v.as_slice(), CharClass::White);
    let mut r: Vec<char> = Vec::new();
    let ghost wanted = flat_template(template@);
    for i in 0..t.len()
        invariant
            t@ == trimmed(template@, CharClass::White),
            wanted == flat_template(template@),
            r@ == wanted.take(i as int),
    {
        let c = t[i];
        if c == '/' || c == '\\' {
            r.push('_');
        } else {
            r.push(c);
        }
        assert(r@ =~= wanted.take(i + 1));
    }
    assert(wanted.take(t@.len() as int) =~= wanted);
    r
}

fn fill_in(t: &Vec<char>, title: &str, number: &str) -> (r: String)
    ensures
        r@ == filled_in(t@, title@, number@),
{
    proof {
        reveal_strlit("{title}");
        reveal_strlit("{n}");
    }
    let title_mark = chars_of("{title}");
    let number_mark = chars_of("{n}");
    let mut out = String::new();
    let mut i: usize = 0;
    assert(t@.skip(0) =~= t@);
    assert(out@ + filled_in(t@, title@, number@) =~= filled_in(t@, title@, number@));
    while i < t.len()
        invariant
            i <= t@.len(),
            title_mark@ == "{title}"@,
            number_mark@ == "{n}"@,
            "{title}"@.len() == 7,
            "{n}"@.len() == 3,
            out@ + filled_in(t@.skip(i as int), title@, number@) == filled_in(
                t@,
                title@,
                number@,
            ),
        decreases t@.len() - i,
    {
        let ghost rest = t@.skip(i as int);
        let ghost before = out@;
        proof {
            lemma_begins_behind(t@, "{title}"@, i as int);
            lemma_begins_behind(t@, "{n}"@, i as int);
        }
        if matches_at(t.as_slice(), title_mark.as_slice(), i) {
            out.append(title);
            assert(rest.skip(7) =~= t@.skip(i + 7));
            assert(before + (title@ + filled_in(rest.skip(7), title@, number@)) =~= out@
                + filled_in(t@.skip(i + 7), title@, number@));
            i = i + 7;
        } else if matches_at(t.as_slice(), number_mark.as_slice(), i) {
            out.append(number);
            assert(rest.skip(3) =~= t@.skip(i + 3));
            assert(before + (number@ + filled_in(rest.skip(3), title@, number@)) =~= out@
                + filled_in(t@.skip(i + 3), title@, number@));
            i = i + 3;
        } else {
            out.push(t[i]);
            assert(rest.skip(1) =~= t@.skip(i + 1));
            assert(rest[0] == t@[i as int]);
            assert(before + (seq![rest[0]] + filled_in(rest.skip(1), title@, number@)) =~= out@
                + filled_in(t@.skip(i + 1), title@, number@));
            i = i + 1;
        }
    }
    assert(t@.skip(i as int) =~= Seq::empty());
    assert(out@ + Seq::<char>::empty() =~= out@);
    out
}

/// What a text begins with behind a position stands at that position.
proof fn lemma_begins_behind(s: Seq<char>, p: Seq<char>, i: int)
    requires
        0 <= i <= s.len(),
    ensures
        begins(s.skip(i), p) == occurs_at(s, p, i),
{
    if i + p.len() <= s.len() {
        assert(s.skip(i).subrange(0, p.len() as int) =~= s.subrange(i, i + p.len()));
    }
}

/// The name of a title's file, without its extension. `{title}` in the template
/// stands for the label, `{n}` for the number of the title; a template without
/// the number gets it behind, so that no two titles share a name. A separator of
/// paths in the template becomes an underscore, so that the file stays in its
/// folder.
pub fn title_basename(template: &str, label: &str, n: usize) -> (r: String)
    ensures
        r@ == basename_of(template@, label@, n as nat),
{
    let label = sanitize_label(label);
    let t = flatten(template);
    if t.len() == 0 {
        let mut s = label;
        s.append("_t");
        push_dec(&mut s, n as u64);
        return s;
    }
    let name = fill_in(&t, label.as_str(), dec_text(n as u64).as_str());
    let number_mark = chars_of("{n}");
    if find_from(t.as_slice(), number_mark.as_slice(), 0).is_some() {
        name
    } else {
        let mut s = name;
        s.append("_t");
        push_dec(&mut s, n as u64);
        s
    }
}

/// Where the decrypted files of a disc go: a directory of its own under the
/// destination.
pub open spec fn folder_of(dest_dir: Seq<char>, label: Seq<char>) -> Seq<char> {
    path_join(dest_dir, safe_label(label))
}

/// Where the decrypted files of a disc go.
pub fn extract_target(dest_dir: &str, label: &str) -> (r: String)
    ensures
        r@ == folder_of(dest_dir@, label@),
{
    join(dest_dir, sanitize_label(label).as_str())
}

/// Where the image of a disc goes.
pub open spec fn image_of(dest_dir: Seq<char>, label: Seq<char>) -> Seq<char> {
    path_join(dest_dir, safe_label(label) + ".iso"@)
}

/// Where the image of a disc goes.
pub fn image_target(dest_dir: &str, label: &str) -> (r: String)
    ensures
        r@ == image_of(dest_dir@, label@),
{
    let mut name = sanitize_label(label);
    name.append(".iso");
    join(dest_dir, name.as_str())
}

/// The file of a title.
pub open spec fn title_file(dest_dir: Seq<char>, base: Seq<char>, scheme: Seq<char>) -> Seq<char> {
    dest_dir + "/"@ + base + "."@ + scheme
}

/// The file of a title.
pub fn title_file_path(dest_dir: &str, base: &str, scheme: &str) -> (r: String)
    ensures
        r@ == title_file(dest_dir@, base@, scheme@),
{
    let mut s = dest_dir.to_owned();
    s.append("/");
    s.append(base);
    s.append(".");
    s.append(scheme);
    s
}

/// The label and the title number that an output is named after.
pub open spec fn named_after(source: Seq<char>, first_title: Option<usize>, volume_id: Seq<char>) -> (
    Seq<char>,
    nat,
) {
    let n = match first_title {
        Some(t) => (t + 1) as nat,
        None => 1,
    };
    if is_container(source) {
        (
            match path_stem(source) {
                Some(s) => s,
                None => "output"@,
            },
            1,
        )
    } else if volume_id.len() == 0 {
        ("disc"@, n)
    } else {
        (volume_id, n)
    }
}

/// What a rip will write.
pub open spec fn planned_output(
    source: Seq<char>,
    dest_dir: Seq<char>,
    format: Seq<char>,
    first_title: Option<usize>,
    template: Seq<char>,
    volume_id: Seq<char>,
) -> Seq<char> {
    let (label, n) = named_after(source, first_title, volume_id);
    match sink_of(format) {
        Sink::File(scheme) => title_file(dest_dir, basename_of(template, label, n), scheme),
        Sink::Demux(_) => dest_dir + "/ (per-track files)"@,
        Sink::IsoImage => dest_dir + "/"@ + safe_label(label) + ".iso"@,
        Sink::DecryptedFolder => folder_of(dest_dir, label),
    }
}

/// What a rip will write, decided as the rip decides it: a container is named
/// after its file, a disc after its label.
pub fn planned_output_name(
    source: &str,
    dest_dir: &str,
    format: &str,
    first_title: Option<usize>,
    template: &str,
    volume_id: &str,
) -> (r: String)
    requires
        first_title matches Some(t) ==> t < usize::MAX,
    ensures
        r@ == planned_output(source@, dest_dir@, format@, first_title, template@, volume_id@),
{
    let number: usize = match first_title {
        Some(t) => t + 1,
        None => 1,
    };
    let (label, n) = if is_stream_source(source) {
        (
            match file_stem(source) {
                Some(s) => s,
                None => "output".to_owned(),
            },
            1usize,
        )
    } else if volume_id.is_empty() {
        ("disc".to_owned(), number)
    } else {
        (volume_id.to_owned(), number)
    };
    match out_kind(format) {
        OutKind::File(scheme) => {
            let base = title_basename(template, label.as_str(), n);
            title_file_path(dest_dir, base.as_str(), scheme)
        },
        OutKind::Demux(_) => {
            let mut s = dest_dir.to_owned();
            s.append("/ (per-track files)");
            s
        },
        OutKind::IsoImage => {
            let mut s = dest_dir.to_owned();
            s.append("/");
            s.append(sanitize_label(label.as_str()).as_str());
            s.append(".iso");
            s
        },
        OutKind::DecryptedFolder => extract_target(dest_dir, label.as_str()),
    }
}

/// Whether each title needs a directory of its own for its tracks: tracks are
/// named by track, so those of two titles would overwrite each other.
pub fn demux_needs_subdirs(title_count: usize) -> (r: bool)
    ensures
        r == (title_count > 1),
{
    title_count > 1
}

/// Where one title goes: the URL to write to and what is shown of it.
pub open spec fn title_place(
    kind: Sink,
    dest_dir: Seq<char>,
    template: Seq<char>,
    label: Seq<char>,
    idx: nat,
    multi: bool,
) -> (Seq<char>, Seq<char>) {
    match kind {
        Sink::File(scheme) => {
            let out = title_file(dest_dir, basename_of(template, label, idx + 1), scheme);
            (scheme + "://"@ + out, out)
        },
        Sink::Demux(scheme) => {
            let dir = if multi {
                dest_dir + "/t"@ + pad_start(dec(idx + 1), 2, '0') + "/"@
            } else {
                dest_dir + "/"@
            };
            (scheme + "://"@ + dir, dir)
        },
        _ => (Seq::empty(), Seq::empty()),
    }
}

/// Where the title with that index goes: the URL to write to, and the file or
/// directory. A whole-disc format has no titles.
pub fn title_destination(
    kind: OutKind,
    dest_dir: &str,
    template: &str,
    label: &str,
    idx: usize,
    multi: bool,
) -> (r: (String, String))
    requires
        idx < usize::MAX,
        kind@ is File || kind@ is Demux,
    ensures
        (r.0@, r.1@) == title_place(kind@, dest_dir@, template@, label@, idx as nat, multi),
{
    match kind {
        OutKind::File(scheme) => {
            let base = title_basename(template, label, idx + 1);
            let out = title_file_path(dest_dir, base.as_str(), scheme);
            let mut url = scheme.to_owned();
            url.append("://");
            url.append(out.as_str());
            (url, out)
        },
        OutKind::Demux(scheme) => {
            let mut dir = dest_dir.to_owned();
            if multi {
                dir.append("/t");
                dir.append(pad_start_text(dec_text(idx as u64 + 1).as_str(), 2, '0').as_str());
                dir.append("/");
            } else {
                dir.append("/");
            }
            let mut url = scheme.to_owned();
            url.append("://");
            url.append(dir.as_str());
            (url, dir)
        },
        _ => (String::new(), String::new()),
    }
}

/// A text that can be the name of a file in whatever directory it is joined to:
/// not empty, without separators and control characters, not ending in a dot or
/// a space, and not a device of Windows.
pub open spec fn is_file_name(s: Seq<char>) -> bool {
    &&& s.len() > 0
    &&& forall|i: int| 0 <= i < s.len() ==> !is_path_char(#[trigger] s[i])
    &&& s.last() != '.' && s.last() != ' '
    &&& !is_device_name(until(s, CharClass::Dot))
}

/// Law: whatever a disc calls itself, its label as a name is the name of a
/// file: it leads nowhere but into the directory it is joined to.
pub proof fn law_label_is_a_file_name(label: Seq<char>)
    ensures
        is_file_name(safe_label(label)),
        safe_label(label) != seq!['.'],
        safe_label(label) != seq!['.', '.'],
{
    reveal_strlit("disc");
    reveal_strlit("_");
    reveal_strlit("CON");
    reveal_strlit("PRN");
    reveal_strlit("AUX");
    reveal_strlit("NUL");
    reveal_strlit("COM");
    reveal_strlit("LPT");
    let s = safe_label(label);
    let m = label.map_values(|c: char| name_char(c));
    assert forall|i: int| 0 <= i < m.len() implies !is_path_char(#[trigger] m[i]) by {
        assert(m[i] == name_char(label[i]));
    }
    let lead = drop_leading(m, CharClass::White);
    lemma_drop_leading(m, CharClass::White);
    assert forall|i: int| 0 <= i < lead.len() implies !is_path_char(#[trigger] lead[i]) by {
        assert(lead[i] == m[m.len() - lead.len() + i]);
    }
    let mid = drop_trailing(lead, CharClass::White);
    lemma_drop_trailing(lead, CharClass::White);
    assert forall|i: int| 0 <= i < mid.len() implies !is_path_char(#[trigger] mid[i]) by {
        assert(mid[i] == lead[i]);
    }
    let t = label_core(label);
    lemma_drop_trailing(mid, CharClass::DotOrSpace);
    assert forall|i: int| 0 <= i < t.len() implies !is_path_char(#[trigger] t[i]) by {
        assert(t[i] == mid[i]);
    }
    if s == "disc"@ {
        let u = until(s, CharClass::Dot);
        lemma_until_len(s, CharClass::Dot);
        assert(u == s.take(u.len() as int));
        assert(u.len() < 4 ==> CharClass::Dot.has(s[u.len() as int]));
        assert(u =~= s);
        assert(uppered(u)[0] == 'D');
    } else if s != t {
        assert(s == "_"@ + t);
        let u = until(s, CharClass::Dot);
        lemma_until_len(s, CharClass::Dot);
        assert(s[0] == '_');
        assert(u.len() > 0);
        assert(u[0] == '_');
        assert(uppered(u)[0] == '_');
        if begins(uppered(u), "COM"@) {
            assert(uppered(u).subrange(0, 3)[0] == 'C');
        }
        if begins(uppered(u), "LPT"@) {
            assert(uppered(u).subrange(0, 3)[0] == 'L');
        }
        assert(s.last() == t.last());
        assert forall|i: int| 0 <= i < s.len() implies !is_path_char(#[trigger] s[i]) by {
            if i > 0 {
                assert(s[i] == t[i - 1]);
            }
        }
    }
}

/// A text without a slash is its own last part.
proof fn lemma_last_part_of_name(name: Seq<char>)
    requires
        forall|i: int| 0 <= i < name.len() ==> #[trigger] name[i] != '/',
    ensures
        last_part(name) == name,
    decreases name.len(),
{
    if name.len() > 0 {
        assert(name[name.len() - 1] != '/');
        assert forall|i: int| 0 <= i < name.drop_last().len() implies #[trigger] name.drop_last()[i]
            != '/' by {
            assert(name[i] != '/');
        }
        lemma_last_part_of_name(name.drop_last());
        assert(name.drop_last().push(name.last()) =~= name);
    }
}

/// Law: the image of a disc is ripped as an image, whatever the disc calls
/// itself: it is taken neither for a drive nor for a container.
pub proof fn law_image_is_an_image(dest_dir: Seq<char>, label: Seq<char>)
    requires
        !is_drive(dest_dir),
    ensures
        !is_drive(image_of(dest_dir, label)),
        !is_container(image_of(dest_dir, label)),
{
    reveal_strlit(".iso");
    reveal_strlit("disc://");
    reveal_strlit("mkv");
    reveal_strlit("m2ts");
    reveal_strlit("mts");
    reveal_strlit("mp4");
    law_label_is_a_file_name(label);
    let l = safe_label(label);
    let name = l + ".iso"@;
    let p = image_of(dest_dir, label);
    assert forall|i: int| 0 <= i < name.len() implies #[trigger] name[i] != '/' by {
        if i < l.len() {
            assert(name[i] == l[i]);
            assert(!is_path_char(l[i]));
        }
    }
    let head = if dest_dir.len() == 0 || dest_dir.last() == '/' {
        dest_dir
    } else {
        dest_dir.push('/')
    };
    assert(name[0] != '/');
    assert(p =~= head + name);
    if is_drive(p) {
        assert(p.subrange(0, 7) == "disc://"@);
        assert(p[5] == p.subrange(0, 7)[5] && p[6] == p.subrange(0, 7)[6]);
        if dest_dir.len() >= 7 {
            assert(dest_dir.subrange(0, 7) =~= p.subrange(0, 7));
        } else if head.len() <= 6 {
            assert(p[6] == name[6 - head.len()]);
        } else {
            assert(p[5] == dest_dir.last());
        }
    }
    assert(p.last() == 'o');
    law_join_keeps_the_name(dest_dir, name);
    lemma_last_part_of_name(name);
    assert(last_part(p) == name);
    assert(name[l.len() as int] == '.');
    assert(path_file_name(p) == Some(name));
    let n3 = name.drop_last();
    let n2 = n3.drop_last();
    let n1 = n2.drop_last();
    assert(n1.last() == '.' && n2.last() == 'i' && n3.last() == 's');
    assert(behind_last_dot(n1) =~= Seq::empty());
    assert(behind_last_dot(n2) =~= seq!['i']);
    assert(behind_last_dot(n3) =~= seq!['i', 's']);
    assert(behind_last_dot(name) =~= seq!['i', 's', 'o']);
    assert(source_extension(p)[0] == 'i');
}

/// What decimal digits write, they write back.
proof fn lemma_dec_value(n: nat)
    ensures
        value_of(dec(n)) == n,
        dec(n).len() > 0,
    decreases n,
{
    assert(digit(n % 10) as nat == 48 + n % 10);
    if n < 10 {
        assert(dec(n).drop_last() =~= Seq::empty());
        assert(value_of(dec(n).drop_last()) == 0);
        assert(dec(n).last() == digit(n % 10));
    } else {
        lemma_dec_value(n / 10);
        assert(dec(n).drop_last() =~= dec(n / 10));
        assert(dec(n).last() == digit(n % 10));
    }
}

/// Two different numbers are written differently.
proof fn lemma_dec_injective(m: nat, n: nat)
    requires
        dec(m) == dec(n),
    ensures
        m == n,
{
    lemma_dec_value(m);
    lemma_dec_value(n);
}

/// Where a placeholder of the number stands behind what a template begins with,
/// it still stands in the rest.
proof fn lemma_number_in_rest(t: Seq<char>, k: int)
    requires
        has_text(t, "{n}"@),
        0 < k <= t.len(),
        k == 1 && !begins(t, "{n}"@) || k == 7 && begins(t, "{title}"@),
    ensures
        has_text(t.skip(k), "{n}"@),
{
    reveal_strlit("{title}");
    reveal_strlit("{n}");
    let i = choose|i: int| occurs_at(t, "{n}"@, i);
    assert(t[i] == t.subrange(i, i + 3)[0]);
    assert(t[i + 1] == t.subrange(i, i + 3)[1]);
    if k == 7 && i < 7 {
        let head = t.subrange(0, 7);
        assert(head == "{title}"@);
        assert(t[i] == head[i]);
        assert(t[1] == head[1]);
    }
    assert(i >= k);
    assert(t.skip(k).subrange(i - k, i - k + 3) =~= t.subrange(i, i + 3));
    assert(occurs_at(t.skip(k), "{n}"@, i - k));
}

/// Filling in a longer number gives a longer text, where the template has a
/// place for it.
proof fn lemma_filled_len(t: Seq<char>, title: Seq<char>, a: Seq<char>, b: Seq<char>)
    requires
        a.len() <= b.len(),
    ensures
        filled_in(t, title, a).len() <= filled_in(t, title, b).len(),
        has_text(t, "{n}"@) && a.len() < b.len() ==> filled_in(t, title, a).len() < filled_in(
            t,
            title,
            b,
        ).len(),
    decreases t.len(),
{
    reveal_strlit("{title}");
    reveal_strlit("{n}");
    if t.len() > 0 {
        if begins(t, "{title}"@) {
            lemma_filled_len(t.skip(7), title, a, b);
            if has_text(t, "{n}"@) {
                lemma_number_in_rest(t, 7);
            }
        } else if begins(t, "{n}"@) {
            lemma_filled_len(t.skip(3), title, a, b);
        } else {
            lemma_filled_len(t.skip(1), title, a, b);
            if has_text(t, "{n}"@) {
                lemma_number_in_rest(t, 1);
            }
        }
    }
}

/// Two numbers that are filled in and give the same are the same.
proof fn lemma_filled_injective(t: Seq<char>, title: Seq<char>, a: Seq<char>, b: Seq<char>)
    requires
        has_text(t, "{n}"@),
        filled_in(t, title, a) == filled_in(t, title, b),
        a.len() == b.len(),
    ensures
        a == b,
    decreases t.len(),
{
    reveal_strlit("{title}");
    reveal_strlit("{n}");
    let i = choose|i: int| occurs_at(t, "{n}"@, i);
    assert(t.len() >= 3);
    if begins(t, "{title}"@) {
        let x = filled_in(t.skip(7), title, a);
        let y = filled_in(t.skip(7), title, b);
        assert((title + x).skip(title.len() as int) =~= x);
        assert((title + y).skip(title.len() as int) =~= y);
        lemma_number_in_rest(t, 7);
        lemma_filled_injective(t.skip(7), title, a, b);
    } else if begins(t, "{n}"@) {
        let x = filled_in(t.skip(3), title, a);
        let y = filled_in(t.skip(3), title, b);
        assert((a + x).take(a.len() as int) =~= a);
        assert((b + y).take(b.len() as int) =~= b);
    } else {
        let x = filled_in(t.skip(1), title, a);
        let y = filled_in(t.skip(1), title, b);
        assert((seq![t[0]] + x).skip(1) =~= x);
        assert((seq![t[0]] + y).skip(1) =~= y);
        lemma_number_in_rest(t, 1);
        lemma_filled_injective(t.skip(1), title, a, b);
    }
}

/// A template without a place for the number is filled in alike for every number.
proof fn lemma_filled_without_number(t: Seq<char>, title: Seq<char>, a: Seq<char>, b: Seq<char>)
    requires
        !has_text(t, "{n}"@),
    ensures
        filled_in(t, title, a) == filled_in(t, title, b),
    decreases t.len(),
{
    reveal_strlit("{title}");
    reveal_strlit("{n}");
    if t.len() > 0 {
        let k: int = if begins(t, "{title}"@) {
            7
        } else {
            1
        };
        assert(!begins(t, "{n}"@));
        if has_text(t.skip(k), "{n}"@) {
            let i = choose|i: int| occurs_at(t.skip(k), "{n}"@, i);
            assert(t.subrange(i + k, i + k + 3) =~= t.skip(k).subrange(i, i + 3));
            assert(occurs_at(t, "{n}"@, i + k));
        }
        lemma_filled_without_number(t.skip(k), title, a, b);
    }
}

/// Law: no two titles of a disc get the same name, whatever the template and
/// whatever the disc calls itself.
pub proof fn law_titles_never_share_a_name(
    template: Seq<char>,
    label: Seq<char>,
    m: nat,
    n: nat,
)
    requires
        m != n,
    ensures
        basename_of(template, label, m) != basename_of(template, label, n),
{
    if basename_of(template, label, m) == basename_of(template, label, n) {
        let t = flat_template(template);
        let l = safe_label(label);
        if t.len() == 0 {
            let head = l + "_t"@;
            assert((head + dec(m)).skip(head.len() as int) =~= dec(m));
            assert((head + dec(n)).skip(head.len() as int) =~= dec(n));
        } else if has_text(t, "{n}"@) {
            if dec(m).len() <= dec(n).len() {
                lemma_filled_len(t, l, dec(m), dec(n));
            }
            if dec(n).len() <= dec(m).len() {
                lemma_filled_len(t, l, dec(n), dec(m));
            }
            lemma_filled_injective(t, l, dec(m), dec(n));
        } else {
            lemma_filled_without_number(t, l, dec(m), dec(n));
            let head = filled_in(t, l, dec(m)) + "_t"@;
            assert((head + dec(m)).skip(head.len() as int) =~= dec(m));
            assert((head + dec(n)).skip(head.len() as int) =~= dec(n));
        }
        lemma_dec_injective(m, n);
    }
}

/// No character of the text separates the parts of a path.
pub open spec fn is_flat(s: Seq<char>) -> bool {
    forall|i: int| 0 <= i < s.len() ==> #[trigger] s[i] != '/' && s[i] != '\\'
}

proof fn lemma_flat_concat(a: Seq<char>, b: Seq<char>)
    requires
        is_flat(a),
        is_flat(b),
    ensures
        is_flat(a + b),
{
    assert forall|i: int| 0 <= i < (a + b).len() implies #[trigger] (a + b)[i] != '/' && (a + b)[i]
        != '\\' by {
        if i < a.len() {
            assert((a + b)[i] == a[i]);
        } else {
            assert((a + b)[i] == b[i - a.len()]);
        }
    }
}

proof fn lemma_flat_skip(a: Seq<char>, k: int)
    requires
        is_flat(a),
        0 <= k <= a.len(),
    ensures
        is_flat(a.skip(k)),
{
    assert forall|i: int| 0 <= i < a.skip(k).len() implies #[trigger] a.skip(k)[i] != '/' && a.skip(
        k,
    )[i] != '\\' by {
        assert(a.skip(k)[i] == a[k + i]);
    }
}

pub proof fn lemma_dec_flat(n: nat)
    ensures
        is_flat(dec(n)),
    decreases n,
{
    if n >= 10 {
        lemma_dec_flat(n / 10);
        lemma_flat_concat(dec(n / 10), seq![digit(n % 10)]);
        assert(dec(n) =~= dec(n / 10) + seq![digit(n % 10)]);
    }
}

proof fn lemma_filled_flat(t: Seq<char>, title: Seq<char>, number: Seq<char>)
    requires
        is_flat(t),
        is_flat(title),
        is_flat(number),
    ensures
        is_flat(filled_in(t, title, number)),
    decreases t.len(),
{
    reveal_strlit("{title}");
    reveal_strlit("{n}");
    if t.len() > 0 {
        if begins(t, "{title}"@) {
            lemma_flat_skip(t, 7);
            lemma_filled_flat(t.skip(7), title, number);
            lemma_flat_concat(title, filled_in(t.skip(7), title, number));
        } else if begins(t, "{n}"@) {
            lemma_flat_skip(t, 3);
            lemma_filled_flat(t.skip(3), title, number);
            lemma_flat_concat(number, filled_in(t.skip(3), title, number));
        } else {
            lemma_flat_skip(t, 1);
            lemma_filled_flat(t.skip(1), title, number);
            assert(t[0] != '/' && t[0] != '\\');
            lemma_flat_concat(seq![t[0]], filled_in(t.skip(1), title, number));
        }
    }
}

/// Law: whatever a user types into the template and whatever a disc calls
/// itself, the name of a title is one part of a path: its file stays in the
/// folder it is put into.
pub proof fn law_title_name_stays_in_its_folder(template: Seq<char>, label: Seq<char>, n: nat)
    ensures
        is_flat(basename_of(template, label, n)),
{
    reveal_strlit("_t");
    let t = flat_template(template);
    let l = safe_label(label);
    law_label_is_a_file_name(label);
    assert forall|i: int| 0 <= i < l.len() implies #[trigger] l[i] != '/' && l[i] != '\\' by {
        assert(!is_path_char(l[i]));
    }
    assert(is_flat(t));
    lemma_dec_flat(n);
    lemma_filled_flat(t, l, dec(n));
    assert(is_flat("_t"@));
    lemma_flat_concat(l, "_t"@);
    lemma_flat_concat(l + "_t"@, dec(n));
    lemma_flat_concat(filled_in(t, l, dec(n)), "_t"@);
    lemma_flat_concat(filled_in(t, l, dec(n)) + "_t"@, dec(n));
}

/// Law: a label is filled in as it is: where the template is `{title}` alone,
/// nothing in the label is taken for a placeholder, and the number stands behind
/// it.
pub proof fn law_label_is_not_read_again(label: Seq<char>, n: nat)
    ensures
        basename_of("{title}"@, label, n) == safe_label(label) + "_t"@ + dec(n),
{
    reveal_strlit("{title}");
    reveal_strlit("{n}");
    let t = "{title}"@;
    lemma_trimmed_title();
    assert(flat_template(t) =~= t);
    if has_text(t, "{n}"@) {
        let i = choose|i: int| occurs_at(t, "{n}"@, i);
        assert(t[i] == t.subrange(i, i + 3)[0]);
        assert(t[i + 1] == t.subrange(i, i + 3)[1]);
    }
    assert(t.subrange(0, 7) =~= t);
    assert(begins(t, t));
    assert(t.skip(7) =~= Seq::empty());
    let l = safe_label(label);
    assert(filled_in(t.skip(7), l, dec(n)) =~= Seq::empty());
    assert(filled_in(t, l, dec(n)) =~= l);
}

proof fn lemma_trimmed_title()
    ensures
        trimmed("{title}"@, CharClass::White) == "{title}"@,
{
    reveal_strlit("{title}");
    assert(!CharClass::White.has('{') && !CharClass::White.has('}'));
    reveal_with_fuel(drop_leading, 2);
    reveal_with_fuel(drop_trailing, 2);
}

/// Digits with noughts before them have the value of the digits.
proof fn lemma_padded_value(s: Seq<char>, w: nat)
    ensures
        value_of(pad_start(s, w, '0')) == value_of(s),
    decreases s.len() + w,
{
    let p = pad_start(s, w, '0');
    if s.len() > 0 {
        if s.len() >= w {
            assert(p =~= s);
        } else {
            assert(p.drop_last() =~= pad_start(s.drop_last(), (w - 1) as nat, '0'));
            lemma_padded_value(s.drop_last(), (w - 1) as nat);
        }
    } else if w > 0 {
        assert(p.drop_last() =~= pad_start(s, (w - 1) as nat, '0'));
        lemma_padded_value(s, (w - 1) as nat);
    } else {
        assert(p =~= s);
    }
}

/// Law: no two titles of one rip go to the same file, and where each is a
/// directory of tracks, none to the directory of another.
pub proof fn law_titles_never_share_a_place(
    kind: Sink,
    dest_dir: Seq<char>,
    template: Seq<char>,
    label: Seq<char>,
    m: nat,
    n: nat,
)
    requires
        kind is File || kind is Demux,
        m != n,
    ensures
        title_place(kind, dest_dir, template, label, m, true).1 != title_place(
            kind,
            dest_dir,
            template,
            label,
            n,
            true,
        ).1,
{
    let a = title_place(kind, dest_dir, template, label, m, true).1;
    let b = title_place(kind, dest_dir, template, label, n, true).1;
    if a == b {
        match kind {
            Sink::File(scheme) => {
                reveal_strlit("/");
                law_titles_never_share_a_name(template, label, m + 1, n + 1);
                let x = basename_of(template, label, m + 1);
                let y = basename_of(template, label, n + 1);
                assert(x.len() == y.len());
                let from = dest_dir.len() + 1;
                assert(a.subrange(from as int, (from + x.len()) as int) =~= x);
                assert(b.subrange(from as int, (from + y.len()) as int) =~= y);
            },
            _ => {
                reveal_strlit("/t");
                let x = pad_start(dec(m + 1), 2, '0');
                let y = pad_start(dec(n + 1), 2, '0');
                assert(x.len() == y.len());
                let from = dest_dir.len() + 2;
                assert(a.subrange(from as int, (from + x.len()) as int) =~= x);
                assert(b.subrange(from as int, (from + y.len()) as int) =~= y);
                lemma_padded_value(dec(m + 1), 2);
                lemma_padded_value(dec(n + 1), 2);
                lemma_dec_value(m + 1);
                lemma_dec_value(n + 1);
            },
        }
    }
}

/// Law: what is shown as the output of a rip is where it goes: its first title,
/// or the files of the whole disc.
pub proof fn law_shown_output_is_the_written_one(
    source: Seq<char>,
    dest_dir: Seq<char>,
    format: Seq<char>,
    first: usize,
    template: Seq<char>,
    volume_id: Seq<char>,
    multi: bool,
)
    requires
        first < usize::MAX,
        !is_container(source),
    ensures
        sink_of(format) is File ==> planned_output(
            source,
            dest_dir,
            format,
            Some(first),
            template,
            volume_id,
        ) == title_place(
            sink_of(format),
            dest_dir,
            template,
            disc_label(volume_id),
            first as nat,
            multi,
        ).1,
        sink_of(format) is DecryptedFolder ==> planned_output(
            source,
            dest_dir,
            format,
            Some(first),
            template,
            volume_id,
        ) == folder_of(dest_dir, disc_label(volume_id)),
{
}

} // verus!
