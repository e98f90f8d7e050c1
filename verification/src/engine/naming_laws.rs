//! What holds of every name and place that output is given.

use crate::engine::naming::{
    Sink, basename_of, device_of, filled_in, flat_template, folder_of, image_of, is_container,
    is_device_name, is_drive, is_file_name, is_flat, is_path_char, label_core,
    law_label_is_a_file_name, law_title_name_stays_in_its_folder, name_char, planned_output,
    safe_label, scheme_of, sink_of, sink_word, source_extension, title_place,
};
use crate::paths::{law_name_reads_back, path_file_name, path_stem};
use crate::reading::{
    all_of, between, ends_with, lacks, law_number_reads_back, law_padded_number_reads_back,
    law_trimming_takes_only_the_ends, lemma_between, lemma_leading_all, lemma_trailing_all,
    starts_with,
};
use crate::text::{
    CharClass, all_digits, begins, dec, drop_leading, drop_trailing, has_text, lemma_drop_leading,
    lemma_drop_trailing, lowered, occurs_at, pad_start, until, uppered, value_of,
};
use vstd::prelude::*;
use vstd::string::*;

verus! {

/// Law: a title is written to the place that is shown of it, by the scheme of
/// its kind: the URL is the scheme, `://` and the place. A file of it lies in
/// the destination and ends in the scheme; between the two stands one name. The
/// directory of its tracks is the destination, or one in it that is named after
/// the number of the title.
#[verifier::rlimit(60)]
pub proof fn law_title_url_names_its_place(
    kind: Sink,
    dest_dir: Seq<char>,
    template: Seq<char>,
    label: Seq<char>,
    idx: nat,
    multi: bool,
)
    requires
        kind is File || kind is Demux,
    ensures
        ({
            let (url, place) = title_place(kind, dest_dir, template, label, idx, multi);
            let scheme = match kind {
                Sink::File(s) => s,
                Sink::Demux(s) => s,
                _ => Seq::empty(),
            };
            &&& url == scheme + "://"@ + place
            &&& kind is File ==> (between(place, dest_dir + "/"@, "."@ + scheme) matches Some(name)
                && name == basename_of(template, label, idx + 1) && is_flat(name))
            &&& kind is Demux && !multi ==> place == dest_dir + "/"@
            &&& kind is Demux && multi ==> (between(place, dest_dir + "/t"@, "/"@) matches Some(
                number,
            ) && all_digits(number) && number.len() >= 2 && value_of(number) == idx + 1)
        }),
{
    let (url, place) = title_place(kind, dest_dir, template, label, idx, multi);
    match kind {
        Sink::File(s) => {
            let name = basename_of(template, label, idx + 1);
            law_title_name_stays_in_its_folder(template, label, idx + 1);
            lemma_between(dest_dir + "/"@, name, "."@ + s);
            assert(place =~= dest_dir + "/"@ + name + ("."@ + s));
        },
        Sink::Demux(s) => {
            if multi {
                let number = pad_start(dec(idx + 1), 2, '0');
                law_padded_number_reads_back(idx + 1, 2);
                lemma_between(dest_dir + "/t"@, number, "/"@);
                assert(place =~= dest_dir + "/t"@ + number + "/"@);
            }
        },
        _ => {},
    }
}

/// A text that is filled in as it is: without placeholders and separators of
/// paths.
pub open spec fn is_plain(s: Seq<char>) -> bool {
    lacks(s, '{') && is_flat(s)
}

proof fn lemma_plain_skip(s: Seq<char>)
    requires
        is_plain(s),
        s.len() > 0,
    ensures
        is_plain(s.skip(1)),
        s[0] != '{',
{
    let t = s.skip(1);
    assert forall|i: int| 0 <= i < t.len() implies #[trigger] t[i] != '{' && t[i] != '/' && t[i]
        != '\\' by {
        assert(t[i] == s[i + 1]);
    }
}

/// A plain text before a placeholder stays.
proof fn lemma_filled_behind_plain(pre: Seq<char>, t: Seq<char>, title: Seq<char>, number: Seq<char>)
    requires
        is_plain(pre),
    ensures
        filled_in(pre + t, title, number) == pre + filled_in(t, title, number),
    decreases pre.len(),
{
    reveal_strlit("{title}");
    reveal_strlit("{n}");
    let all = pre + t;
    if pre.len() == 0 {
        assert(all =~= t);
        assert(pre + filled_in(t, title, number) =~= filled_in(t, title, number));
    } else {
        lemma_plain_skip(pre);
        assert(all[0] == pre[0]);
        if begins(all, "{title}"@) {
            assert(all.subrange(0, 7)[0] == '{');
        }
        if begins(all, "{n}"@) {
            assert(all.subrange(0, 3)[0] == '{');
        }
        assert(all.skip(1) =~= pre.skip(1) + t);
        lemma_filled_behind_plain(pre.skip(1), t, title, number);
        assert(seq![pre[0]] + (pre.skip(1) + filled_in(t, title, number)) =~= pre + filled_in(
            t,
            title,
            number,
        ));
    }
}

proof fn lemma_filled_plain(t: Seq<char>, title: Seq<char>, number: Seq<char>)
    requires
        is_plain(t),
    ensures
        filled_in(t, title, number) == t,
{
    let e = Seq::<char>::empty();
    lemma_filled_behind_plain(t, e, title, number);
    assert(t + e =~= t);
    assert(filled_in(e, title, number) =~= e);
}

/// The text neither starts nor ends with white space.
pub open spec fn is_tight(s: Seq<char>) -> bool {
    s.len() > 0 && !CharClass::White.has(s[0]) && !CharClass::White.has(s.last())
}

proof fn lemma_flat_of(t: Seq<char>)
    requires
        is_tight(t),
        is_flat(t),
    ensures
        flat_template(t) == t,
{
    law_trimming_takes_only_the_ends(t, CharClass::White);
    assert(flat_template(t) =~= t);
}

proof fn lemma_no_number(pre: Seq<char>, mid: Seq<char>, post: Seq<char>)
    requires
        is_plain(pre),
        is_plain(post),
        mid == "{title}"@ || mid.len() == 0,
    ensures
        !has_text(pre + mid + post, "{n}"@),
{
    reveal_strlit("{title}");
    reveal_strlit("{n}");
    let t = pre + mid + post;
    if has_text(t, "{n}"@) {
        let i = choose|i: int| occurs_at(t, "{n}"@, i);
        assert(t.subrange(i, i + 3)[0] == t[i] && t.subrange(i, i + 3)[1] == t[i + 1]);
        if i < pre.len() {
            assert(t[i] == pre[i]);
        } else if i < pre.len() + mid.len() {
            assert(t[i] == mid[i - pre.len()]);
            assert(i == pre.len());
            assert(t[i + 1] == mid[1]);
        } else {
            assert(t[i] == post[i - pre.len() - mid.len()]);
        }
    }
}

/// Law: a template is followed: what is plain in it stays, the label stands where
/// `{title}` does and the number where `{n}` does; a template without the number
/// gets it behind, and so does the label alone where there is no template.
pub proof fn law_template_is_followed(pre: Seq<char>, post: Seq<char>, label: Seq<char>, n: nat)
    requires
        is_plain(pre),
        is_plain(post),
    ensures
        is_tight(pre + "{title}"@ + post) ==> basename_of(pre + "{title}"@ + post, label, n) == pre
            + safe_label(label) + post + "_t"@ + dec(n),
        is_tight(pre + "{n}"@ + post) ==> basename_of(pre + "{n}"@ + post, label, n) == pre + dec(n)
            + post,
        is_tight(pre) ==> basename_of(pre, label, n) == pre + "_t"@ + dec(n),
        basename_of(Seq::empty(), label, n) == safe_label(label) + "_t"@ + dec(n),
        all_digits(dec(n)) && value_of(dec(n)) == n,
{
    reveal_strlit("{title}");
    reveal_strlit("{n}");
    law_number_reads_back(n);
    let l = safe_label(label);
    let e = Seq::<char>::empty();
    let number = dec(n);
    let t = pre + "{title}"@ + post;
    if is_tight(t) {
        assert(is_flat(t));
        lemma_flat_of(t);
        lemma_no_number(pre, "{title}"@, post);
        let rest = "{title}"@ + post;
        assert(t =~= pre + rest);
        lemma_filled_behind_plain(pre, rest, l, number);
        assert(rest.subrange(0, 7) =~= "{title}"@);
        assert(rest.skip(7) =~= post);
        lemma_filled_plain(post, l, number);
        assert(pre + (l + post) + "_t"@ + number =~= pre + l + post + "_t"@ + number);
    }
    let u = pre + "{n}"@ + post;
    if is_tight(u) {
        assert(is_flat(u));
        lemma_flat_of(u);
        assert(u.subrange(pre.len() as int, (pre.len() + 3) as int) =~= "{n}"@);
        assert(occurs_at(u, "{n}"@, pre.len() as int));
        let rest = "{n}"@ + post;
        assert(u =~= pre + rest);
        lemma_filled_behind_plain(pre, rest, l, number);
        assert(rest.subrange(0, 3) =~= "{n}"@);
        assert(rest[1] == 'n');
        if begins(rest, "{title}"@) {
            assert(rest.subrange(0, 7)[1] == rest[1]);
        }
        assert(rest.skip(3) =~= post);
        lemma_filled_plain(post, l, number);
        assert(pre + (number + post) =~= pre + number + post);
    }
    if is_tight(pre) {
        lemma_flat_of(pre);
        lemma_no_number(pre, e, e);
        assert(pre + e + e =~= pre);
        lemma_filled_plain(pre, l, number);
    }
    assert(flat_template(e) =~= e);
}

/// What a label is without what may not stand in a name.
pub open spec fn cleaned(label: Seq<char>) -> Seq<char> {
    Seq::new(
        label.len(),
        |i: int|
            if is_path_char(label[i]) {
                '_'
            } else {
                label[i]
            },
    )
}

/// Law: a disc is called in the names of its files what it calls itself: a label
/// that can stand as a name stays as it is, and of any other no more is changed
/// than has to be: what may not stand in a name becomes an underscore, white
/// space, dots and spaces go from its ends, and an underscore goes before a name
/// that Windows keeps. Only where nothing is left is it called `disc`.
pub proof fn law_label_is_kept(label: Seq<char>)
    ensures
        is_file_name(label) && is_tight(label) && label != "."@ && label != ".."@ ==> safe_label(
            label,
        ) == label,
        safe_label(label) == "disc"@ || exists|i: int, j: int|
            0 <= i < j <= label.len() && is_core(cleaned(label), i, j) && (safe_label(label)
                == #[trigger] cleaned(label).subrange(i, j) || safe_label(label) == "_"@ + cleaned(
                label,
            ).subrange(i, j) && is_device_name(until(cleaned(label).subrange(i, j), CharClass::Dot))),
{
    let m = label.map_values(|c: char| name_char(c));
    assert(m =~= cleaned(label));
    let a = drop_leading(m, CharClass::White);
    let b = drop_trailing(a, CharClass::White);
    let t = label_core(label);
    lemma_drop_leading(m, CharClass::White);
    lemma_drop_trailing(a, CharClass::White);
    lemma_drop_trailing(b, CharClass::DotOrSpace);
    lemma_leading_all(m, CharClass::White);
    lemma_trailing_all(a, CharClass::White);
    lemma_trailing_all(b, CharClass::DotOrSpace);
    let i = m.len() - a.len();
    let j = i + t.len();
    assert(m.subrange(i, j) =~= t);
    if t.len() > 0 {
        assert(m.take(i) =~= m.take(m.len() - a.len()));
        let tail = m.skip(j);
        assert forall|k: int| 0 <= k < tail.len() implies CharClass::White.has(#[trigger] tail[k])
            || CharClass::DotOrSpace.has(tail[k]) by {
            if k < b.len() - t.len() {
                assert(tail[k] == b.skip(t.len() as int)[k]);
            } else {
                assert(tail[k] == a.skip(b.len() as int)[k - (b.len() - t.len())]);
            }
        }
        assert(is_core(m, i, j));
    }
    if is_file_name(label) && is_tight(label) {
        assert(m =~= label);
        law_trimming_takes_only_the_ends(label, CharClass::White);
        assert(b == label);
        assert(t =~= label);
    }
}

/// The part from `i` to `j` is what is left of a text when white space goes from
/// its start, and white space, dots and spaces go from its end.
pub open spec fn is_core(s: Seq<char>, i: int, j: int) -> bool {
    &&& all_of(s.take(i), CharClass::White)
    &&& !CharClass::White.has(s[i])
    &&& forall|k: int|
        0 <= k < s.skip(j).len() ==> CharClass::White.has(#[trigger] s.skip(j)[k])
            || CharClass::DotOrSpace.has(s.skip(j)[k])
    &&& !CharClass::DotOrSpace.has(s[j - 1])
}

/// `path` leads to the file called `name` in the directory `dir`: the path of the
/// directory, one slash where it does not end in one, and the name. Without a
/// directory the path is the name.
pub open spec fn is_in(path: Seq<char>, dir: Seq<char>, name: Seq<char>) -> bool {
    ||| dir.len() == 0 && path == name
    ||| dir.len() > 0 && dir.last() == '/' && path == dir + name
    ||| dir.len() > 0 && dir.last() != '/' && path == dir.push('/') + name
}

/// Law: the folder of a disc lies in the destination and is named after the
/// disc, and so does its image, with `.iso` behind the name.
pub proof fn law_disc_output_lies_in_the_destination(dest_dir: Seq<char>, label: Seq<char>)
    ensures
        is_in(folder_of(dest_dir, label), dest_dir, safe_label(label)),
        is_in(image_of(dest_dir, label), dest_dir, safe_label(label) + ".iso"@),
        is_file_name(safe_label(label)),
{
    law_label_is_a_file_name(label);
    let l = safe_label(label);
    assert(!is_path_char(l[0]));
    assert((l + ".iso"@)[0] == l[0]);
    assert(dest_dir.len() == 0 ==> dest_dir + l =~= l);
    assert(dest_dir.len() == 0 ==> dest_dir + (l + ".iso"@) =~= l + ".iso"@);
}

/// Law: the device of a drive's source is what stands behind `disc://`; without
/// anything there it is the first drive, and another source has none.
pub proof fn law_device_is_read_back(device: Seq<char>)
    ensures
        is_drive("disc://"@ + device),
        device.len() > 0 ==> device_of("disc://"@ + device) == Some(device),
        device_of("disc://"@) is None,
        !starts_with(device, "disc://"@) ==> !is_drive(device) && device_of(device) is None,
{
    let s = "disc://"@ + device;
    assert(s.subrange(0, "disc://"@.len() as int) =~= "disc://"@);
    assert(s.skip("disc://"@.len() as int) =~= device);
    if is_drive(device) {
        assert(device.subrange(0, "disc://"@.len() as int) =~= device.take(
            "disc://"@.len() as int,
        ));
    }
}

/// The marks by which a format is told, and what each of them makes.
pub open spec fn format_marks() -> Seq<(Seq<char>, Sink)> {
    seq![
        ("decrypted folder"@, Sink::DecryptedFolder),
        ("ISO image"@, Sink::IsoImage),
        ("separate track"@, Sink::Demux("demux"@)),
        ("video tracks"@, Sink::Demux("video"@)),
        ("audio tracks"@, Sink::Demux("audio"@)),
        ("subtitle tracks"@, Sink::Demux("sub"@)),
        ("MP4"@, Sink::File("mp4"@)),
        ("M2TS"@, Sink::File("m2ts"@)),
        ("Chapters"@, Sink::File("chapters"@)),
        ("JSON"@, Sink::File("json"@)),
        (".fvi"@, Sink::File("fvi"@)),
    ]
}

/// Law: a format makes what it says: the one whose mark alone is in its name,
/// and MKV where none is. What it makes, its name says.
pub proof fn law_format_makes_what_it_says(format: Seq<char>, i: int)
    requires
        0 <= i < format_marks().len(),
    ensures
        has_text(format, format_marks()[i].0) && (forall|j: int|
            0 <= j < format_marks().len() && j != i ==> !has_text(
                format,
                (#[trigger] format_marks()[j]).0,
            )) ==> sink_of(format) == format_marks()[i].1,
        (forall|j: int|
            0 <= j < format_marks().len() ==> !has_text(format, (#[trigger] format_marks()[j]).0))
            ==> sink_of(format) == Sink::File("mkv"@),
        sink_of(format) == Sink::File("mkv"@) || exists|j: int|
            0 <= j < format_marks().len() && has_text(format, (#[trigger] format_marks()[j]).0)
                && sink_of(format) == format_marks()[j].1,
{
    let m = format_marks();
    assert(m[0] == ("decrypted folder"@, Sink::DecryptedFolder));
    assert(m[1] == ("ISO image"@, Sink::IsoImage));
    assert(m[2] == ("separate track"@, Sink::Demux("demux"@)));
    assert(m[3] == ("video tracks"@, Sink::Demux("video"@)));
    assert(m[4] == ("audio tracks"@, Sink::Demux("audio"@)));
    assert(m[5] == ("subtitle tracks"@, Sink::Demux("sub"@)));
    assert(m[6] == ("MP4"@, Sink::File("mp4"@)));
    assert(m[7] == ("M2TS"@, Sink::File("m2ts"@)));
    assert(m[8] == ("Chapters"@, Sink::File("chapters"@)));
    assert(m[9] == ("JSON"@, Sink::File("json"@)));
    assert(m[10] == (".fvi"@, Sink::File("fvi"@)));
}

/// Law: the word for a format is the one for what it makes: a container is called
/// by its extension in capitals, and no two kinds of output are called alike.
pub proof fn law_word_tells_the_output(format: Seq<char>, other: Seq<char>)
    ensures
        sink_word(sink_of(format)) == sink_word(sink_of(other)) ==> sink_of(format) == sink_of(
            other,
        ),
        sink_of(format) matches Sink::File(e) ==> e == "chapters"@ || sink_word(sink_of(format))
            == uppered(e),
        sink_of(format) is IsoImage ==> sink_word(sink_of(format)) == "ISO"@,
        sink_of(format) is Demux ==> ends_with(sink_word(sink_of(format)), "track"@),
{
    reveal_strlit("mp4");
    reveal_strlit("m2ts");
    reveal_strlit("json");
    reveal_strlit("fvi");
    reveal_strlit("mkv");
    reveal_strlit("chapters");
    reveal_strlit("video");
    reveal_strlit("audio");
    reveal_strlit("sub");
    reveal_strlit("demux");
    reveal_strlit("MP4");
    reveal_strlit("M2TS");
    reveal_strlit("JSON");
    reveal_strlit("FVI");
    reveal_strlit("MKV");
    reveal_strlit("chapter");
    reveal_strlit("video track");
    reveal_strlit("audio track");
    reveal_strlit("subtitle track");
    reveal_strlit("track");
    reveal_strlit("ISO");
    reveal_strlit("UDF");
    assert(uppered("mp4"@) =~= "MP4"@);
    assert(uppered("m2ts"@) =~= "M2TS"@);
    assert(uppered("json"@) =~= "JSON"@);
    assert(uppered("fvi"@) =~= "FVI"@);
    assert(uppered("mkv"@) =~= "MKV"@);
    assert("mp4"@.len() == 3 && "m2ts"@.len() == 4 && "json"@[0] == 'j');
    assert("mp4"@[1] == 'p' && "mkv"@[1] == 'k' && "fvi"@[0] == 'f' && "m2ts"@[0] == 'm');
    assert("MP4"@[1] == 'P' && "MKV"@[1] == 'K' && "FVI"@[0] == 'F' && "ISO"@[0] == 'I');
    assert("UDF"@[0] == 'U' && "M2TS"@[0] == 'M' && "JSON"@[0] == 'J');
    assert("video track"@[0] == 'v' && "audio track"@[0] == 'a');
    assert("video"@[0] == 'v' && "audio"@[0] == 'a' && "demux"@[0] == 'd');
    assert("video track"@.skip(6) =~= "track"@);
    assert("audio track"@.skip(6) =~= "track"@);
    assert("subtitle track"@.skip(9) =~= "track"@);
    assert("track"@.skip(0) =~= "track"@);
}

/// Law: a container is told by its extension, in capitals or not, and read by the
/// scheme of that name; whatever has another extension is none.
pub proof fn law_container_is_told_by_its_extension(path: Seq<char>, stem: Seq<char>, ext: Seq<char>)
    requires
        path_file_name(path) == Some(stem + seq!['.'] + ext),
        stem.len() > 0,
        lacks(ext, '.'),
    ensures
        source_extension(path) == lowered(ext),
        is_container(path) == (lowered(ext) == "mkv"@ || lowered(ext) == "mp4"@ || lowered(ext)
            == "m2ts"@ || lowered(ext) == "mts"@),
        is_container(path) && lowered(ext) != "mts"@ ==> scheme_of(path) == lowered(ext),
        lowered(ext) == "mts"@ ==> scheme_of(path) == "m2ts"@,
        lowered(ext) == "iso"@ ==> scheme_of(path) == "iso"@ && !is_container(path),
{
    reveal_strlit("mkv");
    reveal_strlit("mp4");
    reveal_strlit("m2ts");
    reveal_strlit("mts");
    reveal_strlit("iso");
    law_name_reads_back(path, stem, ext);
    assert("mts"@.len() == 3 && "iso"@[0] == 'i' && "mkv"@[0] == 'm' && "mp4"@[0] == 'm');
    assert("mts"@[1] == 't' && "mkv"@[1] == 'k' && "mp4"@[1] == 'p' && "mts"@[0] == 'm');
    assert("m2ts"@.len() == 4);
}

/// Law: what is shown as the output of a rip is what the rip writes: the place of
/// its first title, the folder or the image of the disc, each by the disc's own
/// name, and of a container the file named after its own.
pub proof fn law_shown_output_is_what_is_written(
    source: Seq<char>,
    dest_dir: Seq<char>,
    format: Seq<char>,
    first: Option<usize>,
    template: Seq<char>,
    volume_id: Seq<char>,
)
    requires
        first matches Some(t) ==> t < usize::MAX,
        volume_id.len() > 0,
    ensures
        ({
            let shown = planned_output(source, dest_dir, format, first, template, volume_id);
            let idx = match first {
                Some(t) => t as nat,
                None => 0,
            };
            &&& !is_container(source) && sink_of(format) is File ==> shown == title_place(
                sink_of(format),
                dest_dir,
                template,
                volume_id,
                idx,
                false,
            ).1
            &&& !is_container(source) && sink_of(format) is IsoImage && dest_dir.len() > 0
                && dest_dir.last() != '/' ==> shown == image_of(dest_dir, volume_id)
            &&& !is_container(source) && sink_of(format) is DecryptedFolder ==> shown == folder_of(
                dest_dir,
                volume_id,
            )
            &&& is_container(source) && sink_of(format) is File ==> shown == title_place(
                sink_of(format),
                dest_dir,
                template,
                path_stem(source)->0,
                0,
                false,
            ).1
            &&& sink_of(format) is Demux ==> starts_with(shown, dest_dir + "/"@)
        }),
{
    reveal_strlit("/");
    reveal_strlit("mkv");
    reveal_strlit("mp4");
    reveal_strlit("m2ts");
    reveal_strlit("mts");
    assert("mkv"@.len() == 3 && "mp4"@.len() == 3 && "m2ts"@.len() == 4 && "mts"@.len() == 3);
    reveal_strlit("/ (per-track files)");
    law_label_is_a_file_name(volume_id);
    let l = safe_label(volume_id);
    assert(!is_path_char(l[0]));
    assert((l + ".iso"@)[0] == l[0]);
    assert(dest_dir + "/"@ + l + ".iso"@ =~= dest_dir.push('/') + (l + ".iso"@));
    assert("/ (per-track files)"@.take(1) =~= "/"@);
    assert((dest_dir + "/ (per-track files)"@).take((dest_dir.len() + 1) as int) =~= dest_dir + "/"@);
}

} // verus!
