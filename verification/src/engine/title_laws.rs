//! What holds of every title of a rip, and of the streams that it keeps.

use crate::disc::{AudioStream, Disc, Stream, Title};
use crate::engine::identity::{
    TitleIdentity, TitleMark, changed_text, gone_text, mark_of, marks, missing_text, picked_mark,
    selection_holds, still_there,
};
use crate::engine::request::{
    KeyConfig, RipRequest, TitleStreams, is_blank, key_sources, selected_streams, ticked,
};
use crate::engine::rip::{PhaseText, ScanText, at_drive, at_selected, number_list};
use crate::engine::rows::{audio_words, disc_scan, led, stream_row, title_head, title_rows};
use crate::engine::summary::{MuxOutcome, code_in, explanation, loss_lines};
use crate::engine::titles::{
    Ejection, ExtractedFile, eject_said, job_choice, job_source, title_admitted, title_said,
    unreadable,
};
use crate::reading::{
    between, ends_with, law_joined_has_each_part, lemma_between, lemma_has_either, lemma_has_part,
    lemma_starts, starts_with,
};
use crate::strings::sanitized;
use crate::text::{dec, has_text, joined};
use vstd::prelude::*;
use vstd::string::*;

verus! {

/// Law: what is said of a title names it by its number, counted from one, and, as
/// far as there is a file, the file; a failure says why. A title that was not
/// finished is said to be cancelled, and one that was has every loss behind it.
pub proof fn law_title_is_named_by_its_number(
    c: Seq<(Seq<char>, Seq<char>)>,
    idx: usize,
    target: Seq<char>,
    result: Result<MuxOutcome, String>,
)
    ensures
        ({
            let lines = title_said(c, idx, target, result);
            let n = dec((idx + 1) as nat);
            match result {
                Err(e) => lines.len() == 1 && between(
                    lines[0],
                    "Title "@ + n + ": "@,
                    explanation(code_in(e@)),
                ) == Some(Seq::<char>::empty()),
                Ok(o) => {
                    &&& lines.len() >= 1
                    &&& starts_with(lines[0], "title "@ + n)
                    &&& ends_with(lines[0], target)
                    &&& (!o.completed <==> has_text(
                        lines[0].take(lines[0].len() - target.len()).skip(("title "@ + n).len() as int),
                        "cancelled"@,
                    ))
                    &&& o.completed ==> lines.skip(1) == loss_lines(c, o, target)
                    &&& !o.completed ==> lines.len() == 1
                },
            }
        }),
{
    reveal_strlit("cancelled");
    reveal_strlit(" cancelled — partial output kept: ");
    reveal_strlit(" -> ");
    let lines = title_said(c, idx, target, result);
    let n = dec((idx + 1) as nat);
    match result {
        Err(e) => {
            let head = "Title "@ + n + ": "@;
            let why = explanation(code_in(e@));
            lemma_between(head, Seq::empty(), why);
            assert(head + Seq::<char>::empty() + why =~= lines[0]);
        },
        Ok(o) => {
            let head = "title "@ + n;
            let mid = if o.completed {
                " -> "@
            } else {
                " cancelled — partial output kept: "@
            };
            lemma_between(head, mid, target);
            assert(lines[0] =~= head + mid + target);
            assert(lines[0].take(lines[0].len() - target.len()).skip(head.len() as int) =~= mid);
            if o.completed {
                assert(lines.skip(1) =~= loss_lines(c, o, target));
                assert forall|i: int| !crate::text::occurs_at(" -> "@, "cancelled"@, i) by {}
            } else {
                let a = mid.take(1);
                let b = mid.skip(10);
                assert(mid.subrange(1, 10) =~= "cancelled"@);
                lemma_has_part(a, "cancelled"@, b);
                assert(a + "cancelled"@ + b =~= mid);
            }
        },
    }
}

/// Law: every file that could not be read in full has a line with its path and how
/// much of it is missing, and no other file has.
pub proof fn law_every_damaged_file_is_named(files: Seq<ExtractedFile>, n: nat, i: int)
    requires
        n <= files.len(),
    ensures
        0 <= i < n && files[i].bytes_unreadable > 0 ==> exists|j: int|
            0 <= j < unreadable(files, n).len() && between(
                #[trigger] unreadable(files, n)[j],
                "  "@ + files[i].path@,
                files[i].unreadable_mb@ + " MB unreadable"@,
            ) is Some,
        (forall|k: int| 0 <= k < n ==> (#[trigger] files[k]).bytes_unreadable == 0) ==> unreadable(
            files,
            n,
        ).len() == 0,
    decreases n,
{
    if n > 0 {
        law_every_damaged_file_is_named(files, (n - 1) as nat, i);
        let before = unreadable(files, (n - 1) as nat);
        let all = unreadable(files, n);
        if 0 <= i < n - 1 && files[i].bytes_unreadable > 0 {
            let j = choose|j: int|
                0 <= j < before.len() && between(
                    #[trigger] before[j],
                    "  "@ + files[i].path@,
                    files[i].unreadable_mb@ + " MB unreadable"@,
                ) is Some;
            assert(all[j] == before[j]);
        } else if i == n - 1 && files[i].bytes_unreadable > 0 {
            let head = "  "@ + files[i].path@;
            let tail = files[i].unreadable_mb@ + " MB unreadable"@;
            lemma_between(head, " — "@, tail);
            assert(all[all.len() - 1] =~= head + " — "@ + tail);
        }
    }
}

/// Law: a title is read off a drive only where it is the one that was meant: the
/// scan made for it has, at its number, what was picked; what the drive says
/// against it, and that the disc has changed, is an error that names the title by
/// its number.
pub proof fn law_only_the_meant_title_is_read(
    picked: Seq<TitleMark>,
    idx: usize,
    opened: Result<Vec<TitleIdentity>, String>,
)
    ensures
        ({
            let r = title_admitted(picked, idx, opened);
            match opened {
                Err(e) => r matches Err(s) && starts_with(s, "title "@ + dec((idx + 1) as nat))
                    && ends_with(s, e@),
                Ok(v) => {
                    &&& idx >= picked.len() ==> r is Ok
                    &&& idx < picked.len() ==> (r is Ok <==> idx < v@.len() && v@[idx as int]@
                        == picked[idx as int])
                    &&& r matches Err(s) ==> starts_with(s, "Title "@ + dec((idx + 1) as nat))
                },
            }
        }),
{
    let n = dec((idx + 1) as nat);
    match opened {
        Err(e) => {
            let s = "title "@ + n + ": "@ + e@;
            lemma_starts("title "@ + n, ": "@ + e@);
            assert("title "@ + n + (": "@ + e@) =~= s);
            lemma_starts("title "@ + n + ": "@, e@);
        },
        Ok(v) => {
            let all = marks(v@);
            assert(all.len() == v@.len());
            assert(idx < v@.len() ==> all[idx as int] == v@[idx as int]@);
            if let Err(s) = title_admitted(picked, idx, opened) {
                let h = "Title "@ + n;
                assert(s.take(h.len() as int) =~= h);
            }
        },
    }
}

/// Law: a selection holds if and only if each of its titles that something is
/// known of stands, in the new scan, at its own number; otherwise the first that
/// does not is named by its number, and what it was.
pub proof fn law_selection_holds_exactly_where_it_fits(
    titles: Seq<usize>,
    picked: Seq<TitleMark>,
    scanned: Seq<TitleMark>,
    i: int,
)
    requires
        0 <= i <= titles.len(),
    ensures
        selection_holds(titles, picked, scanned, i) is Ok <==> forall|j: int|
            i <= j < titles.len() && (#[trigger] titles[j]) < picked.len() ==> titles[j]
                < scanned.len() && scanned[titles[j] as int] == picked[titles[j] as int],
        selection_holds(titles, picked, scanned, i) matches Err(e) ==> exists|j: int|
            i <= j < titles.len() && starts_with(
                e,
                "Title "@ + dec((#[trigger] titles[j] + 1) as nat),
            ) && titles[j] < picked.len() && has_text(
                e,
                sanitized(picked[titles[j] as int].playlist),
            ),
    decreases titles.len() - i,
{
    if i < titles.len() {
        law_selection_holds_exactly_where_it_fits(titles, picked, scanned, i + 1);
        let t = titles[i];
        let r = still_there(picked_mark(picked, t), scanned, t as nat);
        if r is Ok {
            if forall|j: int|
                i + 1 <= j < titles.len() && (#[trigger] titles[j]) < picked.len() ==> titles[j]
                    < scanned.len() && scanned[titles[j] as int] == picked[titles[j] as int] {
                assert forall|j: int|
                    i <= j < titles.len() && (#[trigger] titles[j]) < picked.len() implies titles[j]
                    < scanned.len() && scanned[titles[j] as int] == picked[titles[j] as int] by {}
            }
        } else {
            let e = r->Err_0;
            let h = "Title "@ + dec((titles[i] + 1) as nat);
            let p = sanitized(picked[t as int].playlist);
            assert(e.take(h.len() as int) =~= h);
            if t >= scanned.len() {
                let post = e.skip((h.len() + " ("@.len() + p.len()) as int);
                lemma_has_part(h + " ("@, p, post);
                assert(h + " ("@ + p + post =~= e);
            } else {
                let lead = h + " changed between scans: it was "@;
                let post = e.skip((lead.len() + p.len()) as int);
                lemma_has_part(lead, p, post);
                assert(lead + p + post =~= e);
            }
            assert(titles[i] < picked.len());
        }
    }
}

/// Law: what was ticked for a title is what the first entry about it says, and
/// nothing where there is none; so a title keeps exactly the streams that were
/// ticked under it, audio and subtitles each, whatever was ticked under others.
pub proof fn law_title_keeps_its_own_ticks(
    req: RipRequest,
    entries: Vec<(usize, Vec<u16>, Vec<u16>)>,
    t: usize,
    i: int,
)
    requires
        req.title_pids == TitleStreams::PerTitle(entries),
        req.explicit_streams,
    ensures
        0 <= i < entries@.len() && entries@[i].0 == t && (forall|j: int|
            0 <= j < i ==> (#[trigger] entries@[j]).0 != t) ==> selected_streams(req, Some(t)) == (
            Some(entries@[i].1@),
            Some(entries@[i].2@),
        ),
        (forall|j: int| 0 <= j < entries@.len() ==> (#[trigger] entries@[j]).0 != t)
            ==> selected_streams(req, Some(t)) == (Some(req.audio_pids@), Some(req.sub_pids@)),
{
    lemma_ticked(entries@, t, 0, i);
}

proof fn lemma_ticked(entries: Seq<(usize, Vec<u16>, Vec<u16>)>, t: usize, from: int, i: int)
    requires
        0 <= from,
    ensures
        from <= i < entries.len() && entries[i].0 == t && (forall|j: int|
            from <= j < i ==> (#[trigger] entries[j]).0 != t) ==> ticked(entries, t, from) == Some(
            (entries[i].1@, entries[i].2@),
        ),
        (forall|j: int| from <= j < entries.len() ==> (#[trigger] entries[j]).0 != t) ==> ticked(
            entries,
            t,
            from,
        ) is None,
    decreases entries.len() - from,
{
    if from < entries.len() {
        lemma_ticked(entries, t, from + 1, i);
    }
}

/// Law: the tree of a disc has one row for the disc, one for each title and one
/// for each stream, in this order, each stream right behind its title; and every
/// row of a title or a stream names the title that it belongs to, so that a tick
/// on it reaches that title and no other.
pub proof fn law_tree_has_a_row_for_everything(
    disc: Disc,
    summary: Seq<char>,
    verbose: bool,
    t: int,
    s: int,
)
    requires
        disc.titles@.len() <= usize::MAX,
    ensures
        ({
            let rows = disc_scan(disc, summary, verbose).rows;
            let titles = disc.titles@;
            &&& rows.len() == 1 + rows_before(titles, titles.len())
            &&& 0 <= t < titles.len() ==> {
                let at = 1 + rows_before(titles, t as nat);
                &&& 0 < at < rows.len()
                &&& rows[at as int].title == t && rows[at as int].depth == 1
                    && rows[at as int].checkable && rows[at as int].pid is None
                &&& rows[at as int].duration_secs == titles[t].duration_secs
                &&& 0 <= s < titles[t].streams@.len() ==> {
                    let r = rows[at + 1 + s];
                    &&& at + 1 + s < rows.len()
                    &&& r.title == t && r.depth == 2
                    &&& match titles[t].streams@[s] {
                        Stream::Video(v) => r.pid is None && !r.checkable,
                        Stream::Audio(a) => r.pid == Some(a.pid) && r.checkable && r.lang
                            == a.language@ && !r.forced,
                        Stream::Subtitle(u) => r.pid == Some(u.pid) && r.checkable && r.lang
                            == u.language@ && r.forced == u.forced,
                    }
                }
            }
        }),
{
    let titles = disc.titles@;
    let tail = title_rows(titles, titles.len());
    lemma_rows_count(titles, titles.len());
    if 0 <= t < titles.len() {
        let rows = disc_scan(disc, summary, verbose).rows;
        let at = rows_before(titles, t as nat) as int;
        lemma_rows_at(titles, titles.len(), t, s);
        assert(rows[at + 1] == tail[at]);
        if 0 <= s < titles[t].streams@.len() {
            assert(rows[at + 2 + s] == tail[at + 1 + s]);
        }
    }
}

/// How many rows the first `n` titles have.
pub open spec fn rows_before(titles: Seq<Title>, n: nat) -> nat
    decreases n,
{
    if n == 0 {
        0
    } else {
        rows_before(titles, (n - 1) as nat) + 1 + titles[n - 1].streams@.len()
    }
}

proof fn lemma_rows_count(titles: Seq<Title>, n: nat)
    ensures
        title_rows(titles, n).len() == rows_before(titles, n),
    decreases n,
{
    if n > 0 {
        lemma_rows_count(titles, (n - 1) as nat);
    }
}

proof fn lemma_rows_at(titles: Seq<Title>, n: nat, t: int, s: int)
    requires
        0 <= t < n <= titles.len(),
        n <= usize::MAX,
    ensures
        rows_before(titles, t as nat) < title_rows(titles, n).len(),
        title_rows(titles, n)[rows_before(titles, t as nat) as int] == title_head(
            titles[t],
            t as usize,
        ),
        0 <= s < titles[t].streams@.len() ==> rows_before(titles, t as nat) + 1 + s < title_rows(
            titles,
            n,
        ).len() && title_rows(titles, n)[rows_before(titles, t as nat) + 1 + s] == stream_row(
            titles[t].streams@[s],
            t as usize,
        ),
    decreases n,
{
    let m = (n - 1) as nat;
    let before = title_rows(titles, m);
    let all = title_rows(titles, n);
    let own = titles[n - 1].streams@.map_values(|x: Stream| stream_row(x, (n - 1) as usize));
    lemma_rows_count(titles, m);
    lemma_rows_count(titles, n);
    assert(all == before.push(title_head(titles[n - 1], (n - 1) as usize)) + own);
    let at = rows_before(titles, t as nat) as int;
    if t < m {
        lemma_rows_at(titles, m, t, s);
        assert(all[at] == before[at]);
        if 0 <= s < titles[t].streams@.len() {
            assert(all[at + 1 + s] == before[at + 1 + s]);
        }
    } else if 0 <= s < titles[t].streams@.len() {
        assert(all[at + 1 + s] == own[s]);
    }
}

/// Law: the row of a stream says what the stream is: its codec first, then its
/// resolution, or its channels and language, or its language; what a disc calls
/// it, what it is for and that it is forced stand behind that. The longer text
/// has the rest, each under its own label.
#[verifier::rlimit(60)]
pub proof fn law_stream_row_says_what_it_is(s: Stream, ti: usize)
    ensures
        ({
            let r = stream_row(s, ti);
            match s {
                Stream::Video(v) => {
                    &&& r.type_s == "Video"@
                    &&& starts_with(r.desc, v.codec.name@ + "  "@ + v.resolution@)
                    &&& v.label@.len() > 0 ==> ends_with(r.desc, sanitized(v.label@)) && ends_with(
                        r.info,
                        "\nLabel: "@ + sanitized(v.label@),
                    )
                    &&& v.label@.len() == 0 ==> r.desc == v.codec.name@ + "  "@ + v.resolution@
                    &&& starts_with(
                        r.info,
                        "Video track\n\nCodec: "@ + v.codec.name@ + "\nResolution: "@ + v.resolution@
                            + "\nFrame rate: "@ + v.frame_rate@ + "\nHDR: "@ + v.hdr_name@
                            + "\nColour: "@ + v.color_space@,
                    )
                },
                Stream::Audio(a) => {
                    &&& r.type_s == "Audio"@
                    &&& starts_with(
                        r.desc,
                        a.codec.name@ + "  "@ + a.channels@ + "  "@ + sanitized(a.language@),
                    )
                    &&& starts_with(
                        r.info,
                        "Audio track\n\nCodec: "@ + a.codec.name@ + "\nChannels: "@ + a.channels@
                            + "\nLanguage: "@ + sanitized(a.language@) + "\nSample rate: "@
                            + a.sample_rate@,
                    )
                    &&& a.label@.len() > 0 ==> has_text(r.desc, sanitized(a.label@))
                    &&& a.secondary ==> has_text(r.desc, "Secondary"@) && has_text(
                        r.info,
                        "\nSecondary: yes"@,
                    )
                    &&& a.purpose == crate::disc::LabelPurpose::Commentary ==> has_text(
                        r.desc,
                        "Commentary"@,
                    )
                    &&& a.purpose == crate::disc::LabelPurpose::Descriptive ==> has_text(
                        r.desc,
                        "Descriptive"@,
                    )
                },
                Stream::Subtitle(u) => {
                    &&& r.type_s == "Subtitles"@
                    &&& starts_with(r.desc, u.codec.name@ + "  "@ + sanitized(u.language@))
                    &&& u.forced ==> ends_with(r.desc, "Forced"@) && ends_with(
                        r.info,
                        "\nForced: "@ + "true"@,
                    )
                    &&& !u.forced ==> r.desc == u.codec.name@ + "  "@ + sanitized(u.language@)
                        && ends_with(r.info, "\nForced: "@ + "false"@)
                    &&& starts_with(
                        r.info,
                        "Subtitle track\n\nCodec: "@ + u.codec.name@ + "\nLanguage: "@ + sanitized(
                            u.language@,
                        ),
                    )
                },
            }
        }),
{
    let r = stream_row(s, ti);
    match s {
        Stream::Video(v) => {
            let head = v.codec.name@ + "  "@ + v.resolution@;
            let l = sanitized(v.label@);
            let tail = led("  —  "@, l, v.label@.len() > 0);
            lemma_starts(head, tail);
            lemma_starts(head + "  —  "@, l);
            assert(head + ("  —  "@ + l) =~= head + "  —  "@ + l);
            let info = "Video track\n\nCodec: "@ + v.codec.name@ + "\nResolution: "@ + v.resolution@
                + "\nFrame rate: "@ + v.frame_rate@ + "\nHDR: "@ + v.hdr_name@ + "\nColour: "@
                + v.color_space@;
            lemma_starts(info, led("\nLabel: "@, l, v.label@.len() > 0));
        },
        Stream::Audio(a) => {
            lemma_audio_row(a, ti);
        },
        Stream::Subtitle(u) => {
            let head = u.codec.name@ + "  "@ + sanitized(u.language@);
            lemma_starts(head, led("  —  "@, "Forced"@, u.forced));
            lemma_starts(head + "  —  "@, "Forced"@);
            assert(head + ("  —  "@ + "Forced"@) =~= head + "  —  "@ + "Forced"@);
            let info = "Subtitle track\n\nCodec: "@ + u.codec.name@ + "\nLanguage: "@ + sanitized(
                u.language@,
            );
            let b = if u.forced {
                "true"@
            } else {
                "false"@
            };
            lemma_starts(info, "\nForced: "@ + b);
            assert(info + ("\nForced: "@ + b) =~= info + "\nForced: "@ + b);
        },
    }
}

proof fn lemma_audio_row(a: AudioStream, ti: usize)
    ensures
        ({
            let r = stream_row(Stream::Audio(a), ti);
            &&& starts_with(
                r.desc,
                a.codec.name@ + "  "@ + a.channels@ + "  "@ + sanitized(a.language@),
            )
            &&& starts_with(
                r.info,
                "Audio track\n\nCodec: "@ + a.codec.name@ + "\nChannels: "@ + a.channels@
                    + "\nLanguage: "@ + sanitized(a.language@) + "\nSample rate: "@ + a.sample_rate@,
            )
            &&& a.label@.len() > 0 ==> has_text(r.desc, sanitized(a.label@))
            &&& a.secondary ==> has_text(r.desc, "Secondary"@) && has_text(
                r.info,
                "\nSecondary: yes"@,
            )
            &&& a.purpose == crate::disc::LabelPurpose::Commentary ==> has_text(r.desc, "Commentary"@)
            &&& a.purpose == crate::disc::LabelPurpose::Descriptive ==> has_text(
                r.desc,
                "Descriptive"@,
            )
        }),
{
    reveal_strlit("");
    let r = stream_row(Stream::Audio(a), ti);
    let words = audio_words(a);
    let tags = joined(words, ", "@);
    let head = a.codec.name@ + "  "@ + a.channels@ + "  "@ + sanitized(a.language@);
    let there = words.len() > 0;
    lemma_starts(head, led("  —  "@, tags, there));
    let info = "Audio track\n\nCodec: "@ + a.codec.name@ + "\nChannels: "@ + a.channels@
        + "\nLanguage: "@ + sanitized(a.language@) + "\nSample rate: "@ + a.sample_rate@;
    let sec = led("\nSecondary: yes"@, ""@, a.secondary);
    let lab = led("\nLabel: "@, tags, there);
    lemma_starts(info, sec + lab);
    assert(info + (sec + lab) =~= r.info);
    if a.secondary {
        assert(sec =~= "\nSecondary: yes"@);
        lemma_has_part(info, "\nSecondary: yes"@, lab);
    }
    if there {
        assert forall|i: int| 0 <= i < words.len() implies has_text(r.desc, #[trigger] words[i]) by {
            law_joined_has_each_part(words, ", "@, i);
            lemma_has_either("  —  "@, tags, words[i]);
            lemma_has_either(head, "  —  "@ + tags, words[i]);
        }
        if a.label@.len() > 0 {
            assert(words[words.len() - 1] == sanitized(a.label@));
        }
        if a.purpose != crate::disc::LabelPurpose::Normal {
            assert(words[0] == crate::engine::rows::purpose_name(a.purpose)->0);
        }
        if a.secondary {
            let k: int = if a.purpose != crate::disc::LabelPurpose::Normal {
                1
            } else {
                0
            };
            assert(words[k] == "Secondary"@);
        }
    }
}

/// Law: an image and a folder are each read as what they are, at their own path; and
/// where no title is ticked the main one is meant, else exactly those that are.
pub proof fn law_job_is_what_was_asked(path: Seq<char>, titles: Seq<usize>)
    ensures
        job_source(path, true) == "dir://"@ + path,
        job_source(path, false) == "iso://"@ + path,
        titles.len() == 0 ==> job_choice(titles) is None,
        titles.len() > 0 ==> job_choice(titles) == Some(titles),
{
    reveal_strlit("dir");
    reveal_strlit("iso");
    reveal_strlit("://");
    reveal_strlit("dir://");
    reveal_strlit("iso://");
    assert("dir"@ + "://"@ =~= "dir://"@);
    assert("iso"@ + "://"@ =~= "iso://"@);
}

/// Law: a drive that was ejected is named; where it was not, the reason is given.
pub proof fn law_ejection_is_told(device: Seq<char>, ejection: Ejection)
    ensures
        match ejection {
            Ejection::Done => ends_with(eject_said(device, ejection), device),
            Ejection::Failed(e) => ends_with(eject_said(device, ejection), e@),
            Ejection::NotOpened(e) => ends_with(eject_said(device, ejection), e@),
        },
        ejection is Done <==> starts_with(eject_said(device, ejection), "ejected "@),
{
    reveal_strlit("ejected ");
    reveal_strlit("eject failed: ");
    reveal_strlit("eject skipped — drive open failed: ");
    let s = eject_said(device, ejection);
    match ejection {
        Ejection::Done => {
            lemma_starts("ejected "@, device);
        },
        Ejection::Failed(e) => {
            lemma_starts("eject failed: "@, e@);
            assert(s[5] == ' ');
            assert(starts_with(s, "ejected "@) ==> s.take(8)[5] == 'e');
        },
        Ejection::NotOpened(e) => {
            lemma_starts("eject skipped — drive open failed: "@, e@);
            assert(s[5] == ' ');
            assert(starts_with(s, "ejected "@) ==> s.take(8)[5] == 'e');
        },
    }
}

/// Law: a key source that is set up is asked, and one that is not is left out; the
/// online service is left out too where only the local database may be asked.
pub proof fn law_key_sources_are_those_set_up(keys: KeyConfig, path: Seq<char>)
    ensures
        is_blank(keys.keydb_path@) <==> key_sources(keys, path).0 is None,
        key_sources(keys, path).0 matches Some(p) ==> p == path,
        is_blank(keys.keyserver_url@) ==> key_sources(keys, path).1 is None,
        keys.local_only ==> key_sources(keys, path).1 is None,
        !keys.local_only && !is_blank(keys.keyserver_url@) ==> key_sources(keys, path).1 == Some(
            keys.keyserver_url@,
        ),
        key_sources(keys, path).2 == Some(keys.keyserver_token@),
{
}

/// Law: two titles have the same mark if and only if they have the same playlist, the
/// same number and the same runs of sectors.
pub proof fn law_mark_tells_titles_apart(a: Title, b: Title)
    ensures
        mark_of(a) == mark_of(b) <==> a.playlist@ == b.playlist@ && a.playlist_id == b.playlist_id
            && a.extents@ == b.extents@,
        mark_of(a).playlist == a.playlist@,
{
}

/// Law: a title that is missing, gone or changed is named by its number, counted from
/// one, and by its playlist; where it is gone it is said how many there are, and where
/// it has changed what stands in its place.
pub proof fn law_lost_title_is_named(n: nat, was: TitleMark, now: TitleMark, count: nat)
    ensures
        starts_with(
            missing_text(n, was),
            "Title "@ + dec(n + 1) + " ("@ + sanitized(was.playlist) + ")"@,
        ),
        starts_with(
            gone_text(n, was, count),
            "Title "@ + dec(n + 1) + " ("@ + sanitized(was.playlist) + ")"@,
        ),
        ends_with(gone_text(n, was, count), " only "@ + dec(count) + " title(s)."@),
        starts_with(
            changed_text(n, was, now),
            "Title "@ + dec(n + 1) + " changed between scans: it was "@ + sanitized(was.playlist)
                + ", the drive now reports "@ + sanitized(now.playlist),
        ),
{
    let m1 = ") is not in the recovered image — the damage destroyed its playlist, so it cannot be muxed."@;
    let m2 = ") is no longer on the disc — the rescan lists only "@;
    assert(m1 =~= ")"@ + m1.skip(1)) by {
        reveal_strlit(")");
        reveal_strlit(
            ") is not in the recovered image — the damage destroyed its playlist, so it cannot be muxed.",
        );
    }
    assert(m2 =~= ")"@ + m2.skip(1) && m2 =~= m2.take(m2.len() - 6) + " only "@) by {
        reveal_strlit(")");
        reveal_strlit(" only ");
        reveal_strlit(") is no longer on the disc — the rescan lists only ");
    }
    let head = "Title "@ + dec(n + 1) + " ("@ + sanitized(was.playlist);
    lemma_starts(head + ")"@, m1.skip(1));
    assert(head + ")"@ + m1.skip(1) =~= missing_text(n, was));
    let rest = m2.skip(1) + dec(count) + " title(s)."@;
    lemma_starts(head + ")"@, rest);
    assert(head + ")"@ + rest =~= gone_text(n, was, count));
    let tail = " only "@ + dec(count) + " title(s)."@;
    lemma_starts(head + m2.take(m2.len() - 6), tail);
    assert(head + m2.take(m2.len() - 6) + tail =~= gone_text(n, was, count));
    let c = "Title "@ + dec(n + 1) + " changed between scans: it was "@ + sanitized(was.playlist)
        + ", the drive now reports "@ + sanitized(now.playlist);
    lemma_starts(c, " at that position. Nothing was written for it."@);
}

/// Law: a drive whose files are unpacked is ejected afterwards if and only if that was
/// asked for, and it is that drive.
pub proof fn law_unpacked_drive_is_ejected_as_asked(req: RipRequest, scan: ScanText)
    ensures
        at_drive(req, scan).phase matches PhaseText::FolderCheck { eject, .. } ==> {
            &&& req.auto_eject ==> eject == Some(scan.device)
            &&& !req.auto_eject ==> eject is None
        },
{
}

/// Law: which titles an image was resolved to is logged, each by its number; of a
/// drive nothing is logged.
pub proof fn law_resolved_titles_are_logged(
    req: RipRequest,
    scan: ScanText,
    indices: Seq<usize>,
    i: int,
)
    ensures
        at_selected(req, scan, true, indices).log.len() == 0,
        at_selected(req, scan, false, indices).log.len() == 1,
        0 <= i < indices.len() ==> has_text(
            at_selected(req, scan, false, indices).log[0],
            dec(indices[i] as nat),
        ),
{
    let parts = indices.map_values(|n: usize| dec(n as nat));
    if 0 <= i < indices.len() {
        let j = joined(parts, ", "@);
        assert(parts[i] == dec(indices[i] as nat));
        law_joined_has_each_part(parts, ", "@, i);
        lemma_has_either("["@, j, parts[i]);
        lemma_has_either("["@ + j, "]"@, parts[i]);
        lemma_has_either(
            "selection resolved to titles "@,
            number_list(indices),
            dec(indices[i] as nat),
        );
    }
}

} // verus!
