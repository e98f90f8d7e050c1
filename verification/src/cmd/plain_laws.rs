//! What holds of everything that the plain forms print.

use crate::cli_entry::{UrlKind, clock};
use crate::cmd::disc_info::{
    plain_audio_line, plain_audios, plain_block, plain_blocks, plain_format, plain_group,
    plain_heading, plain_lang, plain_language, plain_rows, plain_subtitle_line, plain_subtitles,
    plain_title_row, plain_titles, plain_video_parts, plain_videos,
};
use crate::cmd::info::{PlainPath, plain_audio_tags, plain_file, plain_path, plain_stream};
use crate::disc::{
    AudioStream, Disc, DiscFormat, HdrKind, LabelPurpose, Stream, SubtitleStream, Title, VideoStream,
};
use crate::disc_info::{DriveFacts, listed_codec, pid_text, subtitle_tags, volume_title};
use crate::listing_laws::{is_listed, left_column, right_column};
use crate::reading::{
    ends_with, law_joined_has_each_part, law_padded_number_reads_back, law_padding_keeps_the_text,
    lemma_has_either, lemma_has_part, lemma_starts, starts_with,
};
use crate::strings::{filled, text_of};
use crate::text::{
    CharClass, all_digits, dec, has_text, joined, pad_end, pad_start, trimmed, value_of,
};
use vstd::prelude::*;
use vstd::string::*;

verus! {

/// The columns of a row: the number, the playlist, the hours, the minutes and the
/// size.
pub struct PlainColumns {
    pub number: Seq<char>,
    pub playlist: Seq<char>,
    pub hours: Seq<char>,
    pub minutes: Seq<char>,
    pub size: Seq<char>,
}

/// What the columns show of a title.
pub open spec fn shows_plainly(
    k: PlainColumns,
    t: Title,
    size: Seq<char>,
    index: nat,
    h: nat,
    m: nat,
) -> bool {
    &&& right_column(k.number, dec(index + 1), 2)
    &&& left_column(k.playlist, t.playlist@, 14)
    &&& k.hours == dec(h)
    &&& all_digits(k.minutes) && k.minutes.len() >= 2 && value_of(k.minutes) == m
    &&& m < 60
    &&& h * 3600 + m * 60 <= t.duration_secs < h * 3600 + m * 60 + 60
    &&& right_column(k.size, size, 5)
}

/// Law: the row of a title reads back: it has the title's number, counted from
/// one, its playlist, the hours and minutes of its duration, its size and how many
/// clips it is made of.
pub proof fn law_plain_row_reads_back(
    c: Seq<(Seq<char>, Seq<char>)>,
    t: Title,
    size: Seq<char>,
    index: nat,
)
    ensures
        exists|k: PlainColumns, h: nat, m: nat|
            plain_title_row(c, t, size, index) == "  "@ + k.number + ". "@ + k.playlist + "  "@
                + k.hours + "h "@ + k.minutes + "m  "@ + k.size + " GB  "@ + dec(t.clips@.len())
                + " "@ + text_of(
                c,
                if t.clips@.len() == 1 {
                    "disc.clip"@
                } else {
                    "disc.clips"@
                },
            ) && #[trigger] shows_plainly(k, t, size, index, h, m),
{
    let d = t.duration_secs as nat;
    let h = d / 3600;
    let m = d % 3600 / 60;
    let k = PlainColumns {
        number: pad_start(dec(index + 1), 2, ' '),
        playlist: pad_end(t.playlist@, 14, ' '),
        hours: dec(h),
        minutes: pad_start(dec(m), 2, '0'),
        size: pad_start(size, 5, ' '),
    };
    law_padding_keeps_the_text(dec(index + 1), 2, ' ');
    law_padding_keeps_the_text(t.playlist@, 14, ' ');
    law_padding_keeps_the_text(size, 5, ' ');
    law_padded_number_reads_back(m, 2);
    assert(shows_plainly(k, t, size, index, h, m));
}

/// Law: the list has the row of each title, or of the first five where not all are
/// wanted, each with its own number and size; where some are left out it says how
/// many.
pub proof fn law_plain_list_has_every_title(
    c: Seq<(Seq<char>, Seq<char>)>,
    disc: Disc,
    sizes: Seq<Seq<char>>,
    full: bool,
    verbose: bool,
    basic: bool,
    i: int,
)
    ensures
        ({
            let titles = disc.titles@;
            let list = plain_titles(c, disc, sizes, full, verbose, basic);
            &&& is_listed(i, titles.len(), full) ==> list.contains(
                plain_title_row(c, titles[i], sizes[i], i as nat),
            )
            &&& is_listed(i, titles.len(), full) && basic ==> list[i + 2] == plain_title_row(
                c,
                titles[i],
                sizes[i],
                i as nat,
            )
            &&& titles.len() == 0 ==> list == seq![text_of(c, "disc.no_titles"@)]
            &&& !full && titles.len() > 5 ==> list.contains(
                filled(
                    text_of(c, "disc.more_titles"@),
                    seq![("count"@, dec((titles.len() - 5) as nat))],
                ),
            )
            &&& basic && (full || titles.len() <= 5) && titles.len() > 0 ==> list.len()
                == titles.len() + 2
        }),
{
    let titles = disc.titles@;
    let shown = if full || titles.len() <= 5 {
        titles.len()
    } else {
        5
    };
    let list = plain_titles(c, disc, sizes, full, verbose, basic);
    let blocks = plain_blocks(c, titles, sizes, verbose, basic, shown);
    if titles.len() > 0 {
        if basic {
            lemma_plain_len(c, titles, sizes, verbose, shown);
        }
        if is_listed(i, titles.len(), full) {
            let at = lemma_plain_at(c, titles, sizes, verbose, basic, shown, i);
            assert(list[at + 2] == blocks[at]);
        }
        if !full && titles.len() > 5 {
            let more = filled(
                text_of(c, "disc.more_titles"@),
                seq![("count"@, dec((titles.len() - 5) as nat))],
            );
            assert(list[list.len() - 2] == more);
        }
    }
}

proof fn lemma_plain_head(
    c: Seq<(Seq<char>, Seq<char>)>,
    t: Title,
    size: Seq<char>,
    index: nat,
    verbose: bool,
    basic: bool,
)
    ensures
        plain_block(c, t, size, index, verbose, basic).len() > 0,
        plain_block(c, t, size, index, verbose, basic)[0] == plain_title_row(c, t, size, index),
        basic ==> plain_block(c, t, size, index, verbose, basic).len() == 1,
{
}

proof fn lemma_plain_at(
    c: Seq<(Seq<char>, Seq<char>)>,
    titles: Seq<Title>,
    sizes: Seq<Seq<char>>,
    verbose: bool,
    basic: bool,
    n: nat,
    i: int,
) -> (j: int)
    requires
        0 <= i < n <= titles.len(),
    ensures
        0 <= j < plain_blocks(c, titles, sizes, verbose, basic, n).len(),
        plain_blocks(c, titles, sizes, verbose, basic, n)[j] == plain_title_row(
            c,
            titles[i],
            sizes[i],
            i as nat,
        ),
        basic ==> j == i,
    decreases n,
{
    let m = (n - 1) as nat;
    let before = plain_blocks(c, titles, sizes, verbose, basic, m);
    let own = plain_block(c, titles[n - 1], sizes[n - 1], m, verbose, basic);
    let all = plain_blocks(c, titles, sizes, verbose, basic, n);
    assert(all == before + own);
    lemma_plain_head(c, titles[n - 1], sizes[n - 1], m, verbose, basic);
    if i < m {
        let j = lemma_plain_at(c, titles, sizes, verbose, basic, m, i);
        assert(all[j] == before[j]);
        j
    } else {
        assert(all[before.len() as int] == own[0]);
        if basic {
            lemma_plain_len(c, titles, sizes, verbose, m);
        }
        before.len() as int
    }
}

proof fn lemma_plain_len(
    c: Seq<(Seq<char>, Seq<char>)>,
    titles: Seq<Title>,
    sizes: Seq<Seq<char>>,
    verbose: bool,
    n: nat,
)
    ensures
        plain_blocks(c, titles, sizes, verbose, true, n).len() == n,
    decreases n,
{
    if n > 0 {
        lemma_plain_len(c, titles, sizes, verbose, (n - 1) as nat);
        lemma_plain_head(c, titles[n - 1], sizes[n - 1], (n - 1) as nat, verbose, true);
    }
}

/// What is printed of a stream.
pub open spec fn plain_text(c: Seq<(Seq<char>, Seq<char>)>, s: Stream, verbose: bool) -> Seq<char> {
    match s {
        Stream::Video(v) => joined(plain_video_parts(v, verbose), " "@),
        Stream::Audio(a) => plain_audio_line(c, a, verbose),
        Stream::Subtitle(t) => plain_subtitle_line(c, t),
    }
}

/// Law: every stream of a title has a line of its own in what is printed of the
/// title, unless only rows are wanted; then there is nothing but the row.
pub proof fn law_plain_list_has_every_stream(
    c: Seq<(Seq<char>, Seq<char>)>,
    t: Title,
    size: Seq<char>,
    index: nat,
    verbose: bool,
    i: int,
)
    requires
        0 <= i < t.streams@.len(),
    ensures
        exists|j: int|
            0 <= j < plain_block(c, t, size, index, verbose, false).len() && ends_with(
                #[trigger] plain_block(c, t, size, index, verbose, false)[j],
                plain_text(c, t.streams@[i], verbose),
            ),
        plain_block(c, t, size, index, verbose, true) == seq![plain_title_row(c, t, size, index)],
{
    let n = t.streams@.len();
    let s = t.streams@;
    let text = plain_text(c, s[i], verbose);
    let row = seq![plain_title_row(c, t, size, index)];
    let vl = "      "@ + text_of(c, "disc.video"@) + ":     "@;
    let al = "      "@ + text_of(c, "disc.audio"@) + ":     "@;
    let ul = "      "@ + text_of(c, "disc.subtitle"@) + ":  "@;
    let v = plain_group(vl, plain_videos(s, verbose, n));
    let a = plain_group(al, plain_audios(c, s, verbose, n));
    let u = plain_group(ul, plain_subtitles(c, s, n));
    let block = plain_block(c, t, size, index, verbose, false);
    assert(block =~= row + v + a + u + seq![Seq::<char>::empty()]);
    lemma_plain_stream_in(c, s, verbose, n, i);
    match s[i] {
        Stream::Video(_) => {
            let j = lemma_plain_grouped(vl, plain_videos(s, verbose, n), text);
            assert(block[1 + j] == v[j]);
        },
        Stream::Audio(_) => {
            let j = lemma_plain_grouped(al, plain_audios(c, s, verbose, n), text);
            assert(block[1 + v.len() + j] == a[j]);
        },
        Stream::Subtitle(_) => {
            let j = lemma_plain_grouped(ul, plain_subtitles(c, s, n), text);
            assert(block[1 + v.len() + a.len() + j] == u[j]);
        },
    }
}

proof fn lemma_plain_stream_in(
    c: Seq<(Seq<char>, Seq<char>)>,
    s: Seq<Stream>,
    verbose: bool,
    n: nat,
    i: int,
)
    requires
        0 <= i < n <= s.len(),
    ensures
        match s[i] {
            Stream::Video(_) => plain_videos(s, verbose, n).contains(plain_text(c, s[i], verbose)),
            Stream::Audio(_) => plain_audios(c, s, verbose, n).contains(
                plain_text(c, s[i], verbose),
            ),
            Stream::Subtitle(_) => plain_subtitles(c, s, n).contains(plain_text(c, s[i], verbose)),
        },
    decreases n,
{
    let m = (n - 1) as nat;
    let text = plain_text(c, s[i], verbose);
    if i < m {
        lemma_plain_stream_in(c, s, verbose, m, i);
        match s[i] {
            Stream::Video(_) => {
                let b = plain_videos(s, verbose, m);
                let j = b.index_of(text);
                assert(plain_videos(s, verbose, n)[j] == b[j]);
            },
            Stream::Audio(_) => {
                let b = plain_audios(c, s, verbose, m);
                let j = b.index_of(text);
                assert(plain_audios(c, s, verbose, n)[j] == b[j]);
            },
            Stream::Subtitle(_) => {
                let b = plain_subtitles(c, s, m);
                let j = b.index_of(text);
                assert(plain_subtitles(c, s, n)[j] == b[j]);
            },
        }
    } else {
        match s[i] {
            Stream::Video(_) => {
                assert(plain_videos(s, verbose, n).last() == text);
            },
            Stream::Audio(_) => {
                assert(plain_audios(c, s, verbose, n).last() == text);
            },
            Stream::Subtitle(_) => {
                assert(plain_subtitles(c, s, n).last() == text);
            },
        }
    }
}

proof fn lemma_plain_grouped(lead: Seq<char>, rows: Seq<Seq<char>>, text: Seq<char>) -> (j: int)
    requires
        rows.contains(text),
    ensures
        0 <= j < plain_group(lead, rows).len(),
        ends_with(plain_group(lead, rows)[j], text),
{
    let k = rows.index_of(text);
    let g = plain_group(lead, rows);
    assert(g[k + 1] == plain_rows(lead, rows)[k]);
    lemma_starts(lead, text);
    lemma_starts("                 "@, text);
    k + 1
}

/// Law: the line of a video stream has its codec and resolution first, and
/// whatever else is known of it behind them.
pub proof fn law_plain_video_says_all(v: VideoStream, verbose: bool)
    ensures
        ({
            let l = joined(plain_video_parts(v, verbose), " "@);
            &&& starts_with(l, listed_codec(v.codec) + " "@ + v.resolution@)
            &&& v.frame_rate_known ==> has_text(l, v.frame_rate@ + "fps"@)
            &&& v.hdr != HdrKind::Sdr ==> has_text(l, v.hdr_name@)
            &&& v.bt2020 ==> has_text(l, "BT.2020"@)
            &&& v.secondary && v.label@.len() > 0 ==> has_text(l, v.label@)
            &&& verbose ==> ends_with(l, pid_text(v.pid))
        }),
{
    let parts = plain_video_parts(v, verbose);
    let l = joined(parts, " "@);
    assert forall|i: int| 0 <= i < parts.len() implies has_text(l, #[trigger] parts[i]) by {
        law_joined_has_each_part(parts, " "@, i);
    }
    let k1: int = 2;
    let k2: int = if v.frame_rate_known {
        3
    } else {
        2
    };
    let k3: int = if v.hdr != HdrKind::Sdr {
        k2 + 1
    } else {
        k2
    };
    let k4: int = if v.bt2020 {
        k3 + 1
    } else {
        k3
    };
    assert(v.frame_rate_known ==> parts[k1] == v.frame_rate@ + "fps"@);
    assert(v.hdr != HdrKind::Sdr ==> parts[k2] == v.hdr_name@);
    assert(v.bt2020 ==> parts[k3] == "BT.2020"@);
    assert(v.secondary && v.label@.len() > 0 ==> parts[k4] == v.label@);
    lemma_first_two(parts, " "@);
    assert(parts[0] == listed_codec(v.codec) && parts[1] == v.resolution@);
    if verbose {
        assert(parts.last() == pid_text(v.pid));
        lemma_starts(joined(parts.drop_last(), " "@) + " "@, parts.last());
    }
}

proof fn lemma_first_two(parts: Seq<Seq<char>>, sep: Seq<char>)
    requires
        parts.len() >= 2,
    ensures
        starts_with(joined(parts, sep), parts[0] + sep + parts[1]),
    decreases parts.len(),
{
    reveal_with_fuel(joined, 3);
    let l = joined(parts, sep);
    if parts.len() == 2 {
        assert(parts.drop_last()[0] == parts[0]);
        assert(l =~= parts[0] + sep + parts[1]);
        lemma_starts(parts[0] + sep + parts[1], Seq::empty());
        assert(parts[0] + sep + parts[1] + Seq::<char>::empty() =~= l);
    } else {
        let p = parts.drop_last();
        lemma_first_two(p, sep);
        let head = parts[0] + sep + parts[1];
        let rest = joined(p, sep).skip(head.len() as int) + sep + parts.last();
        assert(joined(p, sep) =~= head + joined(p, sep).skip(head.len() as int));
        assert(l =~= head + rest);
        lemma_starts(head, rest);
    }
}

/// Law: the line of an audio stream has its language, its codec and its channels,
/// what it is identified by where more is wanted, and every remark in brackets.
pub proof fn law_plain_audio_says_all(
    c: Seq<(Seq<char>, Seq<char>)>,
    a: AudioStream,
    verbose: bool,
)
    ensures
        ({
            let l = plain_audio_line(c, a, verbose);
            let head = plain_lang(a.language@) + " "@ + listed_codec(a.codec) + " "@ + a.channels@;
            &&& starts_with(l, head)
            &&& verbose ==> starts_with(l, head + " "@ + a.sample_rate@ + " "@ + pid_text(a.pid))
            &&& a.secondary ==> has_text(l, text_of(c, "stream.secondary"@))
            &&& a.label@.len() > 0 ==> has_text(l, a.label@)
            &&& !verbose && !a.secondary && a.label@.len() == 0 && a.purpose == LabelPurpose::Normal
                ==> l == head
        }),
{
    let e = Seq::<char>::empty();
    let head = plain_lang(a.language@) + " "@ + listed_codec(a.codec) + " "@ + a.channels@;
    let more = " "@ + a.sample_rate@ + " "@ + pid_text(a.pid);
    let s1 = if verbose {
        head + " "@ + a.sample_rate@ + " "@ + pid_text(a.pid)
    } else {
        head
    };
    assert(head + more =~= head + " "@ + a.sample_rate@ + " "@ + pid_text(a.pid));
    let tags = plain_audio_tags(c, a);
    let t = joined(tags, ", "@);
    let tail = if tags.len() > 0 {
        " ("@ + t + ")"@
    } else {
        e
    };
    let l = plain_audio_line(c, a, verbose);
    assert(l =~= s1 + tail);
    lemma_starts(s1, tail);
    if verbose {
        lemma_starts(head, more + tail);
        assert(head + (more + tail) =~= s1 + tail);
    }
    assert forall|i: int| 0 <= i < tags.len() implies has_text(l, #[trigger] tags[i]) by {
        law_joined_has_each_part(tags, ", "@, i);
        lemma_has_either(" ("@, t, tags[i]);
        lemma_has_either(" ("@ + t, ")"@, tags[i]);
        lemma_has_either(s1, tail, tags[i]);
    }
    if a.label@.len() > 0 {
        assert(tags[tags.len() - 1] == a.label@);
    }
    if a.secondary {
        let k: int = if a.purpose != LabelPurpose::Normal {
            1
        } else {
            0
        };
        assert(tags[k] == text_of(c, "stream.secondary"@));
    }
}

/// Law: the line of a subtitle stream starts with its language and says where it
/// is forced.
pub proof fn law_plain_subtitle_says_all(c: Seq<(Seq<char>, Seq<char>)>, s: SubtitleStream)
    ensures
        starts_with(plain_subtitle_line(c, s), plain_lang(s.language@)),
        s.forced ==> has_text(plain_subtitle_line(c, s), text_of(c, "disc.forced"@)),
        subtitle_tags(c, s).len() == 0 ==> plain_subtitle_line(c, s) == plain_lang(s.language@),
{
    let head = plain_lang(s.language@);
    let tags = subtitle_tags(c, s);
    if tags.len() > 0 {
        let t = joined(tags, ", "@);
        lemma_starts(head, " ("@ + t + ")"@);
        assert(head + (" ("@ + t + ")"@) =~= plain_subtitle_line(c, s));
        if s.forced {
            assert(tags[0] == text_of(c, "disc.forced"@));
            law_joined_has_each_part(tags, ", "@, 0);
            lemma_has_either(head + " ("@, t, tags[0]);
            lemma_has_either(head + " ("@ + t, ")"@, tags[0]);
        }
    } else {
        lemma_starts(head, Seq::empty());
        assert(head + Seq::<char>::empty() =~= head);
    }
}

/// Law: a language is shown by the name that a table has for it, the longer codes
/// before the shorter; by its code where no table knows it; and as a question mark
/// where there is no code.
pub proof fn law_plain_language_is_named(
    code: Seq<char>,
    by_three: Option<Seq<char>>,
    by_two: Option<Seq<char>>,
)
    ensures
        code.len() == 0 ==> plain_language(code, by_three, by_two) == "?"@,
        code.len() > 0 && by_three is Some ==> plain_language(code, by_three, by_two)
            == by_three->0,
        code.len() > 0 && by_three is None && by_two is Some ==> plain_language(
            code,
            by_three,
            by_two,
        ) == by_two->0,
        code.len() > 0 && by_three is None && by_two is None ==> plain_language(
            code,
            by_three,
            by_two,
        ) == code,
{
}

/// Law: what is printed before the titles names the disc, by its title before its
/// label, its format, its layers and its capacity, and that it is encrypted where
/// it is, with CSS apart from AACS; where more is wanted, its keys and the drive
/// follow, each under its label.
#[verifier::rlimit(60)]
pub proof fn law_plain_heading_says_what_the_disc_is(
    c: Seq<(Seq<char>, Seq<char>)>,
    disc: Disc,
    capacity: Seq<char>,
    key_source: Seq<char>,
    drive: DriveFacts,
    verbose: bool,
)
    ensures
        ({
            let l = plain_heading(c, disc, capacity, key_source, drive, verbose);
            let format = text_of(c, "disc.format"@) + ": "@ + plain_format(disc.format) + " ("@ + dec(
                disc.layers as nat,
            ) + "L, "@ + capacity + " GB)"@;
            let named: int = if disc.meta_title is Some || disc.volume_id@.len() > 0 {
                1
            } else {
                0
            };
            &&& disc.meta_title matches Some(t) ==> ends_with(l[0], ": "@ + t@)
            &&& disc.meta_title is None && disc.volume_id@.len() > 0 ==> ends_with(
                l[0],
                ": "@ + volume_title(disc.volume_id@),
            )
            &&& l[named] == format
            &&& disc.encrypted && disc.css ==> l[named + 1] == text_of(c, "disc.css_encrypted"@)
            &&& disc.encrypted && !disc.css ==> l[named + 1] == text_of(c, "disc.aacs_encrypted"@)
            &&& !verbose ==> l.len() == named + (if disc.encrypted {
                2int
            } else {
                1
            })
            &&& verbose ==> l.last() == "Device: "@ + drive.device@ && l[l.len() - 2] == "Drive: "@
                + trimmed(drive.vendor@, CharClass::White) + " "@ + trimmed(
                drive.product@,
                CharClass::White,
            ) + " "@ + trimmed(drive.revision@, CharClass::White)
            &&& disc.aacs matches Some(a) ==> (verbose ==> l[l.len() - 3] == "Keys: "@ + key_source
                + " ("@ + dec(a.unit_keys@.len()) + " unit keys)"@ && l[l.len() - 4]
                == "Disc hash: "@ + a.disc_hash@ && starts_with(
                l[l.len() - 5],
                "AACS "@ + dec(a.version as nat) + "."@,
            ))
        }),
{
    let t0 = text_of(c, "disc.disc"@);
    match disc.meta_title {
        Some(t) => {
            lemma_starts(t0, ": "@ + t@);
            assert(t0 + (": "@ + t@) =~= t0 + ": "@ + t@);
        },
        None => {
            let v = volume_title(disc.volume_id@);
            lemma_starts(t0, ": "@ + v);
            assert(t0 + (": "@ + v) =~= t0 + ": "@ + v);
        },
    }
    if let Some(a) = disc.aacs {
        reveal_strlit(".0, MKB v");
        reveal_strlit(".");
        let g = "AACS "@ + dec(a.version as nat);
        let m = dec(
            match a.mkb_version {
                Some(v) => v as nat,
                None => 0,
            },
        );
        let rest = ".0, MKB v"@.skip(1) + m;
        lemma_starts(g + "."@, rest);
        assert(g + "."@ + rest =~= g + ".0, MKB v"@ + m);
    }
}

/// Law: what a file is said to be is its path, its length where it is known, how
/// many streams it has, and each of them, in their order.
pub proof fn law_plain_file_is_listed_whole(
    c: Seq<(Seq<char>, Seq<char>)>,
    path: Seq<char>,
    duration: Option<u64>,
    streams: Seq<Stream>,
    i: int,
)
    ensures
        ({
            let l = plain_file(c, path, duration, streams);
            let head: int = if duration is Some {
                3
            } else {
                2
            };
            &&& l.len() == head + streams.len()
            &&& l[0] == "File: "@ + path
            &&& duration matches Some(d) ==> l[1] == "Duration: "@ + clock(d as nat)
            &&& l[head - 1] == "Streams: "@ + dec(streams.len())
            &&& 0 <= i < streams.len() ==> l[head + i] == plain_stream(c, streams[i])
        }),
{
}

/// Law: the line of a stream of a file names its codec, then its resolution, its
/// channels and language, or its language, with its label behind that.
pub proof fn law_plain_stream_says_what_it_is(c: Seq<(Seq<char>, Seq<char>)>, s: Stream)
    ensures
        ({
            let l = plain_stream(c, s);
            match s {
                Stream::Video(v) => starts_with(l, "  "@ + v.codec.name@ + " "@ + v.resolution@) && (
                v.label@.len() > 0 ==> ends_with(l, " — "@ + v.label@)),
                Stream::Audio(a) => starts_with(
                    l,
                    "  "@ + a.codec.name@ + " "@ + a.channels@ + " "@ + a.language@,
                ) && (a.label@.len() > 0 ==> has_text(l, a.label@)) && (a.secondary ==> has_text(
                    l,
                    text_of(c, "stream.secondary"@),
                )),
                Stream::Subtitle(u) => l == "  "@ + u.codec.name@ + " "@ + u.language@,
            }
        }),
{
    let e = Seq::<char>::empty();
    match s {
        Stream::Video(v) => {
            let head = "  "@ + v.codec.name@ + " "@ + v.resolution@;
            lemma_starts(head, e);
            assert(head + e =~= head);
            lemma_starts(head, " — "@ + v.label@);
            assert(head + (" — "@ + v.label@) =~= head + " — "@ + v.label@);
        },
        Stream::Audio(a) => {
            let head = "  "@ + a.codec.name@ + " "@ + a.channels@ + " "@ + a.language@;
            let tags = plain_audio_tags(c, a);
            let t = joined(tags, ", "@);
            lemma_starts(head, e);
            assert(head + e =~= head);
            lemma_starts(head, " — "@ + t);
            assert(head + (" — "@ + t) =~= head + " — "@ + t);
            if tags.len() > 0 {
                assert forall|i: int| 0 <= i < tags.len() implies has_text(
                    plain_stream(c, s),
                    #[trigger] tags[i],
                ) by {
                    law_joined_has_each_part(tags, ", "@, i);
                    lemma_has_either(head + " — "@, t, tags[i]);
                }
                if a.label@.len() > 0 {
                    assert(tags[tags.len() - 1] == a.label@);
                }
                if a.secondary {
                    let k: int = if a.purpose != LabelPurpose::Normal {
                        1
                    } else {
                        0
                    };
                    assert(tags[k] == text_of(c, "stream.secondary"@));
                }
            }
        },
        Stream::Subtitle(_) => {},
    }
}

/// Law: the plain form goes by what its first argument names: a drive is read with
/// its device as the first flag and the other arguments behind it; a file is
/// listed; and the rest is refused by name.
pub proof fn law_plain_form_goes_by_what_is_named(args: Seq<Seq<char>>, kind: UrlKind)
    requires
        args.len() > 0,
    ensures
        ({
            let p = plain_path(args, kind);
            match kind {
                UrlKind::Disc(d) => {
                    &&& d matches Some(dev) ==> (p matches PlainPath::Drive { args: a, .. } && a
                        == seq!["-d"@, dev@] + args.skip(1))
                    &&& d is None ==> (p matches PlainPath::Drive { args: a, .. } && a == args.skip(
                        1,
                    ))
                },
                UrlKind::M2ts | UrlKind::Mkv | UrlKind::Iso => p is File,
                _ => p matches PlainPath::Refuse(why) && has_text(why, args[0]),
            }
        }),
{
    let e = Seq::<char>::empty();
    match kind {
        UrlKind::Disc(d) => {
            assert(Seq::<Seq<char>>::empty() + args.skip(1) =~= args.skip(1));
        },
        UrlKind::Unknown => {
            lemma_has_part(
                "'"@,
                args[0],
                "' is not a valid URL — use scheme://path (e.g. disc://, mkv://movie.mkv)"@,
            );
        },
        _ => {
            lemma_has_part("Cannot get info for "@, args[0], e);
            assert("Cannot get info for "@ + args[0] + e =~= "Cannot get info for "@ + args[0]);
        },
    }
}

/// What the plain form calls each format.
pub open spec fn plain_formats() -> Seq<(DiscFormat, Seq<char>)> {
    seq![
        (DiscFormat::Uhd, "4K UHD"@),
        (DiscFormat::Fmts, "4K UHD"@),
        (DiscFormat::HdDvd, "HD-DVD"@),
        (DiscFormat::Dvd, "DVD"@),
        (DiscFormat::BluRay, "Blu-ray"@),
        (DiscFormat::Unknown, "Blu-ray"@),
    ]
}

/// Law: every format is called by its own name, and one that is not known is taken for
/// a Blu-ray.
pub proof fn law_plain_format_is_named(i: int)
    requires
        0 <= i < plain_formats().len(),
    ensures
        plain_format(plain_formats()[i].0) == plain_formats()[i].1,
{
}

} // verus!
