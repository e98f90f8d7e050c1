//! What holds of every listing of a disc: what it shows reads back as what the
//! disc holds, and nothing of the disc is left out.

use crate::disc::{
    AacsState, AudioStream, BdRegion, Codec, CodecKind, Disc, DiscFormat, DiscRegion, HdrKind,
    KeyOrigin, LabelPurpose, LabelQualifier, Stream, SubtitleStream, Title, VideoStream,
    any_nonzero,
};
use crate::disc_info::{
    DriveFacts, InfoAnswer, InfoRequest, aacs_block, audio_line, audio_lines, audio_tags, bd_letter,
    common_indent, detail_block, disc_summary, encryption_text, firmware_field, group_lines,
    group_rows, hex_of, info_from, keyless_listing, lang_shown, listed_codec, no_flags, origin_text,
    pid_text, prefix_for, purpose_word, qualifier_word, region_text, shown_language, subtitle_line,
    subtitle_lines, subtitle_tags, title_block, title_blocks, title_list, title_row, unit_key_lines,
    unlocker_texts, video_lines, video_parts, volume_title,
};
use crate::reading::{
    between, ends_with, hex_value, law_byte_reads_back, law_joined_has_each_part,
    law_joining_keeps_the_parts, law_number_reads_back, law_padded_number_reads_back,
    law_padding_keeps_the_text, law_word_reads_back, lemma_between, lemma_has_either,
    lemma_has_part, lemma_starts, starts_with,
};
use crate::strings::{filled, sanitized, text_of};
use crate::text::{
    all_digits, dec, has_text, hex2, hex4_upper, is_digit, joined, pad_end, pad_start, run_of,
    value_of,
};
use vstd::prelude::*;
use vstd::string::*;

verus! {

/// A column that holds a text at its right end: at least `w` wide, and filled up
/// with spaces before the text.
pub open spec fn right_column(col: Seq<char>, text: Seq<char>, w: nat) -> bool {
    &&& ends_with(col, text)
    &&& col.len() == (if text.len() < w {
        w
    } else {
        text.len()
    })
    &&& forall|i: int| 0 <= i < col.len() - text.len() ==> #[trigger] col[i] == ' '
}

/// A column that holds a text at its left end: at least `w` wide, and filled up
/// with spaces behind the text.
pub open spec fn left_column(col: Seq<char>, text: Seq<char>, w: nat) -> bool {
    &&& starts_with(col, text)
    &&& col.len() == (if text.len() < w {
        w
    } else {
        text.len()
    })
    &&& forall|i: int| text.len() <= i < col.len() ==> #[trigger] col[i] == ' '
}

/// The columns of the row of a title.
pub struct TitleColumns {
    pub number: Seq<char>,
    pub playlist: Seq<char>,
    pub hours: Seq<char>,
    pub minutes: Seq<char>,
    pub size: Seq<char>,
    pub clips: Seq<char>,
    pub word: Seq<char>,
}

/// A row with these columns.
pub open spec fn row_of_columns(k: TitleColumns) -> Seq<char> {
    "  "@ + k.number + ". "@ + k.playlist + "  "@ + k.hours + "h "@ + k.minutes + "m  "@ + k.size
        + " GB  "@ + k.clips + " "@ + k.word
}

/// What the columns of a title's row show: its number, counted from one, its
/// playlist, how long it is in hours and minutes, its size and of how many clips
/// it is made.
pub open spec fn shows_title(
    k: TitleColumns,
    c: Seq<(Seq<char>, Seq<char>)>,
    t: Title,
    index: nat,
    h: nat,
    m: nat,
) -> bool {
    &&& right_column(k.number, dec(index + 1), 2)
    &&& left_column(k.playlist, sanitized(t.playlist@), 14)
    &&& right_column(k.hours, dec(h), 2)
    &&& all_digits(k.minutes) && k.minutes.len() == 2 && value_of(k.minutes) == m
    &&& m < 60
    &&& h * 3600 + m * 60 <= t.duration_secs < h * 3600 + m * 60 + 60
    &&& right_column(k.size, t.size_gb@, 5)
    &&& k.clips == dec(t.clips@.len())
    &&& t.clips@.len() == 1 ==> k.word == text_of(c, "disc.clip"@)
    &&& t.clips@.len() != 1 ==> k.word == text_of(c, "disc.clips"@)
}

/// Law: the row of a title reads back: it has the title's number, playlist, size
/// and clips, and the hours and minutes that it shows are those of its duration.
#[verifier::rlimit(60)]
pub proof fn law_title_row_reads_back(c: Seq<(Seq<char>, Seq<char>)>, t: Title, index: nat)
    ensures
        exists|k: TitleColumns, h: nat, m: nat|
            title_row(c, t, index) == row_of_columns(k) && #[trigger] shows_title(
                k,
                c,
                t,
                index,
                h,
                m,
            ),
{
    let d = t.duration_secs as nat;
    let h = d / 3600;
    let m = d % 3600 / 60;
    let k = TitleColumns {
        number: pad_start(dec(index + 1), 2, ' '),
        playlist: pad_end(sanitized(t.playlist@), 14, ' '),
        hours: pad_start(dec(h), 2, ' '),
        minutes: pad_start(dec(m), 2, '0'),
        size: pad_start(t.size_gb@, 5, ' '),
        clips: dec(t.clips@.len()),
        word: text_of(
            c,
            if t.clips@.len() == 1 {
                "disc.clip"@
            } else {
                "disc.clips"@
            },
        ),
    };
    law_padding_keeps_the_text(dec(index + 1), 2, ' ');
    law_padding_keeps_the_text(sanitized(t.playlist@), 14, ' ');
    law_padding_keeps_the_text(dec(h), 2, ' ');
    law_padding_keeps_the_text(dec(m), 2, '0');
    law_padding_keeps_the_text(t.size_gb@, 5, ' ');
    law_padded_number_reads_back(m, 2);
    lemma_two_digits(m);
    assert(title_row(c, t, index) =~= row_of_columns(k));
    assert(shows_title(k, c, t, index, h, m));
}

proof fn lemma_two_digits(m: nat)
    requires
        m < 100,
    ensures
        dec(m).len() <= 2,
{
    reveal_with_fuel(dec, 3);
}

/// How many titles are listed: all where all are wanted, and otherwise at most
/// five.
pub open spec fn is_listed(i: int, count: nat, full: bool) -> bool {
    0 <= i < count && (full || i < 5)
}

/// Law: the listing of a disc has the row of each of its titles, or of the first
/// five where not all are wanted, each with its own number and in order; where
/// some are left out it says how many. Only a disc without titles is listed
/// without one.
pub proof fn law_every_title_is_listed(
    c: Seq<(Seq<char>, Seq<char>)>,
    titles: Seq<Title>,
    full: bool,
    verbose: bool,
    basic: bool,
    i: int,
)
    ensures
        is_listed(i, titles.len(), full) ==> title_list(c, titles, full, verbose, basic).contains(
            title_row(c, titles[i], i as nat),
        ),
        is_listed(i, titles.len(), full) && basic ==> title_list(
            c,
            titles,
            full,
            verbose,
            basic,
        )[i + 2] == title_row(c, titles[i], i as nat),
        titles.len() == 0 ==> title_list(c, titles, full, verbose, basic) == seq![
            text_of(c, "disc.no_titles"@),
        ],
        !full && titles.len() > 5 ==> title_list(c, titles, full, verbose, basic).contains(
            filled(
                text_of(c, "disc.more_titles"@),
                seq![("count"@, dec((titles.len() - 5) as nat))],
            ),
        ),
        basic && (full || titles.len() <= 5) && titles.len() > 0 ==> title_list(
            c,
            titles,
            full,
            verbose,
            basic,
        ).len() == titles.len() + 2,
{
    let shown = if full || titles.len() <= 5 {
        titles.len()
    } else {
        5
    };
    let list = title_list(c, titles, full, verbose, basic);
    let head = seq![text_of(c, "disc.titles"@), Seq::<char>::empty()];
    let blocks = title_blocks(c, titles, verbose, basic, shown);
    if titles.len() > 0 {
        if basic {
            lemma_basic_len(c, titles, verbose, shown);
        }
        if is_listed(i, titles.len(), full) {
            let at = lemma_block_at(c, titles, verbose, basic, shown, i);
            assert(list[at + 2] == blocks[at]);
        }
        if !full && titles.len() > 5 {
            let more = filled(
                text_of(c, "disc.more_titles"@),
                seq![("count"@, dec((titles.len() - 5) as nat))],
            );
            assert(list[list.len() - 2] == more);
        }
    }
}

proof fn lemma_block_head(
    c: Seq<(Seq<char>, Seq<char>)>,
    t: Title,
    index: nat,
    verbose: bool,
    basic: bool,
)
    ensures
        title_block(c, t, index, verbose, basic).len() > 0,
        title_block(c, t, index, verbose, basic)[0] == title_row(c, t, index),
        basic ==> title_block(c, t, index, verbose, basic).len() == 1,
{
}

proof fn lemma_block_at(
    c: Seq<(Seq<char>, Seq<char>)>,
    titles: Seq<Title>,
    verbose: bool,
    basic: bool,
    n: nat,
    i: int,
) -> (j: int)
    requires
        0 <= i < n <= titles.len(),
    ensures
        0 <= j < title_blocks(c, titles, verbose, basic, n).len(),
        title_blocks(c, titles, verbose, basic, n)[j] == title_row(c, titles[i], i as nat),
        basic ==> j == i,
    decreases n,
{
    let m = (n - 1) as nat;
    let before = title_blocks(c, titles, verbose, basic, m);
    let own = title_block(c, titles[n - 1], m, verbose, basic);
    let all = title_blocks(c, titles, verbose, basic, n);
    assert(all == before + own);
    lemma_block_head(c, titles[n - 1], m, verbose, basic);
    if i < m {
        let j = lemma_block_at(c, titles, verbose, basic, m, i);
        assert(all[j] == before[j]);
        j
    } else {
        assert(all[before.len() as int] == own[0]);
        if basic {
            lemma_basic_len(c, titles, verbose, m);
        }
        before.len() as int
    }
}

proof fn lemma_basic_len(
    c: Seq<(Seq<char>, Seq<char>)>,
    titles: Seq<Title>,
    verbose: bool,
    n: nat,
)
    ensures
        title_blocks(c, titles, verbose, true, n).len() == n,
    decreases n,
{
    if n > 0 {
        lemma_basic_len(c, titles, verbose, (n - 1) as nat);
        lemma_block_head(c, titles[n - 1], (n - 1) as nat, verbose, true);
    }
}

/// What is listed of a stream.
pub open spec fn stream_text(c: Seq<(Seq<char>, Seq<char>)>, s: Stream, verbose: bool) -> Seq<char> {
    match s {
        Stream::Video(v) => joined(video_parts(c, v, verbose), " "@),
        Stream::Audio(a) => audio_line(c, a, verbose),
        Stream::Subtitle(t) => subtitle_line(c, t, verbose),
    }
}

/// Law: every stream of a title has a line of its own in what is listed of the
/// title, unless only rows are wanted; then there is nothing but the row.
#[verifier::rlimit(60)]
pub proof fn law_every_stream_is_listed(
    c: Seq<(Seq<char>, Seq<char>)>,
    t: Title,
    index: nat,
    verbose: bool,
    i: int,
)
    requires
        0 <= i < t.streams@.len(),
    ensures
        exists|j: int|
            0 <= j < title_block(c, t, index, verbose, false).len() && ends_with(
                #[trigger] title_block(c, t, index, verbose, false)[j],
                stream_text(c, t.streams@[i], verbose),
            ),
        title_block(c, t, index, verbose, true) == seq![title_row(c, t, index)],
{
    let n = t.streams@.len();
    let indent = common_indent(c);
    let s = t.streams@[i];
    let text = stream_text(c, s, verbose);
    let row = seq![title_row(c, t, index)];
    let v = group_lines(text_of(c, "disc.video"@), indent, video_lines(c, t.streams@, verbose, n));
    let a = group_lines(text_of(c, "disc.audio"@), indent, audio_lines(c, t.streams@, verbose, n));
    let u = group_lines(
        text_of(c, "disc.subtitle"@),
        indent,
        subtitle_lines(c, t.streams@, verbose, n),
    );
    let block = title_block(c, t, index, verbose, false);
    assert(block =~= row + v + a + u + seq![Seq::<char>::empty()]);
    match s {
        Stream::Video(_) => {
            lemma_stream_in(c, t.streams@, verbose, n, i);
            let j = lemma_grouped(
                text_of(c, "disc.video"@),
                indent,
                video_lines(c, t.streams@, verbose, n),
                text,
            );
            assert(block[1 + j] == v[j]);
        },
        Stream::Audio(_) => {
            lemma_stream_in(c, t.streams@, verbose, n, i);
            let j = lemma_grouped(
                text_of(c, "disc.audio"@),
                indent,
                audio_lines(c, t.streams@, verbose, n),
                text,
            );
            assert(block[1 + v.len() + j] == a[j]);
        },
        Stream::Subtitle(_) => {
            lemma_stream_in(c, t.streams@, verbose, n, i);
            let j = lemma_grouped(
                text_of(c, "disc.subtitle"@),
                indent,
                subtitle_lines(c, t.streams@, verbose, n),
                text,
            );
            assert(block[1 + v.len() + a.len() + j] == u[j]);
        },
    }
}

proof fn lemma_grouped(label: Seq<char>, indent: nat, rows: Seq<Seq<char>>, text: Seq<char>) -> (j:
    int)
    requires
        rows.contains(text),
    ensures
        0 <= j < group_lines(label, indent, rows).len(),
        ends_with(group_lines(label, indent, rows)[j], text),
{
    let k = choose|k: int| 0 <= k < rows.len() && rows[k] == text;
    lemma_starts(prefix_for(label, indent), text);
    lemma_starts(run_of(' ', indent as int), text);
    assert(group_lines(label, indent, rows)[k + 1] == group_rows(label, indent, rows)[k]);
    k + 1
}

proof fn lemma_stream_in(
    c: Seq<(Seq<char>, Seq<char>)>,
    streams: Seq<Stream>,
    verbose: bool,
    n: nat,
    i: int,
)
    requires
        0 <= i < n <= streams.len(),
    ensures
        match streams[i] {
            Stream::Video(_) => video_lines(c, streams, verbose, n).contains(
                stream_text(c, streams[i], verbose),
            ),
            Stream::Audio(_) => audio_lines(c, streams, verbose, n).contains(
                stream_text(c, streams[i], verbose),
            ),
            Stream::Subtitle(_) => subtitle_lines(c, streams, verbose, n).contains(
                stream_text(c, streams[i], verbose),
            ),
        },
    decreases n,
{
    let m = (n - 1) as nat;
    let text = stream_text(c, streams[i], verbose);
    if i < m {
        lemma_stream_in(c, streams, verbose, m, i);
        match streams[i] {
            Stream::Video(_) => lemma_kept(
                video_lines(c, streams, verbose, m),
                video_lines(c, streams, verbose, n),
                text,
            ),
            Stream::Audio(_) => lemma_kept(
                audio_lines(c, streams, verbose, m),
                audio_lines(c, streams, verbose, n),
                text,
            ),
            Stream::Subtitle(_) => lemma_kept(
                subtitle_lines(c, streams, verbose, m),
                subtitle_lines(c, streams, verbose, n),
                text,
            ),
        }
    } else {
        match streams[i] {
            Stream::Video(_) => {
                let all = video_lines(c, streams, verbose, n);
                assert(all[all.len() - 1] == text);
            },
            Stream::Audio(_) => {
                let all = audio_lines(c, streams, verbose, n);
                assert(all[all.len() - 1] == text);
            },
            Stream::Subtitle(_) => {
                let all = subtitle_lines(c, streams, verbose, n);
                assert(all[all.len() - 1] == text);
            },
        }
    }
}

proof fn lemma_kept(before: Seq<Seq<char>>, all: Seq<Seq<char>>, text: Seq<char>)
    requires
        before.contains(text),
        before.len() <= all.len(),
        forall|j: int| 0 <= j < before.len() ==> #[trigger] all[j] == before[j],
    ensures
        all.contains(text),
{
    let j = choose|j: int| 0 <= j < before.len() && before[j] == text;
    assert(all[j] == before[j]);
}

/// What is joined with spaces starts with its first two parts.
proof fn lemma_first_two(parts: Seq<Seq<char>>)
    requires
        parts.len() >= 2,
    ensures
        starts_with(joined(parts, " "@), parts[0] + " "@ + parts[1]),
        parts.len() == 2 ==> joined(parts, " "@) == parts[0] + " "@ + parts[1],
{
    let two = parts.take(2);
    let head = parts[0] + " "@ + parts[1];
    assert(two.drop_last() =~= seq![parts[0]]);
    reveal_with_fuel(joined, 3);
    assert(joined(two, " "@) == head);
    if parts.len() > 2 {
        let rest = parts.skip(2);
        law_joining_keeps_the_parts(two, rest, " "@);
        assert(two + rest =~= parts);
        lemma_starts(head, " "@ + joined(rest, " "@));
        assert(head + (" "@ + joined(rest, " "@)) =~= joined(parts, " "@));
    } else {
        assert(parts =~= two);
        assert(head.take(head.len() as int) =~= head);
    }
}

/// Law: the line about a video stream starts with its codec and its resolution,
/// has its frame rate where that is known, its dynamic range unless that is the
/// usual one, its wide colours, and what a second video is for; and ends with
/// its identifier where that is wanted.
#[verifier::rlimit(60)]
pub proof fn law_video_line_says_all(c: Seq<(Seq<char>, Seq<char>)>, v: VideoStream, verbose: bool)
    ensures
        ({
            let line = joined(video_parts(c, v, verbose), " "@);
            &&& starts_with(line, listed_codec(v.codec) + " "@ + v.resolution@)
            &&& v.frame_rate_known ==> has_text(line, v.frame_rate@ + "fps"@)
            &&& v.hdr != HdrKind::Sdr ==> has_text(line, v.hdr_name@)
            &&& v.bt2020 ==> has_text(line, "BT.2020"@)
            &&& v.secondary && v.hdr == HdrKind::DolbyVision ==> has_text(
                line,
                text_of(c, "disc.dolby_vision_el"@),
            )
            &&& v.secondary && v.hdr != HdrKind::DolbyVision && v.label@.len() > 0 ==> has_text(
                line,
                sanitized(v.label@),
            )
            &&& verbose ==> ends_with(line, pid_text(v.pid))
            &&& !v.frame_rate_known && v.hdr == HdrKind::Sdr && !v.bt2020 && !v.secondary && !verbose
                ==> line == listed_codec(v.codec) + " "@ + v.resolution@
        }),
{
    let parts = video_parts(c, v, verbose);
    let line = joined(parts, " "@);
    assert(parts[0] == listed_codec(v.codec) && parts[1] == v.resolution@);
    lemma_first_two(parts);
    if v.frame_rate_known {
        assert(parts[2] == v.frame_rate@ + "fps"@);
        law_joined_has_each_part(parts, " "@, 2);
    }
    let j: int = if v.frame_rate_known {
        3
    } else {
        2
    };
    if v.hdr != HdrKind::Sdr {
        assert(parts[j] == v.hdr_name@);
        law_joined_has_each_part(parts, " "@, j);
    }
    let k: int = if v.hdr != HdrKind::Sdr {
        j + 1
    } else {
        j
    };
    if v.bt2020 {
        assert(parts[k] == "BT.2020"@);
        law_joined_has_each_part(parts, " "@, k);
    }
    let l: int = if v.bt2020 {
        k + 1
    } else {
        k
    };
    if v.secondary && v.hdr == HdrKind::DolbyVision {
        assert(parts[l] == text_of(c, "disc.dolby_vision_el"@));
        law_joined_has_each_part(parts, " "@, l);
    } else if v.secondary && v.label@.len() > 0 {
        assert(parts[l] == sanitized(v.label@));
        law_joined_has_each_part(parts, " "@, l);
    }
    if verbose {
        assert(parts.last() == pid_text(v.pid));
        lemma_starts(joined(parts.drop_last(), " "@) + " "@, pid_text(v.pid));
    }
}

/// Law: the line about an audio stream starts with its language, codec and
/// channels; a detailed one goes on with its sample rate and identifier; what it
/// is for, that it is secondary and its label stand in brackets at the end,
/// where there is any of them.
pub proof fn law_audio_line_says_all(c: Seq<(Seq<char>, Seq<char>)>, a: AudioStream, verbose: bool)
    ensures
        ({
            let line = audio_line(c, a, verbose);
            let head = lang_shown(a.language@) + " "@ + listed_codec(a.codec) + " "@ + a.channels@;
            &&& starts_with(line, head)
            &&& verbose ==> starts_with(
                line,
                head + " "@ + a.sample_rate@ + " "@ + pid_text(a.pid),
            )
            &&& a.purpose != LabelPurpose::Normal ==> has_text(
                line,
                text_of(c, purpose_word(a.purpose)->0),
            )
            &&& a.secondary ==> has_text(line, text_of(c, "stream.secondary"@))
            &&& a.label@.len() > 0 ==> has_text(line, sanitized(a.label@))
            &&& a.purpose == LabelPurpose::Normal && !a.secondary && a.label@.len() == 0 && !verbose
                ==> line == head
        }),
{
    let line = audio_line(c, a, verbose);
    let head = lang_shown(a.language@) + " "@ + listed_codec(a.codec) + " "@ + a.channels@;
    let more = head + " "@ + a.sample_rate@ + " "@ + pid_text(a.pid);
    let s1 = if verbose {
        more
    } else {
        head
    };
    let tags = audio_tags(c, a);
    let rest = line.skip(s1.len() as int);
    assert(line =~= s1 + rest);
    lemma_starts(s1, rest);
    lemma_starts(head, line.skip(head.len() as int));
    assert(line =~= head + line.skip(head.len() as int));
    if tags.len() > 0 {
        let j = joined(tags, ", "@);
        let pre = s1 + " ("@;
        assert(line =~= pre + j + ")"@);
        assert forall|i: int| 0 <= i < tags.len() implies has_text(line, #[trigger] tags[i]) by {
            law_joined_has_each_part(tags, ", "@, i);
            lemma_has_either(pre, j, tags[i]);
            lemma_has_either(pre + j, ")"@, tags[i]);
        }
        if a.purpose != LabelPurpose::Normal {
            assert(tags[0] == text_of(c, purpose_word(a.purpose)->0));
        }
        if a.secondary {
            let k: int = if a.purpose != LabelPurpose::Normal {
                1
            } else {
                0
            };
            assert(tags[k] == text_of(c, "stream.secondary"@));
        }
        if a.label@.len() > 0 {
            assert(tags[tags.len() - 1] == sanitized(a.label@));
        }
    }
}

/// Law: the line about a subtitle stream starts with its language, says that it
/// is forced where it is, and what it adds, and ends with its identifier where
/// that is wanted.
pub proof fn law_subtitle_line_says_all(
    c: Seq<(Seq<char>, Seq<char>)>,
    s: SubtitleStream,
    verbose: bool,
)
    ensures
        ({
            let line = subtitle_line(c, s, verbose);
            &&& starts_with(line, lang_shown(s.language@))
            &&& s.forced ==> has_text(line, text_of(c, "disc.forced"@))
            &&& s.qualifier == LabelQualifier::Sdh ==> has_text(
                line,
                text_of(c, "stream.qualifier.sdh"@),
            )
            &&& s.qualifier == LabelQualifier::DescriptiveService ==> has_text(
                line,
                text_of(c, "stream.qualifier.descriptive_service"@),
            )
            &&& verbose ==> ends_with(line, pid_text(s.pid))
            &&& !s.forced && (s.qualifier == LabelQualifier::Plain || s.qualifier
                == LabelQualifier::Forced) && !verbose ==> line == lang_shown(s.language@)
        }),
{
    let line = subtitle_line(c, s, verbose);
    let lang = lang_shown(s.language@);
    let tags = subtitle_tags(c, s);
    lemma_starts(lang, line.skip(lang.len() as int));
    assert(line =~= lang + line.skip(lang.len() as int));
    if tags.len() > 0 {
        let j = joined(tags, ", "@);
        let pre = lang + " ("@;
        let post = line.skip((pre.len() + j.len()) as int);
        assert(line =~= pre + j + post);
        assert forall|i: int| 0 <= i < tags.len() implies has_text(line, #[trigger] tags[i]) by {
            law_joined_has_each_part(tags, ", "@, i);
            lemma_has_either(pre, j, tags[i]);
            lemma_has_either(pre + j, post, tags[i]);
        }
        if s.forced {
            assert(tags[0] == text_of(c, "disc.forced"@));
        }
        if qualifier_word(s.qualifier) is Some {
            assert(tags[tags.len() - 1] == text_of(c, qualifier_word(s.qualifier)->0));
        }
    }
    if verbose {
        let body = line.take(line.len() - pid_text(s.pid).len());
        lemma_starts(body, pid_text(s.pid));
        assert(line =~= body + pid_text(s.pid));
    }
}

/// Law: an identifier reads back, in four hexadecimal digits.
pub proof fn law_identifier_reads_back(pid: u16)
    ensures
        between(pid_text(pid), "[PID 0x"@, "]"@) matches Some(d) && d.len() == 4 && hex_value(d) == pid,
{
    law_word_reads_back(pid as nat);
    lemma_between("[PID 0x"@, hex4_upper(pid as nat), "]"@);
}

/// Law: a language is shown by the name of the first table that has it, and by
/// its code where none has; only an empty code is not known at all.
pub proof fn law_language_is_named(
    code: Seq<char>,
    three: Option<Seq<char>>,
    two: Option<Seq<char>>,
)
    ensures
        code.len() == 0 ==> shown_language(code, three, two) == "?"@,
        code.len() > 0 ==> (three matches Some(n) ==> shown_language(code, three, two) == n),
        code.len() > 0 && three is None ==> (two matches Some(n) ==> shown_language(code, three, two)
            == n),
        code.len() > 0 && three is None && two is None ==> shown_language(code, three, two)
            == sanitized(code),
{
}

/// Law: a codec is listed under its own name: what is not known by its number,
/// which reads back, and no two that have a name of their own under the same.
pub proof fn law_codec_is_named(c: Codec)
    ensures
        c.kind == CodecKind::Other ==> listed_codec(c) == c.name@,
        c.kind == CodecKind::Ac3 ==> listed_codec(c) == "DD"@,
        c.kind == CodecKind::Ac3Plus ==> listed_codec(c) == "DD+"@,
        c.kind == CodecKind::DvdSub ==> listed_codec(c) == "DVD Sub"@,
        c.kind matches CodecKind::Unknown(t) ==> starts_with(listed_codec(c), "0x"@) && hex_value(
            listed_codec(c).skip("0x"@.len() as int),
        ) == t,
{
    if let CodecKind::Unknown(t) = c.kind {
        law_byte_reads_back(t as nat);
        lemma_starts("0x"@, hex2(t as nat));
    }
}

/// Law: bytes in hexadecimal read back: two digits for each, in order.
pub proof fn law_bytes_read_back(bytes: Seq<u8>, i: int)
    requires
        0 <= i < bytes.len(),
    ensures
        hex_of(bytes).len() == 2 * bytes.len(),
        hex_value(hex_of(bytes).subrange(2 * i, 2 * i + 2)) == bytes[i],
    decreases bytes.len(),
{
    lemma_hex_len(bytes.drop_last());
    lemma_hex_len(bytes);
    let last = hex2(bytes.last() as nat);
    let all = hex_of(bytes);
    if i == bytes.len() - 1 {
        law_byte_reads_back(bytes[i] as nat);
        assert(all.subrange(2 * i, 2 * i + 2) =~= last);
    } else {
        law_bytes_read_back(bytes.drop_last(), i);
        assert(all.subrange(2 * i, 2 * i + 2) =~= hex_of(bytes.drop_last()).subrange(
            2 * i,
            2 * i + 2,
        ));
    }
}

proof fn lemma_hex_len(bytes: Seq<u8>)
    ensures
        hex_of(bytes).len() == 2 * bytes.len(),
    decreases bytes.len(),
{
    if bytes.len() > 0 {
        lemma_hex_len(bytes.drop_last());
    }
}

/// Law: an encrypted disc is called by its own protection: any sign of CSS makes
/// it CSS, the two generations of Ultra HD are told apart, and any other AACS is
/// called by its version.
pub proof fn law_protection_is_named(c: Seq<(Seq<char>, Seq<char>)>, disc: Disc)
    requires
        disc.encrypted,
    ensures
        disc.css || disc.css_error ==> encryption_text(c, disc) == Some(
            text_of(c, "disc.css_encrypted"@),
        ),
        !disc.css && !disc.css_error && disc.format == DiscFormat::Fmts ==> encryption_text(c, disc)
            == Some("AACS 2.1"@ + " encrypted"@),
        !disc.css && !disc.css_error && disc.format == DiscFormat::Uhd ==> encryption_text(c, disc)
            == Some("AACS 2.0"@ + " encrypted"@),
        !disc.css && !disc.css_error && disc.format != DiscFormat::Fmts && disc.format
            != DiscFormat::Uhd ==> (disc.aacs matches Some(a) ==> (encryption_text(c, disc) matches
            Some(l) && between(l, "AACS "@, ".0 encrypted"@) == Some(dec(a.version as nat)))),
        !disc.css && !disc.css_error && disc.aacs is None && (disc.format == DiscFormat::Dvd
            || disc.format == DiscFormat::Unknown) ==> encryption_text(c, disc) == Some(
            text_of(c, "disc.aacs_encrypted"@),
        ),
        !disc.css && !disc.css_error && disc.aacs is None && (disc.format == DiscFormat::BluRay
            || disc.format == DiscFormat::HdDvd) ==> (encryption_text(c, disc) matches Some(l)
            && between(l, "AACS "@, ".0 encrypted"@) == Some(dec(1))),
{
    reveal_strlit(".0");
    reveal_strlit(" encrypted");
    reveal_strlit(".0 encrypted");
    assert(".0 encrypted"@ =~= ".0"@ + " encrypted"@);
    let n = match disc.aacs {
        Some(a) => a.version as nat,
        None => 1,
    };
    lemma_between("AACS "@, dec(n), ".0 encrypted"@);
    assert("AACS "@ + dec(n) + ".0"@ + " encrypted"@ =~= "AACS "@ + dec(n) + ".0 encrypted"@);
}

/// Law: where a disc may be played is said region by region, and a disc without
/// regions is called free of them.
pub proof fn law_every_region_is_named(region: DiscRegion, i: int)
    ensures
        region is Free ==> region_text(region) == "Region-free"@,
        region matches DiscRegion::BluRay(rs) ==> if rs@.len() == 0 {
            region_text(region) == "Region-free"@
        } else {
            0 <= i < rs@.len() ==> has_text(
                region_text(region),
                match rs@[i] {
                    BdRegion::A => "A"@,
                    BdRegion::B => "B"@,
                    BdRegion::C => "C"@,
                },
            )
        },
        region matches DiscRegion::BluRay(rs) ==> rs@.len() == 1 ==> region_text(region)
            == bd_letter(rs@[0]),
        region matches DiscRegion::Dvd(rs) ==> if rs@.len() == 0 {
            region_text(region) == "Region-free"@
        } else {
            0 <= i < rs@.len() ==> has_text(region_text(region), dec(rs@[i] as nat))
        },
        region matches DiscRegion::Dvd(rs) ==> rs@.len() == 1 ==> region_text(region) == dec(
            rs@[0] as nat,
        ),
{
    match region {
        DiscRegion::BluRay(rs) => {
            let parts = rs@.map_values(|r: BdRegion| bd_letter(r));
            if 0 <= i < rs@.len() {
                law_joined_has_each_part(parts, "/"@, i);
            }
        },
        DiscRegion::Dvd(rs) => {
            let parts = rs@.map_values(|r: u8| dec(r as nat));
            if 0 <= i < rs@.len() {
                law_joined_has_each_part(parts, ", "@, i);
            }
        },
        _ => {},
    }
}

/// Law: the ways in which keys are found are told apart.
pub proof fn law_key_origins_are_told_apart(a: KeyOrigin, b: KeyOrigin)
    ensures
        origin_text(a) == origin_text(b) <==> a == b,
        a == KeyOrigin::ExternalUk ==> has_text(origin_text(a), "external"@),
        a == KeyOrigin::KeyDb || a == KeyOrigin::KeyDbDerived || a == KeyOrigin::KeyDbUnitKeys
            <==> starts_with(origin_text(a), "KEYDB"@),
        a == KeyOrigin::DeviceKey || a == KeyOrigin::ProcessingKey <==> starts_with(
            origin_text(a),
            "MKB"@,
        ),
        a == KeyOrigin::DeviceKey ==> ends_with(origin_text(a), "device key"@),
        a == KeyOrigin::KeyDbDerived ==> ends_with(origin_text(a), "(derived)"@),
        a == KeyOrigin::KeyDbUnitKeys ==> ends_with(origin_text(a), "(unit keys)"@),
{
    reveal_strlit("MKB + device key");
    reveal_strlit("MKB + processing key");
    reveal_strlit("KEYDB (derived)");
    reveal_strlit("KEYDB");
    reveal_strlit("KEYDB (unit keys)");
    reveal_strlit("external UK");
    reveal_strlit("external");
    reveal_strlit("MKB");
    reveal_strlit("device key");
    reveal_strlit("(derived)");
    reveal_strlit("(unit keys)");
    assert("KEYDB"@.take(5) =~= "KEYDB"@);
    assert("KEYDB (derived)"@.take(5) =~= "KEYDB"@);
    assert("KEYDB (unit keys)"@.take(5) =~= "KEYDB"@);
    assert("MKB + device key"@.take(3) =~= "MKB"@);
    assert("MKB + processing key"@.take(3) =~= "MKB"@);
    assert("MKB + device key"@.skip(6) =~= "device key"@);
    assert("KEYDB (derived)"@.skip(6) =~= "(derived)"@);
    assert("KEYDB (unit keys)"@.skip(6) =~= "(unit keys)"@);
    lemma_has_part(Seq::empty(), "external"@, " UK"@);
    reveal_strlit(" UK");
    assert(Seq::<char>::empty() + "external"@ + " UK"@ =~= "external UK"@);
    let s = origin_text(a);
    if starts_with(s, "KEYDB"@) {
        assert(s.take(5)[0] == 'K');
    }
    if starts_with(s, "MKB"@) {
        assert(s.take(3)[0] == 'M');
    }
}

/// The line of each unit key stands at its place.
pub proof fn lemma_key_line(keys: Seq<(u32, Vec<u8>)>, n: nat, i: int)
    requires
        0 <= i < n <= keys.len(),
    ensures
        unit_key_lines(keys, n).len() == n,
        unit_key_lines(keys, n)[i] == "  CPS "@ + dec(keys[i].0 as nat) + ": 0x"@ + hex_of(
            keys[i].1@,
        ),
    decreases n,
{
    reveal_with_fuel(unit_key_lines, 2);
    let m = (n - 1) as nat;
    if i < m {
        lemma_key_line(keys, m, i);
    } else if m > 0 {
        lemma_key_line(keys, m, m - 1);
    }
}

/// Law: what is listed of the AACS data has the version of the key block, the hash,
/// the volume identifier where there is one, where the keys came from and how many
/// there are, and every key, each under its label.
pub proof fn law_aacs_data_are_listed(a: AacsState, i: int)
    ensures
        ({
            let l = aacs_block(a);
            let k: int = if any_nonzero(a.volume_id@) {
                4
            } else {
                3
            };
            let u: int = if a.vuk is Some {
                k + 2
            } else {
                k + 1
            };
            &&& l.len() == u + a.unit_keys@.len()
            &&& a.mkb_version matches Some(v) ==> starts_with(l[1], "MKB v"@ + dec(v as nat))
            &&& a.bus_encryption <==> ends_with(l[1], " (bus encryption)"@)
            &&& l[2] == "Disc hash: "@ + a.disc_hash@
            &&& any_nonzero(a.volume_id@) ==> l[3] == "VID: 0x"@ + hex_of(a.volume_id@)
            &&& l[k] == "Keys: "@ + origin_text(a.key_source) + " ("@ + dec(a.unit_keys@.len())
                + " unit keys)"@
            &&& a.vuk matches Some(v) ==> l[k + 1] == "  VUK:   0x"@ + hex_of(v@)
            &&& 0 <= i < a.unit_keys@.len() ==> l[u + i] == "  CPS "@ + dec(
                a.unit_keys@[i].0 as nat,
            ) + ": 0x"@ + hex_of(a.unit_keys@[i].1@)
        }),
{
    reveal_strlit("");
    reveal_strlit(" (bus encryption)");
    reveal_strlit("MKB v");
    let n = a.unit_keys@.len();
    if 0 <= i < n {
        lemma_key_line(a.unit_keys@, n, i);
    }
    if n > 0 {
        lemma_key_line(a.unit_keys@, n, 0);
    }
    let v = match a.mkb_version {
        Some(v) => v as nat,
        None => 0,
    };
    let head = "MKB v"@ + dec(v);
    law_number_reads_back(v);
    if a.bus_encryption {
        lemma_starts(head, " (bus encryption)"@);
    } else {
        assert(head + ""@ =~= head);
        lemma_starts(head, Seq::empty());
        assert(head + Seq::<char>::empty() =~= head);
        let d = dec(v);
        assert(head.last() == d[d.len() - 1]);
        assert(is_digit(d[d.len() - 1]));
        if ends_with(head, " (bus encryption)"@) {
            assert(head.last() == " (bus encryption)"@.last());
        }
    }
}

/// Law: a detailed listing names the drive by its vendor, product and revision, in
/// this order, its device, the region of the disc, and then the AACS data.
pub proof fn law_details_name_drive_and_region(disc: Disc, drive: DriveFacts)
    ensures
        ({
            let l = detail_block(disc, drive);
            &&& l[0] == "Drive: "@ + firmware_field(drive.vendor@) + " "@ + firmware_field(
                drive.product@,
            ) + " "@ + firmware_field(drive.revision@)
            &&& l[1] == "Device: "@ + drive.device@
            &&& l[2] == "Region: "@ + region_text(disc.region)
            &&& disc.aacs matches Some(a) ==> l.skip(3) == aacs_block(a)
            &&& disc.aacs is None ==> l.len() == 3
        }),
{
    if let Some(a) = disc.aacs {
        assert(detail_block(disc, drive).skip(3) =~= aacs_block(a));
    }
}

/// The names of the formats.
pub open spec fn format_names() -> Seq<(DiscFormat, Seq<char>)> {
    seq![
        (DiscFormat::Uhd, "4K UHD"@),
        (DiscFormat::Fmts, "4K UHD (AACS 2.1 FMTS)"@),
        (DiscFormat::BluRay, "Blu-ray"@),
        (DiscFormat::HdDvd, "HD-DVD"@),
        (DiscFormat::Dvd, "DVD"@),
    ]
}

/// Law: the lines about a disc name it, by its title before its label; then its
/// format, by its name, with its layers and its capacity; its protection where it
/// has one; and for every unlocker whether it ran.
pub proof fn law_summary_says_what_the_disc_is(
    c: Seq<(Seq<char>, Seq<char>)>,
    disc: Disc,
    unlockers: Seq<(String, bool)>,
    k: int,
    i: int,
)
    ensures
        ({
            let l = disc_summary(c, disc, unlockers);
            let named: int = if disc.meta_title is Some || disc.volume_id@.len() > 0 {
                1
            } else {
                0
            };
            &&& disc.meta_title matches Some(t) ==> l[0] == text_of(c, "disc.disc"@) + ": "@
                + sanitized(t@)
            &&& disc.meta_title is None && disc.volume_id@.len() > 0 ==> l[0] == text_of(
                c,
                "disc.disc"@,
            ) + ": "@ + sanitized(volume_title(disc.volume_id@))
            &&& 0 <= k < format_names().len() && disc.format == format_names()[k].0 ==> l[named]
                == text_of(c, "disc.format"@) + ": "@ + format_names()[k].1 + " ("@ + dec(
                disc.layers as nat,
            ) + "L, "@ + disc.capacity_gb@ + " GB)"@
            &&& encryption_text(c, disc) matches Some(e) ==> l[named + 1] == e
            &&& starts_with(l.last(), "Unlockers — "@)
            &&& 0 <= i < unlockers.len() && unlockers[i].1 ==> has_text(
                l.last(),
                unlockers[i].0@ + ": yes"@,
            )
            &&& 0 <= i < unlockers.len() && !unlockers[i].1 ==> has_text(
                l.last(),
                unlockers[i].0@ + ": no"@,
            )
        }),
{
    reveal_strlit(": ");
    reveal_strlit("yes");
    reveal_strlit("no");
    reveal_strlit(": yes");
    reveal_strlit(": no");
    let l = disc_summary(c, disc, unlockers);
    let parts = unlocker_texts(unlockers);
    let t = joined(parts, ", "@);
    lemma_starts("Unlockers — "@, t);
    if 0 <= i < unlockers.len() {
        law_joined_has_each_part(parts, ", "@, i);
        lemma_has_either("Unlockers — "@, t, parts[i]);
        let n = unlockers[i].0@;
        assert(n + ": "@ + "yes"@ =~= n + ": yes"@);
        assert(n + ": "@ + "no"@ =~= n + ": no"@);
    }
}

/// Law: a listing without keys has the protection of the disc, where it has one,
/// and then the titles as they are listed with keys.
pub proof fn law_keyless_listing_has_the_titles(
    c: Seq<(Seq<char>, Seq<char>)>,
    disc: Disc,
    f: InfoRequest,
)
    ensures
        ({
            let l = keyless_listing(c, disc, f);
            let titles = title_list(c, disc.titles@, f.full, f.verbose, f.basic);
            &&& encryption_text(c, disc) matches Some(e) ==> l[0] == e && l.skip(2) == titles
            &&& encryption_text(c, disc) is None ==> l == titles
        }),
{
    let l = keyless_listing(c, disc, f);
    let titles = title_list(c, disc.titles@, f.full, f.verbose, f.basic);
    if let Some(e) = encryption_text(c, disc) {
        assert(l.skip(2) =~= titles);
    } else {
        assert(l =~= titles);
    }
}

/// The bare flags of `info`, in their groups.
pub open spec fn is_info_flag(a: Seq<char>, long: Seq<char>, short: Seq<char>) -> bool {
    a == long || a == short
}

/// Some argument from position `i` on is one of the two.
pub open spec fn given_from(args: Seq<Seq<char>>, i: int, long: Seq<char>, short: Seq<char>) -> bool {
    exists|j: int| i <= j < args.len() && is_info_flag(#[trigger] args[j], long, short)
}

proof fn lemma_given(args: Seq<Seq<char>>, i: int, long: Seq<char>, short: Seq<char>)
    requires
        0 <= i < args.len(),
    ensures
        given_from(args, i, long, short) == (is_info_flag(args[i], long, short) || given_from(
            args,
            i + 1,
            long,
            short,
        )),
{
    if given_from(args, i, long, short) && !is_info_flag(args[i], long, short) {
        let j = choose|j: int| i <= j < args.len() && is_info_flag(#[trigger] args[j], long, short);
        assert(i + 1 <= j < args.len() && is_info_flag(args[j], long, short));
    }
}

/// Law: each of the bare flags of `info` is on if and only if it was given, in
/// whatever order and however often.
pub proof fn law_info_flags_are_what_was_given(args: Seq<Seq<char>>, i: int, f: InfoRequest)
    requires
        0 <= i <= args.len(),
        forall|j: int|
            i <= j < args.len() ==> is_info_flag(#[trigger] args[j], "--quiet"@, "-q"@)
                || is_info_flag(args[j], "--verbose"@, "-v"@) || is_info_flag(
                args[j],
                "--full"@,
                "-f"@,
            ) || is_info_flag(args[j], "--basic"@, "-b"@),
    ensures
        info_from(args, i, f) matches InfoAnswer::Flags(g) && {
            &&& g.quiet == (f.quiet || given_from(args, i, "--quiet"@, "-q"@))
            &&& g.verbose == (f.verbose || given_from(args, i, "--verbose"@, "-v"@))
            &&& g.full == (f.full || given_from(args, i, "--full"@, "-f"@))
            &&& g.basic == (f.basic || given_from(args, i, "--basic"@, "-b"@))
            &&& g.keydb == f.keydb && g.bad_log_level == f.bad_log_level
        },
    decreases args.len() - i,
{
    lemma_info_words();
    if i < args.len() {
        let a = args[i];
        assert(is_info_flag(a, "--quiet"@, "-q"@) || is_info_flag(a, "--verbose"@, "-v"@)
            || is_info_flag(a, "--full"@, "-f"@) || is_info_flag(a, "--basic"@, "-b"@));
        let g = if is_info_flag(a, "--quiet"@, "-q"@) {
            InfoRequest { quiet: true, ..f }
        } else if is_info_flag(a, "--verbose"@, "-v"@) {
            InfoRequest { verbose: true, ..f }
        } else if is_info_flag(a, "--full"@, "-f"@) {
            InfoRequest { full: true, ..f }
        } else {
            InfoRequest { basic: true, ..f }
        };
        law_info_flags_are_what_was_given(args, i + 1, g);
        lemma_given(args, i, "--quiet"@, "-q"@);
        lemma_given(args, i, "--verbose"@, "-v"@);
        lemma_given(args, i, "--full"@, "-f"@);
        lemma_given(args, i, "--basic"@, "-b"@);
    }
}

/// Law: the key database that `info` asks is the one that `--keydb` names, and a
/// log level of two or more asks for more to be listed.
pub proof fn law_info_values_are_read(value: Seq<char>, n: nat)
    requires
        !crate::cli_entry::is_flag(value),
    ensures
        info_from(seq!["--keydb"@, value], 0, no_flags()) == InfoAnswer::Flags(
            InfoRequest { keydb: Some(value), ..no_flags() },
        ),
        value == dec(n) && n <= 255 ==> info_from(seq!["--log-level"@, value], 0, no_flags())
            == InfoAnswer::Flags(InfoRequest { verbose: n >= 2, ..no_flags() }),
        value.len() > 0 && !all_digits(value) && value[0] != '+' ==> info_from(
            seq!["--log-level"@, value],
            0,
            no_flags(),
        ) == InfoAnswer::Flags(InfoRequest { bad_log_level: Some(value), ..no_flags() }),
        info_from(seq!["--log-file"@, value], 0, no_flags()) == InfoAnswer::Flags(no_flags()),
        info_from(seq!["--help"@], 0, no_flags()) is Help,
        info_from(seq!["-h"@], 0, no_flags()) is Help,
{
    lemma_info_words();
    law_number_reads_back(n);
    reveal_with_fuel(info_from, 2);
    let w = other_words();
    assert(w[0] == "--keydb"@ && w[1] == "--log-level"@ && w[2] == "--log-file"@ && w[3]
        == "--help"@ && w[4] == "-h"@);
    let a = seq!["--keydb"@, value];
    let b = seq!["--log-level"@, value];
    let c = seq!["--log-file"@, value];
    assert(a[0] == "--keydb"@ && a[1] == value && b[0] == "--log-level"@ && b[1] == value && c[0]
        == "--log-file"@ && c[1] == value);
    assert(dec(n).len() > 0 && is_digit(dec(n)[0]));
}

/// The flags of `info` with a value, and those that ask for help.
spec fn other_words() -> Seq<Seq<char>> {
    seq!["--keydb"@, "--log-level"@, "--log-file"@, "--help"@, "-h"@]
}

proof fn lemma_info_words()
    ensures
        forall|a: Seq<char>|
            #![trigger is_info_flag(a, "--quiet"@, "-q"@)]
            is_info_flag(a, "--quiet"@, "-q"@) ==> !is_info_flag(a, "--verbose"@, "-v"@)
                && !is_info_flag(a, "--full"@, "-f"@) && !is_info_flag(a, "--basic"@, "-b"@),
        forall|a: Seq<char>|
            #![trigger is_info_flag(a, "--verbose"@, "-v"@)]
            is_info_flag(a, "--verbose"@, "-v"@) ==> !is_info_flag(a, "--full"@, "-f"@)
                && !is_info_flag(a, "--basic"@, "-b"@),
        forall|a: Seq<char>|
            #![trigger is_info_flag(a, "--full"@, "-f"@)]
            is_info_flag(a, "--full"@, "-f"@) ==> !is_info_flag(a, "--basic"@, "-b"@) && a
                != "--keydb"@ && a != "--log-level"@ && a != "--log-file"@,
        forall|a: Seq<char>|
            #![trigger is_info_flag(a, "--basic"@, "-b"@)]
            is_info_flag(a, "--basic"@, "-b"@) ==> a != "--keydb"@ && a != "--log-level"@ && a
                != "--log-file"@,
        forall|i: int|
            0 <= i < 5 ==> {
                let a = #[trigger] other_words()[i];
                &&& a != "--quiet"@ && a != "-q"@ && a != "--verbose"@ && a != "-v"@
                &&& a != "--full"@ && a != "-f"@ && a != "--basic"@ && a != "-b"@
                &&& a != "--share"@ && a != "-s"@ && a != "--mask"@ && a != "-m"@
                &&& i != 0 ==> a != "--keydb"@
                &&& i != 1 ==> a != "--log-level"@
                &&& i != 2 ==> a != "--log-file"@
            },
{
    reveal_strlit("--quiet");
    reveal_strlit("-q");
    reveal_strlit("--verbose");
    reveal_strlit("-v");
    reveal_strlit("--full");
    reveal_strlit("-f");
    reveal_strlit("--basic");
    reveal_strlit("-b");
    reveal_strlit("--keydb");
    reveal_strlit("--log-level");
    reveal_strlit("--log-file");
    reveal_strlit("--share");
    reveal_strlit("-s");
    reveal_strlit("--mask");
    reveal_strlit("-m");
    reveal_strlit("--help");
    reveal_strlit("-h");
    assert("--quiet"@[2] == 'q' && "--verbose"@[2] == 'v' && "--full"@[2] == 'f' && "--basic"@[2]
        == 'b' && "--keydb"@[2] == 'k' && "--log-level"@[2] == 'l' && "--log-file"@[2] == 'l'
        && "--share"@[2] == 's' && "--mask"@[2] == 'm' && "--help"@[2] == 'h');
    assert("-q"@[1] == 'q' && "-v"@[1] == 'v' && "-f"@[1] == 'f' && "-b"@[1] == 'b' && "-s"@[1]
        == 's' && "-m"@[1] == 'm' && "-h"@[1] == 'h');
    assert("-q"@.len() == 2 && "-v"@.len() == 2 && "-f"@.len() == 2 && "-b"@.len() == 2 && "-s"@.len()
        == 2 && "-m"@.len() == 2 && "-h"@.len() == 2);
    assert("--log-level"@.len() == 11 && "--log-file"@.len() == 10);
}

} // verus!
