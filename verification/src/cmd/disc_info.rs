//! The plain form of `disc-info`: its flags, and what is printed of a disc.

use crate::cli_entry::opt_text;
use crate::cmd::info::{plain_audio_remarks, plain_audio_tags};
use crate::disc::{
    AacsState, AudioStream, Disc, DiscFormat, HdrKind, Stream, SubtitleStream, Title, VideoStream,
};
use crate::disc_info::{
    DriveFacts, codec_name, format_volume_id, language_639_1, language_639_3, listed_codec,
    listed_titles, name_639_1, name_639_3, pid_shown, pid_text, qualifier_key, subtitle_tags,
    volume_title,
};
use crate::strings::{Catalog, filled, text_of};
use crate::text::{
    CharClass, dec, dec_text, join_texts, joined, pad_end, pad_end_text, pad_start, pad_start_text,
    plus_if, push_dec, push_text, push_texts, same_text, texts, trim_text, trimmed,
};
use vstd::prelude::*;
use vstd::string::*;

verus! {

/// The flags of the plain form.
#[derive(Clone, Debug)]
pub struct PlainFlags {
    pub device: Option<String>,
    pub quiet: bool,
    pub verbose: bool,
    pub full: bool,
    pub basic: bool,
}

/// What a [`PlainFlags`] says.
pub struct PlainAsked {
    pub device: Option<Seq<char>>,
    pub quiet: bool,
    pub verbose: bool,
    pub full: bool,
    pub basic: bool,
}

impl View for PlainFlags {
    type V = PlainAsked;

    open spec fn view(&self) -> PlainAsked {
        PlainAsked {
            device: opt_text(self.device),
            quiet: self.quiet,
            verbose: self.verbose,
            full: self.full,
            basic: self.basic,
        }
    }
}

/// What the arguments of the plain form come to.
#[derive(Clone, Debug)]
pub enum PlainParse {
    Flags(PlainFlags),
    Help,
    Unknown(String),
}

/// What a [`PlainParse`] says.
pub enum PlainAnswer {
    Flags(PlainAsked),
    Help,
    Unknown(Seq<char>),
}

impl View for PlainParse {
    type V = PlainAnswer;

    open spec fn view(&self) -> PlainAnswer {
        match *self {
            PlainParse::Flags(f) => PlainAnswer::Flags(f@),
            PlainParse::Help => PlainAnswer::Help,
            PlainParse::Unknown(o) => PlainAnswer::Unknown(o@),
        }
    }
}

/// What `args` come to from `i` on, with the flags that were read before.
pub open spec fn plain_from(args: Seq<Seq<char>>, i: int, f: PlainAsked) -> PlainAnswer
    decreases args.len() + 1 - i,
{
    if i < 0 || i >= args.len() {
        PlainAnswer::Flags(f)
    } else if args[i] == "--device"@ || args[i] == "-d"@ {
        plain_from(
            args,
            i + 2,
            PlainAsked {
                device: if i + 1 < args.len() {
                    Some(args[i + 1])
                } else {
                    None
                },
                ..f
            },
        )
    } else if args[i] == "--quiet"@ || args[i] == "-q"@ {
        plain_from(args, i + 1, PlainAsked { quiet: true, ..f })
    } else if args[i] == "--verbose"@ || args[i] == "-v"@ {
        plain_from(args, i + 1, PlainAsked { verbose: true, ..f })
    } else if args[i] == "--full"@ || args[i] == "-f"@ {
        plain_from(args, i + 1, PlainAsked { full: true, ..f })
    } else if args[i] == "--basic"@ || args[i] == "-b"@ {
        plain_from(args, i + 1, PlainAsked { basic: true, ..f })
    } else if args[i] == "--help"@ || args[i] == "-h"@ {
        PlainAnswer::Help
    } else {
        PlainAnswer::Unknown(args[i])
    }
}

/// No flag is set.
pub open spec fn no_plain_flags() -> PlainAsked {
    PlainAsked { device: None, quiet: false, verbose: false, full: false, basic: false }
}

fn either(arg: &str, long: &str, short: &str) -> (r: bool)
    ensures
        r == (arg@ == long@ || arg@ == short@),
{
    same_text(arg, long) || same_text(arg, short)
}

/// Reads the flags of the plain form.
pub fn parse_plain_flags(args: &[String]) -> (r: PlainParse)
    ensures
        r@ == plain_from(texts(args@), 0, no_plain_flags()),
{
    let ghost all = texts(args@);
    let mut f = PlainFlags {
        device: None,
        quiet: false,
        verbose: false,
        full: false,
        basic: false,
    };
    let mut i: usize = 0;
    while i < args.len()
        invariant
            i <= args.len(),
            all == texts(args@),
            all.len() == args@.len(),
            plain_from(all, 0, no_plain_flags()) == plain_from(all, i as int, f@),
        decreases args.len() - i,
    {
        assert(all[i as int] == args@[i as int]@);
        let a = args[i].as_str();
        if either(a, "--device", "-d") {
            if args.len() - i > 1 {
                assert(all[i + 1] == args@[i + 1]@);
                f.device = Some(args[i + 1].clone());
                i = i + 2;
            } else {
                f.device = None;
                assert(plain_from(all, i + 2, f@) == PlainAnswer::Flags(f@));
                return PlainParse::Flags(f);
            }
        } else if either(a, "--quiet", "-q") {
            f.quiet = true;
            i = i + 1;
        } else if either(a, "--verbose", "-v") {
            f.verbose = true;
            i = i + 1;
        } else if either(a, "--full", "-f") {
            f.full = true;
            i = i + 1;
        } else if either(a, "--basic", "-b") {
            f.basic = true;
            i = i + 1;
        } else if either(a, "--help", "-h") {
            return PlainParse::Help;
        } else {
            return PlainParse::Unknown(args[i].clone());
        }
    }
    PlainParse::Flags(f)
}

/// What is shown for a language code, as it is where no table knows it.
pub open spec fn plain_language(
    code: Seq<char>,
    by_three: Option<Seq<char>>,
    by_two: Option<Seq<char>>,
) -> Seq<char> {
    if code.len() == 0 {
        "?"@
    } else {
        match by_three {
            Some(n) => n,
            None => match by_two {
                Some(n) => n,
                None => code,
            },
        }
    }
}

/// What is shown for a language code that the tables name as given.
pub fn plain_language_shown(code: &str, by_three: Option<String>, by_two: Option<String>) -> (r:
    String)
    ensures
        r@ == plain_language(code@, opt_text(by_three), opt_text(by_two)),
{
    if code.is_empty() {
        return "?".to_owned();
    }
    match by_three {
        Some(n) => n,
        None => match by_two {
            Some(n) => n,
            None => code.to_owned(),
        },
    }
}

/// The name shown for a language code.
pub open spec fn plain_lang(code: Seq<char>) -> Seq<char> {
    plain_language(code, name_639_3(code), name_639_1(code))
}

/// The name of the language with that code.
pub fn plain_lang_name(code: &str) -> (r: String)
    ensures
        r@ == plain_lang(code@),
{
    plain_language_shown(code, language_639_3(code), language_639_1(code))
}

/// The parts of the line about a video stream.
pub open spec fn plain_video_parts(v: VideoStream, verbose: bool) -> Seq<Seq<char>> {
    let p0 = seq![listed_codec(v.codec), v.resolution@];
    let p1 = plus_if(p0, v.frame_rate_known, v.frame_rate@ + "fps"@);
    let p2 = plus_if(p1, v.hdr != HdrKind::Sdr, v.hdr_name@);
    let p3 = plus_if(p2, v.bt2020, "BT.2020"@);
    let p4 = plus_if(p3, v.secondary && v.label@.len() > 0, v.label@);
    plus_if(p4, verbose, pid_text(v.pid))
}

/// The line about a video stream.
pub fn plain_video(v: &VideoStream, verbose: bool) -> (r: String)
    ensures
        r@ == joined(plain_video_parts(*v, verbose), " "@),
{
    let mut parts: Vec<String> = Vec::new();
    push_text(&mut parts, codec_name(&v.codec));
    push_text(&mut parts, v.resolution.clone());
    assert(texts(parts@) =~= seq![listed_codec(v.codec), v.resolution@]);
    if v.frame_rate_known {
        let mut rate = v.frame_rate.clone();
        rate.append("fps");
        push_text(&mut parts, rate);
    }
    if v.hdr != HdrKind::Sdr {
        push_text(&mut parts, v.hdr_name.clone());
    }
    if v.bt2020 {
        push_text(&mut parts, "BT.2020".to_owned());
    }
    if v.secondary && !v.label.as_str().is_empty() {
        push_text(&mut parts, v.label.clone());
    }
    if verbose {
        push_text(&mut parts, pid_shown(v.pid));
    }
    join_texts(&parts, " ")
}

/// The line about an audio stream.
pub open spec fn plain_audio_line(
    c: Seq<(Seq<char>, Seq<char>)>,
    a: AudioStream,
    verbose: bool,
) -> Seq<char> {
    let s0 = plain_lang(a.language@) + " "@ + listed_codec(a.codec) + " "@ + a.channels@;
    let s1 = if verbose {
        s0 + " "@ + a.sample_rate@ + " "@ + pid_text(a.pid)
    } else {
        s0
    };
    let tags = plain_audio_tags(c, a);
    if tags.len() > 0 {
        s1 + " ("@ + joined(tags, ", "@) + ")"@
    } else {
        s1
    }
}

/// The line about an audio stream.
pub fn plain_audio(c: &Catalog, a: &AudioStream, verbose: bool) -> (r: String)
    ensures
        r@ == plain_audio_line(c@, *a, verbose),
{
    let mut s = plain_lang_name(a.language.as_str());
    s.append(" ");
    s.append(codec_name(&a.codec).as_str());
    s.append(" ");
    s.append(a.channels.as_str());
    if verbose {
        s.append(" ");
        s.append(a.sample_rate.as_str());
        s.append(" ");
        s.append(pid_shown(a.pid).as_str());
    }
    let tags = plain_audio_remarks(c, a);
    assert(texts(tags@).len() == tags@.len());
    if tags.len() > 0 {
        s.append(" (");
        s.append(join_texts(&tags, ", ").as_str());
        s.append(")");
    }
    s
}

/// The line about a subtitle stream.
pub open spec fn plain_subtitle_line(c: Seq<(Seq<char>, Seq<char>)>, s: SubtitleStream) -> Seq<char> {
    let tags = subtitle_tags(c, s);
    if tags.len() == 0 {
        plain_lang(s.language@)
    } else {
        plain_lang(s.language@) + " ("@ + joined(tags, ", "@) + ")"@
    }
}

/// The line about a subtitle stream.
pub fn plain_subtitle(c: &Catalog, s: &SubtitleStream) -> (r: String)
    ensures
        r@ == plain_subtitle_line(c@, *s),
{
    let mut tags: Vec<String> = Vec::new();
    assert(texts(tags@) =~= Seq::empty());
    if s.forced {
        push_text(&mut tags, c.get("disc.forced"));
    }
    if let Some(k) = qualifier_key(s.qualifier) {
        push_text(&mut tags, c.get(k));
    }
    assert(texts(tags@).len() == tags@.len());
    let mut line = plain_lang_name(s.language.as_str());
    if tags.len() > 0 {
        line.append(" (");
        line.append(join_texts(&tags, ", ").as_str());
        line.append(")");
    }
    line
}

/// The lines about the video streams among the first `n`.
pub open spec fn plain_videos(streams: Seq<Stream>, verbose: bool, n: nat) -> Seq<Seq<char>>
    decreases n,
{
    if n == 0 {
        Seq::empty()
    } else {
        let before = plain_videos(streams, verbose, (n - 1) as nat);
        match streams[n - 1] {
            Stream::Video(v) => before.push(joined(plain_video_parts(v, verbose), " "@)),
            _ => before,
        }
    }
}

/// The lines about the audio streams among the first `n`.
pub open spec fn plain_audios(
    c: Seq<(Seq<char>, Seq<char>)>,
    streams: Seq<Stream>,
    verbose: bool,
    n: nat,
) -> Seq<Seq<char>>
    decreases n,
{
    if n == 0 {
        Seq::empty()
    } else {
        let before = plain_audios(c, streams, verbose, (n - 1) as nat);
        match streams[n - 1] {
            Stream::Audio(a) => before.push(plain_audio_line(c, a, verbose)),
            _ => before,
        }
    }
}

/// The lines about the subtitle streams among the first `n`.
pub open spec fn plain_subtitles(c: Seq<(Seq<char>, Seq<char>)>, streams: Seq<Stream>, n: nat) -> Seq<
    Seq<char>,
>
    decreases n,
{
    if n == 0 {
        Seq::empty()
    } else {
        let before = plain_subtitles(c, streams, (n - 1) as nat);
        match streams[n - 1] {
            Stream::Subtitle(s) => before.push(plain_subtitle_line(c, s)),
            _ => before,
        }
    }
}

/// A group with an empty line before it: the first row behind `lead`, the others
/// under it; nothing where there are no rows.
pub open spec fn plain_group(lead: Seq<char>, rows: Seq<Seq<char>>) -> Seq<Seq<char>> {
    if rows.len() == 0 {
        Seq::empty()
    } else {
        seq![Seq::<char>::empty()] + plain_rows(lead, rows)
    }
}

/// The rows of a group.
pub open spec fn plain_rows(lead: Seq<char>, rows: Seq<Seq<char>>) -> Seq<Seq<char>> {
    Seq::new(
        rows.len(),
        |i: int|
            if i == 0 {
                lead + rows[i]
            } else {
                "                 "@ + rows[i]
            },
    )
}

fn push_plain_group(lines: &mut Vec<String>, lead: &str, rows: &Vec<String>)
    ensures
        texts(final(lines)@) == texts(old(lines)@) + plain_group(lead@, texts(rows@)),
{
    let ghost start = texts(lines@);
    let ghost all = texts(rows@);
    let ghost wanted = plain_rows(lead@, all);
    if rows.len() == 0 {
        assert(start + plain_group(lead@, all) =~= start);
        return;
    }
    push_text(lines, String::new());
    assert(texts(lines@) =~= start + seq![Seq::<char>::empty()] + wanted.take(0));
    for i in 0..rows.len()
        invariant
            all == texts(rows@),
            all.len() == rows@.len(),
            wanted == plain_rows(lead@, all),
            texts(lines@) == start + seq![Seq::<char>::empty()] + wanted.take(i as int),
    {
        let mut row = if i == 0 {
            lead.to_owned()
        } else {
            "                 ".to_owned()
        };
        row.append(rows[i].as_str());
        assert(all[i as int] == rows@[i as int]@);
        assert(row@ == wanted[i as int]);
        push_text(lines, row);
        assert(texts(lines@) =~= start + seq![Seq::<char>::empty()] + wanted.take(i + 1));
    }
    assert(start + seq![Seq::<char>::empty()] + wanted.take(wanted.len() as int) =~= start
        + plain_group(lead@, all));
}

/// The line that names a title. `size` is in gibibytes, with one decimal.
pub open spec fn plain_title_row(
    c: Seq<(Seq<char>, Seq<char>)>,
    t: Title,
    size: Seq<char>,
    index: nat,
) -> Seq<char> {
    "  "@ + pad_start(dec(index + 1), 2, ' ') + ". "@ + pad_end(t.playlist@, 14, ' ') + "  "@ + dec(
        (t.duration_secs / 3600) as nat,
    ) + "h "@ + pad_start(dec((t.duration_secs % 3600 / 60) as nat), 2, '0') + "m  "@ + pad_start(
        size,
        5,
        ' ',
    ) + " GB  "@ + dec(t.clips@.len()) + " "@ + text_of(
        c,
        if t.clips@.len() != 1 {
            "disc.clips"@
        } else {
            "disc.clip"@
        },
    )
}

fn plain_title_row_text(c: &Catalog, t: &Title, size: &str, index: usize) -> (r: String)
    requires
        index < u64::MAX,
    ensures
        r@ == plain_title_row(c@, *t, size@, index as nat),
{
    let mut s = "  ".to_owned();
    s.append(pad_start_text(dec_text(index as u64 + 1).as_str(), 2, ' ').as_str());
    s.append(". ");
    s.append(pad_end_text(t.playlist.as_str(), 14, ' ').as_str());
    s.append("  ");
    s.append(dec_text(t.duration_secs / 3600).as_str());
    s.append("h ");
    s.append(pad_start_text(dec_text(t.duration_secs % 3600 / 60).as_str(), 2, '0').as_str());
    s.append("m  ");
    s.append(pad_start_text(size, 5, ' ').as_str());
    s.append(" GB  ");
    s.append(dec_text(t.clips.len() as u64).as_str());
    s.append(" ");
    s.append(
        c.get(
            if t.clips.len() != 1 {
                "disc.clips"
            } else {
                "disc.clip"
            },
        ).as_str(),
    );
    s
}

/// The lines about one title.
pub open spec fn plain_block(
    c: Seq<(Seq<char>, Seq<char>)>,
    t: Title,
    size: Seq<char>,
    index: nat,
    verbose: bool,
    basic: bool,
) -> Seq<Seq<char>> {
    let row = seq![plain_title_row(c, t, size, index)];
    if basic {
        row
    } else {
        let n = t.streams@.len();
        row + plain_group(
            "      "@ + text_of(c, "disc.video"@) + ":     "@,
            plain_videos(t.streams@, verbose, n),
        ) + plain_group(
            "      "@ + text_of(c, "disc.audio"@) + ":     "@,
            plain_audios(c, t.streams@, verbose, n),
        ) + plain_group(
            "      "@ + text_of(c, "disc.subtitle"@) + ":  "@,
            plain_subtitles(c, t.streams@, n),
        ) + seq![Seq::<char>::empty()]
    }
}

fn group_lead(c: &Catalog, key: &str, tail: &str) -> (r: String)
    ensures
        r@ == "      "@ + text_of(c@, key@) + tail@,
{
    let mut s = "      ".to_owned();
    s.append(c.get(key).as_str());
    s.append(tail);
    s
}

fn push_plain_block(
    lines: &mut Vec<String>,
    c: &Catalog,
    t: &Title,
    size: &str,
    index: usize,
    verbose: bool,
    basic: bool,
)
    requires
        index < u64::MAX,
    ensures
        texts(final(lines)@) == texts(old(lines)@) + plain_block(
            c@,
            *t,
            size@,
            index as nat,
            verbose,
            basic,
        ),
{
    let ghost start = texts(lines@);
    let ghost row = seq![plain_title_row(c@, *t, size@, index as nat)];
    push_text(lines, plain_title_row_text(c, t, size, index));
    assert(texts(lines@) =~= start + row);
    if basic {
        return;
    }
    let mut videos: Vec<String> = Vec::new();
    let mut audios: Vec<String> = Vec::new();
    let mut subtitles: Vec<String> = Vec::new();
    assert(texts(videos@) =~= Seq::empty());
    assert(texts(audios@) =~= Seq::empty());
    assert(texts(subtitles@) =~= Seq::empty());
    for i in 0..t.streams.len()
        invariant
            texts(videos@) == plain_videos(t.streams@, verbose, i as nat),
            texts(audios@) == plain_audios(c@, t.streams@, verbose, i as nat),
            texts(subtitles@) == plain_subtitles(c@, t.streams@, i as nat),
    {
        match &t.streams[i] {
            Stream::Video(v) => {
                push_text(&mut videos, plain_video(v, verbose));
            },
            Stream::Audio(a) => {
                push_text(&mut audios, plain_audio(c, a, verbose));
            },
            Stream::Subtitle(s) => {
                push_text(&mut subtitles, plain_subtitle(c, s));
            },
        }
    }
    let ghost g1 = plain_group(
        "      "@ + text_of(c@, "disc.video"@) + ":     "@,
        texts(videos@),
    );
    let ghost g2 = plain_group(
        "      "@ + text_of(c@, "disc.audio"@) + ":     "@,
        texts(audios@),
    );
    let ghost g3 = plain_group(
        "      "@ + text_of(c@, "disc.subtitle"@) + ":  "@,
        texts(subtitles@),
    );
    push_plain_group(lines, group_lead(c, "disc.video", ":     ").as_str(), &videos);
    push_plain_group(lines, group_lead(c, "disc.audio", ":     ").as_str(), &audios);
    push_plain_group(lines, group_lead(c, "disc.subtitle", ":  ").as_str(), &subtitles);
    push_text(lines, String::new());
    assert(texts(lines@) =~= start + (row + g1 + g2 + g3 + seq![Seq::<char>::empty()]));
}

/// The lines about the first `n` titles.
pub open spec fn plain_blocks(
    c: Seq<(Seq<char>, Seq<char>)>,
    titles: Seq<Title>,
    sizes: Seq<Seq<char>>,
    verbose: bool,
    basic: bool,
    n: nat,
) -> Seq<Seq<char>>
    decreases n,
{
    if n == 0 {
        Seq::empty()
    } else {
        plain_blocks(c, titles, sizes, verbose, basic, (n - 1) as nat) + plain_block(
            c,
            titles[n - 1],
            sizes[n - 1],
            (n - 1) as nat,
            verbose,
            basic,
        )
    }
}

/// What is printed of the titles of a disc.
pub open spec fn plain_titles(
    c: Seq<(Seq<char>, Seq<char>)>,
    disc: Disc,
    sizes: Seq<Seq<char>>,
    full: bool,
    verbose: bool,
    basic: bool,
) -> Seq<Seq<char>> {
    let n = disc.titles@.len();
    let shown = listed_titles(n, full);
    if n == 0 {
        seq![text_of(c, "disc.no_titles"@)]
    } else {
        let list = seq![text_of(c, "disc.titles"@), Seq::<char>::empty()] + plain_blocks(
            c,
            disc.titles@,
            sizes,
            verbose,
            basic,
            shown,
        );
        if n > shown {
            list + seq![
                filled(
                    text_of(c, "disc.more_titles"@),
                    seq![("count"@, dec((n - shown) as nat))],
                ),
                Seq::<char>::empty(),
            ]
        } else {
            list
        }
    }
}

/// What is printed of the titles of a disc: all of them or the first five. Their
/// sizes are given in gibibytes, with one decimal.
pub fn plain_title_lines(
    c: &Catalog,
    disc: &Disc,
    sizes: &Vec<String>,
    full: bool,
    verbose: bool,
    basic: bool,
) -> (r: Vec<String>)
    requires
        sizes@.len() == disc.titles@.len(),
    ensures
        texts(r@) == plain_titles(c@, *disc, texts(sizes@), full, verbose, basic),
{
    let mut lines: Vec<String> = Vec::new();
    if disc.titles.len() == 0 {
        push_text(&mut lines, c.get("disc.no_titles"));
        assert(texts(lines@) =~= seq![text_of(c@, "disc.no_titles"@)]);
        return lines;
    }
    push_text(&mut lines, c.get("disc.titles"));
    push_text(&mut lines, String::new());
    let ghost head = seq![text_of(c@, "disc.titles"@), Seq::<char>::empty()];
    let ghost all = texts(sizes@);
    let shown: usize = if full || disc.titles.len() < 5 {
        disc.titles.len()
    } else {
        5
    };
    assert(shown == listed_titles(disc.titles@.len(), full));
    assert(texts(lines@) =~= head + plain_blocks(c@, disc.titles@, all, verbose, basic, 0));
    for i in 0..shown
        invariant
            shown <= disc.titles@.len(),
            all == texts(sizes@),
            all.len() == disc.titles@.len(),
            sizes@.len() == disc.titles@.len(),
            texts(lines@) == head + plain_blocks(
                c@,
                disc.titles@,
                all,
                verbose,
                basic,
                i as nat,
            ),
    {
        assert(all[i as int] == sizes@[i as int]@);
        push_plain_block(&mut lines, c, &disc.titles[i], sizes[i].as_str(), i, verbose, basic);
        assert(texts(lines@) =~= head + plain_blocks(
            c@,
            disc.titles@,
            all,
            verbose,
            basic,
            (i + 1) as nat,
        ));
    }
    if disc.titles.len() > shown {
        let ghost before = texts(lines@);
        let more = c.fmt1(
            "disc.more_titles",
            "count",
            dec_text((disc.titles.len() - shown) as u64).as_str(),
        );
        push_text(&mut lines, more);
        push_text(&mut lines, String::new());
        assert(texts(lines@) =~= before + seq![more@, Seq::<char>::empty()]);
    }
    lines
}

/// What is printed before the disc is scanned.
pub fn plain_opening_lines(c: &Catalog, version: &str) -> (r: Vec<String>)
    ensures
        texts(r@) == seq![
            "freemkv "@ + version@,
            Seq::empty(),
            text_of(c@, "disc.scanning"@),
            Seq::empty(),
        ],
{
    let mut first = "freemkv ".to_owned();
    first.append(version);
    let mut lines: Vec<String> = Vec::new();
    push_text(&mut lines, first);
    push_text(&mut lines, String::new());
    push_text(&mut lines, c.get("disc.scanning"));
    push_text(&mut lines, String::new());
    assert(texts(lines@) =~= seq![
        "freemkv "@ + version@,
        Seq::empty(),
        text_of(c@, "disc.scanning"@),
        Seq::empty(),
    ]);
    lines
}

/// What a disc is, in a few lines: its name, its format and whether it is
/// encrypted.
pub open spec fn plain_summary(
    c: Seq<(Seq<char>, Seq<char>)>,
    disc: Disc,
    capacity: Seq<char>,
) -> Seq<Seq<char>> {
    let name = match disc.meta_title {
        Some(t) => seq![text_of(c, "disc.disc"@) + ": "@ + t@],
        None => plus_if(
            Seq::empty(),
            disc.volume_id@.len() > 0,
            text_of(c, "disc.disc"@) + ": "@ + volume_title(disc.volume_id@),
        ),
    };
    let format = name.push(
        text_of(c, "disc.format"@) + ": "@ + plain_format(disc.format) + " ("@ + dec(
            disc.layers as nat,
        ) + "L, "@ + capacity + " GB)"@,
    );
    plus_if(
        format,
        disc.encrypted,
        text_of(
            c,
            if disc.css {
                "disc.css_encrypted"@
            } else {
                "disc.aacs_encrypted"@
            },
        ),
    )
}

/// The lines about the keys of a disc.
pub open spec fn plain_keys(aacs: Option<AacsState>, key_source: Seq<char>) -> Seq<Seq<char>> {
    match aacs {
        Some(a) => seq![
            "AACS "@ + dec(a.version as nat) + ".0, MKB v"@ + dec(
                match a.mkb_version {
                    Some(v) => v as nat,
                    None => 0,
                },
            ),
            "Disc hash: "@ + a.disc_hash@,
            "Keys: "@ + key_source + " ("@ + dec(a.unit_keys@.len()) + " unit keys)"@,
        ],
        None => Seq::empty(),
    }
}

/// The lines about a drive.
pub open spec fn plain_drive(drive: DriveFacts) -> Seq<Seq<char>> {
    seq![
        "Drive: "@ + trimmed(drive.vendor@, CharClass::White) + " "@ + trimmed(
            drive.product@,
            CharClass::White,
        ) + " "@ + trimmed(drive.revision@, CharClass::White),
        "Device: "@ + drive.device@,
    ]
}

/// What is printed of a disc before its titles. `capacity` is in gibibytes, with
/// one decimal, and `key_source` is what the disc library calls the source of
/// the keys.
pub open spec fn plain_heading(
    c: Seq<(Seq<char>, Seq<char>)>,
    disc: Disc,
    capacity: Seq<char>,
    key_source: Seq<char>,
    drive: DriveFacts,
    verbose: bool,
) -> Seq<Seq<char>> {
    if verbose {
        plain_summary(c, disc, capacity) + plain_keys(disc.aacs, key_source) + plain_drive(drive)
    } else {
        plain_summary(c, disc, capacity)
    }
}

/// What a format is called: an unknown one is taken for a Blu-ray.
pub open spec fn plain_format(f: DiscFormat) -> Seq<char> {
    match f {
        DiscFormat::Uhd | DiscFormat::Fmts => "4K UHD"@,
        DiscFormat::HdDvd => "HD-DVD"@,
        DiscFormat::Dvd => "DVD"@,
        DiscFormat::BluRay | DiscFormat::Unknown => "Blu-ray"@,
    }
}

fn named(c: &Catalog, key: &str, text: &str) -> (r: String)
    ensures
        r@ == text_of(c@, key@) + ": "@ + text@,
{
    let mut s = c.get(key);
    s.append(": ");
    s.append(text);
    s
}

fn format_word(f: DiscFormat) -> (r: &'static str)
    ensures
        r@ == plain_format(f),
{
    match f {
        DiscFormat::Uhd | DiscFormat::Fmts => "4K UHD",
        DiscFormat::HdDvd => "HD-DVD",
        DiscFormat::Dvd => "DVD",
        DiscFormat::BluRay | DiscFormat::Unknown => "Blu-ray",
    }
}

fn summary_part(c: &Catalog, disc: &Disc, capacity: &str) -> (r: Vec<String>)
    ensures
        texts(r@) == plain_summary(c@, *disc, capacity@),
{
    let mut lines: Vec<String> = Vec::new();
    assert(texts(lines@) =~= Seq::empty());
    match &disc.meta_title {
        Some(t) => {
            let s = named(c, "disc.disc", t.as_str());
            push_text(&mut lines, s);
            assert(texts(lines@) =~= seq![s@]);
        },
        None => {
            if !disc.volume_id.as_str().is_empty() {
                let title = format_volume_id(disc.volume_id.as_str());
                push_text(&mut lines, named(c, "disc.disc", title.as_str()));
            }
        },
    }
    let mut s = named(c, "disc.format", format_word(disc.format));
    s.append(" (");
    push_dec(&mut s, disc.layers as u64);
    s.append("L, ");
    s.append(capacity);
    s.append(" GB)");
    push_text(&mut lines, s);
    if disc.encrypted {
        let key = if disc.css {
            "disc.css_encrypted"
        } else {
            "disc.aacs_encrypted"
        };
        push_text(&mut lines, c.get(key));
    }
    lines
}

fn keys_part(aacs: &Option<AacsState>, key_source: &str) -> (r: Vec<String>)
    ensures
        texts(r@) == plain_keys(*aacs, key_source@),
{
    let mut lines: Vec<String> = Vec::new();
    match aacs {
        Some(a) => {
            let mut v = "AACS ".to_owned();
            push_dec(&mut v, a.version as u64);
            v.append(".0, MKB v");
            push_dec(
                &mut v,
                match a.mkb_version {
                    Some(n) => n as u64,
                    None => 0,
                },
            );
            let mut h = "Disc hash: ".to_owned();
            h.append(a.disc_hash.as_str());
            let mut k = "Keys: ".to_owned();
            k.append(key_source);
            k.append(" (");
            push_dec(&mut k, a.unit_keys.len() as u64);
            k.append(" unit keys)");
            push_text(&mut lines, v);
            push_text(&mut lines, h);
            push_text(&mut lines, k);
            assert(texts(lines@) =~= seq![v@, h@, k@]);
        },
        None => {
            assert(texts(lines@) =~= Seq::empty());
        },
    }
    lines
}

fn drive_part(drive: &DriveFacts) -> (r: Vec<String>)
    ensures
        texts(r@) == plain_drive(*drive),
{
    let mut d = "Drive: ".to_owned();
    d.append(trim_text(drive.vendor.as_str()).as_str());
    d.append(" ");
    d.append(trim_text(drive.product.as_str()).as_str());
    d.append(" ");
    d.append(trim_text(drive.revision.as_str()).as_str());
    let mut e = "Device: ".to_owned();
    e.append(drive.device.as_str());
    let mut lines: Vec<String> = Vec::new();
    push_text(&mut lines, d);
    push_text(&mut lines, e);
    assert(texts(lines@) =~= seq![d@, e@]);
    lines
}

/// What is printed of a disc before its titles.
pub fn plain_heading_lines(
    c: &Catalog,
    disc: &Disc,
    capacity: &str,
    key_source: &str,
    drive: &DriveFacts,
    verbose: bool,
) -> (r: Vec<String>)
    ensures
        texts(r@) == plain_heading(c@, *disc, capacity@, key_source@, *drive, verbose),
{
    let mut lines = summary_part(c, disc, capacity);
    if verbose {
        push_texts(&mut lines, keys_part(&disc.aacs, key_source));
        push_texts(&mut lines, drive_part(drive));
    }
    lines
}

} // verus!
