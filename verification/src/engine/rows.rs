//! What a window shows of a scanned source: the rows of the title tree and the
//! lines about the disc.

use crate::cli_entry::{clock, clock_text, opt_text};
use crate::disc::{
    AacsState, AudioStream, BdRegion, Disc, DiscRegion, LabelPurpose, Stream, SubtitleStream, Title,
    VideoStream, any_nonzero, has_nonzero,
};
use crate::disc_info::{
    bd_letter, bd_letters, dvd_numbers, hex_bytes, hex_of, mkb_line, mkb_text, opt_str,
    unit_key_lines,
};
use crate::engine::identity::{TitleIdentity, TitleMark, identities, mark_of, marks, push_dec_next};
use crate::engine::naming::{source_extension, source_scheme};
use crate::info::{bool_text, bool_word};
use crate::paths::{file_name, path_file_name};
use crate::strings::{is_safe, is_unsafe_char, law_sanitized_is_safe, sanitize_display, sanitized};
use crate::text::{
    CharClass, dec, dec_text, digit, join_texts, joined, pad_start, plus_if, push_dec, push_text,
    run_of, same_text, texts, trim_text, trimmed,
};
use vstd::prelude::*;
use vstd::string::*;

verus! {

/// One row of the title tree, as it is shown.
#[derive(Clone, Debug)]
pub struct Row {
    pub type_s: String,
    pub desc: String,
    pub depth: u8,
    pub checkable: bool,
    /// The title that the row belongs to.
    pub title: usize,
    pub info: String,
    /// The identifier of an audio or subtitle stream.
    pub pid: Option<u16>,
    /// Whole seconds, for the row of a title.
    pub duration_secs: u64,
    /// The language of a stream, as the disc has it.
    pub lang: String,
    pub forced: bool,
}

/// What a [`Row`] says.
pub struct RowText {
    pub type_s: Seq<char>,
    pub desc: Seq<char>,
    pub depth: u8,
    pub checkable: bool,
    pub title: usize,
    pub info: Seq<char>,
    pub pid: Option<u16>,
    pub duration_secs: u64,
    pub lang: Seq<char>,
    pub forced: bool,
}

impl View for Row {
    type V = RowText;

    open spec fn view(&self) -> RowText {
        RowText {
            type_s: self.type_s@,
            desc: self.desc@,
            depth: self.depth,
            checkable: self.checkable,
            title: self.title,
            info: self.info@,
            pid: self.pid,
            duration_secs: self.duration_secs,
            lang: self.lang@,
            forced: self.forced,
        }
    }
}

/// What each of a list of rows says.
pub open spec fn row_texts(v: Seq<Row>) -> Seq<RowText> {
    v.map_values(|r: Row| r@)
}

fn push_row(rows: &mut Vec<Row>, r: Row)
    ensures
        row_texts(final(rows)@) == row_texts(old(rows)@).push(r@),
{
    rows.push(r);
    assert(row_texts(rows@) =~= row_texts(old(rows)@).push(r@));
}

/// The word for what an audio track is for.
pub open spec fn purpose_name(p: LabelPurpose) -> Option<Seq<char>> {
    match p {
        LabelPurpose::Commentary => Some("Commentary"@),
        LabelPurpose::Descriptive => Some("Descriptive"@),
        LabelPurpose::Score => Some("Score"@),
        LabelPurpose::Ime => Some("IME"@),
        LabelPurpose::Normal => None,
    }
}

/// The word for what an audio track is for; an ordinary track has none.
pub fn purpose_label(p: LabelPurpose) -> (r: Option<&'static str>)
    ensures
        opt_str(r) == purpose_name(p),
{
    match p {
        LabelPurpose::Commentary => Some("Commentary"),
        LabelPurpose::Descriptive => Some("Descriptive"),
        LabelPurpose::Score => Some("Score"),
        LabelPurpose::Ime => Some("IME"),
        LabelPurpose::Normal => None,
    }
}

/// A text behind a lead, where there is a text.
pub open spec fn led(lead: Seq<char>, text: Seq<char>, there: bool) -> Seq<char> {
    if there {
        lead + text
    } else {
        Seq::empty()
    }
}

fn led_text(lead: &str, text: &str, there: bool) -> (r: String)
    ensures
        r@ == led(lead@, text@, there),
{
    if there {
        let mut s = lead.to_owned();
        s.append(text);
        s
    } else {
        String::new()
    }
}

/// The row of a video stream.
pub open spec fn video_row(v: VideoStream, ti: usize) -> RowText {
    let label = sanitized(v.label@);
    let there = v.label@.len() > 0;
    RowText {
        type_s: "Video"@,
        desc: v.codec.name@ + "  "@ + v.resolution@ + led("  —  "@, label, there),
        depth: 2,
        checkable: false,
        title: ti,
        info: "Video track\n\nCodec: "@ + v.codec.name@ + "\nResolution: "@ + v.resolution@
            + "\nFrame rate: "@ + v.frame_rate@ + "\nHDR: "@ + v.hdr_name@ + "\nColour: "@
            + v.color_space@ + led("\nLabel: "@, label, there),
        pid: None,
        duration_secs: 0,
        lang: Seq::empty(),
        forced: false,
    }
}

/// The remarks on an audio stream, in the words of the window.
pub open spec fn audio_words(a: AudioStream) -> Seq<Seq<char>> {
    let t0 = match purpose_name(a.purpose) {
        Some(p) => seq![p],
        None => Seq::empty(),
    };
    let t1 = plus_if(t0, a.secondary, "Secondary"@);
    plus_if(t1, a.label@.len() > 0, sanitized(a.label@))
}

/// The row of an audio stream.
pub open spec fn audio_row(a: AudioStream, ti: usize) -> RowText {
    let tags = joined(audio_words(a), ", "@);
    let there = audio_words(a).len() > 0;
    RowText {
        type_s: "Audio"@,
        desc: a.codec.name@ + "  "@ + a.channels@ + "  "@ + sanitized(a.language@) + led(
            "  —  "@,
            tags,
            there,
        ),
        depth: 2,
        checkable: true,
        title: ti,
        info: "Audio track\n\nCodec: "@ + a.codec.name@ + "\nChannels: "@ + a.channels@
            + "\nLanguage: "@ + sanitized(a.language@) + "\nSample rate: "@ + a.sample_rate@ + led(
            "\nSecondary: yes"@,
            ""@,
            a.secondary,
        ) + led("\nLabel: "@, tags, there),
        pid: Some(a.pid),
        duration_secs: 0,
        lang: a.language@,
        forced: false,
    }
}

/// The row of a subtitle stream.
pub open spec fn subtitle_row(s: SubtitleStream, ti: usize) -> RowText {
    RowText {
        type_s: "Subtitles"@,
        desc: s.codec.name@ + "  "@ + sanitized(s.language@) + led("  —  "@, "Forced"@, s.forced),
        depth: 2,
        checkable: true,
        title: ti,
        info: "Subtitle track\n\nCodec: "@ + s.codec.name@ + "\nLanguage: "@ + sanitized(
            s.language@,
        ) + "\nForced: "@ + bool_text(s.forced),
        pid: Some(s.pid),
        duration_secs: 0,
        lang: s.language@,
        forced: s.forced,
    }
}

/// The row of a stream of the title with that index.
pub open spec fn stream_row(s: Stream, ti: usize) -> RowText {
    match s {
        Stream::Video(v) => video_row(v, ti),
        Stream::Audio(a) => audio_row(a, ti),
        Stream::Subtitle(s) => subtitle_row(s, ti),
    }
}

fn video_row_of(v: &VideoStream, ti: usize) -> (r: Row)
    ensures
        r@ == video_row(*v, ti),
{
    let label = sanitize_display(v.label.as_str());
    let there = !v.label.as_str().is_empty();
    let mut desc = v.codec.name.clone();
    desc.append("  ");
    desc.append(v.resolution.as_str());
    desc.append(led_text("  —  ", label.as_str(), there).as_str());
    let mut info = "Video track\n\nCodec: ".to_owned();
    info.append(v.codec.name.as_str());
    info.append("\nResolution: ");
    info.append(v.resolution.as_str());
    info.append("\nFrame rate: ");
    info.append(v.frame_rate.as_str());
    info.append("\nHDR: ");
    info.append(v.hdr_name.as_str());
    info.append("\nColour: ");
    info.append(v.color_space.as_str());
    info.append(led_text("\nLabel: ", label.as_str(), there).as_str());
    Row {
        type_s: "Video".to_owned(),
        desc,
        depth: 2,
        checkable: false,
        title: ti,
        info,
        pid: None,
        duration_secs: 0,
        lang: String::new(),
        forced: false,
    }
}

fn audio_row_of(a: &AudioStream, ti: usize) -> (r: Row)
    ensures
        r@ == audio_row(*a, ti),
{
    let language = sanitize_display(a.language.as_str());
    let mut words: Vec<String> = Vec::new();
    assert(texts(words@) =~= Seq::empty());
    if let Some(p) = purpose_label(a.purpose) {
        push_text(&mut words, p.to_owned());
        assert(texts(words@) =~= seq![p@]);
    }
    if a.secondary {
        push_text(&mut words, "Secondary".to_owned());
    }
    if !a.label.as_str().is_empty() {
        push_text(&mut words, sanitize_display(a.label.as_str()));
    }
    assert(texts(words@) == audio_words(*a));
    assert(texts(words@).len() == words@.len());
    let there = words.len() > 0;
    let tags = join_texts(&words, ", ");
    let mut desc = a.codec.name.clone();
    desc.append("  ");
    desc.append(a.channels.as_str());
    desc.append("  ");
    desc.append(language.as_str());
    desc.append(led_text("  —  ", tags.as_str(), there).as_str());
    let mut info = "Audio track\n\nCodec: ".to_owned();
    info.append(a.codec.name.as_str());
    info.append("\nChannels: ");
    info.append(a.channels.as_str());
    info.append("\nLanguage: ");
    info.append(language.as_str());
    info.append("\nSample rate: ");
    info.append(a.sample_rate.as_str());
    info.append(led_text("\nSecondary: yes", "", a.secondary).as_str());
    info.append(led_text("\nLabel: ", tags.as_str(), there).as_str());
    Row {
        type_s: "Audio".to_owned(),
        desc,
        depth: 2,
        checkable: true,
        title: ti,
        info,
        pid: Some(a.pid),
        duration_secs: 0,
        lang: a.language.clone(),
        forced: false,
    }
}

fn subtitle_row_of(s: &SubtitleStream, ti: usize) -> (r: Row)
    ensures
        r@ == subtitle_row(*s, ti),
{
    let language = sanitize_display(s.language.as_str());
    let mut desc = s.codec.name.clone();
    desc.append("  ");
    desc.append(language.as_str());
    desc.append(led_text("  —  ", "Forced", s.forced).as_str());
    let mut info = "Subtitle track\n\nCodec: ".to_owned();
    info.append(s.codec.name.as_str());
    info.append("\nLanguage: ");
    info.append(language.as_str());
    info.append("\nForced: ");
    info.append(bool_word(s.forced));
    Row {
        type_s: "Subtitles".to_owned(),
        desc,
        depth: 2,
        checkable: true,
        title: ti,
        info,
        pid: Some(s.pid),
        duration_secs: 0,
        lang: s.language.clone(),
        forced: s.forced,
    }
}

/// The rows of the streams of the title with that index, one each.
pub fn stream_rows(streams: &Vec<Stream>, ti: usize) -> (r: Vec<Row>)
    ensures
        row_texts(r@) == streams@.map_values(|s: Stream| stream_row(s, ti)),
{
    let mut rows: Vec<Row> = Vec::new();
    let ghost wanted = streams@.map_values(|s: Stream| stream_row(s, ti));
    for i in 0..streams.len()
        invariant
            wanted == streams@.map_values(|s: Stream| stream_row(s, ti)),
            row_texts(rows@) == wanted.take(i as int),
    {
        let row = match &streams[i] {
            Stream::Video(v) => video_row_of(v, ti),
            Stream::Audio(a) => audio_row_of(a, ti),
            Stream::Subtitle(s) => subtitle_row_of(s, ti),
        };
        assert(row@ == wanted[i as int]);
        push_row(&mut rows, row);
        assert(row_texts(rows@) =~= wanted.take(i + 1));
    }
    assert(wanted.take(streams@.len() as int) =~= wanted);
    rows
}

/// What a window needs to know of a scanned source.
#[derive(Clone, Debug)]
pub struct Scanned {
    pub label: String,
    /// The label of the volume as the disc has it.
    pub volume_id: String,
    pub rows: Vec<Row>,
    pub key_summary: String,
    pub title_count: usize,
    /// The codec of the video of each title.
    pub video_codecs: Vec<String>,
    pub details: Vec<String>,
    /// What each title number stands for on this scan.
    pub title_ids: Vec<TitleIdentity>,
}

/// What a [`Scanned`] says.
pub struct ScannedText {
    pub label: Seq<char>,
    pub volume_id: Seq<char>,
    pub rows: Seq<RowText>,
    pub key_summary: Seq<char>,
    pub title_count: nat,
    pub video_codecs: Seq<Seq<char>>,
    pub details: Seq<Seq<char>>,
    pub title_ids: Seq<TitleMark>,
}

impl View for Scanned {
    type V = ScannedText;

    open spec fn view(&self) -> ScannedText {
        ScannedText {
            label: self.label@,
            volume_id: self.volume_id@,
            rows: row_texts(self.rows@),
            key_summary: self.key_summary@,
            title_count: self.title_count as nat,
            video_codecs: texts(self.video_codecs@),
            details: texts(self.details@),
            title_ids: marks(self.title_ids@),
        }
    }
}

/// The codec of the first video stream at position `i` or later; empty where
/// there is none.
pub open spec fn first_video(streams: Seq<Stream>, i: int) -> Seq<char>
    decreases streams.len() - i,
{
    if i < 0 || i >= streams.len() {
        Seq::empty()
    } else {
        match streams[i] {
            Stream::Video(v) => v.codec.name@,
            _ => first_video(streams, i + 1),
        }
    }
}

fn video_codec(streams: &Vec<Stream>) -> (r: String)
    ensures
        r@ == first_video(streams@, 0),
{
    for i in 0..streams.len()
        invariant
            first_video(streams@, 0) == first_video(streams@, i as int),
    {
        match &streams[i] {
            Stream::Video(v) => {
                return v.codec.name.clone();
            },
            _ => {},
        }
    }
    String::new()
}

/// A row that heads others: a file, a disc or a title.
pub open spec fn head_row(
    type_s: Seq<char>,
    desc: Seq<char>,
    depth: u8,
    checkable: bool,
    title: usize,
    info: Seq<char>,
    duration_secs: u64,
) -> RowText {
    RowText {
        type_s,
        desc,
        depth,
        checkable,
        title,
        info,
        pid: None,
        duration_secs,
        lang: Seq::empty(),
        forced: false,
    }
}

fn head_row_of(
    type_s: String,
    desc: String,
    depth: u8,
    checkable: bool,
    title: usize,
    info: String,
    duration_secs: u64,
) -> (r: Row)
    ensures
        r@ == head_row(type_s@, desc@, depth, checkable, title, info@, duration_secs),
{
    Row {
        type_s,
        desc,
        depth,
        checkable,
        title,
        info,
        pid: None,
        duration_secs,
        lang: String::new(),
        forced: false,
    }
}

/// The name shown for a container: the name of its file.
pub open spec fn container_name(path: Seq<char>) -> Seq<char> {
    match path_file_name(path) {
        Some(n) => n,
        None => "stream"@,
    }
}

/// What a window needs to know of a container, which is one title.
pub open spec fn container_scan(path: Seq<char>, t: Title) -> ScannedText {
    let name = container_name(path);
    let tracks = dec(t.streams@.len());
    let time = clock(t.duration_secs as nat);
    ScannedText {
        label: name,
        volume_id: Seq::empty(),
        rows: seq![
            head_row(
                "File"@,
                name,
                0,
                false,
                usize::MAX,
                "File\n\nName: "@ + name + "\nTracks: "@ + tracks + "\nDuration: "@ + time,
                0,
            ),
            head_row(
                "Title"@,
                tracks + " track(s) , "@ + time,
                1,
                true,
                0,
                "Title information\n\nTracks: "@ + tracks + "\nDuration: "@ + time
                    + "\nChapters: "@ + dec(t.chapters as nat),
                t.duration_secs,
            ),
        ] + t.streams@.map_values(|s: Stream| stream_row(s, 0)),
        key_summary: "unencrypted"@,
        title_count: 1,
        video_codecs: seq![first_video(t.streams@, 0)],
        details: seq!["File: "@ + name, "Duration: "@ + time, "Streams: "@ + tracks],
        title_ids: seq![mark_of(t)],
    }
}

/// The URL under which a container is opened.
pub fn container_url(path: &str) -> (r: String)
    ensures
        r@ == (if source_extension(path@) == "mkv"@ {
            "mkv"@
        } else if source_extension(path@) == "mp4"@ {
            "mp4"@
        } else {
            "m2ts"@
        }) + "://"@ + path@,
{
    let scheme = source_scheme(path);
    let mut s = if same_text(scheme, "iso") {
        proof {
            reveal_strlit("iso");
            reveal_strlit("mkv");
            reveal_strlit("mp4");
            reveal_strlit("m2ts");
            assert("iso"@[0] == 'i' && "mkv"@[0] == 'm' && "mp4"@[0] == 'm' && "m2ts"@[0] == 'm');
        }
        "m2ts".to_owned()
    } else {
        scheme.to_owned()
    };
    s.append("://");
    s.append(path);
    s
}

/// What a window needs to know of a container, given what was found in it.
pub fn scan_stream(path: &str, t: &Title) -> (r: Scanned)
    ensures
        r@ == container_scan(path@, *t),
{
    let name = match file_name(path) {
        Some(n) => n,
        None => "stream".to_owned(),
    };
    let tracks = dec_text(t.streams.len() as u64);
    let time = clock_text(t.duration_secs);
    let mut rows: Vec<Row> = Vec::new();
    let mut info = "File\n\nName: ".to_owned();
    info.append(name.as_str());
    info.append("\nTracks: ");
    info.append(tracks.as_str());
    info.append("\nDuration: ");
    info.append(time.as_str());
    push_row(
        &mut rows,
        head_row_of("File".to_owned(), name.clone(), 0, false, usize::MAX, info, 0),
    );
    let mut desc = tracks.clone();
    desc.append(" track(s) , ");
    desc.append(time.as_str());
    let mut info = "Title information\n\nTracks: ".to_owned();
    info.append(tracks.as_str());
    info.append("\nDuration: ");
    info.append(time.as_str());
    info.append("\nChapters: ");
    push_dec(&mut info, t.chapters);
    push_row(
        &mut rows,
        head_row_of("Title".to_owned(), desc, 1, true, 0, info, t.duration_secs),
    );
    let ghost heads = row_texts(rows@);
    let mut more = stream_rows(&t.streams, 0);
    let ghost tail = row_texts(more@);
    rows.append(&mut more);
    assert(row_texts(rows@) =~= heads + tail);
    let mut details: Vec<String> = Vec::new();
    let mut l = "File: ".to_owned();
    l.append(name.as_str());
    push_text(&mut details, l);
    let mut l = "Duration: ".to_owned();
    l.append(time.as_str());
    push_text(&mut details, l);
    let mut l = "Streams: ".to_owned();
    l.append(tracks.as_str());
    push_text(&mut details, l);
    let mut video_codecs: Vec<String> = Vec::new();
    push_text(&mut video_codecs, video_codec(&t.streams));
    let mut title_ids: Vec<TitleIdentity> = Vec::new();
    title_ids.push(TitleIdentity::of(t));
    let r = Scanned {
        label: name,
        volume_id: String::new(),
        rows,
        key_summary: "unencrypted".to_owned(),
        title_count: 1,
        video_codecs,
        details,
        title_ids,
    };
    proof {
        let w = container_scan(path@, *t);
        assert(r@.rows =~= w.rows);
        assert(r@.details =~= w.details);
        assert(r@.video_codecs =~= w.video_codecs);
        assert(r@.title_ids =~= w.title_ids);
        assert(r@.volume_id =~= w.volume_id);
    }
    r
}

/// The disc has a key that opens it.
pub open spec fn has_key(aacs: Option<AacsState>) -> bool {
    match aacs {
        Some(a) => a.unit_keys@.len() > 0 || a.vuk is Some,
        None => false,
    }
}

/// What is said of the keys of a disc: `won` is the source that had them.
pub open spec fn key_state(disc: Disc, won: Option<Seq<char>>) -> Seq<char> {
    if !disc.encrypted {
        "unencrypted"@
    } else if disc.css {
        "CSS (DVD)"@
    } else if has_key(disc.aacs) {
        match won {
            Some(w) => "unlocked via "@ + w,
            None => "unlocked"@,
        }
    } else {
        "locked — no key yet"@
    }
}

/// What is said of the keys of a disc. Only keys that are there count: where a
/// scan says they came from says nothing.
pub fn key_summary(disc: &Disc, won: Option<&str>) -> (r: String)
    ensures
        r@ == key_state(*disc, opt_str(won)),
{
    if !disc.encrypted {
        return "unencrypted".to_owned();
    }
    if disc.css {
        return "CSS (DVD)".to_owned();
    }
    let have_key = match &disc.aacs {
        Some(a) => a.unit_keys.len() > 0 || a.vuk.is_some(),
        None => false,
    };
    if have_key {
        match won {
            Some(w) => {
                let mut s = "unlocked via ".to_owned();
                s.append(w);
                s
            },
            None => "unlocked".to_owned(),
        }
    } else {
        "locked — no key yet".to_owned()
    }
}

/// The line about where a disc may be played, if there is one.
pub open spec fn region_detail(region: DiscRegion) -> Option<Seq<char>> {
    match region {
        DiscRegion::Free => Some("Region: free"@),
        DiscRegion::BluRay(rs) => if rs@.len() > 0 {
            Some("Region: Blu-ray "@ + joined(rs@.map_values(|r: BdRegion| bd_letter(r)), "/"@))
        } else {
            None
        },
        DiscRegion::Dvd(ns) => if ns@.len() > 0 {
            Some("Region: DVD "@ + joined(ns@.map_values(|r: u8| dec(r as nat)), ","@))
        } else {
            None
        },
    }
}

fn region_detail_text(region: &DiscRegion) -> (r: Option<String>)
    ensures
        opt_text(r) == region_detail(*region),
{
    match region {
        DiscRegion::Free => Some("Region: free".to_owned()),
        DiscRegion::BluRay(rs) => {
            if rs.len() == 0 {
                return None;
            }
            let mut s = "Region: Blu-ray ".to_owned();
            s.append(join_texts(&bd_letters(rs), "/").as_str());
            Some(s)
        },
        DiscRegion::Dvd(ns) => {
            if ns.len() == 0 {
                return None;
            }
            let mut s = "Region: DVD ".to_owned();
            s.append(join_texts(&dvd_numbers(ns), ",").as_str());
            Some(s)
        },
    }
}

/// `lines`, with a line behind them where there is one.
pub open spec fn plus_some(lines: Seq<Seq<char>>, line: Option<Seq<char>>) -> Seq<Seq<char>> {
    match line {
        Some(l) => lines.push(l),
        None => lines,
    }
}

/// The lines about the key block, the hash and the volume identifier.
pub open spec fn aacs_detail(lines: Seq<Seq<char>>, aacs: Option<AacsState>) -> Seq<Seq<char>> {
    match aacs {
        Some(a) => plus_if(
            lines.push(mkb_text(a)).push("Disc hash: "@ + a.disc_hash@),
            any_nonzero(a.volume_id@),
            "VID: 0x"@ + hex_of(a.volume_id@),
        ),
        None => lines,
    }
}

/// The lines about the keys of a disc.
pub open spec fn key_detail(lines: Seq<Seq<char>>, aacs: Option<AacsState>) -> Seq<Seq<char>> {
    match aacs {
        Some(a) => (match a.vuk {
            Some(k) => lines.push("  VUK: 0x"@ + hex_of(k@)),
            None => lines,
        }) + unit_key_lines(a.unit_keys@, a.unit_keys@.len()),
        None => lines,
    }
}

/// The lines about a disc that a window logs.
pub open spec fn disc_detail(disc: Disc, summary: Seq<char>, verbose: bool) -> Seq<Seq<char>> {
    let d0 = seq!["Type: "@ + disc.format.word()];
    let d1 = plus_if(
        d0,
        disc.capacity_bytes > 0,
        "Capacity: "@ + disc.capacity_gb@ + " GB, "@ + dec(disc.layers as nat) + " layer(s)"@,
    );
    let d2 = plus_some(d1, region_detail(disc.region));
    let d3 = aacs_detail(d2, disc.aacs).push("Protection: "@ + summary);
    let d4 = if verbose {
        key_detail(d3, disc.aacs)
    } else {
        d3
    };
    d4.push("Titles: "@ + dec(disc.titles@.len()))
}

fn push_aacs_detail(d: &mut Vec<String>, aacs: &Option<AacsState>)
    ensures
        texts(final(d)@) == aacs_detail(texts(old(d)@), *aacs),
{
    match aacs {
        Some(a) => {
            push_text(d, mkb_line(a));
            let mut hash = "Disc hash: ".to_owned();
            hash.append(a.disc_hash.as_str());
            push_text(d, hash);
            if has_nonzero(&a.volume_id) {
                let mut vid = "VID: 0x".to_owned();
                vid.append(hex_bytes(a.volume_id.as_slice()).as_str());
                push_text(d, vid);
            }
        },
        None => {},
    }
}

fn push_key_detail(d: &mut Vec<String>, aacs: &Option<AacsState>)
    ensures
        texts(final(d)@) == key_detail(texts(old(d)@), *aacs),
{
    match aacs {
        Some(a) => {
            if let Some(k) = &a.vuk {
                let mut vuk = "  VUK: 0x".to_owned();
                vuk.append(hex_bytes(k.as_slice()).as_str());
                push_text(d, vuk);
            }
            let ghost head = texts(d@);
            assert(head + unit_key_lines(a.unit_keys@, 0) =~= head);
            for i in 0..a.unit_keys.len()
                invariant
                    texts(d@) == head + unit_key_lines(a.unit_keys@, i as nat),
            {
                let mut k = "  CPS ".to_owned();
                push_dec(&mut k, a.unit_keys[i].0 as u64);
                k.append(": 0x");
                k.append(hex_bytes(a.unit_keys[i].1.as_slice()).as_str());
                push_text(d, k);
                assert(texts(d@) =~= head + unit_key_lines(a.unit_keys@, (i + 1) as nat));
            }
        },
        None => {},
    }
}

/// The lines about a disc that a window logs. The keys are among them only
/// where detail is asked for.
pub fn disc_details(disc: &Disc, summary: &str, verbose: bool) -> (r: Vec<String>)
    ensures
        texts(r@) == disc_detail(*disc, summary@, verbose),
{
    let mut d: Vec<String> = Vec::new();
    let mut l = "Type: ".to_owned();
    l.append(disc.format.to_word());
    push_text(&mut d, l);
    assert(texts(d@) =~= seq!["Type: "@ + disc.format.word()]);
    if disc.capacity_bytes > 0 {
        let mut l = "Capacity: ".to_owned();
        l.append(disc.capacity_gb.as_str());
        l.append(" GB, ");
        push_dec(&mut l, disc.layers as u64);
        l.append(" layer(s)");
        push_text(&mut d, l);
    }
    if let Some(l) = region_detail_text(&disc.region) {
        push_text(&mut d, l);
    }
    push_aacs_detail(&mut d, &disc.aacs);
    let mut l = "Protection: ".to_owned();
    l.append(summary);
    push_text(&mut d, l);
    if verbose {
        push_key_detail(&mut d, &disc.aacs);
    }
    let mut l = "Titles: ".to_owned();
    push_dec(&mut l, disc.titles.len() as u64);
    push_text(&mut d, l);
    d
}

/// The label of a disc as it is shown.
pub open spec fn shown_label(volume_id: Seq<char>) -> Seq<char> {
    if trimmed(sanitized(volume_id), CharClass::White).len() == 0 {
        "(no label)"@
    } else {
        sanitized(volume_id)
    }
}

/// The row of a disc.
pub open spec fn disc_row(disc: Disc, summary: Seq<char>) -> RowText {
    head_row(
        disc.format.word() + " disc"@,
        shown_label(disc.volume_id@),
        0,
        false,
        usize::MAX,
        "Disc information\n\nType: "@ + disc.format.word() + "\nLabel: "@ + shown_label(
            disc.volume_id@,
        ) + "\nProtection: "@ + summary + "\nTitles: "@ + dec(disc.titles@.len()),
        0,
    )
}

/// The row of the title with that index.
pub open spec fn title_head(t: Title, ti: usize) -> RowText {
    head_row(
        "Title"@,
        dec((ti + 1) as nat) + ".  "@ + (if t.playlist@.len() == 0 {
            Seq::empty()
        } else {
            sanitized(t.playlist@) + "   "@
        }) + dec(t.chapters as nat) + " chapter(s) , "@ + clock(t.duration_secs as nat) + " , "@
            + t.size_text@,
        1,
        true,
        ti,
        "Title information\n\nIndex: "@ + dec((ti + 1) as nat) + "\nDuration: "@ + clock(
            t.duration_secs as nat,
        ) + "\nChapters: "@ + dec(t.chapters as nat) + "\nSize: "@ + t.size_text@ + "\nStreams: "@
            + dec(t.streams@.len()),
        t.duration_secs,
    )
}

/// The rows of the first `n` titles, each with its streams.
pub open spec fn title_rows(titles: Seq<Title>, n: nat) -> Seq<RowText>
    decreases n,
{
    if n == 0 {
        Seq::empty()
    } else {
        title_rows(titles, (n - 1) as nat).push(title_head(titles[n - 1], (n - 1) as usize))
            + titles[n - 1].streams@.map_values(|s: Stream| stream_row(s, (n - 1) as usize))
    }
}

/// What a window needs to know of a disc.
pub open spec fn disc_scan(disc: Disc, summary: Seq<char>, verbose: bool) -> ScannedText {
    ScannedText {
        label: shown_label(disc.volume_id@),
        volume_id: disc.volume_id@,
        rows: seq![disc_row(disc, summary)] + title_rows(disc.titles@, disc.titles@.len()),
        key_summary: summary,
        title_count: disc.titles@.len(),
        video_codecs: disc.titles@.map_values(|t: Title| first_video(t.streams@, 0)),
        details: disc_detail(disc, summary, verbose),
        title_ids: disc.titles@.map_values(|t: Title| mark_of(t)),
    }
}

fn disc_row_of(disc: &Disc, label: &str, summary: &str) -> (r: Row)
    requires
        label@ == shown_label(disc.volume_id@),
    ensures
        r@ == disc_row(*disc, summary@),
{
    let mut type_s = disc.format.to_word().to_owned();
    type_s.append(" disc");
    let mut info = "Disc information\n\nType: ".to_owned();
    info.append(disc.format.to_word());
    info.append("\nLabel: ");
    info.append(label);
    info.append("\nProtection: ");
    info.append(summary);
    info.append("\nTitles: ");
    push_dec(&mut info, disc.titles.len() as u64);
    head_row_of(type_s, label.to_owned(), 0, false, usize::MAX, info, 0)
}

fn title_head_of(t: &Title, ti: usize) -> (r: Row)
    ensures
        r@ == title_head(*t, ti),
{
    let mut desc = String::new();
    push_dec_next(&mut desc, ti);
    assert(desc@ =~= dec((ti + 1) as nat));
    desc.append(".  ");
    let named = if t.playlist.as_str().is_empty() {
        String::new()
    } else {
        let mut p = sanitize_display(t.playlist.as_str());
        p.append("   ");
        p
    };
    desc.append(named.as_str());
    push_dec(&mut desc, t.chapters);
    desc.append(" chapter(s) , ");
    desc.append(clock_text(t.duration_secs).as_str());
    desc.append(" , ");
    desc.append(t.size_text.as_str());
    let mut info = "Title information\n\nIndex: ".to_owned();
    push_dec_next(&mut info, ti);
    info.append("\nDuration: ");
    info.append(clock_text(t.duration_secs).as_str());
    info.append("\nChapters: ");
    push_dec(&mut info, t.chapters);
    info.append("\nSize: ");
    info.append(t.size_text.as_str());
    info.append("\nStreams: ");
    push_dec(&mut info, t.streams.len() as u64);
    head_row_of("Title".to_owned(), desc, 1, true, ti, info, t.duration_secs)
}

/// What a window needs to know of a disc, given what is said of its keys. The
/// texts of the disc are sanitised on their way into the rows.
pub fn scanned_from_disc(disc: &Disc, summary: &str, verbose: bool) -> (r: Scanned)
    ensures
        r@ == disc_scan(*disc, summary@, verbose),
{
    let cleaned = sanitize_display(disc.volume_id.as_str());
    let label = if trim_text(cleaned.as_str()).as_str().is_empty() {
        "(no label)".to_owned()
    } else {
        cleaned
    };
    let mut rows: Vec<Row> = Vec::new();
    push_row(&mut rows, disc_row_of(disc, label.as_str(), summary));
    let ghost head = seq![disc_row(*disc, summary@)];
    assert(row_texts(rows@) =~= head + title_rows(disc.titles@, 0));
    let mut video_codecs: Vec<String> = Vec::new();
    let ghost wanted = disc.titles@.map_values(|t: Title| first_video(t.streams@, 0));
    for ti in 0..disc.titles.len()
        invariant
            row_texts(rows@) == head + title_rows(disc.titles@, ti as nat),
            wanted == disc.titles@.map_values(|t: Title| first_video(t.streams@, 0)),
            texts(video_codecs@) == wanted.take(ti as int),
    {
        let t = &disc.titles[ti];
        let ghost before = title_rows(disc.titles@, ti as nat);
        push_row(&mut rows, title_head_of(t, ti));
        let mut more = stream_rows(&t.streams, ti);
        let ghost heads = row_texts(rows@);
        let ghost tail = row_texts(more@);
        rows.append(&mut more);
        assert(row_texts(rows@) =~= heads + tail);
        assert(heads + tail =~= head + (before.push(title_head(*t, ti)) + tail));
        push_text(&mut video_codecs, video_codec(&t.streams));
        assert(texts(video_codecs@) =~= wanted.take(ti + 1));
    }
    assert(wanted.take(disc.titles@.len() as int) =~= wanted);
    Scanned {
        label,
        volume_id: disc.volume_id.clone(),
        rows,
        key_summary: summary.to_owned(),
        title_count: disc.titles.len(),
        video_codecs,
        details: disc_details(disc, summary, verbose),
        title_ids: identities(&disc.titles),
    }
}

/// A drive that a disc can be ripped from.
#[derive(Clone, Debug)]
pub struct OpticalDrive {
    /// The path of its device.
    pub device: String,
    /// What it calls itself.
    pub label: String,
}

/// What is shown of a drive: who made it and what it is.
pub open spec fn drive_label(vendor: Seq<char>, model: Seq<char>) -> Seq<char> {
    let s = trimmed(
        trimmed(vendor, CharClass::White) + " "@ + trimmed(model, CharClass::White),
        CharClass::White,
    );
    if s.len() == 0 {
        "Optical drive"@
    } else {
        s
    }
}

/// A drive as it is offered.
pub fn optical_drive(path: String, vendor: &str, model: &str) -> (r: OpticalDrive)
    ensures
        r.device@ == path@,
        r.label@ == drive_label(vendor@, model@),
{
    let mut s = trim_text(vendor);
    s.append(" ");
    s.append(trim_text(model).as_str());
    let label = trim_text(s.as_str());
    OpticalDrive {
        device: path,
        label: if label.as_str().is_empty() {
            "Optical drive".to_owned()
        } else {
            label
        },
    }
}

/// No character of `s` is unsafe to show, but for line ends where `lines` says
/// that there may be some.
pub open spec fn is_clean(s: Seq<char>, lines: bool) -> bool {
    forall|i: int|
        0 <= i < s.len() ==> !is_unsafe_char(#[trigger] s[i]) || (lines && s[i] == '\n')
}

/// A text is clean if and only if its parts are.
broadcast proof fn lemma_clean_concat(a: Seq<char>, b: Seq<char>, lines: bool)
    ensures
        #[trigger] is_clean(a + b, lines) == (is_clean(a, lines) && is_clean(b, lines)),
{
    if is_clean(a + b, lines) {
        assert forall|i: int| 0 <= i < a.len() implies !is_unsafe_char(#[trigger] a[i]) || (lines
            && a[i] == '\n') by {
            assert((a + b)[i] == a[i]);
        }
        assert forall|i: int| 0 <= i < b.len() implies !is_unsafe_char(#[trigger] b[i]) || (lines
            && b[i] == '\n') by {
            assert((a + b)[a.len() + i] == b[i]);
        }
    }
    if is_clean(a, lines) && is_clean(b, lines) {
        assert forall|i: int| 0 <= i < (a + b).len() implies !is_unsafe_char(#[trigger] (a + b)[i])
            || (lines && (a + b)[i] == '\n') by {
            if i < a.len() {
                assert((a + b)[i] == a[i]);
            } else {
                assert((a + b)[i] == b[i - a.len()]);
            }
        }
    }
}

/// A text that is safe to show is clean, with line ends or without.
proof fn lemma_safe_is_clean(s: Seq<char>)
    ensures
        is_safe(s) == is_clean(s, false),
        is_safe(s) ==> is_clean(s, true),
{
    if is_clean(s, false) {
        assert forall|i: int| 0 <= i < s.len() implies !is_unsafe_char(#[trigger] s[i]) by {}
    }
}

/// What was sanitised is clean.
broadcast proof fn lemma_sanitized_clean(s: Seq<char>, lines: bool)
    ensures
        #[trigger] is_clean(sanitized(s), lines),
{
    law_sanitized_is_safe(s);
}

/// A number is clean.
broadcast proof fn lemma_dec_clean(n: nat, lines: bool)
    ensures
        #[trigger] is_clean(dec(n), lines),
    decreases n,
{
    assert(!is_unsafe_char(digit(n % 10)));
    if n >= 10 {
        lemma_dec_clean(n / 10, lines);
        let d = dec(n / 10);
        assert forall|i: int| 0 <= i < dec(n).len() implies !is_unsafe_char(#[trigger] dec(n)[i])
            || (lines && dec(n)[i] == '\n') by {
            if i < d.len() {
                assert(dec(n)[i] == d[i]);
            }
        }
    }
}

/// A number with noughts before it is clean.
broadcast proof fn lemma_pad_clean(n: nat, w: nat, lines: bool)
    ensures
        #[trigger] is_clean(pad_start(dec(n), w, '0'), lines),
{
    lemma_dec_clean(n, lines);
    lemma_clean_concat(run_of('0', w - dec(n).len()), dec(n), lines);
}

/// Clean texts with a clean separator between them are clean.
proof fn lemma_joined_clean(parts: Seq<Seq<char>>, sep: Seq<char>, lines: bool)
    requires
        is_clean(sep, lines),
        forall|i: int| 0 <= i < parts.len() ==> is_clean(#[trigger] parts[i], lines),
    ensures
        is_clean(joined(parts, sep), lines),
    decreases parts.len(),
{
    broadcast use lemma_clean_concat;

    if parts.len() > 1 {
        assert forall|i: int| 0 <= i < parts.drop_last().len() implies is_clean(
            #[trigger] parts.drop_last()[i],
            lines,
        ) by {
            assert(parts.drop_last()[i] == parts[i]);
        }
        lemma_joined_clean(parts.drop_last(), sep, lines);
        assert(is_clean(parts[parts.len() - 1], lines));
    }
}

/// The texts of a stream that the disc library renders, and the disc does not
/// choose, can be shown: those of the row hold nothing unsafe, those of its
/// longer text nothing but line ends.
pub open spec fn rendered_safe(s: Stream) -> bool {
    match s {
        Stream::Video(v) => is_safe(v.codec.name@) && is_safe(v.resolution@) && is_clean(
            v.frame_rate@,
            true,
        ) && is_clean(v.hdr_name@, true) && is_clean(v.color_space@, true),
        Stream::Audio(a) => is_safe(a.codec.name@) && is_safe(a.channels@) && is_clean(
            a.sample_rate@,
            true,
        ),
        Stream::Subtitle(s) => is_safe(s.codec.name@),
    }
}

/// A row can be shown: nothing in it is unsafe, and only its longer text holds
/// line ends.
pub open spec fn row_is_safe(r: RowText) -> bool {
    is_safe(r.type_s) && is_safe(r.desc) && is_clean(r.info, true)
}

/// Law: whatever a disc calls its streams and their languages, the row of a
/// stream can be shown exactly if what the disc library renders of it can.
pub proof fn law_stream_row_is_safe(s: Stream, ti: usize)
    ensures
        row_is_safe(stream_row(s, ti)) == rendered_safe(s),
{
    broadcast use {lemma_clean_concat, lemma_sanitized_clean};

    reveal_strlit("Video");
    reveal_strlit("Audio");
    reveal_strlit("Subtitles");
    reveal_strlit("  ");
    reveal_strlit("  —  ");
    reveal_strlit("");
    reveal_strlit(", ");
    reveal_strlit("\nLabel: ");
    let r = stream_row(s, ti);
    lemma_safe_is_clean(r.type_s);
    lemma_safe_is_clean(r.desc);
    assert(is_clean(r.type_s, false));
    assert((is_clean(r.desc, false) && is_clean(r.info, true)) == rendered_safe(s)) by {
        match s {
            Stream::Video(v) => {
                lemma_safe_is_clean(v.codec.name@);
                lemma_safe_is_clean(v.resolution@);
                reveal_strlit("Video track\n\nCodec: ");
                reveal_strlit("\nResolution: ");
                reveal_strlit("\nFrame rate: ");
                reveal_strlit("\nHDR: ");
                reveal_strlit("\nColour: ");
                assert(is_clean("Video track\n\nCodec: "@, true));
                assert(is_clean("\nResolution: "@, true));
                assert(is_clean("\nFrame rate: "@, true));
                assert(is_clean("\nHDR: "@, true));
                assert(is_clean("\nColour: "@, true));
                assert(is_clean("\nLabel: "@, true));
                assert(is_clean("  "@, false) && is_clean("  —  "@, false));
            },
            Stream::Audio(a) => {
                lemma_safe_is_clean(a.codec.name@);
                lemma_safe_is_clean(a.channels@);
                reveal_strlit("Audio track\n\nCodec: ");
                reveal_strlit("\nChannels: ");
                reveal_strlit("\nLanguage: ");
                reveal_strlit("\nSample rate: ");
                reveal_strlit("\nSecondary: yes");
                reveal_strlit("Commentary");
                reveal_strlit("Descriptive");
                reveal_strlit("Score");
                reveal_strlit("IME");
                reveal_strlit("Secondary");
                assert(is_clean("Audio track\n\nCodec: "@, true));
                assert(is_clean("\nChannels: "@, true));
                assert(is_clean("\nLanguage: "@, true));
                assert(is_clean("\nSample rate: "@, true));
                assert(is_clean("\nSecondary: yes"@, true));
                assert(is_clean("\nLabel: "@, true));
                assert(is_clean(""@, true));
                assert(is_clean("  "@, false) && is_clean("  —  "@, false));
                let words = audio_words(a);
                assert(is_clean("Commentary"@, false) && is_clean("Descriptive"@, false));
                assert(is_clean("Score"@, false) && is_clean("IME"@, false));
                assert(is_clean("Secondary"@, false));
                assert forall|i: int| 0 <= i < words.len() implies is_clean(
                    #[trigger] words[i],
                    false,
                ) by {}
                assert forall|i: int| 0 <= i < words.len() implies is_clean(
                    #[trigger] words[i],
                    true,
                ) by {
                    assert(is_clean(words[i], false));
                }
                lemma_joined_clean(words, ", "@, false);
                lemma_joined_clean(words, ", "@, true);
            },
            Stream::Subtitle(t) => {
                lemma_safe_is_clean(t.codec.name@);
                reveal_strlit("Subtitle track\n\nCodec: ");
                reveal_strlit("\nLanguage: ");
                reveal_strlit("\nForced: ");
                reveal_strlit("Forced");
                reveal_strlit("true");
                reveal_strlit("false");
                assert(is_clean("Subtitle track\n\nCodec: "@, true));
                assert(is_clean("\nLanguage: "@, true));
                assert(is_clean("\nForced: "@, true));
                assert(is_clean("Forced"@, false));
                assert(is_clean("true"@, true) && is_clean("false"@, true));
                assert(is_clean("  "@, false) && is_clean("  —  "@, false));
            },
        }
    }
}

proof fn lemma_clock_clean(secs: nat, lines: bool)
    ensures
        is_clean(clock(secs), lines),
{
    broadcast use {lemma_clean_concat, lemma_dec_clean, lemma_pad_clean};

    reveal_strlit(":");
    assert(is_clean(":"@, lines));
}

/// Law: whatever a disc calls its playlists, the row of a title can be shown
/// exactly if the size that the disc library renders can.
pub proof fn law_title_row_is_safe(t: Title, ti: usize)
    ensures
        row_is_safe(title_head(t, ti)) == is_safe(t.size_text@),
{
    broadcast use {lemma_clean_concat, lemma_sanitized_clean, lemma_dec_clean};

    let secs = t.duration_secs as nat;
    lemma_clock_clean(secs, false);
    lemma_clock_clean(secs, true);
    reveal_strlit("Title");
    reveal_strlit(".  ");
    reveal_strlit("   ");
    reveal_strlit(" chapter(s) , ");
    reveal_strlit(" , ");
    reveal_strlit("Title information\n\nIndex: ");
    reveal_strlit("\nDuration: ");
    reveal_strlit("\nChapters: ");
    reveal_strlit("\nSize: ");
    reveal_strlit("\nStreams: ");
    lemma_safe_is_clean(t.size_text@);
    assert(is_clean("Title"@, false) && is_clean(".  "@, false) && is_clean("   "@, false));
    assert(is_clean(" chapter(s) , "@, false) && is_clean(" , "@, false));
    assert(is_clean("Title information\n\nIndex: "@, true));
    assert(is_clean("\nDuration: "@, true) && is_clean("\nChapters: "@, true));
    assert(is_clean("\nSize: "@, true) && is_clean("\nStreams: "@, true));
    assert(is_clean(Seq::<char>::empty(), false));
    let r = title_head(t, ti);
    lemma_safe_is_clean(r.type_s);
    lemma_safe_is_clean(r.desc);
    assert(is_clean(r.type_s, false));
    assert(is_clean(r.desc, false) == is_clean(t.size_text@, false));
    assert(is_clean(r.info, true) == is_clean(t.size_text@, true));
}

/// Law: whatever a disc is called, its row can be shown exactly if what is said
/// of its keys can; what stands for its name always can.
pub proof fn law_disc_row_is_safe(disc: Disc, summary: Seq<char>)
    ensures
        row_is_safe(disc_row(disc, summary)) == is_clean(summary, true),
        is_safe(shown_label(disc.volume_id@)),
{
    broadcast use {lemma_clean_concat, lemma_sanitized_clean, lemma_dec_clean};

    reveal_strlit("(no label)");
    reveal_strlit(" disc");
    reveal_strlit("Uhd");
    reveal_strlit("Fmts");
    reveal_strlit("BluRay");
    reveal_strlit("HdDvd");
    reveal_strlit("Dvd");
    reveal_strlit("Unknown");
    reveal_strlit("Disc information\n\nType: ");
    reveal_strlit("\nLabel: ");
    reveal_strlit("\nProtection: ");
    reveal_strlit("\nTitles: ");
    assert(is_clean(" disc"@, false));
    assert(is_clean("Disc information\n\nType: "@, true) && is_clean("\nLabel: "@, true));
    assert(is_clean("\nProtection: "@, true) && is_clean("\nTitles: "@, true));
    let w = disc.format.word();
    assert(is_clean(w, false) && is_clean(w, true));
    let l = shown_label(disc.volume_id@);
    assert(is_clean("(no label)"@, false) && is_clean("(no label)"@, true));
    assert(is_clean(l, false) && is_clean(l, true));
    lemma_safe_is_clean(l);
    let r = disc_row(disc, summary);
    lemma_safe_is_clean(r.type_s);
    lemma_safe_is_clean(r.desc);
    assert(is_clean(r.type_s, false) && is_clean(r.desc, false));
    assert(is_clean(r.info, true) == is_clean(summary, true));
}

/// The texts of a title that the disc library renders can be shown.
pub open spec fn title_rendered_safe(t: Title) -> bool {
    is_safe(t.size_text@) && forall|i: int|
        0 <= i < t.streams@.len() ==> rendered_safe(#[trigger] t.streams@[i])
}

/// Every row can be shown.
pub open spec fn rows_safe(rows: Seq<RowText>) -> bool {
    forall|i: int| 0 <= i < rows.len() ==> row_is_safe(#[trigger] rows[i])
}

/// The first `n` titles can be shown.
pub open spec fn titles_rendered_safe(titles: Seq<Title>, n: nat) -> bool {
    forall|i: int| 0 <= i < n ==> title_rendered_safe(#[trigger] titles[i])
}

proof fn lemma_rows_safe_concat(a: Seq<RowText>, b: Seq<RowText>)
    ensures
        rows_safe(a + b) == (rows_safe(a) && rows_safe(b)),
{
    if rows_safe(a + b) {
        assert forall|i: int| 0 <= i < a.len() implies row_is_safe(#[trigger] a[i]) by {
            assert((a + b)[i] == a[i]);
        }
        assert forall|i: int| 0 <= i < b.len() implies row_is_safe(#[trigger] b[i]) by {
            assert((a + b)[a.len() + i] == b[i]);
        }
    }
}

/// The rows of a title can be shown exactly if what is rendered of it can.
proof fn lemma_one_title_safe(t: Title, ti: usize)
    ensures
        rows_safe(
            seq![title_head(t, ti)] + t.streams@.map_values(|s: Stream| stream_row(s, ti)),
        ) == title_rendered_safe(t),
{
    let head = seq![title_head(t, ti)];
    let tail = t.streams@.map_values(|s: Stream| stream_row(s, ti));
    lemma_rows_safe_concat(head, tail);
    law_title_row_is_safe(t, ti);
    assert(rows_safe(head) == row_is_safe(head[0]));
    assert forall|i: int| 0 <= i < t.streams@.len() implies row_is_safe(#[trigger] tail[i])
        == rendered_safe(t.streams@[i]) by {
        law_stream_row_is_safe(t.streams@[i], ti);
    }
    if rows_safe(tail) {
        assert forall|i: int| 0 <= i < t.streams@.len() implies rendered_safe(
            #[trigger] t.streams@[i],
        ) by {
            assert(row_is_safe(tail[i]));
        }
    }
    if title_rendered_safe(t) {
        assert forall|i: int| 0 <= i < tail.len() implies row_is_safe(#[trigger] tail[i]) by {
            assert(rendered_safe(t.streams@[i]));
        }
    }
}

proof fn lemma_title_rows_safe(titles: Seq<Title>, n: nat)
    requires
        n <= titles.len(),
    ensures
        rows_safe(title_rows(titles, n)) == titles_rendered_safe(titles, n),
    decreases n,
{
    if n > 0 {
        let m = (n - 1) as nat;
        let t = titles[n - 1];
        let ti = (n - 1) as usize;
        lemma_title_rows_safe(titles, m);
        lemma_one_title_safe(t, ti);
        let before = title_rows(titles, m);
        let tail = t.streams@.map_values(|s: Stream| stream_row(s, ti));
        let own = seq![title_head(t, ti)] + tail;
        assert(title_rows(titles, n) =~= before + own);
        lemma_rows_safe_concat(before, own);
        if titles_rendered_safe(titles, n) {
            assert(titles_rendered_safe(titles, m));
            assert(title_rendered_safe(titles[n - 1]));
        }
    }
}

/// Law: no text that a disc chooses can reach a window raw. Whatever the disc
/// says of itself, every row of it can be shown exactly if what is said of its
/// keys and what the disc library renders can.
pub proof fn law_every_row_of_a_disc_is_safe(disc: Disc, summary: Seq<char>, verbose: bool)
    ensures
        rows_safe(disc_scan(disc, summary, verbose).rows) == (is_clean(summary, true)
            && titles_rendered_safe(disc.titles@, disc.titles@.len())),
{
    law_disc_row_is_safe(disc, summary);
    lemma_title_rows_safe(disc.titles@, disc.titles@.len());
    let head = seq![disc_row(disc, summary)];
    assert(rows_safe(head) == row_is_safe(head[0]));
    lemma_rows_safe_concat(head, title_rows(disc.titles@, disc.titles@.len()));
}

/// Law: what is said of the keys of a disc can be shown if the name of the source
/// that had them can.
pub proof fn law_key_summary_is_safe(disc: Disc, won: Option<Seq<char>>)
    requires
        won matches Some(w) ==> is_safe(w),
    ensures
        is_safe(key_state(disc, won)),
{
    broadcast use lemma_clean_concat;

    reveal_strlit("unencrypted");
    reveal_strlit("CSS (DVD)");
    reveal_strlit("unlocked via ");
    reveal_strlit("unlocked");
    reveal_strlit("locked — no key yet");
    assert(is_clean("unencrypted"@, false) && is_clean("CSS (DVD)"@, false));
    assert(is_clean("unlocked via "@, false) && is_clean("unlocked"@, false));
    assert(is_clean("locked — no key yet"@, false));
    lemma_safe_is_clean(key_state(disc, won));
    if won is Some {
        lemma_safe_is_clean(won->0);
    }
}

/// How many line ends a text holds.
pub open spec fn line_ends(s: Seq<char>) -> nat
    decreases s.len(),
{
    if s.len() == 0 {
        0
    } else if s.last() == '\n' {
        line_ends(s.drop_last()) + 1
    } else {
        line_ends(s.drop_last())
    }
}

/// A text ends in a line end.
pub open spec fn ends_line(s: Seq<char>) -> bool {
    s.len() > 0 && s.last() == '\n'
}

/// How many lines a text has; a line end at its end starts no other.
pub open spec fn line_count(s: Seq<char>) -> nat {
    if s.len() == 0 || ends_line(s) {
        line_ends(s)
    } else {
        line_ends(s) + 1
    }
}

broadcast proof fn lemma_line_ends_concat(a: Seq<char>, b: Seq<char>)
    ensures
        #[trigger] line_ends(a + b) == line_ends(a) + line_ends(b),
    decreases b.len(),
{
    if b.len() == 0 {
        assert(a + b =~= a);
    } else {
        assert((a + b).drop_last() =~= a + b.drop_last());
        lemma_line_ends_concat(a, b.drop_last());
    }
}

broadcast proof fn lemma_ends_concat(a: Seq<char>, b: Seq<char>)
    ensures
        #[trigger] ends_line(a + b) == (if b.len() > 0 {
            ends_line(b)
        } else {
            ends_line(a)
        }),
{
    if b.len() == 0 {
        assert(a + b =~= a);
    }
}

/// A clean text is one line.
proof fn lemma_clean_is_one_line(s: Seq<char>)
    requires
        is_clean(s, false),
    ensures
        line_ends(s) == 0,
        !ends_line(s),
    decreases s.len(),
{
    if s.len() > 0 {
        assert(!is_unsafe_char(s[s.len() - 1]));
        assert forall|i: int| 0 <= i < s.drop_last().len() implies !is_unsafe_char(
            #[trigger] s.drop_last()[i],
        ) || (false && s.drop_last()[i] == '\n') by {
            assert(!is_unsafe_char(s[i]));
        }
        lemma_clean_is_one_line(s.drop_last());
    }
}

/// Two texts are there, or neither is.
pub open spec fn both_there(a: Seq<char>, b: Seq<char>) -> bool {
    (a.len() == 0) == (b.len() == 0)
}

/// Two streams that differ at most in what the disc calls them and their
/// language.
pub open spec fn streams_alike(a: Stream, b: Stream) -> bool {
    match (a, b) {
        (Stream::Video(v), Stream::Video(w)) => {
            &&& v.codec.name@ == w.codec.name@
            &&& v.resolution@ == w.resolution@
            &&& v.frame_rate@ == w.frame_rate@
            &&& v.hdr_name@ == w.hdr_name@
            &&& v.color_space@ == w.color_space@
            &&& both_there(v.label@, w.label@)
        },
        (Stream::Audio(v), Stream::Audio(w)) => {
            &&& v.codec.name@ == w.codec.name@
            &&& v.channels@ == w.channels@
            &&& v.sample_rate@ == w.sample_rate@
            &&& v.purpose == w.purpose
            &&& v.secondary == w.secondary
            &&& both_there(v.label@, w.label@)
        },
        (Stream::Subtitle(v), Stream::Subtitle(w)) => {
            &&& v.codec.name@ == w.codec.name@
            &&& v.forced == w.forced
        },
        _ => false,
    }
}

/// Two titles that differ at most in what the disc calls them and their streams.
pub open spec fn titles_alike(a: Title, b: Title) -> bool {
    &&& a.duration_secs == b.duration_secs
    &&& a.chapters == b.chapters
    &&& a.size_text@ == b.size_text@
    &&& a.streams@.len() == b.streams@.len()
    &&& forall|i: int|
        #![trigger a.streams@[i]]
        #![trigger b.streams@[i]]
        0 <= i < a.streams@.len() ==> streams_alike(a.streams@[i], b.streams@[i])
}

/// Two discs that differ at most in the texts that they choose.
pub open spec fn discs_alike(a: Disc, b: Disc) -> bool {
    &&& a.format == b.format
    &&& a.titles@.len() == b.titles@.len()
    &&& forall|i: int|
        #![trigger a.titles@[i]]
        #![trigger b.titles@[i]]
        0 <= i < a.titles@.len() ==> titles_alike(a.titles@[i], b.titles@[i])
}

/// The words about an audio stream are one line.
proof fn lemma_words_are_one_line(a: AudioStream)
    ensures
        is_clean(joined(audio_words(a), ", "@), false),
{
    broadcast use lemma_sanitized_clean;

    reveal_strlit("Commentary");
    reveal_strlit("Descriptive");
    reveal_strlit("Score");
    reveal_strlit("IME");
    reveal_strlit("Secondary");
    reveal_strlit(", ");
    assert(is_clean("Commentary"@, false) && is_clean("Descriptive"@, false));
    assert(is_clean("Score"@, false) && is_clean("IME"@, false) && is_clean("Secondary"@, false));
    let words = audio_words(a);
    assert forall|i: int| 0 <= i < words.len() implies is_clean(#[trigger] words[i], false) by {}
    lemma_joined_clean(words, ", "@, false);
}

proof fn lemma_stream_shape(a: Stream, b: Stream, ti: usize)
    requires
        streams_alike(a, b),
    ensures
        line_count(stream_row(a, ti).info) == line_count(stream_row(b, ti).info),
{
    broadcast use {lemma_line_ends_concat, lemma_ends_concat, lemma_sanitized_clean};

    reveal_strlit("\nLabel: ");
    match (a, b) {
        (Stream::Video(v), Stream::Video(w)) => {
            reveal_strlit("\nColour: ");
            lemma_clean_is_one_line(sanitized(v.label@));
            lemma_clean_is_one_line(sanitized(w.label@));
        },
        (Stream::Audio(v), Stream::Audio(w)) => {
            reveal_strlit("\nSample rate: ");
            lemma_clean_is_one_line(sanitized(v.language@));
            lemma_clean_is_one_line(sanitized(w.language@));
            lemma_words_are_one_line(v);
            lemma_words_are_one_line(w);
            lemma_clean_is_one_line(joined(audio_words(v), ", "@));
            lemma_clean_is_one_line(joined(audio_words(w), ", "@));
            assert(audio_words(v).len() == audio_words(w).len());
        },
        (Stream::Subtitle(v), Stream::Subtitle(w)) => {
            reveal_strlit("\nForced: ");
            lemma_clean_is_one_line(sanitized(v.language@));
            lemma_clean_is_one_line(sanitized(w.language@));
        },
        _ => {},
    }
}

proof fn lemma_title_rows_shape(a: Seq<Title>, b: Seq<Title>, n: nat)
    requires
        a.len() == b.len(),
        n <= a.len(),
        forall|i: int|
            #![trigger a[i]]
            #![trigger b[i]]
            0 <= i < a.len() ==> titles_alike(a[i], b[i]),
    ensures
        title_rows(a, n).len() == title_rows(b, n).len(),
        forall|i: int|
            0 <= i < title_rows(a, n).len() ==> line_count((#[trigger] title_rows(a, n)[i]).info)
                == line_count(title_rows(b, n)[i].info),
    decreases n,
{
    if n > 0 {
        let m = (n - 1) as nat;
        let ti = (n - 1) as usize;
        lemma_title_rows_shape(a, b, m);
        let (t, u) = (a[n - 1], b[n - 1]);
        assert(titles_alike(t, u));
        let (x, y) = (title_rows(a, m), title_rows(b, m));
        let tails = t.streams@.map_values(|s: Stream| stream_row(s, ti));
        let others = u.streams@.map_values(|s: Stream| stream_row(s, ti));
        assert(title_rows(a, n) == x.push(title_head(t, ti)) + tails);
        assert(title_rows(b, n) == y.push(title_head(u, ti)) + others);
        assert forall|i: int| 0 <= i < title_rows(a, n).len() implies line_count(
            (#[trigger] title_rows(a, n)[i]).info,
        ) == line_count(title_rows(b, n)[i].info) by {
            if i < x.len() {
                assert(title_rows(a, n)[i] == x[i] && title_rows(b, n)[i] == y[i]);
            } else if i == x.len() {
                assert(title_rows(a, n)[i] == title_head(t, ti));
                assert(title_rows(b, n)[i] == title_head(u, ti));
            } else {
                let j = i - x.len() - 1;
                assert(title_rows(a, n)[i] == tails[j] && title_rows(b, n)[i] == others[j]);
                assert(streams_alike(t.streams@[j], u.streams@[j]));
                lemma_stream_shape(t.streams@[j], u.streams@[j], ti);
            }
        }
    }
}

/// What the disc library renders can be shown of both of two such titles, or of
/// neither.
proof fn lemma_alike_rendered(t: Title, u: Title)
    requires
        titles_alike(t, u),
    ensures
        title_rendered_safe(t) == title_rendered_safe(u),
{
    assert forall|j: int|
        #![trigger t.streams@[j]]
        #![trigger u.streams@[j]]
        0 <= j < t.streams@.len() implies rendered_safe(t.streams@[j]) == rendered_safe(
        u.streams@[j],
    ) by {
        assert(streams_alike(t.streams@[j], u.streams@[j]));
    }
}

/// Law: no text that a disc chooses can add a line to a tooltip, a row to the
/// tree, or an unsafe character to either: two discs that differ in such texts
/// alone get as many rows, each with as many lines, and the rows of both can be
/// shown or those of neither. They can where what is said of the keys and what
/// the disc library renders can.
pub proof fn law_tooltips_keep_their_shape(a: Disc, b: Disc, summary: Seq<char>, verbose: bool)
    requires
        discs_alike(a, b),
    ensures
        disc_scan(a, summary, verbose).rows.len() == disc_scan(b, summary, verbose).rows.len(),
        forall|i: int|
            0 <= i < disc_scan(a, summary, verbose).rows.len() ==> line_count(
                (#[trigger] disc_scan(a, summary, verbose).rows[i]).info,
            ) == line_count(disc_scan(b, summary, verbose).rows[i].info),
        rows_safe(disc_scan(a, summary, verbose).rows) == rows_safe(
            disc_scan(b, summary, verbose).rows,
        ),
        is_clean(summary, true) && titles_rendered_safe(a.titles@, a.titles@.len()) ==> rows_safe(
            disc_scan(a, summary, verbose).rows,
        ),
{
    broadcast use {lemma_line_ends_concat, lemma_ends_concat, lemma_sanitized_clean};

    assert(rows_safe(disc_scan(a, summary, verbose).rows) == rows_safe(
        disc_scan(b, summary, verbose).rows,
    ) && (is_clean(summary, true) && titles_rendered_safe(a.titles@, a.titles@.len())
        ==> rows_safe(disc_scan(a, summary, verbose).rows))) by {
        law_every_row_of_a_disc_is_safe(a, summary, verbose);
        law_every_row_of_a_disc_is_safe(b, summary, verbose);
        assert forall|i: int|
            #![trigger a.titles@[i]]
            #![trigger b.titles@[i]]
            0 <= i < a.titles@.len() implies title_rendered_safe(a.titles@[i])
            == title_rendered_safe(b.titles@[i]) by {
            lemma_alike_rendered(a.titles@[i], b.titles@[i]);
        }
    }
    reveal_strlit("(no label)");
    reveal_strlit("\nTitles: ");
    lemma_title_rows_shape(a.titles@, b.titles@, a.titles@.len());
    assert(is_clean("(no label)"@, false));
    lemma_clean_is_one_line(shown_label(a.volume_id@));
    lemma_clean_is_one_line(shown_label(b.volume_id@));
    let (x, y) = (disc_scan(a, summary, verbose).rows, disc_scan(b, summary, verbose).rows);
    assert(line_count(disc_row(a, summary).info) == line_count(disc_row(b, summary).info));
    assert forall|i: int| 0 <= i < x.len() implies line_count((#[trigger] x[i]).info) == line_count(
        y[i].info,
    ) by {
        if i > 0 {
            assert(x[i] == title_rows(a.titles@, a.titles@.len())[i - 1]);
            assert(y[i] == title_rows(b.titles@, b.titles@.len())[i - 1]);
        }
    }
}

} // verus!
