//! `freemkv info`: the flags it takes and the lines it prints about a disc.

use crate::cli_entry::{is_flag, is_flag_token, opt_text};
use crate::disc::{
    AacsState, AudioStream, BdRegion, Codec, CodecKind, Disc, DiscFormat, DiscRegion, HdrKind,
    KeyOrigin, LabelPurpose, LabelQualifier, Stream, SubtitleStream, Title, VideoStream,
    any_nonzero, has_nonzero,
};
use crate::strings::{Catalog, filled, is_safe, sanitize_display, sanitized, text_of, text_or};
use crate::text::{
    CharClass, chars_of, dec, dec_text, hex2, hex4_upper, join_texts, joined, pad_end, pad_end_text,
    pad_start, pad_start_text, parse_unsigned, parsed_unsigned, plus_if, push_dec, push_hex2,
    push_hex4_upper, push_run, push_text, push_texts, replace_text, replaced, run_of, same_text,
    split_words, string_of, texts, trim_text, trimmed, words_of,
};
use vstd::prelude::*;
use vstd::string::*;

verus! {

/// `s` without what a crafted disc could use to steer a terminal.
pub fn sanitize(s: &str) -> (r: String)
    ensures
        r@ == sanitized(s@),
        is_safe(r@),
{
    sanitize_display(s)
}

/// The flags of `freemkv info`, for every kind of source.
#[derive(Debug, PartialEq, Eq)]
pub struct InfoFlags {
    pub quiet: bool,
    pub verbose: bool,
    pub full: bool,
    pub basic: bool,
    pub keydb: Option<String>,
    /// The value of `--log-level` where it is no number.
    pub bad_log_level: Option<String>,
}

impl Default for InfoFlags {
    /// No flag given.
    fn default() -> (f: Self)
        ensures
            f@ == no_flags(),
    {
        InfoFlags {
            quiet: false,
            verbose: false,
            full: false,
            basic: false,
            keydb: None,
            bad_log_level: None,
        }
    }
}

/// What [`InfoFlags`] say.
pub struct InfoRequest {
    pub quiet: bool,
    pub verbose: bool,
    pub full: bool,
    pub basic: bool,
    pub keydb: Option<Seq<char>>,
    pub bad_log_level: Option<Seq<char>>,
}

impl View for InfoFlags {
    type V = InfoRequest;

    open spec fn view(&self) -> InfoRequest {
        InfoRequest {
            quiet: self.quiet,
            verbose: self.verbose,
            full: self.full,
            basic: self.basic,
            keydb: opt_text(self.keydb),
            bad_log_level: opt_text(self.bad_log_level),
        }
    }
}

/// No flag given.
pub open spec fn no_flags() -> InfoRequest {
    InfoRequest {
        quiet: false,
        verbose: false,
        full: false,
        basic: false,
        keydb: None,
        bad_log_level: None,
    }
}

/// What reading the flags came to.
#[derive(Debug, PartialEq, Eq)]
pub enum InfoParse {
    Flags(Box<InfoFlags>),
    Help,
    /// An option that `info` does not take.
    Unknown(String),
}

/// What an [`InfoParse`] says.
pub enum InfoAnswer {
    Flags(InfoRequest),
    Help,
    Unknown(Seq<char>),
}

impl View for InfoParse {
    type V = InfoAnswer;

    open spec fn view(&self) -> InfoAnswer {
        match *self {
            InfoParse::Flags(f) => InfoAnswer::Flags(f@),
            InfoParse::Help => InfoAnswer::Help,
            InfoParse::Unknown(s) => InfoAnswer::Unknown(s@),
        }
    }
}

/// The argument after position `i` can be the value of the flag at `i`.
pub open spec fn has_info_value(args: Seq<Seq<char>>, i: int) -> bool {
    i + 1 < args.len() && !is_flag(args[i + 1])
}

/// What `--log-level` with `value` makes of the flags.
pub open spec fn with_log_level(f: InfoRequest, value: Seq<char>) -> InfoRequest {
    match parsed_unsigned(value, 255) {
        Some(n) => if n >= 2 {
            InfoRequest { verbose: true, ..f }
        } else {
            f
        },
        None => InfoRequest { bad_log_level: Some(value), ..f },
    }
}

/// What the arguments from position `i` on say, after the flags `f`.
pub open spec fn info_from(args: Seq<Seq<char>>, i: int, f: InfoRequest) -> InfoAnswer
    decreases args.len() - i,
{
    if i < 0 || i >= args.len() {
        InfoAnswer::Flags(f)
    } else {
        let a = args[i];
        if a == "--quiet"@ || a == "-q"@ {
            info_from(args, i + 1, InfoRequest { quiet: true, ..f })
        } else if a == "--verbose"@ || a == "-v"@ {
            info_from(args, i + 1, InfoRequest { verbose: true, ..f })
        } else if a == "--keydb"@ {
            if has_info_value(args, i) {
                info_from(args, i + 2, InfoRequest { keydb: Some(args[i + 1]), ..f })
            } else {
                info_from(args, i + 1, f)
            }
        } else if a == "--log-level"@ {
            if has_info_value(args, i) {
                info_from(args, i + 2, with_log_level(f, args[i + 1]))
            } else {
                info_from(args, i + 1, f)
            }
        } else if a == "--log-file"@ {
            if has_info_value(args, i) {
                info_from(args, i + 2, f)
            } else {
                info_from(args, i + 1, f)
            }
        } else if a == "--full"@ || a == "-f"@ {
            info_from(args, i + 1, InfoRequest { full: true, ..f })
        } else if a == "--basic"@ || a == "-b"@ {
            info_from(args, i + 1, InfoRequest { basic: true, ..f })
        } else if a == "--share"@ || a == "-s"@ || a == "--mask"@ || a == "-m"@ {
            InfoAnswer::Unknown(a)
        } else if a == "--help"@ || a == "-h"@ {
            InfoAnswer::Help
        } else {
            InfoAnswer::Unknown(a)
        }
    }
}

/// Reads the flags of `info`. The first option that it does not take is named;
/// a flag is never taken for the value of another.
pub fn parse_info_flags(args: &[String]) -> (r: InfoParse)
    ensures
        r@ == info_from(texts(args@), 0, no_flags()),
{
    let mut f = InfoFlags::default();
    let ghost all = texts(args@);
    let mut i: usize = 0;
    while i < args.len()
        invariant
            all == texts(args@),
            all.len() == args@.len(),
            info_from(all, 0, no_flags()) == info_from(all, i as int, f@),
        decreases args@.len() - i,
    {
        assert(all[i as int] == args@[i as int]@);
        let a = args[i].as_str();
        let valued = if i + 1 < args.len() {
            assert(all[i + 1] == args@[i + 1]@);
            !is_flag_token(args[i + 1].as_str())
        } else {
            false
        };
        if same_text(a, "--quiet") || same_text(a, "-q") {
            f.quiet = true;
        } else if same_text(a, "--verbose") || same_text(a, "-v") {
            f.verbose = true;
        } else if same_text(a, "--keydb") {
            if valued {
                f.keydb = Some(args[i + 1].clone());
                i = i + 1;
            }
        } else if same_text(a, "--log-level") {
            if valued {
                match parse_unsigned(args[i + 1].as_str(), 255) {
                    Some(n) => {
                        if n >= 2 {
                            f.verbose = true;
                        }
                    },
                    None => {
                        f.bad_log_level = Some(args[i + 1].clone());
                    },
                }
                i = i + 1;
            }
        } else if same_text(a, "--log-file") {
            if valued {
                i = i + 1;
            }
        } else if same_text(a, "--full") || same_text(a, "-f") {
            f.full = true;
        } else if same_text(a, "--basic") || same_text(a, "-b") {
            f.basic = true;
        } else if same_text(a, "--share") || same_text(a, "-s") || same_text(a, "--mask")
            || same_text(a, "-m") {
            return InfoParse::Unknown(args[i].clone());
        } else if same_text(a, "--help") || same_text(a, "-h") {
            return InfoParse::Help;
        } else {
            return InfoParse::Unknown(args[i].clone());
        }
        i = i + 1;
    }
    InfoParse::Flags(Box::new(f))
}

/// The column at which the value of a stream starts: six spaces, the label, a
/// colon and two spaces before it; never past the last column there is.
pub open spec fn indent_for(label: Seq<char>) -> nat {
    if 6 + label.len() + 1 + 2 <= usize::MAX {
        6 + label.len() + 1 + 2
    } else {
        usize::MAX as nat
    }
}

/// The column at which the value behind `label` starts.
pub fn label_indent(label: &str) -> (n: usize)
    ensures
        n == indent_for(label@),
{
    label.unicode_len().saturating_add(6 + 1 + 2)
}

/// The start of the first line of a group: the label, filled up with spaces to
/// the column `indent`.
pub open spec fn prefix_for(label: Seq<char>, indent: nat) -> Seq<char> {
    pad_end("      "@ + label + ":"@, indent, ' ')
}

/// The start of the first line of a group of streams.
pub fn label_prefix(label: &str, indent: usize) -> (r: String)
    ensures
        r@ == prefix_for(label@, indent as nat),
{
    let mut head = "      ".to_owned();
    head.append(label);
    head.append(":");
    pad_end_text(head.as_str(), indent, ' ')
}

/// Law: the value behind a label starts at the common column, for every label
/// no wider than the widest.
pub proof fn law_values_line_up(label: Seq<char>, indent: nat)
    requires
        indent >= 6 + label.len() + 1 + 2,
    ensures
        prefix_for(label, indent).len() == indent,
{
    reveal_strlit("      ");
    reveal_strlit(":");
}

/// The bytes in lower-case hexadecimal, two digits each.
pub open spec fn hex_of(bytes: Seq<u8>) -> Seq<char>
    decreases bytes.len(),
{
    if bytes.len() == 0 {
        Seq::empty()
    } else {
        hex_of(bytes.drop_last()) + hex2(bytes.last() as nat)
    }
}

/// The bytes in lower-case hexadecimal, without separators.
pub fn hex_bytes(bytes: &[u8]) -> (r: String)
    ensures
        r@ == hex_of(bytes@),
{
    let mut out = String::new();
    for i in 0..bytes.len()
        invariant
            out@ == hex_of(bytes@.take(i as int)),
    {
        push_hex2(&mut out, bytes[i]);
        assert(bytes@.take(i + 1).drop_last() =~= bytes@.take(i as int));
    }
    assert(bytes@.take(bytes@.len() as int) =~= bytes@);
    out
}

/// The key of the text for what a track is for.
pub open spec fn purpose_word(p: LabelPurpose) -> Option<Seq<char>> {
    match p {
        LabelPurpose::Commentary => Some("stream.purpose.commentary"@),
        LabelPurpose::Descriptive => Some("stream.purpose.descriptive"@),
        LabelPurpose::Score => Some("stream.purpose.score"@),
        LabelPurpose::Ime => Some("stream.purpose.ime"@),
        LabelPurpose::Normal => None,
    }
}

/// The text of an optional string slice.
pub open spec fn opt_str(o: Option<&str>) -> Option<Seq<char>> {
    match o {
        Some(s) => Some(s@),
        None => None,
    }
}

/// The key of the text for what a track is for; an ordinary track has none.
pub fn purpose_key(p: LabelPurpose) -> (r: Option<&'static str>)
    ensures
        opt_str(r) == purpose_word(p),
{
    match p {
        LabelPurpose::Commentary => Some("stream.purpose.commentary"),
        LabelPurpose::Descriptive => Some("stream.purpose.descriptive"),
        LabelPurpose::Score => Some("stream.purpose.score"),
        LabelPurpose::Ime => Some("stream.purpose.ime"),
        LabelPurpose::Normal => None,
    }
}

/// The key of the text for what a subtitle track adds.
pub open spec fn qualifier_word(q: LabelQualifier) -> Option<Seq<char>> {
    match q {
        LabelQualifier::Sdh => Some("stream.qualifier.sdh"@),
        LabelQualifier::DescriptiveService => Some("stream.qualifier.descriptive_service"@),
        LabelQualifier::Plain | LabelQualifier::Forced => None,
    }
}

/// The key of the text for what a subtitle track adds. Forced subtitles are
/// marked by their flag, not here.
pub fn qualifier_key(q: LabelQualifier) -> (r: Option<&'static str>)
    ensures
        opt_str(r) == qualifier_word(q),
{
    match q {
        LabelQualifier::Sdh => Some("stream.qualifier.sdh"),
        LabelQualifier::DescriptiveService => Some("stream.qualifier.descriptive_service"),
        LabelQualifier::Plain => None,
        LabelQualifier::Forced => None,
    }
}

/// The name under which a codec is listed.
pub open spec fn listed_codec(c: Codec) -> Seq<char> {
    match c.kind {
        CodecKind::Ac3 => "DD"@,
        CodecKind::Ac3Plus => "DD+"@,
        CodecKind::DvdSub => "DVD Sub"@,
        CodecKind::Unknown(t) => "0x"@ + hex2(t as nat),
        CodecKind::Other => c.name@,
    }
}

/// The name under which a codec is listed.
pub fn codec_name(c: &Codec) -> (r: String)
    ensures
        r@ == listed_codec(*c),
{
    match c.kind {
        CodecKind::Ac3 => "DD".to_owned(),
        CodecKind::Ac3Plus => "DD+".to_owned(),
        CodecKind::DvdSub => "DVD Sub".to_owned(),
        CodecKind::Unknown(t) => {
            let mut s = "0x".to_owned();
            push_hex2(&mut s, t);
            s
        },
        CodecKind::Other => c.name.clone(),
    }
}

/// The English name of the language with an ISO 639-3 code.
pub uninterp spec fn name_639_3(code: Seq<char>) -> Option<Seq<char>>;

/// The English name of the language with an ISO 639-1 code.
pub uninterp spec fn name_639_1(code: Seq<char>) -> Option<Seq<char>>;

/// `isolang::Language::from_639_3`, with the name that `to_name` gives what it
/// finds. The result depends on the code alone; a code that is not three bytes
/// long names no language. Which codes name which language is not stated.
#[verifier::external_body]
pub(crate) fn language_639_3(code: &str) -> (r: Option<String>)
    ensures
        opt_text(r) == name_639_3(code@),
        code.spec_bytes().len() != 3 ==> r is None,
{
    isolang::Language::from_639_3(code).map(|l| l.to_name().to_string())
}

/// `isolang::Language::from_639_1`, with the name that `to_name` gives what it
/// finds. The result depends on the code alone; a code that is not two bytes
/// long names no language. Which codes name which language is not stated.
#[verifier::external_body]
pub(crate) fn language_639_1(code: &str) -> (r: Option<String>)
    ensures
        opt_text(r) == name_639_1(code@),
        code.spec_bytes().len() != 2 ==> r is None,
{
    isolang::Language::from_639_1(code).map(|l| l.to_name().to_string())
}

/// What is shown for a language code, given what the two tables say of it. A
/// code that neither knows is shown as it is, but for its unsafe characters.
pub open spec fn shown_language(
    code: Seq<char>,
    by_three: Option<Seq<char>>,
    by_two: Option<Seq<char>>,
) -> Seq<char> {
    if code.len() == 0 {
        "?"@
    } else {
        match by_three {
            Some(n) => n,
            None => match by_two {
                Some(n) => n,
                None => sanitized(code),
            },
        }
    }
}

/// What is shown for a language code that the tables name as given.
pub fn language_shown(code: &str, by_three: Option<String>, by_two: Option<String>) -> (r: String)
    ensures
        r@ == shown_language(code@, opt_text(by_three), opt_text(by_two)),
{
    if code.is_empty() {
        return "?".to_owned();
    }
    match by_three {
        Some(n) => n,
        None => match by_two {
            Some(n) => n,
            None => sanitize(code),
        },
    }
}

/// The name shown for the language code `code`.
pub open spec fn lang_shown(code: Seq<char>) -> Seq<char> {
    shown_language(code, name_639_3(code), name_639_1(code))
}

/// The name of the language with the code `code`.
pub fn lang_name(code: &str) -> (r: String)
    ensures
        r@ == lang_shown(code@),
{
    language_shown(code, language_639_3(code), language_639_1(code))
}

/// A character in upper case, by Unicode's rules.
pub uninterp spec fn char_in_upper_case(c: char) -> Seq<char>;

/// A text in lower case, by Unicode's rules.
pub uninterp spec fn text_in_lower_case(s: Seq<char>) -> Seq<char>;

/// `char::to_uppercase`: the upper case of one character, which may be several.
/// It depends on the character alone; which it is is not stated.
#[verifier::external_body]
fn upper_case(c: char) -> (r: String)
    ensures
        r@ == char_in_upper_case(c),
{
    c.to_uppercase().to_string()
}

/// `str::to_lowercase`: the lower case of a text. It depends on the text alone;
/// which it is is not stated.
#[verifier::external_body]
pub(crate) fn lower_case(s: &str) -> (r: String)
    ensures
        r@ == text_in_lower_case(s@),
{
    s.to_lowercase()
}

/// A word with a capital: its first character in upper case, the rest in lower.
pub open spec fn capitalized(w: Seq<char>) -> Seq<char> {
    if w.len() == 0 {
        w
    } else {
        char_in_upper_case(w[0]) + text_in_lower_case(w.skip(1))
    }
}

/// The label of a volume as words with capitals; an underscore is a space.
pub open spec fn volume_title(vol_id: Seq<char>) -> Seq<char> {
    joined(words_of(replaced(vol_id, "_"@, " "@)).map_values(|w: Seq<char>| capitalized(w)), " "@)
}

fn capitalize(w: &str) -> (r: String)
    ensures
        r@ == capitalized(w@),
{
    let v = chars_of(w);
    if v.len() == 0 {
        return w.to_owned();
    }
    assert(v@.subrange(1, v@.len() as int) =~= w@.skip(1));
    let rest = string_of(vstd::slice::slice_subrange(v.as_slice(), 1, v.len()));
    let mut r = upper_case(v[0]);
    r.append(lower_case(rest.as_str()).as_str());
    r
}

/// The label of a volume as a title.
pub fn format_volume_id(vol_id: &str) -> (r: String)
    ensures
        r@ == volume_title(vol_id@),
{
    proof {
        reveal_strlit("_");
    }
    let spaced = replace_text(vol_id, "_", " ");
    let words = split_words(spaced.as_str());
    let ghost all = texts(words@);
    let ghost wanted = all.map_values(|w: Seq<char>| capitalized(w));
    let mut out: Vec<String> = Vec::new();
    for i in 0..words.len()
        invariant
            all == texts(words@),
            all.len() == words@.len(),
            wanted == all.map_values(|w: Seq<char>| capitalized(w)),
            texts(out@) == wanted.take(i as int),
    {
        assert(all[i as int] == words@[i as int]@);
        push_text(&mut out, capitalize(words[i].as_str()));
        assert(texts(out@) =~= wanted.take(i + 1));
    }
    assert(wanted.take(words@.len() as int) =~= wanted);
    join_texts(&out, " ")
}

/// A packet identifier as it is shown.
pub open spec fn pid_text(pid: u16) -> Seq<char> {
    "[PID 0x"@ + hex4_upper(pid as nat) + "]"@
}

pub(crate) fn pid_shown(pid: u16) -> (r: String)
    ensures
        r@ == pid_text(pid),
{
    let mut s = "[PID 0x".to_owned();
    push_hex4_upper(&mut s, pid);
    s.append("]");
    s
}

/// The parts of the line about a video stream.
pub open spec fn video_parts(
    c: Seq<(Seq<char>, Seq<char>)>,
    v: VideoStream,
    verbose: bool,
) -> Seq<Seq<char>> {
    let p0 = seq![listed_codec(v.codec), v.resolution@];
    let p1 = plus_if(p0, v.frame_rate_known, v.frame_rate@ + "fps"@);
    let p2 = plus_if(p1, v.hdr != HdrKind::Sdr, v.hdr_name@);
    let p3 = plus_if(p2, v.bt2020, "BT.2020"@);
    let p4 = if v.secondary && v.hdr == HdrKind::DolbyVision {
        p3.push(text_of(c, "disc.dolby_vision_el"@))
    } else {
        plus_if(p3, v.secondary && v.label@.len() > 0, sanitized(v.label@))
    };
    plus_if(p4, verbose, pid_text(v.pid))
}

/// The line about a video stream.
pub fn format_video(c: &Catalog, v: &VideoStream, verbose: bool) -> (r: String)
    ensures
        r@ == joined(video_parts(c@, *v, verbose), " "@),
{
    let mut parts: Vec<String> = Vec::new();
    push_text(&mut parts, codec_name(&v.codec));
    push_text(&mut parts, v.resolution.clone());
    assert(texts(parts@) =~= seq![listed_codec(v.codec), v.resolution@]);
    if v.frame_rate_known {
        let mut rate = v.frame_rate.clone();
        rate.append("fps");
        push_text(&mut parts, rate);
    }
    if v.hdr != HdrKind::Sdr {
        push_text(&mut parts, v.hdr_name.clone());
    }
    if v.bt2020 {
        push_text(&mut parts, "BT.2020".to_owned());
    }
    if v.secondary && v.hdr == HdrKind::DolbyVision {
        push_text(&mut parts, c.get("disc.dolby_vision_el"));
    } else if v.secondary && !v.label.as_str().is_empty() {
        push_text(&mut parts, sanitize(v.label.as_str()));
    }
    if verbose {
        push_text(&mut parts, pid_shown(v.pid));
    }
    join_texts(&parts, " ")
}

/// The remarks on an audio stream: what it is for, that it is secondary, and
/// its label.
pub open spec fn audio_tags(c: Seq<(Seq<char>, Seq<char>)>, a: AudioStream) -> Seq<Seq<char>> {
    let t0 = match purpose_word(a.purpose) {
        Some(k) => seq![text_of(c, k)],
        None => Seq::empty(),
    };
    let t1 = plus_if(t0, a.secondary, text_of(c, "stream.secondary"@));
    plus_if(t1, a.label@.len() > 0, sanitized(a.label@))
}

/// The remarks on an audio stream.
pub fn audio_remarks(c: &Catalog, a: &AudioStream) -> (r: Vec<String>)
    ensures
        texts(r@) == audio_tags(c@, *a),
{
    let mut tags: Vec<String> = Vec::new();
    assert(texts(tags@) =~= Seq::empty());
    if let Some(k) = purpose_key(a.purpose) {
        push_text(&mut tags, c.get(k));
        assert(texts(tags@) =~= seq![text_of(c@, k@)]);
    }
    if a.secondary {
        push_text(&mut tags, c.get("stream.secondary"));
    }
    if !a.label.as_str().is_empty() {
        push_text(&mut tags, sanitize(a.label.as_str()));
    }
    tags
}

/// The line about an audio stream.
pub open spec fn audio_line(
    c: Seq<(Seq<char>, Seq<char>)>,
    a: AudioStream,
    verbose: bool,
) -> Seq<char> {
    let s0 = lang_shown(a.language@) + " "@ + listed_codec(a.codec) + " "@ + a.channels@;
    let s1 = if verbose {
        s0 + " "@ + a.sample_rate@ + " "@ + pid_text(a.pid)
    } else {
        s0
    };
    let tags = audio_tags(c, a);
    if tags.len() > 0 {
        s1 + " ("@ + joined(tags, ", "@) + ")"@
    } else {
        s1
    }
}

/// The line about an audio stream.
pub fn format_audio(c: &Catalog, a: &AudioStream, verbose: bool) -> (r: String)
    ensures
        r@ == audio_line(c@, *a, verbose),
{
    let mut s = lang_name(a.language.as_str());
    s.append(" ");
    s.append(codec_name(&a.codec).as_str());
    s.append(" ");
    s.append(a.channels.as_str());
    if verbose {
        s.append(" ");
        s.append(a.sample_rate.as_str());
        s.append(" ");
        s.append(pid_shown(a.pid).as_str());
    }
    let tags = audio_remarks(c, a);
    assert(texts(tags@).len() == tags@.len());
    if tags.len() > 0 {
        s.append(" (");
        s.append(join_texts(&tags, ", ").as_str());
        s.append(")");
    }
    s
}

/// The remarks on a subtitle stream: that it is forced, and what it adds.
pub open spec fn subtitle_tags(c: Seq<(Seq<char>, Seq<char>)>, s: SubtitleStream) -> Seq<
    Seq<char>,
> {
    let t0 = plus_if(Seq::empty(), s.forced, text_of(c, "disc.forced"@));
    match qualifier_word(s.qualifier) {
        Some(k) => t0.push(text_of(c, k)),
        None => t0,
    }
}

/// The line about a subtitle stream.
pub open spec fn subtitle_line(
    c: Seq<(Seq<char>, Seq<char>)>,
    s: SubtitleStream,
    verbose: bool,
) -> Seq<char> {
    let tags = subtitle_tags(c, s);
    let lang = lang_shown(s.language@);
    let line = if tags.len() == 0 {
        lang
    } else {
        lang + " ("@ + joined(tags, ", "@) + ")"@
    };
    if verbose {
        line + " "@ + pid_text(s.pid)
    } else {
        line
    }
}

/// The line about a subtitle stream.
pub fn format_subtitle(c: &Catalog, s: &SubtitleStream, verbose: bool) -> (r: String)
    ensures
        r@ == subtitle_line(c@, *s, verbose),
{
    let mut tags: Vec<String> = Vec::new();
    assert(texts(tags@) =~= Seq::empty());
    if s.forced {
        push_text(&mut tags, c.get("disc.forced"));
    }
    if let Some(k) = qualifier_key(s.qualifier) {
        push_text(&mut tags, c.get(k));
    }
    assert(texts(tags@).len() == tags@.len());
    let mut line = lang_name(s.language.as_str());
    if tags.len() > 0 {
        line.append(" (");
        line.append(join_texts(&tags, ", ").as_str());
        line.append(")");
    }
    if verbose {
        line.append(" ");
        line.append(pid_shown(s.pid).as_str());
    }
    line
}

/// The lines about the video streams among the first `n`.
pub open spec fn video_lines(
    c: Seq<(Seq<char>, Seq<char>)>,
    streams: Seq<Stream>,
    verbose: bool,
    n: nat,
) -> Seq<Seq<char>>
    decreases n,
{
    if n == 0 {
        Seq::empty()
    } else {
        let before = video_lines(c, streams, verbose, (n - 1) as nat);
        match streams[n - 1] {
            Stream::Video(v) => before.push(joined(video_parts(c, v, verbose), " "@)),
            _ => before,
        }
    }
}

/// The lines about the audio streams among the first `n`.
pub open spec fn audio_lines(
    c: Seq<(Seq<char>, Seq<char>)>,
    streams: Seq<Stream>,
    verbose: bool,
    n: nat,
) -> Seq<Seq<char>>
    decreases n,
{
    if n == 0 {
        Seq::empty()
    } else {
        let before = audio_lines(c, streams, verbose, (n - 1) as nat);
        match streams[n - 1] {
            Stream::Audio(a) => before.push(audio_line(c, a, verbose)),
            _ => before,
        }
    }
}

/// The lines about the subtitle streams among the first `n`.
pub open spec fn subtitle_lines(
    c: Seq<(Seq<char>, Seq<char>)>,
    streams: Seq<Stream>,
    verbose: bool,
    n: nat,
) -> Seq<Seq<char>>
    decreases n,
{
    if n == 0 {
        Seq::empty()
    } else {
        let before = subtitle_lines(c, streams, verbose, (n - 1) as nat);
        match streams[n - 1] {
            Stream::Subtitle(s) => before.push(subtitle_line(c, s, verbose)),
            _ => before,
        }
    }
}

/// The rows of a group: the first behind the label, the others under it.
pub open spec fn group_rows(label: Seq<char>, indent: nat, rows: Seq<Seq<char>>) -> Seq<Seq<char>> {
    Seq::new(
        rows.len(),
        |i: int|
            if i == 0 {
                prefix_for(label, indent) + rows[i]
            } else {
                run_of(' ', indent as int) + rows[i]
            },
    )
}

/// A group with an empty line before it; nothing where there are no rows.
pub open spec fn group_lines(label: Seq<char>, indent: nat, rows: Seq<Seq<char>>) -> Seq<
    Seq<char>,
> {
    if rows.len() == 0 {
        Seq::empty()
    } else {
        seq![Seq::<char>::empty()] + group_rows(label, indent, rows)
    }
}

fn push_group(lines: &mut Vec<String>, label: &str, indent: usize, rows: &Vec<String>)
    ensures
        texts(final(lines)@) == texts(old(lines)@) + group_lines(
            label@,
            indent as nat,
            texts(rows@),
        ),
{
    let ghost start = texts(lines@);
    let ghost all = texts(rows@);
    let ghost wanted = group_rows(label@, indent as nat, all);
    if rows.len() == 0 {
        assert(start + group_lines(label@, indent as nat, all) =~= start);
        return;
    }
    push_text(lines, String::new());
    assert(texts(lines@) =~= start + seq![Seq::<char>::empty()] + wanted.take(0));
    for i in 0..rows.len()
        invariant
            all == texts(rows@),
            all.len() == rows@.len(),
            wanted == group_rows(label@, indent as nat, all),
            texts(lines@) == start + seq![Seq::<char>::empty()] + wanted.take(i as int),
    {
        let mut row = if i == 0 {
            label_prefix(label, indent)
        } else {
            let mut s = String::new();
            push_run(&mut s, ' ', indent);
            assert(s@ =~= run_of(' ', indent as int));
            s
        };
        row.append(rows[i].as_str());
        assert(all[i as int] == rows@[i as int]@);
        assert(row@ == wanted[i as int]);
        push_text(lines, row);
        assert(texts(lines@) =~= start + seq![Seq::<char>::empty()] + wanted.take(i + 1));
    }
    assert(start + seq![Seq::<char>::empty()] + wanted.take(wanted.len() as int) =~= start
        + group_lines(label@, indent as nat, all));
}

/// The greatest of three numbers.
pub open spec fn max3(a: nat, b: nat, c: nat) -> nat {
    if a >= b && a >= c {
        a
    } else if b >= c {
        b
    } else {
        c
    }
}

/// The column at which the values of all streams start.
pub open spec fn common_indent(c: Seq<(Seq<char>, Seq<char>)>) -> nat {
    max3(
        indent_for(text_of(c, "disc.video"@)),
        indent_for(text_of(c, "disc.audio"@)),
        indent_for(text_of(c, "disc.subtitle"@)),
    )
}

/// The line that names a title.
pub open spec fn title_row(c: Seq<(Seq<char>, Seq<char>)>, t: Title, index: nat) -> Seq<char> {
    "  "@ + pad_start(dec(index + 1), 2, ' ') + ". "@ + pad_end(sanitized(t.playlist@), 14, ' ')
        + "  "@ + pad_start(dec((t.duration_secs / 3600) as nat), 2, ' ') + "h "@ + pad_start(
        dec((t.duration_secs % 3600 / 60) as nat),
        2,
        '0',
    ) + "m  "@ + pad_start(t.size_gb@, 5, ' ') + " GB  "@ + dec(t.clips@.len()) + " "@ + text_of(
        c,
        if t.clips@.len() != 1 {
            "disc.clips"@
        } else {
            "disc.clip"@
        },
    )
}

fn title_row_text(c: &Catalog, t: &Title, index: usize) -> (r: String)
    requires
        index < u64::MAX,
    ensures
        r@ == title_row(c@, *t, index as nat),
{
    let mut s = "  ".to_owned();
    s.append(pad_start_text(dec_text(index as u64 + 1).as_str(), 2, ' ').as_str());
    s.append(". ");
    s.append(pad_end_text(sanitize(t.playlist.as_str()).as_str(), 14, ' ').as_str());
    s.append("  ");
    s.append(pad_start_text(dec_text(t.duration_secs / 3600).as_str(), 2, ' ').as_str());
    s.append("h ");
    s.append(pad_start_text(dec_text(t.duration_secs % 3600 / 60).as_str(), 2, '0').as_str());
    s.append("m  ");
    s.append(pad_start_text(t.size_gb.as_str(), 5, ' ').as_str());
    s.append(" GB  ");
    s.append(dec_text(t.clips.len() as u64).as_str());
    s.append(" ");
    s.append(
        c.get(
            if t.clips.len() != 1 {
                "disc.clips"
            } else {
                "disc.clip"
            },
        ).as_str(),
    );
    s
}

/// The lines about one title: its row and, unless only rows are wanted, its
/// streams in three groups and an empty line.
pub open spec fn title_block(
    c: Seq<(Seq<char>, Seq<char>)>,
    t: Title,
    index: nat,
    verbose: bool,
    basic: bool,
) -> Seq<Seq<char>> {
    let row = seq![title_row(c, t, index)];
    if basic {
        row
    } else {
        let n = t.streams@.len();
        let indent = common_indent(c);
        row + group_lines(
            text_of(c, "disc.video"@),
            indent,
            video_lines(c, t.streams@, verbose, n),
        ) + group_lines(
            text_of(c, "disc.audio"@),
            indent,
            audio_lines(c, t.streams@, verbose, n),
        ) + group_lines(
            text_of(c, "disc.subtitle"@),
            indent,
            subtitle_lines(c, t.streams@, verbose, n),
        ) + seq![Seq::<char>::empty()]
    }
}

/// The lines about the first `n` titles.
pub open spec fn title_blocks(
    c: Seq<(Seq<char>, Seq<char>)>,
    titles: Seq<Title>,
    verbose: bool,
    basic: bool,
    n: nat,
) -> Seq<Seq<char>>
    decreases n,
{
    if n == 0 {
        Seq::empty()
    } else {
        title_blocks(c, titles, verbose, basic, (n - 1) as nat) + title_block(
            c,
            titles[n - 1],
            (n - 1) as nat,
            verbose,
            basic,
        )
    }
}

/// How many of `n` titles are listed: five, unless all are wanted.
pub open spec fn listed_titles(n: nat, full: bool) -> nat {
    if full || n <= 5 {
        n
    } else {
        5
    }
}

/// The title list of a disc.
pub open spec fn title_list(
    c: Seq<(Seq<char>, Seq<char>)>,
    titles: Seq<Title>,
    full: bool,
    verbose: bool,
    basic: bool,
) -> Seq<Seq<char>> {
    if titles.len() == 0 {
        seq![text_of(c, "disc.no_titles"@)]
    } else {
        let shown = listed_titles(titles.len(), full);
        let list = seq![text_of(c, "disc.titles"@), Seq::<char>::empty()] + title_blocks(
            c,
            titles,
            verbose,
            basic,
            shown,
        );
        if titles.len() > shown {
            list.push(
                filled(
                    text_of(c, "disc.more_titles"@),
                    seq![("count"@, dec((titles.len() - shown) as nat))],
                ),
            ).push(Seq::<char>::empty())
        } else {
            list
        }
    }
}

fn stream_groups(c: &Catalog, t: &Title, indent: usize, verbose: bool, lines: &mut Vec<String>)
    ensures
        texts(final(lines)@) == texts(old(lines)@) + group_lines(
            text_of(c@, "disc.video"@),
            indent as nat,
            video_lines(c@, t.streams@, verbose, t.streams@.len()),
        ) + group_lines(
            text_of(c@, "disc.audio"@),
            indent as nat,
            audio_lines(c@, t.streams@, verbose, t.streams@.len()),
        ) + group_lines(
            text_of(c@, "disc.subtitle"@),
            indent as nat,
            subtitle_lines(c@, t.streams@, verbose, t.streams@.len()),
        ),
{
    let mut videos: Vec<String> = Vec::new();
    let mut audios: Vec<String> = Vec::new();
    let mut subs: Vec<String> = Vec::new();
    assert(texts(videos@) =~= Seq::empty());
    assert(texts(audios@) =~= Seq::empty());
    assert(texts(subs@) =~= Seq::empty());
    for i in 0..t.streams.len()
        invariant
            texts(videos@) == video_lines(c@, t.streams@, verbose, i as nat),
            texts(audios@) == audio_lines(c@, t.streams@, verbose, i as nat),
            texts(subs@) == subtitle_lines(c@, t.streams@, verbose, i as nat),
    {
        match &t.streams[i] {
            Stream::Video(v) => {
                push_text(&mut videos, format_video(c, v, verbose));
            },
            Stream::Audio(a) => {
                push_text(&mut audios, format_audio(c, a, verbose));
            },
            Stream::Subtitle(s) => {
                push_text(&mut subs, format_subtitle(c, s, verbose));
            },
        }
    }
    push_group(lines, c.get("disc.video").as_str(), indent, &videos);
    push_group(lines, c.get("disc.audio").as_str(), indent, &audios);
    push_group(lines, c.get("disc.subtitle").as_str(), indent, &subs);
}

fn title_block_lines(
    c: &Catalog,
    t: &Title,
    index: usize,
    indent: usize,
    verbose: bool,
    basic: bool,
) -> (r: Vec<String>)
    requires
        index < u64::MAX,
        indent == common_indent(c@),
    ensures
        texts(r@) == title_block(c@, *t, index as nat, verbose, basic),
{
    let mut lines: Vec<String> = Vec::new();
    let row = title_row_text(c, t, index);
    push_text(&mut lines, row);
    assert(texts(lines@) =~= seq![row@]);
    if !basic {
        stream_groups(c, t, indent, verbose, &mut lines);
        let ghost groups = texts(lines@);
        push_text(&mut lines, String::new());
        assert(texts(lines@) =~= groups + seq![Seq::<char>::empty()]);
    }
    lines
}

/// The title list of a disc, line by line; an empty line is a separator. At
/// most five titles are listed, unless `full`; `basic` leaves the streams out.
pub fn title_lines(c: &Catalog, disc: &Disc, full: bool, verbose: bool, basic: bool) -> (r: Vec<
    String,
>)
    ensures
        texts(r@) == title_list(c@, disc.titles@, full, verbose, basic),
{
    let mut lines: Vec<String> = Vec::new();
    assert(texts(lines@) =~= Seq::empty());
    if disc.titles.len() == 0 {
        push_text(&mut lines, c.get("disc.no_titles"));
        assert(texts(lines@) =~= seq![text_of(c@, "disc.no_titles"@)]);
        return lines;
    }
    push_text(&mut lines, c.get("disc.titles"));
    push_text(&mut lines, String::new());
    let shown: usize = if full || disc.titles.len() <= 5 {
        disc.titles.len()
    } else {
        5
    };
    let video: usize = label_indent(c.get("disc.video").as_str());
    let audio: usize = label_indent(c.get("disc.audio").as_str());
    let subtitle: usize = label_indent(c.get("disc.subtitle").as_str());
    let indent: usize = if video >= audio && video >= subtitle {
        video
    } else if audio >= subtitle {
        audio
    } else {
        subtitle
    };
    let ghost head = texts(lines@);
    assert(head =~= seq![text_of(c@, "disc.titles"@), Seq::<char>::empty()]);
    assert(head + title_blocks(c@, disc.titles@, verbose, basic, 0) =~= head);
    for i in 0..shown
        invariant
            shown <= disc.titles@.len(),
            indent == common_indent(c@),
            texts(lines@) == head + title_blocks(c@, disc.titles@, verbose, basic, i as nat),
    {
        let ghost done = title_blocks(c@, disc.titles@, verbose, basic, i as nat);
        let block = title_block_lines(c, &disc.titles[i], i, indent, verbose, basic);
        push_texts(&mut lines, block);
        assert(head + done + texts(block@) =~= head + (done + texts(block@)));
    }
    if disc.titles.len() > shown {
        let more = dec_text((disc.titles.len() - shown) as u64);
        push_text(&mut lines, c.fmt1("disc.more_titles", "count", more.as_str()));
        push_text(&mut lines, String::new());
    }
    lines
}

/// The AACS generation of a disc: by its format, or by what its AACS data say.
pub open spec fn generation_of(disc: Disc) -> Seq<char> {
    match disc.format {
        DiscFormat::Fmts => "AACS 2.1"@,
        DiscFormat::Uhd => "AACS 2.0"@,
        _ => "AACS "@ + dec(
            match disc.aacs {
                Some(a) => a.version as nat,
                None => 1,
            },
        ) + ".0"@,
    }
}

/// The AACS generation of a disc.
pub fn aacs_generation(disc: &Disc) -> (r: String)
    ensures
        r@ == generation_of(*disc),
{
    match disc.format {
        DiscFormat::Fmts => "AACS 2.1".to_owned(),
        DiscFormat::Uhd => "AACS 2.0".to_owned(),
        _ => {
            let version: u8 = match &disc.aacs {
                Some(a) => a.version,
                None => 1,
            };
            let mut s = "AACS ".to_owned();
            push_dec(&mut s, version as u64);
            s.append(".0");
            s
        },
    }
}

/// Discs of this format carry AACS.
pub open spec fn carries_aacs(f: DiscFormat) -> bool {
    f == DiscFormat::BluRay || f == DiscFormat::Uhd || f == DiscFormat::Fmts || f
        == DiscFormat::HdDvd
}

/// Whether the format of the disc is a known carrier of AACS.
pub fn is_aacs_format(disc: &Disc) -> (r: bool)
    ensures
        r == carries_aacs(disc.format),
{
    disc.format == DiscFormat::BluRay || disc.format == DiscFormat::Uhd || disc.format
        == DiscFormat::Fmts || disc.format == DiscFormat::HdDvd
}

/// What is said of the encryption of a disc.
#[derive(Debug, PartialEq, Eq)]
pub enum EncLabel {
    /// CSS, whether its keys were found or not.
    Css,
    /// AACS of a named generation.
    Aacs(String),
    /// Encrypted, and neither of the two for certain.
    GenericAacs,
}

/// What an [`EncLabel`] says.
pub enum EncText {
    Css,
    Aacs(Seq<char>),
    GenericAacs,
}

impl View for EncLabel {
    type V = EncText;

    open spec fn view(&self) -> EncText {
        match *self {
            EncLabel::Css => EncText::Css,
            EncLabel::Aacs(s) => EncText::Aacs(s@),
            EncLabel::GenericAacs => EncText::GenericAacs,
        }
    }
}

/// What is said of the encryption of `disc`.
pub open spec fn encryption_of(disc: Disc) -> Option<EncText> {
    if !disc.encrypted {
        None
    } else if disc.css || disc.css_error {
        Some(EncText::Css)
    } else if disc.aacs is Some || carries_aacs(disc.format) {
        Some(EncText::Aacs(generation_of(disc)))
    } else {
        Some(EncText::GenericAacs)
    }
}

/// What is said of the encryption of a disc; nothing where it has none. Any
/// sign of CSS wins, so a DVD whose keys were not found is never called AACS.
pub fn encryption_label(disc: &Disc) -> (r: Option<EncLabel>)
    ensures
        match r {
            Some(l) => encryption_of(*disc) == Some(l@),
            None => encryption_of(*disc) is None,
        },
{
    if !disc.encrypted {
        return None;
    }
    if disc.css || disc.css_error {
        Some(EncLabel::Css)
    } else if disc.aacs.is_some() || is_aacs_format(disc) {
        Some(EncLabel::Aacs(aacs_generation(disc)))
    } else {
        Some(EncLabel::GenericAacs)
    }
}

/// The line about the encryption of a disc.
pub open spec fn encryption_text(c: Seq<(Seq<char>, Seq<char>)>, disc: Disc) -> Option<Seq<char>> {
    match encryption_of(disc) {
        None => None,
        Some(EncText::Css) => Some(text_of(c, "disc.css_encrypted"@)),
        Some(EncText::Aacs(g)) => Some(g + " encrypted"@),
        Some(EncText::GenericAacs) => Some(text_of(c, "disc.aacs_encrypted"@)),
    }
}

/// The line about the encryption of a disc; none where it has none.
pub fn encryption_line(c: &Catalog, disc: &Disc) -> (r: Option<String>)
    ensures
        opt_text(r) == encryption_text(c@, *disc),
{
    match encryption_label(disc) {
        None => None,
        Some(EncLabel::Css) => Some(c.get("disc.css_encrypted")),
        Some(EncLabel::Aacs(g)) => {
            let mut s = g;
            s.append(" encrypted");
            Some(s)
        },
        Some(EncLabel::GenericAacs) => Some(c.get("disc.aacs_encrypted")),
    }
}

/// The letter of a Blu-ray region.
pub open spec fn bd_letter(r: BdRegion) -> Seq<char> {
    match r {
        BdRegion::A => "A"@,
        BdRegion::B => "B"@,
        BdRegion::C => "C"@,
    }
}

/// Where a disc may be played.
pub open spec fn region_text(region: DiscRegion) -> Seq<char> {
    match region {
        DiscRegion::Free => "Region-free"@,
        DiscRegion::BluRay(rs) => if rs@.len() == 0 {
            "Region-free"@
        } else {
            joined(rs@.map_values(|r: BdRegion| bd_letter(r)), "/"@)
        },
        DiscRegion::Dvd(rs) => if rs@.len() == 0 {
            "Region-free"@
        } else {
            joined(rs@.map_values(|r: u8| dec(r as nat)), ", "@)
        },
    }
}

/// The letters of the Blu-ray regions.
pub fn bd_letters(rs: &Vec<BdRegion>) -> (r: Vec<String>)
    ensures
        texts(r@) == rs@.map_values(|r: BdRegion| bd_letter(r)),
{
    let mut names: Vec<String> = Vec::new();
    let ghost wanted = rs@.map_values(|r: BdRegion| bd_letter(r));
    for i in 0..rs.len()
        invariant
            wanted == rs@.map_values(|r: BdRegion| bd_letter(r)),
            texts(names@) == wanted.take(i as int),
    {
        push_text(
            &mut names,
            match rs[i] {
                BdRegion::A => "A",
                BdRegion::B => "B",
                BdRegion::C => "C",
            }.to_owned(),
        );
        assert(texts(names@) =~= wanted.take(i + 1));
    }
    assert(wanted.take(rs@.len() as int) =~= wanted);
    names
}

/// The numbers of the DVD regions.
pub fn dvd_numbers(rs: &Vec<u8>) -> (r: Vec<String>)
    ensures
        texts(r@) == rs@.map_values(|r: u8| dec(r as nat)),
{
    let mut names: Vec<String> = Vec::new();
    let ghost wanted = rs@.map_values(|r: u8| dec(r as nat));
    for i in 0..rs.len()
        invariant
            wanted == rs@.map_values(|r: u8| dec(r as nat)),
            texts(names@) == wanted.take(i as int),
    {
        push_text(&mut names, dec_text(rs[i] as u64));
        assert(texts(names@) =~= wanted.take(i + 1));
    }
    assert(wanted.take(rs@.len() as int) =~= wanted);
    names
}

/// Where a disc may be played, for a person to read.
pub fn region_name(region: &DiscRegion) -> (r: String)
    ensures
        r@ == region_text(*region),
{
    match region {
        DiscRegion::Free => "Region-free".to_owned(),
        DiscRegion::BluRay(rs) => {
            if rs.len() == 0 {
                return "Region-free".to_owned();
            }
            join_texts(&bd_letters(rs), "/")
        },
        DiscRegion::Dvd(rs) => {
            if rs.len() == 0 {
                return "Region-free".to_owned();
            }
            join_texts(&dvd_numbers(rs), ", ")
        },
    }
}

/// How the keys of a disc were found, for a person to read.
pub open spec fn origin_text(o: KeyOrigin) -> Seq<char> {
    match o {
        KeyOrigin::DeviceKey => "MKB + device key"@,
        KeyOrigin::ProcessingKey => "MKB + processing key"@,
        KeyOrigin::KeyDbDerived => "KEYDB (derived)"@,
        KeyOrigin::KeyDb => "KEYDB"@,
        KeyOrigin::KeyDbUnitKeys => "KEYDB (unit keys)"@,
        KeyOrigin::ExternalUk => "external UK"@,
    }
}

/// How the keys of a disc were found, for a person to read.
pub fn key_origin_label(o: KeyOrigin) -> (r: &'static str)
    ensures
        r@ == origin_text(o),
{
    match o {
        KeyOrigin::DeviceKey => "MKB + device key",
        KeyOrigin::ProcessingKey => "MKB + processing key",
        KeyOrigin::KeyDbDerived => "KEYDB (derived)",
        KeyOrigin::KeyDb => "KEYDB",
        KeyOrigin::KeyDbUnitKeys => "KEYDB (unit keys)",
        KeyOrigin::ExternalUk => "external UK",
    }
}

/// The lines before the scan: the complaint about a bad log level, the name of
/// the program and that the scan runs.
pub open spec fn opening(
    c: Seq<(Seq<char>, Seq<char>)>,
    bad_log_level: Option<Seq<char>>,
    version: Seq<char>,
) -> Seq<Seq<char>> {
    let complaint = match bad_log_level {
        Some(v) => seq![
            filled(
                text_or(
                    c,
                    "cli.log_level_not_a_number"@,
                    "--log-level: expected a number 1-4, got '{value}', ignored"@,
                ),
                seq![("value"@, v)],
            ),
        ],
        None => Seq::empty(),
    };
    complaint + seq![
        "freemkv "@ + version,
        Seq::<char>::empty(),
        text_of(c, "disc.scanning"@),
        Seq::<char>::empty(),
    ]
}

/// The lines before the scan.
pub fn opening_lines(c: &Catalog, flags: &InfoFlags, version: &str) -> (r: Vec<String>)
    ensures
        texts(r@) == opening(c@, flags@.bad_log_level, version@),
{
    let mut lines: Vec<String> = Vec::new();
    assert(texts(lines@) =~= Seq::empty());
    if let Some(v) = &flags.bad_log_level {
        push_text(
            &mut lines,
            c.fmt1_or(
                "cli.log_level_not_a_number",
                "--log-level: expected a number 1-4, got '{value}', ignored",
                "value",
                v.as_str(),
            ),
        );
    }
    let mut name = "freemkv ".to_owned();
    name.append(version);
    push_text(&mut lines, name);
    push_text(&mut lines, String::new());
    push_text(&mut lines, c.get("disc.scanning"));
    push_text(&mut lines, String::new());
    assert(texts(lines@) =~= opening(c@, flags@.bad_log_level, version@));
    lines
}

/// The name of a disc format for a person to read.
pub open spec fn format_name(c: Seq<(Seq<char>, Seq<char>)>, f: DiscFormat) -> Seq<char> {
    match f {
        DiscFormat::Uhd => "4K UHD"@,
        DiscFormat::Fmts => "4K UHD (AACS 2.1 FMTS)"@,
        DiscFormat::BluRay => "Blu-ray"@,
        DiscFormat::HdDvd => "HD-DVD"@,
        DiscFormat::Dvd => "DVD"@,
        DiscFormat::Unknown => text_of(c, "disc.format_unknown"@),
    }
}

/// Which unlockers ran.
pub open spec fn unlocker_texts(m: Seq<(String, bool)>) -> Seq<Seq<char>> {
    m.map_values(
        |e: (String, bool)|
            e.0@ + ": "@ + (if e.1 {
                "yes"@
            } else {
                "no"@
            }),
    )
}

/// The name of the disc: its title, or else its label as a title, or nothing.
pub open spec fn disc_name_lines(c: Seq<(Seq<char>, Seq<char>)>, disc: Disc) -> Seq<Seq<char>> {
    match disc.meta_title {
        Some(t) => seq![text_of(c, "disc.disc"@) + ": "@ + sanitized(t@)],
        None => if disc.volume_id@.len() > 0 {
            seq![text_of(c, "disc.disc"@) + ": "@ + sanitized(volume_title(disc.volume_id@))]
        } else {
            Seq::empty()
        },
    }
}

/// The lines about a disc as a whole, before its titles.
pub open spec fn disc_summary(
    c: Seq<(Seq<char>, Seq<char>)>,
    disc: Disc,
    unlockers: Seq<(String, bool)>,
) -> Seq<Seq<char>> {
    let format = text_of(c, "disc.format"@) + ": "@ + format_name(c, disc.format) + " ("@ + dec(
        disc.layers as nat,
    ) + "L, "@ + disc.capacity_gb@ + " GB)"@;
    let named = disc_name_lines(c, disc).push(format);
    let labelled = match encryption_text(c, disc) {
        Some(l) => named.push(l),
        None => named,
    };
    labelled.push("Unlockers — "@ + joined(unlocker_texts(unlockers), ", "@))
}

/// The lines about a disc as a whole: its name, its format and capacity, its
/// encryption, and which unlockers ran.
pub fn summary_lines(c: &Catalog, disc: &Disc, unlockers: &Vec<(String, bool)>) -> (r: Vec<String>)
    ensures
        texts(r@) == disc_summary(c@, *disc, unlockers@),
{
    let mut lines: Vec<String> = Vec::new();
    assert(texts(lines@) =~= Seq::empty());
    match &disc.meta_title {
        Some(t) => {
            let mut s = c.get("disc.disc");
            s.append(": ");
            s.append(sanitize(t.as_str()).as_str());
            push_text(&mut lines, s);
        },
        None => {
            if !disc.volume_id.as_str().is_empty() {
                let mut s = c.get("disc.disc");
                s.append(": ");
                s.append(sanitize(format_volume_id(disc.volume_id.as_str()).as_str()).as_str());
                push_text(&mut lines, s);
            }
        },
    }
    assert(texts(lines@) =~= disc_name_lines(c@, *disc));
    let mut s = c.get("disc.format");
    s.append(": ");
    let name = match disc.format {
        DiscFormat::Uhd => "4K UHD".to_owned(),
        DiscFormat::Fmts => "4K UHD (AACS 2.1 FMTS)".to_owned(),
        DiscFormat::BluRay => "Blu-ray".to_owned(),
        DiscFormat::HdDvd => "HD-DVD".to_owned(),
        DiscFormat::Dvd => "DVD".to_owned(),
        DiscFormat::Unknown => c.get("disc.format_unknown"),
    };
    s.append(name.as_str());
    s.append(" (");
    push_dec(&mut s, disc.layers as u64);
    s.append("L, ");
    s.append(disc.capacity_gb.as_str());
    s.append(" GB)");
    push_text(&mut lines, s);
    if let Some(l) = encryption_line(c, disc) {
        push_text(&mut lines, l);
    }
    let mut names: Vec<String> = Vec::new();
    let ghost wanted = unlocker_texts(unlockers@);
    for i in 0..unlockers.len()
        invariant
            wanted == unlocker_texts(unlockers@),
            texts(names@) == wanted.take(i as int),
    {
        let mut n = unlockers[i].0.clone();
        n.append(": ");
        n.append(
            if unlockers[i].1 {
                "yes"
            } else {
                "no"
            },
        );
        push_text(&mut names, n);
        assert(texts(names@) =~= wanted.take(i + 1));
    }
    assert(wanted.take(unlockers@.len() as int) =~= wanted);
    let mut m = "Unlockers — ".to_owned();
    m.append(join_texts(&names, ", ").as_str());
    push_text(&mut lines, m);
    lines
}

/// What the drive says of itself, and where it is.
#[derive(Clone, Debug)]
pub struct DriveFacts {
    pub vendor: String,
    pub product: String,
    pub revision: String,
    pub device: String,
}

/// The lines about the unit keys of a disc, of the first `n`.
pub open spec fn unit_key_lines(keys: Seq<(u32, Vec<u8>)>, n: nat) -> Seq<Seq<char>>
    decreases n,
{
    if n == 0 {
        Seq::empty()
    } else {
        unit_key_lines(keys, (n - 1) as nat).push(
            "  CPS "@ + dec(keys[n - 1].0 as nat) + ": 0x"@ + hex_of(keys[n - 1].1@),
        )
    }
}

/// The generation of the key block.
pub open spec fn mkb_text(a: AacsState) -> Seq<char> {
    "MKB v"@ + dec(
        match a.mkb_version {
            Some(v) => v as nat,
            None => 0,
        },
    ) + (if a.bus_encryption {
        " (bus encryption)"@
    } else {
        ""@
    })
}

/// The lines about the AACS data of a disc: the key block, the disc hash, the
/// volume identifier where the drive gave one, and the keys.
pub open spec fn aacs_block(a: AacsState) -> Seq<Seq<char>> {
    let l0 = seq![Seq::<char>::empty(), mkb_text(a), "Disc hash: "@ + a.disc_hash@];
    let l1 = plus_if(l0, any_nonzero(a.volume_id@), "VID: 0x"@ + hex_of(a.volume_id@));
    let l2 = l1.push(
        "Keys: "@ + origin_text(a.key_source) + " ("@ + dec(a.unit_keys@.len()) + " unit keys)"@,
    );
    let l3 = match a.vuk {
        Some(k) => l2.push("  VUK:   0x"@ + hex_of(k@)),
        None => l2,
    };
    l3 + unit_key_lines(a.unit_keys@, a.unit_keys@.len())
}

/// The generation of the key block.
pub fn mkb_line(a: &AacsState) -> (r: String)
    ensures
        r@ == mkb_text(*a),
{
    let mut mkb = "MKB v".to_owned();
    push_dec(
        &mut mkb,
        match a.mkb_version {
            Some(v) => v as u64,
            None => 0,
        },
    );
    mkb.append(
        if a.bus_encryption {
            " (bus encryption)"
        } else {
            ""
        },
    );
    mkb
}

fn aacs_lines(a: &AacsState) -> (r: Vec<String>)
    ensures
        texts(r@) == aacs_block(*a),
{
    let mut lines: Vec<String> = Vec::new();
    assert(texts(lines@) =~= Seq::empty());
    push_text(&mut lines, String::new());
    push_text(&mut lines, mkb_line(a));
    let mut hash = "Disc hash: ".to_owned();
    hash.append(a.disc_hash.as_str());
    push_text(&mut lines, hash);
    assert(texts(lines@) =~= seq![
        Seq::<char>::empty(),
        mkb_text(*a),
        "Disc hash: "@ + a.disc_hash@,
    ]);
    if has_nonzero(&a.volume_id) {
        let mut vid = "VID: 0x".to_owned();
        vid.append(hex_bytes(a.volume_id.as_slice()).as_str());
        push_text(&mut lines, vid);
    }
    let mut keys = "Keys: ".to_owned();
    keys.append(key_origin_label(a.key_source));
    keys.append(" (");
    push_dec(&mut keys, a.unit_keys.len() as u64);
    keys.append(" unit keys)");
    push_text(&mut lines, keys);
    if let Some(k) = &a.vuk {
        let mut vuk = "  VUK:   0x".to_owned();
        vuk.append(hex_bytes(k.as_slice()).as_str());
        push_text(&mut lines, vuk);
    }
    let ghost head = texts(lines@);
    assert(head + unit_key_lines(a.unit_keys@, 0) =~= head);
    for i in 0..a.unit_keys.len()
        invariant
            texts(lines@) == head + unit_key_lines(a.unit_keys@, i as nat),
    {
        let mut k = "  CPS ".to_owned();
        push_dec(&mut k, a.unit_keys[i].0 as u64);
        k.append(": 0x");
        k.append(hex_bytes(a.unit_keys[i].1.as_slice()).as_str());
        push_text(&mut lines, k);
        assert(texts(lines@) =~= head + unit_key_lines(a.unit_keys@, (i + 1) as nat));
    }
    lines
}

/// What is shown of one field that the drive's firmware fills.
pub open spec fn firmware_field(s: Seq<char>) -> Seq<char> {
    sanitized(trimmed(s, CharClass::White))
}

/// The lines that only a detailed listing has: the drive, the region, the AACS
/// data.
pub open spec fn detail_block(disc: Disc, drive: DriveFacts) -> Seq<Seq<char>> {
    let drive_line = "Drive: "@ + firmware_field(drive.vendor@) + " "@ + firmware_field(
        drive.product@,
    ) + " "@ + firmware_field(drive.revision@);
    let head = seq![
        drive_line,
        "Device: "@ + drive.device@,
        "Region: "@ + region_text(disc.region),
    ];
    match disc.aacs {
        Some(a) => head + aacs_block(a),
        None => head,
    }
}

/// The lines that only a detailed listing has.
pub fn detail_lines(disc: &Disc, drive: &DriveFacts) -> (r: Vec<String>)
    ensures
        texts(r@) == detail_block(*disc, *drive),
{
    let mut lines: Vec<String> = Vec::new();
    assert(texts(lines@) =~= Seq::empty());
    let mut d = "Drive: ".to_owned();
    d.append(sanitize(trim_text(drive.vendor.as_str()).as_str()).as_str());
    d.append(" ");
    d.append(sanitize(trim_text(drive.product.as_str()).as_str()).as_str());
    d.append(" ");
    d.append(sanitize(trim_text(drive.revision.as_str()).as_str()).as_str());
    push_text(&mut lines, d);
    let mut dev = "Device: ".to_owned();
    dev.append(drive.device.as_str());
    push_text(&mut lines, dev);
    let mut region = "Region: ".to_owned();
    region.append(region_name(&disc.region).as_str());
    push_text(&mut lines, region);
    match &disc.aacs {
        Some(a) => {
            push_texts(&mut lines, aacs_lines(a));
        },
        None => {},
    }
    assert(texts(lines@) =~= detail_block(*disc, *drive));
    lines
}

/// What is printed of a disc that was scanned without its keys: its encryption,
/// if it has any, and its titles.
pub open spec fn keyless_listing(
    c: Seq<(Seq<char>, Seq<char>)>,
    disc: Disc,
    f: InfoRequest,
) -> Seq<Seq<char>> {
    let head = match encryption_text(c, disc) {
        Some(l) => seq![l, Seq::<char>::empty()],
        None => Seq::empty(),
    };
    head + title_list(c, disc.titles@, f.full, f.verbose, f.basic)
}

/// What is printed of a disc that was scanned without its keys.
pub fn print_disc_titles(c: &Catalog, disc: &Disc, flags: &InfoFlags) -> (r: Vec<String>)
    ensures
        texts(r@) == keyless_listing(c@, *disc, flags@),
{
    let mut lines: Vec<String> = Vec::new();
    assert(texts(lines@) =~= Seq::empty());
    if let Some(l) = encryption_line(c, disc) {
        push_text(&mut lines, l);
        push_text(&mut lines, String::new());
        assert(texts(lines@) =~= seq![l@, Seq::<char>::empty()]);
    }
    push_texts(&mut lines, title_lines(c, disc, flags.full, flags.verbose, flags.basic));
    lines
}

/// Law: an encrypted disc with any sign of CSS is never called AACS.
pub proof fn law_css_is_never_called_aacs(disc: Disc)
    requires
        disc.encrypted,
        disc.css || disc.css_error,
    ensures
        encryption_of(disc) == Some(EncText::Css),
{
}

/// Law: a disc gets an encryption line if and only if it is encrypted.
pub proof fn law_only_encrypted_discs_are_labelled(c: Seq<(Seq<char>, Seq<char>)>, disc: Disc)
    ensures
        encryption_text(c, disc) is Some <==> disc.encrypted,
{
}

/// Law: what is printed of a disc scanned without its keys holds nothing of
/// the keys: two discs that differ in nothing but their key data, as long as
/// the generation is the same, print the same.
pub proof fn law_keyless_listing_shows_no_key(
    c: Seq<(Seq<char>, Seq<char>)>,
    a: Disc,
    b: Disc,
    f: InfoRequest,
)
    requires
        a.titles@ == b.titles@,
        a.format == b.format,
        a.encrypted == b.encrypted,
        a.css == b.css,
        a.css_error == b.css_error,
        a.aacs is Some,
        b.aacs is Some,
        a.aacs->0.version == b.aacs->0.version,
    ensures
        keyless_listing(c, a, f) == keyless_listing(c, b, f),
{
}

} // verus!
