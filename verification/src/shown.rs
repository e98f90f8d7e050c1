//! What is printed can be printed: no text that a disc or a drive chooses
//! reaches a terminal raw.

use crate::cli_entry::stream_line;
use crate::disc::{AudioStream, Codec, HdrKind, Stream, SubtitleStream, Title, VideoStream};
use crate::disc_info::{
    audio_line, audio_lines, audio_tags, common_indent, group_lines, lang_shown, listed_codec,
    listed_titles, pid_text, prefix_for, purpose_word, qualifier_word, shown_language,
    subtitle_line, subtitle_lines, subtitle_tags, title_block, title_blocks, title_list, title_row,
    video_lines, video_parts,
};
use crate::encode::date_text;
use crate::engine::identity::{TitleMark, remapped, still_there};
use crate::engine::rows::rendered_safe;
use crate::info::{DriveId, block_line, identity_block, identity_field, shown_serial};
use crate::strings::{
    filled, is_safe, is_unsafe_char, law_sanitized_is_safe, lemma_safe_part, lemma_safe_trimmed,
    placeholder, sanitized, text_of, text_or,
};
use crate::text::{
    CharClass, begins, dec, digit, drop_leading, hex_digit, hex_digit_upper, hex2, hex2_upper,
    hex4_upper, joined, pad_end, pad_start, replaced, run_of,
};
use vstd::prelude::*;
use vstd::string::*;

verus! {

/// Every text of a catalogue is safe to show.
pub open spec fn catalog_is_safe(c: Seq<(Seq<char>, Seq<char>)>) -> bool {
    forall|i: int| 0 <= i < c.len() ==> is_safe((#[trigger] c[i]).1)
}

/// A text is safe if and only if its parts are.
pub broadcast proof fn lemma_safe_parts(a: Seq<char>, b: Seq<char>)
    ensures
        #[trigger] is_safe(a + b) == (is_safe(a) && is_safe(b)),
{
    let s = a + b;
    if is_safe(s) {
        assert forall|i: int| 0 <= i < a.len() implies !is_unsafe_char(#[trigger] a[i]) by {
            assert(s[i] == a[i]);
        }
        assert forall|i: int| 0 <= i < b.len() implies !is_unsafe_char(#[trigger] b[i]) by {
            assert(s[a.len() + i] == b[i]);
        }
    }
    if is_safe(a) && is_safe(b) {
        assert forall|i: int| 0 <= i < s.len() implies !is_unsafe_char(#[trigger] s[i]) by {
            if i < a.len() {
                assert(s[i] == a[i]);
            } else {
                assert(s[i] == b[i - a.len()]);
            }
        }
    }
}

broadcast proof fn lemma_sanitized_safe(s: Seq<char>)
    ensures
        #[trigger] is_safe(sanitized(s)),
{
    law_sanitized_is_safe(s);
}

broadcast proof fn lemma_field_safe(s: Seq<char>)
    ensures
        #[trigger] is_safe(identity_field(s)),
{
    law_sanitized_is_safe(s);
    lemma_safe_trimmed(sanitized(s), CharClass::White);
    lemma_safe_trimmed(drop_leading(sanitized(s), CharClass::White), CharClass::White);
}

broadcast proof fn lemma_dec_safe(n: nat)
    ensures
        #[trigger] is_safe(dec(n)),
    decreases n,
{
    assert(!is_unsafe_char(digit(n % 10)));
    if n >= 10 {
        lemma_dec_safe(n / 10);
        let d = dec(n / 10);
        assert forall|i: int| 0 <= i < dec(n).len() implies !is_unsafe_char(
            #[trigger] dec(n)[i],
        ) by {
            if i < d.len() {
                assert(dec(n)[i] == d[i]);
            }
        }
    }
}

broadcast proof fn lemma_hex2_safe(n: nat)
    ensures
        #[trigger] is_safe(hex2(n)),
{
    assert(!is_unsafe_char(hex_digit(n / 16 % 16)) && !is_unsafe_char(hex_digit(n % 16)));
}

proof fn lemma_hex2_upper_safe(n: nat)
    ensures
        is_safe(hex2_upper(n)),
{
    assert(!is_unsafe_char(hex_digit_upper(n / 16 % 16)) && !is_unsafe_char(
        hex_digit_upper(n % 16),
    ));
}

broadcast proof fn lemma_pad_start_safe(s: Seq<char>, w: nat, c: char)
    requires
        is_safe(s),
        !is_unsafe_char(c),
    ensures
        #[trigger] is_safe(pad_start(s, w, c)),
{
    lemma_safe_parts(run_of(c, w - s.len()), s);
}

broadcast proof fn lemma_pad_end_safe(s: Seq<char>, w: nat, c: char)
    requires
        is_safe(s),
        !is_unsafe_char(c),
    ensures
        #[trigger] is_safe(pad_end(s, w, c)),
{
    lemma_safe_parts(s, run_of(c, w - s.len()));
}

proof fn lemma_joined_safe(parts: Seq<Seq<char>>, sep: Seq<char>)
    requires
        is_safe(sep),
        forall|i: int| 0 <= i < parts.len() ==> is_safe(#[trigger] parts[i]),
    ensures
        is_safe(joined(parts, sep)),
    decreases parts.len(),
{
    broadcast use lemma_safe_parts;

    if parts.len() > 1 {
        assert forall|i: int| 0 <= i < parts.drop_last().len() implies is_safe(
            #[trigger] parts.drop_last()[i],
        ) by {
            assert(parts.drop_last()[i] == parts[i]);
        }
        lemma_joined_safe(parts.drop_last(), sep);
        assert(is_safe(parts[parts.len() - 1]));
    }
}

proof fn lemma_replaced_safe(s: Seq<char>, p: Seq<char>, by: Seq<char>)
    requires
        is_safe(s),
        is_safe(by),
    ensures
        is_safe(replaced(s, p, by)),
    decreases s.len(),
{
    broadcast use lemma_safe_parts;

    if p.len() > 0 && s.len() > 0 {
        if begins(s, p) {
            lemma_safe_part(s, p.len() as int, s.len() as int);
            assert(s.skip(p.len() as int) =~= s.subrange(p.len() as int, s.len() as int));
            lemma_replaced_safe(s.skip(p.len() as int), p, by);
        } else {
            lemma_safe_part(s, 1, s.len() as int);
            assert(s.skip(1) =~= s.subrange(1, s.len() as int));
            lemma_replaced_safe(s.skip(1), p, by);
            assert(!is_unsafe_char(s[0]));
        }
    }
}

/// What a catalogue of safe texts gives is safe, where its fallback is.
proof fn lemma_text_safe(c: Seq<(Seq<char>, Seq<char>)>, key: Seq<char>, english: Seq<char>)
    requires
        catalog_is_safe(c),
        is_safe(english),
    ensures
        is_safe(text_or(c, key, english)),
    decreases c.len(),
{
    if c.len() > 0 {
        assert(is_safe(c[0].1));
        assert forall|i: int| 0 <= i < c.skip(1).len() implies is_safe(
            (#[trigger] c.skip(1)[i]).1,
        ) by {
            assert(c.skip(1)[i] == c[i + 1]);
        }
        lemma_text_safe(c.skip(1), key, english);
    }
}

proof fn lemma_tags_safe(c: Seq<(Seq<char>, Seq<char>)>, a: AudioStream)
    requires
        catalog_is_safe(c),
    ensures
        forall|i: int| 0 <= i < audio_tags(c, a).len() ==> is_safe(#[trigger] audio_tags(c, a)[i]),
        is_safe(joined(audio_tags(c, a), ", "@)),
{
    broadcast use lemma_sanitized_safe;

    reveal_strlit("stream.purpose.commentary");
    reveal_strlit("stream.purpose.descriptive");
    reveal_strlit("stream.purpose.score");
    reveal_strlit("stream.purpose.ime");
    reveal_strlit("stream.secondary");
    reveal_strlit(", ");
    if let Some(k) = purpose_word(a.purpose) {
        assert(is_safe(k));
        lemma_text_safe(c, k, k);
    }
    lemma_text_safe(c, "stream.secondary"@, "stream.secondary"@);
    assert forall|i: int| 0 <= i < audio_tags(c, a).len() implies is_safe(
        #[trigger] audio_tags(c, a)[i],
    ) by {}
    lemma_joined_safe(audio_tags(c, a), ", "@);
}

/// Law: whatever a container calls its streams and their languages, the line
/// about a stream can be printed.
pub proof fn law_stream_line_is_safe(c: Seq<(Seq<char>, Seq<char>)>, s: Stream)
    requires
        catalog_is_safe(c),
        rendered_safe(s),
    ensures
        is_safe(stream_line(c, s)),
{
    broadcast use {lemma_safe_parts, lemma_sanitized_safe};

    reveal_strlit("  ");
    reveal_strlit(" ");
    reveal_strlit(" — ");
    assert(is_safe("  "@) && is_safe(" "@) && is_safe(" — "@));
    if let Stream::Audio(a) = s {
        lemma_tags_safe(c, a);
    }
}

proof fn lemma_date_safe(s: Seq<char>)
    requires
        is_safe(s),
    ensures
        is_safe(date_text(s)),
{
    broadcast use lemma_safe_parts;

    reveal_strlit("20");
    reveal_strlit("-");
    assert(is_safe("20"@) && is_safe("-"@));
    if s.len() >= 8 {
        lemma_safe_part(s, 0, 4);
        lemma_safe_part(s, 2, 4);
        lemma_safe_part(s, 4, 6);
        lemma_safe_part(s, 6, 8);
    }
}

proof fn lemma_block_line_safe(
    c: Seq<(Seq<char>, Seq<char>)>,
    key: Seq<char>,
    gap: Seq<char>,
    value: Seq<char>,
)
    requires
        catalog_is_safe(c),
        is_safe(key),
        is_safe(gap),
        is_safe(value),
    ensures
        is_safe(block_line(text_of(c, key), gap, value)),
{
    broadcast use lemma_safe_parts;

    reveal_strlit("  ");
    assert(is_safe("  "@));
    lemma_text_safe(c, key, key);
}

/// Law: whatever the firmware of a drive says, the block about the drive can be
/// printed.
pub proof fn law_drive_block_is_safe(
    c: Seq<(Seq<char>, Seq<char>)>,
    raw: DriveId,
    device: Seq<char>,
    masked: Option<Seq<char>>,
    i: int,
)
    requires
        catalog_is_safe(c),
        is_safe(device),
        masked matches Some(m) ==> is_safe(m),
        0 <= i < identity_block(c, raw, device, shown_serial(raw, masked)).len(),
    ensures
        is_safe(identity_block(c, raw, device, shown_serial(raw, masked))[i]),
{
    broadcast use lemma_field_safe;

    reveal_strlit("drive.device");
    reveal_strlit("drive.manufacturer");
    reveal_strlit("drive.product");
    reveal_strlit("drive.revision");
    reveal_strlit("drive.serial");
    reveal_strlit("drive.firmware_date");
    reveal_strlit(":              ");
    reveal_strlit(":        ");
    reveal_strlit(":             ");
    reveal_strlit(":            ");
    reveal_strlit(":       ");
    lemma_block_line_safe(c, "drive.device"@, ":              "@, device);
    lemma_block_line_safe(c, "drive.manufacturer"@, ":        "@, identity_field(raw.vendor_id@));
    lemma_block_line_safe(c, "drive.product"@, ":             "@, identity_field(raw.product_id@));
    lemma_block_line_safe(
        c,
        "drive.revision"@,
        ":            "@,
        identity_field(raw.product_revision@),
    );
    lemma_block_line_safe(c, "drive.serial"@, ":       "@, shown_serial(raw, masked));
    let date = identity_field(raw.firmware_date@);
    lemma_date_safe(date);
    lemma_block_line_safe(c, "drive.firmware_date"@, ":       "@, date_text(date));
}

/// Law: a language code that no table knows is shown without its unsafe
/// characters.
pub proof fn law_unknown_language_is_safe(code: Seq<char>)
    ensures
        is_safe(shown_language(code, None, None)),
{
    reveal_strlit("?");
    law_sanitized_is_safe(code);
}

/// The texts of a stream that the disc library renders, and that a listing has,
/// are safe to show.
pub open spec fn stream_listed_safe(s: Stream) -> bool {
    match s {
        Stream::Video(v) => {
            &&& is_safe(v.codec.name@)
            &&& is_safe(v.resolution@)
            &&& v.frame_rate_known ==> is_safe(v.frame_rate@)
            &&& v.hdr != HdrKind::Sdr ==> is_safe(v.hdr_name@)
        },
        Stream::Audio(a) => is_safe(a.codec.name@) && is_safe(a.channels@) && is_safe(
            a.sample_rate@,
        ),
        Stream::Subtitle(_) => true,
    }
}

/// The texts of a title that the disc library renders, and that a listing has,
/// are safe to show, and so are the names of its languages.
pub open spec fn title_listed_safe(t: Title) -> bool {
    &&& is_safe(t.size_gb@)
    &&& forall|i: int|
        0 <= i < t.streams@.len() ==> stream_listed_safe(#[trigger] t.streams@[i])
            && language_named_safe(t.streams@[i])
}

/// The name of the stream's language is safe to show.
pub open spec fn language_named_safe(s: Stream) -> bool {
    match s {
        Stream::Video(_) => true,
        Stream::Audio(a) => is_safe(lang_shown(a.language@)),
        Stream::Subtitle(t) => is_safe(lang_shown(t.language@)),
    }
}

proof fn lemma_codec_safe(c: Codec)
    requires
        is_safe(c.name@),
    ensures
        is_safe(listed_codec(c)),
{
    broadcast use {lemma_safe_parts, lemma_hex2_safe};

    reveal_strlit("DD");
    reveal_strlit("DD+");
    reveal_strlit("DVD Sub");
    reveal_strlit("0x");
    assert(is_safe("DD"@) && is_safe("DD+"@) && is_safe("DVD Sub"@) && is_safe("0x"@));
}

proof fn lemma_pid_safe(pid: u16)
    ensures
        is_safe(pid_text(pid)),
{
    broadcast use lemma_safe_parts;

    reveal_strlit("[PID 0x");
    reveal_strlit("]");
    assert(is_safe("[PID 0x"@) && is_safe("]"@));
    lemma_hex2_upper_safe(pid as nat / 256);
    lemma_hex2_upper_safe(pid as nat % 256);
    assert(is_safe(hex4_upper(pid as nat)));
}

proof fn lemma_video_safe(c: Seq<(Seq<char>, Seq<char>)>, v: VideoStream, verbose: bool)
    requires
        catalog_is_safe(c),
        stream_listed_safe(Stream::Video(v)),
    ensures
        is_safe(joined(video_parts(c, v, verbose), " "@)),
{
    broadcast use {lemma_safe_parts, lemma_sanitized_safe};

    reveal_strlit("fps");
    reveal_strlit("BT.2020");
    reveal_strlit("disc.dolby_vision_el");
    reveal_strlit(" ");
    assert(is_safe("fps"@) && is_safe("BT.2020"@) && is_safe(" "@));
    lemma_codec_safe(v.codec);
    lemma_pid_safe(v.pid);
    lemma_text_safe(c, "disc.dolby_vision_el"@, "disc.dolby_vision_el"@);
    let parts = video_parts(c, v, verbose);
    assert forall|i: int| 0 <= i < parts.len() implies is_safe(#[trigger] parts[i]) by {}
    lemma_joined_safe(parts, " "@);
}

proof fn lemma_audio_safe(c: Seq<(Seq<char>, Seq<char>)>, a: AudioStream, verbose: bool)
    requires
        catalog_is_safe(c),
        stream_listed_safe(Stream::Audio(a)),
        is_safe(lang_shown(a.language@)),
    ensures
        is_safe(audio_line(c, a, verbose)),
{
    broadcast use lemma_safe_parts;

    reveal_strlit(" ");
    reveal_strlit(" (");
    reveal_strlit(")");
    assert(is_safe(" "@) && is_safe(" ("@) && is_safe(")"@));
    lemma_codec_safe(a.codec);
    lemma_pid_safe(a.pid);
    lemma_tags_safe(c, a);
}

proof fn lemma_subtitle_safe(c: Seq<(Seq<char>, Seq<char>)>, s: SubtitleStream, verbose: bool)
    requires
        catalog_is_safe(c),
        is_safe(lang_shown(s.language@)),
    ensures
        is_safe(subtitle_line(c, s, verbose)),
{
    broadcast use lemma_safe_parts;

    reveal_strlit(" ");
    reveal_strlit(" (");
    reveal_strlit(")");
    reveal_strlit(", ");
    reveal_strlit("disc.forced");
    reveal_strlit("stream.qualifier.sdh");
    reveal_strlit("stream.qualifier.descriptive_service");
    assert(is_safe(" "@) && is_safe(" ("@) && is_safe(")"@) && is_safe(", "@));
    lemma_pid_safe(s.pid);
    lemma_text_safe(c, "disc.forced"@, "disc.forced"@);
    if let Some(k) = qualifier_word(s.qualifier) {
        assert(is_safe(k));
        lemma_text_safe(c, k, k);
    }
    let tags = subtitle_tags(c, s);
    assert forall|i: int| 0 <= i < tags.len() implies is_safe(#[trigger] tags[i]) by {}
    lemma_joined_safe(tags, ", "@);
}

/// Every line is safe to print.
pub open spec fn lines_are_safe(lines: Seq<Seq<char>>) -> bool {
    forall|i: int| 0 <= i < lines.len() ==> is_safe(#[trigger] lines[i])
}

proof fn lemma_lines_concat(a: Seq<Seq<char>>, b: Seq<Seq<char>>)
    requires
        lines_are_safe(a),
        lines_are_safe(b),
    ensures
        lines_are_safe(a + b),
{
    assert forall|i: int| 0 <= i < (a + b).len() implies is_safe(#[trigger] (a + b)[i]) by {
        if i < a.len() {
            assert((a + b)[i] == a[i]);
        } else {
            assert((a + b)[i] == b[i - a.len()]);
        }
    }
}

proof fn lemma_stream_lines_safe(c: Seq<(Seq<char>, Seq<char>)>, t: Title, verbose: bool, n: nat)
    requires
        catalog_is_safe(c),
        title_listed_safe(t),
        n <= t.streams@.len(),
    ensures
        lines_are_safe(video_lines(c, t.streams@, verbose, n)),
        lines_are_safe(audio_lines(c, t.streams@, verbose, n)),
        lines_are_safe(subtitle_lines(c, t.streams@, verbose, n)),
    decreases n,
{
    if n > 0 {
        lemma_stream_lines_safe(c, t, verbose, (n - 1) as nat);
        let s = t.streams@[n - 1];
        assert(stream_listed_safe(s) && language_named_safe(s));
        match s {
            Stream::Video(v) => lemma_video_safe(c, v, verbose),
            Stream::Audio(a) => lemma_audio_safe(c, a, verbose),
            Stream::Subtitle(u) => lemma_subtitle_safe(c, u, verbose),
        }
    }
}

proof fn lemma_group_safe(label: Seq<char>, indent: nat, rows: Seq<Seq<char>>)
    requires
        is_safe(label),
        lines_are_safe(rows),
    ensures
        lines_are_safe(group_lines(label, indent, rows)),
{
    broadcast use {lemma_safe_parts, lemma_pad_end_safe};

    reveal_strlit("      ");
    reveal_strlit(":");
    assert(is_safe("      "@) && is_safe(":"@));
    let head = "      "@ + label + ":"@;
    assert(is_safe(head));
    assert(is_safe(prefix_for(label, indent)));
    assert(is_safe(run_of(' ', indent as int)));
    let lines = group_lines(label, indent, rows);
    assert forall|i: int| 0 <= i < lines.len() implies is_safe(#[trigger] lines[i]) by {
        if i > 0 {
            assert(is_safe(rows[i - 1]));
        }
    }
}

proof fn lemma_title_row_safe(c: Seq<(Seq<char>, Seq<char>)>, t: Title, index: nat)
    requires
        catalog_is_safe(c),
        title_listed_safe(t),
    ensures
        is_safe(title_row(c, t, index)),
{
    broadcast use {
        lemma_safe_parts,
        lemma_sanitized_safe,
        lemma_dec_safe,
        lemma_pad_start_safe,
        lemma_pad_end_safe,
    };

    reveal_strlit("  ");
    reveal_strlit(". ");
    reveal_strlit("h ");
    reveal_strlit("m  ");
    reveal_strlit(" GB  ");
    reveal_strlit(" ");
    reveal_strlit("disc.clips");
    reveal_strlit("disc.clip");
    assert(is_safe("  "@) && is_safe(". "@) && is_safe("h "@) && is_safe("m  "@));
    assert(is_safe(" GB  "@) && is_safe(" "@));
    lemma_text_safe(c, "disc.clips"@, "disc.clips"@);
    lemma_text_safe(c, "disc.clip"@, "disc.clip"@);
}

proof fn lemma_title_block_safe(
    c: Seq<(Seq<char>, Seq<char>)>,
    t: Title,
    index: nat,
    verbose: bool,
    basic: bool,
)
    requires
        catalog_is_safe(c),
        title_listed_safe(t),
    ensures
        lines_are_safe(title_block(c, t, index, verbose, basic)),
{
    reveal_strlit("disc.video");
    reveal_strlit("disc.audio");
    reveal_strlit("disc.subtitle");
    lemma_title_row_safe(c, t, index);
    let row = seq![title_row(c, t, index)];
    assert(lines_are_safe(row));
    if !basic {
        let n = t.streams@.len();
        let indent = common_indent(c);
        lemma_stream_lines_safe(c, t, verbose, n);
        lemma_text_safe(c, "disc.video"@, "disc.video"@);
        lemma_text_safe(c, "disc.audio"@, "disc.audio"@);
        lemma_text_safe(c, "disc.subtitle"@, "disc.subtitle"@);
        let videos = group_lines(
            text_of(c, "disc.video"@),
            indent,
            video_lines(c, t.streams@, verbose, n),
        );
        let audios = group_lines(
            text_of(c, "disc.audio"@),
            indent,
            audio_lines(c, t.streams@, verbose, n),
        );
        let subs = group_lines(
            text_of(c, "disc.subtitle"@),
            indent,
            subtitle_lines(c, t.streams@, verbose, n),
        );
        lemma_group_safe(
            text_of(c, "disc.video"@),
            indent,
            video_lines(c, t.streams@, verbose, n),
        );
        lemma_group_safe(
            text_of(c, "disc.audio"@),
            indent,
            audio_lines(c, t.streams@, verbose, n),
        );
        lemma_group_safe(
            text_of(c, "disc.subtitle"@),
            indent,
            subtitle_lines(c, t.streams@, verbose, n),
        );
        lemma_lines_concat(row, videos);
        lemma_lines_concat(row + videos, audios);
        lemma_lines_concat(row + videos + audios, subs);
        lemma_lines_concat(row + videos + audios + subs, seq![Seq::<char>::empty()]);
    }
}

proof fn lemma_title_blocks_safe(
    c: Seq<(Seq<char>, Seq<char>)>,
    titles: Seq<Title>,
    verbose: bool,
    basic: bool,
    n: nat,
)
    requires
        catalog_is_safe(c),
        n <= titles.len(),
        forall|i: int| 0 <= i < titles.len() ==> title_listed_safe(#[trigger] titles[i]),
    ensures
        lines_are_safe(title_blocks(c, titles, verbose, basic, n)),
    decreases n,
{
    if n > 0 {
        lemma_title_blocks_safe(c, titles, verbose, basic, (n - 1) as nat);
        lemma_title_block_safe(c, titles[n - 1], (n - 1) as nat, verbose, basic);
        lemma_lines_concat(
            title_blocks(c, titles, verbose, basic, (n - 1) as nat),
            title_block(c, titles[n - 1], (n - 1) as nat, verbose, basic),
        );
    }
}

/// Law: whatever a disc calls its playlists, its streams and their languages,
/// the list of its titles can be printed.
pub proof fn law_title_list_is_safe(
    c: Seq<(Seq<char>, Seq<char>)>,
    titles: Seq<Title>,
    full: bool,
    verbose: bool,
    basic: bool,
)
    requires
        catalog_is_safe(c),
        forall|i: int| 0 <= i < titles.len() ==> title_listed_safe(#[trigger] titles[i]),
    ensures
        lines_are_safe(title_list(c, titles, full, verbose, basic)),
{
    broadcast use lemma_dec_safe;

    reveal_strlit("disc.no_titles");
    reveal_strlit("disc.titles");
    reveal_strlit("disc.more_titles");
    lemma_text_safe(c, "disc.no_titles"@, "disc.no_titles"@);
    lemma_text_safe(c, "disc.titles"@, "disc.titles"@);
    lemma_text_safe(c, "disc.more_titles"@, "disc.more_titles"@);
    if titles.len() > 0 {
        let shown = listed_titles(titles.len(), full);
        lemma_title_blocks_safe(c, titles, verbose, basic, shown);
        let head = seq![text_of(c, "disc.titles"@), Seq::<char>::empty()];
        assert(lines_are_safe(head));
        lemma_lines_concat(head, title_blocks(c, titles, verbose, basic, shown));
        let count = dec((titles.len() - shown) as nat);
        let args = seq![("count"@, count)];
        assert(args.drop_last() =~= Seq::empty());
        assert(filled(text_of(c, "disc.more_titles"@), args.drop_last()) == text_of(
            c,
            "disc.more_titles"@,
        ));
        lemma_replaced_safe(text_of(c, "disc.more_titles"@), placeholder("count"@), count);
        assert(is_safe(filled(text_of(c, "disc.more_titles"@), args)));
    }
}

/// Law: whatever a disc calls its playlists, what is said of a title that is not
/// where it was can be printed.
pub proof fn law_title_messages_are_safe(
    titles: Seq<usize>,
    ids: Seq<TitleMark>,
    staged: Seq<TitleMark>,
    n: nat,
    expected: Option<TitleMark>,
    idx: nat,
)
    ensures
        remapped(titles, ids, staged, n) matches Err(e) ==> is_safe(e),
        still_there(expected, staged, idx) matches Err(e) ==> is_safe(e),
    decreases n,
{
    broadcast use {lemma_safe_parts, lemma_sanitized_safe, lemma_dec_safe};

    if n > 0 {
        law_title_messages_are_safe(titles, ids, staged, (n - 1) as nat, expected, idx);
    }
    reveal_strlit("Title ");
    reveal_strlit(" (");
    reveal_strlit(") is not in the recovered image — the damage destroyed its playlist, so it cannot be muxed.");
    reveal_strlit(" changed between scans: it was ");
    reveal_strlit(", the drive now reports ");
    reveal_strlit(" at that position. Nothing was written for it.");
    reveal_strlit(") is no longer on the disc — the rescan lists only ");
    reveal_strlit(" title(s).");
    assert(is_safe("Title "@));
    assert(is_safe(" ("@));
    assert(is_safe(") is not in the recovered image — the damage destroyed its playlist, so it cannot be muxed."@));
    assert(is_safe(" changed between scans: it was "@));
    assert(is_safe(", the drive now reports "@));
    assert(is_safe(" at that position. Nothing was written for it."@));
    assert(is_safe(") is no longer on the disc — the rescan lists only "@));
    assert(is_safe(" title(s)."@));
}

} // verus!
