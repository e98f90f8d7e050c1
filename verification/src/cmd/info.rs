//! The plain form of `info`: where a URL goes, and what is printed of a file.

use crate::cli_entry::{UrlKind, asks_share, clock, clock_text, opt_text, wants_share};
use crate::disc::{AudioStream, Stream};
use crate::disc_info::{purpose_key, purpose_word};
use crate::strings::{Catalog, text_of};
use crate::text::{
    copy_from, dec, join_texts, joined, plus_if, push_dec, push_text, push_texts, texts,
};
use vstd::prelude::*;
use vstd::string::*;

verus! {

/// What the plain form of `info` does.
#[derive(Clone, Debug)]
pub enum PlainRoute {
    /// No URL: how it is used, as a failure.
    Usage,
    /// Look at a drive with these arguments, or share its profile.
    Drive { args: Vec<String>, share: bool },
    /// Print what is in a file.
    File,
    /// Fail, and say this.
    Refuse(String),
}

/// What a [`PlainRoute`] says.
pub enum PlainPath {
    Usage,
    Drive { args: Seq<Seq<char>>, share: bool },
    File,
    Refuse(Seq<char>),
}

impl View for PlainRoute {
    type V = PlainPath;

    open spec fn view(&self) -> PlainPath {
        match *self {
            PlainRoute::Usage => PlainPath::Usage,
            PlainRoute::Drive { args, share } => PlainPath::Drive { args: texts(args@), share },
            PlainRoute::File => PlainPath::File,
            PlainRoute::Refuse(s) => PlainPath::Refuse(s@),
        }
    }
}

/// The arguments for a drive: the device that the URL names in front of the
/// others.
pub open spec fn drive_args(device: Option<Seq<char>>, args: Seq<Seq<char>>) -> Seq<Seq<char>> {
    (match device {
        Some(d) => seq!["-d"@, d],
        None => Seq::empty(),
    }) + args.skip(1)
}

/// What the plain form of `info` does with `args`, whose first is a URL of the
/// given kind.
pub open spec fn plain_path(args: Seq<Seq<char>>, kind: UrlKind) -> PlainPath {
    if args.len() == 0 {
        PlainPath::Usage
    } else {
        match kind {
            UrlKind::Disc(d) => PlainPath::Drive {
                args: drive_args(opt_text(d), args),
                share: asks_share(drive_args(opt_text(d), args)),
            },
            UrlKind::M2ts | UrlKind::Mkv | UrlKind::Iso => PlainPath::File,
            UrlKind::Unknown => PlainPath::Refuse(
                "'"@ + args[0]
                    + "' is not a valid URL — use scheme://path (e.g. disc://, mkv://movie.mkv)"@,
            ),
            UrlKind::Dir | UrlKind::Other => PlainPath::Refuse("Cannot get info for "@ + args[0]),
        }
    }
}

/// Decides what the plain form of `info` does.
pub fn plain_route(args: &[String], kind: UrlKind) -> (r: PlainRoute)
    ensures
        r@ == plain_path(texts(args@), kind),
{
    if args.len() == 0 {
        return PlainRoute::Usage;
    }
    let ghost all = texts(args@);
    assert(all[0] == args@[0]@);
    match kind {
        UrlKind::Disc(d) => {
            let mut out: Vec<String> = Vec::new();
            match d {
                Some(device) => {
                    push_text(&mut out, "-d".to_owned());
                    push_text(&mut out, device);
                    assert(texts(out@) =~= seq!["-d"@, device@]);
                },
                None => {
                    assert(texts(out@) =~= Seq::empty());
                },
            }
            push_texts(&mut out, copy_from(args, 1));
            let share = wants_share(out.as_slice());
            PlainRoute::Drive { args: out, share }
        },
        UrlKind::M2ts | UrlKind::Mkv | UrlKind::Iso => PlainRoute::File,
        UrlKind::Unknown => {
            let mut s = "'".to_owned();
            s.append(args[0].as_str());
            s.append("' is not a valid URL — use scheme://path (e.g. disc://, mkv://movie.mkv)");
            PlainRoute::Refuse(s)
        },
        UrlKind::Dir | UrlKind::Other => {
            let mut s = "Cannot get info for ".to_owned();
            s.append(args[0].as_str());
            PlainRoute::Refuse(s)
        },
    }
}

/// The remarks on an audio stream, as they are.
pub open spec fn plain_audio_tags(c: Seq<(Seq<char>, Seq<char>)>, a: AudioStream) -> Seq<Seq<char>> {
    let t0 = match purpose_word(a.purpose) {
        Some(k) => seq![text_of(c, k)],
        None => Seq::empty(),
    };
    let t1 = plus_if(t0, a.secondary, text_of(c, "stream.secondary"@));
    plus_if(t1, a.label@.len() > 0, a.label@)
}

/// The remarks on an audio stream, as they are.
pub fn plain_audio_remarks(c: &Catalog, a: &AudioStream) -> (r: Vec<String>)
    ensures
        texts(r@) == plain_audio_tags(c@, *a),
{
    let mut tags: Vec<String> = Vec::new();
    assert(texts(tags@) =~= Seq::empty());
    if let Some(k) = purpose_key(a.purpose) {
        push_text(&mut tags, c.get(k));
        assert(texts(tags@) =~= seq![text_of(c@, k@)]);
    }
    if a.secondary {
        push_text(&mut tags, c.get("stream.secondary"));
    }
    if !a.label.as_str().is_empty() {
        push_text(&mut tags, a.label.clone());
    }
    tags
}

/// The line about one stream of a file.
pub open spec fn plain_stream(c: Seq<(Seq<char>, Seq<char>)>, s: Stream) -> Seq<char> {
    match s {
        Stream::Video(v) => if v.label@.len() == 0 {
            "  "@ + v.codec.name@ + " "@ + v.resolution@
        } else {
            "  "@ + v.codec.name@ + " "@ + v.resolution@ + " — "@ + v.label@
        },
        Stream::Audio(a) => {
            let head = "  "@ + a.codec.name@ + " "@ + a.channels@ + " "@ + a.language@;
            let tags = plain_audio_tags(c, a);
            if tags.len() == 0 {
                head
            } else {
                head + " — "@ + joined(tags, ", "@)
            }
        },
        Stream::Subtitle(s) => "  "@ + s.codec.name@ + " "@ + s.language@,
    }
}

fn plain_stream_line(c: &Catalog, s: &Stream) -> (r: String)
    ensures
        r@ == plain_stream(c@, *s),
{
    let mut line = "  ".to_owned();
    match s {
        Stream::Video(v) => {
            line.append(v.codec.name.as_str());
            line.append(" ");
            line.append(v.resolution.as_str());
            if !v.label.as_str().is_empty() {
                line.append(" — ");
                line.append(v.label.as_str());
            }
        },
        Stream::Audio(a) => {
            line.append(a.codec.name.as_str());
            line.append(" ");
            line.append(a.channels.as_str());
            line.append(" ");
            line.append(a.language.as_str());
            let tags = plain_audio_remarks(c, a);
            assert(texts(tags@).len() == tags@.len());
            if tags.len() > 0 {
                line.append(" — ");
                line.append(join_texts(&tags, ", ").as_str());
            }
        },
        Stream::Subtitle(s) => {
            line.append(s.codec.name.as_str());
            line.append(" ");
            line.append(s.language.as_str());
        },
    }
    line
}

/// What is printed of a file: its path, how long it plays where that is known,
/// and its streams.
pub open spec fn plain_file(
    c: Seq<(Seq<char>, Seq<char>)>,
    path: Seq<char>,
    duration: Option<u64>,
    streams: Seq<Stream>,
) -> Seq<Seq<char>> {
    (match duration {
        Some(secs) => seq!["File: "@ + path, "Duration: "@ + clock(secs as nat)],
        None => seq!["File: "@ + path],
    }).push("Streams: "@ + dec(streams.len())) + streams.map_values(|s: Stream| plain_stream(c, s))
}

/// What is printed of a file.
pub fn plain_file_lines(
    c: &Catalog,
    path: &str,
    duration: Option<u64>,
    streams: &Vec<Stream>,
) -> (r: Vec<String>)
    ensures
        texts(r@) == plain_file(c@, path@, duration, streams@),
{
    let mut lines: Vec<String> = Vec::new();
    let mut file = "File: ".to_owned();
    file.append(path);
    push_text(&mut lines, file);
    assert(texts(lines@) =~= seq![file@]);
    match duration {
        Some(secs) => {
            let mut d = "Duration: ".to_owned();
            d.append(clock_text(secs).as_str());
            push_text(&mut lines, d);
            assert(texts(lines@) =~= seq![file@, d@]);
        },
        None => {},
    }
    let mut n = "Streams: ".to_owned();
    push_dec(&mut n, streams.len() as u64);
    push_text(&mut lines, n);
    let ghost start = texts(lines@);
    let ghost wanted = streams@.map_values(|s: Stream| plain_stream(c@, s));
    assert(start =~= start + wanted.take(0));
    for i in 0..streams.len()
        invariant
            wanted == streams@.map_values(|s: Stream| plain_stream(c@, s)),
            texts(lines@) == start + wanted.take(i as int),
    {
        push_text(&mut lines, plain_stream_line(c, &streams[i]));
        assert(texts(lines@) =~= start + wanted.take(i + 1));
    }
    assert(wanted.take(streams@.len() as int) =~= wanted);
    lines
}

} // verus!
