//! The profile of a disc that can be shared: its structure, how its titles were
//! ranked and what is known of its protection. No key is ever part of it.

use crate::cli_entry::opt_text;
use crate::disc::{AacsState, Disc, Title, any_nonzero, has_nonzero};
use crate::disc_info::sanitize;
use crate::encode::{component_of, json_esc, json_plain, sanitize_component};
use crate::info::{SavedFile, bool_text, bool_word, folded_archive, folded_archive_text};
use crate::strings::{Catalog, arg_texts, filled, sanitized, text_or};
use crate::text::{
    CharClass, chars_of, cut, dec, dec_text, join_texts, joined, push_dec, push_text, string_of,
    texts, trimmed,
};
use vstd::prelude::*;
use vstd::string::*;

verus! {

/// What was added to a profile: how many files, and how many bytes in all.
#[derive(Clone, Copy, Debug, PartialEq, Eq, Structural)]
pub struct DiscSummary {
    pub file_count: usize,
    pub total_bytes: u64,
}

/// How many bytes the first `n` files have.
pub open spec fn bytes_in(files: Seq<SavedFile>, n: nat) -> nat
    decreases n,
{
    if n == 0 {
        0
    } else {
        bytes_in(files, (n - 1) as nat) + files[n - 1].data@.len()
    }
}

/// `n`, as far as it can be counted.
pub open spec fn countable(n: nat) -> nat {
    if n <= u64::MAX {
        n
    } else {
        u64::MAX as nat
    }
}

/// What the structure files of a disc add to a profile; nothing where there
/// are none.
pub fn fold_structure(files: &Vec<SavedFile>) -> (r: Option<DiscSummary>)
    ensures
        match r {
            Some(s) => files@.len() > 0 && s.file_count == files@.len() && s.total_bytes
                == countable(bytes_in(files@, files@.len())),
            None => files@.len() == 0,
        },
{
    if files.len() == 0 {
        return None;
    }
    let mut total_bytes: u64 = 0;
    for i in 0..files.len()
        invariant
            total_bytes == countable(bytes_in(files@, i as nat)),
    {
        total_bytes = total_bytes.saturating_add(files[i].data.len() as u64);
    }
    Some(DiscSummary { file_count: files.len(), total_bytes })
}

/// What may be told of the AACS protection of a disc: its shape and the hash
/// by which keys are looked up, but no key.
#[derive(Clone, Debug)]
pub struct AacsDiag {
    /// The scan found AACS data at all.
    pub captured: bool,
    /// The hash of the disc, without a prefix.
    pub disc_hash: Option<String>,
    pub generation: Option<u8>,
    pub mkb_version: Option<u32>,
    pub bus_encryption: Option<bool>,
    /// The drive gave a volume identifier; which is not told.
    pub vid_available: bool,
}

/// What an [`AacsDiag`] says.
pub struct AacsShape {
    pub captured: bool,
    pub disc_hash: Option<Seq<char>>,
    pub generation: Option<u8>,
    pub mkb_version: Option<u32>,
    pub bus_encryption: Option<bool>,
    pub vid_available: bool,
}

impl View for AacsDiag {
    type V = AacsShape;

    open spec fn view(&self) -> AacsShape {
        AacsShape {
            captured: self.captured,
            disc_hash: opt_text(self.disc_hash),
            generation: self.generation,
            mkb_version: self.mkb_version,
            bus_encryption: self.bus_encryption,
            vid_available: self.vid_available,
        }
    }
}

/// A hexadecimal number without its prefix.
pub open spec fn without_hex_prefix(s: Seq<char>) -> Seq<char> {
    if s.len() >= 2 && s[0] == '0' && (s[1] == 'x' || s[1] == 'X') {
        s.skip(2)
    } else {
        s
    }
}

/// The hash of a disc as keys are looked up by it.
pub open spec fn lookup_hash(disc_hash: Seq<char>) -> Seq<char> {
    trimmed(without_hex_prefix(trimmed(disc_hash, CharClass::White)), CharClass::White)
}

/// What may be told of the AACS protection of a disc.
pub open spec fn aacs_shape(aacs: Option<AacsState>) -> AacsShape {
    match aacs {
        Some(a) => AacsShape {
            captured: true,
            disc_hash: if lookup_hash(a.disc_hash@).len() > 0 {
                Some(lookup_hash(a.disc_hash@))
            } else {
                None
            },
            generation: Some(a.version),
            mkb_version: a.mkb_version,
            bus_encryption: Some(a.bus_encryption),
            vid_available: any_nonzero(a.volume_id@),
        },
        None => AacsShape {
            captured: false,
            disc_hash: None,
            generation: None,
            mkb_version: None,
            bus_encryption: None,
            vid_available: false,
        },
    }
}

/// What may be told of the AACS protection of a disc.
pub fn aacs_diag(disc: &Disc) -> (r: AacsDiag)
    ensures
        r@ == aacs_shape(disc.aacs),
{
    match &disc.aacs {
        Some(a) => {
            let v = chars_of(a.disc_hash.as_str());
            let t = cut(v.as_slice(), CharClass::White);
            let bare = if t.len() >= 2 && t[0] == '0' && (t[1] == 'x' || t[1] == 'X') {
                let b = vstd::slice::slice_subrange(t, 2, t.len());
                assert(b@ =~= t@.skip(2));
                b
            } else {
                t
            };
            let hash = cut(bare, CharClass::White);
            AacsDiag {
                captured: true,
                disc_hash: if hash.len() > 0 {
                    Some(string_of(hash))
                } else {
                    None
                },
                generation: Some(a.version),
                mkb_version: a.mkb_version,
                bus_encryption: Some(a.bus_encryption),
                vid_available: has_nonzero(&a.volume_id),
            }
        },
        None => AacsDiag {
            captured: false,
            disc_hash: None,
            generation: None,
            mkb_version: None,
            bus_encryption: None,
            vid_available: false,
        },
    }
}

/// What is said where a scan found no AACS data.
pub const AACS_ABSENT_HINT: &'static str = "AACS diagnostics not captured — this was a keyless scan (no AACS handshake). Re-run `freemkv info <disc> -v --share` (verbose runs the handshake) to include disc_hash, the keydb lookup key, for keydb/AACS triage.";

/// What is said of the hash and of what is left out.
pub const AACS_NOTE: &'static str = "disc_hash is the AACS keydb lookup key (SHA-1 of Unit_Key_RO.inf); compare it against keydb rows. Present only when the scan read the disc's AACS data. No key material, VUK, unit keys, MKB bytes, or raw Volume ID is included — vid_available only reports whether the SCSI handshake yielded a Volume ID.";

/// The lines of `aacs.json` about data that were captured.
pub open spec fn captured_members(d: AacsShape) -> Seq<char> {
    (match d.disc_hash {
        Some(h) => "  \"disc_hash\": \""@ + json_plain(h) + "\",\n"@,
        None => "  \"disc_hash\": null,\n"@,
    }) + (match d.generation {
        Some(g) => "  \"aacs_generation\": "@ + dec(g as nat) + ",\n"@,
        None => "  \"aacs_generation\": null,\n"@,
    }) + (match d.mkb_version {
        Some(v) => "  \"mkb_version\": "@ + dec(v as nat) + ",\n"@,
        None => "  \"mkb_version\": null,\n"@,
    }) + "  \"bus_encryption\": "@ + bool_text(d.bus_encryption == Some(true)) + ",\n"@
        + "  \"vid_available\": "@ + bool_text(d.vid_available) + ",\n"@ + "  \"note\": \""@
        + AACS_NOTE@ + "\"\n"@
}

/// The contents of `aacs.json`.
pub open spec fn aacs_json_text(d: AacsShape) -> Seq<char> {
    "{\n"@ + "  \"aacs_captured\": "@ + bool_text(d.captured) + ",\n"@ + (if d.captured {
        captured_members(d)
    } else {
        "  \"note\": \""@ + json_plain(AACS_ABSENT_HINT@) + "\"\n"@
    }) + "}\n"@
}

fn captured_members_text(d: &AacsDiag) -> (r: String)
    ensures
        r@ == captured_members(d@),
{
    let mut s = match &d.disc_hash {
        Some(h) => {
            let mut l = "  \"disc_hash\": \"".to_owned();
            l.append(json_esc(h.as_str()).as_str());
            l.append("\",\n");
            l
        },
        None => "  \"disc_hash\": null,\n".to_owned(),
    };
    let generation = match d.generation {
        Some(g) => {
            let mut l = "  \"aacs_generation\": ".to_owned();
            push_dec(&mut l, g as u64);
            l.append(",\n");
            l
        },
        None => "  \"aacs_generation\": null,\n".to_owned(),
    };
    s.append(generation.as_str());
    let mkb = match d.mkb_version {
        Some(v) => {
            let mut l = "  \"mkb_version\": ".to_owned();
            push_dec(&mut l, v as u64);
            l.append(",\n");
            l
        },
        None => "  \"mkb_version\": null,\n".to_owned(),
    };
    s.append(mkb.as_str());
    s.append("  \"bus_encryption\": ");
    s.append(
        bool_word(
            match d.bus_encryption {
                Some(b) => b,
                None => false,
            },
        ),
    );
    s.append(",\n");
    s.append("  \"vid_available\": ");
    s.append(bool_word(d.vid_available));
    s.append(",\n");
    s.append("  \"note\": \"");
    s.append(AACS_NOTE);
    s.append("\"\n");
    s
}

/// The contents of `aacs.json`: what may be told of the AACS protection, or
/// that there is nothing to tell and how to change that.
pub fn aacs_json(disc: &Disc) -> (r: String)
    ensures
        r@ == aacs_json_text(aacs_shape(disc.aacs)),
{
    let d = aacs_diag(disc);
    let mut s = "{\n".to_owned();
    s.append("  \"aacs_captured\": ");
    s.append(bool_word(d.captured));
    s.append(",\n");
    let rest = if d.captured {
        captured_members_text(&d)
    } else {
        let mut l = "  \"note\": \"".to_owned();
        l.append(json_esc(AACS_ABSENT_HINT).as_str());
        l.append("\"\n");
        l
    };
    s.append(rest.as_str());
    s.append("}\n");
    s
}

/// The clips of a title, each in quotes.
pub open spec fn quoted_clips(clips: Seq<String>) -> Seq<Seq<char>> {
    clips.map_values(|c: String| "\""@ + json_plain(c@) + "\""@)
}

/// One title in `selection.json`; all but the last end in a comma.
pub open spec fn title_json(t: Title, last: bool) -> Seq<char> {
    "    {\"playlist_id\": "@ + dec(t.playlist_id as nat) + ", \"playlist\": \""@ + json_plain(
        t.playlist@,
    ) + "\", \"duration_secs\": "@ + t.duration_tenths@ + ", \"size_bytes\": "@ + dec(
        t.size_bytes as nat,
    ) + ", \"has_video\": "@ + bool_text(t.has_video) + ", \"has_probable_video\": "@ + bool_text(
        t.has_probable_video,
    ) + ", \"clips\": ["@ + joined(quoted_clips(t.clips@), ", "@) + "]}"@ + (if last {
        ""@
    } else {
        ","@
    }) + "\n"@
}

/// The first `n` of `titles` in `selection.json`.
pub open spec fn titles_json(titles: Seq<Title>, n: nat) -> Seq<char>
    decreases n,
{
    if n == 0 {
        Seq::empty()
    } else {
        titles_json(titles, (n - 1) as nat) + title_json(titles[n - 1], n == titles.len())
    }
}

/// The playlist of the title that was picked: the first one.
pub open spec fn picked_playlist(titles: Seq<Title>) -> nat {
    if titles.len() > 0 {
        titles[0].playlist_id as nat
    } else {
        0
    }
}

/// The contents of `selection.json`.
pub open spec fn selection_text(disc: Disc, version: Seq<char>) -> Seq<char> {
    "{\n"@ + "  \"freemkv\": \""@ + json_plain(version) + "\",\n"@ + "  \"format\": \""@
        + disc.format.word() + "\",\n"@ + "  \"picked_playlist_id\": "@ + dec(
        picked_playlist(disc.titles@),
    ) + ",\n"@ + "  \"title_count\": "@ + dec(disc.titles@.len()) + ",\n"@ + "  \"titles\": [\n"@
        + titles_json(disc.titles@, disc.titles@.len()) + "  ]\n}\n"@
}

fn title_json_text(t: &Title, last: bool) -> (r: String)
    ensures
        r@ == title_json(*t, last),
{
    let mut clips: Vec<String> = Vec::new();
    let ghost wanted = quoted_clips(t.clips@);
    for i in 0..t.clips.len()
        invariant
            wanted == quoted_clips(t.clips@),
            texts(clips@) == wanted.take(i as int),
    {
        let mut q = "\"".to_owned();
        q.append(json_esc(t.clips[i].as_str()).as_str());
        q.append("\"");
        push_text(&mut clips, q);
        assert(texts(clips@) =~= wanted.take(i + 1));
    }
    assert(wanted.take(t.clips@.len() as int) =~= wanted);
    let mut s = "    {\"playlist_id\": ".to_owned();
    push_dec(&mut s, t.playlist_id as u64);
    s.append(", \"playlist\": \"");
    s.append(json_esc(t.playlist.as_str()).as_str());
    s.append("\", \"duration_secs\": ");
    s.append(t.duration_tenths.as_str());
    s.append(", \"size_bytes\": ");
    push_dec(&mut s, t.size_bytes);
    s.append(", \"has_video\": ");
    s.append(bool_word(t.has_video));
    s.append(", \"has_probable_video\": ");
    s.append(bool_word(t.has_probable_video));
    s.append(", \"clips\": [");
    s.append(join_texts(&clips, ", ").as_str());
    s.append("]}");
    s.append(
        if last {
            ""
        } else {
            ","
        },
    );
    s.append("\n");
    s
}

fn titles_json_body(titles: &Vec<Title>) -> (r: String)
    ensures
        r@ == titles_json(titles@, titles@.len()),
{
    let mut list = String::new();
    for i in 0..titles.len()
        invariant
            list@ == titles_json(titles@, i as nat),
    {
        list.append(title_json_text(&titles[i], i + 1 == titles.len()).as_str());
    }
    list
}

/// The contents of `selection.json`: the title that was picked, and what every
/// title looks like.
pub fn selection_json(disc: &Disc, version: &str) -> (r: String)
    ensures
        r@ == selection_text(*disc, version@),
{
    let mut s = "{\n".to_owned();
    s.append("  \"freemkv\": \"");
    s.append(json_esc(version).as_str());
    s.append("\",\n");
    s.append("  \"format\": \"");
    s.append(disc.format.to_word());
    s.append("\",\n");
    s.append("  \"picked_playlist_id\": ");
    push_dec(
        &mut s,
        if disc.titles.len() > 0 {
            disc.titles[0].playlist_id as u64
        } else {
            0
        },
    );
    s.append(",\n");
    s.append("  \"title_count\": ");
    push_dec(&mut s, disc.titles.len() as u64);
    s.append(",\n");
    s.append("  \"titles\": [\n");
    s.append(titles_json_body(&disc.titles).as_str());
    s.append("  ]\n}\n");
    s
}

/// The part of the report about the structure of a disc.
pub open spec fn structure_part(disc: Disc, summary: DiscSummary) -> Seq<char> {
    "## Disc structure\n\n```\n"@ + "Format:          "@ + disc.format.word() + "\n"@
        + "Titles:          "@ + dec(disc.titles@.len()) + "\n"@ + (if disc.titles@.len() > 0 {
        "Selected title:  playlist "@ + dec(disc.titles@[0].playlist_id as nat) + " ("@ + sanitized(
            disc.titles@[0].playlist@,
        ) + "), "@ + disc.titles@[0].duration_rounded@ + "s, "@ + dec(
            disc.titles@[0].size_bytes as nat,
        ) + " bytes\n"@
    } else {
        ""@
    }) + "Structure files: "@ + dec(summary.file_count as nat) + " ("@ + dec(
        summary.total_bytes as nat,
    ) + " bytes)\n"@ + "```\n\n"@
}

/// The lines of the report about AACS data that were captured.
pub open spec fn captured_lines(d: AacsShape) -> Seq<char> {
    (match d.disc_hash {
        Some(h) => "Disc hash:       "@ + h + "  (keydb lookup key)\n"@,
        None => "Disc hash:       (unavailable)\n"@,
    }) + (match d.generation {
        Some(g) => "AACS generation: "@ + dec(g as nat) + "\n"@,
        None => ""@,
    }) + (match d.mkb_version {
        Some(v) => "MKB version:     "@ + dec(v as nat) + "\n"@,
        None => "MKB version:     (unknown)\n"@,
    }) + "Bus encryption:  "@ + bool_text(d.bus_encryption == Some(true)) + "\n"@
        + "VID available:   "@ + bool_text(d.vid_available) + "\n"@
}

/// The part of the report about the AACS protection of a disc.
pub open spec fn aacs_part(d: AacsShape) -> Seq<char> {
    "## AACS diagnostics\n\n```\n"@ + (if d.captured {
        captured_lines(d) + "```\n\n"@
    } else {
        "Not captured — keyless scan (no AACS handshake).\n"@ + "```\n\n"@ + AACS_ABSENT_HINT@
            + "\n\n"@
    })
}

/// The report about a disc.
pub open spec fn disc_report(disc: Disc, summary: DiscSummary, zip_b64: Seq<char>) -> Seq<char> {
    structure_part(disc, summary) + aacs_part(aacs_shape(disc.aacs))
        + "Metadata only — no audio/video essence, no AACS keys (no VUK, unit keys, MKB bytes, or raw Volume ID). `selection.json` in the zip shows freemkv's full title ranking; `aacs.json` carries the non-secret AACS diagnostics above (disc hash, version, vid-available) for keydb triage.\n\n"@
        + folded_archive("Disc structure (base64 zip)"@, zip_b64)
        + "---\n*Captured by `freemkv info … --share`*\n"@
}

fn structure_text(disc: &Disc, summary: &DiscSummary) -> (r: String)
    ensures
        r@ == structure_part(*disc, *summary),
{
    let mut body = "## Disc structure\n\n```\n".to_owned();
    body.append("Format:          ");
    body.append(disc.format.to_word());
    body.append("\n");
    body.append("Titles:          ");
    push_dec(&mut body, disc.titles.len() as u64);
    body.append("\n");
    let picked = if disc.titles.len() > 0 {
        let p = &disc.titles[0];
        let mut l = "Selected title:  playlist ".to_owned();
        push_dec(&mut l, p.playlist_id as u64);
        l.append(" (");
        l.append(sanitize(p.playlist.as_str()).as_str());
        l.append("), ");
        l.append(p.duration_rounded.as_str());
        l.append("s, ");
        push_dec(&mut l, p.size_bytes);
        l.append(" bytes\n");
        l
    } else {
        "".to_owned()
    };
    body.append(picked.as_str());
    body.append("Structure files: ");
    push_dec(&mut body, summary.file_count as u64);
    body.append(" (");
    push_dec(&mut body, summary.total_bytes);
    body.append(" bytes)\n");
    body.append("```\n\n");
    body
}

fn captured_lines_text(d: &AacsDiag) -> (r: String)
    ensures
        r@ == captured_lines(d@),
{
    let mut s = match &d.disc_hash {
        Some(h) => {
            let mut l = "Disc hash:       ".to_owned();
            l.append(h.as_str());
            l.append("  (keydb lookup key)\n");
            l
        },
        None => "Disc hash:       (unavailable)\n".to_owned(),
    };
    let generation = match d.generation {
        Some(g) => {
            let mut l = "AACS generation: ".to_owned();
            push_dec(&mut l, g as u64);
            l.append("\n");
            l
        },
        None => "".to_owned(),
    };
    s.append(generation.as_str());
    let mkb = match d.mkb_version {
        Some(v) => {
            let mut l = "MKB version:     ".to_owned();
            push_dec(&mut l, v as u64);
            l.append("\n");
            l
        },
        None => "MKB version:     (unknown)\n".to_owned(),
    };
    s.append(mkb.as_str());
    s.append("Bus encryption:  ");
    s.append(
        bool_word(
            match d.bus_encryption {
                Some(b) => b,
                None => false,
            },
        ),
    );
    s.append("\n");
    s.append("VID available:   ");
    s.append(bool_word(d.vid_available));
    s.append("\n");
    s
}

fn aacs_part_text(d: &AacsDiag) -> (r: String)
    ensures
        r@ == aacs_part(d@),
{
    let mut s = "## AACS diagnostics\n\n```\n".to_owned();
    let rest = if d.captured {
        let mut l = captured_lines_text(d);
        l.append("```\n\n");
        l
    } else {
        let mut l = "Not captured — keyless scan (no AACS handshake).\n".to_owned();
        l.append("```\n\n");
        l.append(AACS_ABSENT_HINT);
        l.append("\n\n");
        l
    };
    s.append(rest.as_str());
    s
}

/// The report about a disc: its structure, its protection and the archive.
pub fn issue_body(disc: &Disc, summary: &DiscSummary, zip_b64: &str) -> (r: String)
    ensures
        r@ == disc_report(*disc, *summary, zip_b64@),
{
    let mut body = structure_text(disc, summary);
    body.append(aacs_part_text(&aacs_diag(disc)).as_str());
    body.append(
        "Metadata only — no audio/video essence, no AACS keys (no VUK, unit keys, MKB bytes, or raw Volume ID). `selection.json` in the zip shows freemkv's full title ranking; `aacs.json` carries the non-secret AACS diagnostics above (disc hash, version, vid-available) for keydb triage.\n\n",
    );
    body.append(folded_archive_text("Disc structure (base64 zip)", zip_b64).as_str());
    body.append("---\n*Captured by `freemkv info … --share`*\n");
    body
}

/// The name of the directory that the profile of a disc is saved in.
pub fn disc_profile_name(label: &str) -> (r: String)
    ensures
        r@ == "disc-profile-"@ + component_of(label@),
{
    let mut s = "disc-profile-".to_owned();
    s.append(sanitize_component(label).as_str());
    s
}

/// The title of the report about a disc.
pub open spec fn disc_report_title(disc: Disc) -> Seq<char> {
    "Disc profile: "@ + disc.format.word() + " ("@ + dec(disc.titles@.len()) + " titles)"@
}

/// The title of the report about a disc.
pub fn disc_issue_title(disc: &Disc) -> (r: String)
    ensures
        r@ == disc_report_title(*disc),
{
    let mut s = "Disc profile: ".to_owned();
    s.append(disc.format.to_word());
    s.append(" (");
    push_dec(&mut s, disc.titles.len() as u64);
    s.append(" titles)");
    s
}

/// What is told of a profile that was captured.
pub open spec fn capture_text(
    c: Seq<(Seq<char>, Seq<char>)>,
    disc: Disc,
    summary: DiscSummary,
) -> Seq<Seq<char>> {
    seq![
        filled(
            text_or(
                c,
                "disc.capture_summary"@,
                "Captured disc structure: {files} files ({bytes} bytes)."@,
            ),
            seq![
                ("files"@, dec(summary.file_count as nat)),
                ("bytes"@, dec(summary.total_bytes as nat)),
            ],
        ),
        match aacs_shape(disc.aacs).disc_hash {
            Some(h) => filled(
                text_or(
                    c,
                    "disc.capture_aacs_hash"@,
                    "AACS diagnostics: disc hash {hash} (keydb lookup key) recorded in aacs.json."@,
                ),
                seq![("hash"@, h)],
            ),
            None => text_or(c, "disc.capture_aacs_absent"@, AACS_ABSENT_HINT@),
        },
    ]
}

/// What is told of a profile that was captured: how much, and whether the hash
/// of the disc is in it.
pub fn capture_lines(c: &Catalog, disc: &Disc, summary: &DiscSummary) -> (r: Vec<String>)
    ensures
        texts(r@) == capture_text(c@, *disc, *summary),
{
    let files = dec_text(summary.file_count as u64);
    let bytes = dec_text(summary.total_bytes);
    let mut args: Vec<(&str, &str)> = Vec::new();
    args.push(("files", files.as_str()));
    args.push(("bytes", bytes.as_str()));
    assert(arg_texts(args@) =~= seq![("files"@, files@), ("bytes"@, bytes@)]);
    let first = c.fmt_or(
        "disc.capture_summary",
        "Captured disc structure: {files} files ({bytes} bytes).",
        args.as_slice(),
    );
    let d = aacs_diag(disc);
    let second = match &d.disc_hash {
        Some(h) => c.fmt1_or(
            "disc.capture_aacs_hash",
            "AACS diagnostics: disc hash {hash} (keydb lookup key) recorded in aacs.json.",
            "hash",
            h.as_str(),
        ),
        None => c.get_or("disc.capture_aacs_absent", AACS_ABSENT_HINT),
    };
    let mut lines: Vec<String> = Vec::new();
    push_text(&mut lines, first);
    push_text(&mut lines, second);
    assert(texts(lines@) =~= seq![first@, second@]);
    lines
}

/// The AACS data of two discs differ in nothing but what is secret: the keys,
/// and which volume identifier the drive gave, if it gave one.
pub open spec fn same_but_for_secrets(a: AacsState, b: AacsState) -> bool {
    a.version == b.version && a.bus_encryption == b.bus_encryption && a.mkb_version == b.mkb_version
        && a.disc_hash@ == b.disc_hash@ && any_nonzero(a.volume_id@) == any_nonzero(b.volume_id@)
}

/// Law: nothing that is shared of a disc depends on its keys: two discs that
/// differ in nothing but their secrets give the same `aacs.json`, the same
/// `selection.json` and the same report, character for character.
pub proof fn law_nothing_shared_depends_on_a_key(
    a: Disc,
    b: Disc,
    summary: DiscSummary,
    version: Seq<char>,
    zip_b64: Seq<char>,
)
    requires
        a.format == b.format,
        a.titles@ == b.titles@,
        a.aacs is Some,
        b.aacs is Some,
        same_but_for_secrets(a.aacs->0, b.aacs->0),
    ensures
        aacs_json_text(aacs_shape(a.aacs)) == aacs_json_text(aacs_shape(b.aacs)),
        selection_text(a, version) == selection_text(b, version),
        disc_report(a, summary, zip_b64) == disc_report(b, summary, zip_b64),
{
    assert(aacs_shape(a.aacs) == aacs_shape(b.aacs));
}

} // verus!
