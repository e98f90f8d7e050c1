//! What holds of everything that a window is told of a source.

use crate::cli_entry::clock;
use crate::disc::{BdRegion, Disc, DiscRegion, Stream, Title, any_nonzero};
use crate::disc_info::{bd_letter, hex_of, mkb_text, unit_key_lines};
use crate::engine::identity::mark_of;
use crate::engine::rows::{
    container_scan, disc_detail, disc_row, disc_scan, drive_label, first_video, key_state,
    region_detail, shown_label, stream_row, title_head,
};
use crate::listing_laws::lemma_key_line;
use crate::paths::path_file_name;
use crate::reading::{
    ends_with, law_joined_has_each_part, law_trimming_takes_only_the_ends, lemma_has_either,
    lemma_has_part, lemma_starts, starts_with,
};
use crate::strings::sanitized;
use crate::text::{CharClass, dec, has_text, joined};
use vstd::prelude::*;
use vstd::string::*;

verus! {

/// Law: the row of a title has its number, counted from one, its playlist, how
/// many chapters it has, how long it is and how large; the longer text has the
/// same, and how many streams there are, each under its label.
pub proof fn law_title_head_says_what_it_is(t: Title, ti: usize)
    ensures
        ({
            let r = title_head(t, ti);
            let n = dec((ti + 1) as nat);
            let time = clock(t.duration_secs as nat);
            &&& r.type_s == "Title"@
            &&& r.title == ti && r.duration_secs == t.duration_secs && r.checkable && r.pid is None
            &&& starts_with(r.desc, n + ".  "@)
            &&& t.playlist@.len() > 0 ==> starts_with(r.desc, n + ".  "@ + sanitized(t.playlist@))
            &&& ends_with(
                r.desc,
                dec(t.chapters as nat) + " chapter(s) , "@ + time + " , "@ + t.size_text@,
            )
            &&& r.info == "Title information\n\nIndex: "@ + n + "\nDuration: "@ + time
                + "\nChapters: "@ + dec(t.chapters as nat) + "\nSize: "@ + t.size_text@
                + "\nStreams: "@ + dec(t.streams@.len())
        }),
{
    let n = dec((ti + 1) as nat);
    let time = clock(t.duration_secs as nat);
    let head = n + ".  "@;
    let p = if t.playlist@.len() == 0 {
        Seq::empty()
    } else {
        sanitized(t.playlist@) + "   "@
    };
    let tail = dec(t.chapters as nat) + " chapter(s) , "@ + time + " , "@ + t.size_text@;
    let desc = title_head(t, ti).desc;
    assert(desc =~= head + p + tail);
    lemma_starts(head, p + tail);
    assert(head + (p + tail) =~= head + p + tail);
    lemma_starts(head + p, tail);
    if t.playlist@.len() > 0 {
        let rest = "   "@ + tail;
        lemma_starts(head + sanitized(t.playlist@), rest);
        assert(head + sanitized(t.playlist@) + rest =~= desc);
    }
}

/// Law: the row of a disc names its format and its label; the longer text has both,
/// its protection and how many titles there are.
pub proof fn law_disc_row_says_what_it_is(disc: Disc, summary: Seq<char>)
    ensures
        ({
            let r = disc_row(disc, summary);
            &&& r.type_s == disc.format.word() + " disc"@
            &&& r.desc == shown_label(disc.volume_id@)
            &&& r.depth == 0 && !r.checkable && r.pid is None
            &&& r.info == "Disc information\n\nType: "@ + disc.format.word() + "\nLabel: "@
                + shown_label(disc.volume_id@) + "\nProtection: "@ + summary + "\nTitles: "@ + dec(
                disc.titles@.len(),
            )
        }),
{
}

/// Law: what a window is told of a disc is told of every title: which it is, and
/// the codec of its first video stream.
pub proof fn law_every_title_is_told(disc: Disc, summary: Seq<char>, verbose: bool, i: int, k: int)
    requires
        0 <= i < disc.titles@.len(),
    ensures
        ({
            let s = disc_scan(disc, summary, verbose);
            let streams = disc.titles@[i].streams@;
            &&& s.title_count == disc.titles@.len()
            &&& s.title_ids.len() == disc.titles@.len() && s.title_ids[i] == mark_of(disc.titles@[i])
            &&& s.video_codecs.len() == disc.titles@.len()
            &&& 0 <= k < streams.len() && (forall|j: int| 0 <= j < k ==> !((#[trigger] streams[j])
                is Video)) ==> (streams[k] matches Stream::Video(v) ==> s.video_codecs[i]
                == v.codec.name@)
            &&& (forall|j: int| 0 <= j < streams.len() ==> !((#[trigger] streams[j]) is Video))
                ==> s.video_codecs[i].len() == 0
            &&& s.key_summary == summary && s.volume_id == disc.volume_id@ && s.label
                == shown_label(disc.volume_id@)
        }),
{
    lemma_first_video(disc.titles@[i].streams@, 0, k);
}

proof fn lemma_first_video(s: Seq<Stream>, i: int, k: int)
    requires
        0 <= i,
    ensures
        i <= k < s.len() && (forall|j: int| i <= j < k ==> !((#[trigger] s[j]) is Video)) ==> (s[k]
            matches Stream::Video(v) ==> first_video(s, i) == v.codec.name@),
        (forall|j: int| i <= j < s.len() ==> !((#[trigger] s[j]) is Video)) ==> first_video(
            s,
            i,
        ).len() == 0,
    decreases s.len() - i,
{
    if i < s.len() {
        lemma_first_video(s, i + 1, k);
    }
}

/// Law: a container is one title: its rows are that of the file, that of the title
/// and one for each stream, in order; the file is called by its name, and its
/// length and how many tracks it has are told.
pub proof fn law_container_is_one_title(path: Seq<char>, name: Seq<char>, t: Title, i: int)
    requires
        path_file_name(path) == Some(name),
    ensures
        ({
            let s = container_scan(path, t);
            let tracks = dec(t.streams@.len());
            let time = clock(t.duration_secs as nat);
            &&& s.label == name && s.title_count == 1 && s.title_ids == seq![mark_of(t)]
            &&& s.rows.len() == 2 + t.streams@.len()
            &&& s.rows[0].desc == name && !s.rows[0].checkable && s.rows[0].depth == 0
            &&& s.rows[1].title == 0 && s.rows[1].checkable && s.rows[1].depth == 1
            &&& s.rows[1].duration_secs == t.duration_secs
            &&& starts_with(s.rows[1].desc, tracks) && ends_with(s.rows[1].desc, time)
            &&& ends_with(s.rows[1].info, "\nChapters: "@ + dec(t.chapters as nat))
            &&& has_text(s.rows[0].info, "\nTracks: "@ + tracks)
            &&& ends_with(s.rows[0].info, "\nDuration: "@ + time)
            &&& 0 <= i < t.streams@.len() ==> s.rows[2 + i] == stream_row(t.streams@[i], 0)
            &&& s.details == seq!["File: "@ + name, "Duration: "@ + time, "Streams: "@ + tracks]
            &&& s.key_summary == "unencrypted"@
        }),
{
    let tracks = dec(t.streams@.len());
    let time = clock(t.duration_secs as nat);
    lemma_starts(tracks, " track(s) , "@ + time);
    assert(tracks + (" track(s) , "@ + time) =~= tracks + " track(s) , "@ + time);
    lemma_starts(tracks + " track(s) , "@, time);
    let a = "File\n\nName: "@ + name;
    lemma_has_part(a, "\nTracks: "@ + tracks, "\nDuration: "@ + time);
    assert(a + ("\nTracks: "@ + tracks) + ("\nDuration: "@ + time) =~= a + "\nTracks: "@ + tracks
        + "\nDuration: "@ + time);
    lemma_starts(a + "\nTracks: "@ + tracks, "\nDuration: "@ + time);
    assert(a + "\nTracks: "@ + tracks + ("\nDuration: "@ + time) =~= a + "\nTracks: "@ + tracks
        + "\nDuration: "@ + time);
    let b = "Title information\n\nTracks: "@ + tracks + "\nDuration: "@ + time;
    let ch = dec(t.chapters as nat);
    lemma_starts(b, "\nChapters: "@ + ch);
    assert(b + ("\nChapters: "@ + ch) =~= b + "\nChapters: "@ + ch);
}

/// Law: what is said of the keys goes by what is there: a disc without encryption
/// needs none; one with CSS is called that; one with a key of either kind is
/// unlocked, by the source that had it where that is known; and any other is
/// locked.
pub proof fn law_key_state_goes_by_the_keys(disc: Disc, won: Option<Seq<char>>)
    ensures
        !disc.encrypted ==> key_state(disc, won) == "unencrypted"@,
        disc.encrypted && disc.css ==> key_state(disc, won) == "CSS (DVD)"@,
        disc.encrypted && !disc.css ==> (match disc.aacs {
            Some(a) => if a.unit_keys@.len() > 0 || a.vuk is Some {
                &&& won matches Some(w) ==> key_state(disc, won) == "unlocked via "@ + w
                &&& won is None ==> key_state(disc, won) == "unlocked"@
            } else {
                key_state(disc, won) == "locked — no key yet"@
            },
            None => key_state(disc, won) == "locked — no key yet"@,
        }),
{
}

/// Law: the details of a disc have its type first and how many titles there are
/// last; between them its capacity and layers where it is known, every region, its
/// key block, hash and volume identifier, and what is said of its keys; the keys
/// themselves only where more is wanted.
pub proof fn law_details_say_what_is_known(disc: Disc, summary: Seq<char>, verbose: bool, i: int)
    ensures
        ({
            let l = disc_detail(disc, summary, verbose);
            &&& l.len() > 0
            &&& l[0] == "Type: "@ + disc.format.word()
            &&& l.last() == "Titles: "@ + dec(disc.titles@.len())
            &&& l.contains("Protection: "@ + summary)
            &&& disc.capacity_bytes > 0 ==> l[1] == "Capacity: "@ + disc.capacity_gb@ + " GB, "@
                + dec(disc.layers as nat) + " layer(s)"@
            &&& region_detail(disc.region) matches Some(r) ==> l.contains(r)
            &&& disc.aacs matches Some(a) ==> {
                &&& l.contains(mkb_text(a))
                &&& l.contains("Disc hash: "@ + a.disc_hash@)
                &&& any_nonzero(a.volume_id@) ==> l.contains("VID: 0x"@ + hex_of(a.volume_id@))
                &&& verbose && a.vuk is Some ==> l.contains("  VUK: 0x"@ + hex_of(a.vuk->0@))
                &&& verbose && 0 <= i < a.unit_keys@.len() ==> l.contains(
                    "  CPS "@ + dec(a.unit_keys@[i].0 as nat) + ": 0x"@ + hex_of(
                        a.unit_keys@[i].1@,
                    ),
                )
            }
        }),
{
    let l = disc_detail(disc, summary, verbose);
    let n1: int = if disc.capacity_bytes > 0 {
        2
    } else {
        1
    };
    let n2: int = if region_detail(disc.region) is Some {
        n1 + 1
    } else {
        n1
    };
    if let Some(r) = region_detail(disc.region) {
        assert(l[n1] == r);
    }
    match disc.aacs {
        Some(a) => {
            let n3: int = if any_nonzero(a.volume_id@) {
                n2 + 3
            } else {
                n2 + 2
            };
            assert(l[n2] == mkb_text(a));
            assert(l[n2 + 1] == "Disc hash: "@ + a.disc_hash@);
            if any_nonzero(a.volume_id@) {
                assert(l[n2 + 2] == "VID: 0x"@ + hex_of(a.volume_id@));
            }
            assert(l[n3] == "Protection: "@ + summary);
            if verbose {
                let n4: int = if a.vuk is Some {
                    n3 + 2
                } else {
                    n3 + 1
                };
                if a.vuk is Some {
                    assert(l[n3 + 1] == "  VUK: 0x"@ + hex_of(a.vuk->0@));
                }
                if 0 <= i < a.unit_keys@.len() {
                    lemma_key_line(a.unit_keys@, a.unit_keys@.len(), i);
                    assert(l[n4 + i] == unit_key_lines(a.unit_keys@, a.unit_keys@.len())[i]);
                }
            }
        },
        None => {
            assert(l[n2] == "Protection: "@ + summary);
        },
    }
}

/// Law: the region of a disc names each region that the disc plays in.
pub proof fn law_region_detail_names_each(region: DiscRegion, i: int)
    ensures
        region matches DiscRegion::BluRay(rs) ==> (0 <= i < rs@.len() ==> (region_detail(region)
            matches Some(l) && starts_with(l, "Region: Blu-ray "@) && has_text(l, bd_letter(rs@[i])))),
        region matches DiscRegion::Dvd(ns) ==> (0 <= i < ns@.len() ==> (region_detail(region)
            matches Some(l) && starts_with(l, "Region: DVD "@) && has_text(
            l,
            dec(ns@[i] as nat),
        ))),
        region is Free ==> region_detail(region) == Some("Region: free"@),
{
    match region {
        DiscRegion::BluRay(rs) => {
            let parts = rs@.map_values(|r: BdRegion| bd_letter(r));
            if 0 <= i < rs@.len() {
                assert(parts[i] == bd_letter(rs@[i]));
                law_joined_has_each_part(parts, "/"@, i);
                lemma_has_either("Region: Blu-ray "@, joined(parts, "/"@), parts[i]);
                lemma_starts("Region: Blu-ray "@, joined(parts, "/"@));
            }
        },
        DiscRegion::Dvd(ns) => {
            let parts = ns@.map_values(|r: u8| dec(r as nat));
            if 0 <= i < ns@.len() {
                assert(parts[i] == dec(ns@[i] as nat));
                law_joined_has_each_part(parts, ","@, i);
                lemma_has_either("Region: DVD "@, joined(parts, ","@), parts[i]);
                lemma_starts("Region: DVD "@, joined(parts, ","@));
            }
        },
        DiscRegion::Free => {},
    }
}

/// Law: a drive is offered under its vendor and its model, in this order.
pub proof fn law_drive_is_offered_by_name(vendor: Seq<char>, model: Seq<char>)
    requires
        vendor.len() > 0 && !CharClass::White.has(vendor[0]) && !CharClass::White.has(vendor.last()),
        model.len() > 0 && !CharClass::White.has(model[0]) && !CharClass::White.has(model.last()),
    ensures
        drive_label(vendor, model) == vendor + " "@ + model,
{
    let s = vendor + " "@ + model;
    assert(s[0] == vendor[0] && s.last() == model.last());
    law_trimming_takes_only_the_ends(vendor, CharClass::White);
    law_trimming_takes_only_the_ends(model, CharClass::White);
    law_trimming_takes_only_the_ends(s, CharClass::White);
}

} // verus!
