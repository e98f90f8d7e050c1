//! What holds of everything that is shared.

use crate::disc::{AacsState, Disc, Title};
use crate::disc_capture::{
    AacsShape, DiscSummary, aacs_json_text, aacs_part, aacs_shape, bytes_in, capture_text,
    captured_lines, captured_members, disc_report, disc_report_title, lookup_hash, picked_playlist,
    quoted_clips, selection_text, structure_part, title_json, titles_json,
};
use crate::encode::{json_escaped, json_plain};
use crate::info::{SavedFile, bool_text};
use crate::reading::{
    ends_with, lacks, law_joined_has_each_part, law_number_reads_back,
    law_placeholder_gets_its_value, law_trimming_takes_only_the_ends, lemma_has_either,
    lemma_has_part, lemma_has_three, lemma_starts, starts_with,
};
use crate::strings::sanitized;
use crate::submit::{
    SubmitEvent, SubmitStage, WhyByHand, by_hand, issue_url_from, outcome_text, payload_of,
    post_args, saved_text, submit_next,
};
use crate::text::{
    CharClass, dec, has_text, joined, lemma_next_at, lowered, occurs_at, trimmed, until,
};
use vstd::prelude::*;
use vstd::string::*;

verus! {

/// Law: the question is put exactly where there is something to submit with and
/// someone at a terminal to see and answer it; only the word for yes, in either
/// case and with whatever space around it, is a yes; and posting ends with the
/// address of the report, or as a failure.
pub proof fn law_submission_goes_by_the_answer(
    token: String,
    stdin_is_tty: bool,
    stderr_is_tty: bool,
    n: usize,
    line: String,
    affirmative: String,
    url: Option<String>,
)
    ensures
        ({
            let s = submit_next(
                SubmitStage::Saved,
                SubmitEvent::Ready { token, stdin_is_tty, stderr_is_tty },
            );
            if token@.len() > 0 && stdin_is_tty && stderr_is_tty {
                s is Asked
            } else {
                s == SubmitStage::ByHand(WhyByHand::NotAsked)
            }
        }),
        ({
            let s = submit_next(
                SubmitStage::Asked,
                SubmitEvent::Answered { n, line, affirmative },
            );
            let word = trimmed(line@, CharClass::White);
            if n > 0 && word.len() > 0 && lowered(word) == lowered(affirmative@) {
                s is Posting
            } else {
                s == SubmitStage::ByHand(WhyByHand::Declined)
            }
        }),
        ({
            let s = submit_next(SubmitStage::Posting, SubmitEvent::PostDone(url));
            &&& url matches Some(u) ==> s == SubmitStage::Posted(u@)
            &&& url is None ==> s == SubmitStage::ByHand(WhyByHand::Failed)
        }),
{
}

/// Law: after posting, the address of the report is shown; after a no and after a
/// failure it is said that the report can be filed by hand; and otherwise nothing
/// is said.
pub proof fn law_outcome_is_told(c: Seq<(Seq<char>, Seq<char>)>, s: SubmitStage)
    ensures
        s matches SubmitStage::Posted(u) ==> outcome_text(c, s).len() > 0 && outcome_text(
            c,
            s,
        ).last() == "  "@ + u,
        s == SubmitStage::ByHand(WhyByHand::Failed) || s == SubmitStage::ByHand(WhyByHand::Declined)
            <==> outcome_text(c, s).len() > 0 && !(s is Posted),
{
}

/// Law: what is posted holds the title and the body of the report, each as the
/// inside of a JSON string and under its own name.
pub proof fn law_payload_holds_the_report(title: Seq<char>, body: Seq<char>)
    ensures
        starts_with(
            payload_of(title, body),
            "{\"title\":\""@ + json_escaped(title) + "\",\"body\":\""@ + json_escaped(body)
                + "\","@,
        ),
        ends_with(payload_of(title, body), "\"labels\":[\"drive-profile\"]}"@),
{
    reveal_strlit("\",\"labels\":[\"drive-profile\"]}");
    reveal_strlit("\",");
    reveal_strlit("\"labels\":[\"drive-profile\"]}");
    let head = "{\"title\":\""@ + json_escaped(title) + "\",\"body\":\""@ + json_escaped(body);
    assert("\",\"labels\":[\"drive-profile\"]}"@ =~= "\","@ + "\"labels\":[\"drive-profile\"]}"@);
    lemma_starts(head + "\","@, "\"labels\":[\"drive-profile\"]}"@);
    assert(payload_of(title, body) =~= head + "\","@ + "\"labels\":[\"drive-profile\"]}"@);
}

/// Law: the address of a report is what stands in quotes behind the first
/// `html_url` of the reply that leads to an issue.
pub proof fn law_issue_is_found(pre: Seq<char>, url: Seq<char>, post: Seq<char>)
    requires
        ({
            let key = "\"html_url\":\""@;
            let reply = pre + key + url + seq!['"'] + post;
            &&& forall|i: int| 0 <= i < pre.len() ==> !occurs_at(reply, key, i)
            &&& lacks(url, '"')
            &&& has_text(url, "/issues/"@)
        }),
    ensures
        issue_url_from(pre + "\"html_url\":\""@ + url + seq!['"'] + post, 0) == Some(url),
{
    let key = "\"html_url\":\""@;
    let reply = pre + key + url + seq!['"'] + post;
    let k = pre.len() as int;
    assert(reply.subrange(k, k + key.len()) =~= key);
    lemma_next_at(reply, key, 0, Some(k));
    let rest = reply.skip(k + key.len());
    assert(rest =~= url + (seq!['"'] + post));
    lemma_until_quote(url, seq!['"'] + post);
}

proof fn lemma_until_quote(a: Seq<char>, b: Seq<char>)
    requires
        lacks(a, '"'),
        b.len() > 0,
        b[0] == '"',
    ensures
        until(a + b, CharClass::Quote) == a,
    decreases a.len(),
{
    let s = a + b;
    if a.len() > 0 {
        let t = a.skip(1);
        assert forall|i: int| 0 <= i < t.len() implies #[trigger] t[i] != '"' by {
            assert(t[i] == a[i + 1]);
        }
        lemma_until_quote(t, b);
        assert(s.skip(1) =~= t + b);
        assert(s[0] == a[0]);
        assert(seq![a[0]] + t =~= a);
    } else {
        assert(s =~= b);
    }
}

/// `value` is the argument behind a `flag` in `args`.
pub open spec fn is_given(args: Seq<Seq<char>>, flag: Seq<char>, value: Seq<char>) -> bool {
    exists|i: int| 0 <= i < args.len() - 1 && #[trigger] args[i] == flag && args[i + 1] == value
}

/// Law: the report is posted to the issues of the project, over an encrypted
/// connection alone, with the token as the authorization and the report as the
/// data; connecting, the whole post and the reply are bounded.
pub proof fn law_post_carries_the_report(token: Seq<char>, payload: Seq<char>)
    ensures
        ({
            let a = post_args(token, payload);
            &&& is_given(a, "-X"@, "POST"@)
            &&& is_given(a, "-d"@, payload)
            &&& is_given(a, "-H"@, "Authorization: token "@ + token)
            &&& is_given(a, "--proto"@, "=https"@)
            &&& is_given(a, "--connect-timeout"@, dec(10))
            &&& is_given(a, "--max-time"@, dec(120))
            &&& is_given(a, "--max-filesize"@, dec(1048576))
            &&& exists|i: int|
                0 <= i < a.len() && #[trigger] a[i]
                    == "https://api.github.com/repos/"@ + crate::submit::SUBMIT_REPO@ + "/issues"@
        }),
{
    let a = post_args(token, payload);
    assert(a[1] == "-X"@ && a[2] == "POST"@);
    assert(a[18] == "-d"@ && a[19] == payload);
    assert(a[12] == "-H"@ && a[13] == "Authorization: token "@ + token);
    assert(a[9] == "--proto"@ && a[10] == "=https"@);
    assert(a[3] == "--connect-timeout"@ && a[5] == "--max-time"@ && a[7] == "--max-filesize"@);
    assert(a[11] == "https://api.github.com/repos/"@ + crate::submit::SUBMIT_REPO@ + "/issues"@);
}

/// Law: to file a report by hand, its title is given where the catalogue has the
/// place for it, and its body word for word between two rules, behind everything
/// else.
pub proof fn law_report_can_be_filed_by_hand(
    c: Seq<(Seq<char>, Seq<char>)>,
    title: Seq<char>,
    body: Seq<char>,
)
    ensures
        ends_with(
            by_hand(c, title, body),
            "────────────────────────────────────────\n"@ + body
                + "────────────────────────────────────────\n"@,
        ),
        has_text(
            by_hand(c, title, body),
            crate::strings::filled(
                crate::strings::text_of(c, "drive.submit_issue_title"@),
                seq![("title"@, title)],
            ),
        ),
{
    broadcast use crate::reading::lemma_has_more;

    let rule = "────────────────────────────────────────\n"@;
    let t = crate::strings::filled(
        crate::strings::text_of(c, "drive.submit_issue_title"@),
        seq![("title"@, title)],
    );
    let head = "\n"@ + crate::strings::text_of(c, "drive.submit_manual"@) + "\n"@
        + "  https://github.com/freemkv/bdemu/issues/new\n"@ + "\n"@;
    let front = head + t + "\n"@ + "\n"@ + crate::strings::text_of(c, "drive.submit_issue_body"@)
        + "\n"@;
    let e = Seq::<char>::empty();
    lemma_has_part(head, t, e);
    assert(head + t + e =~= head + t);
    lemma_starts(front, rule + body + rule);
    assert(front + (rule + body + rule) =~= front + rule + body + rule);
}

/// Law: the bytes of a profile are those of all its files together.
pub proof fn law_bytes_add_up(a: Seq<SavedFile>, b: Seq<SavedFile>)
    ensures
        bytes_in(a + b, (a + b).len()) == bytes_in(a, a.len()) + bytes_in(b, b.len()),
        a.len() == 1 ==> bytes_in(a, 1) == a[0].data@.len(),
        bytes_in(Seq::empty(), 0) == 0,
    decreases b.len(),
{
    reveal_with_fuel(bytes_in, 2);
    if b.len() == 0 {
        assert(a + b =~= a);
    } else {
        let c = b.drop_last();
        law_bytes_add_up(a, c);
        lemma_bytes_of_head(a + b, a + c, (a + c).len());
        lemma_bytes_of_head(b, c, c.len());
    }
}

proof fn lemma_bytes_of_head(a: Seq<SavedFile>, b: Seq<SavedFile>, n: nat)
    requires
        n <= a.len(),
        n <= b.len(),
        forall|i: int| 0 <= i < n ==> a[i] == b[i],
    ensures
        bytes_in(a, n) == bytes_in(b, n),
    decreases n,
{
    if n > 0 {
        lemma_bytes_of_head(a, b, (n - 1) as nat);
    }
}

/// Law: the hash that keys are looked up by is the hash of the disc, without a
/// prefix and without space around it.
pub proof fn law_hash_is_without_its_prefix(h: Seq<char>, x: char)
    requires
        h.len() > 0,
        !CharClass::White.has(h[0]) && !CharClass::White.has(h.last()),
        x == 'x' || x == 'X',
    ensures
        lookup_hash(seq!['0', x] + h) == h,
        !(h.len() >= 2 && h[0] == '0' && (h[1] == 'x' || h[1] == 'X')) ==> lookup_hash(h) == h,
{
    let s = seq!['0', x] + h;
    assert(s[0] == '0' && s.last() == h.last());
    assert(!CharClass::White.has('0'));
    lemma_kept(s);
    lemma_kept(h);
    assert(s.skip(2) =~= h);
}

proof fn lemma_kept(s: Seq<char>)
    requires
        s.len() > 0,
        !CharClass::White.has(s[0]) && !CharClass::White.has(s.last()),
    ensures
        trimmed(s, CharClass::White) == s,
{
    law_trimming_takes_only_the_ends(s, CharClass::White);
}

/// Law: what is told of the protection is what was found of it: its generation,
/// its version and bus encryption, and of the volume identifier only whether there
/// is one; where nothing was found, nothing is told.
pub proof fn law_protection_is_told_as_found(aacs: Option<AacsState>)
    ensures
        ({
            let d = aacs_shape(aacs);
            &&& d.captured == (aacs is Some)
            &&& aacs matches Some(a) ==> {
                &&& d.generation == Some(a.version)
                &&& d.mkb_version == a.mkb_version
                &&& d.bus_encryption == Some(a.bus_encryption)
                &&& d.vid_available == exists|i: int|
                    0 <= i < a.volume_id@.len() && #[trigger] a.volume_id@[i] != 0
                &&& d.disc_hash is Some <==> lookup_hash(a.disc_hash@).len() > 0
                &&& d.disc_hash matches Some(h) ==> h == lookup_hash(a.disc_hash@)
            }
            &&& aacs is None ==> d.disc_hash is None && d.generation is None && d.mkb_version is None
                && !d.vid_available
        }),
{
}

/// Law: `aacs.json` has a line for each thing that is told of the protection, under
/// its own name, and `null` where it is not known.
pub proof fn law_aacs_members_are_named(d: AacsShape)
    ensures
        ({
            let t = aacs_json_text(d);
            &&& has_text(t, "  \"aacs_captured\": "@ + bool_text(d.captured) + ",\n"@)
            &&& d.captured ==> {
                &&& d.disc_hash matches Some(h) ==> has_text(
                    t,
                    "  \"disc_hash\": \""@ + json_plain(h) + "\",\n"@,
                )
                &&& d.disc_hash is None ==> has_text(t, "  \"disc_hash\": null,\n"@)
                &&& d.generation matches Some(g) ==> has_text(
                    t,
                    "  \"aacs_generation\": "@ + dec(g as nat) + ",\n"@,
                )
                &&& d.mkb_version matches Some(v) ==> has_text(
                    t,
                    "  \"mkb_version\": "@ + dec(v as nat) + ",\n"@,
                )
                &&& d.mkb_version is None ==> has_text(t, "  \"mkb_version\": null,\n"@)
                &&& has_text(
                    t,
                    "  \"bus_encryption\": "@ + bool_text(d.bus_encryption == Some(true)) + ",\n"@,
                )
                &&& has_text(t, "  \"vid_available\": "@ + bool_text(d.vid_available) + ",\n"@)
            }
        }),
{
    broadcast use crate::reading::lemma_has_more;

    let head = "{\n"@;
    lemma_has_three(head, "  \"aacs_captured\": "@, bool_text(d.captured), ",\n"@);
    let front = head + "  \"aacs_captured\": "@ + bool_text(d.captured) + ",\n"@;
    if d.captured {
        lemma_members(d);
        assert forall|p: Seq<char>| has_text(captured_members(d), p) implies #[trigger] has_text(
            aacs_json_text(d),
            p,
        ) by {
            lemma_has_either(front, captured_members(d), p);
        }
    }
}

proof fn lemma_members(d: AacsShape)
    ensures
        ({
            let t = captured_members(d);
            &&& d.disc_hash matches Some(h) ==> has_text(
                t,
                "  \"disc_hash\": \""@ + json_plain(h) + "\",\n"@,
            )
            &&& d.disc_hash is None ==> has_text(t, "  \"disc_hash\": null,\n"@)
            &&& d.generation matches Some(g) ==> has_text(
                t,
                "  \"aacs_generation\": "@ + dec(g as nat) + ",\n"@,
            )
            &&& d.mkb_version matches Some(v) ==> has_text(
                t,
                "  \"mkb_version\": "@ + dec(v as nat) + ",\n"@,
            )
            &&& d.mkb_version is None ==> has_text(t, "  \"mkb_version\": null,\n"@)
            &&& has_text(
                t,
                "  \"bus_encryption\": "@ + bool_text(d.bus_encryption == Some(true)) + ",\n"@,
            )
            &&& has_text(t, "  \"vid_available\": "@ + bool_text(d.vid_available) + ",\n"@)
        }),
{
    broadcast use crate::reading::lemma_has_more;

    let e = Seq::<char>::empty();
    let h = match d.disc_hash {
        Some(h) => "  \"disc_hash\": \""@ + json_plain(h) + "\",\n"@,
        None => "  \"disc_hash\": null,\n"@,
    };
    let g = match d.generation {
        Some(g) => "  \"aacs_generation\": "@ + dec(g as nat) + ",\n"@,
        None => "  \"aacs_generation\": null,\n"@,
    };
    let v = match d.mkb_version {
        Some(v) => "  \"mkb_version\": "@ + dec(v as nat) + ",\n"@,
        None => "  \"mkb_version\": null,\n"@,
    };
    lemma_has_part(e, h, e);
    assert(e + h + e =~= h);
    lemma_has_part(h, g, e);
    assert(h + g + e =~= h + g);
    lemma_has_part(h + g, v, e);
    assert(h + g + v + e =~= h + g + v);
    let b = bool_text(d.bus_encryption == Some(true));
    lemma_has_three(h + g + v, "  \"bus_encryption\": "@, b, ",\n"@);
    lemma_has_three(
        h + g + v + "  \"bus_encryption\": "@ + b + ",\n"@,
        "  \"vid_available\": "@,
        bool_text(d.vid_available),
        ",\n"@,
    );
}

/// Law: `selection.json` names the version and the format, which playlist was
/// picked (that of the first title) and how many titles there are, and has every
/// title, with a comma behind each but the last.
pub proof fn law_every_title_is_shared(disc: Disc, version: Seq<char>, i: int)
    ensures
        ({
            let t = selection_text(disc, version);
            let titles = disc.titles@;
            &&& has_text(t, "  \"freemkv\": \""@ + json_plain(version) + "\",\n"@)
            &&& has_text(t, "  \"format\": \""@ + disc.format.word() + "\",\n"@)
            &&& has_text(t, "  \"title_count\": "@ + dec(titles.len()) + ",\n"@)
            &&& titles.len() > 0 ==> has_text(
                t,
                "  \"picked_playlist_id\": "@ + dec(titles[0].playlist_id as nat) + ",\n"@,
            )
            &&& 0 <= i < titles.len() ==> has_text(t, title_json(titles[i], i == titles.len() - 1))
        }),
{
    broadcast use crate::reading::lemma_has_more;

    let titles = disc.titles@;
    let picked = dec(picked_playlist(titles));
    let x0 = "{\n"@;
    let x1 = x0 + "  \"freemkv\": \""@ + json_plain(version) + "\",\n"@;
    let x2 = x1 + "  \"format\": \""@ + disc.format.word() + "\",\n"@;
    let x3 = x2 + "  \"picked_playlist_id\": "@ + picked + ",\n"@;
    let x4 = x3 + "  \"title_count\": "@ + dec(titles.len()) + ",\n"@ + "  \"titles\": [\n"@;
    lemma_has_three(x0, "  \"freemkv\": \""@, json_plain(version), "\",\n"@);
    lemma_has_three(x1, "  \"format\": \""@, disc.format.word(), "\",\n"@);
    lemma_has_three(x2, "  \"picked_playlist_id\": "@, picked, ",\n"@);
    lemma_has_three(x3, "  \"title_count\": "@, dec(titles.len()), ",\n"@);
    if 0 <= i < titles.len() {
        lemma_title_among(titles, titles.len(), i);
        lemma_has_either(
            x4,
            titles_json(titles, titles.len()),
            title_json(titles[i], i == titles.len() - 1),
        );
    }
}

proof fn lemma_title_among(titles: Seq<Title>, n: nat, i: int)
    requires
        0 <= i < n <= titles.len(),
    ensures
        has_text(titles_json(titles, n), title_json(titles[i], i == titles.len() - 1)),
    decreases n,
{
    let before = titles_json(titles, (n - 1) as nat);
    let own = title_json(titles[n - 1], n == titles.len());
    let e = Seq::<char>::empty();
    if i < n - 1 {
        lemma_title_among(titles, (n - 1) as nat, i);
        lemma_has_either(before, own, title_json(titles[i], i == titles.len() - 1));
    } else {
        lemma_has_part(before, own, e);
        assert(before + own + e =~= before + own);
    }
}

/// Law: what is shared of a title is its playlist, its length, its size, whether
/// it has video, and every clip of it, each under its own name.
#[verifier::rlimit(60)]
pub proof fn law_title_is_shared_whole(t: Title, last: bool, i: int)
    ensures
        ({
            let s = title_json(t, last);
            &&& starts_with(
                s,
                "    {\"playlist_id\": "@ + dec(t.playlist_id as nat) + ", \"playlist\": \""@
                    + json_plain(t.playlist@) + "\", \"duration_secs\": "@ + t.duration_tenths@
                    + ", \"size_bytes\": "@ + dec(t.size_bytes as nat) + ", \"has_video\": "@
                    + bool_text(t.has_video) + ", \"has_probable_video\": "@ + bool_text(
                    t.has_probable_video,
                ) + ", \"clips\": ["@,
            )
            &&& 0 <= i < t.clips@.len() ==> has_text(s, "\""@ + json_plain(t.clips@[i]@) + "\""@)
            &&& last ==> ends_with(s, "]}\n"@)
            &&& !last ==> ends_with(s, "]},\n"@)
        }),
{
    reveal_strlit("]}\n");
    reveal_strlit("]},\n");
    reveal_strlit("]}");
    reveal_strlit(",");
    reveal_strlit("");
    reveal_strlit("\n");
    let head = "    {\"playlist_id\": "@ + dec(t.playlist_id as nat) + ", \"playlist\": \""@
        + json_plain(t.playlist@) + "\", \"duration_secs\": "@ + t.duration_tenths@
        + ", \"size_bytes\": "@ + dec(t.size_bytes as nat) + ", \"has_video\": "@ + bool_text(
        t.has_video,
    ) + ", \"has_probable_video\": "@ + bool_text(t.has_probable_video) + ", \"clips\": ["@;
    let clips = quoted_clips(t.clips@);
    let list = joined(clips, ", "@);
    let end = if last {
        "]}\n"@
    } else {
        "]},\n"@
    };
    assert("]}"@ + ""@ + "\n"@ =~= "]}\n"@);
    assert("]}"@ + ","@ + "\n"@ =~= "]},\n"@);
    assert(title_json(t, last) =~= head + list + end);
    lemma_starts(head, list + end);
    assert(head + (list + end) =~= head + list + end);
    lemma_starts(head + list, end);
    if 0 <= i < t.clips@.len() {
        let p = "\""@ + json_plain(t.clips@[i]@) + "\""@;
        assert(clips[i] == p);
        law_joined_has_each_part(clips, ", "@, i);
        lemma_has_either(head, list, p);
        lemma_has_either(head + list, end, p);
    }
}

/// Law: the report about a disc says its format, how many titles it has, which was
/// selected, how many files and bytes were captured, and what is told of its
/// protection, each under its own label.
#[verifier::rlimit(60)]
pub proof fn law_disc_report_says_what_was_found(
    disc: Disc,
    summary: DiscSummary,
    zip_b64: Seq<char>,
)
    ensures
        ({
            let r = disc_report(disc, summary, zip_b64);
            let d = aacs_shape(disc.aacs);
            &&& has_text(r, "Format:          "@ + disc.format.word() + "\n"@)
            &&& has_text(r, "Titles:          "@ + dec(disc.titles@.len()) + "\n"@)
            &&& has_text(r, "Structure files: "@ + dec(summary.file_count as nat) + " ("@)
            &&& has_text(r, " ("@ + dec(summary.total_bytes as nat) + " bytes)\n"@)
            &&& disc.titles@.len() > 0 ==> has_text(
                r,
                "Selected title:  playlist "@ + dec(disc.titles@[0].playlist_id as nat) + " ("@,
            ) && has_text(r, " ("@ + sanitized(disc.titles@[0].playlist@) + "), "@) && has_text(
                r,
                "), "@ + disc.titles@[0].duration_rounded@ + "s, "@,
            ) && has_text(r, "s, "@ + dec(disc.titles@[0].size_bytes as nat) + " bytes\n"@)
            &&& d.captured ==> {
                &&& d.disc_hash matches Some(h) ==> has_text(
                    r,
                    "Disc hash:       "@ + h + "  (keydb lookup key)\n"@,
                )
                &&& d.generation matches Some(g) ==> has_text(
                    r,
                    "AACS generation: "@ + dec(g as nat) + "\n"@,
                )
                &&& d.mkb_version matches Some(v) ==> has_text(
                    r,
                    "MKB version:     "@ + dec(v as nat) + "\n"@,
                )
                &&& has_text(
                    r,
                    "Bus encryption:  "@ + bool_text(d.bus_encryption == Some(true)) + "\n"@,
                )
                &&& has_text(r, "VID available:   "@ + bool_text(d.vid_available) + "\n"@)
            }
        }),
{
    let s = structure_part(disc, summary);
    let a = aacs_part(aacs_shape(disc.aacs));
    lemma_structure(disc, summary);
    lemma_captured(aacs_shape(disc.aacs));
    assert forall|p: Seq<char>| has_text(s, p) implies #[trigger] has_text(
        disc_report(disc, summary, zip_b64),
        p,
    ) by {
        broadcast use crate::reading::lemma_has_more;

    }
    assert forall|p: Seq<char>| has_text(a, p) implies #[trigger] has_text(
        disc_report(disc, summary, zip_b64),
        p,
    ) by {
        broadcast use crate::reading::lemma_has_more;

        lemma_has_either(s, a, p);
    }
}

proof fn lemma_structure(disc: Disc, summary: DiscSummary)
    ensures
        ({
            let r = structure_part(disc, summary);
            &&& has_text(r, "Format:          "@ + disc.format.word() + "\n"@)
            &&& has_text(r, "Titles:          "@ + dec(disc.titles@.len()) + "\n"@)
            &&& has_text(r, "Structure files: "@ + dec(summary.file_count as nat) + " ("@)
            &&& has_text(r, " ("@ + dec(summary.total_bytes as nat) + " bytes)\n"@)
            &&& disc.titles@.len() > 0 ==> has_text(
                r,
                "Selected title:  playlist "@ + dec(disc.titles@[0].playlist_id as nat) + " ("@,
            ) && has_text(r, " ("@ + sanitized(disc.titles@[0].playlist@) + "), "@) && has_text(
                r,
                "), "@ + disc.titles@[0].duration_rounded@ + "s, "@,
            ) && has_text(r, "s, "@ + dec(disc.titles@[0].size_bytes as nat) + " bytes\n"@)
        }),
{
    broadcast use crate::reading::lemma_has_more;

    let x0 = "## Disc structure\n\n```\n"@;
    let x1 = x0 + "Format:          "@ + disc.format.word() + "\n"@;
    let x2 = x1 + "Titles:          "@ + dec(disc.titles@.len()) + "\n"@;
    lemma_has_three(x0, "Format:          "@, disc.format.word(), "\n"@);
    lemma_has_three(x1, "Titles:          "@, dec(disc.titles@.len()), "\n"@);
    let picked = if disc.titles@.len() > 0 {
        "Selected title:  playlist "@ + dec(disc.titles@[0].playlist_id as nat) + " ("@ + sanitized(
            disc.titles@[0].playlist@,
        ) + "), "@ + disc.titles@[0].duration_rounded@ + "s, "@ + dec(
            disc.titles@[0].size_bytes as nat,
        ) + " bytes\n"@
    } else {
        ""@
    };
    let x3 = x2 + picked;
    let f = dec(summary.file_count as nat);
    let b = dec(summary.total_bytes as nat);
    lemma_has_three(x3, "Structure files: "@, f, " ("@);
    lemma_has_three(x3 + "Structure files: "@ + f, " ("@, b, " bytes)\n"@);
    if disc.titles@.len() > 0 {
        lemma_picked(disc.titles@[0]);
        assert forall|p: Seq<char>| has_text(picked, p) implies #[trigger] has_text(x3, p) by {
            lemma_has_either(x2, picked, p);
        }
    }
}

proof fn lemma_picked(t: Title)
    ensures
        ({
            let r = "Selected title:  playlist "@ + dec(t.playlist_id as nat) + " ("@ + sanitized(
                t.playlist@,
            ) + "), "@ + t.duration_rounded@ + "s, "@ + dec(t.size_bytes as nat) + " bytes\n"@;
            &&& has_text(r, "Selected title:  playlist "@ + dec(t.playlist_id as nat) + " ("@)
            &&& has_text(r, " ("@ + sanitized(t.playlist@) + "), "@)
            &&& has_text(r, "), "@ + t.duration_rounded@ + "s, "@)
            &&& has_text(r, "s, "@ + dec(t.size_bytes as nat) + " bytes\n"@)
        }),
{
    broadcast use crate::reading::lemma_has_more;

    let e = Seq::<char>::empty();
    let a = "Selected title:  playlist "@ + dec(t.playlist_id as nat);
    lemma_has_part(e, a + " ("@, e);
    assert(e + (a + " ("@) + e =~= a + " ("@);
    lemma_has_three(a, " ("@, sanitized(t.playlist@), "), "@);
    let b = a + " ("@ + sanitized(t.playlist@);
    lemma_has_three(b, "), "@, t.duration_rounded@, "s, "@);
    lemma_has_three(
        b + "), "@ + t.duration_rounded@,
        "s, "@,
        dec(t.size_bytes as nat),
        " bytes\n"@,
    );
}

proof fn lemma_captured(d: AacsShape)
    ensures
        d.captured ==> {
            let r = aacs_part(d);
            &&& d.disc_hash matches Some(h) ==> has_text(
                r,
                "Disc hash:       "@ + h + "  (keydb lookup key)\n"@,
            )
            &&& d.generation matches Some(g) ==> has_text(
                r,
                "AACS generation: "@ + dec(g as nat) + "\n"@,
            )
            &&& d.mkb_version matches Some(v) ==> has_text(
                r,
                "MKB version:     "@ + dec(v as nat) + "\n"@,
            )
            &&& has_text(
                r,
                "Bus encryption:  "@ + bool_text(d.bus_encryption == Some(true)) + "\n"@,
            )
            &&& has_text(r, "VID available:   "@ + bool_text(d.vid_available) + "\n"@)
        },
{
    broadcast use crate::reading::lemma_has_more;

    let e = Seq::<char>::empty();
    let h = match d.disc_hash {
        Some(h) => "Disc hash:       "@ + h + "  (keydb lookup key)\n"@,
        None => "Disc hash:       (unavailable)\n"@,
    };
    let g = match d.generation {
        Some(g) => "AACS generation: "@ + dec(g as nat) + "\n"@,
        None => ""@,
    };
    let v = match d.mkb_version {
        Some(v) => "MKB version:     "@ + dec(v as nat) + "\n"@,
        None => "MKB version:     (unknown)\n"@,
    };
    lemma_has_part(e, h, e);
    assert(e + h + e =~= h);
    lemma_has_part(h, g, e);
    assert(h + g + e =~= h + g);
    lemma_has_part(h + g, v, e);
    assert(h + g + v + e =~= h + g + v);
    let b = bool_text(d.bus_encryption == Some(true));
    lemma_has_three(h + g + v, "Bus encryption:  "@, b, "\n"@);
    lemma_has_three(
        h + g + v + "Bus encryption:  "@ + b + "\n"@,
        "VID available:   "@,
        bool_text(d.vid_available),
        "\n"@,
    );
    let t = captured_lines(d);
    if d.captured {
        assert forall|p: Seq<char>| has_text(t, p) implies #[trigger] has_text(aacs_part(d), p) by {
            lemma_has_either("## AACS diagnostics\n\n```\n"@, t + "```\n\n"@, p);
        }
    }
}

/// Law: where a profile and its archive were saved is told, each where the catalogue
/// has the place for it.
pub proof fn law_saved_places_are_told(
    c: Seq<(Seq<char>, Seq<char>)>,
    dir: Seq<char>,
    zip_path: Seq<char>,
    pre: Seq<char>,
    post: Seq<char>,
)
    requires
        lacks(pre, '{') && lacks(post, '{') && lacks(dir, '{') && lacks(zip_path, '{'),
    ensures
        ({
            let l = saved_text(c, dir, zip_path);
            &&& crate::strings::text_of(c, "drive.submit_saved"@) == pre
                + crate::strings::placeholder("dir"@) + post ==> l[1] == pre + dir + post
            &&& crate::strings::text_of(c, "drive.submit_zip"@) == pre
                + crate::strings::placeholder("path"@) + post ==> l[2] == pre + zip_path + post
        }),
{
    reveal_strlit("dir");
    reveal_strlit("path");
    assert("dir"@ =~= seq!['d', 'i', 'r'] && "path"@ =~= seq!['p', 'a', 't', 'h']);
    law_placeholder_gets_its_value(pre, post, seq![("dir"@, dir)], 0);
    law_placeholder_gets_its_value(pre, post, seq![("path"@, zip_path)], 0);
}

/// Law: what is told of a captured profile has how many files and bytes there are,
/// and the hash of the disc where it is known, each where the catalogue has the
/// place for it; the title of the report has the format and how many titles there
/// are.
pub proof fn law_capture_is_told(
    c: Seq<(Seq<char>, Seq<char>)>,
    disc: Disc,
    summary: DiscSummary,
    pre: Seq<char>,
    post: Seq<char>,
)
    requires
        lacks(pre, '{') && lacks(post, '{'),
    ensures
        ({
            let l = capture_text(c, disc, summary);
            let t = crate::strings::text_or(
                c,
                "disc.capture_summary"@,
                "Captured disc structure: {files} files ({bytes} bytes)."@,
            );
            let h = crate::strings::text_or(
                c,
                "disc.capture_aacs_hash"@,
                "AACS diagnostics: disc hash {hash} (keydb lookup key) recorded in aacs.json."@,
            );
            &&& l.len() == 2
            &&& t == pre + crate::strings::placeholder("files"@) + post ==> l[0] == pre + dec(
                summary.file_count as nat,
            ) + post
            &&& t == pre + crate::strings::placeholder("bytes"@) + post ==> l[0] == pre + dec(
                summary.total_bytes as nat,
            ) + post
            &&& h == pre + crate::strings::placeholder("hash"@) + post ==> (aacs_shape(
                disc.aacs,
            ).disc_hash matches Some(x) ==> (lacks(x, '{') ==> l[1] == pre + x + post))
        }),
        starts_with(disc_report_title(disc), "Disc profile: "@ + disc.format.word()),
        ends_with(disc_report_title(disc), " ("@ + dec(disc.titles@.len()) + " titles)"@),
{
    reveal_strlit("files");
    reveal_strlit("bytes");
    reveal_strlit("hash");
    assert("files"@ =~= seq!['f', 'i', 'l', 'e', 's'] && "bytes"@ =~= seq!['b', 'y', 't', 'e', 's']
        && "hash"@ =~= seq!['h', 'a', 's', 'h']);
    law_number_reads_back(summary.file_count as nat);
    law_number_reads_back(summary.total_bytes as nat);
    let args = seq![
        ("files"@, dec(summary.file_count as nat)),
        ("bytes"@, dec(summary.total_bytes as nat)),
    ];
    law_placeholder_gets_its_value(pre, post, args, 0);
    law_placeholder_gets_its_value(pre, post, args, 1);
    if let Some(x) = aacs_shape(disc.aacs).disc_hash {
        if lacks(x, '{') {
            law_placeholder_gets_its_value(pre, post, seq![("hash"@, x)], 0);
        }
    }
    let head = "Disc profile: "@ + disc.format.word();
    let tail = " ("@ + dec(disc.titles@.len()) + " titles)"@;
    lemma_starts(head, tail);
    assert(head + tail =~= disc_report_title(disc));
}

} // verus!
