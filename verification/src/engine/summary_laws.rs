//! What holds of everything that is said of a run when it is over.

use crate::engine::summary::{
    CopyResult, ExtractResult, FailureKind, MuxOutcome, Recovery, RipOutcome, code_in, damage_text,
    explanation, extract_summary, failure_text, image_summary, leading_digits, loss_lines, lossy, missing_lines,
    outcome_summary, shortfall, so_far, stream_summary,
    with_partial,
};
use crate::reading::{
    between, ends_with, lacks, law_joined_has_each_part, law_number_reads_back,
    law_placeholder_gets_its_value, lemma_between, lemma_has_either, lemma_has_part, lemma_starts, starts_with,
};
use crate::strings::{filled, placeholder, text_of, text_or};
use crate::text::{all_digits, dec, has_text, is_digit, joined, occurs_at, value_of};
use vstd::prelude::*;
use vstd::string::*;

verus! {

/// What is said, whether of a success or of a failure.
pub open spec fn said(r: Result<Seq<char>, Seq<char>>) -> Seq<char> {
    match r {
        Ok(s) => s,
        Err(s) => s,
    }
}

/// Law: a loop over titles that came to its end says how many titles were written
/// and where to; where none was, it does not say so.
#[verifier::rlimit(60)]
pub proof fn law_finished_loop_says_how_many(
    written: nat,
    partial: nat,
    total: nat,
    dest_dir: Seq<char>,
)
    ensures
        written > 0 ==> between(
            said(outcome_summary(RipOutcome::Done, written, partial, total, dest_dir)),
            dec(written),
            dest_dir,
        ) is Some,
        written == 0 && partial > 0 ==> starts_with(
            said(outcome_summary(RipOutcome::Done, written, partial, total, dest_dir)),
            "Cancelled"@,
        ),
        written == 0 ==> !has_written(
            said(outcome_summary(RipOutcome::Done, written, partial, total, dest_dir)),
            dest_dir,
        ) || partial > 0,
        all_digits(dec(written)) && value_of(dec(written)) == written,
{
    law_number_reads_back(written);
    reveal_strlit(" title(s) written to ");
    reveal_strlit("Nothing was written");
    if written > 0 {
        lemma_between(dec(written), " title(s) written to "@, dest_dir);
    } else if partial > 0 {
        let rest = " — "@ + dec(partial) + " partial file(s) kept in "@ + dest_dir;
        lemma_starts("Cancelled"@, rest);
        assert("Cancelled"@ + rest =~= with_partial("Cancelled"@, partial, dest_dir));
    } else {
        let s = "Nothing was written"@;
        if has_written(s, dest_dir) {
            let n = choose|n: nat| starts_with(s, #[trigger] dec(n));
            law_number_reads_back(n);
            assert(is_digit(dec(n)[0]));
            assert(s[0] == s.take(dec(n).len() as int)[0]);
        }
    }
}

/// The text says that a number of titles were written.
pub open spec fn has_written(s: Seq<char>, dest_dir: Seq<char>) -> bool {
    exists|n: nat| starts_with(s, #[trigger] dec(n))
}

/// Law: a loop over titles that was stopped says of how many titles how many were
/// completed, and which partial files were kept where.
#[verifier::rlimit(60)]
pub proof fn law_stopped_loop_says_how_many(
    written: nat,
    partial: nat,
    total: nat,
    dest_dir: Seq<char>,
)
    ensures
        ({
            let r = outcome_summary(RipOutcome::Halted, written, partial, total, dest_dir);
            &&& r is Ok
            &&& starts_with(
                said(r),
                "Cancelled — "@ + dec(written) + " of "@ + dec(total) + " title(s) completed"@,
            )
            &&& partial > 0 ==> ends_with(
                said(r),
                dec(partial) + " partial file(s) kept in "@ + dest_dir,
            )
            &&& partial == 0 ==> ends_with(said(r), " title(s) completed"@)
        }),
{
    let r = outcome_summary(RipOutcome::Halted, written, partial, total, dest_dir);
    let lead = "Cancelled — "@ + dec(written) + " of "@ + dec(total) + " title(s) completed"@;
    lemma_starts(
        "Cancelled — "@ + dec(written) + " of "@ + dec(total),
        " title(s) completed"@,
    );
    lemma_partial(lead, partial, dest_dir);
}

proof fn lemma_partial(lead: Seq<char>, partial: nat, dest_dir: Seq<char>)
    ensures
        starts_with(with_partial(lead, partial, dest_dir), lead),
        partial == 0 ==> with_partial(lead, partial, dest_dir) == lead,
        partial > 0 ==> ends_with(
            with_partial(lead, partial, dest_dir),
            dec(partial) + " partial file(s) kept in "@ + dest_dir,
        ),
{
    let kept = dec(partial) + " partial file(s) kept in "@ + dest_dir;
    if partial > 0 {
        lemma_starts(lead + " — "@, kept);
        lemma_starts(lead, " — "@ + kept);
        assert(lead + " — "@ + kept =~= with_partial(lead, partial, dest_dir));
        assert(lead + (" — "@ + kept) =~= with_partial(lead, partial, dest_dir));
    } else {
        assert(lead.take(lead.len() as int) =~= lead);
    }
}

/// Law: a loop over titles that failed says how many of how many titles were
/// written before, which title failed, by its number, and why; one without a key
/// says so; and either says which partial files were kept.
#[verifier::rlimit(60)]
pub proof fn law_failed_loop_says_why(
    outcome: RipOutcome,
    written: nat,
    partial: nat,
    total: nat,
    dest_dir: Seq<char>,
)
    requires
        outcome is Failed || outcome is NoKey,
    ensures
        ({
            let r = outcome_summary(outcome, written, partial, total, dest_dir);
            &&& r is Err
            &&& written > 0 ==> starts_with(
                said(r),
                dec(written) + " of "@ + dec(total) + " title(s) written to "@ + dest_dir,
            )
            &&& partial > 0 ==> ends_with(
                said(r),
                dec(partial) + " partial file(s) kept in "@ + dest_dir,
            )
            &&& outcome matches RipOutcome::Failed { title_index, code, kind } ==> has_text(
                said(r),
                "title "@ + dec((title_index + 1) as nat) + " failed: "@ + failure_text(code, kind),
            )
            &&& outcome is NoKey ==> has_text(said(r), "no decryption key"@)
        }),
{
    let pre = so_far(written, total, dest_dir);
    match outcome {
        RipOutcome::Failed { title_index, code, kind } => {
            let n = dec((title_index + 1) as nat);
            let why = failure_text(code, kind);
            let mark = "title "@ + n + " failed: "@ + why;
            assert(pre + "title "@ + n + " failed: "@ + why =~= pre + mark);
            lemma_failed(mark, written, partial, total, dest_dir);
        },
        _ => {
            let no_key = "the disc has no decryption key — every remaining title would fail the same way. Check the keydb or online key service in Settings."@;
            lemma_failed(no_key, written, partial, total, dest_dir);
            lemma_no_key_part(with_partial(pre + no_key, partial, dest_dir));
        },
    }
}

proof fn lemma_no_key_part(s: Seq<char>)
    requires
        has_text(
            s,
            "the disc has no decryption key — every remaining title would fail the same way. Check the keydb or online key service in Settings."@,
        ),
    ensures
        has_text(s, "no decryption key"@),
{
    reveal_strlit("no decryption key");
    reveal_strlit(
        "the disc has no decryption key — every remaining title would fail the same way. Check the keydb or online key service in Settings.",
    );
    let no_key = "the disc has no decryption key — every remaining title would fail the same way. Check the keydb or online key service in Settings."@;
    let key = "no decryption key"@;
    assert(no_key.subrange(13, 30) =~= key);
    let i = choose|i: int| occurs_at(s, no_key, i);
    assert(s.subrange(i + 13, i + 30) =~= s.subrange(i, i + no_key.len()).subrange(13, 30));
    assert(occurs_at(s, key, i + 13));
}

proof fn lemma_failed(
    mark: Seq<char>,
    written: nat,
    partial: nat,
    total: nat,
    dest_dir: Seq<char>,
)
    ensures
        ({
            let s = with_partial(so_far(written, total, dest_dir) + mark, partial, dest_dir);
            &&& written > 0 ==> starts_with(
                s,
                dec(written) + " of "@ + dec(total) + " title(s) written to "@ + dest_dir,
            )
            &&& partial > 0 ==> ends_with(
                s,
                dec(partial) + " partial file(s) kept in "@ + dest_dir,
            )
            &&& has_text(s, mark)
        }),
{
    let pre = so_far(written, total, dest_dir);
    let lead = pre + mark;
    let s = with_partial(lead, partial, dest_dir);
    lemma_partial(lead, partial, dest_dir);
    let post = s.skip(lead.len() as int);
    assert(s =~= lead + post);
    lemma_has_part(pre, mark, post);
    if written > 0 {
        let head = dec(written) + " of "@ + dec(total) + " title(s) written to "@ + dest_dir;
        assert(pre == head + ", then "@);
        lemma_starts(head, ", then "@ + mark + post);
        assert(head + (", then "@ + mark + post) =~= s);
    }
}

/// Law: the code of an error is read out of its text: the number behind the `E`,
/// whatever stands behind the number.
pub proof fn law_error_code_is_read(code: u16, data: Seq<char>)
    requires
        data.len() == 0 || !is_digit(data[0]),
    ensures
        code_in("E"@ + dec(code as nat) + data) == code,
{
    reveal_strlit("E");
    let t = "E"@ + dec(code as nat) + data;
    law_number_reads_back(code as nat);
    let d = dec(code as nat);
    assert(t[0] == 'E');
    assert(t.skip(1) =~= d + data);
    lemma_leading(d, data);
    assert(is_digit(d[0]));
}

proof fn lemma_leading(d: Seq<char>, data: Seq<char>)
    requires
        all_digits(d),
        data.len() == 0 || !is_digit(data[0]),
    ensures
        leading_digits(d + data) == d,
    decreases d.len(),
{
    let s = d + data;
    if d.len() == 0 {
        assert(s =~= data);
        assert(d =~= Seq::empty());
    } else {
        assert(is_digit(d[0]));
        let e = d.skip(1);
        assert forall|i: int| 0 <= i < e.len() implies is_digit(#[trigger] e[i]) by {
            assert(is_digit(d[i + 1]));
        }
        lemma_leading(e, data);
        assert(s.skip(1) =~= e + data);
        assert(seq![d[0]] + e =~= d);
    }
}

/// The codes that a person can do something about, each with a word that what is
/// said of it holds.
pub open spec fn told_codes() -> Seq<(nat, Seq<char>)> {
    seq![
        (9048nat, "MP4"@),
        (7022nat, "No decryption key"@),
        (8005nat, "No decryption key"@),
        (7028nat, "could not be reached"@),
        (7029nat, "access token"@),
        (7030nat, "rate-limiting"@),
        (6013nat, "not a disc image"@),
    ]
}

/// Law: what is said of an error is about that error: a code that a person can do
/// something about is explained by what it is about, and any other is named by
/// its number, so that no code is taken for another.
pub proof fn law_error_is_explained(code: u16)
    ensures
        forall|i: int|
            0 <= i < told_codes().len() && (#[trigger] told_codes()[i]).0 == code ==> has_text(
                explanation(code as nat),
                told_codes()[i].1,
            ),
        (forall|i: int| 0 <= i < told_codes().len() ==> (#[trigger] told_codes()[i]).0 != code)
            ==> between(explanation(code as nat), "Mux failed (E"@, ")."@) == Some(
            dec(code as nat),
        ),
{
    lemma_between("Mux failed (E"@, dec(code as nat), ")."@);
    let m = told_codes();
    assert(m[0].0 == 9048 && m[1].0 == 7022 && m[2].0 == 8005 && m[3].0 == 7028 && m[4].0 == 7029
        && m[5].0 == 7030 && m[6].0 == 6013);
    let e = explanation(code as nat);
    if code == 9048 {
        reveal_strlit("MP4");
        reveal_strlit(
            "MP4 needs a video track it can carry (H.264 or HEVC); this title has none. Choose MKV, which keeps everything.",
        );
        lemma_has_at(e, "MP4"@, 0);
    } else if code == 7022 || code == 8005 {
        reveal_strlit("No decryption key");
        reveal_strlit(
            "No decryption key for this disc. Check the keydb or online key service in Settings.",
        );
        lemma_has_at(e, "No decryption key"@, 0);
    } else if code == 7028 {
        reveal_strlit("could not be reached");
        reveal_strlit(
            "The online key service could not be reached, so it never said whether this disc has a key. Wait a few minutes and try again.",
        );
        lemma_has_at(e, "could not be reached"@, 23);
    } else if code == 7029 {
        reveal_strlit("access token");
        reveal_strlit(
            "The online key service rejected the access token. Fix the key service token in Settings and try again.",
        );
        lemma_has_at(e, "access token"@, 36);
    } else if code == 7030 {
        reveal_strlit("rate-limiting");
        reveal_strlit(
            "The online key service is rate-limiting requests. Wait a few minutes and try again, or rip fewer discs at once.",
        );
        lemma_has_at(e, "rate-limiting"@, 26);
    } else if code == 6013 {
        reveal_strlit("not a disc image");
        reveal_strlit("This file is not a disc image.");
        lemma_has_at(e, "not a disc image"@, 13);
    }
}

proof fn lemma_has_at(s: Seq<char>, p: Seq<char>, i: int)
    requires
        0 <= i,
        i + p.len() <= s.len(),
        s.subrange(i, i + p.len()) =~= p,
    ensures
        has_text(s, p),
{
    lemma_has_part(s.take(i), p, s.skip(i + p.len()));
    assert(s.take(i) + p + s.skip(i + p.len()) =~= s);
}

/// Law: a failure of the system is told by its kind: a full drive, a missing
/// permission and a missing folder each in their own words, any other by its
/// name; a failure with a code by the code.
pub proof fn law_failures_are_told_apart(code: u16, kind: FailureKind)
    ensures
        failure_text(Some(code), kind) == explanation(code as nat),
        kind is StorageFull ==> has_text(failure_text(None, kind), "full"@),
        kind is PermissionDenied ==> has_text(failure_text(None, kind), "permission"@),
        kind is NotFound ==> has_text(failure_text(None, kind), "no longer there"@),
        kind matches FailureKind::Other(k) ==> between(
            failure_text(None, kind),
            "Write failed ("@,
            ")."@,
        ) == Some(k@),
{
    let s = failure_text(None, kind);
    match kind {
        FailureKind::StorageFull => {
            reveal_strlit("full");
            reveal_strlit("The destination drive is full. Free some space and run it again.");
            lemma_has_at(s, "full"@, 25);
        },
        FailureKind::PermissionDenied => {
            reveal_strlit("permission");
            reveal_strlit("No permission to write to the destination folder.");
            lemma_has_at(s, "permission"@, 3);
        },
        FailureKind::NotFound => {
            reveal_strlit("no longer there");
            reveal_strlit("The destination folder is no longer there.");
            lemma_has_at(s, "no longer there"@, 26);
        },
        FailureKind::Other(k) => {
            lemma_between("Write failed ("@, k@, ")."@);
        },
    }
}

/// Law: every stream that is missing from a finished file has a line of its own,
/// with its number, and so has what was lost within the streams. What is said of
/// a file from which nothing is missing says no such thing.
pub proof fn law_every_loss_has_a_line(
    c: Seq<(Seq<char>, Seq<char>)>,
    o: MuxOutcome,
    target: Seq<char>,
    i: int,
)
    ensures
        ({
            let lines = loss_lines(c, o, target);
            let gone = o.undelivered_streams@;
            &&& lines.len() == 0 <==> !o.completed || !lossy(o)
            &&& o.completed && gone.len() > 0 ==> lines.len() == gone.len() + 1
            &&& o.completed && 0 <= i < gone.len() ==> ends_with(
                lines[i + 1],
                " "@ + dec((gone[i] + 1) as nat),
            )
        }),
{
    let gone = o.undelivered_streams@;
    lemma_missing(c, gone, gone.len());
    if o.completed && 0 <= i < gone.len() {
        assert(loss_lines(c, o, target)[i + 1] == missing_lines(c, gone, gone.len())[i]);
    }
}

proof fn lemma_missing(c: Seq<(Seq<char>, Seq<char>)>, v: Seq<usize>, n: nat)
    requires
        n <= v.len(),
    ensures
        missing_lines(c, v, n).len() == n,
        forall|i: int|
            0 <= i < n ==> ends_with(
                #[trigger] missing_lines(c, v, n)[i],
                " "@ + dec((v[i] + 1) as nat),
            ),
    decreases n,
{
    if n > 0 {
        lemma_missing(c, v, (n - 1) as nat);
        let head = text_or(c, "mp4.excluded_track"@, "  track"@);
        let tail = " "@ + dec((v[n - 1] + 1) as nat);
        lemma_starts(head, tail);
        assert(head + tail =~= head + " "@ + dec((v[n - 1] + 1) as nat));
    }
}

/// Law: what is said of an image that was decrypted names what is missing from
/// it: what could not be read and what was not read, each with its size.
pub proof fn law_shortfall_is_named(r: CopyResult, dest: Seq<char>)
    requires
        !r.halted,
        !r.complete,
    ensures
        r.bytes_unreadable > 0 ==> has_text(
            image_summary(r, dest),
            r.unreadable_mib@ + " MiB unreadable"@,
        ),
        r.bytes_pending > 0 ==> has_text(
            image_summary(r, dest),
            r.pending_mib@ + " MiB not read"@,
        ),
        has_text(image_summary(r, dest), r.good_gib@ + " GiB"@),
        has_text(image_summary(r, dest), dest),
{
    reveal_strlit(" GiB");
    reveal_strlit(" GiB, ");
    let s = image_summary(r, dest);
    let parts = shortfall(r);
    let head = "Decrypted image written: "@ + dest + " ("@ + r.good_gib@ + " GiB, "@;
    let j = joined(parts, ", "@);
    assert(s =~= head + j + ")"@);
    if r.bytes_unreadable > 0 {
        assert(parts[0] == r.unreadable_mib@ + " MiB unreadable"@);
        law_joined_has_each_part(parts, ", "@, 0);
        lemma_has_either(j, ")"@, parts[0]);
        lemma_has_either(head, j + ")"@, parts[0]);
        assert(head + (j + ")"@) =~= s);
    }
    if r.bytes_pending > 0 {
        let k = parts.len() - 1;
        assert(parts[k] == r.pending_mib@ + " MiB not read"@);
        law_joined_has_each_part(parts, ", "@, k);
        lemma_has_either(j, ")"@, parts[k]);
        lemma_has_either(head, j + ")"@, parts[k]);
        assert(head + (j + ")"@) =~= s);
    }
    let lead = "Decrypted image written: "@;
    let rest = s.skip((lead.len() + dest.len()) as int);
    lemma_has_part(lead, dest, rest);
    assert(lead + dest + rest =~= s);
    let mark = r.good_gib@ + " GiB"@;
    let pre = lead + dest + " ("@;
    let post = s.skip((pre.len() + mark.len()) as int);
    lemma_has_part(pre, mark, post);
    assert(pre + mark + post =~= s);
}

/// Law: what is said of unpacked files says how many there are and where, what
/// could not be read of them, and whether it was stopped.
pub proof fn law_unpacked_files_are_counted(r: ExtractResult, dest: Seq<char>)
    ensures
        ({
            let s = extract_summary(r, dest);
            &&& has_text(s, dest)
            &&& has_text(s, dec(r.files as nat) + " file(s)"@)
            &&& (r.halted <==> starts_with(s, "Cancelled"@))
            &&& !r.halted && r.bytes_unreadable > 0 ==> ends_with(
                s,
                r.unreadable_mb@ + " MB unreadable"@,
            )
            &&& !r.halted && r.bytes_unreadable == 0 ==> ends_with(s, " file(s)"@)
        }),
{
    if r.halted {
        lemma_unpacking_stopped(r, dest);
    } else {
        lemma_unpacked(r, dest);
    }
}

proof fn lemma_unpacking_stopped(r: ExtractResult, dest: Seq<char>)
    requires
        r.halted,
    ensures
        has_text(extract_summary(r, dest), dest),
        has_text(extract_summary(r, dest), dec(r.files as nat) + " file(s)"@),
        starts_with(extract_summary(r, dest), "Cancelled"@),
{
    let n = dec(r.files as nat);
    let lead = "Cancelled — "@ + n + " file(s) extracted to "@;
    lemma_has_part(lead, dest, " before stopping"@);
    assert(" file(s) extracted to "@ =~= " file(s)"@ + " file(s) extracted to "@.skip(8)) by {
        reveal_strlit(" file(s)");
        reveal_strlit(" file(s) extracted to ");
    }
    assert("Cancelled — "@ =~= "Cancelled"@ + "Cancelled — "@.skip(9)) by {
        reveal_strlit("Cancelled");
        reveal_strlit("Cancelled — ");
    }
    let rest = " file(s) extracted to "@.skip(8) + dest + " before stopping"@;
    let mark = n + " file(s)"@;
    lemma_has_part("Cancelled — "@, mark, rest);
    assert("Cancelled — "@ + mark + rest =~= extract_summary(r, dest));
    let tail = "Cancelled — "@.skip(9) + n + " file(s) extracted to "@ + dest + " before stopping"@;
    lemma_starts("Cancelled"@, tail);
    assert("Cancelled"@ + tail =~= extract_summary(r, dest));
}

proof fn lemma_unpacked(r: ExtractResult, dest: Seq<char>)
    requires
        !r.halted,
    ensures
        has_text(extract_summary(r, dest), dest),
        has_text(extract_summary(r, dest), dec(r.files as nat) + " file(s)"@),
        !starts_with(extract_summary(r, dest), "Cancelled"@),
        r.bytes_unreadable > 0 ==> ends_with(
            extract_summary(r, dest),
            r.unreadable_mb@ + " MB unreadable"@,
        ),
        r.bytes_unreadable == 0 ==> ends_with(extract_summary(r, dest), " file(s)"@),
{
    let s = extract_summary(r, dest);
    let n = dec(r.files as nat);
    let first = "Decrypted file tree written to "@;
    let lead = first + dest + " — "@;
    let mark = n + " file(s)"@;
    let e = Seq::<char>::empty();
    let tail = r.unreadable_mb@ + " MB unreadable"@;
    let more = if r.bytes_unreadable > 0 {
        ", "@ + tail
    } else {
        e
    };
    assert(" file(s), "@ =~= " file(s)"@ + ", "@) by {
        reveal_strlit(" file(s)");
        reveal_strlit(" file(s), ");
        reveal_strlit(", ");
    }
    assert(s =~= lead + mark + more);
    lemma_has_part(lead, mark, more);
    lemma_has_part(first, dest, " — "@ + mark + more);
    assert(first + dest + (" — "@ + mark + more) =~= lead + mark + more);
    if r.bytes_unreadable > 0 {
        lemma_starts(lead + mark + ", "@, tail);
        assert(lead + mark + ", "@ + tail =~= lead + mark + more);
    } else {
        lemma_starts(lead + n, " file(s)"@);
        assert(lead + n + " file(s)"@ =~= lead + mark + more);
    }
    assert(!starts_with(s, "Cancelled"@)) by {
        reveal_strlit("Cancelled");
        reveal_strlit("Decrypted file tree written to ");
        assert(s[0] == first[0]);
        assert(starts_with(s, "Cancelled"@) ==> s.take(9)[0] == 'C');
    }
}

/// Law: what is said of a conversion names the file where it was stopped, and where it
/// was written to where it was not; and whatever is missing from it is said too.
pub proof fn law_conversion_says_how_it_went(
    c: Seq<(Seq<char>, Seq<char>)>,
    o: MuxOutcome,
    target: Seq<char>,
    dest_dir: Seq<char>,
    i: int,
)
    ensures
        ({
            let s = stream_summary(c, o, target, dest_dir);
            &&& !o.completed ==> s == "Cancelled — partial output kept: "@ + target
            &&& o.completed ==> starts_with(s, "Written to "@ + dest_dir)
            &&& o.completed && !lossy(o) ==> s == "Written to "@ + dest_dir
            &&& o.completed && lossy(o) && o.undelivered_streams@.len() > 0 ==> has_text(
                s,
                loss_lines(c, o, target)[0],
            )
            &&& o.completed && lossy(o) && o.undelivered_streams@.len() == 0 && 0 <= i < loss_lines(
                c,
                o,
                target,
            ).len() ==> has_text(s, loss_lines(c, o, target)[i])
        }),
{
    let e = Seq::<char>::empty();
    let head = "Written to "@ + dest_dir;
    let lines = loss_lines(c, o, target);
    lemma_starts(head, e);
    assert(head + e =~= head);
    if o.completed && lossy(o) {
        if o.undelivered_streams@.len() > 0 {
            lemma_starts(head, " — "@ + lines[0]);
            assert(head + (" — "@ + lines[0]) =~= head + " — "@ + lines[0]);
            lemma_has_part(head + " — "@, lines[0], e);
            assert(head + " — "@ + lines[0] + e =~= head + " — "@ + lines[0]);
        } else {
            let j = joined(lines, " "@);
            lemma_starts(head, " —"@ + j);
            assert(head + (" —"@ + j) =~= head + " —"@ + j);
            if 0 <= i < lines.len() {
                law_joined_has_each_part(lines, " "@, i);
                lemma_has_either(head + " —"@, j, lines[i]);
            }
        }
    }
}

/// Law: what is added to what is said of a recovery has how much was read, how much
/// could not be and how much was not, each where the catalogue has the place for it,
/// and how much of the film is lost where that is known; nothing is added where
/// nothing was lost.
pub proof fn law_damage_is_told_in_numbers(
    c: Seq<(Seq<char>, Seq<char>)>,
    r: Recovery,
    pre: Seq<char>,
    post: Seq<char>,
)
    requires
        lacks(pre, '{') && lacks(post, '{'),
        lacks(r.good_gib@, '{') && lacks(r.unreadable_mib@, '{') && lacks(r.pending_mib@, '{'),
    ensures
        r.unreadable_bytes == 0 && r.pending_bytes == 0 <==> damage_text(c, r).len() == 0,
        r.unreadable_bytes > 0 || r.pending_bytes > 0 ==> {
            let t = text_of(c, "rip.mapfile_summary"@);
            let d = damage_text(c, r);
            &&& t == pre + placeholder("good"@) + post ==> starts_with(
                d,
                "\n"@ + (pre + r.good_gib@ + post),
            )
            &&& t == pre + placeholder("unreadable"@) + post ==> starts_with(
                d,
                "\n"@ + (pre + r.unreadable_mib@ + post),
            )
            &&& t == pre + placeholder("pending"@) + post ==> starts_with(
                d,
                "\n"@ + (pre + r.pending_mib@ + post),
            )
            &&& r.lost_time matches Some(x) ==> ends_with(
                d,
                filled(text_of(c, "rip.damage_lost_movie"@), seq![("time"@, x@)]),
            )
        },
{
    reveal_strlit("\n");
    let args = seq![
        ("good"@, r.good_gib@),
        ("unreadable"@, r.unreadable_mib@),
        ("pending"@, r.pending_mib@),
    ];
    assert("good"@ =~= seq!['g', 'o', 'o', 'd'] && "unreadable"@
        =~= seq!['u', 'n', 'r', 'e', 'a', 'd', 'a', 'b', 'l', 'e'] && "pending"@
        =~= seq!['p', 'e', 'n', 'd', 'i', 'n', 'g']) by {
        reveal_strlit("good");
        reveal_strlit("unreadable");
        reveal_strlit("pending");
    }
    law_placeholder_gets_its_value(pre, post, args, 0);
    law_placeholder_gets_its_value(pre, post, args, 1);
    law_placeholder_gets_its_value(pre, post, args, 2);
    let e = Seq::<char>::empty();
    let note = "\n"@ + filled(text_of(c, "rip.mapfile_summary"@), args);
    match r.lost_time {
        Some(x) => {
            let f = filled(text_of(c, "rip.damage_lost_movie"@), seq![("time"@, x@)]);
            lemma_starts(note, "\n"@ + f);
            assert(note + ("\n"@ + f) =~= note + "\n"@ + f);
            lemma_starts(note + "\n"@, f);
        },
        None => {
            lemma_starts(note, e);
            assert(note + e =~= note);
        },
    }
}

} // verus!
