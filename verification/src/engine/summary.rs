//! What is said of a run when it is over. A run that failed, was stopped or
//! lost something never reads like one that did what was asked.

use crate::engine::identity::push_dec_next;
use crate::strings::{Catalog, arg_texts, filled, text_of, text_or};
use crate::text::{
    chars_of, dec, dec_text, is_digit, join_texts, joined, parse_unsigned, parsed_unsigned, plus_if,
    push_dec, push_text, string_of, texts,
};
use vstd::prelude::*;
use vstd::string::*;

verus! {

/// `s` up to its first character that is no decimal digit.
pub open spec fn leading_digits(s: Seq<char>) -> Seq<char>
    decreases s.len(),
{
    if s.len() == 0 || !is_digit(s[0]) {
        Seq::empty()
    } else {
        seq![s[0]] + leading_digits(s.skip(1))
    }
}

/// The code in the text of an error: the number behind its leading `E`, or
/// nought where there is none.
pub open spec fn code_in(text: Seq<char>) -> nat {
    if text.len() > 0 && text[0] == 'E' {
        match parsed_unsigned(leading_digits(text.skip(1)), 65535) {
            Some(n) => n,
            None => 0,
        }
    } else {
        0
    }
}

/// The code in the text of an error. Data may stand behind the number.
pub fn error_code(text: &str) -> (r: u16)
    ensures
        r == code_in(text@),
{
    let v = chars_of(text);
    if v.len() == 0 || v[0] != 'E' {
        return 0;
    }
    let mut i: usize = 1;
    let ghost rest = text@.skip(1);
    assert(rest.take(0) + leading_digits(rest.skip(0)) =~= leading_digits(rest)) by {
        assert(rest.skip(0) =~= rest);
    }
    while i < v.len() && '0' <= v[i] && v[i] <= '9'
        invariant
            v@ == text@,
            1 <= i <= v@.len(),
            rest == text@.skip(1),
            leading_digits(rest) == rest.take(i - 1) + leading_digits(rest.skip(i - 1)),
        decreases v@.len() - i,
    {
        assert(rest.skip(i - 1)[0] == v@[i as int]);
        assert(rest.skip(i - 1).skip(1) =~= rest.skip(i as int));
        assert(rest.take(i - 1) + (seq![v@[i as int]] + leading_digits(rest.skip(i as int)))
            =~= rest.take(i as int) + leading_digits(rest.skip(i as int)));
        i = i + 1;
    }
    assert(leading_digits(rest.skip(i - 1)) =~= Seq::empty());
    let digits = string_of(vstd::slice::slice_subrange(v.as_slice(), 1, i));
    assert(digits@ =~= rest.take(i - 1) + Seq::empty());
    match parse_unsigned(digits.as_str(), 65535) {
        Some(n) => n as u16,
        None => 0,
    }
}

/// What a person can do about an error, by its code.
pub open spec fn explanation(code: nat) -> Seq<char> {
    if code == 9048 {
        "MP4 needs a video track it can carry (H.264 or HEVC); this title has none. Choose MKV, which keeps everything."@
    } else if code == 7022 || code == 8005 {
        "No decryption key for this disc. Check the keydb or online key service in Settings."@
    } else if code == 7028 {
        "The online key service could not be reached, so it never said whether this disc has a key. Wait a few minutes and try again."@
    } else if code == 7029 {
        "The online key service rejected the access token. Fix the key service token in Settings and try again."@
    } else if code == 7030 {
        "The online key service is rate-limiting requests. Wait a few minutes and try again, or rip fewer discs at once."@
    } else if code == 6013 {
        "This file is not a disc image."@
    } else {
        "Mux failed (E"@ + dec(code) + ")."@
    }
}

/// What a person can do about an error, by its code.
pub fn explain(code: u16) -> (r: String)
    ensures
        r@ == explanation(code as nat),
{
    if code == 9048 {
        "MP4 needs a video track it can carry (H.264 or HEVC); this title has none. Choose MKV, which keeps everything.".to_owned()
    } else if code == 7022 || code == 8005 {
        "No decryption key for this disc. Check the keydb or online key service in Settings.".to_owned()
    } else if code == 7028 {
        "The online key service could not be reached, so it never said whether this disc has a key. Wait a few minutes and try again.".to_owned()
    } else if code == 7029 {
        "The online key service rejected the access token. Fix the key service token in Settings and try again.".to_owned()
    } else if code == 7030 {
        "The online key service is rate-limiting requests. Wait a few minutes and try again, or rip fewer discs at once.".to_owned()
    } else if code == 6013 {
        "This file is not a disc image.".to_owned()
    } else {
        let mut s = "Mux failed (E".to_owned();
        push_dec(&mut s, code as u64);
        s.append(").");
        s
    }
}

/// The errors of the system that are told apart.
#[derive(Clone, Debug)]
pub enum FailureKind {
    StorageFull,
    PermissionDenied,
    NotFound,
    /// Another one, by its name.
    Other(String),
}

/// What is said of a failure: by its code where it has one, or else by its
/// kind.
pub open spec fn failure_text(code: Option<u16>, kind: FailureKind) -> Seq<char> {
    match code {
        Some(c) => explanation(c as nat),
        None => match kind {
            FailureKind::StorageFull => "The destination drive is full. Free some space and run it again."@,
            FailureKind::PermissionDenied => "No permission to write to the destination folder."@,
            FailureKind::NotFound => "The destination folder is no longer there."@,
            FailureKind::Other(k) => "Write failed ("@ + k@ + ")."@,
        },
    }
}

/// What is said of a failure. An error of the system has no code, and its kind
/// says all there is.
pub fn describe_failure(code: Option<u16>, kind: &FailureKind) -> (r: String)
    ensures
        r@ == failure_text(code, *kind),
{
    match code {
        Some(c) => explain(c),
        None => match kind {
            FailureKind::StorageFull => "The destination drive is full. Free some space and run it again.".to_owned(),
            FailureKind::PermissionDenied => "No permission to write to the destination folder.".to_owned(),
            FailureKind::NotFound => "The destination folder is no longer there.".to_owned(),
            FailureKind::Other(k) => {
                let mut s = "Write failed (".to_owned();
                s.append(k.as_str());
                s.append(").");
                s
            },
        },
    }
}

/// How the loop over the titles ended.
#[derive(Clone, Debug)]
pub enum RipOutcome {
    /// Every title was tried.
    Done,
    /// The user stopped it.
    Halted,
    /// There is no key.
    NoKey,
    /// A title failed.
    Failed { title_index: usize, code: Option<u16>, kind: FailureKind },
}

/// What is said of partial files that were kept.
pub open spec fn with_partial(lead: Seq<char>, partial: nat, dest_dir: Seq<char>) -> Seq<char> {
    if partial > 0 {
        lead + " — "@ + dec(partial) + " partial file(s) kept in "@ + dest_dir
    } else {
        lead
    }
}

/// What is said of the titles that were written before a failure.
pub open spec fn so_far(written: nat, total: nat, dest_dir: Seq<char>) -> Seq<char> {
    if written > 0 {
        dec(written) + " of "@ + dec(total) + " title(s) written to "@ + dest_dir + ", then "@
    } else {
        Seq::empty()
    }
}

/// What is said of a loop over titles.
pub open spec fn outcome_summary(
    outcome: RipOutcome,
    written: nat,
    partial: nat,
    total: nat,
    dest_dir: Seq<char>,
) -> Result<Seq<char>, Seq<char>> {
    match outcome {
        RipOutcome::Halted => Ok(
            with_partial(
                "Cancelled — "@ + dec(written) + " of "@ + dec(total) + " title(s) completed"@,
                partial,
                dest_dir,
            ),
        ),
        RipOutcome::NoKey => Err(
            with_partial(
                so_far(written, total, dest_dir)
                    + "the disc has no decryption key — every remaining title would fail the same way. Check the keydb or online key service in Settings."@,
                partial,
                dest_dir,
            ),
        ),
        RipOutcome::Failed { title_index, code, kind } => Err(
            with_partial(
                so_far(written, total, dest_dir) + "title "@ + dec((title_index + 1) as nat)
                    + " failed: "@ + failure_text(code, kind),
                partial,
                dest_dir,
            ),
        ),
        RipOutcome::Done => if written == 0 && partial > 0 {
            Ok(with_partial("Cancelled"@, partial, dest_dir))
        } else if written == 0 {
            Ok("Nothing was written"@)
        } else {
            Ok(dec(written) + " title(s) written to "@ + dest_dir)
        },
    }
}

fn with_partial_text(lead: String, partial: usize, dest_dir: &str) -> (r: String)
    ensures
        r@ == with_partial(lead@, partial as nat, dest_dir@),
{
    let mut s = lead;
    if partial > 0 {
        s.append(" — ");
        push_dec(&mut s, partial as u64);
        s.append(" partial file(s) kept in ");
        s.append(dest_dir);
    }
    s
}

fn so_far_text(written: usize, total: usize, dest_dir: &str) -> (r: String)
    ensures
        r@ == so_far(written as nat, total as nat, dest_dir@),
{
    if written > 0 {
        let mut s = dec_text(written as u64);
        s.append(" of ");
        push_dec(&mut s, total as u64);
        s.append(" title(s) written to ");
        s.append(dest_dir);
        s.append(", then ");
        s
    } else {
        String::new()
    }
}

/// The text of either side of a result.
pub open spec fn result_text(r: Result<String, String>) -> Result<Seq<char>, Seq<char>> {
    match r {
        Ok(s) => Ok(s@),
        Err(s) => Err(s@),
    }
}

/// What is said of a loop over titles. A missing key and a failure are errors,
/// whatever was written before; and what was written before is said with them.
pub fn summarize_outcome(
    outcome: &RipOutcome,
    written: usize,
    partial: usize,
    total: usize,
    dest_dir: &str,
) -> (r: Result<String, String>)
    ensures
        result_text(r) == outcome_summary(
            *outcome,
            written as nat,
            partial as nat,
            total as nat,
            dest_dir@,
        ),
{
    match outcome {
        RipOutcome::Halted => {
            let mut s = "Cancelled — ".to_owned();
            push_dec(&mut s, written as u64);
            s.append(" of ");
            push_dec(&mut s, total as u64);
            s.append(" title(s) completed");
            Ok(with_partial_text(s, partial, dest_dir))
        },
        RipOutcome::NoKey => {
            let mut s = so_far_text(written, total, dest_dir);
            s.append(
                "the disc has no decryption key — every remaining title would fail the same way. Check the keydb or online key service in Settings.",
            );
            Err(with_partial_text(s, partial, dest_dir))
        },
        RipOutcome::Failed { title_index, code, kind } => {
            let mut s = so_far_text(written, total, dest_dir);
            s.append("title ");
            push_dec_next(&mut s, *title_index);
            s.append(" failed: ");
            s.append(describe_failure(*code, kind).as_str());
            Err(with_partial_text(s, partial, dest_dir))
        },
        RipOutcome::Done => {
            if written == 0 && partial > 0 {
                Ok(with_partial_text("Cancelled".to_owned(), partial, dest_dir))
            } else if written == 0 {
                Ok("Nothing was written".to_owned())
            } else {
                let mut s = dec_text(written as u64);
                s.append(" title(s) written to ");
                s.append(dest_dir);
                Ok(s)
            }
        },
    }
}

/// Law: a loop over titles is a success if and only if it ran to its end or the
/// user stopped it: a missing key and a failed title are errors, however many
/// titles were written before.
pub proof fn law_failures_are_never_successes(
    outcome: RipOutcome,
    written: nat,
    partial: nat,
    total: nat,
    dest_dir: Seq<char>,
)
    ensures
        outcome_summary(outcome, written, partial, total, dest_dir) is Ok <==> outcome is Done
            || outcome is Halted,
{
}

/// What came of writing one file: whether it was finished, and what was lost.
#[derive(Clone, Debug)]
pub struct MuxOutcome {
    /// It ran to the end of the source and was closed.
    pub completed: bool,
    /// How many errors there were.
    pub errors: u64,
    /// How many bytes could not be carried over.
    pub lost_bytes: u64,
    /// How many millions of bytes that is, with one decimal.
    pub lost_mb: String,
    /// The streams that are missing from the file.
    pub undelivered_streams: Vec<usize>,
}

/// Something is missing from a file, whole streams or bytes within them.
pub open spec fn lossy(o: MuxOutcome) -> bool {
    o.undelivered_streams@.len() > 0 || o.errors > 0 || o.lost_bytes > 0
}

/// Whether something is missing from a file.
pub fn is_lossy(o: &MuxOutcome) -> (r: bool)
    ensures
        r == lossy(*o),
{
    o.undelivered_streams.len() > 0 || o.errors > 0 || o.lost_bytes > 0
}

/// The line about each of the first `n` missing streams, counted from one.
pub open spec fn missing_lines(c: Seq<(Seq<char>, Seq<char>)>, v: Seq<usize>, n: nat) -> Seq<
    Seq<char>,
>
    decreases n,
{
    if n == 0 {
        Seq::empty()
    } else {
        missing_lines(c, v, (n - 1) as nat).push(
            text_or(c, "mp4.excluded_track"@, "  track"@) + " "@ + dec((v[n - 1] + 1) as nat),
        )
    }
}

/// The line about how many streams are missing.
pub open spec fn missing_header(c: Seq<(Seq<char>, Seq<char>)>, count: nat) -> Seq<char> {
    filled(text_of(c, "mp4.excluded_header"@), seq![("count"@, dec(count))])
}

/// The lines about what is missing from a file; none where nothing is, or where
/// the file is not finished.
pub open spec fn loss_lines(c: Seq<(Seq<char>, Seq<char>)>, o: MuxOutcome, target: Seq<char>) -> Seq<
    Seq<char>,
> {
    if !o.completed || !lossy(o) {
        Seq::empty()
    } else if o.undelivered_streams@.len() > 0 {
        seq![missing_header(c, o.undelivered_streams@.len())] + missing_lines(
            c,
            o.undelivered_streams@,
            o.undelivered_streams@.len(),
        )
    } else {
        seq![
            filled(
                text_or(
                    c,
                    "rip.lossy_bytes"@,
                    " {mb} MB could not be carried over into {target} ({errors} error(s))"@,
                ),
                seq![
                    ("mb"@, o.lost_mb@),
                    ("target"@, target),
                    ("errors"@, dec(o.errors as nat)),
                ],
            ),
        ]
    }
}

/// The lines about what is missing from a file that was finished.
pub fn lossy_lines(c: &Catalog, o: &MuxOutcome, target: &str) -> (r: Vec<String>)
    ensures
        texts(r@) == loss_lines(c@, *o, target@),
{
    let mut lines: Vec<String> = Vec::new();
    assert(texts(lines@) =~= Seq::empty());
    if !o.completed || !is_lossy(o) {
        return lines;
    }
    if o.undelivered_streams.len() > 0 {
        let n = dec_text(o.undelivered_streams.len() as u64);
        push_text(&mut lines, c.fmt1("mp4.excluded_header", "count", n.as_str()));
        let ghost head = texts(lines@);
        assert(head =~= seq![missing_header(c@, o.undelivered_streams@.len())]);
        assert(head + missing_lines(c@, o.undelivered_streams@, 0) =~= head);
        for i in 0..o.undelivered_streams.len()
            invariant
                texts(lines@) == head + missing_lines(c@, o.undelivered_streams@, i as nat),
        {
            let mut l = c.get_or("mp4.excluded_track", "  track");
            l.append(" ");
            push_dec_next(&mut l, o.undelivered_streams[i]);
            push_text(&mut lines, l);
            assert(texts(lines@) =~= head + missing_lines(
                c@,
                o.undelivered_streams@,
                (i + 1) as nat,
            ));
        }
    } else {
        let e = dec_text(o.errors);
        let mut args: Vec<(&str, &str)> = Vec::new();
        args.push(("mb", o.lost_mb.as_str()));
        args.push(("target", target));
        args.push(("errors", e.as_str()));
        assert(arg_texts(args@) =~= seq![
            ("mb"@, o.lost_mb@),
            ("target"@, target@),
            ("errors"@, e@),
        ]);
        push_text(
            &mut lines,
            c.fmt_or(
                "rip.lossy_bytes",
                " {mb} MB could not be carried over into {target} ({errors} error(s))",
                args.as_slice(),
            ),
        );
        assert(texts(lines@) =~= loss_lines(c@, *o, target@));
    }
    lines
}

/// What is said of a container that was converted.
pub open spec fn stream_summary(
    c: Seq<(Seq<char>, Seq<char>)>,
    o: MuxOutcome,
    target: Seq<char>,
    dest_dir: Seq<char>,
) -> Seq<char> {
    if !o.completed {
        "Cancelled — partial output kept: "@ + target
    } else if !lossy(o) {
        "Written to "@ + dest_dir
    } else if o.undelivered_streams@.len() > 0 {
        "Written to "@ + dest_dir + " — "@ + missing_header(c, o.undelivered_streams@.len())
    } else {
        "Written to "@ + dest_dir + " —"@ + joined(loss_lines(c, o, target), " "@)
    }
}

/// What is said of a container that was converted. That it was written is said
/// only of a file that was finished, and then also what is missing from it.
pub fn summarize_stream(c: &Catalog, o: &MuxOutcome, target: &str, dest_dir: &str) -> (r: String)
    ensures
        r@ == stream_summary(c@, *o, target@, dest_dir@),
{
    if !o.completed {
        let mut s = "Cancelled — partial output kept: ".to_owned();
        s.append(target);
        return s;
    }
    let mut s = "Written to ".to_owned();
    s.append(dest_dir);
    if !is_lossy(o) {
        return s;
    }
    if o.undelivered_streams.len() > 0 {
        let n = dec_text(o.undelivered_streams.len() as u64);
        s.append(" — ");
        s.append(c.fmt1("mp4.excluded_header", "count", n.as_str()).as_str());
    } else {
        s.append(" —");
        s.append(join_texts(&lossy_lines(c, o, target), " ").as_str());
    }
    s
}

/// What came of decrypting an image. The sizes are also held as they are shown.
#[derive(Clone, Debug)]
pub struct CopyResult {
    pub halted: bool,
    /// Nothing is pending, nothing is lost, and nobody stopped it.
    pub complete: bool,
    pub bytes_good: u64,
    pub bytes_unreadable: u64,
    pub bytes_pending: u64,
    /// In gibibytes, with two decimals.
    pub good_gib: String,
    /// In mebibytes, with one decimal.
    pub unreadable_mib: String,
    /// In mebibytes, with one decimal.
    pub pending_mib: String,
}

/// What is missing from an image that is not complete.
pub open spec fn shortfall(r: CopyResult) -> Seq<Seq<char>> {
    let s0 = plus_if(
        Seq::empty(),
        r.bytes_unreadable > 0,
        r.unreadable_mib@ + " MiB unreadable"@,
    );
    let s1 = plus_if(s0, r.bytes_pending > 0, r.pending_mib@ + " MiB not read"@);
    if s1.len() == 0 {
        seq!["incomplete"@]
    } else {
        s1
    }
}

/// What is said of an image that was decrypted.
pub open spec fn image_summary(r: CopyResult, dest: Seq<char>) -> Seq<char> {
    if r.halted {
        "Cancelled — partial image kept: "@ + dest + " ("@ + r.good_gib@ + " GiB recovered)"@
    } else if r.complete {
        "Decrypted image written: "@ + dest + " ("@ + r.good_gib@ + " GiB)"@
    } else {
        "Decrypted image written: "@ + dest + " ("@ + r.good_gib@ + " GiB, "@ + joined(
            shortfall(r),
            ", "@,
        ) + ")"@
    }
}

/// What is said of an image that was decrypted. That it was stopped comes
/// first; a shortfall is named.
pub fn summarize_image_decrypt(result: &CopyResult, dest: &str) -> (r: String)
    ensures
        r@ == image_summary(*result, dest@),
{
    if result.halted {
        let mut s = "Cancelled — partial image kept: ".to_owned();
        s.append(dest);
        s.append(" (");
        s.append(result.good_gib.as_str());
        s.append(" GiB recovered)");
        return s;
    }
    let mut s = "Decrypted image written: ".to_owned();
    s.append(dest);
    s.append(" (");
    s.append(result.good_gib.as_str());
    if result.complete {
        s.append(" GiB)");
        return s;
    }
    let mut short: Vec<String> = Vec::new();
    assert(texts(short@) =~= Seq::empty());
    if result.bytes_unreadable > 0 {
        let mut l = result.unreadable_mib.clone();
        l.append(" MiB unreadable");
        push_text(&mut short, l);
    }
    if result.bytes_pending > 0 {
        let mut l = result.pending_mib.clone();
        l.append(" MiB not read");
        push_text(&mut short, l);
    }
    assert(texts(short@).len() == short@.len());
    if short.len() == 0 {
        push_text(&mut short, "incomplete".to_owned());
        assert(texts(short@) =~= seq!["incomplete"@]);
    }
    s.append(" GiB, ");
    s.append(join_texts(&short, ", ").as_str());
    s.append(")");
    s
}

/// What came of extracting the files of a disc.
#[derive(Clone, Debug)]
pub struct ExtractResult {
    pub files: usize,
    pub halted: bool,
    pub bytes_unreadable: u64,
    /// In mebibytes, with one decimal.
    pub unreadable_mb: String,
}

/// What is said of the files of a disc that were extracted.
pub open spec fn extract_summary(r: ExtractResult, dest: Seq<char>) -> Seq<char> {
    let n = dec(r.files as nat);
    if r.halted {
        "Cancelled — "@ + n + " file(s) extracted to "@ + dest + " before stopping"@
    } else if r.bytes_unreadable > 0 {
        "Decrypted file tree written to "@ + dest + " — "@ + n + " file(s), "@ + r.unreadable_mb@
            + " MB unreadable"@
    } else {
        "Decrypted file tree written to "@ + dest + " — "@ + n + " file(s)"@
    }
}

/// What is said of the files of a disc that were extracted.
pub fn summarize_extract(res: &ExtractResult, dest: &str) -> (r: String)
    ensures
        r@ == extract_summary(*res, dest@),
{
    if res.halted {
        let mut s = "Cancelled — ".to_owned();
        push_dec(&mut s, res.files as u64);
        s.append(" file(s) extracted to ");
        s.append(dest);
        s.append(" before stopping");
        return s;
    }
    let mut s = "Decrypted file tree written to ".to_owned();
    s.append(dest);
    s.append(" — ");
    push_dec(&mut s, res.files as u64);
    if res.bytes_unreadable > 0 {
        s.append(" file(s), ");
        s.append(res.unreadable_mb.as_str());
        s.append(" MB unreadable");
    } else {
        s.append(" file(s)");
    }
    s
}

/// What is left of a disc after its recovery. The sizes are also held as they
/// are shown.
#[derive(Clone, Debug)]
pub struct Recovery {
    pub halted: bool,
    pub aborted_for_loss: bool,
    pub good_bytes: u64,
    pub unreadable_bytes: u64,
    pub pending_bytes: u64,
    /// In gibibytes, with two decimals.
    pub good_gib: String,
    /// In mebibytes, with one decimal.
    pub unreadable_mib: String,
    /// In mebibytes, with one decimal.
    pub pending_mib: String,
    /// How much of the film is lost, where that can be said.
    pub lost_time: Option<String>,
}

/// What is added to what is said of a recovery that is not perfect.
pub open spec fn damage_text(c: Seq<(Seq<char>, Seq<char>)>, r: Recovery) -> Seq<char> {
    if r.unreadable_bytes == 0 && r.pending_bytes == 0 {
        Seq::empty()
    } else {
        let note = "\n"@ + filled(
            text_of(c, "rip.mapfile_summary"@),
            seq![
                ("good"@, r.good_gib@),
                ("unreadable"@, r.unreadable_mib@),
                ("pending"@, r.pending_mib@),
            ],
        );
        match r.lost_time {
            Some(t) => note + "\n"@ + filled(
                text_of(c, "rip.damage_lost_movie"@),
                seq![("time"@, t@)],
            ),
            None => note,
        }
    }
}

/// What is added to what is said of a recovery: nothing where nothing was lost.
pub fn damage_note(c: &Catalog, result: &Recovery) -> (r: String)
    ensures
        r@ == damage_text(c@, *result),
{
    if result.unreadable_bytes == 0 && result.pending_bytes == 0 {
        return String::new();
    }
    let mut args: Vec<(&str, &str)> = Vec::new();
    args.push(("good", result.good_gib.as_str()));
    args.push(("unreadable", result.unreadable_mib.as_str()));
    args.push(("pending", result.pending_mib.as_str()));
    assert(arg_texts(args@) =~= seq![
        ("good"@, result.good_gib@),
        ("unreadable"@, result.unreadable_mib@),
        ("pending"@, result.pending_mib@),
    ]);
    let mut note = "\n".to_owned();
    note.append(c.fmt("rip.mapfile_summary", args.as_slice()).as_str());
    if let Some(t) = &result.lost_time {
        note.append("\n");
        note.append(c.fmt1("rip.damage_lost_movie", "time", t.as_str()).as_str());
    }
    note
}

/// Law: what is said of a recovery is nothing more than usual if and only if
/// nothing is missing.
pub proof fn law_damage_is_never_hidden(c: Seq<(Seq<char>, Seq<char>)>, r: Recovery)
    ensures
        damage_text(c, r).len() == 0 <==> r.unreadable_bytes == 0 && r.pending_bytes == 0,
{
    reveal_strlit("\n");
}

/// Why files may not be extracted into a directory.
pub open spec fn occupied_text(dest: Seq<char>) -> Seq<char> {
    dest
        + " already exists and is not empty — enable “Overwrite existing files” in Settings to unpack into it."@
}

/// Whether files may be extracted into `dest`: one that is not empty has to be
/// forced.
pub fn folder_writable(dest: &str, non_empty: bool, force: bool) -> (r: Result<(), String>)
    ensures
        match r {
            Ok(_) => force || !non_empty,
            Err(e) => !force && non_empty && e@ == occupied_text(dest@),
        },
{
    if !force && non_empty {
        let mut s = dest.to_owned();
        s.append(
            " already exists and is not empty — enable “Overwrite existing files” in Settings to unpack into it.",
        );
        return Err(s);
    }
    Ok(())
}

} // verus!
