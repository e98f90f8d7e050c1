//! One title of a rip: what is said of it, and whether it counts; and what the
//! titles of a rip are.

use crate::engine::identity::{
    TitleIdentity, TitleMark, marks, picked_mark, push_dec_next, still_there, verify_title_identity,
};
use crate::engine::naming::{OutKind, Sink, image_or_dir_scheme};
use crate::engine::summary::{
    MuxOutcome, code_in, error_code, explain, explanation, loss_lines, lossy, lossy_lines,
};
use crate::strings::Catalog;
use crate::text::{dec, plus_if, push_dec, push_text, push_texts, texts};
use vstd::prelude::*;
use vstd::string::*;

verus! {

/// Which titles are to be ripped.
#[derive(Clone, Debug)]
pub enum Choice {
    /// The main title.
    MainMovie,
    /// The titles with these indices.
    Titles(Vec<usize>),
}

/// What a [`Choice`] says: nothing for the main title.
pub open spec fn chosen(c: Choice) -> Option<Seq<usize>> {
    match c {
        Choice::MainMovie => None,
        Choice::Titles(v) => Some(v@),
    }
}

/// Which titles are to be ripped: where none are ticked, the main one.
pub fn choice_of(titles: &[usize]) -> (r: Choice)
    ensures
        chosen(r) == (if titles@.len() == 0 {
            None
        } else {
            Some(titles@)
        }),
{
    if titles.len() == 0 {
        Choice::MainMovie
    } else {
        Choice::Titles(vstd::slice::slice_to_vec(titles))
    }
}

/// What is asked before a rip: from where, to where, and which titles.
#[derive(Clone, Debug)]
pub struct Job {
    pub source: String,
    pub dest: String,
    pub choice: Choice,
}

/// Where an image or a folder is read from.
pub open spec fn job_source(path: Seq<char>, is_dir: bool) -> Seq<char> {
    (if is_dir {
        "dir"@
    } else {
        "iso"@
    }) + "://"@ + path
}

/// Which titles are meant where these are ticked: the main one where none are.
pub open spec fn job_choice(titles: Seq<usize>) -> Option<Seq<usize>> {
    if titles.len() == 0 {
        None
    } else {
        Some(titles)
    }
}

/// What is asked before a rip of an image or a folder.
pub fn preflight_job(path: &str, is_dir: bool, dest: &str, titles: &[usize]) -> (r: Job)
    ensures
        r.source@ == job_source(path@, is_dir),
        r.dest@ == dest@,
        chosen(r.choice) == job_choice(titles@),
{
    let mut source = image_or_dir_scheme(is_dir).to_owned();
    source.append("://");
    source.append(path);
    Job { source, dest: dest.to_owned(), choice: choice_of(titles) }
}

/// What was answered: a rip can run, or these reasons stand against it.
#[derive(Clone, Debug)]
pub enum Readiness {
    Ready,
    Blocked(Vec<String>),
}

/// What stands against a rip; an error where the source could not be scanned,
/// which had this code.
pub fn preflight(answer: Result<Readiness, u16>) -> (r: Result<Vec<String>, String>)
    ensures
        match answer {
            Ok(Readiness::Ready) => r matches Ok(v) && v@.len() == 0,
            Ok(Readiness::Blocked(keys)) => r matches Ok(v) && v == keys,
            Err(code) => r matches Err(e) && e@ == "E"@ + dec(code as nat),
        },
{
    match answer {
        Ok(Readiness::Ready) => Ok(Vec::new()),
        Ok(Readiness::Blocked(keys)) => Ok(keys),
        Err(code) => {
            let mut e = "E".to_owned();
            push_dec(&mut e, code as u64);
            Err(e)
        },
    }
}

/// What is said where a recovered image could not be scanned again.
pub fn rescan_failed(code: u16) -> (r: String)
    ensures
        r@ == "could not re-scan the recovered image (E"@ + dec(code as nat) + ")."@,
{
    let mut s = "could not re-scan the recovered image (E".to_owned();
    push_dec(&mut s, code as u64);
    s.append(").");
    s
}

/// What is said where files could not be extracted.
pub fn extract_failed(code: u16) -> (r: String)
    ensures
        r@ == "Extraction failed: E"@ + dec(code as nat),
{
    let mut s = "Extraction failed: E".to_owned();
    push_dec(&mut s, code as u64);
    s
}

/// A file that was extracted.
#[derive(Clone, Debug)]
pub struct ExtractedFile {
    pub path: String,
    pub bytes_unreadable: u64,
    /// In mebibytes, with one decimal.
    pub unreadable_mb: String,
}

/// The lines about the first `n` files that could not be read in full.
pub open spec fn unreadable(files: Seq<ExtractedFile>, n: nat) -> Seq<Seq<char>>
    decreases n,
{
    if n == 0 {
        Seq::empty()
    } else {
        plus_if(
            unreadable(files, (n - 1) as nat),
            files[n - 1].bytes_unreadable > 0,
            "  "@ + files[n - 1].path@ + " — "@ + files[n - 1].unreadable_mb@ + " MB unreadable"@,
        )
    }
}

/// The lines about the files that could not be read in full.
pub fn unreadable_lines(files: &Vec<ExtractedFile>) -> (r: Vec<String>)
    ensures
        texts(r@) == unreadable(files@, files@.len()),
{
    let mut lines: Vec<String> = Vec::new();
    assert(texts(lines@) =~= Seq::empty());
    for i in 0..files.len()
        invariant
            texts(lines@) == unreadable(files@, i as nat),
    {
        let f = &files[i];
        if f.bytes_unreadable > 0 {
            let mut s = "  ".to_owned();
            s.append(f.path.as_str());
            s.append(" — ");
            s.append(f.unreadable_mb.as_str());
            s.append(" MB unreadable");
            push_text(&mut lines, s);
        }
    }
    lines
}

/// What came of putting a disc out.
#[derive(Clone, Debug)]
pub enum Ejection {
    Done,
    Failed(String),
    /// The drive could not be opened.
    NotOpened(String),
}

/// What is said of a drive that was to be ejected.
pub open spec fn eject_said(device: Seq<char>, ejection: Ejection) -> Seq<char> {
    match ejection {
        Ejection::Done => "ejected "@ + device,
        Ejection::Failed(e) => "eject failed: "@ + e@,
        Ejection::NotOpened(e) => "eject skipped — drive open failed: "@ + e@,
    }
}

/// The line about putting a disc out.
pub fn eject_line(device: &str, ejection: &Ejection) -> (r: String)
    ensures
        r@ == eject_said(device@, *ejection),
{
    match ejection {
        Ejection::Done => {
            let mut s = "ejected ".to_owned();
            s.append(device);
            s
        },
        Ejection::Failed(e) => {
            let mut s = "eject failed: ".to_owned();
            s.append(e.as_str());
            s
        },
        Ejection::NotOpened(e) => {
            let mut s = "eject skipped — drive open failed: ".to_owned();
            s.append(e.as_str());
            s
        },
    }
}

/// Whether the title at `idx` may be read off a drive that was opened again for
/// it: what stands against that, if anything.
pub open spec fn title_admitted(
    picked: Seq<TitleMark>,
    idx: usize,
    opened: Result<Vec<TitleIdentity>, String>,
) -> Result<(), Seq<char>> {
    match opened {
        Err(e) => Err("title "@ + dec((idx + 1) as nat) + ": "@ + e@),
        Ok(scanned) => still_there(picked_mark(picked, idx), marks(scanned@), idx as nat),
    }
}

/// Whether the title at `idx` may be read off a drive that was opened again for
/// it. What stands against that is both logged and the error.
pub fn admit_title(
    picked: &Vec<TitleIdentity>,
    idx: usize,
    opened: Result<Vec<TitleIdentity>, String>,
) -> (r: Result<(), String>)
    ensures
        match r {
            Ok(_) => title_admitted(marks(picked@), idx, opened) is Ok,
            Err(e) => title_admitted(marks(picked@), idx, opened) == Err::<(), Seq<char>>(e@),
        },
{
    match opened {
        Err(e) => {
            let mut s = "title ".to_owned();
            push_dec_next(&mut s, idx);
            s.append(": ");
            s.append(e.as_str());
            Err(s)
        },
        Ok(scanned) => {
            let ghost all = marks(picked@);
            assert(all.len() == picked@.len());
            if idx < picked.len() {
                assert(all[idx as int] == picked@[idx as int]@);
                verify_title_identity(Some(&picked[idx]), &scanned, idx)
            } else {
                verify_title_identity(None, &scanned, idx)
            }
        },
    }
}

/// What is said of a title, and what it counts for.
#[derive(Clone, Debug)]
pub struct TitleReport {
    pub lines: Vec<String>,
    /// It was written in full.
    pub written: bool,
    /// Part of it was written, and is kept.
    pub partial: bool,
    /// What was left of it is to be removed.
    pub remove: bool,
}

/// The lines about a title.
pub open spec fn title_said(
    c: Seq<(Seq<char>, Seq<char>)>,
    idx: usize,
    target: Seq<char>,
    result: Result<MuxOutcome, String>,
) -> Seq<Seq<char>> {
    let number = dec((idx + 1) as nat);
    match result {
        Err(e) => seq!["Title "@ + number + ": "@ + explanation(code_in(e@))],
        Ok(o) => if !o.completed {
            seq!["title "@ + number + " cancelled — partial output kept: "@ + target]
        } else {
            seq!["title "@ + number + " -> "@ + target] + loss_lines(c, o, target)
        },
    }
}

/// What is said of a title once it was written or not. A file that failed is
/// removed, where a title is one file.
pub fn title_report(
    c: &Catalog,
    idx: usize,
    kind: OutKind,
    target: &str,
    result: &Result<MuxOutcome, String>,
) -> (r: TitleReport)
    ensures
        texts(r.lines@) == title_said(c@, idx, target@, *result),
        r.written == (*result matches Ok(o) && o.completed),
        r.partial == (*result matches Ok(o) && !o.completed),
        r.remove == (result is Err && kind@ is File),
{
    let mut lines: Vec<String> = Vec::new();
    match result {
        Err(e) => {
            let mut s = "Title ".to_owned();
            push_dec_next(&mut s, idx);
            s.append(": ");
            s.append(explain(error_code(e.as_str())).as_str());
            push_text(&mut lines, s);
            assert(texts(lines@) =~= seq![s@]);
            let remove = match kind {
                OutKind::File(_) => true,
                _ => false,
            };
            TitleReport { lines, written: false, partial: false, remove }
        },
        Ok(o) => {
            let mut s = "title ".to_owned();
            push_dec_next(&mut s, idx);
            if !o.completed {
                s.append(" cancelled — partial output kept: ");
                s.append(target);
                push_text(&mut lines, s);
                assert(texts(lines@) =~= seq![s@]);
                TitleReport { lines, written: false, partial: true, remove: false }
            } else {
                s.append(" -> ");
                s.append(target);
                push_text(&mut lines, s);
                assert(texts(lines@) =~= seq![s@]);
                push_texts(&mut lines, lossy_lines(c, o, target));
                TitleReport { lines, written: true, partial: false, remove: false }
            }
        },
    }
}

/// Law: a title counts as written in full, as written in part, or as failed, and
/// as no two of these; a part is never removed.
pub proof fn law_title_counts_once(
    report: TitleReport,
    kind: Sink,
    result: Result<MuxOutcome, String>,
)
    requires
        report.written == (result matches Ok(o) && o.completed),
        report.partial == (result matches Ok(o) && !o.completed),
        report.remove == (result is Err && kind is File),
    ensures
        !(report.written && report.partial),
        result is Ok == (report.written || report.partial),
        report.remove ==> !report.written && !report.partial,
{
}

/// Law: a title that lost something is never reported like one that did not:
/// more is said of it than where it went.
pub proof fn law_lossy_title_is_said_so(
    c: Seq<(Seq<char>, Seq<char>)>,
    idx: usize,
    target: Seq<char>,
    o: MuxOutcome,
)
    requires
        o.completed,
    ensures
        lossy(o) == (title_said(c, idx, target, Ok(o)).len() > 1),
{
}

/// How many titles were written, in full and in part.
#[derive(Clone, Copy, Debug)]
pub struct Tally {
    pub written: usize,
    pub partial: usize,
}

impl Tally {
    /// Counts one more title.
    pub fn count(&mut self, report: &TitleReport)
        requires
            old(self).written < usize::MAX,
            old(self).partial < usize::MAX,
        ensures
            final(self).written == old(self).written + (if report.written {
                1int
            } else {
                0
            }),
            final(self).partial == old(self).partial + (if report.partial {
                1int
            } else {
                0
            }),
    {
        if report.written {
            self.written = self.written + 1;
        }
        if report.partial {
            self.partial = self.partial + 1;
        }
    }
}

} // verus!
