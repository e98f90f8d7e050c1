//! The contents of the window: which part of it takes the room, what the list
//! of formats shows, and what is written into the log.

use crate::cli_entry::opt_text;
use crate::text::{join_texts, joined, same_text, texts};
use vstd::prelude::*;
use vstd::string::*;

verus! {

/// What a line of the log is.
#[derive(Clone, Copy, Debug, PartialEq, Eq, Structural)]
pub enum LogKind {
    Notice,
    Detail,
    Result,
}

/// A line of the log.
#[derive(Clone, Debug)]
pub struct LogLine {
    pub kind: LogKind,
    pub text: String,
}

/// The position of the style that lines of this kind have.
pub open spec fn tag_of_kind(kind: LogKind) -> nat {
    match kind {
        LogKind::Notice => 0,
        LogKind::Detail => 1,
        LogKind::Result => 2,
    }
}

/// The position of the style that lines of this kind have.
pub fn tag_index(kind: LogKind) -> (r: usize)
    ensures
        r == tag_of_kind(kind),
{
    match kind {
        LogKind::Notice => 0,
        LogKind::Detail => 1,
        LogKind::Result => 2,
    }
}

/// The colours of notices and of details.
pub fn tag_colors(dark: bool) -> (r: (&'static str, &'static str))
    ensures
        (r.0@, r.1@) == (if dark {
            ("#ff7b63"@, "#8ff0a4"@)
        } else {
            ("#c01c28"@, "#1b8553"@)
        }),
{
    if dark {
        ("#ff7b63", "#8ff0a4")
    } else {
        ("#c01c28", "#1b8553")
    }
}

/// Which of the two parts of the window takes the room that is left, and
/// whether the log is there at all.
#[derive(Clone, Copy, Debug, PartialEq, Eq, Structural)]
pub struct LogLayout {
    pub page_grows: bool,
    pub log_grows: bool,
    pub log_visible: bool,
}

/// Which part of the window takes the room that is left: the log on those pages
/// where it fills the window, unless it is hidden, and the page otherwise.
pub fn log_layout(page_leaves_room: bool, log_hidden: bool) -> (r: LogLayout)
    ensures
        r.log_grows == (page_leaves_room && !log_hidden),
        r.page_grows == !r.log_grows,
        r.log_visible == !log_hidden,
{
    let log_grows = page_leaves_room && !log_hidden;
    LogLayout { page_grows: !log_grows, log_grows, log_visible: !log_hidden }
}

/// The destination that the user typed, where it is a new one. While the window
/// is being painted nobody types.
pub fn typed_output(painting: bool, current: &str, typed: &str) -> (r: Option<String>)
    ensures
        opt_text(r) == (if !painting && typed@ != current@ {
            Some(typed@)
        } else {
            None
        }),
{
    if painting || same_text(typed, current) {
        None
    } else {
        Some(typed.to_owned())
    }
}

/// The position of a label from `i` on; the first where it is missing.
pub open spec fn label_position(labels: Seq<Seq<char>>, want: Seq<char>, i: int) -> int
    decreases labels.len() - i,
{
    if i < 0 || i >= labels.len() {
        0
    } else if labels[i] == want {
        i
    } else {
        label_position(labels, want, i + 1)
    }
}

/// What is done with the list of formats.
#[derive(Clone, Debug)]
pub struct FormatsStep {
    /// The labels have changed, and are all set anew.
    pub refill: bool,
    /// What the labels are known by.
    pub signature: String,
    /// The label that is selected.
    pub selected: usize,
}

/// What is done with the list of formats: it is filled again only where its
/// labels have changed, and the format that is in use is selected.
pub fn render_formats(shown: &str, labels: &Vec<String>, want: &str) -> (r: FormatsStep)
    ensures
        r.signature@ == joined(texts(labels@), "\n"@),
        r.refill == (r.signature@ != shown@),
        r.selected == label_position(texts(labels@), want@, 0),
{
    let signature = join_texts(labels, "\n");
    let refill = !same_text(signature.as_str(), shown);
    let ghost all = texts(labels@);
    let mut i: usize = 0;
    while i < labels.len()
        invariant
            i <= labels@.len(),
            all == texts(labels@),
            all.len() == labels@.len(),
            signature@ == joined(all, "\n"@),
            refill == (signature@ != shown@),
            label_position(all, want@, 0) == label_position(all, want@, i as int),
        decreases labels@.len() - i,
    {
        assert(all[i as int] == labels@[i as int]@);
        if same_text(labels[i].as_str(), want) {
            return FormatsStep { refill, signature, selected: i };
        }
        i = i + 1;
    }
    FormatsStep { refill, signature, selected: 0 }
}

/// How what is on the screen differs from the log.
#[derive(Clone, Copy, Debug, PartialEq, Eq, Structural)]
pub enum LogDelta {
    Same,
    /// The lines from here on are missing.
    Append(usize),
    Rewrite,
}

/// What is written into the log's text.
#[derive(Clone, Debug)]
pub struct LogEdit {
    /// What is there is taken away first.
    pub clear: bool,
    /// The texts that are added, each with the position of its style.
    pub added: Vec<(String, usize)>,
}

/// A line of the log as it is written.
pub open spec fn written_line(l: LogLine) -> (Seq<char>, nat) {
    (l.text@ + "\n"@, tag_of_kind(l.kind))
}

/// The lines as they are written, from `from` on.
pub open spec fn written_lines(log: Seq<LogLine>, from: int) -> Seq<(Seq<char>, nat)> {
    log.skip(from).map_values(|l: LogLine| written_line(l))
}

/// What a list of added texts says.
pub open spec fn added_texts(v: Seq<(String, usize)>) -> Seq<(Seq<char>, nat)> {
    v.map_values(|p: (String, usize)| (p.0@, p.1 as nat))
}

fn append_log(log: &Vec<LogLine>, from: usize) -> (r: Vec<(String, usize)>)
    requires
        from <= log@.len(),
    ensures
        added_texts(r@) == written_lines(log@, from as int),
{
    let mut out: Vec<(String, usize)> = Vec::new();
    let ghost wanted = written_lines(log@, from as int);
    assert(added_texts(out@) =~= wanted.take(0));
    for i in from..log.len()
        invariant
            from <= i,
            wanted == written_lines(log@, from as int),
            added_texts(out@) == wanted.take(i - from),
    {
        let ghost before = added_texts(out@);
        let mut s = log[i].text.clone();
        s.append("\n");
        let tag: usize = tag_index(log[i].kind);
        out.push((s, tag));
        assert(added_texts(out@) =~= before.push((s@, tag as nat)));
        assert(log@.skip(from as int)[i - from] == log@[i as int]);
        assert(wanted[i - from] == written_line(log@[i as int]));
        assert(added_texts(out@) =~= wanted.take(i + 1 - from));
    }
    assert(wanted.take(log@.len() - from) =~= wanted);
    out
}

/// What is written into the log's text; nothing where it is up to date.
pub fn render_log(delta: LogDelta, log: &Vec<LogLine>) -> (r: Option<LogEdit>)
    requires
        delta matches LogDelta::Append(from) ==> from <= log@.len(),
    ensures
        match delta {
            LogDelta::Same => r is None,
            LogDelta::Append(from) => r matches Some(e) && !e.clear && added_texts(e.added@)
                == written_lines(log@, from as int),
            LogDelta::Rewrite => r matches Some(e) && e.clear && added_texts(e.added@)
                == written_lines(log@, 0),
        },
{
    match delta {
        LogDelta::Same => None,
        LogDelta::Append(from) => Some(LogEdit { clear: false, added: append_log(log, from) }),
        LogDelta::Rewrite => Some(LogEdit { clear: true, added: append_log(log, 0) }),
    }
}

/// Law: where the screen shows the first lines of the log, adding the rest leaves
/// there what writing the whole log anew would.
pub proof fn law_appending_is_rewriting(log: Seq<LogLine>, from: int)
    requires
        0 <= from <= log.len(),
    ensures
        written_lines(log.take(from), 0) + written_lines(log, from) == written_lines(log, 0),
{
    assert(log.take(from).skip(0) =~= log.take(from));
    assert(log.skip(0) =~= log);
    assert(written_lines(log.take(from), 0) + written_lines(log, from) =~= written_lines(log, 0));
}

} // verus!
