//! Handing a captured profile in: the question, the answer, and what follows
//! from each. Nothing is posted without an explicit yes.

use crate::cli_entry::opt_text;
use crate::encode::{json_escape, json_escaped};
use crate::strings::{Catalog, filled, text_of, text_or};
use crate::text::{
    CharClass, chars_of, dec, dec_text, find_from, has_text, lemma_next_at, lemma_until_len,
    len_until, lower_text, lowered, next_at, occurs_at, push_text, same_text, string_of, text_has,
    texts, trim_text, trimmed, until,
};
use vstd::prelude::*;
use vstd::string::*;

verus! {

/// The question may be put: there is something to submit with, and someone who
/// can both see the question and answer it.
pub open spec fn may_ask(token: Seq<char>, stdin_is_tty: bool, stderr_is_tty: bool) -> bool {
    token.len() > 0 && stdin_is_tty && stderr_is_tty
}

/// Whether to put the question at all.
pub fn may_prompt_for_consent(token: &str, stdin_is_tty: bool, stderr_is_tty: bool) -> (r: bool)
    ensures
        r == may_ask(token@, stdin_is_tty, stderr_is_tty),
{
    !token.is_empty() && stdin_is_tty && stderr_is_tty
}

/// The answer is a yes: something was read, and it is the word for yes in the
/// language of the question, in either case.
pub open spec fn consents(n: nat, answer: Seq<char>, affirmative: Seq<char>) -> bool {
    n > 0 && answer.len() > 0 && lowered(answer) == lowered(affirmative)
}

/// Whether two texts are the same but for the case of ASCII letters.
pub fn same_ignoring_case(a: &str, b: &str) -> (r: bool)
    ensures
        r == (lowered(a@) == lowered(b@)),
{
    same_text(lower_text(a).as_str(), lower_text(b).as_str())
}

/// Whether the answer is an explicit yes. `n` is how many bytes were read.
pub fn consent_granted(n: usize, answer: &str, affirmative: &str) -> (r: bool)
    ensures
        r == consents(n as nat, answer@, affirmative@),
{
    n > 0 && !answer.is_empty() && same_ignoring_case(answer, affirmative)
}

/// Where a submission stands.
#[derive(Clone, Debug)]
pub enum Submission {
    /// The profile is saved; nothing was asked yet.
    Saved,
    /// The question was put.
    Asked,
    /// The answer was yes: the report is to be posted.
    Posting,
    /// The report was posted, at this address.
    Posted(String),
    /// The report is to be filed by hand.
    ByHand(WhyByHand),
}

/// Why a report is to be filed by hand.
#[derive(Clone, Copy, Debug, PartialEq, Eq, Structural)]
pub enum WhyByHand {
    /// The question could not be put.
    NotAsked,
    /// The answer was no yes.
    Declined,
    /// Posting failed.
    Failed,
}

/// What happens to a submission.
#[derive(Clone, Debug)]
pub enum SubmitEvent {
    /// What is known before the question: the token, and whether the standard
    /// input and the standard error are a terminal.
    Ready { token: String, stdin_is_tty: bool, stderr_is_tty: bool },
    /// What was read: how many bytes, the line, and the word for yes.
    Answered { n: usize, line: String, affirmative: String },
    /// What posting came to: the address of the report, if there is one.
    PostDone(Option<String>),
}

/// Where a submission stands, as a plain value.
pub enum SubmitStage {
    Saved,
    Asked,
    Posting,
    Posted(Seq<char>),
    ByHand(WhyByHand),
}

impl View for Submission {
    type V = SubmitStage;

    open spec fn view(&self) -> SubmitStage {
        match *self {
            Submission::Saved => SubmitStage::Saved,
            Submission::Asked => SubmitStage::Asked,
            Submission::Posting => SubmitStage::Posting,
            Submission::Posted(u) => SubmitStage::Posted(u@),
            Submission::ByHand(w) => SubmitStage::ByHand(w),
        }
    }
}

/// Where a submission stands after an event. An event that does not belong to
/// where it stands changes nothing.
pub open spec fn submit_next(s: SubmitStage, e: SubmitEvent) -> SubmitStage {
    match (s, e) {
        (SubmitStage::Saved, SubmitEvent::Ready { token, stdin_is_tty, stderr_is_tty }) => if may_ask(
            token@,
            stdin_is_tty,
            stderr_is_tty,
        ) {
            SubmitStage::Asked
        } else {
            SubmitStage::ByHand(WhyByHand::NotAsked)
        },
        (SubmitStage::Asked, SubmitEvent::Answered { n, line, affirmative }) => if consents(
            n as nat,
            trimmed(line@, CharClass::White),
            affirmative@,
        ) {
            SubmitStage::Posting
        } else {
            SubmitStage::ByHand(WhyByHand::Declined)
        },
        (SubmitStage::Posting, SubmitEvent::PostDone(url)) => match url {
            Some(u) => SubmitStage::Posted(u@),
            None => SubmitStage::ByHand(WhyByHand::Failed),
        },
        _ => s,
    }
}

/// Takes a submission one event further.
pub fn submit_step(s: Submission, e: SubmitEvent) -> (r: Submission)
    ensures
        r@ == submit_next(s@, e),
{
    match (s, e) {
        (Submission::Saved, SubmitEvent::Ready { token, stdin_is_tty, stderr_is_tty }) => {
            if may_prompt_for_consent(token.as_str(), stdin_is_tty, stderr_is_tty) {
                Submission::Asked
            } else {
                Submission::ByHand(WhyByHand::NotAsked)
            }
        },
        (Submission::Asked, SubmitEvent::Answered { n, line, affirmative }) => {
            if consent_granted(n, trim_text(line.as_str()).as_str(), affirmative.as_str()) {
                Submission::Posting
            } else {
                Submission::ByHand(WhyByHand::Declined)
            }
        },
        (Submission::Posting, SubmitEvent::PostDone(url)) => match url {
            Some(u) => Submission::Posted(u),
            None => Submission::ByHand(WhyByHand::Failed),
        },
        (s, _) => s,
    }
}

/// Where a submission stands after the first `n` events.
pub open spec fn submit_after(events: Seq<SubmitEvent>, n: nat) -> SubmitStage
    decreases n,
{
    if n == 0 {
        SubmitStage::Saved
    } else {
        submit_next(submit_after(events, (n - 1) as nat), events[n - 1])
    }
}

/// The question was put, by some event before the `n`-th.
pub open spec fn was_asked(events: Seq<SubmitEvent>, n: nat) -> bool {
    exists|i: int|
        0 <= i < n && (#[trigger] events[i] matches SubmitEvent::Ready {
            token,
            stdin_is_tty,
            stderr_is_tty,
        } && may_ask(token@, stdin_is_tty, stderr_is_tty))
}

/// The answer was yes, by some event before the `n`-th.
pub open spec fn was_granted(events: Seq<SubmitEvent>, n: nat) -> bool {
    exists|i: int|
        0 <= i < n && (#[trigger] events[i] matches SubmitEvent::Answered { n, line, affirmative }
            && consents(n as nat, trimmed(line@, CharClass::White), affirmative@))
}

/// Law: whatever happens, and in whatever order, a report is posted only after
/// the question was put to someone who could see and answer it, and the answer
/// was an explicit yes.
pub proof fn law_nothing_is_posted_without_consent(events: Seq<SubmitEvent>, n: nat)
    requires
        n <= events.len(),
    ensures
        submit_after(events, n) is Asked ==> was_asked(events, n),
        submit_after(events, n) is Posting || submit_after(events, n) is Posted ==> was_asked(
            events,
            n,
        ) && was_granted(events, n),
    decreases n,
{
    if n > 0 {
        let m = (n - 1) as nat;
        law_nothing_is_posted_without_consent(events, m);
        let before = submit_after(events, m);
        let e = events[n - 1];
        if was_asked(events, m) {
            let i = choose|i: int|
                0 <= i < m && (#[trigger] events[i] matches SubmitEvent::Ready {
                    token,
                    stdin_is_tty,
                    stderr_is_tty,
                } && may_ask(token@, stdin_is_tty, stderr_is_tty));
            assert(events[i] is Ready);
            assert(was_asked(events, n));
        }
        if was_granted(events, m) {
            let i = choose|i: int|
                0 <= i < m && (#[trigger] events[i] matches SubmitEvent::Answered {
                    n,
                    line,
                    affirmative,
                } && consents(n as nat, trimmed(line@, CharClass::White), affirmative@));
            assert(events[i] is Answered);
            assert(was_granted(events, n));
        }
        if before is Saved && submit_after(events, n) is Asked {
            assert(events[n - 1] is Ready);
            assert(was_asked(events, n));
        }
        if before is Asked && submit_after(events, n) is Posting {
            assert(events[n - 1] is Answered);
            assert(was_granted(events, n));
        }
    }
}

/// Law: an end of input or an empty line is never a yes, whatever the word for
/// yes is.
pub proof fn law_silence_is_no_consent(n: nat, answer: Seq<char>, affirmative: Seq<char>)
    requires
        n == 0 || answer.len() == 0,
    ensures
        !consents(n, answer, affirmative),
{
}

/// What is printed where a submission stands: the thanks, or why it has to be
/// done by hand.
pub open spec fn outcome_text(c: Seq<(Seq<char>, Seq<char>)>, s: SubmitStage) -> Seq<Seq<char>> {
    match s {
        SubmitStage::Posted(u) => seq![
            Seq::<char>::empty(),
            text_or(c, "drive.submit_thanks"@, "Submitted — thank you!"@),
            "  "@ + u,
        ],
        SubmitStage::ByHand(WhyByHand::Failed) => seq![
            Seq::<char>::empty(),
            text_or(
                c,
                "drive.submit_auto_failed"@,
                "Automated submission failed; you can still file it by hand:"@,
            ),
        ],
        SubmitStage::ByHand(WhyByHand::Declined) => seq![
            text_or(
                c,
                "drive.submit_declined"@,
                "Not submitted. You can still file it by hand if you like:"@,
            ),
        ],
        _ => Seq::empty(),
    }
}

/// What is printed where a submission stands.
pub fn outcome_lines(c: &Catalog, s: &Submission) -> (r: Vec<String>)
    ensures
        texts(r@) == outcome_text(c@, s@),
{
    let mut lines: Vec<String> = Vec::new();
    match s {
        Submission::Posted(u) => {
            push_text(&mut lines, String::new());
            push_text(&mut lines, c.get_or("drive.submit_thanks", "Submitted — thank you!"));
            let mut at = "  ".to_owned();
            at.append(u.as_str());
            push_text(&mut lines, at);
        },
        Submission::ByHand(WhyByHand::Failed) => {
            push_text(&mut lines, String::new());
            push_text(
                &mut lines,
                c.get_or(
                    "drive.submit_auto_failed",
                    "Automated submission failed; you can still file it by hand:",
                ),
            );
        },
        Submission::ByHand(WhyByHand::Declined) => {
            push_text(
                &mut lines,
                c.get_or(
                    "drive.submit_declined",
                    "Not submitted. You can still file it by hand if you like:",
                ),
            );
        },
        _ => {},
    }
    assert(texts(lines@) =~= outcome_text(c@, s@));
    lines
}

/// Where the profile and its archive were saved.
pub open spec fn saved_text(
    c: Seq<(Seq<char>, Seq<char>)>,
    dir: Seq<char>,
    zip_path: Seq<char>,
) -> Seq<Seq<char>> {
    seq![
        Seq::<char>::empty(),
        filled(text_of(c, "drive.submit_saved"@), seq![("dir"@, dir)]),
        filled(text_of(c, "drive.submit_zip"@), seq![("path"@, zip_path)]),
    ]
}

/// Where the profile was saved.
pub fn saved_lines(c: &Catalog, dir: &str, zip_path: &str) -> (r: Vec<String>)
    ensures
        texts(r@) == saved_text(c@, dir@, zip_path@),
{
    let mut lines: Vec<String> = Vec::new();
    push_text(&mut lines, String::new());
    push_text(&mut lines, c.fmt1("drive.submit_saved", "dir", dir));
    push_text(&mut lines, c.fmt1("drive.submit_zip", "path", zip_path));
    assert(texts(lines@) =~= seq![
        Seq::<char>::empty(),
        filled(text_of(c@, "drive.submit_saved"@), seq![("dir"@, dir@)]),
        filled(text_of(c@, "drive.submit_zip"@), seq![("path"@, zip_path@)]),
    ]);
    lines
}

/// How to file a report by hand. The last text is the report itself between two
/// rules, and does not end its line.
pub open spec fn by_hand(c: Seq<(Seq<char>, Seq<char>)>, title: Seq<char>, body: Seq<char>) -> Seq<
    char,
> {
    "\n"@ + text_of(c, "drive.submit_manual"@) + "\n"@
        + "  https://github.com/freemkv/bdemu/issues/new\n"@ + "\n"@ + filled(
        text_of(c, "drive.submit_issue_title"@),
        seq![("title"@, title)],
    ) + "\n"@ + "\n"@ + text_of(c, "drive.submit_issue_body"@) + "\n"@
        + "────────────────────────────────────────\n"@ + body
        + "────────────────────────────────────────\n"@
}

/// How to file a report by hand, with the report.
pub fn by_hand_text(c: &Catalog, title: &str, body: &str) -> (r: String)
    ensures
        r@ == by_hand(c@, title@, body@),
{
    let mut s = "\n".to_owned();
    s.append(c.get("drive.submit_manual").as_str());
    s.append("\n");
    s.append("  https://github.com/freemkv/bdemu/issues/new\n");
    s.append("\n");
    s.append(c.fmt1("drive.submit_issue_title", "title", title).as_str());
    s.append("\n");
    s.append("\n");
    s.append(c.get("drive.submit_issue_body").as_str());
    s.append("\n");
    s.append("────────────────────────────────────────\n");
    s.append(body);
    s.append("────────────────────────────────────────\n");
    s
}

/// What is posted.
pub open spec fn payload_of(title: Seq<char>, body: Seq<char>) -> Seq<char> {
    "{\"title\":\""@ + json_escaped(title) + "\",\"body\":\""@ + json_escaped(body)
        + "\",\"labels\":[\"drive-profile\"]}"@
}

/// What is posted: the title and the body of the report, as JSON.
pub fn submit_payload(title: &str, body: &str) -> (r: String)
    ensures
        r@ == payload_of(title@, body@),
{
    let mut s = "{\"title\":\"".to_owned();
    s.append(json_escape(title).as_str());
    s.append("\",\"body\":\"");
    s.append(json_escape(body).as_str());
    s.append("\",\"labels\":[\"drive-profile\"]}");
    s
}

/// The address of the report in a reply, looked for from position `i` on: the
/// first `html_url` that leads to an issue.
pub open spec fn issue_url_from(reply: Seq<char>, i: int) -> Option<Seq<char>>
    decreases reply.len() + 1 - i,
    via issue_url_advances
{
    let key = "\"html_url\":\""@;
    match next_at(reply, key, i) {
        Some(j) => {
            let rest = reply.skip(j + key.len());
            let url = until(rest, CharClass::Quote);
            if url.len() < rest.len() && has_text(url, "/issues/"@) {
                Some(url)
            } else {
                issue_url_from(reply, j + key.len())
            }
        },
        None => None,
    }
}

#[via_fn]
proof fn issue_url_advances(reply: Seq<char>, i: int) {
    reveal_strlit("\"html_url\":\"");
    lemma_next_bounds(reply, "\"html_url\":\""@, i);
}

/// Where something next stands, it stands whole.
proof fn lemma_next_bounds(s: Seq<char>, p: Seq<char>, i: int)
    ensures
        next_at(s, p, i) matches Some(j) ==> i <= j && 0 <= j && j + p.len() <= s.len(),
    decreases s.len() + 1 - i,
{
    if i >= 0 && i + p.len() <= s.len() && !occurs_at(s, p, i) {
        lemma_next_bounds(s, p, i + 1);
    }
}

/// The address of the report in the reply to a post; none where the reply
/// names no issue.
pub fn issue_url(reply: &str) -> (r: Option<String>)
    ensures
        opt_text(r) == issue_url_from(reply@, 0),
{
    let v = chars_of(reply);
    let key = chars_of("\"html_url\":\"");
    proof {
        reveal_strlit("\"html_url\":\"");
    }
    let mut i: usize = 0;
    loop
        invariant
            v@ == reply@,
            key@ == "\"html_url\":\""@,
            key@.len() == 12,
            i <= v@.len(),
            issue_url_from(reply@, 0) == issue_url_from(reply@, i as int),
        decreases v@.len() - i,
    {
        let found = find_from(v.as_slice(), key.as_slice(), i);
        proof {
            lemma_next_at(
                reply@,
                key@,
                i as int,
                match found {
                    Some(j) => Some(j as int),
                    None => None,
                },
            );
        }
        match found {
            Some(j) => {
                assert(j + key@.len() <= v.len());
                let start: usize = j + key.len();
                let rest = vstd::slice::slice_subrange(v.as_slice(), start, v.len());
                assert(rest@ =~= reply@.skip(start as int));
                let n: usize = len_until(rest, CharClass::Quote);
                proof {
                    lemma_until_len(rest@, CharClass::Quote);
                }
                assert(rest@.take(n as int) == until(rest@, CharClass::Quote));
                if n < rest.len() {
                    let url = string_of(vstd::slice::slice_subrange(rest, 0, n));
                    assert(url@ =~= rest@.take(n as int));
                    if text_has(url.as_str(), "/issues/") {
                        return Some(url);
                    }
                }
                i = start;
            },
            None => {
                return None;
            },
        }
    }
}

/// The repository that reports are filed with.
pub const SUBMIT_REPO: &'static str = "freemkv/bdemu";

/// How long a post may take to connect, in seconds.
pub const SUBMIT_CONNECT_TIMEOUT_SECS: u32 = 10;

/// How long a post may take in all, in seconds.
pub const SUBMIT_MAX_TIME_SECS: u32 = 120;

/// How many bytes the reply may have.
pub const SUBMIT_MAX_FILESIZE_BYTES: u32 = 1048576;

/// The program that posts: by its full path where the system's directory is
/// known, by its bare name otherwise.
pub fn curl_program_from(system_root: Option<&str>) -> (r: String)
    ensures
        r@ == (match system_root {
            Some(root) => root@ + "\\System32\\curl.exe"@,
            None => "curl"@,
        }),
{
    match system_root {
        Some(root) => {
            let mut s = root.to_owned();
            s.append("\\System32\\curl.exe");
            s
        },
        None => "curl".to_owned(),
    }
}

/// The arguments of the program that posts. The time to connect, the time in
/// all and the size of the reply are bounded, and redirects are not followed.
pub open spec fn post_args(token: Seq<char>, payload: Seq<char>) -> Seq<Seq<char>> {
    seq![
        "-s"@,
        "-X"@,
        "POST"@,
        "--connect-timeout"@,
        dec(SUBMIT_CONNECT_TIMEOUT_SECS as nat),
        "--max-time"@,
        dec(SUBMIT_MAX_TIME_SECS as nat),
        "--max-filesize"@,
        dec(SUBMIT_MAX_FILESIZE_BYTES as nat),
        "--proto"@,
        "=https"@,
        "https://api.github.com/repos/"@ + SUBMIT_REPO@ + "/issues"@,
        "-H"@,
        "Authorization: token "@ + token,
        "-H"@,
        "Accept: application/vnd.github+json"@,
        "-H"@,
        "User-Agent: freemkv-info"@,
        "-d"@,
        payload,
    ]
}

/// The arguments of the program that posts.
pub fn curl_submit_args(token: &str, payload: &str) -> (r: Vec<String>)
    ensures
        texts(r@) == post_args(token@, payload@),
{
    let mut args: Vec<String> = Vec::new();
    push_text(&mut args, "-s".to_owned());
    push_text(&mut args, "-X".to_owned());
    push_text(&mut args, "POST".to_owned());
    push_text(&mut args, "--connect-timeout".to_owned());
    push_text(&mut args, dec_text(SUBMIT_CONNECT_TIMEOUT_SECS as u64));
    push_text(&mut args, "--max-time".to_owned());
    push_text(&mut args, dec_text(SUBMIT_MAX_TIME_SECS as u64));
    push_text(&mut args, "--max-filesize".to_owned());
    push_text(&mut args, dec_text(SUBMIT_MAX_FILESIZE_BYTES as u64));
    push_text(&mut args, "--proto".to_owned());
    push_text(&mut args, "=https".to_owned());
    let mut url = "https://api.github.com/repos/".to_owned();
    url.append(SUBMIT_REPO);
    url.append("/issues");
    push_text(&mut args, url);
    push_text(&mut args, "-H".to_owned());
    let mut auth = "Authorization: token ".to_owned();
    auth.append(token);
    push_text(&mut args, auth);
    push_text(&mut args, "-H".to_owned());
    push_text(&mut args, "Accept: application/vnd.github+json".to_owned());
    push_text(&mut args, "-H".to_owned());
    push_text(&mut args, "User-Agent: freemkv-info".to_owned());
    push_text(&mut args, "-d".to_owned());
    push_text(&mut args, payload.to_owned());
    assert(texts(args@) =~= post_args(token@, payload@));
    args
}

} // verus!
