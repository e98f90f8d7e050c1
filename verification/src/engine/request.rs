//! What is asked of a rip, and what its worker tells of it.

use crate::cli_entry::opt_text;
use crate::disc::{AacsState, Disc};
use crate::engine::identity::TitleIdentity;
use crate::engine::summary::result_text;
use crate::text::{CharClass, begins, push_text, text_begins, texts, trim_text, trimmed};
use vstd::prelude::*;
use vstd::string::*;

verus! {

/// The settings that say where keys come from.
#[derive(Clone, Debug)]
pub struct Settings {
    pub keydb_path: String,
    pub keyserver_url: String,
    pub keyserver_token: String,
    /// "Local keydb only", "Online key service only" or "keydb, then online".
    pub key_source: String,
}

/// Where keys come from.
#[derive(Clone, Debug)]
pub struct KeyConfig {
    pub keydb_path: String,
    pub keyserver_url: String,
    pub keyserver_token: String,
    pub online_only: bool,
    /// The online service must not be asked, even if it is set up.
    pub local_only: bool,
}

impl KeyConfig {
    /// Where keys come from, by the settings. All three choices are told apart.
    pub fn from_settings(s: &Settings) -> (r: Self)
        ensures
            r.keydb_path@ == s.keydb_path@,
            r.keyserver_url@ == s.keyserver_url@,
            r.keyserver_token@ == s.keyserver_token@,
            r.online_only == begins(s.key_source@, "Online"@),
            r.local_only == begins(s.key_source@, "Local"@),
    {
        KeyConfig {
            keydb_path: s.keydb_path.clone(),
            keyserver_url: s.keyserver_url.clone(),
            keyserver_token: s.keyserver_token.clone(),
            online_only: text_begins(s.key_source.as_str(), "Online"),
            local_only: text_begins(s.key_source.as_str(), "Local"),
        }
    }
}

impl Default for KeyConfig {
    /// No source at all.
    fn default() -> (r: Self)
        ensures
            r.keydb_path@.len() == 0,
            r.keyserver_url@.len() == 0,
            r.keyserver_token@.len() == 0,
            !r.online_only,
            !r.local_only,
    {
        KeyConfig {
            keydb_path: String::new(),
            keyserver_url: String::new(),
            keyserver_token: String::new(),
            online_only: false,
            local_only: false,
        }
    }
}

/// The key sources that are consulted.
#[derive(Clone, Debug)]
pub struct KeyParams {
    pub keydb_path: Option<String>,
    pub key_url: Option<String>,
    pub key_auth: Option<String>,
    pub online_only: bool,
}

/// `s` holds nothing but white space.
pub open spec fn is_blank(s: Seq<char>) -> bool {
    trimmed(s, CharClass::White).len() == 0
}

/// Whether `s` holds nothing but white space.
pub fn blank(s: &str) -> (r: bool)
    ensures
        r == is_blank(s@),
{
    trim_text(s).as_str().is_empty()
}

/// The database, the online service and the token for it, as far as they are
/// consulted.
pub open spec fn key_sources(keys: KeyConfig, expanded_path: Seq<char>) -> (
    Option<Seq<char>>,
    Option<Seq<char>>,
    Option<Seq<char>>,
) {
    (
        if is_blank(keys.keydb_path@) {
            None
        } else {
            Some(expanded_path)
        },
        if keys.local_only || is_blank(keys.keyserver_url@) {
            None
        } else {
            Some(keys.keyserver_url@)
        },
        Some(keys.keyserver_token@),
    )
}

/// The key sources that are consulted. A source that is not set up is left out;
/// the online service is left out where only the local database may be asked,
/// even if it is set up. `expanded_path` is the path of the database with the
/// home directory filled in.
pub fn key_params(keys: &KeyConfig, expanded_path: &str) -> (r: KeyParams)
    ensures
        (opt_text(r.keydb_path), opt_text(r.key_url), opt_text(r.key_auth)) == key_sources(
            *keys,
            expanded_path@,
        ),
        r.online_only == keys.online_only,
{
    KeyParams {
        keydb_path: if blank(keys.keydb_path.as_str()) {
            None
        } else {
            Some(expanded_path.to_owned())
        },
        key_url: if !keys.local_only && !blank(keys.keyserver_url.as_str()) {
            Some(keys.keyserver_url.clone())
        } else {
            None
        },
        key_auth: Some(keys.keyserver_token.clone()),
        online_only: keys.online_only,
    }
}

/// Which streams of each title are kept.
#[derive(Clone, Debug, PartialEq, Eq)]
pub enum TitleStreams {
    /// Nobody said anything about single titles.
    Unspecified,
    /// What was ticked, by title: audio and subtitle streams. A title with
    /// empty lists keeps nothing.
    PerTitle(Vec<(usize, Vec<u16>, Vec<u16>)>),
}

/// What was ticked for title `t`, in the first entry at position `i` or later
/// that is about it.
pub open spec fn ticked(entries: Seq<(usize, Vec<u16>, Vec<u16>)>, t: usize, i: int) -> Option<
    (Seq<u16>, Seq<u16>),
>
    decreases entries.len() - i,
{
    if i < 0 || i >= entries.len() {
        None
    } else if entries[i].0 == t {
        Some((entries[i].1@, entries[i].2@))
    } else {
        ticked(entries, t, i + 1)
    }
}

impl TitleStreams {
    /// What was ticked for a title.
    pub open spec fn of_title(self, title: Option<usize>) -> Option<(Seq<u16>, Seq<u16>)> {
        match (self, title) {
            (TitleStreams::PerTitle(per), Some(t)) => ticked(per@, t, 0),
            _ => None,
        }
    }

    /// What was ticked for a title; nothing where nobody said anything about
    /// it.
    pub fn for_title(&self, title: Option<usize>) -> (r: Option<(&[u16], &[u16])>)
        ensures
            match r {
                Some((a, s)) => self.of_title(title) == Some((a@, s@)),
                None => self.of_title(title) is None,
            },
    {
        match (self, title) {
            (TitleStreams::PerTitle(per), Some(t)) => {
                for i in 0..per.len()
                    invariant
                        self.of_title(title) == ticked(per@, t, i as int),
                {
                    if per[i].0 == t {
                        return Some((per[i].1.as_slice(), per[i].2.as_slice()));
                    }
                }
                None
            },
            _ => None,
        }
    }
}

/// What is asked of a rip.
#[derive(Clone, Debug)]
pub struct RipRequest {
    pub source: String,
    pub dest_dir: String,
    pub titles: Vec<usize>,
    /// What the title numbers stood for when they were picked, by number.
    pub title_ids: Vec<TitleIdentity>,
    pub format: String,
    pub audio_pids: Vec<u16>,
    pub sub_pids: Vec<u16>,
    pub title_pids: TitleStreams,
    /// Streams were picked at all.
    pub explicit_streams: bool,
    /// Keep what is encrypted as it is.
    pub raw: bool,
    /// Overwrite what is there.
    pub force: bool,
    pub filename_template: String,
    /// How many threads decrypt; nought leaves that open.
    pub decrypt_threads: usize,
    pub multipass: bool,
    pub max_passes: u32,
    pub abort_lost_secs: u64,
    pub keep_iso: bool,
    pub auto_eject: bool,
    pub keys: KeyConfig,
}

/// Which streams of a kind are kept.
#[derive(Clone, Debug)]
pub enum PidFilter {
    All,
    Only(Vec<u16>),
}

/// Which streams are kept.
#[derive(Clone, Debug)]
pub struct StreamSelection {
    pub audio: PidFilter,
    pub subtitle: PidFilter,
}

/// The streams that a filter keeps; none where it keeps all.
pub open spec fn kept(f: PidFilter) -> Option<Seq<u16>> {
    match f {
        PidFilter::All => None,
        PidFilter::Only(v) => Some(v@),
    }
}

/// The streams of a title that a request keeps: its own ticks, where there are
/// any, or else those for all titles. Without a choice all are kept.
pub open spec fn selected_streams(req: RipRequest, title: Option<usize>) -> (
    Option<Seq<u16>>,
    Option<Seq<u16>>,
) {
    if !req.explicit_streams {
        (None, None)
    } else {
        match req.title_pids.of_title(title) {
            Some((a, s)) => (Some(a), Some(s)),
            None => (Some(req.audio_pids@), Some(req.sub_pids@)),
        }
    }
}

/// The streams of a title that a request keeps.
pub fn stream_selection_for(req: &RipRequest, title: Option<usize>) -> (r: StreamSelection)
    ensures
        (kept(r.audio), kept(r.subtitle)) == selected_streams(*req, title),
{
    if !req.explicit_streams {
        return StreamSelection { audio: PidFilter::All, subtitle: PidFilter::All };
    }
    match req.title_pids.for_title(title) {
        Some((a, s)) => StreamSelection {
            audio: PidFilter::Only(vstd::slice::slice_to_vec(a)),
            subtitle: PidFilter::Only(vstd::slice::slice_to_vec(s)),
        },
        None => StreamSelection {
            audio: PidFilter::Only(vstd::slice::slice_to_vec(req.audio_pids.as_slice())),
            subtitle: PidFilter::Only(vstd::slice::slice_to_vec(req.sub_pids.as_slice())),
        },
    }
}

/// Law: what was unticked under a title stays out of it, whatever is ticked
/// under another: a title with ticks of its own keeps exactly those.
pub proof fn law_own_ticks_win(req: RipRequest, t: usize, audio: Seq<u16>, subtitles: Seq<u16>)
    requires
        req.explicit_streams,
        req.title_pids.of_title(Some(t)) == Some((audio, subtitles)),
    ensures
        selected_streams(req, Some(t)) == (Some(audio), Some(subtitles)),
{
}

/// Law: without a choice every title keeps every stream, whatever is ticked.
pub proof fn law_untouched_selection_keeps_all(req: RipRequest, title: Option<usize>)
    requires
        !req.explicit_streams,
    ensures
        selected_streams(req, title) == (None::<Seq<u16>>, None::<Seq<u16>>),
{
}

/// All that was ticked by title.
pub open spec fn all_ticks(t: TitleStreams) -> Option<Seq<(usize, Seq<u16>, Seq<u16>)>> {
    match t {
        TitleStreams::Unspecified => None,
        TitleStreams::PerTitle(per) => Some(tick_texts(per@)),
    }
}

/// The entries of a list of ticks.
pub open spec fn tick_texts(per: Seq<(usize, Vec<u16>, Vec<u16>)>) -> Seq<
    (usize, Seq<u16>, Seq<u16>),
> {
    per.map_values(|e: (usize, Vec<u16>, Vec<u16>)| (e.0, e.1@, e.2@))
}

fn copy_ticks(t: &TitleStreams) -> (r: TitleStreams)
    ensures
        all_ticks(r) == all_ticks(*t),
{
    match t {
        TitleStreams::Unspecified => TitleStreams::Unspecified,
        TitleStreams::PerTitle(per) => {
            let mut out: Vec<(usize, Vec<u16>, Vec<u16>)> = Vec::new();
            let ghost wanted = tick_texts(per@);
            assert(tick_texts(out@) =~= wanted.take(0));
            for i in 0..per.len()
                invariant
                    wanted == tick_texts(per@),
                    tick_texts(out@) == wanted.take(i as int),
            {
                let ghost before = tick_texts(out@);
                let audio = vstd::slice::slice_to_vec(per[i].1.as_slice());
                let subtitles = vstd::slice::slice_to_vec(per[i].2.as_slice());
                let title: usize = per[i].0;
                out.push((title, audio, subtitles));
                assert(tick_texts(out@) =~= before.push((title, audio@, subtitles@)));
                assert(wanted[i as int] == (title, audio@, subtitles@));
                assert(tick_texts(out@) =~= wanted.take(i + 1));
            }
            assert(wanted.take(per@.len() as int) =~= wanted);
            TitleStreams::PerTitle(out)
        },
    }
}

/// `r` asks the same as `req`, but of these titles of this image, whose numbers
/// were found there and stand for nothing else.
pub open spec fn is_staged(r: RipRequest, req: RipRequest, iso: Seq<char>, titles: Seq<usize>) -> bool {
    &&& r.source@ == iso
    &&& r.titles@ == titles
    &&& r.title_ids@.len() == 0
    &&& r.dest_dir@ == req.dest_dir@
    &&& r.format@ == req.format@
    &&& r.audio_pids@ == req.audio_pids@
    &&& r.sub_pids@ == req.sub_pids@
    &&& all_ticks(r.title_pids) == all_ticks(req.title_pids)
    &&& r.explicit_streams == req.explicit_streams
    &&& r.raw == req.raw
    &&& r.force == req.force
    &&& r.filename_template@ == req.filename_template@
    &&& r.decrypt_threads == req.decrypt_threads
    &&& r.multipass == req.multipass
    &&& r.max_passes == req.max_passes
    &&& r.abort_lost_secs == req.abort_lost_secs
    &&& r.keep_iso == req.keep_iso
    &&& r.auto_eject == req.auto_eject
    &&& r.keys.keydb_path@ == req.keys.keydb_path@
    &&& r.keys.keyserver_url@ == req.keys.keyserver_url@
    &&& r.keys.keyserver_token@ == req.keys.keyserver_token@
    &&& r.keys.online_only == req.keys.online_only
    &&& r.keys.local_only == req.keys.local_only
}

/// What is asked of the rip of a recovered image: what was asked of the drive,
/// with the same keys, but for these titles. What the numbers stood for on the
/// drive is left behind: they have just been found anew in the image.
pub fn staged_request(req: &RipRequest, iso: String, titles: Vec<usize>) -> (r: RipRequest)
    ensures
        is_staged(r, *req, iso@, titles@),
{
    RipRequest {
        source: iso,
        dest_dir: req.dest_dir.clone(),
        titles,
        title_ids: Vec::new(),
        format: req.format.clone(),
        audio_pids: vstd::slice::slice_to_vec(req.audio_pids.as_slice()),
        sub_pids: vstd::slice::slice_to_vec(req.sub_pids.as_slice()),
        title_pids: copy_ticks(&req.title_pids),
        explicit_streams: req.explicit_streams,
        raw: req.raw,
        force: req.force,
        filename_template: req.filename_template.clone(),
        decrypt_threads: req.decrypt_threads,
        multipass: req.multipass,
        max_passes: req.max_passes,
        abort_lost_secs: req.abort_lost_secs,
        keep_iso: req.keep_iso,
        auto_eject: req.auto_eject,
        keys: KeyConfig {
            keydb_path: req.keys.keydb_path.clone(),
            keyserver_url: req.keys.keyserver_url.clone(),
            keyserver_token: req.keys.keyserver_token.clone(),
            online_only: req.keys.online_only,
            local_only: req.keys.local_only,
        },
    }
}

proof fn lemma_ticked_by_text(
    a: Seq<(usize, Vec<u16>, Vec<u16>)>,
    b: Seq<(usize, Vec<u16>, Vec<u16>)>,
    t: usize,
    i: int,
)
    requires
        tick_texts(a) == tick_texts(b),
        0 <= i,
    ensures
        ticked(a, t, i) == ticked(b, t, i),
    decreases a.len() - i,
{
    assert(a.len() == tick_texts(a).len() && b.len() == tick_texts(b).len());
    if i < a.len() {
        assert(tick_texts(a)[i] == (a[i].0, a[i].1@, a[i].2@));
        assert(tick_texts(b)[i] == (b[i].0, b[i].1@, b[i].2@));
        lemma_ticked_by_text(a, b, t, i + 1);
    }
}

/// Law: a rip by way of a recovered image keeps the streams that the rip off the
/// drive would keep.
pub proof fn law_staged_rip_keeps_the_same_streams(
    r: RipRequest,
    req: RipRequest,
    iso: Seq<char>,
    titles: Seq<usize>,
    title: Option<usize>,
)
    requires
        is_staged(r, req, iso, titles),
    ensures
        selected_streams(r, title) == selected_streams(req, title),
{
    match (r.title_pids, req.title_pids, title) {
        (TitleStreams::PerTitle(a), TitleStreams::PerTitle(b), Some(t)) => {
            lemma_ticked_by_text(a@, b@, t, 0);
        },
        _ => {},
    }
}

/// How titles are written.
#[derive(Clone, Debug)]
pub struct MuxOptions {
    pub skip_errors: bool,
    pub batch_sectors: u16,
    pub raw: bool,
    pub selection: StreamSelection,
    pub send_deadline_secs: Option<u64>,
}

/// How titles are written. Streams are chosen where the source is opened.
pub fn mux_opts(req: &RipRequest) -> (r: MuxOptions)
    ensures
        !r.skip_errors,
        r.batch_sectors == 64,
        r.raw == req.raw,
        kept(r.selection.audio) is None,
        kept(r.selection.subtitle) is None,
        r.send_deadline_secs == Some(60u64),
{
    MuxOptions {
        skip_errors: false,
        batch_sectors: 64,
        raw: req.raw,
        selection: StreamSelection { audio: PidFilter::All, subtitle: PidFilter::All },
        send_deadline_secs: Some(60),
    }
}

/// How one title is written straight off a drive: as any other, but with its
/// own streams.
pub fn title_session_mux_opts(req: &RipRequest, idx: usize) -> (r: MuxOptions)
    ensures
        !r.skip_errors,
        r.batch_sectors == 64,
        r.raw == req.raw,
        (kept(r.selection.audio), kept(r.selection.subtitle)) == selected_streams(*req, Some(idx)),
        r.send_deadline_secs == Some(60u64),
{
    let mut o = mux_opts(req);
    o.selection = stream_selection_for(req, Some(idx));
    o
}

/// How a source is opened for one title.
#[derive(Clone, Debug)]
pub struct InputOptions {
    pub title_index: Option<usize>,
    pub unit_keys: Vec<(u32, Vec<u8>)>,
    pub selection: StreamSelection,
}

/// The unit keys of a disc.
pub open spec fn unit_keys_of(aacs: Option<AacsState>) -> Seq<(u32, Seq<u8>)> {
    match aacs {
        Some(a) => key_values(a.unit_keys@),
        None => Seq::empty(),
    }
}

/// The numbers and contents of a list of keys.
pub open spec fn key_values(keys: Seq<(u32, Vec<u8>)>) -> Seq<(u32, Seq<u8>)> {
    keys.map_values(|k: (u32, Vec<u8>)| (k.0, k.1@))
}

/// How a source is opened for one title: which title it is, the keys that open
/// it and its own streams.
pub fn title_input_options(disc: &Disc, req: &RipRequest, idx: usize) -> (r: InputOptions)
    ensures
        r.title_index == Some(idx),
        key_values(r.unit_keys@) == unit_keys_of(disc.aacs),
        (kept(r.selection.audio), kept(r.selection.subtitle)) == selected_streams(*req, Some(idx)),
{
    let mut unit_keys: Vec<(u32, Vec<u8>)> = Vec::new();
    match &disc.aacs {
        Some(a) => {
            let ghost wanted = key_values(a.unit_keys@);
            for i in 0..a.unit_keys.len()
                invariant
                    wanted == key_values(a.unit_keys@),
                    key_values(unit_keys@) == wanted.take(i as int),
            {
                let ghost before = key_values(unit_keys@);
                let key = vstd::slice::slice_to_vec(a.unit_keys[i].1.as_slice());
                unit_keys.push((a.unit_keys[i].0, key));
                assert(key_values(unit_keys@) =~= before.push((a.unit_keys@[i as int].0, key@)));
                assert(wanted[i as int] == (a.unit_keys@[i as int].0, key@));
                assert(key_values(unit_keys@) =~= wanted.take(i + 1));
            }
            assert(wanted.take(a.unit_keys@.len() as int) =~= wanted);
        },
        None => {
            assert(key_values(unit_keys@) =~= Seq::empty());
        },
    }
    InputOptions {
        title_index: Some(idx),
        unit_keys,
        selection: stream_selection_for(req, Some(idx)),
    }
}

/// How far a run is.
#[derive(Clone, Copy, Debug, PartialEq, Eq, Structural)]
pub struct Prog {
    pub bytes_done: u64,
    pub bytes_total: u64,
    pub speed_bps: u64,
    /// Not known at first.
    pub eta_secs: Option<u64>,
    pub sectors_bad: u64,
}

impl Default for Prog {
    /// Nothing done yet.
    fn default() -> (r: Self)
        ensures
            r == (Prog {
                bytes_done: 0,
                bytes_total: 0,
                speed_bps: 0,
                eta_secs: None,
                sectors_bad: 0,
            }),
    {
        Prog { bytes_done: 0, bytes_total: 0, speed_bps: 0, eta_secs: None, sectors_bad: 0 }
    }
}

/// What a run that is over was.
#[derive(Clone, Copy, Debug, PartialEq, Eq, Structural)]
pub enum RunOutcome {
    /// It made what it was asked for.
    Completed,
    /// The user stopped it.
    Cancelled,
    /// It did not make what it was asked for.
    Failed,
}

impl Default for RunOutcome {
    /// As long as nothing else is known.
    fn default() -> (r: Self)
        ensures
            r == RunOutcome::Completed,
    {
        RunOutcome::Completed
    }
}

/// What the worker of a run tells.
#[derive(Clone, Debug)]
pub struct RunState {
    pub prog: Prog,
    pub lines: Vec<String>,
    pub cancel: bool,
    pub finished: bool,
    pub titles_done: usize,
    pub summary: String,
    /// What the summary is a summary of. The two are written together.
    pub outcome: RunOutcome,
}

impl Default for RunState {
    /// A run that has not begun.
    fn default() -> (r: Self)
        ensures
            r.lines@.len() == 0,
            !r.cancel,
            !r.finished,
            r.titles_done == 0,
            r.summary@.len() == 0,
            r.outcome == RunOutcome::Completed,
            r.prog == (Prog {
                bytes_done: 0,
                bytes_total: 0,
                speed_bps: 0,
                eta_secs: None,
                sectors_bad: 0,
            }),
    {
        RunState {
            prog: Prog::default(),
            lines: Vec::new(),
            cancel: false,
            finished: false,
            titles_done: 0,
            summary: String::new(),
            outcome: RunOutcome::default(),
        }
    }
}

/// What a result is, when the run may have been stopped.
pub open spec fn verdict(ok: bool, cancelled: bool) -> RunOutcome {
    if !ok {
        RunOutcome::Failed
    } else if cancelled {
        RunOutcome::Cancelled
    } else {
        RunOutcome::Completed
    }
}

/// What a [`RunState`] says.
pub struct RunText {
    pub prog: Prog,
    pub lines: Seq<Seq<char>>,
    pub cancel: bool,
    pub finished: bool,
    pub titles_done: usize,
    pub summary: Seq<char>,
    pub outcome: RunOutcome,
}

impl View for RunState {
    type V = RunText;

    open spec fn view(&self) -> RunText {
        RunText {
            prog: self.prog,
            lines: texts(self.lines@),
            cancel: self.cancel,
            finished: self.finished,
            titles_done: self.titles_done,
            summary: self.summary@,
            outcome: self.outcome,
        }
    }
}

/// What an optional result says.
pub open spec fn opt_result(o: Option<Result<String, String>>) -> Option<
    Result<Seq<char>, Seq<char>>,
> {
    match o {
        Some(r) => Some(result_text(r)),
        None => None,
    }
}

/// A run that came to a result. An error is logged too.
pub open spec fn concluded(s: RunText, result: Result<Seq<char>, Seq<char>>) -> RunText {
    RunText {
        outcome: verdict(result is Ok, s.cancel),
        summary: match result {
            Ok(text) => text,
            Err(e) => e,
        },
        lines: match result {
            Ok(_) => s.lines,
            Err(e) => s.lines.push(e),
        },
        ..s
    }
}

/// A run that is over. One that said nothing failed.
pub open spec fn signalled(s: RunText, nothing: Seq<char>) -> RunText {
    RunText {
        finished: true,
        summary: if s.summary.len() == 0 {
            nothing
        } else {
            s.summary
        },
        outcome: if s.summary.len() == 0 {
            RunOutcome::Failed
        } else {
            s.outcome
        },
        ..s
    }
}

/// A run whose worker has ended, with a result or, where it died, without one.
pub open spec fn ended(
    s: RunText,
    result: Option<Result<Seq<char>, Seq<char>>>,
    nothing: Seq<char>,
) -> RunText {
    match result {
        Some(r) => signalled(concluded(s, r), nothing),
        None => signalled(s, nothing),
    }
}

/// Law: however the worker of a run ends, the run is over, something is said of
/// it, and what is said is what the worker came to: an error makes it a failure
/// and is logged, a success makes it completed or, where somebody stopped it,
/// stopped, and a worker that died makes it a failure.
pub proof fn law_every_run_ends(
    before: RunText,
    result: Option<Result<Seq<char>, Seq<char>>>,
    nothing: Seq<char>,
)
    requires
        before.summary.len() == 0,
        nothing.len() > 0,
    ensures
        ({
            let after = ended(before, result, nothing);
            &&& after.finished
            &&& after.summary.len() > 0
            &&& match result {
                Some(Ok(s)) => after.lines == before.lines && (s.len() > 0 ==> after.summary == s
                    && after.outcome == (if before.cancel {
                    RunOutcome::Cancelled
                } else {
                    RunOutcome::Completed
                })),
                Some(Err(e)) => after.outcome == RunOutcome::Failed && after.lines
                    == before.lines.push(e) && (e.len() > 0 ==> after.summary == e),
                None => after.outcome == RunOutcome::Failed && after.lines == before.lines
                    && after.summary == nothing,
            }
            &&& after.cancel == before.cancel
            &&& after.prog == before.prog
            &&& after.titles_done == before.titles_done
        }),
{
}

/// Law: a run counts as completed only if its worker came to a result, the
/// result was a success and nobody stopped it; and as stopped only if it was a
/// success and somebody did.
pub proof fn law_only_success_completes(
    before: RunText,
    result: Option<Result<Seq<char>, Seq<char>>>,
    nothing: Seq<char>,
)
    requires
        before.summary.len() == 0,
    ensures
        ended(before, result, nothing).outcome == RunOutcome::Completed ==> !before.cancel && (
        result matches Some(Ok(_))),
        ended(before, result, nothing).outcome == RunOutcome::Cancelled ==> before.cancel && (
        result matches Some(Ok(_))),
{
}

impl RunState {
    /// What the run was, as far as it is known.
    pub fn outcome_now(&self) -> (r: RunOutcome)
        ensures
            r == self.outcome,
    {
        self.outcome
    }

    /// What is said of the run, as far as it is known.
    pub fn summary_now(&self) -> (r: String)
        ensures
            r@ == self.summary@,
    {
        self.summary.clone()
    }

    /// Adds a line to what the run has told.
    pub fn log(&mut self, line: &str)
        ensures
            texts(final(self).lines@) == texts(old(self).lines@).push(line@),
            final(self).prog == old(self).prog,
            final(self).cancel == old(self).cancel,
            final(self).finished == old(self).finished,
            final(self).titles_done == old(self).titles_done,
            final(self).summary@ == old(self).summary@,
            final(self).outcome == old(self).outcome,
    {
        push_text(&mut self.lines, line.to_owned());
    }

    /// Says how far the run is.
    pub fn progress(&mut self, p: Prog)
        ensures
            final(self).prog == p,
            final(self).lines == old(self).lines,
            final(self).cancel == old(self).cancel,
            final(self).finished == old(self).finished,
            final(self).titles_done == old(self).titles_done,
            final(self).summary == old(self).summary,
            final(self).outcome == old(self).outcome,
    {
        self.prog = p;
    }

    /// Counts one more title as done.
    pub fn title_done(&mut self)
        requires
            old(self).titles_done < usize::MAX,
        ensures
            final(self).titles_done == old(self).titles_done + 1,
            final(self).prog == old(self).prog,
            final(self).lines == old(self).lines,
            final(self).cancel == old(self).cancel,
            final(self).finished == old(self).finished,
            final(self).summary == old(self).summary,
            final(self).outcome == old(self).outcome,
    {
        self.titles_done = self.titles_done + 1;
    }

    /// Writes down how the run ended: what is said of it and what it was, both
    /// at once. An error is logged too.
    pub fn conclude(&mut self, result: Result<String, String>)
        ensures
            final(self)@ == concluded(old(self)@, result_text(result)),
    {
        match result {
            Ok(s) => {
                self.outcome = if self.cancel {
                    RunOutcome::Cancelled
                } else {
                    RunOutcome::Completed
                };
                self.summary = s;
            },
            Err(e) => {
                push_text(&mut self.lines, e.clone());
                self.outcome = RunOutcome::Failed;
                self.summary = e;
            },
        }
    }

    /// Marks the run as over, however its worker came to an end. A run that
    /// said nothing failed.
    pub fn signal_done(&mut self, nothing: &str)
        ensures
            final(self)@ == signalled(old(self)@, nothing@),
    {
        if self.summary.as_str().is_empty() {
            self.summary = nothing.to_owned();
            self.outcome = RunOutcome::Failed;
        }
        self.finished = true;
    }

    /// Writes down that the worker has ended, with a result or, where it died,
    /// without one.
    pub fn end_run(&mut self, result: Option<Result<String, String>>, nothing: &str)
        ensures
            final(self)@ == ended(old(self)@, opt_result(result), nothing@),
    {
        match result {
            Some(r) => {
                self.conclude(r);
            },
            None => {},
        }
        self.signal_done(nothing);
    }
}

/// What a quit does while a cancelled worker winds down.
#[derive(Clone, Copy, Debug, PartialEq, Eq, Structural)]
pub enum QuitStep {
    /// The worker is done: its output is closed.
    Exit,
    /// The time is up: leave anyway.
    GiveUp,
    /// Look again in a while.
    Wait,
}

/// How long a quit waits for a cancelled rip, in milliseconds.
pub const QUIT_GRACE_MS: u64 = 5000;

/// How long a quit waits before it looks again, in milliseconds.
pub const QUIT_POLL_MS: u64 = 20;

/// What a quit does, `waited_ms` after it began: a worker that is done is never
/// waited for, and one that is not, no longer than `grace_ms`.
pub fn await_worker_exit(finished: bool, waited_ms: u64, grace_ms: u64) -> (r: QuitStep)
    ensures
        r == (if finished {
            QuitStep::Exit
        } else if waited_ms >= grace_ms {
            QuitStep::GiveUp
        } else {
            QuitStep::Wait
        }),
{
    if finished {
        QuitStep::Exit
    } else if waited_ms >= grace_ms {
        QuitStep::GiveUp
    } else {
        QuitStep::Wait
    }
}

} // verus!
