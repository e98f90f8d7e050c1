//! What a rip does next. The caller performs what it is told to and reports
//! back; every decision in between is made here.

use crate::cli_entry::opt_text;
use crate::engine::identity::{
    TitleIdentity, TitleMark, marks, needs_rescan, remap_titles_by_identity, remapped_selection,
    selection_holds, verify_selection_identity,
};
use crate::engine::naming::{
    OutKind, Sink, basename_of, demux_needs_subdirs, device_of, disc_device, extract_target,
    folder_of, image_of, image_target, is_container, is_disc_source, is_drive, is_stream_source,
    out_kind, scheme_of, sink_of, source_scheme, title_basename, title_file, title_file_path,
};
use crate::engine::request::RipRequest;
use crate::engine::summary::{
    CopyResult, MuxOutcome, Recovery, RipOutcome, damage_note, damage_text, folder_writable,
    image_summary, loss_lines, lossy_lines, occupied_text, outcome_summary, result_text,
    stream_summary, summarize_image_decrypt, summarize_outcome, summarize_stream,
};
use crate::paths::{file_stem, path_stem};
use crate::strings::Catalog;
use crate::text::{
    dec, dec_text, join_texts, joined, plus_if, push_dec, push_text, push_texts, texts,
};
use vstd::prelude::*;
use vstd::string::*;

verus! {

/// What a rip off a drive does with the drive.
#[derive(Clone, Copy, Debug, PartialEq, Eq, Structural)]
pub enum DiscPlan {
    /// Read the whole disc into an image first, which is what was asked for or
    /// only a step to it.
    Recover { deliver_iso: bool },
    /// Write each title straight off the drive.
    PerTitle,
}

/// What a rip off a drive does with the drive.
pub open spec fn plan_for(kind: Sink, multipass: bool) -> DiscPlan {
    if kind is IsoImage || multipass {
        DiscPlan::Recover { deliver_iso: kind is IsoImage }
    } else {
        DiscPlan::PerTitle
    }
}

/// What a rip off a drive does with the drive: an image of the disc and more
/// than one pass each need the whole disc.
pub fn recovery_plan(kind: OutKind, multipass: bool) -> (r: DiscPlan)
    ensures
        r == plan_for(kind@, multipass),
{
    let deliver_iso = match kind {
        OutKind::IsoImage => true,
        _ => false,
    };
    if deliver_iso || multipass {
        DiscPlan::Recover { deliver_iso }
    } else {
        DiscPlan::PerTitle
    }
}

/// Why a decrypted image cannot come out of several passes.
pub const RAW_REFUSAL: &'static str = "A multi-pass recovery reads the whole disc, so the image it writes is encrypted. For a decrypted ISO, set Rip mode to 'Single pass'; to keep the multi-pass recovery, tick 'Keep encrypted (raw)'.";

/// Whether a recovery keeps what it reads encrypted.
pub open spec fn raw_for(multipass: bool, want_iso: bool, user_raw: bool) -> Result<bool, Seq<char>> {
    if !multipass {
        Ok(user_raw)
    } else if !want_iso || user_raw {
        Ok(true)
    } else {
        Err(RAW_REFUSAL@)
    }
}

/// Whether a recovery keeps what it reads encrypted. Several passes always do;
/// a decrypted image of several passes is refused.
pub fn recovery_raw(multipass: bool, want_iso: bool, user_raw: bool) -> (r: Result<bool, String>)
    ensures
        match r {
            Ok(b) => raw_for(multipass, want_iso, user_raw) == Ok::<bool, Seq<char>>(b),
            Err(e) => raw_for(multipass, want_iso, user_raw) == Err::<bool, Seq<char>>(e@),
        },
{
    if !multipass {
        return Ok(user_raw);
    }
    if !want_iso {
        return Ok(true);
    }
    if user_raw {
        return Ok(true);
    }
    Err(RAW_REFUSAL.to_owned())
}

/// Law: several passes never write a decrypted image: either what they read
/// stays encrypted, or they do not run.
pub proof fn law_multipass_is_raw(want_iso: bool, user_raw: bool)
    ensures
        raw_for(true, want_iso, user_raw) matches Ok(raw) ==> raw,
{
}

/// Whether a recovery read nothing.
pub fn recovery_produced_no_data(good_bytes: u64) -> (r: bool)
    ensures
        r == (good_bytes == 0),
{
    good_bytes == 0
}

/// Whether the image that titles were muxed from is removed: only if it is not
/// to be kept, they were muxed, and nobody stopped that.
pub fn should_delete_staging_iso(keep_iso: bool, mux_succeeded: bool, cancelled: bool) -> (r: bool)
    ensures
        r == (!keep_iso && mux_succeeded && !cancelled),
{
    !keep_iso && mux_succeeded && !cancelled
}

/// What a scan found: the drive, the label of the disc, what its titles are and
/// how large they are.
#[derive(Clone, Debug)]
pub struct SourceScan {
    pub device: String,
    pub volume_id: String,
    pub ids: Vec<TitleIdentity>,
    pub sizes: Vec<u64>,
}

/// What a [`SourceScan`] says.
pub struct ScanText {
    pub device: Seq<char>,
    pub volume_id: Seq<char>,
    pub ids: Seq<TitleMark>,
    pub sizes: Seq<u64>,
}

impl View for SourceScan {
    type V = ScanText;

    open spec fn view(&self) -> ScanText {
        ScanText {
            device: self.device@,
            volume_id: self.volume_id@,
            ids: marks(self.ids@),
            sizes: self.sizes@,
        }
    }
}

/// What a disc is called in the names of its files.
pub open spec fn disc_label(volume_id: Seq<char>) -> Seq<char> {
    if volume_id.len() == 0 {
        "disc"@
    } else {
        volume_id
    }
}

fn label_of(scan: &SourceScan) -> (r: String)
    ensures
        r@ == disc_label(scan@.volume_id),
{
    if scan.volume_id.as_str().is_empty() {
        "disc".to_owned()
    } else {
        scan.volume_id.clone()
    }
}

/// Why a drive was not scanned.
#[derive(Clone, Debug)]
pub struct ScanFailure {
    /// There is no drive.
    pub no_drive: bool,
    pub text: String,
}

/// What the caller reports.
#[derive(Debug)]
pub enum Event {
    Begin,
    /// The destination was made, or not.
    DirMade(Result<(), String>),
    DriveScanned(Result<SourceScan, ScanFailure>),
    /// An image or a folder was scanned, or there was an error with this code.
    ImageScanned(Result<SourceScan, u16>),
    /// Whether there is something in the folder that was asked about.
    FolderChecked { non_empty: bool },
    Extracted(Result<String, String>),
    /// Whether the destination is the source.
    Compared { same: bool },
    Decrypted(Result<CopyResult, String>),
    Recovered(Result<Recovery, String>),
    Ejected,
    Rescanned(Result<Vec<TitleIdentity>, String>),
    /// The rip of the recovered image is over.
    ImageRun { result: Result<String, String>, cancelled: bool },
    Removed,
    Selected(Vec<usize>),
    TitlesDone { outcome: RipOutcome, written: usize, partial: usize },
    Muxed(Result<MuxOutcome, String>),
    /// The work could not be begun.
    Broken(String),
}

/// What the caller is to do.
#[derive(Debug)]
pub enum Action {
    MakeDir(String),
    /// Open, lock and scan the drive, this one or the first.
    ScanDrive(Option<String>),
    ScanImage,
    CheckFolder(String),
    Extract(String),
    Compare(String),
    Decrypt { dest: String, raw: bool },
    Recover { iso: String, raw: bool, max_passes: u32, abort_lost_secs: u64, is_iso: bool },
    Eject(String),
    Rescan(String),
    /// Rip these titles from the image.
    RunImage { iso: String, titles: Vec<usize> },
    Remove(String),
    SelectTitles,
    RunTitles { indices: Vec<usize>, label: String, multi: bool, drive: bool },
    Mux { src_url: String, dest_url: String, target: String },
    Finish(Result<String, String>),
    /// Nothing: what was reported does not belong here.
    Wait,
}

/// What an [`Action`] says.
pub enum ActionText {
    MakeDir(Seq<char>),
    ScanDrive(Option<Seq<char>>),
    ScanImage,
    CheckFolder(Seq<char>),
    Extract(Seq<char>),
    Compare(Seq<char>),
    Decrypt { dest: Seq<char>, raw: bool },
    Recover { iso: Seq<char>, raw: bool, max_passes: u32, abort_lost_secs: u64, is_iso: bool },
    Eject(Seq<char>),
    Rescan(Seq<char>),
    RunImage { iso: Seq<char>, titles: Seq<usize> },
    Remove(Seq<char>),
    SelectTitles,
    RunTitles { indices: Seq<usize>, label: Seq<char>, multi: bool, drive: bool },
    Mux { src_url: Seq<char>, dest_url: Seq<char>, target: Seq<char> },
    Finish(Result<Seq<char>, Seq<char>>),
    Wait,
}

impl View for Action {
    type V = ActionText;

    open spec fn view(&self) -> ActionText {
        match *self {
            Action::MakeDir(d) => ActionText::MakeDir(d@),
            Action::ScanDrive(d) => ActionText::ScanDrive(opt_text(d)),
            Action::ScanImage => ActionText::ScanImage,
            Action::CheckFolder(d) => ActionText::CheckFolder(d@),
            Action::Extract(d) => ActionText::Extract(d@),
            Action::Compare(d) => ActionText::Compare(d@),
            Action::Decrypt { dest, raw } => ActionText::Decrypt { dest: dest@, raw },
            Action::Recover { iso, raw, max_passes, abort_lost_secs, is_iso } => ActionText::Recover {
                iso: iso@,
                raw,
                max_passes,
                abort_lost_secs,
                is_iso,
            },
            Action::Eject(d) => ActionText::Eject(d@),
            Action::Rescan(i) => ActionText::Rescan(i@),
            Action::RunImage { iso, titles } => ActionText::RunImage { iso: iso@, titles: titles@ },
            Action::Remove(p) => ActionText::Remove(p@),
            Action::SelectTitles => ActionText::SelectTitles,
            Action::RunTitles { indices, label, multi, drive } => ActionText::RunTitles {
                indices: indices@,
                label: label@,
                multi,
                drive,
            },
            Action::Mux { src_url, dest_url, target } => ActionText::Mux {
                src_url: src_url@,
                dest_url: dest_url@,
                target: target@,
            },
            Action::Finish(r) => ActionText::Finish(result_text(r)),
            Action::Wait => ActionText::Wait,
        }
    }
}

/// Where a rip stands: what it waits for, and what it needs to go on.
#[derive(Debug)]
pub enum Phase {
    Start,
    ContainerDir,
    Converting { target: String },
    ImageScan,
    FolderDir { dest: String },
    FolderCheck { dest: String, eject: Option<String> },
    Unpacking { eject: Option<String> },
    Comparing { dest: String },
    ImageDir { dest: String },
    Decrypting { dest: String },
    Dropping { result: Result<String, String> },
    Selecting { scan: SourceScan, drive: bool },
    TitlesDir { label: String, indices: Vec<usize> },
    Titles { eject: Option<String>, total: usize },
    DriveDir,
    DriveScan,
    Recovering { scan: SourceScan, iso: String },
    ReadDone { scan: SourceScan, iso: String, recovery: Recovery },
    Rescanning { scan: SourceScan, iso: String, note: String },
    MuxingStaged { iso: String, note: String },
    Ejecting { result: Result<String, String> },
    Over { result: Result<String, String> },
}

/// What a [`Phase`] says.
pub enum PhaseText {
    Start,
    ContainerDir,
    Converting { target: Seq<char> },
    ImageScan,
    FolderDir { dest: Seq<char> },
    FolderCheck { dest: Seq<char>, eject: Option<Seq<char>> },
    Unpacking { eject: Option<Seq<char>> },
    Comparing { dest: Seq<char> },
    ImageDir { dest: Seq<char> },
    Decrypting { dest: Seq<char> },
    Dropping { result: Result<Seq<char>, Seq<char>> },
    Selecting { scan: ScanText, drive: bool },
    TitlesDir { label: Seq<char>, indices: Seq<usize> },
    Titles { eject: Option<Seq<char>>, total: nat },
    DriveDir,
    DriveScan,
    Recovering { scan: ScanText, iso: Seq<char> },
    ReadDone { scan: ScanText, iso: Seq<char>, recovery: Recovery },
    Rescanning { scan: ScanText, iso: Seq<char>, note: Seq<char> },
    MuxingStaged { iso: Seq<char>, note: Seq<char> },
    Ejecting { result: Result<Seq<char>, Seq<char>> },
    Over { result: Result<Seq<char>, Seq<char>> },
}

impl View for Phase {
    type V = PhaseText;

    open spec fn view(&self) -> PhaseText {
        match *self {
            Phase::Start => PhaseText::Start,
            Phase::ContainerDir => PhaseText::ContainerDir,
            Phase::Converting { target } => PhaseText::Converting { target: target@ },
            Phase::ImageScan => PhaseText::ImageScan,
            Phase::FolderDir { dest } => PhaseText::FolderDir { dest: dest@ },
            Phase::FolderCheck { dest, eject } => PhaseText::FolderCheck {
                dest: dest@,
                eject: opt_text(eject),
            },
            Phase::Unpacking { eject } => PhaseText::Unpacking { eject: opt_text(eject) },
            Phase::Comparing { dest } => PhaseText::Comparing { dest: dest@ },
            Phase::ImageDir { dest } => PhaseText::ImageDir { dest: dest@ },
            Phase::Decrypting { dest } => PhaseText::Decrypting { dest: dest@ },
            Phase::Dropping { result } => PhaseText::Dropping { result: result_text(result) },
            Phase::Selecting { scan, drive } => PhaseText::Selecting { scan: scan@, drive },
            Phase::TitlesDir { label, indices } => PhaseText::TitlesDir {
                label: label@,
                indices: indices@,
            },
            Phase::Titles { eject, total } => PhaseText::Titles {
                eject: opt_text(eject),
                total: total as nat,
            },
            Phase::DriveDir => PhaseText::DriveDir,
            Phase::DriveScan => PhaseText::DriveScan,
            Phase::Recovering { scan, iso } => PhaseText::Recovering { scan: scan@, iso: iso@ },
            Phase::ReadDone { scan, iso, recovery } => PhaseText::ReadDone {
                scan: scan@,
                iso: iso@,
                recovery,
            },
            Phase::Rescanning { scan, iso, note } => PhaseText::Rescanning {
                scan: scan@,
                iso: iso@,
                note: note@,
            },
            Phase::MuxingStaged { iso, note } => PhaseText::MuxingStaged { iso: iso@, note: note@ },
            Phase::Ejecting { result } => PhaseText::Ejecting { result: result_text(result) },
            Phase::Over { result } => PhaseText::Over { result: result_text(result) },
        }
    }
}

/// Where a rip stands next, what is to be done and what is to be logged.
#[derive(Debug)]
pub struct Next {
    pub phase: Phase,
    pub action: Action,
    pub log: Vec<String>,
}

/// What a [`Next`] says.
pub struct NextText {
    pub phase: PhaseText,
    pub action: ActionText,
    pub log: Seq<Seq<char>>,
}

impl View for Next {
    type V = NextText;

    open spec fn view(&self) -> NextText {
        NextText { phase: self.phase@, action: self.action@, log: texts(self.log@) }
    }
}

/// A step without anything to log.
pub open spec fn quiet(phase: PhaseText, action: ActionText) -> NextText {
    NextText { phase, action, log: Seq::empty() }
}

fn quietly(phase: Phase, action: Action) -> (r: Next)
    ensures
        r@ == quiet(phase@, action@),
{
    let r = Next { phase, action, log: Vec::new() };
    assert(r@.log =~= Seq::empty());
    r
}

/// The end of a rip.
pub open spec fn finish(result: Result<Seq<char>, Seq<char>>) -> NextText {
    quiet(PhaseText::Over { result }, ActionText::Finish(result))
}

/// The same result again.
fn copy_result(r: &Result<String, String>) -> (c: Result<String, String>)
    ensures
        result_text(c) == result_text(*r),
{
    match r {
        Ok(s) => Ok(s.clone()),
        Err(s) => Err(s.clone()),
    }
}

fn finish_with(result: Result<String, String>) -> (r: Next)
    ensures
        r@ == finish(result_text(result)),
{
    let again = copy_result(&result);
    quietly(Phase::Over { result }, Action::Finish(again))
}

fn fail_with(text: String) -> (r: Next)
    ensures
        r@ == finish(Err(text@)),
{
    finish_with(Err(text))
}

/// One text behind another.
fn followed(a: &str, b: &str) -> (r: String)
    ensures
        r@ == a@ + b@,
{
    let mut s = a.to_owned();
    s.append(b);
    s
}

/// How a rip begins: a drive and a container need the destination first, an
/// image is scanned first.
pub open spec fn at_start(req: RipRequest) -> NextText {
    if is_drive(req.source@) {
        quiet(PhaseText::DriveDir, ActionText::MakeDir(req.dest_dir@))
    } else if is_container(req.source@) {
        quiet(PhaseText::ContainerDir, ActionText::MakeDir(req.dest_dir@))
    } else {
        quiet(PhaseText::ImageScan, ActionText::ScanImage)
    }
}

fn start(req: &RipRequest) -> (r: Next)
    ensures
        r@ == at_start(*req),
{
    if is_disc_source(req.source.as_str()) {
        quietly(Phase::DriveDir, Action::MakeDir(req.dest_dir.clone()))
    } else if is_stream_source(req.source.as_str()) {
        quietly(Phase::ContainerDir, Action::MakeDir(req.dest_dir.clone()))
    } else {
        quietly(Phase::ImageScan, Action::ScanImage)
    }
}

/// How many threads are to decrypt, where that is set; a container is not
/// decrypted.
pub fn pinned_threads(req: &RipRequest) -> (r: Option<usize>)
    ensures
        r == (if req.decrypt_threads > 0 && (is_drive(req.source@) || !is_container(req.source@)) {
            Some(req.decrypt_threads)
        } else {
            None
        }),
{
    if req.decrypt_threads > 0 && (is_disc_source(req.source.as_str()) || !is_stream_source(
        req.source.as_str(),
    )) {
        Some(req.decrypt_threads)
    } else {
        None
    }
}

/// What a container is converted to: the URL and what is shown of it.
pub open spec fn container_place(req: RipRequest) -> Option<(Seq<char>, Seq<char>)> {
    let name = match path_stem(req.source@) {
        Some(s) => s,
        None => "output"@,
    };
    match sink_of(req.format@) {
        Sink::File(scheme) => {
            let out = title_file(
                req.dest_dir@,
                basename_of(req.filename_template@, name, 1),
                scheme,
            );
            Some((scheme + "://"@ + out, out))
        },
        Sink::Demux(scheme) => {
            let dir = req.dest_dir@ + "/"@;
            Some((scheme + "://"@ + dir, dir + " (per-track files)"@))
        },
        _ => None,
    }
}

/// What is done with a container once there is a place for it.
pub open spec fn at_container(req: RipRequest) -> NextText {
    match container_place(req) {
        None => finish(
            Err("That output is for a disc source — open an ISO or disc to use it."@),
        ),
        Some((dest_url, target)) => NextText {
            phase: PhaseText::Converting { target },
            action: ActionText::Mux {
                src_url: scheme_of(req.source@) + "://"@ + req.source@,
                dest_url,
                target,
            },
            log: plus_if(
                Seq::empty(),
                req.explicit_streams,
                "Note: track selection is not applied to container sources yet — every track is kept."@,
            ),
        },
    }
}

fn container(req: &RipRequest) -> (r: Next)
    ensures
        r@ == at_container(*req),
{
    let name = match file_stem(req.source.as_str()) {
        Some(s) => s,
        None => "output".to_owned(),
    };
    let (dest_url, target) = match out_kind(req.format.as_str()) {
        OutKind::File(scheme) => {
            let base = title_basename(req.filename_template.as_str(), name.as_str(), 1);
            let out = title_file_path(req.dest_dir.as_str(), base.as_str(), scheme);
            let mut url = followed(scheme, "://");
            url.append(out.as_str());
            (url, out)
        },
        OutKind::Demux(scheme) => {
            let dir = followed(req.dest_dir.as_str(), "/");
            let mut url = followed(scheme, "://");
            url.append(dir.as_str());
            (url, followed(dir.as_str(), " (per-track files)"))
        },
        _ => {
            return fail_with(
                "That output is for a disc source — open an ISO or disc to use it.".to_owned(),
            );
        },
    };
    let mut src_url = followed(source_scheme(req.source.as_str()), "://");
    src_url.append(req.source.as_str());
    let mut log: Vec<String> = Vec::new();
    assert(texts(log@) =~= Seq::empty());
    if req.explicit_streams {
        push_text(
            &mut log,
            "Note: track selection is not applied to container sources yet — every track is kept.".to_owned(),
        );
    }
    Next {
        phase: Phase::Converting { target: target.clone() },
        action: Action::Mux { src_url, dest_url, target },
        log,
    }
}

/// What follows from a conversion.
pub open spec fn at_converted(
    c: Seq<(Seq<char>, Seq<char>)>,
    req: RipRequest,
    target: Seq<char>,
    result: Result<MuxOutcome, String>,
) -> NextText {
    match result {
        Err(e) => finish(Err("convert failed: "@ + e@)),
        Ok(o) => NextText {
            log: if o.completed {
                seq!["wrote "@ + target] + loss_lines(c, o, target)
            } else {
                seq!["cancelled — partial output kept: "@ + target]
            },
            ..finish(Ok(stream_summary(c, o, target, req.dest_dir@)))
        },
    }
}

fn converted(c: &Catalog, req: &RipRequest, target: &str, result: Result<MuxOutcome, String>) -> (r:
    Next)
    ensures
        r@ == at_converted(c@, *req, target@, result),
{
    match result {
        Err(e) => fail_with(followed("convert failed: ", e.as_str())),
        Ok(o) => {
            let mut next = finish_with(
                Ok(summarize_stream(c, &o, target, req.dest_dir.as_str())),
            );
            let mut log: Vec<String> = Vec::new();
            if o.completed {
                let wrote = followed("wrote ", target);
                push_text(&mut log, wrote);
                assert(texts(log@) =~= seq![wrote@]);
                push_texts(&mut log, lossy_lines(c, &o, target));
            } else {
                let kept = followed("cancelled — partial output kept: ", target);
                push_text(&mut log, kept);
                assert(texts(log@) =~= seq![kept@]);
            }
            next.log = log;
            next
        },
    }
}

/// What follows from the scan of an image or a folder.
pub open spec fn at_image(req: RipRequest, scan: ScanText) -> NextText {
    let label = disc_label(scan.volume_id);
    match sink_of(req.format@) {
        Sink::DecryptedFolder => quiet(
            PhaseText::FolderDir { dest: folder_of(req.dest_dir@, label) },
            ActionText::MakeDir(req.dest_dir@),
        ),
        Sink::IsoImage => quiet(
            PhaseText::Comparing { dest: image_of(req.dest_dir@, label) },
            ActionText::Compare(image_of(req.dest_dir@, label)),
        ),
        _ => match selection_holds(req.titles@, marks(req.title_ids@), scan.ids, 0) {
            Err(e) => finish(Err(e)),
            Ok(_) => quiet(
                PhaseText::Selecting { scan, drive: false },
                ActionText::SelectTitles,
            ),
        },
    }
}

fn image_scanned(req: &RipRequest, scan: SourceScan) -> (r: Next)
    ensures
        r@ == at_image(*req, scan@),
{
    let label = label_of(&scan);
    match out_kind(req.format.as_str()) {
        OutKind::DecryptedFolder => {
            let dest = extract_target(req.dest_dir.as_str(), label.as_str());
            quietly(Phase::FolderDir { dest }, Action::MakeDir(req.dest_dir.clone()))
        },
        OutKind::IsoImage => {
            let dest = image_target(req.dest_dir.as_str(), label.as_str());
            quietly(Phase::Comparing { dest: dest.clone() }, Action::Compare(dest))
        },
        _ => match verify_selection_identity(req.titles.as_slice(), &req.title_ids, &scan.ids) {
            Err(e) => fail_with(e),
            Ok(_) => quietly(Phase::Selecting { scan, drive: false }, Action::SelectTitles),
        },
    }
}

/// What follows from asking what is in a folder.
pub open spec fn at_folder(
    req: RipRequest,
    dest: Seq<char>,
    eject: Option<Seq<char>>,
    non_empty: bool,
) -> NextText {
    if !req.force && non_empty {
        ending(eject, Err(occupied_text(dest)))
    } else {
        NextText {
            phase: PhaseText::Unpacking { eject },
            action: ActionText::Extract(dest),
            log: seq!["extracting decrypted file tree → "@ + dest],
        }
    }
}

/// The end of a rip, after the disc is out where it is to be put out.
pub open spec fn ending(eject: Option<Seq<char>>, result: Result<Seq<char>, Seq<char>>) -> NextText {
    match eject {
        Some(device) => quiet(PhaseText::Ejecting { result }, ActionText::Eject(device)),
        None => finish(result),
    }
}

fn end_with(eject: Option<String>, result: Result<String, String>) -> (r: Next)
    ensures
        r@ == ending(opt_text(eject), result_text(result)),
{
    match eject {
        Some(device) => quietly(Phase::Ejecting { result }, Action::Eject(device)),
        None => finish_with(result),
    }
}

fn folder_checked(req: &RipRequest, dest: String, eject: Option<String>, non_empty: bool) -> (r: Next)
    ensures
        r@ == at_folder(*req, dest@, opt_text(eject), non_empty),
{
    match folder_writable(dest.as_str(), non_empty, req.force) {
        Err(e) => end_with(eject, Err(e)),
        Ok(_) => {
            let line = followed("extracting decrypted file tree → ", dest.as_str());
            let mut log: Vec<String> = Vec::new();
            push_text(&mut log, line);
            assert(texts(log@) =~= seq![line@]);
            Next { phase: Phase::Unpacking { eject }, action: Action::Extract(dest), log }
        },
    }
}

/// What follows from decrypting an image.
pub open spec fn at_decrypted(dest: Seq<char>, result: Result<CopyResult, String>) -> NextText {
    match result {
        Err(e) => finish(Err("image decrypt failed: "@ + e@)),
        Ok(r) => if r.bytes_good == 0 {
            quiet(
                PhaseText::Dropping { result: Err("No readable data — no image was written."@) },
                ActionText::Remove(dest),
            )
        } else {
            finish(Ok(image_summary(r, dest)))
        },
    }
}

fn decrypted(dest: String, result: Result<CopyResult, String>) -> (r: Next)
    ensures
        r@ == at_decrypted(dest@, result),
{
    match result {
        Err(e) => fail_with(followed("image decrypt failed: ", e.as_str())),
        Ok(r) => {
            if recovery_produced_no_data(r.bytes_good) {
                quietly(
                    Phase::Dropping {
                        result: Err("No readable data — no image was written.".to_owned()),
                    },
                    Action::Remove(dest),
                )
            } else {
                finish_with(Ok(summarize_image_decrypt(&r, dest.as_str())))
            }
        },
    }
}

/// A list of numbers as it is logged.
pub open spec fn number_list(v: Seq<usize>) -> Seq<char> {
    "["@ + joined(v.map_values(|n: usize| dec(n as nat)), ", "@) + "]"@
}

fn number_list_text(v: &Vec<usize>) -> (r: String)
    ensures
        r@ == number_list(v@),
{
    let mut parts: Vec<String> = Vec::new();
    let ghost wanted = v@.map_values(|n: usize| dec(n as nat));
    for i in 0..v.len()
        invariant
            wanted == v@.map_values(|n: usize| dec(n as nat)),
            texts(parts@) == wanted.take(i as int),
    {
        push_text(&mut parts, dec_text(v[i] as u64));
        assert(texts(parts@) =~= wanted.take(i + 1));
    }
    assert(wanted.take(v@.len() as int) =~= wanted);
    let mut s = followed("[", join_texts(&parts, ", ").as_str());
    s.append("]");
    s
}

/// What follows from the selection of titles.
pub open spec fn at_selected(
    req: RipRequest,
    scan: ScanText,
    drive: bool,
    indices: Seq<usize>,
) -> NextText {
    let log = plus_if(
        Seq::empty(),
        !drive,
        "selection resolved to titles "@ + number_list(indices),
    );
    if indices.len() == 0 {
        NextText { log, ..finish(Err("Nothing selected to rip."@)) }
    } else if drive {
        NextText {
            phase: PhaseText::Titles {
                eject: if req.auto_eject {
                    Some(scan.device)
                } else {
                    None
                },
                total: indices.len(),
            },
            action: ActionText::RunTitles {
                indices,
                label: disc_label(scan.volume_id),
                multi: indices.len() > 1,
                drive: true,
            },
            log,
        }
    } else {
        NextText {
            phase: PhaseText::TitlesDir { label: disc_label(scan.volume_id), indices },
            action: ActionText::MakeDir(req.dest_dir@),
            log,
        }
    }
}

fn eject_after(req: &RipRequest, device: &String) -> (r: Option<String>)
    ensures
        opt_text(r) == (if req.auto_eject {
            Some(device@)
        } else {
            None
        }),
{
    if req.auto_eject {
        Some(device.clone())
    } else {
        None
    }
}

fn selected(req: &RipRequest, scan: SourceScan, drive: bool, indices: Vec<usize>) -> (r: Next)
    ensures
        r@ == at_selected(*req, scan@, drive, indices@),
{
    let mut log: Vec<String> = Vec::new();
    assert(texts(log@) =~= Seq::empty());
    if !drive {
        push_text(
            &mut log,
            followed("selection resolved to titles ", number_list_text(&indices).as_str()),
        );
    }
    if indices.len() == 0 {
        let mut next = fail_with("Nothing selected to rip.".to_owned());
        next.log = log;
        next
    } else if drive {
        let label = label_of(&scan);
        let multi = demux_needs_subdirs(indices.len());
        Next {
            phase: Phase::Titles {
                eject: eject_after(req, &scan.device),
                total: indices.len(),
            },
            action: Action::RunTitles { indices, label, multi, drive: true },
            log,
        }
    } else {
        Next {
            phase: Phase::TitlesDir { label: label_of(&scan), indices },
            action: Action::MakeDir(req.dest_dir.clone()),
            log,
        }
    }
}

/// What is said where there is no drive.
pub const NO_DRIVE: &'static str = "No optical drive found. Connect a Blu-ray/DVD drive with a disc.";

/// What follows from the scan of a drive.
pub open spec fn at_drive(req: RipRequest, scan: ScanText) -> NextText {
    let kind = sink_of(req.format@);
    let label = disc_label(scan.volume_id);
    let eject = if req.auto_eject {
        Some(scan.device)
    } else {
        None
    };
    match selection_holds(req.titles@, marks(req.title_ids@), scan.ids, 0) {
        Err(e) => finish(Err(e)),
        Ok(_) => if kind is DecryptedFolder {
            quiet(
                PhaseText::FolderCheck { dest: folder_of(req.dest_dir@, label), eject },
                ActionText::CheckFolder(folder_of(req.dest_dir@, label)),
            )
        } else if plan_for(kind, req.multipass) != DiscPlan::PerTitle {
            let want_iso = kind is IsoImage;
            let iso = image_of(req.dest_dir@, label);
            match raw_for(req.multipass, want_iso, req.raw) {
                Err(e) => finish(Err(e)),
                Ok(raw) => quiet(
                    PhaseText::Recovering { scan, iso },
                    ActionText::Recover {
                        iso,
                        raw,
                        max_passes: req.max_passes,
                        abort_lost_secs: req.abort_lost_secs,
                        is_iso: want_iso,
                    },
                ),
            }
        } else {
            quiet(PhaseText::Selecting { scan, drive: true }, ActionText::SelectTitles)
        },
    }
}

fn drive_scanned(req: &RipRequest, scan: SourceScan) -> (r: Next)
    ensures
        r@ == at_drive(*req, scan@),
{
    let kind = out_kind(req.format.as_str());
    let label = label_of(&scan);
    match verify_selection_identity(req.titles.as_slice(), &req.title_ids, &scan.ids) {
        Err(e) => {
            return fail_with(e);
        },
        Ok(_) => {},
    }
    let folder = match kind {
        OutKind::DecryptedFolder => true,
        _ => false,
    };
    if folder {
        let dest = extract_target(req.dest_dir.as_str(), label.as_str());
        let eject = eject_after(req, &scan.device);
        return quietly(
            Phase::FolderCheck { dest: dest.clone(), eject },
            Action::CheckFolder(dest),
        );
    }
    match recovery_plan(kind, req.multipass) {
        DiscPlan::Recover { deliver_iso } => {
            let iso = image_target(req.dest_dir.as_str(), label.as_str());
            match recovery_raw(req.multipass, deliver_iso, req.raw) {
                Err(e) => fail_with(e),
                Ok(raw) => quietly(
                    Phase::Recovering { scan, iso: iso.clone() },
                    Action::Recover {
                        iso,
                        raw,
                        max_passes: req.max_passes,
                        abort_lost_secs: req.abort_lost_secs,
                        is_iso: deliver_iso,
                    },
                ),
            }
        },
        DiscPlan::PerTitle => quietly(
            Phase::Selecting { scan, drive: true },
            Action::SelectTitles,
        ),
    }
}

/// What follows once a disc has been read into an image.
pub open spec fn at_read(
    c: Seq<(Seq<char>, Seq<char>)>,
    req: RipRequest,
    scan: ScanText,
    iso: Seq<char>,
    recovery: Recovery,
) -> NextText {
    let want_iso = sink_of(req.format@) is IsoImage;
    let note = damage_text(c, recovery);
    if recovery.halted {
        finish(
            Ok(
                (if want_iso {
                    "Cancelled — partial ISO kept: "@
                } else {
                    "Cancelled — nothing muxed; partial ISO kept: "@
                }) + iso,
            ),
        )
    } else if recovery.aborted_for_loss {
        finish(
            Err(
                (if want_iso {
                    "Recovery aborted — too much unreadable data; partial ISO kept: "@
                } else {
                    "Recovery aborted — too much unreadable data to mux a complete title (raise the lost-seconds tolerance to accept it, or re-run recovery). Partial ISO kept: "@
                }) + iso,
            ),
        )
    } else if want_iso {
        finish(Ok("ISO image written to "@ + iso + note))
    } else if recovery.good_bytes == 0 {
        quiet(
            PhaseText::Dropping {
                result: Err("Recovery produced no readable data — nothing to mux."@),
            },
            ActionText::Remove(iso),
        )
    } else if req.titles@.len() == 0 || scan.ids.len() == 0 {
        quiet(
            PhaseText::MuxingStaged { iso, note },
            ActionText::RunImage { iso, titles: req.titles@ },
        )
    } else {
        quiet(PhaseText::Rescanning { scan, iso, note }, ActionText::Rescan(iso))
    }
}

fn read_done(c: &Catalog, req: &RipRequest, scan: SourceScan, iso: String, recovery: &Recovery) -> (r:
    Next)
    ensures
        r@ == at_read(c@, *req, scan@, iso@, *recovery),
{
    let want_iso = match out_kind(req.format.as_str()) {
        OutKind::IsoImage => true,
        _ => false,
    };
    if recovery.halted {
        return finish_with(
            Ok(
                followed(
                    if want_iso {
                        "Cancelled — partial ISO kept: "
                    } else {
                        "Cancelled — nothing muxed; partial ISO kept: "
                    },
                    iso.as_str(),
                ),
            ),
        );
    }
    if recovery.aborted_for_loss {
        return fail_with(
            followed(
                if want_iso {
                    "Recovery aborted — too much unreadable data; partial ISO kept: "
                } else {
                    "Recovery aborted — too much unreadable data to mux a complete title (raise the lost-seconds tolerance to accept it, or re-run recovery). Partial ISO kept: "
                },
                iso.as_str(),
            ),
        );
    }
    let note = damage_note(c, recovery);
    if want_iso {
        let mut s = followed("ISO image written to ", iso.as_str());
        s.append(note.as_str());
        return finish_with(Ok(s));
    }
    if recovery_produced_no_data(recovery.good_bytes) {
        return quietly(
            Phase::Dropping {
                result: Err("Recovery produced no readable data — nothing to mux.".to_owned()),
            },
            Action::Remove(iso),
        );
    }
    assert(scan@.ids.len() == scan.ids@.len());
    if needs_rescan(req.titles.as_slice(), &scan.ids) {
        quietly(Phase::Rescanning { scan, iso: iso.clone(), note }, Action::Rescan(iso))
    } else {
        quietly(
            Phase::MuxingStaged { iso: iso.clone(), note },
            Action::RunImage { iso, titles: vstd::slice::slice_to_vec(req.titles.as_slice()) },
        )
    }
}

/// What follows from the scan of a recovered image.
pub open spec fn at_rescanned(
    req: RipRequest,
    scan: ScanText,
    iso: Seq<char>,
    note: Seq<char>,
    staged: Result<Vec<TitleIdentity>, String>,
) -> NextText {
    let titles = match staged {
        Err(e) => Err(e@),
        Ok(s) => remapped_selection(req.titles@, scan.ids, marks(s@)),
    };
    match titles {
        Err(e) => finish(Err(e + " The recovered image is kept: "@ + iso)),
        Ok(t) => quiet(
            PhaseText::MuxingStaged { iso, note },
            ActionText::RunImage { iso, titles: t },
        ),
    }
}

fn rescanned(
    req: &RipRequest,
    scan: &SourceScan,
    iso: String,
    note: String,
    staged: Result<Vec<TitleIdentity>, String>,
) -> (r: Next)
    ensures
        r@ == at_rescanned(*req, scan@, iso@, note@, staged),
{
    let titles = match &staged {
        Err(e) => Err(e.clone()),
        Ok(s) => remap_titles_by_identity(req.titles.as_slice(), &scan.ids, s),
    };
    match titles {
        Err(e) => {
            let mut s = followed(e.as_str(), " The recovered image is kept: ");
            s.append(iso.as_str());
            fail_with(s)
        },
        Ok(titles) => quietly(
            Phase::MuxingStaged { iso: iso.clone(), note },
            Action::RunImage { iso, titles },
        ),
    }
}

/// What is said of a rip through a recovered image.
pub open spec fn staged_result(
    result: Result<Seq<char>, Seq<char>>,
    cancelled: bool,
    iso: Seq<char>,
    note: Seq<char>,
) -> Result<Seq<char>, Seq<char>> {
    match result {
        Err(e) => Err(e + " — the recovered image is kept: "@ + iso),
        Ok(s) => if cancelled {
            Ok("Cancelled — the recovered image is kept: "@ + iso)
        } else {
            Ok(s + note)
        },
    }
}

/// What follows from the rip of a recovered image.
pub open spec fn at_staged(
    req: RipRequest,
    iso: Seq<char>,
    note: Seq<char>,
    result: Result<Seq<char>, Seq<char>>,
    cancelled: bool,
) -> NextText {
    let last = staged_result(result, cancelled, iso, note);
    if !req.keep_iso && result is Ok && !cancelled {
        quiet(PhaseText::Dropping { result: last }, ActionText::Remove(iso))
    } else {
        finish(last)
    }
}

fn staged(
    req: &RipRequest,
    iso: String,
    note: String,
    result: Result<String, String>,
    cancelled: bool,
) -> (r: Next)
    ensures
        r@ == at_staged(*req, iso@, note@, result_text(result), cancelled),
{
    let succeeded = result.is_ok();
    let last = match result {
        Err(e) => {
            let mut s = followed(e.as_str(), " — the recovered image is kept: ");
            s.append(iso.as_str());
            Err(s)
        },
        Ok(s) => {
            if cancelled {
                Ok(followed("Cancelled — the recovered image is kept: ", iso.as_str()))
            } else {
                Ok(followed(s.as_str(), note.as_str()))
            }
        },
    };
    if should_delete_staging_iso(req.keep_iso, succeeded, cancelled) {
        quietly(Phase::Dropping { result: last }, Action::Remove(iso))
    } else {
        finish_with(last)
    }
}

/// What a rip does next. What is reported at the wrong time changes nothing.
pub open spec fn next(
    c: Seq<(Seq<char>, Seq<char>)>,
    req: RipRequest,
    phase: PhaseText,
    event: Event,
) -> NextText {
    if phase is Over {
        quiet(phase, ActionText::Wait)
    } else {
        match event {
            Event::Broken(e) => finish(Err(e@)),
            Event::Begin => if phase is Start {
                at_start(req)
            } else {
                quiet(phase, ActionText::Wait)
            },
            Event::DirMade(made) => at_dir(req, phase, made),
            Event::DriveScanned(found) => match (phase, found) {
                (PhaseText::DriveScan, Ok(scan)) => at_drive(req, scan@),
                (PhaseText::DriveScan, Err(f)) => finish(
                    Err(
                        if f.no_drive {
                            NO_DRIVE@
                        } else {
                            f.text@
                        },
                    ),
                ),
                _ => quiet(phase, ActionText::Wait),
            },
            Event::ImageScanned(found) => match (phase, found) {
                (PhaseText::ImageScan, Ok(scan)) => at_image(req, scan@),
                (PhaseText::ImageScan, Err(code)) => finish(
                    Err("E"@ + dec(code as nat) + " scan failed"@),
                ),
                _ => quiet(phase, ActionText::Wait),
            },
            Event::FolderChecked { non_empty } => match phase {
                PhaseText::FolderCheck { dest, eject } => at_folder(req, dest, eject, non_empty),
                _ => quiet(phase, ActionText::Wait),
            },
            Event::Extracted(result) => match phase {
                PhaseText::Unpacking { eject } => ending(eject, result_text(result)),
                _ => quiet(phase, ActionText::Wait),
            },
            Event::Compared { same } => match phase {
                PhaseText::Comparing { dest } => if same {
                    finish(
                        Err(
                            "The output image would overwrite the source. Choose a different output folder."@,
                        ),
                    )
                } else {
                    quiet(PhaseText::ImageDir { dest }, ActionText::MakeDir(req.dest_dir@))
                },
                _ => quiet(phase, ActionText::Wait),
            },
            Event::Decrypted(result) => match phase {
                PhaseText::Decrypting { dest } => at_decrypted(dest, result),
                _ => quiet(phase, ActionText::Wait),
            },
            Event::Recovered(result) => match (phase, result) {
                (PhaseText::Recovering { scan, iso }, Err(e)) => finish(
                    Err("recovery failed: "@ + e@),
                ),
                (PhaseText::Recovering { scan, iso }, Ok(recovery)) => if req.auto_eject {
                    quiet(
                        PhaseText::ReadDone { scan, iso, recovery },
                        ActionText::Eject(scan.device),
                    )
                } else {
                    at_read(c, req, scan, iso, recovery)
                },
                _ => quiet(phase, ActionText::Wait),
            },
            Event::Ejected => match phase {
                PhaseText::ReadDone { scan, iso, recovery } => at_read(c, req, scan, iso, recovery),
                PhaseText::Ejecting { result } => finish(result),
                _ => quiet(phase, ActionText::Wait),
            },
            Event::Rescanned(staged) => match phase {
                PhaseText::Rescanning { scan, iso, note } => at_rescanned(
                    req,
                    scan,
                    iso,
                    note,
                    staged,
                ),
                _ => quiet(phase, ActionText::Wait),
            },
            Event::ImageRun { result, cancelled } => match phase {
                PhaseText::MuxingStaged { iso, note } => at_staged(
                    req,
                    iso,
                    note,
                    result_text(result),
                    cancelled,
                ),
                _ => quiet(phase, ActionText::Wait),
            },
            Event::Removed => match phase {
                PhaseText::Dropping { result } => finish(result),
                _ => quiet(phase, ActionText::Wait),
            },
            Event::Selected(indices) => match phase {
                PhaseText::Selecting { scan, drive } => at_selected(req, scan, drive, indices@),
                _ => quiet(phase, ActionText::Wait),
            },
            Event::TitlesDone { outcome, written, partial } => match phase {
                PhaseText::Titles { eject, total } => ending(
                    eject,
                    outcome_summary(outcome, written as nat, partial as nat, total, req.dest_dir@),
                ),
                _ => quiet(phase, ActionText::Wait),
            },
            Event::Muxed(result) => match phase {
                PhaseText::Converting { target } => at_converted(c, req, target, result),
                _ => quiet(phase, ActionText::Wait),
            },
        }
    }
}

/// What follows once the destination was made, or not.
pub open spec fn at_dir(req: RipRequest, phase: PhaseText, made: Result<(), String>) -> NextText {
    let waiting = phase is ContainerDir || phase is FolderDir || phase is ImageDir
        || phase is TitlesDir || phase is DriveDir;
    if !waiting {
        quiet(phase, ActionText::Wait)
    } else {
        match made {
            Err(e) => finish(Err(e@)),
            Ok(_) => match phase {
                PhaseText::ContainerDir => at_container(req),
                PhaseText::FolderDir { dest } => quiet(
                    PhaseText::FolderCheck { dest, eject: None },
                    ActionText::CheckFolder(dest),
                ),
                PhaseText::ImageDir { dest } => NextText {
                    phase: PhaseText::Decrypting { dest },
                    action: ActionText::Decrypt { dest, raw: req.raw },
                    log: seq!["decrypting image → "@ + dest],
                },
                PhaseText::TitlesDir { label, indices } => quiet(
                    PhaseText::Titles { eject: None, total: indices.len() },
                    ActionText::RunTitles {
                        indices,
                        label,
                        multi: indices.len() > 1,
                        drive: false,
                    },
                ),
                _ => quiet(
                    PhaseText::DriveScan,
                    ActionText::ScanDrive(device_of(req.source@)),
                ),
            },
        }
    }
}

fn wait_in(phase: Phase) -> (r: Next)
    ensures
        r@ == quiet(phase@, ActionText::Wait),
{
    quietly(phase, Action::Wait)
}

fn dir_made(req: &RipRequest, phase: Phase, made: Result<(), String>) -> (r: Next)
    ensures
        r@ == at_dir(*req, phase@, made),
{
    let waiting = match &phase {
        Phase::ContainerDir => true,
        Phase::FolderDir { .. } => true,
        Phase::ImageDir { .. } => true,
        Phase::TitlesDir { .. } => true,
        Phase::DriveDir => true,
        _ => false,
    };
    if !waiting {
        return wait_in(phase);
    }
    match made {
        Err(e) => {
            return fail_with(e);
        },
        Ok(_) => {},
    }
    match phase {
        Phase::ContainerDir => container(req),
        Phase::FolderDir { dest } => quietly(
            Phase::FolderCheck { dest: dest.clone(), eject: None },
            Action::CheckFolder(dest),
        ),
        Phase::ImageDir { dest } => {
            let line = followed("decrypting image → ", dest.as_str());
            let mut log: Vec<String> = Vec::new();
            push_text(&mut log, line);
            assert(texts(log@) =~= seq![line@]);
            Next {
                phase: Phase::Decrypting { dest: dest.clone() },
                action: Action::Decrypt { dest, raw: req.raw },
                log,
            }
        },
        Phase::TitlesDir { label, indices } => {
            let total: usize = indices.len();
            quietly(
                Phase::Titles { eject: None, total },
                Action::RunTitles {
                    indices,
                    label,
                    multi: demux_needs_subdirs(total),
                    drive: false,
                },
            )
        },
        _ => quietly(Phase::DriveScan, Action::ScanDrive(disc_device(req.source.as_str()))),
    }
}

/// Takes a rip one step further: where it stands then, what is to be done, and
/// what is to be logged.
pub fn step(c: &Catalog, req: &RipRequest, phase: Phase, event: Event) -> (r: Next)
    ensures
        r@ == next(c@, *req, phase@, event),
{
    if let Phase::Over { .. } = &phase {
        return wait_in(phase);
    }
    match event {
        Event::Broken(e) => fail_with(e),
        Event::Begin => match phase {
            Phase::Start => start(req),
            p => wait_in(p),
        },
        Event::DirMade(made) => dir_made(req, phase, made),
        Event::DriveScanned(found) => match phase {
            Phase::DriveScan => match found {
                Ok(scan) => drive_scanned(req, scan),
                Err(f) => fail_with(
                    if f.no_drive {
                        NO_DRIVE.to_owned()
                    } else {
                        f.text
                    },
                ),
            },
            p => wait_in(p),
        },
        Event::ImageScanned(found) => match phase {
            Phase::ImageScan => match found {
                Ok(scan) => image_scanned(req, scan),
                Err(code) => {
                    let mut s = "E".to_owned();
                    push_dec(&mut s, code as u64);
                    s.append(" scan failed");
                    fail_with(s)
                },
            },
            p => wait_in(p),
        },
        Event::FolderChecked { non_empty } => match phase {
            Phase::FolderCheck { dest, eject } => folder_checked(req, dest, eject, non_empty),
            p => wait_in(p),
        },
        Event::Extracted(result) => match phase {
            Phase::Unpacking { eject } => end_with(eject, result),
            p => wait_in(p),
        },
        Event::Compared { same } => match phase {
            Phase::Comparing { dest } => {
                if same {
                    fail_with(
                        "The output image would overwrite the source. Choose a different output folder.".to_owned(),
                    )
                } else {
                    quietly(Phase::ImageDir { dest }, Action::MakeDir(req.dest_dir.clone()))
                }
            },
            p => wait_in(p),
        },
        Event::Decrypted(result) => match phase {
            Phase::Decrypting { dest } => decrypted(dest, result),
            p => wait_in(p),
        },
        Event::Recovered(result) => match phase {
            Phase::Recovering { scan, iso } => match result {
                Err(e) => fail_with(followed("recovery failed: ", e.as_str())),
                Ok(recovery) => {
                    if req.auto_eject {
                        let device = scan.device.clone();
                        quietly(
                            Phase::ReadDone { scan, iso, recovery },
                            Action::Eject(device),
                        )
                    } else {
                        read_done(c, req, scan, iso, &recovery)
                    }
                },
            },
            p => wait_in(p),
        },
        Event::Ejected => match phase {
            Phase::ReadDone { scan, iso, recovery } => read_done(c, req, scan, iso, &recovery),
            Phase::Ejecting { result } => finish_with(result),
            p => wait_in(p),
        },
        Event::Rescanned(found) => match phase {
            Phase::Rescanning { scan, iso, note } => rescanned(req, &scan, iso, note, found),
            p => wait_in(p),
        },
        Event::ImageRun { result, cancelled } => match phase {
            Phase::MuxingStaged { iso, note } => staged(req, iso, note, result, cancelled),
            p => wait_in(p),
        },
        Event::Removed => match phase {
            Phase::Dropping { result } => finish_with(result),
            p => wait_in(p),
        },
        Event::Selected(indices) => match phase {
            Phase::Selecting { scan, drive } => selected(req, scan, drive, indices),
            p => wait_in(p),
        },
        Event::TitlesDone { outcome, written, partial } => match phase {
            Phase::Titles { eject, total } => end_with(
                eject,
                summarize_outcome(&outcome, written, partial, total, req.dest_dir.as_str()),
            ),
            p => wait_in(p),
        },
        Event::Muxed(result) => match phase {
            Phase::Converting { target } => converted(c, req, target.as_str(), result),
            p => wait_in(p),
        },
    }
}

/// What holds wherever a rip can stand: the disc is put out only where that was
/// asked for, and titles are chosen and discs recovered only from a scan that
/// the selection still fits.
pub open spec fn sound(req: RipRequest, phase: PhaseText) -> bool {
    match phase {
        PhaseText::FolderCheck { eject, .. } => eject is Some ==> req.auto_eject,
        PhaseText::Unpacking { eject } => eject is Some ==> req.auto_eject,
        PhaseText::Titles { eject, .. } => eject is Some ==> req.auto_eject,
        PhaseText::Ejecting { .. } => req.auto_eject,
        PhaseText::ReadDone { scan, .. } => req.auto_eject && fits(req, scan),
        PhaseText::Selecting { scan, .. } => fits(req, scan),
        PhaseText::Recovering { scan, .. } => fits(req, scan),
        PhaseText::Rescanning { scan, .. } => fits(req, scan),
        _ => true,
    }
}

/// The selection still means the same titles in this scan.
pub open spec fn fits(req: RipRequest, scan: ScanText) -> bool {
    selection_holds(req.titles@, marks(req.title_ids@), scan.ids, 0) is Ok
}

/// Law: every step of a rip keeps it sound, and a rip starts that way.
pub proof fn law_steps_stay_sound(
    c: Seq<(Seq<char>, Seq<char>)>,
    req: RipRequest,
    phase: PhaseText,
    event: Event,
)
    requires
        sound(req, phase),
    ensures
        sound(req, PhaseText::Start),
        sound(req, next(c, req, phase, event).phase),
{
}

/// Law: the disc is put out only where that was asked for.
pub proof fn law_ejecting_is_asked_for(
    c: Seq<(Seq<char>, Seq<char>)>,
    req: RipRequest,
    phase: PhaseText,
    event: Event,
)
    requires
        sound(req, phase),
    ensures
        next(c, req, phase, event).action is Eject ==> req.auto_eject,
{
}

/// The drive is no longer needed.
pub open spec fn past_drive(phase: PhaseText) -> bool {
    phase is ReadDone || phase is Ejecting || phase is Rescanning || phase is MuxingStaged
        || phase is Dropping || phase is Over
}

/// Law: the disc is put out at most once, and the drive is not used after that.
pub proof fn law_ejecting_is_last(
    c: Seq<(Seq<char>, Seq<char>)>,
    req: RipRequest,
    phase: PhaseText,
    event: Event,
)
    ensures
        next(c, req, phase, event).action is Eject ==> !past_drive(phase) && past_drive(
            next(c, req, phase, event).phase,
        ),
        past_drive(phase) ==> past_drive(next(c, req, phase, event).phase),
        past_drive(phase) ==> !(next(c, req, phase, event).action is ScanDrive) && !(next(
            c,
            req,
            phase,
            event,
        ).action is Recover) && !(next(c, req, phase, event).action is RunTitles),
{
}

/// Law: a selection that no longer fits the disc is refused before anything is
/// read for it, off a drive whatever is to be written, off an image where titles
/// are.
pub proof fn law_changed_disc_is_refused(
    c: Seq<(Seq<char>, Seq<char>)>,
    req: RipRequest,
    scan: SourceScan,
)
    requires
        !fits(req, scan@),
    ensures
        next(c, req, PhaseText::DriveScan, Event::DriveScanned(Ok(scan))).action matches
            ActionText::Finish(r) && r is Err,
        !(sink_of(req.format@) is DecryptedFolder) && !(sink_of(req.format@) is IsoImage) ==> (next(
            c,
            req,
            PhaseText::ImageScan,
            Event::ImageScanned(Ok(scan)),
        ).action matches ActionText::Finish(r) && r is Err),
{
}

/// Law: an image that titles were muxed from is removed only where it is not to
/// be kept, all went well and nobody stopped it.
pub proof fn law_recovered_image_is_kept(
    c: Seq<(Seq<char>, Seq<char>)>,
    req: RipRequest,
    iso: Seq<char>,
    note: Seq<char>,
    event: Event,
)
    ensures
        next(c, req, PhaseText::MuxingStaged { iso, note }, event).action is Remove ==> {
            &&& !req.keep_iso
            &&& event matches Event::ImageRun { result, cancelled } && result is Ok && !cancelled
        },
{
}

/// Law: a file is removed only where nothing could be read into it, or where
/// titles were muxed from it.
pub proof fn law_only_empty_or_used_images_are_removed(
    c: Seq<(Seq<char>, Seq<char>)>,
    req: RipRequest,
    phase: PhaseText,
    event: Event,
)
    ensures
        next(c, req, phase, event).action is Remove ==> {
            ||| phase is MuxingStaged
            ||| (event matches Event::Decrypted(Ok(r)) && r.bytes_good == 0)
            ||| (event matches Event::Recovered(Ok(r)) && r.good_bytes == 0)
            ||| (phase matches PhaseText::ReadDone { recovery, .. } && recovery.good_bytes == 0)
        },
{
}

/// Law: a recovery that lost too much is never a success, whatever was asked
/// for, and nothing is muxed from it.
pub proof fn law_too_much_loss_is_a_failure(
    c: Seq<(Seq<char>, Seq<char>)>,
    req: RipRequest,
    scan: ScanText,
    iso: Seq<char>,
    recovery: Recovery,
)
    requires
        recovery.aborted_for_loss,
        !recovery.halted,
    ensures
        at_read(c, req, scan, iso, recovery).action matches ActionText::Finish(r) && r is Err,
{
}

/// Law: several passes over a disc are never asked to decrypt it.
pub proof fn law_multipass_recoveries_are_raw(
    c: Seq<(Seq<char>, Seq<char>)>,
    req: RipRequest,
    phase: PhaseText,
    event: Event,
)
    requires
        req.multipass,
    ensures
        next(c, req, phase, event).action matches ActionText::Recover { raw, .. } ==> raw,
{
    law_multipass_is_raw(sink_of(req.format@) is IsoImage, req.raw);
}

/// Law: an image is decrypted only into another file: the step before the
/// destination is made found it not to be the source.
pub proof fn law_source_is_never_overwritten(
    c: Seq<(Seq<char>, Seq<char>)>,
    req: RipRequest,
    phase: PhaseText,
    event: Event,
)
    ensures
        next(c, req, phase, event).action is Decrypt ==> phase is ImageDir,
        next(c, req, phase, event).phase is ImageDir ==> phase is ImageDir || (phase is Comparing
            && event == (Event::Compared { same: false })),
{
}

/// Law: what is over stays over.
pub proof fn law_over_is_over(
    c: Seq<(Seq<char>, Seq<char>)>,
    req: RipRequest,
    result: Result<Seq<char>, Seq<char>>,
    event: Event,
)
    ensures
        next(c, req, PhaseText::Over { result }, event) == quiet(
            PhaseText::Over { result },
            ActionText::Wait,
        ),
{
}

} // verus!
