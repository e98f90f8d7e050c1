//! What holds of every step of a rip, whatever is asked for and whatever is
//! reported.

use crate::engine::identity::{
    TitleIdentity, TitleMark, lemma_position, lemma_position_is_first, marks, remapped,
};
use crate::engine::naming::{
    Sink, basename_of, device_of, is_container, is_drive, safe_label, scheme_of, sink_of,
};
use crate::engine::naming_laws::{is_in, law_disc_output_lies_in_the_destination};
use crate::engine::request::RipRequest;
use crate::engine::rip::{
    ActionText, Event, NO_DRIVE, PhaseText, RAW_REFUSAL, ScanFailure, ScanText, SourceScan, fits,
    next, quiet,
};
use crate::engine::summary::{
    CopyResult, MuxOutcome, Recovery, RipOutcome, damage_text, image_summary, lossy, occupied_text,
    outcome_summary, result_text,
};
use crate::paths::path_stem;
use crate::reading::{between, ends_with, lemma_between, lemma_has_part, lemma_starts, starts_with};
use crate::text::{dec, has_text};
use vstd::prelude::*;
use vstd::string::*;

verus! {

/// `now` stands for the selection `was` in another scan: as many titles, each of
/// which is the one that was meant, the first such one there is. A number that
/// nothing is known of is kept.
pub open spec fn same_titles(
    was: Seq<usize>,
    ids: Seq<TitleMark>,
    now: Seq<usize>,
    staged: Seq<TitleMark>,
) -> bool {
    &&& now.len() == was.len()
    &&& forall|i: int|
        #![trigger now[i]]
        #![trigger was[i]]
        0 <= i < was.len() ==> {
            &&& was[i] >= ids.len() ==> now[i] == was[i]
            &&& was[i] < ids.len() ==> {
                &&& now[i] < staged.len()
                &&& staged[now[i] as int] == ids[was[i] as int]
                &&& forall|j: int| 0 <= j < now[i] ==> #[trigger] staged[j] != ids[was[i] as int]
            }
        }
}

/// Every title of the selection that something is known of is in the other scan.
pub open spec fn all_found(was: Seq<usize>, ids: Seq<TitleMark>, staged: Seq<TitleMark>) -> bool {
    forall|i: int|
        0 <= i < was.len() && (#[trigger] was[i]) < ids.len() ==> staged.contains(
            ids[was[i] as int],
        )
}

proof fn lemma_remapped_is_same(
    titles: Seq<usize>,
    ids: Seq<TitleMark>,
    staged: Seq<TitleMark>,
    n: nat,
)
    requires
        n <= titles.len(),
        staged.len() <= usize::MAX,
    ensures
        remapped(titles, ids, staged, n) matches Ok(now) ==> same_titles(
            titles.take(n as int),
            ids,
            now,
            staged,
        ),
        remapped(titles, ids, staged, n) is Ok == all_found(titles.take(n as int), ids, staged),
    decreases n,
{
    let here = titles.take(n as int);
    if n > 0 {
        let m = (n - 1) as nat;
        let before = titles.take(m as int);
        lemma_remapped_is_same(titles, ids, staged, m);
        let was = titles[n - 1];
        assert(forall|i: int| 0 <= i < m ==> before[i] == #[trigger] here[i]);
        assert(here[n - 1] == was);
        if was < ids.len() {
            lemma_position(staged, ids[was as int], 0);
            lemma_position_is_first(staged, ids[was as int], 0);
            if staged.contains(ids[was as int]) {
                let p = choose|p: int| 0 <= p < staged.len() && staged[p] == ids[was as int];
                assert(staged[p] == ids[was as int]);
            }
        }
        if all_found(here, ids, staged) {
            assert forall|i: int|
                0 <= i < before.len() && (#[trigger] before[i]) < ids.len() implies staged.contains(
                ids[before[i] as int],
            ) by {
                assert(here[i] == before[i]);
            }
            assert(all_found(before, ids, staged));
            assert(was < ids.len() ==> staged.contains(ids[here[n - 1] as int]));
        }
        if remapped(titles, ids, staged, n) is Ok {
            let done = remapped(titles, ids, staged, m)->Ok_0;
            let now = remapped(titles, ids, staged, n)->Ok_0;
            assert(now.len() == n);
            assert forall|i: int|
                #![trigger now[i]]
                #![trigger here[i]]
                0 <= i < here.len() implies {
                &&& here[i] >= ids.len() ==> now[i] == here[i]
                &&& here[i] < ids.len() ==> {
                    &&& now[i] < staged.len()
                    &&& staged[now[i] as int] == ids[here[i] as int]
                    &&& forall|j: int| 0 <= j < now[i] ==> #[trigger] staged[j] != ids[here[i] as int]
                }
            } by {
                if i < m {
                    assert(now[i] == done[i] && here[i] == before[i]);
                }
            }
            assert forall|i: int| 0 <= i < here.len() && (#[trigger] here[i]) < ids.len() implies
                staged.contains(ids[here[i] as int]) by {
                assert(staged[now[i] as int] == ids[here[i] as int]);
            }
        }
    }
}

/// Law: the titles that are ripped from a recovered image are the ones that were
/// selected on the drive, all of them and in that order, wherever the image lists
/// them; and they are ripped from that image. Where the image lists them all,
/// they are ripped; where it does not, or cannot be scanned, nothing is, and the
/// failure says where the image is.
#[verifier::rlimit(60)]
pub proof fn law_recovered_titles_are_the_selected(
    c: Seq<(Seq<char>, Seq<char>)>,
    req: RipRequest,
    phase: PhaseText,
    found: Result<Vec<TitleIdentity>, String>,
)
    requires
        phase is Rescanning,
    ensures
        ({
            let r = next(c, req, phase, Event::Rescanned(found));
            let ids = phase->Rescanning_scan.ids;
            let iso = phase->Rescanning_iso;
            match found {
                Ok(staged) => if all_found(req.titles@, ids, marks(staged@)) {
                    &&& r.action matches ActionText::RunImage { iso: image, titles } && image == iso
                        && same_titles(req.titles@, ids, titles, marks(staged@))
                    &&& r.phase == (PhaseText::MuxingStaged { iso, note: phase->Rescanning_note })
                } else {
                    r.action matches ActionText::Finish(Err(e)) && ends_with(e, iso)
                },
                Err(why) => r.action matches ActionText::Finish(Err(e)) && ends_with(e, iso)
                    && starts_with(e, why@),
            }
        }),
{
    let ids = phase->Rescanning_scan.ids;
    let iso = phase->Rescanning_iso;
    let r = next(c, req, phase, Event::Rescanned(found));
    match found {
        Ok(staged) => {
            assert(staged@.len() <= usize::MAX) by {
                assert(staged.len() == staged@.len());
            }
            assert(marks(staged@).len() == staged@.len());
            lemma_remapped_is_same(req.titles@, ids, marks(staged@), req.titles@.len());
            assert(req.titles@.take(req.titles@.len() as int) =~= req.titles@);
            if r.action is Finish {
                let e = r.action->Finish_0->Err_0;
                lemma_starts(e.take(e.len() - iso.len()), iso);
                assert(e =~= e.take(e.len() - iso.len()) + iso);
            }
        },
        Err(why) => {
            let e = r.action->Finish_0->Err_0;
            assert(e.skip(e.len() - iso.len()) =~= iso);
            assert(e.take(why@.len() as int) =~= why@);
        },
    }
}

/// What a disc is called: by its label, or `disc` where it has none.
pub open spec fn called(volume_id: Seq<char>) -> Seq<char> {
    if volume_id.len() == 0 {
        "disc"@
    } else {
        volume_id
    }
}

/// The scan that an event reports, of a drive or of an image.
pub open spec fn scan_in(event: Event) -> Option<ScanText> {
    match event {
        Event::DriveScanned(Ok(scan)) => Some(scan@),
        Event::ImageScanned(Ok(scan)) => Some(scan@),
        _ => None,
    }
}

/// The folder that a rip is about to unpack into, once it has been chosen.
pub open spec fn folder_in(phase: PhaseText) -> Option<Seq<char>> {
    match phase {
        PhaseText::FolderDir { dest } => Some(dest),
        PhaseText::FolderCheck { dest, .. } => Some(dest),
        _ => None,
    }
}

/// Law: the files of a disc are unpacked only into the folder that was just found
/// empty, or that was forced; that is the folder that was asked about, and it is
/// the one in the destination that is named after the disc.
#[verifier::rlimit(60)]
pub proof fn law_files_go_into_the_disc_folder(
    c: Seq<(Seq<char>, Seq<char>)>,
    req: RipRequest,
    phase: PhaseText,
    event: Event,
)
    ensures
        ({
            let r = next(c, req, phase, event);
            &&& r.action matches ActionText::Extract(p) ==> {
                &&& phase matches PhaseText::FolderCheck { dest, eject } && p == dest && r.phase
                    == (PhaseText::Unpacking { eject })
                &&& event matches Event::FolderChecked { non_empty } && (req.force || !non_empty)
                &&& r.log.len() == 1 && ends_with(r.log[0], p)
            }
            &&& r.action matches ActionText::CheckFolder(p) ==> (r.phase matches
                PhaseText::FolderCheck { dest, .. } && p == dest)
            &&& folder_in(r.phase) matches Some(dest) ==> folder_in(phase) == Some(dest) || (scan_in(
                event,
            ) matches Some(scan) && is_in(dest, req.dest_dir@, safe_label(called(scan.volume_id)))
                && sink_of(req.format@) is DecryptedFolder)
            &&& phase matches PhaseText::FolderCheck { dest, eject } ==> (event matches
                Event::FolderChecked { non_empty } ==> (!non_empty || req.force ==> r.action
                == ActionText::Extract(dest)))
        }),
{
    let r = next(c, req, phase, event);
    if let Some(scan) = scan_in(event) {
        law_disc_output_lies_in_the_destination(req.dest_dir@, called(scan.volume_id));
    }
    if let ActionText::Extract(p) = r.action {
        assert(r.log[0] == "extracting decrypted file tree → "@ + p);
        lemma_starts("extracting decrypted file tree → "@, p);
    }
}

/// Law: a folder that is not empty, and was not forced, is left alone: the rip
/// fails and says which folder it is, after the disc is put out where it is to
/// be.
#[verifier::rlimit(60)]
pub proof fn law_occupied_folder_is_left_alone(
    c: Seq<(Seq<char>, Seq<char>)>,
    req: RipRequest,
    dest: Seq<char>,
    eject: Option<Seq<char>>,
)
    requires
        !req.force,
    ensures
        ({
            let r = next(
                c,
                req,
                PhaseText::FolderCheck { dest, eject },
                Event::FolderChecked { non_empty: true },
            );
            match eject {
                Some(device) => r.action == ActionText::Eject(device) && (r.phase matches
                    PhaseText::Ejecting { result: Err(e) } && starts_with(e, dest)),
                None => r.action matches ActionText::Finish(Err(e)) && starts_with(e, dest),
            }
        }),
{
    let e = occupied_text(dest);
    assert(e.take(dest.len() as int) =~= dest);
}

/// The image that a rip writes or reads, once it has been chosen.
pub open spec fn image_in(phase: PhaseText) -> Option<Seq<char>> {
    match phase {
        PhaseText::Comparing { dest } => Some(dest),
        PhaseText::ImageDir { dest } => Some(dest),
        PhaseText::Decrypting { dest } => Some(dest),
        PhaseText::Recovering { iso, .. } => Some(iso),
        PhaseText::ReadDone { iso, .. } => Some(iso),
        PhaseText::Rescanning { iso, .. } => Some(iso),
        PhaseText::MuxingStaged { iso, .. } => Some(iso),
        _ => None,
    }
}

/// The image that an action is about.
pub open spec fn image_of_action(action: ActionText) -> Option<Seq<char>> {
    match action {
        ActionText::Compare(p) => Some(p),
        ActionText::Decrypt { dest, .. } => Some(dest),
        ActionText::Recover { iso, .. } => Some(iso),
        ActionText::Rescan(p) => Some(p),
        ActionText::RunImage { iso, .. } => Some(iso),
        ActionText::Remove(p) => Some(p),
        _ => None,
    }
}

/// Law: a rip has one image, which is chosen once: the one in the destination
/// that is named after the disc. That image, and no other file, is compared with
/// the source, written, scanned, ripped from and removed.
#[verifier::rlimit(60)]
pub proof fn law_one_image_is_worked_on(
    c: Seq<(Seq<char>, Seq<char>)>,
    req: RipRequest,
    phase: PhaseText,
    event: Event,
)
    ensures
        ({
            let r = next(c, req, phase, event);
            &&& image_in(r.phase) matches Some(p) ==> image_in(phase) == Some(p) || (scan_in(event)
                matches Some(scan) && is_in(
                p,
                req.dest_dir@,
                safe_label(called(scan.volume_id)) + ".iso"@,
            ))
            &&& image_of_action(r.action) matches Some(p) ==> image_in(r.phase) == Some(p)
                || r.action is Remove && r.phase is Dropping && image_in(phase) == Some(p)
        }),
{
    if let Some(scan) = scan_in(event) {
        law_disc_output_lies_in_the_destination(req.dest_dir@, called(scan.volume_id));
    }
}

/// Law: a recovery is the one that was asked for: as many passes, as much loss,
/// an image if that is what is to be written; and it decrypts where that was
/// asked for of a single pass.
#[verifier::rlimit(60)]
pub proof fn law_recovery_is_the_one_asked_for(
    c: Seq<(Seq<char>, Seq<char>)>,
    req: RipRequest,
    phase: PhaseText,
    event: Event,
)
    ensures
        next(c, req, phase, event).action matches ActionText::Recover {
            iso,
            raw,
            max_passes,
            abort_lost_secs,
            is_iso,
        } ==> {
            &&& max_passes == req.max_passes
            &&& abort_lost_secs == req.abort_lost_secs
            &&& is_iso == (sink_of(req.format@) is IsoImage)
            &&& raw == (req.raw || req.multipass)
            &&& req.multipass || is_iso
            &&& phase is DriveScan
            &&& next(c, req, phase, event).phase matches PhaseText::Recovering { scan, .. }
                && scan_in(event) == Some(scan)
        },
        next(c, req, phase, event).action matches ActionText::Decrypt { dest, raw } ==> raw
            == req.raw,
{
}

/// Law: a drive is read as the request says: into an image where an image or
/// several passes were asked for, into the folder of the disc where that was,
/// and title by title where neither was.
#[verifier::rlimit(60)]
pub proof fn law_drive_is_read_as_asked(
    c: Seq<(Seq<char>, Seq<char>)>,
    req: RipRequest,
    scan: SourceScan,
)
    requires
        fits(req, scan@),
    ensures
        ({
            let r = next(c, req, PhaseText::DriveScan, Event::DriveScanned(Ok(scan)));
            let kind = sink_of(req.format@);
            &&& kind is DecryptedFolder ==> r.action is CheckFolder
            &&& kind is IsoImage && !req.multipass ==> r.action is Recover
            &&& kind is IsoImage && req.multipass && req.raw ==> r.action is Recover
            &&& kind is IsoImage && req.multipass && !req.raw ==> r.action == ActionText::Finish(
                Err(RAW_REFUSAL@),
            )
            &&& (kind is File || kind is Demux) && req.multipass ==> r.action is Recover
            &&& (kind is File || kind is Demux) && !req.multipass ==> r.action is SelectTitles
                && r.phase == (PhaseText::Selecting { scan: scan@, drive: true })
        }),
{
}

/// Law: an image is read as the request says: unpacked, decrypted into another
/// image, or ripped title by title.
#[verifier::rlimit(60)]
pub proof fn law_image_is_read_as_asked(
    c: Seq<(Seq<char>, Seq<char>)>,
    req: RipRequest,
    scan: SourceScan,
)
    requires
        fits(req, scan@),
    ensures
        ({
            let r = next(c, req, PhaseText::ImageScan, Event::ImageScanned(Ok(scan)));
            let kind = sink_of(req.format@);
            &&& kind is DecryptedFolder ==> r.phase is FolderDir && r.action == ActionText::MakeDir(
                req.dest_dir@,
            )
            &&& kind is IsoImage ==> r.phase is Comparing && r.action is Compare
            &&& (kind is File || kind is Demux) ==> r.action is SelectTitles && r.phase == (
            PhaseText::Selecting { scan: scan@, drive: false })
        }),
{
}

/// Law: the titles that are ripped are the ones that the selection came to, all
/// of them and in that order, named after the disc that was scanned, and they
/// get directories of their own where there is more than one. Off an image the
/// destination is made first. An empty selection is an error.
#[verifier::rlimit(60)]
pub proof fn law_selected_titles_are_ripped(
    c: Seq<(Seq<char>, Seq<char>)>,
    req: RipRequest,
    scan: ScanText,
    drive: bool,
    indices: Vec<usize>,
)
    ensures
        ({
            let r = next(c, req, PhaseText::Selecting { scan, drive }, Event::Selected(indices));
            let made = next(c, req, r.phase, Event::DirMade(Ok(())));
            let run = ActionText::RunTitles {
                indices: indices@,
                label: called(scan.volume_id),
                multi: indices@.len() >= 2,
                drive,
            };
            if indices@.len() == 0 {
                r.action matches ActionText::Finish(Err(_))
            } else if drive {
                &&& r.action == run
                &&& r.phase matches PhaseText::Titles { eject, total } && total == indices@.len()
                    && eject == (if req.auto_eject {
                    Some(scan.device)
                } else {
                    None
                })
            } else {
                &&& r.action == ActionText::MakeDir(req.dest_dir@)
                &&& made.action == run
                &&& made.phase matches PhaseText::Titles { eject, total } && total == indices@.len()
                    && eject is None
            }
        }),
{
}

/// Law: what the loop over the titles came to is what the rip comes to, after the
/// disc is put out where it is to be; and so is what came of unpacking. What the
/// rip came to does not change on the way out.
#[verifier::rlimit(60)]
pub proof fn law_result_is_carried_to_the_end(
    c: Seq<(Seq<char>, Seq<char>)>,
    req: RipRequest,
    eject: Option<Seq<char>>,
    result: Result<String, String>,
    event: Event,
)
    ensures
        ({
            let r = next(c, req, PhaseText::Unpacking { eject }, Event::Extracted(result));
            match eject {
                Some(device) => r.action == ActionText::Eject(device) && r.phase == (
                PhaseText::Ejecting { result: result_text(result) }),
                None => r.action == ActionText::Finish(result_text(result)),
            }
        }),
        next(
            c,
            req,
            PhaseText::Ejecting { result: result_text(result) },
            Event::Ejected,
        ).action == ActionText::Finish(result_text(result)),
        next(
            c,
            req,
            PhaseText::Dropping { result: result_text(result) },
            Event::Removed,
        ).action == ActionText::Finish(result_text(result)),
        next(c, req, PhaseText::Ejecting { result: result_text(result) }, event).phase matches
            PhaseText::Over { result: last } ==> last == result_text(result) || event is Broken,
        next(c, req, PhaseText::Dropping { result: result_text(result) }, event).phase matches
            PhaseText::Over { result: last } ==> last == result_text(result) || event is Broken,
{
}

/// Law: a rip ends with what it says it ends with: the phase that is over holds
/// the result that is reported, and nothing is reported before that.
#[verifier::rlimit(60)]
pub proof fn law_the_end_is_reported(
    c: Seq<(Seq<char>, Seq<char>)>,
    req: RipRequest,
    phase: PhaseText,
    event: Event,
)
    requires
        !(phase is Over),
    ensures
        next(c, req, phase, event).phase matches PhaseText::Over { result } ==> next(
            c,
            req,
            phase,
            event,
        ).action == ActionText::Finish(result),
        next(c, req, phase, event).action matches ActionText::Finish(result) ==> next(
            c,
            req,
            phase,
            event,
        ).phase == (PhaseText::Over { result }),
        event matches Event::Broken(e) ==> next(c, req, phase, event).action == ActionText::Finish(
            Err(e@),
        ),
{
}

/// Law: what the loop over the titles came to is what the rip comes to, counted
/// against the titles that it was given, after the disc is put out where it is to
/// be.
#[verifier::rlimit(60)]
pub proof fn law_loop_over_titles_is_reported(
    c: Seq<(Seq<char>, Seq<char>)>,
    req: RipRequest,
    eject: Option<Seq<char>>,
    total: nat,
    outcome: RipOutcome,
    written: usize,
    partial: usize,
)
    ensures
        ({
            let r = next(
                c,
                req,
                PhaseText::Titles { eject, total },
                Event::TitlesDone { outcome, written, partial },
            );
            let said = outcome_summary(
                outcome,
                written as nat,
                partial as nat,
                total,
                req.dest_dir@,
            );
            match eject {
                Some(device) => r.action == ActionText::Eject(device) && r.phase == (
                PhaseText::Ejecting { result: said }),
                None => r.action == ActionText::Finish(said),
            }
        }),
{
}

/// Law: what is said of a disc that was read into an image says where the image
/// is, and what is missing from it.
#[verifier::rlimit(60)]
pub proof fn law_image_is_reported(
    c: Seq<(Seq<char>, Seq<char>)>,
    req: RipRequest,
    scan: ScanText,
    iso: Seq<char>,
    recovery: Recovery,
)
    requires
        sink_of(req.format@) is IsoImage,
    ensures
        ({
            let r = next(
                c,
                req,
                PhaseText::ReadDone { scan, iso, recovery },
                Event::Ejected,
            );
            &&& r.action matches ActionText::Finish(result)
            &&& (r.action->Finish_0 is Ok <==> recovery.halted || !recovery.aborted_for_loss)
            &&& recovery.halted || recovery.aborted_for_loss ==> ends_with(
                if r.action->Finish_0 is Ok {
                    r.action->Finish_0->Ok_0
                } else {
                    r.action->Finish_0->Err_0
                },
                iso,
            )
            &&& !recovery.halted && !recovery.aborted_for_loss ==> ends_with(
                r.action->Finish_0->Ok_0,
                iso + damage_text(c, recovery),
            ) && !starts_with(r.action->Finish_0->Ok_0, "Cancelled"@)
            &&& recovery.halted ==> starts_with(r.action->Finish_0->Ok_0, "Cancelled"@)
        }),
{
    reveal_strlit("Cancelled");
    reveal_strlit("Cancelled — partial ISO kept: ");
    reveal_strlit("ISO image written to ");
    let r = next(c, req, PhaseText::ReadDone { scan, iso, recovery }, Event::Ejected);
    let s = if r.action->Finish_0 is Ok {
        r.action->Finish_0->Ok_0
    } else {
        r.action->Finish_0->Err_0
    };
    if recovery.halted || recovery.aborted_for_loss {
        lemma_starts(s.take(s.len() - iso.len()), iso);
        assert(s =~= s.take(s.len() - iso.len()) + iso);
        if recovery.halted {
            assert(s.take(9) =~= "Cancelled"@);
        }
    } else {
        lemma_starts("ISO image written to "@, iso + damage_text(c, recovery));
        assert(s =~= "ISO image written to "@ + (iso + damage_text(c, recovery)));
        assert(s[0] == 'I');
        assert(starts_with(s, "Cancelled"@) ==> s.take(9)[0] == 'C');
    }
}

/// Law: once a disc was read, its titles are ripped from the image: looked up
/// there first where something is known of them, and otherwise as they were
/// selected. A recovery that was stopped, lost too much or read nothing is not
/// ripped from.
#[verifier::rlimit(60)]
pub proof fn law_read_disc_is_ripped(
    c: Seq<(Seq<char>, Seq<char>)>,
    req: RipRequest,
    scan: ScanText,
    iso: Seq<char>,
    recovery: Recovery,
)
    requires
        !(sink_of(req.format@) is IsoImage),
    ensures
        ({
            let r = next(
                c,
                req,
                PhaseText::ReadDone { scan, iso, recovery },
                Event::Ejected,
            );
            let usable = !recovery.halted && !recovery.aborted_for_loss && recovery.good_bytes > 0;
            &&& (usable <==> r.action is RunImage || r.action is Rescan)
            &&& usable && req.titles@.len() > 0 && scan.ids.len() > 0 ==> r.action
                == ActionText::Rescan(iso) && r.phase == (PhaseText::Rescanning {
                scan,
                iso,
                note: damage_text(c, recovery),
            })
            &&& usable && (req.titles@.len() == 0 || scan.ids.len() == 0) ==> r.action == (
            ActionText::RunImage { iso, titles: req.titles@ }) && r.phase == (
            PhaseText::MuxingStaged { iso, note: damage_text(c, recovery) })
        }),
        req.auto_eject ==> next(
            c,
            req,
            PhaseText::Recovering { scan, iso },
            Event::Recovered(Ok(recovery)),
        ) == quiet(PhaseText::ReadDone { scan, iso, recovery }, ActionText::Eject(scan.device)),
        !req.auto_eject ==> next(
            c,
            req,
            PhaseText::Recovering { scan, iso },
            Event::Recovered(Ok(recovery)),
        ) == next(c, req, PhaseText::ReadDone { scan, iso, recovery }, Event::Ejected),
{
}

/// Law: what came of ripping a recovered image is what the rip comes to, with
/// what was lost behind a success; where it was stopped or failed, the image is
/// kept and it is said where it is.
#[verifier::rlimit(60)]
pub proof fn law_staged_rip_is_reported(
    c: Seq<(Seq<char>, Seq<char>)>,
    req: RipRequest,
    iso: Seq<char>,
    note: Seq<char>,
    result: Result<String, String>,
    cancelled: bool,
)
    ensures
        ({
            let r = next(
                c,
                req,
                PhaseText::MuxingStaged { iso, note },
                Event::ImageRun { result, cancelled },
            );
            &&& result matches Ok(s) ==> !cancelled ==> {
                let said = Ok::<Seq<char>, Seq<char>>(s@ + note);
                if req.keep_iso {
                    r.action == ActionText::Finish(said)
                } else {
                    r.action == ActionText::Remove(iso) && r.phase == (PhaseText::Dropping {
                        result: said,
                    })
                }
            }
            &&& result is Ok && cancelled ==> (r.action matches ActionText::Finish(Ok(said))
                && ends_with(said, iso))
            &&& result matches Err(e) ==> (r.action matches ActionText::Finish(Err(said))
                && starts_with(said, e@) && ends_with(said, iso))
        }),
{
    match result {
        Ok(s) => {
            lemma_starts("Cancelled — the recovered image is kept: "@, iso);
        },
        Err(e) => {
            lemma_starts(e@ + " — the recovered image is kept: "@, iso);
            lemma_starts(e@, " — the recovered image is kept: "@ + iso);
            assert(e@ + (" — the recovered image is kept: "@ + iso) =~= e@
                + " — the recovered image is kept: "@ + iso);
        },
    }
}

/// Law: a container is converted from where it is to a file of the chosen format
/// in the destination, named after the template and its own name, or its tracks
/// are put there; the URLs name exactly these two places, each by its scheme. A
/// format for whole discs is an error.
#[verifier::rlimit(60)]
pub proof fn law_container_is_converted(c: Seq<(Seq<char>, Seq<char>)>, req: RipRequest)
    ensures
        ({
            let r = next(c, req, PhaseText::ContainerDir, Event::DirMade(Ok(())));
            match sink_of(req.format@) {
                Sink::File(scheme) => {
                    &&& r.action matches ActionText::Mux { src_url, dest_url, target }
                    &&& src_url == scheme_of(req.source@) + "://"@ + req.source@
                    &&& dest_url == scheme + "://"@ + target
                    &&& between(target, req.dest_dir@ + "/"@, "."@ + scheme) == Some(
                        basename_of(
                            req.filename_template@,
                            match path_stem(req.source@) {
                                Some(s) => s,
                                None => "output"@,
                            },
                            1,
                        ),
                    )
                    &&& r.phase == (PhaseText::Converting { target })
                },
                Sink::Demux(scheme) => {
                    &&& r.action matches ActionText::Mux { src_url, dest_url, target }
                    &&& src_url == scheme_of(req.source@) + "://"@ + req.source@
                    &&& dest_url == scheme + "://"@ + req.dest_dir@ + "/"@
                    &&& starts_with(target, req.dest_dir@ + "/"@)
                    &&& r.phase == (PhaseText::Converting { target })
                },
                _ => r.action matches ActionText::Finish(Err(_)),
            }
        }),
{
    let name = match path_stem(req.source@) {
        Some(s) => s,
        None => "output"@,
    };
    let base = basename_of(req.filename_template@, name, 1);
    match sink_of(req.format@) {
        Sink::File(scheme) => {
            lemma_between(req.dest_dir@ + "/"@, base, "."@ + scheme);
            assert(req.dest_dir@ + "/"@ + base + ("."@ + scheme) =~= req.dest_dir@ + "/"@ + base
                + "."@ + scheme);
        },
        Sink::Demux(scheme) => {
            let dir = req.dest_dir@ + "/"@;
            lemma_starts(dir, " (per-track files)"@);
            assert(scheme + "://"@ + req.dest_dir@ + "/"@ =~= scheme + "://"@ + dir);
        },
        _ => {},
    }
}

/// Law: what is said of a conversion says what was written and where; an error is
/// passed on, and one that was stopped is never called written.
#[verifier::rlimit(60)]
pub proof fn law_conversion_is_reported(
    c: Seq<(Seq<char>, Seq<char>)>,
    req: RipRequest,
    target: Seq<char>,
    result: Result<MuxOutcome, String>,
)
    ensures
        ({
            let r = next(c, req, PhaseText::Converting { target }, Event::Muxed(result));
            match result {
                Err(e) => r.action matches ActionText::Finish(Err(said)) && ends_with(said, e@),
                Ok(o) => {
                    &&& r.action matches ActionText::Finish(Ok(said))
                    &&& o.completed ==> starts_with(
                        r.action->Finish_0->Ok_0,
                        "Written to "@ + req.dest_dir@,
                    )
                    &&& o.completed && !lossy(o) ==> r.action->Finish_0->Ok_0 == "Written to "@
                        + req.dest_dir@
                    &&& o.completed && lossy(o) ==> r.action->Finish_0->Ok_0.len() > (
                    "Written to "@ + req.dest_dir@).len()
                    &&& !o.completed ==> starts_with(r.action->Finish_0->Ok_0, "Cancelled"@)
                        && ends_with(r.action->Finish_0->Ok_0, target)
                    &&& r.log.len() > 0 && ends_with(r.log[0], target)
                    &&& o.completed && lossy(o) ==> r.log.len() > 1
                }
            }
        }),
{
    reveal_strlit("Cancelled");
    reveal_strlit("Cancelled — partial output kept: ");
    reveal_strlit(" — ");
    reveal_strlit(" —");
    let r = next(c, req, PhaseText::Converting { target }, Event::Muxed(result));
    match result {
        Err(e) => {
            lemma_starts("convert failed: "@, e@);
        },
        Ok(o) => {
            let said = r.action->Finish_0->Ok_0;
            let head = "Written to "@ + req.dest_dir@;
            if o.completed {
                assert(said.take(head.len() as int) =~= head);
                lemma_starts("wrote "@, target);
                assert(r.log[0] == "wrote "@ + target);
            } else {
                lemma_starts("Cancelled — partial output kept: "@, target);
                assert(said.take(9) =~= "Cancelled"@);
                lemma_starts("cancelled — partial output kept: "@, target);
                assert(r.log[0] == "cancelled — partial output kept: "@ + target);
            }
        },
    }
}

/// Law: a rip begins with the source that it was given: a drive is opened by its
/// device once the destination is there, a container is converted into the
/// destination, anything else is scanned as an image. What has no place to go to
/// fails with the reason.
#[verifier::rlimit(60)]
pub proof fn law_rip_begins_with_its_source(
    c: Seq<(Seq<char>, Seq<char>)>,
    req: RipRequest,
    phase: PhaseText,
    why: String,
)
    ensures
        ({
            let r = next(c, req, PhaseText::Start, Event::Begin);
            &&& is_drive(req.source@) ==> r == quiet(
                PhaseText::DriveDir,
                ActionText::MakeDir(req.dest_dir@),
            )
            &&& !is_drive(req.source@) && is_container(req.source@) ==> r == quiet(
                PhaseText::ContainerDir,
                ActionText::MakeDir(req.dest_dir@),
            )
            &&& !is_drive(req.source@) && !is_container(req.source@) ==> r == quiet(
                PhaseText::ImageScan,
                ActionText::ScanImage,
            )
        }),
        next(c, req, PhaseText::DriveDir, Event::DirMade(Ok(()))) == quiet(
            PhaseText::DriveScan,
            ActionText::ScanDrive(device_of(req.source@)),
        ),
        phase is DriveDir || phase is ContainerDir || phase is FolderDir || phase is ImageDir
            || phase is TitlesDir ==> next(c, req, phase, Event::DirMade(Err(why))).action
            == ActionText::Finish(Err(why@)),
{
}

/// Law: what can go wrong at a step is passed on as it was reported: no drive, a
/// drive or an image that cannot be scanned, an image that cannot be decrypted
/// or recovered. Nothing is ripped after that.
#[verifier::rlimit(60)]
pub proof fn law_failures_are_passed_on(
    c: Seq<(Seq<char>, Seq<char>)>,
    req: RipRequest,
    failure: ScanFailure,
    code: u16,
    scan: ScanText,
    path: Seq<char>,
    why: String,
)
    ensures
        !failure.no_drive ==> next(
            c,
            req,
            PhaseText::DriveScan,
            Event::DriveScanned(Err(failure)),
        ).action == ActionText::Finish(Err(failure.text@)),
        failure.no_drive ==> next(
            c,
            req,
            PhaseText::DriveScan,
            Event::DriveScanned(Err(failure)),
        ).action == ActionText::Finish(Err(NO_DRIVE@)),
        next(c, req, PhaseText::ImageScan, Event::ImageScanned(Err(code))).action matches
            ActionText::Finish(Err(e)) && starts_with(e, "E"@ + dec(code as nat)),
        next(c, req, PhaseText::Decrypting { dest: path }, Event::Decrypted(Err(why))).action matches
            ActionText::Finish(Err(e)) && ends_with(e, why@),
        next(
            c,
            req,
            PhaseText::Recovering { scan, iso: path },
            Event::Recovered(Err(why)),
        ).action matches ActionText::Finish(Err(e)) && ends_with(e, why@),
{
    lemma_starts("E"@ + dec(code as nat), " scan failed"@);
    lemma_starts("image decrypt failed: "@, why@);
    lemma_starts("recovery failed: "@, why@);
}

/// Law: a decrypted image is reported with its place; one that nothing could be
/// read into is removed and reported as a failure; the source is never written
/// over.
#[verifier::rlimit(60)]
pub proof fn law_decrypted_image_is_reported(
    c: Seq<(Seq<char>, Seq<char>)>,
    req: RipRequest,
    dest: Seq<char>,
    result: CopyResult,
)
    ensures
        ({
            let r = next(c, req, PhaseText::Decrypting { dest }, Event::Decrypted(Ok(result)));
            &&& result.bytes_good == 0 ==> r.action == ActionText::Remove(dest) && (r.phase matches
                PhaseText::Dropping { result: Err(_) })
            &&& result.bytes_good > 0 ==> (r.action matches ActionText::Finish(Ok(said))
                && has_text(said, dest) && has_text(said, result.good_gib@ + " GiB"@) && (
            result.halted <==> starts_with(said, "Cancelled"@)))
        }),
        next(c, req, PhaseText::Comparing { dest }, Event::Compared { same: true }).action matches
            ActionText::Finish(Err(_)),
        next(c, req, PhaseText::Comparing { dest }, Event::Compared { same: false }) == quiet(
            PhaseText::ImageDir { dest },
            ActionText::MakeDir(req.dest_dir@),
        ),
        next(c, req, PhaseText::ImageDir { dest }, Event::DirMade(Ok(()))).action == (
        ActionText::Decrypt { dest, raw: req.raw }),
{
    reveal_strlit("Cancelled");
    reveal_strlit("Cancelled — partial image kept: ");
    reveal_strlit("Decrypted image written: ");
    reveal_strlit(" GiB");
    reveal_strlit(" GiB recovered)");
    reveal_strlit(" GiB)");
    reveal_strlit(" GiB, ");
    if result.bytes_good > 0 {
        let said = image_summary(result, dest);
        let lead = if result.halted {
            "Cancelled — partial image kept: "@
        } else {
            "Decrypted image written: "@
        };
        let rest = said.skip((lead.len() + dest.len()) as int);
        lemma_has_part(lead, dest, rest);
        assert(lead + dest + rest =~= said);
        let mark = result.good_gib@ + " GiB"@;
        let pre = lead + dest + " ("@;
        let post = said.skip((pre.len() + mark.len()) as int);
        lemma_has_part(pre, mark, post);
        assert(pre + mark + post =~= said);
        assert(said[0] == lead[0]);
        if result.halted {
            assert(said.take(9) =~= "Cancelled"@);
        } else {
            assert(starts_with(said, "Cancelled"@) ==> said.take(9)[0] == 'C');
        }
    }
}

} // verus!
