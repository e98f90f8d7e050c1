use freemkv::disc::{AacsState, Disc, DiscFormat, DiscRegion, KeyOrigin, Title};
use freemkv::engine::identity::{
    needs_rescan, remap_against, remap_titles_by_identity, verify_selection_identity,
    verify_title_identity, TitleIdentity,
};
use freemkv::engine::naming::{
    container_word, demux_needs_subdirs, disc_device, extract_target, image_or_dir_scheme,
    image_target, is_disc_source, is_stream_source, out_kind, planned_output_name, sanitize_label,
    source_scheme, title_basename, title_destination, OutKind,
};
use freemkv::engine::request::{
    mux_opts, staged_request, stream_selection_for, title_input_options, title_session_mux_opts,
    KeyConfig, PidFilter, RipRequest, StreamSelection, TitleStreams,
};
use freemkv::engine::rip::{
    pinned_threads, recovery_plan, recovery_produced_no_data, recovery_raw,
    should_delete_staging_iso, step, Action, DiscPlan, Event, Next, Phase, ScanFailure, SourceScan,
    NO_DRIVE, RAW_REFUSAL,
};
use freemkv::engine::summary::{CopyResult, MuxOutcome, Recovery, RipOutcome};
use freemkv::engine::titles::{
    admit_title, choice_of, eject_line, extract_failed, preflight, preflight_job, rescan_failed,
    title_report, unreadable_lines, Choice, Ejection, ExtractedFile, Readiness, Tally,
};
use freemkv::strings::Catalog;

fn catalog() -> Catalog {
    Catalog {
        entries: Vec::new(),
    }
}

fn req() -> RipRequest {
    RipRequest {
        source: "/media/movie.iso".to_string(),
        dest_dir: "/out".to_string(),
        titles: vec![],
        title_ids: Vec::new(),
        format: "MKV".to_string(),
        audio_pids: vec![],
        sub_pids: vec![],
        title_pids: TitleStreams::Unspecified,
        explicit_streams: false,
        raw: false,
        force: false,
        filename_template: String::new(),
        decrypt_threads: 0,
        multipass: false,
        max_passes: 0,
        abort_lost_secs: 0,
        keep_iso: false,
        auto_eject: false,
        keys: KeyConfig::default(),
    }
}

fn drive_req() -> RipRequest {
    RipRequest {
        source: "disc:///dev/sg4".to_string(),
        ..req()
    }
}

#[test]
fn the_shipped_defaults_produce_a_recovery_the_engine_accepts() {
    // Rip mode "Multi-pass" with five passes, raw off, a title output.
    let multipass = true;
    let want_iso = matches!(out_kind("Selected titles → MKV"), OutKind::IsoImage);
    let user_raw = false;
    assert!(!want_iso);
    let raw = recovery_raw(multipass, want_iso, user_raw)
        .expect("the default settings must produce a runnable recovery");
    assert!(raw, "a multipass recovery must be raw");
}

fn scan(ids: Vec<TitleIdentity>) -> SourceScan {
    SourceScan {
        device: "/dev/sg4".to_string(),
        volume_id: "..\\evil/LABEL".to_string(),
        sizes: vec![0; ids.len()],
        ids,
    }
}

fn recovery() -> Recovery {
    Recovery {
        halted: false,
        aborted_for_loss: false,
        good_bytes: 1000,
        unreadable_bytes: 0,
        pending_bytes: 0,
        good_gib: "0.00".to_string(),
        unreadable_mib: "0.0".to_string(),
        pending_mib: "0.0".to_string(),
        lost_time: None,
    }
}

fn after(req: &RipRequest, phase: Phase, event: Event) -> Next {
    step(&catalog(), req, phase, event)
}

fn finish(next: Next) -> Result<String, String> {
    match next.action {
        Action::Finish(r) => r,
        other => panic!("not over: {other:?}"),
    }
}

#[test]
fn the_private_disc_seams_still_go_through_their_guards() {
    // The recovery takes its raw flag from `recovery_raw`, and its destination
    // from the label made harmless.
    let mut r = drive_req();
    r.multipass = true;
    r.max_passes = 5;
    r.abort_lost_secs = 30;
    let n = after(&r, Phase::DriveScan, Event::DriveScanned(Ok(scan(vec![]))));
    let iso = image_target("/out", "..\\evil/LABEL");
    assert_eq!(iso.matches('/').count(), 2, "{iso}");
    assert!(!iso.contains('\\'), "{iso}");
    match &n.action {
        Action::Recover {
            iso: dest,
            raw,
            max_passes,
            abort_lost_secs,
            is_iso,
        } => {
            assert!(*raw, "a multipass recovery is raw");
            assert_eq!(*dest, iso);
            assert_eq!((*max_passes, *abort_lost_secs), (5, 30));
            assert!(!*is_iso);
        }
        other => panic!("{other:?}"),
    }
    // The selection is resolved again against the recovered image.
    r.titles = vec![1];
    let ids = vec![id("00800.mpls", 1000), id("00001.mpls", 300)];
    let n = after(
        &r,
        Phase::Recovering {
            scan: scan(ids.clone()),
            iso: iso.clone(),
        },
        Event::Recovered(Ok(recovery())),
    );
    assert!(matches!(&n.action, Action::Rescan(p) if *p == iso));
    let n = after(
        &r,
        n.phase,
        Event::Rescanned(Ok(vec![id("00001.mpls", 300)])),
    );
    match n.action {
        Action::RunImage { titles, .. } => assert_eq!(titles, vec![0]),
        other => panic!("{other:?}"),
    }
    // The image that is decrypted goes where the label says, made harmless.
    let mut r = req();
    r.format = "Whole disc → ISO image".to_string();
    let n = after(&r, Phase::ImageScan, Event::ImageScanned(Ok(scan(vec![]))));
    assert!(matches!(&n.action, Action::Compare(p) if *p == iso));
    // Each title is compared with the one that was picked, and the reason why
    // it is refused is told.
    let e = admit_title(&ids, 0, Ok(vec![id("00001.mpls", 300)])).unwrap_err();
    assert!(e.contains("00800.mpls") && e.contains("00001.mpls"), "{e}");
    let e = admit_title(&ids, 0, Err("no disc".to_string())).unwrap_err();
    assert_eq!(e, "title 1: no disc");
    assert!(admit_title(&ids, 0, Ok(ids.clone())).is_ok());
}

#[test]
fn the_drive_rip_checks_the_selection_against_the_scan_it_was_made_on() {
    for format in ["MKV", "Whole disc → ISO image", "Whole disc → decrypted folder"] {
        let mut r = drive_req();
        r.format = format.to_string();
        r.titles = vec![0];
        r.title_ids = vec![id("00800.mpls", 1000)];
        let n = after(
            &r,
            Phase::DriveScan,
            Event::DriveScanned(Ok(scan(vec![id("00001.mpls", 300)]))),
        );
        let e = finish(n).unwrap_err();
        assert!(e.contains("00800.mpls") && e.contains("00001.mpls"), "{e}");
    }
    let mut r = drive_req();
    r.titles = vec![0];
    r.title_ids = vec![id("00800.mpls", 1000)];
    let n = after(
        &r,
        Phase::DriveScan,
        Event::DriveScanned(Ok(scan(vec![id("00800.mpls", 1000)]))),
    );
    assert!(matches!(n.action, Action::SelectTitles));
}

#[test]
fn the_image_rip_checks_the_selection_against_the_scan_it_was_made_on() {
    let mut r = req();
    r.titles = vec![0];
    r.title_ids = vec![id("00800.mpls", 1000)];
    let n = after(
        &r,
        Phase::ImageScan,
        Event::ImageScanned(Ok(scan(vec![id("00001.mpls", 300)]))),
    );
    let e = finish(n).unwrap_err();
    assert!(e.contains("00800.mpls") && e.contains("00001.mpls"), "{e}");
    // A whole-disc output has no selection to hold.
    r.format = "Whole disc → decrypted folder".to_string();
    let n = after(
        &r,
        Phase::ImageScan,
        Event::ImageScanned(Ok(scan(vec![id("00001.mpls", 300)]))),
    );
    assert!(matches!(n.action, Action::MakeDir(_)));
}

#[test]
fn the_gui_image_decrypt_asks_the_shared_same_file_question() {
    let mut r = req();
    r.format = "Whole disc → ISO image".to_string();
    let n = after(&r, Phase::ImageScan, Event::ImageScanned(Ok(scan(vec![]))));
    assert!(matches!(n.action, Action::Compare(_)));
    let n = after(&r, n.phase, Event::Compared { same: true });
    assert_eq!(
        finish(n).unwrap_err(),
        "The output image would overwrite the source. Choose a different output folder."
    );
    let n = after(
        &r,
        Phase::Comparing {
            dest: "/out/D.iso".to_string(),
        },
        Event::Compared { same: false },
    );
    let n = after(&r, n.phase, Event::DirMade(Ok(())));
    assert!(matches!(&n.action, Action::Decrypt { dest, raw: false } if dest == "/out/D.iso"));
    assert_eq!(n.log, vec!["decrypting image → /out/D.iso"]);
}

fn lossy() -> MuxOutcome {
    MuxOutcome {
        completed: true,
        errors: 0,
        lost_bytes: 0,
        lost_mb: "0.0".to_string(),
        undelivered_streams: vec![1],
    }
}

fn clean() -> MuxOutcome {
    MuxOutcome {
        undelivered_streams: vec![],
        ..lossy()
    }
}

#[test]
fn every_gui_mux_site_reports_the_streams_it_could_not_deliver() {
    // A converted container: its lines and its summary.
    let r = req();
    let converting = || Phase::Converting {
        target: "/out/a.mp4".to_string(),
    };
    let n = after(&r, converting(), Event::Muxed(Ok(lossy())));
    assert_eq!(n.log.len(), 3, "{:?}", n.log);
    assert_ne!(finish(n), Ok("Written to /out".to_string()));
    let n = after(&r, converting(), Event::Muxed(Ok(clean())));
    assert_eq!(n.log, vec!["wrote /out/a.mp4"]);
    assert_eq!(finish(n), Ok("Written to /out".to_string()));
    // A title, off an image or a drive.
    let t = title_report(
        &catalog(),
        0,
        OutKind::File("mp4"),
        "/out/a.mp4",
        &Ok(lossy()),
    );
    assert_eq!(t.lines.len(), 3, "{:?}", t.lines);
    assert!(t.written && !t.partial && !t.remove);
    let t = title_report(
        &catalog(),
        0,
        OutKind::File("mp4"),
        "/out/a.mp4",
        &Ok(clean()),
    );
    assert_eq!(t.lines, vec!["title 1 -> /out/a.mp4"]);
}

#[test]
fn a_title_that_failed_leaves_no_file_and_a_stopped_one_does() {
    let failed = Err("E7022: abc".to_string());
    let t = title_report(&catalog(), 1, OutKind::File("mkv"), "/out/a.mkv", &failed);
    assert!(t.remove && !t.written && !t.partial);
    assert!(t.lines[0].starts_with("Title 2: "), "{:?}", t.lines);
    let t = title_report(&catalog(), 1, OutKind::Demux("demux"), "/out/", &failed);
    assert!(!t.remove);
    let stopped = MuxOutcome {
        completed: false,
        ..clean()
    };
    let t = title_report(&catalog(), 1, OutKind::File("mkv"), "/out/a.mkv", &Ok(stopped));
    assert!(t.partial && !t.written && !t.remove);
    assert_eq!(
        t.lines,
        vec!["title 2 cancelled — partial output kept: /out/a.mkv"]
    );
    let mut tally = Tally {
        written: 0,
        partial: 0,
    };
    tally.count(&t);
    tally.count(&title_report(
        &catalog(),
        0,
        OutKind::File("mkv"),
        "/out/a.mkv",
        &Ok(clean()),
    ));
    assert_eq!((tally.written, tally.partial), (1, 1));
}

fn req_with_title_pids(pids: Vec<(usize, Vec<u16>, Vec<u16>)>) -> RipRequest {
    RipRequest {
        explicit_streams: true,
        audio_pids: vec![0x1100, 0x1101],
        sub_pids: vec![0x1200],
        title_pids: TitleStreams::PerTitle(pids),
        ..req()
    }
}

fn only(f: &PidFilter) -> Vec<u16> {
    match f {
        PidFilter::Only(v) => v.clone(),
        PidFilter::All => panic!("an explicit selection must be a PidFilter::Only"),
    }
}

fn is_all(s: &StreamSelection) -> bool {
    matches!(s.audio, PidFilter::All) && matches!(s.subtitle, PidFilter::All)
}

#[test]
fn a_pid_unticked_under_one_title_is_not_written_for_that_title() {
    let r = req_with_title_pids(vec![
        (0, vec![0x1100, 0x1101], vec![0x1200]),
        (1, vec![0x1100], vec![0x1200]),
    ]);
    assert_eq!(
        only(&stream_selection_for(&r, Some(0)).audio),
        vec![0x1100, 0x1101]
    );
    assert_eq!(
        only(&stream_selection_for(&r, Some(1)).audio),
        vec![0x1100],
        "the commentary was unticked for title 1"
    );
}

#[test]
fn a_live_drive_rip_applies_each_title_s_own_ticks() {
    let r = req_with_title_pids(vec![
        (0, vec![0x1100, 0x1101], vec![0x1200]),
        (1, vec![0x1100], vec![0x1200]),
    ]);
    let audio_of = |idx: usize| only(&title_session_mux_opts(&r, idx).selection.audio);
    assert_eq!(audio_of(0), vec![0x1100, 0x1101]);
    assert_eq!(audio_of(1), vec![0x1100]);
    let base = mux_opts(&r);
    let o = title_session_mux_opts(&r, 1);
    assert_eq!(o.raw, base.raw);
    assert_eq!(o.batch_sectors, base.batch_sectors);
    assert_eq!(o.skip_errors, base.skip_errors);
    assert_eq!(o.send_deadline_secs, base.send_deadline_secs);
}

#[test]
fn without_a_per_title_breakdown_the_union_still_applies() {
    let r = RipRequest {
        title_pids: TitleStreams::Unspecified,
        ..req_with_title_pids(Vec::new())
    };
    for t in [None, Some(0), Some(7)] {
        let s = stream_selection_for(&r, t);
        assert_eq!(
            only(&s.audio),
            [0x1100, 0x1101],
            "the union must reach title {t:?}"
        );
        assert_eq!(
            only(&s.subtitle),
            [0x1200],
            "the union must reach title {t:?}"
        );
    }
}

#[test]
fn a_title_the_breakdown_never_mentions_falls_back_to_the_union() {
    let r = req_with_title_pids(vec![(0, vec![0x1100], vec![])]);
    assert_eq!(
        only(&stream_selection_for(&r, Some(9)).audio),
        [0x1100, 0x1101]
    );
    let emptied = req_with_title_pids(vec![(0, vec![0x1100], vec![]), (1, vec![], vec![])]);
    assert!(
        only(&stream_selection_for(&emptied, Some(1)).audio).is_empty(),
        "an empty entry is a decision, not a missing one"
    );
}

#[test]
fn a_title_the_user_emptied_rips_no_streams_at_all() {
    // Two titles share their streams; every row under the second is cleared.
    let r = RipRequest {
        explicit_streams: true,
        audio_pids: vec![0x1100, 0x1101],
        sub_pids: vec![0x1200],
        title_pids: TitleStreams::PerTitle(vec![
            (0, vec![0x1100, 0x1101], vec![0x1200]),
            (1, vec![], vec![]),
        ]),
        ..req()
    };
    let sel = |ti: usize| {
        let s = stream_selection_for(&r, Some(ti));
        (only(&s.audio), only(&s.subtitle))
    };
    assert_eq!(
        sel(0),
        (vec![0x1100u16, 0x1101], vec![0x1200u16]),
        "title 0 was left alone and must keep exactly what is ticked there"
    );
    assert_eq!(
        sel(1),
        (Vec::<u16>::new(), Vec::<u16>::new()),
        "the user cleared every row under title 1"
    );
    assert!(
        only(&title_session_mux_opts(&r, 1).selection.audio).is_empty(),
        "the drive path kept tracks title 1 cleared"
    );
}

#[test]
fn an_untouched_selection_keeps_every_stream_for_every_title() {
    let r = RipRequest {
        explicit_streams: false,
        title_pids: TitleStreams::PerTitle(vec![(0, vec![0x1100], vec![])]),
        ..req()
    };
    assert!(is_all(&stream_selection_for(&r, Some(0))));
    assert!(is_all(&stream_selection_for(&r, None)));
}

fn title(playlist: &str, start_lba: u32) -> Title {
    Title {
        playlist: playlist.to_string(),
        playlist_id: playlist
            .trim_end_matches(".mpls")
            .parse::<u16>()
            .unwrap_or(0),
        duration_secs: 7530,
        duration_tenths: "7530.0".to_string(),
        duration_rounded: "7530".to_string(),
        size_bytes: 20 << 30,
        size_gb: "21.5".to_string(),
        size_text: "20.0 GB".to_string(),
        clips: Vec::new(),
        streams: Vec::new(),
        chapters: 0,
        extents: vec![(start_lba, 1000)],
        has_video: true,
        has_probable_video: true,
    }
}

fn id(playlist: &str, start_lba: u32) -> TitleIdentity {
    TitleIdentity::of(&title(playlist, start_lba))
}

#[test]
fn a_selection_follows_its_titles_when_the_rescan_renumbers_them() {
    let picked = vec![0usize, 2];
    let ids = vec![
        id("00800.mpls", 1000),
        id("00001.mpls", 5000),
        id("00003.mpls", 13000),
    ];
    let staged = vec![id("00800.mpls", 1000), id("00003.mpls", 13000)];
    assert_eq!(
        remap_against(&picked, &ids, &staged),
        Ok(vec![0, 1]),
        "the trailer moved from index 2 to 1 and must be followed"
    );
    assert_eq!(
        remap_titles_by_identity(&picked, &ids, &staged),
        Ok(vec![0, 1])
    );
    assert!(needs_rescan(&picked, &ids));
}

#[test]
fn duplicate_playlist_names_are_told_apart_by_their_sectors() {
    let picked = vec![1usize];
    let ids = vec![id("00800.mpls", 1000), id("00800.mpls", 9000)];
    let staged = vec![id("00800.mpls", 1000), id("00800.mpls", 9000)];
    assert_eq!(remap_against(&picked, &ids, &staged), Ok(vec![1]));
}

fn dup_title(start_lba: u32) -> Title {
    title("00800.mpls", start_lba)
}

#[test]
fn a_duplicate_playlist_of_the_same_length_is_still_told_apart_by_its_sectors() {
    let first = TitleIdentity::of(&dup_title(1000));
    let second = TitleIdentity::of(&dup_title(9000));
    assert!(
        !first.same(&second),
        "same name and duration, different sectors — not the same title"
    );
    assert_eq!(
        remap_against(
            &[1],
            &vec![first.clone(), second.clone()],
            &vec![first, second.clone()]
        ),
        Ok(vec![1]),
        "the second of a duplicate pair must remap to index 1"
    );
}

#[test]
fn a_duplicate_playlist_swapped_by_the_rescan_is_refused_not_muxed() {
    let first = TitleIdentity::of(&dup_title(1000));
    let second = TitleIdentity::of(&dup_title(9000));
    let rescan = vec![first, second.clone()];
    assert!(
        verify_title_identity(Some(&second), &rescan, 0).is_err(),
        "index 0 now names the other half of the duplicate pair"
    );
}

#[test]
fn a_reordered_rescan_stops_the_mux_instead_of_writing_the_wrong_title() {
    let picked = [id("00800.mpls", 7530), id("00001.mpls", 300)];
    let rescan = vec![id("00001.mpls", 300), id("00800.mpls", 7530)];
    let e = verify_title_identity(picked.first(), &rescan, 0)
        .expect_err("index 0 now names 00001.mpls, not the picked feature");
    assert!(
        e.contains("00800.mpls") && e.contains("00001.mpls"),
        "the message must name both titles: {e}"
    );
}

#[test]
fn a_rescan_that_drops_an_earlier_title_is_refused_not_shifted() {
    let picked = [
        id("00800.mpls", 7530),
        id("00001.mpls", 300),
        id("00003.mpls", 120),
    ];
    let rescan = vec![id("00800.mpls", 7530), id("00003.mpls", 120)];
    assert!(verify_title_identity(picked.get(1), &rescan, 1).is_err());
}

#[test]
fn a_stable_rescan_passes_every_selected_title() {
    let picked = [id("00800.mpls", 7530), id("00001.mpls", 300)];
    let rescan = vec![
        id("00800.mpls", 7530),
        id("00001.mpls", 300),
        id("00003.mpls", 120),
    ];
    for idx in 0..picked.len() {
        assert_eq!(verify_title_identity(picked.get(idx), &rescan, idx), Ok(()));
    }
    let shorter = vec![id("00800.mpls", 7530), id("00001.mpls", 300)];
    assert_eq!(verify_title_identity(picked.get(1), &shorter, 1), Ok(()));
}

#[test]
fn with_no_recorded_identity_the_index_is_used_as_before() {
    let rescan = vec![id("00800.mpls", 7530)];
    assert_eq!(verify_title_identity(None, &rescan, 0), Ok(()));
}

#[test]
fn a_title_missing_from_the_rescan_is_named() {
    let picked = [id("00800.mpls", 7530), id("00001.mpls", 300)];
    let e =
        verify_title_identity(picked.get(1), &picked[..1].to_vec(), 1).expect_err("must refuse");
    assert!(e.contains("00001.mpls"), "{e}");
}

#[test]
fn a_crafted_playlist_name_cannot_reach_the_ui_raw() {
    let picked = [id("\u{1b}c00800.mpls", 7530)];
    let rescan = vec![id("00001.mpls", 300)];
    let e = verify_title_identity(picked.first(), &rescan, 0).expect_err("must refuse");
    assert!(!e.contains('\u{1b}'), "ESC survived into the UI: {e:?}");
}

#[test]
fn a_title_destroyed_by_the_damage_is_refused_not_skipped() {
    let picked = vec![0usize, 1];
    let ids = vec![id("00800.mpls", 7530), id("00001.mpls", 300)];
    let staged = vec![id("00800.mpls", 7530)];
    let e = remap_against(&picked, &ids, &staged).expect_err("must refuse");
    assert!(
        e.contains("00001.mpls") && e.contains("2"),
        "the message must name the title the user asked for: {e}"
    );
}

#[test]
fn an_empty_selection_is_left_alone() {
    assert_eq!(remap_against(&[], &vec![], &vec![]), Ok(vec![]));
}

#[test]
fn an_uncaptured_title_does_not_disarm_the_rest_of_the_selection() {
    let picked = vec![0usize, 1, 2];
    let ids = vec![id("00800.mpls", 1000), id("00001.mpls", 300)];
    let staged = vec![
        id("00001.mpls", 300),
        id("00800.mpls", 1000),
        id("00003.mpls", 13000),
    ];
    assert_eq!(
        remap_against(&picked, &ids, &staged),
        Ok(vec![1, 0, 2]),
        "only the one with no identity falls back to its number"
    );
}

#[test]
fn a_selection_made_against_an_earlier_scan_is_refused_when_the_disc_changed() {
    let when_ticked = vec![id("00800.mpls", 1000), id("00003.mpls", 13000)];
    let fresh = vec![id("00001.mpls", 300), id("00003.mpls", 13000)];
    let e = verify_selection_identity(&[0], &when_ticked, &fresh)
        .expect_err("title 1 is not the title the user ticked");
    assert!(
        e.contains("00800.mpls") && e.contains("00001.mpls"),
        "the message must name both titles: {e}"
    );
}

#[test]
fn a_selection_that_still_matches_the_fresh_scan_is_allowed() {
    let when_ticked = vec![id("00800.mpls", 1000), id("00003.mpls", 13000)];
    let fresh = when_ticked.clone();
    assert_eq!(
        verify_selection_identity(&[0, 1], &when_ticked, &fresh),
        Ok(())
    );
    assert_eq!(
        verify_selection_identity(&[0, 1], &vec![], &fresh),
        Ok(()),
        "no identities captured is the pre-existing behaviour, untouched"
    );
}

#[test]
fn a_selected_number_the_fresh_scan_no_longer_has_is_refused() {
    let when_ticked = vec![id("00800.mpls", 1000), id("00003.mpls", 13000)];
    let fresh = vec![id("00800.mpls", 1000)];
    assert!(verify_selection_identity(&[1], &when_ticked, &fresh).is_err());
}

#[test]
fn a_single_pass_recovery_keeps_the_users_raw_setting() {
    assert_eq!(recovery_raw(false, true, false), Ok(false));
    assert_eq!(recovery_raw(false, true, true), Ok(true));
}

#[test]
fn a_decrypted_iso_from_a_multipass_recovery_is_refused_before_the_drive() {
    let e = recovery_raw(true, true, false).expect_err("this cannot be honoured");
    assert!(
        e.contains("Single pass") && e.contains("raw"),
        "the refusal must name both ways out, got: {e}"
    );
    assert_eq!(e, RAW_REFUSAL);
    assert_eq!(recovery_raw(true, true, true), Ok(true));
}

#[test]
fn only_a_disc_url_is_a_disc_source() {
    assert!(is_disc_source("disc://"));
    assert!(is_disc_source("disc:///dev/sr0"));
    assert!(!is_disc_source("/media/movie.iso"));
    assert!(!is_disc_source("iso:///media/movie.iso"));
    assert!(!is_disc_source(""));
    assert!(!is_disc_source("mkv:///x.mkv"));
}

#[test]
fn the_device_path_is_whatever_follows_the_scheme() {
    assert_eq!(disc_device("disc://"), None);
    assert_eq!(disc_device("disc:///dev/sr0").as_deref(), Some("/dev/sr0"));
    assert_eq!(
        disc_device("disc://\\\\.\\D:").as_deref(),
        Some("\\\\.\\D:")
    );
    assert_eq!(disc_device("/media/movie.iso"), None);
}

#[test]
fn container_extensions_are_stream_sources_and_iso_is_not() {
    for good in ["a.mkv", "a.m2ts", "a.mts", "a.mp4", "A.MKV", "/p/a.Mp4"] {
        assert!(is_stream_source(good), "{good} should be a stream source");
    }
    for bad in ["a.iso", "a.bin", "", "disc://", "/no/extension"] {
        assert!(!is_stream_source(bad), "{bad} must not be a stream source");
    }
}

#[test]
fn the_source_scheme_follows_the_extension() {
    assert_eq!(source_scheme("a.mkv"), "mkv");
    assert_eq!(source_scheme("a.MKV"), "mkv");
    assert_eq!(source_scheme("a.mp4"), "mp4");
    assert_eq!(source_scheme("a.iso"), "iso");
    assert_eq!(source_scheme("a.m2ts"), "m2ts");
    assert_eq!(source_scheme("a.mts"), "m2ts");
    assert_eq!(source_scheme(""), "m2ts");
}

#[test]
fn image_or_dir_scheme_is_not_source_scheme() {
    for p in ["Disc.img", "Disc.bin", "Disc.udf", "Disc"] {
        assert_eq!(
            image_or_dir_scheme(false),
            "iso",
            "{p} is a disc image, not an elementary stream"
        );
        assert_eq!(source_scheme(p), "m2ts");
    }
    assert_eq!(image_or_dir_scheme(true), "dir");
}

fn sink_marker(k: OutKind) -> String {
    match k {
        OutKind::DecryptedFolder => "folder".to_string(),
        OutKind::IsoImage => "iso".to_string(),
        OutKind::Demux(scheme) => scheme.to_string(),
        OutKind::File(s) => s.to_string(),
    }
}

#[test]
fn every_picker_format_maps_to_its_own_sink() {
    let cases: &[(&str, &str)] = &[
        ("Whole disc → decrypted folder", "folder"),
        ("Whole disc → ISO image", "iso"),
        ("Each title → separate track files", "demux"),
        ("Each title → MP4 file", "mp4"),
        ("Each title → M2TS file", "m2ts"),
        ("Chapters only (XML)", "chapters"),
        ("Title index (JSON)", "json"),
        ("Title index (.fvi)", "fvi"),
        ("Each title → MKV file", "mkv"),
        ("", "mkv"),
    ];
    for (format, want) in cases {
        let got = sink_marker(out_kind(format));
        assert_eq!(&got, want, "format {format:?} resolved to {got:?}");
    }
}

#[test]
fn the_real_picker_strings_each_reach_their_own_sink() {
    let want: &[(&str, &str)] = &[
        ("Selected titles → MKV", "mkv"),
        ("Selected titles → MP4", "mp4"),
        ("Selected titles → M2TS", "m2ts"),
        ("Selected titles → separate track files", "demux"),
        ("Selected titles → video tracks only", "video"),
        ("Selected titles → audio tracks only", "audio"),
        ("Selected titles → subtitle tracks only", "sub"),
        ("Whole disc → ISO image", "iso"),
        ("Whole disc → decrypted folder", "folder"),
        ("Chapters → file", "chapters"),
        ("Title info → JSON", "json"),
        ("Video index → .fvi", "fvi"),
    ];
    for (format, marker) in want {
        assert_eq!(
            &sink_marker(out_kind(format)),
            marker,
            "{format:?} resolved to the wrong sink"
        );
    }
    let mut markers: Vec<String> = want
        .iter()
        .map(|(f, _)| sink_marker(out_kind(f)))
        .collect();
    markers.sort();
    let n = markers.len();
    markers.dedup();
    assert_eq!(n, markers.len(), "two picker entries share a sink");
}

#[test]
fn per_track_kind_sinks_are_directory_urls() {
    for (format, scheme) in [
        ("Selected titles → video tracks only", "video"),
        ("Selected titles → audio tracks only", "audio"),
        ("Selected titles → subtitle tracks only", "sub"),
    ] {
        match out_kind(format) {
            OutKind::Demux(s) => assert_eq!(s, scheme),
            other => panic!("{format:?} is {:?}, not a demux sink", sink_marker(other)),
        }
        assert_eq!(
            title_destination(out_kind(format), "/out", "", "D", 0, false).0,
            format!("{scheme}:///out/")
        );
    }
}

#[test]
fn explicit_track_ticks_survive_into_the_mux() {
    let mut r = req();
    r.explicit_streams = true;
    r.audio_pids = vec![4352];
    r.sub_pids = vec![];
    let sel = stream_selection_for(&r, None);
    assert_eq!(only(&sel.audio), vec![4352]);
    assert_eq!(only(&sel.subtitle), Vec::<u16>::new());
    assert!(!is_all(&sel), "an explicit selection is never All/All");

    r.explicit_streams = false;
    assert!(is_all(&stream_selection_for(&r, None)));
}

#[test]
fn mux_options_carry_raw_the_batch_size_and_the_send_deadline() {
    let mut r = req();
    r.raw = true;
    let o = mux_opts(&r);
    assert!(o.raw, "raw passthrough must reach the mux");
    assert_eq!(o.batch_sectors, 64);
    assert_eq!(o.send_deadline_secs, Some(60));
    assert!(!o.skip_errors);
    assert!(is_all(&o.selection));

    r.raw = false;
    assert!(!mux_opts(&r).raw);
}

fn disc(encrypted: bool) -> Disc {
    Disc {
        volume_id: "T".to_string(),
        meta_title: None,
        format: DiscFormat::BluRay,
        capacity_bytes: 2048,
        capacity_gb: "0.0".to_string(),
        layers: 1,
        titles: vec![],
        region: DiscRegion::Free,
        aacs: None,
        css: false,
        css_error: false,
        encrypted,
    }
}

#[test]
fn per_title_input_options_carry_the_index_the_keys_and_the_selection() {
    let mut d = disc(true);
    let keys = vec![(0u32, vec![7u8; 16]), (1u32, vec![9u8; 16])];
    d.aacs = Some(AacsState {
        version: 1,
        bus_encryption: false,
        mkb_version: None,
        disc_hash: String::new(),
        key_source: KeyOrigin::ExternalUk,
        vuk: None,
        unit_keys: keys.clone(),
        volume_id: vec![0; 16],
    });

    let mut r = req();
    r.explicit_streams = true;
    r.audio_pids = vec![4353, 4354];
    r.title_pids = TitleStreams::PerTitle(vec![
        (0, vec![4353, 4354], vec![]),
        (3, vec![4353], vec![]),
    ]);

    for idx in [0usize, 3] {
        let input = title_input_options(&d, &r, idx);
        assert_eq!(input.title_index, Some(idx));
        assert_eq!(
            input.unit_keys, keys,
            "the resolved AACS keys must be passed"
        );
        let want: Vec<u16> = if idx == 0 {
            vec![4353, 4354]
        } else {
            vec![4353]
        };
        assert_eq!(
            only(&input.selection.audio),
            want,
            "title {} must be muxed with exactly its OWN ticked audio",
            idx + 1
        );
    }
    assert!(title_input_options(&disc(false), &r, 0).unit_keys.is_empty());
}

#[test]
fn a_multi_title_demux_gives_each_title_its_own_directory() {
    assert!(!demux_needs_subdirs(1));
    assert!(demux_needs_subdirs(2));
    assert!(demux_needs_subdirs(12));
    assert!(!demux_needs_subdirs(0));
    let place = |idx, multi| title_destination(OutKind::Demux("demux"), "/out", "", "D", idx, multi);
    assert_eq!(
        place(0, true),
        ("demux:///out/t01/".to_string(), "/out/t01/".to_string())
    );
    assert_eq!(place(4, false).1, "/out/");
    assert_eq!(place(9, true).1, "/out/t10/");
    assert_eq!(place(99, true).1, "/out/t100/");
}

#[test]
fn multipass_and_iso_output_both_route_through_recovery() {
    assert_eq!(
        recovery_plan(OutKind::File("mkv"), true),
        DiscPlan::Recover { deliver_iso: false }
    );
    assert_eq!(
        recovery_plan(OutKind::IsoImage, false),
        DiscPlan::Recover { deliver_iso: true }
    );
    assert_eq!(
        recovery_plan(OutKind::IsoImage, true),
        DiscPlan::Recover { deliver_iso: true }
    );
    assert_eq!(
        recovery_plan(OutKind::File("mkv"), false),
        DiscPlan::PerTitle
    );
    assert_eq!(
        recovery_plan(OutKind::Demux("demux"), false),
        DiscPlan::PerTitle
    );
    assert_eq!(
        recovery_plan(OutKind::DecryptedFolder, false),
        DiscPlan::PerTitle
    );
}

#[test]
fn only_a_zero_byte_recovery_has_nothing_to_mux() {
    assert!(recovery_produced_no_data(0));
    assert!(!recovery_produced_no_data(1));
    assert!(!recovery_produced_no_data(50_000_000_000));
}

#[test]
fn the_staging_iso_is_kept_only_when_keep_iso_is_set() {
    assert!(should_delete_staging_iso(false, true, false));
    assert!(!should_delete_staging_iso(true, true, false));
}

#[test]
fn a_cancelled_mux_keeps_the_staging_iso() {
    assert!(!should_delete_staging_iso(false, true, true));
}

#[test]
fn a_failed_mux_keeps_the_staging_iso() {
    assert!(!should_delete_staging_iso(false, false, false));
    assert!(!should_delete_staging_iso(false, false, true));
}

fn staged() -> Phase {
    Phase::MuxingStaged {
        iso: "/out/D.iso".to_string(),
        note: "!".to_string(),
    }
}

#[test]
fn a_rip_through_a_recovered_image_says_what_became_of_it() {
    let ran = |req: &RipRequest, result: Result<String, String>, cancelled| {
        after(req, staged(), Event::ImageRun { result, cancelled })
    };
    // Written, and the image goes.
    let n = ran(&drive_req(), Ok("done".to_string()), false);
    assert!(matches!(&n.action, Action::Remove(p) if p == "/out/D.iso"));
    let n = after(&drive_req(), n.phase, Event::Removed);
    assert_eq!(finish(n), Ok("done!".to_string()));
    // Written, and the image stays.
    let keep = RipRequest {
        keep_iso: true,
        ..drive_req()
    };
    assert_eq!(
        finish(ran(&keep, Ok("done".to_string()), false)),
        Ok("done!".to_string())
    );
    // Stopped, and failed.
    assert_eq!(
        finish(ran(&drive_req(), Ok("done".to_string()), true)),
        Ok("Cancelled — the recovered image is kept: /out/D.iso".to_string())
    );
    assert_eq!(
        finish(ran(&drive_req(), Err("no key".to_string()), false)),
        Err("no key — the recovered image is kept: /out/D.iso".to_string())
    );
}

#[test]
fn a_recovery_ends_by_what_it_could_read() {
    let read = |format: &str, recovery: Recovery| {
        let r = RipRequest {
            format: format.to_string(),
            multipass: true,
            raw: true,
            ..drive_req()
        };
        after(
            &r,
            Phase::Recovering {
                scan: scan(vec![]),
                iso: "/out/D.iso".to_string(),
            },
            Event::Recovered(Ok(recovery)),
        )
    };
    let iso = "Whole disc → ISO image";
    assert_eq!(
        finish(read(iso, recovery())),
        Ok("ISO image written to /out/D.iso".to_string())
    );
    let halted = || Recovery {
        halted: true,
        ..recovery()
    };
    assert_eq!(
        finish(read(iso, halted())),
        Ok("Cancelled — partial ISO kept: /out/D.iso".to_string())
    );
    assert_eq!(
        finish(read("MKV", halted())),
        Ok("Cancelled — nothing muxed; partial ISO kept: /out/D.iso".to_string())
    );
    let lost = || Recovery {
        aborted_for_loss: true,
        ..recovery()
    };
    assert!(finish(read(iso, lost())).is_err());
    assert!(finish(read("MKV", lost())).is_err());
    // Nothing at all could be read.
    let n = read(
        "MKV",
        Recovery {
            good_bytes: 0,
            ..recovery()
        },
    );
    assert!(matches!(&n.action, Action::Remove(p) if p == "/out/D.iso"));
    let n = after(&drive_req(), n.phase, Event::Removed);
    assert_eq!(
        finish(n),
        Err("Recovery produced no readable data — nothing to mux.".to_string())
    );
    // Something could: it is muxed.
    let n = read("MKV", recovery());
    assert!(matches!(n.action, Action::RunImage { .. }));
    // The recovery itself failed.
    let n = after(
        &drive_req(),
        Phase::Recovering {
            scan: scan(vec![]),
            iso: "/out/D.iso".to_string(),
        },
        Event::Recovered(Err("E6000".to_string())),
    );
    assert_eq!(finish(n), Err("recovery failed: E6000".to_string()));
}

#[test]
fn a_disc_is_put_out_once_and_only_if_that_was_asked_for() {
    let eject = RipRequest {
        auto_eject: true,
        ..drive_req()
    };
    let n = after(
        &eject,
        Phase::Selecting {
            scan: scan(vec![]),
            drive: true,
        },
        Event::Selected(vec![0]),
    );
    match &n.action {
        Action::RunTitles {
            indices,
            multi,
            drive,
            ..
        } => {
            assert_eq!(*indices, vec![0]);
            assert!(!*multi && *drive);
        }
        other => panic!("{other:?}"),
    }
    let done = || Event::TitlesDone {
        outcome: RipOutcome::Done,
        written: 1,
        partial: 0,
    };
    let n = after(&eject, n.phase, done());
    assert!(matches!(&n.action, Action::Eject(d) if d == "/dev/sg4"));
    let n = after(&eject, n.phase, Event::Ejected);
    assert_eq!(finish(n), Ok("1 title(s) written to /out".to_string()));
    let n = after(
        &drive_req(),
        Phase::Titles {
            eject: None,
            total: 1,
        },
        done(),
    );
    assert!(matches!(n.action, Action::Finish(Ok(_))));
}

#[test]
fn an_image_rip_runs_from_the_scan_to_the_titles() {
    let r = req();
    let n = after(&r, Phase::Start, Event::Begin);
    assert!(matches!(n.action, Action::ScanImage));
    let n = after(&r, n.phase, Event::ImageScanned(Ok(scan(vec![]))));
    assert!(matches!(n.action, Action::SelectTitles));
    let n = after(&r, n.phase, Event::Selected(vec![0, 3]));
    assert_eq!(n.log, vec!["selection resolved to titles [0, 3]"]);
    assert!(matches!(n.action, Action::MakeDir(_)));
    let n = after(&r, n.phase, Event::DirMade(Ok(())));
    match &n.action {
        Action::RunTitles { multi, drive, .. } => assert!(*multi && !*drive),
        other => panic!("{other:?}"),
    }
    // Nothing is there to rip.
    let n = after(
        &r,
        Phase::Selecting {
            scan: scan(vec![]),
            drive: false,
        },
        Event::Selected(vec![]),
    );
    assert_eq!(n.log, vec!["selection resolved to titles []"]);
    assert_eq!(finish(n), Err("Nothing selected to rip.".to_string()));
    // The scan fails.
    let n = after(&r, Phase::ImageScan, Event::ImageScanned(Err(6000)));
    assert_eq!(finish(n), Err("E6000 scan failed".to_string()));
    // The destination cannot be made.
    let n = after(
        &r,
        Phase::TitlesDir {
            label: "D".to_string(),
            indices: vec![0],
        },
        Event::DirMade(Err("denied".to_string())),
    );
    assert_eq!(finish(n), Err("denied".to_string()));
}

#[test]
fn an_image_is_decrypted_unless_nothing_can_be_read() {
    let r = req();
    let decrypting = || Phase::Decrypting {
        dest: "/out/D.iso".to_string(),
    };
    let copy = |good: u64| CopyResult {
        halted: false,
        complete: true,
        bytes_good: good,
        bytes_unreadable: 0,
        bytes_pending: 0,
        good_gib: "1.00".to_string(),
        unreadable_mib: "0.0".to_string(),
        pending_mib: "0.0".to_string(),
    };
    let n = after(&r, decrypting(), Event::Decrypted(Ok(copy(5))));
    assert_eq!(
        finish(n),
        Ok("Decrypted image written: /out/D.iso (1.00 GiB)".to_string())
    );
    let n = after(&r, decrypting(), Event::Decrypted(Ok(copy(0))));
    assert!(matches!(n.action, Action::Remove(_)));
    let n = after(&r, n.phase, Event::Removed);
    assert_eq!(
        finish(n),
        Err("No readable data — no image was written.".to_string())
    );
    let n = after(&r, decrypting(), Event::Decrypted(Err("E1".to_string())));
    assert_eq!(finish(n), Err("image decrypt failed: E1".to_string()));
}

#[test]
fn a_container_is_converted_and_never_a_whole_disc() {
    let mut r = RipRequest {
        source: "/in/Movie.m2ts".to_string(),
        format: "Selected titles → MKV".to_string(),
        explicit_streams: true,
        ..req()
    };
    let n = after(&r, Phase::Start, Event::Begin);
    assert!(matches!(n.action, Action::MakeDir(_)));
    let n = after(&r, n.phase, Event::DirMade(Ok(())));
    match &n.action {
        Action::Mux {
            src_url,
            dest_url,
            target,
        } => {
            assert_eq!(src_url, "m2ts:///in/Movie.m2ts");
            assert_eq!(*dest_url, format!("mkv://{target}"));
            assert!(target.starts_with("/out/") && target.ends_with(".mkv"), "{target}");
        }
        other => panic!("{other:?}"),
    }
    assert_eq!(n.log.len(), 1);
    let n = after(&r, n.phase, Event::Muxed(Err("E2".to_string())));
    assert_eq!(finish(n), Err("convert failed: E2".to_string()));
    r.format = "Whole disc → ISO image".to_string();
    let n = after(&r, Phase::ContainerDir, Event::DirMade(Ok(())));
    assert_eq!(
        finish(n),
        Err("That output is for a disc source — open an ISO or disc to use it.".to_string())
    );
    r.format = "Selected titles → separate track files".to_string();
    let n = after(&r, Phase::ContainerDir, Event::DirMade(Ok(())));
    match &n.action {
        Action::Mux {
            dest_url, target, ..
        } => {
            assert_eq!(dest_url, "demux:///out/");
            assert_eq!(target, "/out/ (per-track files)");
        }
        other => panic!("{other:?}"),
    }
}

#[test]
fn a_folder_is_unpacked_only_into_an_empty_place() {
    let mut r = drive_req();
    r.format = "Whole disc → decrypted folder".to_string();
    r.auto_eject = true;
    let n = after(&r, Phase::DriveScan, Event::DriveScanned(Ok(scan(vec![]))));
    let dest = extract_target("/out", "..\\evil/LABEL");
    assert!(matches!(&n.action, Action::CheckFolder(p) if *p == dest));
    let checked = || Phase::FolderCheck {
        dest: dest.clone(),
        eject: Some("/dev/sg4".to_string()),
    };
    let n = after(&r, checked(), Event::FolderChecked { non_empty: true });
    assert!(matches!(n.action, Action::Eject(_)));
    let n = after(&r, n.phase, Event::Ejected);
    assert!(finish(n).is_err());
    let n = after(&r, checked(), Event::FolderChecked { non_empty: false });
    assert!(matches!(n.action, Action::Extract(_)));
    assert_eq!(n.log, vec![format!("extracting decrypted file tree → {dest}")]);
}

#[test]
fn a_drive_that_cannot_be_scanned_says_why() {
    let failed = |no_drive| {
        after(
            &drive_req(),
            Phase::DriveScan,
            Event::DriveScanned(Err(ScanFailure {
                no_drive,
                text: "E1001".to_string(),
            })),
        )
    };
    assert_eq!(finish(failed(true)), Err(NO_DRIVE.to_string()));
    assert_eq!(finish(failed(false)), Err("E1001".to_string()));
    // Work that cannot be begun ends the rip.
    let n = after(
        &drive_req(),
        Phase::DriveScan,
        Event::Broken("could not stage the drive for recovery".to_string()),
    );
    assert!(finish(n).is_err());
    // What is over stays over.
    let n = after(
        &drive_req(),
        Phase::Over {
            result: Ok("x".to_string()),
        },
        Event::Begin,
    );
    assert!(matches!(n.action, Action::Wait));
}

#[test]
fn the_decrypting_threads_are_set_only_where_something_is_decrypted() {
    let with = |source: &str, n| {
        pinned_threads(&RipRequest {
            source: source.to_string(),
            decrypt_threads: n,
            ..req()
        })
    };
    assert_eq!(with("disc://", 4), Some(4));
    assert_eq!(with("/a.iso", 4), Some(4));
    assert_eq!(with("/a.iso", 0), None);
    assert_eq!(with("/a.mkv", 4), None);
}

#[test]
fn a_rip_is_asked_about_before_it_runs() {
    let j = preflight_job("/in/d.iso", false, "/out", &[2]);
    assert_eq!(j.source, "iso:///in/d.iso");
    assert_eq!(j.dest, "/out");
    assert!(matches!(j.choice, Choice::Titles(v) if v == vec![2]));
    assert!(matches!(choice_of(&[]), Choice::MainMovie));
    assert_eq!(preflight(Ok(Readiness::Ready)), Ok(vec![]));
    assert_eq!(
        preflight(Ok(Readiness::Blocked(vec!["no_key".to_string()]))),
        Ok(vec!["no_key".to_string()])
    );
    assert_eq!(preflight(Err(6000)), Err("E6000".to_string()));
    assert_eq!(
        rescan_failed(7),
        "could not re-scan the recovered image (E7)."
    );
    assert_eq!(extract_failed(7), "Extraction failed: E7");
    assert_eq!(
        eject_line("/dev/sg4", &Ejection::Done),
        "ejected /dev/sg4"
    );
    assert_eq!(
        eject_line("/dev/sg4", &Ejection::NotOpened("E1".to_string())),
        "eject skipped — drive open failed: E1"
    );
    assert_eq!(
        unreadable_lines(&vec![
            ExtractedFile {
                path: "a".to_string(),
                bytes_unreadable: 0,
                unreadable_mb: "0.0".to_string(),
            },
            ExtractedFile {
                path: "b".to_string(),
                bytes_unreadable: 9,
                unreadable_mb: "0.1".to_string(),
            },
        ]),
        vec!["  b — 0.1 MB unreadable"]
    );
}

#[test]
fn a_label_never_leaves_the_destination() {
    for label in ["..\\..\\Startup", "../../etc", "CON", "a:b*c?", "", "...", "a\nb"] {
        let name = sanitize_label(label);
        assert!(!name.is_empty(), "{label:?}");
        assert!(
            !name.contains('/') && !name.contains('\\') && name != "." && name != "..",
            "{label:?} became {name:?}"
        );
        assert_eq!(extract_target("/out", label), format!("/out/{name}"));
    }
    assert_ne!(sanitize_label("CON").to_uppercase(), "CON");
}

#[test]
fn two_titles_never_share_a_file() {
    let a = title_basename("{title}", "Movie", 1);
    let b = title_basename("{title}", "Movie", 2);
    assert_ne!(a, b);
    assert_ne!(title_basename("", "Movie", 1), title_basename("", "Movie", 2));
    assert_eq!(title_basename("{n} - {title}", "Movie", 7), "7 - Movie");
}

#[test]
fn separators_in_a_template_do_not_lead_out_of_the_folder() {
    assert_eq!(title_basename("a/b", "L", 1), "a_b_t1");
    assert_eq!(title_basename("..\\..\\{title}", "x/y", 2), ".._.._x_y_t2");
    assert_eq!(title_basename("/{n}/", "L", 3), "_3_");
}

#[test]
fn a_label_is_not_taken_for_a_template() {
    assert_eq!(title_basename("{title}", "A{n}", 3), "A{n}_t3");
    assert_eq!(title_basename("{title} {n}", "A{n}", 3), "A{n} 3");
    assert_eq!(title_basename("{title}", "{title}", 1), "{title}_t1");
}

#[test]
fn the_planned_name_is_the_one_that_is_written() {
    let name = planned_output_name(
        "/in/Movie.m2ts",
        "/out",
        "Selected titles → MKV",
        Some(6),
        "",
        "LABEL",
    );
    // A container is one title, named after its file.
    assert_eq!(
        name,
        format!("/out/{}.mkv", title_basename("", "Movie", 1))
    );
    let name = planned_output_name("/in/d.iso", "/out", "Selected titles → MKV", Some(6), "", "");
    assert_eq!(
        name,
        title_destination(OutKind::File("mkv"), "/out", "", "disc", 6, false).1
    );
    assert_eq!(
        planned_output_name("/in/d.iso", "/out", "Whole disc → ISO image", None, "", "L/D"),
        image_target("/out", "L/D")
    );
    assert_eq!(container_word("Selected titles → MKV"), "MKV");
}

#[test]
fn a_recovered_image_is_ripped_as_an_image() {
    for label in ["MOVIE", "movie.mkv", "..", "disc://x", ""] {
        let iso = image_target("/out", label);
        assert!(!is_disc_source(&iso), "{iso}");
        assert!(!is_stream_source(&iso), "{iso}");
    }
    assert_eq!(image_target("/out", "movie.mkv"), "/out/movie.mkv.iso");
}

#[test]
fn the_rip_of_a_recovered_image_asks_what_was_asked_of_the_drive() {
    let mut asked = drive_req();
    asked.titles = vec![2];
    asked.title_ids = vec![TitleIdentity {
        playlist: "00800.mpls".to_string(),
        playlist_id: 800,
        extents: vec![(1, 2)],
    }];
    asked.explicit_streams = true;
    asked.audio_pids = vec![1];
    asked.title_pids = TitleStreams::PerTitle(vec![(1, vec![4352], vec![4608])]);
    asked.filename_template = "{title}".to_string();
    asked.multipass = true;
    asked.max_passes = 5;
    asked.keys.keydb_path = "/k".to_string();
    let staged = staged_request(&asked, "/out/M.iso".to_string(), vec![1]);
    assert_eq!(staged.source, "/out/M.iso");
    assert_eq!(staged.titles, vec![1]);
    assert!(staged.title_ids.is_empty());
    assert_eq!(staged.title_pids, asked.title_pids);
    assert_eq!(staged.audio_pids, vec![1]);
    assert_eq!(staged.dest_dir, "/out");
    assert_eq!(staged.filename_template, "{title}");
    assert_eq!(staged.max_passes, 5);
    assert_eq!(staged.keys.keydb_path, "/k");
    match stream_selection_for(&staged, Some(1)) {
        StreamSelection {
            audio: PidFilter::Only(a),
            subtitle: PidFilter::Only(s),
        } => assert_eq!((a, s), (vec![4352], vec![4608])),
        other => panic!("{other:?}"),
    }
}
