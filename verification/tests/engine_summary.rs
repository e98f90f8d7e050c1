use freemkv::disc::{AacsState, Disc, DiscFormat, DiscRegion, KeyOrigin};
use freemkv::engine::request::{
    await_worker_exit, key_params, KeyConfig, Prog, QuitStep, RunOutcome, RunState, Settings,
    QUIT_GRACE_MS, QUIT_POLL_MS,
};
use freemkv::engine::rows::{key_summary, optical_drive};
use freemkv::engine::summary::{
    damage_note, describe_failure, error_code, explain, folder_writable, is_lossy, lossy_lines,
    summarize_extract, summarize_image_decrypt, summarize_outcome, summarize_stream, CopyResult,
    ExtractResult, FailureKind, MuxOutcome, Recovery, RipOutcome,
};
use freemkv::strings::Catalog;

fn catalog(entries: &[(&str, &str)]) -> Catalog {
    Catalog {
        entries: entries
            .iter()
            .map(|(k, t)| (k.to_string(), t.to_string()))
            .collect(),
    }
}

fn english() -> Catalog {
    catalog(&[
        (
            "mp4.excluded_header",
            "{count} track(s) could not be written:",
        ),
        ("mp4.excluded_track", "  track"),
        (
            "rip.mapfile_summary",
            "{good} GB good, {unreadable} MB unreadable, {pending} MB pending",
        ),
        ("rip.damage_lost_movie", "{time} of the movie lost"),
    ])
}

#[test]
fn a_poisoned_lock_does_not_turn_a_failure_into_a_completion() {
    // A worker that died after its verdict was written down leaves the verdict
    // standing.
    let mut st = RunState::default();
    st.conclude(Err("aborted: loss exceeded tolerance".to_string()));
    st.signal_done("nothing");
    assert_eq!(st.outcome_now(), RunOutcome::Failed);
    assert_eq!(st.summary_now(), "aborted: loss exceeded tolerance");
    // One that died before it said anything failed too.
    let mut st = RunState::default();
    st.signal_done("nothing");
    assert!(st.finished);
    assert_eq!(st.outcome_now(), RunOutcome::Failed);
    assert_eq!(st.summary_now(), "nothing");
}

#[test]
fn however_a_worker_ends_its_run_is_over() {
    let end = |cancel: bool, result: Option<Result<String, String>>| {
        let mut st = RunState {
            cancel,
            ..RunState::default()
        };
        st.end_run(result, "nothing");
        assert!(st.finished);
        (st.outcome, st.summary, st.lines)
    };
    let text = |s: &str| s.to_string();
    assert_eq!(
        end(false, Some(Ok(text("done")))),
        (RunOutcome::Completed, text("done"), vec![])
    );
    assert_eq!(
        end(true, Some(Ok(text("partial")))),
        (RunOutcome::Cancelled, text("partial"), vec![])
    );
    assert_eq!(
        end(true, Some(Err(text("E7022")))),
        (RunOutcome::Failed, text("E7022"), vec![text("E7022")])
    );
    assert_eq!(
        end(false, None),
        (RunOutcome::Failed, text("nothing"), vec![])
    );
}

#[test]
fn the_ui_sink_still_delivers_lines_and_progress_through_a_poisoned_lock() {
    let mut st = RunState::default();
    st.signal_done("nothing");
    st.log("E7022: no key for this disc");
    st.progress(Prog {
        bytes_done: 7,
        bytes_total: 11,
        speed_bps: 3,
        eta_secs: Some(5),
        sectors_bad: 1,
    });
    assert_eq!(st.lines, vec!["E7022: no key for this disc".to_string()]);
    assert_eq!((st.prog.bytes_done, st.prog.bytes_total), (7, 11));
    st.title_done();
    assert_eq!(st.titles_done, 1);
}

#[test]
fn every_lines_lock_recovers_from_poison() {
    // Whatever state a run is in, a line is delivered.
    let mut st = RunState::default();
    st.log("a");
    st.cancel = true;
    st.log("b");
    st.conclude(Err("c".to_string()));
    st.log("d");
    st.signal_done("nothing");
    st.log("e");
    assert_eq!(st.lines, vec!["a", "b", "c", "d", "e"]);
}

#[test]
fn a_stopped_run_is_cancelled_and_not_completed() {
    let mut st = RunState::default();
    st.cancel = true;
    st.conclude(Ok("partial".to_string()));
    assert_eq!(st.outcome_now(), RunOutcome::Cancelled);
    let mut st = RunState::default();
    st.conclude(Ok("all".to_string()));
    assert_eq!(st.outcome_now(), RunOutcome::Completed);
    assert_eq!(st.summary_now(), "all");
    let mut st = RunState::default();
    st.cancel = true;
    st.conclude(Err("broken".to_string()));
    assert_eq!(st.outcome_now(), RunOutcome::Failed);
}

#[test]
fn failure_after_good_titles_is_an_error_that_keeps_the_count() {
    let out = RipOutcome::Failed {
        title_index: 2,
        code: None,
        kind: FailureKind::StorageFull,
    };
    let r = summarize_outcome(&out, 2, 0, 3, "/out");
    let msg = r.expect_err("a rip stopped by a full disk must not report success");
    assert!(msg.contains("2 of 3 title(s) written"), "{msg}");
    assert!(msg.contains("title 3 failed"), "{msg}");
    assert!(msg.contains("full"), "{msg}");
}

#[test]
fn passthrough_os_errors_are_explained_from_kind_not_code() {
    let kinds = [
        (FailureKind::StorageFull, "full"),
        (FailureKind::PermissionDenied, "permission"),
        (FailureKind::NotFound, "no longer there"),
    ];
    for (kind, want) in kinds {
        let out = RipOutcome::Failed {
            title_index: 0,
            code: None,
            kind: kind.clone(),
        };
        let msg = summarize_outcome(&out, 0, 0, 1, "/out").unwrap_err();
        assert!(
            msg.to_lowercase().contains(want),
            "{kind:?} rendered as {msg:?}, wanted {want:?}"
        );
        assert!(!msg.contains("E0"), "{kind:?} fell back to a code: {msg}");
    }
    assert_eq!(
        describe_failure(None, &FailureKind::Other("BrokenPipe".to_string())),
        "Write failed (BrokenPipe)."
    );
}

#[test]
fn typed_failures_still_explain_the_code() {
    let out = RipOutcome::Failed {
        title_index: 0,
        code: Some(9048),
        kind: FailureKind::Other("Other".to_string()),
    };
    let msg = summarize_outcome(&out, 0, 0, 1, "/out").unwrap_err();
    assert!(msg.contains("MP4"), "{msg}");
    assert_eq!(explain(1), "Mux failed (E1).");
}

#[test]
fn no_key_is_an_error() {
    let msg = summarize_outcome(&RipOutcome::NoKey, 0, 0, 3, "/out")
        .expect_err("an undecryptable disc must not report success");
    assert!(msg.contains("no decryption key"), "{msg}");
}

#[test]
fn success_and_cancel_are_unchanged() {
    let ok = RipOutcome::Done;
    assert_eq!(
        summarize_outcome(&ok, 2, 0, 2, "/out").unwrap(),
        "2 title(s) written to /out"
    );
    assert_eq!(
        summarize_outcome(&ok, 0, 0, 2, "/out").unwrap(),
        "Nothing was written"
    );
    let cancelled = summarize_outcome(&ok, 0, 1, 2, "/out").unwrap();
    assert!(cancelled.starts_with("Cancelled"), "{cancelled}");
    assert!(cancelled.contains("1 partial file(s) kept"), "{cancelled}");

    let halted = summarize_outcome(&RipOutcome::Halted, 1, 0, 3, "/out").unwrap();
    assert_eq!(halted, "Cancelled — 1 of 3 title(s) completed");
}

#[test]
fn halt_with_partial_keeps_both() {
    let msg = summarize_outcome(&RipOutcome::Halted, 1, 1, 3, "/out").unwrap();
    assert!(msg.contains("1 of 3 title(s) completed"), "{msg}");
    assert!(msg.contains("1 partial file(s) kept in /out"), "{msg}");
}

fn lossy_outcome() -> MuxOutcome {
    MuxOutcome {
        completed: true,
        errors: 0,
        lost_bytes: 0,
        lost_mb: "0.0".to_string(),
        undelivered_streams: vec![1],
    }
}

fn clean_outcome() -> MuxOutcome {
    MuxOutcome {
        undelivered_streams: Vec::new(),
        ..lossy_outcome()
    }
}

fn byte_lossy_outcome() -> MuxOutcome {
    MuxOutcome {
        undelivered_streams: Vec::new(),
        errors: 2,
        lost_bytes: 3 << 20,
        lost_mb: "3.1".to_string(),
        ..lossy_outcome()
    }
}

#[test]
fn a_completed_stream_conversion_reports_written() {
    assert_eq!(
        summarize_stream(&english(), &clean_outcome(), "/out/movie.mkv", "/out"),
        "Written to /out"
    );
}

#[test]
fn a_completed_export_that_dropped_a_track_is_not_reported_as_a_clean_write() {
    let o = lossy_outcome();
    assert!(o.completed, "the whole point: this outcome COMPLETED");
    let msg = summarize_stream(&english(), &o, "/out/movie.mp4", "/out");
    assert_ne!(
        msg, "Written to /out",
        "a lossy export must not render identically to a complete one"
    );
    assert!(
        msg.contains("/out"),
        "the destination is still worth naming: {msg}"
    );
}

#[test]
fn the_dropped_tracks_are_named_one_per_line_and_one_based() {
    let o = lossy_outcome();
    let lines = lossy_lines(&english(), &o, "/out/movie.mp4");
    assert_eq!(
        lines.len(),
        2,
        "one header plus one line per dropped track: {lines:?}"
    );
    assert!(
        lines[1].ends_with(" 2"),
        "stream index 1 is track 2: {:?}",
        lines[1]
    );
}

#[test]
fn a_completed_export_that_dropped_payload_bytes_is_not_a_clean_write() {
    let o = byte_lossy_outcome();
    assert!(o.completed, "the whole point: this outcome COMPLETED");
    assert!(
        o.undelivered_streams.is_empty(),
        "and lost no whole stream — the loss is inside the tracks"
    );
    assert!(is_lossy(&o));
    let msg = summarize_stream(&english(), &o, "/out/movie.mkv", "/out");
    assert_ne!(
        msg, "Written to /out",
        "3 MB of dropped payload must not render as a clean write"
    );
    let lines = lossy_lines(&english(), &o, "/out/movie.mkv");
    assert!(
        !lines.is_empty(),
        "the run that reports the write must report the loss"
    );
    assert!(
        lines.iter().any(|l| l.contains('3')),
        "the size of the loss is the fact the user needs: {lines:?}"
    );
}

#[test]
fn a_clean_export_says_nothing_about_undelivered_tracks() {
    let o = clean_outcome();
    assert!(lossy_lines(&english(), &o, "/out/movie.mkv").is_empty());
    assert_eq!(
        summarize_stream(&english(), &o, "/out/movie.mkv", "/out"),
        "Written to /out",
        "an unconditional warning would be worse than none"
    );
}

#[test]
fn a_stream_conversion_halted_by_cancel_says_so_not_written() {
    let cancelled = MuxOutcome {
        completed: false,
        ..clean_outcome()
    };
    let msg = summarize_stream(&english(), &cancelled, "/out/movie.mkv", "/out");
    assert!(
        msg.starts_with("Cancelled"),
        "a Cancel mid-conversion must not read as a clean write: {msg}"
    );
    assert!(
        !msg.contains("Written to"),
        "the truncated file must never be reported as a completed write: {msg}"
    );
    assert!(msg.contains("/out/movie.mkv"), "{msg}");
}

fn extract_result(halted: bool, files: usize, bytes_unreadable: u64) -> ExtractResult {
    ExtractResult {
        files,
        halted,
        bytes_unreadable,
        unreadable_mb: format!("{:.1}", bytes_unreadable as f64 / 1_048_576.0),
    }
}

fn copy_result(halted: bool, good: u64, unreadable: u64) -> CopyResult {
    copy_result_pending(halted, good, unreadable, 0)
}

fn copy_result_pending(halted: bool, good: u64, unreadable: u64, pending: u64) -> CopyResult {
    CopyResult {
        halted,
        complete: !halted && unreadable == 0 && pending == 0,
        bytes_good: good,
        bytes_unreadable: unreadable,
        bytes_pending: pending,
        good_gib: format!("{:.2}", good as f64 / 1_073_741_824.0),
        unreadable_mib: format!("{:.1}", unreadable as f64 / 1_048_576.0),
        pending_mib: format!("{:.1}", pending as f64 / 1_048_576.0),
    }
}

#[test]
fn a_completed_image_decrypt_reports_written() {
    let msg = summarize_image_decrypt(&copy_result(false, 2 * 1_073_741_824, 0), "/out/Disc.iso");
    assert_eq!(msg, "Decrypted image written: /out/Disc.iso (2.00 GiB)");
}

#[test]
fn an_image_decrypt_halted_by_cancel_says_so_not_written() {
    let msg = summarize_image_decrypt(&copy_result(true, 1_073_741_824, 0), "/out/Disc.iso");
    assert!(
        msg.starts_with("Cancelled"),
        "a cancelled decrypt must not read as a clean write: {msg}"
    );
    assert!(
        msg.contains("kept"),
        "the partial image is kept, and the user must be told: {msg}"
    );
}

#[test]
fn a_lossy_image_decrypt_reports_the_unreadable_bytes() {
    let msg = summarize_image_decrypt(
        &copy_result(false, 1_073_741_824, 2 * 1_048_576),
        "/out/Disc.iso",
    );
    assert!(msg.starts_with("Decrypted image written"), "{msg}");
    assert!(
        msg.contains("2.0 MiB unreadable"),
        "damage must be reported, not silently dropped: {msg}"
    );
}

#[test]
fn an_image_decrypt_with_bytes_still_pending_is_not_a_clean_write() {
    let msg = summarize_image_decrypt(
        &copy_result_pending(false, 1_073_741_824, 0, 4 * 1_048_576),
        "/out/Disc.iso",
    );
    assert!(
        msg.contains("4.0 MiB not read"),
        "unread bytes must be reported, not silently dropped: {msg}"
    );
    assert_ne!(
        msg, "Decrypted image written: /out/Disc.iso (1.00 GiB)",
        "an incomplete image must not render as the clean-success line"
    );
}

#[test]
fn an_image_decrypt_reports_lost_and_unread_bytes_together() {
    let msg = summarize_image_decrypt(
        &copy_result_pending(false, 1_073_741_824, 2 * 1_048_576, 4 * 1_048_576),
        "/out/Disc.iso",
    );
    assert!(msg.contains("2.0 MiB unreadable"), "{msg}");
    assert!(msg.contains("4.0 MiB not read"), "{msg}");
}

#[test]
fn a_completed_extraction_reports_written() {
    let msg = summarize_extract(&extract_result(false, 3, 0), "/out/Disc");
    assert_eq!(msg, "Decrypted file tree written to /out/Disc — 3 file(s)");
}

#[test]
fn an_extraction_halted_by_cancel_says_so_not_written() {
    let msg = summarize_extract(&extract_result(true, 2, 0), "/out/Disc");
    assert!(
        msg.starts_with("Cancelled"),
        "a Cancel mid-extraction must not read as a clean write: {msg}"
    );
    assert!(
        !msg.contains("written"),
        "a halted extraction must not use the same wording as a completed one: {msg}"
    );
}

#[test]
fn a_halted_extraction_still_beats_unreadable_wording() {
    let msg = summarize_extract(&extract_result(true, 1, 1_048_576), "/out/Disc");
    assert!(msg.starts_with("Cancelled"), "{msg}");
    let msg = summarize_extract(&extract_result(false, 1, 1_048_576), "/out/Disc");
    assert!(msg.contains("1.0 MB unreadable"), "{msg}");
}

fn disc(encrypted: bool) -> Disc {
    Disc {
        volume_id: "T".to_string(),
        meta_title: None,
        format: DiscFormat::BluRay,
        capacity_bytes: 2048,
        capacity_gb: "0.0".to_string(),
        layers: 1,
        titles: vec![],
        region: DiscRegion::Free,
        aacs: None,
        css: false,
        css_error: false,
        encrypted,
    }
}

fn aacs(unit_keys: Vec<(u32, Vec<u8>)>) -> AacsState {
    AacsState {
        version: 1,
        bus_encryption: false,
        mkb_version: None,
        disc_hash: String::new(),
        key_source: KeyOrigin::ExternalUk,
        vuk: None,
        unit_keys,
        volume_id: vec![0; 16],
    }
}

#[test]
fn unencrypted_disc_is_named_so() {
    assert_eq!(key_summary(&disc(false), None), "unencrypted");
}

#[test]
fn css_dvd_is_named_so() {
    let mut d = disc(true);
    d.css = true;
    assert_eq!(key_summary(&d, None), "CSS (DVD)");
}

#[test]
fn placeholder_origin_with_no_keys_reads_as_locked() {
    let mut d = disc(true);
    d.aacs = Some(aacs(vec![]));
    let s = key_summary(&d, None);
    assert_eq!(s, "locked — no key yet");
    assert!(!s.contains("online") && !s.contains("keydb"));
}

#[test]
fn real_keys_name_the_winning_source() {
    let mut d = disc(true);
    d.aacs = Some(aacs(vec![(1, vec![0x5A; 16])]));
    assert_eq!(key_summary(&d, Some("keydb")), "unlocked via keydb");
    assert_eq!(key_summary(&d, Some("online")), "unlocked via online");
}

#[test]
fn keys_without_a_trace_do_not_invent_a_source() {
    let mut d = disc(true);
    d.aacs = Some(aacs(vec![(1, vec![0x5A; 16])]));
    assert_eq!(key_summary(&d, None), "unlocked");
}

#[test]
fn a_vuk_alone_counts_as_unlocked() {
    let mut d = disc(true);
    let mut a = aacs(vec![]);
    a.vuk = Some(vec![0x11; 16]);
    d.aacs = Some(a);
    assert_eq!(key_summary(&d, Some("keydb")), "unlocked via keydb");
}

#[test]
fn error_code_parses_codes_that_carry_data() {
    assert_eq!(error_code("E9048"), 9048);
    assert_eq!(error_code("E7022: 8f3a1c0d"), 7022);
    assert_eq!(error_code("E8005: /path/to/keydb.cfg"), 8005);
    assert_eq!(error_code("E6000: 12345 0x02"), 6000);
    assert_eq!(error_code("E6014: 0x1100"), 6014);
    assert_eq!(error_code("No drive found"), 0);
    assert_eq!(error_code("E"), 0);
    assert_eq!(error_code("Eabc"), 0);
    assert_eq!(error_code("E65536"), 0);
}

#[test]
fn key_source_setting_controls_whether_the_online_service_is_used() {
    let cfg = |src: &str| {
        KeyConfig::from_settings(&Settings {
            keydb_path: "/tmp/keydb.cfg".to_string(),
            keyserver_url: "https://keys.example/decode".to_string(),
            keyserver_token: "t".to_string(),
            key_source: src.to_string(),
        })
    };

    let local = key_params(&cfg("Local keydb only"), "/tmp/keydb.cfg");
    assert!(
        local.key_url.is_none(),
        "Local keydb only must NOT consult the online service"
    );
    assert!(local.keydb_path.is_some());

    let both = key_params(&cfg("keydb, then online"), "/tmp/keydb.cfg");
    assert!(
        both.key_url.is_some(),
        "keydb, then online must consult the online service"
    );
    assert!(both.keydb_path.is_some());
    assert!(!both.online_only);

    let online = key_params(&cfg("Online key service only"), "/tmp/keydb.cfg");
    assert!(online.key_url.is_some());
    assert!(online.online_only, "Online-only must set online_only");

    let none = key_params(&KeyConfig::default(), "/home/x");
    assert_eq!(none.keydb_path, None);
    assert_eq!(none.key_url, None);
    assert_eq!(none.key_auth.as_deref(), Some(""));
}

/// What a quit comes to that looks at its worker after every pause.
fn quit(finished_at_ms: u64, grace_ms: u64) -> (QuitStep, u64) {
    let mut waited = 0;
    loop {
        match await_worker_exit(waited >= finished_at_ms, waited, grace_ms) {
            QuitStep::Wait => waited += QUIT_POLL_MS,
            step => return (step, waited),
        }
    }
}

#[test]
fn a_quit_waits_for_a_worker_that_is_still_winding_down() {
    let (step, waited) = quit(120, 5000);
    assert_eq!(step, QuitStep::Exit);
    assert!(waited >= 100, "nothing was waited for");
}

#[test]
fn a_wedged_worker_does_not_turn_quit_into_a_hang() {
    let (step, waited) = quit(u64::MAX, 80);
    assert_eq!(step, QuitStep::GiveUp);
    assert!(waited >= 80, "{waited:?}");
    assert!(waited < 2000, "{waited:?}");
}

#[test]
fn a_finished_worker_is_not_waited_for() {
    let (step, waited) = quit(0, QUIT_GRACE_MS);
    assert_eq!(step, QuitStep::Exit);
    assert_eq!(waited, 0);
    assert_eq!(QUIT_GRACE_MS, 5000);
}

fn clean_result() -> Recovery {
    Recovery {
        halted: false,
        aborted_for_loss: false,
        good_bytes: 50_000_000_000,
        unreadable_bytes: 0,
        pending_bytes: 0,
        good_gib: "46.57".to_string(),
        unreadable_mib: "0.0".to_string(),
        pending_mib: "0.0".to_string(),
        lost_time: None,
    }
}

#[test]
fn a_clean_recovery_has_no_damage_note() {
    assert_eq!(damage_note(&english(), &clean_result()), "");
}

#[test]
fn residual_damage_under_tolerance_is_named_in_the_note() {
    let result = Recovery {
        unreadable_bytes: 10 * 1_048_576,
        pending_bytes: 2 * 1_048_576,
        good_bytes: 40_000_000_000,
        unreadable_mib: "10.0".to_string(),
        pending_mib: "2.0".to_string(),
        ..clean_result()
    };
    let note = damage_note(&english(), &result);
    assert!(!note.is_empty(), "damage under tolerance produced no note");
    assert!(note.contains("10.0"), "unreadable MB missing: {note}");
    assert!(note.contains("2.0"), "pending MB missing: {note}");
}

#[test]
fn lost_playback_time_is_named_when_quantifiable() {
    let result = Recovery {
        unreadable_bytes: 1_048_576,
        unreadable_mib: "1.0".to_string(),
        lost_time: Some("4s".to_string()),
        ..clean_result()
    };
    let note = damage_note(&english(), &result);
    assert!(
        note.ends_with("\n4s of the movie lost"),
        "no lost-playback-time figure in: {note}"
    );
}

#[test]
fn unquantifiable_loss_does_not_corrupt_the_note() {
    let result = Recovery {
        unreadable_bytes: 1_048_576,
        unreadable_mib: "1.0".to_string(),
        lost_time: None,
        ..clean_result()
    };
    let note = damage_note(&english(), &result);
    assert!(!note.to_lowercase().contains("nan"), "{note}");
    assert_eq!(note.lines().count(), 2);
}

#[test]
fn a_populated_folder_needs_force() {
    assert!(folder_writable("/out/Disc", false, false).is_ok());
    assert!(folder_writable("/out/Disc", true, true).is_ok());
    let e = folder_writable("/out/Disc", true, false).unwrap_err();
    assert!(e.starts_with("/out/Disc already exists and is not empty"), "{e}");
}

#[test]
fn a_drive_without_a_name_is_still_named() {
    assert_eq!(
        optical_drive("/dev/sg4".to_string(), " HL-DT-ST ", " BD-RE").label,
        "HL-DT-ST BD-RE"
    );
    let d = optical_drive("/dev/sg4".to_string(), " ", "");
    assert_eq!(d.label, "Optical drive");
    assert_eq!(d.device, "/dev/sg4");
}
