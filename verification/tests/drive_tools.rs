use freemkv::bench::{
    bench_device, bench_runs, disc_sectors, mode_sense_command, progress_line,
    read_capacity_command, read_lba, read_speed_caps, resend_speed, speed_line, total_line, Meter,
    CONTENT_LBA, READ_SIZE, SECTORS_PER_READ,
};
use freemkv::cli_entry::UrlKind;
use freemkv::cmd::verify::{
    count_line, count_lines, progress_due, progress_text, range_lines, total_sectors,
    verdict_lines, verify_exit_code, verify_summary, verify_target, verify_url, SectorRange,
    SectorStatus, Share, Style, VerifyResult, VerifyTarget,
};
use freemkv::icon::{icon_resources, parse_ico, push_res_entry, RT_ICON};
use freemkv::paths::{extension, file_name, file_stem, join, parent};
use freemkv::strings::Catalog;

fn strings(v: &[&str]) -> Vec<String> {
    v.iter().map(|s| s.to_string()).collect()
}

/// An icon file with one image of the given bytes.
fn ico(data: &[u8]) -> Vec<u8> {
    let mut b = vec![0, 0, 1, 0, 1, 0];
    b.extend([16, 32, 2, 0]);
    b.extend(0u16.to_le_bytes());
    b.extend(32u16.to_le_bytes());
    b.extend((data.len() as u32).to_le_bytes());
    b.extend(22u32.to_le_bytes());
    b.extend(data);
    b
}

#[test]
fn an_icon_file_is_taken_apart() {
    let images = parse_ico(&ico(b"PNG!!")).expect("well formed");
    assert_eq!(images.len(), 1);
    assert_eq!((images[0].width, images[0].height), (16, 32));
    assert_eq!((images[0].planes, images[0].bit_count), (0, 32));
    assert_eq!(images[0].data, b"PNG!!");
    // No icon, cut short, and pointing outside of itself.
    assert!(parse_ico(b"PK\x03\x04").is_none());
    assert!(parse_ico(&[0, 0, 2, 0, 1, 0]).is_none());
    assert!(parse_ico(&ico(b"PNG!!")[..20]).is_none());
    assert!(parse_ico(&ico(b"PNG!!")[..25]).is_none());
    let mut far = ico(b"PNG!!");
    far[18..22].copy_from_slice(&u32::MAX.to_le_bytes());
    assert!(parse_ico(&far).is_none());
    assert_eq!(parse_ico(&[0, 0, 1, 0, 0, 0]).map(|v| v.len()), Some(0));
}

#[test]
fn an_icon_becomes_aligned_resources() {
    let res = icon_resources(&ico(b"PNG!!")).expect("one image");
    assert_eq!(res.len() % 4, 0);
    // The empty resource, the image with its padding, the directory.
    assert_eq!(res.len(), 32 + (32 + 8) + (32 + 20));
    assert_eq!(&res[0..8], &[0, 0, 0, 0, 32, 0, 0, 0]);
    assert!(res[8..32].iter().all(|b| *b == 0));
    assert_eq!(
        &res[32..64],
        &[
            5, 0, 0, 0, 32, 0, 0, 0, 0xff, 0xff, 3, 0, 0xff, 0xff, 1, 0, 0, 0, 0, 0, 0x10, 0x10,
            0x09, 0x04, 0, 0, 0, 0, 0, 0, 0, 0
        ]
    );
    assert_eq!(&res[64..69], b"PNG!!");
    // A missing number of planes is one.
    assert_eq!(
        &res[104..124],
        &[0, 0, 1, 0, 1, 0, 16, 32, 2, 0, 1, 0, 32, 0, 5, 0, 0, 0, 1, 0]
    );
    assert!(icon_resources(&[0, 0, 1, 0, 0, 0]).is_none());
    assert!(icon_resources(b"").is_none());
    let mut r = vec![7, 7, 7, 7];
    push_res_entry(&mut r, RT_ICON, 2, 0x1010, &[1]);
    assert_eq!(r.len(), 4 + 32 + 4);
    assert_eq!(&r[36..40], &[1, 0, 0, 0]);
}

#[test]
fn a_drive_is_asked_and_its_answers_are_read() {
    assert_eq!(mode_sense_command()[2], 0x2A);
    assert_eq!(read_capacity_command()[0], 0x25);
    let mut answer = vec![0u8; 256];
    answer[16] = 0x46;
    answer[17] = 0x50;
    answer[18] = 0x11;
    answer[19] = 0x94;
    assert_eq!(read_speed_caps(&answer), (18000, 4500));
    assert_eq!(disc_sectors(&[0, 1, 0, 255, 0, 0, 8, 0]), 0x10100);
    assert_eq!(
        bench_device(&strings(&["x", "-d", "/dev/sg1", "--device", "/dev/sg2"])).as_deref(),
        Some("/dev/sg2")
    );
    assert_eq!(bench_device(&strings(&["-d", "/dev/sg1", "-d"])), None);
    assert_eq!(bench_device(&[]), None);
}

#[test]
fn a_run_reads_on_where_it_left_off() {
    assert_eq!(read_lba(CONTENT_LBA, 0), 0x20000);
    assert_eq!(
        read_lba(CONTENT_LBA, 2),
        0x20000 + 2 * SECTORS_PER_READ as u32
    );
    assert!(resend_speed(0xFFFF, 100, 100));
    assert!(!resend_speed(0xFFFF, 100, 0));
    assert!(!resend_speed(0xFFFF, 0, 100));
    assert!(!resend_speed(0, 100, 100));
    let runs = bench_runs(18000, 1000);
    assert_eq!(runs.len(), 5);
    assert_eq!(
        runs[2].label,
        "Test 3: SET_CD_SPEED 18000 (exact max) once"
    );
    assert_eq!(runs[4].start_lba, 750);
    let mut m = Meter::new();
    m.count_read(true);
    m.count_read(false);
    m.count_read(true);
    assert_eq!((m.total_bytes, m.errors), (2 * READ_SIZE, 1));
    m.reported();
    assert_eq!((m.total_bytes, m.window_bytes), (2 * READ_SIZE, 0));
    assert_eq!(READ_SIZE, 48 * 2048);
    assert_eq!(speed_line(0, 5), "  No SET_CD_SPEED");
    assert_eq!(speed_line(9, 0), "  SET_CD_SPEED 9 sent once");
    assert_eq!(speed_line(9, 100), "  SET_CD_SPEED 9 every 100 reads");
    assert_eq!(
        progress_line("12", "3.4", "5.6", 7),
        "      12 MB  current:   3.4 MB/s  avg:   5.6 MB/s  reads: 7"
    );
    assert_eq!(
        total_line("12", "3.0", "4.0", 1, 4500),
        "  TOTAL: 12 MB in 3.0s = 4.0 MB/s  errors: 1  mode_sense: 4500 KB/s"
    );
}

fn catalog(entries: &[(&str, &str)]) -> Catalog {
    Catalog {
        entries: entries
            .iter()
            .map(|(k, t)| (k.to_string(), t.to_string()))
            .collect(),
    }
}

fn share(count: u64) -> Share {
    Share {
        count,
        percent: "1.0000".to_string(),
    }
}

fn range(status: SectorStatus) -> SectorRange {
    SectorRange {
        status,
        start_lba: 100,
        count: 5,
        at_gb: "1.5".to_string(),
        chapter: Some((3, 125)),
    }
}

#[test]
fn a_disc_is_verified_and_its_sectors_are_reported() {
    let c = catalog(&[
        ("verify.count_good", "Good"),
        ("verify.count_bad", "Bad"),
        ("verify.status_bad", "BAD"),
        ("verify.sectors_word", "sectors"),
        ("verify.chapter_label", "ch {ch} {m}:{s}"),
        ("verify.verdict_header", "Verdict"),
        ("verify.verdict_format", "{pct}% in {m}:{s}"),
        ("verify.bad_clusters", "{count} in {clusters}"),
        ("verify.perfect", "Perfect"),
        ("verify.results_header", "Results"),
        ("verify.disc_summary", "{name} {size} {sectors}"),
    ]);
    let mut r = VerifyResult {
        good: share(95),
        slow: share(0),
        recovered: share(0),
        bad: share(5),
        ranges: vec![range(SectorStatus::Good), range(SectorStatus::Bad)],
        perfect: false,
        readable_percent: "95.0000".to_string(),
        elapsed_secs: 65,
    };
    let lines = count_lines(&c, &r);
    assert_eq!(lines.len(), 3);
    assert_eq!(lines[0].marked, "Results:");
    assert_eq!(lines[0].style, Style::Highlight);
    assert_eq!(
        count_line("Good", &share(95)),
        "  Good:                  95  (1.0000%)"
    );
    let lines = range_lines(&c, &r.ranges);
    assert_eq!(lines.len(), 1);
    assert_eq!(lines[0].style, Style::Warning);
    assert_eq!(
        format!("{}{}{}", lines[0].before, lines[0].marked, lines[0].after),
        "  BAD sectors 100-105 (1.5 GB — ch 3 02:05): 5 sectors"
    );
    let lines = verdict_lines(&c, &r);
    assert_eq!(lines[0].after, " 95.0000% in 1:05");
    assert_eq!(lines[1].marked, "5 in 1");
    assert_eq!(verify_exit_code(5), 1);
    r.perfect = true;
    assert_eq!(verdict_lines(&c, &r)[1].marked, "Perfect");
    assert_eq!(verify_exit_code(0), 0);
    assert_eq!(total_sectors(&vec![(0, 5), (9, 7)]), 12);
    assert_eq!(verify_summary(&c, "D", "1.0", 12), "D 1.0 12");
    assert!(progress_due(false, 5, 5) && progress_due(true, 1, 5) && !progress_due(false, 1, 5));
    assert_eq!(
        progress_text(1, 3, "2.0"),
        "\r  33% · 2.0 MB/s · 1 / 3 sectors"
    );
    assert_eq!(progress_text(0, 0, "0.0").trim_start(), "0% · 0.0 MB/s · 0 / 0 sectors");
    assert_eq!(verify_url(&[]), "disc://");
    assert!(matches!(
        verify_target(UrlKind::Disc(None)),
        VerifyTarget::FirstDrive
    ));
    assert!(matches!(verify_target(UrlKind::Mkv), VerifyTarget::DiscOnly));
    match verify_target(UrlKind::Disc(Some("/dev/sg1".to_string()))) {
        VerifyTarget::Device(d) => assert_eq!(d, "/dev/sg1"),
        other => panic!("{other:?}"),
    }
}

#[test]
fn paths_are_taken_apart_and_put_together() {
    assert_eq!(file_name("/a/b.c").as_deref(), Some("b.c"));
    assert_eq!(file_stem("/a/b.tar.gz").as_deref(), Some("b.tar"));
    assert_eq!(extension("/a/b.tar.gz").as_deref(), Some("gz"));
    assert_eq!(extension("/a/.hidden"), None);
    assert_eq!(parent("/a/b"), "/a");
    assert_eq!(join("/a", "b"), "/a/b");
    assert_eq!(join("/a/", "b"), "/a/b");
    assert_eq!(join("/a", "/b"), "/b");
}
