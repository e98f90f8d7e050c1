use std::io::Read;

use freemkv::archive::{zip_files, CapturedFile};
use freemkv::cli_entry::{dispatch, Command};
use freemkv::encode::{
    base64_decode, base64_encode, format_date, hex_dump, json_esc, json_escape, push_wrapped,
    sanitize_component, toml_basic_unescape, toml_escape,
};
use freemkv::info::{
    buffer_serial_len, capture_files, captured_line, drive_help_lines, drive_identity_lines,
    drive_issue_body, drive_issue_title, drive_listing_lines, drive_toml, feature_file_name,
    parse_drive_flags, profile_name, profile_status, profile_summary_lines, serial_start, splice,
    toml_header_comment, Capture, DriveId, DriveIdentity, DriveParse, Feature, CAPTURE_COMMAND,
};
use freemkv::strings::{is_unsafe_display_char, sanitize_display, Catalog};
use freemkv::submit::{
    by_hand_text, consent_granted, curl_program_from, curl_submit_args, issue_url,
    may_prompt_for_consent, outcome_lines, saved_lines, submit_payload, submit_step, Submission,
    SubmitEvent, WhyByHand,
};

fn catalog(entries: &[(&str, &str)]) -> Catalog {
    Catalog {
        entries: entries
            .iter()
            .map(|(k, t)| (k.to_string(), t.to_string()))
            .collect(),
    }
}

#[test]
fn capture_command_is_a_real_subcommand() {
    let word = CAPTURE_COMMAND
        .strip_prefix("freemkv ")
        .unwrap_or_else(|| panic!("CAPTURE_COMMAND must invoke freemkv: {CAPTURE_COMMAND}"))
        .split_whitespace()
        .next()
        .expect("a command word");
    assert_eq!(word, "info");
    let argv: Vec<String> = CAPTURE_COMMAND
        .split_whitespace()
        .map(|s| s.to_string())
        .collect();
    assert!(
        matches!(dispatch(&argv), Command::Info(_)),
        "`{word}` is not a subcommand the dispatcher accepts"
    );
}

#[test]
fn json_escape_handles_quotes_backslashes_control_chars() {
    assert_eq!(json_escape("plain"), "plain");
    assert_eq!(json_escape("a\"b"), "a\\\"b");
    assert_eq!(json_escape("a\\b"), "a\\\\b");
    assert_eq!(json_escape("line1\nline2"), "line1\\nline2");
    assert_eq!(json_escape("a\tb\r"), "a\\tb\\r");
    assert_eq!(json_escape("\u{0001}"), "\\u0001");
    assert_eq!(json_escape("`code`"), "`code`");
    let escaped = json_escape("he said \"hi\"\npath: C:\\x");
    let doc = format!("{{\"v\":\"{escaped}\"}}");
    let parsed: serde_json::Value = serde_json::from_str(&doc).expect("valid JSON");
    assert_eq!(parsed["v"], "he said \"hi\"\npath: C:\\x");
}

#[test]
fn texts_can_be_escaped_in_pieces() {
    let all: String = (0u8..128).map(char::from).chain("ü\u{1f600}".chars()).collect();
    let doc = format!("\"{}\"", json_escape(&all));
    assert_eq!(serde_json::from_str::<String>(&doc).unwrap(), all);
    let doc = format!("\"{}\"", json_esc(&all));
    assert_eq!(serde_json::from_str::<String>(&doc).unwrap(), all);
    let (a, b) = ("x\"\n", "\u{1}y\\");
    assert_eq!(
        json_escape(&format!("{a}{b}")),
        json_escape(a) + &json_escape(b)
    );
}

fn hostile_drive_id() -> DriveId {
    DriveId {
        vendor_id: " HL-DT-ST\u{1b}[31m ".to_string(),
        product_id: "BD-RE\u{1b}]0;pwned\u{7}".to_string(),
        product_revision: "1.0\nmanufacturer = \"forged\"".to_string(),
        vendor_specific: "NC\u{202e}xyz".to_string(),
        firmware_date: "2021\u{0}0304".to_string(),
        serial_number: "SER\u{1b}[2J1234".to_string(),
    }
}

#[test]
fn the_printed_drive_block_carries_no_firmware_escape_sequences() {
    let c = catalog(&[]);
    let lines = drive_identity_lines(&c, &hostile_drive_id(), "/dev/sg0", None);
    for line in &lines {
        for ch in line.chars() {
            assert!(
                !is_unsafe_display_char(ch),
                "a printed drive line still carries {ch:?}: {line:?}"
            );
        }
    }
    let block = lines.join("\n");
    assert!(block.contains("HL-DT-ST[31m"), "{block}");
    assert!(block.contains("BD-RE]0;pwned"), "{block}");
    assert!(block.contains("1.0manufacturer = \"forged\""), "{block}");
    assert!(block.contains("SER[2J1234"), "{block}");
    assert!(block.contains("/dev/sg0"), "{block}");
    assert_eq!(lines.len(), 6, "{lines:?}");
}

#[test]
fn a_masked_serial_is_derived_from_the_sanitised_one() {
    let c = catalog(&[]);
    let id = DriveIdentity::from_drive(&hostile_drive_id());
    assert_eq!(id.serial, "SER[2J1234");
    let masked: String = id.serial.chars().map(|_| 'X').collect();
    let lines = drive_identity_lines(&c, &hostile_drive_id(), "/dev/sg0", Some(&masked));
    let block = lines.join("\n");
    assert!(!block.contains("SER"), "serial not masked: {block}");
    assert!(
        !block.contains('\u{1b}'),
        "escape survived masking: {block:?}"
    );
    assert!(block.contains("XXXXXXXXXX"), "{block}");
}

#[test]
fn the_toml_header_comment_is_one_line_whatever_the_firmware_says() {
    let id = DriveIdentity::from_drive(&hostile_drive_id());
    let header = toml_header_comment(&id);
    assert!(header.starts_with("# "), "{header:?}");
    assert_eq!(
        header.trim_end_matches('\n').lines().count(),
        1,
        "the header comment must be a single line: {header:?}"
    );
    assert!(
        !header.contains("\nmanufacturer"),
        "a firmware newline forged a TOML key: {header:?}"
    );
    assert!(header.ends_with("\n\n"), "{header:?}");
}

#[test]
fn the_submit_curl_is_named_absolutely_where_the_search_order_is_unsafe() {
    assert_eq!(
        curl_program_from(Some(r"C:\Windows")),
        r"C:\Windows\System32\curl.exe",
        "a bare name lets the app directory and the CWD win"
    );
    assert_eq!(curl_program_from(None), "curl");
}

#[test]
fn the_auto_submit_post_is_bounded_in_time_and_size() {
    let args = curl_submit_args("tok", "{}");
    let pair = |flag: &str| -> String {
        let i = args
            .iter()
            .position(|a| a == flag)
            .unwrap_or_else(|| panic!("`{flag}` missing from the curl argv: {args:?}"));
        args.get(i + 1)
            .unwrap_or_else(|| panic!("`{flag}` has no value: {args:?}"))
            .clone()
    };
    assert_eq!(pair("--connect-timeout"), "10");
    assert_eq!(pair("--max-time"), "120");
    assert_eq!(pair("--max-filesize"), "1048576");
    assert_eq!(pair("--proto"), "=https");
    assert!(args.contains(&"POST".to_string()), "{args:?}");
    assert!(
        args.contains(&"https://api.github.com/repos/freemkv/bdemu/issues".to_string()),
        "{args:?}"
    );
    assert!(
        args.contains(&"Authorization: token tok".to_string()),
        "{args:?}"
    );
    assert!(args.contains(&"{}".to_string()), "the payload: {args:?}");
    assert!(
        !args.iter().any(|a| a == "-L" || a == "--location"),
        "the POST carries a token; it must not follow redirects: {args:?}"
    );
}

#[test]
fn sanitize_component_blocks_path_traversal() {
    assert!(!sanitize_component("../../etc/passwd").contains('/'));
    assert!(!sanitize_component("..\\..\\windows").contains('\\'));
    assert_ne!(sanitize_component(".."), "..");
    assert_ne!(sanitize_component("."), ".");
    for bad in ["a/b", "a\\b", "a\0b", "/abs", "lead/../x"] {
        let s = sanitize_component(bad);
        assert!(
            !s.contains('/') && !s.contains('\\') && !s.contains('\0'),
            "{s:?}"
        );
    }
}

#[test]
fn sanitize_component_collapses_and_trims_dashes() {
    assert_eq!(sanitize_component("a   b"), "a-b");
    assert_eq!(sanitize_component("a---b"), "a-b");
    assert_eq!(sanitize_component("a / / b"), "a-b");
    assert_eq!(sanitize_component("-lead-"), "lead");
    assert_eq!(sanitize_component("HL-DT-ST BD"), "hl-dt-st-bd");
    assert_eq!(sanitize_component(""), "drive");
    assert_eq!(sanitize_component("///"), "drive");
    assert_eq!(sanitize_component("Foo_Bar1"), "foo_bar1");
}

#[test]
fn a_component_made_again_stays_the_same() {
    for s in ["a   b", "-lead-", "HL-DT-ST BD", "", "\u{fc}ber--x__Y", "drive"] {
        let once = sanitize_component(s);
        assert_eq!(sanitize_component(&once), once);
        assert!(!once.contains("--"), "{once}");
    }
}

#[test]
fn toml_escape_round_trips_to_parseable_toml() {
    let cases = [
        r#"HL-DT-ST"#,
        r#"BAD"VENDOR"#,
        r#"C:\firmware\v2"#,
        "line1\nline2",
        "tab\there\r\n",
        "nul\0byte",
        r#"both \ and " here"#,
        "ünïcödé",
    ];
    for raw in cases {
        let escaped = toml_escape(raw);
        assert!(
            !escaped.chars().any(|c| c == '\n' || c == '\r'),
            "escaped value still contains a raw newline: {escaped:?}"
        );
        let line = format!("manufacturer = \"{escaped}\"\n");
        let body = line
            .trim_end()
            .strip_prefix("manufacturer = \"")
            .and_then(|s| s.strip_suffix('"'))
            .expect("well-formed key = \"...\" line");
        assert_eq!(
            toml_basic_unescape(body),
            raw,
            "round-trip failed for {raw:?} (escaped {escaped:?})"
        );
    }
    // A code point in hexadecimal stands for its character.
    assert_eq!(toml_escape("\0"), "\\u0000");
    assert_eq!(toml_basic_unescape("a\\u20acb"), "a€b");
}

#[test]
fn format_date_non_ascii_passes_through() {
    let s = "20\u{00e9}1231";
    assert_eq!(format_date(s), s);
}

#[test]
fn base64_encode_rfc4648_vectors() {
    assert_eq!(base64_encode(b""), "");
    assert_eq!(base64_encode(b"f"), "Zg==");
    assert_eq!(base64_encode(b"fo"), "Zm8=");
    assert_eq!(base64_encode(b"foo"), "Zm9v");
    assert_eq!(base64_encode(b"foob"), "Zm9vYg==");
    assert_eq!(base64_encode(b"fooba"), "Zm9vYmE=");
    assert_eq!(base64_encode(b"foobar"), "Zm9vYmFy");
}

#[test]
fn base64_round_trips_arbitrary_lengths() {
    for len in 0..40usize {
        let data: Vec<u8> = (0..len)
            .map(|i| (i as u8).wrapping_mul(37).wrapping_add(11))
            .collect();
        assert_eq!(
            base64_decode(&base64_encode(&data)),
            data,
            "round-trip failed at len {len}"
        );
    }
}

#[test]
fn format_date_standard_yyyymmdd() {
    assert_eq!(format_date("20211231"), "2021-12-31");
    assert_eq!(format_date("19991009"), "1999-10-09");
}

#[test]
fn format_date_too_short_passes_through() {
    assert_eq!(format_date("2021"), "2021");
    assert_eq!(format_date(""), "");
}

#[test]
fn hex_dump_formats_lowercase_and_wraps_at_32() {
    assert_eq!(hex_dump(&[0x00, 0x0f, 0xa0, 0xff]), "00 0f a0 ff");
    let data: Vec<u8> = (0..33u8).collect();
    let dump = hex_dump(&data);
    assert!(dump.contains('\n'), "should wrap after 32 bytes: {dump}");
    assert!(dump.starts_with("00 01 02"), "{dump}");
}

#[test]
fn submitting_requires_an_explicit_locale_matched_yes() {
    assert!(!consent_granted(1, "", "y"), "a bare Enter must not post");
    assert!(!consent_granted(1, "", "j"), "a bare Enter must not post");
    assert!(!consent_granted(0, "y", "y"), "EOF is never consent");
    assert!(consent_granted(1, "y", "y"));
    assert!(consent_granted(1, "Y", "y"));
    assert!(
        consent_granted(1, "j", "j"),
        "German 'j' posts under a de prompt"
    );
    assert!(consent_granted(1, "J", "j"));
    assert!(!consent_granted(1, "j", "y"));
    assert!(!consent_granted(1, "y", "j"));
    assert!(!consent_granted(1, "n", "y"));
    assert!(!consent_granted(1, "yes please", "y"));
}

fn file(name: &str, data: Option<&[u8]>) -> CapturedFile {
    CapturedFile {
        name: name.to_string(),
        data: data.map(|d| d.to_vec()),
    }
}

fn entries(zip: &[u8]) -> Vec<String> {
    let mut a = zip::ZipArchive::new(std::io::Cursor::new(zip.to_vec())).expect("valid zip");
    (0..a.len())
        .map(|i| a.by_index(i).unwrap().name().to_string())
        .collect()
}

#[test]
fn the_archive_carries_only_the_files_this_run_wrote() {
    let files = vec![
        file("inquiry.bin", Some(b"this run")),
        file("drive.toml", Some(b"[drive]\n")),
    ];
    let zip = zip_files(&files).expect("zip built");
    let got = entries(&zip);
    assert_eq!(got, vec!["inquiry.bin", "drive.toml"]);
    assert!(!got.iter().any(|n| n == "gc_0108.bin"));
    assert!(!got.iter().any(|n| n == "tax-return.pdf"));

    let mut a = zip::ZipArchive::new(std::io::Cursor::new(
        zip_files(&vec![file("inquiry.bin", Some(b"this run"))]).unwrap(),
    ))
    .unwrap();
    let mut body = String::new();
    a.by_name("inquiry.bin")
        .unwrap()
        .read_to_string(&mut body)
        .unwrap();
    assert_eq!(body, "this run");
}

#[test]
fn a_missing_duplicate_or_self_referential_entry_does_not_break_the_archive() {
    let files = vec![
        file("inquiry.bin", Some(b"x")),
        file("inquiry.bin", Some(b"x")),
        file("never_written.bin", None),
        file("profile.zip", Some(b"previous archive")),
    ];
    let got = entries(&zip_files(&files).expect("a missing entry must not fail the submission"));
    assert_eq!(
        got,
        vec!["inquiry.bin"],
        "the archive must not nest itself or repeat an entry"
    );
    assert!(entries(&zip_files(&vec![]).expect("empty manifest is valid")).is_empty());
}

#[test]
fn nothing_to_archive_is_an_archive_without_files() {
    let files = vec![
        file("never_written.bin", None),
        file("profile.zip", Some(b"previous archive")),
    ];
    assert!(entries(&zip_files(&files).expect("nothing to archive is no error")).is_empty());
}

#[test]
fn a_name_too_long_for_an_archive_is_an_error() {
    let longest = "n".repeat(65535);
    let zip = zip_files(&vec![file(&longest, Some(b"x"))]).expect("the longest name fits");
    assert_eq!(entries(&zip), vec![longest]);
    assert!(zip_files(&vec![file(&"n".repeat(65536), Some(b"x"))]).is_err());
    // The length counts in bytes.
    assert!(zip_files(&vec![file(&"ü".repeat(32768), Some(b"x"))]).is_err());
}

#[test]
fn every_file_of_an_archive_reads_back_as_it_was() {
    let big: Vec<u8> = (0..100_000u32).map(|i| (i % 251) as u8).collect();
    let files = vec![
        file("a.bin", Some(&big)),
        file("empty.bin", Some(b"")),
        file("ü.bin", Some(b"\x00\xff")),
    ];
    let zip = zip_files(&files).unwrap();
    let mut a = zip::ZipArchive::new(std::io::Cursor::new(zip)).unwrap();
    for f in &files {
        let mut got = Vec::new();
        a.by_name(&f.name).unwrap().read_to_end(&mut got).unwrap();
        assert_eq!(Some(got), f.data, "{}", f.name);
    }
}

#[test]
fn consent_is_only_offered_when_the_question_is_visible_and_answerable() {
    assert!(may_prompt_for_consent("tok", true, true));
    assert!(!may_prompt_for_consent("tok", true, false));
    assert!(!may_prompt_for_consent("tok", false, true));
    assert!(!may_prompt_for_consent("tok", false, false));
    assert!(!may_prompt_for_consent("", true, true));
}

fn ready(token: &str, tty: bool) -> SubmitEvent {
    SubmitEvent::Ready {
        token: token.to_string(),
        stdin_is_tty: tty,
        stderr_is_tty: true,
    }
}

fn answered(n: usize, line: &str) -> SubmitEvent {
    SubmitEvent::Answered {
        n,
        line: line.to_string(),
        affirmative: "y".to_string(),
    }
}

#[test]
fn a_profile_is_posted_only_after_a_yes() {
    let asked = submit_step(Submission::Saved, ready("tok", true));
    assert!(matches!(asked, Submission::Asked));
    assert!(matches!(
        submit_step(Submission::Saved, ready("", true)),
        Submission::ByHand(WhyByHand::NotAsked)
    ));
    assert!(matches!(
        submit_step(Submission::Asked, answered(1, "n")),
        Submission::ByHand(WhyByHand::Declined)
    ));
    assert!(matches!(
        submit_step(Submission::Asked, answered(0, "y")),
        Submission::ByHand(WhyByHand::Declined)
    ));
    let posting = submit_step(Submission::Asked, answered(2, "Y"));
    assert!(matches!(posting, Submission::Posting));
    assert!(matches!(
        submit_step(Submission::Posting, SubmitEvent::PostDone(None)),
        Submission::ByHand(WhyByHand::Failed)
    ));
    match submit_step(
        Submission::Posting,
        SubmitEvent::PostDone(Some("https://x/1".to_string())),
    ) {
        Submission::Posted(u) => {
            let c = catalog(&[]);
            let lines = outcome_lines(&c, &Submission::Posted(u));
            assert_eq!(lines, vec!["", "Submitted — thank you!", "  https://x/1"]);
        }
        other => panic!("{other:?}"),
    }
}

#[test]
fn the_payload_is_json_and_the_reply_names_the_issue() {
    let p = submit_payload("T \"x\"", "a\nb");
    let v: serde_json::Value = serde_json::from_str(&p).expect("valid JSON");
    assert_eq!(v["title"], "T \"x\"");
    assert_eq!(v["body"], "a\nb");
    assert_eq!(v["labels"][0], "drive-profile");
    let reply = "{\"url\":\"https://api.github.com/repos/freemkv/bdemu/issues/7\",\
                 \"html_url\":\"https://github.com/freemkv/bdemu/issues/7\",\"id\":1}";
    assert_eq!(
        issue_url(reply).as_deref(),
        Some("https://github.com/freemkv/bdemu/issues/7")
    );
    assert_eq!(issue_url("{\"message\":\"Bad credentials\"}"), None);
    let c = catalog(&[("drive.submit_saved", "saved {dir}"), ("drive.submit_zip", "zip {path}")]);
    assert_eq!(saved_lines(&c, "d", "z"), vec!["", "saved d", "zip z"]);
    assert!(by_hand_text(&c, "T", "B").contains("https://github.com/freemkv/bdemu/issues/new"));
}

fn capture() -> Capture {
    Capture {
        inquiry: vec![1, 2],
        gc_010c: vec![3],
        features: vec![Feature {
            code: 0x0108,
            name: "Serial".to_string(),
            data: vec![0, 0, 0, 0, b'S', b'E'],
        }],
        rb_f1: Some(vec![9]),
        rb_mode6: None,
        rb_b0_04: None,
        rb_b0_500000: None,
        rb_f4: None,
        wb_41: None,
        rb_b0_04_postknock: None,
        rb_b0_500000_postknock: None,
        rpc_state: None,
        mode_2a: None,
    }
}

#[test]
fn a_capture_is_saved_under_fixed_names() {
    let files = capture_files(&capture());
    let names: Vec<&str> = files.iter().map(|f| f.name.as_str()).collect();
    assert_eq!(names[0], "inquiry.bin");
    assert!(names.contains(&"gc_0108.bin"), "{names:?}");
    assert_eq!(feature_file_name(0x0108), "gc_0108.bin");
    assert_eq!(
        files.iter().find(|f| f.name == "gc_0108.bin").unwrap().data,
        vec![0, 0, 0, 0, b'S', b'E']
    );
}

#[test]
fn a_serial_number_is_overwritten_in_place() {
    assert_eq!(serial_start(0x0108, 6), Some(4));
    assert_eq!(serial_start(0x0108, 4), None);
    assert_eq!(serial_start(0x0000, 60), None);
    assert_eq!(buffer_serial_len(12), Some(12));
    assert_eq!(buffer_serial_len(11), None);
    assert_eq!(
        splice(&vec![1, 2, 3, 4], 1, &vec![8, 9]),
        vec![1, 8, 9, 4]
    );
}

#[test]
fn a_profile_names_the_drive_and_stays_parseable() {
    let id = DriveIdentity::from_drive(&hostile_drive_id());
    let toml = drive_toml(&id, "X\"Y", "MTK", true, &capture());
    assert!(toml.contains("X\\\"Y"), "{toml}");
    assert!(!toml.contains("\nmanufacturer = \"forged\""), "{toml}");
    let name = profile_name(&id);
    assert!(name.starts_with("hl-dt-st"), "{name}");
    assert!(!name.contains('/') && !name.contains('['), "{name}");
    // Case is Unicode's, whatever the firmware writes.
    let loud = DriveIdentity::from_drive(&DriveId {
        vendor_id: "ÀB".to_string(),
        ..hostile_drive_id()
    });
    assert!(profile_name(&loud).contains('b'));
    assert!(drive_issue_title(&id).starts_with("Drive profile: HL-DT-ST[31m"));
    let body = drive_issue_body(&id, "XX", "MTK", &name, &capture(), "QUJD");
    assert!(body.contains("QUJD") && body.contains(CAPTURE_COMMAND), "{body}");
    let c = catalog(&[
        ("drive.captured", "{code} {name} {bytes}"),
        ("drive.supported", "ok"),
        ("drive.unknown", "??"),
    ]);
    assert_eq!(captured_line(&c, &capture().features[0]), "  0108 Serial 6");
    assert_eq!(profile_status(&c, true), "ok");
    assert_eq!(profile_status(&c, false), "??");
    assert!(!drive_listing_lines(&c, "1.0", vec!["b".to_string()], "MTK", "f", "p", true).is_empty());
    assert!(!profile_summary_lines(&c, &id, "s", "MTK", "p", 3).is_empty());
    assert_eq!(drive_help_lines(&c).len(), 6);
}

#[test]
fn the_drive_flags_are_read_in_turn() {
    let v = |a: &[&str]| a.iter().map(|s| s.to_string()).collect::<Vec<String>>();
    match parse_drive_flags(&v(&["--share", "-m", "-q"])) {
        DriveParse::Flags(f) => assert!(f.share && f.mask && f.quiet && !f.verbose),
        _ => panic!("all known"),
    }
    assert!(matches!(parse_drive_flags(&v(&["-h"])), DriveParse::Help));
    match parse_drive_flags(&v(&["--share", "--loud"])) {
        DriveParse::Unknown(o) => assert_eq!(o, "--loud"),
        _ => panic!("--loud is unknown"),
    }
    // The flags of the log are read elsewhere.
    assert!(matches!(
        parse_drive_flags(&v(&["--log-level", "3", "--help"])),
        DriveParse::Help
    ));
    assert!(matches!(
        parse_drive_flags(&v(&["--log-file", "l.txt", "--help"])),
        DriveParse::Help
    ));
    assert!(matches!(
        parse_drive_flags(&v(&["--log-level"])),
        DriveParse::Flags(_)
    ));
}

#[test]
fn long_lines_are_wrapped_and_quotes_escaped() {
    let mut s = String::from(">");
    push_wrapped(&mut s, "abcdefg", 3);
    assert_eq!(s, ">abc\ndef\ng\n");
    assert_eq!(json_esc("a\"b\\c"), "a\\\"b\\\\c");
}

#[test]
fn display_text_keeps_everything_but_what_could_harm() {
    assert_eq!(sanitize_display("a\u{0}b\u{7f}c\u{202e}d"), "abcd");
    assert_eq!(sanitize_display("plain – ünï"), "plain – ünï");
    let once = sanitize_display("x\u{1b}y");
    assert_eq!(sanitize_display(&once), once);
}

#[test]
fn a_catalogue_fills_in_what_it_is_given() {
    let c = catalog(&[("k", "{a} and {b}, {a}")]);
    assert_eq!(c.get("k"), "{a} and {b}, {a}");
    assert_eq!(c.get("missing"), "missing");
    assert_eq!(c.get_or("missing", "english"), "english");
    assert_eq!(c.fmt("k", &[("a", "1"), ("b", "2")]), "1 and 2, 1");
    assert_eq!(c.fmt1("k", "a", "1"), "1 and {b}, 1");
    assert_eq!(c.fmt_or("m", "x {a}", &[("a", "y")]), "x y");
}
