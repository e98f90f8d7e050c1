use freemkv::cli_entry::{
    collect_urls, container_lines, dispatch, exit_code, fail_mark, fatal_lines, help_info,
    help_lines, help_update_keys, info_route, is_flag_token, is_url, keys_updated_lines,
    language_override, log_filter,
    parse_logging_flags, plan_logging, split_log_path, stream_info_lines, strip_language_flag,
    took_value, update_keys_dest, update_keys_url, usage, wants_help, Command, InfoRoute, LogSetup,
    PendingDiag, UrlKind, DEFAULT_LOG_FILE,
};
use freemkv::disc::{
    AudioStream, Codec, CodecKind, HdrKind, LabelPurpose, LabelQualifier, Stream, SubtitleStream,
    VideoStream,
};
use freemkv::strings::Catalog;

fn v(args: &[&str]) -> Vec<String> {
    args.iter().map(|s| s.to_string()).collect()
}

fn catalog(entries: &[(&str, &str)]) -> Catalog {
    Catalog {
        entries: entries
            .iter()
            .map(|(k, t)| (k.to_string(), t.to_string()))
            .collect(),
    }
}

fn english() -> Catalog {
    catalog(&[
        ("stream.purpose.commentary", "Commentary"),
        ("stream.purpose.descriptive", "Descriptive"),
        ("stream.purpose.score", "Score"),
        ("stream.purpose.ime", "Music & effects"),
        ("stream.secondary", "Secondary"),
        (
            "error.log_level_out_of_range",
            "--log-level: 0 is out of range (1-4); ignored",
        ),
        (
            "error.log_level_not_a_number",
            "--log-level: '{value}' is not a number; ignored",
        ),
        (
            "error.log_level_needs_value",
            "--log-level needs a value; ignored",
        ),
        (
            "error.log_file_invalid_path",
            "--log-file: invalid path '{path}'",
        ),
        (
            "error.language_needs_value",
            "{flag} needs a language code; ignored",
        ),
    ])
}

fn codec(kind: CodecKind, name: &str) -> Codec {
    Codec {
        kind,
        name: name.to_string(),
    }
}

fn video(codec: Codec, resolution: &str, label: &str) -> Stream {
    Stream::Video(VideoStream {
        pid: 0x1011,
        codec,
        resolution: resolution.to_string(),
        frame_rate: String::new(),
        frame_rate_known: false,
        hdr: HdrKind::Sdr,
        hdr_name: "SDR".to_string(),
        color_space: "BT.709".to_string(),
        bt2020: false,
        secondary: false,
        label: label.to_string(),
    })
}

fn audio(codec: Codec, language: &str, secondary: bool, purpose: LabelPurpose, label: &str) -> Stream {
    Stream::Audio(AudioStream {
        pid: 0x1100,
        codec,
        channels: "stereo".to_string(),
        language: language.to_string(),
        sample_rate: "48kHz".to_string(),
        secondary,
        purpose,
        label: label.to_string(),
    })
}

fn subtitle(language: &str) -> Stream {
    Stream::Subtitle(SubtitleStream {
        pid: 0x1200,
        codec: codec(CodecKind::Other, "PGS"),
        language: language.to_string(),
        forced: false,
        qualifier: LabelQualifier::Plain,
    })
}

#[test]
fn a_logging_flag_does_not_swallow_the_following_flag() {
    for flag in ["--log-file", "--log-level"] {
        let args = v(&[flag, "--raw", "disc://", "iso:///out/d.iso"]);
        let (_level, log_file, _) = parse_logging_flags(&args);
        assert!(
            log_file.as_deref() != Some("--raw"),
            "{flag} took the following FLAG as its value"
        );
        assert!(args.iter().any(|a| a == "--raw"));
    }
    let args = v(&["--log-file", "--log-level", "3"]);
    let (level, log_file, _) = parse_logging_flags(&args);
    assert_eq!(log_file, None, "--log-file had no value to take");
    assert_eq!(
        level,
        Some(3),
        "--log-level was swallowed by the flag before it"
    );
}

#[test]
fn stream_info_lines_render_purpose_secondary_and_label_tags() {
    let c = english();
    for (purpose, needle) in [
        (LabelPurpose::Commentary, "Commentary"),
        (LabelPurpose::Descriptive, "Descriptive"),
        (LabelPurpose::Score, "Score"),
    ] {
        let a = audio(codec(CodecKind::Ac3, "AC-3"), "eng", false, purpose, "");
        let line = stream_info_lines(&c, &[a]).join("\n");
        assert!(line.contains(needle), "{purpose:?} → {line:?}");
    }
    let tagged = audio(
        codec(CodecKind::Other, "TrueHD"),
        "fra",
        true,
        LabelPurpose::Commentary,
        "Atmos",
    );
    let line = stream_info_lines(&c, &[tagged]).join("\n");
    assert!(
        line.contains("Commentary") && line.contains("Secondary") && line.contains("Atmos"),
        "all three tags present: {line:?}"
    );
    assert_eq!(line, "  TrueHD stereo fra — Commentary, Secondary, Atmos");
    let lines = stream_info_lines(
        &c,
        &[
            video(codec(CodecKind::Other, "HEVC"), "2160p", "Feature"),
            subtitle("eng"),
        ],
    );
    let joined = lines.join("\n");
    assert!(joined.contains("Feature"), "video label present: {joined:?}");
    assert!(joined.contains("eng"), "subtitle language present: {joined:?}");
}

#[test]
fn stream_info_lines_strip_terminal_escapes_from_every_disc_controlled_field() {
    let hostile = "\x1b[2Jevil\x07";
    let lines = stream_info_lines(
        &english(),
        &[
            video(codec(CodecKind::Other, "HEVC"), "", hostile),
            audio(
                codec(CodecKind::Other, "TrueHD"),
                hostile,
                false,
                LabelPurpose::Normal,
                hostile,
            ),
            subtitle(hostile),
        ],
    );
    let joined = lines.join("\n");
    assert!(
        !joined.contains('\x1b') && !joined.contains('\x07'),
        "control/escape chars must be stripped from every stream line, got {joined:?}"
    );
    assert!(
        joined.contains("evil"),
        "printable label text should survive sanitization, got {joined:?}"
    );
}

#[test]
fn update_keys_honors_keydb_flag() {
    let args = v(&[
        "--url",
        "http://x/k.zip",
        "--keydb",
        "/custom/path/keydb.cfg",
    ]);
    assert_eq!(
        update_keys_dest(&args, "/standard/keydb.cfg"),
        "/custom/path/keydb.cfg",
        "--keydb must be the download destination"
    );
    assert_eq!(update_keys_url(&args).as_deref(), Some("http://x/k.zip"));
}

#[test]
fn update_keys_without_keydb_flag_uses_standard_location() {
    let args = v(&["--url", "http://x/k.zip"]);
    assert_ne!(
        update_keys_dest(&args, "/standard/keydb.cfg"),
        "/custom/path/keydb.cfg"
    );
    assert_eq!(
        update_keys_dest(&args, "/standard/keydb.cfg"),
        "/standard/keydb.cfg"
    );
}

#[test]
fn plain_two_urls() {
    assert_eq!(
        collect_urls(&v(&["disc://", "mkv://out.mkv"])),
        v(&["disc://", "mkv://out.mkv"])
    );
}

#[test]
fn stream_selection_flag_values_are_not_read_as_urls() {
    assert_eq!(
        collect_urls(&v(&[
            "iso://d.iso",
            "mkv://out.mkv",
            "-t",
            "1",
            "-a",
            "none",
            "-s",
            "eng",
        ])),
        v(&["iso://d.iso", "mkv://out.mkv"])
    );
    assert_eq!(
        collect_urls(&v(&[
            "-a",
            "eng,spa",
            "-s",
            "none",
            "disc://",
            "mkv://out.mkv"
        ])),
        v(&["disc://", "mkv://out.mkv"])
    );
}

#[test]
fn value_flag_takes_non_url_value() {
    assert_eq!(
        collect_urls(&v(&["disc://", "mkv://out.mkv", "-t", "1"])),
        v(&["disc://", "mkv://out.mkv"])
    );
    assert_eq!(
        collect_urls(&v(&["--keydb", "keydb.cfg", "disc://", "mkv://out.mkv"])),
        v(&["disc://", "mkv://out.mkv"])
    );
}

#[test]
fn a_retired_flags_value_is_stepped_over_so_the_rejection_is_reached() {
    for retired in ["-k", "--device", "-d"] {
        assert!(took_value(retired));
        assert_eq!(
            collect_urls(&v(&[retired, "value", "disc://", "mkv://out.mkv"])),
            v(&["disc://", "mkv://out.mkv"]),
            "`{retired}`'s value became a positional"
        );
        assert_eq!(
            collect_urls(&v(&[retired, "disc://", "mkv://out.mkv"])),
            v(&["disc://", "mkv://out.mkv"]),
            "`{retired}` swallowed a positional URL"
        );
    }
}

#[test]
fn value_flag_does_not_swallow_positional_url() {
    assert_eq!(
        collect_urls(&v(&["--keydb", "disc://", "mkv://out.mkv"])),
        v(&["disc://", "mkv://out.mkv"])
    );
    assert_eq!(
        collect_urls(&v(&["-t", "disc://", "mkv://out.mkv"])),
        v(&["disc://", "mkv://out.mkv"])
    );
}

#[test]
fn boolean_flags_ignored() {
    assert_eq!(
        collect_urls(&v(&["--multipass", "disc://", "iso://d.iso", "--raw"])),
        v(&["disc://", "iso://d.iso"])
    );
}

#[test]
fn key_url_value_is_not_a_positional() {
    assert_eq!(
        collect_urls(&v(&[
            "disc://",
            "mkv://out.mkv",
            "--key-url",
            "https://keys.example/keys",
        ])),
        v(&["disc://", "mkv://out.mkv"])
    );
    assert_eq!(
        collect_urls(&v(&[
            "--key-url",
            "https://keys.example/keys",
            "--key-auth",
            "tok",
            "disc://",
            "mkv://out.mkv",
        ])),
        v(&["disc://", "mkv://out.mkv"])
    );
}

#[test]
fn key_auth_token_value_consumed() {
    assert_eq!(
        collect_urls(&v(&["--key-auth", "tok", "disc://", "mkv://out.mkv"])),
        v(&["disc://", "mkv://out.mkv"])
    );
}

#[test]
fn is_flag_token_treats_negative_numbers_as_values_not_flags() {
    assert!(is_flag_token("--raw"));
    assert!(is_flag_token("-t"));
    assert!(!is_flag_token("-1"), "a negative number is a value");
    assert!(!is_flag_token("-9"));
    assert!(!is_flag_token("disc://"), "a positional is not a flag");
    assert!(!is_flag_token(""), "an empty token is not a flag");
    assert!(!is_flag_token("-"));
}

#[test]
fn is_url_matches_only_scheme_bearing_tokens() {
    assert!(is_url("disc://"));
    assert!(is_url("mkv://out.mkv"));
    assert!(is_url("https://keys.example/api"));
    assert!(!is_url("keydb.cfg"));
    assert!(!is_url("/path/to/out.mkv"));
    assert!(!is_url("3"));
}

fn flags(args: &[String]) -> (Option<u8>, Option<String>) {
    let (level, file, _) = parse_logging_flags(args);
    (level, file)
}

fn keys(diags: &[PendingDiag]) -> Vec<&'static str> {
    diags.iter().map(|d| d.key).collect()
}

#[test]
fn no_logging_flags_requests_nothing() {
    assert_eq!(flags(&v([].as_slice())), (None, None));
    assert_eq!(
        flags(&v(&["freemkv", "iso://a.iso", "mkv://b.mkv", "-t", "2"])),
        (None, None)
    );
}

#[test]
fn the_log_level_values_map_and_clamp() {
    for n in 1..=4u8 {
        assert_eq!(
            parse_logging_flags(&v(&["--log-level", &n.to_string()])).0,
            Some(n)
        );
    }
    assert_eq!(parse_logging_flags(&v(&["--log-level", "9"])).0, Some(4));
    assert_eq!(parse_logging_flags(&v(&["--log-level", "255"])).0, Some(4));
}

#[test]
fn a_bad_log_level_is_ignored_rather_than_guessed_at() {
    assert_eq!(parse_logging_flags(&v(&["--log-level", "0"])).0, None);
    assert_eq!(parse_logging_flags(&v(&["--log-level", "xyz"])).0, None);
    assert_eq!(parse_logging_flags(&v(&["--log-level", "-1"])).0, None);
    assert_eq!(flags(&v(&["--log-level"])), (None, None));
}

#[test]
fn the_log_file_flag_takes_the_next_token_in_either_order() {
    assert_eq!(
        flags(&v(&["--log-file", "/tmp/x.log"])),
        (None, Some("/tmp/x.log".to_string()))
    );
    assert_eq!(
        flags(&v(&["--log-file", "a.log", "--log-level", "2"])),
        (Some(2), Some("a.log".to_string()))
    );
    assert_eq!(
        flags(&v(&["--log-level", "2", "--log-file", "a.log"])),
        (Some(2), Some("a.log".to_string()))
    );
    assert_eq!(flags(&v(&["--log-file"])), (None, None));
}

#[test]
fn a_refused_log_file_value_records_a_diagnostic() {
    let (_, file, diags) = parse_logging_flags(&v(&["--log-file", "--raw"]));
    assert_eq!(file, None);
    assert_eq!(keys(&diags), vec!["error.log_file_needs_value"]);

    let (_, file, diags) = parse_logging_flags(&v(&["--log-file"]));
    assert_eq!(file, None);
    assert_eq!(keys(&diags), vec!["error.log_file_needs_value"]);

    let (_, file, diags) = parse_logging_flags(&v(&["--log-file", "out.log"]));
    assert_eq!(file.as_deref(), Some("out.log"));
    assert!(diags.is_empty());
}

#[test]
fn the_log_path_splits_into_a_directory_and_a_name() {
    let (dir, name) = split_log_path("log.txt").expect("a bare name is valid");
    assert_eq!(dir, ".");
    assert_eq!(name, "log.txt");

    let (dir, name) = split_log_path("/var/log/freemkv.log").expect("a full path is valid");
    assert_eq!(dir, "/var/log");
    assert_eq!(name, "freemkv.log");

    let (dir, name) = split_log_path("logs/a.log").expect("a relative dir is valid");
    assert_eq!(dir, "logs");
    assert_eq!(name, "a.log");

    assert!(
        split_log_path("").is_none(),
        "an empty path has no filename"
    );
    assert!(split_log_path("/").is_none(), "a root path has no filename");
    assert!(split_log_path("..").is_none());
}

#[test]
fn the_language_flag_never_swallows_a_url_or_a_flag() {
    let (args, lang, _) = strip_language_flag(&v(&["freemkv", "--language", "de", "disc://"]));
    assert_eq!(lang.as_deref(), Some("de"));
    assert_eq!(args, v(&["freemkv", "disc://"]));

    let (args, lang, _) = strip_language_flag(&v(&["freemkv", "--lang", "de", "disc://"]));
    assert_eq!(lang.as_deref(), Some("de"));
    assert_eq!(args, v(&["freemkv", "disc://"]));

    let (args, lang, _) =
        strip_language_flag(&v(&["freemkv", "--language", "disc://", "mkv://x.mkv"]));
    assert_eq!(lang, None);
    assert_eq!(args, v(&["freemkv", "disc://", "mkv://x.mkv"]));

    let (args, lang, _) = strip_language_flag(&v(&["freemkv", "--language", "--verbose"]));
    assert_eq!(lang, None);
    assert_eq!(args, v(&["freemkv", "--verbose"]));

    let (args, lang, _) = strip_language_flag(&v(&["freemkv", "--language"]));
    assert_eq!(lang, None);
    assert_eq!(args, v(&["freemkv"]));

    let original = v(&["freemkv", "iso://a.iso", "mkv://b.mkv"]);
    let (args, lang, _) = strip_language_flag(&original);
    assert_eq!(lang, None);
    assert_eq!(args, original);
}

#[test]
fn every_deferred_startup_diagnostic_resolves_to_real_localized_text() {
    let c = english();
    let cases = [
        (v(&["--log-level", "0"]), "error.log_level_out_of_range", ""),
        (
            v(&["--log-level", "xyz"]),
            "error.log_level_not_a_number",
            "xyz",
        ),
        (v(&["--log-level"]), "error.log_level_needs_value", ""),
    ];
    for (args, key, must_contain) in cases {
        let (_, _, diags) = parse_logging_flags(&args);
        assert_eq!(keys(&diags), vec![key], "for argv {args:?}");
        assert_ne!(c.get(key), key);
        let text = diags[0].render(&c);
        assert!(
            !text.contains('{'),
            "'{key}' rendered with an unsubstituted placeholder: {text}"
        );
        assert!(
            text.contains(must_contain),
            "'{key}' dropped the value the user typed: {text}"
        );
        // Without a text in the catalogue the English one steps in, just as
        // complete.
        let text = diags[0].render(&catalog(&[]));
        assert_ne!(text, key);
        assert!(!text.contains('{'), "{text}");
        assert!(text.contains(must_contain), "{text}");
    }

    let key = "error.log_file_invalid_path";
    assert_ne!(c.get(key), key, "'{key}' is not in the catalog");
    let text = PendingDiag::new(key, "unused fallback")
        .with("path", "/")
        .render(&c);
    assert!(text.contains('/') && !text.contains('{'), "{text}");

    assert_ne!(
        c.get("error.language_needs_value"),
        "error.language_needs_value"
    );
    for flag in ["--language", "--lang"] {
        let (_, lang, diags) = strip_language_flag(&v(&["freemkv", flag]));
        assert_eq!(lang, None);
        assert_eq!(keys(&diags), vec!["error.language_needs_value"]);
        let text = diags[0].render(&c);
        assert!(
            text.contains(flag) && !text.contains('{'),
            "the complaint must name the spelling the user actually typed, got: {text}"
        );
    }
}

#[test]
fn the_pre_locale_argv_pass_prints_nothing_of_its_own() {
    // Bad input is recorded, to be rendered once there is a catalogue: in that
    // catalogue's words, not in any of its own.
    let (_, _, logging) = parse_logging_flags(&v(&["--log-level", "xyz", "--log-file"]));
    assert_eq!(
        keys(&logging),
        vec!["error.log_level_not_a_number", "error.log_file_needs_value"]
    );
    let (_, _, language) = strip_language_flag(&v(&["freemkv", "--language"]));
    assert_eq!(keys(&language), vec!["error.language_needs_value"]);
    let c = catalog(&[
        ("error.log_level_not_a_number", "<<1 {value}>>"),
        ("error.log_file_needs_value", "<<2>>"),
        ("error.language_needs_value", "<<3 {flag}>>"),
    ]);
    assert_eq!(logging[0].render(&c), "<<1 xyz>>");
    assert_eq!(logging[1].render(&c), "<<2>>");
    assert_eq!(language[0].render(&c), "<<3 --language>>");
}

#[test]
fn the_info_surface_never_prints_english_of_its_own() {
    let c = catalog(&[
        ("disc.file", "Datei"),
        ("disc.duration", "Dauer"),
        ("disc.streams", "Spuren"),
    ]);
    let lines = container_lines(&c, "a.mkv", Some(3725), &[subtitle("deu")]);
    assert_eq!(
        lines,
        v(&["Datei: a.mkv", "Dauer: 1:02:05", "Spuren: 1", "  PGS deu"])
    );
    let lines = container_lines(&c, "a.mkv", None, &[]);
    assert_eq!(lines, v(&["Datei: a.mkv", "Spuren: 0"]));
}

#[test]
fn help_is_requested_only_by_the_help_flags() {
    assert!(!wants_help(&v([].as_slice())));
    assert!(!wants_help(&v(&["disc://"])));
    assert!(!wants_help(&v(&["--helpful", "-help", "h"])));
    assert!(wants_help(&v(&["--help"])));
    assert!(wants_help(&v(&["-h"])));
    assert!(wants_help(&v(&["disc://", "-h"])));
    assert!(wants_help(&v(&["--share", "--help", "-m"])));
}

#[test]
fn a_command_line_is_dispatched_by_its_first_word() {
    assert!(matches!(dispatch(&v(&["freemkv"])), Command::Bare));
    assert_eq!(exit_code(&dispatch(&v(&["freemkv"]))), 2);
    assert!(matches!(dispatch(&v(&["freemkv", "-V"])), Command::Version));
    assert!(matches!(
        dispatch(&v(&["freemkv", "info", "-h"])),
        Command::HelpInfo
    ));
    assert!(matches!(
        dispatch(&v(&["freemkv", "help", "update-keys"])),
        Command::HelpUpdateKeys
    ));
    match dispatch(&v(&["freemkv", "help", "remux"])) {
        Command::UnknownHelp(w) => assert_eq!(w, "remux"),
        _ => panic!("remux is no command"),
    }
    assert_eq!(exit_code(&dispatch(&v(&["freemkv", "help", "remux"]))), 2);
    match dispatch(&v(&["freemkv", "disc://", "mkv://o.mkv", "-t", "1"])) {
        Command::Rip(a, b, all) => {
            assert_eq!((a.as_str(), b.as_str()), ("disc://", "mkv://o.mkv"));
            assert_eq!(all, v(&["disc://", "mkv://o.mkv", "-t", "1"]));
        }
        _ => panic!("two streams are a rip"),
    }
    match dispatch(&v(&["freemkv", "-v", "disc://"])) {
        Command::Info(a) => assert_eq!(a, v(&["disc://", "-v"])),
        _ => panic!("one stream is shown"),
    }
    assert!(matches!(dispatch(&v(&["freemkv", "--raw"])), Command::Hint));
    assert_eq!(exit_code(&dispatch(&v(&["freemkv", "--raw"]))), 1);
}

#[test]
fn the_diagnostic_log_is_off_unless_it_is_asked_for() {
    assert!(matches!(plan_logging(None, None, false), LogSetup::Off));
    match plan_logging(Some(2), None, false) {
        LogSetup::File {
            env_filter,
            filter,
            dir,
            name,
        } => {
            assert!(!env_filter);
            assert_eq!(filter, log_filter("info"));
            assert_eq!(filter, "error,freemkv=info,libfreemkv=info");
            assert_eq!(dir, ".");
            assert_eq!(name, DEFAULT_LOG_FILE);
        }
        _ => panic!("a level asks for a log"),
    }
    match plan_logging(None, Some("/".to_string()), false) {
        LogSetup::BadPath(d) => assert_eq!(d.key, "error.log_file_invalid_path"),
        _ => panic!("a root is no file"),
    }
}

#[test]
fn info_routes_by_the_kind_of_url() {
    assert!(matches!(
        info_route(&[], UrlKind::Unknown),
        InfoRoute::Usage
    ));
    match info_route(
        &v(&["disc:///dev/sg0", "--share"]),
        UrlKind::Disc(Some("/dev/sg0".to_string())),
    ) {
        InfoRoute::Share(d, f) => {
            assert_eq!(d.as_deref(), Some("/dev/sg0"));
            assert_eq!(f, v(&["--share"]));
        }
        _ => panic!("--share shares"),
    }
    assert!(matches!(
        info_route(&v(&["disc://"]), UrlKind::Disc(None)),
        InfoRoute::Scan(None, _)
    ));
    match info_route(&v(&["iso://a.iso", "--full"]), UrlKind::Iso) {
        InfoRoute::Image { folder, flags } => {
            assert!(!folder);
            assert!(flags.full);
        }
        _ => panic!("an image is listed"),
    }
    match info_route(&v(&["iso://a.iso", "--frobnicate"]), UrlKind::Iso) {
        InfoRoute::UnknownOption(o) => assert_eq!(o, "--frobnicate"),
        _ => panic!("an image takes the flags of a disc"),
    }
    assert!(matches!(
        info_route(&v(&["mkv://a.mkv"]), UrlKind::Mkv),
        InfoRoute::Container
    ));
    assert!(matches!(
        info_route(&v(&["null://"]), UrlKind::Other),
        InfoRoute::UnsupportedUrl
    ));
}

#[test]
fn help_pages_render_through_the_catalogue() {
    let c = catalog(&[]);
    for page in [usage(), help_info(), help_update_keys()] {
        let lines = help_lines(&page, &c, "1.2.3");
        assert_eq!(lines.len(), page.len());
    }
    let lines = help_lines(&usage(), &c, "1.2.3");
    assert!(lines.iter().any(|l| l.contains("1.2.3")), "{lines:?}");
}

#[test]
fn the_usage_lists_every_kind_of_url() {
    let lines = help_lines(&usage(), &catalog(&[]), "1.2.3");
    let at = lines.iter().position(|l| l == "usage.url.mkv").unwrap();
    assert_eq!(
        lines[at..at + 8],
        v(&[
            "usage.url.mkv",
            "usage.url.m2ts",
            "  mp4://path.mp4           MP4 file",
            "usage.url.iso",
            "  dir://folder/            Decrypted file tree in a folder",
            "usage.url.network",
            "usage.url.stdio",
            "usage.url.null",
        ])
    );
}

#[test]
fn a_failure_names_what_failed_and_why() {
    let c = catalog(&[
        ("error.fatal_header", "{level}: {op}: {cause}"),
        ("error.level_error", "Error"),
        ("error.op_update_keys", "updating keys"),
        ("error.fatal_diagnostic_hint", "see the log"),
    ]);
    assert_eq!(
        fatal_lines(&c, "error.op_update_keys", "E6000", false),
        v(&["x Error: updating keys: E6000.", "  see the log"])
    );
    assert_eq!(fail_mark(true), "\x1b[31m✗\x1b[0m");
    let c = catalog(&[
        ("keys.updated", "{entries} entries, {bytes} bytes"),
        ("keys.saved", "saved to {path}"),
    ]);
    assert_eq!(
        keys_updated_lines(&c, 3, 40, "/k"),
        v(&["3 entries, 40 bytes", "saved to /k"])
    );
}

#[test]
fn the_automatic_language_is_no_override() {
    assert_eq!(language_override(Some("AUTO".to_string())), None);
    assert_eq!(
        language_override(Some("de".to_string())).as_deref(),
        Some("de")
    );
    assert_eq!(language_override(None), None);
}
