use freemkv::cmd::disc_info::{
    parse_plain_flags, plain_audio, plain_heading_lines, plain_lang_name, plain_language_shown,
    plain_opening_lines, plain_subtitle, plain_title_lines, plain_video, PlainParse,
};
use freemkv::cmd::info::{plain_file_lines, plain_route, PlainRoute};
use freemkv::cli_entry::UrlKind;
use freemkv::disc::{
    AacsState, AudioStream, BdRegion, Codec, CodecKind, Disc, DiscFormat, DiscRegion, HdrKind,
    KeyOrigin, LabelPurpose, LabelQualifier, Stream, SubtitleStream, Title, VideoStream,
};
use freemkv::disc_info::{
    aacs_generation, codec_name, detail_lines, encryption_label, encryption_line, format_audio,
    format_subtitle, format_video, format_volume_id, hex_bytes, is_aacs_format, key_origin_label,
    label_indent, label_prefix, lang_name, language_shown, opening_lines, parse_info_flags,
    print_disc_titles, region_name, sanitize, summary_lines, title_lines, DriveFacts, EncLabel,
    InfoFlags, InfoParse,
};
use freemkv::strings::Catalog;

fn args(v: &[&str]) -> Vec<String> {
    v.iter().map(|s| s.to_string()).collect()
}

fn english() -> Catalog {
    let entries = [
        ("disc.video", "Video"),
        ("disc.audio", "Audio"),
        ("disc.subtitle", "Subtitle"),
        ("disc.clips", "clips"),
        ("disc.clip", "clip"),
        ("disc.titles", "Titles"),
        ("disc.no_titles", "No titles found."),
        ("disc.more_titles", "  + {count} more"),
        ("disc.forced", "forced"),
        ("disc.disc", "Disc"),
        ("disc.format", "Format"),
        ("disc.scanning", "Scanning disc..."),
        ("disc.css_encrypted", "CSS encrypted"),
        ("disc.aacs_encrypted", "AACS encrypted"),
        ("disc.dolby_vision_el", "Dolby Vision EL"),
        ("stream.qualifier.sdh", "SDH"),
        ("stream.purpose.commentary", "Commentary"),
        ("stream.secondary", "Secondary"),
    ];
    Catalog {
        entries: entries
            .iter()
            .map(|(k, t)| (k.to_string(), t.to_string()))
            .collect(),
    }
}

#[test]
fn an_unknown_info_flag_is_rejected() {
    for bad in ["--fulll", "--typo", "-z", "--verbse", "--no-such-thing"] {
        assert_eq!(
            parse_info_flags(&args(&[bad])),
            InfoParse::Unknown(bad.to_string()),
            "{bad} must be reported, not silently dropped"
        );
    }
}

#[test]
fn an_unknown_flag_is_rejected_even_after_valid_ones() {
    assert_eq!(
        parse_info_flags(&args(&["--full", "--quiet", "--oops"])),
        InfoParse::Unknown("--oops".to_string())
    );
}

#[test]
fn known_info_flags_are_honoured() {
    let InfoParse::Flags(f) = parse_info_flags(&args(&[
        "--full",
        "--quiet",
        "--verbose",
        "--basic",
        "--keydb",
        "/tmp/k.cfg",
    ])) else {
        panic!("a list of valid flags must parse");
    };
    assert!(f.full && f.quiet && f.verbose && f.basic);
    assert_eq!(f.keydb.as_deref(), Some("/tmp/k.cfg"));
    let InfoParse::Flags(f) = parse_info_flags(&args(&["-f", "-q", "-v", "-b"])) else {
        panic!("short forms must parse");
    };
    assert!(f.full && f.quiet && f.verbose && f.basic);
}

#[test]
fn a_value_flag_does_not_swallow_the_flag_that_follows_it() {
    let InfoParse::Flags(f) = parse_info_flags(&args(&["--keydb", "--full"])) else {
        panic!("a missing --keydb value must not turn --full into one");
    };
    assert_eq!(f.keydb, None, "--full is a flag, not a keydb path");
    assert!(f.full, "--full was the user's request and must still apply");

    let InfoParse::Flags(f) = parse_info_flags(&args(&["--log-level", "--basic"])) else {
        panic!("a missing --log-level value must not eat --basic");
    };
    assert!(f.basic);
    let InfoParse::Flags(f) = parse_info_flags(&args(&["--log-file", "--quiet"])) else {
        panic!("a missing --log-file value must not eat --quiet");
    };
    assert!(f.quiet);

    let InfoParse::Flags(f) = parse_info_flags(&args(&["--keydb", "/tmp/k.cfg", "--full"])) else {
        panic!("a well-formed list must still parse");
    };
    assert_eq!(f.keydb.as_deref(), Some("/tmp/k.cfg"));
    assert!(f.full);
}

#[test]
fn flag_values_are_not_mistaken_for_unknown_options() {
    let InfoParse::Flags(f) = parse_info_flags(&args(&[
        "--log-level",
        "3",
        "--log-file",
        "p.txt",
        "--full",
    ])) else {
        panic!("logging flags and their values must be consumed");
    };
    assert!(f.full);
    assert!(f.verbose, "--log-level 3 widens stdout detail");
}

#[test]
fn help_is_reported_rather_than_printed_by_the_parser() {
    assert_eq!(parse_info_flags(&args(&["--help"])), InfoParse::Help);
    assert_eq!(parse_info_flags(&args(&["-h"])), InfoParse::Help);
}

#[test]
fn no_flags_is_all_defaults() {
    assert_eq!(parse_info_flags(&[]), InfoParse::Flags(Box::default()));
}

fn codec(kind: CodecKind, name: &str) -> Codec {
    Codec {
        kind,
        name: name.to_string(),
    }
}

fn hevc() -> Codec {
    codec(CodecKind::Other, "HEVC")
}

fn h264() -> Codec {
    codec(CodecKind::Other, "H.264")
}

fn true_hd() -> Codec {
    codec(CodecKind::Other, "TrueHD")
}

fn ac3() -> Codec {
    codec(CodecKind::Ac3, "AC-3")
}

fn pgs() -> Codec {
    codec(CodecKind::Other, "PGS")
}

fn video(codec: Codec, resolution: &str) -> VideoStream {
    VideoStream {
        pid: 0x1011,
        codec,
        resolution: resolution.to_string(),
        frame_rate: "unknown".to_string(),
        frame_rate_known: false,
        hdr: HdrKind::Sdr,
        hdr_name: "SDR".to_string(),
        color_space: "BT.709".to_string(),
        bt2020: false,
        secondary: false,
        label: String::new(),
    }
}

fn audio(codec: Codec, channels: &str, language: &str) -> AudioStream {
    AudioStream {
        pid: 0x1100,
        codec,
        channels: channels.to_string(),
        language: language.to_string(),
        sample_rate: "unknown".to_string(),
        secondary: false,
        purpose: LabelPurpose::Normal,
        label: String::new(),
    }
}

fn subtitle(language: &str) -> SubtitleStream {
    SubtitleStream {
        pid: 0x1200,
        codec: pgs(),
        language: language.to_string(),
        forced: false,
        qualifier: LabelQualifier::Plain,
    }
}

fn synthetic_disc() -> Disc {
    let title = Title {
        playlist: "00800.mpls".to_string(),
        playlist_id: 800,
        duration_secs: 7530,
        duration_tenths: "7530.0".to_string(),
        duration_rounded: "7530".to_string(),
        size_bytes: 50 * 1024 * 1024 * 1024,
        size_gb: "53.7".to_string(),
        size_text: "50.0 GB".to_string(),
        clips: Vec::new(),
        streams: vec![
            Stream::Video(video(hevc(), "")),
            Stream::Audio(audio(true_hd(), "", "eng")),
            Stream::Subtitle(subtitle("eng")),
        ],
        chapters: 0,
        extents: Vec::new(),
        has_video: true,
        has_probable_video: true,
    };
    Disc {
        volume_id: "TEST_DISC".to_string(),
        meta_title: None,
        format: DiscFormat::Uhd,
        capacity_bytes: 0,
        capacity_gb: "0.0".to_string(),
        layers: 1,
        titles: vec![title],
        region: DiscRegion::Free,
        aacs: None,
        css: false,
        css_error: false,
        encrypted: true,
    }
}

#[test]
fn encryption_label_never_mislabels_a_failed_css_dvd_as_aacs() {
    let mut disc = synthetic_disc();
    disc.format = DiscFormat::Dvd;
    disc.encrypted = true;
    disc.css = false;
    disc.aacs = None;
    disc.css_error = true;
    assert_eq!(encryption_label(&disc), Some(EncLabel::Css));

    let mut uhd = synthetic_disc();
    uhd.format = DiscFormat::Uhd;
    uhd.encrypted = true;
    uhd.css = false;
    uhd.css_error = false;
    assert_eq!(
        encryption_label(&uhd),
        Some(EncLabel::Aacs("AACS 2.0".to_string()))
    );

    uhd.format = DiscFormat::Fmts;
    assert_eq!(
        encryption_label(&uhd),
        Some(EncLabel::Aacs("AACS 2.1".to_string()))
    );

    uhd.encrypted = false;
    assert_eq!(encryption_label(&uhd), None);

    let mut unknown = synthetic_disc();
    unknown.format = DiscFormat::Dvd;
    unknown.encrypted = true;
    unknown.css = false;
    unknown.css_error = false;
    unknown.aacs = None;
    assert_eq!(encryption_label(&unknown), Some(EncLabel::GenericAacs));

    unknown.format = DiscFormat::BluRay;
    assert_eq!(
        encryption_label(&unknown),
        Some(EncLabel::Aacs("AACS 1.0".to_string()))
    );

    for f in [
        DiscFormat::BluRay,
        DiscFormat::Uhd,
        DiscFormat::Fmts,
        DiscFormat::HdDvd,
    ] {
        let mut d = synthetic_disc();
        d.format = f;
        assert!(is_aacs_format(&d), "{f:?} is an AACS carrier");
    }
    let mut dvd = synthetic_disc();
    dvd.format = DiscFormat::Dvd;
    assert!(!is_aacs_format(&dvd), "a DVD is not an AACS carrier");
}

#[test]
fn sanitize_strips_terminal_escape_sequences() {
    let hostile = "Ti\x1b[2Jtle\x07\x1b]0;pwn\x1b\\";
    let clean = sanitize(hostile);
    assert!(
        !clean.contains('\x1b') && !clean.contains('\x07'),
        "control/escape chars stripped, got {clean:?}"
    );
    assert_eq!(clean, "Ti[2Jtle]0;pwn\\", "printable text preserved");
    assert!(!lang_name("\x1b[31mzz").contains('\x1b'));
    let bidi = "abc\u{202E}gnp\u{200B}\u{FEFF}xyz";
    let cleaned = sanitize(bidi);
    assert_eq!(cleaned, "abcgnpxyz", "bidi/zero-width/BOM stripped");
}

#[test]
fn title_lines_lists_encrypted_disc_without_key() {
    let disc = synthetic_disc();
    let lines = title_lines(&english(), &disc, false, false, false);
    let joined = lines.join("\n");
    assert!(
        !joined.contains("E7022"),
        "title list must not surface the no-key error, got:\n{joined}"
    );
    assert!(
        joined.contains("00800.mpls"),
        "expected the title's playlist, got:\n{joined}"
    );
    assert!(
        joined.contains("2h 05m"),
        "expected the formatted duration, got:\n{joined}"
    );
    assert!(
        joined.contains("HEVC"),
        "expected the video codec, got:\n{joined}"
    );
    assert!(
        joined.contains("English"),
        "expected the audio/subtitle language, got:\n{joined}"
    );
}

#[test]
fn title_lines_empty_disc_reports_no_titles() {
    let c = english();
    let mut disc = synthetic_disc();
    disc.titles.clear();
    let lines = title_lines(&c, &disc, true, false, false);
    assert_eq!(lines, vec![c.get("disc.no_titles")]);
}

#[test]
fn title_lines_basic_omits_streams() {
    let disc = synthetic_disc();
    let joined = title_lines(&english(), &disc, false, false, true).join("\n");
    assert!(joined.contains("00800.mpls"));
    assert!(
        !joined.contains("HEVC"),
        "basic mode must omit stream rows, got:\n{joined}"
    );
}

#[test]
fn label_alignment_preserves_english_layout() {
    assert_eq!(label_indent("Subtitle"), 17);
    assert_eq!(label_indent("Video"), 14);
    assert_eq!(label_indent("Audio"), 14);
    assert_eq!(label_prefix("Video", 17), "      Video:     ");
    assert_eq!(label_prefix("Subtitle", 17), "      Subtitle:  ");
}

#[test]
fn label_alignment_holds_for_longer_localized_label() {
    let indent = label_indent("Sottotitoli");
    assert_eq!(indent, 20);
    let prefix = label_prefix("Sottotitoli", indent);
    assert_eq!(prefix.chars().count(), indent);
    assert!(prefix.starts_with("      Sottotitoli:"));
    assert!(prefix.ends_with("  "));
}

#[test]
fn format_video_assembles_codec_resolution_and_only_the_flags_present() {
    let c = english();
    let v = video(hevc(), "1080p");
    assert_eq!(format_video(&c, &v, false), "HEVC 1080p");
    assert_eq!(format_video(&c, &v, true), "HEVC 1080p [PID 0x1011]");

    let mut rich = video(hevc(), "2160p");
    rich.frame_rate = "23.976".to_string();
    rich.frame_rate_known = true;
    rich.hdr = HdrKind::DolbyVision;
    rich.hdr_name = "Dolby Vision".to_string();
    rich.bt2020 = true;
    assert_eq!(
        format_video(&c, &rich, false),
        "HEVC 2160p 23.976fps Dolby Vision BT.2020"
    );

    let mut el = video(hevc(), "2160p");
    el.secondary = true;
    el.hdr = HdrKind::DolbyVision;
    el.hdr_name = "Dolby Vision".to_string();
    assert_eq!(
        format_video(&c, &el, false),
        "HEVC 2160p Dolby Vision Dolby Vision EL"
    );

    let mut labelled = video(h264(), "1080p");
    labelled.secondary = true;
    labelled.label = "PiP\x1b[2J".to_string();
    let out = format_video(&c, &labelled, false);
    assert!(out.contains("PiP") && !out.contains('\x1b'), "got {out}");
}

#[test]
fn format_audio_renders_lang_codec_channels_and_tags() {
    let c = english();
    let a = audio(true_hd(), "5.1", "eng");
    assert_eq!(format_audio(&c, &a, false), "English TrueHD 5.1");
    assert_eq!(
        format_audio(&c, &a, true),
        "English TrueHD 5.1 unknown [PID 0x1100]"
    );

    let mut tagged = audio(ac3(), "stereo", "fra");
    tagged.purpose = LabelPurpose::Commentary;
    tagged.secondary = true;
    tagged.label = "Director".to_string();
    assert_eq!(
        format_audio(&c, &tagged, false),
        "French DD stereo (Commentary, Secondary, Director)"
    );
}

#[test]
fn format_subtitle_renders_lang_forced_and_qualifier() {
    let c = english();
    assert_eq!(format_subtitle(&c, &subtitle("eng"), false), "English");
    assert_eq!(
        format_subtitle(&c, &subtitle("eng"), true),
        "English [PID 0x1200]"
    );

    let mut forced = subtitle("jpn");
    forced.forced = true;
    forced.qualifier = LabelQualifier::Sdh;
    assert_eq!(
        format_subtitle(&c, &forced, false),
        "Japanese (forced, SDH)"
    );
}

#[test]
fn region_name_covers_free_bluray_and_dvd() {
    assert_eq!(region_name(&DiscRegion::Free), "Region-free");
    assert_eq!(region_name(&DiscRegion::BluRay(vec![])), "Region-free");
    assert_eq!(region_name(&DiscRegion::Dvd(vec![])), "Region-free");
    assert_eq!(
        region_name(&DiscRegion::BluRay(vec![
            BdRegion::A,
            BdRegion::B,
            BdRegion::C
        ])),
        "A/B/C"
    );
    assert_eq!(region_name(&DiscRegion::Dvd(vec![1, 2])), "1, 2");
}

#[test]
fn hex_bytes_is_lower_case_two_digit_no_separator() {
    assert_eq!(hex_bytes(&[]), "");
    assert_eq!(hex_bytes(&[0x00, 0x0f, 0xa0, 0xff]), "000fa0ff");
}

#[test]
fn codec_name_maps_the_special_cases_and_falls_through_to_name() {
    assert_eq!(codec_name(&ac3()), "DD");
    assert_eq!(codec_name(&codec(CodecKind::Ac3Plus, "E-AC-3")), "DD+");
    assert_eq!(codec_name(&codec(CodecKind::DvdSub, "VobSub")), "DVD Sub");
    assert_eq!(codec_name(&codec(CodecKind::Unknown(0x1b), "?")), "0x1b");
    assert_eq!(codec_name(&hevc()), "HEVC");
    assert_eq!(codec_name(&true_hd()), "TrueHD");
    assert_eq!(codec_name(&pgs()), "PGS");
}

#[test]
fn key_origin_label_names_every_source() {
    assert_eq!(key_origin_label(KeyOrigin::DeviceKey), "MKB + device key");
    assert_eq!(
        key_origin_label(KeyOrigin::ProcessingKey),
        "MKB + processing key"
    );
    assert_eq!(key_origin_label(KeyOrigin::KeyDbDerived), "KEYDB (derived)");
    assert_eq!(key_origin_label(KeyOrigin::KeyDb), "KEYDB");
    assert_eq!(
        key_origin_label(KeyOrigin::KeyDbUnitKeys),
        "KEYDB (unit keys)"
    );
    assert_eq!(key_origin_label(KeyOrigin::ExternalUk), "external UK");
}

#[test]
fn aacs_generation_labels_the_carrier_and_falls_back_to_the_minor() {
    let mut disc = synthetic_disc();
    disc.format = DiscFormat::Fmts;
    assert_eq!(aacs_generation(&disc), "AACS 2.1");
    disc.format = DiscFormat::Uhd;
    assert_eq!(aacs_generation(&disc), "AACS 2.0");
    disc.format = DiscFormat::BluRay;
    disc.aacs = None;
    assert_eq!(aacs_generation(&disc), "AACS 1.0");
}

#[test]
fn lang_name_resolves_codes_sanitizes_unknowns_and_marks_empty() {
    assert_eq!(lang_name("eng"), "English");
    assert_eq!(lang_name("en"), "English");
    assert_eq!(lang_name(""), "?");
    let out = lang_name("\x1b[31mzz");
    assert!(!out.contains('\x1b'), "got {out}");
    // What the tables say decides; a code that neither knows is shown.
    assert_eq!(language_shown("xx", None, None), "xx");
    assert_eq!(
        language_shown("xx", None, Some("Two".to_string())),
        "Two"
    );
    assert_eq!(
        language_shown("xx", Some("Three".to_string()), Some("Two".to_string())),
        "Three"
    );
    // Codes of neither length, also where bytes and characters differ.
    assert_eq!(lang_name("e"), "e");
    assert_eq!(lang_name("engl"), "engl");
    assert_eq!(lang_name("ééé"), "ééé");
    assert_eq!(lang_name("é"), "é");
}

#[test]
fn format_volume_id_title_cases_underscored_labels() {
    assert_eq!(format_volume_id("THE_MOVIE_2020"), "The Movie 2020");
    assert_eq!(format_volume_id("bluray_disc"), "Bluray Disc");
    assert_eq!(format_volume_id(""), "");
    // Case is Unicode's: one capital may be several characters.
    assert_eq!(format_volume_id("ßTRASSE_ÉCRAN"), "SStrasse Écran");
}

#[test]
fn title_lines_truncates_to_five_and_footers_the_remainder() {
    let c = english();
    let mut disc = synthetic_disc();
    let one = disc.titles[0].clone();
    disc.titles = std::iter::repeat_n(one, 8).collect();
    let joined = title_lines(&c, &disc, false, false, false).join("\n");
    assert!(joined.contains("  1. "), "first title shown: {joined}");
    assert!(joined.contains("  5. "), "fifth title shown: {joined}");
    assert!(!joined.contains("  6. "), "sixth title truncated: {joined}");
    assert!(
        joined.contains('3') && joined.to_lowercase().contains("more"),
        "expected the +N more footer, got: {joined}"
    );
    let full = title_lines(&c, &disc, true, false, false).join("\n");
    assert!(full.contains("  8. "), "full lists the eighth: {full}");
}

#[test]
fn title_lines_aligns_continuation_rows_for_multi_stream_groups() {
    let mut disc = synthetic_disc();
    disc.titles[0].streams = vec![
        Stream::Video(video(hevc(), "2160p")),
        Stream::Video(video(h264(), "1080p")),
        Stream::Audio(audio(true_hd(), "7.1", "eng")),
        Stream::Audio(audio(ac3(), "stereo", "fra")),
        Stream::Subtitle(subtitle("eng")),
        Stream::Subtitle(subtitle("jpn")),
    ];
    let lines = title_lines(&english(), &disc, true, false, false);
    let joined = lines.join("\n");
    assert!(
        joined.contains("HEVC") && joined.contains("H.264"),
        "{joined}"
    );
    assert!(
        joined.contains("English") && joined.contains("French"),
        "{joined}"
    );
    assert!(joined.contains("Japanese"), "{joined}");
    // Every value starts in the same column.
    assert!(lines.contains(&"      Video:     HEVC 2160p".to_string()));
    assert!(lines.contains(&"                 H.264 1080p".to_string()));
    assert!(lines.contains(&"      Subtitle:  English".to_string()));
    assert!(lines.contains(&"                 Japanese".to_string()));
}

#[test]
fn a_title_row_lines_up_its_columns() {
    let lines = title_lines(&english(), &synthetic_disc(), false, false, true);
    assert!(
        lines.contains(&"   1. 00800.mpls       2h 05m   53.7 GB  0 clips".to_string()),
        "{lines:?}"
    );
}

fn aacs() -> AacsState {
    AacsState {
        version: 2,
        bus_encryption: true,
        mkb_version: Some(77),
        disc_hash: "abc123".to_string(),
        key_source: KeyOrigin::KeyDb,
        vuk: Some(vec![0x0f, 0xa0]),
        unit_keys: vec![(1, vec![0xff, 0x01])],
        volume_id: vec![0, 0xab],
    }
}

fn drive() -> DriveFacts {
    DriveFacts {
        vendor: " HL-DT-ST ".to_string(),
        product: "BD\x1b[2J-RE ".to_string(),
        revision: "1.0".to_string(),
        device: "/dev/sg4".to_string(),
    }
}

#[test]
fn a_detailed_listing_shows_the_drive_and_the_keys() {
    let mut disc = synthetic_disc();
    disc.aacs = Some(aacs());
    assert_eq!(
        detail_lines(&disc, &drive()),
        args(&[
            "Drive: HL-DT-ST BD[2J-RE 1.0",
            "Device: /dev/sg4",
            "Region: Region-free",
            "",
            "MKB v77 (bus encryption)",
            "Disc hash: abc123",
            "VID: 0x00ab",
            "Keys: KEYDB (1 unit keys)",
            "  VUK:   0x0fa0",
            "  CPS 1: 0xff01",
        ])
    );
}

#[test]
fn a_keyless_listing_shows_no_key() {
    let c = english();
    let mut disc = synthetic_disc();
    let without = print_disc_titles(&c, &disc, &InfoFlags::default());
    disc.aacs = Some(aacs());
    let with = print_disc_titles(&c, &disc, &InfoFlags::default());
    assert_eq!(with, without);
    assert!(!with.join("\n").contains("0fa0"));
}

#[test]
fn the_opening_complains_about_a_bad_log_level() {
    let c = english();
    let InfoParse::Flags(f) = parse_info_flags(&args(&["--log-level", "loud"])) else {
        panic!("a bad level is no unknown option");
    };
    assert_eq!(
        opening_lines(&c, &f, "1.0"),
        args(&[
            "--log-level: expected a number 1-4, got 'loud', ignored",
            "freemkv 1.0",
            "",
            "Scanning disc...",
            "",
        ])
    );
    assert_eq!(
        plain_opening_lines(&c, "1.0"),
        args(&["freemkv 1.0", "", "Scanning disc...", ""])
    );
}

#[test]
fn the_summary_names_the_disc_its_format_and_its_unlockers() {
    let c = english();
    let disc = synthetic_disc();
    let lines = summary_lines(
        &c,
        &disc,
        &vec![("css".to_string(), false), ("aacs".to_string(), true)],
    );
    assert_eq!(lines[0], "Disc: Test Disc");
    assert_eq!(lines[1], "Format: 4K UHD (1L, 0.0 GB)");
    assert_eq!(lines[lines.len() - 1], "Unlockers — css: no, aacs: yes");
    assert_eq!(encryption_line(&c, &disc).as_ref(), Some(&lines[2]));
}

#[test]
fn the_plain_listing_shows_what_it_is_given() {
    let c = english();
    let mut disc = synthetic_disc();
    disc.titles[0].playlist = "x\x1b".to_string();
    let lines = plain_title_lines(&c, &disc, &args(&["50.0"]), false, false, false);
    assert_eq!(
        lines,
        args(&[
            "Titles",
            "",
            "   1. x\x1b              2h 05m   50.0 GB  0 clips",
            "",
            "      Video:     HEVC ",
            "",
            "      Audio:     English TrueHD ",
            "",
            "      Subtitle:  English",
            "",
        ])
    );
    disc.titles.clear();
    assert_eq!(
        plain_title_lines(&c, &disc, &vec![], true, true, false),
        args(&["No titles found."])
    );
    disc.aacs = Some(aacs());
    assert_eq!(
        plain_heading_lines(&c, &disc, "46.6", "keydb", &drive(), true),
        args(&[
            "Disc: Test Disc",
            "Format: 4K UHD (1L, 46.6 GB)",
            "AACS encrypted",
            "AACS 2.0, MKB v77",
            "Disc hash: abc123",
            "Keys: keydb (1 unit keys)",
            "Drive: HL-DT-ST BD\x1b[2J-RE 1.0",
            "Device: /dev/sg4",
        ])
    );
    let mut v = video(hevc(), "1080p");
    v.secondary = true;
    v.label = "raw\x07".to_string();
    assert_eq!(plain_video(&v, true), "HEVC 1080p raw\x07 [PID 0x1011]");
    assert_eq!(
        plain_audio(&c, &audio(ac3(), "5.1", "xx-none"), false),
        "xx-none DD 5.1"
    );
    assert_eq!(plain_subtitle(&c, &subtitle("de")), "German");
    assert_eq!(plain_lang_name(""), "?");
    assert_eq!(plain_language_shown("q\x07", None, None), "q\x07");
}

#[test]
fn the_plain_flags_are_read_in_turn() {
    let PlainParse::Flags(f) = parse_plain_flags(&args(&["-d", "/dev/sg1", "-v", "--full"])) else {
        panic!("these are all known");
    };
    assert_eq!(f.device.as_deref(), Some("/dev/sg1"));
    assert!(f.verbose && f.full && !f.quiet && !f.basic);
    let PlainParse::Flags(f) = parse_plain_flags(&args(&["-d", "/dev/sg1", "-d"])) else {
        panic!("a missing value is no error");
    };
    assert_eq!(f.device, None);
    assert!(matches!(parse_plain_flags(&args(&["-h"])), PlainParse::Help));
    match parse_plain_flags(&args(&["-q", "--oops"])) {
        PlainParse::Unknown(o) => assert_eq!(o, "--oops"),
        other => panic!("{other:?}"),
    }
}

#[test]
fn the_plain_info_goes_by_the_kind_of_url() {
    assert!(matches!(
        plain_route(&[], UrlKind::Unknown),
        PlainRoute::Usage
    ));
    match plain_route(
        &args(&["disc:///dev/sg0", "-s"]),
        UrlKind::Disc(Some("/dev/sg0".to_string())),
    ) {
        PlainRoute::Drive { args: a, share } => {
            assert_eq!(a, args(&["-d", "/dev/sg0", "-s"]));
            assert!(share);
        }
        other => panic!("{other:?}"),
    }
    match plain_route(&args(&["x"]), UrlKind::Unknown) {
        PlainRoute::Refuse(s) => assert_eq!(
            s,
            "'x' is not a valid URL — use scheme://path (e.g. disc://, mkv://movie.mkv)"
        ),
        other => panic!("{other:?}"),
    }
    match plain_route(&args(&["null://"]), UrlKind::Other) {
        PlainRoute::Refuse(s) => assert_eq!(s, "Cannot get info for null://"),
        other => panic!("{other:?}"),
    }
    let mut a = audio(ac3(), "5.1", "eng");
    a.purpose = LabelPurpose::Commentary;
    assert_eq!(
        plain_file_lines(
            &english(),
            "a.mkv",
            Some(61),
            &vec![Stream::Audio(a), Stream::Subtitle(subtitle("deu"))]
        ),
        args(&[
            "File: a.mkv",
            "Duration: 0:01:01",
            "Streams: 2",
            "  AC-3 5.1 eng — Commentary",
            "  PGS deu",
        ])
    );
}

#[test]
fn a_listing_holds_no_character_that_a_disc_could_act_with() {
    let hostile = "\u{1b}]0;owned\u{7}\u{202e}evil\n";
    let mut disc = synthetic_disc();
    disc.titles[0].playlist = hostile.to_string();
    let mut v = video(hevc(), "2160p");
    v.secondary = true;
    v.label = hostile.to_string();
    let mut a = audio(true_hd(), "7.1", hostile);
    a.label = hostile.to_string();
    let s = subtitle(hostile);
    disc.titles[0].streams = vec![Stream::Video(v), Stream::Audio(a), Stream::Subtitle(s)];
    for line in title_lines(&english(), &disc, true, true, false) {
        assert!(
            !line.chars().any(freemkv::strings::is_unsafe_display_char),
            "{line:?}"
        );
    }
}
