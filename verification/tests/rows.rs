use freemkv::disc::{
    AudioStream, BdRegion, Codec, CodecKind, Disc, DiscFormat, DiscRegion, HdrKind, LabelPurpose,
    LabelQualifier, Stream, SubtitleStream, Title, VideoStream,
};
use freemkv::engine::rows::{
    container_url, disc_details, key_summary, scan_stream, scanned_from_disc, stream_rows, Row,
};
use freemkv::strings::is_unsafe_display_char;

const HOSTILE: &str = "a\u{7}b\u{1b}]0;pwned\u{7}c\nLabel: forged\u{202e}e\u{200b}f";

const BENIGN: &str = "abcdef";

fn codec(name: &str) -> Codec {
    Codec {
        kind: CodecKind::Other,
        name: name.to_string(),
    }
}

fn hostile_disc() -> Disc {
    let video = Stream::Video(VideoStream {
        pid: 0x1011,
        codec: codec("HEVC"),
        resolution: "unknown".to_string(),
        frame_rate: "unknown".to_string(),
        frame_rate_known: false,
        hdr: HdrKind::Sdr,
        hdr_name: "SDR".to_string(),
        color_space: "BT.709".to_string(),
        bt2020: false,
        secondary: true,
        label: HOSTILE.to_string(),
    });
    let audio = Stream::Audio(AudioStream {
        pid: 0x1100,
        codec: codec("TrueHD"),
        channels: "unknown".to_string(),
        language: HOSTILE.to_string(),
        sample_rate: "unknown".to_string(),
        secondary: true,
        purpose: LabelPurpose::Commentary,
        label: HOSTILE.to_string(),
    });
    let subtitle = Stream::Subtitle(SubtitleStream {
        pid: 0x1200,
        codec: codec("PGS"),
        language: HOSTILE.to_string(),
        forced: true,
        qualifier: LabelQualifier::Plain,
    });
    Disc {
        volume_id: HOSTILE.to_string(),
        meta_title: None,
        format: DiscFormat::Uhd,
        capacity_bytes: 0,
        capacity_gb: "0.0".to_string(),
        layers: 1,
        titles: vec![Title {
            playlist: HOSTILE.to_string(),
            playlist_id: 800,
            duration_secs: 60,
            duration_tenths: "60.0".to_string(),
            duration_rounded: "60".to_string(),
            size_bytes: 1 << 30,
            size_gb: "1.1".to_string(),
            size_text: "1.0 GB".to_string(),
            clips: Vec::new(),
            streams: vec![video, audio, subtitle],
            chapters: 0,
            extents: Vec::new(),
            has_video: true,
            has_probable_video: true,
        }],
        region: DiscRegion::BluRay(vec![BdRegion::A]),
        aacs: None,
        css: false,
        css_error: false,
        encrypted: true,
    }
}

fn benign_disc() -> Disc {
    let mut d = hostile_disc();
    d.volume_id = BENIGN.to_string();
    for t in &mut d.titles {
        t.playlist = BENIGN.to_string();
        for st in &mut t.streams {
            match st {
                Stream::Video(v) => v.label = BENIGN.to_string(),
                Stream::Audio(a) => {
                    a.label = BENIGN.to_string();
                    a.language = BENIGN.to_string();
                }
                Stream::Subtitle(s) => s.language = BENIGN.to_string(),
            }
        }
    }
    d
}

fn offenders(rows: &[Row]) -> Vec<String> {
    let mut bad: Vec<String> = Vec::new();
    for r in rows {
        for s in [&r.desc, &r.type_s] {
            if s.chars().any(is_unsafe_display_char) {
                bad.push(s.clone());
            }
        }
        if r.info
            .chars()
            .any(|c| c != '\n' && is_unsafe_display_char(c))
        {
            bad.push(r.info.clone());
        }
    }
    bad
}

#[test]
fn no_disc_derived_row_text_carries_an_unsafe_display_char() {
    let disc = hostile_disc();
    let scanned = scanned_from_disc(&disc, "none", false);
    let bad = offenders(&scanned.rows);
    assert!(bad.is_empty(), "unsanitised row text: {bad:?}");
}

#[test]
fn no_stream_row_text_carries_an_unsafe_display_char() {
    let disc = hostile_disc();
    let bad = offenders(&stream_rows(&disc.titles[0].streams, 0));
    assert!(bad.is_empty(), "unsanitised stream row text: {bad:?}");
}

#[test]
fn tooltips_keep_their_own_shape() {
    let hostile = scanned_from_disc(&hostile_disc(), "none", false);
    let benign = scanned_from_disc(&benign_disc(), "none", false);
    assert_eq!(hostile.rows.len(), benign.rows.len(), "row count differs");
    for (h, b) in hostile.rows.iter().zip(&benign.rows) {
        assert_eq!(
            h.info.lines().count(),
            b.info.lines().count(),
            "tooltip gained a line from the payload:\n{}",
            h.info
        );
    }
}

#[test]
fn only_what_is_rendered_can_make_a_row_unsafe() {
    let with_resolution = |mut d: Disc| {
        if let Stream::Video(v) = &mut d.titles[0].streams[0] {
            v.resolution = "1080\u{1b}p".to_string();
        }
        offenders(&scanned_from_disc(&d, "none", false).rows).len()
    };
    assert_eq!(with_resolution(hostile_disc()), 2);
    assert_eq!(with_resolution(benign_disc()), 2);
    let lines = scanned_from_disc(&hostile_disc(), "two\nlines", false);
    assert!(offenders(&lines.rows).is_empty());
}

#[test]
fn what_is_said_of_the_keys_can_be_shown() {
    let disc = hostile_disc();
    for won in [None, Some("keydb"), Some("online")] {
        let summary = key_summary(&disc, won);
        assert_eq!(summary, "locked — no key yet");
        assert!(!summary.chars().any(is_unsafe_display_char));
        assert!(offenders(&scanned_from_disc(&disc, &summary, false).rows).is_empty());
    }
}

#[test]
fn the_hostile_payload_is_actually_unsafe() {
    assert!(HOSTILE.chars().any(is_unsafe_display_char));
}

#[test]
fn a_disc_has_a_row_for_itself_its_titles_and_their_streams() {
    let scanned = scanned_from_disc(&benign_disc(), "none", false);
    let depths: Vec<u8> = scanned.rows.iter().map(|r| r.depth).collect();
    assert_eq!(depths, vec![0, 1, 2, 2, 2]);
    assert_eq!(scanned.title_count, 1);
    assert_eq!(scanned.title_ids.len(), 1);
    assert_eq!(scanned.volume_id, BENIGN);
    assert_eq!(scanned.rows[3].pid, Some(0x1100));
    assert!(disc_details(&benign_disc(), "none", false)
        .iter()
        .any(|l| l == "Type: Uhd"));
    let mut unnamed = benign_disc();
    unnamed.volume_id = "\u{202e} ".to_string();
    assert_eq!(scanned_from_disc(&unnamed, "none", false).label, "(no label)");
}

#[test]
fn a_container_is_one_title() {
    let t = benign_disc().titles[0].clone();
    let scanned = scan_stream("/in/Movie.mkv", &t);
    assert_eq!(scanned.title_count, 1);
    assert!(scanned.rows[0].info.contains("Movie.mkv"));
    assert_eq!(container_url("/in/Movie.mkv"), "mkv:///in/Movie.mkv");
    assert_eq!(container_url("/in/Movie.ts"), "m2ts:///in/Movie.ts");
}
