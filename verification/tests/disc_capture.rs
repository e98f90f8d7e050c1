use freemkv::disc::{AacsState, Disc, DiscFormat, DiscRegion, KeyOrigin};
use freemkv::disc_capture::{
    aacs_diag, aacs_json, capture_lines, disc_issue_title, disc_profile_name, fold_structure,
    issue_body, selection_json, DiscSummary,
};
use freemkv::info::SavedFile;
use freemkv::strings::Catalog;

const SECRET_VUK: [u8; 16] = [0xAB; 16];
const SECRET_UNIT_KEY: [u8; 16] = [0xCD; 16];
const SECRET_VID: [u8; 16] = [0xEF; 16];

fn disc_with(aacs: Option<AacsState>) -> Disc {
    Disc {
        volume_id: "TEST_DISC".to_string(),
        meta_title: None,
        format: DiscFormat::Uhd,
        capacity_bytes: 0,
        capacity_gb: "0.0".to_string(),
        layers: 1,
        titles: Vec::new(),
        region: DiscRegion::Free,
        aacs,
        css: false,
        css_error: false,
        encrypted: true,
    }
}

fn aacs_with_secrets(disc_hash: &str) -> AacsState {
    AacsState {
        version: 2,
        bus_encryption: true,
        mkb_version: Some(77),
        disc_hash: disc_hash.to_string(),
        key_source: KeyOrigin::ExternalUk,
        vuk: Some(SECRET_VUK.to_vec()),
        unit_keys: vec![(0, SECRET_UNIT_KEY.to_vec())],
        volume_id: SECRET_VID.to_vec(),
    }
}

#[test]
fn aacs_present_puts_disc_hash_into_profile() {
    let raw = "0xaabbccddeeff00112233445566778899aabbccdd";
    let bare = "aabbccddeeff00112233445566778899aabbccdd";
    let disc = disc_with(Some(aacs_with_secrets(raw)));

    let json = aacs_json(&disc);
    assert!(json.contains("\"aacs_captured\": true"), "{json}");
    assert!(
        json.contains(&format!("\"disc_hash\": \"{bare}\"")),
        "disc hash must be the bare keydb lookup key: {json}"
    );
    assert!(json.contains("\"aacs_generation\": 2"), "{json}");
    assert!(json.contains("\"mkb_version\": 77"), "{json}");
    assert!(json.contains("\"bus_encryption\": true"), "{json}");
    assert!(json.contains("\"vid_available\": true"), "{json}");

    let body = issue_body(
        &disc,
        &DiscSummary {
            file_count: 3,
            total_bytes: 100,
        },
        "QUJD",
    );
    assert!(body.contains("## AACS diagnostics"), "{body}");
    assert!(
        body.contains(bare),
        "issue body must name the disc hash: {body}"
    );
    assert_eq!(aacs_diag(&disc).disc_hash.as_deref(), Some(bare));
}

#[test]
fn keyless_disc_records_not_captured_marker() {
    let disc = disc_with(None);
    let json = aacs_json(&disc);
    assert!(json.contains("\"aacs_captured\": false"), "{json}");
    assert!(json.contains("-v"), "hint must point at verbose: {json}");
    assert!(!json.contains("\"disc_hash\""), "{json}");
    assert!(!json.contains("\"vid_available\""), "{json}");

    let body = issue_body(
        &disc,
        &DiscSummary {
            file_count: 1,
            total_bytes: 10,
        },
        "QUJD",
    );
    assert!(
        body.contains("Not captured — keyless scan"),
        "issue body must flag the keyless case: {body}"
    );
}

#[test]
fn no_key_material_is_ever_emitted() {
    let raw = "0x1111111111111111111111111111111111111111";
    let disc = disc_with(Some(aacs_with_secrets(raw)));

    let json = aacs_json(&disc);
    let sel = selection_json(&disc, "1.0");
    let body = issue_body(
        &disc,
        &DiscSummary {
            file_count: 1,
            total_bytes: 1,
        },
        "QUJD",
    );

    let leaks = ["abababab", "cdcdcdcd", "efefefef", "123456", "789a"];
    for artifact in [&json, &sel, &body] {
        let lower = artifact.to_ascii_lowercase();
        for needle in leaks {
            assert!(
                !lower.contains(needle),
                "secret material {needle:?} leaked into a shared artifact:\n{artifact}"
            );
        }
    }
}

#[test]
fn what_is_shared_is_valid_json() {
    let disc = disc_with(Some(aacs_with_secrets("0xAB\"\\")));
    let v: serde_json::Value = serde_json::from_str(&aacs_json(&disc)).expect("valid JSON");
    assert_eq!(v["aacs_generation"], 2);
    let v: serde_json::Value =
        serde_json::from_str(&selection_json(&disc, "1\"0")).expect("valid JSON");
    assert_eq!(v["freemkv"], "1\"0");
}

#[test]
fn a_structure_is_counted_and_named() {
    let files = vec![
        SavedFile {
            name: "a".to_string(),
            data: vec![0; 3],
        },
        SavedFile {
            name: "b".to_string(),
            data: vec![0; 4],
        },
    ];
    let s = fold_structure(&files).expect("there are files");
    assert_eq!((s.file_count, s.total_bytes), (2, 7));
    assert!(fold_structure(&vec![]).is_none());
    assert_eq!(disc_profile_name("My Disc"), "disc-profile-my-disc");
    let disc = disc_with(None);
    assert_eq!(disc_issue_title(&disc), "Disc profile: Uhd (0 titles)");
    let c = Catalog {
        entries: Vec::new(),
    };
    assert_eq!(
        capture_lines(&c, &disc, &s)[0],
        "Captured disc structure: 2 files (7 bytes)."
    );
}
