use freemkv::file_identity::{file_id, same_file, SeenFile};

fn seen(path: &str, id: Option<(u64, u64)>) -> SeenFile {
    SeenFile {
        canonical: Some(path.as_bytes().to_vec()),
        id,
    }
}

fn missing() -> SeenFile {
    SeenFile {
        canonical: None,
        id: None,
    }
}

#[test]
fn the_same_file_under_two_spellings_is_recognised() {
    // Two spellings of one path have one canonical form.
    let abs = seen("/t/Disc.iso", None);
    let detoured = seen("/t/Disc.iso", None);
    assert!(same_file(Some(&abs), &abs), "a path is itself");
    assert!(
        same_file(Some(&detoured), &abs),
        "sub/../Disc.iso and Disc.iso are one file"
    );
}

#[test]
fn a_hardlink_is_the_same_file_even_though_the_paths_differ() {
    let a = seen("/t/Movie.mkv", Some((1, 77)));
    let hard = seen("/t/Hard.mkv", Some((1, 77)));
    assert!(same_file(Some(&a), &hard));
    assert!(same_file(Some(&hard), &a), "and the other way round");
}

#[test]
fn two_different_files_are_not_the_same_file() {
    let a = seen("/t/In.iso", Some((1, 5)));
    let b = seen("/t/Out.iso", Some((1, 6)));
    assert!(!same_file(Some(&a), &b));
    // Neither are two whose identities cannot be read.
    assert!(!same_file(
        Some(&seen("/t/In.iso", None)),
        &seen("/t/Out.iso", None)
    ));
    assert!(!same_file(
        Some(&seen("/t/In.iso", Some((1, 5)))),
        &seen("/t/Out.iso", None)
    ));
}

#[test]
fn a_destination_that_does_not_exist_yet_is_never_the_source() {
    let a = seen("/t/In.iso", Some((1, 5)));
    assert!(!same_file(Some(&a), &missing()));
    assert!(!same_file(Some(&missing()), &missing()));
    assert!(!same_file(None, &missing()));
    assert!(!same_file(None, &a));
}

#[test]
fn a_directory_has_a_readable_identity() {
    assert_eq!(file_id(7, 1, 2), (7, 0x1_0000_0002));
    assert_eq!(
        file_id(u32::MAX, u32::MAX, u32::MAX),
        (0xffff_ffff, u64::MAX)
    );
}
