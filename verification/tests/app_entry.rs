use freemkv::app_entry::{
    apply_locale, gui_log_filter, trim_oversized_log, wants_gui, LocaleChange, GUI_LOG_CAP_BYTES,
    GUI_LOG_NAME,
};

#[test]
fn a_diagnostic_log_past_the_cap_is_started_over_not_appended_to() {
    assert!(
        !trim_oversized_log(Some(64), 128),
        "a log below the cap must survive — this is the ordinary case"
    );
    assert!(
        trim_oversized_log(Some(129), 128),
        "a log past the cap is appended to forever"
    );
    assert!(!trim_oversized_log(Some(128), 128));
    assert!(!trim_oversized_log(None, 128));
    assert_ne!(GUI_LOG_CAP_BYTES, 0);
    assert_eq!(GUI_LOG_CAP_BYTES, 8 * 1024 * 1024);
    assert_eq!(GUI_LOG_NAME, "log.txt");
}

fn argv(rest: &[&str]) -> Vec<String> {
    std::iter::once("freemkv".to_string())
        .chain(rest.iter().map(|s| s.to_string()))
        .collect()
}

#[test]
fn bare_launch_from_a_terminal_is_the_cli() {
    assert!(!wants_gui(&argv(&[]), false));
}

#[test]
fn bare_launch_of_a_windowed_image_is_the_gui() {
    assert!(wants_gui(&argv(&[]), true));
}

#[test]
fn explicit_gui_subcommand_opens_the_gui_either_way() {
    assert!(wants_gui(&argv(&["gui"]), false));
    assert!(wants_gui(&argv(&["gui"]), true));
}

#[test]
fn every_other_invocation_stays_cli() {
    for a in [
        "--version",
        "--help",
        "-h",
        "info",
        "version",
        "update-keys",
        "/dev/disk2",
        "GUI",
        "gui.x",
    ] {
        assert!(
            !wants_gui(&argv(&[a]), false),
            "{a} should route to the CLI"
        );
        assert!(!wants_gui(&argv(&[a]), true), "{a} should route to the CLI");
    }
}

#[test]
fn gui_must_be_the_first_argument() {
    assert!(!wants_gui(&argv(&["info", "gui"]), false));
    assert!(!wants_gui(&argv(&["--version", "gui"]), true));
}

#[test]
fn gui_with_trailing_arguments_still_opens_the_gui() {
    assert!(wants_gui(&argv(&["gui", "--verbose"]), false));
}

#[test]
fn an_empty_argv_never_panics() {
    assert!(!wants_gui(&[], false));
    assert!(wants_gui(&[], true));
}

#[test]
fn the_locale_follows_the_system_only_where_auto_was_chosen() {
    match apply_locale("auto", Some("de-DE".to_string())) {
        LocaleChange::System(s) => assert_eq!(s, "de-DE"),
        other => panic!("{other:?}"),
    }
    assert!(matches!(apply_locale("auto", None), LocaleChange::Keep));
    match apply_locale("fr", Some("de-DE".to_string())) {
        LocaleChange::Chosen(s) => assert_eq!(s, "fr"),
        other => panic!("{other:?}"),
    }
}

#[test]
fn only_verbose_and_debug_install_a_log() {
    assert_eq!(
        gui_log_filter("Debug").as_deref(),
        Some("error,freemkv=trace,libfreemkv=trace")
    );
    assert_eq!(
        gui_log_filter("Verbose").as_deref(),
        Some("error,freemkv=debug,libfreemkv=debug")
    );
    assert_eq!(gui_log_filter("Normal"), None);
    assert_eq!(gui_log_filter("Quiet"), None);
}
