use freemkv::linux::main_view::{
    log_layout, render_formats, render_log, tag_colors, tag_index, typed_output, LogDelta, LogKind,
    LogLine,
};
use freemkv::linux::prefs::{
    add_codes, commit, field, read_field, show, test_keyserver, update_keydb, CommitStep, Control,
    FieldValue, KeydbStep, PrefRow, SettingKey, SettingValue,
};
use freemkv::linux::tree::{cell_text, children, paint, BoundBoxes, Check, Paint};
use freemkv::linux::{
    accel_string, action_name_for, build_menu_model, install_menu_actions, is_standard_text_action,
    start_tick, stop_tick, system_locale_code, Accel, Cmd, MenuAction, MenuEntry, MenuGroup,
    MenuItem, TimerStep, APP_ID, TICK_MS,
};
use freemkv::strings::Catalog;

fn some(s: &str) -> Option<String> {
    Some(s.to_string())
}

fn strings(v: &[&str]) -> Vec<String> {
    v.iter().map(|s| s.to_string()).collect()
}

#[test]
fn system_locale_code_parses_the_common_lang_shapes() {
    assert_eq!(
        system_locale_code(&None, &some("en_US.UTF-8")).as_deref(),
        Some("en-US")
    );
    assert_eq!(
        system_locale_code(&None, &some("de_DE.UTF-8@euro")).as_deref(),
        Some("de-DE")
    );
    assert!(
        system_locale_code(&None, &some("C")).is_none(),
        "C locale must not resolve"
    );
    assert!(system_locale_code(&None, &some("")).is_none());
    assert!(system_locale_code(&None, &None).is_none());
    // The first setting goes before the second where it names a language.
    assert_eq!(
        system_locale_code(&some("fr_CA@x"), &some("en_US")).as_deref(),
        Some("fr-CA")
    );
    assert_eq!(
        system_locale_code(&some("POSIX"), &some("en_US")).as_deref(),
        Some("en-US")
    );
    assert_eq!(
        system_locale_code(&some(".UTF-8"), &some("sv")).as_deref(),
        Some("sv")
    );
}

fn item(label: &str, action: MenuAction) -> MenuEntry {
    MenuEntry::Item(MenuItem {
        label: label.to_string(),
        action,
        accel: None,
    })
}

fn layout() -> Vec<MenuGroup> {
    vec![
        MenuGroup {
            app: true,
            title: "App".to_string(),
            entries: vec![
                item("About", MenuAction::Cmd(Cmd::About)),
                item("Settings", MenuAction::Cmd(Cmd::Settings)),
                item("Quit", MenuAction::Cmd(Cmd::Quit)),
            ],
        },
        MenuGroup {
            app: false,
            title: "File".to_string(),
            entries: vec![
                item("Open", MenuAction::Cmd(Cmd::Open)),
                item("Open disc", MenuAction::OpenDisc),
                MenuEntry::Separator,
                item("Close", MenuAction::Cmd(Cmd::Close)),
                item("Output", MenuAction::Cmd(Cmd::SetOutput)),
                item("Run", MenuAction::Cmd(Cmd::Run)),
                item("Eject", MenuAction::Cmd(Cmd::Eject)),
            ],
        },
        MenuGroup {
            app: false,
            title: "Edit".to_string(),
            entries: vec![
                item("Cut", MenuAction::StandardCut),
                item("Copy", MenuAction::StandardCopy),
                item("Paste", MenuAction::StandardPaste),
                item("Select all", MenuAction::StandardSelectAllText),
                item("All", MenuAction::Cmd(Cmd::SelectAll)),
                item("None", MenuAction::Cmd(Cmd::SelectNone)),
                item("Invert", MenuAction::Cmd(Cmd::Invert)),
            ],
        },
        MenuGroup {
            app: false,
            title: "View".to_string(),
            entries: vec![
                item("Log", MenuAction::Cmd(Cmd::ToggleLog)),
                item("Clear", MenuAction::Cmd(Cmd::ClearLog)),
                item("Docs", MenuAction::Cmd(Cmd::Docs)),
                item("Updates", MenuAction::Cmd(Cmd::CheckUpdates)),
            ],
        },
    ]
}

#[test]
fn every_menu_action_the_layout_names_has_a_linux_action_name_or_is_standard_text() {
    let installed = install_menu_actions();
    for group in layout() {
        for entry in group.entries {
            let MenuEntry::Item(mi) = entry else { continue };
            if is_standard_text_action(&mi.action) {
                assert!(action_name_for(&mi.action).is_none());
                continue;
            }
            let name = action_name_for(&mi.action)
                .unwrap_or_else(|| panic!("{:?} has no action name", mi.action));
            assert!(
                installed.iter().any(|(n, _)| *n == name),
                "{name} is a menu row that does nothing"
            );
        }
    }
    assert!(action_name_for(&MenuAction::Cmd(Cmd::Cancel)).is_none());
    assert!(action_name_for(&MenuAction::Cmd(Cmd::SetFormat("x".to_string()))).is_none());
}

#[test]
fn the_menu_ends_with_the_applications_own_part() {
    let menu = build_menu_model(&layout());
    let titles: Vec<Option<&str>> = menu.iter().map(|s| s.title.as_deref()).collect();
    assert_eq!(titles, vec![Some("File"), Some("Edit"), Some("View"), None]);
    let edit: Vec<&str> = menu[1].rows.iter().map(|r| r.action.as_str()).collect();
    assert_eq!(edit, vec!["app.select-all", "app.select-none", "app.invert"]);
    assert_eq!(menu[3].rows[2].action, "app.quit");
    assert_eq!(menu[3].rows[2].label, "Quit");
    let accel = Accel {
        primary: true,
        alt: false,
        shift: true,
        key: "o".to_string(),
    };
    assert_eq!(
        accel_string(Some(&accel)).as_deref(),
        Some("<Primary><Shift>o")
    );
    assert_eq!(accel_string(None), None);
    assert_eq!(APP_ID, "org.freemkv.FreeMKV");
}

#[test]
fn the_timer_is_never_started_twice() {
    assert_eq!(start_tick(false), TimerStep::Start);
    assert_eq!(start_tick(true), TimerStep::Leave);
    assert_eq!(stop_tick(true), TimerStep::Stop);
    assert_eq!(stop_tick(false), TimerStep::Leave);
    assert_eq!(TICK_MS, 250);
}

#[test]
fn the_settings_form_has_every_setting_once() {
    let pages = show();
    assert_eq!(pages.len(), 5);
    assert_eq!(pages[0].title, "gui.tab.output");
    assert_eq!(pages[3].icon, "dialog-password-symbolic");
    let mut names: Vec<&str> = Vec::new();
    let mut actions = 0;
    for p in &pages {
        for g in &p.groups {
            for r in &g.rows {
                match r {
                    PrefRow::Setting { key, control } => {
                        names.push(key.name());
                        if *key == SettingKey::KeyserverToken {
                            assert_eq!(*control, Control::Secret);
                        }
                        assert!(key.label().starts_with("gui.set."));
                    }
                    _ => actions += 1,
                }
            }
        }
    }
    assert_eq!(names.len(), 23);
    assert_eq!(actions, 2);
    names.sort();
    names.dedup();
    assert_eq!(names.len(), 23);
    assert_eq!(pages[1].groups[0].note, Some("gui.set.min_length_note"));
}

#[test]
fn a_row_is_read_back_as_its_own_word() {
    match read_field(&FieldValue::Choice {
        options: strings(&["mkv", "mp4"]),
        selected: 1,
    }) {
        Some(SettingValue::Text(s)) => assert_eq!(s, "mp4"),
        other => panic!("{other:?}"),
    }
    assert!(read_field(&FieldValue::Choice {
        options: strings(&["mkv"]),
        selected: u32::MAX,
    })
    .is_none());
    assert!(matches!(
        read_field(&FieldValue::On(true)),
        Some(SettingValue::On(true))
    ));
    let fields = vec![
        (SettingKey::KeydbUrl, "u".to_string()),
        (SettingKey::KeydbPath, "p".to_string()),
    ];
    assert_eq!(field(&fields, SettingKey::KeydbPath), "p");
    assert_eq!(field(&fields, SettingKey::DestDir), "");
}

#[test]
fn the_destination_follows_only_a_changed_default() {
    assert!(matches!(commit(false, "/a", "/b"), CommitStep::Nothing));
    match commit(true, "/a", "/b") {
        CommitStep::Apply { output_dir } => assert_eq!(output_dir.as_deref(), Some("/b")),
        other => panic!("{other:?}"),
    }
    match commit(true, "/a", "/a") {
        CommitStep::Apply { output_dir } => assert_eq!(output_dir, None),
        other => panic!("{other:?}"),
    }
    match commit(true, "/a", "  ") {
        CommitStep::Apply { output_dir } => assert_eq!(output_dir, None),
        other => panic!("{other:?}"),
    }
}

fn catalog(entries: &[(&str, &str)]) -> Catalog {
    Catalog {
        entries: entries
            .iter()
            .map(|(k, t)| (k.to_string(), t.to_string()))
            .collect(),
    }
}

#[test]
fn a_key_server_is_judged_and_a_database_fetched_once_at_a_time() {
    let c = catalog(&[
        ("gui.log.keyserver_valid", "ok {url}"),
        ("gui.log.keyserver_rejected", "no: {e}"),
        ("gui.log.no_keyserver", "none"),
    ]);
    assert_eq!(test_keyserver(&c, " ", &Ok(())), "none");
    assert_eq!(test_keyserver(&c, "https://k", &Ok(())), "ok https://k");
    assert_eq!(
        test_keyserver(&c, "ftp://k", &Err("scheme".to_string())),
        "no: scheme"
    );
    assert!(matches!(
        update_keydb(&c, true, "u", "p", "", ""),
        KeydbStep::Say(_)
    ));
    assert!(matches!(
        update_keydb(&c, false, "", "p", " ", ""),
        KeydbStep::Say(_)
    ));
    match update_keydb(&c, false, "", "typed", "saved-url", "saved-path") {
        KeydbStep::Fetch { url, path, .. } => {
            assert_eq!((url.as_str(), path.as_str()), ("saved-url", "typed"));
        }
        other => panic!("{other:?}"),
    }
}

#[test]
fn a_language_is_offered_once_in_either_case() {
    let mut known = strings(&["eng", "fra"]);
    add_codes(&mut known, &strings(&["ENG", "deu", "Deu", "jpn"]));
    assert_eq!(known, strings(&["eng", "fra", "deu", "jpn"]));
}

#[test]
fn a_box_shows_how_much_of_its_row_is_ticked() {
    assert_eq!(
        paint(Check::Mixed),
        Paint {
            inconsistent: true,
            active: true
        }
    );
    assert_eq!(
        paint(Check::Off),
        Paint {
            inconsistent: false,
            active: false
        }
    );
    assert_eq!(
        paint(Check::On),
        Paint {
            inconsistent: false,
            active: true
        }
    );
}

#[test]
fn a_box_that_is_used_again_reports_only_its_new_row() {
    let mut b = BoundBoxes::new();
    b.bind(0, 100, 1);
    b.bind(1, 101, 2);
    assert_eq!(b.unbind(100), Some(1));
    assert_eq!(b.unbind(100), None);
    b.bind(5, 100, 3);
    assert_eq!(
        b.sync_checks(&vec![None, Some(Check::On), None, None, None, Some(Check::Mixed)]),
        vec![(101, Check::On), (100, Check::Mixed)]
    );
    // A row that is gone, or has no tick, is left alone.
    assert_eq!(b.sync_checks(&vec![None, None]), vec![]);
    assert_eq!(cell_text(&strings(&["a"]), 0), "a");
    assert_eq!(cell_text(&strings(&["a"]), 7), "");
    assert_eq!(children(&vec![vec![1, 2], vec![]], 0), Some(vec![1, 2]));
    assert_eq!(children(&vec![vec![1, 2], vec![]], 1), None);
    assert_eq!(children(&vec![], 1), None);
}

fn log() -> Vec<LogLine> {
    vec![
        LogLine {
            kind: LogKind::Notice,
            text: "n".to_string(),
        },
        LogLine {
            kind: LogKind::Result,
            text: "r".to_string(),
        },
    ]
}

#[test]
fn the_log_is_added_to_or_written_anew() {
    assert!(render_log(LogDelta::Same, &log()).is_none());
    let e = render_log(LogDelta::Append(1), &log()).unwrap();
    assert!(!e.clear);
    assert_eq!(e.added, vec![("r\n".to_string(), 2)]);
    let e = render_log(LogDelta::Rewrite, &log()).unwrap();
    assert!(e.clear);
    assert_eq!(e.added, vec![("n\n".to_string(), 0), ("r\n".to_string(), 2)]);
    assert_eq!(tag_index(LogKind::Detail), 1);
    assert_eq!(tag_colors(true), ("#ff7b63", "#8ff0a4"));
    assert_eq!(tag_colors(false), ("#c01c28", "#1b8553"));
}

#[test]
fn the_window_gives_its_room_to_one_part() {
    let l = log_layout(true, false);
    assert!(l.log_grows && !l.page_grows && l.log_visible);
    let l = log_layout(true, true);
    assert!(!l.log_grows && l.page_grows && !l.log_visible);
    let l = log_layout(false, false);
    assert!(!l.log_grows && l.page_grows && l.log_visible);
    assert_eq!(typed_output(false, "/a", "/b").as_deref(), Some("/b"));
    assert_eq!(typed_output(true, "/a", "/b"), None);
    assert_eq!(typed_output(false, "/a", "/a"), None);
    let s = render_formats("mkv\nmp4", &strings(&["mkv", "mp4"]), "mp4");
    assert!(!s.refill);
    assert_eq!(s.selected, 1);
    let s = render_formats("mkv", &strings(&["mkv", "mp4"]), "iso");
    assert!(s.refill);
    assert_eq!((s.selected, s.signature.as_str()), (0, "mkv\nmp4"));
}
