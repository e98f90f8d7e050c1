//! The settings window: its pages, what is read back from them, and what
//! follows when it is closed.

use crate::cli_entry::opt_text;
use crate::engine::request::{blank, is_blank};
use crate::strings::{Catalog, filled, text_of, text_or};
use crate::submit::same_ignoring_case;
use crate::text::{lowered, push_text, same_text, texts};
use vstd::prelude::*;
use vstd::string::*;

verus! {

/// What can be set.
#[derive(Clone, Copy, Debug, PartialEq, Eq, Structural)]
pub enum SettingKey {
    Container,
    DestDir,
    FilenameTemplate,
    KeepIso,
    AutoEject,
    Selection,
    MinTitleSecs,
    AudioLangs,
    SubLangs,
    ForcedSubLangs,
    RipMode,
    MaxPasses,
    AbortLostSecs,
    Raw,
    Force,
    KeySource,
    KeydbPath,
    KeydbUrl,
    KeyserverUrl,
    KeyserverToken,
    Language,
    DecryptThreads,
    LogLevel,
}

/// What a setting is called where it is kept.
pub open spec fn setting_name(k: SettingKey) -> Seq<char> {
    match k {
        SettingKey::Container => "container"@,
        SettingKey::DestDir => "dest_dir"@,
        SettingKey::FilenameTemplate => "filename_template"@,
        SettingKey::KeepIso => "keep_iso"@,
        SettingKey::AutoEject => "auto_eject"@,
        SettingKey::Selection => "selection"@,
        SettingKey::MinTitleSecs => "min_title_secs"@,
        SettingKey::AudioLangs => "audio_langs"@,
        SettingKey::SubLangs => "sub_langs"@,
        SettingKey::ForcedSubLangs => "forced_sub_langs"@,
        SettingKey::RipMode => "rip_mode"@,
        SettingKey::MaxPasses => "max_passes"@,
        SettingKey::AbortLostSecs => "abort_lost_secs"@,
        SettingKey::Raw => "raw"@,
        SettingKey::Force => "force"@,
        SettingKey::KeySource => "key_source"@,
        SettingKey::KeydbPath => "keydb_path"@,
        SettingKey::KeydbUrl => "keydb_url"@,
        SettingKey::KeyserverUrl => "keyserver_url"@,
        SettingKey::KeyserverToken => "keyserver_token"@,
        SettingKey::Language => "language"@,
        SettingKey::DecryptThreads => "decrypt_threads"@,
        SettingKey::LogLevel => "log_level"@,
    }
}

/// The key of the text that stands beside a setting.
pub open spec fn setting_label(k: SettingKey) -> Seq<char> {
    match k {
        SettingKey::Container => "gui.set.default_output"@,
        SettingKey::DestDir => "gui.set.default_dest"@,
        SettingKey::FilenameTemplate => "gui.set.filename_template"@,
        SettingKey::KeepIso => "gui.set.keep_iso"@,
        SettingKey::AutoEject => "gui.set.auto_eject"@,
        SettingKey::Selection => "gui.set.default_selection"@,
        SettingKey::MinTitleSecs => "gui.set.min_length"@,
        SettingKey::AudioLangs => "gui.set.audio_langs"@,
        SettingKey::SubLangs => "gui.set.sub_langs"@,
        SettingKey::ForcedSubLangs => "gui.set.forced_sub_langs"@,
        SettingKey::RipMode => "gui.set.rip_mode"@,
        SettingKey::MaxPasses => "gui.set.max_passes"@,
        SettingKey::AbortLostSecs => "gui.set.abort_lost"@,
        SettingKey::Raw => "gui.set.keep_encrypted"@,
        SettingKey::Force => "gui.set.overwrite"@,
        SettingKey::KeySource => "gui.set.key_source"@,
        SettingKey::KeydbPath => "gui.set.keydb_path"@,
        SettingKey::KeydbUrl => "gui.set.keydb_url"@,
        SettingKey::KeyserverUrl => "gui.set.keyserver_url"@,
        SettingKey::KeyserverToken => "gui.set.keyserver_token"@,
        SettingKey::Language => "gui.set.language"@,
        SettingKey::DecryptThreads => "gui.set.decrypt_threads"@,
        SettingKey::LogLevel => "gui.set.log_detail"@,
    }
}

impl SettingKey {
    /// What a setting is called where it is kept.
    pub fn name(self) -> (r: &'static str)
        ensures
            r@ == setting_name(self),
    {
        match self {
            SettingKey::Container => "container",
            SettingKey::DestDir => "dest_dir",
            SettingKey::FilenameTemplate => "filename_template",
            SettingKey::KeepIso => "keep_iso",
            SettingKey::AutoEject => "auto_eject",
            SettingKey::Selection => "selection",
            SettingKey::MinTitleSecs => "min_title_secs",
            SettingKey::AudioLangs => "audio_langs",
            SettingKey::SubLangs => "sub_langs",
            SettingKey::ForcedSubLangs => "forced_sub_langs",
            SettingKey::RipMode => "rip_mode",
            SettingKey::MaxPasses => "max_passes",
            SettingKey::AbortLostSecs => "abort_lost_secs",
            SettingKey::Raw => "raw",
            SettingKey::Force => "force",
            SettingKey::KeySource => "key_source",
            SettingKey::KeydbPath => "keydb_path",
            SettingKey::KeydbUrl => "keydb_url",
            SettingKey::KeyserverUrl => "keyserver_url",
            SettingKey::KeyserverToken => "keyserver_token",
            SettingKey::Language => "language",
            SettingKey::DecryptThreads => "decrypt_threads",
            SettingKey::LogLevel => "log_level",
        }
    }

    /// The key of the text that stands beside a setting.
    pub fn label(self) -> (r: &'static str)
        ensures
            r@ == setting_label(self),
    {
        match self {
            SettingKey::Container => "gui.set.default_output",
            SettingKey::DestDir => "gui.set.default_dest",
            SettingKey::FilenameTemplate => "gui.set.filename_template",
            SettingKey::KeepIso => "gui.set.keep_iso",
            SettingKey::AutoEject => "gui.set.auto_eject",
            SettingKey::Selection => "gui.set.default_selection",
            SettingKey::MinTitleSecs => "gui.set.min_length",
            SettingKey::AudioLangs => "gui.set.audio_langs",
            SettingKey::SubLangs => "gui.set.sub_langs",
            SettingKey::ForcedSubLangs => "gui.set.forced_sub_langs",
            SettingKey::RipMode => "gui.set.rip_mode",
            SettingKey::MaxPasses => "gui.set.max_passes",
            SettingKey::AbortLostSecs => "gui.set.abort_lost",
            SettingKey::Raw => "gui.set.keep_encrypted",
            SettingKey::Force => "gui.set.overwrite",
            SettingKey::KeySource => "gui.set.key_source",
            SettingKey::KeydbPath => "gui.set.keydb_path",
            SettingKey::KeydbUrl => "gui.set.keydb_url",
            SettingKey::KeyserverUrl => "gui.set.keyserver_url",
            SettingKey::KeyserverToken => "gui.set.keyserver_token",
            SettingKey::Language => "gui.set.language",
            SettingKey::DecryptThreads => "gui.set.decrypt_threads",
            SettingKey::LogLevel => "gui.set.log_detail",
        }
    }
}

/// How a setting is made.
#[derive(Clone, Copy, Debug, PartialEq, Eq, Structural)]
pub enum Control {
    /// One of several.
    Combo,
    /// A text.
    Entry,
    /// A text that is not shown.
    Secret,
    /// On or off.
    Switch,
    /// Several languages.
    Langs,
    /// A text that a folder can be picked for.
    Folder,
    /// A text that a file can be picked for.
    File,
}

/// A row of the window: a setting, or something to do.
#[derive(Clone, Copy, Debug, PartialEq, Eq, Structural)]
pub enum PrefRow {
    Setting { key: SettingKey, control: Control },
    UpdateKeydb,
    TestConnection,
}

/// Rows that belong together, and the key of a text about them.
#[derive(Clone, Debug)]
pub struct PrefGroup {
    pub note: Option<&'static str>,
    pub rows: Vec<PrefRow>,
}

/// What a [`PrefGroup`] says.
pub struct GroupWords {
    pub note: Option<Seq<char>>,
    pub rows: Seq<PrefRow>,
}

impl View for PrefGroup {
    type V = GroupWords;

    open spec fn view(&self) -> GroupWords {
        GroupWords {
            note: match self.note {
                Some(n) => Some(n@),
                None => None,
            },
            rows: self.rows@,
        }
    }
}

/// What a list of groups says.
pub open spec fn group_words(v: Seq<PrefGroup>) -> Seq<GroupWords> {
    v.map_values(|g: PrefGroup| g@)
}

/// A page of the window: the key of its title, its icon and its rows.
#[derive(Clone, Debug)]
pub struct PrefPage {
    pub title: &'static str,
    pub icon: &'static str,
    pub groups: Vec<PrefGroup>,
}

/// What a [`PrefPage`] says.
pub struct PageWords {
    pub title: Seq<char>,
    pub icon: Seq<char>,
    pub groups: Seq<GroupWords>,
}

impl View for PrefPage {
    type V = PageWords;

    open spec fn view(&self) -> PageWords {
        PageWords { title: self.title@, icon: self.icon@, groups: group_words(self.groups@) }
    }
}

/// What a list of pages says.
pub open spec fn page_words(v: Seq<PrefPage>) -> Seq<PageWords> {
    v.map_values(|p: PrefPage| p@)
}

/// The pages of the settings window.
pub open spec fn settings_form() -> Seq<PageWords> {
    seq![
        PageWords {
            title: "gui.tab.output"@,
            icon: "folder-videos-symbolic"@,
            groups: seq![
                GroupWords {
                    note: None,
                    rows: seq![
                        PrefRow::Setting { key: SettingKey::Container, control: Control::Combo },
                        PrefRow::Setting { key: SettingKey::DestDir, control: Control::Folder },
                        PrefRow::Setting { key: SettingKey::FilenameTemplate, control: Control::Entry },
                    ],
                },
                GroupWords {
                    note: None,
                    rows: seq![
                        PrefRow::Setting { key: SettingKey::KeepIso, control: Control::Switch },
                        PrefRow::Setting { key: SettingKey::AutoEject, control: Control::Switch },
                    ],
                },
            ],
        },
        PageWords {
            title: "gui.tab.selection"@,
            icon: "object-select-symbolic"@,
            groups: seq![
                GroupWords {
                    note: Some("gui.set.min_length_note"@),
                    rows: seq![
                        PrefRow::Setting { key: SettingKey::Selection, control: Control::Combo },
                        PrefRow::Setting { key: SettingKey::MinTitleSecs, control: Control::Entry },
                    ],
                },
                GroupWords {
                    note: Some("gui.set.lang_prefs_note"@),
                    rows: seq![
                        PrefRow::Setting { key: SettingKey::AudioLangs, control: Control::Langs },
                        PrefRow::Setting { key: SettingKey::SubLangs, control: Control::Langs },
                        PrefRow::Setting { key: SettingKey::ForcedSubLangs, control: Control::Langs },
                    ],
                },
            ],
        },
        PageWords {
            title: "gui.tab.recovery"@,
            icon: "media-optical-symbolic"@,
            groups: seq![
                GroupWords {
                    note: Some("gui.set.abort_lost_note"@),
                    rows: seq![
                        PrefRow::Setting { key: SettingKey::RipMode, control: Control::Combo },
                        PrefRow::Setting { key: SettingKey::MaxPasses, control: Control::Entry },
                        PrefRow::Setting { key: SettingKey::AbortLostSecs, control: Control::Entry },
                    ],
                },
                GroupWords {
                    note: Some("gui.set.raw_note"@),
                    rows: seq![
                        PrefRow::Setting { key: SettingKey::Raw, control: Control::Switch },
                    ],
                },
                GroupWords {
                    note: Some("gui.set.capture_note"@),
                    rows: seq![
                        PrefRow::Setting { key: SettingKey::Force, control: Control::Switch },
                    ],
                },
            ],
        },
        PageWords {
            title: "gui.tab.keys"@,
            icon: "dialog-password-symbolic"@,
            groups: seq![
                GroupWords {
                    note: None,
                    rows: seq![
                        PrefRow::Setting { key: SettingKey::KeySource, control: Control::Combo },
                    ],
                },
                GroupWords {
                    note: None,
                    rows: seq![
                        PrefRow::Setting { key: SettingKey::KeydbPath, control: Control::File },
                        PrefRow::Setting { key: SettingKey::KeydbUrl, control: Control::Entry },
                        PrefRow::UpdateKeydb,
                    ],
                },
                GroupWords {
                    note: None,
                    rows: seq![
                        PrefRow::Setting { key: SettingKey::KeyserverUrl, control: Control::Entry },
                        PrefRow::Setting { key: SettingKey::KeyserverToken, control: Control::Secret },
                        PrefRow::TestConnection,
                    ],
                },
            ],
        },
        PageWords {
            title: "gui.tab.advanced"@,
            icon: "preferences-system-symbolic"@,
            groups: seq![
                GroupWords {
                    note: None,
                    rows: seq![
                        PrefRow::Setting { key: SettingKey::Language, control: Control::Combo },
                    ],
                },
                GroupWords {
                    note: Some("gui.set.decrypt_threads_note"@),
                    rows: seq![
                        PrefRow::Setting { key: SettingKey::DecryptThreads, control: Control::Entry },
                    ],
                },
                GroupWords {
                    note: None,
                    rows: seq![
                        PrefRow::Setting { key: SettingKey::LogLevel, control: Control::Combo },
                    ],
                },
            ],
        },
    ]
}

fn output_page() -> (r: PrefPage)
    ensures
        r@ == settings_form()[0],
{
    let g0 = PrefGroup {
        note: None,
        rows: vec![
            PrefRow::Setting { key: SettingKey::Container, control: Control::Combo },
            PrefRow::Setting { key: SettingKey::DestDir, control: Control::Folder },
            PrefRow::Setting { key: SettingKey::FilenameTemplate, control: Control::Entry },
        ],
    };
    assert(g0@.rows =~= settings_form()[0].groups[0].rows);
    let g1 = PrefGroup {
        note: None,
        rows: vec![
            PrefRow::Setting { key: SettingKey::KeepIso, control: Control::Switch },
            PrefRow::Setting { key: SettingKey::AutoEject, control: Control::Switch },
        ],
    };
    assert(g1@.rows =~= settings_form()[0].groups[1].rows);
    let groups = vec![g0, g1];
    assert(group_words(groups@) =~= settings_form()[0].groups);
    PrefPage { title: "gui.tab.output", icon: "folder-videos-symbolic", groups }
}

fn selection_page() -> (r: PrefPage)
    ensures
        r@ == settings_form()[1],
{
    let g0 = PrefGroup {
        note: Some("gui.set.min_length_note"),
        rows: vec![
            PrefRow::Setting { key: SettingKey::Selection, control: Control::Combo },
            PrefRow::Setting { key: SettingKey::MinTitleSecs, control: Control::Entry },
        ],
    };
    assert(g0@.rows =~= settings_form()[1].groups[0].rows);
    let g1 = PrefGroup {
        note: Some("gui.set.lang_prefs_note"),
        rows: vec![
            PrefRow::Setting { key: SettingKey::AudioLangs, control: Control::Langs },
            PrefRow::Setting { key: SettingKey::SubLangs, control: Control::Langs },
            PrefRow::Setting { key: SettingKey::ForcedSubLangs, control: Control::Langs },
        ],
    };
    assert(g1@.rows =~= settings_form()[1].groups[1].rows);
    let groups = vec![g0, g1];
    assert(group_words(groups@) =~= settings_form()[1].groups);
    PrefPage { title: "gui.tab.selection", icon: "object-select-symbolic", groups }
}

fn recovery_page() -> (r: PrefPage)
    ensures
        r@ == settings_form()[2],
{
    let g0 = PrefGroup {
        note: Some("gui.set.abort_lost_note"),
        rows: vec![
            PrefRow::Setting { key: SettingKey::RipMode, control: Control::Combo },
            PrefRow::Setting { key: SettingKey::MaxPasses, control: Control::Entry },
            PrefRow::Setting { key: SettingKey::AbortLostSecs, control: Control::Entry },
        ],
    };
    assert(g0@.rows =~= settings_form()[2].groups[0].rows);
    let g1 = PrefGroup {
        note: Some("gui.set.raw_note"),
        rows: vec![
            PrefRow::Setting { key: SettingKey::Raw, control: Control::Switch },
        ],
    };
    assert(g1@.rows =~= settings_form()[2].groups[1].rows);
    let g2 = PrefGroup {
        note: Some("gui.set.capture_note"),
        rows: vec![
            PrefRow::Setting { key: SettingKey::Force, control: Control::Switch },
        ],
    };
    assert(g2@.rows =~= settings_form()[2].groups[2].rows);
    let groups = vec![g0, g1, g2];
    assert(group_words(groups@) =~= settings_form()[2].groups);
    PrefPage { title: "gui.tab.recovery", icon: "media-optical-symbolic", groups }
}

fn keys_page() -> (r: PrefPage)
    ensures
        r@ == settings_form()[3],
{
    let g0 = PrefGroup {
        note: None,
        rows: vec![
            PrefRow::Setting { key: SettingKey::KeySource, control: Control::Combo },
        ],
    };
    assert(g0@.rows =~= settings_form()[3].groups[0].rows);
    let g1 = PrefGroup {
        note: None,
        rows: vec![
            PrefRow::Setting { key: SettingKey::KeydbPath, control: Control::File },
            PrefRow::Setting { key: SettingKey::KeydbUrl, control: Control::Entry },
            PrefRow::UpdateKeydb,
        ],
    };
    assert(g1@.rows =~= settings_form()[3].groups[1].rows);
    let g2 = PrefGroup {
        note: None,
        rows: vec![
            PrefRow::Setting { key: SettingKey::KeyserverUrl, control: Control::Entry },
            PrefRow::Setting { key: SettingKey::KeyserverToken, control: Control::Secret },
            PrefRow::TestConnection,
        ],
    };
    assert(g2@.rows =~= settings_form()[3].groups[2].rows);
    let groups = vec![g0, g1, g2];
    assert(group_words(groups@) =~= settings_form()[3].groups);
    PrefPage { title: "gui.tab.keys", icon: "dialog-password-symbolic", groups }
}

fn advanced_page() -> (r: PrefPage)
    ensures
        r@ == settings_form()[4],
{
    let g0 = PrefGroup {
        note: None,
        rows: vec![
            PrefRow::Setting { key: SettingKey::Language, control: Control::Combo },
        ],
    };
    assert(g0@.rows =~= settings_form()[4].groups[0].rows);
    let g1 = PrefGroup {
        note: Some("gui.set.decrypt_threads_note"),
        rows: vec![
            PrefRow::Setting { key: SettingKey::DecryptThreads, control: Control::Entry },
        ],
    };
    assert(g1@.rows =~= settings_form()[4].groups[1].rows);
    let g2 = PrefGroup {
        note: None,
        rows: vec![
            PrefRow::Setting { key: SettingKey::LogLevel, control: Control::Combo },
        ],
    };
    assert(g2@.rows =~= settings_form()[4].groups[2].rows);
    let groups = vec![g0, g1, g2];
    assert(group_words(groups@) =~= settings_form()[4].groups);
    PrefPage { title: "gui.tab.advanced", icon: "preferences-system-symbolic", groups }
}

/// The pages of the settings window.
pub fn show() -> (r: Vec<PrefPage>)
    ensures
        page_words(r@) == settings_form(),
{
    let r = vec![output_page(), selection_page(), recovery_page(), keys_page(), advanced_page()];
    assert(page_words(r@) =~= settings_form());
    r
}

/// Where a setting stands: its page, its group and its row.
pub open spec fn setting_place(k: SettingKey) -> (int, int, int) {
    match k {
        SettingKey::Container => (0, 0, 0),
        SettingKey::DestDir => (0, 0, 1),
        SettingKey::FilenameTemplate => (0, 0, 2),
        SettingKey::KeepIso => (0, 1, 0),
        SettingKey::AutoEject => (0, 1, 1),
        SettingKey::Selection => (1, 0, 0),
        SettingKey::MinTitleSecs => (1, 0, 1),
        SettingKey::AudioLangs => (1, 1, 0),
        SettingKey::SubLangs => (1, 1, 1),
        SettingKey::ForcedSubLangs => (1, 1, 2),
        SettingKey::RipMode => (2, 0, 0),
        SettingKey::MaxPasses => (2, 0, 1),
        SettingKey::AbortLostSecs => (2, 0, 2),
        SettingKey::Raw => (2, 1, 0),
        SettingKey::Force => (2, 2, 0),
        SettingKey::KeySource => (3, 0, 0),
        SettingKey::KeydbPath => (3, 1, 0),
        SettingKey::KeydbUrl => (3, 1, 1),
        SettingKey::KeyserverUrl => (3, 2, 0),
        SettingKey::KeyserverToken => (3, 2, 1),
        SettingKey::Language => (4, 0, 0),
        SettingKey::DecryptThreads => (4, 1, 0),
        SettingKey::LogLevel => (4, 2, 0),
    }
}

/// Law: every setting is on the form, and on it once only, so that none can be
/// set without being read back.
pub proof fn law_every_setting_is_on_the_form_once(k: SettingKey, p: int, g: int, r: int)
    requires
        0 <= p < settings_form().len(),
        0 <= g < settings_form()[p].groups.len(),
        0 <= r < settings_form()[p].groups[g].rows.len(),
    ensures
        (settings_form()[p].groups[g].rows[r] matches PrefRow::Setting { key, .. } && key == k) == ((
            p,
            g,
            r,
        ) == setting_place(k)),
{
}

/// Law: the place of every setting is on the form.
pub proof fn law_every_setting_has_a_place(k: SettingKey)
    ensures
        ({
            let (p, g, r) = setting_place(k);
            &&& 0 <= p < settings_form().len()
            &&& 0 <= g < settings_form()[p].groups.len()
            &&& 0 <= r < settings_form()[p].groups[g].rows.len()
            &&& settings_form()[p].groups[g].rows[r] matches PrefRow::Setting { key, .. } && key == k
        }),
{
}

/// What stands in a row.
#[derive(Clone, Debug)]
pub enum FieldValue {
    Text(String),
    On(bool),
    /// The one with this position among these.
    Choice { options: Vec<String>, selected: u32 },
}

/// What a setting is set to.
#[derive(Clone, Debug)]
pub enum SettingValue {
    Text(String),
    On(bool),
}

/// What a [`SettingValue`] says.
pub enum ValueText {
    Text(Seq<char>),
    On(bool),
}

impl View for SettingValue {
    type V = ValueText;

    open spec fn view(&self) -> ValueText {
        match *self {
            SettingValue::Text(s) => ValueText::Text(s@),
            SettingValue::On(b) => ValueText::On(b),
        }
    }
}

/// What is read back from a row; nothing where no option is selected.
pub open spec fn read_back(f: FieldValue) -> Option<ValueText> {
    match f {
        FieldValue::Text(s) => Some(ValueText::Text(s@)),
        FieldValue::On(b) => Some(ValueText::On(b)),
        FieldValue::Choice { options, selected } => if selected < options@.len() {
            Some(ValueText::Text(options@[selected as int]@))
        } else {
            None
        },
    }
}

/// What is read back from a row: of several options its own word, whatever is
/// shown for it. The setting stays as it is where there is nothing.
pub fn read_field(f: &FieldValue) -> (r: Option<SettingValue>)
    ensures
        match r {
            Some(v) => read_back(*f) == Some(v@),
            None => read_back(*f) is None,
        },
{
    match f {
        FieldValue::Text(s) => Some(SettingValue::Text(s.clone())),
        FieldValue::On(b) => Some(SettingValue::On(*b)),
        FieldValue::Choice { options, selected } => {
            if (*selected as usize) < options.len() {
                Some(SettingValue::Text(options[*selected as usize].clone()))
            } else {
                None
            }
        },
    }
}

/// The text of the first field with that key, from `i` on; empty where there is
/// none.
pub open spec fn field_text(fields: Seq<(SettingKey, String)>, key: SettingKey, i: int) -> Seq<char>
    decreases fields.len() - i,
{
    if i < 0 || i >= fields.len() {
        Seq::empty()
    } else if fields[i].0 == key {
        fields[i].1@
    } else {
        field_text(fields, key, i + 1)
    }
}

/// The text in the field with that key.
pub fn field(fields: &Vec<(SettingKey, String)>, key: SettingKey) -> (r: String)
    ensures
        r@ == field_text(fields@, key, 0),
{
    let mut i: usize = 0;
    while i < fields.len()
        invariant
            i <= fields@.len(),
            field_text(fields@, key, 0) == field_text(fields@, key, i as int),
        decreases fields@.len() - i,
    {
        if fields[i].0 == key {
            return fields[i].1.clone();
        }
        i = i + 1;
    }
    let r = String::new();
    assert(r@ =~= Seq::empty());
    r
}

/// What follows when the window is closed.
#[derive(Clone, Debug)]
pub enum CommitStep {
    /// Nothing was changed.
    Nothing,
    /// The settings are put to use and saved, and the destination in use follows
    /// to this one.
    Apply { output_dir: Option<String> },
}

/// What follows when the window is closed. The destination in use follows only
/// where the one in the settings was changed, and not to an empty one, so that
/// one that was picked for once survives.
pub fn commit(changed: bool, old_dest: &str, new_dest: &str) -> (r: CommitStep)
    ensures
        match r {
            CommitStep::Nothing => !changed,
            CommitStep::Apply { output_dir } => changed && opt_text(output_dir) == (if new_dest@
                != old_dest@ && !is_blank(new_dest@) {
                Some(new_dest@)
            } else {
                None
            }),
        },
{
    if !changed {
        return CommitStep::Nothing;
    }
    if !same_text(new_dest, old_dest) && !blank(new_dest) {
        CommitStep::Apply { output_dir: Some(new_dest.to_owned()) }
    } else {
        CommitStep::Apply { output_dir: None }
    }
}

/// What is said of the address of a key server, which was found to be good or
/// not.
pub open spec fn keyserver_text(
    c: Seq<(Seq<char>, Seq<char>)>,
    url: Seq<char>,
    verdict: Result<(), String>,
) -> Seq<char> {
    if is_blank(url) {
        text_of(c, "gui.log.no_keyserver"@)
    } else {
        match verdict {
            Ok(_) => filled(text_of(c, "gui.log.keyserver_valid"@), seq![("url"@, url)]),
            Err(e) => filled(text_of(c, "gui.log.keyserver_rejected"@), seq![("e"@, e@)]),
        }
    }
}

/// What is said of the address of a key server.
pub fn test_keyserver(c: &Catalog, url: &str, verdict: &Result<(), String>) -> (r: String)
    ensures
        r@ == keyserver_text(c@, url@, *verdict),
{
    if blank(url) {
        return c.get("gui.log.no_keyserver");
    }
    match verdict {
        Ok(_) => c.fmt1("gui.log.keyserver_valid", "url", url),
        Err(e) => c.fmt1("gui.log.keyserver_rejected", "e", e.as_str()),
    }
}

/// What is done where the key database is to be updated.
#[derive(Clone, Debug)]
pub enum KeydbStep {
    /// Nothing but to say this.
    Say(String),
    /// It is fetched from there to there; this is logged, and this is said
    /// meanwhile.
    Fetch { url: String, path: String, log: String, note: String },
}

/// What a [`KeydbStep`] says.
pub enum KeydbText {
    Say(Seq<char>),
    Fetch { url: Seq<char>, path: Seq<char>, log: Seq<char>, note: Seq<char> },
}

impl View for KeydbStep {
    type V = KeydbText;

    open spec fn view(&self) -> KeydbText {
        match *self {
            KeydbStep::Say(s) => KeydbText::Say(s@),
            KeydbStep::Fetch { url, path, log, note } => KeydbText::Fetch {
                url: url@,
                path: path@,
                log: log@,
                note: note@,
            },
        }
    }
}

/// `typed`, or what was saved where nothing is typed.
pub open spec fn typed_or(typed: Seq<char>, saved: Seq<char>) -> Seq<char> {
    if typed.len() == 0 {
        saved
    } else {
        typed
    }
}

fn typed_or_saved(typed: &str, saved: &str) -> (r: String)
    ensures
        r@ == typed_or(typed@, saved@),
{
    if typed.is_empty() {
        saved.to_owned()
    } else {
        typed.to_owned()
    }
}

/// What is done where the key database is to be updated: what stands in the
/// fields goes before what was saved, and one update is made at a time.
pub open spec fn keydb_update(
    c: Seq<(Seq<char>, Seq<char>)>,
    updating: bool,
    typed_url: Seq<char>,
    typed_path: Seq<char>,
    saved_url: Seq<char>,
    saved_path: Seq<char>,
) -> KeydbText {
    if updating {
        KeydbText::Say(
            text_or(
                c,
                "gui.set.keydb_busy"@,
                "A keydb update is already running — please wait."@,
            ),
        )
    } else if is_blank(typed_or(typed_url, saved_url)) {
        KeydbText::Say(text_of(c, "gui.set.keydb_no_url"@))
    } else {
        KeydbText::Fetch {
            url: typed_or(typed_url, saved_url),
            path: typed_or(typed_path, saved_path),
            log: text_of(c, "gui.log.fetching_keydb"@),
            note: text_of(c, "gui.set.keydb_updating"@),
        }
    }
}

/// What is done where the key database is to be updated.
pub fn update_keydb(
    c: &Catalog,
    updating: bool,
    typed_url: &str,
    typed_path: &str,
    saved_url: &str,
    saved_path: &str,
) -> (r: KeydbStep)
    ensures
        r@ == keydb_update(c@, updating, typed_url@, typed_path@, saved_url@, saved_path@),
{
    if updating {
        return KeydbStep::Say(
            c.get_or(
                "gui.set.keydb_busy",
                "A keydb update is already running — please wait.",
            ),
        );
    }
    let url = typed_or_saved(typed_url, saved_url);
    let path = typed_or_saved(typed_path, saved_path);
    if blank(url.as_str()) {
        return KeydbStep::Say(c.get("gui.set.keydb_no_url"));
    }
    KeydbStep::Fetch {
        url,
        path,
        log: c.get("gui.log.fetching_keydb"),
        note: c.get("gui.set.keydb_updating"),
    }
}

/// A language is among these, in either case.
pub open spec fn knows_code(known: Seq<Seq<char>>, code: Seq<char>) -> bool {
    exists|i: int| 0 <= i < known.len() && lowered(#[trigger] known[i]) == lowered(code)
}

/// The languages that are offered once the first `n` of `codes` were added to
/// those that were.
pub open spec fn with_codes(known: Seq<Seq<char>>, codes: Seq<Seq<char>>, n: nat) -> Seq<Seq<char>>
    decreases n,
{
    if n == 0 {
        known
    } else {
        let before = with_codes(known, codes, (n - 1) as nat);
        if knows_code(before, codes[n - 1]) {
            before
        } else {
            before.push(codes[n - 1])
        }
    }
}

fn code_known(known: &Vec<String>, code: &str) -> (r: bool)
    ensures
        r == knows_code(texts(known@), code@),
{
    let ghost all = texts(known@);
    for i in 0..known.len()
        invariant
            all == texts(known@),
            all.len() == known@.len(),
            forall|j: int| 0 <= j < i ==> lowered(#[trigger] all[j]) != lowered(code@),
    {
        assert(all[i as int] == known@[i as int]@);
        if same_ignoring_case(known[i].as_str(), code) {
            assert(lowered(all[i as int]) == lowered(code@));
            return true;
        }
    }
    false
}

/// Adds the languages that are not offered yet, each once.
pub fn add_codes(known: &mut Vec<String>, codes: &Vec<String>)
    ensures
        texts(final(known)@) == with_codes(texts(old(known)@), texts(codes@), codes@.len()),
{
    let ghost start = texts(known@);
    let ghost all = texts(codes@);
    for i in 0..codes.len()
        invariant
            all == texts(codes@),
            all.len() == codes@.len(),
            texts(known@) == with_codes(start, all, i as nat),
    {
        assert(all[i as int] == codes@[i as int]@);
        if !code_known(known, codes[i].as_str()) {
            push_text(known, codes[i].clone());
        }
    }
}

/// No two of these languages are the same, in either case.
pub open spec fn codes_differ(known: Seq<Seq<char>>) -> bool {
    forall|i: int, j: int|
        0 <= i < j < known.len() ==> lowered(#[trigger] known[i]) != lowered(#[trigger] known[j])
}

/// Law: no language is ever offered twice.
pub proof fn law_no_language_is_offered_twice(
    known: Seq<Seq<char>>,
    codes: Seq<Seq<char>>,
    n: nat,
)
    requires
        codes_differ(known),
    ensures
        codes_differ(with_codes(known, codes, n)),
    decreases n,
{
    if n > 0 {
        law_no_language_is_offered_twice(known, codes, (n - 1) as nat);
    }
}

/// Law: every language that is wanted is offered.
pub proof fn law_every_wanted_language_is_offered(
    known: Seq<Seq<char>>,
    codes: Seq<Seq<char>>,
    n: nat,
    i: int,
)
    requires
        0 <= i < n <= codes.len(),
    ensures
        knows_code(with_codes(known, codes, n), codes[i]),
    decreases n,
{
    let before = with_codes(known, codes, (n - 1) as nat);
    let after = with_codes(known, codes, n);
    if i < n - 1 {
        law_every_wanted_language_is_offered(known, codes, (n - 1) as nat, i);
        let k = choose|k: int|
            0 <= k < before.len() && lowered(#[trigger] before[k]) == lowered(codes[i]);
        assert(after[k] == before[k]);
    } else if !knows_code(before, codes[i]) {
        assert(after[before.len() as int] == codes[i]);
    }
}

} // verus!
