//! The desktop shell on Linux: its menu, its timer and its language. What is
//! drawn, and how, is the toolkit's business.

use crate::cli_entry::opt_text;
use crate::text::{CharClass, chars_of, len_until, same_text, until};
use vstd::prelude::*;
use vstd::string::*;

pub mod main_view;
pub mod prefs;
pub mod tree;

verus! {

/// What the application is called on the desktop.
pub const APP_ID: &'static str = "org.freemkv.FreeMKV";

/// What the user can ask for.
#[derive(Clone, Debug)]
pub enum Cmd {
    Open,
    Close,
    SetOutput,
    Run,
    Cancel,
    Eject,
    SelectAll,
    SelectNone,
    Invert,
    ToggleLog,
    ClearLog,
    Settings,
    About,
    Docs,
    CheckUpdates,
    Quit,
    SetFormat(String),
}

/// What a row of the menu does.
#[derive(Clone, Debug)]
pub enum MenuAction {
    Cmd(Cmd),
    OpenDisc,
    StandardCut,
    StandardCopy,
    StandardPaste,
    StandardSelectAllText,
}

/// A key that stands for a row of the menu.
#[derive(Clone, Debug)]
pub struct Accel {
    pub primary: bool,
    pub alt: bool,
    pub shift: bool,
    pub key: String,
}

/// A row of the menu.
#[derive(Clone, Debug)]
pub struct MenuItem {
    pub label: String,
    pub action: MenuAction,
    pub accel: Option<Accel>,
}

/// A row of the menu, or a line between two.
#[derive(Clone, Debug)]
pub enum MenuEntry {
    Separator,
    Item(MenuItem),
}

/// A part of the menu. One part is the application's own.
#[derive(Clone, Debug)]
pub struct MenuGroup {
    pub app: bool,
    pub title: String,
    pub entries: Vec<MenuEntry>,
}

/// A text field does this by itself.
pub open spec fn is_text_action(a: MenuAction) -> bool {
    a is StandardCut || a is StandardCopy || a is StandardPaste || a is StandardSelectAllText
}

/// Whether a text field does this by itself.
pub fn is_standard_text_action(a: &MenuAction) -> (r: bool)
    ensures
        r == is_text_action(*a),
{
    match a {
        MenuAction::StandardCut => true,
        MenuAction::StandardCopy => true,
        MenuAction::StandardPaste => true,
        MenuAction::StandardSelectAllText => true,
        _ => false,
    }
}

/// What a command is called among the actions of the application.
pub open spec fn command_name(c: Cmd) -> Option<Seq<char>> {
    match c {
        Cmd::Open => Some("open"@),
        Cmd::Close => Some("close"@),
        Cmd::SetOutput => Some("set-output"@),
        Cmd::Run => Some("run"@),
        Cmd::Eject => Some("eject"@),
        Cmd::SelectAll => Some("select-all"@),
        Cmd::SelectNone => Some("select-none"@),
        Cmd::Invert => Some("invert"@),
        Cmd::ToggleLog => Some("toggle-log"@),
        Cmd::ClearLog => Some("clear-log"@),
        Cmd::Settings => Some("settings"@),
        Cmd::About => Some("about"@),
        Cmd::Docs => Some("docs"@),
        Cmd::CheckUpdates => Some("check-updates"@),
        Cmd::Quit => Some("quit"@),
        Cmd::Cancel => None,
        Cmd::SetFormat(_) => None,
    }
}

/// What a row of the menu is called among the actions of the application.
pub open spec fn action_name(a: MenuAction) -> Option<Seq<char>> {
    match a {
        MenuAction::Cmd(c) => command_name(c),
        MenuAction::OpenDisc => Some("open-disc"@),
        _ => None,
    }
}

/// What a row of the menu is called among the actions of the application; not
/// all of them are there.
pub fn action_name_for(a: &MenuAction) -> (r: Option<&'static str>)
    ensures
        match r {
            Some(n) => action_name(*a) == Some(n@),
            None => action_name(*a) is None,
        },
{
    match a {
        MenuAction::Cmd(c) => match c {
            Cmd::Open => Some("open"),
            Cmd::Close => Some("close"),
            Cmd::SetOutput => Some("set-output"),
            Cmd::Run => Some("run"),
            Cmd::Eject => Some("eject"),
            Cmd::SelectAll => Some("select-all"),
            Cmd::SelectNone => Some("select-none"),
            Cmd::Invert => Some("invert"),
            Cmd::ToggleLog => Some("toggle-log"),
            Cmd::ClearLog => Some("clear-log"),
            Cmd::Settings => Some("settings"),
            Cmd::About => Some("about"),
            Cmd::Docs => Some("docs"),
            Cmd::CheckUpdates => Some("check-updates"),
            Cmd::Quit => Some("quit"),
            _ => None,
        },
        MenuAction::OpenDisc => Some("open-disc"),
        _ => None,
    }
}

/// The key as the toolkit writes it.
pub open spec fn accel_text(a: Accel) -> Seq<char> {
    (if a.primary {
        "<Primary>"@
    } else {
        Seq::empty()
    }) + (if a.alt {
        "<Alt>"@
    } else {
        Seq::empty()
    }) + (if a.shift {
        "<Shift>"@
    } else {
        Seq::empty()
    }) + a.key@
}

/// The key as the toolkit writes it, where there is one.
pub fn accel_string(accel: Option<&Accel>) -> (r: Option<String>)
    ensures
        opt_text(r) == match accel {
            Some(a) => Some(accel_text(*a)),
            None => None,
        },
{
    match accel {
        None => None,
        Some(a) => {
            let mut s = String::new();
            if a.primary {
                s.append("<Primary>");
            }
            if a.alt {
                s.append("<Alt>");
            }
            if a.shift {
                s.append("<Shift>");
            }
            s.append(a.key.as_str());
            assert(s@ =~= accel_text(*a));
            Some(s)
        },
    }
}

/// A row as it is handed to the toolkit.
#[derive(Clone, Debug)]
pub struct MenuRow {
    pub label: String,
    pub action: String,
    pub accel: Option<String>,
}

/// What a [`MenuRow`] says.
pub struct RowWords {
    pub label: Seq<char>,
    pub action: Seq<char>,
    pub accel: Option<Seq<char>>,
}

impl View for MenuRow {
    type V = RowWords;

    open spec fn view(&self) -> RowWords {
        RowWords { label: self.label@, action: self.action@, accel: opt_text(self.accel) }
    }
}

/// What a list of rows says.
pub open spec fn row_words(v: Seq<MenuRow>) -> Seq<RowWords> {
    v.map_values(|r: MenuRow| r@)
}

/// The row for an entry; none for a line, for what a text field does by itself,
/// and for what has no name.
pub open spec fn row_for(e: MenuEntry) -> Option<RowWords> {
    match e {
        MenuEntry::Separator => None,
        MenuEntry::Item(mi) => if is_text_action(mi.action) {
            None
        } else {
            match action_name(mi.action) {
                None => None,
                Some(n) => Some(
                    RowWords {
                        label: mi.label@,
                        action: "app."@ + n,
                        accel: match mi.accel {
                            Some(a) => Some(accel_text(a)),
                            None => None,
                        },
                    },
                ),
            }
        },
    }
}

/// The rows for the first `n` entries.
pub open spec fn rows_for(entries: Seq<MenuEntry>, n: nat) -> Seq<RowWords>
    decreases n,
{
    if n == 0 {
        Seq::empty()
    } else {
        let before = rows_for(entries, (n - 1) as nat);
        match row_for(entries[n - 1]) {
            Some(row) => before.push(row),
            None => before,
        }
    }
}

fn row_of(e: &MenuEntry) -> (r: Option<MenuRow>)
    ensures
        match r {
            Some(row) => row_for(*e) == Some(row@),
            None => row_for(*e) is None,
        },
{
    match e {
        MenuEntry::Separator => None,
        MenuEntry::Item(mi) => {
            if is_standard_text_action(&mi.action) {
                return None;
            }
            match action_name_for(&mi.action) {
                None => None,
                Some(n) => {
                    let mut action = "app.".to_owned();
                    action.append(n);
                    let accel = match &mi.accel {
                        Some(a) => accel_string(Some(a)),
                        None => None,
                    };
                    Some(MenuRow { label: mi.label.clone(), action, accel })
                },
            }
        },
    }
}

/// The rows of a part of the menu.
pub fn append_group_to_section(group: &MenuGroup) -> (r: Vec<MenuRow>)
    ensures
        row_words(r@) == rows_for(group.entries@, group.entries@.len()),
{
    let mut rows: Vec<MenuRow> = Vec::new();
    assert(row_words(rows@) =~= Seq::empty());
    for i in 0..group.entries.len()
        invariant
            row_words(rows@) == rows_for(group.entries@, i as nat),
    {
        match row_of(&group.entries[i]) {
            Some(row) => {
                let ghost before = row_words(rows@);
                rows.push(row);
                assert(row_words(rows@) =~= before.push(row@));
            },
            None => {},
        }
    }
    rows
}

/// A part of the menu as it is handed to the toolkit.
#[derive(Clone, Debug)]
pub struct MenuSection {
    pub title: Option<String>,
    pub rows: Vec<MenuRow>,
}

/// What a [`MenuSection`] says.
pub struct SectionWords {
    pub title: Option<Seq<char>>,
    pub rows: Seq<RowWords>,
}

impl View for MenuSection {
    type V = SectionWords;

    open spec fn view(&self) -> SectionWords {
        SectionWords { title: opt_text(self.title), rows: row_words(self.rows@) }
    }
}

/// What a list of parts says.
pub open spec fn section_words(v: Seq<MenuSection>) -> Seq<SectionWords> {
    v.map_values(|s: MenuSection| s@)
}

/// The parts among the first `n` that are not the application's own.
pub open spec fn other_sections(layout: Seq<MenuGroup>, n: nat) -> Seq<SectionWords>
    decreases n,
{
    if n == 0 {
        Seq::empty()
    } else {
        let before = other_sections(layout, (n - 1) as nat);
        let g = layout[n - 1];
        if g.app {
            before
        } else {
            before.push(
                SectionWords {
                    title: Some(g.title@),
                    rows: rows_for(g.entries@, g.entries@.len()),
                },
            )
        }
    }
}

/// The first part from `i` on that is the application's own.
pub open spec fn app_section(layout: Seq<MenuGroup>, i: int) -> Seq<SectionWords>
    decreases layout.len() - i,
{
    if i < 0 || i >= layout.len() {
        Seq::empty()
    } else if layout[i].app {
        seq![
            SectionWords {
                title: None,
                rows: rows_for(layout[i].entries@, layout[i].entries@.len()),
            },
        ]
    } else {
        app_section(layout, i + 1)
    }
}

/// The menu: the parts in their order, and the application's own at the end,
/// without a title.
pub fn build_menu_model(layout: &Vec<MenuGroup>) -> (r: Vec<MenuSection>)
    ensures
        section_words(r@) == other_sections(layout@, layout@.len()) + app_section(layout@, 0),
{
    let mut menu: Vec<MenuSection> = Vec::new();
    assert(section_words(menu@) =~= Seq::empty());
    for i in 0..layout.len()
        invariant
            section_words(menu@) == other_sections(layout@, i as nat),
    {
        let g = &layout[i];
        if !g.app {
            let section = MenuSection {
                title: Some(g.title.clone()),
                rows: append_group_to_section(g),
            };
            let ghost before = section_words(menu@);
            menu.push(section);
            assert(section_words(menu@) =~= before.push(section@));
        }
    }
    let ghost others = section_words(menu@);
    let mut i: usize = 0;
    while i < layout.len()
        invariant
            i <= layout.len(),
            section_words(menu@) == others,
            app_section(layout@, 0) == app_section(layout@, i as int),
            others == other_sections(layout@, layout@.len()),
        decreases layout.len() - i,
    {
        let g = &layout[i];
        if g.app {
            let section = MenuSection { title: None, rows: append_group_to_section(g) };
            menu.push(section);
            assert(section_words(menu@) =~= others + seq![section@]);
            return menu;
        }
        i = i + 1;
    }
    assert(section_words(menu@) =~= others + app_section(layout@, 0));
    menu
}

/// What the actions of the application do. A disc is opened like a file.
pub open spec fn actions() -> Seq<(Seq<char>, Cmd)> {
    seq![
        ("open"@, Cmd::Open),
        ("close"@, Cmd::Close),
        ("set-output"@, Cmd::SetOutput),
        ("run"@, Cmd::Run),
        ("eject"@, Cmd::Eject),
        ("select-all"@, Cmd::SelectAll),
        ("select-none"@, Cmd::SelectNone),
        ("invert"@, Cmd::Invert),
        ("toggle-log"@, Cmd::ToggleLog),
        ("clear-log"@, Cmd::ClearLog),
        ("settings"@, Cmd::Settings),
        ("about"@, Cmd::About),
        ("docs"@, Cmd::Docs),
        ("check-updates"@, Cmd::CheckUpdates),
        ("quit"@, Cmd::Quit),
        ("open-disc"@, Cmd::Open),
    ]
}

/// What the actions of the application do.
pub fn install_menu_actions() -> (r: Vec<(&'static str, Cmd)>)
    ensures
        r@.map_values(|p: (&'static str, Cmd)| (p.0@, p.1)) == actions(),
{
    let r = vec![
        ("open", Cmd::Open),
        ("close", Cmd::Close),
        ("set-output", Cmd::SetOutput),
        ("run", Cmd::Run),
        ("eject", Cmd::Eject),
        ("select-all", Cmd::SelectAll),
        ("select-none", Cmd::SelectNone),
        ("invert", Cmd::Invert),
        ("toggle-log", Cmd::ToggleLog),
        ("clear-log", Cmd::ClearLog),
        ("settings", Cmd::Settings),
        ("about", Cmd::About),
        ("docs", Cmd::Docs),
        ("check-updates", Cmd::CheckUpdates),
        ("quit", Cmd::Quit),
        ("open-disc", Cmd::Open),
    ];
    assert(r@.map_values(|p: (&'static str, Cmd)| (p.0@, p.1)) =~= actions());
    r
}

/// The position of a row's action among those of the application.
pub open spec fn action_position(a: MenuAction) -> int {
    match a {
        MenuAction::OpenDisc => 15,
        MenuAction::Cmd(Cmd::Open) => 0,
        MenuAction::Cmd(Cmd::Close) => 1,
        MenuAction::Cmd(Cmd::SetOutput) => 2,
        MenuAction::Cmd(Cmd::Run) => 3,
        MenuAction::Cmd(Cmd::Eject) => 4,
        MenuAction::Cmd(Cmd::SelectAll) => 5,
        MenuAction::Cmd(Cmd::SelectNone) => 6,
        MenuAction::Cmd(Cmd::Invert) => 7,
        MenuAction::Cmd(Cmd::ToggleLog) => 8,
        MenuAction::Cmd(Cmd::ClearLog) => 9,
        MenuAction::Cmd(Cmd::Settings) => 10,
        MenuAction::Cmd(Cmd::About) => 11,
        MenuAction::Cmd(Cmd::Docs) => 12,
        MenuAction::Cmd(Cmd::CheckUpdates) => 13,
        _ => 14,
    }
}

/// Law: a row of the menu that is shown does what it stands for: its name is
/// that of an action, which gives its command.
pub proof fn law_no_menu_row_is_dead(e: MenuEntry)
    requires
        row_for(e) is Some,
    ensures
        e matches MenuEntry::Item(mi) && {
            let at = actions()[action_position(mi.action)];
            &&& 0 <= action_position(mi.action) < actions().len()
            &&& row_for(e)->0.action == "app."@ + at.0
            &&& mi.action matches MenuAction::Cmd(c) ==> at.1 == c
        },
{
}

/// Law: every row that is neither a line nor done by a text field itself is
/// shown, if what it stands for has a name.
pub proof fn law_no_menu_row_is_lost(entries: Seq<MenuEntry>, i: int, n: nat)
    requires
        0 <= i < n <= entries.len(),
        row_for(entries[i]) is Some,
    ensures
        rows_for(entries, n).contains(row_for(entries[i])->0),
    decreases n,
{
    if i < n - 1 {
        law_no_menu_row_is_lost(entries, i, (n - 1) as nat);
        let before = rows_for(entries, (n - 1) as nat);
        let k = choose|k: int| 0 <= k < before.len() && before[k] == row_for(entries[i])->0;
        assert(rows_for(entries, n)[k] == before[k]);
    } else {
        let all = rows_for(entries, n);
        assert(all[all.len() - 1] == row_for(entries[i])->0);
    }
}

/// What is done with the timer.
#[derive(Clone, Copy, Debug, PartialEq, Eq, Structural)]
pub enum TimerStep {
    Leave,
    Start,
    Stop,
}

/// How often the timer runs, in milliseconds.
pub const TICK_MS: u64 = 250;

/// What is done with the timer where a rip begins: a second one is never
/// started.
pub fn start_tick(running: bool) -> (r: TimerStep)
    ensures
        r == (if running {
            TimerStep::Leave
        } else {
            TimerStep::Start
        }),
{
    if running {
        TimerStep::Leave
    } else {
        TimerStep::Start
    }
}

/// What is done with the timer where a rip ends.
pub fn stop_tick(running: bool) -> (r: TimerStep)
    ensures
        r == (if running {
            TimerStep::Stop
        } else {
            TimerStep::Leave
        }),
{
    if running {
        TimerStep::Stop
    } else {
        TimerStep::Leave
    }
}

/// The language that one setting of the environment names: what stands before
/// its encoding and its modifier, with hyphens. None where it names none.
pub open spec fn locale_tag(v: Option<Seq<char>>) -> Option<Seq<char>> {
    match v {
        None => None,
        Some(v) => if v.len() == 0 || v == "C"@ || v == "POSIX"@ {
            None
        } else {
            let tag = until(v, CharClass::LocaleDelimiter);
            if tag.len() == 0 {
                None
            } else {
                Some(tag.map_values(|c: char| hyphen(c)))
            }
        },
    }
}

/// A hyphen for an underscore, and every other character itself.
pub open spec fn hyphen(c: char) -> char {
    if c == '_' {
        '-'
    } else {
        c
    }
}

/// The language that the environment names: `LC_ALL` first, then `LANG`.
pub open spec fn system_locale(lc_all: Option<Seq<char>>, lang: Option<Seq<char>>) -> Option<
    Seq<char>,
> {
    match locale_tag(lc_all) {
        Some(t) => Some(t),
        None => locale_tag(lang),
    }
}

fn tag_of(v: &Option<String>) -> (r: Option<String>)
    ensures
        opt_text(r) == locale_tag(opt_text(*v)),
{
    match v {
        None => None,
        Some(v) => {
            if v.as_str().is_empty() || same_text(v.as_str(), "C") || same_text(
                v.as_str(),
                "POSIX",
            ) {
                return None;
            }
            let chars = chars_of(v.as_str());
            let n: usize = len_until(chars.as_slice(), CharClass::LocaleDelimiter);
            if n == 0 {
                return None;
            }
            let ghost wanted = until(v@, CharClass::LocaleDelimiter).map_values(
                |c: char| hyphen(c),
            );
            let mut out = String::new();
            assert(out@ =~= wanted.take(0));
            for i in 0..n
                invariant
                    chars@ == v@,
                    n <= chars@.len(),
                    wanted == until(v@, CharClass::LocaleDelimiter).map_values(
                        |c: char| hyphen(c),
                    ),
                    until(v@, CharClass::LocaleDelimiter) == chars@.take(n as int),
                    out@ == wanted.take(i as int),
            {
                let c = chars[i];
                out.push(
                    if c == '_' {
                        '-'
                    } else {
                        c
                    },
                );
                assert(out@ =~= wanted.take(i + 1));
            }
            assert(wanted.take(n as int) =~= wanted);
            Some(out)
        },
    }
}

/// The language that the environment names, out of its two settings for it.
pub fn system_locale_code(lc_all: &Option<String>, lang: &Option<String>) -> (r: Option<String>)
    ensures
        opt_text(r) == system_locale(opt_text(*lc_all), opt_text(*lang)),
{
    match tag_of(lc_all) {
        Some(t) => Some(t),
        None => tag_of(lang),
    }
}

} // verus!
