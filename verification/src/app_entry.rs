//! The first decisions of a launch: window or terminal, which language, and
//! whether there is a diagnostic log.

use crate::cli_entry::{filter_for, log_filter, opt_text};
use crate::text::{same_text, texts};
use vstd::prelude::*;
use vstd::string::*;

verus! {

/// The arguments ask for the window: `gui` is the first of them, or there are
/// none and the program was started as a window.
pub open spec fn opens_window(args: Seq<Seq<char>>, windowed: bool) -> bool {
    (args.len() >= 2 && args[1] == "gui"@) || (args.len() < 2 && windowed)
}

/// Whether this launch opens the window. The first of `args` is the program.
pub fn wants_gui(args: &[String], windowed: bool) -> (r: bool)
    ensures
        r == opens_window(texts(args@), windowed),
{
    let ghost all = texts(args@);
    assert(all.len() == args@.len());
    if args.len() >= 2 {
        assert(all[1] == args@[1]@);
        if same_text(args[1].as_str(), "gui") {
            return true;
        }
    }
    args.len() < 2 && windowed
}

/// Law: a launch with arguments is one of the terminal, however it was started,
/// unless the first argument is exactly `gui`.
pub proof fn law_arguments_mean_terminal(args: Seq<Seq<char>>, windowed: bool)
    requires
        args.len() >= 2,
    ensures
        opens_window(args, windowed) == (args[1] == "gui"@),
{
}

/// What happens to the language at a launch.
#[derive(Clone, Debug)]
pub enum LocaleChange {
    /// It stays as it is.
    Keep,
    /// The locale of the system is used.
    System(String),
    /// The language that was chosen is used.
    Chosen(String),
}

/// What a [`LocaleChange`] says.
pub enum LocaleText {
    Keep,
    System(Seq<char>),
    Chosen(Seq<char>),
}

impl View for LocaleChange {
    type V = LocaleText;

    open spec fn view(&self) -> LocaleText {
        match *self {
            LocaleChange::Keep => LocaleText::Keep,
            LocaleChange::System(s) => LocaleText::System(s@),
            LocaleChange::Chosen(s) => LocaleText::Chosen(s@),
        }
    }
}

/// What happens to the language at a launch: where `auto` was chosen, the
/// system's is used as far as it is known.
pub fn apply_locale(code: &str, system_locale: Option<String>) -> (r: LocaleChange)
    ensures
        r@ == (if code@ == "auto"@ {
            match system_locale {
                Some(s) => LocaleText::System(s@),
                None => LocaleText::Keep,
            }
        } else {
            LocaleText::Chosen(code@)
        }),
{
    if same_text(code, "auto") {
        match system_locale {
            Some(s) => LocaleChange::System(s),
            None => LocaleChange::Keep,
        }
    } else {
        LocaleChange::Chosen(code.to_owned())
    }
}

/// The file that the window's diagnostics go to.
pub const GUI_LOG_NAME: &'static str = "log.txt";

/// How large that file may be at a launch before it is started over.
pub const GUI_LOG_CAP_BYTES: u64 = 8_388_608;

/// Whether a log of this length is started over; nothing is known of the length
/// of one that is not there.
pub fn trim_oversized_log(len: Option<u64>, cap: u64) -> (r: bool)
    ensures
        r == (len matches Some(n) && n > cap),
{
    match len {
        Some(n) => n > cap,
        None => false,
    }
}

/// What is logged where the settings ask for this much; nothing for most.
pub open spec fn gui_filter(log_level: Seq<char>) -> Option<Seq<char>> {
    if log_level == "Debug"@ {
        Some(filter_for("trace"@))
    } else if log_level == "Verbose"@ {
        Some(filter_for("debug"@))
    } else {
        None
    }
}

/// What is logged where the settings ask for this much.
pub fn gui_log_filter(log_level: &str) -> (r: Option<String>)
    ensures
        opt_text(r) == gui_filter(log_level@),
{
    if same_text(log_level, "Debug") {
        Some(log_filter("trace"))
    } else if same_text(log_level, "Verbose") {
        Some(log_filter("debug"))
    } else {
        None
    }
}

} // verus!
