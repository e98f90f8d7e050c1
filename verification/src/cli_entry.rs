//! The command line: what the arguments mean, before anything is done.

use crate::disc::Stream;
use crate::disc_info::{
    InfoAnswer, InfoFlags, InfoParse, InfoRequest, audio_remarks, audio_tags, info_from, no_flags,
    parse_info_flags, sanitize,
};
use crate::paths::{file_name, parent, path_file_name, path_parent};
use crate::strings::{Catalog, arg_texts, filled, sanitized, text_of, text_or};
use crate::submit::same_ignoring_case;
use crate::text::{
    chars_of, copy_from, dec, dec_text, has_text, is_digit, join_texts, joined, lemma_texts_push,
    lowered, pad_start, pad_start_text, parse_unsigned, parsed_unsigned, push_dec, push_text,
    push_texts, same_text, text_has, texts,
};
use vstd::prelude::*;
use vstd::string::*;

verus! {

/// A complaint about the command line that cannot be shown yet: the language
/// it will be shown in is itself chosen by the command line.
pub struct PendingDiag {
    pub key: &'static str,
    /// Shown while the catalogue has no text under `key`.
    pub english: &'static str,
    pub args: Vec<(&'static str, String)>,
}

/// What a [`PendingDiag`] says.
pub struct Diag {
    pub key: Seq<char>,
    pub english: Seq<char>,
    pub args: Seq<(Seq<char>, Seq<char>)>,
}

impl View for PendingDiag {
    type V = Diag;

    open spec fn view(&self) -> Diag {
        Diag {
            key: self.key@,
            english: self.english@,
            args: self.args@.map_values(|a: (&'static str, String)| (a.0@, a.1@)),
        }
    }
}

/// What each complaint of a list says.
pub open spec fn diags(v: Seq<PendingDiag>) -> Seq<Diag> {
    v.map_values(|d: PendingDiag| d@)
}

/// A complaint without arguments.
pub open spec fn plain_diag(key: Seq<char>, english: Seq<char>) -> Diag {
    Diag { key, english, args: Seq::empty() }
}

/// A complaint with one argument.
pub open spec fn diag_with(
    key: Seq<char>,
    english: Seq<char>,
    name: Seq<char>,
    value: Seq<char>,
) -> Diag {
    Diag { key, english, args: seq![(name, value)] }
}

impl PendingDiag {
    /// A complaint without arguments.
    pub fn new(key: &'static str, english: &'static str) -> (d: Self)
        ensures
            d@ == plain_diag(key@, english@),
    {
        let d = PendingDiag { key, english, args: Vec::new() };
        assert(d@.args =~= Seq::empty());
        d
    }

    /// The same complaint with one argument more.
    pub fn with(self, name: &'static str, value: &str) -> (d: Self)
        ensures
            d@ == (Diag { args: self@.args.push((name@, value@)), ..self@ }),
    {
        let mut d = self;
        d.args.push((name, value.to_owned()));
        assert(d@.args =~= self@.args.push((name@, value@)));
        d
    }

    /// The complaint in the language of the catalogue.
    pub fn render(&self, catalog: &Catalog) -> (r: String)
        ensures
            r@ == filled(text_or(catalog@, self@.key, self@.english), self@.args),
    {
        let mut args: Vec<(&str, &str)> = Vec::new();
        for i in 0..self.args.len()
            invariant
                arg_texts(args@) == self@.args.take(i as int),
        {
            let ghost before = arg_texts(args@);
            args.push((self.args[i].0, self.args[i].1.as_str()));
            assert(arg_texts(args@) =~= before.push(
                (self.args@[i as int].0@, self.args@[i as int].1@),
            ));
            assert(self@.args[i as int] == (self.args@[i as int].0@, self.args@[i as int].1@));
            assert(before.push(self@.args[i as int]) =~= self@.args.take(i + 1));
        }
        assert(self@.args.take(self.args@.len() as int) =~= self@.args);
        catalog.fmt_or(self.key, self.english, args.as_slice())
    }
}

/// Adds a complaint to a list.
fn complain(v: &mut Vec<PendingDiag>, d: PendingDiag)
    ensures
        diags(final(v)@) == diags(old(v)@).push(d@),
{
    v.push(d);
    assert(diags(v@) =~= diags(old(v)@).push(d@));
}

/// `s` holds a scheme, and so names a stream.
pub open spec fn names_stream(s: Seq<char>) -> bool {
    has_text(s, "://"@)
}

/// `s` is a flag: a hyphen before something that is not a digit.
pub open spec fn is_flag(s: Seq<char>) -> bool {
    s.len() >= 2 && s[0] == '-' && !is_digit(s[1])
}

/// Whether `s` looks like a stream URL.
pub fn is_url(s: &str) -> (r: bool)
    ensures
        r == names_stream(s@),
{
    text_has(s, "://")
}

/// Whether a token is a flag, and so can never be the value of one. A negative
/// number is a value.
pub fn is_flag_token(s: &str) -> (r: bool)
    ensures
        r == is_flag(s@),
{
    let v = chars_of(s);
    v.len() >= 2 && v[0] == '-' && !('0' <= v[1] && v[1] <= '9')
}

/// The argument after position `i` can be the value of the flag at `i`.
pub open spec fn has_value(args: Seq<Seq<char>>, i: int) -> bool {
    i + 1 < args.len() && !is_flag(args[i + 1]) && !names_stream(args[i + 1])
}

fn has_value_at(args: &[String], i: usize) -> (r: bool)
    requires
        i < args.len(),
    ensures
        r == has_value(texts(args@), i as int),
{
    if i + 1 < args.len() {
        let ghost all = texts(args@);
        assert(all[i + 1] == args@[i + 1]@);
        !is_flag_token(args[i + 1].as_str()) && !is_url(args[i + 1].as_str())
    } else {
        false
    }
}

/// What the logging flags asked for.
pub struct LoggingRequest {
    pub level: Option<nat>,
    pub file: Option<Seq<char>>,
    pub diags: Seq<Diag>,
}

/// The level that `--log-level` sets with `value`, or the complaint about it.
/// Numbers above the highest level mean that level.
pub open spec fn log_level(value: Seq<char>) -> Result<nat, Diag> {
    match parsed_unsigned(value, 255) {
        Some(n) => if n == 0 {
            Err(
                plain_diag(
                    "error.log_level_out_of_range"@,
                    "--log-level: value 0 is out of range (1–4), ignored"@,
                ),
            )
        } else if n > 4 {
            Ok(4)
        } else {
            Ok(n)
        },
        None => Err(
            diag_with(
                "error.log_level_not_a_number"@,
                "--log-level: expected a number 1–4, got '{value}', ignored"@,
                "value"@,
                value,
            ),
        ),
    }
}

/// What the arguments from position `i` on ask for, after `so_far`. The value
/// of a flag is the next argument, unless that is a flag or a URL; a later flag
/// wins over an earlier one.
pub open spec fn logging_from(
    args: Seq<Seq<char>>,
    i: int,
    so_far: LoggingRequest,
) -> LoggingRequest
    decreases args.len() - i,
{
    if i < 0 || i >= args.len() {
        so_far
    } else if args[i] == "--log-level"@ {
        if has_value(args, i) {
            match log_level(args[i + 1]) {
                Ok(n) => logging_from(
                    args,
                    i + 2,
                    LoggingRequest { level: Some(n), ..so_far },
                ),
                Err(d) => logging_from(
                    args,
                    i + 2,
                    LoggingRequest { diags: so_far.diags.push(d), ..so_far },
                ),
            }
        } else {
            let d = plain_diag(
                "error.log_level_needs_value"@,
                "--log-level: requires a value (1=warn, 2=info, 3=debug, 4=trace)"@,
            );
            logging_from(args, i + 1, LoggingRequest { diags: so_far.diags.push(d), ..so_far })
        }
    } else if args[i] == "--log-file"@ {
        if has_value(args, i) {
            logging_from(args, i + 2, LoggingRequest { file: Some(args[i + 1]), ..so_far })
        } else {
            let d = plain_diag(
                "error.log_file_needs_value"@,
                "--log-file: requires a path (e.g. --log-file freemkv.log)"@,
            );
            logging_from(args, i + 1, LoggingRequest { diags: so_far.diags.push(d), ..so_far })
        }
    } else {
        logging_from(args, i + 1, so_far)
    }
}

/// What the logging flags among `args` ask for.
pub open spec fn logging_request(args: Seq<Seq<char>>) -> LoggingRequest {
    logging_from(args, 0, LoggingRequest { level: None, file: None, diags: Seq::empty() })
}

/// An optional byte as a number.
pub open spec fn opt_nat(o: Option<u8>) -> Option<nat> {
    match o {
        Some(n) => Some(n as nat),
        None => None,
    }
}

/// The text of an optional string.
pub open spec fn opt_text(o: Option<String>) -> Option<Seq<char>> {
    match o {
        Some(s) => Some(s@),
        None => None,
    }
}

/// The two logging flags, read out of the whole argument list: the level, the
/// file and what there is to complain about.
pub fn parse_logging_flags(args: &[String]) -> (r: (
    Option<u8>,
    Option<String>,
    Vec<PendingDiag>,
))
    ensures
        (LoggingRequest { level: opt_nat(r.0), file: opt_text(r.1), diags: diags(r.2@) })
            == logging_request(texts(args@)),
{
    let mut level: Option<u8> = None;
    let mut file: Option<String> = None;
    let mut complaints: Vec<PendingDiag> = Vec::new();
    let ghost all = texts(args@);
    let mut i: usize = 0;
    assert(diags(complaints@) =~= Seq::empty());
    while i < args.len()
        invariant
            all == texts(args@),
            all.len() == args@.len(),
            i <= args@.len(),
            logging_request(all) == logging_from(
                all,
                i as int,
                (LoggingRequest {
                    level: opt_nat(level),
                    file: opt_text(file),
                    diags: diags(complaints@),
                }),
            ),
        decreases args@.len() - i,
    {
        assert(all[i as int] == args@[i as int]@);
        let valued = has_value_at(args, i);
        if same_text(args[i].as_str(), "--log-level") {
            if valued {
                assert(all[i + 1] == args@[i + 1]@);
                match parse_unsigned(args[i + 1].as_str(), 255) {
                    Some(n) => {
                        if n == 0 {
                            complain(
                                &mut complaints,
                                PendingDiag::new(
                                    "error.log_level_out_of_range",
                                    "--log-level: value 0 is out of range (1–4), ignored",
                                ),
                            );
                        } else if n > 4 {
                            level = Some(4);
                        } else {
                            level = Some(n as u8);
                        }
                    },
                    None => {
                        let d = PendingDiag::new(
                            "error.log_level_not_a_number",
                            "--log-level: expected a number 1–4, got '{value}', ignored",
                        ).with("value", args[i + 1].as_str());
                        assert(d@.args =~= seq![("value"@, args@[i + 1]@)]);
                        complain(&mut complaints, d);
                    },
                }
                i = i + 2;
            } else {
                complain(
                    &mut complaints,
                    PendingDiag::new(
                        "error.log_level_needs_value",
                        "--log-level: requires a value (1=warn, 2=info, 3=debug, 4=trace)",
                    ),
                );
                i = i + 1;
            }
        } else if same_text(args[i].as_str(), "--log-file") {
            if valued {
                assert(all[i + 1] == args@[i + 1]@);
                file = Some(args[i + 1].clone());
                i = i + 2;
            } else {
                complain(
                    &mut complaints,
                    PendingDiag::new(
                        "error.log_file_needs_value",
                        "--log-file: requires a path (e.g. --log-file freemkv.log)",
                    ),
                );
                i = i + 1;
            }
        } else {
            i = i + 1;
        }
    }
    (level, file, complaints)
}

/// What the arguments from position `i` on do to a logging request never gives
/// it a file that is a flag or a URL, nor a level outside one to four.
proof fn lemma_logging_values(args: Seq<Seq<char>>, i: int, so_far: LoggingRequest)
    requires
        so_far.file matches Some(f) ==> !is_flag(f) && !names_stream(f),
        so_far.level matches Some(n) ==> 1 <= n <= 4,
    ensures
        logging_from(args, i, so_far).file matches Some(f) ==> !is_flag(f) && !names_stream(f),
        logging_from(args, i, so_far).level matches Some(n) ==> 1 <= n <= 4,
    decreases args.len() - i,
{
    if i < 0 || i >= args.len() {
    } else if args[i] == "--log-level"@ {
        if has_value(args, i) {
            match log_level(args[i + 1]) {
                Ok(n) => {
                    lemma_logging_values(
                        args,
                        i + 2,
                        LoggingRequest { level: Some(n), ..so_far },
                    );
                },
                Err(d) => {
                    lemma_logging_values(
                        args,
                        i + 2,
                        LoggingRequest { diags: so_far.diags.push(d), ..so_far },
                    );
                },
            }
        } else {
            let d = plain_diag(
                "error.log_level_needs_value"@,
                "--log-level: requires a value (1=warn, 2=info, 3=debug, 4=trace)"@,
            );
            lemma_logging_values(
                args,
                i + 1,
                LoggingRequest { diags: so_far.diags.push(d), ..so_far },
            );
        }
    } else if args[i] == "--log-file"@ {
        if has_value(args, i) {
            lemma_logging_values(
                args,
                i + 2,
                LoggingRequest { file: Some(args[i + 1]), ..so_far },
            );
        } else {
            let d = plain_diag(
                "error.log_file_needs_value"@,
                "--log-file: requires a path (e.g. --log-file freemkv.log)"@,
            );
            lemma_logging_values(
                args,
                i + 1,
                LoggingRequest { diags: so_far.diags.push(d), ..so_far },
            );
        }
    } else {
        lemma_logging_values(args, i + 1, so_far);
    }
}

/// Law: whatever the arguments, a logging flag takes neither a flag nor a URL
/// for its value, and the level is one of the four that exist.
pub proof fn law_logging_values_are_values(args: Seq<Seq<char>>)
    ensures
        logging_request(args).file matches Some(f) ==> !is_flag(f) && !names_stream(f),
        logging_request(args).level matches Some(n) ==> 1 <= n <= 4,
{
    lemma_logging_values(
        args,
        0,
        LoggingRequest { level: None, file: None, diags: Seq::empty() },
    );
}

/// The file that a diagnostic log goes to where none is named.
pub const DEFAULT_LOG_FILE: &'static str = "log.txt";

/// Where a diagnostic log of this name goes: the directory and the file. A
/// bare name goes into the current directory; a path without a file has no
/// place.
pub open spec fn log_place(path: Seq<char>) -> Option<(Seq<char>, Seq<char>)> {
    match path_file_name(path) {
        Some(name) => Some(
            (
                if path_parent(path).len() == 0 {
                    seq!['.']
                } else {
                    path_parent(path)
                },
                name,
            ),
        ),
        None => None,
    }
}

/// Splits the value of `--log-file` into a directory and a file name.
pub fn split_log_path(path: &str) -> (r: Option<(String, String)>)
    ensures
        match r {
            Some((dir, name)) => log_place(path@) == Some((dir@, name@)),
            None => log_place(path@) is None,
        },
{
    match file_name(path) {
        Some(name) => {
            let dir = parent(path);
            if dir.as_str().is_empty() {
                let mut here = String::new();
                here.push('.');
                assert(here@ =~= seq!['.']);
                Some((here, name))
            } else {
                Some((dir, name))
            }
        },
        None => None,
    }
}

/// What the command line and the environment ask of the diagnostic log.
pub enum LogSetup {
    /// Nobody asked: nothing is installed.
    Off,
    /// A log with the filter that the environment gives, or with `filter`.
    File { env_filter: bool, filter: String, dir: String, name: String },
    /// The path has no file name: a complaint, and no log.
    BadPath(PendingDiag),
}

/// What a [`LogSetup`] says.
pub enum LogPlan {
    Off,
    File { env_filter: bool, filter: Seq<char>, dir: Seq<char>, name: Seq<char> },
    BadPath(Diag),
}

impl View for LogSetup {
    type V = LogPlan;

    open spec fn view(&self) -> LogPlan {
        match *self {
            LogSetup::Off => LogPlan::Off,
            LogSetup::File { env_filter, filter, dir, name } => LogPlan::File {
                env_filter,
                filter: filter@,
                dir: dir@,
                name: name@,
            },
            LogSetup::BadPath(d) => LogPlan::BadPath(d@),
        }
    }
}

/// The name of a log level; the file alone asks for the third.
pub open spec fn level_name(level: Option<nat>) -> Seq<char> {
    match level {
        Some(n) => if n == 1 {
            "warn"@
        } else if n == 2 {
            "info"@
        } else if n == 3 {
            "debug"@
        } else {
            "trace"@
        },
        None => "debug"@,
    }
}

/// The filter that lets this crate and the disc library log at `level`.
pub open spec fn filter_for(level: Seq<char>) -> Seq<char> {
    "error,freemkv="@ + level + ",libfreemkv="@ + level
}

/// What is to be done about the diagnostic log.
pub open spec fn log_plan(level: Option<nat>, file: Option<Seq<char>>, rust_log: bool) -> LogPlan {
    if level is None && file is None && !rust_log {
        LogPlan::Off
    } else {
        let path = match file {
            Some(p) => p,
            None => DEFAULT_LOG_FILE@,
        };
        match log_place(path) {
            Some((dir, name)) => LogPlan::File {
                env_filter: rust_log,
                filter: if rust_log {
                    Seq::empty()
                } else {
                    filter_for(level_name(level))
                },
                dir,
                name,
            },
            None => LogPlan::BadPath(
                diag_with(
                    "error.log_file_invalid_path"@,
                    "--log-file: invalid path '{path}' — no diagnostic log written"@,
                    "path"@,
                    path,
                ),
            ),
        }
    }
}

/// A log filter at the level of that name.
pub fn log_filter(level: &str) -> (r: String)
    ensures
        r@ == filter_for(level@),
{
    let mut f = "error,freemkv=".to_owned();
    f.append(level);
    f.append(",libfreemkv=");
    f.append(level);
    f
}

/// Decides about the diagnostic log. `rust_log` says that the environment sets
/// a filter, which then wins over the level.
pub fn plan_logging(level: Option<u8>, file: Option<String>, rust_log: bool) -> (r: LogSetup)
    ensures
        r@ == log_plan(opt_nat(level), opt_text(file), rust_log),
{
    if level.is_none() && file.is_none() && !rust_log {
        return LogSetup::Off;
    }
    let filter = if rust_log {
        String::new()
    } else {
        let n: u8 = match level {
            Some(n) => n,
            None => 3,
        };
        log_filter(
            if n == 1 {
                "warn"
            } else if n == 2 {
                "info"
            } else if n == 3 {
                "debug"
            } else {
                "trace"
            },
        )
    };
    let path = match file {
        Some(p) => p,
        None => DEFAULT_LOG_FILE.to_owned(),
    };
    match split_log_path(path.as_str()) {
        Some((dir, name)) => LogSetup::File { env_filter: rust_log, filter, dir, name },
        None => {
            let d = PendingDiag::new(
                "error.log_file_invalid_path",
                "--log-file: invalid path '{path}' — no diagnostic log written",
            ).with("path", path.as_str());
            assert(d@.args =~= seq![("path"@, path@)]);
            LogSetup::BadPath(d)
        },
    }
}

/// What is left of the arguments once the language is taken out of them.
pub struct LanguageRequest {
    pub rest: Seq<Seq<char>>,
    pub language: Option<Seq<char>>,
    pub diags: Seq<Diag>,
}

/// `s` starts with a hyphen.
pub open spec fn dashed(s: Seq<char>) -> bool {
    s.len() > 0 && s[0] == '-'
}

/// The two spellings of the language flag.
pub open spec fn is_language_flag(s: Seq<char>) -> bool {
    s == "--language"@ || s == "--lang"@
}

/// The argument after position `i` can be a language code.
pub open spec fn has_language(args: Seq<Seq<char>>, i: int) -> bool {
    i + 1 < args.len() && !names_stream(args[i + 1]) && !dashed(args[i + 1])
}

/// The arguments from position `i` on, read after `so_far`.
pub open spec fn language_from(
    args: Seq<Seq<char>>,
    i: int,
    so_far: LanguageRequest,
) -> LanguageRequest
    decreases args.len() - i,
{
    if i < 0 || i >= args.len() {
        so_far
    } else if is_language_flag(args[i]) {
        if has_language(args, i) {
            language_from(args, i + 2, LanguageRequest { language: Some(args[i + 1]), ..so_far })
        } else {
            let d = diag_with(
                "error.language_needs_value"@,
                "{flag}: requires a language code (e.g. --language de)"@,
                "flag"@,
                args[i],
            );
            language_from(args, i + 1, LanguageRequest { diags: so_far.diags.push(d), ..so_far })
        }
    } else {
        language_from(args, i + 1, LanguageRequest { rest: so_far.rest.push(args[i]), ..so_far })
    }
}

/// The arguments with the language flag read out of them.
pub open spec fn language_request(args: Seq<Seq<char>>) -> LanguageRequest {
    language_from(
        args,
        0,
        LanguageRequest { rest: Seq::empty(), language: None, diags: Seq::empty() },
    )
}

/// Whether `s` starts with a hyphen.
fn is_dashed(s: &str) -> (r: bool)
    ensures
        r == dashed(s@),
{
    let v = chars_of(s);
    v.len() > 0 && v[0] == '-'
}

/// Takes the language flag and its value out of the arguments. A URL or a flag
/// behind it is no value, and stays.
pub fn strip_language_flag(args: &[String]) -> (r: (
    Vec<String>,
    Option<String>,
    Vec<PendingDiag>,
))
    ensures
        (LanguageRequest { rest: texts(r.0@), language: opt_text(r.1), diags: diags(r.2@) })
            == language_request(texts(args@)),
{
    let mut rest: Vec<String> = Vec::new();
    let mut language: Option<String> = None;
    let mut complaints: Vec<PendingDiag> = Vec::new();
    let ghost all = texts(args@);
    let mut i: usize = 0;
    assert(diags(complaints@) =~= Seq::empty());
    assert(texts(rest@) =~= Seq::empty());
    while i < args.len()
        invariant
            all == texts(args@),
            all.len() == args@.len(),
            i <= args@.len(),
            language_request(all) == language_from(
                all,
                i as int,
                (LanguageRequest {
                    rest: texts(rest@),
                    language: opt_text(language),
                    diags: diags(complaints@),
                }),
            ),
        decreases args@.len() - i,
    {
        assert(all[i as int] == args@[i as int]@);
        let arg = args[i].as_str();
        if same_text(arg, "--language") || same_text(arg, "--lang") {
            let valued = if i + 1 < args.len() {
                assert(all[i + 1] == args@[i + 1]@);
                !is_url(args[i + 1].as_str()) && !is_dashed(args[i + 1].as_str())
            } else {
                false
            };
            if valued {
                language = Some(args[i + 1].clone());
                i = i + 2;
            } else {
                let d = PendingDiag::new(
                    "error.language_needs_value",
                    "{flag}: requires a language code (e.g. --language de)",
                ).with("flag", arg);
                assert(d@.args =~= seq![("flag"@, arg@)]);
                complain(&mut complaints, d);
                i = i + 1;
            }
        } else {
            let s = args[i].clone();
            proof {
                lemma_texts_push(rest@, s);
            }
            rest.push(s);
            i = i + 1;
        }
    }
    (rest, language, complaints)
}

proof fn lemma_language_values(args: Seq<Seq<char>>, i: int, so_far: LanguageRequest)
    requires
        so_far.language matches Some(l) ==> !names_stream(l) && !dashed(l),
        forall|j: int| 0 <= j < so_far.rest.len() ==> !is_language_flag(#[trigger] so_far.rest[j]),
    ensures
        language_from(args, i, so_far).language matches Some(l) ==> !names_stream(l) && !dashed(l),
        forall|j: int|
            0 <= j < language_from(args, i, so_far).rest.len() ==> !is_language_flag(
                #[trigger] language_from(args, i, so_far).rest[j],
            ),
    decreases args.len() - i,
{
    if i < 0 || i >= args.len() {
    } else if is_language_flag(args[i]) {
        if has_language(args, i) {
            lemma_language_values(
                args,
                i + 2,
                LanguageRequest { language: Some(args[i + 1]), ..so_far },
            );
        } else {
            let d = diag_with(
                "error.language_needs_value"@,
                "{flag}: requires a language code (e.g. --language de)"@,
                "flag"@,
                args[i],
            );
            lemma_language_values(
                args,
                i + 1,
                LanguageRequest { diags: so_far.diags.push(d), ..so_far },
            );
        }
    } else {
        lemma_language_values(
            args,
            i + 1,
            LanguageRequest { rest: so_far.rest.push(args[i]), ..so_far },
        );
    }
}

/// Law: whatever the arguments, the language is neither a URL nor a flag, and
/// no language flag is left for the parsers that come after.
pub proof fn law_language_is_no_url_or_flag(args: Seq<Seq<char>>)
    ensures
        language_request(args).language matches Some(l) ==> !names_stream(l) && !dashed(l),
        forall|j: int|
            0 <= j < language_request(args).rest.len() ==> !is_language_flag(
                #[trigger] language_request(args).rest[j],
            ),
{
    lemma_language_values(
        args,
        0,
        LanguageRequest { rest: Seq::empty(), language: None, diags: Seq::empty() },
    );
}

proof fn lemma_language_keeps_rest(args: Seq<Seq<char>>, i: int, so_far: LanguageRequest)
    requires
        0 <= i <= args.len(),
        forall|j: int| i <= j < args.len() ==> !is_language_flag(#[trigger] args[j]),
    ensures
        language_from(args, i, so_far) == (LanguageRequest {
            rest: so_far.rest + args.skip(i),
            ..so_far
        }),
    decreases args.len() - i,
{
    if i < args.len() {
        let next = LanguageRequest { rest: so_far.rest.push(args[i]), ..so_far };
        lemma_language_keeps_rest(args, i + 1, next);
        assert(next.rest + args.skip(i + 1) =~= so_far.rest + args.skip(i));
    } else {
        assert(so_far.rest + args.skip(i) =~= so_far.rest);
    }
}

/// Law: arguments without the language flag come through unchanged.
pub proof fn law_other_arguments_are_kept(args: Seq<Seq<char>>)
    requires
        forall|j: int| 0 <= j < args.len() ==> !is_language_flag(#[trigger] args[j]),
    ensures
        language_request(args) == (LanguageRequest {
            rest: args,
            language: None,
            diags: Seq::empty(),
        }),
{
    lemma_language_keeps_rest(
        args,
        0,
        LanguageRequest { rest: Seq::empty(), language: None, diags: Seq::empty() },
    );
    assert(Seq::<Seq<char>>::empty() + args.skip(0) =~= args);
}

/// The language that is set before anything is shown; `auto`, in either case,
/// leaves it to the environment.
pub fn language_override(language: Option<String>) -> (r: Option<String>)
    ensures
        opt_text(r) == match language {
            Some(l) => if lowered(l@) == lowered("auto"@) {
                None
            } else {
                Some(l@)
            },
            None => None,
        },
{
    match language {
        Some(l) => {
            if same_ignoring_case(l.as_str(), "auto") {
                None
            } else {
                Some(l)
            }
        },
        None => None,
    }
}

/// The flags that take the next argument for their value.
pub open spec fn is_value_flag(s: Seq<char>) -> bool {
    s == "-t"@ || s == "--title"@ || s == "-a"@ || s == "--audio"@ || s == "-s"@ || s
        == "--subtitles"@ || s == "--keydb"@ || s == "--key-url"@ || s == "--key-auth"@ || s
        == "--log-file"@ || s == "--log-level"@
}

/// Flags that are no longer accepted but did take a value.
pub open spec fn is_retired_value_flag(s: Seq<char>) -> bool {
    s == "-k"@ || s == "--device"@ || s == "-d"@
}

/// Whether `s` is a flag that takes the next argument for its value.
pub fn takes_value(s: &str) -> (r: bool)
    ensures
        r == is_value_flag(s@),
{
    same_text(s, "-t") || same_text(s, "--title") || same_text(s, "-a") || same_text(s, "--audio")
        || same_text(s, "-s") || same_text(s, "--subtitles") || same_text(s, "--keydb")
        || same_text(s, "--key-url") || same_text(s, "--key-auth") || same_text(s, "--log-file")
        || same_text(s, "--log-level")
}

/// Whether `s` is a flag that once took a value and is accepted no more.
pub fn took_value(s: &str) -> (r: bool)
    ensures
        r == is_retired_value_flag(s@),
{
    same_text(s, "-k") || same_text(s, "--device") || same_text(s, "-d")
}

/// What the flag before an argument makes of it.
#[derive(Clone, Copy, PartialEq, Eq, Structural)]
pub enum Expect {
    /// Nothing: it speaks for itself.
    Positional,
    /// The value of a flag, unless it is a stream URL that got there by mistake.
    Value,
    /// The address of a key service, URL or not.
    KeyUrl,
}

/// What the argument behind `arg` is.
pub open spec fn expect_after(arg: Seq<char>) -> Expect {
    if dashed(arg) && (is_value_flag(arg) || is_retired_value_flag(arg)) {
        if arg == "--key-url"@ {
            Expect::KeyUrl
        } else {
            Expect::Value
        }
    } else {
        Expect::Positional
    }
}

/// The stream URLs among the arguments from position `i` on.
pub open spec fn urls_from(args: Seq<Seq<char>>, i: int, expect: Expect) -> Seq<Seq<char>>
    decreases args.len() - i,
{
    if i < 0 || i >= args.len() {
        Seq::empty()
    } else {
        match expect {
            Expect::KeyUrl => urls_from(args, i + 1, Expect::Positional),
            Expect::Value => if names_stream(args[i]) {
                seq![args[i]] + urls_from(args, i + 1, Expect::Positional)
            } else {
                urls_from(args, i + 1, Expect::Positional)
            },
            Expect::Positional => if dashed(args[i]) {
                urls_from(args, i + 1, expect_after(args[i]))
            } else {
                seq![args[i]] + urls_from(args, i + 1, Expect::Positional)
            },
        }
    }
}

/// The stream URLs among the arguments: what is neither a flag nor its value.
pub open spec fn urls_of(args: Seq<Seq<char>>) -> Seq<Seq<char>> {
    urls_from(args, 0, Expect::Positional)
}

/// The stream URLs among the arguments. One without a scheme counts too: it is
/// reported later as what it is, not dropped here.
pub fn collect_urls(args: &[String]) -> (r: Vec<String>)
    ensures
        texts(r@) == urls_of(texts(args@)),
{
    let mut urls: Vec<String> = Vec::new();
    let mut expect = Expect::Positional;
    let ghost all = texts(args@);
    assert(texts(urls@) + urls_of(all) =~= urls_of(all));
    for i in 0..args.len()
        invariant
            all == texts(args@),
            all.len() == args@.len(),
            urls_of(all) == texts(urls@) + urls_from(all, i as int, expect),
    {
        let arg = args[i].as_str();
        assert(all[i as int] == args@[i as int]@);
        let ghost before = texts(urls@);
        let take = match expect {
            Expect::KeyUrl => false,
            Expect::Value => is_url(arg),
            Expect::Positional => !is_dashed(arg),
        };
        let next = match expect {
            Expect::Positional => {
                if is_dashed(arg) && (takes_value(arg) || took_value(arg)) {
                    if same_text(arg, "--key-url") {
                        Expect::KeyUrl
                    } else {
                        Expect::Value
                    }
                } else {
                    Expect::Positional
                }
            },
            _ => Expect::Positional,
        };
        if take {
            let s = args[i].clone();
            proof {
                lemma_texts_push(urls@, s);
            }
            urls.push(s);
            assert(before + (seq![all[i as int]] + urls_from(all, i + 1, next)) =~= texts(urls@)
                + urls_from(all, i + 1, next));
        }
        expect = next;
    }
    assert(texts(urls@) + Seq::empty() =~= texts(urls@));
    urls
}

proof fn lemma_url_is_collected(args: Seq<Seq<char>>, i: int, expect: Expect, j: int)
    requires
        0 <= i <= j < args.len(),
        names_stream(args[j]),
        !dashed(args[j]),
        j > i ==> args[j - 1] != "--key-url"@,
        j == i ==> expect != Expect::KeyUrl,
    ensures
        urls_from(args, i, expect).contains(args[j]),
    decreases args.len() - i,
{
    let next = if expect == Expect::Positional {
        expect_after(args[i])
    } else {
        Expect::Positional
    };
    if i == j {
        assert(urls_from(args, i, expect)[0] == args[j]);
    } else {
        lemma_url_is_collected(args, i + 1, next, j);
        let tail = urls_from(args, i + 1, next);
        let k = choose|k: int| 0 <= k < tail.len() && tail[k] == args[j];
        if urls_from(args, i, expect) != tail {
            assert(urls_from(args, i, expect) == seq![args[i]] + tail);
            assert((seq![args[i]] + tail)[k + 1] == args[j]);
        }
    }
}

/// Law: no flag but `--key-url` swallows a stream URL: every argument that
/// names a stream is collected, wherever it stands.
pub proof fn law_no_stream_url_is_swallowed(args: Seq<Seq<char>>, j: int)
    requires
        0 <= j < args.len(),
        names_stream(args[j]),
        !dashed(args[j]),
        j > 0 ==> args[j - 1] != "--key-url"@,
    ensures
        urls_of(args).contains(args[j]),
{
    lemma_url_is_collected(args, 0, Expect::Positional, j);
}

/// Some argument asks for help.
pub open spec fn asks_help(args: Seq<Seq<char>>) -> bool {
    exists|i: int| 0 <= i < args.len() && (#[trigger] args[i] == "--help"@ || args[i] == "-h"@)
}

/// Whether the arguments of a command ask for its help.
pub fn wants_help(args: &[String]) -> (r: bool)
    ensures
        r == asks_help(texts(args@)),
{
    let ghost all = texts(args@);
    for i in 0..args.len()
        invariant
            all == texts(args@),
            all.len() == args@.len(),
            forall|j: int|
                0 <= j < i ==> !(#[trigger] all[j] == "--help"@ || all[j] == "-h"@),
    {
        assert(all[i as int] == args@[i as int]@);
        if same_text(args[i].as_str(), "--help") || same_text(args[i].as_str(), "-h") {
            return true;
        }
    }
    false
}

/// The value of the last `flag` among the arguments from position `i` on:
/// what stands behind it, or nothing where it stands last. Whatever is taken
/// for a value is not read as a flag.
pub open spec fn last_value(
    args: Seq<Seq<char>>,
    long: Seq<char>,
    short: Seq<char>,
    i: int,
    so_far: Option<Seq<char>>,
) -> Option<Seq<char>>
    decreases args.len() - i,
{
    if i < 0 || i >= args.len() {
        so_far
    } else if args[i] == long || args[i] == short {
        if i + 1 < args.len() {
            last_value(args, long, short, i + 2, Some(args[i + 1]))
        } else {
            None
        }
    } else {
        last_value(args, long, short, i + 1, so_far)
    }
}

/// The value of the last flag of either spelling.
pub fn last_value_of(args: &[String], long: &str, short: &str) -> (r: Option<String>)
    ensures
        opt_text(r) == last_value(texts(args@), long@, short@, 0, None),
{
    let ghost all = texts(args@);
    let mut value: Option<String> = None;
    let mut i: usize = 0;
    while i < args.len()
        invariant
            all == texts(args@),
            all.len() == args@.len(),
            last_value(all, long@, short@, 0, None) == last_value(
                all,
                long@,
                short@,
                i as int,
                opt_text(value),
            ),
        decreases args@.len() - i,
    {
        assert(all[i as int] == args@[i as int]@);
        if same_text(args[i].as_str(), long) || same_text(args[i].as_str(), short) {
            if i + 1 < args.len() {
                assert(all[i + 1] == args@[i + 1]@);
                value = Some(args[i + 1].clone());
                i = i + 2;
            } else {
                value = None;
                i = i + 1;
            }
        } else {
            i = i + 1;
        }
    }
    value
}

/// Where `update-keys` saves what it downloads: the value of `--keydb`, or the
/// `standard` place.
pub fn update_keys_dest(args: &[String], standard: &str) -> (r: String)
    ensures
        r@ == (match last_value(texts(args@), "--keydb"@, "--keydb"@, 0, None) {
            Some(p) => p,
            None => standard@,
        }),
{
    match last_value_of(args, "--keydb", "--keydb") {
        Some(p) => p,
        None => standard.to_owned(),
    }
}

/// Where `update-keys` downloads from, if the arguments say so.
pub fn update_keys_url(args: &[String]) -> (r: Option<String>)
    ensures
        opt_text(r) == last_value(texts(args@), "--url"@, "-u"@, 0, None),
{
    last_value_of(args, "--url", "-u")
}

/// What a command line asks for.
pub enum Command {
    /// Nothing: the usage, as a failure.
    Bare,
    HelpInfo,
    HelpUpdateKeys,
    Info(Vec<String>),
    UpdateKeys(Vec<String>),
    Version,
    Usage,
    /// Help on a command that does not exist.
    UnknownHelp(String),
    /// From one stream to another, with all the arguments.
    Rip(String, String, Vec<String>),
    /// No way to tell.
    Hint,
}

/// What a [`Command`] says.
pub enum CommandText {
    Bare,
    HelpInfo,
    HelpUpdateKeys,
    Info(Seq<Seq<char>>),
    UpdateKeys(Seq<Seq<char>>),
    Version,
    Usage,
    UnknownHelp(Seq<char>),
    Rip(Seq<char>, Seq<char>, Seq<Seq<char>>),
    Hint,
}

impl View for Command {
    type V = CommandText;

    open spec fn view(&self) -> CommandText {
        match *self {
            Command::Bare => CommandText::Bare,
            Command::HelpInfo => CommandText::HelpInfo,
            Command::HelpUpdateKeys => CommandText::HelpUpdateKeys,
            Command::Info(a) => CommandText::Info(texts(a@)),
            Command::UpdateKeys(a) => CommandText::UpdateKeys(texts(a@)),
            Command::Version => CommandText::Version,
            Command::Usage => CommandText::Usage,
            Command::UnknownHelp(c) => CommandText::UnknownHelp(c@),
            Command::Rip(s, d, a) => CommandText::Rip(s@, d@, texts(a@)),
            Command::Hint => CommandText::Hint,
        }
    }
}

/// `args` without those that equal `x`.
pub open spec fn all_but(args: Seq<Seq<char>>, x: Seq<char>) -> Seq<Seq<char>>
    decreases args.len(),
{
    if args.len() == 0 {
        args
    } else if args.last() == x {
        all_but(args.drop_last(), x)
    } else {
        all_but(args.drop_last(), x).push(args.last())
    }
}

/// What `help` shows for the word behind it.
pub open spec fn help_on(args: Seq<Seq<char>>) -> CommandText {
    if args.len() < 3 || args[2] == "version"@ || args[2] == "help"@ {
        CommandText::Usage
    } else if args[2] == "info"@ {
        CommandText::HelpInfo
    } else if args[2] == "update-keys"@ {
        CommandText::HelpUpdateKeys
    } else {
        CommandText::UnknownHelp(args[2])
    }
}

/// What a command line without a command word asks for: with two URLs, from
/// one to the other; with one, to show what is there.
pub open spec fn by_urls(args: Seq<Seq<char>>) -> CommandText {
    let urls = urls_of(args);
    if urls.len() == 2 {
        CommandText::Rip(urls[0], urls[1], args)
    } else if urls.len() == 1 {
        CommandText::Info(seq![urls[0]] + all_but(args, urls[0]))
    } else {
        CommandText::Hint
    }
}

/// What the command line `args` asks for; the first argument is the program.
pub open spec fn asked(args: Seq<Seq<char>>) -> CommandText {
    if args.len() < 2 {
        CommandText::Bare
    } else {
        let word = args[1];
        let rest = args.skip(2);
        if word == "info"@ {
            if asks_help(rest) {
                CommandText::HelpInfo
            } else {
                CommandText::Info(rest)
            }
        } else if word == "update-keys"@ {
            if asks_help(rest) {
                CommandText::HelpUpdateKeys
            } else {
                CommandText::UpdateKeys(rest)
            }
        } else if word == "version"@ || word == "--version"@ || word == "-V"@ {
            CommandText::Version
        } else if word == "help"@ || word == "--help"@ || word == "-h"@ {
            help_on(args)
        } else {
            by_urls(args.skip(1))
        }
    }
}

/// The arguments without those that equal `x`.
fn without(args: &Vec<String>, x: &str) -> (r: Vec<String>)
    ensures
        texts(r@) == all_but(texts(args@), x@),
{
    let mut r: Vec<String> = Vec::new();
    let ghost all = texts(args@);
    assert(texts(r@) =~= all_but(all.take(0), x@));
    for i in 0..args.len()
        invariant
            all == texts(args@),
            all.len() == args@.len(),
            texts(r@) == all_but(all.take(i as int), x@),
    {
        assert(all.take(i + 1).drop_last() =~= all.take(i as int));
        assert(all[i as int] == args@[i as int]@);
        if !same_text(args[i].as_str(), x) {
            let s = args[i].clone();
            proof {
                lemma_texts_push(r@, s);
            }
            r.push(s);
        }
    }
    assert(all.take(args@.len() as int) =~= all);
    r
}

/// Decides what a command line asks for.
pub fn dispatch(args: &[String]) -> (r: Command)
    ensures
        r@ == asked(texts(args@)),
{
    if args.len() < 2 {
        return Command::Bare;
    }
    let ghost all = texts(args@);
    assert(all[1] == args@[1]@);
    let word = args[1].as_str();
    let rest = copy_from(args, 2);
    if same_text(word, "info") {
        if wants_help(rest.as_slice()) {
            Command::HelpInfo
        } else {
            Command::Info(rest)
        }
    } else if same_text(word, "update-keys") {
        if wants_help(rest.as_slice()) {
            Command::HelpUpdateKeys
        } else {
            Command::UpdateKeys(rest)
        }
    } else if same_text(word, "version") || same_text(word, "--version") || same_text(word, "-V") {
        Command::Version
    } else if same_text(word, "help") || same_text(word, "--help") || same_text(word, "-h") {
        if args.len() < 3 {
            return Command::Usage;
        }
        assert(all[2] == args@[2]@);
        let on = args[2].as_str();
        if same_text(on, "version") || same_text(on, "help") {
            Command::Usage
        } else if same_text(on, "info") {
            Command::HelpInfo
        } else if same_text(on, "update-keys") {
            Command::HelpUpdateKeys
        } else {
            Command::UnknownHelp(args[2].clone())
        }
    } else {
        let flags = copy_from(args, 1);
        let urls = collect_urls(flags.as_slice());
        let ghost found = texts(urls@);
        if urls.len() == 2 {
            assert(found[0] == urls@[0]@ && found[1] == urls@[1]@);
            Command::Rip(urls[0].clone(), urls[1].clone(), flags)
        } else if urls.len() == 1 {
            assert(found[0] == urls@[0]@);
            let mut info: Vec<String> = Vec::new();
            let first = urls[0].clone();
            proof {
                lemma_texts_push(info@, first);
            }
            info.push(first);
            let mut others = without(&flags, urls[0].as_str());
            let ghost tail = texts(others@);
            info.append(&mut others);
            assert(texts(info@) =~= seq![found[0]] + tail);
            Command::Info(info)
        } else {
            Command::Hint
        }
    }
}

/// The code that the program ends with when it only had to print something.
pub fn exit_code(c: &Command) -> (code: i32)
    ensures
        code == (match c@ {
            CommandText::Bare | CommandText::UnknownHelp(_) => 2int,
            CommandText::Hint => 1,
            _ => 0,
        }),
{
    match c {
        Command::Bare => 2,
        Command::UnknownHelp(_) => 2,
        Command::Hint => 1,
        _ => 0,
    }
}

/// One line of a help page.
#[derive(Clone, Copy)]
pub enum HelpLine {
    /// The name and version of the program.
    Program,
    /// An empty line.
    Blank,
    /// The text under a key.
    Text(&'static str),
    /// The text under a key, or an English one where there is none.
    TextOr(&'static str, &'static str),
}

impl HelpLine {
    /// The line in the language of the catalogue.
    pub open spec fn shown(self, c: Seq<(Seq<char>, Seq<char>)>, version: Seq<char>) -> Seq<char> {
        match self {
            HelpLine::Program => "freemkv "@ + version,
            HelpLine::Blank => Seq::empty(),
            HelpLine::Text(k) => text_of(c, k@),
            HelpLine::TextOr(k, e) => text_or(c, k@, e@),
        }
    }

    /// The line in the language of the catalogue.
    pub fn show(&self, c: &Catalog, version: &str) -> (r: String)
        ensures
            r@ == self.shown(c@, version@),
    {
        match *self {
            HelpLine::Program => {
                let mut s = "freemkv ".to_owned();
                s.append(version);
                s
            },
            HelpLine::Blank => String::new(),
            HelpLine::Text(k) => c.get(k),
            HelpLine::TextOr(k, e) => c.get_or(k, e),
        }
    }
}

/// A help page in the language of the catalogue.
pub fn help_lines(page: &Vec<HelpLine>, c: &Catalog, version: &str) -> (r: Vec<String>)
    ensures
        texts(r@) == page@.map_values(|l: HelpLine| l.shown(c@, version@)),
{
    let mut r: Vec<String> = Vec::new();
    let ghost wanted = page@.map_values(|l: HelpLine| l.shown(c@, version@));
    for i in 0..page.len()
        invariant
            wanted == page@.map_values(|l: HelpLine| l.shown(c@, version@)),
            texts(r@) == wanted.take(i as int),
    {
        push_text(&mut r, page[i].show(c, version));
        assert(texts(r@) =~= wanted.take(i + 1));
    }
    assert(wanted.take(page@.len() as int) =~= wanted);
    r
}

/// The lines of the usage: every command, every kind of URL, examples and flags.
pub open spec fn usage_page() -> Seq<HelpLine> {
    seq![
        HelpLine::Program,
        HelpLine::Blank,
        HelpLine::Text("usage.synopsis_1"),
        HelpLine::Text("usage.synopsis_2"),
        HelpLine::Text("usage.synopsis_4"),
        HelpLine::Blank,
        HelpLine::Text("usage.subcommands_header"),
        HelpLine::Text("usage.subcmd.info"),
        HelpLine::Text("usage.subcmd.update_keys"),
        HelpLine::Text("usage.subcmd.version"),
        HelpLine::Text("usage.subcmd.help"),
        HelpLine::Blank,
        HelpLine::Text("usage.subcommands_note"),
        HelpLine::Blank,
        HelpLine::Text("usage.urls_header"),
        HelpLine::Text("usage.url.disc_auto"),
        HelpLine::Text("usage.url.disc_linux"),
        HelpLine::Text("usage.url.disc_windows"),
        HelpLine::Text("usage.url.mkv"),
        HelpLine::Text("usage.url.m2ts"),
        HelpLine::TextOr("usage.url.mp4", "  mp4://path.mp4           MP4 file"),
        HelpLine::Text("usage.url.iso"),
        HelpLine::TextOr("usage.url.dir", "  dir://folder/            Decrypted file tree in a folder"),
        HelpLine::Text("usage.url.network"),
        HelpLine::Text("usage.url.stdio"),
        HelpLine::Text("usage.url.null"),
        HelpLine::Blank,
        HelpLine::TextOr("usage.tracks_header", "Track outputs (destination only):"),
        HelpLine::TextOr("usage.url.demux", "  demux://folder/          Every track as a separate file"),
        HelpLine::TextOr("usage.url.video", "  video://folder/          Video tracks only"),
        HelpLine::TextOr("usage.url.audio", "  audio://folder/          Audio tracks only"),
        HelpLine::TextOr("usage.url.sub", "  sub://folder/            Subtitle tracks only"),
        HelpLine::TextOr("usage.url.chapters", "  chapters://file.xml      Chapter list (.xml, .txt/.ogm, .vtt)"),
        HelpLine::TextOr("usage.url.json", "  json://file.json         Title structure as JSON"),
        HelpLine::TextOr("usage.url.fvi", "  fvi://file.fvi           Per-frame video index"),
        HelpLine::Blank,
        HelpLine::Text("usage.url.scheme_note"),
        HelpLine::Text("usage.url.path_note"),
        HelpLine::Blank,
        HelpLine::Text("usage.examples_header"),
        HelpLine::Text("usage.ex.rip_mkv"),
        HelpLine::Text("usage.ex.rip_m2ts"),
        HelpLine::Text("usage.ex.rip_drive"),
        HelpLine::Text("usage.ex.rip_title"),
        HelpLine::Text("usage.ex.rip_titles"),
        HelpLine::Text("usage.ex.rip_iso"),
        HelpLine::Text("usage.ex.rip_iso_raw"),
        HelpLine::Text("usage.ex.rip_iso_mp"),
        HelpLine::Text("usage.ex.iso_to_mkv"),
        HelpLine::Text("usage.ex.network"),
        HelpLine::Text("usage.ex.network_recv"),
        HelpLine::Text("usage.ex.stdio"),
        HelpLine::Text("usage.ex.benchmark"),
        HelpLine::Text("usage.ex.info"),
        HelpLine::Blank,
        HelpLine::Text("usage.flags_header"),
        HelpLine::Text("usage.flag.title"),
        HelpLine::Text("usage.flag.audio"),
        HelpLine::Text("usage.flag.subtitles"),
        HelpLine::Text("usage.flag.keydb"),
        HelpLine::Text("usage.flag.key_url_1"),
        HelpLine::Text("usage.flag.key_url_2"),
        HelpLine::Text("usage.flag.key_url_3"),
        HelpLine::Text("usage.flag.key_auth"),
        HelpLine::Text("usage.flag.log_level_1"),
        HelpLine::Text("usage.flag.log_level_2"),
        HelpLine::Text("usage.flag.log_level_3"),
        HelpLine::Text("usage.flag.log_file"),
        HelpLine::Text("usage.flag.quiet"),
        HelpLine::TextOr("usage.flag.language", "      --language CODE Interface language (also --lang): a code like de or pt-BR, or auto."),
        HelpLine::Text("usage.flag.raw"),
        HelpLine::Text("usage.flag.multipass"),
        HelpLine::Text("usage.flag.force"),
        HelpLine::Text("usage.flag.share"),
        HelpLine::Text("usage.flag.mask"),
    ]
}

/// The lines of the usage.
pub fn usage() -> (r: Vec<HelpLine>)
    ensures
        r@ == usage_page(),
{
    let r = vec![
        HelpLine::Program,
        HelpLine::Blank,
        HelpLine::Text("usage.synopsis_1"),
        HelpLine::Text("usage.synopsis_2"),
        HelpLine::Text("usage.synopsis_4"),
        HelpLine::Blank,
        HelpLine::Text("usage.subcommands_header"),
        HelpLine::Text("usage.subcmd.info"),
        HelpLine::Text("usage.subcmd.update_keys"),
        HelpLine::Text("usage.subcmd.version"),
        HelpLine::Text("usage.subcmd.help"),
        HelpLine::Blank,
        HelpLine::Text("usage.subcommands_note"),
        HelpLine::Blank,
        HelpLine::Text("usage.urls_header"),
        HelpLine::Text("usage.url.disc_auto"),
        HelpLine::Text("usage.url.disc_linux"),
        HelpLine::Text("usage.url.disc_windows"),
        HelpLine::Text("usage.url.mkv"),
        HelpLine::Text("usage.url.m2ts"),
        HelpLine::TextOr("usage.url.mp4", "  mp4://path.mp4           MP4 file"),
        HelpLine::Text("usage.url.iso"),
        HelpLine::TextOr("usage.url.dir", "  dir://folder/            Decrypted file tree in a folder"),
        HelpLine::Text("usage.url.network"),
        HelpLine::Text("usage.url.stdio"),
        HelpLine::Text("usage.url.null"),
        HelpLine::Blank,
        HelpLine::TextOr("usage.tracks_header", "Track outputs (destination only):"),
        HelpLine::TextOr("usage.url.demux", "  demux://folder/          Every track as a separate file"),
        HelpLine::TextOr("usage.url.video", "  video://folder/          Video tracks only"),
        HelpLine::TextOr("usage.url.audio", "  audio://folder/          Audio tracks only"),
        HelpLine::TextOr("usage.url.sub", "  sub://folder/            Subtitle tracks only"),
        HelpLine::TextOr("usage.url.chapters", "  chapters://file.xml      Chapter list (.xml, .txt/.ogm, .vtt)"),
        HelpLine::TextOr("usage.url.json", "  json://file.json         Title structure as JSON"),
        HelpLine::TextOr("usage.url.fvi", "  fvi://file.fvi           Per-frame video index"),
        HelpLine::Blank,
        HelpLine::Text("usage.url.scheme_note"),
        HelpLine::Text("usage.url.path_note"),
        HelpLine::Blank,
        HelpLine::Text("usage.examples_header"),
        HelpLine::Text("usage.ex.rip_mkv"),
        HelpLine::Text("usage.ex.rip_m2ts"),
        HelpLine::Text("usage.ex.rip_drive"),
        HelpLine::Text("usage.ex.rip_title"),
        HelpLine::Text("usage.ex.rip_titles"),
        HelpLine::Text("usage.ex.rip_iso"),
        HelpLine::Text("usage.ex.rip_iso_raw"),
        HelpLine::Text("usage.ex.rip_iso_mp"),
        HelpLine::Text("usage.ex.iso_to_mkv"),
        HelpLine::Text("usage.ex.network"),
        HelpLine::Text("usage.ex.network_recv"),
        HelpLine::Text("usage.ex.stdio"),
        HelpLine::Text("usage.ex.benchmark"),
        HelpLine::Text("usage.ex.info"),
        HelpLine::Blank,
        HelpLine::Text("usage.flags_header"),
        HelpLine::Text("usage.flag.title"),
        HelpLine::Text("usage.flag.audio"),
        HelpLine::Text("usage.flag.subtitles"),
        HelpLine::Text("usage.flag.keydb"),
        HelpLine::Text("usage.flag.key_url_1"),
        HelpLine::Text("usage.flag.key_url_2"),
        HelpLine::Text("usage.flag.key_url_3"),
        HelpLine::Text("usage.flag.key_auth"),
        HelpLine::Text("usage.flag.log_level_1"),
        HelpLine::Text("usage.flag.log_level_2"),
        HelpLine::Text("usage.flag.log_level_3"),
        HelpLine::Text("usage.flag.log_file"),
        HelpLine::Text("usage.flag.quiet"),
        HelpLine::TextOr("usage.flag.language", "      --language CODE Interface language (also --lang): a code like de or pt-BR, or auto."),
        HelpLine::Text("usage.flag.raw"),
        HelpLine::Text("usage.flag.multipass"),
        HelpLine::Text("usage.flag.force"),
        HelpLine::Text("usage.flag.share"),
        HelpLine::Text("usage.flag.mask"),
    ];
    assert(r@ =~= usage_page());
    r
}

/// The lines of the help on `info`.
pub open spec fn help_info_page() -> Seq<HelpLine> {
    seq![
        HelpLine::Program,
        HelpLine::Blank,
        HelpLine::Text("help.info.usage"),
        HelpLine::Blank,
        HelpLine::Text("help.info.desc"),
        HelpLine::Blank,
        HelpLine::Text("help.info.examples_header"),
        HelpLine::Text("help.info.ex_disc"),
        HelpLine::Text("help.info.ex_iso"),
        HelpLine::Blank,
        HelpLine::Text("help.info.flags_header"),
        HelpLine::Text("help.info.flag_full"),
        HelpLine::Text("help.info.flag_basic"),
        HelpLine::Text("help.info.flag_verbose"),
        HelpLine::Text("help.info.flag_share"),
    ]
}

/// The lines of the help on `info`.
pub fn help_info() -> (r: Vec<HelpLine>)
    ensures
        r@ == help_info_page(),
{
    let r = vec![
        HelpLine::Program,
        HelpLine::Blank,
        HelpLine::Text("help.info.usage"),
        HelpLine::Blank,
        HelpLine::Text("help.info.desc"),
        HelpLine::Blank,
        HelpLine::Text("help.info.examples_header"),
        HelpLine::Text("help.info.ex_disc"),
        HelpLine::Text("help.info.ex_iso"),
        HelpLine::Blank,
        HelpLine::Text("help.info.flags_header"),
        HelpLine::Text("help.info.flag_full"),
        HelpLine::Text("help.info.flag_basic"),
        HelpLine::Text("help.info.flag_verbose"),
        HelpLine::Text("help.info.flag_share"),
    ];
    assert(r@ =~= help_info_page());
    r
}

/// The lines of the help on `update-keys`.
pub open spec fn help_update_keys_page() -> Seq<HelpLine> {
    seq![
        HelpLine::Program,
        HelpLine::Blank,
        HelpLine::Text("help.update_keys.usage"),
        HelpLine::Blank,
        HelpLine::Text("help.update_keys.desc"),
        HelpLine::Blank,
        HelpLine::Text("help.update_keys.examples_header"),
        HelpLine::Text("help.update_keys.ex"),
        HelpLine::Blank,
        HelpLine::Text("help.update_keys.flags_header"),
        HelpLine::Text("help.update_keys.flag_url"),
    ]
}

/// The lines of the help on `update-keys`.
pub fn help_update_keys() -> (r: Vec<HelpLine>)
    ensures
        r@ == help_update_keys_page(),
{
    let r = vec![
        HelpLine::Program,
        HelpLine::Blank,
        HelpLine::Text("help.update_keys.usage"),
        HelpLine::Blank,
        HelpLine::Text("help.update_keys.desc"),
        HelpLine::Blank,
        HelpLine::Text("help.update_keys.examples_header"),
        HelpLine::Text("help.update_keys.ex"),
        HelpLine::Blank,
        HelpLine::Text("help.update_keys.flags_header"),
        HelpLine::Text("help.update_keys.flag_url"),
    ];
    assert(r@ =~= help_update_keys_page());
    r
}

/// The kinds of stream URL that `info` tells apart.
#[derive(Clone, Debug)]
pub enum UrlKind {
    /// A drive, by its device or the first one there is.
    Disc(Option<String>),
    Dir,
    Iso,
    M2ts,
    Mkv,
    /// Not a URL.
    Unknown,
    /// A URL of another kind.
    Other,
}

/// What `info` does.
pub enum InfoRoute {
    /// No URL: the usage, as a failure.
    Usage,
    /// Show the drive and share its profile, with these flags.
    Share(Option<String>, Vec<String>),
    /// Scan the disc in the drive, with these flags.
    Scan(Option<String>, Vec<String>),
    /// List the titles of a folder or of an image.
    Image { folder: bool, flags: Box<InfoFlags> },
    /// The help on the flags of an image.
    ImageHelp,
    /// An option that an image does not take.
    UnknownOption(String),
    /// Show what is in a container file.
    Container,
    UnknownUrl,
    UnsupportedUrl,
}

/// What an [`InfoRoute`] says.
pub enum InfoPath {
    Usage,
    Share(Option<Seq<char>>, Seq<Seq<char>>),
    Scan(Option<Seq<char>>, Seq<Seq<char>>),
    Image(bool, InfoRequest),
    ImageHelp,
    UnknownOption(Seq<char>),
    Container,
    UnknownUrl,
    UnsupportedUrl,
}

impl View for InfoRoute {
    type V = InfoPath;

    open spec fn view(&self) -> InfoPath {
        match *self {
            InfoRoute::Usage => InfoPath::Usage,
            InfoRoute::Share(d, f) => InfoPath::Share(opt_text(d), texts(f@)),
            InfoRoute::Scan(d, f) => InfoPath::Scan(opt_text(d), texts(f@)),
            InfoRoute::Image { folder, flags } => InfoPath::Image(folder, flags@),
            InfoRoute::ImageHelp => InfoPath::ImageHelp,
            InfoRoute::UnknownOption(o) => InfoPath::UnknownOption(o@),
            InfoRoute::Container => InfoPath::Container,
            InfoRoute::UnknownUrl => InfoPath::UnknownUrl,
            InfoRoute::UnsupportedUrl => InfoPath::UnsupportedUrl,
        }
    }
}

/// Some flag asks to share the drive's profile.
pub open spec fn asks_share(args: Seq<Seq<char>>) -> bool {
    exists|i: int| 0 <= i < args.len() && (#[trigger] args[i] == "--share"@ || args[i] == "-s"@)
}

/// What `info` does with `args`, whose first is a URL of the given kind.
pub open spec fn info_path(args: Seq<Seq<char>>, kind: UrlKind) -> InfoPath {
    if args.len() == 0 {
        InfoPath::Usage
    } else {
        let flags = args.skip(1);
        match kind {
            UrlKind::Disc(d) => if asks_share(flags) {
                InfoPath::Share(opt_text(d), flags)
            } else {
                InfoPath::Scan(opt_text(d), flags)
            },
            UrlKind::Dir | UrlKind::Iso => match info_from(flags, 0, no_flags()) {
                InfoAnswer::Flags(f) => InfoPath::Image(kind is Dir, f),
                InfoAnswer::Help => InfoPath::ImageHelp,
                InfoAnswer::Unknown(o) => InfoPath::UnknownOption(o),
            },
            UrlKind::M2ts | UrlKind::Mkv => InfoPath::Container,
            UrlKind::Unknown => InfoPath::UnknownUrl,
            UrlKind::Other => InfoPath::UnsupportedUrl,
        }
    }
}

/// Whether some flag asks to share the drive's profile.
pub fn wants_share(args: &[String]) -> (r: bool)
    ensures
        r == asks_share(texts(args@)),
{
    let ghost all = texts(args@);
    for i in 0..args.len()
        invariant
            all == texts(args@),
            all.len() == args@.len(),
            forall|j: int|
                0 <= j < i ==> !(#[trigger] all[j] == "--share"@ || all[j] == "-s"@),
    {
        assert(all[i as int] == args@[i as int]@);
        if same_text(args[i].as_str(), "--share") || same_text(args[i].as_str(), "-s") {
            return true;
        }
    }
    false
}

/// Decides what `info` does. An image takes the same flags as a disc, and
/// refuses the same.
pub fn info_route(args: &[String], kind: UrlKind) -> (r: InfoRoute)
    ensures
        r@ == info_path(texts(args@), kind),
{
    if args.len() == 0 {
        return InfoRoute::Usage;
    }
    let flags = copy_from(args, 1);
    let folder = match &kind {
        UrlKind::Dir => true,
        _ => false,
    };
    match kind {
        UrlKind::Disc(d) => {
            if wants_share(flags.as_slice()) {
                InfoRoute::Share(d, flags)
            } else {
                InfoRoute::Scan(d, flags)
            }
        },
        UrlKind::Dir | UrlKind::Iso => match parse_info_flags(flags.as_slice()) {
            InfoParse::Flags(flags) => InfoRoute::Image { folder, flags },
            InfoParse::Help => InfoRoute::ImageHelp,
            InfoParse::Unknown(o) => InfoRoute::UnknownOption(o),
        },
        UrlKind::M2ts | UrlKind::Mkv => InfoRoute::Container,
        UrlKind::Unknown => InfoRoute::UnknownUrl,
        UrlKind::Other => InfoRoute::UnsupportedUrl,
    }
}

/// The line about one stream of a container.
pub open spec fn stream_line(c: Seq<(Seq<char>, Seq<char>)>, s: Stream) -> Seq<char> {
    match s {
        Stream::Video(v) => "  "@ + v.codec.name@ + " "@ + v.resolution@ + (if v.label@.len() == 0 {
            Seq::empty()
        } else {
            " — "@ + sanitized(v.label@)
        }),
        Stream::Audio(a) => "  "@ + a.codec.name@ + " "@ + a.channels@ + " "@ + sanitized(
            a.language@,
        ) + (if audio_tags(c, a).len() == 0 {
            Seq::empty()
        } else {
            " — "@ + joined(audio_tags(c, a), ", "@)
        }),
        Stream::Subtitle(s) => "  "@ + s.codec.name@ + " "@ + sanitized(s.language@),
    }
}

fn stream_line_text(c: &Catalog, s: &Stream) -> (r: String)
    ensures
        r@ == stream_line(c@, *s),
{
    let mut line = "  ".to_owned();
    match s {
        Stream::Video(v) => {
            line.append(v.codec.name.as_str());
            line.append(" ");
            line.append(v.resolution.as_str());
            if !v.label.as_str().is_empty() {
                let ghost head = line@;
                line.append(" — ");
                line.append(sanitize(v.label.as_str()).as_str());
                assert(line@ =~= head + (" — "@ + sanitized(v.label@)));
            } else {
                assert(line@ + Seq::<char>::empty() =~= line@);
            }
        },
        Stream::Audio(a) => {
            line.append(a.codec.name.as_str());
            line.append(" ");
            line.append(a.channels.as_str());
            line.append(" ");
            line.append(sanitize(a.language.as_str()).as_str());
            let tags = audio_remarks(c, a);
            assert(texts(tags@).len() == tags@.len());
            if tags.len() > 0 {
                let ghost head = line@;
                line.append(" — ");
                line.append(join_texts(&tags, ", ").as_str());
                assert(line@ =~= head + (" — "@ + joined(audio_tags(c@, *a), ", "@)));
            } else {
                assert(line@ + Seq::<char>::empty() =~= line@);
            }
        },
        Stream::Subtitle(s) => {
            line.append(s.codec.name.as_str());
            line.append(" ");
            line.append(sanitize(s.language.as_str()).as_str());
        },
    }
    line
}

/// The lines about the streams of a container, one each.
pub fn stream_info_lines(c: &Catalog, streams: &[Stream]) -> (r: Vec<String>)
    ensures
        texts(r@) == streams@.map_values(|s: Stream| stream_line(c@, s)),
{
    let mut r: Vec<String> = Vec::new();
    let ghost wanted = streams@.map_values(|s: Stream| stream_line(c@, s));
    for i in 0..streams.len()
        invariant
            wanted == streams@.map_values(|s: Stream| stream_line(c@, s)),
            texts(r@) == wanted.take(i as int),
    {
        push_text(&mut r, stream_line_text(c, &streams[i]));
        assert(texts(r@) =~= wanted.take(i + 1));
    }
    assert(wanted.take(streams@.len() as int) =~= wanted);
    r
}

/// A number of seconds as hours, minutes and seconds.
pub open spec fn clock(secs: nat) -> Seq<char> {
    dec(secs / 3600) + ":"@ + pad_start(dec(secs % 3600 / 60), 2, '0') + ":"@ + pad_start(
        dec(secs % 60),
        2,
        '0',
    )
}

/// A number of seconds as hours, minutes and seconds.
pub fn clock_text(secs: u64) -> (r: String)
    ensures
        r@ == clock(secs as nat),
{
    let mut s = dec_text(secs / 3600);
    s.append(":");
    s.append(pad_start_text(dec_text(secs % 3600 / 60).as_str(), 2, '0').as_str());
    s.append(":");
    s.append(pad_start_text(dec_text(secs % 60).as_str(), 2, '0').as_str());
    s
}

/// What `info` prints of a container: the file, how long it plays where that
/// is known, and its streams.
pub open spec fn container_listing(
    c: Seq<(Seq<char>, Seq<char>)>,
    path: Seq<char>,
    duration: Option<u64>,
    streams: Seq<Stream>,
) -> Seq<Seq<char>> {
    let l0 = seq![text_or(c, "disc.file"@, "File"@) + ": "@ + path];
    let l1 = match duration {
        Some(d) => l0.push(text_of(c, "disc.duration"@) + ": "@ + clock(d as nat)),
        None => l0,
    };
    l1.push(text_of(c, "disc.streams"@) + ": "@ + dec(streams.len())) + streams.map_values(
        |s: Stream| stream_line(c, s),
    )
}

/// What `info` prints of a container. `duration` is in whole seconds, and
/// absent where the container has none.
pub fn container_lines(
    c: &Catalog,
    path: &str,
    duration: Option<u64>,
    streams: &[Stream],
) -> (r: Vec<String>)
    ensures
        texts(r@) == container_listing(c@, path@, duration, streams@),
{
    let mut lines: Vec<String> = Vec::new();
    let mut file = c.get_or("disc.file", "File");
    file.append(": ");
    file.append(path);
    push_text(&mut lines, file);
    assert(texts(lines@) =~= seq![file@]);
    if let Some(d) = duration {
        let mut l = c.get("disc.duration");
        l.append(": ");
        l.append(clock_text(d).as_str());
        push_text(&mut lines, l);
    }
    let mut count = c.get("disc.streams");
    count.append(": ");
    push_dec(&mut count, streams.len() as u64);
    push_text(&mut lines, count);
    push_texts(&mut lines, stream_info_lines(c, streams));
    lines
}

/// The text of a failure that ends the program: what failed and why.
pub open spec fn fatal_text(c: Seq<(Seq<char>, Seq<char>)>, op_key: Seq<char>, cause: Seq<char>) -> Seq<
    char,
> {
    filled(
        text_of(c, "error.fatal_header"@),
        seq![
            ("level"@, text_of(c, "error.level_error"@)),
            ("op"@, text_of(c, op_key)),
            ("cause"@, cause),
        ],
    )
}

/// The mark before the text of a failure: coloured on a terminal, plain in a
/// file.
pub fn fail_mark(terminal: bool) -> (r: &'static str)
    ensures
        r@ == (if terminal {
            "\x1b[31m✗\x1b[0m"@
        } else {
            "x"@
        }),
{
    if terminal {
        "\x1b[31m✗\x1b[0m"
    } else {
        "x"
    }
}

/// The two lines of a failure that ends the program.
pub fn fatal_lines(c: &Catalog, op_key: &str, cause: &str, terminal: bool) -> (r: Vec<String>)
    ensures
        texts(r@) == seq![
            (if terminal {
                "\x1b[31m✗\x1b[0m"@
            } else {
                "x"@
            }) + " "@ + fatal_text(c@, op_key@, cause@) + "."@,
            "  "@ + text_of(c@, "error.fatal_diagnostic_hint"@),
        ],
{
    let level = c.get("error.level_error");
    let op = c.get(op_key);
    let mut args: Vec<(&str, &str)> = Vec::new();
    args.push(("level", level.as_str()));
    args.push(("op", op.as_str()));
    args.push(("cause", cause));
    assert(arg_texts(args@) =~= seq![("level"@, level@), ("op"@, op@), ("cause"@, cause@)]);
    let mut head = fail_mark(terminal).to_owned();
    head.append(" ");
    head.append(c.fmt("error.fatal_header", args.as_slice()).as_str());
    head.append(".");
    let mut hint = "  ".to_owned();
    hint.append(c.get("error.fatal_diagnostic_hint").as_str());
    let mut lines: Vec<String> = Vec::new();
    push_text(&mut lines, head);
    push_text(&mut lines, hint);
    assert(texts(lines@) =~= seq![head@, hint@]);
    lines
}

/// What is told after the keys were updated: how many there are and how large
/// the file is, then where it was saved.
pub open spec fn keys_updated(
    c: Seq<(Seq<char>, Seq<char>)>,
    entries: nat,
    bytes: nat,
    path: Seq<char>,
) -> Seq<Seq<char>> {
    seq![
        filled(
            text_of(c, "keys.updated"@),
            seq![("entries"@, dec(entries)), ("bytes"@, dec(bytes))],
        ),
        filled(text_of(c, "keys.saved"@), seq![("path"@, path)]),
    ]
}

/// What is told after the keys were updated.
pub fn keys_updated_lines(c: &Catalog, entries: u64, bytes: u64, path: &str) -> (r: Vec<String>)
    ensures
        texts(r@) == keys_updated(c@, entries as nat, bytes as nat, path@),
{
    let e = dec_text(entries);
    let b = dec_text(bytes);
    let mut args: Vec<(&str, &str)> = Vec::new();
    args.push(("entries", e.as_str()));
    args.push(("bytes", b.as_str()));
    assert(arg_texts(args@) =~= seq![("entries"@, e@), ("bytes"@, b@)]);
    let updated = c.fmt("keys.updated", args.as_slice());
    let saved = c.fmt1("keys.saved", "path", path);
    let mut lines: Vec<String> = Vec::new();
    push_text(&mut lines, updated);
    push_text(&mut lines, saved);
    assert(texts(lines@) =~= seq![updated@, saved@]);
    lines
}

} // verus!
