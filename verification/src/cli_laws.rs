//! What holds of every command line.

use crate::cli_entry::{
    CommandText, Expect, InfoPath, LanguageRequest, LogPlan, LoggingRequest, UrlKind, all_but,
    asked, asks_share, clock, container_listing, dashed, fatal_text, info_path, is_flag,
    is_language_flag, keys_updated, language_from, language_request, last_value, log_plan,
    logging_from, logging_request, names_stream, stream_line, urls_from, urls_of,
};
use crate::disc::{LabelPurpose, Stream};
use crate::disc_info::audio_tags;
use crate::paths::{is_part, law_path_reads_back, without_empty_tail};
use crate::reading::{
    ends_with, lacks, law_joined_has_each_part, law_number_reads_back, law_padded_number_reads_back,
    law_placeholder_gets_its_value, lemma_has_either, lemma_starts, starts_with,
};
use crate::strings::{placeholder, sanitized, text_of, text_or};
use crate::text::{all_digits, dec, has_text, joined, pad_start, value_of};
use vstd::prelude::*;
use vstd::string::*;

verus! {

/// No argument of `args` is `flag`.
pub open spec fn not_among(args: Seq<Seq<char>>, flag: Seq<char>) -> bool {
    forall|j: int| 0 <= j < args.len() ==> #[trigger] args[j] != flag
}

/// Law: a flag with a value gives that value, wherever on the command line it
/// stands: the file of `--log-file`, and of `--log-level` the number, of which
/// four is the highest that means anything. Nought and what is no number at all
/// are complained about and change nothing. Without the flags nothing is asked.
#[verifier::rlimit(60)]
pub proof fn law_logging_flag_gives_its_value(
    pre: Seq<Seq<char>>,
    flag: Seq<char>,
    value: Seq<char>,
    post: Seq<Seq<char>>,
    n: nat,
)
    requires
        not_among(pre, "--log-level"@) && not_among(pre, "--log-file"@),
        not_among(post, "--log-level"@) && not_among(post, "--log-file"@),
        !is_flag(value) && !names_stream(value),
    ensures
        ({
            let r = logging_request(pre + seq![flag, value] + post);
            &&& flag == "--log-file"@ ==> r.file == Some(value) && r.level is None && r.diags.len()
                == 0
            &&& flag == "--log-level"@ ==> {
                &&& r.file is None
                &&& value == dec(n) && 1 <= n <= 255 ==> r.diags.len() == 0 && r.level == Some(
                    if n < 4 {
                        n
                    } else {
                        4
                    },
                )
                &&& value == dec(0) ==> r.level is None && r.diags.len() == 1 && r.diags[0].key
                    == "error.log_level_out_of_range"@
                &&& value.len() > 0 && !all_digits(value) && value[0] != '+' ==> r.level is None
                    && r.diags.len() == 1 && r.diags[0].key == "error.log_level_not_a_number"@
                    && r.diags[0].args == seq![("value"@, value)]
            }
        }),
        logging_request(pre) == (LoggingRequest { level: None, file: None, diags: Seq::empty() }),
{
    reveal_strlit("--log-level");
    reveal_strlit("--log-file");
    let args = pre + seq![flag, value] + post;
    let none = LoggingRequest { level: None, file: None, diags: Seq::empty() };
    assert forall|j: int| 0 <= j < pre.len() implies #[trigger] args[j] != "--log-level"@ && args[j]
        != "--log-file"@ by {
        assert(args[j] == pre[j]);
    }
    lemma_logging_over(args, 0, pre.len() as int, none);
    lemma_logging_over(pre, 0, pre.len() as int, none);
    let i = pre.len() as int;
    assert(args[i] == flag && args[i + 1] == value);
    assert forall|j: int| i + 2 <= j < args.len() implies #[trigger] args[j] != "--log-level"@
        && args[j] != "--log-file"@ by {
        assert(args[j] == post[j - i - 2]);
    }
    assert("--log-file"@.len() == 10 && "--log-level"@.len() == 11);
    law_number_reads_back(n);
    law_number_reads_back(0);
    if flag == "--log-file"@ {
        lemma_logging_over(args, i + 2, args.len() as int, LoggingRequest { file: Some(value), ..none });
    } else if flag == "--log-level"@ {
        match crate::cli_entry::log_level(value) {
            Ok(m) => {
                lemma_logging_over(
                    args,
                    i + 2,
                    args.len() as int,
                    LoggingRequest { level: Some(m), ..none },
                );
            },
            Err(d) => {
                lemma_logging_over(
                    args,
                    i + 2,
                    args.len() as int,
                    LoggingRequest { diags: none.diags.push(d), ..none },
                );
            },
        }
    }
}

proof fn lemma_logging_over(args: Seq<Seq<char>>, i: int, k: int, so_far: LoggingRequest)
    requires
        0 <= i <= args.len(),
        k <= args.len(),
        forall|j: int|
            i <= j < k ==> #[trigger] args[j] != "--log-level"@ && args[j] != "--log-file"@,
    ensures
        i <= k ==> logging_from(args, i, so_far) == logging_from(args, k, so_far),
    decreases k - i,
{
    if i < k {
        lemma_logging_over(args, i + 1, k, so_far);
    }
}

/// Law: the language flag and its value are taken out of the arguments, and all
/// the others stay as they are and in their order. Without the flag nothing
/// changes; without a value the flag is complained about, by its own name.
#[verifier::rlimit(60)]
pub proof fn law_language_flag_is_taken_out(
    pre: Seq<Seq<char>>,
    flag: Seq<char>,
    value: Seq<char>,
    post: Seq<Seq<char>>,
)
    requires
        not_among(pre, "--language"@) && not_among(pre, "--lang"@),
        not_among(post, "--language"@) && not_among(post, "--lang"@),
    ensures
        flag == "--language"@ || flag == "--lang"@ ==> {
            &&& value.len() > 0 && value[0] != '-' && !names_stream(value) ==> language_request(
                pre + seq![flag, value] + post,
            ) == (LanguageRequest {
                rest: pre + post,
                language: Some(value),
                diags: Seq::empty(),
            })
            &&& language_request(pre + seq![flag]).rest == pre
            &&& language_request(pre + seq![flag]).language is None
            &&& language_request(pre + seq![flag]).diags.len() == 1
            &&& language_request(pre + seq![flag]).diags[0].args == seq![("flag"@, flag)]
        },
        language_request(pre) == (LanguageRequest {
            rest: pre,
            language: None,
            diags: Seq::empty(),
        }),
{
    reveal_with_fuel(language_from, 3);
    let none = LanguageRequest { rest: Seq::empty(), language: None, diags: Seq::empty() };
    let i = pre.len() as int;
    assert(none.rest + pre.subrange(0, i) =~= pre);
    lemma_language_over(pre, 0, i, none);
    let short = pre + seq![flag];
    assert forall|j: int| 0 <= j < i implies !is_language_flag(#[trigger] short[j]) by {
        assert(short[j] == pre[j]);
    }
    lemma_language_over(short, 0, i, none);
    assert(none.rest + short.subrange(0, i) =~= pre);
    assert(short[i] == flag);
    let args = pre + seq![flag, value] + post;
    assert forall|j: int| 0 <= j < i implies !is_language_flag(#[trigger] args[j]) by {
        assert(args[j] == pre[j]);
    }
    lemma_language_over(args, 0, i, none);
    assert(none.rest + args.subrange(0, i) =~= pre);
    assert(args[i] == flag && args[i + 1] == value);
    assert forall|j: int| i + 2 <= j < args.len() implies !is_language_flag(#[trigger] args[j]) by {
        assert(args[j] == post[j - i - 2]);
    }
    let with = LanguageRequest { rest: pre, language: Some(value), diags: Seq::empty() };
    lemma_language_over(args, i + 2, args.len() as int, with);
    assert(with.rest + args.subrange(i + 2, args.len() as int) =~= pre + post);
}

proof fn lemma_language_over(args: Seq<Seq<char>>, i: int, k: int, so_far: LanguageRequest)
    requires
        0 <= i <= k <= args.len(),
        forall|j: int| i <= j < k ==> !is_language_flag(#[trigger] args[j]),
    ensures
        language_from(args, i, so_far) == language_from(
            args,
            k,
            LanguageRequest { rest: so_far.rest + args.subrange(i, k), ..so_far },
        ),
    decreases k - i,
{
    if i < k {
        let next = LanguageRequest { rest: so_far.rest.push(args[i]), ..so_far };
        lemma_language_over(args, i + 1, k, next);
        assert(next.rest + args.subrange(i + 1, k) =~= so_far.rest + args.subrange(i, k));
    } else {
        assert(so_far.rest + args.subrange(i, k) =~= so_far.rest);
    }
}

/// Law: of a flag that is given with several values the last counts, and without
/// the flag there is none.
#[verifier::rlimit(60)]
pub proof fn law_last_value_counts(
    pre: Seq<Seq<char>>,
    flag: Seq<char>,
    first: Seq<char>,
    mid: Seq<Seq<char>>,
    again: Seq<char>,
    value: Seq<char>,
    post: Seq<Seq<char>>,
    long: Seq<char>,
    short: Seq<char>,
)
    requires
        flag == long || flag == short,
        again == long || again == short,
        not_among(pre, long) && not_among(pre, short),
        not_among(mid, long) && not_among(mid, short),
        not_among(post, long) && not_among(post, short),
    ensures
        last_value(pre + seq![flag, value] + post, long, short, 0, None) == Some(value),
        last_value(
            pre + seq![flag, first] + mid + seq![again, value] + post,
            long,
            short,
            0,
            None,
        ) == Some(value),
        last_value(pre, long, short, 0, None) is None,
{
    let i = pre.len() as int;
    lemma_last_value_over(pre, long, short, 0, i, None);
    let one = pre + seq![flag, value] + post;
    assert forall|j: int| 0 <= j < i implies #[trigger] one[j] != long && one[j] != short by {
        assert(one[j] == pre[j]);
    }
    lemma_last_value_over(one, long, short, 0, i, None);
    assert(one[i] == flag && one[i + 1] == value);
    assert forall|j: int| i + 2 <= j < one.len() implies #[trigger] one[j] != long && one[j]
        != short by {
        assert(one[j] == post[j - i - 2]);
    }
    lemma_last_value_over(one, long, short, i + 2, one.len() as int, Some(value));
    let two = pre + seq![flag, first] + mid + seq![again, value] + post;
    let k = i + 2 + mid.len();
    assert forall|j: int| 0 <= j < i implies #[trigger] two[j] != long && two[j] != short by {
        assert(two[j] == pre[j]);
    }
    lemma_last_value_over(two, long, short, 0, i, None);
    assert(two[i] == flag && two[i + 1] == first);
    assert forall|j: int| i + 2 <= j < k implies #[trigger] two[j] != long && two[j] != short by {
        assert(two[j] == mid[j - i - 2]);
    }
    lemma_last_value_over(two, long, short, i + 2, k, Some(first));
    assert(two[k] == again && two[k + 1] == value);
    assert forall|j: int| k + 2 <= j < two.len() implies #[trigger] two[j] != long && two[j]
        != short by {
        assert(two[j] == post[j - k - 2]);
    }
    lemma_last_value_over(two, long, short, k + 2, two.len() as int, Some(value));
}

proof fn lemma_last_value_over(
    args: Seq<Seq<char>>,
    long: Seq<char>,
    short: Seq<char>,
    i: int,
    k: int,
    so_far: Option<Seq<char>>,
)
    requires
        0 <= i <= k <= args.len(),
        forall|j: int| i <= j < k ==> #[trigger] args[j] != long && args[j] != short,
    ensures
        last_value(args, long, short, i, so_far) == last_value(args, long, short, k, so_far),
    decreases k - i,
{
    if i < k {
        lemma_last_value_over(args, long, short, i + 1, k, so_far);
    }
}

/// The flags that take a value.
pub open spec fn valued_flags() -> Seq<Seq<char>> {
    seq![
        "-t"@,
        "--title"@,
        "-a"@,
        "--audio"@,
        "-s"@,
        "--subtitles"@,
        "--keydb"@,
        "--key-auth"@,
        "--log-file"@,
        "--log-level"@,
        "-k"@,
        "--device"@,
        "-d"@,
    ]
}

/// Law: what is no flag is a stream, in the order of the command line; a flag is
/// none, and neither is its value, unless that is a URL that got there by mistake.
/// The address of a key service is no stream though it is a URL.
pub proof fn law_streams_are_what_is_no_flag(
    first: Seq<char>,
    second: Seq<char>,
    rest: Seq<Seq<char>>,
    k: int,
)
    ensures
        urls_of(Seq::empty()).len() == 0,
        !dashed(first) ==> urls_of(seq![first] + rest) == seq![first] + urls_of(rest),
        dashed(first) && !valued_flags().contains(first) && first != "--key-url"@ ==> urls_of(
            seq![first] + rest,
        ) == urls_of(rest),
        0 <= k < valued_flags().len() && !names_stream(second) ==> urls_of(
            seq![valued_flags()[k], second] + rest,
        ) == urls_of(rest),
        0 <= k < valued_flags().len() && names_stream(second) ==> urls_of(
            seq![valued_flags()[k], second] + rest,
        ) == seq![second] + urls_of(rest),
        urls_of(seq!["--key-url"@, second] + rest) == urls_of(rest),
{
    let p = Expect::Positional;
    let one = seq![first] + rest;
    assert(one[0] == first);
    assert(one.skip(1) =~= rest);
    lemma_urls_shift(one, 1, p);
    if dashed(first) && !valued_flags().contains(first) && first != "--key-url"@ {
        lemma_valued(first);
    }
    reveal_with_fuel(urls_from, 3);
    reveal_strlit("--key-url");
    let key = seq!["--key-url"@, second] + rest;
    assert(key[0] == "--key-url"@ && key[1] == second);
    assert(key.skip(2) =~= rest);
    lemma_urls_shift(key, 2, p);
    if 0 <= k < valued_flags().len() {
        let f = valued_flags()[k];
        let two = seq![f, second] + rest;
        assert(two[0] == f && two[1] == second);
        assert(two.skip(2) =~= rest);
        lemma_urls_shift(two, 2, p);
        lemma_valued_flag(k);
    }
}

proof fn lemma_valued(s: Seq<char>)
    requires
        !valued_flags().contains(s),
        s != "--key-url"@,
    ensures
        crate::cli_entry::expect_after(s) == Expect::Positional,
{
    let v = valued_flags();
    assert(v[0] == "-t"@ && v[1] == "--title"@ && v[2] == "-a"@ && v[3] == "--audio"@ && v[4]
        == "-s"@ && v[5] == "--subtitles"@ && v[6] == "--keydb"@ && v[7] == "--key-auth"@ && v[8]
        == "--log-file"@ && v[9] == "--log-level"@ && v[10] == "-k"@ && v[11] == "--device"@
        && v[12] == "-d"@);
}

proof fn lemma_valued_flag(k: int)
    requires
        0 <= k < valued_flags().len(),
    ensures
        dashed(valued_flags()[k]),
        crate::cli_entry::expect_after(valued_flags()[k]) == Expect::Value,
{
    reveal_strlit("-t");
    reveal_strlit("--title");
    reveal_strlit("-a");
    reveal_strlit("--audio");
    reveal_strlit("-s");
    reveal_strlit("--subtitles");
    reveal_strlit("--keydb");
    reveal_strlit("--key-auth");
    reveal_strlit("--log-file");
    reveal_strlit("--log-level");
    reveal_strlit("-k");
    reveal_strlit("--device");
    reveal_strlit("-d");
    reveal_strlit("--key-url");
    let v = valued_flags();
    assert("--key-url"@.len() == 9 && "--key-url"@[2] == 'k' && "--key-url"@[5] == '-');
    assert("--subtitles"@.len() == 11 && "--log-level"@.len() == 11 && "--log-file"@.len() == 10);
    assert("--key-auth"@.len() == 10 && "--keydb"@.len() == 7 && "--device"@.len() == 8);
}

proof fn lemma_urls_shift(args: Seq<Seq<char>>, i: int, expect: Expect)
    requires
        0 <= i <= args.len(),
    ensures
        urls_from(args, i, expect) == urls_from(args.skip(i), 0, expect),
    decreases args.len() - i,
{
    lemma_urls_tail(args, args.skip(i), i, 0, expect);
}

proof fn lemma_urls_tail(a: Seq<Seq<char>>, b: Seq<Seq<char>>, i: int, j: int, expect: Expect)
    requires
        0 <= j <= i,
        b == a.skip(i - j),
        i <= a.len(),
    ensures
        urls_from(a, i, expect) == urls_from(b, j, expect),
    decreases a.len() - i,
{
    if i < a.len() {
        assert(a[i] == b[j]);
        lemma_urls_tail(a, b, i + 1, j + 1, Expect::Positional);
        lemma_urls_tail(a, b, i + 1, j + 1, crate::cli_entry::expect_after(a[i]));
    }
}

/// Law: two streams are a rip from the first to the second, with every argument
/// handed on; one is asked about, and stands first among the arguments, before
/// all the others in their order; any other number is no request.
pub proof fn law_streams_decide_what_is_done(
    program: Seq<char>,
    pre: Seq<Seq<char>>,
    u: Seq<char>,
    post: Seq<Seq<char>>,
)
    requires
        ({
            let word = (pre + seq![u] + post)[0];
            &&& word != "info"@ && word != "update-keys"@
            &&& word != "version"@ && word != "--version"@ && word != "-V"@
            &&& word != "help"@ && word != "--help"@ && word != "-h"@
        }),
    ensures
        ({
            let args = pre + seq![u] + post;
            let urls = urls_of(args);
            let r = asked(seq![program] + args);
            &&& urls.len() == 2 ==> r == CommandText::Rip(urls[0], urls[1], args)
            &&& urls == seq![u] && not_among(pre, u) && not_among(post, u) ==> r
                == CommandText::Info(seq![u] + (pre + post))
            &&& urls.len() != 1 && urls.len() != 2 ==> r is Hint
        }),
        asked(seq![program]) is Bare,
{
    let args = pre + seq![u] + post;
    let all = seq![program] + args;
    assert(all.skip(1) =~= args);
    assert(all[1] == args[0]);
    if urls_of(args) == seq![u] && not_among(pre, u) && not_among(post, u) {
        lemma_all_but(pre, u, post);
    }
}

proof fn lemma_all_but(pre: Seq<Seq<char>>, u: Seq<char>, post: Seq<Seq<char>>)
    requires
        not_among(pre, u),
        not_among(post, u),
    ensures
        all_but(pre + seq![u] + post, u) == pre + post,
        all_but(pre, u) == pre,
    decreases pre.len() + post.len(),
{
    reveal_with_fuel(all_but, 2);
    let e = Seq::<Seq<char>>::empty();
    let args = pre + seq![u] + post;
    if post.len() > 0 {
        let p = post.drop_last();
        assert forall|j: int| 0 <= j < p.len() implies #[trigger] p[j] != u by {
            assert(p[j] == post[j]);
        }
        lemma_all_but(pre, u, p);
        assert(args.drop_last() =~= pre + seq![u] + p);
        assert(args.last() == post[post.len() - 1]);
        assert((pre + p).push(args.last()) =~= pre + post);
    } else {
        assert(args.drop_last() =~= pre);
        assert(args.last() == u);
        assert(pre + post =~= pre);
        if pre.len() > 0 {
            let p = pre.drop_last();
            assert forall|j: int| 0 <= j < p.len() implies #[trigger] p[j] != u by {
                assert(p[j] == pre[j]);
            }
            lemma_all_but(p, u, e);
            assert(pre.last() == pre[pre.len() - 1]);
            assert(p.push(pre.last()) =~= pre);
        }
    }
}

/// The words that a command line may start with, and what each asks for where
/// nothing is behind it.
pub open spec fn command_words() -> Seq<(Seq<char>, CommandText)> {
    seq![
        ("info"@, CommandText::Info(Seq::empty())),
        ("update-keys"@, CommandText::UpdateKeys(Seq::empty())),
        ("version"@, CommandText::Version),
        ("--version"@, CommandText::Version),
        ("-V"@, CommandText::Version),
        ("help"@, CommandText::Usage),
        ("--help"@, CommandText::Usage),
        ("-h"@, CommandText::Usage),
    ]
}

/// Law: each command word asks for its own command, with what stands behind it
/// handed on; with `--help` or `-h` behind them, `info` and `update-keys` ask for
/// their help, and `help` with one of them asks for the same.
pub proof fn law_command_word_is_obeyed(program: Seq<char>, k: int, rest: Seq<Seq<char>>, i: int)
    ensures
        0 <= k < command_words().len() ==> asked(seq![program, command_words()[k].0])
            == command_words()[k].1,
        not_among(rest, "--help"@) && not_among(rest, "-h"@) ==> asked(
            seq![program, "info"@] + rest,
        ) == CommandText::Info(rest) && asked(seq![program, "update-keys"@] + rest)
            == CommandText::UpdateKeys(rest),
        0 <= i < rest.len() && (rest[i] == "--help"@ || rest[i] == "-h"@) ==> asked(
            seq![program, "info"@] + rest,
        ) is HelpInfo && asked(seq![program, "update-keys"@] + rest) is HelpUpdateKeys,
        asked(seq![program, "help"@, "info"@]) is HelpInfo,
        asked(seq![program, "help"@, "update-keys"@]) is HelpUpdateKeys,
{
    lemma_command_words();
    let e = Seq::<Seq<char>>::empty();
    if 0 <= k < command_words().len() {
        let all = seq![program, command_words()[k].0];
        assert(all.skip(2) =~= e);
        assert(all[1] == command_words()[k].0);
    }
    let a = seq![program, "info"@] + rest;
    let b = seq![program, "update-keys"@] + rest;
    assert(a.skip(2) =~= rest && b.skip(2) =~= rest);
    assert(a[1] == "info"@ && b[1] == "update-keys"@);
}

proof fn lemma_command_words()
    ensures
        "info"@ != "update-keys"@ && "info"@ != "version"@ && "info"@ != "--version"@ && "info"@
            != "-V"@ && "info"@ != "help"@ && "info"@ != "--help"@ && "info"@ != "-h"@,
        "update-keys"@ != "version"@ && "update-keys"@ != "--version"@ && "update-keys"@ != "-V"@
            && "update-keys"@ != "help"@ && "update-keys"@ != "--help"@ && "update-keys"@ != "-h"@,
        "version"@ != "help"@ && "version"@ != "--help"@ && "version"@ != "-h"@,
        "--version"@ != "help"@ && "--version"@ != "--help"@ && "--version"@ != "-h"@,
        "-V"@ != "help"@ && "-V"@ != "--help"@ && "-V"@ != "-h"@,
{
    reveal_strlit("info");
    reveal_strlit("update-keys");
    reveal_strlit("version");
    reveal_strlit("--version");
    reveal_strlit("-V");
    reveal_strlit("help");
    reveal_strlit("--help");
    reveal_strlit("-h");
    assert("info"@[0] == 'i' && "help"@[0] == 'h' && "-V"@[1] == 'V' && "-h"@[1] == 'h');
    assert("info"@.len() == 4 && "update-keys"@.len() == 11 && "version"@.len() == 7
        && "--version"@.len() == 9 && "help"@.len() == 4 && "--help"@.len() == 6);
}

/// Law: `info` goes by what its first argument names: a drive is scanned, or its
/// profile shared where that is asked for; a folder and an image are read as what
/// they are; a container is listed; and the rest is refused, what is unknown and
/// what cannot be read apart.
pub proof fn law_info_goes_by_what_is_named(args: Seq<Seq<char>>, kind: UrlKind)
    requires
        args.len() > 0,
    ensures
        ({
            let flags = args.skip(1);
            let shared = exists|i: int|
                0 < i < args.len() && (#[trigger] args[i] == "--share"@ || args[i] == "-s"@);
            let p = info_path(args, kind);
            match kind {
                UrlKind::Disc(d) => {
                    &&& d matches Some(dev) ==> (p == if shared {
                        InfoPath::Share(Some(dev@), flags)
                    } else {
                        InfoPath::Scan(Some(dev@), flags)
                    })
                    &&& d is None ==> (p == if shared {
                        InfoPath::Share(None, flags)
                    } else {
                        InfoPath::Scan(None, flags)
                    })
                },
                UrlKind::Dir => !(p matches InfoPath::Image(folder, _) && !folder) && (p is Image
                    || p is ImageHelp || p is UnknownOption),
                UrlKind::Iso => !(p matches InfoPath::Image(folder, _) && folder) && (p is Image
                    || p is ImageHelp || p is UnknownOption),
                UrlKind::M2ts | UrlKind::Mkv => p is Container,
                UrlKind::Unknown => p is UnknownUrl,
                UrlKind::Other => p is UnsupportedUrl,
            }
        }),
        info_path(Seq::empty(), kind) is Usage,
{
    let flags = args.skip(1);
    assert forall|i: int| 0 < i < args.len() implies #[trigger] args[i] == flags[i - 1] by {}
    assert forall|i: int| 0 <= i < flags.len() implies #[trigger] flags[i] == args[i + 1] by {}
    if asks_share(flags) {
        let i = choose|i: int|
            0 <= i < flags.len() && (#[trigger] flags[i] == "--share"@ || flags[i] == "-s"@);
        assert(args[i + 1] == flags[i]);
    }
}

/// The names of the log levels.
pub open spec fn level_names() -> Seq<(nat, Seq<char>)> {
    seq![(1, "warn"@), (2, "info"@), (3, "debug"@), (4, "trace"@)]
}

/// Law: a log is written exactly where a level, a file or the environment asks for
/// one. It goes to the file that is named, in the directory that is named with it,
/// or in the current one; without a name it is `log.txt` there. The environment's
/// own filter wins; else this program and the disc library log at the level asked
/// for, which is `debug` where only a file was named.
pub proof fn law_log_is_what_was_asked_for(
    level: Option<nat>,
    dir: Seq<char>,
    name: Seq<char>,
    rust_log: bool,
    k: int,
)
    requires
        dir.len() > 0,
        without_empty_tail(dir) == dir,
        is_part(name),
    ensures
        log_plan(None, None, false) is Off,
        log_plan(level, None, rust_log) is Off ==> level is None && !rust_log,
        ({
            let p = log_plan(level, Some(dir + seq!['/'] + name), rust_log);
            p matches LogPlan::File { env_filter, filter, dir: d, name: n } && {
                &&& d == dir && n == name && env_filter == rust_log
                &&& rust_log ==> filter.len() == 0
                &&& !rust_log && 0 <= k < 4 && (level == Some(level_names()[k].0) || level is None
                    && k == 2) ==> filter == "error,freemkv="@ + level_names()[k].1
                    + ",libfreemkv="@ + level_names()[k].1
            }
        }),
        log_plan(level, Some(name), rust_log) matches LogPlan::File { dir: d, name: n, .. } && d
            == seq!['.'] && n == name,
        level is Some || rust_log ==> (log_plan(level, None, rust_log) matches LogPlan::File {
            dir: d,
            name: n,
            ..
        } && d == seq!['.'] && n == "log.txt"@),
{
    law_path_reads_back(dir, name);
    reveal_strlit("log.txt");
    let l = "log.txt"@;
    assert(l.len() == 7);
    assert(is_part(l)) by {
        assert(l =~= seq!['l', 'o', 'g', '.', 't', 'x', 't']);
    }
    law_path_reads_back(dir, l);
}

/// Law: a time is written as hours, minutes and seconds that together are the
/// time, with two digits or more each of minutes and seconds, fewer than sixty.
pub proof fn law_clock_reads_back(secs: nat)
    ensures
        exists|h: Seq<char>, m: Seq<char>, s: Seq<char>|
            #![trigger all_digits(h), all_digits(m), all_digits(s)]
            {
                &&& clock(secs) == h + ":"@ + m + ":"@ + s
                &&& all_digits(h) && all_digits(m) && all_digits(s)
                &&& value_of(h) * 3600 + value_of(m) * 60 + value_of(s) == secs
                &&& value_of(m) < 60 && value_of(s) < 60
                &&& m.len() >= 2 && s.len() >= 2
            },
{
    let h = dec(secs / 3600);
    let m = pad_start(dec(secs % 3600 / 60), 2, '0');
    let s = pad_start(dec(secs % 60), 2, '0');
    law_number_reads_back(secs / 3600);
    law_padded_number_reads_back(secs % 3600 / 60, 2);
    law_padded_number_reads_back(secs % 60, 2);
    assert(all_digits(h) && all_digits(m) && all_digits(s));
    assert(secs / 3600 * 3600 + secs % 3600 / 60 * 60 + secs % 60 == secs);
}

/// Law: the line of a stream names its codec, then its resolution, its channels
/// and language, or its language; every remark on it stands behind that.
pub proof fn law_stream_line_says_what_it_is(c: Seq<(Seq<char>, Seq<char>)>, s: Stream)
    ensures
        ({
            let l = stream_line(c, s);
            match s {
                Stream::Video(v) => {
                    &&& starts_with(l, "  "@ + v.codec.name@ + " "@ + v.resolution@)
                    &&& v.label@.len() > 0 ==> ends_with(l, " — "@ + sanitized(v.label@))
                    &&& v.label@.len() == 0 ==> l == "  "@ + v.codec.name@ + " "@ + v.resolution@
                },
                Stream::Audio(a) => {
                    let head = "  "@ + a.codec.name@ + " "@ + a.channels@ + " "@ + sanitized(
                        a.language@,
                    );
                    &&& starts_with(l, head)
                    &&& a.label@.len() > 0 ==> has_text(l, sanitized(a.label@))
                    &&& a.secondary ==> has_text(l, text_of(c, "stream.secondary"@))
                    &&& a.label@.len() == 0 && !a.secondary && a.purpose == LabelPurpose::Normal
                        ==> l == head
                },
                Stream::Subtitle(u) => l == "  "@ + u.codec.name@ + " "@ + sanitized(u.language@),
            }
        }),
{
    match s {
        Stream::Video(v) => {
            let head = "  "@ + v.codec.name@ + " "@ + v.resolution@;
            if v.label@.len() > 0 {
                lemma_starts(head, " — "@ + sanitized(v.label@));
            } else {
                assert(head + Seq::<char>::empty() =~= head);
                lemma_starts(head, Seq::empty());
            }
        },
        Stream::Audio(a) => {
            let head = "  "@ + a.codec.name@ + " "@ + a.channels@ + " "@ + sanitized(a.language@);
            let tags = audio_tags(c, a);
            if tags.len() > 0 {
                let t = joined(tags, ", "@);
                lemma_starts(head, " — "@ + t);
                assert forall|i: int| 0 <= i < tags.len() implies has_text(
                    stream_line(c, s),
                    #[trigger] tags[i],
                ) by {
                    law_joined_has_each_part(tags, ", "@, i);
                    lemma_has_either(" — "@, t, tags[i]);
                    lemma_has_either(head, " — "@ + t, tags[i]);
                }
                if a.label@.len() > 0 {
                    assert(tags[tags.len() - 1] == sanitized(a.label@));
                }
                if a.secondary {
                    let k: int = if a.purpose != LabelPurpose::Normal {
                        1
                    } else {
                        0
                    };
                    assert(tags[k] == text_of(c, "stream.secondary"@));
                }
            } else {
                assert(head + Seq::<char>::empty() =~= head);
                lemma_starts(head, Seq::empty());
            }
        },
        Stream::Subtitle(u) => {},
    }
}

/// Law: a container is listed with its path, its length where that is known, how
/// many streams it has, and each of them, in their order.
pub proof fn law_container_is_listed_whole(
    c: Seq<(Seq<char>, Seq<char>)>,
    path: Seq<char>,
    duration: Option<u64>,
    streams: Seq<Stream>,
    i: int,
)
    ensures
        ({
            let l = container_listing(c, path, duration, streams);
            let head: int = if duration is Some {
                3
            } else {
                2
            };
            &&& l.len() == head + streams.len()
            &&& ends_with(l[0], ": "@ + path)
            &&& duration matches Some(d) ==> l[1] == text_of(c, "disc.duration"@) + ": "@ + clock(
                d as nat,
            )
            &&& l[head - 1] == text_of(c, "disc.streams"@) + ": "@ + dec(streams.len())
            &&& 0 <= i < streams.len() ==> l[head + i] == stream_line(c, streams[i])
        }),
{
    let t = text_or(c, "disc.file"@, "File"@);
    lemma_starts(t, ": "@ + path);
    assert(t + (": "@ + path) =~= t + ": "@ + path);
}

/// Law: what a catalogue says of a failure is told with the word for an error, what
/// was done and why it failed, each where the catalogue has the place for it.
pub proof fn law_failure_says_what_and_why(
    c: Seq<(Seq<char>, Seq<char>)>,
    op: Seq<char>,
    cause: Seq<char>,
    pre: Seq<char>,
    post: Seq<char>,
)
    requires
        lacks(pre, '{') && lacks(post, '{'),
        lacks(text_of(c, "error.level_error"@), '{'),
        lacks(text_of(c, op), '{'),
        lacks(cause, '{'),
    ensures
        text_of(c, "error.fatal_header"@) == pre + placeholder("cause"@) + post ==> fatal_text(
            c,
            op,
            cause,
        ) == pre + cause + post,
        text_of(c, "error.fatal_header"@) == pre + placeholder("op"@) + post ==> fatal_text(
            c,
            op,
            cause,
        ) == pre + text_of(c, op) + post,
        text_of(c, "error.fatal_header"@) == pre + placeholder("level"@) + post ==> fatal_text(
            c,
            op,
            cause,
        ) == pre + text_of(c, "error.level_error"@) + post,
{
    let args = seq![
        ("level"@, text_of(c, "error.level_error"@)),
        ("op"@, text_of(c, op)),
        ("cause"@, cause),
    ];
    reveal_strlit("level");
    reveal_strlit("op");
    reveal_strlit("cause");
    assert("level"@ =~= seq!['l', 'e', 'v', 'e', 'l'] && "op"@ =~= seq!['o', 'p'] && "cause"@
        =~= seq!['c', 'a', 'u', 's', 'e']);
    law_placeholder_gets_its_value(pre, post, args, 0);
    law_placeholder_gets_its_value(pre, post, args, 1);
    law_placeholder_gets_its_value(pre, post, args, 2);
}

/// Law: after an update the first line has how many keys there are and how large
/// the file is, and the second where it was saved, each where the catalogue has the
/// place for it.
pub proof fn law_update_says_what_was_saved(
    c: Seq<(Seq<char>, Seq<char>)>,
    entries: nat,
    bytes: nat,
    path: Seq<char>,
    pre: Seq<char>,
    post: Seq<char>,
)
    requires
        lacks(pre, '{') && lacks(post, '{'),
        lacks(path, '{'),
    ensures
        ({
            let l = keys_updated(c, entries, bytes, path);
            &&& l.len() == 2
            &&& text_of(c, "keys.updated"@) == pre + placeholder("entries"@) + post ==> l[0] == pre
                + dec(entries) + post
            &&& text_of(c, "keys.updated"@) == pre + placeholder("bytes"@) + post ==> l[0] == pre
                + dec(bytes) + post
            &&& text_of(c, "keys.saved"@) == pre + placeholder("path"@) + post ==> l[1] == pre
                + path + post
        }),
{
    reveal_strlit("entries");
    reveal_strlit("bytes");
    reveal_strlit("path");
    assert("entries"@ =~= seq!['e', 'n', 't', 'r', 'i', 'e', 's'] && "bytes"@
        =~= seq!['b', 'y', 't', 'e', 's'] && "path"@ =~= seq!['p', 'a', 't', 'h']);
    law_number_reads_back(entries);
    law_number_reads_back(bytes);
    let args = seq![("entries"@, dec(entries)), ("bytes"@, dec(bytes))];
    law_placeholder_gets_its_value(pre, post, args, 0);
    law_placeholder_gets_its_value(pre, post, args, 1);
    law_placeholder_gets_its_value(pre, post, seq![("path"@, path)], 0);
}

} // verus!
