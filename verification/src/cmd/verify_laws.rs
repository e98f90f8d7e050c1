//! What holds of everything that is printed of the sectors of a disc.

use crate::cmd::verify::{
    SectorRange, SectorStatus, Share, Style, VerifyResult, bad_runs, chapter_text, count_text,
    counts, disc_verified, percent, progress_shown, range_text, range_texts, sectors_in,
    verdict_texts,
};
use crate::listing_laws::{left_column, right_column};
use crate::reading::{
    ends_with, lacks, law_number_reads_back, law_padded_number_reads_back,
    law_placeholder_gets_its_value, law_padding_keeps_the_text, lemma_has_part, lemma_starts,
    starts_with,
};
use crate::strings::{filled, placeholder, text_of};
use crate::text::{all_digits, dec, has_text, pad_end, pad_start, value_of};
use vstd::prelude::*;
use vstd::string::*;

verus! {

/// Law: the sectors of a title are those of all its runs together.
pub proof fn law_sectors_add_up(a: Seq<(u32, u32)>, b: Seq<(u32, u32)>)
    ensures
        sectors_in(a + b, (a + b).len()) == sectors_in(a, a.len()) + sectors_in(b, b.len()),
        a.len() == 1 ==> sectors_in(a, 1) == a[0].1,
        sectors_in(Seq::empty(), 0) == 0,
    decreases b.len(),
{
    reveal_with_fuel(sectors_in, 2);
    if b.len() == 0 {
        assert(a + b =~= a);
    } else {
        let c = b.drop_last();
        law_sectors_add_up(a, c);
        lemma_sectors_of_head(a + b, a + c, (a + c).len());
        lemma_sectors_of_head(b, c, c.len());
    }
}

proof fn lemma_sectors_of_head(a: Seq<(u32, u32)>, b: Seq<(u32, u32)>, n: nat)
    requires
        n <= a.len(),
        n <= b.len(),
        forall|i: int| 0 <= i < n ==> #[trigger] a[i] == b[i],
    ensures
        sectors_in(a, n) == sectors_in(b, n),
    decreases n,
{
    if n > 0 {
        lemma_sectors_of_head(a, b, (n - 1) as nat);
        assert(a[n - 1] == b[n - 1]);
    }
}

/// Law: the percentage that is shown is how much is done, rounded down.
pub proof fn law_percentage_is_what_is_done(done: nat, total: nat)
    ensures
        total > 0 ==> percent(done, total) * total <= done * 100 < (percent(done, total) + 1) * total,
        total > 0 && done == total ==> percent(done, total) == 100,
        total == 0 ==> percent(done, total) == 0,
{
    if total > 0 {
        let p = percent(done, total);
        assert(p * total <= done * 100 < (p + 1) * total) by (nonlinear_arith)
            requires
                p == done * 100 / total,
                total > 0,
        ;
        if done == total {
            assert(total * 100 / total == 100) by (nonlinear_arith)
                requires
                    total > 0,
            ;
        }
    }
}

/// The line about so many sectors, by its columns.
pub open spec fn shows_count(line: Seq<char>, label: Seq<char>, share: Share) -> bool {
    exists|name: Seq<char>, count: Seq<char>|
        line == #[trigger] ("  "@ + name + " "@ + count) + "  ("@ + share.percent@ + "%)"@
            && left_column(name, label + ":"@, 12) && right_column(
            count,
            dec(share.count as nat),
            12,
        )
}

/// Law: the line about so many sectors shows how many, and what part of all that
/// is, behind its label.
pub proof fn law_count_line_reads_back(label: Seq<char>, share: Share)
    ensures
        shows_count(count_text(label, share), label, share),
{
    let name = pad_end(label + ":"@, 12, ' ');
    let count = pad_start(dec(share.count as nat), 12, ' ');
    law_padding_keeps_the_text(label + ":"@, 12, ' ');
    law_padding_keeps_the_text(dec(share.count as nat), 12, ' ');
    assert(count_text(label, share) =~= ("  "@ + name + " "@ + count) + "  ("@ + share.percent@
        + "%)"@);
}

/// Law: what is printed of a disc says how many sectors were good, and how many
/// were slow, recovered or bad where there are any, each under its own label and
/// in this order; nothing is counted twice or left out.
pub proof fn law_every_fate_is_counted(c: Seq<(Seq<char>, Seq<char>)>, r: VerifyResult)
    ensures
        ({
            let l = counts(c, r);
            let s = if r.slow.count > 0 {
                1int
            } else {
                0
            };
            let v = if r.recovered.count > 0 {
                1int
            } else {
                0
            };
            let b = if r.bad.count > 0 {
                1int
            } else {
                0
            };
            &&& l.len() == 2 + s + v + b
            &&& shows_count(l[1].before, text_of(c, "verify.count_good"@), r.good)
            &&& r.slow.count > 0 ==> shows_count(
                l[2].before,
                text_of(c, "verify.count_slow"@),
                r.slow,
            )
            &&& r.recovered.count > 0 ==> shows_count(
                l[2 + s].before,
                text_of(c, "verify.count_recovered"@),
                r.recovered,
            )
            &&& r.bad.count > 0 ==> shows_count(
                l[2 + s + v].before,
                text_of(c, "verify.count_bad"@),
                r.bad,
            )
        }),
{
    law_count_line_reads_back(text_of(c, "verify.count_good"@), r.good);
    law_count_line_reads_back(text_of(c, "verify.count_slow"@), r.slow);
    law_count_line_reads_back(text_of(c, "verify.count_recovered"@), r.recovered);
    law_count_line_reads_back(text_of(c, "verify.count_bad"@), r.bad);
}

/// Law: a run of sectors that were not read at once has a line that says what
/// became of it, from where to where it goes and how many sectors it has; a bad
/// run is set off as a warning. A run that was read at once has none.
pub proof fn law_range_line_says_where(c: Seq<(Seq<char>, Seq<char>)>, r: SectorRange)
    ensures
        (range_text(c, r) is None <==> r.status == SectorStatus::Good),
        range_text(c, r) matches Some(l) ==> {
            let word = text_of(c, "verify.sectors_word"@);
            &&& (l.style == Style::Warning <==> r.status == SectorStatus::Bad)
            &&& r.status == SectorStatus::Bad ==> l.marked == text_of(c, "verify.status_bad"@)
            &&& r.status == SectorStatus::Slow ==> l.marked == text_of(c, "verify.status_slow"@)
            &&& r.status == SectorStatus::Recovered ==> l.marked == text_of(
                c,
                "verify.status_recovered"@,
            )
            &&& starts_with(
                l.after,
                " "@ + word + " "@ + dec(r.start_lba as nat) + "-"@ + dec(
                    (r.start_lba + r.count) as nat,
                ) + " ("@ + r.at_gb@ + " GB"@,
            )
            &&& ends_with(l.after, "): "@ + dec(r.count as nat) + " "@ + word)
        },
{
    if let Some(l) = range_text(c, r) {
        let word = text_of(c, "verify.sectors_word"@);
        let head = " "@ + word + " "@ + dec(r.start_lba as nat) + "-"@ + dec(
            (r.start_lba + r.count) as nat,
        ) + " ("@ + r.at_gb@ + " GB"@;
        let ch = chapter_text(c, r.chapter);
        let tail = "): "@ + dec(r.count as nat) + " "@ + word;
        assert(l.after =~= head + ch + tail);
        lemma_starts(head, ch + tail);
        assert(head + (ch + tail) =~= l.after);
        lemma_starts(head + ch, tail);
    }
}

/// Law: every run of sectors that was not read at once has its line, in order.
pub proof fn law_every_range_has_its_line(
    c: Seq<(Seq<char>, Seq<char>)>,
    ranges: Seq<SectorRange>,
    n: nat,
    i: int,
)
    requires
        0 <= i < n <= ranges.len(),
        ranges[i].status != SectorStatus::Good,
    ensures
        range_texts(c, ranges, n).contains(range_text(c, ranges[i])->0),
        range_texts(c, ranges, n).len() <= n,
    decreases n,
{
    law_range_line_says_where(c, ranges[i]);
    lemma_range_len(c, ranges, n);
    let before = range_texts(c, ranges, (n - 1) as nat);
    let all = range_texts(c, ranges, n);
    if i < n - 1 {
        law_every_range_has_its_line(c, ranges, (n - 1) as nat, i);
        let j = choose|j: int| 0 <= j < before.len() && before[j] == range_text(c, ranges[i])->0;
        assert(all[j] == before[j]);
    } else {
        assert(all[all.len() - 1] == range_text(c, ranges[i])->0);
    }
}

proof fn lemma_range_len(c: Seq<(Seq<char>, Seq<char>)>, ranges: Seq<SectorRange>, n: nat)
    ensures
        range_texts(c, ranges, n).len() <= n,
    decreases n,
{
    if n > 0 {
        lemma_range_len(c, ranges, (n - 1) as nat);
    }
}

/// Law: the chapter that damage lies in is named with the time into the title,
/// whose minutes and seconds are those of the time.
pub proof fn law_chapter_time_reads_back(secs: u32)
    ensures
        ({
            let m = pad_start(dec((secs / 60) as nat), 2, '0');
            let s = pad_start(dec((secs % 60) as nat), 2, '0');
            &&& all_digits(m) && all_digits(s)
            &&& value_of(m) * 60 + value_of(s) == secs
            &&& value_of(s) < 60
        }),
{
    law_padded_number_reads_back((secs / 60) as nat, 2);
    law_padded_number_reads_back((secs % 60) as nat, 2);
}

/// Law: damage in a chapter is named by the number of the chapter and the minutes
/// and seconds into the title.
pub proof fn law_chapter_is_named(c: Seq<(Seq<char>, Seq<char>)>, ch: u64, secs: u32)
    ensures
        exists|m: nat, s: nat|
            #![trigger dec(m), dec(s)]
            s < 60 && m * 60 + s == secs && chapter_text(c, Some((ch, secs))) == " — "@ + filled(
                text_of(c, "verify.chapter_label"@),
                seq![
                    ("ch"@, dec(ch as nat)),
                    ("m"@, pad_start(dec(m), 2, '0')),
                    ("s"@, pad_start(dec(s), 2, '0')),
                ],
            ),
        chapter_text(c, None).len() == 0,
{
    let m = (secs / 60) as nat;
    let s = (secs % 60) as nat;
    assert(m * 60 + s == secs);
    assert(dec(m) == dec(m) && dec(s) == dec(s));
}

/// Law: the verdict says how much could be read and how long that took, in
/// minutes and seconds; that all is well is said of a disc where it is, and a
/// disc with bad sectors gets a warning that says how many there are.
#[verifier::rlimit(60)]
pub proof fn law_verdict_says_how_it_went(c: Seq<(Seq<char>, Seq<char>)>, r: VerifyResult)
    ensures
        ({
            let v = verdict_texts(c, r);
            &&& v.len() >= 1
            &&& exists|m: nat, s: nat|
                #![trigger dec(m), dec(s)]
                s < 60 && m * 60 + s == r.elapsed_secs && v[0].after == " "@ + filled(
                    text_of(c, "verify.verdict_format"@),
                    seq![
                        ("pct"@, r.readable_percent@),
                        ("m"@, dec(m)),
                        ("s"@, pad_start(dec(s), 2, '0')),
                    ],
                )
            &&& r.perfect ==> v.len() == 2 && v[1].style == Style::Good && v[1].marked == text_of(
                c,
                "verify.perfect"@,
            )
            &&& !r.perfect && r.bad.count > 0 ==> v.len() == 2 && v[1].style == Style::Warning
                && v[1].marked == filled(
                text_of(c, "verify.bad_clusters"@),
                seq![
                    ("count"@, dec(r.bad.count as nat)),
                    (
                        "clusters"@,
                        dec(
                            r.ranges@.filter(
                                |x: SectorRange| x.status == SectorStatus::Bad,
                            ).len(),
                        ),
                    ),
                ],
            )
            &&& !r.perfect && r.bad.count == 0 ==> v.len() == 1
        }),
{
    let m = (r.elapsed_secs / 60) as nat;
    let s = (r.elapsed_secs % 60) as nat;
    assert(m * 60 + s == r.elapsed_secs);
    assert(dec(m) == dec(m) && dec(s) == dec(s));
    lemma_bad_runs(r.ranges@, r.ranges@.len());
    assert(r.ranges@.take(r.ranges@.len() as int) =~= r.ranges@);
}

proof fn lemma_bad_runs(ranges: Seq<SectorRange>, n: nat)
    requires
        n <= ranges.len(),
    ensures
        bad_runs(ranges, n) == ranges.take(n as int).filter(
            |x: SectorRange| x.status == SectorStatus::Bad,
        ).len(),
    decreases n,
{
    let f = |x: SectorRange| x.status == SectorStatus::Bad;
    reveal(Seq::filter);
    let t = ranges.take(n as int);
    if n > 0 {
        lemma_bad_runs(ranges, (n - 1) as nat);
        assert(t.drop_last() =~= ranges.take(n - 1));
        assert(t.last() == ranges[n - 1]);
    }
}

/// Law: while a disc is read, what is shown has how much of it is read, in hundredths
/// and in sectors, of how many, and at what speed.
pub proof fn law_progress_is_shown(done: nat, total: nat, speed: Seq<char>)
    ensures
        starts_with(progress_shown(done, total, speed), "\r  "@ + dec(percent(done, total)) + "% "@),
        has_text(progress_shown(done, total, speed), speed + " MB/s"@),
        ends_with(
            progress_shown(done, total, speed),
            dec(done) + " / "@ + dec(total) + " sectors"@,
        ),
{
    reveal_strlit("% · ");
    reveal_strlit("% ");
    reveal_strlit(" MB/s · ");
    reveal_strlit(" MB/s");
    let s = progress_shown(done, total, speed);
    let head = "\r  "@ + dec(percent(done, total));
    let tail = dec(done) + " / "@ + dec(total) + " sectors"@;
    assert("% · "@ =~= "% "@ + "% · "@.skip(2));
    assert(" MB/s · "@ =~= " MB/s"@ + " MB/s · "@.skip(5));
    let r1 = "% · "@.skip(2) + speed + " MB/s · "@ + tail;
    lemma_starts(head + "% "@, r1);
    assert(head + "% "@ + r1 =~= s);
    let r2 = " MB/s · "@.skip(5) + tail;
    lemma_has_part(head + "% · "@, speed + " MB/s"@, r2);
    assert(head + "% · "@ + (speed + " MB/s"@) + r2 =~= s);
    lemma_starts(head + "% · "@ + speed + " MB/s · "@, tail);
    assert(head + "% · "@ + speed + " MB/s · "@ + tail =~= s);
}

/// Law: what is said of the disc that is verified has its name, its size and its
/// sectors, each where the catalogue has the place for it.
pub proof fn law_verified_disc_is_named(
    c: Seq<(Seq<char>, Seq<char>)>,
    name: Seq<char>,
    size: Seq<char>,
    sectors: nat,
    pre: Seq<char>,
    post: Seq<char>,
)
    requires
        lacks(pre, '{') && lacks(post, '{') && lacks(name, '{') && lacks(size, '{'),
    ensures
        ({
            let t = text_of(c, "verify.disc_summary"@);
            let s = disc_verified(c, name, size, sectors);
            &&& t == pre + placeholder("name"@) + post ==> s == pre + name + post
            &&& t == pre + placeholder("size"@) + post ==> s == pre + size + post
            &&& t == pre + placeholder("sectors"@) + post ==> s == pre + dec(sectors) + post
        }),
{
    reveal_strlit("name");
    reveal_strlit("size");
    reveal_strlit("sectors");
    assert("name"@ =~= seq!['n', 'a', 'm', 'e'] && "size"@ =~= seq!['s', 'i', 'z', 'e'] && "sectors"@
        =~= seq!['s', 'e', 'c', 't', 'o', 'r', 's']);
    law_number_reads_back(sectors);
    let args = seq![("name"@, name), ("size"@, size), ("sectors"@, dec(sectors))];
    law_placeholder_gets_its_value(pre, post, args, 0);
    law_placeholder_gets_its_value(pre, post, args, 1);
    law_placeholder_gets_its_value(pre, post, args, 2);
}

} // verus!
