//! The `verify` subcommand: which drive it reads, and what it prints of the
//! sectors that it read.

use crate::cli_entry::UrlKind;
use crate::disc::Disc;
use crate::strings::{Catalog, arg_texts, filled, text_of};
use crate::text::{dec, dec_text, pad_end, pad_end_text, pad_start, pad_start_text, push_dec};
use vstd::prelude::*;
use vstd::string::*;

verus! {

/// The drive that is verified.
#[derive(Clone, Debug)]
pub enum VerifyTarget {
    Device(String),
    /// The first one there is.
    FirstDrive,
    /// None: only a disc can be verified.
    DiscOnly,
}

/// The drive that a URL of the given kind names.
pub fn verify_target(kind: UrlKind) -> (r: VerifyTarget)
    ensures
        match kind {
            UrlKind::Disc(Some(p)) => r matches VerifyTarget::Device(d) && d@ == p@,
            UrlKind::Disc(None) => r is FirstDrive,
            _ => r is DiscOnly,
        },
{
    match kind {
        UrlKind::Disc(Some(p)) => VerifyTarget::Device(p),
        UrlKind::Disc(None) => VerifyTarget::FirstDrive,
        _ => VerifyTarget::DiscOnly,
    }
}

/// The URL that is verified: the first argument, or the first drive there is.
pub fn verify_url(args: &[String]) -> (r: String)
    ensures
        r@ == (if args@.len() == 0 {
            "disc://"@
        } else {
            args@[0]@
        }),
{
    if args.len() == 0 {
        "disc://".to_owned()
    } else {
        args[0].clone()
    }
}

/// How many sectors the first `n` runs have together.
pub open spec fn sectors_in(extents: Seq<(u32, u32)>, n: nat) -> nat
    decreases n,
{
    if n == 0 {
        0
    } else {
        sectors_in(extents, (n - 1) as nat) + extents[n - 1].1 as nat
    }
}

proof fn lemma_sectors_grow(extents: Seq<(u32, u32)>, n: nat, m: nat)
    requires
        n <= m,
    ensures
        sectors_in(extents, n) <= sectors_in(extents, m),
    decreases m,
{
    if n < m {
        lemma_sectors_grow(extents, n, (m - 1) as nat);
    }
}

/// How many sectors a title has.
pub fn total_sectors(extents: &Vec<(u32, u32)>) -> (r: u64)
    requires
        sectors_in(extents@, extents@.len()) <= u64::MAX,
    ensures
        r == sectors_in(extents@, extents@.len()),
{
    let mut total: u64 = 0;
    for i in 0..extents.len()
        invariant
            sectors_in(extents@, extents@.len()) <= u64::MAX,
            total == sectors_in(extents@, i as nat),
    {
        proof {
            lemma_sectors_grow(extents@, (i + 1) as nat, extents@.len());
        }
        total = total + extents[i].1 as u64;
    }
    total
}

/// What a disc is called: its title, or else its label.
pub fn disc_called(disc: &Disc) -> (r: String)
    ensures
        r@ == match disc.meta_title {
            Some(t) => t@,
            None => disc.volume_id@,
        },
{
    match &disc.meta_title {
        Some(t) => t.clone(),
        None => disc.volume_id.clone(),
    }
}

/// What is said of the disc that is verified.
pub open spec fn disc_verified(
    c: Seq<(Seq<char>, Seq<char>)>,
    name: Seq<char>,
    size: Seq<char>,
    sectors: nat,
) -> Seq<char> {
    filled(
        text_of(c, "verify.disc_summary"@),
        seq![("name"@, name), ("size"@, size), ("sectors"@, dec(sectors))],
    )
}

/// The line about what is verified. The name is given as it is set off, and the
/// size in gibibytes with one decimal.
pub fn verify_summary(c: &Catalog, name: &str, size: &str, sectors: u64) -> (r: String)
    ensures
        r@ == disc_verified(c@, name@, size@, sectors as nat),
{
    let count = dec_text(sectors);
    let mut args: Vec<(&str, &str)> = Vec::new();
    args.push(("name", name));
    args.push(("size", size));
    args.push(("sectors", count.as_str()));
    assert(arg_texts(args@) =~= seq![("name"@, name@), ("size"@, size@), ("sectors"@, count@)]);
    c.fmt("verify.disc_summary", args.as_slice())
}

/// Whether the progress is printed: once a second, and at the end.
pub fn progress_due(second_is_over: bool, done: u64, total: u64) -> (r: bool)
    ensures
        r == (second_is_over || done == total),
{
    second_is_over || done == total
}

/// How much is done, in whole percent; nothing of nothing is nought.
pub open spec fn percent(done: nat, total: nat) -> nat {
    if total > 0 {
        done * 100 / total
    } else {
        0
    }
}

/// How far the disc is read.
pub open spec fn progress_shown(done: nat, total: nat, speed: Seq<char>) -> Seq<char> {
    "\r  "@ + dec(percent(done, total)) + "% · "@ + speed + " MB/s · "@ + dec(done) + " / "@ + dec(
        total,
    ) + " sectors"@
}

/// The line that shows how much is done, over what it showed before. The speed
/// is in mebibytes a second, with one decimal.
pub fn progress_text(done: u64, total: u64, speed: &str) -> (r: String)
    requires
        done * 100 <= u64::MAX,
    ensures
        r@ == progress_shown(done as nat, total as nat, speed@),
{
    let pct: u64 = if total > 0 {
        done * 100 / total
    } else {
        0
    };
    let mut s = "\r  ".to_owned();
    push_dec(&mut s, pct);
    s.append("% · ");
    s.append(speed);
    s.append(" MB/s · ");
    push_dec(&mut s, done);
    s.append(" / ");
    push_dec(&mut s, total);
    s.append(" sectors");
    s
}

/// How a piece of text is set off.
#[derive(Clone, Copy, Debug, PartialEq, Eq, Structural)]
pub enum Style {
    Plain,
    Highlight,
    Good,
    Warning,
}

/// A line of output: what stands before a piece that is set off, that piece, and
/// what stands behind it.
#[derive(Clone, Debug)]
pub struct StyledLine {
    pub before: String,
    pub style: Style,
    pub marked: String,
    pub after: String,
}

/// What a [`StyledLine`] says.
pub struct StyledText {
    pub before: Seq<char>,
    pub style: Style,
    pub marked: Seq<char>,
    pub after: Seq<char>,
}

impl View for StyledLine {
    type V = StyledText;

    open spec fn view(&self) -> StyledText {
        StyledText {
            before: self.before@,
            style: self.style,
            marked: self.marked@,
            after: self.after@,
        }
    }
}

/// What a list of lines says.
pub open spec fn styled_texts(v: Seq<StyledLine>) -> Seq<StyledText> {
    v.map_values(|l: StyledLine| l@)
}

/// A line in which nothing is set off.
pub open spec fn unmarked(text: Seq<char>) -> StyledText {
    StyledText {
        before: text,
        style: Style::Plain,
        marked: Seq::empty(),
        after: Seq::empty(),
    }
}

fn unmarked_line(text: String) -> (r: StyledLine)
    ensures
        r@ == unmarked(text@),
{
    let r = StyledLine {
        before: text,
        style: Style::Plain,
        marked: String::new(),
        after: String::new(),
    };
    assert(r.marked@ =~= Seq::empty());
    assert(r.after@ =~= Seq::empty());
    r
}

fn push_line(lines: &mut Vec<StyledLine>, line: StyledLine)
    ensures
        styled_texts(final(lines)@) == styled_texts(old(lines)@).push(line@),
{
    let ghost before = styled_texts(lines@);
    lines.push(line);
    assert(styled_texts(lines@) =~= before.push(line@));
}

/// A number of sectors, and what part of all that is, in percent.
#[derive(Clone, Debug)]
pub struct Share {
    pub count: u64,
    /// With four decimals.
    pub percent: String,
}

/// What became of the sectors that were read.
#[derive(Clone, Copy, Debug, PartialEq, Eq, Structural)]
pub enum SectorStatus {
    Good,
    Slow,
    Recovered,
    Bad,
}

/// A run of sectors with one fate.
#[derive(Clone, Debug)]
pub struct SectorRange {
    pub status: SectorStatus,
    pub start_lba: u64,
    pub count: u64,
    /// Where it starts, in gibibytes, with one decimal.
    pub at_gb: String,
    /// The chapter it lies in, and the seconds into the title.
    pub chapter: Option<(u64, u32)>,
}

/// What was found out about a disc.
#[derive(Clone, Debug)]
pub struct VerifyResult {
    pub good: Share,
    pub slow: Share,
    pub recovered: Share,
    pub bad: Share,
    pub ranges: Vec<SectorRange>,
    /// Every sector was read at once.
    pub perfect: bool,
    /// How much could be read, in percent, with four decimals.
    pub readable_percent: String,
    /// How long it took, in whole seconds.
    pub elapsed_secs: u32,
}

/// The line about so many sectors.
pub open spec fn count_text(label: Seq<char>, share: Share) -> Seq<char> {
    "  "@ + pad_end(label + ":"@, 12, ' ') + " "@ + pad_start(dec(share.count as nat), 12, ' ')
        + "  ("@ + share.percent@ + "%)"@
}

/// The line about so many sectors.
pub fn count_line(label: &str, share: &Share) -> (r: String)
    ensures
        r@ == count_text(label@, *share),
{
    let mut name = label.to_owned();
    name.append(":");
    let mut s = "  ".to_owned();
    s.append(pad_end_text(name.as_str(), 12, ' ').as_str());
    s.append(" ");
    s.append(pad_start_text(dec_text(share.count).as_str(), 12, ' ').as_str());
    s.append("  (");
    s.append(share.percent.as_str());
    s.append("%)");
    s
}

/// The heading and the lines about how many sectors were good, slow, recovered
/// and bad; of the last three only those that there are.
pub open spec fn counts(c: Seq<(Seq<char>, Seq<char>)>, r: VerifyResult) -> Seq<StyledText> {
    let head = seq![
        StyledText {
            before: Seq::empty(),
            style: Style::Highlight,
            marked: text_of(c, "verify.results_header"@) + ":"@,
            after: Seq::empty(),
        },
        unmarked(count_text(text_of(c, "verify.count_good"@), r.good)),
    ];
    let slow = plus_line(
        head,
        r.slow.count > 0,
        unmarked(count_text(text_of(c, "verify.count_slow"@), r.slow)),
    );
    let recovered = plus_line(
        slow,
        r.recovered.count > 0,
        unmarked(count_text(text_of(c, "verify.count_recovered"@), r.recovered)),
    );
    plus_line(
        recovered,
        r.bad.count > 0,
        unmarked(count_text(text_of(c, "verify.count_bad"@), r.bad)),
    )
}

/// The lines, and one more where `cond` holds.
pub open spec fn plus_line(lines: Seq<StyledText>, cond: bool, line: StyledText) -> Seq<StyledText> {
    if cond {
        lines.push(line)
    } else {
        lines
    }
}

/// The heading and the lines about how many sectors there were of each fate.
pub fn count_lines(c: &Catalog, r: &VerifyResult) -> (lines: Vec<StyledLine>)
    ensures
        styled_texts(lines@) == counts(c@, *r),
{
    let mut lines: Vec<StyledLine> = Vec::new();
    let mut head = c.get("verify.results_header");
    head.append(":");
    let first = StyledLine {
        before: String::new(),
        style: Style::Highlight,
        marked: head,
        after: String::new(),
    };
    assert(first.before@ =~= Seq::empty());
    push_line(&mut lines, first);
    let good = unmarked_line(count_line(c.get("verify.count_good").as_str(), &r.good));
    push_line(&mut lines, good);
    assert(styled_texts(lines@) =~= seq![first@, good@]);
    if r.slow.count > 0 {
        push_line(
            &mut lines,
            unmarked_line(count_line(c.get("verify.count_slow").as_str(), &r.slow)),
        );
    }
    if r.recovered.count > 0 {
        push_line(
            &mut lines,
            unmarked_line(count_line(c.get("verify.count_recovered").as_str(), &r.recovered)),
        );
    }
    if r.bad.count > 0 {
        push_line(
            &mut lines,
            unmarked_line(count_line(c.get("verify.count_bad").as_str(), &r.bad)),
        );
    }
    lines
}

/// The chapter that a run of sectors lies in.
pub open spec fn chapter_text(c: Seq<(Seq<char>, Seq<char>)>, chapter: Option<(u64, u32)>) -> Seq<
    char,
> {
    match chapter {
        None => Seq::empty(),
        Some((ch, secs)) => " — "@ + filled(
            text_of(c, "verify.chapter_label"@),
            seq![
                ("ch"@, dec(ch as nat)),
                ("m"@, pad_start(dec((secs / 60) as nat), 2, '0')),
                ("s"@, pad_start(dec((secs % 60) as nat), 2, '0')),
            ],
        ),
    }
}

fn chapter_shown(c: &Catalog, chapter: Option<(u64, u32)>) -> (r: String)
    ensures
        r@ == chapter_text(c@, chapter),
{
    match chapter {
        None => {
            let r = String::new();
            assert(r@ =~= Seq::empty());
            r
        },
        Some((ch, secs)) => {
            let ch_text = dec_text(ch);
            let m = pad_start_text(dec_text((secs / 60) as u64).as_str(), 2, '0');
            let s = pad_start_text(dec_text((secs % 60) as u64).as_str(), 2, '0');
            let mut args: Vec<(&str, &str)> = Vec::new();
            args.push(("ch", ch_text.as_str()));
            args.push(("m", m.as_str()));
            args.push(("s", s.as_str()));
            assert(arg_texts(args@) =~= seq![("ch"@, ch_text@), ("m"@, m@), ("s"@, s@)]);
            let mut r = " — ".to_owned();
            r.append(c.fmt("verify.chapter_label", args.as_slice()).as_str());
            r
        },
    }
}

/// What a fate is called; nothing for sectors that were read at once.
pub open spec fn status_text(c: Seq<(Seq<char>, Seq<char>)>, status: SectorStatus) -> Option<
    Seq<char>,
> {
    match status {
        SectorStatus::Good => None,
        SectorStatus::Slow => Some(text_of(c, "verify.status_slow"@)),
        SectorStatus::Recovered => Some(text_of(c, "verify.status_recovered"@)),
        SectorStatus::Bad => Some(text_of(c, "verify.status_bad"@)),
    }
}

/// The line about a run of sectors that were not read at once.
pub open spec fn range_text(c: Seq<(Seq<char>, Seq<char>)>, r: SectorRange) -> Option<StyledText> {
    match status_text(c, r.status) {
        None => None,
        Some(word) => Some(
            StyledText {
                before: "  "@,
                style: if r.status == SectorStatus::Bad {
                    Style::Warning
                } else {
                    Style::Highlight
                },
                marked: word,
                after: " "@ + text_of(c, "verify.sectors_word"@) + " "@ + dec(r.start_lba as nat)
                    + "-"@ + dec((r.start_lba + r.count) as nat) + " ("@ + r.at_gb@ + " GB"@
                    + chapter_text(c, r.chapter) + "): "@ + dec(r.count as nat) + " "@ + text_of(
                    c,
                    "verify.sectors_word"@,
                ),
            },
        ),
    }
}

fn range_line(c: &Catalog, r: &SectorRange) -> (line: Option<StyledLine>)
    requires
        r.start_lba + r.count <= u64::MAX,
    ensures
        match line {
            Some(l) => range_text(c@, *r) == Some(l@),
            None => range_text(c@, *r) is None,
        },
{
    let marked = match r.status {
        SectorStatus::Good => {
            return None;
        },
        SectorStatus::Slow => c.get("verify.status_slow"),
        SectorStatus::Recovered => c.get("verify.status_recovered"),
        SectorStatus::Bad => c.get("verify.status_bad"),
    };
    let word = c.get("verify.sectors_word");
    let mut after = " ".to_owned();
    after.append(word.as_str());
    after.append(" ");
    push_dec(&mut after, r.start_lba);
    after.append("-");
    push_dec(&mut after, r.start_lba + r.count);
    after.append(" (");
    after.append(r.at_gb.as_str());
    after.append(" GB");
    after.append(chapter_shown(c, r.chapter).as_str());
    after.append("): ");
    push_dec(&mut after, r.count);
    after.append(" ");
    after.append(word.as_str());
    Some(
        StyledLine {
            before: "  ".to_owned(),
            style: if r.status == SectorStatus::Bad {
                Style::Warning
            } else {
                Style::Highlight
            },
            marked,
            after,
        },
    )
}

/// The lines about the first `n` runs of sectors.
pub open spec fn range_texts(c: Seq<(Seq<char>, Seq<char>)>, ranges: Seq<SectorRange>, n: nat) -> Seq<
    StyledText,
>
    decreases n,
{
    if n == 0 {
        Seq::empty()
    } else {
        let before = range_texts(c, ranges, (n - 1) as nat);
        match range_text(c, ranges[n - 1]) {
            Some(l) => before.push(l),
            None => before,
        }
    }
}

/// The lines about the runs of sectors that were not read at once.
pub fn range_lines(c: &Catalog, ranges: &Vec<SectorRange>) -> (lines: Vec<StyledLine>)
    requires
        forall|i: int|
            0 <= i < ranges@.len() ==> (#[trigger] ranges@[i]).start_lba + ranges@[i].count
                <= u64::MAX,
    ensures
        styled_texts(lines@) == range_texts(c@, ranges@, ranges@.len()),
{
    let mut lines: Vec<StyledLine> = Vec::new();
    assert(styled_texts(lines@) =~= Seq::empty());
    for i in 0..ranges.len()
        invariant
            forall|i: int|
                0 <= i < ranges@.len() ==> (#[trigger] ranges@[i]).start_lba + ranges@[i].count
                    <= u64::MAX,
            styled_texts(lines@) == range_texts(c@, ranges@, i as nat),
    {
        match range_line(c, &ranges[i]) {
            Some(l) => push_line(&mut lines, l),
            None => {},
        }
    }
    lines
}

/// How many of the first `n` runs are bad.
pub open spec fn bad_runs(ranges: Seq<SectorRange>, n: nat) -> nat
    decreases n,
{
    if n == 0 {
        0
    } else {
        bad_runs(ranges, (n - 1) as nat) + (if ranges[n - 1].status == SectorStatus::Bad {
            1nat
        } else {
            0
        })
    }
}

/// The last lines: how much could be read and how long that took, and whether
/// all is well.
pub open spec fn verdict_texts(c: Seq<(Seq<char>, Seq<char>)>, r: VerifyResult) -> Seq<StyledText> {
    let first = StyledText {
        before: Seq::empty(),
        style: Style::Highlight,
        marked: text_of(c, "verify.verdict_header"@) + ":"@,
        after: " "@ + filled(
            text_of(c, "verify.verdict_format"@),
            seq![
                ("pct"@, r.readable_percent@),
                ("m"@, dec((r.elapsed_secs / 60) as nat)),
                ("s"@, pad_start(dec((r.elapsed_secs % 60) as nat), 2, '0')),
            ],
        ),
    };
    if r.perfect {
        seq![
            first,
            StyledText {
                before: "         "@,
                style: Style::Good,
                marked: text_of(c, "verify.perfect"@),
                after: Seq::empty(),
            },
        ]
    } else if r.bad.count > 0 {
        seq![
            first,
            StyledText {
                before: "         "@,
                style: Style::Warning,
                marked: filled(
                    text_of(c, "verify.bad_clusters"@),
                    seq![
                        ("count"@, dec(r.bad.count as nat)),
                        ("clusters"@, dec(bad_runs(r.ranges@, r.ranges@.len()))),
                    ],
                ),
                after: Seq::empty(),
            },
        ]
    } else {
        seq![first]
    }
}

fn count_bad_runs(ranges: &Vec<SectorRange>) -> (n: usize)
    ensures
        n == bad_runs(ranges@, ranges@.len()),
{
    let mut n: usize = 0;
    for i in 0..ranges.len()
        invariant
            n <= i,
            n == bad_runs(ranges@, i as nat),
    {
        if ranges[i].status == SectorStatus::Bad {
            n = n + 1;
        }
    }
    n
}

/// The last lines.
pub fn verdict_lines(c: &Catalog, r: &VerifyResult) -> (lines: Vec<StyledLine>)
    ensures
        styled_texts(lines@) == verdict_texts(c@, *r),
{
    let mut lines: Vec<StyledLine> = Vec::new();
    let mut head = c.get("verify.verdict_header");
    head.append(":");
    let m = dec_text((r.elapsed_secs / 60) as u64);
    let s = pad_start_text(dec_text((r.elapsed_secs % 60) as u64).as_str(), 2, '0');
    let mut args: Vec<(&str, &str)> = Vec::new();
    args.push(("pct", r.readable_percent.as_str()));
    args.push(("m", m.as_str()));
    args.push(("s", s.as_str()));
    assert(arg_texts(args@) =~= seq![("pct"@, r.readable_percent@), ("m"@, m@), ("s"@, s@)]);
    let mut after = " ".to_owned();
    after.append(c.fmt("verify.verdict_format", args.as_slice()).as_str());
    let first = StyledLine {
        before: String::new(),
        style: Style::Highlight,
        marked: head,
        after,
    };
    assert(first.before@ =~= Seq::empty());
    push_line(&mut lines, first);
    assert(styled_texts(lines@) =~= seq![first@]);
    if r.perfect {
        let l = StyledLine {
            before: "         ".to_owned(),
            style: Style::Good,
            marked: c.get("verify.perfect"),
            after: String::new(),
        };
        assert(l.after@ =~= Seq::empty());
        push_line(&mut lines, l);
        assert(styled_texts(lines@) =~= seq![first@, l@]);
    } else if r.bad.count > 0 {
        let count = dec_text(r.bad.count);
        let clusters = dec_text(count_bad_runs(&r.ranges) as u64);
        let mut args: Vec<(&str, &str)> = Vec::new();
        args.push(("count", count.as_str()));
        args.push(("clusters", clusters.as_str()));
        assert(arg_texts(args@) =~= seq![("count"@, count@), ("clusters"@, clusters@)]);
        let l = StyledLine {
            before: "         ".to_owned(),
            style: Style::Warning,
            marked: c.fmt("verify.bad_clusters", args.as_slice()),
            after: String::new(),
        };
        assert(l.after@ =~= Seq::empty());
        push_line(&mut lines, l);
        assert(styled_texts(lines@) =~= seq![first@, l@]);
    }
    lines
}

/// What the process ends with: a failure where a sector is bad.
pub fn verify_exit_code(bad: u64) -> (r: i32)
    ensures
        r == (if bad > 0 {
            1int
        } else {
            0
        }),
{
    if bad > 0 {
        1
    } else {
        0
    }
}

} // verus!
