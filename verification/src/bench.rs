//! The speed test of a drive: what is read in each run, when the drive is told
//! its speed, and what is counted and shown.

use crate::cli_entry::opt_text;
use crate::text::{dec, pad_start, pad_start_text, push_dec, same_text, texts};
use vstd::prelude::*;
use vstd::string::*;

verus! {

/// How many sectors one read takes.
pub const SECTORS_PER_READ: u16 = 48;

/// How many bytes one read brings.
pub const READ_SIZE: u64 = 98_304;

/// How many reads a run makes.
pub const READS_PER_RUN: usize = 20_000;

/// Where the contents of a disc start as a rule.
pub const CONTENT_LBA: u32 = 0x20000;

/// The command that asks a drive for its capabilities.
pub fn mode_sense_command() -> (r: [u8; 10])
    ensures
        r@ == seq![0x5Au8, 0x00, 0x2A, 0x00, 0x00, 0x00, 0x00, 0x00, 0xFF, 0x00],
{
    let r: [u8; 10] = [0x5A, 0x00, 0x2A, 0x00, 0x00, 0x00, 0x00, 0x00, 0xFF, 0x00];
    assert(r@ =~= seq![0x5Au8, 0x00, 0x2A, 0x00, 0x00, 0x00, 0x00, 0x00, 0xFF, 0x00]);
    r
}

/// The command that asks a drive how large its disc is.
pub fn read_capacity_command() -> (r: [u8; 10])
    ensures
        r@ == seq![0x25u8, 0, 0, 0, 0, 0, 0, 0, 0, 0],
{
    let r: [u8; 10] = [0x25, 0, 0, 0, 0, 0, 0, 0, 0, 0];
    assert(r@ =~= seq![0x25u8, 0, 0, 0, 0, 0, 0, 0, 0, 0]);
    r
}

/// The number in two bytes, the higher first.
pub open spec fn be2_at(b: Seq<u8>, o: int) -> nat {
    (256 * b[o] + b[o + 1]) as nat
}

/// The number in four bytes, the highest first.
pub open spec fn be4_at(b: Seq<u8>, o: int) -> nat {
    65536 * be2_at(b, o) + be2_at(b, o + 2)
}

fn be16_at(b: &[u8], o: usize) -> (r: u16)
    requires
        o + 2 <= b.len(),
    ensures
        r == be2_at(b@, o as int),
{
    256 * b[o] as u16 + b[o + 1] as u16
}

/// The fastest speed of a drive and its present one, out of what it says of its
/// capabilities.
pub open spec fn speeds_in(answer: Seq<u8>) -> (nat, nat) {
    (be2_at(answer, 16), be2_at(answer, 18))
}

/// The fastest speed of a drive and its present one, in thousands of bytes a
/// second, out of what it says of its capabilities. The page with them stands
/// behind a header of eight bytes.
pub fn read_speed_caps(answer: &[u8]) -> (r: (u16, u16))
    requires
        answer@.len() >= 20,
    ensures
        (r.0 as nat, r.1 as nat) == speeds_in(answer@),
{
    (be16_at(answer, 16), be16_at(answer, 18))
}

/// How many sectors a disc has, out of what its drive says of the last.
pub open spec fn sectors_on(answer: Seq<u8>) -> nat {
    be4_at(answer, 0) + 1
}

/// How many sectors a disc has, out of what its drive says of the last.
pub fn disc_sectors(answer: &[u8]) -> (r: u32)
    requires
        answer@.len() >= 4,
        be4_at(answer@, 0) < 0xffff_ffff,
    ensures
        r == sectors_on(answer@),
{
    65536 * be16_at(answer, 0) as u32 + be16_at(answer, 2) as u32 + 1
}

/// The device that `args` name, read from `i` on: what follows the last flag for
/// it, if anything does.
pub open spec fn device_from(args: Seq<Seq<char>>, i: int, found: Option<Seq<char>>) -> Option<
    Seq<char>,
>
    decreases args.len() + 1 - i,
{
    if i < 0 || i >= args.len() {
        found
    } else if args[i] == "--device"@ || args[i] == "-d"@ {
        device_from(
            args,
            i + 2,
            if i + 1 < args.len() {
                Some(args[i + 1])
            } else {
                None
            },
        )
    } else {
        device_from(args, i + 1, found)
    }
}

/// The device that the arguments name.
pub fn bench_device(args: &[String]) -> (r: Option<String>)
    ensures
        opt_text(r) == device_from(texts(args@), 0, None),
{
    let ghost all = texts(args@);
    let mut found: Option<String> = None;
    let mut i: usize = 0;
    while i < args.len()
        invariant
            i <= args.len() + 1,
            all == texts(args@),
            all.len() == args@.len(),
            device_from(all, 0, None) == device_from(all, i as int, opt_text(found)),
        decreases args.len() + 1 - i,
    {
        assert(all[i as int] == args@[i as int]@);
        if same_text(args[i].as_str(), "--device") || same_text(args[i].as_str(), "-d") {
            if args.len() - i > 1 {
                assert(all[i + 1] == args@[i + 1]@);
                found = Some(args[i + 1].clone());
                i = i + 2;
            } else {
                assert(device_from(all, i + 2, None) is None);
                return None;
            }
        } else {
            i = i + 1;
        }
    }
    found
}

/// One run of the test: what it is called, where it starts, and which speed the
/// drive is told, before it (nought: none) and again after every so many reads
/// (nought: not again).
#[derive(Clone, Debug)]
pub struct BenchRun {
    pub label: String,
    pub start_lba: u32,
    pub speed_kbs: u16,
    pub speed_interval: usize,
}

/// What a [`BenchRun`] says.
pub struct RunText {
    pub label: Seq<char>,
    pub start_lba: nat,
    pub speed_kbs: u16,
    pub speed_interval: nat,
}

impl View for BenchRun {
    type V = RunText;

    open spec fn view(&self) -> RunText {
        RunText {
            label: self.label@,
            start_lba: self.start_lba as nat,
            speed_kbs: self.speed_kbs,
            speed_interval: self.speed_interval as nat,
        }
    }
}

/// What a list of runs says.
pub open spec fn run_texts(v: Seq<BenchRun>) -> Seq<RunText> {
    v.map_values(|r: BenchRun| r@)
}

/// The runs of the test, for a drive with that top speed and a disc with so many
/// sectors.
pub open spec fn runs_for(max_kbs: u16, sectors: nat) -> Seq<RunText> {
    let start = CONTENT_LBA as nat;
    seq![
        RunText {
            label: "Test 1: No SET_CD_SPEED"@,
            start_lba: start,
            speed_kbs: 0,
            speed_interval: 0,
        },
        RunText {
            label: "Test 2: SET_CD_SPEED 0xFFFF once"@,
            start_lba: start,
            speed_kbs: 0xFFFF,
            speed_interval: 0,
        },
        RunText {
            label: "Test 3: SET_CD_SPEED "@ + dec(max_kbs as nat) + " (exact max) once"@,
            start_lba: start,
            speed_kbs: max_kbs,
            speed_interval: 0,
        },
        RunText {
            label: "Test 4: SET_CD_SPEED 0xFFFF every 100 reads"@,
            start_lba: start,
            speed_kbs: 0xFFFF,
            speed_interval: 100,
        },
        RunText {
            label: "Test 5: Outer disc + SET_CD_SPEED 0xFFFF once"@,
            start_lba: sectors * 3 / 4,
            speed_kbs: 0xFFFF,
            speed_interval: 0,
        },
    ]
}

/// The runs of the test.
pub fn bench_runs(max_kbs: u16, sectors: u32) -> (r: Vec<BenchRun>)
    requires
        sectors * 3 <= u32::MAX,
    ensures
        run_texts(r@) == runs_for(max_kbs, sectors as nat),
{
    let mut third = "Test 3: SET_CD_SPEED ".to_owned();
    push_dec(&mut third, max_kbs as u64);
    third.append(" (exact max) once");
    let r = vec![
        BenchRun {
            label: "Test 1: No SET_CD_SPEED".to_owned(),
            start_lba: CONTENT_LBA,
            speed_kbs: 0,
            speed_interval: 0,
        },
        BenchRun {
            label: "Test 2: SET_CD_SPEED 0xFFFF once".to_owned(),
            start_lba: CONTENT_LBA,
            speed_kbs: 0xFFFF,
            speed_interval: 0,
        },
        BenchRun {
            label: third,
            start_lba: CONTENT_LBA,
            speed_kbs: max_kbs,
            speed_interval: 0,
        },
        BenchRun {
            label: "Test 4: SET_CD_SPEED 0xFFFF every 100 reads".to_owned(),
            start_lba: CONTENT_LBA,
            speed_kbs: 0xFFFF,
            speed_interval: 100,
        },
        BenchRun {
            label: "Test 5: Outer disc + SET_CD_SPEED 0xFFFF once".to_owned(),
            start_lba: sectors * 3 / 4,
            speed_kbs: 0xFFFF,
            speed_interval: 0,
        },
    ];
    assert(run_texts(r@) =~= runs_for(max_kbs, sectors as nat));
    r
}

/// The line that says which speed the drive is told.
pub open spec fn speed_shown(speed_kbs: nat, speed_interval: nat) -> Seq<char> {
    if speed_kbs == 0 {
        "  No SET_CD_SPEED"@
    } else if speed_interval == 0 {
        "  SET_CD_SPEED "@ + dec(speed_kbs) + " sent once"@
    } else {
        "  SET_CD_SPEED "@ + dec(speed_kbs) + " every "@ + dec(speed_interval) + " reads"@
    }
}

/// The line that says which speed the drive is told.
pub fn speed_line(speed_kbs: u16, speed_interval: usize) -> (r: String)
    ensures
        r@ == speed_shown(speed_kbs as nat, speed_interval as nat),
{
    if speed_kbs == 0 {
        return "  No SET_CD_SPEED".to_owned();
    }
    let mut s = "  SET_CD_SPEED ".to_owned();
    push_dec(&mut s, speed_kbs as u64);
    if speed_interval == 0 {
        s.append(" sent once");
    } else {
        s.append(" every ");
        push_dec(&mut s, speed_interval as u64);
        s.append(" reads");
    }
    s
}

/// The drive is told its speed again before the read with this number.
pub open spec fn tells_again(speed_kbs: u16, speed_interval: nat, i: nat) -> bool {
    speed_kbs > 0 && speed_interval > 0 && i > 0 && i % speed_interval == 0
}

/// Whether the drive is told its speed again before the read with this number.
pub fn resend_speed(speed_kbs: u16, speed_interval: usize, i: usize) -> (r: bool)
    ensures
        r == tells_again(speed_kbs, speed_interval as nat, i as nat),
{
    speed_kbs > 0 && speed_interval > 0 && i > 0 && i % speed_interval == 0
}

/// Where the read with this number starts.
pub fn read_lba(start_lba: u32, i: u32) -> (r: u32)
    requires
        start_lba + i * SECTORS_PER_READ <= u32::MAX,
    ensures
        r == start_lba + i * SECTORS_PER_READ,
{
    start_lba + i * SECTORS_PER_READ as u32
}

/// Law: the reads of a run follow upon each other without a gap or an overlap.
pub proof fn law_reads_are_contiguous(start_lba: nat, i: nat)
    ensures
        start_lba + i * SECTORS_PER_READ + SECTORS_PER_READ == start_lba + (i + 1)
            * SECTORS_PER_READ,
{
}

/// What was read in a run, and since the last report.
#[derive(Clone, Copy, Debug)]
pub struct Meter {
    pub total_bytes: u64,
    pub window_bytes: u64,
    pub errors: u32,
}

impl Meter {
    /// Nothing was read yet.
    pub fn new() -> (r: Self)
        ensures
            r.total_bytes == 0 && r.window_bytes == 0 && r.errors == 0,
    {
        Meter { total_bytes: 0, window_bytes: 0, errors: 0 }
    }

    /// Counts a read, as bytes or as an error.
    pub fn count_read(&mut self, ok: bool)
        requires
            old(self).total_bytes + READ_SIZE <= u64::MAX,
            old(self).window_bytes + READ_SIZE <= u64::MAX,
            old(self).errors < u32::MAX,
        ensures
            *final(self) == (if ok {
                Meter {
                    total_bytes: (old(self).total_bytes + READ_SIZE) as u64,
                    window_bytes: (old(self).window_bytes + READ_SIZE) as u64,
                    errors: old(self).errors,
                }
            } else {
                Meter {
                    total_bytes: old(self).total_bytes,
                    window_bytes: old(self).window_bytes,
                    errors: (old(self).errors + 1) as u32,
                }
            }),
    {
        if ok {
            self.total_bytes = self.total_bytes + READ_SIZE;
            self.window_bytes = self.window_bytes + READ_SIZE;
        } else {
            self.errors = self.errors + 1;
        }
    }

    /// Starts a new stretch after a report.
    pub fn reported(&mut self)
        ensures
            *final(self) == (Meter {
                total_bytes: old(self).total_bytes,
                window_bytes: 0,
                errors: old(self).errors,
            }),
    {
        self.window_bytes = 0;
    }
}

/// The line of a report.
pub open spec fn progress_shown(
    mb: Seq<char>,
    current: Seq<char>,
    average: Seq<char>,
    reads: nat,
) -> Seq<char> {
    "  "@ + pad_start(mb, 6, ' ') + " MB  current: "@ + pad_start(current, 5, ' ')
        + " MB/s  avg: "@ + pad_start(average, 5, ' ') + " MB/s  reads: "@ + dec(reads)
}

/// The line of a report. The millions of bytes and the speeds are given as they
/// are shown.
pub fn progress_line(mb: &str, current: &str, average: &str, reads: usize) -> (r: String)
    ensures
        r@ == progress_shown(mb@, current@, average@, reads as nat),
{
    let mut s = "  ".to_owned();
    s.append(pad_start_text(mb, 6, ' ').as_str());
    s.append(" MB  current: ");
    s.append(pad_start_text(current, 5, ' ').as_str());
    s.append(" MB/s  avg: ");
    s.append(pad_start_text(average, 5, ' ').as_str());
    s.append(" MB/s  reads: ");
    push_dec(&mut s, reads as u64);
    s
}

/// The last line of a run.
pub open spec fn total_shown(
    mb: Seq<char>,
    secs: Seq<char>,
    speed: Seq<char>,
    errors: nat,
    current_kbs: nat,
) -> Seq<char> {
    "  TOTAL: "@ + mb + " MB in "@ + secs + "s = "@ + speed + " MB/s  errors: "@ + dec(errors)
        + "  mode_sense: "@ + dec(current_kbs) + " KB/s"@
}

/// The last line of a run.
pub fn total_line(mb: &str, secs: &str, speed: &str, errors: u32, current_kbs: u16) -> (r: String)
    ensures
        r@ == total_shown(mb@, secs@, speed@, errors as nat, current_kbs as nat),
{
    let mut s = "  TOTAL: ".to_owned();
    s.append(mb);
    s.append(" MB in ");
    s.append(secs);
    s.append("s = ");
    s.append(speed);
    s.append(" MB/s  errors: ");
    push_dec(&mut s, errors as u64);
    s.append("  mode_sense: ");
    push_dec(&mut s, current_kbs as u64);
    s.append(" KB/s");
    s
}

} // verus!
