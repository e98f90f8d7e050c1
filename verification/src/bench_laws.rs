//! What holds of every run of the speed test.

use crate::bench::{
    device_from, progress_shown, runs_for, sectors_on, speed_shown, speeds_in, tells_again,
    total_shown,
};
use crate::cli_laws::not_among;
use crate::reading::{ends_with, lemma_has_part, lemma_starts, starts_with};
use crate::text::{dec, has_text, pad_start};
use vstd::prelude::*;
use vstd::string::*;

verus! {

/// The two bytes of a number, the higher first.
pub open spec fn two_bytes(n: u16) -> Seq<u8> {
    seq![(n / 256) as u8, (n % 256) as u8]
}

/// Law: the speeds of a drive are read from where it tells them: behind a header of
/// eight bytes, the ninth and tenth byte of the page are its fastest speed, and the
/// two behind them its present one, the higher byte first.
pub proof fn law_speeds_are_read(
    header: Seq<u8>,
    page: Seq<u8>,
    fastest: u16,
    present: u16,
    rest: Seq<u8>,
)
    requires
        header.len() == 8,
        page.len() == 8,
    ensures
        speeds_in(header + page + two_bytes(fastest) + two_bytes(present) + rest) == (
            fastest as nat,
            present as nat,
        ),
{
    let a = header + page + two_bytes(fastest) + two_bytes(present) + rest;
    assert(a[16] == (fastest / 256) as u8 && a[17] == (fastest % 256) as u8);
    assert(a[18] == (present / 256) as u8 && a[19] == (present % 256) as u8);
}

/// Law: a disc has one sector more than the number of its last, which is told in
/// four bytes, the highest first.
pub proof fn law_sectors_are_counted(high: u16, low: u16, rest: Seq<u8>)
    ensures
        sectors_on(two_bytes(high) + two_bytes(low) + rest) == 65536 * high + low + 1,
{
    let a = two_bytes(high) + two_bytes(low) + rest;
    assert(a[0] == (high / 256) as u8 && a[1] == (high % 256) as u8);
    assert(a[2] == (low / 256) as u8 && a[3] == (low % 256) as u8);
}

/// Law: the drive that is tested is the one that the last flag for it names; without
/// the flag none is named.
pub proof fn law_device_is_the_one_named(
    pre: Seq<Seq<char>>,
    flag: Seq<char>,
    value: Seq<char>,
    post: Seq<Seq<char>>,
)
    requires
        flag == "--device"@ || flag == "-d"@,
        not_among(pre, "--device"@) && not_among(pre, "-d"@),
        not_among(post, "--device"@) && not_among(post, "-d"@),
    ensures
        device_from(pre + seq![flag, value] + post, 0, None) == Some(value),
        device_from(pre, 0, None) is None,
{
    let args = pre + seq![flag, value] + post;
    let i = pre.len() as int;
    lemma_device_over(pre, 0, i, None);
    assert forall|j: int| 0 <= j < i implies #[trigger] args[j] != "--device"@ && args[j]
        != "-d"@ by {
        assert(args[j] == pre[j]);
    }
    lemma_device_over(args, 0, i, None);
    assert(args[i] == flag && args[i + 1] == value);
    assert forall|j: int| i + 2 <= j < args.len() implies #[trigger] args[j] != "--device"@
        && args[j] != "-d"@ by {
        assert(args[j] == post[j - i - 2]);
    }
    lemma_device_over(args, i + 2, args.len() as int, Some(value));
}

proof fn lemma_device_over(args: Seq<Seq<char>>, i: int, k: int, found: Option<Seq<char>>)
    requires
        0 <= i <= k <= args.len(),
        forall|j: int| i <= j < k ==> #[trigger] args[j] != "--device"@ && args[j] != "-d"@,
    ensures
        device_from(args, i, found) == device_from(args, k, found),
    decreases k - i,
{
    if i < k {
        lemma_device_over(args, i + 1, k, found);
    }
}

/// Law: the runs are told apart by their numbers; the first leaves the speed alone,
/// the third sets the drive's own fastest, and the others the highest there is; only
/// the fourth sets it again, after every hundred reads; all start where the contents
/// do, but the last at three quarters of the disc.
pub proof fn law_runs_are_as_labelled(max_kbs: u16, sectors: nat, k: int)
    ensures
        ({
            let r = runs_for(max_kbs, sectors);
            &&& r.len() == 5
            &&& 0 <= k < 5 ==> {
                &&& starts_with(r[k].label, "Test "@ + dec((k + 1) as nat) + ": "@)
                &&& k == 0 ==> r[k].speed_kbs == 0
                &&& k == 2 ==> r[k].speed_kbs == max_kbs && has_text(
                    r[k].label,
                    dec(max_kbs as nat),
                )
                &&& k == 1 || k == 3 || k == 4 ==> r[k].speed_kbs == 0xffff
                &&& k == 3 ==> r[k].speed_interval == 100
                &&& k != 3 ==> r[k].speed_interval == 0
                &&& k < 4 ==> r[k].start_lba == 0x20000
                &&& k == 4 ==> 4 * r[k].start_lba <= 3 * sectors < 4 * r[k].start_lba + 4
            }
        }),
{
    reveal_strlit("Test ");
    reveal_strlit(": ");
    reveal_strlit("Test 1: No SET_CD_SPEED");
    reveal_strlit("Test 2: SET_CD_SPEED 0xFFFF once");
    reveal_strlit("Test 3: SET_CD_SPEED ");
    reveal_strlit("Test 4: SET_CD_SPEED 0xFFFF every 100 reads");
    reveal_strlit("Test 5: Outer disc + SET_CD_SPEED 0xFFFF once");
    let r = runs_for(max_kbs, sectors);
    lemma_has_part("Test 3: SET_CD_SPEED "@, dec(max_kbs as nat), " (exact max) once"@);
    if 0 <= k < 5 {
        assert(dec((k + 1) as nat) =~= seq![crate::text::digit((k + 1) as nat)]);
        let h = "Test "@ + dec((k + 1) as nat) + ": "@;
        assert(h.len() == 8);
        assert(r[k].label.take(8) =~= h);
    }
}

/// Law: a drive is told its speed again before every so many reads, counted from the
/// first, and never between; not at all where it is told none, or only once.
pub proof fn law_speed_is_told_at_intervals(speed: u16, interval: nat, k: nat, d: nat)
    requires
        0 < d,
    ensures
        speed > 0 && interval > 0 && k > 0 ==> tells_again(speed, interval, k * interval),
        speed > 0 && interval > 0 && d < interval ==> !tells_again(
            speed,
            interval,
            k * interval + d,
        ),
        !tells_again(0, interval, k),
        !tells_again(speed, 0, k),
        !tells_again(speed, interval, 0),
{
    if interval > 0 {
        vstd::arithmetic::div_mod::lemma_mod_multiples_basic(k as int, interval as int);
        if k > 0 {
            assert(k * interval > 0) by (nonlinear_arith)
                requires
                    k > 0,
                    interval > 0,
            ;
        }
        if d < interval {
            vstd::arithmetic::div_mod::lemma_mod_multiples_vanish(
                k as int,
                d as int,
                interval as int,
            );
            vstd::arithmetic::div_mod::lemma_small_mod(d, interval);
            assert(interval * k + d == k * interval + d) by (nonlinear_arith);
        }
    }
}

/// Law: what is shown of a run has what was read, the two speeds, and how many reads
/// there were, in this order; at the end what was read, in what time and at what
/// speed, the errors, and the speed that the drive tells.
pub proof fn law_run_is_shown(
    mb: Seq<char>,
    current: Seq<char>,
    average: Seq<char>,
    reads: nat,
    secs: Seq<char>,
    speed: Seq<char>,
    errors: nat,
    kbs: nat,
)
    ensures
        ({
            let p = progress_shown(mb, current, average, reads);
            &&& has_text(p, pad_start(mb, 6, ' ') + " MB"@)
            &&& has_text(p, "current: "@ + pad_start(current, 5, ' ') + " MB/s"@)
            &&& has_text(p, "avg: "@ + pad_start(average, 5, ' ') + " MB/s"@)
            &&& ends_with(p, "reads: "@ + dec(reads))
        }),
        ({
            let t = total_shown(mb, secs, speed, errors, kbs);
            &&& starts_with(t, "  TOTAL: "@ + mb + " MB in "@ + secs + "s = "@ + speed + " MB/s"@)
            &&& ends_with(
                t,
                "  errors: "@ + dec(errors) + "  mode_sense: "@ + dec(kbs) + " KB/s"@,
            )
        }),
{
    reveal_strlit(" MB/s  errors: ");
    reveal_strlit("  errors: ");
    reveal_strlit(" MB/s");
    let m = pad_start(mb, 6, ' ');
    let c = pad_start(current, 5, ' ');
    let a = pad_start(average, 5, ' ');
    lemma_shown_parts(m, c, a, dec(reads));
    let t = total_shown(mb, secs, speed, errors, kbs);
    let head = "  TOTAL: "@ + mb + " MB in "@ + secs + "s = "@ + speed;
    let tail = "  errors: "@ + dec(errors) + "  mode_sense: "@ + dec(kbs) + " KB/s"@;
    assert(" MB/s  errors: "@ =~= " MB/s"@ + "  errors: "@);
    lemma_starts(head + " MB/s"@, tail);
    assert(head + " MB/s"@ + tail =~= t);
}

proof fn lemma_shown_parts(m: Seq<char>, c: Seq<char>, a: Seq<char>, n: Seq<char>)
    ensures
        ({
            let p = "  "@ + m + " MB  current: "@ + c + " MB/s  avg: "@ + a + " MB/s  reads: "@ + n;
            &&& has_text(p, m + " MB"@)
            &&& has_text(p, "current: "@ + c + " MB/s"@)
            &&& has_text(p, "avg: "@ + a + " MB/s"@)
            &&& ends_with(p, "reads: "@ + n)
        }),
{
    reveal_strlit(" MB  current: ");
    reveal_strlit(" MB/s  avg: ");
    reveal_strlit(" MB/s  reads: ");
    reveal_strlit(" MB");
    reveal_strlit("current: ");
    reveal_strlit("avg: ");
    reveal_strlit("reads: ");
    reveal_strlit(" MB/s");
    reveal_strlit("  ");
    assert(" MB  current: "@ =~= " MB"@ + "  "@ + "current: "@);
    assert(" MB/s  avg: "@ =~= " MB/s"@ + "  "@ + "avg: "@);
    assert(" MB/s  reads: "@ =~= " MB/s"@ + "  "@ + "reads: "@);
    let p = "  "@ + m + " MB  current: "@ + c + " MB/s  avg: "@ + a + " MB/s  reads: "@ + n;
    let r1 = "  "@ + "current: "@ + c + " MB/s  avg: "@ + a + " MB/s  reads: "@ + n;
    lemma_has_part("  "@, m + " MB"@, r1);
    assert("  "@ + (m + " MB"@) + r1 =~= p);
    let l2 = "  "@ + m + " MB"@ + "  "@;
    let r2 = "  "@ + "avg: "@ + a + " MB/s  reads: "@ + n;
    lemma_has_part(l2, "current: "@ + c + " MB/s"@, r2);
    assert(l2 + ("current: "@ + c + " MB/s"@) + r2 =~= p);
    let l3 = "  "@ + m + " MB  current: "@ + c + " MB/s"@ + "  "@;
    let r3 = "  "@ + "reads: "@ + n;
    lemma_has_part(l3, "avg: "@ + a + " MB/s"@, r3);
    assert(l3 + ("avg: "@ + a + " MB/s"@) + r3 =~= p);
    let l4 = "  "@ + m + " MB  current: "@ + c + " MB/s  avg: "@ + a + " MB/s"@ + "  "@;
    lemma_starts(l4, "reads: "@ + n);
    assert(l4 + ("reads: "@ + n) =~= p);
}

/// Law: what is said of the speed is the speed that the drive is told, and whether
/// once or after how many reads.
pub proof fn law_speed_is_shown(speed: nat, interval: nat)
    ensures
        speed == 0 ==> speed_shown(speed, interval) == "  No SET_CD_SPEED"@,
        speed > 0 ==> starts_with(speed_shown(speed, interval), "  SET_CD_SPEED "@ + dec(speed)),
        speed > 0 && interval == 0 ==> ends_with(speed_shown(speed, interval), " sent once"@),
        speed > 0 && interval > 0 ==> ends_with(
            speed_shown(speed, interval),
            " every "@ + dec(interval) + " reads"@,
        ),
{
    let head = "  SET_CD_SPEED "@ + dec(speed);
    lemma_starts(head, " sent once"@);
    let tail = " every "@ + dec(interval) + " reads"@;
    lemma_starts(head, tail);
    assert(head + tail =~= head + " every "@ + dec(interval) + " reads"@);
}

} // verus!
