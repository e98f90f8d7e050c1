//! What a title number stands for. A number is a place in one scan; a scan made
//! later may put another title there.

use crate::disc::Title;
use crate::strings::{sanitize_display, sanitized};
use crate::text::{dec, push_dec, same_text};
use vstd::prelude::*;
use vstd::string::*;

verus! {

/// What tells a title from every other: its playlist, by name and by number,
/// and the sectors that it is read from.
#[derive(Clone, Debug)]
pub struct TitleIdentity {
    pub playlist: String,
    pub playlist_id: u16,
    pub extents: Vec<(u32, u32)>,
}

/// What a [`TitleIdentity`] says.
pub struct TitleMark {
    pub playlist: Seq<char>,
    pub playlist_id: u16,
    pub extents: Seq<(u32, u32)>,
}

impl View for TitleIdentity {
    type V = TitleMark;

    open spec fn view(&self) -> TitleMark {
        TitleMark {
            playlist: self.playlist@,
            playlist_id: self.playlist_id,
            extents: self.extents@,
        }
    }
}

/// What each of a list of identities says.
pub open spec fn marks(v: Seq<TitleIdentity>) -> Seq<TitleMark> {
    v.map_values(|t: TitleIdentity| t@)
}

/// What tells the title `t` from every other.
pub open spec fn mark_of(t: Title) -> TitleMark {
    TitleMark { playlist: t.playlist@, playlist_id: t.playlist_id, extents: t.extents@ }
}

/// The same runs of sectors again.
fn copy_extents(v: &Vec<(u32, u32)>) -> (r: Vec<(u32, u32)>)
    ensures
        r@ == v@,
{
    let mut r: Vec<(u32, u32)> = Vec::new();
    for i in 0..v.len()
        invariant
            r@ == v@.take(i as int),
    {
        r.push(v[i]);
        assert(r@ =~= v@.take(i + 1));
    }
    assert(v@.take(v@.len() as int) =~= v@);
    r
}

impl TitleIdentity {
    /// What tells a title from every other.
    pub fn of(t: &Title) -> (r: Self)
        ensures
            r@ == mark_of(*t),
    {
        TitleIdentity {
            playlist: t.playlist.clone(),
            playlist_id: t.playlist_id,
            extents: copy_extents(&t.extents),
        }
    }

    /// The title in a message: the name of its playlist, fit to be shown.
    pub fn describe(&self) -> (r: String)
        ensures
            r@ == sanitized(self@.playlist),
    {
        sanitize_display(self.playlist.as_str())
    }

    /// Whether two titles are the same.
    pub fn same(&self, other: &TitleIdentity) -> (r: bool)
        ensures
            r == (self@ == other@),
    {
        if self.playlist_id != other.playlist_id || !same_text(
            self.playlist.as_str(),
            other.playlist.as_str(),
        ) {
            return false;
        }
        if self.extents.len() != other.extents.len() {
            return false;
        }
        for i in 0..self.extents.len()
            invariant
                self.extents@.len() == other.extents@.len(),
                forall|j: int| 0 <= j < i ==> self.extents@[j] == other.extents@[j],
        {
            let a = self.extents[i];
            let b = other.extents[i];
            if a.0 != b.0 || a.1 != b.1 {
                assert(self@.extents[i as int] != other@.extents[i as int]);
                return false;
            }
        }
        assert(self@.extents =~= other@.extents);
        true
    }
}

/// What tells each title of a disc from every other.
pub fn identities(titles: &Vec<Title>) -> (r: Vec<TitleIdentity>)
    ensures
        marks(r@) == titles@.map_values(|t: Title| mark_of(t)),
{
    let mut r: Vec<TitleIdentity> = Vec::new();
    let ghost wanted = titles@.map_values(|t: Title| mark_of(t));
    for i in 0..titles.len()
        invariant
            wanted == titles@.map_values(|t: Title| mark_of(t)),
            marks(r@) == wanted.take(i as int),
    {
        let ghost before = marks(r@);
        let id = TitleIdentity::of(&titles[i]);
        r.push(id);
        assert(marks(r@) =~= before.push(id@));
        assert(wanted[i as int] == id@);
        assert(marks(r@) =~= wanted.take(i + 1));
    }
    assert(wanted.take(titles@.len() as int) =~= wanted);
    r
}

/// Where `mark` first stands in `list`, at position `i` or later.
pub open spec fn position_of(list: Seq<TitleMark>, mark: TitleMark, i: int) -> Option<int>
    decreases list.len() - i,
{
    if i < 0 || i >= list.len() {
        None
    } else if list[i] == mark {
        Some(i)
    } else {
        position_of(list, mark, i + 1)
    }
}

/// What is said of a title that a recovered image does not have.
pub open spec fn missing_text(number: nat, mark: TitleMark) -> Seq<char> {
    "Title "@ + dec(number + 1) + " ("@ + sanitized(mark.playlist)
        + ") is not in the recovered image — the damage destroyed its playlist, so it cannot be muxed."@
}

/// Where the selected titles stand in another scan, the first `n` of them. A
/// title without an identity keeps its number.
pub open spec fn remapped(
    titles: Seq<usize>,
    ids: Seq<TitleMark>,
    staged: Seq<TitleMark>,
    n: nat,
) -> Result<Seq<usize>, Seq<char>>
    decreases n,
{
    if n == 0 {
        Ok(Seq::empty())
    } else {
        match remapped(titles, ids, staged, (n - 1) as nat) {
            Err(e) => Err(e),
            Ok(done) => {
                let was = titles[n - 1];
                if was >= ids.len() {
                    Ok(done.push(was))
                } else {
                    match position_of(staged, ids[was as int], 0) {
                        Some(now) => Ok(done.push(now as usize)),
                        None => Err(missing_text(was as nat, ids[was as int])),
                    }
                }
            },
        }
    }
}

fn find_identity(list: &Vec<TitleIdentity>, id: &TitleIdentity) -> (r: Option<usize>)
    ensures
        match r {
            Some(i) => position_of(marks(list@), id@, 0) == Some(i as int) && i < list@.len(),
            None => position_of(marks(list@), id@, 0) is None,
        },
{
    let ghost all = marks(list@);
    for i in 0..list.len()
        invariant
            all == marks(list@),
            all.len() == list@.len(),
            position_of(all, id@, 0) == position_of(all, id@, i as int),
    {
        assert(all[i as int] == list@[i as int]@);
        if list[i].same(id) {
            return Some(i);
        }
    }
    None
}

/// An error is passed on to the end.
proof fn lemma_remap_error(
    titles: Seq<usize>,
    ids: Seq<TitleMark>,
    staged: Seq<TitleMark>,
    m: nat,
    n: nat,
)
    requires
        m <= n,
        remapped(titles, ids, staged, m) is Err,
    ensures
        remapped(titles, ids, staged, n) == remapped(titles, ids, staged, m),
    decreases n,
{
    if m < n {
        lemma_remap_error(titles, ids, staged, m, (n - 1) as nat);
    }
}

/// Where the selected titles stand in another scan, by what they are. A title
/// that is not there is an error: the others alone would be less than was asked
/// for.
pub fn remap_against(
    titles: &[usize],
    ids: &Vec<TitleIdentity>,
    staged: &Vec<TitleIdentity>,
) -> (r: Result<Vec<usize>, String>)
    ensures
        match r {
            Ok(v) => remapped(titles@, marks(ids@), marks(staged@), titles@.len()) == Ok::<
                Seq<usize>,
                Seq<char>,
            >(v@),
            Err(e) => remapped(titles@, marks(ids@), marks(staged@), titles@.len()) == Err::<
                Seq<usize>,
                Seq<char>,
            >(e@),
        },
{
    let mut out: Vec<usize> = Vec::new();
    let ghost known = marks(ids@);
    let ghost there = marks(staged@);
    assert(out@ =~= Seq::empty());
    for i in 0..titles.len()
        invariant
            known == marks(ids@),
            known.len() == ids@.len(),
            there == marks(staged@),
            remapped(titles@, known, there, i as nat) == Ok::<Seq<usize>, Seq<char>>(out@),
    {
        let was: usize = titles[i];
        if was >= ids.len() {
            out.push(was);
        } else {
            assert(known[was as int] == ids@[was as int]@);
            match find_identity(staged, &ids[was]) {
                Some(now) => {
                    out.push(now);
                },
                None => {
                    let mut e = "Title ".to_owned();
                    push_dec_next(&mut e, was);
                    e.append(" (");
                    e.append(ids[was].describe().as_str());
                    e.append(
                        ") is not in the recovered image — the damage destroyed its playlist, so it cannot be muxed.",
                    );
                    proof {
                        lemma_remap_error(titles@, known, there, (i + 1) as nat, titles@.len());
                    }
                    return Err(e);
                },
            }
        }
    }
    Ok(out)
}

/// Appends the number after `n`.
pub fn push_dec_next(out: &mut String, n: usize)
    ensures
        final(out)@ == old(out)@ + dec((n + 1) as nat),
{
    if n < usize::MAX {
        push_dec(out, n as u64 + 1);
    } else {
        push_dec_wide(out, n as u128 + 1);
    }
}

fn push_dec_wide(out: &mut String, n: u128)
    ensures
        final(out)@ == old(out)@ + dec(n as nat),
    decreases n,
{
    if n >= 10 {
        push_dec_wide(out, n / 10);
    }
    let d: u8 = (n % 10) as u8;
    out.push((48 + d) as char);
    assert(out@ =~= old(out)@ + dec(n as nat));
}

/// The selection for a recovered image: where nothing is selected, or nothing
/// is known of what the numbers stood for, they stay as they are.
pub open spec fn remapped_selection(
    titles: Seq<usize>,
    ids: Seq<TitleMark>,
    staged: Seq<TitleMark>,
) -> Result<Seq<usize>, Seq<char>> {
    if titles.len() == 0 || ids.len() == 0 {
        Ok(titles)
    } else {
        remapped(titles, ids, staged, titles.len())
    }
}

/// Whether a recovered image has to be scanned before its titles are selected.
pub fn needs_rescan(titles: &[usize], ids: &Vec<TitleIdentity>) -> (r: bool)
    ensures
        r == (titles@.len() > 0 && ids@.len() > 0),
{
    titles.len() > 0 && ids.len() > 0
}

/// The selection for a recovered image, whose titles are `staged`.
pub fn remap_titles_by_identity(
    titles: &[usize],
    ids: &Vec<TitleIdentity>,
    staged: &Vec<TitleIdentity>,
) -> (r: Result<Vec<usize>, String>)
    ensures
        match r {
            Ok(v) => remapped_selection(titles@, marks(ids@), marks(staged@)) == Ok::<
                Seq<usize>,
                Seq<char>,
            >(v@),
            Err(e) => remapped_selection(titles@, marks(ids@), marks(staged@)) == Err::<
                Seq<usize>,
                Seq<char>,
            >(e@),
        },
{
    assert(marks(ids@).len() == ids@.len());
    if needs_rescan(titles, ids) {
        remap_against(titles, ids, staged)
    } else {
        Ok(vstd::slice::slice_to_vec(titles))
    }
}

/// What is said of a title that another scan has changed.
pub open spec fn changed_text(idx: nat, expected: TitleMark, found: TitleMark) -> Seq<char> {
    "Title "@ + dec(idx + 1) + " changed between scans: it was "@ + sanitized(expected.playlist)
        + ", the drive now reports "@ + sanitized(found.playlist)
        + " at that position. Nothing was written for it."@
}

/// What is said of a title that another scan does not have.
pub open spec fn gone_text(idx: nat, expected: TitleMark, count: nat) -> Seq<char> {
    "Title "@ + dec(idx + 1) + " ("@ + sanitized(expected.playlist)
        + ") is no longer on the disc — the rescan lists only "@ + dec(count) + " title(s)."@
}

/// Whether the title at `idx` of a scan is the one that was meant.
pub open spec fn still_there(expected: Option<TitleMark>, scanned: Seq<TitleMark>, idx: nat) -> Result<
    (),
    Seq<char>,
> {
    match expected {
        None => Ok(()),
        Some(e) => if idx >= scanned.len() {
            Err(gone_text(idx, e, scanned.len()))
        } else if scanned[idx as int] == e {
            Ok(())
        } else {
            Err(changed_text(idx, e, scanned[idx as int]))
        },
    }
}

/// What an optional identity says.
pub open spec fn opt_mark(o: Option<&TitleIdentity>) -> Option<TitleMark> {
    match o {
        Some(t) => Some(t@),
        None => None,
    }
}

/// Confirms that the title at `idx` of a new scan is the one that was meant.
/// Where nothing is known of what was meant, there is nothing to confirm.
pub fn verify_title_identity(
    expected: Option<&TitleIdentity>,
    scanned: &Vec<TitleIdentity>,
    idx: usize,
) -> (r: Result<(), String>)
    ensures
        match r {
            Ok(_) => still_there(opt_mark(expected), marks(scanned@), idx as nat) is Ok,
            Err(e) => still_there(opt_mark(expected), marks(scanned@), idx as nat) == Err::<
                (),
                Seq<char>,
            >(e@),
        },
{
    let ghost all = marks(scanned@);
    assert(all.len() == scanned@.len());
    match expected {
        None => Ok(()),
        Some(id) => {
            if idx >= scanned.len() {
                let mut e = "Title ".to_owned();
                push_dec_next(&mut e, idx);
                e.append(" (");
                e.append(id.describe().as_str());
                e.append(") is no longer on the disc — the rescan lists only ");
                push_dec(&mut e, scanned.len() as u64);
                e.append(" title(s).");
                return Err(e);
            }
            assert(all[idx as int] == scanned@[idx as int]@);
            if scanned[idx].same(id) {
                Ok(())
            } else {
                let mut e = "Title ".to_owned();
                push_dec_next(&mut e, idx);
                e.append(" changed between scans: it was ");
                e.append(id.describe().as_str());
                e.append(", the drive now reports ");
                e.append(scanned[idx].describe().as_str());
                e.append(" at that position. Nothing was written for it.");
                Err(e)
            }
        },
    }
}

/// What was known of title number `t`.
pub open spec fn picked_mark(picked: Seq<TitleMark>, t: usize) -> Option<TitleMark> {
    if t < picked.len() {
        Some(picked[t as int])
    } else {
        None
    }
}

/// Whether the selected titles, from position `i` on, are still the ones that
/// were meant; if not, what is said of the first that is not.
pub open spec fn selection_holds(
    titles: Seq<usize>,
    picked: Seq<TitleMark>,
    scanned: Seq<TitleMark>,
    i: int,
) -> Result<(), Seq<char>>
    decreases titles.len() - i,
{
    if i < 0 || i >= titles.len() {
        Ok(())
    } else {
        match still_there(picked_mark(picked, titles[i]), scanned, titles[i] as nat) {
            Ok(_) => selection_holds(titles, picked, scanned, i + 1),
            Err(e) => Err(e),
        }
    }
}

/// Confirms that a whole selection still means what it meant when it was made.
pub fn verify_selection_identity(
    titles: &[usize],
    picked: &Vec<TitleIdentity>,
    scanned: &Vec<TitleIdentity>,
) -> (r: Result<(), String>)
    ensures
        match r {
            Ok(_) => selection_holds(titles@, marks(picked@), marks(scanned@), 0) is Ok,
            Err(e) => selection_holds(titles@, marks(picked@), marks(scanned@), 0) == Err::<
                (),
                Seq<char>,
            >(e@),
        },
{
    let ghost known = marks(picked@);
    for i in 0..titles.len()
        invariant
            known == marks(picked@),
            known.len() == picked@.len(),
            selection_holds(titles@, known, marks(scanned@), 0) == selection_holds(
                titles@,
                known,
                marks(scanned@),
                i as int,
            ),
    {
        let t: usize = titles[i];
        let expected = if t < picked.len() {
            assert(known[t as int] == picked@[t as int]@);
            Some(&picked[t])
        } else {
            None
        };
        match verify_title_identity(expected, scanned, t) {
            Ok(_) => {},
            Err(e) => {
                return Err(e);
            },
        }
    }
    Ok(())
}

/// Law: a remapped selection names the same titles: each selected title whose
/// identity is known stands, in the other scan, at the number it was given.
pub proof fn law_remapping_follows_the_title(
    titles: Seq<usize>,
    ids: Seq<TitleMark>,
    staged: Seq<TitleMark>,
    n: nat,
    i: int,
)
    requires
        n <= titles.len(),
        0 <= i < n,
        titles[i] < ids.len(),
        staged.len() <= usize::MAX,
        remapped(titles, ids, staged, n) is Ok,
    ensures
        remapped(titles, ids, staged, n)->Ok_0.len() == n,
        remapped(titles, ids, staged, n)->Ok_0[i] < staged.len(),
        staged[remapped(titles, ids, staged, n)->Ok_0[i] as int] == ids[titles[i] as int],
    decreases n,
{
    lemma_remap_len(titles, ids, staged, n);
    let done = remapped(titles, ids, staged, (n - 1) as nat)->Ok_0;
    lemma_remap_len(titles, ids, staged, (n - 1) as nat);
    if i < n - 1 {
        law_remapping_follows_the_title(titles, ids, staged, (n - 1) as nat, i);
        assert(remapped(titles, ids, staged, n)->Ok_0[i] == done[i]);
    } else {
        lemma_position(staged, ids[titles[i] as int], 0);
    }
}

pub proof fn lemma_remap_len(titles: Seq<usize>, ids: Seq<TitleMark>, staged: Seq<TitleMark>, n: nat)
    requires
        remapped(titles, ids, staged, n) is Ok,
    ensures
        remapped(titles, ids, staged, n)->Ok_0.len() == n,
    decreases n,
{
    if n > 0 {
        lemma_remap_len(titles, ids, staged, (n - 1) as nat);
    }
}

pub proof fn lemma_position(list: Seq<TitleMark>, mark: TitleMark, i: int)
    ensures
        position_of(list, mark, i) matches Some(p) ==> i <= p < list.len() && 0 <= p && list[p]
            == mark,
    decreases list.len() - i,
{
    if 0 <= i < list.len() && list[i] != mark {
        lemma_position(list, mark, i + 1);
    }
}

/// What is found is the first there is, and it is found where there is one.
pub proof fn lemma_position_is_first(list: Seq<TitleMark>, mark: TitleMark, i: int)
    requires
        0 <= i,
    ensures
        position_of(list, mark, i) matches Some(p) ==> forall|j: int|
            i <= j < p ==> #[trigger] list[j] != mark,
        position_of(list, mark, i) is None ==> forall|j: int|
            i <= j < list.len() ==> #[trigger] list[j] != mark,
    decreases list.len() - i,
{
    if i < list.len() && list[i] != mark {
        lemma_position_is_first(list, mark, i + 1);
    }
}

/// The titles of a list are all different.
pub open spec fn all_different(ids: Seq<TitleMark>) -> bool {
    forall|i: int, j: int| 0 <= i < j < ids.len() ==> #[trigger] ids[i] != #[trigger] ids[j]
}

/// Law: where the other scan lists the same titles in the same order, and no
/// two of them are the same, a selection stays as it is.
pub proof fn law_stable_scan_keeps_the_selection(titles: Seq<usize>, ids: Seq<TitleMark>, n: nat)
    requires
        n <= titles.len(),
        all_different(ids),
        ids.len() <= usize::MAX,
    ensures
        remapped(titles, ids, ids, n) == Ok::<Seq<usize>, Seq<char>>(titles.take(n as int)),
    decreases n,
{
    if n > 0 {
        law_stable_scan_keeps_the_selection(titles, ids, (n - 1) as nat);
        let was = titles[n - 1];
        if was < ids.len() {
            lemma_own_position(ids, was as int, 0);
        }
        assert(titles.take(n - 1).push(was) =~= titles.take(n as int));
    } else {
        assert(titles.take(0) =~= Seq::empty());
    }
}

proof fn lemma_own_position(ids: Seq<TitleMark>, p: int, i: int)
    requires
        all_different(ids),
        0 <= i <= p < ids.len(),
    ensures
        position_of(ids, ids[p], i) == Some(p),
    decreases ids.len() - i,
{
    if i < p {
        assert(ids[i] != ids[p]);
        lemma_own_position(ids, p, i + 1);
    }
}

/// Law: a selection that holds names the same titles in the new scan: each one
/// whose identity is known stands there at its own number.
pub proof fn law_verified_selection_is_the_same(
    titles: Seq<usize>,
    picked: Seq<TitleMark>,
    scanned: Seq<TitleMark>,
    i: int,
    j: int,
)
    requires
        0 <= i <= j < titles.len(),
        selection_holds(titles, picked, scanned, i) is Ok,
        titles[j] < picked.len(),
    ensures
        titles[j] < scanned.len(),
        scanned[titles[j] as int] == picked[titles[j] as int],
    decreases titles.len() - i,
{
    if i < j {
        law_verified_selection_is_the_same(titles, picked, scanned, i + 1, j);
    }
}

/// Law: a selection made without a scan has nothing to be held against, and
/// always holds.
pub proof fn law_unknown_selection_holds(titles: Seq<usize>, scanned: Seq<TitleMark>, i: int)
    requires
        0 <= i,
    ensures
        selection_holds(titles, Seq::empty(), scanned, i) is Ok,
    decreases titles.len() - i,
{
    if i < titles.len() {
        law_unknown_selection_holds(titles, scanned, i + 1);
    }
}

} // verus!
