//! The tree of titles: what its boxes show, and which box stands for which row.

use vstd::prelude::*;
use vstd::string::*;

verus! {

/// How much of a row is ticked.
#[derive(Clone, Copy, Debug, PartialEq, Eq, Structural)]
pub enum Check {
    Off,
    Mixed,
    On,
}

/// How a box is drawn.
#[derive(Clone, Copy, Debug, PartialEq, Eq, Structural)]
pub struct Paint {
    pub inconsistent: bool,
    pub active: bool,
}

/// How a box is drawn.
pub fn paint(state: Check) -> (r: Paint)
    ensures
        r.inconsistent == (state == Check::Mixed),
        r.active == (state != Check::Off),
{
    Paint { inconsistent: state == Check::Mixed, active: state != Check::Off }
}

/// The text of a cell: nothing where there is no such row.
pub fn cell_text(cells: &Vec<String>, idx: usize) -> (r: String)
    ensures
        r@ == (if idx < cells@.len() {
            cells@[idx as int]@
        } else {
            Seq::empty()
        }),
{
    if idx < cells.len() {
        cells[idx].clone()
    } else {
        let r = String::new();
        assert(r@ =~= Seq::empty());
        r
    }
}

/// The rows below a row, where there are any.
pub fn children(kids: &Vec<Vec<usize>>, idx: usize) -> (r: Option<Vec<usize>>)
    ensures
        match r {
            Some(v) => idx < kids@.len() && kids@[idx as int]@.len() > 0 && v@
                == kids@[idx as int]@,
            None => idx >= kids@.len() || kids@[idx as int]@.len() == 0,
        },
{
    if idx < kids.len() && kids[idx].len() > 0 {
        Some(vstd::slice::slice_to_vec(kids[idx].as_slice()))
    } else {
        None
    }
}

/// A box that stands for a row, and what reports clicks on it.
#[derive(Clone, Copy, Debug, PartialEq, Eq, Structural)]
pub struct Bound {
    pub idx: usize,
    pub widget: u64,
    pub handler: u64,
}

/// The boxes that stand for rows. They are used again for other rows when the
/// tree is scrolled.
#[derive(Clone, Debug)]
pub struct BoundBoxes {
    pub boxes: Vec<Bound>,
}

impl View for BoundBoxes {
    type V = Seq<Bound>;

    open spec fn view(&self) -> Seq<Bound> {
        self.boxes@
    }
}

/// The position of a box from `i` on.
pub open spec fn box_position(boxes: Seq<Bound>, widget: u64, i: int) -> Option<int>
    decreases boxes.len() - i,
{
    if i < 0 || i >= boxes.len() {
        None
    } else if boxes[i].widget == widget {
        Some(i)
    } else {
        box_position(boxes, widget, i + 1)
    }
}

/// What the boxes that stand for rows with a tick look like, of the first `n`.
pub open spec fn repainted(boxes: Seq<Bound>, checks: Seq<Option<Check>>, n: nat) -> Seq<
    (u64, Check),
>
    decreases n,
{
    if n == 0 {
        Seq::empty()
    } else {
        let before = repainted(boxes, checks, (n - 1) as nat);
        let b = boxes[n - 1];
        if b.idx < checks.len() && checks[b.idx as int] is Some {
            before.push((b.widget, checks[b.idx as int]->0))
        } else {
            before
        }
    }
}

proof fn lemma_box_position(boxes: Seq<Bound>, widget: u64, i: int)
    requires
        0 <= i,
    ensures
        match box_position(boxes, widget, i) {
            Some(p) => i <= p < boxes.len() && boxes[p].widget == widget,
            None => forall|j: int| i <= j < boxes.len() ==> boxes[j].widget != widget,
        },
    decreases boxes.len() - i,
{
    if i < boxes.len() && boxes[i].widget != widget {
        lemma_box_position(boxes, widget, i + 1);
    }
}

impl BoundBoxes {
    /// No box stands for a row.
    pub fn new() -> (r: Self)
        ensures
            r@.len() == 0,
    {
        BoundBoxes { boxes: Vec::new() }
    }

    /// A box stands for a row from now on.
    pub fn bind(&mut self, idx: usize, widget: u64, handler: u64)
        ensures
            final(self)@ == old(self)@.push(Bound { idx, widget, handler }),
    {
        self.boxes.push(Bound { idx, widget, handler });
    }

    /// A box stands for its row no longer. What reported clicks on it is given
    /// back, to be taken off the box.
    pub fn unbind(&mut self, widget: u64) -> (r: Option<u64>)
        ensures
            match box_position(old(self)@, widget, 0) {
                Some(p) => r == Some(old(self)@[p].handler) && final(self)@ == old(self)@.remove(
                    p,
                ),
                None => r is None && final(self)@ == old(self)@,
            },
    {
        let mut i: usize = 0;
        while i < self.boxes.len()
            invariant
                i <= self.boxes@.len(),
                self@ == old(self)@,
                box_position(self@, widget, 0) == box_position(self@, widget, i as int),
            decreases self.boxes@.len() - i,
        {
            if self.boxes[i].widget == widget {
                let gone = self.boxes.remove(i);
                return Some(gone.handler);
            }
            i = i + 1;
        }
        None
    }

    /// What the boxes look like after the ticks have changed. A box whose row is
    /// gone, or has none, is left alone.
    pub fn sync_checks(&self, checks: &Vec<Option<Check>>) -> (r: Vec<(u64, Check)>)
        ensures
            r@ == repainted(self@, checks@, self@.len()),
    {
        let mut out: Vec<(u64, Check)> = Vec::new();
        for i in 0..self.boxes.len()
            invariant
                out@ == repainted(self@, checks@, i as nat),
        {
            let b = self.boxes[i];
            if b.idx < checks.len() {
                match checks[b.idx] {
                    Some(state) => out.push((b.widget, state)),
                    None => {},
                }
            }
        }
        out
    }
}

/// No box stands for two rows.
pub open spec fn boxes_differ(boxes: Seq<Bound>) -> bool {
    forall|i: int, j: int|
        0 <= i < j < boxes.len() ==> (#[trigger] boxes[i]).widget != (#[trigger] boxes[j]).widget
}

/// Law: a box that is bound once and then let go leaves nothing behind that
/// could report a row it no longer stands for.
pub proof fn law_unbound_boxes_report_nothing(boxes: Seq<Bound>, widget: u64)
    requires
        boxes_differ(boxes),
        box_position(boxes, widget, 0) is Some,
    ensures
        box_position(boxes.remove(box_position(boxes, widget, 0)->0), widget, 0) is None,
        boxes_differ(boxes.remove(box_position(boxes, widget, 0)->0)),
{
    lemma_box_position(boxes, widget, 0);
    let p = box_position(boxes, widget, 0)->0;
    let rest = boxes.remove(p);
    assert forall|j: int| 0 <= j < rest.len() implies rest[j].widget != widget by {
        if j < p {
            assert(rest[j] == boxes[j]);
            assert(boxes[j].widget != boxes[p].widget);
        } else {
            assert(rest[j] == boxes[j + 1]);
            assert(boxes[p].widget != boxes[j + 1].widget);
        }
    }
    lemma_box_position(rest, widget, 0);
    assert forall|i: int, j: int| 0 <= i < j < rest.len() implies (#[trigger] rest[i]).widget != (
    #[trigger] rest[j]).widget by {
        let a = if i < p {
            i
        } else {
            i + 1
        };
        let b = if j < p {
            j
        } else {
            j + 1
        };
        assert(rest[i] == boxes[a]);
        assert(rest[j] == boxes[b]);
    }
}

/// Law: a box is bound and let go again without a trace on the others.
pub proof fn law_binding_is_undone(boxes: Seq<Bound>, b: Bound)
    requires
        box_position(boxes, b.widget, 0) is None,
    ensures
        box_position(boxes.push(b), b.widget, 0) == Some(boxes.len() as int),
        boxes.push(b).remove(boxes.len() as int) == boxes,
{
    let more = boxes.push(b);
    lemma_box_position(boxes, b.widget, 0);
    lemma_box_position(more, b.widget, 0);
    let p = box_position(more, b.widget, 0);
    if p is Some && p->0 < boxes.len() {
        assert(more[p->0] == boxes[p->0]);
    }
    if p is None {
        assert(more[boxes.len() as int] == b);
    }
    assert(more.remove(boxes.len() as int) =~= boxes);
}

} // verus!
