//! Selection: clicks in the entity list and hits of a viewport ray.

use vstd::prelude::*;

verus! {

/// What is selected.
#[derive(Clone, Debug)]
pub struct SelectionModel {
    /// Selected rows, in the order they were selected.
    pub selected: Vec<u32>,
    /// The row under the pointer.
    pub hovered: Option<u32>,
}

/// Position of the first `id`, or the length.
pub open spec fn position_of(s: Seq<u32>, id: u32) -> int
    decreases s.len(),
{
    if s.len() == 0 || s[0] == id {
        0
    } else {
        1 + position_of(s.skip(1), id)
    }
}

/// A selection after a click on `id`: alone it selects `id` only; with the
/// control key it takes the first `id` out, or adds it at the end.
pub open spec fn clicked(s: Seq<u32>, id: u32, ctrl: bool) -> Seq<u32> {
    if !ctrl {
        seq![id]
    } else if s.contains(id) {
        s.remove(position_of(s, id))
    } else {
        s.push(id)
    }
}

proof fn lemma_position(s: Seq<u32>, id: u32, k: int)
    requires
        0 <= k < s.len(),
        s[k] == id,
        forall|j: int| 0 <= j < k ==> s[j] != id,
    ensures
        position_of(s, id) == k,
    decreases k,
{
    if k > 0 {
        assert(s[0] != id);
        assert forall|j: int| 0 <= j < k - 1 implies s.skip(1)[j] != id by {
            assert(s[j + 1] != id);
        }
        lemma_position(s.skip(1), id, k - 1);
    }
}

impl SelectionModel {
    /// Nothing selected.
    pub fn new() -> (r: Self)
        ensures
            r.selected@ == Seq::<u32>::empty(),
            r.hovered is None,
    {
        SelectionModel { selected: Vec::new(), hovered: None }
    }

    /// The position of a row in the selection.
    fn find(&self, id: u32) -> (r: Option<usize>)
        ensures
            match r {
                Some(k) => k < self.selected@.len() && self.selected@[k as int] == id && k
                    == position_of(self.selected@, id),
                None => !self.selected@.contains(id),
            },
    {
        let mut i: usize = 0;
        while i < self.selected.len()
            invariant
                i <= self.selected@.len(),
                forall|j: int| 0 <= j < i ==> self.selected@[j] != id,
            decreases self.selected@.len() - i,
        {
            if self.selected[i] == id {
                proof {
                    lemma_position(self.selected@, id, i as int);
                }
                return Some(i);
            }
            i = i + 1;
        }
        None
    }

    /// Whether a row is selected.
    pub fn contains(&self, id: u32) -> (r: bool)
        ensures
            r == self.selected@.contains(id),
    {
        self.find(id).is_some()
    }

    /// The row that was selected first.
    pub fn first(&self) -> (r: Option<u32>)
        ensures
            r == if self.selected@.len() > 0 {
                Some(self.selected@[0])
            } else {
                None
            },
    {
        if self.selected.len() > 0 {
            Some(self.selected[0])
        } else {
            None
        }
    }

    /// A click on a row of the entity list.
    pub fn click(&mut self, id: u32, ctrl: bool)
        ensures
            final(self).selected@ == clicked(old(self).selected@, id, ctrl),
            final(self).hovered == old(self).hovered,
    {
        if ctrl {
            match self.find(id) {
                Some(p) => {
                    self.selected.remove(p);
                },
                None => {
                    self.selected.push(id);
                },
            }
        } else {
            self.selected = vec![id];
        }
    }

    /// Selects what a viewport ray hit, or nothing.
    pub fn select_hit(&mut self, hit: Option<u32>)
        ensures
            final(self).hovered == old(self).hovered,
            final(self).selected@ == match hit {
                Some(id) => seq![id],
                None => Seq::<u32>::empty(),
            },
    {
        match hit {
            Some(id) => {
                self.selected = vec![id];
            },
            None => {
                self.selected.clear();
            },
        }
    }
}

impl Default for SelectionModel {
    /// Nothing selected.
    fn default() -> (r: Self)
        ensures
            r.selected@ == Seq::<u32>::empty(),
            r.hovered is None,
    {
        SelectionModel::new()
    }
}

/// Whether `i` is the nearest hit: no hit is nearer, and no earlier one is as
/// near.
pub open spec fn is_nearest(hits: Seq<Option<u32>>, i: int) -> bool {
    &&& 0 <= i < hits.len()
    &&& hits[i] is Some
    &&& forall|j: int|
        0 <= j < hits.len() && (#[trigger] hits[j]) is Some ==> hits[i]->0 <= hits[j]->0
    &&& forall|j: int| 0 <= j < i && (#[trigger] hits[j]) is Some ==> hits[i]->0 < hits[j]->0
}

/// The nearest of the rows that a ray hits. `hits` holds for each row the entry
/// distance, as the bit pattern of a non-negative 32-bit float (which is ordered
/// as the float is), or `None` for a miss.
pub fn nearest_hit(hits: &Vec<Option<u32>>) -> (r: Option<u32>)
    requires
        hits@.len() <= u32::MAX,
    ensures
        match r {
            Some(i) => is_nearest(hits@, i as int),
            None => forall|j: int| 0 <= j < hits@.len() ==> (#[trigger] hits@[j]) is None,
        },
{
    let mut best: Option<(u32, u32)> = None;
    let mut i: usize = 0;
    while i < hits.len()
        invariant
            i <= hits@.len() <= u32::MAX,
            match best {
                Some((d, k)) => is_nearest(hits@.take(i as int), k as int) && hits@[k as int]
                    == Some(d),
                None => forall|j: int| 0 <= j < i ==> (#[trigger] hits@[j]) is None,
            },
        decreases hits@.len() - i,
    {
        let ghost seen = hits@.take(i as int);
        let ghost more = hits@.take(i + 1);
        assert(forall|j: int| 0 <= j < i ==> more[j] == seen[j]);
        assert(more[i as int] == hits@[i as int]);
        if let Some(d) = hits[i] {
            let closer = match best {
                Some((b, _)) => d < b,
                None => true,
            };
            if closer {
                best = Some((d, i as u32));
            }
        }
        i = i + 1;
    }
    assert(hits@.take(i as int) =~= hits@);
    match best {
        Some((_, k)) => Some(k),
        None => None,
    }
}

/// There is at most one nearest hit.
pub proof fn law_nearest_unique(hits: Seq<Option<u32>>, a: int, b: int)
    requires
        is_nearest(hits, a),
        is_nearest(hits, b),
    ensures
        a == b,
{
}

/// A click alone leaves the one row selected, whatever was selected before.
pub proof fn law_plain_click(s: Seq<u32>, id: u32, other: u32)
    ensures
        clicked(s, id, false).len() == 1,
        clicked(s, id, false).contains(other) <==> other == id,
{
    assert(clicked(s, id, false)[0] == id);
}

/// A click with the control key on a row that is not selected adds it behind the
/// others.
pub proof fn law_click_adds(s: Seq<u32>, id: u32, j: int)
    requires
        !s.contains(id),
        0 <= j < s.len(),
    ensures
        clicked(s, id, true).len() == s.len() + 1,
        clicked(s, id, true)[j] == s[j],
        clicked(s, id, true)[s.len() as int] == id,
{
}

/// A click with the control key on a selected row takes out its first occurrence:
/// the rows before it stay where they are, and those behind it move up by one.
pub proof fn law_click_takes_out(before: Seq<u32>, id: u32, behind: Seq<u32>)
    requires
        !before.contains(id),
    ensures
        clicked(before + seq![id] + behind, id, true) == before + behind,
{
    let s = before + seq![id] + behind;
    let k = before.len() as int;
    assert(s[k] == id);
    assert forall|j: int| 0 <= j < k implies s[j] != id by {
        assert(s[j] == before[j]);
        assert(before.contains(before[j]));
    }
    lemma_position(s, id, k);
    assert(s.contains(id));
    assert(s.remove(k) =~= before + behind);
}

/// Two clicks with the control key on a row that is not selected undo each other.
pub proof fn law_click_twice(s: Seq<u32>, id: u32)
    requires
        !s.contains(id),
    ensures
        clicked(clicked(s, id, true), id, true) == s,
{
    law_click_takes_out(s, id, seq![]);
    assert(s.push(id) =~= s + seq![id] + Seq::<u32>::empty());
    assert(s + Seq::<u32>::empty() =~= s);
}

/// The nearest hit is a hit, no hit is nearer, and of hits as near it is the first.
pub proof fn law_nearest(hits: Seq<Option<u32>>, i: int, j: int)
    requires
        is_nearest(hits, i),
        0 <= j < hits.len(),
    ensures
        0 <= i < hits.len(),
        hits[i] is Some,
        hits[j] is Some ==> hits[i]->0 <= hits[j]->0,
        hits[j] == hits[i] ==> i <= j,
{
    if hits[j] is Some {
        assert(hits[i]->0 <= hits[j]->0);
    }
}

/// If something is hit, there is a nearest hit.
pub proof fn law_nearest_exists(hits: Seq<Option<u32>>, j: int)
    requires
        0 <= j < hits.len(),
        hits[j] is Some,
    ensures
        exists|i: int| is_nearest(hits, i),
    decreases hits.len(),
{
    let less = hits.drop_last();
    let n = hits.len() - 1;
    if exists|k: int| 0 <= k < less.len() && (#[trigger] less[k]) is Some {
        let k = choose|k: int| 0 <= k < less.len() && (#[trigger] less[k]) is Some;
        law_nearest_exists(less, k);
        let i = choose|i: int| is_nearest(less, i);
        assert(forall|m: int| 0 <= m < n ==> less[m] == hits[m]);
        assert(hits[i] == less[i]);
        if hits[n] is Some && hits[n]->0 < hits[i]->0 {
            assert forall|m: int| 0 <= m < n && (#[trigger] hits[m]) is Some implies hits[n]->0
                < hits[m]->0 by {
                assert(less[m] is Some);
            }
            assert(is_nearest(hits, n as int));
        } else {
            assert forall|m: int| 0 <= m < hits.len() && (#[trigger] hits[m]) is Some implies hits[i]->0
                <= hits[m]->0 by {
                if m < n {
                    assert(less[m] is Some);
                }
            }
            assert forall|m: int| 0 <= m < i && (#[trigger] hits[m]) is Some implies hits[i]->0
                < hits[m]->0 by {
                assert(less[m] is Some);
            }
            assert(is_nearest(hits, i));
        }
    } else {
        assert forall|m: int| 0 <= m < n implies (#[trigger] hits[m]) is None by {
            assert(!(less[m] is Some));
        }
        assert(is_nearest(hits, n as int));
    }
}

} // verus!
