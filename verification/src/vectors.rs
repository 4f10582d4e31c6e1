//! Small container types, each with a hand-rolled cursor over its
//! elements.
//!
//! These mirror the classic ways of exposing iteration from a container:
//! handing out a ready-made cursor over a copy of the elements
//! ([`SimpleVector`], [`ModernVector`]), or a dedicated index-tracking
//! cursor type ([`MyVector`], [`FullVector`]).  A bounded [`Counter`]
//! produces a finite run of numbers and then stays exhausted.

use vstd::prelude::*;
use crate::cursor::Cursor;
use crate::ops::{MapOp, map_all, run_map, apply_map};

verus! {

/// A bounded counter: each step yields the next count strictly below
/// `max`, then `None` forever.
pub struct Counter {
    /// The last count produced (zero before the first step).
    pub count: u32,
    /// The exclusive bound on produced counts.
    pub max: u32,
}

impl Counter {
    /// A counter that will produce `1, 2, ..., max - 1`.
    pub fn new(max: u32) -> (r: Counter)
        ensures
            r.count == 0,
            r.max == max,
    {
        Counter { count: 0, max }
    }

    /// One step: advances the count while it is below the bound and
    /// yields it if it is still below the bound; exhaustion is
    /// idempotent, and the count never moves past the bound.
    pub fn next(&mut self) -> (r: Option<u32>)
        ensures
            final(self).max == old(self).max,
            old(self).count < old(self).max ==> final(self).count == old(self).count + 1,
            old(self).count >= old(self).max ==> final(self).count == old(self).count,
            r == (if old(self).count + 1 < old(self).max {
                Some((old(self).count + 1) as u32)
            } else {
                None::<u32>
            }),
    {
        if self.count < self.max {
            self.count = self.count + 1;
            if self.count < self.max {
                Some(self.count)
            } else {
                None
            }
        } else {
            None
        }
    }
}

/// Copies the elements of `v` into a fresh vector.
fn dup_ints(v: &Vec<i64>) -> (r: Vec<i64>)
    ensures
        r@ == v@,
{
    let mut out: Vec<i64> = Vec::new();
    let mut j: usize = 0;
    while j < v.len()
        invariant
            j <= v@.len(),
            out@ == v@.subrange(0, j as int),
        decreases v@.len() - j,
    {
        out.push(v[j]);
        j = j + 1;
        proof {
            assert(out@ =~= v@.subrange(0, j as int));
        }
    }
    proof {
        assert(out@ =~= v@);
    }
    out
}

/// A growable container that exposes iteration by handing out a cursor
/// over its elements.
pub struct SimpleVector {
    /// The stored elements.
    pub data: Vec<i64>,
}

impl SimpleVector {
    /// An empty container.
    pub fn new() -> (r: SimpleVector)
        ensures
            r.data@ == Seq::<i64>::empty(),
    {
        SimpleVector { data: Vec::new() }
    }

    /// Appends one element.
    pub fn push(&mut self, value: i64)
        ensures
            final(self).data@ == old(self).data@.push(value),
    {
        self.data.push(value);
    }

    /// A cursor over the current elements, first to last.
    pub fn iter(&self) -> (r: Cursor)
        ensures
            r.wf(),
            r.emit_seq() == self.data@,
    {
        Cursor::from_vec(dup_ints(&self.data))
    }
}

/// A growable container with its own dedicated cursor type.
pub struct MyVector {
    /// The stored elements.
    pub data: Vec<i64>,
}

/// An index-tracking cursor over a [`MyVector`]'s elements.
pub struct MyVectorIter {
    /// A copy of the elements being walked.
    pub data: Vec<i64>,
    /// The position of the next element produced.
    pub index: usize,
}

impl MyVector {
    /// An empty container.
    pub fn new() -> (r: MyVector)
        ensures
            r.data@ == Seq::<i64>::empty(),
    {
        MyVector { data: Vec::new() }
    }

    /// Appends one element.
    pub fn push(&mut self, value: i64)
        ensures
            final(self).data@ == old(self).data@.push(value),
    {
        self.data.push(value);
    }

    /// A cursor standing before the first element.
    pub fn iter(&self) -> (r: MyVectorIter)
        ensures
            r.wf(),
            r.data@ == self.data@,
            r.index == 0,
    {
        MyVectorIter { data: dup_ints(&self.data), index: 0 }
    }
}

impl MyVectorIter {
    /// The position stays within the data.
    pub open spec fn wf(self) -> bool {
        self.index <= self.data@.len()
    }

    /// Yields the element under the position and advances, or `None`
    /// forever once past the end.
    pub fn next(&mut self) -> (r: Option<i64>)
        requires
            old(self).wf(),
        ensures
            final(self).wf(),
            final(self).data == old(self).data,
            old(self).index < old(self).data@.len() ==> r == Some(
                old(self).data@[old(self).index as int],
            ) && final(self).index == old(self).index + 1,
            old(self).index >= old(self).data@.len() ==> r == None::<i64> && final(self).index
                == old(self).index,
    {
        if self.index < self.data.len() {
            let item = self.data[self.index];
            self.index = self.index + 1;
            Some(item)
        } else {
            None
        }
    }
}

/// The elements of `s` standing at even positions, in order.
pub open spec fn even_index_elems(s: Seq<i64>) -> Seq<i64> {
    Seq::new(((s.len() + 1) / 2) as nat, |i: int| s[2 * i])
}

/// A growable container whose iteration methods return the general
/// cursor type instead of a dedicated one.
pub struct ModernVector {
    /// The stored elements.
    pub data: Vec<i64>,
}

impl ModernVector {
    /// An empty container.
    pub fn new() -> (r: ModernVector)
        ensures
            r.data@ == Seq::<i64>::empty(),
    {
        ModernVector { data: Vec::new() }
    }

    /// Appends one element.
    pub fn push(&mut self, value: i64)
        ensures
            final(self).data@ == old(self).data@.push(value),
    {
        self.data.push(value);
    }

    /// A cursor over the current elements, first to last.
    pub fn iter(&self) -> (r: Cursor)
        ensures
            r.wf(),
            r.emit_seq() == self.data@,
    {
        Cursor::from_vec(dup_ints(&self.data))
    }

    /// A cursor over the elements standing at even positions.
    pub fn iter_even_indices(&self) -> (r: Cursor)
        ensures
            r.wf(),
            r.emit_seq() == even_index_elems(self.data@),
    {
        let mut out: Vec<i64> = Vec::new();
        let mut j: usize = 0;
        while j < self.data.len()
            invariant
                j <= self.data@.len(),
                out@.len() == (j + 1) as int / 2,
                forall|i: int| 0 <= i < out@.len() ==> out@[i] == self.data@[2 * i],
            decreases self.data@.len() - j,
        {
            if j % 2 == 0 {
                out.push(self.data[j]);
            }
            j = j + 1;
        }
        proof {
            assert(out@ =~= even_index_elems(self.data@));
        }
        Cursor::from_vec(out)
    }
}

/// A growable container with a cursor that can consume from both ends,
/// report how much is left, and rewrite its elements in place.
pub struct FullVector {
    /// The stored elements.
    pub data: Vec<i64>,
}

/// A cursor over a [`FullVector`]'s elements that can be consumed from
/// either end: the unconsumed elements are exactly `data[index .. back]`,
/// and no element is ever produced twice across the two ends.
pub struct FullVectorIter {
    /// A copy of the elements being walked.
    pub data: Vec<i64>,
    /// The position of the next element produced from the front.
    pub index: usize,
    /// The boundary behind the next element produced from the back.
    pub back: usize,
}

impl FullVector {
    /// An empty container.
    pub fn new() -> (r: FullVector)
        ensures
            r.data@ == Seq::<i64>::empty(),
    {
        FullVector { data: Vec::new() }
    }

    /// Appends one element.
    pub fn push(&mut self, value: i64)
        ensures
            final(self).data@ == old(self).data@.push(value),
    {
        self.data.push(value);
    }

    /// A cursor standing before the first element, with every element
    /// still to be consumed.
    pub fn iter(&self) -> (r: FullVectorIter)
        ensures
            r.wf(),
            r.data@ == self.data@,
            r.index == 0,
            r.back == self.data@.len(),
    {
        let data = dup_ints(&self.data);
        let back = data.len();
        FullVectorIter { data, index: 0, back }
    }

    /// A mutating traversal: applies `op` to every element in place.
    pub fn iter_mut(&mut self, op: &MapOp)
        ensures
            final(self).data@ == map_all(*op, old(self).data@),
    {
        let mut out: Vec<i64> = Vec::new();
        let mut j: usize = 0;
        while j < self.data.len()
            invariant
                j <= self.data@.len(),
                self.data == old(self).data,
                out@.len() == j,
                forall|i: int| 0 <= i < j ==> out@[i] == apply_map(*op, self.data@[i]),
            decreases self.data@.len() - j,
        {
            let y = run_map(op, self.data[j]);
            out.push(y);
            j = j + 1;
        }
        proof {
            assert(out@ =~= map_all(*op, self.data@));
        }
        self.data = out;
    }
}

impl FullVectorIter {
    /// The two boundaries stay ordered and within the data.
    pub open spec fn wf(self) -> bool {
        self.index <= self.back <= self.data@.len()
    }

    /// Yields the first not-yet-consumed element and consumes it by
    /// advancing the front boundary, or `None` forever once the front
    /// has met the back.
    pub fn next(&mut self) -> (r: Option<i64>)
        requires
            old(self).wf(),
        ensures
            final(self).wf(),
            final(self).data == old(self).data,
            final(self).back == old(self).back,
            old(self).index < old(self).back ==> r == Some(
                old(self).data@[old(self).index as int],
            ) && final(self).index == old(self).index + 1,
            old(self).index >= old(self).back ==> r == None::<i64> && final(self).index == old(
                self,
            ).index,
    {
        if self.index < self.back {
            let item = self.data[self.index];
            self.index = self.index + 1;
            Some(item)
        } else {
            None
        }
    }

    /// How many elements remain to be produced, from both ends together.
    pub fn len(&self) -> (r: usize)
        requires
            self.wf(),
        ensures
            r == self.back - self.index,
    {
        self.back - self.index
    }

    /// Yields the last not-yet-consumed element and consumes it by
    /// moving the back boundary down, or `None` forever once the back
    /// has met the front; an element consumed here is never produced
    /// by [`FullVectorIter::next`] again.
    pub fn next_back(&mut self) -> (r: Option<i64>)
        requires
            old(self).wf(),
        ensures
            final(self).wf(),
            final(self).data == old(self).data,
            final(self).index == old(self).index,
            old(self).index < old(self).back ==> r == Some(
                old(self).data@[old(self).back - 1],
            ) && final(self).back == old(self).back - 1,
            old(self).index >= old(self).back ==> r == None::<i64> && final(self).back == old(
                self,
            ).back,
    {
        if self.index < self.back {
            self.back = self.back - 1;
            Some(self.data[self.back])
        } else {
            None
        }
    }
}

} // verus!
