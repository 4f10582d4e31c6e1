//! The endlessly repeating cursor.
//!
//! A [`CycleCursor`] walks a non-empty finite sequence over and over,
//! wrapping from the last element back to the first, and never signals
//! completion: it is explicitly infinite.  Cycling an empty sequence
//! would loop forever without producing anything, so the constructor
//! rejects it outright.

use vstd::prelude::*;
use vstd::arithmetic::div_mod::{lemma_small_mod, lemma_mod_self_0, lemma_add_mod_noop_right};

verus! {

/// A cursor that repeats its underlying elements indefinitely.
pub struct CycleCursor {
    /// The elements repeated; never empty.
    pub data: Vec<i64>,
    /// The position of the next element produced.
    pub index: usize,
}

impl CycleCursor {
    /// The data is non-empty and the position stays within it.
    pub open spec fn wf(self) -> bool {
        self.data@.len() > 0 && self.index < self.data@.len()
    }

    /// A cursor repeating `data` forever, or nothing for an empty `data`,
    /// which cannot be cycled.
    pub fn cycle(data: Vec<i64>) -> (r: Option<CycleCursor>)
        ensures
            data@.len() == 0 <==> r == None::<CycleCursor>,
            data@.len() > 0 ==> (r matches Some(c) && c.wf() && c.data@ == data@ && c.index == 0),
    {
        if data.len() == 0 {
            None
        } else {
            Some(CycleCursor { data, index: 0 })
        }
    }

    /// Produces the element under the position and moves one step around
    /// the circle; never signals completion.
    pub fn produce_next(&mut self) -> (r: i64)
        requires
            old(self).wf(),
        ensures
            final(self).wf(),
            r == old(self).data@[old(self).index as int],
            final(self).data == old(self).data,
            final(self).index as int == (old(self).index + 1) as int % (old(
                self,
            ).data@.len() as int),
    {
        let v = self.data[self.index];
        let ghost len = self.data@.len() as int;
        if self.index < self.data.len() - 1 {
            proof {
                lemma_small_mod((old(self).index + 1) as nat, old(self).data@.len());
            }
            self.index = self.index + 1;
        } else {
            proof {
                lemma_mod_self_0(len);
            }
            self.index = 0;
        }
        v
    }

    /// The next `n` elements of the endless walk, in order.
    #[verifier::loop_isolation(false)]
    pub fn take_vec(&mut self, n: usize) -> (r: Vec<i64>)
        requires
            old(self).wf(),
        ensures
            final(self).wf(),
            final(self).data == old(self).data,
            final(self).index as int == (old(self).index + n) as int % (old(
                self,
            ).data@.len() as int),
            r@.len() == n,
            forall|i: int|
                0 <= i < n ==> r@[i] == old(self).data@[(old(self).index + i) as int % (old(
                    self,
                ).data@.len() as int)],
    {
        let ghost start = old(self).index as int;
        let ghost len = old(self).data@.len() as int;
        let mut out: Vec<i64> = Vec::new();
        let mut j: usize = 0;
        proof {
            lemma_small_mod(old(self).index as nat, old(self).data@.len());
        }
        while j < n
            invariant
                j <= n,
                self.wf(),
                self.data == old(self).data,
                self.index as int == (start + j) as int % len,
                out@.len() == j,
                forall|i: int| 0 <= i < j ==> out@[i] == old(self).data@[(start + i) % len],
            decreases n - j,
        {
            let v = self.produce_next();
            proof {
                lemma_add_mod_noop_right(1, start + j, len);
                assert((1 + (start + j) % len) % len == (start + j + 1) % len);
            }
            out.push(v);
            j = j + 1;
        }
        out
    }
}

} // verus!
