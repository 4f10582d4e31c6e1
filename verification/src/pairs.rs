//! Pair-producing cursors: zipping two sources and numbering one.
//!
//! A [`ZipCursor`] walks two cursors in lock step and produces pairs of
//! their elements until the shorter side is exhausted.  An [`EnumCursor`]
//! numbers the elements of one cursor from a starting index upward.

use vstd::prelude::*;
use crate::cursor::Cursor;

verus! {

/// The pairwise combination of `a` and `b`, cut to the shorter length.
pub open spec fn zip_emits(a: Seq<i64>, b: Seq<i64>) -> Seq<(i64, i64)> {
    Seq::new(
        if a.len() <= b.len() {
            a.len()
        } else {
            b.len()
        },
        |i: int| (a[i], b[i]),
    )
}

/// Two cursors walked in lock step.
pub struct ZipCursor {
    /// Supplies the first component of each pair.
    pub left: Cursor,
    /// Supplies the second component of each pair.
    pub right: Cursor,
}

impl ZipCursor {
    /// Both sides are well formed.
    pub open spec fn wf(self) -> bool {
        self.left.wf() && self.right.wf()
    }

    /// The pairs this cursor will produce.
    pub open spec fn emit_pairs(self) -> Seq<(i64, i64)> {
        zip_emits(self.left.emit_seq(), self.right.emit_seq())
    }

    /// Walks `left` and `right` together.
    pub fn zip(left: Cursor, right: Cursor) -> (r: ZipCursor)
        requires
            left.wf(),
            right.wf(),
        ensures
            r.wf(),
            r.emit_pairs() == zip_emits(left.emit_seq(), right.emit_seq()),
    {
        ZipCursor { left, right }
    }

    /// Yields the next pair — the head of [`ZipCursor::emit_pairs`] — or
    /// `None` forever once either side is exhausted.
    pub fn produce_next(self) -> (r: (ZipCursor, Option<(i64, i64)>))
        requires
            self.wf(),
        ensures
            r.0.wf(),
            self.emit_pairs().len() == 0 ==> r.1 == None::<(i64, i64)> && r.0.emit_pairs()
                == Seq::<(i64, i64)>::empty(),
            self.emit_pairs().len() > 0 ==> r.1 == Some(self.emit_pairs()[0])
                && r.0.emit_pairs() == self.emit_pairs().drop_first(),
    {
        let ZipCursor { left, right } = self;
        let ghost ea = left.emit_seq();
        let ghost eb = right.emit_seq();
        let (l2, got_l) = left.produce_next();
        match got_l {
            Some(x) => {
                let (r2, got_r) = right.produce_next();
                match got_r {
                    Some(y) => {
                        let step = ZipCursor { left: l2, right: r2 };
                        proof {
                            assert(self.emit_pairs()[0] == (ea[0], eb[0]));
                            assert(step.emit_pairs() =~= self.emit_pairs().drop_first());
                        }
                        (step, Some((x, y)))
                    },
                    None => {
                        let step = ZipCursor { left: l2, right: r2 };
                        proof {
                            assert(self.emit_pairs() =~= Seq::<(i64, i64)>::empty());
                            assert(step.emit_pairs() =~= Seq::<(i64, i64)>::empty());
                        }
                        (step, None)
                    },
                }
            },
            None => {
                let step = ZipCursor { left: l2, right };
                proof {
                    assert(self.emit_pairs() =~= Seq::<(i64, i64)>::empty());
                    assert(step.emit_pairs() =~= Seq::<(i64, i64)>::empty());
                }
                (step, None)
            },
        }
    }

    /// Drives the cursor to exhaustion and returns every pair, in order.
    #[verifier::loop_isolation(false)]
    pub fn collect_pairs(self) -> (r: Vec<(i64, i64)>)
        requires
            self.wf(),
        ensures
            r@ == self.emit_pairs(),
    {
        let ghost total = self.emit_pairs();
        let mut cur = self;
        let mut out: Vec<(i64, i64)> = Vec::new();
        loop
            invariant
                cur.wf(),
                out@ + cur.emit_pairs() == total,
            decreases cur.emit_pairs().len(),
        {
            let (c2, got) = cur.produce_next();
            cur = c2;
            match got {
                Some(p) => {
                    out.push(p);
                    proof {
                        assert(out@ + cur.emit_pairs() =~= total);
                    }
                },
                None => {
                    proof {
                        assert(out@ =~= total);
                    }
                    return out;
                },
            }
        }
    }
}

/// The elements of `e` numbered from `start` on; numbering stops at the
/// machine limit of `usize`, which no real walk reaches.
pub open spec fn enum_emits(start: nat, e: Seq<i64>) -> Seq<(usize, i64)> {
    Seq::new(
        if e.len() <= usize::MAX - start {
            e.len()
        } else {
            (usize::MAX - start) as nat
        },
        |i: int| ((start + i) as usize, e[i]),
    )
}

/// A cursor that numbers the elements of its source.
pub struct EnumCursor {
    /// The index the next produced element will carry.
    pub idx: usize,
    /// The cursor whose elements are numbered.
    pub src: Cursor,
}

impl EnumCursor {
    /// The source is well formed.
    pub open spec fn wf(self) -> bool {
        self.src.wf()
    }

    /// The numbered pairs this cursor will produce.
    pub open spec fn emit_pairs(self) -> Seq<(usize, i64)> {
        enum_emits(self.idx as nat, self.src.emit_seq())
    }

    /// Numbers the elements of `src` from zero on.
    pub fn enumerate(src: Cursor) -> (r: EnumCursor)
        requires
            src.wf(),
        ensures
            r.wf(),
            r.emit_pairs() == enum_emits(0, src.emit_seq()),
    {
        EnumCursor { idx: 0, src }
    }

    /// Yields the next numbered pair — the head of
    /// [`EnumCursor::emit_pairs`] — or `None` forever once exhausted.
    pub fn produce_next(self) -> (r: (EnumCursor, Option<(usize, i64)>))
        requires
            self.wf(),
        ensures
            r.0.wf(),
            self.emit_pairs().len() == 0 ==> r.1 == None::<(usize, i64)> && r.0.emit_pairs()
                == Seq::<(usize, i64)>::empty(),
            self.emit_pairs().len() > 0 ==> r.1 == Some(self.emit_pairs()[0])
                && r.0.emit_pairs() == self.emit_pairs().drop_first(),
    {
        let EnumCursor { idx, src } = self;
        if idx == usize::MAX {
            let (s2, _discarded) = src.produce_next();
            let step = EnumCursor { idx, src: s2 };
            proof {
                assert(self.emit_pairs() =~= Seq::<(usize, i64)>::empty());
                assert(step.emit_pairs() =~= Seq::<(usize, i64)>::empty());
            }
            (step, None)
        } else {
            let ghost e = src.emit_seq();
            let (s2, got) = src.produce_next();
            match got {
                Some(v) => {
                    let step = EnumCursor { idx: idx + 1, src: s2 };
                    proof {
                        assert(self.emit_pairs()[0] == (idx, e[0]));
                        assert(step.emit_pairs() =~= self.emit_pairs().drop_first());
                    }
                    (step, Some((idx, v)))
                },
                None => {
                    let step = EnumCursor { idx, src: s2 };
                    proof {
                        assert(self.emit_pairs() =~= Seq::<(usize, i64)>::empty());
                        assert(step.emit_pairs() =~= Seq::<(usize, i64)>::empty());
                    }
                    (step, None)
                },
            }
        }
    }

    /// Drives the cursor to exhaustion and returns every numbered pair.
    #[verifier::loop_isolation(false)]
    pub fn collect_pairs(self) -> (r: Vec<(usize, i64)>)
        requires
            self.wf(),
        ensures
            r@ == self.emit_pairs(),
    {
        let ghost total = self.emit_pairs();
        let mut cur = self;
        let mut out: Vec<(usize, i64)> = Vec::new();
        loop
            invariant
                cur.wf(),
                out@ + cur.emit_pairs() == total,
            decreases cur.emit_pairs().len(),
        {
            let (c2, got) = cur.produce_next();
            cur = c2;
            match got {
                Some(p) => {
                    out.push(p);
                    proof {
                        assert(out@ + cur.emit_pairs() =~= total);
                    }
                },
                None => {
                    proof {
                        assert(out@ =~= total);
                    }
                    return out;
                },
            }
        }
    }
}

} // verus!
