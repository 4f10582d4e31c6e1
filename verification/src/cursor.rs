//! The lazy, pull-based sequence cursor.
//!
//! A [`Cursor`] owns whatever state it needs to produce its next element.
//! Transformations (`map`, `filter`, `take`, `skip`, `chain`, flattening)
//! wrap a source cursor and return a new one without materializing
//! anything; elements are produced one at a time by [`Cursor::produce_next`].
//! The whole behavior of a cursor is captured by the spec function
//! [`Cursor::emit_seq`]: the sequence of elements it will produce from its
//! current state.  `produce_next` yields exactly the head of that sequence
//! and leaves a cursor whose `emit_seq` is the tail; once the sequence is
//! empty every further call yields `None` and the sequence stays empty.
//!
//! The counting source is unbounded for every practical purpose: it stops
//! only at `i64::MAX`, so its mathematical emission is finite (if
//! astronomically long) and every terminal consumer provably terminates.

use vstd::prelude::*;
use crate::ops::{MapOp, Pred, FoldOp};
use crate::ops::{apply_map, pred_holds, map_all, keep_matching, drop_matching, fold_seq,
    run_map, run_pred, run_fold, lemma_keep_matching_nonempty};

verus! {

/// A lazy producer of `i64` elements.
///
/// Leaf variants hold their own data; wrapping variants hold the cursor
/// they transform.
pub enum Cursor {
    /// Produces the elements of `data` from `index` on.
    FromVec { data: Vec<i64>, index: usize },
    /// Counts upward one by one from `next_value`; stops only at the
    /// machine limit `i64::MAX`, so it is unbounded in every practical
    /// sense.  `live` is false once even that limit has been passed.
    Counting { next_value: i64, live: bool },
    /// Produces the integers of the half-open interval `cur..end`.
    Ranged { cur: i64, end: i64 },
    /// Applies an operation to every element of the source.
    Mapped { op: MapOp, src: Box<Cursor> },
    /// Keeps only the source elements satisfying the predicate.
    Filtered { pred: Pred, src: Box<Cursor> },
    /// Produces at most `left` more elements of the source.
    Taken { left: usize, src: Box<Cursor> },
    /// Discards the next `todo` elements of the source, then produces
    /// the rest.
    Skipped { todo: usize, src: Box<Cursor> },
    /// Produces the first cursor's elements, then the second's.
    Chained { first: Box<Cursor>, second: Box<Cursor> },
    /// A source with at most one element read ahead and buffered.
    Peeked { buffered: Option<i64>, src: Box<Cursor> },
    /// Produces the elements of the inner rows one after another,
    /// standing at row `outer`, position `inner` within it.
    Flat { rows: Vec<Vec<i64>>, outer: usize, inner: usize },
}

/// The elements of `rs` from row `k` on, laid end to end.
pub open spec fn flat_from(rs: Seq<Vec<i64>>, k: nat) -> Seq<i64>
    decreases rs.len() - k,
{
    if k >= rs.len() {
        Seq::empty()
    } else {
        rs[k as int]@ + flat_from(rs, k + 1)
    }
}

/// The first `n` elements of `s`, or all of `s` if it is shorter.
pub open spec fn prefix_part(s: Seq<i64>, n: nat) -> Seq<i64> {
    if n <= s.len() {
        s.subrange(0, n as int)
    } else {
        s
    }
}

/// `s` without its first `n` elements, or empty if it is shorter.
pub open spec fn suffix_part(s: Seq<i64>, n: nat) -> Seq<i64> {
    if n <= s.len() {
        s.subrange(n as int, s.len() as int)
    } else {
        Seq::empty()
    }
}

/// The integers of the half-open interval `lo..hi`, in order.
pub open spec fn int_range(lo: int, hi: int) -> Seq<i64> {
    Seq::new(if hi - lo > 0 { (hi - lo) as nat } else { 0 }, |i: int| (lo + i) as i64)
}

impl Cursor {
    /// Structural well-formedness: positions stay within their data.
    pub open spec fn wf(self) -> bool
        decreases self,
    {
        match self {
            Cursor::FromVec { data, index } => index <= data@.len(),
            Cursor::Counting { .. } => true,
            Cursor::Ranged { .. } => true,
            Cursor::Mapped { src, .. } => src.wf(),
            Cursor::Filtered { src, .. } => src.wf(),
            Cursor::Taken { src, .. } => src.wf(),
            Cursor::Skipped { src, .. } => src.wf(),
            Cursor::Chained { first, second } => first.wf() && second.wf(),
            Cursor::Peeked { src, .. } => src.wf(),
            Cursor::Flat { rows, outer, inner } => outer <= rows@.len() && (outer < rows@.len()
                ==> inner <= rows@[outer as int]@.len()),
        }
    }

    /// How many wrappers stand between this cursor and its sources;
    /// producing an element never increases it.
    pub open spec fn depth(self) -> nat
        decreases self,
    {
        match self {
            Cursor::FromVec { .. } => 0,
            Cursor::Counting { .. } => 0,
            Cursor::Ranged { .. } => 0,
            Cursor::Mapped { src, .. } => src.depth() + 1,
            Cursor::Filtered { src, .. } => src.depth() + 1,
            Cursor::Taken { src, .. } => src.depth() + 1,
            Cursor::Skipped { src, .. } => src.depth() + 1,
            Cursor::Chained { first, second } => 1 + (if first.depth() > second.depth() {
                first.depth()
            } else {
                second.depth()
            }),
            Cursor::Peeked { src, .. } => src.depth() + 1,
            Cursor::Flat { .. } => 0,
        }
    }

    /// A bound on the work a single production step may still have to do
    /// at this depth; together with [`Cursor::depth`] it shows that every
    /// step terminates.
    pub open spec fn budget(self) -> nat {
        match self {
            Cursor::Filtered { src, .. } => src.emit_seq().len(),
            Cursor::Skipped { todo, .. } => todo as nat,
            Cursor::Flat { rows, outer, .. } => if outer <= rows@.len() {
                (rows@.len() - outer) as nat
            } else {
                0
            },
            _ => 0,
        }
    }

    /// The sequence of elements this cursor will produce from its current
    /// state.  This is the cursor's entire observable meaning.
    pub open spec fn emit_seq(self) -> Seq<i64>
        decreases self,
    {
        match self {
            Cursor::FromVec { data, index } => data@.skip(index as int),
            Cursor::Counting { next_value, live } => if live {
                Seq::new((i64::MAX - next_value + 1) as nat, |i: int| (next_value + i) as i64)
            } else {
                Seq::empty()
            },
            Cursor::Ranged { cur, end } => int_range(cur as int, end as int),
            Cursor::Mapped { op, src } => map_all(op, src.emit_seq()),
            Cursor::Filtered { pred, src } => keep_matching(pred, src.emit_seq()),
            Cursor::Taken { left, src } => prefix_part(src.emit_seq(), left as nat),
            Cursor::Skipped { todo, src } => suffix_part(src.emit_seq(), todo as nat),
            Cursor::Chained { first, second } => first.emit_seq() + second.emit_seq(),
            Cursor::Peeked { buffered, src } => match buffered {
                Some(v) => seq![v] + src.emit_seq(),
                None => src.emit_seq(),
            },
            Cursor::Flat { rows, outer, inner } => if outer >= rows@.len() {
                Seq::empty()
            } else {
                rows@[outer as int]@.skip(inner as int) + flat_from(rows@, outer as nat + 1)
            },
        }
    }

    /// Advances by exactly one logical step: yields the head of
    /// [`Cursor::emit_seq`] and the cursor for its tail, or `None` once the
    /// sequence is exhausted — and then `None` forever after.
    pub fn produce_next(self) -> (r: (Cursor, Option<i64>))
        requires
            self.wf(),
        ensures
            r.0.wf(),
            r.0.depth() <= self.depth(),
            self.emit_seq().len() == 0 ==> r.1 == None::<i64> && r.0.emit_seq() == Seq::<
                i64,
            >::empty(),
            self.emit_seq().len() > 0 ==> r.1 == Some(self.emit_seq()[0]) && r.0.emit_seq()
                == self.emit_seq().drop_first(),
        decreases self.depth(), self.budget(),
    {
        let ghost orig = self;
        match self {
            Cursor::FromVec { data, index } => {
                if index < data.len() {
                    let v = data[index];
                    proof {
                        assert(orig.emit_seq()[0] == v);
                        assert(data@.skip(index + 1) =~= data@.skip(index as int).drop_first());
                    }
                    (Cursor::FromVec { data, index: index + 1 }, Some(v))
                } else {
                    proof {
                        assert(data@.skip(index as int) =~= Seq::<i64>::empty());
                    }
                    (Cursor::FromVec { data, index }, None)
                }
            },
            Cursor::Counting { next_value, live } => {
                if live {
                    let v = next_value;
                    if v < i64::MAX {
                        let step = Cursor::Counting { next_value: v + 1, live: true };
                        proof {
                            assert(orig.emit_seq()[0] == v);
                            assert(step.emit_seq() =~= orig.emit_seq().drop_first());
                        }
                        (step, Some(v))
                    } else {
                        let step = Cursor::Counting { next_value: v, live: false };
                        proof {
                            assert(orig.emit_seq().len() == 1);
                            assert(orig.emit_seq()[0] == v);
                            assert(step.emit_seq() =~= orig.emit_seq().drop_first());
                        }
                        (step, Some(v))
                    }
                } else {
                    (Cursor::Counting { next_value, live }, None)
                }
            },
            Cursor::Ranged { cur, end } => {
                if cur < end {
                    let step = Cursor::Ranged { cur: cur + 1, end };
                    proof {
                        assert(orig.emit_seq()[0] == cur);
                        assert(step.emit_seq() =~= orig.emit_seq().drop_first());
                    }
                    (step, Some(cur))
                } else {
                    proof {
                        assert(orig.emit_seq() =~= Seq::<i64>::empty());
                    }
                    (Cursor::Ranged { cur, end }, None)
                }
            },
            Cursor::Mapped { op, src } => {
                let inner_cursor = *src;
                let ghost e = inner_cursor.emit_seq();
                let (s2, got) = inner_cursor.produce_next();
                match got {
                    Some(v) => {
                        let y = run_map(&op, v);
                        let step = Cursor::Mapped { op, src: Box::new(s2) };
                        proof {
                            assert(orig.emit_seq()[0] == apply_map(step->Mapped_op, e[0]));
                            assert(step.emit_seq() =~= orig.emit_seq().drop_first());
                        }
                        (step, Some(y))
                    },
                    None => {
                        let step = Cursor::Mapped { op, src: Box::new(s2) };
                        proof {
                            assert(orig.emit_seq() =~= Seq::<i64>::empty());
                            assert(step.emit_seq() =~= Seq::<i64>::empty());
                        }
                        (step, None)
                    },
                }
            },
            Cursor::Filtered { pred, src } => {
                let inner_cursor = *src;
                let ghost e = inner_cursor.emit_seq();
                let (s2, got) = inner_cursor.produce_next();
                match got {
                    Some(v) => {
                        if run_pred(&pred, v) {
                            let step = Cursor::Filtered { pred, src: Box::new(s2) };
                            proof {
                                assert(orig.emit_seq() == seq![e[0]] + keep_matching(
                                    pred,
                                    e.drop_first(),
                                ));
                                assert(orig.emit_seq()[0] == v);
                                assert(step.emit_seq() =~= orig.emit_seq().drop_first());
                            }
                            (step, Some(v))
                        } else {
                            let again = Cursor::Filtered { pred, src: Box::new(s2) };
                            proof {
                                assert(again.emit_seq() == orig.emit_seq());
                            }
                            again.produce_next()
                        }
                    },
                    None => {
                        let step = Cursor::Filtered { pred, src: Box::new(s2) };
                        proof {
                            assert(orig.emit_seq() =~= Seq::<i64>::empty());
                            assert(step.emit_seq() =~= Seq::<i64>::empty());
                        }
                        (step, None)
                    },
                }
            },
            Cursor::Taken { left, src } => {
                if left == 0 {
                    proof {
                        assert(orig.emit_seq() =~= Seq::<i64>::empty());
                    }
                    (Cursor::Taken { left, src }, None)
                } else {
                    let inner_cursor = *src;
                    let ghost e = inner_cursor.emit_seq();
                    let (s2, got) = inner_cursor.produce_next();
                    match got {
                        Some(v) => {
                            let step = Cursor::Taken { left: left - 1, src: Box::new(s2) };
                            proof {
                                assert(orig.emit_seq()[0] == e[0]);
                                assert(step.emit_seq() =~= orig.emit_seq().drop_first());
                            }
                            (step, Some(v))
                        },
                        None => {
                            let step = Cursor::Taken { left, src: Box::new(s2) };
                            proof {
                                assert(orig.emit_seq() =~= Seq::<i64>::empty());
                                assert(step.emit_seq() =~= Seq::<i64>::empty());
                            }
                            (step, None)
                        },
                    }
                }
            },
            Cursor::Skipped { todo, src } => {
                let inner_cursor = *src;
                let ghost e = inner_cursor.emit_seq();
                let (s2, got) = inner_cursor.produce_next();
                match got {
                    Some(v) => {
                        if todo == 0 {
                            let step = Cursor::Skipped { todo, src: Box::new(s2) };
                            proof {
                                assert(orig.emit_seq() =~= e);
                                assert(step.emit_seq() =~= e.drop_first());
                            }
                            (step, Some(v))
                        } else {
                            let again = Cursor::Skipped { todo: todo - 1, src: Box::new(s2) };
                            proof {
                                assert(again.emit_seq() =~= orig.emit_seq());
                            }
                            again.produce_next()
                        }
                    },
                    None => {
                        let step = Cursor::Skipped { todo, src: Box::new(s2) };
                        proof {
                            assert(orig.emit_seq() =~= Seq::<i64>::empty());
                            assert(step.emit_seq() =~= Seq::<i64>::empty());
                        }
                        (step, None)
                    },
                }
            },
            Cursor::Chained { first, second } => {
                let front = *first;
                let ghost ea = front.emit_seq();
                let ghost eb = second.emit_seq();
                let (a2, got) = front.produce_next();
                match got {
                    Some(v) => {
                        let step = Cursor::Chained { first: Box::new(a2), second };
                        proof {
                            assert(orig.emit_seq()[0] == ea[0]);
                            assert(step.emit_seq() =~= orig.emit_seq().drop_first());
                        }
                        (step, Some(v))
                    },
                    None => {
                        let back = *second;
                        let (b2, got2) = back.produce_next();
                        let step = Cursor::Chained { first: Box::new(a2), second: Box::new(b2) };
                        proof {
                            assert(orig.emit_seq() =~= eb);
                            if eb.len() > 0 {
                                assert(step.emit_seq() =~= eb.drop_first());
                            } else {
                                assert(step.emit_seq() =~= Seq::<i64>::empty());
                            }
                        }
                        (step, got2)
                    },
                }
            },
            Cursor::Peeked { buffered, src } => {
                match buffered {
                    Some(v) => {
                        let step = Cursor::Peeked { buffered: None, src };
                        proof {
                            assert(orig.emit_seq()[0] == v);
                            assert(step.emit_seq() =~= orig.emit_seq().drop_first());
                        }
                        (step, Some(v))
                    },
                    None => {
                        let inner_cursor = *src;
                        inner_cursor.produce_next()
                    },
                }
            },
            Cursor::Flat { rows, outer, inner } => {
                if outer >= rows.len() {
                    (Cursor::Flat { rows, outer, inner }, None)
                } else {
                    let row: &Vec<i64> = &rows[outer];
                    let row_len = row.len();
                    if inner < row_len {
                        let v = rows[outer][inner];
                        let step = Cursor::Flat { rows, outer, inner: inner + 1 };
                        proof {
                            let first_row = step->Flat_rows@[outer as int]@;
                            assert(orig.emit_seq()[0] == first_row[inner as int]);
                            assert(first_row.skip(inner + 1) =~= first_row.skip(
                                inner as int,
                            ).drop_first());
                            assert(step.emit_seq() =~= orig.emit_seq().drop_first());
                        }
                        (step, Some(v))
                    } else {
                        let again = Cursor::Flat { rows, outer: outer + 1, inner: 0 };
                        proof {
                            let rs = again->Flat_rows@;
                            assert(rs[outer as int]@.skip(inner as int) =~= Seq::<i64>::empty());
                            if outer + 1 < rs.len() {
                                assert(rs[outer as int + 1]@.skip(0) =~= rs[outer as int + 1]@);
                                assert(again.emit_seq() =~= flat_from(rs, outer as nat + 1));
                            } else {
                                assert(again.emit_seq() =~= flat_from(rs, outer as nat + 1));
                            }
                            assert(orig.emit_seq() =~= again.emit_seq());
                        }
                        again.produce_next()
                    }
                }
            },
        }
    }

    /// What the next call to [`Cursor::produce_next`] would yield, without
    /// consuming it: the emitted sequence is unchanged, so any number of
    /// peeks in a row answer the same.
    pub fn peek(self) -> (r: (Cursor, Option<i64>))
        requires
            self.wf(),
        ensures
            r.0.wf(),
            r.0.emit_seq() == self.emit_seq(),
            self.emit_seq().len() == 0 ==> r.1 == None::<i64>,
            self.emit_seq().len() > 0 ==> r.1 == Some(self.emit_seq()[0]),
    {
        match self {
            Cursor::Peeked { buffered: Some(v), src } => (
                Cursor::Peeked { buffered: Some(v), src },
                Some(v),
            ),
            other => {
                let ghost e = other.emit_seq();
                let (c2, got) = other.produce_next();
                match got {
                    Some(v) => {
                        let step = Cursor::Peeked { buffered: Some(v), src: Box::new(c2) };
                        proof {
                            assert(step.emit_seq() =~= e);
                        }
                        (step, Some(v))
                    },
                    None => (c2, None),
                }
            },
        }
    }
    /// A cursor producing the elements of `data`, first to last.
    pub fn from_vec(data: Vec<i64>) -> (r: Cursor)
        ensures
            r.wf(),
            r.emit_seq() == data@,
    {
        let ghost d = data@;
        let made = Cursor::FromVec { data, index: 0 };
        proof {
            assert(made.emit_seq() =~= d);
        }
        made
    }

    /// The unbounded counting cursor: `start`, `start + 1`, ... up to the
    /// machine limit.
    pub fn counting(start: i64) -> (r: Cursor)
        ensures
            r.wf(),
            r.emit_seq() == counting_from(start),
    {
        Cursor::Counting { next_value: start, live: true }
    }

    /// The integers of the half-open interval `lo..hi`.
    pub fn range(lo: i64, hi: i64) -> (r: Cursor)
        ensures
            r.wf(),
            r.emit_seq() == int_range(lo as int, hi as int),
    {
        Cursor::Ranged { cur: lo, end: hi }
    }

    /// The integers of the inclusive interval `lo..=hi`.
    pub fn range_inclusive(lo: i64, hi: i64) -> (r: Cursor)
        requires
            hi < i64::MAX,
        ensures
            r.wf(),
            r.emit_seq() == int_range(lo as int, hi as int + 1),
    {
        Cursor::Ranged { cur: lo, end: hi + 1 }
    }

    /// The elements of the given rows, one row after another.
    pub fn flatten_rows(rows: Vec<Vec<i64>>) -> (r: Cursor)
        ensures
            r.wf(),
            r.emit_seq() == flat_from(rows@, 0),
    {
        let ghost rs = rows@;
        let made = Cursor::Flat { rows, outer: 0, inner: 0 };
        proof {
            if rs.len() > 0 {
                assert(rs[0]@.skip(0) =~= rs[0]@);
                assert(made.emit_seq() =~= flat_from(rs, 0));
            }
        }
        made
    }

    /// The elements of the given rows, one row after another, each sent
    /// through `op`.
    pub fn flat_map_rows(rows: Vec<Vec<i64>>, op: MapOp) -> (r: Cursor)
        ensures
            r.wf(),
            r.emit_seq() == map_all(op, flat_from(rows@, 0)),
    {
        Cursor::flatten_rows(rows).map(op)
    }

    /// Wraps this cursor so that every element passes through `op`.
    pub fn map(self, op: MapOp) -> (r: Cursor)
        requires
            self.wf(),
        ensures
            r.wf(),
            r.emit_seq() == map_all(op, self.emit_seq()),
    {
        Cursor::Mapped { op, src: Box::new(self) }
    }

    /// Wraps this cursor so that only elements satisfying `pred` come out.
    pub fn filter(self, pred: Pred) -> (r: Cursor)
        requires
            self.wf(),
        ensures
            r.wf(),
            r.emit_seq() == keep_matching(pred, self.emit_seq()),
    {
        Cursor::Filtered { pred, src: Box::new(self) }
    }

    /// Wraps this cursor so that at most `n` elements come out.  Laziness
    /// is the point: the source is consulted only step by step, so a take
    /// over the unbounded counting cursor stops after `n` productions.
    pub fn take(self, n: usize) -> (r: Cursor)
        requires
            self.wf(),
        ensures
            r.wf(),
            r.emit_seq() == prefix_part(self.emit_seq(), n as nat),
    {
        Cursor::Taken { left: n, src: Box::new(self) }
    }

    /// Wraps this cursor so that its first `n` elements are discarded.
    pub fn skip(self, n: usize) -> (r: Cursor)
        requires
            self.wf(),
        ensures
            r.wf(),
            r.emit_seq() == suffix_part(self.emit_seq(), n as nat),
    {
        Cursor::Skipped { todo: n, src: Box::new(self) }
    }

    /// This cursor's elements followed by all of `other`'s.
    pub fn chain(self, other: Cursor) -> (r: Cursor)
        requires
            self.wf(),
            other.wf(),
        ensures
            r.wf(),
            r.emit_seq() == self.emit_seq() + other.emit_seq(),
    {
        Cursor::Chained { first: Box::new(self), second: Box::new(other) }
    }

    /// Drives the cursor to exhaustion and returns everything it produced,
    /// in order.
    #[verifier::loop_isolation(false)]
    pub fn collect(self) -> (r: Vec<i64>)
        requires
            self.wf(),
        ensures
            r@ == self.emit_seq(),
    {
        let ghost total = self.emit_seq();
        let mut cur = self;
        let mut out: Vec<i64> = Vec::new();
        loop
            invariant
                cur.wf(),
                out@ + cur.emit_seq() == total,
            decreases cur.emit_seq().len(),
        {
            let (c2, got) = cur.produce_next();
            cur = c2;
            match got {
                Some(v) => {
                    out.push(v);
                    proof {
                        assert(out@ + cur.emit_seq() =~= total);
                    }
                },
                None => {
                    proof {
                        assert(out@ =~= total);
                    }
                    return out;
                },
            }
        }
    }

    /// Left-to-right accumulation with `op`, starting from `init`; the
    /// accumulator of an empty sequence is `init`, unchanged.
    #[verifier::loop_isolation(false)]
    pub fn fold(self, op: FoldOp, init: i64) -> (r: i64)
        requires
            self.wf(),
        ensures
            r == fold_seq(op, init, self.emit_seq()),
            self.emit_seq().len() == 0 ==> r == init,
    {
        let ghost total = self.emit_seq();
        let mut cur = self;
        let mut acc = init;
        loop
            invariant
                cur.wf(),
                fold_seq(op, acc, cur.emit_seq()) == fold_seq(op, init, total),
            decreases cur.emit_seq().len(),
        {
            let (c2, got) = cur.produce_next();
            cur = c2;
            match got {
                Some(v) => {
                    acc = run_fold(&op, acc, v);
                },
                None => {
                    return acc;
                },
            }
        }
    }

    /// Like [`Cursor::fold`], but the first element seeds the accumulator;
    /// an empty sequence has no result.
    pub fn reduce(self, op: FoldOp) -> (r: Option<i64>)
        requires
            self.wf(),
        ensures
            self.emit_seq().len() == 0 <==> r == None::<i64>,
            self.emit_seq().len() > 0 ==> r == Some(
                fold_seq(op, self.emit_seq()[0], self.emit_seq().drop_first()),
            ),
    {
        let (c2, got) = self.produce_next();
        match got {
            Some(v) => Some(c2.fold(op, v)),
            None => None,
        }
    }

    /// The wrapping sum of all elements.
    pub fn sum(self) -> (r: i64)
        requires
            self.wf(),
        ensures
            r == fold_seq(FoldOp::Plus, 0, self.emit_seq()),
    {
        self.fold(FoldOp::Plus, 0)
    }

    /// The wrapping product of all elements.
    pub fn product(self) -> (r: i64)
        requires
            self.wf(),
        ensures
            r == fold_seq(FoldOp::Times, 1, self.emit_seq()),
    {
        self.fold(FoldOp::Times, 1)
    }

    /// Whether some element satisfies `p`; stops at the first hit, so over
    /// an unbounded source it answers as soon as a hit is produced.
    #[verifier::loop_isolation(false)]
    pub fn any(self, p: Pred) -> (r: bool)
        requires
            self.wf(),
        ensures
            r <==> exists|i: int|
                0 <= i < self.emit_seq().len() && pred_holds(p, self.emit_seq()[i]),
    {
        let ghost total = self.emit_seq();
        let mut cur = self;
        let ghost mut seen: Seq<i64> = Seq::empty();
        loop
            invariant
                cur.wf(),
                seen + cur.emit_seq() == total,
                forall|j: int| 0 <= j < seen.len() ==> !pred_holds(p, seen[j]),
            decreases cur.emit_seq().len(),
        {
            let (c2, got) = cur.produce_next();
            cur = c2;
            match got {
                Some(v) => {
                    if run_pred(&p, v) {
                        proof {
                            assert(total[seen.len() as int] == v);
                        }
                        return true;
                    }
                    proof {
                        seen = seen.push(v);
                        assert(seen + cur.emit_seq() =~= total);
                    }
                },
                None => {
                    proof {
                        assert(seen =~= total);
                    }
                    return false;
                },
            }
        }
    }

    /// Whether every element satisfies `p`; stops at the first failure
    /// without producing anything past it.
    #[verifier::loop_isolation(false)]
    pub fn all(self, p: Pred) -> (r: bool)
        requires
            self.wf(),
        ensures
            r <==> forall|i: int|
                0 <= i < self.emit_seq().len() ==> pred_holds(p, self.emit_seq()[i]),
    {
        let ghost total = self.emit_seq();
        let mut cur = self;
        let ghost mut seen: Seq<i64> = Seq::empty();
        loop
            invariant
                cur.wf(),
                seen + cur.emit_seq() == total,
                forall|j: int| 0 <= j < seen.len() ==> pred_holds(p, seen[j]),
            decreases cur.emit_seq().len(),
        {
            let (c2, got) = cur.produce_next();
            cur = c2;
            match got {
                Some(v) => {
                    if !run_pred(&p, v) {
                        proof {
                            assert(total[seen.len() as int] == v);
                        }
                        return false;
                    }
                    proof {
                        seen = seen.push(v);
                        assert(seen + cur.emit_seq() =~= total);
                    }
                },
                None => {
                    proof {
                        assert(seen =~= total);
                        assert(forall|i: int|
                            0 <= i < total.len() ==> pred_holds(p, total[i]));
                    }
                    return true;
                },
            }
        }
    }

    /// The first element satisfying `p`, if any element does.
    pub fn find(self, p: Pred) -> (r: Option<i64>)
        requires
            self.wf(),
        ensures
            (r != None::<i64>) <==> exists|i: int|
                0 <= i < self.emit_seq().len() && pred_holds(p, self.emit_seq()[i]),
            keep_matching(p, self.emit_seq()).len() > 0 ==> r == Some(
                keep_matching(p, self.emit_seq())[0],
            ),
    {
        proof {
            lemma_keep_matching_nonempty(p, self.emit_seq());
        }
        let probe = Cursor::Filtered { pred: p, src: Box::new(self) };
        let (_leftover, got) = probe.produce_next();
        got
    }

    /// Splits the elements into those satisfying `p` and those not, each
    /// side keeping its order.
    #[verifier::loop_isolation(false)]
    pub fn partition(self, p: Pred) -> (r: (Vec<i64>, Vec<i64>))
        requires
            self.wf(),
        ensures
            r.0@ == keep_matching(p, self.emit_seq()),
            r.1@ == drop_matching(p, self.emit_seq()),
    {
        let ghost total = self.emit_seq();
        let mut cur = self;
        let mut hits: Vec<i64> = Vec::new();
        let mut misses: Vec<i64> = Vec::new();
        loop
            invariant
                cur.wf(),
                hits@ + keep_matching(p, cur.emit_seq()) == keep_matching(p, total),
                misses@ + drop_matching(p, cur.emit_seq()) == drop_matching(p, total),
            decreases cur.emit_seq().len(),
        {
            let ghost before = cur.emit_seq();
            let (c2, got) = cur.produce_next();
            cur = c2;
            match got {
                Some(v) => {
                    if run_pred(&p, v) {
                        hits.push(v);
                        proof {
                            assert(keep_matching(p, before) == seq![v] + keep_matching(
                                p,
                                cur.emit_seq(),
                            ));
                            assert(hits@ + keep_matching(p, cur.emit_seq()) =~= keep_matching(
                                p,
                                total,
                            ));
                        }
                    } else {
                        misses.push(v);
                        proof {
                            assert(drop_matching(p, before) == seq![v] + drop_matching(
                                p,
                                cur.emit_seq(),
                            ));
                            assert(misses@ + drop_matching(p, cur.emit_seq()) =~= drop_matching(
                                p,
                                total,
                            ));
                        }
                    }
                },
                None => {
                    proof {
                        assert(hits@ =~= keep_matching(p, total));
                        assert(misses@ =~= drop_matching(p, total));
                    }
                    return (hits, misses);
                },
            }
        }
    }
}

/// The elements the counting cursor starting at `start` will produce:
/// every integer from `start` up to the machine limit.
pub open spec fn counting_from(start: i64) -> Seq<i64> {
    Seq::new((i64::MAX - start + 1) as nat, |i: int| (start + i) as i64)
}

} // verus!
