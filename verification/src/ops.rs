//! Named element operations.
//!
//! Cursors cannot store arbitrary closures, so the mapping functions,
//! predicates and accumulators that callers hand to the sequence operations
//! are drawn from small first-class vocabularies: [`MapOp`], [`Pred`] and
//! [`FoldOp`].  Each has an exact spec-level meaning (`apply_map`,
//! `pred_holds`, `apply_fold`) and a verified executable evaluator.
//! Arithmetic wraps on overflow, with the wrapped value stated exactly.

use vstd::prelude::*;
use vstd::wrapping::i64_specs;

verus! {

/// A transformation of one element, applied by `map`.
#[derive(Debug)]
pub enum MapOp {
    /// Leaves the element unchanged.
    Keep,
    /// Multiplies the element by itself (wrapping).
    Square,
    /// Adds the element to itself (wrapping).
    Double,
    /// Adds a constant (wrapping).
    Plus(i64),
    /// Multiplies by a constant (wrapping).
    Times(i64),
    /// Applies the first operation, then the second.
    Composed(Box<MapOp>, Box<MapOp>),
}

/// What [`MapOp`] `op` turns the element `x` into.
pub open spec fn apply_map(op: MapOp, x: i64) -> i64
    decreases op,
{
    match op {
        MapOp::Keep => x,
        MapOp::Square => i64_specs::wrapping_mul(x, x),
        MapOp::Double => i64_specs::wrapping_add(x, x),
        MapOp::Plus(c) => i64_specs::wrapping_add(x, c),
        MapOp::Times(c) => i64_specs::wrapping_mul(x, c),
        MapOp::Composed(inner, outer) => apply_map(*outer, apply_map(*inner, x)),
    }
}

/// Evaluates a [`MapOp`] on one element.
pub fn run_map(op: &MapOp, x: i64) -> (r: i64)
    ensures
        r == apply_map(*op, x),
    decreases *op,
{
    match op {
        MapOp::Keep => x,
        MapOp::Square => x.wrapping_mul(x),
        MapOp::Double => x.wrapping_add(x),
        MapOp::Plus(c) => x.wrapping_add(*c),
        MapOp::Times(c) => x.wrapping_mul(*c),
        MapOp::Composed(inner, outer) => {
            let y = run_map(inner, x);
            run_map(outer, y)
        },
    }
}

/// The absolute value of `x`, as a mathematical natural number.
pub open spec fn abs_val(x: i64) -> nat {
    if x >= 0 {
        x as nat
    } else {
        (-(x as int)) as nat
    }
}

/// Computes [`abs_val`]; total even at `i64::MIN`.
pub fn run_abs(x: i64) -> (r: u64)
    ensures
        r == abs_val(x),
{
    if x >= 0 {
        x as u64
    } else {
        ((-(x + 1)) as u64) + 1
    }
}

/// A test on one element, applied by `filter`, `find`, `any`, `all`
/// and `partition`.
#[derive(Clone, Copy, Debug)]
pub enum Pred {
    /// Holds of elements divisible by two.
    Even,
    /// Holds of elements not divisible by two.
    Odd,
    /// Holds of elements divisible by the given constant; never holds
    /// when the constant is zero.
    DivisibleBy(i64),
    /// Holds of elements strictly greater than the constant.
    Above(i64),
    /// Holds of elements strictly less than the constant.
    Below(i64),
}

/// Whether [`Pred`] `p` holds of the element `x`.
pub open spec fn pred_holds(p: Pred, x: i64) -> bool {
    match p {
        Pred::Even => abs_val(x) % 2 == 0,
        Pred::Odd => abs_val(x) % 2 == 1,
        Pred::DivisibleBy(k) => k != 0 && abs_val(x) % abs_val(k) == 0,
        Pred::Above(c) => x > c,
        Pred::Below(c) => x < c,
    }
}

/// Evaluates a [`Pred`] on one element.
pub fn run_pred(p: &Pred, x: i64) -> (r: bool)
    ensures
        r == pred_holds(*p, x),
{
    match p {
        Pred::Even => run_abs(x) % 2 == 0,
        Pred::Odd => run_abs(x) % 2 == 1,
        Pred::DivisibleBy(k) => {
            if *k == 0 {
                false
            } else {
                run_abs(x) % run_abs(*k) == 0
            }
        },
        Pred::Above(c) => x > *c,
        Pred::Below(c) => x < *c,
    }
}

/// A two-place accumulator, applied by `fold`, `reduce`, `sum`
/// and `product`.
#[derive(Clone, Copy, Debug)]
pub enum FoldOp {
    /// Adds the element to the accumulator (wrapping).
    Plus,
    /// Multiplies the accumulator by the element (wrapping).
    Times,
}

/// What folding one element `x` into the accumulator `acc` yields.
pub open spec fn apply_fold(op: FoldOp, acc: i64, x: i64) -> i64 {
    match op {
        FoldOp::Plus => i64_specs::wrapping_add(acc, x),
        FoldOp::Times => i64_specs::wrapping_mul(acc, x),
    }
}

/// Evaluates a [`FoldOp`] on an accumulator and one element.
pub fn run_fold(op: &FoldOp, acc: i64, x: i64) -> (r: i64)
    ensures
        r == apply_fold(*op, acc, x),
{
    match op {
        FoldOp::Plus => acc.wrapping_add(x),
        FoldOp::Times => acc.wrapping_mul(x),
    }
}

/// The sequence `s` with `op` applied to every element.
pub open spec fn map_all(op: MapOp, s: Seq<i64>) -> Seq<i64> {
    s.map_values(|x: i64| apply_map(op, x))
}

/// The elements of `s` satisfying `p`, in order.
pub open spec fn keep_matching(p: Pred, s: Seq<i64>) -> Seq<i64>
    decreases s.len(),
{
    if s.len() == 0 {
        Seq::empty()
    } else if pred_holds(p, s[0]) {
        seq![s[0]] + keep_matching(p, s.drop_first())
    } else {
        keep_matching(p, s.drop_first())
    }
}

/// The elements of `s` not satisfying `p`, in order.
pub open spec fn drop_matching(p: Pred, s: Seq<i64>) -> Seq<i64>
    decreases s.len(),
{
    if s.len() == 0 {
        Seq::empty()
    } else if pred_holds(p, s[0]) {
        drop_matching(p, s.drop_first())
    } else {
        seq![s[0]] + drop_matching(p, s.drop_first())
    }
}

/// A match survives filtering if and only if one exists: `keep_matching`
/// is non-empty exactly when some element of `s` satisfies `p`.
pub proof fn lemma_keep_matching_nonempty(p: Pred, s: Seq<i64>)
    ensures
        keep_matching(p, s).len() > 0 <==> exists|i: int|
            0 <= i < s.len() && pred_holds(p, s[i]),
    decreases s.len(),
{
    if s.len() > 0 {
        lemma_keep_matching_nonempty(p, s.drop_first());
        if pred_holds(p, s[0]) {
            assert(pred_holds(p, s[0]));
        } else {
            if keep_matching(p, s).len() > 0 {
                let j = choose|j: int|
                    0 <= j < s.drop_first().len() && pred_holds(p, s.drop_first()[j]);
                assert(s[j + 1] == s.drop_first()[j]);
            }
            if exists|i: int| 0 <= i < s.len() && pred_holds(p, s[i]) {
                let i = choose|i: int| 0 <= i < s.len() && pred_holds(p, s[i]);
                assert(i >= 1);
                assert(s.drop_first()[i - 1] == s[i]);
                assert(pred_holds(p, s.drop_first()[i - 1]));
            }
        }
    }
}

/// Left-to-right accumulation of `s` onto `init` with `op`.
pub open spec fn fold_seq(op: FoldOp, init: i64, s: Seq<i64>) -> i64
    decreases s.len(),
{
    if s.len() == 0 {
        init
    } else {
        fold_seq(op, apply_fold(op, init, s[0]), s.drop_first())
    }
}

} // verus!
