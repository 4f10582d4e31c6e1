//! Grouping cursors: overlapping windows and non-overlapping chunks.
//!
//! A [`GroupCursor`] walks a finite sequence and produces groups of
//! elements: either every window of a fixed width, sliding by one, or the
//! consecutive chunks of a fixed width with a possibly shorter last one.
//! A width of zero makes no sense and is rejected when the cursor is
//! built, before anything is produced.

use vstd::prelude::*;
use vstd::arithmetic::div_mod::{lemma_div_plus_one, lemma_basic_div};

verus! {

/// How a [`GroupCursor`] carves its data.
#[derive(Clone, Copy, Debug)]
pub enum GroupKind {
    /// Overlapping runs of `size` consecutive elements, sliding by one.
    Windows,
    /// Consecutive runs of `size` elements; the last may be shorter.
    Chunks,
}

/// All windows of width `n` over `s`: the group at `i` is
/// `s[i .. i + n]`, and there are `len - n + 1` of them (none if `s` is
/// shorter than `n`).
pub open spec fn windows_model(s: Seq<i64>, n: nat) -> Seq<Seq<i64>> {
    Seq::new(
        if n <= s.len() {
            (s.len() - n + 1) as nat
        } else {
            0
        },
        |i: int| s.subrange(i, i + n),
    )
}

/// The chunks of width `n` over `s`: full groups of `n` elements until
/// fewer than `n` remain, which then form the final, shorter group.
pub open spec fn chunks_model(s: Seq<i64>, n: nat) -> Seq<Seq<i64>>
    decreases s.len(),
{
    if n == 0 || s.len() == 0 {
        Seq::empty()
    } else {
        let m = if n <= s.len() {
            n
        } else {
            s.len()
        };
        seq![s.subrange(0, m as int)] + chunks_model(s.skip(m as int), n)
    }
}

/// The groups of `gs` laid end to end.
pub open spec fn concat_groups(gs: Seq<Seq<i64>>) -> Seq<i64>
    decreases gs.len(),
{
    if gs.len() == 0 {
        Seq::empty()
    } else {
        gs[0] + concat_groups(gs.drop_first())
    }
}

/// A lazy producer of element groups over a finite sequence.
pub struct GroupCursor {
    /// Whether the groups overlap (windows) or tile (chunks).
    pub kind: GroupKind,
    /// The width of each group; always positive.
    pub size: usize,
    /// The underlying elements.
    pub data: Vec<i64>,
    /// How many leading elements have already been consumed.
    pub pos: usize,
}

impl GroupCursor {
    /// The width is positive and the position stays within the data.
    pub open spec fn wf(self) -> bool {
        self.size > 0 && self.pos <= self.data@.len()
    }

    /// The groups this cursor will still produce.
    pub open spec fn emit_groups(self) -> Seq<Seq<i64>> {
        match self.kind {
            GroupKind::Windows => windows_model(
                self.data@.skip(self.pos as int),
                self.size as nat,
            ),
            GroupKind::Chunks => chunks_model(self.data@.skip(self.pos as int), self.size as nat),
        }
    }

    /// A cursor over every window of width `n` in `data`; rejects the
    /// nonsensical width zero outright.
    pub fn windows(data: Vec<i64>, n: usize) -> (r: Option<GroupCursor>)
        ensures
            n == 0 <==> r == None::<GroupCursor>,
            n > 0 ==> (r matches Some(c) && c.wf() && c.emit_groups() == windows_model(
                data@,
                n as nat,
            )),
    {
        if n == 0 {
            None
        } else {
            let ghost d = data@;
            let made = GroupCursor { kind: GroupKind::Windows, size: n, data, pos: 0 };
            proof {
                assert(made.data@.skip(0) =~= d);
            }
            Some(made)
        }
    }

    /// A cursor over the chunks of width `n` in `data`; rejects the
    /// nonsensical width zero outright.
    pub fn chunks(data: Vec<i64>, n: usize) -> (r: Option<GroupCursor>)
        ensures
            n == 0 <==> r == None::<GroupCursor>,
            n > 0 ==> (r matches Some(c) && c.wf() && c.emit_groups() == chunks_model(
                data@,
                n as nat,
            )),
    {
        if n == 0 {
            None
        } else {
            let ghost d = data@;
            let made = GroupCursor { kind: GroupKind::Chunks, size: n, data, pos: 0 };
            proof {
                assert(made.data@.skip(0) =~= d);
            }
            Some(made)
        }
    }

    /// Yields the next group — the head of [`GroupCursor::emit_groups`] —
    /// or `None` forever once the groups are exhausted.
    pub fn produce_next(self) -> (r: (GroupCursor, Option<Vec<i64>>))
        requires
            self.wf(),
        ensures
            r.0.wf(),
            self.emit_groups().len() == 0 ==> r.1 == None::<Vec<i64>> && r.0.emit_groups()
                == Seq::<Seq<i64>>::empty(),
            self.emit_groups().len() > 0 ==> (r.1 matches Some(g) && g@ == self.emit_groups()[0]
                && r.0.emit_groups() == self.emit_groups().drop_first()),
    {
        let GroupCursor { kind, size, data, pos } = self;
        match kind {
            GroupKind::Windows => {
                if size <= data.len() - pos {
                    let group = copy_span(&data, pos, pos + size);
                    let step = GroupCursor { kind, size, data, pos: pos + 1 };
                    proof {
                        let whole = step.data@;
                        assert(self.emit_groups()[0] =~= whole.subrange(
                            pos as int,
                            pos + size,
                        ));
                        assert forall|i: int|
                            0 <= i < step.emit_groups().len() implies step.emit_groups()[i]
                            == self.emit_groups().drop_first()[i] by {
                            assert(whole.skip(pos + 1).subrange(i, i + size) =~= whole.skip(
                                pos as int,
                            ).subrange(i + 1, i + 1 + size));
                        }
                        assert(step.emit_groups() =~= self.emit_groups().drop_first());
                    }
                    (step, Some(group))
                } else {
                    (GroupCursor { kind, size, data, pos }, None)
                }
            },
            GroupKind::Chunks => {
                if pos < data.len() {
                    let rest = data.len() - pos;
                    let width = if size <= rest {
                        size
                    } else {
                        rest
                    };
                    let group = copy_span(&data, pos, pos + width);
                    let step = GroupCursor { kind, size, data, pos: pos + width };
                    proof {
                        let whole = step.data@;
                        let tail = whole.skip(pos as int);
                        assert(tail.len() > 0);
                        assert(self.emit_groups()[0] =~= tail.subrange(0, width as int));
                        assert(self.emit_groups()[0] =~= whole.subrange(
                            pos as int,
                            pos + width,
                        ));
                        assert(tail.skip(width as int) =~= whole.skip(pos + width));
                        assert(step.emit_groups() =~= self.emit_groups().drop_first());
                    }
                    (step, Some(group))
                } else {
                    proof {
                        assert(self.data@.skip(pos as int) =~= Seq::<i64>::empty());
                    }
                    (GroupCursor { kind, size, data, pos }, None)
                }
            },
        }
    }

    /// Drives the cursor to exhaustion and returns every group, in order.
    #[verifier::loop_isolation(false)]
    pub fn collect_groups(self) -> (r: Vec<Vec<i64>>)
        requires
            self.wf(),
        ensures
            r@.len() == self.emit_groups().len(),
            forall|i: int| 0 <= i < r@.len() ==> r@[i]@ == self.emit_groups()[i],
    {
        let ghost total = self.emit_groups();
        let mut cur = self;
        let mut out: Vec<Vec<i64>> = Vec::new();
        loop
            invariant
                cur.wf(),
                out@.len() + cur.emit_groups().len() == total.len(),
                cur.emit_groups() == total.skip(out@.len() as int),
                forall|i: int| 0 <= i < out@.len() ==> out@[i]@ == total[i],
            decreases cur.emit_groups().len(),
        {
            let ghost before = cur.emit_groups();
            let (c2, got) = cur.produce_next();
            cur = c2;
            match got {
                Some(g) => {
                    proof {
                        assert(before[0] == total[out@.len() as int]);
                        assert(before.drop_first() =~= total.skip(out@.len() as int + 1));
                    }
                    out.push(g);
                },
                None => {
                    return out;
                },
            }
        }
    }
}

/// Copies `data[a .. b]` into a fresh vector.
fn copy_span(data: &Vec<i64>, a: usize, b: usize) -> (r: Vec<i64>)
    requires
        a <= b <= data@.len(),
    ensures
        r@ == data@.subrange(a as int, b as int),
{
    let mut out: Vec<i64> = Vec::new();
    let mut j = a;
    while j < b
        invariant
            a <= j <= b <= data@.len(),
            out@ == data@.subrange(a as int, j as int),
        decreases b - j,
    {
        out.push(data[j]);
        j = j + 1;
        proof {
            assert(out@ =~= data@.subrange(a as int, j as int));
        }
    }
    out
}

/// Law: over a sequence of length `L ≥ n > 0`, `windows(n)` yields exactly
/// `L - n + 1` groups, each of length `n`, each the slice of the source
/// starting at its index, and each overlapping its left neighbor in all
/// but one position.
pub proof fn lemma_windows_shape(s: Seq<i64>, n: nat)
    requires
        0 < n <= s.len(),
    ensures
        windows_model(s, n).len() == s.len() - n + 1,
        forall|i: int| 0 <= i < windows_model(s, n).len() ==> (#[trigger] windows_model(s, n)[i])
            =~= s.subrange(i, i + n),
        forall|i: int| 0 <= i < windows_model(s, n).len() ==> (#[trigger] windows_model(s, n)[i]).len()
            == n,
        forall|i: int, j: int|
            1 <= i < windows_model(s, n).len() && 0 <= j < n - 1 ==> #[trigger] (windows_model(
                s,
                n,
            )[i][j]) == windows_model(s, n)[i - 1][j + 1],
{
    assert forall|i: int, j: int|
        1 <= i < windows_model(s, n).len() && 0 <= j < n - 1 implies #[trigger] (windows_model(
        s,
        n,
    )[i][j]) == windows_model(s, n)[i - 1][j + 1] by {
        assert(windows_model(s, n)[i][j] == s[i + j]);
        assert(windows_model(s, n)[i - 1][j + 1] == s[i + j]);
    }
}

/// Law: for `n > 0`, `chunks(n)` yields exactly `ceil(L / n)` groups, and
/// laying the groups end to end restores the source sequence.
pub proof fn lemma_chunks_reassemble(s: Seq<i64>, n: nat)
    requires
        n > 0,
    ensures
        chunks_model(s, n).len() == (s.len() + n - 1) as int / n as int,
        concat_groups(chunks_model(s, n)) == s,
    decreases s.len(),
{
    if s.len() == 0 {
        lemma_basic_div((n - 1) as int, n as int);
        assert((s.len() + n - 1) as int / n as int == 0);
    } else {
        let m: nat = if n <= s.len() {
            n
        } else {
            s.len()
        };
        let rest = s.skip(m as int);
        lemma_chunks_reassemble(rest, n);
        let gs = chunks_model(s, n);
        assert(gs.drop_first() =~= chunks_model(rest, n));
        assert(concat_groups(gs) == s.subrange(0, m as int) + concat_groups(chunks_model(rest, n)));
        assert(s.subrange(0, m as int) + rest =~= s);
        // group count: peeling one full-or-final group removes one unit of
        // the rounded-up quotient
        lemma_div_plus_one((s.len() - 1) as int, n as int);
        if n <= s.len() {
            assert((rest.len() + n - 1) as int == (s.len() - 1) as int);
        } else {
            lemma_basic_div((s.len() - 1) as int, n as int);
            lemma_basic_div((n - 1) as int, n as int);
            assert((rest.len() + n - 1) as int / n as int == 0);
        }
        assert((n + (s.len() - 1)) as int == (s.len() + n - 1) as int);
    }
}

} // verus!
