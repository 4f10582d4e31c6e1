//! General laws of the sequence operations, proved once and for all.
//!
//! The laws about group shapes live beside the grouping cursors
//! ([`crate::groups::lemma_windows_shape`],
//! [`crate::groups::lemma_chunks_reassemble`]); this module holds the laws
//! about element operations.

use vstd::prelude::*;
use crate::cursor::Cursor;
use crate::ops::{MapOp, apply_map, map_all};

verus! {

/// Law (map fusion): mapping `f` and then `g` over any finite sequence
/// yields the same sequence as a single map with any operation that acts
/// like `g` after `f` on every element.  Since `collect` returns exactly
/// what a cursor emits, the two collected pipelines are equal.
pub proof fn lemma_map_fusion(f: MapOp, g: MapOp, fused: MapOp, s: Seq<i64>)
    requires
        forall|x: i64| #[trigger] apply_map(fused, x) == apply_map(g, apply_map(f, x)),
    ensures
        map_all(g, map_all(f, s)) == map_all(fused, s),
{
    assert(map_all(g, map_all(f, s)) =~= map_all(fused, s));
}

/// Law (map fusion, composed form): the composed operation is such an
/// operation, so mapping `f` then `g` equals one map with their
/// composition.
pub proof fn lemma_composed_fuses(f: MapOp, g: MapOp, s: Seq<i64>)
    ensures
        map_all(g, map_all(f, s)) == map_all(MapOp::Composed(Box::new(f), Box::new(g)), s),
{
    lemma_map_fusion(f, g, MapOp::Composed(Box::new(f), Box::new(g)), s);
}

/// Law (map fusion over cursors): a cursor mapped by `f` and then by `g`
/// emits — and therefore collects to — exactly what the same cursor
/// mapped once by their composition emits.  These two cursors are the
/// ones `map` builds for the two pipelines.
pub proof fn lemma_map_fusion_cursor(c: Cursor, f: MapOp, g: MapOp)
    ensures
        (Cursor::Mapped {
            op: g,
            src: Box::new(Cursor::Mapped { op: f, src: Box::new(c) }),
        }).emit_seq() == (Cursor::Mapped {
            op: MapOp::Composed(Box::new(f), Box::new(g)),
            src: Box::new(c),
        }).emit_seq(),
{
    lemma_composed_fuses(f, g, c.emit_seq());
    let once = Cursor::Mapped { op: f, src: Box::new(c) };
    assert(once.emit_seq() == map_all(f, c.emit_seq()));
    let twice = Cursor::Mapped { op: g, src: Box::new(once) };
    assert(twice.emit_seq() == map_all(g, map_all(f, c.emit_seq())));
    let fused = Cursor::Mapped {
        op: MapOp::Composed(Box::new(f), Box::new(g)),
        src: Box::new(c),
    };
    assert(fused.emit_seq() == map_all(
        MapOp::Composed(Box::new(f), Box::new(g)),
        c.emit_seq(),
    ));
}

} // verus!
