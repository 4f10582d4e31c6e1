//! A small verified sequence-production library.
//!
//! The heart of the crate is a lazy, pull-based cursor ([`cursor::Cursor`])
//! that produces one element per step and is composed by wrapping: `map`,
//! `filter`, `take`, `skip` and `chain` each return a new cursor around the
//! old one, and nothing is materialized until a terminal consumer drives the
//! cursor.  Grouping cursors ([`groups::GroupCursor`]), pairing cursors
//! ([`pairs`]) and an endlessly repeating cursor ([`cycle::CycleCursor`])
//! round out the sequence side.  A registry of type-erased behaviors
//! ([`registry`]) and a few small container types with hand-rolled cursors
//! ([`vectors`]) complete the crate.

pub mod cursor;
pub mod fib;
pub mod cycle;
pub mod groups;
pub mod laws;
pub mod ops;
pub mod pairs;
pub mod registry;
pub mod vectors;
