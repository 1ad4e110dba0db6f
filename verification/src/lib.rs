//! In-memory priority-ordered containers.
//!
//! Elements are retrieved not in insertion order but according to a composite
//! ranking key: priority first, then a lock flag, then insertion time, then a
//! unique identifier. The `queue` module holds the unbounded and the
//! capacity-bounded queue built on that key, a compact lock-aware variant, and
//! two dense, slot-based containers over a configurable priority range.

pub mod queue;
