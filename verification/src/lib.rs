//! Chunk-management core of a bump (arena) allocator.
//!
//! The arena hands out allocations by moving a per-chunk frontier (`top`)
//! downward inside large pre-reserved blocks ("chunks"), and reclaims
//! everything at once on teardown.  Chunks form a singly linked,
//! most-recent-first chain of footers; a zero-cost sentinel stands for
//! "no chunk yet" so an arena costs nothing until its first allocation.

pub mod align;
pub mod arena;
pub mod chunkfooter;
