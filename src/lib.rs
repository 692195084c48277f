//! A bump allocator over a fixed address reservation whose backing storage
//! grows and shrinks with the allocated tail.
//!
//! The library holds the allocator's bookkeeping: alignment padding, the
//! tail test, and the decisions of allocate, grow, shrink and deallocate.
//! Each operation is first planned (which length the backing file must take,
//! which address is handed out) and then applied once the caller has resized
//! the backing file, so the high-water mark never runs ahead of the storage.

pub mod align;
pub mod arena;
pub mod laws;

pub use align::calc_byte_skip_for_alignment;
pub use arena::{ArenaError, BlockLayout, BumpArena, Op, Plan};
