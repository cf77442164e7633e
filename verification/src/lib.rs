//! A kernel physical page-frame allocator.
//!
//! The crate manages a fixed range of physical page frames: it hands out
//! single frames, reclaims released ones before growing the allocation
//! frontier, and ties each live frame to an owned `FrameTracker` handle whose
//! construction zero-fills the frame's contents.

pub mod addr;
pub mod allocator;
pub mod console;
pub mod errors;
pub mod model;
pub mod phys_mem;
pub mod up;
