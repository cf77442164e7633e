//! Error taxonomy of the allocator.
//!
//! Frame exhaustion is not an error: `alloc` reports it as an empty result.
//! Every variant here marks a caller bug or a misconfiguration that the
//! kernel treats as fatal; the surrounding runtime decides how to abort.

use vstd::prelude::*;

verus! {

/// A fault that the kernel must treat as unrecoverable.
#[derive(Clone, Copy, PartialEq, Eq, Structural, Debug)]
pub enum KernelError {
    /// A second exclusive view of shared state was requested while one
    /// was still outstanding.
    ReentrantAccess,
    /// `dealloc` was called on a frame at or beyond the allocation
    /// frontier, so the frame was never handed out.
    FrameNotAllocated,
    /// `dealloc` was called on a frame that already sits in the recycle
    /// pool: a double free.
    FrameDoubleFree,
    /// The allocator was asked to manage a range whose start lies past
    /// its end.
    BadRange,
}

} // verus!
