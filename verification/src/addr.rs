//! Physical page numbers.

use vstd::prelude::*;

verus! {

/// Number of bytes in one physical page frame.
pub const PAGE_SIZE: usize = 4096;

/// Identifier of one page-aligned physical frame, counted in whole pages.
///
/// Two values are equal exactly when they name the same frame; no arithmetic
/// beyond ordering and equality is meaningful to callers.
#[derive(Clone, Copy, PartialEq, Eq, Structural, Debug)]
pub struct PhysPageNum(pub usize);

} // verus!
