//! Uniprocessor exclusive-access cell.
//!
//! `UPSafeCell` wraps a value that a single logical owner mutates at a time.
//! `exclusive_access` hands the whole value out and marks the cell empty;
//! `restore` puts it back.  Requesting a second exclusive view while one is
//! outstanding is a reentrancy fault, reported so the kernel can abort: the
//! cell never hands the same value out twice.

use vstd::prelude::*;

use crate::errors::KernelError;

verus! {

/// Single-owner wrapper around the shared kernel state `T`.
pub struct UPSafeCell<T> {
    value: Option<T>,
}

impl<T> UPSafeCell<T> {
    /// The cell currently holds its value: no exclusive view is outstanding.
    pub closed spec fn is_available(self) -> bool {
        self.value is Some
    }

    /// The wrapped value, when no exclusive view is outstanding.
    pub closed spec fn stored(self) -> T {
        self.value->Some_0
    }

    /// Wrap `value`; no view is outstanding yet.
    pub fn new(value: T) -> (r: Self)
        ensures
            r.is_available(),
            r.stored() == value,
    {
        Self { value: Some(value) }
    }

    /// Take the wrapped value as the one exclusive view, or report the
    /// reentrancy fault if a view is already outstanding.
    pub fn exclusive_access(&mut self) -> (r: Result<T, KernelError>)
        ensures
            old(self).is_available() ==> (r matches Ok(v) && v == old(self).stored()),
            old(self).is_available() ==> !final(self).is_available(),
            !old(self).is_available() ==> r == Err::<T, KernelError>(
                KernelError::ReentrantAccess,
            ) && !final(self).is_available(),
    {
        let mut taken: Option<T> = None;
        core::mem::swap(&mut self.value, &mut taken);
        match taken {
            Some(v) => Ok(v),
            None => Err(KernelError::ReentrantAccess),
        }
    }

    /// End the exclusive view by handing the value back.
    pub fn restore(&mut self, value: T)
        requires
            !old(self).is_available(),
        ensures
            final(self).is_available(),
            final(self).stored() == value,
    {
        self.value = Some(value);
    }
}

} // verus!
