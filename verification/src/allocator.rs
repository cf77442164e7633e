//! The stack-style physical frame allocator.

use vstd::prelude::*;

use crate::addr::PhysPageNum;
use crate::errors::KernelError;
use crate::model::AllocModel;
use crate::phys_mem::{zero_page, PhysMemory};
use crate::up::UPSafeCell;

verus! {

/// Frame allocator over a contiguous range of physical pages.
///
/// Frames below `current` have been allocated at least once; `recycled`
/// holds the released ones, reused (most recent first) before the frontier
/// advances; `end` is one past the last manageable frame.
pub struct StackFrameAllocator {
    current: usize,
    end: usize,
    recycled: Vec<usize>,
    init_done: Ghost<bool>,
}

impl StackFrameAllocator {
    /// Abstraction of the allocator state.
    pub closed spec fn model(self) -> AllocModel {
        AllocModel { current: self.current, end: self.end, recycled: self.recycled@ }
    }

    /// The range has been bound by `init`.
    pub closed spec fn initialized(self) -> bool {
        self.init_done@
    }

    /// See [`AllocModel::wf`].
    pub open spec fn wf(self) -> bool {
        self.model().wf()
    }

    /// A fresh allocator: empty range, empty recycle pool, not yet bound.
    pub fn new() -> (r: Self)
        ensures
            r.model() == (AllocModel { current: 0, end: 0, recycled: Seq::empty() }),
            !r.initialized(),
            r.wf(),
    {
        let r = Self { current: 0, end: 0, recycled: Vec::new(), init_done: Ghost(false) };
        proof {
            assert(r.model() =~= AllocModel { current: 0, end: 0, recycled: Seq::empty() });
        }
        r
    }

    /// Bind the manageable range `[l, r)`.  Must happen exactly once, on a
    /// fresh allocator, before any allocation or deallocation.
    pub fn init(&mut self, l: PhysPageNum, r: PhysPageNum)
        requires
            !old(self).initialized(),
            old(self).model().current == 0,
            old(self).model().end == 0,
            old(self).model().recycled.len() == 0,
            l.0 <= r.0,
        ensures
            final(self).initialized(),
            final(self).wf(),
            final(self).model() == (AllocModel {
                current: l.0,
                end: r.0,
                recycled: old(self).model().recycled,
            }),
    {
        self.current = l.0;
        self.end = r.0;
        self.init_done = Ghost(true);
        proof {
            assert(self.model() =~= AllocModel {
                current: l.0,
                end: r.0,
                recycled: old(self).model().recycled,
            });
        }
    }

    /// Whether `p` sits in the recycle pool.
    fn recycled_contains(&self, p: usize) -> (r: bool)
        ensures
            r == self.model().recycled.contains(p),
    {
        let mut i: usize = 0;
        while i < self.recycled.len()
            invariant
                i <= self.recycled.len(),
                forall|j: int| 0 <= j < i ==> self.recycled@[j] != p,
            decreases self.recycled.len() - i,
        {
            if self.recycled[i] == p {
                return true;
            }
            i = i + 1;
        }
        false
    }

    /// Hand out one frame, or report exhaustion.
    ///
    /// The most recently recycled frame is reused first; only with an empty
    /// recycle pool does the frontier advance.  A returned frame is never
    /// one that is currently issued, so no two live frame handles can name
    /// the same frame.
    pub fn allocate(&mut self) -> (r: Option<PhysPageNum>)
        requires
            old(self).initialized(),
            old(self).wf(),
        ensures
            final(self).initialized(),
            final(self).wf(),
            final(self).model() == old(self).model().alloc_s(),
            match r {
                Some(p) => old(self).model().alloc_r() == Some(p.0),
                None => old(self).model().alloc_r() is None,
            },
            r matches Some(p) ==> !old(self).model().issued().contains(p.0)
                && final(self).model().issued() =~= old(self).model().issued().insert(p.0),
            r is None <==> (old(self).model().recycled.len() == 0 && old(self).model().current
                == old(self).model().end),
            r is None ==> final(self).model() == old(self).model(),
    {
        proof {
            crate::model::lemma_alloc_fresh(old(self).model());
        }
        let popped = self.recycled.pop();
        match popped {
            Some(p) => {
                proof {
                    assert(self.model() =~= old(self).model().alloc_s());
                }
                Some(PhysPageNum(p))
            },
            None => {
                if self.current == self.end {
                    proof {
                        assert(self.model() =~= old(self).model().alloc_s());
                    }
                    None
                } else {
                    let p = self.current;
                    self.current = self.current + 1;
                    proof {
                        assert(self.model() =~= old(self).model().alloc_s());
                    }
                    Some(PhysPageNum(p))
                }
            },
        }
    }

    /// Return the frame `ppn` to the recycle pool.
    ///
    /// Accepts exactly the issued frames.  A frame at or past the frontier
    /// was never allocated; one already in the recycle pool would be freed
    /// twice.  Both are caller bugs, reported as the matching fatal error
    /// with the allocator left unchanged.
    pub fn dealloc(&mut self, ppn: PhysPageNum) -> (r: Result<(), KernelError>)
        requires
            old(self).initialized(),
            old(self).wf(),
        ensures
            final(self).initialized(),
            final(self).wf(),
            r is Ok <==> old(self).model().can_dealloc(ppn.0),
            r is Ok ==> final(self).model() == old(self).model().dealloc_s(ppn.0)
                && final(self).model().issued() =~= old(self).model().issued().remove(ppn.0),
            r is Err ==> final(self).model() == old(self).model(),
            r == Err::<(), KernelError>(KernelError::FrameNotAllocated)
                <==> ppn.0 >= old(self).model().current,
            r == Err::<(), KernelError>(KernelError::FrameDoubleFree)
                <==> (ppn.0 < old(self).model().current
                    && old(self).model().recycled.contains(ppn.0)),
    {
        if ppn.0 >= self.current {
            Err(KernelError::FrameNotAllocated)
        } else if self.recycled_contains(ppn.0) {
            Err(KernelError::FrameDoubleFree)
        } else {
            proof {
                crate::model::lemma_dealloc_issued(self.model(), ppn.0);
            }
            self.recycled.push(ppn.0);
            proof {
                assert(self.model() =~= old(self).model().dealloc_s(ppn.0));
            }
            Ok(())
        }
    }
}

/// Owned handle for one allocated physical frame.
///
/// Only a successful allocation creates one, and creating it zero-fills the
/// frame.  The type is deliberately neither `Clone` nor `Copy`: a frame has
/// at most one holder, and releasing it hands the handle back by value, so
/// the frame returns to the pool exactly once.
pub struct FrameTracker {
    /// The physical page this handle owns.
    pub ppn: PhysPageNum,
}

impl FrameTracker {
    /// Take ownership of frame `ppn`, zero-filling its contents before the
    /// handle is exposed so that no data leaks from a previous holder.
    pub fn new(ppn: PhysPageNum, mem: &mut PhysMemory) -> (r: Self)
        requires
            old(mem).wf(),
            old(mem).contains_ppn(ppn.0),
        ensures
            r.ppn == ppn,
            final(mem).wf(),
            final(mem).base_ppn() == old(mem).base_ppn(),
            final(mem).frame_count() == old(mem).frame_count(),
            final(mem)@ == old(mem)@.insert(ppn.0, zero_page()),
    {
        mem.clear_frame(ppn);
        Self { ppn }
    }
}

/// Every frame the allocator can hand out next — the recycled ones and the
/// frontier frame — lies inside the managed memory range.
pub open spec fn frames_covered(m: AllocModel, mem: PhysMemory) -> bool {
    &&& forall|i: int| 0 <= i < m.recycled.len() ==> mem.contains_ppn(#[trigger] m.recycled[i])
    &&& (m.current < m.end ==> mem.contains_ppn(m.current))
}

/// Bind the process-wide allocator inside `cell` to the range `[l, r)`.
///
/// Runs once, before the first allocation.  A range whose start lies past
/// its end is a misconfiguration, reported as `BadRange` with the allocator
/// untouched; an outstanding exclusive view is reported as the reentrancy
/// fault.
pub fn init_frame_allocator(
    cell: &mut UPSafeCell<StackFrameAllocator>,
    l: PhysPageNum,
    r: PhysPageNum,
) -> (res: Result<(), KernelError>)
    requires
        old(cell).is_available() ==> !old(cell).stored().initialized() && old(cell).stored().model()
            == (AllocModel { current: 0, end: 0, recycled: Seq::empty() }),
    ensures
        !old(cell).is_available() ==> res == Err::<(), KernelError>(KernelError::ReentrantAccess)
            && !final(cell).is_available(),
        old(cell).is_available() ==> final(cell).is_available(),
        old(cell).is_available() && l.0 > r.0 ==> res == Err::<(), KernelError>(
            KernelError::BadRange,
        ) && final(cell).stored() == old(cell).stored(),
        old(cell).is_available() && l.0 <= r.0 ==> res is Ok && final(cell).stored().initialized()
            && final(cell).stored().wf() && final(cell).stored().model() == (AllocModel {
            current: l.0,
            end: r.0,
            recycled: Seq::empty(),
        }),
{
    match cell.exclusive_access() {
        Err(_) => Err(KernelError::ReentrantAccess),
        Ok(mut fa) => {
            if l.0 > r.0 {
                cell.restore(fa);
                Err(KernelError::BadRange)
            } else {
                fa.init(l, r);
                cell.restore(fa);
                Ok(())
            }
        },
    }
}

/// Allocate one frame through the process-wide allocator and wrap it in a
/// zero-filled `FrameTracker`.
///
/// Exhaustion is the ordinary empty outcome, not an error; the only error is
/// the reentrancy fault of the exclusive-access cell.
pub fn frame_alloc(cell: &mut UPSafeCell<StackFrameAllocator>, mem: &mut PhysMemory) -> (r: Result<
    Option<FrameTracker>,
    KernelError,
>)
    requires
        old(mem).wf(),
        old(cell).is_available() ==> old(cell).stored().initialized() && old(cell).stored().wf()
            && frames_covered(old(cell).stored().model(), *old(mem)),
    ensures
        final(mem).wf(),
        final(mem).base_ppn() == old(mem).base_ppn(),
        final(mem).frame_count() == old(mem).frame_count(),
        !old(cell).is_available() ==> r == Err::<Option<FrameTracker>, KernelError>(
            KernelError::ReentrantAccess,
        ) && !final(cell).is_available() && final(mem)@ == old(mem)@,
        old(cell).is_available() ==> final(cell).is_available() && final(cell).stored().initialized() && final(cell).stored().wf() && final(cell).stored().model() == old(cell).stored().model().alloc_s() && r is Ok,
        old(cell).is_available() ==> match r {
            Ok(Some(t)) => old(cell).stored().model().alloc_r() == Some(t.ppn.0) && !old(cell).stored().model().issued().contains(t.ppn.0) && final(cell).stored().model().issued()
                =~= old(cell).stored().model().issued().insert(t.ppn.0) && final(mem)@ == old(mem)@.insert(t.ppn.0, zero_page()),
            Ok(None) => old(cell).stored().model().alloc_r() is None && old(cell).stored().model().recycled.len() == 0 && old(cell).stored().model().current == old(cell).stored().model().end && final(mem)@ == old(mem)@,
            Err(_) => false,
        },
{
    match cell.exclusive_access() {
        Err(_) => Err(KernelError::ReentrantAccess),
        Ok(mut fa) => {
            let popped = fa.allocate();
            match popped {
                Some(ppn) => {
                    proof {
                        let m = old(cell).stored().model();
                        if m.recycled.len() > 0 {
                            assert(m.recycled[m.recycled.len() - 1] == m.recycled.last());
                        }
                    }
                    cell.restore(fa);
                    let t = FrameTracker::new(ppn, mem);
                    Ok(Some(t))
                },
                None => {
                    cell.restore(fa);
                    Ok(None)
                },
            }
        },
    }
}

/// Return frame `ppn` to the process-wide allocator.
///
/// Exposed for kernel subsystems that manage frame ownership out of band,
/// keyed by page number.  Succeeds exactly on issued frames; a frame at or
/// past the frontier or one already recycled is a fatal caller bug, and an
/// outstanding exclusive view is the reentrancy fault.
pub fn frame_dealloc(cell: &mut UPSafeCell<StackFrameAllocator>, ppn: PhysPageNum) -> (r: Result<
    (),
    KernelError,
>)
    requires
        old(cell).is_available() ==> old(cell).stored().initialized() && old(cell).stored().wf(),
    ensures
        !old(cell).is_available() ==> r == Err::<(), KernelError>(KernelError::ReentrantAccess)
            && !final(cell).is_available(),
        old(cell).is_available() ==> final(cell).is_available() && final(cell).stored().initialized() && final(cell).stored().wf(),
        old(cell).is_available() ==> {
            let m = old(cell).stored().model();
            &&& (r is Ok <==> m.can_dealloc(ppn.0))
            &&& (r is Ok ==> final(cell).stored().model() == m.dealloc_s(ppn.0) && final(cell).stored().model().issued() =~= m.issued().remove(ppn.0))
            &&& (r is Err ==> final(cell).stored().model() == m)
            &&& (r == Err::<(), KernelError>(KernelError::FrameNotAllocated) <==> ppn.0 >= m.current)
            &&& (r == Err::<(), KernelError>(KernelError::FrameDoubleFree) <==> (ppn.0 < m.current
                && m.recycled.contains(ppn.0)))
        },
{
    match cell.exclusive_access() {
        Err(_) => Err(KernelError::ReentrantAccess),
        Ok(mut fa) => {
            let res = fa.dealloc(ppn);
            cell.restore(fa);
            res
        },
    }
}

/// Release an owned frame handle, returning its frame to the pool.
///
/// This is the one intended way a frame comes back: the handle is consumed,
/// so the same handle can never release its frame twice.
pub fn frame_release(cell: &mut UPSafeCell<StackFrameAllocator>, frame: FrameTracker) -> (r: Result<
    (),
    KernelError,
>)
    requires
        old(cell).is_available() ==> old(cell).stored().initialized() && old(cell).stored().wf(),
    ensures
        !old(cell).is_available() ==> r == Err::<(), KernelError>(KernelError::ReentrantAccess)
            && !final(cell).is_available(),
        old(cell).is_available() ==> final(cell).is_available() && final(cell).stored().initialized() && final(cell).stored().wf(),
        old(cell).is_available() ==> {
            let m = old(cell).stored().model();
            &&& (r is Ok <==> m.can_dealloc(frame.ppn.0))
            &&& (r is Ok ==> final(cell).stored().model() == m.dealloc_s(frame.ppn.0) && final(cell).stored().model().issued() =~= m.issued().remove(frame.ppn.0))
            &&& (r is Err ==> final(cell).stored().model() == m)
        },
{
    frame_dealloc(cell, frame.ppn)
}

} // verus!
