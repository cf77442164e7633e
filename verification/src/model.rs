//! Mathematical model of the frame allocator.
//!
//! `AllocModel` abstracts the allocator state to its frontier, its range end
//! and the sequence of recycled frames.  The executable allocator promises in
//! its contracts that every operation follows the transition functions below,
//! so the laws proved here about the model hold of every run of the code.

use vstd::prelude::*;

verus! {

/// Abstract allocator state: the first never-allocated frame (`current`),
/// one past the last manageable frame (`end`), and the recycle pool in
/// insertion order (`recycled`).
#[verifier::ext_equal]
pub ghost struct AllocModel {
    pub current: usize,
    pub end: usize,
    pub recycled: Seq<usize>,
}

impl AllocModel {
    /// Well-formedness: the frontier never passes the end of the range, the
    /// recycle pool holds no duplicates, and every recycled frame lies below
    /// the frontier (it was allocated once).
    pub open spec fn wf(self) -> bool {
        &&& self.current <= self.end
        &&& self.recycled.no_duplicates()
        &&& forall|i: int| 0 <= i < self.recycled.len() ==> self.recycled[i] < self.current
    }

    /// The frames currently held out: allocated at least once and not yet
    /// returned to the recycle pool.
    pub open spec fn issued(self) -> Set<usize> {
        Set::new(|p: usize| p < self.current && !self.recycled.contains(p))
    }

    /// The frame the next `alloc` returns: the most recently recycled frame
    /// if any, else the frontier frame, else none (exhaustion).
    pub open spec fn alloc_r(self) -> Option<usize> {
        if self.recycled.len() > 0 {
            Some(self.recycled.last())
        } else if self.current == self.end {
            None
        } else {
            Some(self.current)
        }
    }

    /// The state after one `alloc`.
    pub open spec fn alloc_s(self) -> AllocModel {
        if self.recycled.len() > 0 {
            AllocModel { recycled: self.recycled.drop_last(), ..self }
        } else if self.current == self.end {
            self
        } else {
            AllocModel { current: (self.current + 1) as usize, ..self }
        }
    }

    /// `dealloc` accepts exactly the issued frames: below the frontier and
    /// not already recycled.
    pub open spec fn can_dealloc(self, p: usize) -> bool {
        p < self.current && !self.recycled.contains(p)
    }

    /// The state after `dealloc` of `p`.
    pub open spec fn dealloc_s(self, p: usize) -> AllocModel {
        AllocModel { recycled: self.recycled.push(p), ..self }
    }
}

/// The state and the results after `k` successive `alloc` calls.
pub open spec fn alloc_n(m: AllocModel, k: nat) -> (AllocModel, Seq<Option<usize>>)
    decreases k,
{
    if k == 0 {
        (m, Seq::empty())
    } else {
        let r = alloc_n(m.alloc_s(), (k - 1) as nat);
        (r.0, seq![m.alloc_r()] + r.1)
    }
}

/// The state after deallocating the frames of `ps` in order.
pub open spec fn dealloc_seq(m: AllocModel, ps: Seq<usize>) -> AllocModel
    decreases ps.len(),
{
    if ps.len() == 0 {
        m
    } else {
        dealloc_seq(m.dealloc_s(ps[0]), ps.drop_first())
    }
}

/// An `alloc` never hands out a frame that is already issued, and afterwards
/// exactly that frame has joined the issued set.  Since a live frame handle
/// always holds an issued frame, no two live handles can ever name the same
/// frame.
pub proof fn lemma_alloc_fresh(m: AllocModel)
    requires
        m.wf(),
    ensures
        m.alloc_s().wf(),
        m.alloc_r() matches Some(p) ==> !m.issued().contains(p),
        m.alloc_r() matches Some(p) ==> m.alloc_s().issued() =~= m.issued().insert(p),
        m.alloc_r() is None ==> m.alloc_s() == m,
        m.alloc_r() is None <==> (m.recycled.len() == 0 && m.current == m.end),
{
    if m.recycled.len() > 0 {
        let p = m.recycled.last();
        let rest = m.recycled.drop_last();
        assert(m.recycled =~= rest.push(p));
        assert(m.recycled.contains(p));
        assert(!rest.contains(p)) by {
            if rest.contains(p) {
                let i = choose|i: int| 0 <= i < rest.len() && rest[i] == p;
                assert(m.recycled[i] == m.recycled[m.recycled.len() - 1]);
            }
        }
        assert forall|q: usize| m.alloc_s().issued().contains(q) implies m.issued().insert(
            p,
        ).contains(q) by {
            if q != p {
                if m.recycled.contains(q) {
                    let i = choose|i: int| 0 <= i < m.recycled.len() && m.recycled[i] == q;
                    assert(rest[i] == q);
                }
            }
        }
        assert forall|q: usize| m.issued().insert(p).contains(q) implies m.alloc_s().issued()
            .contains(q) by {
            if q == p {
                assert(!rest.contains(p));
            } else {
                if rest.contains(q) {
                    let i = choose|i: int| 0 <= i < rest.len() && rest[i] == q;
                    assert(m.recycled[i] == q);
                }
            }
        }
    } else if m.current < m.end {
        let p = m.current;
        assert(!m.issued().contains(p));
        assert forall|q: usize| m.alloc_s().issued().contains(q) implies m.issued().insert(
            p,
        ).contains(q) by {}
    }
}

/// A `dealloc` of an issued frame removes exactly that frame from the issued
/// set and keeps the allocator well formed.
pub proof fn lemma_dealloc_issued(m: AllocModel, p: usize)
    requires
        m.wf(),
        m.can_dealloc(p),
    ensures
        m.dealloc_s(p).wf(),
        m.dealloc_s(p).issued() =~= m.issued().remove(p),
{
    let pool = m.recycled.push(p);
    assert(pool.no_duplicates()) by {
        assert(forall|i: int| 0 <= i < m.recycled.len() ==> pool[i] == m.recycled[i]);
    }
    assert forall|q: usize| m.dealloc_s(p).issued().contains(q) implies m.issued().remove(
        p,
    ).contains(q) by {
        assert(!pool.contains(q));
        if m.recycled.contains(q) {
            let i = choose|i: int| 0 <= i < m.recycled.len() && m.recycled[i] == q;
            assert(pool[i] == q);
        }
        assert(pool[pool.len() - 1] == p);
    }
    assert forall|q: usize| m.issued().remove(p).contains(q) implies m.dealloc_s(p).issued()
        .contains(q) by {
        if pool.contains(q) {
            let i = choose|i: int| 0 <= i < pool.len() && pool[i] == q;
            assert(i < m.recycled.len());
        }
    }
}

/// Deallocation only grows the recycle pool, in order: it never moves the
/// frontier or the end of the range.
pub proof fn lemma_dealloc_seq_state(m: AllocModel, ps: Seq<usize>)
    ensures
        dealloc_seq(m, ps).current == m.current,
        dealloc_seq(m, ps).end == m.end,
        dealloc_seq(m, ps).recycled =~= m.recycled + ps,
    decreases ps.len(),
{
    if ps.len() == 0 {
        assert(dealloc_seq(m, ps).recycled =~= m.recycled + ps);
    } else {
        lemma_dealloc_seq_state(m.dealloc_s(ps[0]), ps.drop_first());
        assert(m.recycled.push(ps[0]) + ps.drop_first() =~= m.recycled + ps);
    }
}

/// Releasing any distinct issued frames one after the other is legal at
/// every step: each frame still sits below the frontier and is not yet in
/// the recycle pool when its turn comes.
pub proof fn lemma_release_all_legal(m: AllocModel, ps: Seq<usize>)
    requires
        m.wf(),
        ps.no_duplicates(),
        forall|i: int| 0 <= i < ps.len() ==> m.issued().contains(#[trigger] ps[i]),
    ensures
        forall|i: int|
            0 <= i < ps.len() ==> dealloc_seq(m, ps.subrange(0, i)).can_dealloc(#[trigger] ps[i]),
{
    assert forall|i: int| 0 <= i < ps.len() implies dealloc_seq(m, ps.subrange(0, i)).can_dealloc(
        ps[i],
    ) by {
        lemma_dealloc_seq_state(m, ps.subrange(0, i));
        let s = dealloc_seq(m, ps.subrange(0, i));
        assert(m.issued().contains(ps[i]));
        assert(ps[i] < s.current);
        assert(!s.recycled.contains(ps[i])) by {
            if s.recycled.contains(ps[i]) {
                let j = choose|j: int| 0 <= j < s.recycled.len() && s.recycled[j] == ps[i];
                if j < m.recycled.len() {
                    assert(m.recycled[j] == ps[i]);
                    assert(m.recycled.contains(ps[i]));
                } else {
                    let j2 = j - m.recycled.len();
                    assert(ps[j2] == ps[i] && j2 < i);
                }
            }
        }
    }
}

/// Recycling correctness: after releasing `N` distinct issued frames, the
/// next `N` allocations succeed, hand back exactly those `N` frames (most
/// recently released first), and leave the allocator in the state it had
/// before the releases — in particular the frontier has not grown.
pub proof fn lemma_release_then_realloc(m: AllocModel, ps: Seq<usize>)
    requires
        m.wf(),
        ps.no_duplicates(),
        forall|i: int| 0 <= i < ps.len() ==> m.issued().contains(#[trigger] ps[i]),
    ensures
        ({
            let r = alloc_n(dealloc_seq(m, ps), ps.len());
            &&& r.1.len() == ps.len()
            &&& forall|i: int| 0 <= i < ps.len() ==> r.1[i] == Some(ps[ps.len() - 1 - i])
            &&& r.0 == m
        }),
    decreases ps.len(),
{
    let m1 = dealloc_seq(m, ps);
    lemma_dealloc_seq_state(m, ps);
    if ps.len() == 0 {
        assert(m1 =~= m);
    } else {
        let p = ps.last();
        let ps0 = ps.drop_last();
        lemma_dealloc_seq_state(m, ps0);
        let m1p = dealloc_seq(m, ps0);
        assert(m1.recycled.len() > 0);
        assert(m1.alloc_r() == Some(p)) by {
            assert(m1.recycled.last() == (m.recycled + ps)[m.recycled.len() + ps.len() - 1]);
        }
        assert(m1.alloc_s() == m1p) by {
            assert(m1.recycled.drop_last() =~= m1p.recycled);
            assert(m1.alloc_s() =~= m1p);
        }
        assert(ps0.no_duplicates());
        assert(forall|i: int| 0 <= i < ps0.len() ==> m.issued().contains(#[trigger] ps0[i]));
        lemma_release_then_realloc(m, ps0);
        let rr = alloc_n(m1p, ps0.len());
        let r = alloc_n(m1, ps.len());
        assert(r.1 == seq![m1.alloc_r()] + rr.1);
        assert forall|i: int| 0 <= i < ps.len() implies r.1[i] == Some(
            ps[ps.len() - 1 - i],
        ) by {
            if i == 0 {
                assert(r.1[0] == Some(p));
            } else {
                assert(r.1[i] == rr.1[i - 1]);
                assert(rr.1[i - 1] == Some(ps0[ps0.len() - 1 - (i - 1)]));
                assert(ps0[ps0.len() - 1 - (i - 1)] == ps[ps.len() - 1 - i]);
            }
        }
    }
}

/// Exhaustion: starting with an empty recycle pool, the next `end - current`
/// allocations all succeed and return the frontier frames in order; the
/// allocation after them reports exhaustion.
pub proof fn lemma_exhaustion(m: AllocModel)
    requires
        m.wf(),
        m.recycled.len() == 0,
    ensures
        ({
            let k = (m.end - m.current) as nat;
            let r = alloc_n(m, k);
            &&& r.1.len() == k
            &&& forall|i: int| 0 <= i < k ==> r.1[i] == Some((m.current + i) as usize)
            &&& r.0.current == m.end
            &&& r.0.end == m.end
            &&& r.0.recycled.len() == 0
            &&& r.0.alloc_r() is None
        }),
    decreases m.end - m.current,
{
    let k = (m.end - m.current) as nat;
    if k > 0 {
        let m2 = m.alloc_s();
        assert(m2.current == m.current + 1 && m2.end == m.end && m2.recycled.len() == 0);
        lemma_exhaustion(m2);
        let rr = alloc_n(m2, (k - 1) as nat);
        let r = alloc_n(m, k);
        assert(r.1 == seq![m.alloc_r()] + rr.1);
        assert forall|i: int| 0 <= i < k implies r.1[i] == Some((m.current + i) as usize) by {
            if i == 0 {
                assert(r.1[0] == Some(m.current));
            } else {
                assert(r.1[i] == rr.1[i - 1]);
                assert(rr.1[i - 1] == Some((m2.current + (i - 1)) as usize));
            }
        }
    }
}

} // verus!
