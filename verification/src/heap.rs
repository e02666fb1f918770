//! The pending frames of the delay queue: a binary min-heap ordered by the
//! time a frame becomes ready and, among equal times, by a random nonce.

use vstd::prelude::*;
use vstd::multiset::Multiset;
use crate::rng::Frame;

verus! {

/// A frame that waits for its release time.
pub struct PendingFrame {
    pub ready_at: u64,
    pub nonce: u64,
    pub frame: Frame,
}

/// A pending frame as a mathematical value.
pub struct PendingView {
    pub ready_at: u64,
    pub nonce: u64,
    pub frame: Seq<u8>,
}

impl View for PendingFrame {
    type V = PendingView;

    open spec fn view(&self) -> PendingView {
        PendingView { ready_at: self.ready_at, nonce: self.nonce, frame: self.frame@ }
    }
}

/// The order of the heap: earlier release time first, smaller nonce first
/// among equal release times.
pub open spec fn spec_key_le(a: PendingView, b: PendingView) -> bool {
    a.ready_at < b.ready_at || (a.ready_at == b.ready_at && a.nonce <= b.nonce)
}

/// The pending frames of a list, each as a mathematical value.
pub open spec fn spec_entries(items: Seq<PendingFrame>) -> Seq<PendingView> {
    Seq::new(items.len(), |i: int| items[i]@)
}

/// The heap property: no entry comes before its parent in the order.
pub open spec fn spec_is_heap(s: Seq<PendingView>) -> bool {
    forall|j: int| 0 < j < s.len() ==> spec_key_le(#[trigger] s[(j - 1) / 2], s[j])
}

/// In a heap the root is least: it comes before every entry in the order.
pub proof fn lemma_root_is_least(s: Seq<PendingView>, j: int)
    requires
        spec_is_heap(s),
        0 <= j < s.len(),
    ensures
        spec_key_le(s[0], s[j]),
    decreases j,
{
    if j > 0 {
        let p = (j - 1) / 2;
        lemma_root_is_least(s, p);
        assert(spec_key_le(s[(j - 1) / 2], s[j]));
    }
}

/// `swap` of the standard library's slices: the elements at `i` and `j`
/// change places and every other element stays where it is.
#[verifier::external_body]
fn swap_entries(items: &mut Vec<PendingFrame>, i: usize, j: usize)
    requires
        i < old(items)@.len(),
        j < old(items)@.len(),
    ensures
        final(items)@ == old(items)@.update(i as int, old(items)@[j as int]).update(
            j as int,
            old(items)@[i as int],
        ),
{
    items.swap(i, j);
}

/// Exchanging two entries of a list changes neither which entries it holds
/// nor how often.
proof fn lemma_swap_keeps_entries(before: Seq<PendingFrame>, after: Seq<PendingFrame>, i: int, j: int)
    requires
        0 <= i < before.len(),
        0 <= j < before.len(),
        after == before.update(i, before[j]).update(j, before[i]),
    ensures
        spec_entries(after) == spec_entries(before).update(i, spec_entries(before)[j]).update(
            j,
            spec_entries(before)[i],
        ),
        spec_entries(after).to_multiset() == spec_entries(before).to_multiset(),
{
    broadcast use vstd::seq_lib::to_multiset_update;

    let b = spec_entries(before);
    let mid = b.update(i, b[j]);
    assert(spec_entries(after) =~= mid.update(j, b[i]));
    assert(mid.update(j, b[i]).to_multiset() =~= b.to_multiset()) by {
        assert(mid.to_multiset() =~= b.to_multiset().insert(b[j]).remove(b[i]));
        assert(mid.update(j, b[i]).to_multiset() =~= mid.to_multiset().insert(b[i]).remove(
            mid[j],
        ));
        assert(b.to_multiset().count(b[i]) > 0) by {
            broadcast use vstd::seq_lib::to_multiset_contains;

            assert(b.contains(b[i]));
        }
        assert(b.to_multiset().count(b[j]) > 0) by {
            broadcast use vstd::seq_lib::to_multiset_contains;

            assert(b.contains(b[j]));
        }
    }
}

/// A min-heap of pending frames.
pub struct PendingHeap {
    items: Vec<PendingFrame>,
}

impl PendingHeap {
    /// The entries of the heap in the order they are stored.
    pub closed spec fn spec_stored(&self) -> Seq<PendingView> {
        spec_entries(self.items@)
    }

    /// The entries of the heap, each as often as it was pushed and not yet
    /// popped.
    pub open spec fn spec_contents(&self) -> Multiset<PendingView> {
        self.spec_stored().to_multiset()
    }

    /// The invariant of the heap.
    pub closed spec fn wf(&self) -> bool {
        spec_is_heap(spec_entries(self.items@))
    }

    /// An empty heap.
    pub fn new() -> (heap: PendingHeap)
        ensures
            heap.wf(),
            heap.spec_stored().len() == 0,
            heap.spec_contents() == Multiset::<PendingView>::empty(),
    {
        broadcast use vstd::seq_lib::to_multiset_len, vstd::multiset::lemma_multiset_empty_len;

        let heap = PendingHeap { items: Vec::new() };
        assert(heap.spec_stored() =~= Seq::<PendingView>::empty());
        assert(heap.spec_contents().len() == 0);
        assert(heap.spec_contents() =~= Multiset::<PendingView>::empty());
        heap
    }

    /// The number of entries.
    pub fn len(&self) -> (n: usize)
        ensures
            n == self.spec_stored().len(),
            n == self.spec_contents().len(),
    {
        broadcast use vstd::seq_lib::to_multiset_len;

        self.items.len()
    }

    fn key_lt(&self, i: usize, j: usize) -> (b: bool)
        requires
            i < self.items@.len(),
            j < self.items@.len(),
        ensures
            b == !spec_key_le(self.items@[j as int]@, self.items@[i as int]@),
    {
        let a = &self.items[i];
        let c = &self.items[j];
        a.ready_at < c.ready_at || (a.ready_at == c.ready_at && a.nonce < c.nonce)
    }

    /// Adds `entry` to the heap.
    pub fn push(&mut self, entry: PendingFrame)
        requires
            old(self).wf(),
        ensures
            final(self).wf(),
            final(self).spec_contents() == old(self).spec_contents().insert(entry@),
            final(self).spec_stored().len() == old(self).spec_stored().len() + 1,
    {
        broadcast use vstd::seq_lib::to_multiset_build;

        let ghost before = spec_entries(self.items@);
        self.items.push(entry);
        proof {
            assert(spec_entries(self.items@) =~= before.push(entry@));
        }
        let mut i: usize = self.items.len() - 1;
        while i > 0
            invariant
                0 <= i < self.items@.len(),
                self.items@.len() == before.len() + 1,
                spec_entries(self.items@).to_multiset() == before.to_multiset().insert(entry@),
                forall|j: int|
                    0 < j < self.items@.len() && j != i ==> spec_key_le(
                        #[trigger] spec_entries(self.items@)[(j - 1) / 2],
                        spec_entries(self.items@)[j],
                    ),
                forall|j: int|
                    0 < j < self.items@.len() && i > 0 && (j - 1) / 2 == i ==> spec_key_le(
                        spec_entries(self.items@)[(i - 1) / 2],
                        #[trigger] spec_entries(self.items@)[j],
                    ),
            ensures
                spec_is_heap(spec_entries(self.items@)),
                self.items@.len() == before.len() + 1,
                spec_entries(self.items@).to_multiset() == before.to_multiset().insert(entry@),
            decreases i,
        {
            let p: usize = (i - 1) / 2;
            if self.key_lt(i, p) {
                let ghost prev = self.items@;
                let ghost s = spec_entries(prev);
                swap_entries(&mut self.items, i, p);
                proof {
                    lemma_swap_keeps_entries(prev, self.items@, i as int, p as int);
                    let t = spec_entries(self.items@);
                    assert(t[i as int] == s[p as int]);
                    assert(t[p as int] == s[i as int]);
                    assert forall|j: int| 0 < j < t.len() && j != p implies spec_key_le(
                        #[trigger] t[(j - 1) / 2],
                        t[j],
                    ) by {
                        let q = (j - 1) / 2;
                        if j == i {
                        } else if q == i {
                            assert(spec_key_le(s[(i - 1) / 2], s[j]));
                        } else if q == p {
                            assert(spec_key_le(s[(j - 1) / 2], s[j]));
                        } else {
                            assert(spec_key_le(s[(j - 1) / 2], s[j]));
                        }
                    }
                    assert forall|j: int|
                        0 < j < t.len() && p > 0 && (j - 1) / 2 == p implies spec_key_le(
                        t[(p - 1) / 2],
                        #[trigger] t[j],
                    ) by {
                        assert(spec_key_le(s[(p - 1) / 2], s[p as int]));
                        if j != i {
                            assert(spec_key_le(s[(j - 1) / 2], s[j]));
                        }
                    }
                }
                i = p;
            } else {
                proof {
                    let t = spec_entries(self.items@);
                    assert forall|j: int| 0 < j < t.len() implies spec_key_le(
                        #[trigger] t[(j - 1) / 2],
                        t[j],
                    ) by {
                        if j == i {
                        }
                    }
                }
                break ;
            }
        }
    }

    /// The earliest release time in the heap; `None` when the heap is empty.
    pub fn peek_ready_at(&self) -> (t: Option<u64>)
        requires
            self.wf(),
        ensures
            t is None <==> self.spec_contents().len() == 0,
            t is Some ==> forall|e: PendingView| #[trigger]
                self.spec_contents().contains(e) ==> t->Some_0 <= e.ready_at,
            t is Some ==> exists|e: PendingView| #[trigger]
                self.spec_contents().contains(e) && e.ready_at == t->Some_0,
    {
        broadcast use vstd::seq_lib::to_multiset_len, vstd::seq_lib::to_multiset_contains;

        if self.items.len() == 0 {
            None
        } else {
            let t: u64 = self.items[0].ready_at;
            proof {
                let s = spec_entries(self.items@);
                assert(s.contains(s[0]));
                assert(self.spec_contents().contains(s[0]));
                assert forall|e: PendingView| #[trigger]
                    self.spec_contents().contains(e) implies t <= e.ready_at by {
                    assert(s.contains(e));
                    let j = choose|j: int| 0 <= j < s.len() && s[j] == e;
                    lemma_root_is_least(s, j);
                }
            }
            Some(t)
        }
    }

    /// Takes the least entry out of the heap: the one with the earliest
    /// release time and, among those, the smallest nonce. `None` when the
    /// heap is empty.
    pub fn pop_min(&mut self) -> (r: Option<PendingFrame>)
        requires
            old(self).wf(),
        ensures
            final(self).wf(),
            r is None <==> old(self).spec_contents().len() == 0,
            r is None ==> final(self).spec_contents() == old(self).spec_contents(),
            r is Some ==> old(self).spec_contents().contains(r->Some_0@),
            r is Some ==> final(self).spec_contents() == old(self).spec_contents().remove(
                r->Some_0@,
            ),
            r is Some ==> old(self).spec_contents() == final(self).spec_contents().insert(
                r->Some_0@,
            ),
            r is Some ==> forall|e: PendingView| #[trigger]
                old(self).spec_contents().contains(e) ==> spec_key_le(r->Some_0@, e),
    {
        broadcast use
            vstd::seq_lib::to_multiset_len,
            vstd::seq_lib::to_multiset_contains,
            vstd::seq_lib::to_multiset_build,
        ;

        let n: usize = self.items.len();
        if n == 0 {
            return None;
        }
        let ghost old_items = self.items@;
        let ghost s0 = spec_entries(old_items);
        swap_entries(&mut self.items, 0, n - 1);
        proof {
            lemma_swap_keeps_entries(old_items, self.items@, 0, n - 1);
        }
        let ghost swapped = spec_entries(self.items@);
        let least = self.items.pop().unwrap();
        let ghost rest = spec_entries(self.items@);
        proof {
            assert(least@ == s0[0]);
            assert(rest =~= swapped.drop_last());
            assert(swapped =~= rest.push(least@));
            assert(s0.to_multiset() =~= rest.to_multiset().insert(least@));
            assert(rest.to_multiset() =~= s0.to_multiset().remove(least@));
            assert(s0.contains(s0[0]));
            assert forall|e: PendingView| #[trigger]
                s0.to_multiset().contains(e) implies spec_key_le(least@, e) by {
                assert(s0.contains(e));
                let j = choose|j: int| 0 <= j < s0.len() && s0[j] == e;
                lemma_root_is_least(s0, j);
            }
            assert forall|j: int| 0 < j < rest.len() && (j - 1) / 2 != 0 implies spec_key_le(
                #[trigger] rest[(j - 1) / 2],
                rest[j],
            ) by {
                assert(spec_key_le(s0[(j - 1) / 2], s0[j]));
            }
        }
        self.sift_down();
        Some(least)
    }

    /// Restores the heap property after the root was replaced.
    fn sift_down(&mut self)
        requires
            forall|j: int|
                0 < j < old(self).items@.len() && (j - 1) / 2 != 0 ==> spec_key_le(
                    #[trigger] spec_entries(old(self).items@)[(j - 1) / 2],
                    spec_entries(old(self).items@)[j],
                ),
        ensures
            final(self).wf(),
            spec_entries(final(self).items@).to_multiset() == spec_entries(
                old(self).items@,
            ).to_multiset(),
            final(self).items@.len() == old(self).items@.len(),
    {
        let n: usize = self.items.len();
        let mut i: usize = 0;
        loop
            invariant
                n == self.items@.len(),
                n == old(self).items@.len(),
                0 <= i,
                i < n || n == 0,
                spec_entries(self.items@).to_multiset() == spec_entries(
                    old(self).items@,
                ).to_multiset(),
                forall|j: int|
                    0 < j < n && (j - 1) / 2 != i ==> spec_key_le(
                        #[trigger] spec_entries(self.items@)[(j - 1) / 2],
                        spec_entries(self.items@)[j],
                    ),
                forall|j: int|
                    0 < j < n && i > 0 && (j - 1) / 2 == i ==> spec_key_le(
                        spec_entries(self.items@)[(i - 1) / 2],
                        #[trigger] spec_entries(self.items@)[j],
                    ),
            ensures
                spec_is_heap(spec_entries(self.items@)),
                n == self.items@.len(),
                spec_entries(self.items@).to_multiset() == spec_entries(
                    old(self).items@,
                ).to_multiset(),
            decreases n - i,
        {
            if i >= n / 2 {
                proof {
                    let t = spec_entries(self.items@);
                    assert forall|j: int| 0 < j < t.len() implies spec_key_le(
                        #[trigger] t[(j - 1) / 2],
                        t[j],
                    ) by {
                        assert((j - 1) / 2 != i);
                    }
                }
                break ;
            }
            let left: usize = 2 * i + 1;
            let right: usize = left + 1;
            let child: usize = if right < n && self.key_lt(right, left) {
                right
            } else {
                left
            };
            if self.key_lt(child, i) {
                let ghost prev = self.items@;
                let ghost s = spec_entries(prev);
                swap_entries(&mut self.items, i, child);
                proof {
                    lemma_swap_keeps_entries(prev, self.items@, i as int, child as int);
                    let t = spec_entries(self.items@);
                    assert(t[i as int] == s[child as int]);
                    assert(t[child as int] == s[i as int]);
                    assert forall|j: int|
                        0 < j < n && (j - 1) / 2 != child implies spec_key_le(
                        #[trigger] t[(j - 1) / 2],
                        t[j],
                    ) by {
                        let q = (j - 1) / 2;
                        if q == i {
                            assert(j == left || j == right);
                        } else if j == i {
                            assert(spec_key_le(s[(i - 1) / 2], s[child as int]));
                        } else {
                            assert(spec_key_le(s[(j - 1) / 2], s[j]));
                        }
                    }
                    assert forall|j: int|
                        0 < j < n && child > 0 && (j - 1) / 2 == child implies spec_key_le(
                        t[(child - 1) / 2],
                        #[trigger] t[j],
                    ) by {
                        assert(spec_key_le(s[(j - 1) / 2], s[j]));
                    }
                }
                i = child;
            } else {
                proof {
                    let t = spec_entries(self.items@);
                    assert forall|j: int| 0 < j < t.len() implies spec_key_le(
                        #[trigger] t[(j - 1) / 2],
                        t[j],
                    ) by {
                        if (j - 1) / 2 == i {
                            assert(j == left || j == right);
                        }
                    }
                }
                break ;
            }
        }
    }
}

} // verus!
