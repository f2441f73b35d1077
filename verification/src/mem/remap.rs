//! A tiny frame pool of three slots, filled from another frame source, for the
//! page tables needed while remapping the kernel.
use crate::mem::frame::FrameSource;
use vstd::prelude::*;

verus! {

/// Holds up to three frames.
pub struct TinyAllocator {
    frames: [Option<u64>; 3],
}

impl View for TinyAllocator {
    type V = Seq<Option<u64>>;

    closed spec fn view(&self) -> Seq<Option<u64>> {
        self.frames@
    }
}

/// A pool always has exactly three slots.
pub proof fn lemma_tiny_has_three_slots(t: &TinyAllocator)
    ensures
        t@.len() == 3,
{
}

/// The first slot from `k` on that holds a frame, or 3 when none does.
pub open spec fn first_full_from(slots: Seq<Option<u64>>, k: int) -> int
    decreases 3 - k,
{
    if k >= 3 {
        3
    } else if slots[k] is Some {
        k
    } else {
        first_full_from(slots, k + 1)
    }
}

/// The first empty slot from `k` on, or 3 when none is empty.
pub open spec fn first_empty_from(slots: Seq<Option<u64>>, k: int) -> int
    decreases 3 - k,
{
    if k >= 3 {
        3
    } else if slots[k] is None {
        k
    } else {
        first_empty_from(slots, k + 1)
    }
}

/// One allocation from a pool: the frame of the first slot that holds one,
/// which is emptied; nothing, and no change, when every slot is empty.
pub open spec fn pool_allocation(slots: Seq<Option<u64>>) -> (Option<u64>, Seq<Option<u64>>) {
    let k = first_full_from(slots, 0);
    if k < 3 {
        (slots[k], slots.update(k, None))
    } else {
        (None, slots)
    }
}

impl FrameSource for TinyAllocator {
    type State = Seq<Option<u64>>;

    open spec fn state(&self) -> Seq<Option<u64>> {
        self@
    }

    open spec fn can_allocate(s: Seq<Option<u64>>) -> bool {
        true
    }

    open spec fn next_frame(s: Seq<Option<u64>>) -> (Option<u64>, Seq<Option<u64>>) {
        pool_allocation(s)
    }

    /// Hands out the frame of the first slot that holds one, emptying it.
    fn allocate_frame(&mut self) -> (r: Option<u64>) {
        let mut i: usize = 0;
        while i < 3
            invariant
                i <= 3,
                self@ == old(self)@,
                self@.len() == 3,
                first_full_from(self@, 0) == first_full_from(self@, i as int),
            decreases 3 - i,
        {
            if self.frames[i].is_some() {
                let f = self.frames[i];
                self.frames[i] = None;
                return f;
            }
            i = i + 1;
        }
        None
    }
}

impl TinyAllocator {
    /// Takes three frames, one after another, from another frame source.
    pub fn new<A: FrameSource>(allocator: &mut A) -> (r: Self)
        requires
            A::can_allocate(old(allocator).state()),
            A::can_allocate(A::next_frame(old(allocator).state()).1),
            A::can_allocate(A::next_frame(A::next_frame(old(allocator).state()).1).1),
        ensures
            ({
                let (f0, s1) = A::next_frame(old(allocator).state());
                let (f1, s2) = A::next_frame(s1);
                let (f2, s3) = A::next_frame(s2);
                &&& r@ == seq![f0, f1, f2]
                &&& final(allocator).state() == s3
            }),
    {
        let f0 = allocator.allocate_frame();
        let f1 = allocator.allocate_frame();
        let f2 = allocator.allocate_frame();
        let r = TinyAllocator { frames: [f0, f1, f2] };
        assert(r@ =~= seq![f0, f1, f2]);
        r
    }

    /// Whether some slot is empty, so that a frame can be given back.
    pub fn has_free_slot(&self) -> (r: bool)
        ensures
            r == (first_empty_from(self@, 0) < 3),
    {
        proof {
            lemma_first_empty_bounds(self@, 0);
        }
        let mut i: usize = 0;
        while i < 3
            invariant
                i <= 3,
                self@.len() == 3,
                forall|j: int| 0 <= j < i ==> self@[j] is Some,
            decreases 3 - i,
        {
            if self.frames[i].is_none() {
                proof {
                    lemma_first_empty_is(self@, 0, i as int);
                }
                return true;
            }
            i = i + 1;
        }
        proof {
            lemma_first_empty_none(self@, 0);
        }
        false
    }

    /// Returns a frame to the first empty slot.
    pub fn deallocate_frame(&mut self, frame: u64)
        requires
            first_empty_from(old(self)@, 0) < 3,
        ensures
            final(self)@ == slots_after_deallocate(old(self)@, frame),
    {
        let mut i: usize = 0;
        while i < 3
            invariant
                i <= 3,
                self@ == old(self)@,
                self@.len() == 3,
                first_empty_from(self@, 0) == first_empty_from(self@, i as int),
                first_empty_from(self@, 0) < 3,
            decreases 3 - i,
        {
            if self.frames[i].is_none() {
                self.frames[i] = Some(frame);
                return;
            }
            i = i + 1;
        }
    }
}

/// The slots after giving back `frame`.
pub open spec fn slots_after_deallocate(slots: Seq<Option<u64>>, frame: u64) -> Seq<Option<u64>> {
    slots.update(first_empty_from(slots, 0), Some(frame))
}

proof fn lemma_first_full_bounds(slots: Seq<Option<u64>>, k: int)
    requires
        0 <= k <= 3,
    ensures
        k <= first_full_from(slots, k) <= 3,
        first_full_from(slots, k) < 3 ==> slots[first_full_from(slots, k)] is Some,
        forall|j: int| k <= j < first_full_from(slots, k) ==> slots[j] is None,
    decreases 3 - k,
{
    if k < 3 {
        lemma_first_full_bounds(slots, k + 1);
    }
}

proof fn lemma_first_empty_bounds(slots: Seq<Option<u64>>, k: int)
    requires
        0 <= k <= 3,
    ensures
        k <= first_empty_from(slots, k) <= 3,
        first_empty_from(slots, k) < 3 ==> slots[first_empty_from(slots, k)] is None,
        forall|j: int| k <= j < first_empty_from(slots, k) ==> slots[j] is Some,
    decreases 3 - k,
{
    if k < 3 {
        lemma_first_empty_bounds(slots, k + 1);
    }
}

proof fn lemma_first_empty_is(slots: Seq<Option<u64>>, k: int, i: int)
    requires
        0 <= k <= i < 3,
        slots[i] is None,
        forall|j: int| k <= j < i ==> slots[j] is Some,
    ensures
        first_empty_from(slots, k) == i,
    decreases i - k,
{
    if k < i {
        lemma_first_empty_is(slots, k + 1, i);
    }
}

proof fn lemma_first_empty_none(slots: Seq<Option<u64>>, k: int)
    requires
        0 <= k <= 3,
        forall|j: int| k <= j < 3 ==> slots[j] is Some,
    ensures
        first_empty_from(slots, k) == 3,
    decreases 3 - k,
{
    if k < 3 {
        lemma_first_empty_none(slots, k + 1);
    }
}

proof fn lemma_first_full_is(slots: Seq<Option<u64>>, k: int, i: int)
    requires
        0 <= k <= i < 3,
        slots[i] is Some,
        forall|j: int| k <= j < i ==> slots[j] is None,
    ensures
        first_full_from(slots, k) == i,
    decreases i - k,
{
    if k < i {
        lemma_first_full_is(slots, k + 1, i);
    }
}

/// A frame given back to a pool whose first empty slot comes before every
/// full one is the next frame handed out, and handing it out leaves the pool
/// as it was before.
pub proof fn lemma_deallocate_then_allocate(slots: Seq<Option<u64>>, frame: u64)
    requires
        slots.len() == 3,
        first_empty_from(slots, 0) < first_full_from(slots, 0),
    ensures
        pool_allocation(slots_after_deallocate(slots, frame)) == (Some(frame), slots),
{
    let e = first_empty_from(slots, 0);
    lemma_first_empty_bounds(slots, 0);
    lemma_first_full_bounds(slots, 0);
    let after = slots_after_deallocate(slots, frame);
    lemma_first_full_is(after, 0, e);
    assert(after.update(e, None) =~= slots);
}

} // verus!
