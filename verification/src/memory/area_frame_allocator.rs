//! A bump allocator over the available areas of the memory map.

use vstd::prelude::*;
use crate::memory::{Frame, FrameAllocator};
use crate::multiboot::memory::{MemoryArea, MemoryAreaIter};

verus! {

/// The first frame that an area touches.
pub open spec fn first_frame(a: MemoryArea) -> int {
    a.base_addr as int / 4096
}

/// The last frame that an area touches: the frame of its last byte. It lies
/// below `first_frame` where the area is empty and starts on a frame boundary.
pub open spec fn last_frame(a: MemoryArea) -> int {
    (a.base_addr as int + a.length as int - 1) / 4096
}

/// Whether frame `f` lies between the first and the last frame of the area.
pub open spec fn holds_frame(a: MemoryArea, f: int) -> bool {
    first_frame(a) <= f <= last_frame(a)
}

/// An area can be selected for frames from `from` on if it is available, its
/// last frame is not below `from`, and neither `from` nor its first frame lies
/// above the highest frame whose address a machine word can hold.
pub open spec fn eligible(a: MemoryArea, from: int) -> bool {
    &&& a.is_available()
    &&& from <= last_frame(a)
    &&& from <= Frame::max_number()
    &&& first_frame(a) <= Frame::max_number()
}

/// `areas[i]` is the area to select for frames from `from` on: it is
/// eligible, no eligible area has a lower base address, and those before it
/// with the same base address are not eligible.
pub open spec fn is_lowest_eligible(areas: Seq<MemoryArea>, from: int, i: int) -> bool {
    &&& 0 <= i < areas.len()
    &&& eligible(areas[i], from)
    &&& forall|j: int|
        0 <= j < areas.len() && eligible(#[trigger] areas[j], from) ==> areas[i].base_addr
            <= areas[j].base_addr
    &&& forall|j: int|
        0 <= j < i && eligible(#[trigger] areas[j], from) ==> areas[i].base_addr
            < areas[j].base_addr
}

/// Whether `c` is the area to select for frames from `from` on: of the
/// eligible areas the one with the lowest base address, the first of them in
/// the map.
pub open spec fn selects(areas: Seq<MemoryArea>, from: int, c: MemoryArea) -> bool {
    exists|i: int| is_lowest_eligible(areas, from, i) && #[trigger] areas[i] == c
}

/// Whether some available area of `areas` holds frame `f`.
pub open spec fn in_available_area(areas: Seq<MemoryArea>, f: int) -> bool {
    exists|i: int|
        0 <= i < areas.len() && (#[trigger] areas[i]).is_available() && holds_frame(areas[i], f)
}

/// A range of frames that must not be handed out, both bounds included.
pub struct ReservedRange {
    pub first: int,
    pub last: int,
}

impl ReservedRange {
    /// Whether frame `f` lies in the range.
    pub open spec fn contains(self, f: int) -> bool {
        self.first <= f <= self.last
    }
}

/// What an allocator is, as far as its callers can tell.
pub struct AllocatorState {
    /// No frame below this number will be handed out any more.
    pub next_free: int,
    /// The area that frames are taken from at present; none once no free
    /// frame is left.
    pub current: Option<MemoryArea>,
    /// The areas that the allocator was made with, in the order of the map.
    pub areas: Seq<MemoryArea>,
    /// The frames of the kernel image.
    pub kernel: ReservedRange,
    /// The frames of the boot information.
    pub mbi: ReservedRange,
}

impl AllocatorState {
    /// A frame is free if a machine word can hold its address, an available
    /// area holds it, and it lies in neither reserved range.
    pub open spec fn is_free(self, f: int) -> bool {
        &&& 0 <= f <= Frame::max_number()
        &&& in_available_area(self.areas, f)
        &&& !self.kernel.contains(f)
        &&& !self.mbi.contains(f)
    }

    /// The allocator in state `self` may answer `r` and go to state `post`:
    /// the areas and the reserved ranges stay; a frame handed out is the
    /// lowest free one from `next_free` on, `next_free` then stands just
    /// behind it, and the current area is the one to select for that frame;
    /// none is handed out only when no free frame is left, and then there is
    /// no current area.
    pub open spec fn steps_to(self, post: AllocatorState, r: Option<Frame>) -> bool {
        &&& post.areas == self.areas
        &&& post.kernel == self.kernel
        &&& post.mbi == self.mbi
        &&& match r {
            Some(frame) => {
                &&& self.next_free <= frame.number
                &&& self.is_free(frame.number as int)
                &&& forall|g: int|
                    self.next_free <= g < frame.number ==> !#[trigger] self.is_free(g)
                &&& post.next_free == frame.number + 1
                &&& post.current matches Some(c) && selects(self.areas, frame.number as int, c)
            },
            None => {
                &&& forall|g: int| self.next_free <= g ==> !#[trigger] self.is_free(g)
                &&& post.next_free >= self.next_free
                &&& post.current is None
            },
        }
    }
}

/// Hands out the free frames of the available areas one by one, lowest
/// first, and never one of the kernel image or of the boot information.
pub struct AreaFrameAllocator<'a> {
    next_free_frame: Frame,
    current_area: Option<MemoryArea>,
    areas: MemoryAreaIter<'a>,
    kernel_start: Frame,
    kernel_end: Frame,
    mbi_start: Frame,
    mbi_end: Frame,
}

/// The last frame of the area, or the highest frame whose address a machine
/// word can hold where the area reaches beyond it; nothing for the empty area
/// at address 0, which has no last frame.
fn last_usable_frame(a: &MemoryArea) -> (r: Option<usize>)
    ensures
        match r {
            Some(l) => 0 <= last_frame(*a) && l == if last_frame(*a) <= Frame::max_number() {
                last_frame(*a)
            } else {
                Frame::max_number()
            },
            None => last_frame(*a) < 0,
        },
{
    let end: u128 = a.base_addr as u128 + a.length as u128;
    if end == 0 {
        None
    } else {
        let last: u128 = (end - 1) / 4096;
        let cap: usize = usize::MAX / 4096;
        if last > cap as u128 {
            Some(cap)
        } else {
            Some(last as usize)
        }
    }
}

/// Tells whether the area can be selected for frames from `from` on.
fn is_eligible(a: &MemoryArea, from: usize) -> (r: bool)
    ensures
        r == eligible(*a, from as int),
{
    let cap: usize = usize::MAX / 4096;
    if !a.available() || a.base_addr / 4096 > cap as u64 {
        return false;
    }
    match last_usable_frame(a) {
        Some(l) => from <= l,
        None => false,
    }
}

impl<'a> AreaFrameAllocator<'a> {
    /// The allocator as its callers see it.
    pub closed spec fn view(&self) -> AllocatorState {
        AllocatorState {
            next_free: self.next_free_frame.number as int,
            current: self.current_area,
            areas: self.areas@,
            kernel: ReservedRange {
                first: self.kernel_start.number as int,
                last: self.kernel_end.number as int,
            },
            mbi: ReservedRange {
                first: self.mbi_start.number as int,
                last: self.mbi_end.number as int,
            },
        }
    }

    /// The bounds that keep the arithmetic inside a machine word.
    closed spec fn bounded(&self) -> bool {
        &&& self.next_free_frame.number <= Frame::max_number() + 1
        &&& self.kernel_end.number <= Frame::max_number()
        &&& self.mbi_end.number <= Frame::max_number()
    }

    /// The current area was the one to select for some frame at or below the
    /// next free frame, and it starts at or below the next free frame; where
    /// there is none, no free frame is left.
    pub closed spec fn well_formed(&self) -> bool {
        &&& self.bounded()
        &&& match self.current_area {
            Some(c) => {
                &&& exists|n: int, i: int|
                    n <= self.next_free_frame.number && #[trigger] is_lowest_eligible(
                        self.areas@,
                        n,
                        i,
                    ) && self.areas@[i] == c
                &&& first_frame(c) <= self.next_free_frame.number
            },
            None => forall|g: int|
                self.next_free_frame.number <= g ==> !#[trigger] self@.is_free(g),
        }
    }

    /// Selects the area to take frames from: of the eligible areas the one
    /// with the lowest base address, the first of them in the map. The next
    /// free frame moves up to the first frame of that area where it lay below.
    fn choose_next_area(&mut self)
        requires
            old(self).bounded(),
        ensures
            final(self).well_formed(),
            final(self).areas == old(self).areas,
            final(self).kernel_start == old(self).kernel_start,
            final(self).kernel_end == old(self).kernel_end,
            final(self).mbi_start == old(self).mbi_start,
            final(self).mbi_end == old(self).mbi_end,
            match final(self).current_area {
                Some(c) => {
                    &&& selects(old(self).areas@, old(self).next_free_frame.number as int, c)
                    &&& final(self).next_free_frame.number == if first_frame(c) > old(
                        self,
                    ).next_free_frame.number {
                        first_frame(c)
                    } else {
                        old(self).next_free_frame.number as int
                    }
                },
                None => {
                    &&& forall|i: int|
                        0 <= i < old(self).areas@.len() ==> !eligible(
                            #[trigger] old(self).areas@[i],
                            old(self).next_free_frame.number as int,
                        )
                    &&& final(self).next_free_frame == old(self).next_free_frame
                },
            },
            forall|g: int|
                old(self).next_free_frame.number <= g < final(self).next_free_frame.number
                    ==> !#[trigger] old(self)@.is_free(g),
    {
        let from: usize = self.next_free_frame.number;
        let ghost all = self.areas@;
        let mut it = self.areas;
        let mut best: Option<MemoryArea> = None;
        let ghost mut k: int = 0;
        let ghost mut bi: int = 0;
        loop
            invariant
                0 <= k <= all.len(),
                it@ == all.skip(k),
                match best {
                    Some(b) => is_lowest_eligible(all.take(k), from as int, bi) && all[bi] == b,
                    None => forall|j: int|
                        0 <= j < k ==> !eligible(#[trigger] all[j], from as int),
                },
            ensures
                k == all.len(),
            decreases all.len() - k,
        {
            match it.next() {
                None => {
                    break ;
                },
                Some(a) => {
                    assert(a == all[k]);
                    assert(all.skip(k).drop_first() =~= all.skip(k + 1));
                    let better = is_eligible(&a, from) && match best {
                        Some(b) => a.base_addr < b.base_addr,
                        None => true,
                    };
                    proof {
                        let before = all.take(k);
                        let after = all.take(k + 1);
                        assert forall|j: int| 0 <= j < k implies after[j] == before[j] by {}
                        assert(after[k] == a);
                        if better {
                            assert(is_lowest_eligible(after, from as int, k)) by {
                                assert forall|j: int|
                                    0 <= j < after.len() && eligible(
                                        #[trigger] after[j],
                                        from as int,
                                    ) implies a.base_addr <= after[j].base_addr by {
                                    if j < k {
                                        assert(eligible(before[j], from as int));
                                    }
                                }
                                assert forall|j: int|
                                    0 <= j < k && eligible(
                                        #[trigger] after[j],
                                        from as int,
                                    ) implies a.base_addr < after[j].base_addr by {
                                    assert(eligible(before[j], from as int));
                                }
                            }
                        } else if best is Some {
                            assert(is_lowest_eligible(after, from as int, bi)) by {
                                assert forall|j: int|
                                    0 <= j < after.len() && eligible(
                                        #[trigger] after[j],
                                        from as int,
                                    ) implies after[bi].base_addr <= after[j].base_addr by {
                                    if j < k {
                                        assert(eligible(before[j], from as int));
                                    }
                                }
                                assert forall|j: int|
                                    0 <= j < bi && eligible(
                                        #[trigger] after[j],
                                        from as int,
                                    ) implies after[bi].base_addr < after[j].base_addr by {
                                    assert(eligible(before[j], from as int));
                                }
                            }
                        }
                    }
                    if better {
                        best = Some(a);
                        proof {
                            bi = k;
                        }
                    }
                    proof {
                        k = k + 1;
                    }
                },
            }
        }
        assert(all.take(k) =~= all);
        match best {
            Some(c) => {
                let start: usize = (c.base_addr / 4096) as usize;
                proof {
                    assert forall|g: int| from <= g < start implies !#[trigger] old(self)@.is_free(
                        g,
                    ) by {
                        if old(self)@.is_free(g) {
                            let x = choose|x: int|
                                0 <= x < all.len() && (#[trigger] all[x]).is_available()
                                    && holds_frame(all[x], g);
                            assert(eligible(all[x], from as int));
                        }
                    }
                }
                if self.next_free_frame.number < start {
                    self.next_free_frame = Frame { number: start };
                }
                self.current_area = Some(c);
                assert(is_lowest_eligible(self.areas@, from as int, bi));
            },
            None => {
                proof {
                    assert forall|g: int| from <= g implies !#[trigger] self@.is_free(g) by {
                        if self@.is_free(g) {
                            let x = choose|x: int|
                                0 <= x < all.len() && (#[trigger] all[x]).is_available()
                                    && holds_frame(all[x], g);
                            assert(eligible(all[x], from as int));
                        }
                    }
                }
                self.current_area = None;
            },
        }
    }

    /// Makes the allocator for the areas that `areas` has yet to yield. The
    /// kernel image and the boot information are given by the addresses of
    /// their first and last byte. The area to start with is selected at once.
    pub fn new(
        kernel_start: usize,
        kernel_end: usize,
        mbi_start: usize,
        mbi_end: usize,
        areas: MemoryAreaIter<'a>,
    ) -> (r: AreaFrameAllocator<'a>)
        ensures
            r.well_formed(),
            r@.areas == areas@,
            r@.kernel == (ReservedRange {
                first: kernel_start as int / 4096,
                last: kernel_end as int / 4096,
            }),
            r@.mbi == (ReservedRange {
                first: mbi_start as int / 4096,
                last: mbi_end as int / 4096,
            }),
            match r@.current {
                Some(c) => r@.next_free == first_frame(c) && selects(areas@, 0, c),
                None => r@.next_free == 0 && forall|i: int|
                    0 <= i < areas@.len() ==> !eligible(#[trigger] areas@[i], 0),
            },
    {
        let mut allocator = AreaFrameAllocator {
            next_free_frame: Frame::at_addr(0),
            current_area: None,
            areas,
            kernel_start: Frame::at_addr(kernel_start),
            kernel_end: Frame::at_addr(kernel_end),
            mbi_start: Frame::at_addr(mbi_start),
            mbi_end: Frame::at_addr(mbi_end),
        };
        allocator.choose_next_area();
        allocator
    }
}

impl<'a> AreaFrameAllocator<'a> {
    /// How far the allocator is from its next answer, for the current next
    /// free frame: 0 without a current area, 1 while the current area still
    /// has a frame to look at, 2 once it is used up.
    closed spec fn stage(&self) -> int {
        match self.current_area {
            None => 0,
            Some(c) => if self.next_free_frame.number <= last_frame(c)
                && self.next_free_frame.number <= Frame::max_number() {
                1
            } else {
                2
            },
        }
    }
}

impl<'a> FrameAllocator for AreaFrameAllocator<'a> {
    open spec fn wf(&self) -> bool {
        self.well_formed()
    }

    /// Hands out the lowest free frame that has not been passed yet. A frame
    /// of the kernel image or of the boot information is never handed out,
    /// nor one outside the available areas, nor any frame twice. Once no free
    /// frame is left the answer is `None`, at every later call too.
    fn allocate(&mut self) -> (r: Option<Frame>)
        ensures
            old(self)@.steps_to(final(self)@, r),
    {
        let ghost start = self@;
        loop
            invariant
                start == old(self)@,
                self.well_formed(),
                self@.areas == start.areas,
                self@.kernel == start.kernel,
                self@.mbi == start.mbi,
                start.next_free <= self@.next_free,
                forall|g: int|
                    start.next_free <= g < self@.next_free ==> !#[trigger] start.is_free(g),
            decreases Frame::max_number() + 1 - self.next_free_frame.number, self.stage(),
        {
            match self.current_area {
                None => {
                    assert forall|g: int| start.next_free <= g implies !#[trigger] start.is_free(
                        g,
                    ) by {
                        if self@.next_free <= g {
                            assert(!self@.is_free(g));
                        }
                    }
                    return None;
                },
                Some(area) => {
                    let frame = self.next_free_frame;
                    let used_up = match last_usable_frame(&area) {
                        Some(last) => frame.number > last,
                        None => true,
                    };
                    if used_up {
                        let ghost before = self@;
                        self.choose_next_area();
                        assert forall|g: int|
                            start.next_free <= g < self@.next_free implies !#[trigger] start
                            .is_free(g) by {
                            if before.next_free <= g {
                                assert(!before.is_free(g));
                            }
                        }
                    } else if frame.number >= self.kernel_start.number && frame.number
                        <= self.kernel_end.number {
                        self.next_free_frame = Frame { number: self.kernel_end.number + 1 };
                    } else if frame.number >= self.mbi_start.number && frame.number
                        <= self.mbi_end.number {
                        self.next_free_frame = Frame { number: self.mbi_end.number + 1 };
                    } else {
                        proof {
                            let (n, i) = choose|n: int, i: int|
                                n <= self.next_free_frame.number && #[trigger] is_lowest_eligible(
                                    self.areas@,
                                    n,
                                    i,
                                ) && self.areas@[i] == area;
                            assert(start.areas[i].is_available() && holds_frame(
                                start.areas[i],
                                frame.number as int,
                            ));
                            assert(is_lowest_eligible(start.areas, frame.number as int, i));
                        }
                        self.next_free_frame = Frame { number: frame.number + 1 };
                        return Some(frame);
                    }
                },
            }
        }
    }

    /// Frames are never taken back: the call leaves the allocator as it was,
    /// and the frame is not handed out again.
    fn dealloc(&mut self, _frame: Frame)
        ensures
            final(self)@ == old(self)@,
    {
    }
}

/// A run of calls: `states[i]` is the allocator before call `i`,
/// `results[i]` the answer of that call, and the last state the allocator
/// after the last call.
pub open spec fn is_run(states: Seq<AllocatorState>, results: Seq<Option<Frame>>) -> bool {
    &&& states.len() == results.len() + 1
    &&& forall|i: int|
        0 <= i < results.len() ==> states[i].steps_to(states[i + 1], #[trigger] results[i])
}

/// Along a run the areas and the reserved ranges stay as they were, and the
/// next free frame never moves down.
pub proof fn lemma_run_keeps(
    states: Seq<AllocatorState>,
    results: Seq<Option<Frame>>,
    i: int,
    j: int,
)
    requires
        is_run(states, results),
        0 <= i <= j <= results.len(),
    ensures
        states[j].areas == states[i].areas,
        states[j].kernel == states[i].kernel,
        states[j].mbi == states[i].mbi,
        states[i].next_free <= states[j].next_free,
    decreases j - i,
{
    if i < j {
        lemma_run_keeps(states, results, i, j - 1);
        assert(states[j - 1].steps_to(states[j], results[j - 1]));
    }
}

/// Over any run of calls the frames handed out have strictly increasing
/// numbers: of two calls that both hand out a frame, the later one hands out
/// the higher frame. So no frame is handed out twice.
pub proof fn lemma_frames_strictly_increase(
    states: Seq<AllocatorState>,
    results: Seq<Option<Frame>>,
    i: int,
    j: int,
)
    requires
        is_run(states, results),
        0 <= i < j < results.len(),
        results[i] is Some,
        results[j] is Some,
    ensures
        results[i]->0.number < results[j]->0.number,
{
    assert(states[i].steps_to(states[i + 1], results[i]));
    lemma_run_keeps(states, results, i + 1, j);
    assert(states[j].steps_to(states[j + 1], results[j]));
}

/// Over any run of calls every frame handed out lies in an available area of
/// the map that the allocator was made with, and in neither reserved range.
pub proof fn lemma_frames_avoid_reserved(
    states: Seq<AllocatorState>,
    results: Seq<Option<Frame>>,
    i: int,
)
    requires
        is_run(states, results),
        0 <= i < results.len(),
        results[i] is Some,
    ensures
        in_available_area(states[0].areas, results[i]->0.number as int),
        !states[0].kernel.contains(results[i]->0.number as int),
        !states[0].mbi.contains(results[i]->0.number as int),
{
    lemma_run_keeps(states, results, 0, i);
    assert(states[i].steps_to(states[i + 1], results[i]));
}

/// Once the available areas are used up, that is once no free frame is left
/// from the next free frame on, every call of the run from there on hands
/// out no frame.
pub proof fn lemma_used_up_areas_give_no_frame(
    states: Seq<AllocatorState>,
    results: Seq<Option<Frame>>,
    i: int,
    j: int,
)
    requires
        is_run(states, results),
        0 <= i <= j < results.len(),
        forall|g: int| states[i].next_free <= g ==> !#[trigger] states[i].is_free(g),
    ensures
        results[j] is None,
{
    lemma_run_keeps(states, results, i, j);
    assert(states[j].steps_to(states[j + 1], results[j]));
    if results[j] is Some {
        let f = results[j]->0.number as int;
        assert(states[j].is_free(f));
        assert(states[i].is_free(f));
    }
}

/// Once a call has handed out no frame, no later call of the run hands one
/// out.
pub proof fn lemma_exhaustion_is_final(
    states: Seq<AllocatorState>,
    results: Seq<Option<Frame>>,
    i: int,
    j: int,
)
    requires
        is_run(states, results),
        0 <= i <= j < results.len(),
        results[i] is None,
    ensures
        results[j] is None,
{
    assert(states[i].steps_to(states[i + 1], results[i]));
    lemma_used_up_areas_give_no_frame(states, results, i, j);
}

} // verus!
