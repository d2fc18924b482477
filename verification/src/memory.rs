//! Physical memory in page-sized frames.

use vstd::prelude::*;

pub mod area_frame_allocator;

verus! {

/// Size of a normal page. There is no support for huge pages.
pub const PAGE_SIZE: usize = 4096;

/// A physical frame: the page-sized unit of physical memory that starts at
/// address `number * PAGE_SIZE`.
#[derive(Clone, Copy, Debug, PartialEq, Eq, PartialOrd, Ord, Hash, Structural)]
pub struct Frame {
    pub number: usize,
}

impl Frame {
    /// The highest frame number whose address a machine word can hold.
    pub open spec fn max_number() -> int {
        usize::MAX as int / 4096
    }

    /// Returns the frame containing `addr`.
    pub fn at_addr(addr: usize) -> (r: Frame)
        ensures
            r.number == addr / 4096,
            r.number <= Frame::max_number(),
    {
        Frame { number: addr / PAGE_SIZE }
    }
}

/// An allocator for physical frames.
pub trait FrameAllocator {
    /// What holds of the allocator between calls.
    spec fn wf(&self) -> bool;

    /// Allocates a new physical frame for later use, or tells that none is
    /// left.
    fn allocate(&mut self) -> (r: Option<Frame>)
        requires
            old(self).wf(),
        ensures
            final(self).wf(),
    ;

    /// Gives a physical frame back.
    fn dealloc(&mut self, frame: Frame)
        requires
            old(self).wf(),
        ensures
            final(self).wf(),
    ;
}

} // verus!
