//! The end tag.

use vstd::prelude::*;
use crate::multiboot::tags::{Tag, TagType};

verus! {

/// A tag of type `End`. The one of size 8 that closes the tag stream is the
/// terminator and not a tag of the stream.
#[derive(Clone, Copy, Debug, PartialEq, Eq, Structural)]
pub struct EndTag {
    pub typ: TagType,
    pub size: u32,
}

impl EndTag {
    /// The view of `tag`: its header.
    pub open spec fn at(tag: Tag) -> EndTag {
        EndTag { typ: tag.typ, size: tag.size }
    }

    /// The view of `tag`.
    pub(crate) fn read(tag: &Tag) -> (r: EndTag)
        ensures
            r == EndTag::at(*tag),
    {
        EndTag { typ: tag.typ, size: tag.size }
    }
}

} // verus!
