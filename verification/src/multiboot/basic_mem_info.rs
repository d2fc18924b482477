//! The basic memory information tag.

use vstd::prelude::*;
use crate::bytes::{le_u32, read_u32};
use crate::multiboot::tags::{Tag, TagType};

verus! {

/// Very basic information about memory: `mem_lower` and `mem_upper` are the
/// amounts of lower and upper memory in kilobytes. Lower memory starts at
/// address 0, upper memory at 1 megabyte.
#[derive(Clone, Copy, Debug, PartialEq, Eq, Structural)]
pub struct BasicMemoryInformation {
    pub typ: TagType,
    pub size: u32,
    pub mem_lower: u32,
    pub mem_upper: u32,
}

impl BasicMemoryInformation {
    /// The view of `tag`: its header, then the two amounts in the eight bytes
    /// behind the header.
    pub open spec fn at(blob: Seq<u8>, tag: Tag) -> BasicMemoryInformation {
        BasicMemoryInformation {
            typ: tag.typ,
            size: tag.size,
            mem_lower: le_u32(blob, tag.offset + 8),
            mem_upper: le_u32(blob, tag.offset + 12),
        }
    }

    /// Decodes the view of `tag`.
    pub(crate) fn read(blob: &[u8], tag: &Tag) -> (r: BasicMemoryInformation)
        requires
            tag.offset + 16 <= blob@.len(),
        ensures
            r == BasicMemoryInformation::at(blob@, *tag),
    {
        assert(blob@.len() == blob.len());
        BasicMemoryInformation {
            typ: tag.typ,
            size: tag.size,
            mem_lower: read_u32(blob, tag.offset + 8),
            mem_upper: read_u32(blob, tag.offset + 12),
        }
    }
}

} // verus!
