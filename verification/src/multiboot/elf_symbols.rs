//! The ELF symbols tag.

use vstd::prelude::*;
use crate::bytes::{le_u16, read_u16};
use crate::multiboot::tags::{Tag, TagType};

verus! {

/// The section header table of an ELF kernel: the number of entries, the
/// size of each entry, and the index of the string table that holds the
/// section names.
#[derive(Clone, Copy, Debug, PartialEq, Eq, Structural)]
pub struct ElfSymbols {
    pub typ: TagType,
    pub size: u32,
    pub num: u16,
    pub entsize: u16,
    pub shndx: u16,
    pub reserved: u16,
}

impl ElfSymbols {
    /// The view of `tag`: its header, then four 16-bit fields in the eight
    /// bytes behind the header.
    pub open spec fn at(blob: Seq<u8>, tag: Tag) -> ElfSymbols {
        ElfSymbols {
            typ: tag.typ,
            size: tag.size,
            num: le_u16(blob, tag.offset + 8),
            entsize: le_u16(blob, tag.offset + 10),
            shndx: le_u16(blob, tag.offset + 12),
            reserved: le_u16(blob, tag.offset + 14),
        }
    }

    /// Decodes the view of `tag`.
    pub(crate) fn read(blob: &[u8], tag: &Tag) -> (r: ElfSymbols)
        requires
            tag.offset + 16 <= blob@.len(),
        ensures
            r == ElfSymbols::at(blob@, *tag),
    {
        assert(blob@.len() == blob.len());
        ElfSymbols {
            typ: tag.typ,
            size: tag.size,
            num: read_u16(blob, tag.offset + 8),
            entsize: read_u16(blob, tag.offset + 10),
            shndx: read_u16(blob, tag.offset + 12),
            reserved: read_u16(blob, tag.offset + 14),
        }
    }
}

} // verus!
