//! The Multiboot2 boot information: validation, tags and typed views.

use vstd::prelude::*;
use vstd::slice::slice_subrange;
use crate::bytes::{le_u32, read_u32};
use crate::multiboot::basic_mem_info::BasicMemoryInformation;
use crate::multiboot::bootloader_name::BootLoaderName;
use crate::multiboot::elf_symbols::ElfSymbols;
use crate::multiboot::end_tag::EndTag;
use crate::multiboot::memory::MemoryMap;
use crate::multiboot::tags::{
    first_of_type, is_terminator, laid_out, lemma_decoder_yields_what_is_laid_out,
    lemma_first_of_type, lemma_tags_hold, lemma_terminator_at_end, tags_from, Tag, TagIter,
    TagType,
};

pub mod basic_mem_info;
pub mod bootloader_name;
pub mod elf_symbols;
pub mod end_tag;
pub mod memory;
pub mod tags;

verus! {

/// Errors that can occur when loading an MBI.
#[derive(Clone, Copy, Debug, PartialEq, Eq, Structural)]
pub enum MbiErr {
    /// The address is null or not a multiple of 8.
    AddressError,
    /// The total size is not a multiple of 8, or the memory is too short to
    /// hold it.
    SizeError,
    /// The last eight bytes of the blob are not the terminator, or the total
    /// size leaves no room for it inside the memory.
    EndTagError,
}

/// The total size that a blob states in its first four bytes.
pub open spec fn total_size(mem: Seq<u8>) -> int {
    le_u32(mem, 0) as int
}

/// Whether the blob at the start of `mem` ends in the terminator: its last
/// eight bytes, at `total_size - 8`, lie behind the header and inside `mem`
/// and hold type code 0 and size 8.
pub open spec fn end_tag_valid(mem: Seq<u8>) -> bool {
    &&& 16 <= total_size(mem) <= mem.len()
    &&& is_terminator(mem, total_size(mem) - 8)
}

/// What is wrong with a blob at address `addr` whose bytes are the start of
/// `mem`, if anything: the first of the three checks that fails.
pub open spec fn load_error(addr: int, mem: Seq<u8>) -> Option<MbiErr> {
    if addr == 0 || addr % 8 != 0 {
        Some(MbiErr::AddressError)
    } else if mem.len() < 8 || total_size(mem) % 8 != 0 {
        Some(MbiErr::SizeError)
    } else if !end_tag_valid(mem) {
        Some(MbiErr::EndTagError)
    } else {
        None
    }
}

/// A Multiboot information structure: the two fields of its header, the
/// address at which the boot loader left it, and its bytes, header included.
#[derive(Clone, Copy, Debug)]
pub struct MultibootInfo<'a> {
    total_size: u32,
    /// should be 0
    reserved: u32,
    start: usize,
    blob: &'a [u8],
}

impl<'a> MultibootInfo<'a> {
    /// The address of the blob.
    pub closed spec fn start(&self) -> usize {
        self.start
    }

    /// The bytes of the blob, header included.
    pub closed spec fn bytes(&self) -> Seq<u8> {
        self.blob@
    }

    /// The tags of the blob: the stream that starts behind the header.
    pub open spec fn tags(&self) -> Seq<Tag> {
        tags_from(self.bytes(), 8)
    }

    /// The first field of the header.
    pub closed spec fn header_total_size(&self) -> u32 {
        self.total_size
    }

    /// The second field of the header.
    pub closed spec fn header_reserved(&self) -> u32 {
        self.reserved
    }

    /// Whether the blob has passed the three checks, holds as many bytes as
    /// its total size states, and has the header that its first eight bytes
    /// spell.
    pub open spec fn is_valid(&self) -> bool {
        &&& load_error(self.start() as int, self.bytes()) is None
        &&& self.bytes().len() == total_size(self.bytes())
        &&& self.header_total_size() == le_u32(self.bytes(), 0)
        &&& self.header_reserved() == le_u32(self.bytes(), 4)
    }

    /// The size of the blob in bytes, header and terminator included.
    pub fn total_size(&self) -> (r: u32)
        ensures
            r == self.header_total_size(),
    {
        self.total_size
    }

    /// The reserved field of the header, which the boot loader should have
    /// set to 0. It is not checked.
    pub fn reserved(&self) -> (r: u32)
        ensures
            r == self.header_reserved(),
    {
        self.reserved
    }

    /// A multiboot information structure must end with an End tag: "Tags are
    /// terminated by a tag of type '0' and size '8'." This method returns
    /// whether `self` has that tag at its end. The tag is looked for where
    /// the total size puts it, not by walking the tags, so that a broken tag
    /// in between cannot hide that it is missing.
    pub fn is_end_tag_valid(&self) -> (b: bool)
        ensures
            b == end_tag_valid(self.bytes()),
    {
        let len = self.blob.len();
        assert(self.blob@.len() == len);
        if len < 16 {
            return false;
        }
        let total = read_u32(self.blob, 0) as u64;
        if total < 16 || total > len as u64 {
            return false;
        }
        let end = total as usize - 8;
        read_u32(self.blob, end) == 0 && read_u32(self.blob, end + 4) == 8
    }

    /// Get the whole list of tags.
    pub fn get_tags(&self) -> (r: TagIter<'a>)
        ensures
            r@ == self.tags(),
    {
        TagIter::new(self.blob, 8)
    }

    /// Get a specific tag: the first of that type. The wrappers below give
    /// the tag as what its type says it is.
    pub fn get_tag(&self, tag: TagType) -> (r: Option<Tag>)
        ensures
            r == first_of_type(self.tags(), tag),
    {
        let mut tags = self.get_tags();
        loop
            invariant
                first_of_type(tags@, tag) == first_of_type(self.tags(), tag),
            decreases tags@.len(),
        {
            match tags.next() {
                None => {
                    return None;
                },
                Some(t) => {
                    if t.typ == tag {
                        return Some(t);
                    }
                },
            }
        }
    }

    /// What holds of a tag that `get_tag` has found: it stands at its offset
    /// in the blob, behind the header, with room for a terminator behind it.
    proof fn lemma_found(&self, typ: TagType)
        requires
            self.blob@.len() <= usize::MAX,
        ensures
            first_of_type(self.tags(), typ) matches Some(t) ==> {
                &&& t.typ == typ
                &&& t == tags::tag_at(self.bytes(), t.offset as int)
                &&& tags::holds_tag(self.bytes(), t.offset as int)
                &&& 8 <= t.offset
            },
    {
        lemma_first_of_type(self.tags(), typ);
        if let Some(t) = first_of_type(self.tags(), typ) {
            let i = choose|i: int| 0 <= i < self.tags().len() && #[trigger] self.tags()[i] == t;
            lemma_tags_hold(self.bytes(), 8, i);
        }
    }

    /// Get the Bootloader name tag: the first tag of that type, if there is
    /// one.
    pub fn get_bootloader_name(&self) -> (r: Option<BootLoaderName<'a>>)
        ensures
            match first_of_type(self.tags(), TagType::BootLoaderName) {
                Some(t) => r matches Some(v) && v.is_view_of(self.bytes(), t),
                None => r is None,
            },
    {
        assert(self.blob@.len() == self.blob.len());
        proof {
            self.lemma_found(TagType::BootLoaderName);
        }
        match self.get_tag(TagType::BootLoaderName) {
            None => None,
            Some(tag) => Some(BootLoaderName::read(self.blob, &tag)),
        }
    }

    /// Get the memory map tag: the first tag of that type, if there is one.
    pub fn get_memory_map(&self) -> (r: Option<MemoryMap<'a>>)
        ensures
            match first_of_type(self.tags(), TagType::MemoryMap) {
                Some(t) => r matches Some(v) && v.is_view_of(self.bytes(), t),
                None => r is None,
            },
    {
        assert(self.blob@.len() == self.blob.len());
        proof {
            self.lemma_found(TagType::MemoryMap);
        }
        match self.get_tag(TagType::MemoryMap) {
            None => None,
            Some(tag) => Some(MemoryMap::read(self.blob, &tag)),
        }
    }

    /// Get the ELF sections of the booted kernel: the first tag of that type,
    /// if there is one.
    pub fn get_elf_sections(&self) -> (r: Option<ElfSymbols>)
        ensures
            r == match first_of_type(self.tags(), TagType::ElfSymbols) {
                Some(t) => Some(ElfSymbols::at(self.bytes(), t)),
                None => None,
            },
    {
        assert(self.blob@.len() == self.blob.len());
        proof {
            self.lemma_found(TagType::ElfSymbols);
        }
        match self.get_tag(TagType::ElfSymbols) {
            None => None,
            Some(tag) => Some(ElfSymbols::read(self.blob, &tag)),
        }
    }

    /// Get the basic memory information tag: the first tag of that type, if
    /// there is one.
    pub fn get_basic_mem_info(&self) -> (r: Option<BasicMemoryInformation>)
        ensures
            r == match first_of_type(self.tags(), TagType::BasicMemoryInfo) {
                Some(t) => Some(BasicMemoryInformation::at(self.bytes(), t)),
                None => None,
            },
    {
        assert(self.blob@.len() == self.blob.len());
        proof {
            self.lemma_found(TagType::BasicMemoryInfo);
        }
        match self.get_tag(TagType::BasicMemoryInfo) {
            None => None,
            Some(tag) => Some(BasicMemoryInformation::read(self.blob, &tag)),
        }
    }

    /// Get the first tag of type `End` among the tags. The terminator is not
    /// one of the tags, so a blob as the format wants it has none.
    pub fn get_end_tag(&self) -> (r: Option<EndTag>)
        ensures
            r == match first_of_type(self.tags(), TagType::End) {
                Some(t) => Some(EndTag::at(t)),
                None => None,
            },
    {
        match self.get_tag(TagType::End) {
            None => None,
            Some(tag) => Some(EndTag::read(&tag)),
        }
    }

    /// The address of the blob.
    pub fn get_start(&self) -> (r: usize)
        ensures
            r == self.start(),
    {
        self.start
    }
}

/// Load an MBI from an address. `mem` is the memory at that address; the
/// blob is what lies in front of its total size there. The three checks are
/// made in this order: the address, the total size, the terminator. Nothing
/// of the memory is looked at for a bad address, and only the total size for
/// a bad size. The blob that is returned ends where its total size says.
pub fn load<'a>(addr: usize, mem: &'a [u8]) -> (r: Result<MultibootInfo<'a>, MbiErr>)
    ensures
        match r {
            Ok(mbi) => {
                &&& load_error(addr as int, mem@) is None
                &&& mbi.start() == addr
                &&& mbi.bytes() == mem@.subrange(0, total_size(mem@))
                &&& mbi.is_valid()
            },
            Err(e) => load_error(addr as int, mem@) == Some(e),
        },
{
    // address is null or not 8-byte aligned
    if addr == 0 || addr % 8 != 0 {
        return Err(MbiErr::AddressError);
    }
    assert(mem@.len() == mem.len());
    if mem.len() < 8 {
        return Err(MbiErr::SizeError);
    }
    // total_size must a multiple of 8
    let total = read_u32(mem, 0);
    if total % 8 != 0 {
        return Err(MbiErr::SizeError);
    }
    let reserved = read_u32(mem, 4);
    let window = MultibootInfo { total_size: total, reserved, start: addr, blob: mem };
    if !window.is_end_tag_valid() {
        return Err(MbiErr::EndTagError);
    }
    let blob = slice_subrange(mem, 0, total as usize);
    proof {
        lemma_same_start(mem@, blob@, total as int);
    }
    Ok(MultibootInfo { total_size: total, reserved, start: addr, blob })
}

/// A blob cut off at its total size is still the same blob: it states the
/// same total size and ends in the same eight bytes.
proof fn lemma_same_start(mem: Seq<u8>, blob: Seq<u8>, total: int)
    requires
        16 <= total <= mem.len(),
        blob == mem.subrange(0, total),
    ensures
        total_size(blob) == total_size(mem),
        le_u32(blob, 4) == le_u32(mem, 4),
        is_terminator(blob, total - 8) == is_terminator(mem, total - 8),
{
}

/// A blob at a good address whose total size is not a multiple of 8 is
/// refused for its size, whatever else it holds.
pub proof fn lemma_odd_size_is_size_error(addr: int, mem: Seq<u8>)
    requires
        addr != 0 && addr % 8 == 0,
        mem.len() >= 8,
        total_size(mem) % 8 != 0,
    ensures
        load_error(addr, mem) == Some(MbiErr::SizeError),
{
}

/// A blob at a good address with a good total size whose last eight bytes
/// are not type code 0 and size 8 is refused for its end tag, whatever tags
/// it holds in front.
pub proof fn lemma_missing_terminator_is_end_tag_error(addr: int, mem: Seq<u8>)
    requires
        addr != 0 && addr % 8 == 0,
        mem.len() >= 8,
        total_size(mem) % 8 == 0,
        8 <= total_size(mem) <= mem.len(),
        !(le_u32(mem, total_size(mem) - 8) == 0 && le_u32(mem, total_size(mem) - 4) == 8),
    ensures
        load_error(addr, mem) == Some(MbiErr::EndTagError),
{
}

/// A blob made to the format passes the three checks and gives its tags: at
/// a good address, with its length as its total size, a multiple of 8, and
/// behind the header the tags `tags` and then the terminator, it is loaded,
/// and its tags are exactly `tags`, in order, without the terminator.
pub proof fn lemma_well_made_blob(addr: int, blob: Seq<u8>, tags: Seq<Tag>)
    requires
        addr != 0 && addr % 8 == 0,
        total_size(blob) == blob.len(),
        blob.len() % 8 == 0,
        laid_out(blob, 8, tags),
    ensures
        load_error(addr, blob) is None,
        blob.subrange(0, total_size(blob)) == blob,
        tags_from(blob, 8) == tags,
{
    lemma_decoder_yields_what_is_laid_out(blob, 8, tags);
    lemma_terminator_at_end(blob, 8, tags);
    assert(blob.subrange(0, total_size(blob)) =~= blob);
}

} // verus!
