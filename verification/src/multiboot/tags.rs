//! The tag stream of a boot information blob.

use vstd::prelude::*;
use crate::bytes::{le_u32, pad8, read_u32};

verus! {

/// All the kinds of tags, by their type code. A code that the format does not
/// name is kept as `Unknown`.
#[derive(Clone, Copy, Debug, PartialEq, Eq, Structural)]
pub enum TagType {
    End,
    BootCommandLine,
    BootLoaderName,
    Modules,
    BasicMemoryInfo,
    BiosBootDevice,
    MemoryMap,
    VbeInfo,
    FramebufferInfo,
    ElfSymbols,
    ApmTable,
    Efi32SystemTablePtr,
    Efi64SystemTablePtr,
    SmBiosTables,
    AcpiOldRsdp,
    AcpiNewRsdp,
    NetworkingInfo,
    EfiMemMap,
    EfiBootServicesNotTerminated,
    Efi32ImageHandlePtr,
    Efi64ImageHandlePtr,
    ImageLoadBasePhysAddr,
    Unknown(u32),
}

impl TagType {
    /// The kind that a type code stands for.
    pub open spec fn of_code(code: u32) -> TagType {
        if code == 0 {
            TagType::End
        } else if code == 1 {
            TagType::BootCommandLine
        } else if code == 2 {
            TagType::BootLoaderName
        } else if code == 3 {
            TagType::Modules
        } else if code == 4 {
            TagType::BasicMemoryInfo
        } else if code == 5 {
            TagType::BiosBootDevice
        } else if code == 6 {
            TagType::MemoryMap
        } else if code == 7 {
            TagType::VbeInfo
        } else if code == 8 {
            TagType::FramebufferInfo
        } else if code == 9 {
            TagType::ElfSymbols
        } else if code == 10 {
            TagType::ApmTable
        } else if code == 11 {
            TagType::Efi32SystemTablePtr
        } else if code == 12 {
            TagType::Efi64SystemTablePtr
        } else if code == 13 {
            TagType::SmBiosTables
        } else if code == 14 {
            TagType::AcpiOldRsdp
        } else if code == 15 {
            TagType::AcpiNewRsdp
        } else if code == 16 {
            TagType::NetworkingInfo
        } else if code == 17 {
            TagType::EfiMemMap
        } else if code == 18 {
            TagType::EfiBootServicesNotTerminated
        } else if code == 19 {
            TagType::Efi32ImageHandlePtr
        } else if code == 20 {
            TagType::Efi64ImageHandlePtr
        } else if code == 21 {
            TagType::ImageLoadBasePhysAddr
        } else {
            TagType::Unknown(code)
        }
    }

    /// The type code of a kind.
    pub open spec fn code_of(self) -> u32 {
        match self {
            TagType::End => 0,
            TagType::BootCommandLine => 1,
            TagType::BootLoaderName => 2,
            TagType::Modules => 3,
            TagType::BasicMemoryInfo => 4,
            TagType::BiosBootDevice => 5,
            TagType::MemoryMap => 6,
            TagType::VbeInfo => 7,
            TagType::FramebufferInfo => 8,
            TagType::ElfSymbols => 9,
            TagType::ApmTable => 10,
            TagType::Efi32SystemTablePtr => 11,
            TagType::Efi64SystemTablePtr => 12,
            TagType::SmBiosTables => 13,
            TagType::AcpiOldRsdp => 14,
            TagType::AcpiNewRsdp => 15,
            TagType::NetworkingInfo => 16,
            TagType::EfiMemMap => 17,
            TagType::EfiBootServicesNotTerminated => 18,
            TagType::Efi32ImageHandlePtr => 19,
            TagType::Efi64ImageHandlePtr => 20,
            TagType::ImageLoadBasePhysAddr => 21,
            TagType::Unknown(code) => code,
        }
    }

    /// Decodes a type code.
    pub fn from_code(code: u32) -> (r: TagType)
        ensures
            r == TagType::of_code(code),
    {
        match code {
            0 => TagType::End,
            1 => TagType::BootCommandLine,
            2 => TagType::BootLoaderName,
            3 => TagType::Modules,
            4 => TagType::BasicMemoryInfo,
            5 => TagType::BiosBootDevice,
            6 => TagType::MemoryMap,
            7 => TagType::VbeInfo,
            8 => TagType::FramebufferInfo,
            9 => TagType::ElfSymbols,
            10 => TagType::ApmTable,
            11 => TagType::Efi32SystemTablePtr,
            12 => TagType::Efi64SystemTablePtr,
            13 => TagType::SmBiosTables,
            14 => TagType::AcpiOldRsdp,
            15 => TagType::AcpiNewRsdp,
            16 => TagType::NetworkingInfo,
            17 => TagType::EfiMemMap,
            18 => TagType::EfiBootServicesNotTerminated,
            19 => TagType::Efi32ImageHandlePtr,
            20 => TagType::Efi64ImageHandlePtr,
            21 => TagType::ImageLoadBasePhysAddr,
            _ => TagType::Unknown(code),
        }
    }

    /// The type code of this kind.
    pub fn code(&self) -> (r: u32)
        ensures
            r == self.code_of(),
    {
        match *self {
            TagType::End => 0,
            TagType::BootCommandLine => 1,
            TagType::BootLoaderName => 2,
            TagType::Modules => 3,
            TagType::BasicMemoryInfo => 4,
            TagType::BiosBootDevice => 5,
            TagType::MemoryMap => 6,
            TagType::VbeInfo => 7,
            TagType::FramebufferInfo => 8,
            TagType::ElfSymbols => 9,
            TagType::ApmTable => 10,
            TagType::Efi32SystemTablePtr => 11,
            TagType::Efi64SystemTablePtr => 12,
            TagType::SmBiosTables => 13,
            TagType::AcpiOldRsdp => 14,
            TagType::AcpiNewRsdp => 15,
            TagType::NetworkingInfo => 16,
            TagType::EfiMemMap => 17,
            TagType::EfiBootServicesNotTerminated => 18,
            TagType::Efi32ImageHandlePtr => 19,
            TagType::Efi64ImageHandlePtr => 20,
            TagType::ImageLoadBasePhysAddr => 21,
            TagType::Unknown(code) => code,
        }
    }
}

/// A tag gives the kernel information about something. All tags start with
/// the same two fields, the type code and the size in bytes, header included;
/// what follows depends on the type. A tag is told from another by the offset
/// at which it starts in the blob.
#[derive(Clone, Copy, Debug, PartialEq, Eq, Structural)]
pub struct Tag {
    pub typ: TagType,
    pub size: u32,
    pub offset: usize,
}

/// Whether the eight bytes at `off` are the terminator of the tag stream:
/// type code 0 and size 8.
pub open spec fn is_terminator(blob: Seq<u8>, off: int) -> bool {
    le_u32(blob, off) == 0 && le_u32(blob, off + 4) == 8
}

/// The tag whose header stands at `off`.
pub open spec fn tag_at(blob: Seq<u8>, off: int) -> Tag {
    Tag {
        typ: TagType::of_code(le_u32(blob, off)),
        size: le_u32(blob, off + 4),
        offset: off as usize,
    }
}

/// Whether a tag of the stream stands at `off`: its header lies inside the
/// blob and is not the terminator, its size covers the header, and behind
/// the tag, padded to a multiple of 8, the blob still has room for a
/// terminator.
pub open spec fn holds_tag(blob: Seq<u8>, off: int) -> bool {
    &&& 0 <= off
    &&& off + 8 <= blob.len()
    &&& !is_terminator(blob, off)
    &&& le_u32(blob, off + 4) >= 8
    &&& off + pad8(le_u32(blob, off + 4) as int) + 8 <= blob.len()
}

/// The tags of the stream that starts at `off`, in stream order: each tag is
/// followed by the next at its size rounded up to a multiple of 8, and the
/// stream ends in front of the terminator, which is not part of it, or in
/// front of the first record that is no tag.
pub open spec fn tags_from(blob: Seq<u8>, off: int) -> Seq<Tag>
    decreases blob.len() - off,
{
    if holds_tag(blob, off) {
        seq![tag_at(blob, off)] + tags_from(blob, off + pad8(le_u32(blob, off + 4) as int))
    } else {
        Seq::empty()
    }
}

/// The first of `tags` that has type `typ`, if there is one.
pub open spec fn first_of_type(tags: Seq<Tag>, typ: TagType) -> Option<Tag>
    decreases tags.len(),
{
    if tags.len() == 0 {
        None
    } else if tags[0].typ == typ {
        Some(tags[0])
    } else {
        first_of_type(tags.drop_first(), typ)
    }
}

/// A cursor over the tags of a blob. It can be copied and so restarted at
/// will.
#[derive(Clone, Copy)]
pub struct TagIter<'a> {
    blob: &'a [u8],
    current: usize,
}

impl<'a> TagIter<'a> {
    /// The tags that the cursor has yet to yield, in order.
    pub closed spec fn view(&self) -> Seq<Tag> {
        tags_from(self.blob@, self.current as int)
    }

    /// A cursor over the tags of `blob` from offset `start` on.
    pub fn new(blob: &'a [u8], start: usize) -> (r: TagIter<'a>)
        ensures
            r@ == tags_from(blob@, start as int),
    {
        TagIter { blob, current: start }
    }

    /// Yields the next tag, if one is left.
    pub fn next(&mut self) -> (r: Option<Tag>)
        ensures
            match r {
                Some(t) => old(self)@.len() > 0 && t == old(self)@[0] && final(self)@ == old(
                    self,
                )@.drop_first(),
                None => old(self)@.len() == 0 && final(self)@ == old(self)@,
            },
    {
        let len = self.blob.len();
        assert(self.blob@.len() == len);
        if len < 16 || self.current > len - 16 {
            return None;
        }
        let code = read_u32(self.blob, self.current);
        let size = read_u32(self.blob, self.current + 4);
        if (code == 0 && size == 8) || size < 8 {
            return None;
        }
        let padded: u64 = (size as u64 + 7) / 8 * 8;
        if padded > (len - self.current - 8) as u64 {
            return None;
        }
        let tag = Tag { typ: TagType::from_code(code), size, offset: self.current };
        proof {
            let rest = tags_from(self.blob@, self.current as int + padded as int);
            assert((seq![tag] + rest).drop_first() =~= rest);
        }
        self.current = self.current + padded as usize;
        Some(tag)
    }
}

/// Every tag of a stream is the tag that stands at its own offset, and that
/// offset does not lie in front of the start of the stream.
pub proof fn lemma_tags_hold(blob: Seq<u8>, off: int, i: int)
    requires
        blob.len() <= usize::MAX,
        0 <= i < tags_from(blob, off).len(),
    ensures
        holds_tag(blob, tags_from(blob, off)[i].offset as int),
        tags_from(blob, off)[i] == tag_at(blob, tags_from(blob, off)[i].offset as int),
        off <= tags_from(blob, off)[i].offset,
    decreases i,
{
    if i > 0 {
        let next = off + pad8(le_u32(blob, off + 4) as int);
        assert(tags_from(blob, off)[i] == tags_from(blob, next)[i - 1]);
        lemma_tags_hold(blob, next, i - 1);
    }
}

/// The first tag of a type is one of the tags, has that type, and no tag in
/// front of it has the type; there is none only where no tag has the type.
pub proof fn lemma_first_of_type(tags: Seq<Tag>, typ: TagType)
    ensures
        match first_of_type(tags, typ) {
            Some(t) => exists|i: int|
                {
                    &&& 0 <= i < tags.len()
                    &&& #[trigger] tags[i] == t
                    &&& t.typ == typ
                    &&& forall|j: int| 0 <= j < i ==> (#[trigger] tags[j]).typ != typ
                },
            None => forall|i: int| 0 <= i < tags.len() ==> (#[trigger] tags[i]).typ != typ,
        },
    decreases tags.len(),
{
    if tags.len() > 0 && tags[0].typ != typ {
        let rest = tags.drop_first();
        lemma_first_of_type(rest, typ);
        match first_of_type(rest, typ) {
            Some(t) => {
                let i = choose|i: int|
                    {
                        &&& 0 <= i < rest.len()
                        &&& #[trigger] rest[i] == t
                        &&& t.typ == typ
                        &&& forall|j: int| 0 <= j < i ==> (#[trigger] rest[j]).typ != typ
                    };
                assert(tags[i + 1] == t);
                assert forall|j: int| 0 <= j < i + 1 implies (#[trigger] tags[j]).typ != typ by {
                    if j > 0 {
                        assert(rest[j - 1] == tags[j]);
                    }
                }
            },
            None => {
                assert forall|i: int| 0 <= i < tags.len() implies (#[trigger] tags[i]).typ
                    != typ by {
                    if i > 0 {
                        assert(rest[i - 1] == tags[i]);
                    }
                }
            },
        }
    } else if tags.len() > 0 {
        assert(tags[0] == tags[0]);
    }
}

/// Whether `blob` holds, from `off` to its end, exactly the tags `tags` one
/// behind the other and then the terminator: each tag stands at its offset
/// with its type code and its size in its header, is no terminator itself,
/// and is followed by the next at its size rounded up to a multiple of 8.
/// What the tags hold behind their headers is left open.
pub open spec fn laid_out(blob: Seq<u8>, off: int, tags: Seq<Tag>) -> bool
    decreases tags.len(),
{
    if tags.len() == 0 {
        is_terminator(blob, off) && off + 8 == blob.len()
    } else {
        let t = tags[0];
        &&& t.offset == off
        &&& t.size >= 8
        &&& !(t.typ == TagType::End && t.size == 8)
        &&& t.typ == TagType::of_code(t.typ.code_of())
        &&& le_u32(blob, off) == t.typ.code_of()
        &&& le_u32(blob, off + 4) == t.size
        &&& laid_out(blob, off + pad8(t.size as int), tags.drop_first())
    }
}

/// A blob that holds tags and then the terminator ends in the terminator,
/// which lies behind all the tags.
pub proof fn lemma_terminator_at_end(blob: Seq<u8>, off: int, tags: Seq<Tag>)
    requires
        laid_out(blob, off, tags),
    ensures
        is_terminator(blob, blob.len() - 8),
        off + 8 <= blob.len(),
    decreases tags.len(),
{
    if tags.len() > 0 {
        lemma_terminator_at_end(blob, off + pad8(tags[0].size as int), tags.drop_first());
    }
}

/// From a blob that holds given tags and then the terminator, the decoder
/// yields exactly those tags, in the order of the stream, and not the
/// terminator.
pub proof fn lemma_decoder_yields_what_is_laid_out(blob: Seq<u8>, off: int, tags: Seq<Tag>)
    requires
        0 <= off,
        laid_out(blob, off, tags),
    ensures
        tags_from(blob, off) == tags,
    decreases tags.len(),
{
    if tags.len() == 0 {
        assert(tags_from(blob, off) =~= tags);
    } else {
        let t = tags[0];
        let next = off + pad8(t.size as int);
        lemma_terminator_at_end(blob, next, tags.drop_first());
        lemma_decoder_yields_what_is_laid_out(blob, next, tags.drop_first());
        assert(t.typ.code_of() == 0 ==> t.typ == TagType::End);
        assert(holds_tag(blob, off));
        assert(tag_at(blob, off) == t);
        assert(seq![t] + tags.drop_first() =~= tags);
    }
}

} // verus!
