//! The boot loader name tag.

use vstd::prelude::*;
use vstd::slice::slice_subrange;
use vstd::string::StringSliceAdditionalSpecFns;
use vstd::utf8::valid_utf8;
use crate::multiboot::tags::{Tag, TagType};

verus! {

/// The index of the first zero byte of `s` at or behind `from`, or the
/// length of `s` where there is none.
pub open spec fn zero_index(s: Seq<u8>, from: int) -> int
    decreases s.len() - from,
{
    if from < 0 || from >= s.len() || s[from] == 0 {
        from
    } else {
        zero_index(s, from + 1)
    }
}

/// The text of a zero-terminated string: the bytes in front of its first
/// zero byte, or all of them where none is zero.
pub open spec fn text_of(s: Seq<u8>) -> Seq<u8> {
    s.take(zero_index(s, 0))
}

/// The tag that names the boot loader. `string` is the payload of the tag: a
/// UTF-8 string with a zero byte at its end.
#[derive(Clone, Copy, Debug)]
pub struct BootLoaderName<'a> {
    pub typ: TagType,
    pub size: u32,
    pub string: &'a [u8],
}

/// Gives the bytes as text where they are valid UTF-8, by
/// `core::str::from_utf8`. That function checks that the bytes are valid
/// UTF-8 and, where they are, returns the string slice over the same bytes;
/// where they are not, it returns an error, here `None`.
#[verifier::external_body]
fn utf8_text<'a>(bytes: &'a [u8]) -> (r: Option<&'a str>)
    ensures
        r is Some <==> valid_utf8(bytes@),
        r matches Some(s) ==> s.spec_bytes() == bytes@,
{
    core::str::from_utf8(bytes).ok()
}

impl<'a> BootLoaderName<'a> {
    /// Whether `self` is the view of `tag`: the header of the tag, and as
    /// the string the bytes between the header and the end of the tag.
    pub open spec fn is_view_of(&self, blob: Seq<u8>, tag: Tag) -> bool {
        &&& self.typ == tag.typ
        &&& self.size == tag.size
        &&& self.string@ == blob.subrange(tag.offset + 8, tag.offset + tag.size)
    }

    /// Makes the view of `tag`.
    pub(crate) fn read(blob: &'a [u8], tag: &Tag) -> (r: BootLoaderName<'a>)
        requires
            tag.size >= 8,
            tag.offset + tag.size <= blob@.len(),
        ensures
            r.is_view_of(blob@, *tag),
    {
        assert(blob@.len() == blob.len());
        let string = slice_subrange(blob, tag.offset + 8, tag.offset + tag.size as usize);
        BootLoaderName { typ: tag.typ, size: tag.size, string }
    }

    /// The bytes of the name: the string without its terminating zero byte
    /// and without anything behind it.
    pub fn name_bytes(&self) -> (r: &'a [u8])
        ensures
            r@ == text_of(self.string@),
    {
        let len = self.string.len();
        assert(self.string@.len() == len);
        let mut end: usize = 0;
        while end < len && self.string[end] != 0
            invariant
                self.string@.len() == len,
                end <= len,
                zero_index(self.string@, 0) == zero_index(self.string@, end as int),
            decreases len - end,
        {
            end = end + 1;
        }
        slice_subrange(self.string, 0, end)
    }

    /// The name of the boot loader: the text in front of the terminating
    /// zero byte. There is none where that text is not valid UTF-8.
    pub fn name(&self) -> (r: Option<&'a str>)
        ensures
            r is Some <==> valid_utf8(text_of(self.string@)),
            r matches Some(s) ==> s.spec_bytes() == text_of(self.string@),
    {
        utf8_text(self.name_bytes())
    }
}

} // verus!
