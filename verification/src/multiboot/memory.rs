//! The memory map tag and the memory areas that it lists.

use vstd::prelude::*;
use crate::bytes::{le_u32, le_u64, read_u32, read_u64};
use vstd::slice::slice_subrange;
use crate::multiboot::tags::{Tag, TagType};

verus! {

/// The number of bytes that the fields of one memory area take.
pub const AREA_BYTES: u32 = 24;

/// What a memory area may be used for. A code that the format does not name
/// is kept as `Unknown`.
#[derive(Clone, Copy, Debug, PartialEq, Eq, Structural)]
pub enum MemoryAreaType {
    AvailableMemory,
    ReservedHibernate,
    AcpiInfo,
    Reserved,
    Defective,
    Unknown(u32),
}

impl MemoryAreaType {
    /// The use that an area type code stands for.
    pub open spec fn of_code(code: u32) -> MemoryAreaType {
        if code == 1 {
            MemoryAreaType::AvailableMemory
        } else if code == 2 {
            MemoryAreaType::ReservedHibernate
        } else if code == 3 {
            MemoryAreaType::AcpiInfo
        } else if code == 4 {
            MemoryAreaType::Reserved
        } else if code == 5 {
            MemoryAreaType::Defective
        } else {
            MemoryAreaType::Unknown(code)
        }
    }

    /// Decodes an area type code.
    pub fn from_code(code: u32) -> (r: MemoryAreaType)
        ensures
            r == MemoryAreaType::of_code(code),
    {
        match code {
            1 => MemoryAreaType::AvailableMemory,
            2 => MemoryAreaType::ReservedHibernate,
            3 => MemoryAreaType::AcpiInfo,
            4 => MemoryAreaType::Reserved,
            5 => MemoryAreaType::Defective,
            _ => MemoryAreaType::Unknown(code),
        }
    }
}

/// One region of physical memory, as the memory map lists it.
#[derive(Clone, Copy, Debug, PartialEq, Eq, Structural)]
pub struct MemoryArea {
    pub base_addr: u64,
    pub length: u64,
    pub typ: MemoryAreaType,
    pub reserved: u32,
}

impl MemoryArea {
    /// The area whose 24 bytes of fields start at `off`: base address,
    /// length, type code and padding, in this order.
    pub open spec fn at(entries: Seq<u8>, off: int) -> MemoryArea {
        MemoryArea {
            base_addr: le_u64(entries, off),
            length: le_u64(entries, off + 8),
            typ: MemoryAreaType::of_code(le_u32(entries, off + 16)),
            reserved: le_u32(entries, off + 20),
        }
    }

    /// An area may be handed out if and only if its type is available memory.
    pub open spec fn is_available(self) -> bool {
        self.typ == MemoryAreaType::AvailableMemory
    }

    /// Tells whether the area may be handed out.
    pub fn available(&self) -> (r: bool)
        ensures
            r == self.is_available(),
    {
        self.typ == MemoryAreaType::AvailableMemory
    }

    /// Decodes the area whose fields start at `off`.
    pub(crate) fn read(entries: &[u8], off: usize) -> (r: MemoryArea)
        requires
            off + 24 <= entries@.len(),
        ensures
            r == MemoryArea::at(entries@, off as int),
    {
        assert(entries@.len() == entries.len());
        MemoryArea {
            base_addr: read_u64(entries, off),
            length: read_u64(entries, off + 8),
            typ: MemoryAreaType::from_code(read_u32(entries, off + 16)),
            reserved: read_u32(entries, off + 20),
        }
    }
}

/// The areas that a packed array of entries holds from offset `cur` on, each
/// entry `stride` bytes after the one before. An entry counts when the whole
/// stride lies inside the array; a stride too short for the fields of an area
/// holds none.
pub open spec fn areas_from(entries: Seq<u8>, stride: int, cur: int) -> Seq<MemoryArea>
    decreases entries.len() - cur,
{
    if stride < 24 || cur < 0 || cur + stride > entries.len() {
        Seq::empty()
    } else {
        seq![MemoryArea::at(entries, cur)] + areas_from(entries, stride, cur + stride)
    }
}

/// Those of `areas` that are available, in the same order.
pub open spec fn available_areas(areas: Seq<MemoryArea>) -> Seq<MemoryArea> {
    areas.filter(|a: MemoryArea| a.is_available())
}

/// A cursor over the memory areas of a memory map. It can be copied and so
/// restarted at will.
#[derive(Clone, Copy)]
pub struct MemoryAreaIter<'a> {
    entries: &'a [u8],
    current: usize,
    size: u32,
    available_only: bool,
}

impl<'a> MemoryAreaIter<'a> {
    /// The areas that the cursor has yet to yield, in order.
    pub closed spec fn view(&self) -> Seq<MemoryArea> {
        if self.available_only {
            available_areas(areas_from(self.entries@, self.size as int, self.current as int))
        } else {
            areas_from(self.entries@, self.size as int, self.current as int)
        }
    }

    /// A cursor over the entries of a packed array, `entry_size` bytes each.
    pub fn new(entries: &'a [u8], entry_size: u32) -> (r: MemoryAreaIter<'a>)
        ensures
            r@ == areas_from(entries@, entry_size as int, 0),
    {
        MemoryAreaIter { entries, current: 0, size: entry_size, available_only: false }
    }

    /// The same cursor, but yielding the available areas only.
    pub fn only_available(self) -> (r: MemoryAreaIter<'a>)
        ensures
            r@ == available_areas(self@),
    {
        proof {
            let all = areas_from(self.entries@, self.size as int, self.current as int);
            lemma_filter_twice(all);
        }
        MemoryAreaIter {
            entries: self.entries,
            current: self.current,
            size: self.size,
            available_only: true,
        }
    }

    /// Yields the next area, if one is left.
    pub fn next(&mut self) -> (r: Option<MemoryArea>)
        ensures
            match r {
                Some(a) => old(self)@.len() > 0 && a == old(self)@[0] && final(self)@ == old(
                    self,
                )@.drop_first(),
                None => old(self)@.len() == 0 && final(self)@ == old(self)@,
            },
    {
        let len = self.entries.len();
        assert(self.entries@.len() == len);
        loop
            invariant
                self.entries == old(self).entries,
                self.size == old(self).size,
                self.available_only == old(self).available_only,
                self.entries@.len() == len,
                self@ == old(self)@,
            decreases len - self.current,
        {
            if self.size < AREA_BYTES || self.current > len || len - self.current
                < self.size as usize {
                return None;
            }
            let area = MemoryArea::read(self.entries, self.current);
            proof {
                let rest = areas_from(
                    self.entries@,
                    self.size as int,
                    self.current as int + self.size as int,
                );
                lemma_filter_first(MemoryArea::at(self.entries@, self.current as int), rest);
            }
            self.current = self.current + self.size as usize;
            if !self.available_only || area.available() {
                return Some(area);
            }
        }
    }
}

/// Filtering a sequence with one more area in front keeps that area exactly
/// when it is available.
pub proof fn lemma_filter_first(a: MemoryArea, rest: Seq<MemoryArea>)
    ensures
        available_areas(seq![a] + rest) == if a.is_available() {
            seq![a] + available_areas(rest)
        } else {
            available_areas(rest)
        },
{
    let p = |a: MemoryArea| a.is_available();
    let one = seq![a];
    Seq::filter_distributes_over_add(one, rest, p);
    reveal(Seq::filter);
    assert(one.drop_last() =~= Seq::<MemoryArea>::empty());
    assert(one.drop_last().filter(p) =~= Seq::<MemoryArea>::empty());
    assert(one.last() == a);
    if a.is_available() {
        assert(one.filter(p) =~= one);
    } else {
        assert(one.filter(p) =~= Seq::<MemoryArea>::empty());
        assert(Seq::<MemoryArea>::empty() + available_areas(rest) =~= available_areas(rest));
    }
}

/// Filtering what is already filtered changes nothing.
pub proof fn lemma_filter_twice(areas: Seq<MemoryArea>)
    ensures
        available_areas(available_areas(areas)) == available_areas(areas),
    decreases areas.len(),
{
    let p = |a: MemoryArea| a.is_available();
    reveal(Seq::filter);
    if areas.len() > 0 {
        lemma_filter_twice(areas.drop_last());
        let sub = areas.drop_last().filter(p);
        if p(areas.last()) {
            let full = sub.push(areas.last());
            assert(full.drop_last() =~= sub);
            assert(full.last() == areas.last());
        }
    }
}

/// The tag that provides the memory map. `entry_size` is the size of one
/// entry, a multiple of 8, so that later versions of the format may add
/// fields to an entry; `entry_version` is 0 at present. `entries` is the rest
/// of the tag: the entries, one behind the other.
#[derive(Clone, Copy, Debug)]
pub struct MemoryMap<'a> {
    pub typ: TagType,
    pub size: u32,
    pub entry_size: u32,
    pub entry_version: u32,
    pub entries: &'a [u8],
}

impl<'a> MemoryMap<'a> {
    /// Whether `self` is the view of `tag`: the header of the tag, the two
    /// fields in the eight bytes behind it, and as the entries the bytes from
    /// there to the end of the tag (none where the tag ends before).
    pub open spec fn is_view_of(&self, blob: Seq<u8>, tag: Tag) -> bool {
        &&& self.typ == tag.typ
        &&& self.size == tag.size
        &&& self.entry_size == le_u32(blob, tag.offset + 8)
        &&& self.entry_version == le_u32(blob, tag.offset + 12)
        &&& self.entries@ == if tag.size >= 16 {
            blob.subrange(tag.offset + 16, tag.offset + tag.size)
        } else {
            Seq::empty()
        }
    }

    /// Makes the view of `tag`.
    pub(crate) fn read(blob: &'a [u8], tag: &Tag) -> (r: MemoryMap<'a>)
        requires
            tag.offset + 16 <= blob@.len(),
            tag.offset + tag.size <= blob@.len(),
        ensures
            r.is_view_of(blob@, *tag),
    {
        assert(blob@.len() == blob.len());
        let first: usize = tag.offset + 16;
        let end: usize = if tag.size >= 16 {
            tag.offset + tag.size as usize
        } else {
            first
        };
        let entries = slice_subrange(blob, first, end);
        assert(tag.size < 16 ==> entries@ =~= Seq::<u8>::empty());
        MemoryMap {
            typ: tag.typ,
            size: tag.size,
            entry_size: read_u32(blob, tag.offset + 8),
            entry_version: read_u32(blob, tag.offset + 12),
            entries,
        }
    }

    /// The areas of the map: one for each entry that lies wholly inside the
    /// tag, in the order of the map.
    pub open spec fn areas(&self) -> Seq<MemoryArea> {
        areas_from(self.entries@, self.entry_size as int, 0)
    }

    /// Get the whole list of memory areas.
    pub fn get_mem_areas(&self) -> (r: MemoryAreaIter<'a>)
        ensures
            r@ == self.areas(),
    {
        MemoryAreaIter::new(self.entries, self.entry_size)
    }

    /// Get only the available memory areas.
    pub fn get_available_mem_areas(&self) -> (r: MemoryAreaIter<'a>)
        ensures
            r@ == available_areas(self.areas()),
    {
        self.get_mem_areas().only_available()
    }
}

/// A packed array of `n` entries of `stride` bytes each holds exactly `n`
/// areas, and the area of index `k` is the one whose fields start at
/// `k * stride`.
pub proof fn lemma_areas_of_packed_entries(entries: Seq<u8>, stride: int, n: int)
    requires
        stride >= 24,
        n >= 0,
        entries.len() == n * stride,
    ensures
        areas_from(entries, stride, 0).len() == n,
        forall|k: int|
            0 <= k < n ==> #[trigger] areas_from(entries, stride, 0)[k] == MemoryArea::at(
                entries,
                k * stride,
            ),
{
    lemma_areas_from_index(entries, stride, n, 0);
    assert(n - 0 == n);
    assert forall|k: int| 0 <= k < n implies #[trigger] areas_from(entries, stride, 0)[k]
        == MemoryArea::at(entries, k * stride) by {
        assert((0 + k) * stride == k * stride);
    }
}

/// From entry `done` on, a packed array of `n` entries holds the `n - done`
/// areas that are left, each at its place.
proof fn lemma_areas_from_index(entries: Seq<u8>, stride: int, n: int, done: int)
    requires
        stride >= 24,
        0 <= done <= n,
        entries.len() == n * stride,
    ensures
        areas_from(entries, stride, done * stride).len() == n - done,
        forall|k: int|
            0 <= k < n - done ==> #[trigger] areas_from(entries, stride, done * stride)[k]
                == MemoryArea::at(entries, (done + k) * stride),
    decreases n - done,
{
    assert(done * stride + stride == (done + 1) * stride) by (nonlinear_arith);
    assert(0 <= done * stride) by (nonlinear_arith)
        requires
            0 <= done,
            stride >= 24,
    ;
    if done < n {
        assert((done + 1) * stride <= n * stride) by (nonlinear_arith)
            requires
                done + 1 <= n,
                stride >= 24,
        ;
        lemma_areas_from_index(entries, stride, n, done + 1);
        let rest = areas_from(entries, stride, (done + 1) * stride);
        let all = areas_from(entries, stride, done * stride);
        assert(all == seq![MemoryArea::at(entries, done * stride)] + rest);
        assert forall|k: int| 0 <= k < n - done implies #[trigger] all[k] == MemoryArea::at(
            entries,
            (done + k) * stride,
        ) by {
            if k > 0 {
                assert(all[k] == rest[k - 1]);
                assert((done + 1 + (k - 1)) == done + k);
            }
        }
    } else {
        assert(done * stride + stride > n * stride);
    }
}

} // verus!
