use early_boot::multiboot::basic_mem_info::BasicMemoryInformation;
use early_boot::multiboot::elf_symbols::ElfSymbols;
use early_boot::multiboot::tags::{Tag, TagIter, TagType};
use early_boot::multiboot::{load, MbiErr};

const ADDR: usize = 0x10_0000;

/// A blob with the given tags (type code and payload) and the terminator.
fn blob_of(tags: &[(u32, Vec<u8>)]) -> Vec<u8> {
    let mut b: Vec<u8> = vec![0; 8];
    for (code, payload) in tags {
        let size = 8 + payload.len() as u32;
        b.extend_from_slice(&code.to_le_bytes());
        b.extend_from_slice(&size.to_le_bytes());
        b.extend_from_slice(payload);
        while b.len() % 8 != 0 {
            b.push(0xAA);
        }
    }
    b.extend_from_slice(&0u32.to_le_bytes());
    b.extend_from_slice(&8u32.to_le_bytes());
    let total = b.len() as u32;
    b[0..4].copy_from_slice(&total.to_le_bytes());
    b
}

fn all_tags(mut it: TagIter) -> Vec<Tag> {
    let mut v = Vec::new();
    while let Some(t) = it.next() {
        v.push(t);
    }
    v
}

#[test]
fn load_rejects_null_address() {
    let b = blob_of(&[]);
    assert_eq!(load(0, &b).err(), Some(MbiErr::AddressError));
}

#[test]
fn load_rejects_misaligned_address() {
    let b = blob_of(&[]);
    assert_eq!(load(ADDR + 4, &b).err(), Some(MbiErr::AddressError));
    assert_eq!(load(ADDR + 1, &b).err(), Some(MbiErr::AddressError));
    assert_eq!(load(7, &b).err(), Some(MbiErr::AddressError));
}

#[test]
fn load_checks_address_before_size() {
    let mut b = blob_of(&[]);
    b[0] = 17;
    assert_eq!(load(0, &b).err(), Some(MbiErr::AddressError));
    assert_eq!(load(ADDR, &b).err(), Some(MbiErr::SizeError));
}

#[test]
fn load_rejects_size_not_multiple_of_8() {
    for extra in 1..8u32 {
        let mut b = blob_of(&[(4, vec![0; 8])]);
        let total = b.len() as u32 - 8 + extra;
        b[0..4].copy_from_slice(&total.to_le_bytes());
        assert_eq!(load(ADDR, &b).err(), Some(MbiErr::SizeError));
    }
}

#[test]
fn load_rejects_memory_without_header() {
    assert_eq!(load(ADDR, &[]).err(), Some(MbiErr::SizeError));
    assert_eq!(load(ADDR, &[16, 0, 0, 0, 0, 0, 0]).err(), Some(MbiErr::SizeError));
}

#[test]
fn load_checks_size_before_end_tag() {
    let mut b = blob_of(&[]);
    let n = b.len();
    b[n - 4] = 9;
    b[0] = 15;
    assert_eq!(load(ADDR, &b).err(), Some(MbiErr::SizeError));
}

#[test]
fn load_rejects_missing_terminator() {
    // the tags in front are as they should be
    let mut b = blob_of(&[(4, vec![1, 0, 0, 0, 2, 0, 0, 0]), (2, b"GRUB\0".to_vec())]);
    let n = b.len();
    b[n - 4] = 16;
    assert_eq!(load(ADDR, &b).err(), Some(MbiErr::EndTagError));
    b[n - 4] = 8;
    assert!(load(ADDR, &b).is_ok());
    b[n - 8] = 1;
    assert_eq!(load(ADDR, &b).err(), Some(MbiErr::EndTagError));
}

#[test]
fn load_rejects_terminator_in_the_wrong_place() {
    // the terminator lies 8 bytes in front of where the total size puts it
    let mut b = blob_of(&[]);
    b.extend_from_slice(&[0xFF; 8]);
    let total = b.len() as u32;
    b[0..4].copy_from_slice(&total.to_le_bytes());
    assert_eq!(load(ADDR, &b).err(), Some(MbiErr::EndTagError));
}

#[test]
fn load_rejects_total_size_without_room_for_terminator() {
    let mut b = vec![0u8; 16];
    assert_eq!(load(ADDR, &b).err(), Some(MbiErr::EndTagError));
    b[0] = 8;
    assert_eq!(load(ADDR, &b).err(), Some(MbiErr::EndTagError));
}

#[test]
fn load_rejects_total_size_beyond_memory() {
    let mut b = blob_of(&[]);
    b[0] = 24;
    assert_eq!(load(ADDR, &b).err(), Some(MbiErr::EndTagError));
}

#[test]
fn load_accepts_smallest_blob() {
    let b = blob_of(&[]);
    assert_eq!(b.len(), 16);
    let mbi = load(ADDR, &b).unwrap();
    assert_eq!(mbi.get_start(), ADDR);
    assert!(mbi.is_end_tag_valid());
    assert!(mbi.get_tags().next().is_none());
}

#[test]
fn load_ignores_memory_behind_the_blob() {
    let mut b = blob_of(&[(4, vec![0; 8])]);
    // what looks like one more tag lies behind the terminator
    b.extend_from_slice(&[2, 0, 0, 0, 9, 0, 0, 0, 65, 0, 0, 0, 0, 0, 0, 0]);
    b.extend_from_slice(&[0, 0, 0, 0, 8, 0, 0, 0]);
    let mbi = load(ADDR, &b).unwrap();
    let tags = all_tags(mbi.get_tags());
    assert_eq!(tags.len(), 1);
    assert!(mbi.get_bootloader_name().is_none());
}

#[test]
fn decoder_yields_tags_in_stream_order_without_terminator() {
    let b = blob_of(&[
        (4, vec![0; 8]),
        (2, b"GRUB\0".to_vec()),
        (6, vec![24, 0, 0, 0, 0, 0, 0, 0]),
        (9, vec![0; 12]),
    ]);
    let mbi = load(ADDR, &b).unwrap();
    let tags = all_tags(mbi.get_tags());
    assert_eq!(
        tags,
        vec![
            Tag { typ: TagType::BasicMemoryInfo, size: 16, offset: 8 },
            Tag { typ: TagType::BootLoaderName, size: 13, offset: 24 },
            Tag { typ: TagType::MemoryMap, size: 16, offset: 40 },
            Tag { typ: TagType::ElfSymbols, size: 20, offset: 56 },
        ]
    );
    assert_eq!(b.len(), 56 + 24 + 8);
}

#[test]
fn decoder_rounds_sizes_up_to_multiples_of_8() {
    for extra in 0..=8usize {
        let b = blob_of(&[(1, vec![7; extra]), (3, vec![])]);
        let mbi = load(ADDR, &b).unwrap();
        let tags = all_tags(mbi.get_tags());
        assert_eq!(tags.len(), 2);
        let first = Tag { typ: TagType::BootCommandLine, size: 8 + extra as u32, offset: 8 };
        assert_eq!(tags[0], first);
        let second = if extra == 0 { 16 } else { 24 };
        assert_eq!(tags[1], Tag { typ: TagType::Modules, size: 8, offset: second });
    }
}

#[test]
fn decoder_keeps_unknown_type_codes() {
    let b = blob_of(&[(22, vec![]), (0xDEAD_BEEF, vec![1, 2, 3]), (21, vec![])]);
    let mbi = load(ADDR, &b).unwrap();
    let tags = all_tags(mbi.get_tags());
    assert_eq!(tags.len(), 3);
    assert_eq!(tags[0].typ, TagType::Unknown(22));
    assert_eq!(tags[1].typ, TagType::Unknown(0xDEAD_BEEF));
    assert_eq!(tags[1].size, 11);
    assert_eq!(tags[2].typ, TagType::ImageLoadBasePhysAddr);
}

#[test]
fn decoder_yields_end_tag_of_other_size() {
    // type code 0 with a size that is not 8 is a tag like any other
    let b = blob_of(&[(0, vec![0; 8]), (4, vec![0; 8])]);
    let mbi = load(ADDR, &b).unwrap();
    let tags = all_tags(mbi.get_tags());
    assert_eq!(tags.len(), 2);
    assert_eq!(tags[0], Tag { typ: TagType::End, size: 16, offset: 8 });
    let end = mbi.get_end_tag().unwrap();
    assert_eq!(end.typ, TagType::End);
    assert_eq!(end.size, 16);
}

#[test]
fn decoder_stops_at_terminator_inside_the_blob() {
    let mut b = blob_of(&[(4, vec![0; 8])]);
    let inner = blob_of(&[(2, b"x\0".to_vec())]);
    // append: a terminator is already there, then one more tag and terminator
    b.extend_from_slice(&inner[8..]);
    let total = b.len() as u32;
    b[0..4].copy_from_slice(&total.to_le_bytes());
    let mbi = load(ADDR, &b).unwrap();
    let tags = all_tags(mbi.get_tags());
    assert_eq!(tags.len(), 1);
    assert!(mbi.get_bootloader_name().is_none());
}

#[test]
fn decoder_stops_at_record_with_size_below_8() {
    let mut b = blob_of(&[(4, vec![0; 8]), (5, vec![0; 8]), (2, b"a\0".to_vec())]);
    // second tag: size 0
    b[24 + 4] = 0;
    let mbi = load(ADDR, &b).unwrap();
    let tags = all_tags(mbi.get_tags());
    assert_eq!(tags.len(), 1);
    assert_eq!(tags[0].typ, TagType::BasicMemoryInfo);
    assert!(mbi.get_tag(TagType::BootLoaderName).is_none());
}

#[test]
fn decoder_stops_at_tag_that_runs_over_the_terminator() {
    let mut b = blob_of(&[(4, vec![0; 8]), (5, vec![0; 8])]);
    // second tag claims 17 bytes: padded, it would cover the terminator
    b[24 + 4] = 17;
    let mbi = load(ADDR, &b).unwrap();
    assert_eq!(all_tags(mbi.get_tags()).len(), 1);
    b[24 + 4] = 16;
    let mbi = load(ADDR, &b).unwrap();
    assert_eq!(all_tags(mbi.get_tags()).len(), 2);
    // a size near the top of 32 bits
    b[24 + 4..24 + 8].copy_from_slice(&0xFFFF_FFFFu32.to_le_bytes());
    let mbi = load(ADDR, &b).unwrap();
    assert_eq!(all_tags(mbi.get_tags()).len(), 1);
}

#[test]
fn decoder_can_be_restarted() {
    let b = blob_of(&[(4, vec![0; 8]), (2, b"GRUB\0".to_vec())]);
    let mbi = load(ADDR, &b).unwrap();
    let mut it = mbi.get_tags();
    let first = it.next().unwrap();
    let copy = it;
    let second = it.next().unwrap();
    assert!(it.next().is_none());
    assert!(it.next().is_none());
    assert_eq!(all_tags(copy), vec![second]);
    assert_eq!(all_tags(mbi.get_tags()), vec![first, second]);
}

#[test]
fn tag_iter_from_an_offset() {
    let b = blob_of(&[(4, vec![0; 8]), (2, b"GRUB\0".to_vec())]);
    assert_eq!(all_tags(TagIter::new(&b, 8)).len(), 2);
    assert_eq!(all_tags(TagIter::new(&b, 24)).len(), 1);
    assert_eq!(all_tags(TagIter::new(&b, 40)).len(), 0);
    assert_eq!(all_tags(TagIter::new(&b, 48)).len(), 0);
    assert_eq!(all_tags(TagIter::new(&b, usize::MAX)).len(), 0);
    assert_eq!(all_tags(TagIter::new(&[], 0)).len(), 0);
}

#[test]
fn get_tag_finds_first_of_repeated_type() {
    let b = blob_of(&[
        (4, vec![1, 0, 0, 0, 2, 0, 0, 0]),
        (2, b"first\0".to_vec()),
        (4, vec![3, 0, 0, 0, 4, 0, 0, 0]),
        (2, b"second\0".to_vec()),
    ]);
    let mbi = load(ADDR, &b).unwrap();
    assert_eq!(
        mbi.get_tag(TagType::BootLoaderName),
        Some(Tag { typ: TagType::BootLoaderName, size: 14, offset: 24 })
    );
    assert_eq!(
        mbi.get_tag(TagType::BasicMemoryInfo),
        Some(Tag { typ: TagType::BasicMemoryInfo, size: 16, offset: 8 })
    );
    assert_eq!(mbi.get_bootloader_name().unwrap().name(), Some("first"));
    assert_eq!(mbi.get_basic_mem_info().unwrap().mem_lower, 1);
}

#[test]
fn get_tag_of_absent_type_is_none() {
    let b = blob_of(&[(4, vec![0; 8])]);
    let mbi = load(ADDR, &b).unwrap();
    assert_eq!(mbi.get_tag(TagType::ElfSymbols), None);
    assert_eq!(mbi.get_tag(TagType::End), None);
    assert_eq!(mbi.get_tag(TagType::Unknown(4)), None);
    assert!(mbi.get_bootloader_name().is_none());
    assert!(mbi.get_memory_map().is_none());
    assert!(mbi.get_elf_sections().is_none());
    assert!(mbi.get_end_tag().is_none());
    let empty = blob_of(&[]);
    let mbi = load(ADDR, &empty).unwrap();
    assert!(mbi.get_basic_mem_info().is_none());
}

#[test]
fn tag_type_codes() {
    assert_eq!(TagType::from_code(0), TagType::End);
    assert_eq!(TagType::from_code(2), TagType::BootLoaderName);
    assert_eq!(TagType::from_code(4), TagType::BasicMemoryInfo);
    assert_eq!(TagType::from_code(6), TagType::MemoryMap);
    assert_eq!(TagType::from_code(9), TagType::ElfSymbols);
    assert_eq!(TagType::from_code(21), TagType::ImageLoadBasePhysAddr);
    assert_eq!(TagType::from_code(22), TagType::Unknown(22));
    for code in 0..40u32 {
        assert_eq!(TagType::from_code(code).code(), code);
    }
    assert_eq!(TagType::from_code(u32::MAX).code(), u32::MAX);
}

#[test]
fn bootloader_name_grub() {
    let b = blob_of(&[(2, b"GRUB\0".to_vec())]);
    let mbi = load(ADDR, &b).unwrap();
    let view = mbi.get_bootloader_name().unwrap();
    assert_eq!(view.typ, TagType::BootLoaderName);
    assert_eq!(view.size, 13);
    assert_eq!(view.string, b"GRUB\0");
    assert_eq!(view.name_bytes(), b"GRUB");
    let name = view.name().unwrap();
    assert_eq!(name, "GRUB");
    assert_eq!(name.len(), 4);
}

#[test]
fn bootloader_name_stops_at_first_zero() {
    let b = blob_of(&[(2, b"GRUB 2\0junk\0\0".to_vec())]);
    let mbi = load(ADDR, &b).unwrap();
    assert_eq!(mbi.get_bootloader_name().unwrap().name(), Some("GRUB 2"));
}

#[test]
fn bootloader_name_without_zero_is_whole_payload() {
    let b = blob_of(&[(2, b"limine".to_vec())]);
    let mbi = load(ADDR, &b).unwrap();
    let view = mbi.get_bootloader_name().unwrap();
    assert_eq!(view.size, 14);
    assert_eq!(view.name(), Some("limine"));
}

#[test]
fn bootloader_name_empty() {
    let b = blob_of(&[(2, vec![])]);
    let mbi = load(ADDR, &b).unwrap();
    let view = mbi.get_bootloader_name().unwrap();
    assert_eq!(view.string.len(), 0);
    assert_eq!(view.name(), Some(""));
    let b = blob_of(&[(2, vec![0, 65])]);
    let mbi = load(ADDR, &b).unwrap();
    assert_eq!(mbi.get_bootloader_name().unwrap().name(), Some(""));
}

#[test]
fn bootloader_name_utf8() {
    let b = blob_of(&[(2, "démarreur ✓\0".as_bytes().to_vec())]);
    let mbi = load(ADDR, &b).unwrap();
    let name = mbi.get_bootloader_name().unwrap().name().unwrap();
    assert_eq!(name, "démarreur ✓");
    assert_eq!(name.chars().count(), 11);
}

#[test]
fn bootloader_name_invalid_utf8_is_none() {
    let b = blob_of(&[(2, vec![b'G', 0xFF, b'R', 0])]);
    let mbi = load(ADDR, &b).unwrap();
    let view = mbi.get_bootloader_name().unwrap();
    assert_eq!(view.name_bytes(), &[b'G', 0xFF, b'R']);
    assert_eq!(view.name(), None);
    // a sequence cut off by the terminating zero
    let b = blob_of(&[(2, vec![0xC3, 0])]);
    let mbi = load(ADDR, &b).unwrap();
    assert_eq!(mbi.get_bootloader_name().unwrap().name(), None);
}

#[test]
fn basic_mem_info_fields() {
    let mut payload = Vec::new();
    payload.extend_from_slice(&640u32.to_le_bytes());
    payload.extend_from_slice(&0x0102_0304u32.to_le_bytes());
    let b = blob_of(&[(2, b"GRUB\0".to_vec()), (4, payload)]);
    let mbi = load(ADDR, &b).unwrap();
    assert_eq!(
        mbi.get_basic_mem_info(),
        Some(BasicMemoryInformation {
            typ: TagType::BasicMemoryInfo,
            size: 16,
            mem_lower: 640,
            mem_upper: 0x0102_0304,
        })
    );
}

#[test]
fn elf_symbols_fields() {
    let mut payload = Vec::new();
    payload.extend_from_slice(&0x0201u16.to_le_bytes());
    payload.extend_from_slice(&64u16.to_le_bytes());
    payload.extend_from_slice(&0xFFEEu16.to_le_bytes());
    payload.extend_from_slice(&7u16.to_le_bytes());
    payload.extend_from_slice(&[9; 64]);
    let b = blob_of(&[(9, payload)]);
    let mbi = load(ADDR, &b).unwrap();
    assert_eq!(
        mbi.get_elf_sections(),
        Some(ElfSymbols {
            typ: TagType::ElfSymbols,
            size: 80,
            num: 0x0201,
            entsize: 64,
            shndx: 0xFFEE,
            reserved: 7,
        })
    );
}

#[test]
fn fixed_fields_of_a_tag_that_is_too_short() {
    // a basic memory information tag of 8 bytes: the fields are read from
    // what follows it, here the terminator
    let b = blob_of(&[(4, vec![])]);
    let mbi = load(ADDR, &b).unwrap();
    let info = mbi.get_basic_mem_info().unwrap();
    assert_eq!(info.size, 8);
    assert_eq!(info.mem_lower, 0);
    assert_eq!(info.mem_upper, 8);
}

#[test]
fn header_fields() {
    let mut b = blob_of(&[(4, vec![0; 8])]);
    b[4..8].copy_from_slice(&0x0403_0201u32.to_le_bytes());
    let mbi = load(ADDR, &b).unwrap();
    assert_eq!(mbi.total_size(), 32);
    // the reserved field should be 0, but nobody checks it
    assert_eq!(mbi.reserved(), 0x0403_0201);
    assert_eq!(mbi.get_start(), ADDR);
    let b = blob_of(&[]);
    let mbi = load(8, &b).unwrap();
    assert_eq!(mbi.total_size(), 16);
    assert_eq!(mbi.reserved(), 0);
    assert_eq!(mbi.get_start(), 8);
}
