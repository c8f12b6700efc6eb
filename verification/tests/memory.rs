use rszzy::addressing::ZOffset;
use rszzy::bytes;
use rszzy::constants::header_offset::{HIGH_MEMORY_MARK, STATIC_MEMORY_START};
use rszzy::error::ZError;
use rszzy::memory::ZMemory;
use rszzy::traits::Memory;

const FAKE_STATIC_START: usize = 0x50;
const FAKE_HIGH_START: usize = 0x200;

fn fake_image(size: usize, version: u8, static_start: u16, high_start: u16) -> Vec<u8> {
    let mut v = vec![0; size];
    bytes::byte_to_slice(&mut v, 0usize, version);
    bytes::word_to_slice(&mut v, STATIC_MEMORY_START, static_start);
    bytes::word_to_slice(&mut v, HIGH_MEMORY_MARK, high_start);
    v
}

fn fake_memory(size: usize) -> ZMemory {
    let mut v = vec![0; size];
    bytes::byte_to_slice(&mut v, 0usize, 3); // Version 3
    bytes::word_to_slice(&mut v, STATIC_MEMORY_START, FAKE_STATIC_START as u16);
    bytes::word_to_slice(&mut v, HIGH_MEMORY_MARK, FAKE_HIGH_START as u16);
    ZMemory::from_bytes(v).unwrap()
}

#[test]
fn memory_test_size() {
    let m = fake_memory(52);
    assert_eq!(52, m.memory_size());
}

#[test]
fn test_ranges() {
    let m = fake_memory(0x1000);

    assert_eq!(true, m.in_dynamic_range(0usize.into()));
    assert_eq!(true, m.in_dynamic_range((FAKE_STATIC_START - 1).into()));
    assert_eq!(false, m.in_dynamic_range(FAKE_STATIC_START.into()));

    assert_eq!(false, m.in_static_range((FAKE_STATIC_START - 1).into()));
    assert_eq!(true, m.in_static_range(FAKE_STATIC_START.into()));
    assert_eq!(true, m.in_static_range(0x1ffusize.into()));
    assert_eq!(true, m.in_static_range(0x200usize.into()));
    assert_eq!(true, m.in_static_range(0x0fffusize.into()));
    assert_eq!(false, m.in_static_range(0x1000usize.into()));
}

#[test]
fn test_read_write() {
    let mut m = fake_memory(0x1000);

    assert_eq!(0, m.read_byte_unchecked(0x34usize.into()).unwrap());
    assert!(m.write_byte_unchecked(0x34usize.into(), 87).is_ok());
    assert_eq!(87, m.read_byte_unchecked(0x34usize.into()).unwrap());
}

#[test]
fn dynamic_memory_reads_back_what_was_written() {
    let mut m = fake_memory(0x1000);
    for o in 0..FAKE_STATIC_START {
        let v = (o as u8) ^ 0xa5;
        assert_eq!(Ok(()), m.write_byte(ZOffset(o), v));
        assert_eq!(Ok(v), m.read_byte(ZOffset(o)));
    }
    // every byte is still there at the end
    for o in 0..FAKE_STATIC_START {
        assert_eq!(Ok((o as u8) ^ 0xa5), m.read_byte(ZOffset(o)));
    }
}

#[test]
fn static_memory_is_read_only() {
    let mut image = fake_image(0x1000, 3, 0x50, 0x200);
    image[0x50] = 0x11;
    image[0xfff] = 0x22;
    let mut m = ZMemory::from_bytes(image).unwrap();
    for o in [0x50usize, 0x51, 0x1ff, 0x200, 0xfff] {
        assert_eq!(Err(ZError::WriteProtected), m.write_byte(ZOffset(o), 9));
    }
    assert_eq!(Ok(0x11), m.read_byte(ZOffset(0x50)));
    assert_eq!(Ok(0x22), m.read_byte(ZOffset(0xfff)));
    assert_eq!(Ok(0), m.read_byte(ZOffset(0x200)));
}

#[test]
fn outside_the_regions_nothing_is_read_or_written() {
    let mut m = fake_memory(0x1000);
    for o in [0x1000usize, 0x1001, 0xffff, 0x1_0000, usize::MAX] {
        assert_eq!(Err(ZError::ReadOutOfBounds), m.read_byte(ZOffset(o)));
        assert_eq!(Err(ZError::WriteProtected), m.write_byte(ZOffset(o), 1));
        assert_eq!(Err(ZError::ReadOutOfBounds), m.read_word(ZOffset(o)));
    }
}

#[test]
fn static_memory_stops_at_the_sixteen_bit_limit() {
    let mut image = fake_image(0x1_0004, 3, 0x50, 0x200);
    image[0xfffe] = 0x33;
    image[0xffff] = 0x44;
    let mut m = ZMemory::from_bytes(image).unwrap();
    assert_eq!(0x1_0004, m.memory_size());
    assert!(m.in_static_range(ZOffset(0xfffe)));
    assert!(!m.in_static_range(ZOffset(0xffff)));
    assert_eq!(Ok(0x33), m.read_byte(ZOffset(0xfffe)));
    assert_eq!(Err(ZError::ReadOutOfBounds), m.read_byte(ZOffset(0xffff)));
    // unchecked access reaches the whole story and no further
    assert_eq!(Ok(0x44), m.read_byte_unchecked(ZOffset(0xffff)));
    assert_eq!(Ok(()), m.write_byte_unchecked(ZOffset(0x1_0003), 0x55));
    assert_eq!(Ok(0x55), m.read_byte_unchecked(ZOffset(0x1_0003)));
    assert_eq!(
        Err(ZError::ReadOutOfBounds),
        m.read_byte_unchecked(ZOffset(0x1_0004))
    );
    assert_eq!(
        Err(ZError::WriteOutOfBounds),
        m.write_byte_unchecked(ZOffset(0x1_0004), 1)
    );
}

#[test]
fn story_shorter_than_its_dynamic_memory() {
    // 52 bytes, of which the header says that the first 80 are dynamic
    let mut m = fake_memory(52);
    assert!(m.in_dynamic_range(ZOffset(60)));
    assert!(!m.in_static_range(ZOffset(60)));
    assert!(!m.in_static_range(ZOffset(0x50)));
    assert_eq!(Ok(()), m.write_byte(ZOffset(51), 7));
    assert_eq!(Ok(7), m.read_byte(ZOffset(51)));
    assert_eq!(Err(ZError::WriteOutOfBounds), m.write_byte(ZOffset(52), 7));
    assert_eq!(Err(ZError::ReadOutOfBounds), m.read_byte(ZOffset(52)));
    assert_eq!(Err(ZError::WriteOutOfBounds), m.write_byte(ZOffset(60), 7));
    assert_eq!(Err(ZError::ReadOutOfBounds), m.read_byte(ZOffset(60)));
}

#[test]
fn words_are_big_endian() {
    let mut m = fake_memory(0x1000);
    assert_eq!(Ok(0x0050), m.read_word(ZOffset(STATIC_MEMORY_START)));
    assert_eq!(Ok(0x0200), m.read_word(ZOffset(HIGH_MEMORY_MARK)));
    assert_eq!(Ok(()), m.write_word(ZOffset(0x20), 0xabcd));
    assert_eq!(Ok(0xab), m.read_byte(ZOffset(0x20)));
    assert_eq!(Ok(0xcd), m.read_byte(ZOffset(0x21)));
    assert_eq!(Ok(0xabcd), m.read_word(ZOffset(0x20)));
    assert_eq!(Ok(0xcd00), m.read_word(ZOffset(0x21)));
}

#[test]
fn word_at_the_edge_of_dynamic_memory_is_half_written() {
    let mut m = fake_memory(0x1000);
    // the low byte would land in static memory
    assert_eq!(Err(ZError::WriteProtected), m.write_word(ZOffset(0x4f), 0xabcd));
    assert_eq!(Ok(0xab), m.read_byte(ZOffset(0x4f)));
    assert_eq!(Ok(0), m.read_byte(ZOffset(0x50)));
    // reading across the edge is fine
    assert_eq!(Ok(0xab00), m.read_word(ZOffset(0x4f)));
    // a word wholly in static memory is not written at all
    assert_eq!(Err(ZError::WriteProtected), m.write_word(ZOffset(0x50), 0xabcd));
    assert_eq!(Ok(0), m.read_word(ZOffset(0x50)));
    // the last byte of the story has no byte after it
    assert_eq!(Err(ZError::ReadOutOfBounds), m.read_word(ZOffset(0xfff)));
}

#[test]
fn slices_run_to_the_end_of_the_story() {
    let mut image = fake_image(0x100, 5, 0x40, 0x40);
    image[0xfe] = 1;
    image[0xff] = 2;
    let m = ZMemory::from_bytes(image.clone()).unwrap();
    assert_eq!(&image[..], m.slice_at(ZOffset(0)).unwrap());
    assert_eq!(&[1u8, 2][..], m.slice_at(ZOffset(0xfe)).unwrap());
    assert_eq!(&[0u8; 0][..], m.slice_at(ZOffset(0x100)).unwrap());
    assert_eq!(Err(ZError::SliceOutOfBounds), m.slice_at(ZOffset(0x101)));
    assert_eq!(Err(ZError::SliceOutOfBounds), m.slice_at(ZOffset(usize::MAX)));
}

#[test]
fn loading_checks_the_header_in_order() {
    let load = |image: Vec<u8>| ZMemory::from_bytes(image).err();

    assert_eq!(Some(ZError::ReadOutOfBounds), load(vec![]));
    assert_eq!(Some(ZError::UnsupportedVersion), load(vec![4]));
    assert_eq!(
        Some(ZError::UnsupportedVersion),
        load(fake_image(0x1000, 1, 0x50, 0x200))
    );
    // an unsupported version comes before everything else
    assert_eq!(
        Some(ZError::UnsupportedVersion),
        load(fake_image(0x1000, 6, 0x10, 0x200))
    );
    assert_eq!(Some(ZError::ReadOutOfBounds), load(vec![3]));
    assert_eq!(
        Some(ZError::ReadOutOfBounds),
        load(fake_image(16, 3, 0x50, 0x200)[..15].to_vec())
    );
    assert_eq!(None, load(fake_image(16, 3, 0x50, 0x200)));

    assert_eq!(None, load(fake_image(128 * 1024, 3, 0x50, 0x200)));
    assert_eq!(
        Some(ZError::StoryTooLong),
        load(fake_image(128 * 1024 + 1, 3, 0x50, 0x200))
    );
    assert_eq!(None, load(fake_image(256 * 1024, 5, 0x50, 0x200)));
    assert_eq!(
        Some(ZError::StoryTooLong),
        load(fake_image(256 * 1024 + 1, 5, 0x50, 0x200))
    );
    // too long comes before too small
    assert_eq!(
        Some(ZError::StoryTooLong),
        load(fake_image(128 * 1024 + 1, 3, 0x10, 0x200))
    );

    assert_eq!(
        Some(ZError::DynamicMemoryTooSmall),
        load(fake_image(0x1000, 3, 63, 0x200))
    );
    assert_eq!(
        Some(ZError::DynamicMemoryTooSmall),
        load(fake_image(0x1000, 5, 0, 0))
    );
    assert_eq!(None, load(fake_image(0x1000, 3, 64, 0x200)));

    assert_eq!(
        Some(ZError::OverlappingRegions),
        load(fake_image(0x1000, 3, 0x50, 0x4f))
    );
    // high memory may begin right where dynamic memory ends
    assert_eq!(None, load(fake_image(0x1000, 3, 0x50, 0x50)));
    // too small comes before overlapping
    assert_eq!(
        Some(ZError::DynamicMemoryTooSmall),
        load(fake_image(0x1000, 3, 0x20, 0x10))
    );
}

#[test]
fn memory_remembers_what_the_header_said() {
    let mut m = ZMemory::from_bytes(fake_image(0x1000, 5, 0x50, 0x200)).unwrap();
    assert_eq!(5, m.version().version_number);
    assert_eq!(4, m.version().packed_multiplier);
    assert_eq!(0x50, usize::from(m.static_memory_start()));
    assert_eq!(0x200, usize::from(m.high_memory_start()));
    // the header lies in dynamic memory, and writing to it changes no shape
    assert_eq!(Ok(()), m.write_byte(ZOffset(0), 3));
    assert_eq!(Ok(()), m.write_word(ZOffset(STATIC_MEMORY_START), 0x10));
    assert_eq!(Ok(()), m.write_word(ZOffset(HIGH_MEMORY_MARK), 0));
    assert_eq!(5, m.version().version_number);
    assert_eq!(0x50, usize::from(m.static_memory_start()));
    assert_eq!(0x200, usize::from(m.high_memory_start()));
    assert!(m.in_dynamic_range(ZOffset(0x4f)));
    assert!(m.in_static_range(ZOffset(0x50)));
}
