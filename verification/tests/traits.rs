use rszzy::addressing::ZOffset;
use rszzy::error::ZError;
use rszzy::model::memory::MemoryView;
use rszzy::traits::Memory;

struct TestMemory(Vec<u8>);

impl Default for TestMemory {
    fn default() -> TestMemory {
        TestMemory((0..100).into_iter().map(|v| v * 2).collect::<Vec<_>>())
    }
}

impl Memory for TestMemory {
    // The three ghost items of the trait: nothing that runs calls them.
    fn model(&self) -> MemoryView {
        unreachable!()
    }

    fn wf(&self) -> bool {
        unreachable!()
    }

    fn lemma_model_wf(&self) {
        unreachable!()
    }

    fn memory_size(&self) -> usize {
        100
    }

    fn in_dynamic_range(&self, idx: ZOffset) -> bool {
        (0..10).contains(&usize::from(idx))
    }

    fn in_static_range(&self, idx: ZOffset) -> bool {
        (10..20).contains(&usize::from(idx))
    }

    fn read_byte_unchecked(&self, offset: ZOffset) -> Result<u8, ZError> {
        Ok(self.0[usize::from(offset)])
    }

    fn write_byte_unchecked(&mut self, offset: ZOffset, val: u8) -> Result<(), ZError> {
        self.0[usize::from(offset)] = val;
        Ok(())
    }

    fn slice_at(&self, offset: ZOffset) -> Result<&[u8], ZError> {
        Ok(&self.0[usize::from(offset)..])
    }
}

#[test]
fn traits_test_size() {
    assert_eq!(100, TestMemory::default().memory_size())
}

#[test]
fn test_unchecked() {
    let mut m = TestMemory::default();
    assert_eq!(10, m.read_byte_unchecked(ZOffset(5)).unwrap());
    assert_eq!(30, m.read_byte_unchecked(ZOffset(15)).unwrap());
    assert_eq!(50, m.read_byte_unchecked(ZOffset(25)).unwrap());

    assert!(true);
    assert!(m.write_byte_unchecked(ZOffset(5), 33).is_ok());
    assert!(m.write_byte_unchecked(ZOffset(15), 34).is_ok());
    assert!(m.write_byte_unchecked(ZOffset(25), 35).is_ok());

    assert_eq!(33, m.read_byte_unchecked(ZOffset(5)).unwrap());
    assert_eq!(34, m.read_byte_unchecked(ZOffset(15)).unwrap());
    assert_eq!(35, m.read_byte_unchecked(ZOffset(25)).unwrap());
}

#[test]
fn test_checked() {
    let mut m = TestMemory::default();
    assert_eq!(10, m.read_byte(ZOffset(5)).unwrap());
    assert_eq!(30, m.read_byte(ZOffset(15)).unwrap());

    // cannot read from high memory
    assert!(m.read_byte(ZOffset(25)).is_err());

    assert!(true);
    assert!(m.write_byte(ZOffset(5), 33).is_ok());

    // cannot write to static or high memory
    assert!(m.write_byte(ZOffset(15), 34).is_err());
    assert!(m.write_byte(ZOffset(25), 35).is_err());

    assert_eq!(33, m.read_byte(ZOffset(5)).unwrap());

    // these values should be unchanged
    assert_eq!(30, m.read_byte_unchecked(ZOffset(15)).unwrap());
    assert_eq!(50, m.read_byte_unchecked(ZOffset(25)).unwrap());
}

#[test]
fn words_compose_two_checked_bytes() {
    let mut m = TestMemory::default();
    // bytes 4 and 5 hold 8 and 10
    assert_eq!(Ok(0x080a), m.read_word(ZOffset(4)));
    assert_eq!(Ok(0x080a), m.read_word(ZOffset::from(4usize)));
    assert_eq!(Ok(0x080a), m.read_word(ZOffset::from(4u16)));
    // the word that starts at the last readable byte has no second byte
    assert_eq!(Err(ZError::ReadOutOfBounds), m.read_word(ZOffset(19)));
    assert_eq!(Err(ZError::ReadOutOfBounds), m.read_word(ZOffset(usize::MAX)));

    assert_eq!(Ok(()), m.write_word(ZOffset(8), 0x1234));
    assert_eq!(Ok(0x1234), m.read_word(ZOffset(8)));
    // the high byte lands in dynamic memory, the low byte is refused
    assert_eq!(Err(ZError::WriteProtected), m.write_word(ZOffset(9), 0x5678));
    assert_eq!(Ok(0x56), m.read_byte(ZOffset(9)));
    assert_eq!(Ok(20), m.read_byte(ZOffset(10)));
    assert_eq!(Err(ZError::WriteProtected), m.write_word(ZOffset(usize::MAX), 1));
}

#[test]
fn slice_of_a_double() {
    let m = TestMemory::default();
    assert_eq!(&[196u8, 198][..], m.slice_at(ZOffset(98)).unwrap());
}
