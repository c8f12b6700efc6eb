use rszzy::addressing::{ByteAddress, PackedAddress, WordAddress, ZOffset};
use rszzy::versions::number_to_version;

#[test]
fn test_zoffset() {
    assert_eq!(32, usize::from(ZOffset::from(32usize)));
    assert_eq!(55, usize::from(ZOffset::from(50usize) + 5usize));
    assert_eq!("ZO:88", ZOffset(88).to_string());
}

#[test]
fn test_byte_address() {
    assert_eq!(22, usize::from(ZOffset::from(ByteAddress(22))));
}

#[test]
fn test_word_address() {
    assert_eq!(44, usize::from(ZOffset::from(WordAddress(22))));
}

#[test]
fn test_packed_address() {
    let v3 = number_to_version(3).unwrap();
    assert_eq!(44, usize::from(PackedAddress(22).routine_offset(&v3)));
    assert_eq!(44, usize::from(PackedAddress(22).string_offset(&v3)));

    let v5 = number_to_version(5).unwrap();
    assert_eq!(88, usize::from(PackedAddress(22).routine_offset(&v5)));
    assert_eq!(88, usize::from(PackedAddress(22).string_offset(&v5)));
}

#[test]
fn offset_addition_takes_every_address_kind() {
    let base = ZOffset::from(0x100usize);
    assert_eq!(0x100 + 7, usize::from(base + 7u16));
    assert_eq!(0x100 + 22, usize::from(base + ByteAddress::raw(22)));
    assert_eq!(0x100 + 44, usize::from(base + WordAddress::from(22u16)));
    assert_eq!(0x100 + 1, usize::from(base + ZOffset::from(1usize)));
}

#[test]
fn offset_checked_add_reports_overflow() {
    assert_eq!(Some(12), ZOffset(10).checked_add(2).map(usize::from));
    assert!(ZOffset(usize::MAX).checked_add(1).is_none());
    assert_eq!(Some(usize::MAX), ZOffset(usize::MAX).checked_add(0).map(usize::from));
}

#[test]
fn offset_display_is_decimal() {
    assert_eq!("ZO:0", ZOffset::default().to_string());
    assert_eq!("ZO:7", ZOffset(7).to_string());
    assert_eq!("ZO:10", ZOffset(10).to_string());
    assert_eq!("ZO:65535", ZOffset::from(0xffffu16).to_string());
    assert_eq!("ZO:1234567890", ZOffset(1234567890).to_string());
    assert_eq!(format!("ZO:{}", usize::MAX), ZOffset(usize::MAX).to_string());
    for n in [9usize, 99, 100, 101, 999, 1000, 4096, 9999, 10000] {
        assert_eq!(format!("ZO:{}", n), ZOffset(n).to_string());
    }
}

#[test]
fn word_address_doubles_without_wrapping() {
    assert_eq!(0x1_fffe, usize::from(ZOffset::from(WordAddress(0xffff))));
    assert_eq!(0, usize::from(ZOffset::from(WordAddress(0))));
}

#[test]
fn packed_address_scales_without_wrapping() {
    let v3 = number_to_version(3).unwrap();
    let v5 = number_to_version(5).unwrap();
    assert_eq!(0x1_fffe, usize::from(PackedAddress::raw(0xffff).routine_offset(&v3)));
    assert_eq!(0x3_fffc, usize::from(PackedAddress::raw(0xffff).string_offset(&v5)));
    assert_eq!(0, usize::from(PackedAddress::raw(0).string_offset(&v5)));
}
