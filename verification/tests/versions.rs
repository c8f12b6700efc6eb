use rszzy::error::ZError;
use rszzy::versions::number_to_version;

#[test]
fn implemented_versions_have_their_constants() {
    let v3 = number_to_version(3).unwrap();
    assert_eq!(3, v3.version_number);
    assert_eq!(128 * 1024, v3.max_story_len);
    assert_eq!(2, v3.packed_multiplier);

    let v5 = number_to_version(5).unwrap();
    assert_eq!(5, v5.version_number);
    assert_eq!(256 * 1024, v5.max_story_len);
    assert_eq!(4, v5.packed_multiplier);
}

#[test]
fn other_versions_are_unsupported() {
    for number in 0..=255u8 {
        if number != 3 && number != 5 {
            assert_eq!(Err(ZError::UnsupportedVersion), number_to_version(number));
        }
    }
}

#[test]
fn versions_display_their_number() {
    assert_eq!("Version 3", number_to_version(3).unwrap().to_string());
    assert_eq!("Version 5", number_to_version(5).unwrap().to_string());
}
