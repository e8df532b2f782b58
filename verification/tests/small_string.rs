use nova_vm::small_string::SmallString;

#[test]
fn valid_stack_strings() {
    assert!(SmallString::try_from("").is_ok());
    assert_eq!(SmallString::try_from("").unwrap().len(), 0);
    assert!(SmallString::try_from("asd").is_ok());
    assert_eq!(SmallString::try_from("asd").unwrap().len(), 3);
    assert!(SmallString::try_from("asdasd").is_ok());
    assert_eq!(SmallString::try_from("asdasd").unwrap().len(), 6);
    assert!(SmallString::try_from("asdasda").is_ok());
    assert_eq!(SmallString::try_from("asdasda").unwrap().len(), 7);
    assert!(SmallString::try_from("asd76fd").is_ok());
    assert_eq!(SmallString::try_from("asd76fd").unwrap().len(), 7);
    assert!(SmallString::try_from("💩").is_ok());
    assert_eq!(SmallString::try_from("💩 ").unwrap().len(), 5);
    assert!(SmallString::try_from("asd\0foo").is_ok());
    assert_eq!(SmallString::try_from("asd\0foo").unwrap().len(), 7);
    assert!(SmallString::try_from("asdfoo\0").is_ok());
    assert_eq!(SmallString::try_from("asdfoo\0").unwrap().len(), 7);
}

#[test]
fn not_valid_stack_strings() {
    assert!(SmallString::try_from("asd asd r 547 gdfg").is_err());
}

#[test]
fn round_trip_through_str() {
    for s in ["", "a", "asd", "asdasda", "💩", "💩 a", "é", "日本", "a\0b"] {
        let small = SmallString::try_from(s).unwrap();
        assert_eq!(small.as_str(), s);
        assert_eq!(small.as_bytes(), s.as_bytes());
        assert_eq!(small.len(), s.len());
        assert_eq!(small.is_empty(), s.is_empty());
    }
}

#[test]
fn padding_is_0xff() {
    let small = SmallString::try_from("ab").unwrap();
    assert_eq!(small.data(), &[b'a', b'b', 0xFF, 0xFF, 0xFF, 0xFF, 0xFF]);
    assert_eq!(SmallString::empty().data(), &[0xFF; 7]);
    assert!(SmallString::empty().is_empty());
}

#[test]
fn ascii_is_told_apart() {
    assert!(SmallString::try_from("").unwrap().is_ascii());
    assert!(SmallString::try_from("asdasda").unwrap().is_ascii());
    assert!(!SmallString::try_from("é").unwrap().is_ascii());
    assert!(!SmallString::try_from("a💩").unwrap().is_ascii());
}

#[test]
fn utf16_length_counts_surrogate_pairs() {
    assert_eq!(SmallString::try_from("").unwrap().utf16_len(), 0);
    assert_eq!(SmallString::try_from("asd").unwrap().utf16_len(), 3);
    assert_eq!(SmallString::try_from("é").unwrap().utf16_len(), 1);
    assert_eq!(SmallString::try_from("💩").unwrap().utf16_len(), 2);
    assert_eq!(SmallString::try_from("a💩b").unwrap().utf16_len(), 4);
}

#[test]
fn utf16_char_reads_single_unit_characters() {
    let s = SmallString::try_from("aé💩").unwrap();
    assert_eq!(s.utf16_char(0), 'a');
    assert_eq!(s.utf16_char(1), 'é');
    let t = SmallString::try_from("é💩b").unwrap();
    assert_eq!(t.utf16_char(3), 'b');
}

#[test]
fn utf8_index_maps_utf16_offsets() {
    let s = SmallString::try_from("aé💩").unwrap();
    assert_eq!(s.utf8_index(0), Some(0));
    assert_eq!(s.utf8_index(1), Some(1));
    assert_eq!(s.utf8_index(2), Some(3));
    assert_eq!(s.utf8_index(3), None);
    assert_eq!(s.utf8_index(4), Some(7));
    let t = SmallString::try_from("abc").unwrap();
    assert_eq!(t.utf8_index(3), Some(3));
}

#[test]
fn utf16_index_maps_utf8_offsets() {
    let s = SmallString::try_from("aé💩").unwrap();
    assert_eq!(s.utf16_index(0), 0);
    assert_eq!(s.utf16_index(1), 1);
    assert_eq!(s.utf16_index(3), 2);
    assert_eq!(s.utf16_index(7), 4);
}

#[test]
fn from_code_point_encodes_one_character() {
    assert_eq!(SmallString::from_code_point('a').as_str(), "a");
    assert_eq!(SmallString::from_code_point('é').as_str(), "é");
    assert_eq!(SmallString::from_code_point('日').len(), 3);
    assert_eq!(SmallString::from_code_point('💩').as_str(), "💩");
    assert_eq!(
        SmallString::from_code_point('é').data(),
        &[0xC3, 0xA9, 0xFF, 0xFF, 0xFF, 0xFF, 0xFF]
    );
}

#[test]
fn same_compares_bytes() {
    let a = SmallString::try_from("abc").unwrap();
    let b = SmallString::from_str_unchecked("abc");
    let c = SmallString::try_from("abd").unwrap();
    assert!(a.same(&b));
    assert!(!a.same(&c));
    assert_eq!(a, b);
}
