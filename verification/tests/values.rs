use request_id::{InvalidCharacter, RequestId};

#[test]
fn new_keeps_printable_text() {
    let id = RequestId::new(String::from("hello world")).unwrap();
    assert_eq!("hello world", id.as_str());
    let id = RequestId::new(String::from(" !0Az~")).unwrap();
    assert_eq!(" !0Az~", id.as_str());
}

#[test]
fn new_takes_the_empty_text() {
    let id = RequestId::new(String::new()).unwrap();
    assert_eq!("", id.as_str());
}

#[test]
fn new_refuses_control_characters() {
    assert_eq!(Some(InvalidCharacter), RequestId::new(String::from("\n")).err());
    assert_eq!(Some(InvalidCharacter), RequestId::new(String::from("a\tb")).err());
    assert_eq!(Some(InvalidCharacter), RequestId::new(String::from("abc\r")).err());
    assert_eq!(Some(InvalidCharacter), RequestId::new(String::from("\u{0}abc")).err());
    assert_eq!(Some(InvalidCharacter), RequestId::new(String::from("ab\u{1f}c")).err());
    assert_eq!(Some(InvalidCharacter), RequestId::new(String::from("ab\u{7f}")).err());
}

#[test]
fn new_refuses_what_is_not_ascii() {
    assert!(RequestId::new(String::from("caf\u{e9}")).is_err());
    assert!(RequestId::new(String::from("\u{80}")).is_err());
    assert!(RequestId::new(String::from("id-\u{1f600}")).is_err());
}

#[test]
fn new_takes_the_two_ends_of_the_range() {
    assert!(RequestId::new(String::from("\u{20}")).is_ok());
    assert!(RequestId::new(String::from("\u{7e}")).is_ok());
    assert!(RequestId::new(String::from("\u{1f}")).is_err());
    assert!(RequestId::new(String::from("\u{7f}")).is_err());
}

#[test]
fn from_counter_writes_decimal() {
    assert_eq!("0", RequestId::from_counter(0).as_str());
    assert_eq!("1", RequestId::from_counter(1).as_str());
    assert_eq!("2", RequestId::from_counter(2).as_str());
    assert_eq!("9", RequestId::from_counter(9).as_str());
    assert_eq!("10", RequestId::from_counter(10).as_str());
    assert_eq!("99", RequestId::from_counter(99).as_str());
    assert_eq!("100", RequestId::from_counter(100).as_str());
    assert_eq!("1234567890", RequestId::from_counter(1_234_567_890).as_str());
    assert_eq!("4294967295", RequestId::from_counter(4_294_967_295).as_str());
}

#[test]
fn from_counter_writes_the_largest_value() {
    assert_eq!(usize::MAX.to_string(), RequestId::from_counter(usize::MAX).as_str());
}

#[test]
fn from_counter_agrees_with_std() {
    let mut value: usize = 0;
    for step in 0..5000usize {
        assert_eq!(value.to_string(), RequestId::from_counter(value).as_str());
        value = value.wrapping_mul(31).wrapping_add(step * 7 + 1);
    }
}

#[test]
fn from_counter_gives_distinct_values_distinct_ids() {
    let mut seen: std::collections::HashSet<String> = std::collections::HashSet::new();
    for value in 0..3000usize {
        assert!(seen.insert(RequestId::from_counter(value).as_str().to_string()));
    }
}

#[test]
fn from_uuid_writes_the_hyphenated_form() {
    assert_eq!(
        "a1a2a3a4-b1b2-c1c2-d1d2-d3d4d5d6d7d8",
        RequestId::from_uuid(0xa1a2a3a4b1b2c1c2d1d2d3d4d5d6d7d8).as_str()
    );
    assert_eq!(
        "00000000-0000-0000-0000-000000000000",
        RequestId::from_uuid(0).as_str()
    );
    assert_eq!(
        "ffffffff-ffff-ffff-ffff-ffffffffffff",
        RequestId::from_uuid(u128::MAX).as_str()
    );
    assert_eq!(
        "01234567-89ab-4def-8123-456789abcdef",
        RequestId::from_uuid(0x0123456789ab4def8123456789abcdef).as_str()
    );
    assert_eq!(
        "00000000-0000-0000-0000-00000000000a",
        RequestId::from_uuid(10).as_str()
    );
}

#[test]
fn from_uuid_text_parses_back() {
    let bits: u128 = 0x67e5504410b1426f9247bb680e5fe0c8;
    let id = RequestId::from_uuid(bits);
    assert_eq!("67e55044-10b1-426f-9247-bb680e5fe0c8", id.as_str());
    let parsed = uuid::Uuid::try_parse_ascii(id.as_str().as_bytes()).unwrap();
    assert_eq!(bits, parsed.as_u128());
}

#[test]
fn from_ulid_writes_crockford_digits() {
    assert_eq!(
        "21850M2GA1850M2GA1850M2GA1",
        RequestId::from_ulid(0x41414141414141414141414141414141).as_str()
    );
    assert_eq!("00000000000000000000000000", RequestId::from_ulid(0).as_str());
    assert_eq!("7ZZZZZZZZZZZZZZZZZZZZZZZZZ", RequestId::from_ulid(u128::MAX).as_str());
    assert_eq!("0000000000000000000000000Z", RequestId::from_ulid(31).as_str());
    assert_eq!("00000000000000000000000010", RequestId::from_ulid(32).as_str());
    assert_eq!("0000000000000000000000000J", RequestId::from_ulid(18).as_str());
}

#[test]
fn from_ulid_text_parses_back() {
    let text = "01D39ZY06FGSCTVN4T2V9PKHFZ";
    let bits: u128 = ulid::Ulid::from_string(text).unwrap().0;
    assert_eq!(text, RequestId::from_ulid(bits).as_str());
}

#[test]
fn from_ulid_orders_by_time() {
    let random_bits: u128 = (1u128 << 80) - 1;
    let times: [u128; 7] = [0, 1, 31, 32, 1_700_000_000_000, 1_700_000_000_001, (1u128 << 48) - 1];
    for pair in times.windows(2) {
        let earlier = RequestId::from_ulid((pair[0] << 80) | random_bits);
        let later = RequestId::from_ulid(pair[1] << 80);
        assert!(earlier.as_str() < later.as_str());
        assert!(earlier.as_str()[..10] < later.as_str()[..10]);
    }
}

#[test]
fn as_bytes_gives_one_byte_for_each_character() {
    let id = RequestId::new(String::from("id 7~")).unwrap();
    assert_eq!(&[0x69u8, 0x64, 0x20, 0x37, 0x7e][..], id.as_bytes());
    assert_eq!(id.as_str().as_bytes(), id.as_bytes());
    let id = RequestId::from_counter(305);
    assert_eq!(b"305", id.as_bytes());
}

#[test]
fn clone_keeps_the_text() {
    let id = RequestId::from_uuid(0x0123456789ab4def8123456789abcdef);
    let copy = id.clone();
    assert_eq!(id.as_str(), copy.as_str());
    assert_eq!("01234567-89ab-4def-8123-456789abcdef", copy.as_str());
}

#[test]
fn debug_shows_the_text() {
    let id = RequestId::from_counter(42);
    assert!(format!("{:?}", id).contains("42"));
}
