use mini_redis_rs::tlv::{form_tlv, from_tlv, is_tlv, to_tlv, TLVType};

#[test]
fn test_tlv_type_from_u8() {
    assert_eq!(Some(TLVType::String), TLVType::from_u8(1));
    assert_eq!(Some(TLVType::Int), TLVType::from_u8(2));
    assert_eq!(None, TLVType::from_u8(3));
}

#[test]
fn test_to_tlv_string_type() {
    let message = "hello".as_bytes().to_vec();
    let tlv = to_tlv(message, TLVType::String);
    assert_eq!(
        vec![1, 0, 0, 0, 0, 0, 0, 0, 5, 104, 101, 108, 108, 111],
        tlv
    );
}

#[test]
fn test_to_tlv_int_type() {
    let message = "123".as_bytes().to_vec();
    let tlv = to_tlv(message, TLVType::String);
    assert_eq!(vec![1, 0, 0, 0, 0, 0, 0, 0, 3, 49, 50, 51], tlv);
}

#[test]
fn test_form_tlv() {
    let value = "tee al vee".as_bytes().to_vec();
    let tlv_type: [u8; 1] = [TLVType::String.tag()];

    let tlv = form_tlv(tlv_type, value);
    assert_eq!(
        vec![1, 0, 0, 0, 0, 0, 0, 0, 10, 116, 101, 101, 32, 97, 108, 32, 118, 101, 101],
        tlv
    );
}

#[test]
fn test_from_tlv() {
    let tlv = vec![
        1, 0, 0, 0, 0, 0, 0, 0, 10, 116, 101, 101, 32, 97, 108, 32, 118, 101, 101,
    ];
    let data = from_tlv(tlv);
    assert_eq!(vec![116, 101, 101, 32, 97, 108, 32, 118, 101, 101], data);
}

#[test]
fn tag_bytes_are_one_and_two() {
    assert_eq!(1, TLVType::String.tag());
    assert_eq!(2, TLVType::Int.tag());
    assert_eq!(None, TLVType::from_u8(0));
    assert_eq!(None, TLVType::from_u8(255));
}

#[test]
fn to_tlv_under_the_int_tag() {
    let tlv = to_tlv(vec![49, 50, 51], TLVType::Int);
    assert_eq!(vec![2, 0, 0, 0, 0, 0, 0, 0, 3, 49, 50, 51], tlv);
}

#[test]
fn to_tlv_of_nothing_is_a_bare_header() {
    let tlv = to_tlv(Vec::new(), TLVType::String);
    assert_eq!(vec![1, 0, 0, 0, 0, 0, 0, 0, 0], tlv);
    assert_eq!(Vec::<u8>::new(), from_tlv(tlv));
}

#[test]
fn length_is_written_most_significant_byte_first() {
    let value = vec![7u8; 0x0102];
    let tlv = to_tlv(value.clone(), TLVType::String);
    assert_eq!(&[1, 0, 0, 0, 0, 0, 0, 1, 2], &tlv[..9]);
    assert_eq!(9 + 0x0102, tlv.len());
    assert_eq!(value, from_tlv(tlv));
}

#[test]
fn length_of_a_long_value() {
    let value = vec![9u8; 70_000];
    let tlv = to_tlv(value.clone(), TLVType::Int);
    assert_eq!(&[2, 0, 0, 0, 0, 0, 1, 0x11, 0x70], &tlv[..9]);
    assert_eq!(value, from_tlv(tlv));
}

#[test]
fn decode_gives_back_what_was_encoded() {
    let values: Vec<Vec<u8>> = vec![
        Vec::new(),
        vec![0],
        vec![1, 2, 3],
        "hello world".as_bytes().to_vec(),
        (0..=255u8).collect(),
        vec![255; 1000],
    ];
    for value in values {
        assert_eq!(value, from_tlv(to_tlv(value.clone(), TLVType::String)));
        assert_eq!(value, from_tlv(to_tlv(value.clone(), TLVType::Int)));
    }
}

#[test]
fn from_tlv_under_an_unknown_tag_is_empty() {
    assert_eq!(Vec::<u8>::new(), from_tlv(vec![3, 0, 0, 0, 0, 0, 0, 0, 2, 104, 105]));
    assert_eq!(Vec::<u8>::new(), from_tlv(vec![0]));
    assert_eq!(Vec::<u8>::new(), from_tlv(vec![111, 112, 113]));
}

#[test]
fn from_tlv_takes_only_the_declared_length() {
    let tlv = vec![1, 0, 0, 0, 0, 0, 0, 0, 2, 104, 105, 33, 33];
    assert_eq!(vec![104, 105], from_tlv(tlv));
}

#[test]
fn from_tlv_of_the_cached_record() {
    let data = from_tlv(vec![1, 0, 0, 0, 0, 0, 0, 0, 2, 104, 105]);
    assert_eq!(vec![104, 105], data);
}

#[test]
fn is_tlv_tells_what_can_be_decoded() {
    assert!(is_tlv(&vec![1, 0, 0, 0, 0, 0, 0, 0, 2, 104, 105]));
    assert!(is_tlv(&vec![2, 0, 0, 0, 0, 0, 0, 0, 0]));
    assert!(is_tlv(&vec![1, 0, 0, 0, 0, 0, 0, 0, 1, 7, 8]));
    assert!(is_tlv(&vec![3]));
    assert!(is_tlv(&vec![100, 102, 104]));
    assert!(!is_tlv(&Vec::new()));
    assert!(!is_tlv(&vec![1]));
    assert!(!is_tlv(&vec![1, 0, 0, 0, 0, 0, 0, 0]));
    assert!(!is_tlv(&vec![1, 0, 0, 0, 0, 0, 0, 0, 3, 104, 105]));
    assert!(!is_tlv(&vec![2, 255, 255, 255, 255, 255, 255, 255, 255, 1]));
    assert!(!is_tlv(&vec![1, 1, 0, 0, 0, 0, 0, 0, 0]));
}
