//! Per-tag payload decoding through `Tag::from_raw`.

use hdf4::Tag;

#[test]
fn null_ignores_payload() {
    assert!(matches!(Tag::from_raw(1, &[]), Tag::Null));
    assert!(matches!(Tag::from_raw(1, &[1, 2, 3, 4, 5]), Tag::Null));
}

#[test]
fn number_type_exact_length() {
    match Tag::from_raw(106, &[9, 8, 7, 6]) {
        Tag::NumberType { version, type_, width, class } => {
            assert_eq!((version, type_, width, class), (9, 8, 7, 6));
        }
        other => panic!("expected NumberType, got {:?}", other),
    }
}

#[test]
fn number_type_wrong_length_corrupt() {
    assert!(matches!(Tag::from_raw(106, &[]), Tag::Corrupt(106)));
    assert!(matches!(Tag::from_raw(106, &[1, 2, 3]), Tag::Corrupt(106)));
    assert!(matches!(
        Tag::from_raw(106, &[1, 2, 3, 4, 5]),
        Tag::Corrupt(106)
    ));
}

#[test]
fn unknown_preserves_bytes() {
    match Tag::from_raw(9999, &[1, 2, 3]) {
        Tag::Unknown { tag, data } => {
            assert_eq!(tag, 9999);
            assert_eq!(data, vec![1, 2, 3]);
        }
        other => panic!("expected Unknown, got {:?}", other),
    }
}

#[test]
fn version_decode() {
    let mut payload: Vec<u8> = Vec::new();
    payload.extend_from_slice(&1u32.to_be_bytes());
    payload.extend_from_slice(&2u32.to_be_bytes());
    payload.extend_from_slice(&3u32.to_be_bytes());
    payload.extend_from_slice(b"hello");
    match Tag::from_raw(30, &payload) {
        Tag::Version { majorv, minorv, release, string } => {
            assert_eq!((majorv, minorv, release), (1, 2, 3));
            assert_eq!(string, "hello");
        }
        other => panic!("expected Version, got {:?}", other),
    }
}

#[test]
fn version_big_endian_numbers() {
    let payload: Vec<u8> = vec![
        0x01, 0x02, 0x03, 0x04, 0x00, 0x00, 0x00, 0x00, 0xff, 0x00, 0x00, 0x01,
    ];
    match Tag::from_raw(30, &payload) {
        Tag::Version { majorv, minorv, release, string } => {
            assert_eq!(majorv, 0x0102_0304);
            assert_eq!(minorv, 0);
            assert_eq!(release, 0xff00_0001);
            assert_eq!(string, "");
        }
        other => panic!("expected Version, got {:?}", other),
    }
}

#[test]
fn version_invalid_utf8_corrupt() {
    let mut payload: Vec<u8> = vec![0; 12];
    payload.push(0xff);
    assert!(matches!(Tag::from_raw(30, &payload), Tag::Corrupt(30)));
}

#[test]
fn version_short_corrupt() {
    assert!(matches!(Tag::from_raw(30, &[0; 11]), Tag::Corrupt(30)));
}

#[test]
fn dimension_decode() {
    let mut payload: Vec<u8> = Vec::new();
    payload.extend_from_slice(&2u16.to_be_bytes());
    payload.extend_from_slice(&10u32.to_be_bytes());
    payload.extend_from_slice(&20u32.to_be_bytes());
    payload.extend_from_slice(&5u16.to_be_bytes());
    payload.extend_from_slice(&1u16.to_be_bytes());
    payload.extend_from_slice(&6u16.to_be_bytes());
    payload.extend_from_slice(&2u16.to_be_bytes());
    payload.extend_from_slice(&6u16.to_be_bytes());
    payload.extend_from_slice(&3u16.to_be_bytes());
    match Tag::from_raw(701, &payload) {
        Tag::ScientificDataDimension { dimensions, datatype, scale } => {
            assert_eq!(dimensions, vec![10, 20]);
            assert_eq!(datatype.tag, 5);
            assert_eq!(datatype.reference, 1);
            assert_eq!(scale.len(), 2);
            assert_eq!(scale[0].tag, 6);
            assert_eq!(scale[0].reference, 2);
            assert_eq!(scale[1].tag, 6);
            assert_eq!(scale[1].reference, 3);
        }
        other => panic!("expected ScientificDataDimension, got {:?}", other),
    }
}

#[test]
fn dimension_truncated_corrupt() {
    let mut payload: Vec<u8> = Vec::new();
    payload.extend_from_slice(&2u16.to_be_bytes());
    payload.extend_from_slice(&10u32.to_be_bytes());
    payload.extend_from_slice(&20u32.to_be_bytes());
    payload.extend_from_slice(&5u16.to_be_bytes());
    payload.extend_from_slice(&1u16.to_be_bytes());
    payload.extend_from_slice(&6u16.to_be_bytes());
    payload.extend_from_slice(&2u16.to_be_bytes());
    payload.extend_from_slice(&6u16.to_be_bytes());
    payload.push(0);
    assert!(matches!(Tag::from_raw(701, &payload), Tag::Corrupt(701)));
}

#[test]
fn dimension_short_rank_corrupt() {
    assert!(matches!(Tag::from_raw(701, &[]), Tag::Corrupt(701)));
    assert!(matches!(Tag::from_raw(701, &[0]), Tag::Corrupt(701)));
}

#[test]
fn dimension_rank_zero() {
    // Rank 0: no dimensions, no scale references, only the datatype pair.
    let mut payload: Vec<u8> = Vec::new();
    payload.extend_from_slice(&0u16.to_be_bytes());
    payload.extend_from_slice(&5u16.to_be_bytes());
    payload.extend_from_slice(&9u16.to_be_bytes());
    match Tag::from_raw(701, &payload) {
        Tag::ScientificDataDimension { dimensions, datatype, scale } => {
            assert!(dimensions.is_empty());
            assert_eq!(datatype.tag, 5);
            assert_eq!(datatype.reference, 9);
            assert!(scale.is_empty());
        }
        other => panic!("expected ScientificDataDimension, got {:?}", other),
    }
}
