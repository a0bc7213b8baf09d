use abomonation::words::BOUND;
use abomonation::{decode, encode, Abomonation};

fn image_of<T: Abomonation>(value: &T) -> Vec<u8> {
    let mut bytes = Vec::new();
    value.write_image(&mut bytes);
    bytes
}

fn tomb_of<T: Abomonation>(value: &T) -> Vec<u8> {
    let mut bytes = Vec::new();
    value.entomb(&mut bytes);
    bytes
}

#[test]
fn images_of_numbers_are_little_endian() {
    assert_eq!(image_of(&0x12u8), vec![0x12]);
    assert_eq!(image_of(&0x1234u16), vec![0x34, 0x12]);
    assert_eq!(image_of(&0x1234_5678u32), vec![0x78, 0x56, 0x34, 0x12]);
    assert_eq!(
        image_of(&0x0102_0304_0506_0708u64),
        vec![0x08, 0x07, 0x06, 0x05, 0x04, 0x03, 0x02, 0x01]
    );
    assert_eq!(image_of(&-1i8), vec![0xff]);
    assert_eq!(image_of(&-2i16), vec![0xfe, 0xff]);
    assert_eq!(image_of(&-3i32), vec![0xfd, 0xff, 0xff, 0xff]);
    assert_eq!(image_of(&-4i64), vec![0xfc, 0xff, 0xff, 0xff, 0xff, 0xff, 0xff, 0xff]);
    assert_eq!(image_of(&true), vec![1]);
    assert_eq!(image_of(&false), vec![0]);
}

#[test]
fn sizes_are_those_of_the_images() {
    assert_eq!(<u8 as Abomonation>::size(), 1);
    assert_eq!(<u16 as Abomonation>::size(), 2);
    assert_eq!(<u32 as Abomonation>::size(), 4);
    assert_eq!(<u64 as Abomonation>::size(), 8);
    assert_eq!(<i8 as Abomonation>::size(), 1);
    assert_eq!(<i16 as Abomonation>::size(), 2);
    assert_eq!(<i32 as Abomonation>::size(), 4);
    assert_eq!(<i64 as Abomonation>::size(), 8);
    assert_eq!(<bool as Abomonation>::size(), 1);
    assert_eq!(<String as Abomonation>::size(), 24);
    assert_eq!(<Vec<u8> as Abomonation>::size(), 24);
    assert_eq!(<Option<u32> as Abomonation>::size(), 5);
    assert_eq!(<(u8, (u16, String)) as Abomonation>::size(), 27);
    assert_eq!(image_of(&(7u8, (8u16, "nine".to_string()))).len(), 27);
}

#[test]
fn numbers_read_back_from_their_images() {
    assert_eq!(<u8 as Abomonation>::read_image(&image_of(&200u8)), 200);
    assert_eq!(<u16 as Abomonation>::read_image(&image_of(&60000u16)), 60000);
    assert_eq!(<u32 as Abomonation>::read_image(&image_of(&u32::MAX)), u32::MAX);
    assert_eq!(<u64 as Abomonation>::read_image(&image_of(&u64::MAX)), u64::MAX);
    assert_eq!(<i8 as Abomonation>::read_image(&image_of(&i8::MIN)), i8::MIN);
    assert_eq!(<i16 as Abomonation>::read_image(&image_of(&-12345i16)), -12345);
    assert_eq!(<i32 as Abomonation>::read_image(&image_of(&i32::MIN)), i32::MIN);
    assert_eq!(<i64 as Abomonation>::read_image(&image_of(&-1i64)), -1);
    assert_eq!(<bool as Abomonation>::read_image(&image_of(&true)), true);
    assert_eq!(<bool as Abomonation>::read_image(&image_of(&false)), false);
    assert_eq!(<bool as Abomonation>::read_image(&[2]), true);
}

#[test]
fn every_primitive_round_trips() {
    let mut bytes = Vec::new();
    encode(&[0u8, 1, 255][..], &mut bytes);
    assert_eq!(decode::<u8>(&bytes), Ok(vec![0u8, 1, 255]));
    let mut bytes = Vec::new();
    encode(&[0u16, u16::MAX][..], &mut bytes);
    assert_eq!(decode::<u16>(&bytes), Ok(vec![0u16, u16::MAX]));
    let mut bytes = Vec::new();
    encode(&[0u32, u32::MAX][..], &mut bytes);
    assert_eq!(decode::<u32>(&bytes), Ok(vec![0u32, u32::MAX]));
    let mut bytes = Vec::new();
    encode(&[0u64, u64::MAX][..], &mut bytes);
    assert_eq!(decode::<u64>(&bytes), Ok(vec![0u64, u64::MAX]));
    let mut bytes = Vec::new();
    encode(&[i8::MIN, -1, 0, i8::MAX][..], &mut bytes);
    assert_eq!(decode::<i8>(&bytes), Ok(vec![i8::MIN, -1, 0, i8::MAX]));
    let mut bytes = Vec::new();
    encode(&[i16::MIN, -1, 0, i16::MAX][..], &mut bytes);
    assert_eq!(decode::<i16>(&bytes), Ok(vec![i16::MIN, -1, 0, i16::MAX]));
    let mut bytes = Vec::new();
    encode(&[i32::MIN, -1, 0, i32::MAX][..], &mut bytes);
    assert_eq!(decode::<i32>(&bytes), Ok(vec![i32::MIN, -1, 0, i32::MAX]));
    let mut bytes = Vec::new();
    encode(&[i64::MIN, -1, 0, i64::MAX][..], &mut bytes);
    assert_eq!(decode::<i64>(&bytes), Ok(vec![i64::MIN, -1, 0, i64::MAX]));
    let mut bytes = Vec::new();
    encode(&[true, false, true][..], &mut bytes);
    assert_eq!(decode::<bool>(&bytes), Ok(vec![true, false, true]));
}

#[test]
fn numbers_own_nothing() {
    assert_eq!(tomb_of(&5u64), Vec::<u8>::new());
    assert_eq!(tomb_of(&(5u8, true)), Vec::<u8>::new());
    let rest = [1u8, 2, 3];
    assert_eq!(<u16 as Abomonation>::exhume(&[7, 0], &rest), Ok((7u16, &rest[..])));
    let mut bytes = vec![9u8, 8, 7, 6];
    <u32 as Abomonation>::embalm(&mut bytes, 0);
    assert_eq!(bytes, vec![9u8, 8, 7, 6]);
}

#[test]
fn text_owns_its_bytes() {
    let text = "h\u{e9}".to_string();
    let mut image = BOUND.to_le_bytes().to_vec();
    image.extend_from_slice(&3u64.to_le_bytes());
    image.extend_from_slice(&3u64.to_le_bytes());
    assert_eq!(image_of(&text), image);
    <String as Abomonation>::embalm(&mut image, 0);
    assert_eq!(&image[..8], &[0u8; 8]);
    assert_eq!(tomb_of(&text), vec![b'h', 0xc3, 0xa9]);
    let bytes = [b'h', 0xc3, 0xa9, b'!', b'?'];
    assert_eq!(<String as Abomonation>::exhume(&image, &bytes), Ok((text, &bytes[3..])));
    assert_eq!(<String as Abomonation>::exhume(&image, &bytes[..2]), Err(&bytes[..2]));
    assert_eq!(<String as Abomonation>::read_image(&image), String::new());
}

#[test]
fn embalming_a_descriptor_keeps_only_its_length() {
    let mut bytes = vec![0x55u8; 4];
    bytes.extend_from_slice(&0xdead_beef_u64.to_le_bytes());
    bytes.extend_from_slice(&100u64.to_le_bytes());
    bytes.extend_from_slice(&3u64.to_le_bytes());
    bytes.extend_from_slice(&[0x66; 5]);
    let mut expected = vec![0x55u8; 4];
    expected.extend_from_slice(&[0u8; 8]);
    expected.extend_from_slice(&3u64.to_le_bytes());
    expected.extend_from_slice(&3u64.to_le_bytes());
    expected.extend_from_slice(&[0x66; 5]);
    let mut text = bytes.clone();
    <String as Abomonation>::embalm(&mut text, 4);
    assert_eq!(text, expected);
    let mut sequence = bytes.clone();
    <Vec<u16> as Abomonation>::embalm(&mut sequence, 4);
    assert_eq!(sequence, expected);
    <Vec<u16> as Abomonation>::embalm(&mut sequence, 4);
    assert_eq!(sequence, expected);
}

#[test]
fn embalming_a_pair_embalms_both_fields() {
    let mut bytes = Vec::new();
    for _ in 0..2 {
        bytes.extend_from_slice(&0x1111u64.to_le_bytes());
        bytes.extend_from_slice(&0x2222u64.to_le_bytes());
        bytes.extend_from_slice(&5u64.to_le_bytes());
    }
    let mut expected = Vec::new();
    for _ in 0..2 {
        expected.extend_from_slice(&[0u8; 8]);
        expected.extend_from_slice(&5u64.to_le_bytes());
        expected.extend_from_slice(&5u64.to_le_bytes());
    }
    <(String, Vec<u8>) as Abomonation>::embalm(&mut bytes, 0);
    assert_eq!(bytes, expected);
}

#[test]
fn embalming_an_optional_value_changes_nothing() {
    let mut bytes = vec![1u8];
    bytes.extend_from_slice(&0x1111u64.to_le_bytes());
    bytes.extend_from_slice(&0x2222u64.to_le_bytes());
    bytes.extend_from_slice(&5u64.to_le_bytes());
    let before = bytes.clone();
    <Option<String> as Abomonation>::embalm(&mut bytes, 0);
    assert_eq!(bytes, before);
}

#[test]
fn sequence_owns_images_then_tombs() {
    let v = vec!["ab".to_string(), "c".to_string()];
    let mut expected = Vec::new();
    for len in [2u64, 1] {
        expected.extend_from_slice(&[0u8; 8]);
        expected.extend_from_slice(&len.to_le_bytes());
        expected.extend_from_slice(&len.to_le_bytes());
    }
    expected.extend_from_slice(b"abc");
    assert_eq!(tomb_of(&v), expected);
    let mut image = BOUND.to_le_bytes().to_vec();
    image.extend_from_slice(&2u64.to_le_bytes());
    image.extend_from_slice(&2u64.to_le_bytes());
    assert_eq!(image_of(&v), image);
    <Vec<String> as Abomonation>::embalm(&mut image, 0);
    expected.push(0x77);
    let last = expected.len() - 1;
    assert_eq!(<Vec<String> as Abomonation>::exhume(&image, &expected), Ok((v, &expected[last..])));
}

#[test]
fn pair_handles_first_field_first() {
    let pair = ("ab".to_string(), "cde".to_string());
    assert_eq!(tomb_of(&pair), b"abcde".to_vec());
    let image = image_of(&pair);
    let bytes = b"abcdefg".to_vec();
    assert_eq!(<(String, String) as Abomonation>::exhume(&image, &bytes), Ok((pair, &bytes[5..])));
    assert_eq!(<(String, String) as Abomonation>::exhume(&image, &bytes[..4]), Err(&bytes[2..4]));
}

#[test]
fn optional_numbers_round_trip() {
    let v: Vec<Option<(u32, bool)>> = vec![Some((7, true)), None, Some((0, false))];
    let mut bytes = Vec::new();
    encode(&v[..], &mut bytes);
    assert_eq!(bytes.len(), 16 + 3 * 6);
    assert_eq!(&bytes[16..22], &[1, 7, 0, 0, 0, 1]);
    assert_eq!(&bytes[22..28], &[0, 0, 0, 0, 0, 0]);
    assert_eq!(decode::<Option<(u32, bool)>>(&bytes), Ok(v));
}

#[test]
fn optional_text_loses_its_content() {
    let v = vec![Some("abc".to_string()), None];
    let mut bytes = Vec::new();
    encode(&v[..], &mut bytes);
    // nothing of the text is written: a header and two images
    assert_eq!(bytes.len(), 16 + 2 * 25);
    // the image of the text is as it was at rest, its reference still bound
    assert_eq!(bytes[16], 1);
    assert_eq!(&bytes[17..25], &BOUND.to_le_bytes());
    assert_eq!(&bytes[25..33], &3u64.to_le_bytes());
    assert_eq!(&bytes[33..41], &3u64.to_le_bytes());
    assert_eq!(&bytes[41..], &[0u8; 25]);
    let result = decode::<Option<String>>(&bytes).unwrap();
    assert_ne!(result, v);
    assert_eq!(result, vec![Some(String::new()), None]);
}

#[test]
fn optional_sequence_loses_its_elements() {
    let v = vec![(Some(vec![1u8, 2]), "kept".to_string())];
    let mut bytes = Vec::new();
    encode(&v[..], &mut bytes);
    let result = decode::<(Option<Vec<u8>>, String)>(&bytes).unwrap();
    assert_eq!(result, vec![(Some(vec![]), "kept".to_string())]);
}

#[test]
fn images_at_rest_hold_bound_references() {
    let pair = ("ab".to_string(), vec![1u8, 2, 3]);
    let mut image = image_of(&pair);
    assert_eq!(&image[..8], &BOUND.to_le_bytes());
    assert_eq!(&image[24..32], &BOUND.to_le_bytes());
    <(String, Vec<u8>) as Abomonation>::embalm(&mut image, 0);
    let mut expected = vec![0u8; 8];
    expected.extend_from_slice(&2u64.to_le_bytes());
    expected.extend_from_slice(&2u64.to_le_bytes());
    expected.extend_from_slice(&[0u8; 8]);
    expected.extend_from_slice(&3u64.to_le_bytes());
    expected.extend_from_slice(&3u64.to_le_bytes());
    assert_eq!(image, expected);
}

#[test]
fn encoding_holds_no_bound_reference() {
    let v = vec![("ab".to_string(), vec!["c".to_string()])];
    let mut bytes = Vec::new();
    encode(&v[..], &mut bytes);
    // the reference of the header, of the text, of the sequence, and of the
    // text inside the sequence
    for at in [0usize, 16, 40, 66] {
        assert_eq!(&bytes[at..at + 8], &[0u8; 8], "reference at {}", at);
    }
    assert_eq!(bytes.len(), 16 + 48 + 2 + 24 + 1);
}

#[test]
fn text_fails_only_where_bytes_are_missing() {
    let mut image = vec![0u8; 8];
    image.extend_from_slice(&1u64.to_le_bytes());
    image.extend_from_slice(&1u64.to_le_bytes());
    let bytes = [0xffu8, 0x41];
    assert_eq!(
        <String as Abomonation>::exhume(&image, &bytes),
        Ok(("\u{fffd}".to_string(), &bytes[1..]))
    );
    assert_eq!(
        <String as Abomonation>::exhume(&image, &bytes[..1]),
        Ok(("\u{fffd}".to_string(), &bytes[1..1]))
    );
    assert_eq!(<String as Abomonation>::exhume(&image, &[]), Err(&[][..]));
    let mut image = vec![0u8; 8];
    image.extend_from_slice(&4u64.to_le_bytes());
    image.extend_from_slice(&4u64.to_le_bytes());
    // a character cut in the middle, between two that are whole
    let bytes = [b'a', 0xe4, 0xb8, b'b', b'!'];
    assert_eq!(
        <String as Abomonation>::exhume(&image, &bytes),
        Ok(("a\u{fffd}b".to_string(), &bytes[4..]))
    );
    assert_eq!(<String as Abomonation>::exhume(&image, &bytes[..3]), Err(&bytes[..3]));
}
