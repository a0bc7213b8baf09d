use abomonation::{decode, encode};

#[test]
fn numbers_with_text_round_trip() {
    let vector: Vec<(u64, String)> = (0..256u64).map(|i| (i, format!("{}", i))).collect();
    let mut bytes = Vec::new();
    encode(&vector[..], &mut bytes);
    let result = decode::<(u64, String)>(&mut bytes);
    assert_eq!(result, Ok(vector));
}

#[test]
fn nested_ownership_round_trips() {
    let v: Vec<(String, Vec<u64>)> =
        vec![("7".to_string(), vec![1, 2, 3]), (String::new(), vec![])];
    let mut bytes = Vec::new();
    encode(&v[..], &mut bytes);
    let result = decode::<(String, Vec<u64>)>(&bytes).unwrap();
    assert_eq!(result.len(), 2);
    assert_eq!(result[0].0, "7");
    assert_eq!(result[0].1, vec![1u64, 2, 3]);
    assert_eq!(result[1].0, "");
    assert_eq!(result[1].1, Vec::<u64>::new());
    assert_eq!(result, v);
}

#[test]
fn nested_ownership_bytes_are_in_field_order() {
    let v: Vec<(String, Vec<u64>)> = vec![("7".to_string(), vec![1, 2, 3])];
    let mut bytes = Vec::new();
    encode(&v[..], &mut bytes);
    let mut expected: Vec<u8> = Vec::new();
    // header: null reference, one element
    expected.extend_from_slice(&[0; 8]);
    expected.extend_from_slice(&1u64.to_le_bytes());
    // image of the text: null reference, capacity 1, length 1
    expected.extend_from_slice(&[0; 8]);
    expected.extend_from_slice(&1u64.to_le_bytes());
    expected.extend_from_slice(&1u64.to_le_bytes());
    // image of the sequence: null reference, capacity 3, length 3
    expected.extend_from_slice(&[0; 8]);
    expected.extend_from_slice(&3u64.to_le_bytes());
    expected.extend_from_slice(&3u64.to_le_bytes());
    // what the text owns, then what the sequence owns
    expected.push(b'7');
    expected.extend_from_slice(&1u64.to_le_bytes());
    expected.extend_from_slice(&2u64.to_le_bytes());
    expected.extend_from_slice(&3u64.to_le_bytes());
    assert_eq!(bytes, expected);
}

#[test]
fn sequences_of_sequences_round_trip() {
    let v: Vec<Vec<Vec<String>>> = vec![
        vec![vec!["a".to_string(), "bc".to_string()], vec![]],
        vec![],
        vec![vec!["def".to_string()]],
    ];
    let mut bytes = Vec::new();
    encode(&v[..], &mut bytes);
    assert_eq!(decode::<Vec<Vec<String>>>(&bytes), Ok(v));
}

#[test]
fn text_beyond_ascii_round_trips() {
    let v = vec!["h\u{e9}llo \u{2192} \u{1f600}".to_string(), "\u{0}".to_string()];
    let mut bytes = Vec::new();
    encode(&v[..], &mut bytes);
    assert_eq!(bytes.len(), 16 + 2 * 24 + v[0].len() + 1);
    assert_eq!(decode::<String>(&bytes), Ok(v));
}

#[test]
fn encode_appends_to_what_the_buffer_holds() {
    let mut bytes = vec![0xaau8, 0xbb, 0xcc];
    encode(&[5u16, 6][..], &mut bytes);
    assert_eq!(&bytes[..3], &[0xaa, 0xbb, 0xcc]);
    assert_eq!(decode::<u16>(&bytes[3..]), Ok(vec![5u16, 6]));
}

#[test]
fn encoding_again_gives_the_same_bytes() {
    let v: Vec<(String, Vec<(i16, bool)>)> = vec![
        ("one".to_string(), vec![(-1, true), (2, false)]),
        ("".to_string(), vec![]),
        ("three".to_string(), vec![(i16::MIN, true)]),
    ];
    let mut first = Vec::new();
    encode(&v[..], &mut first);
    let decoded = decode::<(String, Vec<(i16, bool)>)>(&first).unwrap();
    let mut second = Vec::new();
    encode(&decoded[..], &mut second);
    assert_eq!(first, second);
}

#[test]
fn spare_capacity_leaves_no_trace() {
    let mut roomy = String::with_capacity(100);
    roomy.push('7');
    let mut numbers: Vec<u32> = Vec::with_capacity(64);
    numbers.push(9);
    let mut first = Vec::new();
    encode(&[(roomy, numbers)][..], &mut first);
    let mut second = Vec::new();
    encode(&[("7".to_string(), vec![9u32])][..], &mut second);
    assert_eq!(first, second);
}

#[test]
fn empty_sequence_is_a_header_alone() {
    let mut bytes = Vec::new();
    encode::<(String, Vec<u64>)>(&[][..], &mut bytes);
    assert_eq!(bytes, vec![0u8; 16]);
    assert_eq!(decode::<(String, Vec<u64>)>(&bytes), Ok(vec![]));
    let mut bytes = Vec::new();
    encode::<u8>(&[][..], &mut bytes);
    assert_eq!(bytes, vec![0u8; 16]);
    assert_eq!(decode::<u8>(&bytes), Ok(vec![]));
}

#[test]
fn bytes_behind_the_encoding_are_ignored() {
    let mut bytes = Vec::new();
    encode(&[1u32, 2, 3][..], &mut bytes);
    bytes.extend_from_slice(&[9, 9, 9]);
    assert_eq!(decode::<u32>(&bytes), Ok(vec![1u32, 2, 3]));
}

fn next(state: &mut u64) -> u64 {
    *state = state.wrapping_mul(6364136223846793005).wrapping_add(1442695040888963407);
    *state >> 33
}

fn sample(state: &mut u64) -> Vec<(String, Vec<(u16, Option<i32>)>)> {
    let texts = ["", "a", "\u{e9}t\u{e9}", "\u{4e2d}\u{6587}", "line\nbreak", "\u{1f600}"];
    let mut out = Vec::new();
    for _ in 0..next(state) % 6 {
        let mut text = String::new();
        for _ in 0..next(state) % 4 {
            text.push_str(texts[(next(state) % 6) as usize]);
        }
        let mut numbers = Vec::new();
        for _ in 0..next(state) % 5 {
            let number = next(state) as u16;
            let optional = if next(state) % 3 == 0 { None } else { Some(next(state) as i32 - 1_000_000) };
            numbers.push((number, optional));
        }
        out.push((text, numbers));
    }
    out
}

#[test]
fn many_nested_values_round_trip_and_no_truncation_succeeds() {
    let mut state = 42u64;
    for _ in 0..200 {
        let v = sample(&mut state);
        let mut bytes = Vec::new();
        encode(&v[..], &mut bytes);
        for k in 0..bytes.len() {
            assert!(decode::<(String, Vec<(u16, Option<i32>)>)>(&bytes[..k]).is_err());
        }
        let decoded = decode::<(String, Vec<(u16, Option<i32>)>)>(&bytes).unwrap();
        let mut again = Vec::new();
        encode(&decoded[..], &mut again);
        assert_eq!(again, bytes);
        assert_eq!(decoded, v);
    }
}
