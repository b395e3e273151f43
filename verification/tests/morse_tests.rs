use morse_transcoder::morse::{decode_morse, encode_morse};

#[test]
fn it_can_encode() {
    let morse = encode_morse(&b"SOS sos".to_vec());
    assert_eq!(morse, b"... --- ...".to_vec());
}

#[test]
fn it_can_decode() {
    let text = b"... --- ...".to_vec();

    let decoded = decode_morse(&text);

    assert_eq!(decoded, b"SOS".to_vec());
}

#[test]
fn round_trip_canonical() {
    let encoded = encode_morse(&b"SOS".to_vec());
    assert_eq!(encoded, b"... --- ...".to_vec());
    let decoded = decode_morse(&encoded);
    assert_eq!(decoded, b"SOS".to_vec());
}

#[test]
fn encode_single_letters_and_digits() {
    assert_eq!(encode_morse(&b"A".to_vec()), b".-".to_vec());
    assert_eq!(encode_morse(&b"E".to_vec()), b".".to_vec());
    assert_eq!(encode_morse(&b"1".to_vec()), b".----".to_vec());
    assert_eq!(encode_morse(&b"0".to_vec()), b"-----".to_vec());
}

#[test]
fn encode_skips_unmapped_bytes() {
    assert_eq!(encode_morse(&b"S!S".to_vec()), b"... ...".to_vec());
    assert_eq!(encode_morse(&b"!~$".to_vec()), b"".to_vec());
}

#[test]
fn encode_no_stray_separators() {
    // The space maps to the empty token; it never leaves a leading,
    // trailing or doubled separator behind.
    assert_eq!(encode_morse(&b" A".to_vec()), b".-".to_vec());
    assert_eq!(encode_morse(&b"A ".to_vec()), b".-".to_vec());
    assert_eq!(encode_morse(&b"A B".to_vec()), b".- -...".to_vec());
    assert_eq!(encode_morse(&b"A  B".to_vec()), b".- -...".to_vec());
}

#[test]
fn encode_empty_input_is_empty() {
    assert_eq!(encode_morse(&b"".to_vec()), b"".to_vec());
}

#[test]
fn decode_permissive_token() {
    let with_noise = decode_morse(&b".x-".to_vec());
    let clean = decode_morse(&b".-".to_vec());
    assert_eq!(with_noise, clean);
    assert_eq!(clean, b"A".to_vec());
}

#[test]
fn decode_twice_same_result() {
    let input = b"-- --- .-. ... .".to_vec();
    let first = decode_morse(&input);
    let second = decode_morse(&input);
    assert_eq!(first, second);
    assert_eq!(first, b"MORSE".to_vec());
}

#[test]
fn encode_truncates_overlong_input() {
    // Input beyond the engine's 70,000-unit capacity is ignored.
    let at_capacity = vec![b'E'; 70000];
    let mut beyond = at_capacity.clone();
    beyond.push(b'A');
    assert_eq!(encode_morse(&beyond), encode_morse(&at_capacity));
    assert_eq!(encode_morse(&at_capacity).len(), 2 * 70000 - 1);
}

#[test]
fn decode_empty_input_is_empty() {
    assert_eq!(decode_morse(&b"".to_vec()), b"".to_vec());
}
