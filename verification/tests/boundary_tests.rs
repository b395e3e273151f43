use morse_transcoder::{decode_morse, encode_morse};

#[test]
fn boundary_encode_fits() {
    let input = b"SOS".to_vec();
    let mut dest = vec![0xAAu8; 20];
    let written = encode_morse(Some(&input), &mut dest, 20);
    assert_eq!(written, Some(12));
    assert_eq!(&dest[0..11], b"... --- ...");
    assert_eq!(dest[11], 0);
    // Bytes past the terminator keep their previous values.
    assert_eq!(&dest[12..], &[0xAAu8; 8][..]);
}

#[test]
fn boundary_encode_truncates() {
    let input = b"SOS".to_vec();
    let mut dest = vec![0xAAu8; 5];
    let written = encode_morse(Some(&input), &mut dest, 5);
    assert_eq!(written, Some(5));
    assert_eq!(&dest[0..4], b"... ");
    assert_eq!(dest[4], 0);
}

#[test]
fn boundary_encode_capacity_one_writes_terminator_only() {
    let input = b"SOS".to_vec();
    let mut dest = vec![0xAAu8; 1];
    let written = encode_morse(Some(&input), &mut dest, 1);
    assert_eq!(written, Some(1));
    assert_eq!(dest[0], 0);
}

#[test]
fn boundary_guards_leave_destination_untouched() {
    let input = b"SOS".to_vec();
    let mut dest = vec![0xAAu8; 4];
    assert_eq!(encode_morse(None, &mut dest, 4), None);
    assert_eq!(dest, vec![0xAAu8; 4]);
    assert_eq!(encode_morse(Some(&input), &mut dest, 0), None);
    assert_eq!(dest, vec![0xAAu8; 4]);
    assert_eq!(encode_morse(Some(&input), &mut dest, -3), None);
    assert_eq!(dest, vec![0xAAu8; 4]);
    assert_eq!(decode_morse(None, &mut dest, 4), None);
    assert_eq!(dest, vec![0xAAu8; 4]);
    assert_eq!(decode_morse(Some(&input), &mut dest, 0), None);
    assert_eq!(dest, vec![0xAAu8; 4]);
}

#[test]
fn boundary_invalid_text_leaves_destination_untouched() {
    let input = vec![0xFFu8, 0xFEu8];
    let mut dest = vec![0xAAu8; 4];
    assert_eq!(encode_morse(Some(&input), &mut dest, 4), None);
    assert_eq!(dest, vec![0xAAu8; 4]);
    assert_eq!(decode_morse(Some(&input), &mut dest, 4), None);
    assert_eq!(dest, vec![0xAAu8; 4]);
}

#[test]
fn boundary_empty_result_leaves_destination_untouched() {
    let input = b"!~".to_vec();
    let mut dest = vec![0xAAu8; 4];
    assert_eq!(encode_morse(Some(&input), &mut dest, 4), None);
    assert_eq!(dest, vec![0xAAu8; 4]);
    let empty = b"".to_vec();
    assert_eq!(decode_morse(Some(&empty), &mut dest, 4), None);
    assert_eq!(dest, vec![0xAAu8; 4]);
}

#[test]
fn boundary_decode_writes_text() {
    let input = b"... --- ...".to_vec();
    let mut dest = vec![0xAAu8; 10];
    let written = decode_morse(Some(&input), &mut dest, 10);
    assert_eq!(written, Some(4));
    assert_eq!(&dest[0..3], b"SOS");
    assert_eq!(dest[3], 0);
    assert_eq!(&dest[4..], &[0xAAu8; 6][..]);
}
