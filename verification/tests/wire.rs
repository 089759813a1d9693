use peer_chat::wire::{
    append_bytes, bytes_equal, read_array_32, read_array_64, read_byte_string, read_varint, write_byte_string,
    write_varint, VARINT_MAX_U128, VARINT_MAX_U32, VARINT_MAX_U64,
};

fn written(n: u128) -> Vec<u8> {
    let mut out = Vec::new();
    write_varint(&mut out, n);
    out
}

#[test]
fn varint_of_small_numbers_is_one_byte() {
    assert_eq!(written(0), vec![0x00]);
    assert_eq!(written(1), vec![0x01]);
    assert_eq!(written(127), vec![0x7f]);
}

#[test]
fn varint_of_larger_numbers() {
    assert_eq!(written(128), vec![0x80, 0x01]);
    assert_eq!(written(300), vec![0xac, 0x02]);
    assert_eq!(written(16383), vec![0xff, 0x7f]);
    assert_eq!(written(16384), vec![0x80, 0x80, 0x01]);
    assert_eq!(written(u32::MAX as u128), vec![0xff, 0xff, 0xff, 0xff, 0x0f]);
}

#[test]
fn varint_of_the_largest_numbers() {
    let mut expected = vec![0xffu8; 9];
    expected.push(0x01);
    assert_eq!(written(u64::MAX as u128), expected);
    let mut expected = vec![0xffu8; 18];
    expected.push(0x03);
    assert_eq!(written(u128::MAX), expected);
}

#[test]
fn varint_is_appended_to_what_is_there() {
    let mut out = vec![9u8, 9];
    write_varint(&mut out, 300);
    assert_eq!(out, vec![9, 9, 0xac, 0x02]);
}

#[test]
fn varint_agrees_with_postcard() {
    for n in [0u128, 1, 127, 128, 255, 300, 65535, 1 << 40, u64::MAX as u128, u128::MAX - 7, u128::MAX] {
        assert_eq!(written(n), postcard::to_stdvec(&n).unwrap());
    }
    for n in [0u64, 5, 200, 1 << 33, u64::MAX] {
        assert_eq!(written(n as u128), postcard::to_stdvec(&n).unwrap());
    }
    for n in [0u32, 1, 77, 1 << 20, u32::MAX] {
        assert_eq!(written(n as u128), postcard::to_stdvec(&n).unwrap());
    }
}

#[test]
fn read_varint_gives_value_and_next_position() {
    assert_eq!(read_varint(&[0x00], 0, VARINT_MAX_U32, u32::MAX as u128), Some((0, 1)));
    assert_eq!(read_varint(&[0xac, 0x02, 0x55], 0, VARINT_MAX_U32, u32::MAX as u128), Some((300, 2)));
    assert_eq!(read_varint(&[0x55, 0xac, 0x02], 1, VARINT_MAX_U32, u32::MAX as u128), Some((300, 3)));
}

#[test]
fn read_varint_round_trip() {
    for n in [0u128, 1, 127, 128, 300, 1 << 63, u64::MAX as u128, u128::MAX] {
        let bytes = written(n);
        assert_eq!(read_varint(&bytes, 0, VARINT_MAX_U128, u128::MAX), Some((n, bytes.len())));
    }
}

#[test]
fn read_varint_fails_where_the_bytes_end() {
    assert_eq!(read_varint(&[], 0, VARINT_MAX_U32, u32::MAX as u128), None);
    assert_eq!(read_varint(&[0x80], 0, VARINT_MAX_U32, u32::MAX as u128), None);
    assert_eq!(read_varint(&[0x01], 1, VARINT_MAX_U32, u32::MAX as u128), None);
    assert_eq!(read_varint(&[0xff, 0xff], 0, VARINT_MAX_U32, u32::MAX as u128), None);
}

#[test]
fn read_varint_accepts_longer_encodings() {
    assert_eq!(read_varint(&[0x80, 0x00], 0, VARINT_MAX_U32, u32::MAX as u128), Some((0, 2)));
    assert_eq!(read_varint(&[0x81, 0x80, 0x00], 0, VARINT_MAX_U32, u32::MAX as u128), Some((1, 3)));
    assert_eq!(
        read_varint(&[0x80, 0x80, 0x80, 0x80, 0x00], 0, VARINT_MAX_U32, u32::MAX as u128),
        Some((0, 5))
    );
}

#[test]
fn read_varint_rejects_what_is_too_long() {
    assert_eq!(read_varint(&[0x80, 0x80, 0x80, 0x80, 0x80, 0x00], 0, VARINT_MAX_U32, u32::MAX as u128), None);
    let mut bytes = vec![0x80u8; 10];
    bytes.push(0x00);
    assert_eq!(read_varint(&bytes, 0, VARINT_MAX_U64, u64::MAX as u128), None);
    let mut bytes = vec![0x80u8; 19];
    bytes.push(0x00);
    assert_eq!(read_varint(&bytes, 0, VARINT_MAX_U128, u128::MAX), None);
}

#[test]
fn read_varint_rejects_what_is_too_large() {
    assert_eq!(read_varint(&[0xff, 0xff, 0xff, 0xff, 0x0f], 0, VARINT_MAX_U32, u32::MAX as u128), Some((u32::MAX as u128, 5)));
    assert_eq!(read_varint(&[0xff, 0xff, 0xff, 0xff, 0x10], 0, VARINT_MAX_U32, u32::MAX as u128), None);
    assert_eq!(read_varint(&[0x80, 0x80, 0x80, 0x80, 0x10], 0, VARINT_MAX_U32, u32::MAX as u128), None);
    let mut bytes = vec![0xffu8; 9];
    bytes.push(0x02);
    assert_eq!(read_varint(&bytes, 0, VARINT_MAX_U64, u64::MAX as u128), None);
    let mut bytes = vec![0xffu8; 18];
    bytes.push(0x04);
    assert_eq!(read_varint(&bytes, 0, VARINT_MAX_U128, u128::MAX), None);
}

#[test]
fn read_varint_agrees_with_postcard() {
    let cases: [&[u8]; 8] = [
        &[0x00],
        &[0x80, 0x00],
        &[0xff, 0xff, 0xff, 0xff, 0x0f],
        &[0xff, 0xff, 0xff, 0xff, 0x10],
        &[0x80, 0x80, 0x80, 0x80, 0x80, 0x00],
        &[0x80],
        &[],
        &[0xac, 0x02, 0x01],
    ];
    for bytes in cases {
        let ours = read_varint(bytes, 0, VARINT_MAX_U32, u32::MAX as u128).map(|(value, _)| value as u32);
        let theirs = postcard::from_bytes::<u32>(bytes).ok();
        assert_eq!(ours, theirs);
    }
}

#[test]
fn byte_string_is_length_then_bytes() {
    let mut out = Vec::new();
    write_byte_string(&mut out, b"");
    assert_eq!(out, vec![0]);
    let mut out = Vec::new();
    write_byte_string(&mut out, b"abc");
    assert_eq!(out, vec![3, b'a', b'b', b'c']);
    let mut out = Vec::new();
    write_byte_string(&mut out, &[7u8; 200]);
    assert_eq!(&out[..2], &[0xc8, 0x01]);
    assert_eq!(&out[2..], &[7u8; 200]);
}

#[test]
fn byte_string_agrees_with_postcard() {
    let data: Vec<u8> = (0..=255u8).collect();
    let mut out = Vec::new();
    write_byte_string(&mut out, &data);
    assert_eq!(out, postcard::to_stdvec(&data).unwrap());
}

#[test]
fn read_byte_string_gives_the_positions_of_the_bytes() {
    assert_eq!(read_byte_string(&[3, 1, 2, 3, 9], 0), Some((1, 4)));
    assert_eq!(read_byte_string(&[9, 0], 1), Some((2, 2)));
    assert_eq!(read_byte_string(&[0x80, 0x00, 5], 0), Some((2, 2)));
}

#[test]
fn read_byte_string_fails_where_bytes_are_missing() {
    assert_eq!(read_byte_string(&[], 0), None);
    assert_eq!(read_byte_string(&[3, 1, 2], 0), None);
    assert_eq!(read_byte_string(&[0xff, 0xff, 0xff, 0xff, 0xff, 0xff, 0xff, 0xff, 0xff, 0x01], 0), None);
    assert_eq!(read_byte_string(&[0x80], 0), None);
}

#[test]
fn append_bytes_appends() {
    let mut out = vec![1u8];
    append_bytes(&mut out, &[2, 3]);
    append_bytes(&mut out, &[]);
    assert_eq!(out, vec![1, 2, 3]);
}

#[test]
fn read_arrays_copy_from_the_position() {
    let bytes: Vec<u8> = (0..100u8).collect();
    let a = read_array_32(&bytes, 3);
    assert_eq!(&a[..], &bytes[3..35]);
    let b = read_array_64(&bytes, 36);
    assert_eq!(&b[..], &bytes[36..100]);
}

#[test]
fn bytes_equal_on_slices() {
    assert!(bytes_equal(b"", b""));
    assert!(bytes_equal(b"abc", b"abc"));
    assert!(!bytes_equal(b"abc", b"abd"));
    assert!(!bytes_equal(b"abc", b"ab"));
    assert!(!bytes_equal(b"", b"a"));
}
