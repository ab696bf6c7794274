use myemu::loader::decode_binary;

#[test]
fn words_are_big_endian() {
    let bytes = vec![0x12, 0x34, 0x56, 0x78, 0x00, 0x00, 0x00, 0x01];
    assert_eq!(decode_binary("p.bin", &bytes), Ok(vec![0x1234_5678, 1]));
    assert_eq!(decode_binary("e.bin", &Vec::new()), Ok(Vec::new()));
}

#[test]
fn ragged_image_is_refused() {
    assert_eq!(
        decode_binary("p.bin", &vec![1, 2, 3]),
        Err("Binary file size must be multiple of 4 bytes: p.bin".to_string())
    );
}
