use myemu::machine::png::{adler32, crc32, crc32_table, write_chunk, write_png, zlib_stored};

#[test]
fn crc_and_adler_match_reference_values() {
    let table = crc32_table();
    assert_eq!(crc32(&table, b"123456789"), 0xCBF4_3926);
    assert_eq!(adler32(b"Wikipedia"), 0x11E6_0398);
}

#[test]
fn png_has_signature_and_chunks() {
    let mut buf = Vec::new();
    write_png(&mut buf, &[0xFF0000, 0x00FF00, 0x0000FF, 0xFFFFFF], 2, 2);
    assert_eq!(&buf[..8], &[0x89, b'P', b'N', b'G', 0x0D, 0x0A, 0x1A, 0x0A]);
    assert_eq!(&buf[12..16], b"IHDR");
    assert_eq!(&buf[buf.len() - 8..buf.len() - 4], b"IEND");
    let idat_len = u32::from_be_bytes([buf[33], buf[34], buf[35], buf[36]]) as usize;
    assert_eq!(idat_len, 2 + 5 + 14 + 4);
}

#[test]
fn checksums_of_nothing() {
    let table = crc32_table();
    assert_eq!(crc32(&table, b""), 0);
    assert_eq!(adler32(b""), 1);
    assert_eq!(table[1], 0x7707_3096);
}

#[test]
fn adler_reduces_across_long_inputs() {
    // 6000 bytes of 0xFF cross the reduction interval.
    let data = vec![0xFFu8; 6000];
    let mut a: u64 = 1;
    let mut b: u64 = 0;
    for &x in &data {
        a = (a + x as u64) % 65521;
        b = (b + a) % 65521;
    }
    assert_eq!(adler32(&data) as u64, (b << 16) | a);
}

#[test]
fn zlib_of_empty_input_is_one_empty_final_block() {
    assert_eq!(zlib_stored(&[]), vec![0x78, 0x01, 0x01, 0x00, 0x00, 0xFF, 0xFF, 0, 0, 0, 1]);
}

#[test]
fn zlib_splits_long_input_into_stored_blocks() {
    let raw = vec![7u8; 70000];
    let z = zlib_stored(&raw);
    assert_eq!(z.len(), 2 + 5 + 65535 + 5 + (70000 - 65535) + 4);
    assert_eq!(&z[2..7], &[0x00, 0xFF, 0xFF, 0x00, 0x00]);
    let second = 2 + 5 + 65535;
    let rest = (70000 - 65535) as u16;
    assert_eq!(z[second], 0x01);
    assert_eq!(&z[second + 1..second + 3], &rest.to_le_bytes());
    assert_eq!(&z[second + 3..second + 5], &(!rest).to_le_bytes());
}

#[test]
fn chunk_frames_body_with_length_and_crc() {
    let table = crc32_table();
    let mut out = Vec::new();
    write_chunk(&mut out, &table, b"IEND", &[]);
    assert_eq!(out, vec![0, 0, 0, 0, b'I', b'E', b'N', b'D', 0xAE, 0x42, 0x60, 0x82]);
}
