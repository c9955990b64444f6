use era_consensus::bytesrepr::{read_u32, read_u32_vec, read_u64, write_u32, write_u32_vec, write_u64, CodecError};

#[test]
fn u32_little_endian_bytes() {
    let mut out: Vec<u8> = Vec::new();
    write_u32(&mut out, 0x12345678);
    assert_eq!(out, vec![0x78, 0x56, 0x34, 0x12]);
}

#[test]
fn u32_round_trip_with_remainder() {
    let mut out: Vec<u8> = Vec::new();
    write_u32(&mut out, 4_000_000_000);
    out.push(0xAB);
    let (v, rest) = read_u32(&out).unwrap();
    assert_eq!(v, 4_000_000_000);
    assert_eq!(rest, &[0xAB]);
}

#[test]
fn u32_early_end_of_stream() {
    let bytes = [1u8, 2, 3];
    assert_eq!(read_u32(&bytes), Err(CodecError::EarlyEndOfStream));
}

#[test]
fn u64_little_endian_bytes() {
    let mut out: Vec<u8> = Vec::new();
    write_u64(&mut out, 0x0102030405060708);
    assert_eq!(out, vec![8, 7, 6, 5, 4, 3, 2, 1]);
}

#[test]
fn u64_round_trip() {
    let mut out: Vec<u8> = Vec::new();
    write_u64(&mut out, u64::MAX - 7);
    let (v, rest) = read_u64(&out).unwrap();
    assert_eq!(v, u64::MAX - 7);
    assert!(rest.is_empty());
}

#[test]
fn u64_early_end_of_stream() {
    let bytes = [0u8; 7];
    assert_eq!(read_u64(&bytes), Err(CodecError::EarlyEndOfStream));
}

#[test]
fn u32_vec_length_prefixed_bytes() {
    let mut out: Vec<u8> = Vec::new();
    write_u32_vec(&mut out, &vec![1u32, 2]);
    assert_eq!(out, vec![2, 0, 0, 0, 1, 0, 0, 0, 2, 0, 0, 0]);
}

#[test]
fn u32_vec_round_trip() {
    let mut out: Vec<u8> = Vec::new();
    write_u32_vec(&mut out, &vec![10u32, 20, 30]);
    out.push(9);
    let (v, rest) = read_u32_vec(&out).unwrap();
    assert_eq!(v, vec![10, 20, 30]);
    assert_eq!(rest, &[9]);
}

#[test]
fn u32_vec_truncated_elements() {
    // A length prefix of two elements followed by only one element's bytes.
    let bytes = [2u8, 0, 0, 0, 1, 0, 0, 0];
    assert_eq!(read_u32_vec(&bytes), Err(CodecError::EarlyEndOfStream));
}

#[test]
fn u32_vec_empty() {
    let mut out: Vec<u8> = Vec::new();
    write_u32_vec(&mut out, &Vec::new());
    assert_eq!(out, vec![0, 0, 0, 0]);
    let (v, rest) = read_u32_vec(&out).unwrap();
    assert!(v.is_empty());
    assert!(rest.is_empty());
}
