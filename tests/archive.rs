use tests_lib::archive::{get_compression_type, CompressAlgo};

fn padded(prefix: &[u8]) -> Vec<u8> {
    let mut v = prefix.to_vec();
    v.resize(300, 0);
    v
}

#[test]
fn magic_numbers_are_recognised() {
    assert_eq!(get_compression_type(&padded(&[0x1F, 0x8B, 8, 0])), CompressAlgo::Gzip);
    assert_eq!(get_compression_type(&padded(b"BZh91AY")), CompressAlgo::Bzip2);
    assert_eq!(get_compression_type(&padded(&[0xFD, b'7', b'z', b'X', b'Z', 0])), CompressAlgo::Xz);
    assert_eq!(get_compression_type(&padded(&[b'P', b'K', 3, 4])), CompressAlgo::Zip);
}

#[test]
fn tar_is_known_by_ustar() {
    let mut v = padded(b"main.c");
    v[257..262].copy_from_slice(b"ustar");
    assert_eq!(get_compression_type(&v), CompressAlgo::Tar);
    assert_eq!(get_compression_type(&v[..261]), CompressAlgo::Invalid);
}

#[test]
fn short_or_unknown_files_are_invalid() {
    assert_eq!(get_compression_type(&[0x1F, 0x8B, 0, 0, 0]), CompressAlgo::Invalid);
    assert_eq!(get_compression_type(b""), CompressAlgo::Invalid);
    assert_eq!(get_compression_type(&padded(b"plain text")), CompressAlgo::Invalid);
    assert_eq!(get_compression_type(b"PK\x03\x04ab"), CompressAlgo::Zip);
}
