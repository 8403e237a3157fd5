use flate2::write::{GzEncoder, ZlibEncoder};
use flate2::Compression;
use gelf_mover::gelf::unpacking::{
    check_utf8, is_gz, is_zlib, unpack, DecodeError, UnPackActor, UnpackMessage,
};
use std::io::Write;

fn gzip(data: &[u8]) -> Vec<u8> {
    let mut e = GzEncoder::new(Vec::new(), Compression::default());
    e.write_all(data).unwrap();
    e.finish().unwrap()
}

fn zlib(data: &[u8], level: Compression) -> Vec<u8> {
    let mut e = ZlibEncoder::new(Vec::new(), level);
    e.write_all(data).unwrap();
    e.finish().unwrap()
}

#[test]
fn test_gzip() {
    let mut e = GzEncoder::new(Vec::new(), Compression::default());
    e.write_all(b"Test").unwrap();
    assert!(is_gz(&e.finish().unwrap()));
}

#[test]
fn test_zlib() {
    let mut e = ZlibEncoder::new(Vec::new(), Compression::default());
    e.write_all(b"Test").unwrap();
    assert!(is_zlib(&e.finish().unwrap()));
}

#[test]
fn unpacking_test_actor() {
    let mut gelf_unpacker = UnPackActor;

    let mut e = GzEncoder::new(Vec::new(), Compression::default());
    e.write_all(b"Test").unwrap();

    let r = gelf_unpacker
        .handle(UnpackMessage(e.finish().unwrap()))
        .unwrap();

    assert_eq!(String::from_utf8(r).unwrap(), "Test");
}

#[test]
fn unpack_inflates_zlib() {
    let packed = zlib(b"a zlib payload", Compression::default());
    assert_eq!(&packed[..2], &[0x78, 0x9C]);
    assert_eq!(unpack(packed).unwrap(), b"a zlib payload".to_vec());
}

#[test]
fn unpack_inflates_every_zlib_level() {
    for level in [Compression::none(), Compression::fast(), Compression::best()] {
        let packed = zlib(b"levels", level);
        assert!(is_zlib(&packed));
        assert_eq!(unpack(packed).unwrap(), b"levels".to_vec());
    }
}

#[test]
fn unpack_inflates_gzip() {
    assert_eq!(unpack(gzip(b"Test")).unwrap(), b"Test".to_vec());
}

#[test]
fn unpack_passes_plain_bytes() {
    let plain = b"{\"version\":\"1.1\"}".to_vec();
    assert_eq!(unpack(plain.clone()).unwrap(), plain);
    assert_eq!(unpack(Vec::new()).unwrap(), Vec::<u8>::new());
    assert_eq!(unpack(vec![0x78]).unwrap(), vec![0x78]);
    assert_eq!(unpack(vec![0x78, 0x02, 1, 2]).unwrap(), vec![0x78, 0x02, 1, 2]);
    assert_eq!(unpack(vec![0x1F, 0x8A, 1]).unwrap(), vec![0x1F, 0x8A, 1]);
}

#[test]
fn unpack_reports_the_decoder_that_failed() {
    assert!(matches!(unpack(vec![0x78, 0x9C, 0xFF, 0xFF, 0xFF]), Err(DecodeError::Zlib(_))));
    assert!(matches!(unpack(vec![0x1F, 0x8B, 0xFF, 0xFF, 0xFF]), Err(DecodeError::Gzip(_))));
    assert!(matches!(unpack(vec![0x78, 0xDA]), Err(DecodeError::Zlib(_))));
}

#[test]
fn magic_needs_two_bytes() {
    assert!(!is_gz(&[]));
    assert!(!is_gz(&[0x1F]));
    assert!(is_gz(&[0x1F, 0x8B]));
    assert!(!is_zlib(&[0x78]));
    assert!(is_zlib(&[0x78, 0x01]));
    assert!(is_zlib(&[0x78, 0x5E]));
    assert!(is_zlib(&[0x78, 0x9C]));
    assert!(is_zlib(&[0x78, 0xDA]));
    assert!(!is_zlib(&[0x78, 0x00]));
    assert!(!is_zlib(&[0x79, 0x9C]));
}

#[test]
fn unpack_does_not_look_at_the_text() {
    assert_eq!(unpack(vec![0xFF, 0xFE, 0xFD]).unwrap(), vec![0xFF, 0xFE, 0xFD]);
    assert_eq!(unpack(gzip(&[0xFF])).unwrap(), vec![0xFF]);
}

#[test]
fn utf8_is_checked() {
    assert_eq!(check_utf8("héllo €".as_bytes().to_vec()).unwrap(), "héllo €".as_bytes().to_vec());
    assert_eq!(check_utf8(Vec::new()).unwrap(), Vec::<u8>::new());
    assert!(matches!(check_utf8(vec![0x80]), Err(DecodeError::Utf8)));
    assert!(matches!(check_utf8(vec![0xE2, 0x82]), Err(DecodeError::Utf8)));
    assert!(matches!(check_utf8(vec![0xF4, 0x90, 0x80, 0x80]), Err(DecodeError::Utf8)));
}
