//! The decompression stage: a payload that starts with the zlib or the gzip
//! magic is inflated, any other payload is handed on as it is.

use flate2::read::{GzDecoder, ZlibDecoder};
use std::io::Read;
use vstd::prelude::*;
use vstd::utf8::valid_utf8;

verus! {

/// `std::io::Error`: what a decoder reports when it fails.
#[verifier::external_type_specification]
#[verifier::external_body]
pub struct ExIoError(std::io::Error);

/// A payload as it leaves the reassembler, compressed or not.
pub struct UnpackMessage(pub Vec<u8>);

/// The worker of the decompression pool. It holds no state.
pub struct UnPackActor;

/// Why a payload gives no text: the decoder that was chosen by the magic
/// bytes and the error it reported, or bytes that are not UTF-8.
#[derive(Debug)]
pub enum DecodeError {
    Zlib(std::io::Error),
    Gzip(std::io::Error),
    Utf8,
}

/// The gzip magic: `0x1F 0x8B`.
pub open spec fn has_gz_magic(buf: Seq<u8>) -> bool {
    buf.len() >= 2 && buf[0] == 0x1F && buf[1] == 0x8B
}

/// The zlib magic: `0x78`, then the byte of one of the four compression
/// levels.
pub open spec fn has_zlib_magic(buf: Seq<u8>) -> bool {
    buf.len() >= 2 && buf[0] == 0x78 && (buf[1] == 0x01 || buf[1] == 0x5E || buf[1] == 0x9C
        || buf[1] == 0xDA)
}

/// What `flate2::read::ZlibDecoder` yields when the bytes are read through it
/// to the end: the inflated bytes, or `None` where the decoder reports an
/// error.
pub uninterp spec fn zlib_inflated(buf: Seq<u8>) -> Option<Seq<u8>>;

/// What `flate2::read::GzDecoder` yields when the bytes are read through it
/// to the end: the inflated bytes, or `None` where the decoder reports an
/// error.
pub uninterp spec fn gzip_inflated(buf: Seq<u8>) -> Option<Seq<u8>>;

/// The payload behind `buf`: inflated where `buf` starts with a magic, `buf`
/// itself where it does not, `None` where the decoder fails.
pub open spec fn unpacked(buf: Seq<u8>) -> Option<Seq<u8>> {
    if has_zlib_magic(buf) {
        zlib_inflated(buf)
    } else if has_gz_magic(buf) {
        gzip_inflated(buf)
    } else {
        Some(buf)
    }
}

/// Reads `buf` to the end through `flate2::read::ZlibDecoder`. The result is
/// the decoder's: the contract only names it.
#[verifier::external_body]
fn zlib_inflate(buf: &[u8]) -> (r: Result<Vec<u8>, std::io::Error>)
    ensures
        r matches Ok(out) ==> zlib_inflated(buf@) == Some(out@),
        r is Err ==> zlib_inflated(buf@) is None,
{
    let mut out = Vec::new();
    ZlibDecoder::new(buf).read_to_end(&mut out).map(|_| out)
}

/// Reads `buf` to the end through `flate2::read::GzDecoder`. The result is
/// the decoder's: the contract only names it.
#[verifier::external_body]
fn gzip_inflate(buf: &[u8]) -> (r: Result<Vec<u8>, std::io::Error>)
    ensures
        r matches Ok(out) ==> gzip_inflated(buf@) == Some(out@),
        r is Err ==> gzip_inflated(buf@) is None,
{
    let mut out = Vec::new();
    GzDecoder::new(buf).read_to_end(&mut out).map(|_| out)
}

/// `std::str::from_utf8`, asked only whether it succeeds: it does for the
/// bytes that are well-formed UTF-8, and for no others.
#[verifier::external_body]
fn is_utf8(bytes: &[u8]) -> (r: bool)
    ensures
        r == valid_utf8(bytes@),
{
    std::str::from_utf8(bytes).is_ok()
}

/// Whether `buf` starts with the gzip magic.
pub fn is_gz(buf: &[u8]) -> (r: bool)
    ensures
        r == has_gz_magic(buf@),
{
    if buf.len() < 2 {
        return false;
    }
    buf[0] == 31 && buf[1] == 139
}

/// Whether `buf` starts with the zlib magic.
pub fn is_zlib(buf: &[u8]) -> (r: bool)
    ensures
        r == has_zlib_magic(buf@),
{
    if buf.len() < 2 {
        return false;
    }
    if buf[0] != 0x78 {
        return false;
    }
    let level: u8 = buf[1];
    level == 1 || level == 94 || level == 156 || level == 218
}

/// Inflates `buf` where its magic says that it is compressed, and hands it
/// back untouched where it is not.
pub fn unpack(buf: Vec<u8>) -> (r: Result<Vec<u8>, DecodeError>)
    ensures
        r matches Ok(out) ==> unpacked(buf@) == Some(out@),
        r is Err <==> unpacked(buf@) is None,
        r matches Err(e) ==> (e is Zlib <==> has_zlib_magic(buf@)) && (e is Gzip
            <==> !has_zlib_magic(buf@)),
        !has_zlib_magic(buf@) && !has_gz_magic(buf@) ==> r == Ok::<Vec<u8>, DecodeError>(buf),
{
    if is_zlib(buf.as_slice()) {
        match zlib_inflate(buf.as_slice()) {
            Ok(out) => Ok(out),
            Err(e) => Err(DecodeError::Zlib(e)),
        }
    } else if is_gz(buf.as_slice()) {
        match gzip_inflate(buf.as_slice()) {
            Ok(out) => Ok(out),
            Err(e) => Err(DecodeError::Gzip(e)),
        }
    } else {
        Ok(buf)
    }
}

/// Hands `bytes` on where they are UTF-8, as the bytes of a text must be.
pub fn check_utf8(bytes: Vec<u8>) -> (r: Result<Vec<u8>, DecodeError>)
    ensures
        valid_utf8(bytes@) ==> r == Ok::<Vec<u8>, DecodeError>(bytes),
        !valid_utf8(bytes@) ==> r == Err::<Vec<u8>, DecodeError>(DecodeError::Utf8),
{
    if is_utf8(bytes.as_slice()) {
        Ok(bytes)
    } else {
        Err(DecodeError::Utf8)
    }
}

impl UnPackActor {
    /// Unpacks one message: see [`unpack`].
    pub fn handle(&mut self, msg: UnpackMessage) -> (r: Result<Vec<u8>, DecodeError>)
        ensures
            r matches Ok(out) ==> unpacked(msg.0@) == Some(out@),
            r is Err <==> unpacked(msg.0@) is None,
            r matches Err(e) ==> (e is Zlib <==> has_zlib_magic(msg.0@)) && (e is Gzip
                <==> !has_zlib_magic(msg.0@)),
            !has_zlib_magic(msg.0@) && !has_gz_magic(msg.0@) ==> r == Ok::<Vec<u8>, DecodeError>(
                msg.0,
            ),
    {
        unpack(msg.0)
    }
}

} // verus!
