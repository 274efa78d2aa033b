//! Compression and digests, done by outside crates.

use base64::prelude::{Engine, BASE64_STANDARD};
use brotli::{CompressorReader, Decompressor};
use flate2::read::GzDecoder;
use flate2::write::GzEncoder;
use flate2::Compression;
use sha2::{Digest, Sha256};
use std::io::{Cursor, Read, Write};
use vstd::prelude::*;

verus! {

/// The view of optional bytes.
pub open spec fn bytes_option(o: Option<Vec<u8>>) -> Option<Seq<u8>> {
    match o {
        Some(v) => Some(v@),
        None => None,
    }
}

pub open spec fn bytes_result(r: Result<Vec<u8>, String>) -> Result<Seq<u8>, Seq<char>> {
    match r {
        Ok(v) => Ok(v@),
        Err(e) => Err(e@),
    }
}

/// What a gzip stream holds, or the reason why the bytes are no such stream.
pub uninterp spec fn gzip_contents(data: Seq<u8>) -> Result<Seq<u8>, Seq<char>>;

/// `GzDecoder` reads a gzip stream to its end. What a stream holds depends on
/// its bytes alone, and so does the text of its error.
#[verifier::external_body]
pub(crate) fn read_gzip(data: &[u8]) -> (r: Result<Vec<u8>, String>)
    ensures
        bytes_result(r) == gzip_contents(data@),
{
    let mut decompressed = Vec::new();
    GzDecoder::new(data).read_to_end(&mut decompressed).map_err(|e| e.to_string())?;
    Ok(decompressed)
}

/// What a gzip stream holds; nothing where the bytes are no such stream.
pub open spec fn gunzipped(data: Seq<u8>) -> Option<Seq<u8>> {
    match gzip_contents(data) {
        Ok(d) => Some(d),
        Err(_) => None,
    }
}

pub(crate) fn gunzip(data: &[u8]) -> (r: Option<Vec<u8>>)
    ensures
        bytes_option(r) == gunzipped(data@),
{
    match read_gzip(data) {
        Ok(d) => Some(d),
        Err(_) => None,
    }
}

/// The gzip stream that holds some bytes, at a level of compression.
pub uninterp spec fn gzipped(data: Seq<u8>, level: u32) -> Option<Seq<u8>>;

/// `GzEncoder` writes a gzip stream, which `GzDecoder` reads back.
#[verifier::external_body]
pub(crate) fn gzip(data: &[u8], level: u32) -> (r: Option<Vec<u8>>)
    requires
        level <= 9,
    ensures
        bytes_option(r) == gzipped(data@, level),
        r matches Some(z) ==> gunzipped(z@) == Some(data@),
{
    let mut encoder = GzEncoder::new(Vec::new(), Compression::new(level));
    encoder.write_all(data).ok()?;
    encoder.finish().ok()
}

/// What is read of a brotli stream through a buffer, or the reason why the bytes are
/// no such stream.
pub uninterp spec fn brotli_contents(data: Seq<u8>, buffer_size: usize) -> Result<
    Seq<u8>,
    Seq<char>,
>;

/// `brotli::Decompressor` reads a brotli stream to its end. What a stream holds
/// depends on its bytes alone, and so does the text of its error.
#[verifier::external_body]
pub(crate) fn read_brotli(data: &[u8], buffer_size: usize) -> (r: Result<Vec<u8>, String>)
    requires
        buffer_size > 0,
    ensures
        bytes_result(r) == brotli_contents(data@, buffer_size),
{
    let mut decompressed = Vec::new();
    let mut reader = Decompressor::new(data, buffer_size);
    reader.read_to_end(&mut decompressed).map_err(|e| e.to_string())?;
    Ok(decompressed)
}

/// What is read of a brotli stream through a buffer; nothing where the bytes are
/// no such stream.
pub open spec fn unbrotlied(data: Seq<u8>, buffer_size: usize) -> Option<Seq<u8>> {
    match brotli_contents(data, buffer_size) {
        Ok(d) => Some(d),
        Err(_) => None,
    }
}

pub(crate) fn unbrotli(data: &[u8], buffer_size: usize) -> (r: Option<Vec<u8>>)
    requires
        buffer_size > 0,
    ensures
        bytes_option(r) == unbrotlied(data@, buffer_size),
{
    match read_brotli(data, buffer_size) {
        Ok(d) => Some(d),
        Err(_) => None,
    }
}

/// The brotli stream that holds some bytes, at a quality and a window size.
pub uninterp spec fn brotlied(
    data: Seq<u8>,
    buffer_size: usize,
    quality: u32,
    window: u32,
) -> Option<Seq<u8>>;

/// `brotli::CompressorReader` hands out a brotli stream, which
/// `brotli::Decompressor` reads back through any buffer. The crate is built with its
/// feature `portable-float`, under which its cost estimates come from tables, and the
/// stream depends on the arguments alone.
#[verifier::external_body]
pub(crate) fn brotli_compress(
    data: &[u8],
    buffer_size: usize,
    quality: u32,
    window: u32,
) -> (r: Option<Vec<u8>>)
    requires
        buffer_size > 0,
        quality <= 11,
        10 <= window <= 24,
    ensures
        bytes_option(r) == brotlied(data@, buffer_size, quality, window),
        r matches Some(z) ==> forall|b: usize| b > 0 ==> #[trigger] unbrotlied(z@, b) == Some(data@),
{
    let mut compressed = Vec::new();
    CompressorReader::new(Cursor::new(data), buffer_size, quality, window).read_to_end(
        &mut compressed,
    ).ok()?;
    Some(compressed)
}

/// The SHA-256 digest of some bytes.
pub uninterp spec fn sha256_digest(data: Seq<u8>) -> Seq<u8>;

/// `Sha256::digest`, which has 32 bytes.
#[verifier::external_body]
pub(crate) fn sha256(data: &[u8]) -> (r: Vec<u8>)
    ensures
        r@ == sha256_digest(data@),
        r@.len() == 32,
{
    Sha256::digest(data).to_vec()
}

/// Bytes in the standard base 64 alphabet, padded.
pub uninterp spec fn base64_text(data: Seq<u8>) -> Seq<char>;

/// `BASE64_STANDARD.encode`.
#[verifier::external_body]
pub(crate) fn base64_encode(data: &[u8]) -> (r: String)
    ensures
        r@ == base64_text(data@),
{
    BASE64_STANDARD.encode(data)
}

} // verus!
