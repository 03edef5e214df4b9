//! Thin trusted shims over outside crates and over the few std calls that
//! vstd gives no specification. Each one's contract states only what the
//! callee's own source or documentation shows.

use std::io::Read;
use vstd::prelude::*;

verus! {

/// Relies on str's PartialEq: two slices compare equal exactly when their
/// character sequences are equal.
#[verifier::external_body]
pub fn str_eq(a: &str, b: &str) -> (r: bool)
    ensures
        r == (a@ == b@),
{
    a == b
}

/// Relies on String::from_utf8: returns Ok exactly when the bytes are valid
/// UTF-8, and the returned string's bytes are the input bytes.
#[verifier::external_body]
pub fn bytes_to_string(b: Vec<u8>) -> (r: Option<String>)
    ensures
        match r {
            Some(s) => vstd::utf8::valid_utf8(b@) && s@ == vstd::utf8::decode_utf8(b@),
            None => !vstd::utf8::valid_utf8(b@),
        },
{
    String::from_utf8(b).ok()
}

/// Relies on flate2's read::GzDecoder: decompressing a gzip stream is a
/// function of the input bytes alone. `None` is the decoder's error case.
pub uninterp spec fn gunzip_of(b: Seq<u8>) -> Option<Seq<u8>>;

/// Relies on flate2::read::GzDecoder + std::io::Read::read_to_end to inflate
/// a gzip-compressed buffer.
#[verifier::external_body]
pub fn gzip_decompress(data: &Vec<u8>) -> (r: Option<Vec<u8>>)
    ensures
        match r {
            Some(out) => gunzip_of(data@) == Some(out@),
            None => gunzip_of(data@) is None,
        },
{
    let mut decoder = flate2::read::GzDecoder::new(data.as_slice());
    let mut out: Vec<u8> = Vec::new();
    match decoder.read_to_end(&mut out) {
        Ok(_) => Some(out),
        Err(_) => None,
    }
}

/// Relies on flate2's read::GzEncoder at a fixed compression level:
/// compressing a byte buffer is a function of the input bytes alone.
pub uninterp spec fn gzip_of(b: Seq<u8>) -> Seq<u8>;

/// Relies on flate2::read::GzEncoder + std::io::Read::read_to_end to deflate
/// a buffer into a gzip stream, and on gzip being lossless: inflating the
/// result gives the input back.
#[verifier::external_body]
pub fn gzip_compress(data: &Vec<u8>) -> (r: Vec<u8>)
    ensures
        r@ == gzip_of(data@),
        gunzip_of(r@) == Some(data@),
{
    let mut encoder = flate2::read::GzEncoder::new(data.as_slice(), flate2::Compression::fast());
    let mut out: Vec<u8> = Vec::new();
    // Reading from an in-memory slice cannot fail.
    let _ = encoder.read_to_end(&mut out);
    out
}

/// Relies on rand's Rng::gen_range over a constant non-empty range:
/// the sample lies in the range.
#[verifier::external_body]
pub fn rand_millionths() -> (r: u32)
    ensures
        r < 1000000,
{
    rand::Rng::gen_range(&mut rand::thread_rng(), 0u32..1000000u32)
}

/// Relies on rand's Rng::gen_range over a constant non-empty range:
/// the sample lies in the range. Mirrors the hosted engine's integer roll,
/// which draws from [0, 2^31 - 1).
#[verifier::external_body]
pub fn rand_i31() -> (r: i64)
    ensures
        0 <= r < 0x7fffffff,
{
    rand::Rng::gen_range(&mut rand::thread_rng(), 0i64..0x7fffffffi64)
}

/// Relies on rand's Rng::gen_range over a non-empty range:
/// the sample lies below the bound.
#[verifier::external_body]
pub fn rand_below(n: u32) -> (r: u32)
    requires
        n > 0,
    ensures
        r < n,
{
    rand::Rng::gen_range(&mut rand::thread_rng(), 0u32..n)
}

/// Relies on std::time::SystemTime: whole seconds since the Unix epoch, or 0
/// if the system clock reads before the epoch or past what fits.
#[verifier::external_body]
pub fn unix_time_secs() -> u64 {
    match std::time::SystemTime::now().duration_since(std::time::SystemTime::UNIX_EPOCH) {
        Ok(d) => d.as_secs(),
        Err(_) => 0,
    }
}

} // verus!
