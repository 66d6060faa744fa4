//! Trusted boundary to `flate2`: the appstream catalog file is stored
//! gzip-compressed in the repository.

use std::io::Read;
use std::io::Write;

use vstd::prelude::*;

verus! {

/// What a gzip stream decompresses and UTF-8-decodes to; `None` when the
/// stream or its contents are invalid.  A function of the bytes alone.
pub uninterp spec fn gunzip_text(data: Seq<u8>) -> Option<Seq<char>>;

/// The gzip encoding of the bytes at the default compression level: a
/// function of the bytes alone.
pub uninterp spec fn gzip_bytes(data: Seq<u8>) -> Seq<u8>;

/// Relies on `flate2::read::GzDecoder` and `Read::read_to_string`:
/// decompresses a gzip stream and decodes the result as UTF-8 text,
/// deterministically in the input bytes.
#[verifier::external_body]
pub fn gunzip_to_string(data: &[u8]) -> (r: Option<String>)
    ensures
        r matches Some(s) ==> gunzip_text(data@) == Some(s@),
        r is None ==> gunzip_text(data@) is None,
{
    let mut s = String::new();
    match flate2::read::GzDecoder::new(data).read_to_string(&mut s) {
        Ok(_) => Some(s),
        Err(_) => None,
    }
}

/// Relies on `flate2::write::GzEncoder`: compresses the bytes at the
/// default level, deterministically in the input bytes.
#[verifier::external_body]
pub fn gzip_data(data: &[u8]) -> (r: Option<Vec<u8>>)
    ensures
        r matches Some(v) ==> v@ == gzip_bytes(data@),
{
    let mut enc = flate2::write::GzEncoder::new(Vec::new(), flate2::Compression::default());
    if enc.write_all(data).is_err() {
        return None;
    }
    match enc.finish() {
        Ok(v) => Some(v),
        Err(_) => None,
    }
}

} // verus!
