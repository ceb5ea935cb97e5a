use std::io::Read;
use vstd::prelude::*;

verus! {

/// What a complete gzip decompression of a byte stream yields: the bytes of
/// its first member, or nothing where the stream is not valid gzip.
pub uninterp spec fn gunzip_of(s: Seq<u8>) -> Option<Seq<u8>>;

/// Relies on `flate2::read::GzDecoder` read to the end over an in-memory
/// slice: the outcome, bytes or failure, depends on the input bytes alone.
#[verifier::external_body]
fn gunzip(compressed: &[u8]) -> (r: Option<Vec<u8>>)
    ensures
        r is Some <==> gunzip_of(compressed@) is Some,
        r is Some ==> gunzip_of(compressed@) == Some(r->Some_0@),
{
    let mut decoder = flate2::read::GzDecoder::new(compressed);
    let mut out: Vec<u8> = Vec::new();
    match decoder.read_to_end(&mut out) {
        Ok(_) => Some(out),
        Err(_) => None,
    }
}

/// Decompresses a gzip archive held in memory. An archive that is not a valid
/// gzip stream is reported as such.
pub fn read_gzip(compressed: &[u8]) -> (r: Result<Vec<u8>, crate::LoadError>)
    ensures
        r is Ok <==> gunzip_of(compressed@) is Some,
        r is Ok ==> gunzip_of(compressed@) == Some(r->Ok_0@),
        r is Err ==> r->Err_0 == crate::LoadError::Gzip,
{
    match gunzip(compressed) {
        Some(bytes) => Ok(bytes),
        None => Err(crate::LoadError::Gzip),
    }
}

} // verus!
