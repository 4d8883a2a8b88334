//! zlib compression of block contents, done by `libflate`.
use vstd::prelude::*;

verus! {

/// The bytes that `libflate`'s zlib decoder reads out of `data`, or `None` where it
/// reports an error (a bad header, bad compressed data, a checksum mismatch).
pub uninterp spec fn zlib_inflated(data: Seq<u8>) -> Option<Seq<u8>>;

/// The zlib stream that `libflate`'s zlib encoder, with its default options, writes for
/// `data`.
pub uninterp spec fn zlib_deflated(data: Seq<u8>) -> Seq<u8>;

/// Inflates a zlib stream with `libflate::zlib::Decoder::new` and `read_to_end`.
/// Claims: the result is `zlib_inflated(data)`, `None` standing for an error of either
/// call.
#[verifier::external_body]
pub(crate) fn zlib_decompress(data: &[u8]) -> (r: Option<Vec<u8>>)
    ensures
        match r {
            Some(v) => zlib_inflated(data@) == Some(v@),
            None => zlib_inflated(data@) is None,
        },
{
    let mut decoder = match libflate::zlib::Decoder::new(data) {
        Ok(decoder) => decoder,
        Err(_) => return None,
    };
    let mut decoded_data = Vec::new();
    match std::io::Read::read_to_end(&mut decoder, &mut decoded_data) {
        Ok(_) => Some(decoded_data),
        Err(_) => None,
    }
}

/// Deflates `data` with `libflate::zlib::Encoder::new` on a `Vec`, `write_all` and
/// `finish().into_result()`. Claims: the result is `zlib_deflated(data)`, and the decoder
/// reads `data` back out of it (zlib is lossless). The encoder reports only errors of the
/// writer it writes into, and writing into a `Vec` reports none, so the result is always
/// there; `None` would stand for an error of one of the calls.
#[verifier::external_body]
pub(crate) fn zlib_compress(data: &[u8]) -> (r: Option<Vec<u8>>)
    ensures
        r is Some,
        r matches Some(c) ==> c@ == zlib_deflated(data@) && zlib_inflated(c@) == Some(data@),
{
    let mut encoder = match libflate::zlib::Encoder::new(Vec::new()) {
        Ok(encoder) => encoder,
        Err(_) => return None,
    };
    if std::io::Write::write_all(&mut encoder, data).is_err() {
        return None;
    }
    encoder.finish().into_result().ok()
}

} // verus!
