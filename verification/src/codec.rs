//! The two decoders that the library calls: zlib and bzip2.
//!
//! Neither is verified here. Each is a function of its input alone, so what
//! it returns has a name, and the contracts of the library speak of that
//! name.
use vstd::prelude::*;

verus! {

/// What `flate2`'s zlib decoder makes of `input`: the inflated bytes of the
/// first zlib stream in it, or the message of the error that it reports.
pub uninterp spec fn zlib_inflated(input: Seq<u8>) -> Result<Seq<u8>, Seq<char>>;

/// What `bzip2`'s decoder makes of `input`: the decoded bytes of the first
/// bzip2 stream in it, or the message of the error that it reports.
pub uninterp spec fn bzip2_decoded(input: Seq<u8>) -> Result<Seq<u8>, Seq<char>>;

/// Reads `flate2::read::ZlibDecoder` over `input` to its end.
///
/// Trusted: that the decoder returns on every input, and that its output or
/// its error depends on the input alone. Nothing is claimed of what the
/// output is.
#[verifier::external_body]
pub(crate) fn zlib_inflate(input: &[u8]) -> (r: Result<Vec<u8>, String>)
    ensures
        match r {
            Ok(data) => zlib_inflated(input@) == Ok::<Seq<u8>, Seq<char>>(data@),
            Err(message) => zlib_inflated(input@) == Err::<Seq<u8>, Seq<char>>(message@),
        },
{
    let mut data: Vec<u8> = Vec::new();
    match std::io::Read::read_to_end(&mut flate2::read::ZlibDecoder::new(input), &mut data) {
        Ok(_) => Ok(data),
        Err(e) => Err(e.to_string()),
    }
}

/// Reads `bzip2::read::BzDecoder` over `input` to its end.
///
/// Trusted: that the decoder returns on every input, and that its output or
/// its error depends on the input alone. Nothing is claimed of what the
/// output is.
#[verifier::external_body]
pub(crate) fn bzip2_decode(input: &[u8]) -> (r: Result<Vec<u8>, String>)
    ensures
        match r {
            Ok(data) => bzip2_decoded(input@) == Ok::<Seq<u8>, Seq<char>>(data@),
            Err(message) => bzip2_decoded(input@) == Err::<Seq<u8>, Seq<char>>(message@),
        },
{
    let mut data: Vec<u8> = Vec::new();
    match std::io::Read::read_to_end(&mut bzip2::read::BzDecoder::new(input), &mut data) {
        Ok(_) => Ok(data),
        Err(e) => Err(e.to_string()),
    }
}

} // verus!
