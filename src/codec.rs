use vstd::prelude::*;

verus! {

#[verifier::external_type_specification]
#[verifier::external_body]
pub struct ExIoError(std::io::Error);

/// The raw deflate stream flate2 writes for `data` at compression `level`.
pub uninterp spec fn deflated(data: Seq<u8>, level: u32) -> Seq<u8>;

/// The text flate2 reads out of the raw deflate stream `data`.
pub uninterp spec fn inflated_text(data: Seq<u8>) -> Seq<char>;

/// Relies on flate2's `write::DeflateEncoder` (`new`, `write_all`, `finish`)
/// over a `Vec`: on success, the raw deflate stream of `data` at `level`.
/// Levels above 10 trip a debug assertion in flate2's default backend.
#[verifier::external_body]
fn deflate_stream(data: &[u8], level: u32) -> (r: Result<Vec<u8>, std::io::Error>)
    requires
        level <= 10,
    ensures
        r matches Ok(v) ==> v@ == deflated(data@, level),
{
    let mut encoder = flate2::write::DeflateEncoder::new(Vec::new(), flate2::Compression::new(level));
    std::io::Write::write_all(&mut encoder, data)?;
    encoder.finish()
}

/// Relies on flate2's `read::DeflateDecoder` read through `read_to_string`:
/// on success, the decompressed stream as text.
#[verifier::external_body]
fn inflate_stream(data: &[u8]) -> (r: Result<String, std::io::Error>)
    ensures
        r matches Ok(s) ==> s@ == inflated_text(data@),
{
    let mut out = String::new();
    std::io::Read::read_to_string(&mut flate2::read::DeflateDecoder::new(data), &mut out)?;
    Ok(out)
}

/// Compresses `data` into a raw deflate stream at `level` (0 to 10); `None`
/// when the encoder reports an error.
pub fn deflate(data: &[u8], level: u32) -> (r: Option<Vec<u8>>)
    requires
        level <= 10,
    ensures
        r matches Some(v) ==> v@ == deflated(data@, level),
{
    match deflate_stream(data, level) {
        Ok(v) => Some(v),
        Err(_) => None,
    }
}

/// Decompresses a raw deflate stream holding UTF-8 text; `None` when the
/// stream is corrupt or the text is not UTF-8.
pub fn inflate(data: &[u8]) -> (r: Option<String>)
    ensures
        r matches Some(s) ==> s@ == inflated_text(data@),
{
    match inflate_stream(data) {
        Ok(s) => Some(s),
        Err(_) => None,
    }
}

} // verus!
