use vstd::prelude::*;
use vstd::utf8::{decode_utf8, valid_utf8};

verus! {

/// What zlib inflation of `data` gives when the output may hold at most `limit` bytes:
/// the inflated bytes, or `Err(true)` when the limit was reached before the end of the
/// stream, or `Err(false)` when the stream is corrupt.
pub uninterp spec fn zlib_inflated(data: Seq<u8>, limit: nat) -> Result<Seq<u8>, bool>;

/// Why an inflation failed.
#[derive(Clone, Copy, Debug, PartialEq, Eq, Structural)]
pub enum InflateFailure {
    Corrupt,
    LimitReached,
}

/// Relies on miniz_oxide::inflate::decompress_to_vec_zlib_with_limit, which inflates a
/// zlib stream into at most `limit` bytes and reports `HasMoreOutput` when the limit
/// stops it.
#[verifier::external_body]
pub(crate) fn inflate_zlib(data: &[u8], limit: usize) -> (r: Result<Vec<u8>, InflateFailure>)
    ensures
        match r {
            Ok(v) => zlib_inflated(data@, limit as nat) == Ok::<Seq<u8>, bool>(v@),
            Err(f) => zlib_inflated(data@, limit as nat) == Err::<Seq<u8>, bool>(
                f == InflateFailure::LimitReached,
            ),
        },
{
    match miniz_oxide::inflate::decompress_to_vec_zlib_with_limit(data, limit) {
        Ok(v) => Ok(v),
        Err(e) => match e.status {
            miniz_oxide::inflate::TINFLStatus::HasMoreOutput => Err(InflateFailure::LimitReached),
            _ => Err(InflateFailure::Corrupt),
        },
    }
}

/// Relies on String::from_utf8: it succeeds exactly on valid UTF-8, and the string then
/// holds the characters the bytes encode.
#[verifier::external_body]
pub(crate) fn utf8_string(bytes: Vec<u8>) -> (r: Option<String>)
    ensures
        r is Some <==> valid_utf8(bytes@),
        r is Some ==> r->Some_0@ == decode_utf8(bytes@),
{
    String::from_utf8(bytes).ok()
}

/// Relies on str::chars: the characters of `s`, in order.
#[verifier::external_body]
pub(crate) fn chars_of(s: &str) -> (r: Vec<char>)
    ensures
        r@ == s@,
{
    s.chars().collect()
}

/// Relies on String's FromIterator<char>: the string of the characters `t[lo..hi]`.
#[verifier::external_body]
pub(crate) fn string_of(t: &[char], lo: usize, hi: usize) -> (r: String)
    requires
        lo <= hi <= t@.len(),
    ensures
        r@ == t@.subrange(lo as int, hi as int),
{
    t[lo..hi].iter().collect()
}

} // verus!
