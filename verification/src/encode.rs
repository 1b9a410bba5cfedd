//! The image payload format: a self-describing data URI holding a base64
//! encoded PNG byte stream.

use vstd::prelude::*;
use vstd::string::StringExecFns;
use base64::Engine;

verus! {

/// What base64's standard-alphabet engine produces for a byte sequence. The
/// encoding is a function of the input bytes alone.
pub uninterp spec fn base64_of(bytes: Seq<u8>) -> Seq<char>;

/// What base64's standard-alphabet engine accepts and decodes: `Some` with
/// the decoded bytes for well-formed input, `None` otherwise. A function of
/// the input characters alone.
pub uninterp spec fn base64_decode_of(s: Seq<char>) -> Option<Seq<u8>>;

/// Relies on base64's `STANDARD` engine `encode`: the standard alphabet with
/// padding, four output characters for every started group of three input
/// bytes, and the engine's `decode` inverts it, so the output decodes back
/// to the input. The engine panics when the encoded length cannot be
/// represented in `usize` (inputs in the top quarter of the `usize` range),
/// so such inputs are excluded here.
#[verifier::external_body]
pub(crate) fn base64_encode(bytes: &Vec<u8>) -> (r: String)
    requires
        bytes@.len() <= usize::MAX / 4,
    ensures
        r@ == base64_of(bytes@),
        r@.len() == 4 * ((bytes@.len() + 2) / 3),
        base64_decode_of(r@) == Some(bytes@),
{
    base64::engine::general_purpose::STANDARD.encode(bytes)
}

/// Relies on base64's `STANDARD` engine `decode`: it succeeds exactly on
/// well-formed standard base64 and returns the decoded bytes; the error case
/// carries the engine's message.
#[verifier::external_body]
pub(crate) fn base64_decode(data: &str) -> (r: Result<Vec<u8>, String>)
    ensures
        r is Ok <==> base64_decode_of(data@) is Some,
        r matches Ok(v) ==> base64_decode_of(data@) == Some(v@),
{
    match base64::engine::general_purpose::STANDARD.decode(data) {
        Ok(v) => Ok(v),
        Err(e) => Err(format!("{}", e)),
    }
}

/// The payload produced for a PNG byte stream: the fixed format tag followed
/// by the base64 text.
pub open spec fn spec_data_uri(png: Seq<u8>) -> Seq<char> {
    "data:image/png;base64,"@ + base64_of(png)
}

/// A payload in the library's image format: the fixed tag followed by the
/// base64 text of some byte stream.
pub open spec fn is_data_uri_payload(s: Seq<char>) -> bool {
    exists|png: Seq<u8>| s == #[trigger] spec_data_uri(png)
}

/// Assemble the self-describing image payload for an encoded PNG.
pub fn encode_png_data_uri(png: &Vec<u8>) -> (r: String)
    requires
        png@.len() <= usize::MAX / 4,
    ensures
        r@ == spec_data_uri(png@),
{
    let mut s = String::from_str("data:image/png;base64,");
    let b64 = base64_encode(png);
    s.append(b64.as_str());
    s
}

} // verus!
