//! Source maps carried inline.
//!
//! A backend that emits a source map hands it over as JSON; where the options
//! ask for it, the map is appended to the code as a comment that holds it in
//! base64.

use base64::engine::general_purpose::STANDARD;
use base64::Engine;
use vstd::prelude::*;
use crate::options::TranspileOptions;
use crate::text::{chars_of, push_str, string_of};

verus! {

/// The text of `bytes` in base64, with the standard alphabet and padding.
pub uninterp spec fn base64_standard(bytes: Seq<u8>) -> Seq<char>;

/// Whether `len` bytes can be encoded: four characters for every three bytes
/// begun fit the machine.
pub open spec fn encodable(len: nat) -> bool {
    (len / 3) * 4 + 4 <= usize::MAX
}

/// `Engine::encode` of the crate `base64`, on its engine `STANDARD`. Claimed:
/// the result is a text that depends on the bytes alone. The call panics
/// where the length of the result overflows; `requires` leaves those inputs
/// out.
#[verifier::external_body]
fn encode_base64(bytes: &Vec<u8>) -> (r: String)
    requires
        encodable(bytes@.len()),
    ensures
        r@ == base64_standard(bytes@),
{
    STANDARD.encode(bytes)
}

/// The comment that carries a source map given in base64.
pub open spec fn source_map_comment(encoded: Seq<char>) -> Seq<char> {
    "\n//# sourceMappingURL=data:application/json;base64,"@ + encoded
}

/// Whether the options ask for a source map inline.
pub open spec fn wants_inline_map(opts: &TranspileOptions) -> bool {
    opts.source_maps && opts.inline_source_map
}

/// Appends to `code` the comment that carries the source map `encoded`.
pub fn attach_source_map(code: String, encoded: &str) -> (r: String)
    ensures
        r@ == code@ + source_map_comment(encoded@),
{
    let mut out = chars_of(code.as_str());
    push_str(&mut out, "\n//# sourceMappingURL=data:application/json;base64,");
    push_str(&mut out, encoded);
    string_of(&out)
}

/// Appends the source map `map_json` to `code` as an inline comment, if the
/// options ask for source maps inline and the map is not empty; otherwise
/// the code stays as it is.
pub fn append_inline_source_map(code: String, map_json: &Vec<u8>, opts: &TranspileOptions) -> (r:
    String)
    requires
        encodable(map_json@.len()),
    ensures
        r@ == if wants_inline_map(opts) && map_json@.len() > 0 {
            code@ + source_map_comment(base64_standard(map_json@))
        } else {
            code@
        },
{
    if opts.source_maps && opts.inline_source_map && map_json.len() > 0 {
        let encoded = encode_base64(map_json);
        attach_source_map(code, encoded.as_str())
    } else {
        code
    }
}

} // verus!
