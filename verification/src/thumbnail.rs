//! The thumbnail payload on its way to clients: a size gate and the
//! base64 text that the wire carries.
//!
//! Fetching the bytes from the operating system happens outside the
//! library; it hands the raw bytes in, and gets back the base64 text of
//! a payload within bounds, or nothing.

use crate::wire::{data_response, spec_data_response};
use crate::json::{json_string, spec_json_string};
use vstd::prelude::*;

verus! {

/// The largest thumbnail payload passed on, in bytes.
pub const THUMBNAIL_MAX_BYTES: usize = 5000000;

/// What the standard base64 alphabet encodes a byte sequence to.
pub uninterp spec fn base64_of(b: Seq<u8>) -> Seq<char>;

/// Relies on `base64::engine::general_purpose::STANDARD` and
/// `base64::Engine::encode`: the standard-alphabet base64 text of the
/// bytes, a function of the bytes alone.
#[verifier::external_body]
fn encode_base64(bytes: &Vec<u8>) -> (r: String)
    ensures
        r@ == base64_of(bytes@),
{
    base64::Engine::encode(&base64::engine::general_purpose::STANDARD, bytes)
}

/// Whether a thumbnail payload is within bounds: not empty and not
/// above the size cap.
pub open spec fn spec_thumbnail_size_ok(len: int) -> bool {
    0 < len <= THUMBNAIL_MAX_BYTES
}

/// The base64 text of a thumbnail payload within bounds; nothing for an
/// empty or oversized payload.
pub fn thumbnail_to_base64(bytes: &Vec<u8>) -> (r: Option<String>)
    ensures
        match r {
            Some(s) => spec_thumbnail_size_ok(bytes@.len() as int) && s@ == base64_of(bytes@),
            None => !spec_thumbnail_size_ok(bytes@.len() as int),
        },
{
    if bytes.len() == 0 || bytes.len() > THUMBNAIL_MAX_BYTES {
        None
    } else {
        Some(encode_base64(bytes))
    }
}

/// The broadcast text of a thumbnail update: the base64 text as the
/// event's payload.
pub open spec fn spec_thumbnail_event(b64: Seq<char>) -> Seq<char> {
    spec_data_response("media_thumbnail_updated"@, spec_json_string(b64))
}

/// The broadcast text of a thumbnail update.
pub fn thumbnail_event(b64: &str) -> (r: String)
    ensures
        r@ == spec_thumbnail_event(b64@),
{
    let data = json_string(b64);
    data_response("media_thumbnail_updated", data.as_str())
}

} // verus!
