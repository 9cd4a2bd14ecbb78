//! The two wire formats and the media types that stand for them.

use vstd::prelude::*;
use vstd::string::StringSliceAdditionalSpecFns;

verus! {

/// The wire format of one request or response body.
#[derive(Debug, Clone, Copy, PartialEq, Eq, Structural)]
pub enum ApiContentType {
    /// Human-readable structured text.
    Json,
    /// Compact, schema-based binary.
    Proto,
}

/// The media type that is sent for a format, as text.
pub open spec fn media_type_of(content_type: ApiContentType) -> Seq<char> {
    match content_type {
        ApiContentType::Json => "application/json"@,
        ApiContentType::Proto => "application/protobuf"@,
    }
}

/// The format that a media type names: the two exact types, and the
/// wildcard, which stands for structured text. Anything else names none.
pub open spec fn spec_supported_encoding(mime: Seq<u8>) -> Option<ApiContentType> {
    if mime == "application/json".spec_bytes() {
        Some(ApiContentType::Json)
    } else if mime == "application/protobuf".spec_bytes() {
        Some(ApiContentType::Proto)
    } else if mime == "*/*".spec_bytes() {
        Some(ApiContentType::Json)
    } else {
        None
    }
}

/// Whether two byte strings hold the same bytes.
pub fn bytes_equal(a: &[u8], b: &[u8]) -> (same: bool)
    ensures
        same == (a@ == b@),
{
    if a.len() != b.len() {
        return false;
    }
    let mut i: usize = 0;
    while i < a.len()
        invariant
            a@.len() == b@.len(),
            i <= a@.len(),
            forall|k: int| 0 <= k < i ==> a@[k] == b@[k],
        decreases a.len() - i,
    {
        if a[i] != b[i] {
            return false;
        }
        i += 1;
    }
    assert(a@ =~= b@);
    true
}

/// The media type to put in a content-type header for `content_type`.
pub fn header_value_from_content_type(content_type: ApiContentType) -> (value: &'static str)
    ensures
        value@ == media_type_of(content_type),
{
    match content_type {
        ApiContentType::Json => "application/json",
        ApiContentType::Proto => "application/protobuf",
    }
}

/// The format named by a media type, if this gateway understands it.
pub fn supported_encoding(mime: &[u8]) -> (encoding: Option<ApiContentType>)
    ensures
        encoding == spec_supported_encoding(mime@),
{
    if bytes_equal(mime, "application/json".as_bytes()) {
        Some(ApiContentType::Json)
    } else if bytes_equal(mime, "application/protobuf".as_bytes()) {
        Some(ApiContentType::Proto)
    } else if bytes_equal(mime, "*/*".as_bytes()) {
        Some(ApiContentType::Json)
    } else {
        None
    }
}

} // verus!
