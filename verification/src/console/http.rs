//! The addresses under which a profiled program serves its metrics, and how
//! the answers are read.
//!
//! The requests themselves are made by the caller. This module says where
//! each document is found and what an answer to the allocation request means.

use vstd::prelude::*;
use vstd::string::StringExecFns;
use vstd::string::StringSliceAdditionalSpecFns;
use crate::text::{decimal, push_decimal};

verus! {

/// The URL-safe base64 text, with padding, of a run of bytes.
pub uninterp spec fn base64_url_safe_of(bytes: Seq<u8>) -> Seq<char>;

/// Whether a run of `len` bytes is short enough for its base64 text to be
/// measured in a `usize`.
pub open spec fn encodable_len(len: nat) -> bool {
    len / 3 * 4 + 4 <= usize::MAX
}

/// The characters of URL-safe base64 text: letters, digits, `-` and `_`, and
/// `=` for padding. None of them ends a path segment or begins a query or a
/// fragment.
pub open spec fn is_url_safe_char(c: char) -> bool {
    ('A' <= c && c <= 'Z') || ('a' <= c && c <= 'z') || ('0' <= c && c <= '9') || c == '-' || c
        == '_' || c == '='
}

/// Whether a text can stand as one segment of a path.
pub open spec fn is_path_segment(text: Seq<char>) -> bool {
    forall|i: int| 0 <= i < text.len() ==> is_url_safe_char(#[trigger] text[i])
}

/// The URL-safe base64 text of `bytes`.
///
/// Calls `Engine::encode` of the `base64` crate on its `URL_SAFE` engine. The
/// call fails only where the length of the text does not fit a `usize`, which
/// the precondition rules out; its result depends on the bytes alone. The
/// engine writes characters of its alphabet, which is letters, digits, `-`
/// and `_`, and pads with `=`.
#[verifier::external_body]
fn base64_url_safe(bytes: &[u8]) -> (r: String)
    requires
        encodable_len(bytes@.len()),
    ensures
        r@ == base64_url_safe_of(bytes@),
        is_path_segment(r@),
{
    base64::Engine::encode(&base64::engine::general_purpose::URL_SAFE, bytes)
}

/// The documents that a profiled program serves.
#[derive(Clone, Copy, Debug, PartialEq, Eq, Structural)]
pub enum Endpoint {
    FunctionsTiming,
    FunctionsAlloc,
    Channels,
    Streams,
}

/// The path of a document.
pub open spec fn endpoint_path(e: Endpoint) -> Seq<char> {
    match e {
        Endpoint::FunctionsTiming => "/functions_timing"@,
        Endpoint::FunctionsAlloc => "/functions_alloc"@,
        Endpoint::Channels => "/channels"@,
        Endpoint::Streams => "/streams"@,
    }
}

/// The address of the server on this machine that listens on `port`.
pub open spec fn base_url(port: u16) -> Seq<char> {
    "http://localhost:"@ + decimal(port as nat)
}

/// The address of the recent events of a channel or stream: `collection` is
/// the path of the collection, `id` the entity's number.
pub open spec fn entity_logs_url(port: u16, collection: Seq<char>, id: u64) -> Seq<char> {
    base_url(port) + collection + "/"@ + decimal(id as nat) + "/logs"@
}

/// The address of the recent events of a function whose name is `encoded`
/// in a form that can stand in a path.
pub open spec fn function_logs_url_of(port: u16, encoded: Seq<char>) -> Seq<char> {
    base_url(port) + "/functions/"@ + encoded + "/logs"@
}

fn start_url(port: u16) -> (r: String)
    ensures
        r@ == base_url(port),
{
    let mut url = "http://localhost:".to_owned();
    push_decimal(&mut url, port as u64);
    url
}

/// The address of a document.
pub fn endpoint_url(port: u16, endpoint: Endpoint) -> (r: String)
    ensures
        r@ == base_url(port) + endpoint_path(endpoint),
{
    let mut url = start_url(port);
    match endpoint {
        Endpoint::FunctionsTiming => url.append("/functions_timing"),
        Endpoint::FunctionsAlloc => url.append("/functions_alloc"),
        Endpoint::Channels => url.append("/channels"),
        Endpoint::Streams => url.append("/streams"),
    }
    url
}

/// The address of the recent events of a channel.
pub fn channel_logs_url(port: u16, channel_id: u64) -> (r: String)
    ensures
        r@ == entity_logs_url(port, "/channels"@, channel_id),
{
    let mut url = start_url(port);
    url.append("/channels");
    url.append("/");
    push_decimal(&mut url, channel_id);
    url.append("/logs");
    url
}

/// The address of the recent events of a stream.
pub fn stream_logs_url(port: u16, stream_id: u64) -> (r: String)
    ensures
        r@ == entity_logs_url(port, "/streams"@, stream_id),
{
    let mut url = start_url(port);
    url.append("/streams");
    url.append("/");
    push_decimal(&mut url, stream_id);
    url.append("/logs");
    url
}

/// The address of the recent events of a function, from its encoded name.
pub fn function_logs_url_from(port: u16, encoded: &str) -> (r: String)
    ensures
        r@ == function_logs_url_of(port, encoded@),
{
    let mut url = start_url(port);
    url.append("/functions/");
    url.append(encoded);
    url.append("/logs");
    url
}

/// The address of the recent events of a function. The name may hold any
/// characters, so it goes into the path as URL-safe base64 text, which is a
/// single path segment. There is no address where the name is too long for
/// that.
pub fn function_logs_url(port: u16, function_name: &str) -> (r: Option<String>)
    ensures
        r.is_some() == encodable_len(function_name.spec_bytes().len()),
        r.is_some() ==> r.unwrap()@ == function_logs_url_of(
            port,
            base64_url_safe_of(function_name.spec_bytes()),
        ),
        r.is_some() ==> is_path_segment(base64_url_safe_of(function_name.spec_bytes())),
{
    let bytes = function_name.as_bytes();
    if bytes.len() / 3 > (usize::MAX - 4) / 4 {
        return None;
    }
    let encoded = base64_url_safe(bytes);
    Some(function_logs_url_from(port, encoded.as_str()))
}

/// Whether `needle` occurs in `text` at index `i`.
pub open spec fn occurs_at(text: Seq<u8>, needle: Seq<u8>, i: int) -> bool {
    0 <= i && i + needle.len() <= text.len() && text.subrange(i, i + needle.len()) == needle
}

/// Whether `needle` occurs somewhere in `text`.
pub open spec fn contains_bytes(text: Seq<u8>, needle: Seq<u8>) -> bool {
    exists|i: int| occurs_at(text, needle, i)
}

/// The digits by which an answer says that a document does not exist.
pub open spec fn not_found_mark() -> Seq<u8> {
    seq![52u8, 48u8, 52u8]
}

/// Whether the words of a failed request say that the document does not
/// exist: they do where they hold the status number 404.
pub fn mentions_not_found(error_text: &str) -> (r: bool)
    ensures
        r == contains_bytes(error_text.spec_bytes(), not_found_mark()),
{
    let text = error_text.as_bytes();
    if text.len() < 3 {
        assert forall|i: int| !occurs_at(text@, not_found_mark(), i) by {}
        return false;
    }
    let mut i: usize = 0;
    while i <= text.len() - 3
        invariant
            0 <= i,
            3 <= text@.len(),
            text@ == error_text.spec_bytes(),
            forall|k: int| 0 <= k < i ==> !occurs_at(text@, not_found_mark(), k),
        decreases text@.len() - i,
    {
        if text[i] == 52 && text[i + 1] == 48 && text[i + 2] == 52 {
            assert(text@.subrange(i as int, i as int + 3) =~= not_found_mark());
            assert(occurs_at(text@, not_found_mark(), i as int));
            return true;
        }
        assert(!occurs_at(text@, not_found_mark(), i as int)) by {
            if occurs_at(text@, not_found_mark(), i as int) {
                let part = text@.subrange(i as int, i as int + 3);
                assert(part[0] == 52 && part[1] == 48 && part[2] == 52);
            }
        }
        i = i + 1;
    }
    assert forall|k: int| !occurs_at(text@, not_found_mark(), k) by {}
    false
}

/// What an answer to the request for allocation metrics means.
#[derive(Clone, Copy, Debug, PartialEq, Eq, Structural)]
pub enum AllocAnswer {
    /// The document came: allocation tracking is on.
    Available,
    /// The server has no such document: allocation tracking is off.
    NotAvailable,
    /// The request failed for another reason.
    Failed,
}

/// What an answer to the request for allocation metrics means. `error_text`
/// holds the words of the failure where the request failed.
pub fn classify_alloc_answer(error_text: Option<&str>) -> (r: AllocAnswer)
    ensures
        r == match error_text {
            None => AllocAnswer::Available,
            Some(t) => if contains_bytes(t.spec_bytes(), not_found_mark()) {
                AllocAnswer::NotAvailable
            } else {
                AllocAnswer::Failed
            },
        },
{
    match error_text {
        None => AllocAnswer::Available,
        Some(t) => if mentions_not_found(t) {
            AllocAnswer::NotAvailable
        } else {
            AllocAnswer::Failed
        },
    }
}

} // verus!
