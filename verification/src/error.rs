//! The errors the decoder reports.
use vstd::prelude::*;

use vstd::string::StringExecFns;

use crate::text::{decimal, push_decimal};
use crate::validate::{ReportView, ValidationReport};

verus! {

/// The error `std::str::from_utf8` reports.
#[verifier::external_type_specification]
#[verifier::external_body]
pub struct ExUtf8Error(std::str::Utf8Error);

/// The error `serde_json` reports for a document it does not accept.
#[verifier::external_type_specification]
#[verifier::external_body]
pub struct ExJsonError(serde_json::Error);

/// The error `flate2` reports for a corrupt deflate stream.
#[verifier::external_type_specification]
#[verifier::external_body]
pub struct ExDecompressError(flate2::DecompressError);

/// Why a replay could not be decoded.
#[derive(Debug)]
pub enum DecodeError {
    /// The file does not start with `HBR2`.
    InvalidMagic { found: [u8; 4] },
    UnexpectedEof { context: String },
    InvalidVarInt { context: String },
    /// A string is neither UTF-8 nor CESU-8; `source` is what `from_utf8` reported.
    InvalidUtf8 { context: String, source: std::str::Utf8Error },
    /// A JSON document that `serde_json` does not accept.
    InvalidJson { context: String, source: serde_json::Error },
    /// The raw deflate decoder rejected the compressed bytes.
    Compression { context: String, source: flate2::DecompressError },
    /// The compressed stream stopped making progress before its end.
    IncompleteCompression { context: String },
    /// The compressed stream ended before the compressed bytes did.
    TrailingCompressedData { context: String },
    UnsupportedReplayVersion(u32),
    UnsupportedEventType(u8),
    UnknownEventBoundaryUnsupported { event_type: u8 },
    IntegerOverflow { context: String },
    TrailingBytes { context: String, remaining: usize },
    ValidationFailed(Box<ValidationReport>),
}

/// The mathematical value of a [`DecodeError`]; the errors of the outside decoders that some
/// variants carry are left out.
pub enum DecodeErrorView {
    InvalidMagic { found: Seq<u8> },
    UnexpectedEof { context: Seq<char> },
    InvalidVarInt { context: Seq<char> },
    InvalidUtf8 { context: Seq<char> },
    InvalidJson { context: Seq<char> },
    Compression { context: Seq<char> },
    IncompleteCompression { context: Seq<char> },
    TrailingCompressedData { context: Seq<char> },
    UnsupportedReplayVersion(u32),
    UnsupportedEventType(u8),
    UnknownEventBoundaryUnsupported { event_type: u8 },
    IntegerOverflow { context: Seq<char> },
    TrailingBytes { context: Seq<char>, remaining: usize },
    ValidationFailed(ReportView),
}

impl View for DecodeError {
    type V = DecodeErrorView;

    open spec fn view(&self) -> DecodeErrorView {
        match self {
            DecodeError::InvalidMagic { found } => DecodeErrorView::InvalidMagic { found: found@ },
            DecodeError::UnexpectedEof { context } => DecodeErrorView::UnexpectedEof { context: context@ },
            DecodeError::InvalidVarInt { context } => DecodeErrorView::InvalidVarInt { context: context@ },
            DecodeError::InvalidUtf8 { context, .. } => DecodeErrorView::InvalidUtf8 { context: context@ },
            DecodeError::InvalidJson { context, .. } => DecodeErrorView::InvalidJson { context: context@ },
            DecodeError::Compression { context, .. } => DecodeErrorView::Compression { context: context@ },
            DecodeError::IncompleteCompression { context } => DecodeErrorView::IncompleteCompression { context: context@ },
            DecodeError::TrailingCompressedData { context } => DecodeErrorView::TrailingCompressedData { context: context@ },
            DecodeError::UnsupportedReplayVersion(v) => DecodeErrorView::UnsupportedReplayVersion(*v),
            DecodeError::UnsupportedEventType(t) => DecodeErrorView::UnsupportedEventType(*t),
            DecodeError::UnknownEventBoundaryUnsupported { event_type } => DecodeErrorView::UnknownEventBoundaryUnsupported { event_type: *event_type },
            DecodeError::IntegerOverflow { context } => DecodeErrorView::IntegerOverflow { context: context@ },
            DecodeError::TrailingBytes { context, remaining } => DecodeErrorView::TrailingBytes { context: context@, remaining: *remaining },
            DecodeError::ValidationFailed(report) => DecodeErrorView::ValidationFailed(report@),
        }
    }
}

/// An error that reading the bytes of a replay can report: neither a refused version nor a
/// failed validation, which only decoding as a whole reports.
pub open spec fn is_read_error(e: DecodeErrorView) -> bool {
    !(e is UnsupportedReplayVersion) && !(e is ValidationFailed)
}

/// `[a, b, c, d]`: the four bytes in decimal, as `{:?}` prints them.
pub open spec fn byte_list(found: Seq<u8>) -> Seq<char> {
    "["@ + decimal(found[0] as nat) + ", "@ + decimal(found[1] as nat) + ", "@ + decimal(found[2] as nat) + ", "@
        + decimal(found[3] as nat) + "]"@
}

/// `text` is `head` followed by some detail.
pub open spec fn detailed(head: Seq<char>, text: Seq<char>) -> bool {
    exists|t: Seq<char>| #[trigger] head.add(t) == text
}

/// `text` describes the error `e`; for the UTF-8 and JSON errors, the text ends with the
/// outside decoder's own description of the error, which is not described here.
pub open spec fn describes_error(e: DecodeErrorView, text: Seq<char>) -> bool {
    match e {
        DecodeErrorView::InvalidMagic { found } => found.len() == 4 && text == "invalid replay signature: expected HBR2, got "@
            + byte_list(found),
        DecodeErrorView::UnexpectedEof { context } => text == "truncated input while reading "@ + context,
        DecodeErrorView::InvalidVarInt { context } => text == "invalid varint while reading "@ + context,
        DecodeErrorView::InvalidUtf8 { context } => detailed("invalid UTF-8 while reading "@ + context + ": "@, text),
        DecodeErrorView::InvalidJson { context } => detailed("invalid JSON while reading "@ + context + ": "@, text),
        DecodeErrorView::Compression { context } => text == "raw deflate error while reading "@ + context + ": "@
            + "deflate decompression error"@,
        DecodeErrorView::IncompleteCompression { context } => text
            == "compressed stream did not terminate cleanly while reading "@ + context,
        DecodeErrorView::TrailingCompressedData { context } => text
            == "compressed stream contains trailing bytes while reading "@ + context,
        DecodeErrorView::UnsupportedReplayVersion(v) => text == "unsupported replay version: "@ + decimal(v as nat),
        DecodeErrorView::UnsupportedEventType(t) => text == "unsupported event type: "@ + decimal(t as nat),
        DecodeErrorView::UnknownEventBoundaryUnsupported { event_type } => text == "cannot preserve unknown event type "@
            + decimal(event_type as nat) + " without a payload boundary"@,
        DecodeErrorView::IntegerOverflow { context } => text == "integer overflow while computing "@ + context,
        DecodeErrorView::TrailingBytes { context, remaining } => text == "trailing unread bytes while reading "@ + context
            + ": "@ + decimal(remaining as nat),
        DecodeErrorView::ValidationFailed(_) => text == "validation failed"@,
    }
}

/// The description of a `std::str::Utf8Error` (its `Display`).
#[verifier::external_body]
fn utf8_error_text(e: &std::str::Utf8Error) -> String {
    e.to_string()
}

/// The description of a `serde_json::Error` (its `Display`).
#[verifier::external_body]
fn json_error_text(e: &serde_json::Error) -> String {
    e.to_string()
}

/// The description of a `flate2::DecompressError` (its `Display`): with the pure-Rust
/// backend, whose errors carry no message, always `deflate decompression error`.
#[verifier::external_body]
fn decompress_error_text(e: &flate2::DecompressError) -> (s: String)
    ensures
        s@ == "deflate decompression error"@,
{
    e.to_string()
}

fn with_detail(prefix: &str, context: &String, detail: String) -> (s: String)
    ensures
        s@ == prefix@ + context@ + ": "@ + detail@,
{
    let mut s = String::from_str(prefix);
    s.append(context.as_str());
    s.append(": ");
    s.append(detail.as_str());
    s
}

fn magic_message(found: &[u8; 4]) -> (s: String)
    ensures
        found@.len() == 4,
        s@ == "invalid replay signature: expected HBR2, got "@ + byte_list(found@),
{
    let mut s = String::from_str("invalid replay signature: expected HBR2, got ");
    s.append("[");
    push_decimal(&mut s, found[0] as u64);
    s.append(", ");
    push_decimal(&mut s, found[1] as u64);
    s.append(", ");
    push_decimal(&mut s, found[2] as u64);
    s.append(", ");
    push_decimal(&mut s, found[3] as u64);
    s.append("]");
    assert(s@ =~= "invalid replay signature: expected HBR2, got "@ + byte_list(found@));
    assert(found@.len() == 4) by {
        broadcast use vstd::array::group_array_axioms;
    }
    s
}

impl DecodeError {
    /// A description of the error.
    pub fn message(&self) -> (s: String)
        ensures
            describes_error(self@, s@),
    {
        let text = match self {
            DecodeError::InvalidMagic { found } => {
                let s = magic_message(found);
                s
            },
            DecodeError::UnexpectedEof { context } => {
                let mut s = String::from_str("truncated input while reading ");
                s.append(context.as_str());
                s
            },
            DecodeError::InvalidVarInt { context } => {
                let mut s = String::from_str("invalid varint while reading ");
                s.append(context.as_str());
                s
            },
            DecodeError::InvalidUtf8 { context, source } => {
                let detail = utf8_error_text(source);
                let s = with_detail("invalid UTF-8 while reading ", context, detail);
                assert(s@ == "invalid UTF-8 while reading "@ + context@ + ": "@ + detail@);
                s
            },
            DecodeError::InvalidJson { context, source } => {
                let detail = json_error_text(source);
                let s = with_detail("invalid JSON while reading ", context, detail);
                assert(s@ == "invalid JSON while reading "@ + context@ + ": "@ + detail@);
                s
            },
            DecodeError::Compression { context, source } => {
                let detail = decompress_error_text(source);
                let s = with_detail("raw deflate error while reading ", context, detail);
                assert(s@ == "raw deflate error while reading "@ + context@ + ": "@ + detail@);
                s
            },
            DecodeError::IncompleteCompression { context } => {
                let mut s = String::from_str("compressed stream did not terminate cleanly while reading ");
                s.append(context.as_str());
                s
            },
            DecodeError::TrailingCompressedData { context } => {
                let mut s = String::from_str("compressed stream contains trailing bytes while reading ");
                s.append(context.as_str());
                s
            },
            DecodeError::UnsupportedReplayVersion(v) => {
                let mut s = String::from_str("unsupported replay version: ");
                push_decimal(&mut s, *v as u64);
                s
            },
            DecodeError::UnsupportedEventType(t) => {
                let mut s = String::from_str("unsupported event type: ");
                push_decimal(&mut s, *t as u64);
                s
            },
            DecodeError::UnknownEventBoundaryUnsupported { event_type } => {
                let mut s = String::from_str("cannot preserve unknown event type ");
                push_decimal(&mut s, *event_type as u64);
                s.append(" without a payload boundary");
                s
            },
            DecodeError::IntegerOverflow { context } => {
                let mut s = String::from_str("integer overflow while computing ");
                s.append(context.as_str());
                s
            },
            DecodeError::TrailingBytes { context, remaining } => {
                let mut s = String::from_str("trailing unread bytes while reading ");
                s.append(context.as_str());
                s.append(": ");
                push_decimal(&mut s, *remaining as u64);
                s
            },
            DecodeError::ValidationFailed(_) => {
                let s = String::from_str("validation failed");
                s
            },
        };
        text
    }
}

} // verus!
