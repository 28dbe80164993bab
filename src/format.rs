//! The size policy for formatted messages, and the markup formatter behind it.
use vstd::prelude::*;
use vstd::utf8::encode_utf8;

verus! {

/// The largest payload, in bytes, that a formatted message may have.
pub const MAX_MESSAGE_BYTES: usize = 1024;

/// Why a formatted message is refused.
#[derive(Clone, Copy, Debug, PartialEq, Eq, Structural)]
pub enum FormatError {
    /// The payload is empty.
    Empty,
    /// The payload is longer than `MAX_MESSAGE_BYTES` bytes.
    TooLong,
}

/// What the sender is told of each refusal.
pub open spec fn reason_text(e: FormatError) -> Seq<char> {
    match e {
        FormatError::Empty => "message too empty"@,
        FormatError::TooLong => "message too long"@,
    }
}

impl FormatError {
    /// What the sender is told of this refusal.
    pub fn reason(&self) -> (r: &'static str)
        ensures
            r@ == reason_text(*self),
    {
        match self {
            FormatError::Empty => "message too empty",
            FormatError::TooLong => "message too long",
        }
    }
}

/// The length of a text in bytes, as UTF-8.
pub open spec fn byte_len(s: Seq<char>) -> nat {
    encode_utf8(s).len()
}

/// What comrak renders of a markup text, with its default options.
pub uninterp spec fn markdown_html(s: Seq<char>) -> Seq<char>;

/// Relies on `comrak::markdown_to_html` with `comrak::Options::default()`
/// (raw HTML in the input is not passed through).
#[verifier::external_body]
fn render_markdown(text: &str) -> (r: String)
    ensures
        r@ == markdown_html(text@),
{
    comrak::markdown_to_html(text, &comrak::Options::default())
}

/// Whether a payload's size is accepted: 1 to `MAX_MESSAGE_BYTES` bytes.
pub open spec fn size_spec(s: Seq<char>) -> Result<(), FormatError> {
    if byte_len(s) == 0 {
        Err(FormatError::Empty)
    } else if byte_len(s) > MAX_MESSAGE_BYTES {
        Err(FormatError::TooLong)
    } else {
        Ok(())
    }
}

/// What formatting a payload gives: its rendering where its size is
/// accepted.
pub open spec fn format_spec(s: Seq<char>) -> Result<Seq<char>, FormatError> {
    match size_spec(s) {
        Ok(_) => Ok(markdown_html(s)),
        Err(e) => Err(e),
    }
}

/// The view of a formatting result.
pub open spec fn formatted_view(r: Result<String, FormatError>) -> Result<Seq<char>, FormatError> {
    match r {
        Ok(h) => Ok(h@),
        Err(e) => Err(e),
    }
}

/// Checks a payload's size: empty and over `MAX_MESSAGE_BYTES` bytes are
/// refused.
pub fn check_size(text: &str) -> (r: Result<(), FormatError>)
    ensures
        r == size_spec(text@),
{
    let n = text.as_bytes().len();
    if n == 0 {
        Err(FormatError::Empty)
    } else if n > MAX_MESSAGE_BYTES {
        Err(FormatError::TooLong)
    } else {
        Ok(())
    }
}

/// Renders a payload to HTML once its size is accepted.
pub fn format_message(text: &str) -> (r: Result<String, FormatError>)
    ensures
        formatted_view(r) == format_spec(text@),
{
    match check_size(text) {
        Ok(_) => Ok(render_markdown(text)),
        Err(e) => Err(e),
    }
}

} // verus!
