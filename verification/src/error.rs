//! The ways in which a form body can be malformed.

use vstd::prelude::*;

verus! {

/// Why a form body was rejected. Every failure aborts the whole decode.
#[derive(Clone, Copy, Debug, PartialEq, Eq, Structural)]
pub enum FormError {
    /// A field has no `=` before the end of the buffer.
    MissingSeparator,
    /// A `%` is followed by fewer than two bytes within its span.
    TruncatedEscape,
    /// The two bytes after a `%` are not both hexadecimal digits.
    InvalidHexDigit,
    /// A decoded field name is not valid UTF-8 text.
    InvalidUtf8Name,
}

impl FormError {
    /// A short description of the failure, for logs and error pages.
    pub fn message(&self) -> (text: &'static str)
        ensures
            text@ == self.spec_message(),
    {
        match self {
            FormError::MissingSeparator => "field without '=' separator",
            FormError::TruncatedEscape => "unexpected end of input after '%'",
            FormError::InvalidHexDigit => "invalid hexadecimal digit after '%'",
            FormError::InvalidUtf8Name => "field name is not valid UTF-8",
        }
    }

    /// The text that [`FormError::message`] returns.
    pub open spec fn spec_message(&self) -> Seq<char> {
        match self {
            FormError::MissingSeparator => "field without '=' separator"@,
            FormError::TruncatedEscape => "unexpected end of input after '%'"@,
            FormError::InvalidHexDigit => "invalid hexadecimal digit after '%'"@,
            FormError::InvalidUtf8Name => "field name is not valid UTF-8"@,
        }
    }
}

} // verus!
