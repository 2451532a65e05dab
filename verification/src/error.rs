//! The errors that parsing and rendering report.
use vstd::prelude::*;
use vstd::std_specs::convert::FromSpecImpl;
use vstd::string::StringExecFns;

verus! {

/// Why a style sheet could not be parsed or rendered.
#[allow(clippy::enum_variant_names)]
#[derive(Debug, Clone, Copy, PartialEq, Eq)]
pub enum CssError<'a> {
    /// A size could not be read or resolved.
    SizeError(&'a str),
    /// The input, a block or the text of a box is unusable, or the drawing
    /// backend failed.
    ContentError(&'a str),
    /// The style sheet could not be taken apart.
    ParseError,
    /// A colour, a font weight or a font style is not one that is known.
    FontError(&'a str),
}

/// A number that could not be read as an integer, as the standard library
/// reports it.
#[verifier::external_type_specification]
#[verifier::external_body]
pub struct ExParseIntError(core::num::ParseIntError);

/// A number that could not be read with a fraction, as the standard library
/// reports it.
#[verifier::external_type_specification]
#[verifier::external_body]
pub struct ExParseFloatError(core::num::ParseFloatError);

impl<'a> CssError<'a> {
    /// The line that describes the error: its kind, a colon and its message.
    pub open spec fn text(self) -> Seq<char> {
        match self {
            CssError::SizeError(message) => "SizeError: "@ + message@,
            CssError::ContentError(message) => "ContentError: "@ + message@,
            CssError::ParseError => "ParseError: Failed to parse CSS"@,
            CssError::FontError(message) => "FontError: "@ + message@,
        }
    }

    /// The line that describes the error.
    pub fn to_string(&self) -> (out: String)
        ensures
            out@ == self.text(),
    {
        match self {
            CssError::SizeError(message) => String::from_str("SizeError: ").concat(message),
            CssError::ContentError(message) => String::from_str("ContentError: ").concat(message),
            CssError::ParseError => String::from_str("ParseError: Failed to parse CSS"),
            CssError::FontError(message) => String::from_str("FontError: ").concat(message),
        }
    }
}

impl<'a> From<core::num::ParseFloatError> for CssError<'a> {
    fn from(_error: core::num::ParseFloatError) -> (out: Self) {
        CssError::SizeError("ParseFloatError")
    }
}

impl<'a> FromSpecImpl<core::num::ParseFloatError> for CssError<'a> {
    open spec fn obeys_from_spec() -> bool {
        true
    }

    open spec fn from_spec(_error: core::num::ParseFloatError) -> Self {
        CssError::SizeError("ParseFloatError")
    }
}

impl<'a> From<core::num::ParseIntError> for CssError<'a> {
    fn from(_error: core::num::ParseIntError) -> (out: Self) {
        CssError::SizeError("ParseIntError")
    }
}

impl<'a> FromSpecImpl<core::num::ParseIntError> for CssError<'a> {
    open spec fn obeys_from_spec() -> bool {
        true
    }

    open spec fn from_spec(_error: core::num::ParseIntError) -> Self {
        CssError::SizeError("ParseIntError")
    }
}

impl<'a, 'b> From<&'b str> for CssError<'a> {
    fn from(_message: &'b str) -> (out: Self) {
        CssError::ContentError("&str")
    }
}

impl<'a, 'b> FromSpecImpl<&'b str> for CssError<'a> {
    open spec fn obeys_from_spec() -> bool {
        true
    }

    open spec fn from_spec(_message: &'b str) -> Self {
        CssError::ContentError("&str")
    }
}

} // verus!
