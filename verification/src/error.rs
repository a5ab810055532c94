//! The error taxonomy of the request layer: one kind per field grammar, so
//! the hosting CLI can report precisely which argument was malformed.

use vstd::prelude::*;

verus! {

/// Why a field of the request failed to parse.
///
/// Every parser in this crate fails fast and independently; a value of this
/// enum always aborts the whole request before any action runs.
#[derive(Debug, Clone, Copy, PartialEq, Eq, Structural)]
pub enum FindError {
    /// The storage path does not match `s3://<bucket>[/<prefix>]`.
    S3Parse,
    /// The size literal does not match `[+|-]<integer>[k|M|G|T|P]`.
    SizeParse,
    /// The time literal does not match `[+|-]<integer>[s|m|h|d|w]`.
    TimeParse,
    /// The tag literal contains no `:` separator.
    TagParseError,
    /// The tag key before the separator is empty or not a word.
    TagKeyParseError,
    /// The tag value after the separator is empty or not a word.
    TagValueParseError,
}

impl FindError {
    /// A user-facing description of the failure.
    pub fn message(&self) -> (r: &'static str)
        ensures
            *self == FindError::S3Parse ==> r@ == "Invalid s3 path"@,
            *self == FindError::SizeParse ==> r@ == "Invalid size parameter"@,
            *self == FindError::TimeParse ==> r@ == "Invalid mtime parameter"@,
            *self == FindError::TagParseError ==> r@ == "Cannot parse tag"@,
            *self == FindError::TagKeyParseError ==> r@ == "Cannot parse tag key"@,
            *self == FindError::TagValueParseError ==> r@ == "Cannot parse tag value"@,
    {
        match self {
            FindError::S3Parse => "Invalid s3 path",
            FindError::SizeParse => "Invalid size parameter",
            FindError::TimeParse => "Invalid mtime parameter",
            FindError::TagParseError => "Cannot parse tag",
            FindError::TagKeyParseError => "Cannot parse tag key",
            FindError::TagValueParseError => "Cannot parse tag value",
        }
    }
}

} // verus!
