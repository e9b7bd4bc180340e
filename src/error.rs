use vstd::prelude::*;

verus! {

/// Why a field, a record or a file could not be decoded.
#[derive(Debug, Clone, Copy, PartialEq, Eq, Structural)]
pub enum DecodeError {
    /// A read would go past the end of the buffer.
    TruncatedRecord,
    /// Text bytes, once the nulls are removed, are not valid UTF-8.
    InvalidText,
    /// A type code is neither a single letter nor a decimal count followed by a letter.
    MalformedTypeCode,
    /// A type code parsed, but no primitive reader handles it.
    UnknownTypeTag,
    /// A schema without any field has no extent.
    EmptySchema,
}

} // verus!
