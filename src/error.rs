use vstd::prelude::*;

verus! {

/// A segment parameter, named in a `MissingField` error.
#[derive(Debug, Clone, Copy, PartialEq, Eq)]
pub enum Param {
    Type,
    Encoding,
    Base,
    Size,
    Step,
    Bitwidth,
    Factor,
    Data,
}

/// Why a document could not be decoded. Each of these aborts the whole decode.
#[derive(Debug, Clone, PartialEq, Eq)]
pub enum DecodeError {
    /// The document is not shaped as a set of tracks.
    MalformedInput,
    /// A segment lacks a parameter, or holds one of the wrong type.
    MissingField(Param),
    /// A segment names an encoding, or a value type, that is not supported.
    UnsupportedEncoding(String),
    /// A `base64/diff` segment packs its integers at a width other than 8 or 12.
    UnsupportedBitwidth(i64),
    /// The text of a `base64/diff` segment is not valid base64.
    BadTransport,
}

} // verus!
