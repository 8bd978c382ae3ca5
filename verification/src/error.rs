use vstd::prelude::*;

verus! {

/// The ways in which decoding a FIT stream can fail.  Every variant carries
/// enough context to locate the offending byte or value.
#[derive(Debug, Clone)]
pub enum ErrorKind {
    /// A failure of the byte source itself, with a message; decoding never
    /// produces it, only callers that read from a file or stream do.
    Io(String),
    /// A failure that does not fit the structural categories below, with a message.
    Custom(String),
    /// Malformed data at the given byte position, with a short description.
    ParseError(usize, String),
    /// The input ended although this many more bytes were needed.
    UnexpectedEof(usize),
    /// The checksum over a sub-file did not match its trailer.
    BadCrc {
        /// The checksum stored in the sub-file's trailer.
        expected: u16,
        /// The checksum computed over the consumed bytes.
        actual: u16,
        /// Byte position of the trailer.
        offset: usize,
    },
    /// The file header's magic bytes were not `.FIT`.
    BadMagic,
    /// A field definition named a base type outside the catalog.
    UnknownBaseType(u8),
    /// A data record referred to a local message type with no live definition.
    MissingDefinition(u8),
    /// A value could not be coerced as requested, with a message.
    ValueError(String),
    /// A field definition's size is not a multiple of its base type's width.
    InvalidFieldSize,
}

} // verus!
