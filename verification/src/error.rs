//! Error types related to serialization.

use vstd::prelude::*;

verus! {

/// Serialization/deserialization error.
#[derive(Debug, Clone, PartialEq)]
pub enum Error {
    /// A value or target shape uses an unsupported kind.
    ///
    /// Because the encoding is not self-describing, this error occurs for
    /// complex, variable-sized containers such as maps, sequences, options,
    /// and enums with struct or tuple variants.
    UnsupportedType,
    /// Error decoding the input bytes as UTF-8 text.
    Utf8StringDecode,
    /// Error decoding a component; holds the text of the offending component.
    ///
    /// This occurs when an encoded component does not match the requested
    /// kind, for example when decoding as an integer a component that is not
    /// fixed-width hexadecimal.
    Data(String),
    /// Error in the layout of the encoding.
    ///
    /// This occurs when the number of encoded components does not match the
    /// arity of the requested shape.
    Syntax,
    /// Failure of an underlying reader; holds the reported message.
    Io(String),
    /// Some other error, surfaced through a generic interface.
    Other(String),
}

} // verus!
