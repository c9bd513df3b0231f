//! The failures that encoding and decoding can report.

use vstd::prelude::*;

verus! {

/// Why a name, a header, a record or a whole message could not be encoded or decoded.
#[derive(Debug, Clone, Copy, PartialEq, Eq, Structural)]
pub enum DnsError {
    /// A domain name holds a character outside ASCII.
    NonAsciiName,
    /// A domain name holds a label of no characters.
    EmptyLabel,
    /// A label is longer than 63 bytes.
    LabelTooLong,
    /// A name takes more than 255 bytes on the wire.
    NameTooLong,
    /// The buffer ends before a field does.
    UnexpectedEof,
    /// A type code outside the known set stood where a known one is demanded.
    InvalidRecordType(u16),
    /// A class code outside the known set.
    InvalidClass(u16),
    /// A compression pointer that does not point strictly backwards.
    CompressionLoop,
    /// A payload whose length does not fit the fixed layout of its type.
    InvalidLength,
}

} // verus!
