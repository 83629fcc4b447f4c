use vstd::prelude::*;

verus! {

/// Everything that can go wrong in this crate.
///
/// Validated entry points return one of these instead of panicking on
/// untrusted input.
#[derive(Debug, Clone, Copy, PartialEq, Eq, Hash, Structural)]
pub enum Error {
    /// Key bytes do not decode to a valid point on the signing curve.
    InvalidKey,
    /// A printable token does not start with the expected type prefix.
    InvalidPrintable,
    /// A decoded printable payload has the wrong length for its key type.
    KeyLength,
    /// A buffer is too short for the record it is declared or expected to hold.
    EndOfInput,
    /// An encrypted secret-key envelope has the wrong total length.
    BadEnvelope,
    /// An encrypted secret-key envelope carries an unrecognized version byte.
    UnsupportedVersion(u8),
    /// A printable body contains a symbol outside the base-32 alphabet, or
    /// has a length or padding that no encoder output can have.
    InvalidBase32,
    /// A tag payload is too long for the 16-bit record length field.
    TagTooLong,
    /// The key-stretching primitive rejected the supplied cost parameter.
    KdfParams,
}

} // verus!
