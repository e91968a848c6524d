//! The one error category of the codec: invalid data, split into the few
//! shapes a reader can hit.
use vstd::prelude::*;

verus! {

/// Why a drawing could not be read.  Every failure of the codec carries one
/// of these; the writer is total and never fails.
#[derive(Clone, Copy, Debug, PartialEq, Eq, Structural)]
pub enum DxfError {
    /// A code line did not read as a decimal integer.
    InvalidCode,
    /// A code is not in the expected-type table; the value carried is that
    /// code.
    UnknownCode(i32),
    /// A value line did not read as the kind its code calls for; the value
    /// carried is the code.
    InvalidValue(i32),
    /// A pair was seen where the file structure calls for another.
    UnexpectedCodePair,
    /// The input ended where the file structure calls for more pairs.
    UnexpectedEndOfInput,
    /// An integer does not name any value of the enumeration its field
    /// holds; the value carried is the code of the offending pair.
    UnexpectedEnumValue(i32),
}

} // verus!
