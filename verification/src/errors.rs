//! Error types for MAC validation and network resolution.

use vstd::prelude::*;

verus! {

/// Why a candidate MAC string was rejected, one variant per check of the
/// validation sequence, in the order the checks run.
#[derive(Clone, Copy, Debug, PartialEq, Eq, Structural)]
pub enum MacParseError {
    /// The string is not exactly 17 characters long.
    WrongLength,
    /// The string contains neither `:` nor `-`.
    MissingSeparator,
    /// Splitting by `:` and by `-` both yield a part count other than 6.
    WrongPartCount,
    /// Splitting yields 6 parts, but not all of them are 2 characters long.
    WrongPartLength,
    /// Some 2-character part is not a hexadecimal byte.
    NotHexadecimal,
}

/// A fatal error while resolving the target broadcast networks.
#[derive(Debug)]
pub enum NetworkError {
    /// A network string supplied by the caller is not valid CIDR notation;
    /// carries the offending input.
    InvalidCidr { input: String },
    /// The operating system failed to enumerate the local interfaces.
    InterfaceEnumeration,
}

} // verus!
