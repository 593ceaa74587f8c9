//! The error kinds an operation of the registry can report.

use vstd::prelude::*;

verus! {

/// Why an operation of the registry was refused.
///
/// Every failure is reported to the caller through one of these kinds;
/// no operation panics or aborts.
#[derive(Debug, Clone, PartialEq, Eq)]
pub enum VaultError {
    /// A required field was blank, or an owner tried to share an asset
    /// with themselves. Carries a message naming the violated rule.
    InvalidInput(String),
    /// No asset with the given identifier exists, or a listing matched
    /// no asset at all.
    NotFound,
    /// The caller is not authorized for the requested operation.
    Forbidden,
    /// A revocation named an identity that currently has no access.
    NotShared,
}

} // verus!
