//! An access-controlled digital-asset registry.
//!
//! An owner registers opaque binary content under a fresh identifier, may
//! grant and revoke read access to other identities, and retains an
//! append-only audit trail of successful reads. Every operation's effect on
//! the store is stated in its contract and proved.

pub mod errors;
pub mod model;
pub mod validate;
pub mod registry;
pub mod laws;
