//! Account identifiers.
//!
//! The engine never derives or authenticates addresses; it only compares
//! them.  An identifier is therefore modelled as a plain number with
//! explicit identity comparison.  The host maps its real account addresses
//! to these identifiers before handing records to the engine.

use vstd::prelude::*;

verus! {

/// Identifier of an account, mint or market record.
#[derive(Clone, Copy, Debug, PartialEq, Eq, Structural)]
pub struct Pubkey {
    /// The host-assigned identity of the account.
    pub id: u64,
}

impl Pubkey {
    /// Builds an identifier from its host-assigned identity.
    pub fn new(id: u64) -> (r: Pubkey)
        ensures
            r.id == id,
    {
        Pubkey { id }
    }
}

} // verus!
