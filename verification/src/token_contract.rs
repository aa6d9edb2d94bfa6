//! The governance token's contract: the accounts of the vault that holds
//! its supply and of the locker that holds its locks.
use vstd::prelude::*;

verus! {

/// The governance token's vault and locker accounts.
pub struct TokenContract {
    pub vault_pubkey: Vec<u8>,
    pub locker_pubkey: Vec<u8>,
}

impl TokenContract {
    /// A token contract for the given vault and locker.
    pub fn new(vault_pubkey: Vec<u8>, locker_pubkey: Vec<u8>) -> (r: Self)
        ensures
            r.vault_pubkey@ == vault_pubkey@,
            r.locker_pubkey@ == locker_pubkey@,
    {
        Self { vault_pubkey, locker_pubkey }
    }
}

} // verus!
