//! Ownership record of a contract: the core owner and the guardian.
use vstd::prelude::*;

verus! {

/// The owner (the core contract) and the guardian of a contract.
pub struct BabelOwnable {
    babel_core: String,
    guardian_account: String,
}

impl BabelOwnable {
    /// The owner's account.
    pub closed spec fn owner_account(&self) -> Seq<char> {
        self.babel_core@
    }

    /// The guardian's account.
    pub closed spec fn guardian_account(&self) -> Seq<char> {
        self.guardian_account@
    }

    pub fn new(babel_core: String, guardian_account: String) -> (r: Self)
        ensures
            r.owner_account() == babel_core@,
            r.guardian_account() == guardian_account@,
    {
        BabelOwnable { babel_core, guardian_account }
    }

    /// The owner.
    pub fn owner(&self) -> (r: &String)
        ensures
            r@ == self.owner_account(),
    {
        &self.babel_core
    }

    /// The guardian.
    pub fn guardian(&self) -> (r: &String)
        ensures
            r@ == self.guardian_account(),
    {
        &self.guardian_account
    }

    /// Whether `caller` is the owner.
    pub fn only_owner(&self, caller: &String) -> (r: bool)
        ensures
            r == (caller@ == self.owner_account()),
    {
        *caller == self.babel_core
    }
}

} // verus!
