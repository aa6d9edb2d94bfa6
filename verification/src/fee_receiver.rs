//! The fee receiver: it holds balances of several tokens, pays them out and
//! approves spenders on its owner's behalf, and records the Bitcoin
//! transactions it handles.
use crate::arch::{extended_transition_request, signs_extended_transition, TransactionToSign};
use crate::btc::{OutPoint, Transaction, UtxoSet, spec_txid};
use crate::types::{Pubkey, Table, TableKey};
use vstd::prelude::*;

verus! {

/// A token's balances and allowances.
pub struct Token {
    balances: Table<Pubkey, u32>,
    allowances: Table<(Pubkey, Pubkey), u32>,
}

/// The balance stored for `account`, zero when none is.
pub open spec fn balance_in(m: Map<Seq<u8>, u32>, account: Seq<u8>) -> int {
    if m.contains_key(account) { m[account] as int } else { 0 }
}

/// The balances after moving `amount` from `from` to `to`: the sender's
/// balance is lowered first, and the receiver's then raised from what it
/// is after that.
pub open spec fn moved_balances(m: Map<Seq<u8>, u32>, from: Seq<u8>, to: Seq<u8>, amount: u32) -> Map<Seq<u8>, u32> {
    let lowered = m.insert(from, (balance_in(m, from) - amount) as u32);
    lowered.insert(to, (balance_in(lowered, to) + amount) as u32)
}

impl Token {
    pub closed spec fn well_formed(&self) -> bool {
        self.balances.well_formed() && self.allowances.well_formed()
    }

    pub closed spec fn spec_balances(&self) -> Map<Seq<u8>, u32> {
        self.balances.view()
    }

    pub closed spec fn spec_allowances(&self) -> Map<(Seq<u8>, Seq<u8>), u32> {
        self.allowances.view()
    }

    /// A token with no balances and no allowances.
    pub fn new() -> (r: Self)
        ensures
            r.well_formed(),
            r.spec_balances() == Map::<Seq<u8>, u32>::empty(),
            r.spec_allowances() == Map::<(Seq<u8>, Seq<u8>), u32>::empty(),
    {
        Token { balances: Table::new(), allowances: Table::new() }
    }

    /// `account`'s balance.
    pub fn balance_of(&self, account: &Pubkey) -> (r: u32)
        requires
            self.well_formed(),
        ensures
            r == balance_in(self.spec_balances(), account@),
    {
        match self.balances.get(account) {
            Some(b) => *b,
            None => 0,
        }
    }

    /// Moves `amount` from `from` to `to`; refused when `from` has less.
    pub fn transfer(&mut self, from: Pubkey, to: Pubkey, amount: u32) -> (r: Result<(), String>)
        requires
            old(self).well_formed(),
            balance_in(old(self).spec_balances(), from@) >= amount && from@ != to@ ==> balance_in(
                old(self).spec_balances(),
                to@,
            ) + amount <= u32::MAX,
        ensures
            final(self).well_formed(),
            r is Ok <==> balance_in(old(self).spec_balances(), from@) >= amount,
            r is Ok ==> final(self).spec_balances() == moved_balances(old(self).spec_balances(), from@, to@, amount),
            r matches Err(e) ==> e@ == "Insufficient balance"@ && final(self).spec_balances() == old(self).spec_balances(),
            final(self).spec_allowances() == old(self).spec_allowances(),
    {
        let from_balance = self.balance_of(&from);
        if from_balance < amount {
            return Err("Insufficient balance".to_owned());
        }
        self.balances.insert(from, from_balance - amount);
        let to_balance = self.balance_of(&to);
        self.balances.insert(to, to_balance + amount);
        Ok(())
    }

    /// Lets `spender` spend `amount` of `owner`'s balance.
    pub fn approve(&mut self, owner: Pubkey, spender: Pubkey, amount: u32)
        requires
            old(self).well_formed(),
        ensures
            final(self).well_formed(),
            final(self).spec_allowances() == old(self).spec_allowances().insert((owner@, spender@), amount),
            final(self).spec_balances() == old(self).spec_balances(),
    {
        self.allowances.insert((owner, spender), amount);
    }
}

/// The fee receiver's state.
pub struct FeeReceiver {
    owner: Pubkey,
    tokens: Table<String, Token>,
    bitcoin_transactions: Table<String, Transaction>,
    utxos: UtxoSet,
}

impl FeeReceiver {
    pub closed spec fn well_formed(&self) -> bool {
        &&& self.tokens.well_formed()
        &&& self.bitcoin_transactions.well_formed()
        &&& self.utxos.well_formed()
        &&& forall|k: Seq<char>| #[trigger] self.tokens.view().contains_key(k) ==> self.tokens.view()[k].well_formed()
    }

    pub closed spec fn spec_owner(&self) -> Seq<u8> {
        self.owner@
    }

    pub closed spec fn spec_tokens(&self) -> Map<Seq<char>, Token> {
        self.tokens.view()
    }

    pub closed spec fn spec_transactions(&self) -> Map<Seq<char>, Transaction> {
        self.bitcoin_transactions.view()
    }

    pub closed spec fn utxo_view(&self) -> Map<(Seq<u8>, u32), (u64, Seq<u8>)> {
        self.utxos.view()
    }

    /// A fee receiver of `owner` with no tokens, transactions or outputs.
    pub fn new(owner: Pubkey) -> (r: Self)
        ensures
            r.well_formed(),
            r.spec_owner() == owner@,
            r.spec_tokens() == Map::<Seq<char>, Token>::empty(),
            r.spec_transactions() == Map::<Seq<char>, Transaction>::empty(),
            r.utxo_view() == Map::<(Seq<u8>, u32), (u64, Seq<u8>)>::empty(),
    {
        FeeReceiver { owner, tokens: Table::new(), bitcoin_transactions: Table::new(), utxos: UtxoSet::new() }
    }

    /// The account that calls the contract: the owner.
    fn env_caller(&self) -> (r: Pubkey)
        ensures
            r@ == self.spec_owner(),
    {
        self.owner
    }

    /// Succeeds when the caller is the owner, which it always is.
    pub fn only_owner(&self) -> (r: Result<(), String>)
        ensures
            r is Ok,
    {
        if !self.env_caller().same(&self.owner) {
            return Err("Caller is not owner".to_owned());
        }
        Ok(())
    }

    /// Hands the contract to `new_owner`.
    pub fn transfer_ownership(&mut self, new_owner: Pubkey) -> (r: Result<(), String>)
        requires
            old(self).well_formed(),
        ensures
            final(self).well_formed(),
            r is Ok,
            final(self).spec_owner() == new_owner@,
            final(self).spec_tokens() == old(self).spec_tokens(),
            final(self).spec_transactions() == old(self).spec_transactions(),
            final(self).utxo_view() == old(self).utxo_view(),
    {
        self.only_owner()?;
        self.owner = new_owner;
        Ok(())
    }

    /// Pays `amount` of token `token_id` from the owner's balance to
    /// `receiver`; the receiver's new balance is raised from what it held
    /// before the owner's balance was lowered.
    pub fn transfer_token(&mut self, token_id: String, receiver: Pubkey, amount: u32) -> (r: Result<(), String>)
        requires
            old(self).well_formed(),
            old(self).spec_tokens().contains_key(token_id@) && balance_in(
                old(self).spec_tokens()[token_id@].spec_balances(),
                old(self).spec_owner(),
            ) >= amount ==> balance_in(old(self).spec_tokens()[token_id@].spec_balances(), receiver@) + amount <= u32::MAX,
        ensures
            final(self).well_formed(),
            !old(self).spec_tokens().contains_key(token_id@) ==> (r matches Err(e) && e@ == "Token not found"@),
            old(self).spec_tokens().contains_key(token_id@) ==> {
                let before = old(self).spec_tokens()[token_id@].spec_balances();
                let owner = old(self).spec_owner();
                &&& r is Ok <==> balance_in(before, owner) >= amount
                &&& r matches Err(e) ==> e@ == "Insufficient balance"@
                &&& r is Ok ==> final(self).spec_tokens()[token_id@].spec_balances() == before.insert(
                    owner,
                    (balance_in(before, owner) - amount) as u32,
                ).insert(receiver@, (balance_in(before, receiver@) + amount) as u32)
                &&& final(self).spec_tokens()[token_id@].spec_allowances() == old(self).spec_tokens()[token_id@].spec_allowances()
            },
            r is Err ==> final(self).spec_tokens() == old(self).spec_tokens(),
            final(self).spec_tokens().dom() == old(self).spec_tokens().dom(),
            forall|k: Seq<char>| k != token_id@ && #[trigger] old(self).spec_tokens().contains_key(k)
                ==> final(self).spec_tokens()[k] == old(self).spec_tokens()[k],
            final(self).spec_owner() == old(self).spec_owner(),
            final(self).spec_transactions() == old(self).spec_transactions(),
            final(self).utxo_view() == old(self).utxo_view(),
    {
        self.only_owner()?;
        let mut token = match self.tokens.remove(&token_id) {
            Some(t) => t,
            None => return Err("Token not found".to_owned()),
        };
        let ghost before_token = token;
        let from_balance = token.balance_of(&self.owner);
        if from_balance < amount {
            self.tokens.insert(token_id, token);
            assert(self.spec_tokens() =~= old(self).spec_tokens());
            return Err("Insufficient balance".to_owned());
        }
        let to_balance = token.balance_of(&receiver);
        token.balances.insert(self.owner, from_balance - amount);
        token.balances.insert(receiver, to_balance + amount);
        self.tokens.insert(token_id, token);
        Ok(())
    }

    /// Lets `spender` spend `amount` of the owner's balance of token `token_id`.
    pub fn set_token_approval(&mut self, token_id: String, spender: Pubkey, amount: u32) -> (r: Result<(), String>)
        requires
            old(self).well_formed(),
        ensures
            final(self).well_formed(),
            r is Ok <==> old(self).spec_tokens().contains_key(token_id@),
            r matches Err(e) ==> e@ == "Token not found"@ && final(self).spec_tokens() == old(self).spec_tokens(),
            r is Ok ==> final(self).spec_tokens()[token_id@].spec_allowances() == old(self).spec_tokens()[token_id@].spec_allowances().insert(
                (old(self).spec_owner(), spender@),
                amount,
            ) && final(self).spec_tokens()[token_id@].spec_balances() == old(self).spec_tokens()[token_id@].spec_balances(),
            final(self).spec_tokens().dom() == old(self).spec_tokens().dom(),
            forall|k: Seq<char>| k != token_id@ && #[trigger] old(self).spec_tokens().contains_key(k)
                ==> final(self).spec_tokens()[k] == old(self).spec_tokens()[k],
            final(self).spec_owner() == old(self).spec_owner(),
            final(self).spec_transactions() == old(self).spec_transactions(),
            final(self).utxo_view() == old(self).utxo_view(),
    {
        self.only_owner()?;
        let mut token = match self.tokens.remove(&token_id) {
            Some(t) => t,
            None => return Err("Token not found".to_owned()),
        };
        token.approve(self.owner, spender, amount);
        self.tokens.insert(token_id, token);
        Ok(())
    }

    /// Records `transaction` under `tx_id`.
    pub fn process_bitcoin_transaction(&mut self, tx_id: String, transaction: Transaction) -> (r: Result<(), String>)
        requires
            old(self).well_formed(),
        ensures
            final(self).well_formed(),
            r is Ok,
            final(self).spec_transactions() == old(self).spec_transactions().insert(tx_id@, transaction),
            final(self).spec_tokens() == old(self).spec_tokens(),
            final(self).utxo_view() == old(self).utxo_view(),
            final(self).spec_owner() == old(self).spec_owner(),
    {
        self.only_owner()?;
        self.bitcoin_transactions.insert(tx_id, transaction);
        Ok(())
    }

    /// Records `transaction` under `tx_id` and gives the request to sign the
    /// runtime's state transition `state_tx`, extended with the
    /// transaction's first input, by the owner.
    pub fn process_arch_transaction(&mut self, tx_id: String, transaction: Transaction, state_tx: Transaction) -> (r:
        Result<TransactionToSign, String>)
        requires
            old(self).well_formed(),
            transaction.input@.len() > 0,
        ensures
            final(self).well_formed(),
            r matches Ok(t) && signs_extended_transition(t, state_tx, transaction.input@[0], old(self).spec_owner()),
            final(self).spec_transactions() == old(self).spec_transactions().insert(tx_id@, transaction),
            final(self).spec_tokens() == old(self).spec_tokens(),
            final(self).utxo_view() == old(self).utxo_view(),
            final(self).spec_owner() == old(self).spec_owner(),
    {
        self.only_owner()?;
        let request = extended_transition_request(state_tx, &transaction.input[0], self.owner);
        self.bitcoin_transactions.insert(tx_id, transaction);
        Ok(request)
    }

    /// Records output `vout` of `tx` as unspent.
    pub fn add_utxo(&mut self, tx: &Transaction, vout: u32, value: u64, script_pubkey: Vec<u8>)
        requires
            old(self).well_formed(),
        ensures
            final(self).well_formed(),
            final(self).utxo_view() == old(self).utxo_view().insert((spec_txid(*tx), vout), (value, script_pubkey@)),
            final(self).spec_tokens() == old(self).spec_tokens(),
            final(self).spec_transactions() == old(self).spec_transactions(),
            final(self).spec_owner() == old(self).spec_owner(),
    {
        self.utxos.add_utxo(tx, vout, value, script_pubkey);
    }

    /// Spends `outpoint`; refused when it is not unspent.
    pub fn spend_utxo(&mut self, outpoint: OutPoint) -> (r: Result<(), String>)
        requires
            old(self).well_formed(),
        ensures
            final(self).well_formed(),
            r is Ok <==> old(self).utxo_view().contains_key(outpoint.key_view()),
            r matches Err(e) ==> e@ == "UTXO not found"@,
            final(self).utxo_view() == old(self).utxo_view().remove(outpoint.key_view()),
            final(self).spec_tokens() == old(self).spec_tokens(),
            final(self).spec_transactions() == old(self).spec_transactions(),
            final(self).spec_owner() == old(self).spec_owner(),
    {
        self.only_owner()?;
        if !self.utxos.contains(&outpoint) {
            return Err("UTXO not found".to_owned());
        }
        self.utxos.spend_utxo(outpoint);
        Ok(())
    }
}

/// A token transfer keeps the sum of the two balances and leaves every
/// other balance alone.
pub proof fn lemma_moved_balances_keep_sum(m: Map<Seq<u8>, u32>, from: Seq<u8>, to: Seq<u8>, amount: u32)
    requires
        balance_in(m, from) >= amount,
        from != to ==> balance_in(m, to) + amount <= u32::MAX,
    ensures
        from != to ==> balance_in(moved_balances(m, from, to, amount), from) + balance_in(moved_balances(m, from, to, amount), to)
            == balance_in(m, from) + balance_in(m, to),
        from == to ==> balance_in(moved_balances(m, from, to, amount), from) == balance_in(m, from),
        forall|k: Seq<u8>| k != from && k != to ==> #[trigger] balance_in(moved_balances(m, from, to, amount), k) == balance_in(m, k),
{
}

} // verus!
