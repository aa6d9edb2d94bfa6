//! The debt token: the stablecoin that troves borrow. Trove managers and the
//! borrower operations mint and burn it, holders transfer it (but not to
//! the protocol's own contracts), debt is issued against twice its value in
//! collateral, and flash loans pay a fee.
use crate::arch::{extended_transition_request, signs_extended_transition, ProgramError, TransactionToSign};
use crate::btc::Transaction;
use crate::types::{Pubkey, Table, TableKey};
use vstd::prelude::*;

verus! {

/// The flash loan fee, in basis points.
pub const FLASH_LOAN_FEE: u128 = 9;

/// Why the debt token refused an operation.
#[derive(Clone, Copy, Debug, PartialEq, Eq, Structural)]
pub enum DebtTokenError {
    UnauthorizedAccess,
    InvalidOperation,
    InsufficientFunds,
    InvalidAccountData,
}

/// The debt token's state.
pub struct DebtToken {
    name: String,
    symbol: String,
    total_supply: u128,
    balances: Table<Pubkey, u128>,
    allowances: Table<(Pubkey, Pubkey), u128>,
    collateral: Table<Pubkey, u128>,
    debt: Table<Pubkey, u128>,
    trove_managers: Table<Pubkey, bool>,
    factory: Pubkey,
    borrower_operations: Pubkey,
    stability_pool: Pubkey,
    gas_pool: Pubkey,
    debt_gas_compensation: u128,
    fee_account: Pubkey,
}

/// The amount stored for `account`, zero when none is.
pub open spec fn amount_in(m: Map<Seq<u8>, u128>, account: Seq<u8>) -> int {
    if m.contains_key(account) { m[account] as int } else { 0 }
}

/// `m` with `account`'s amount set to `v`.
pub open spec fn with_amount(m: Map<Seq<u8>, u128>, account: Seq<u8>, v: int) -> Map<Seq<u8>, u128> {
    m.insert(account, v as u128)
}

/// The all-zero account.
pub open spec fn zero_key() -> Seq<u8> {
    Seq::new(32, |i: int| 0u8)
}

/// The flash loan fee on `amount`.
pub open spec fn flash_fee(amount: int) -> int {
    amount * FLASH_LOAN_FEE / 10000
}

impl DebtToken {
    pub closed spec fn well_formed(&self) -> bool {
        &&& self.balances.well_formed()
        &&& self.allowances.well_formed()
        &&& self.collateral.well_formed()
        &&& self.debt.well_formed()
        &&& self.trove_managers.well_formed()
    }

    pub closed spec fn spec_balances(&self) -> Map<Seq<u8>, u128> {
        self.balances.view()
    }

    pub closed spec fn spec_collateral(&self) -> Map<Seq<u8>, u128> {
        self.collateral.view()
    }

    pub closed spec fn spec_debt(&self) -> Map<Seq<u8>, u128> {
        self.debt.view()
    }

    pub closed spec fn spec_total_supply(&self) -> u128 {
        self.total_supply
    }

    /// Whether `account` is an enabled trove manager.
    pub closed spec fn is_trove_manager(&self, account: Seq<u8>) -> bool {
        self.trove_managers.view().contains_key(account)
    }

    /// The accounts of the factory, the borrower operations, the stability
    /// pool, the gas pool and the fee account.
    pub closed spec fn spec_roles(&self) -> (Seq<u8>, Seq<u8>, Seq<u8>, Seq<u8>, Seq<u8>) {
        (self.factory@, self.borrower_operations@, self.stability_pool@, self.gas_pool@, self.fee_account@)
    }

    pub closed spec fn spec_gas_compensation(&self) -> u128 {
        self.debt_gas_compensation
    }

    pub closed spec fn spec_names(&self) -> (Seq<char>, Seq<char>) {
        (self.name@, self.symbol@)
    }

    /// The balance of `account`.
    pub open spec fn balance(&self, account: Seq<u8>) -> int {
        amount_in(self.spec_balances(), account)
    }

    /// Whether `to` may receive transfers: it is none of the token itself,
    /// the stability pool, a trove manager or the borrower operations.
    pub open spec fn valid_recipient(&self, to: Seq<u8>, program_id: Seq<u8>) -> bool {
        !(to == program_id || to == self.spec_roles().2 || self.is_trove_manager(to) || to == self.spec_roles().1)
    }

    /// A token with no supply, balances, collateral, debt or trove
    /// managers, whose roles are the zero account.
    pub fn new(name: String, symbol: String) -> (r: Self)
        ensures
            r.well_formed(),
            r.spec_names() == (name@, symbol@),
            r.spec_total_supply() == 0,
            r.spec_balances() == Map::<Seq<u8>, u128>::empty(),
            r.spec_collateral() == Map::<Seq<u8>, u128>::empty(),
            r.spec_debt() == Map::<Seq<u8>, u128>::empty(),
            forall|a: Seq<u8>| !r.is_trove_manager(a),
            r.spec_roles() == (zero_key(), zero_key(), zero_key(), zero_key(), zero_key()),
            r.spec_gas_compensation() == 0,
    {
        DebtToken {
            name,
            symbol,
            total_supply: 0,
            balances: Table::new(),
            allowances: Table::new(),
            collateral: Table::new(),
            debt: Table::new(),
            trove_managers: Table::new(),
            factory: Pubkey::zero(),
            borrower_operations: Pubkey::zero(),
            stability_pool: Pubkey::zero(),
            gas_pool: Pubkey::zero(),
            debt_gas_compensation: 0,
            fee_account: Pubkey::zero(),
        }
    }

    fn amount_of(table: &Table<Pubkey, u128>, account: &Pubkey) -> (r: u128)
        requires
            table.well_formed(),
        ensures
            r == amount_in(table.view(), account@),
    {
        match table.get(account) {
            Some(a) => *a,
            None => 0,
        }
    }

    /// The balance of `account`.
    pub fn balance_of(&self, account: &Pubkey) -> (r: u128)
        requires
            self.well_formed(),
        ensures
            r == self.balance(account@),
    {
        Self::amount_of(&self.balances, account)
    }

    /// Mints `amount` to `account` for a trove manager or the borrower
    /// operations whose account the runtime validated. Gives the request to
    /// sign, by the caller, the runtime's state transition `state_tx` with
    /// the first input of the caller's transaction `caller_tx` appended.
    pub fn mint(
        &mut self,
        account: Pubkey,
        amount: u128,
        caller: Pubkey,
        ownership_valid: bool,
        state_tx: Transaction,
        caller_tx: &Transaction,
    ) -> (r: Result<TransactionToSign, DebtTokenError>)
        requires
            old(self).well_formed(),
            old(self).spec_total_supply() + amount <= u128::MAX,
            old(self).balance(account@) + amount <= u128::MAX,
            caller_tx.input@.len() > 0,
        ensures
            final(self).well_formed(),
            !(old(self).is_trove_manager(caller@) || caller@ == old(self).spec_roles().1) ==> r
                == Err::<TransactionToSign, DebtTokenError>(DebtTokenError::UnauthorizedAccess),
            (old(self).is_trove_manager(caller@) || caller@ == old(self).spec_roles().1) && !ownership_valid ==> r
                == Err::<TransactionToSign, DebtTokenError>(DebtTokenError::InvalidAccountData),
            r is Ok <==> (old(self).is_trove_manager(caller@) || caller@ == old(self).spec_roles().1) && ownership_valid,
            r matches Ok(t) ==> signs_extended_transition(t, state_tx, caller_tx.input@[0], caller@),
            r is Ok ==> final(self).spec_balances() == with_amount(old(self).spec_balances(), account@, old(self).balance(account@) + amount)
                && final(self).spec_total_supply() == old(self).spec_total_supply() + amount,
            r is Err ==> final(self).spec_balances() == old(self).spec_balances() && final(self).spec_total_supply()
                == old(self).spec_total_supply(),
            final(self).spec_collateral() == old(self).spec_collateral(),
            final(self).spec_debt() == old(self).spec_debt(),
            forall|a: Seq<u8>| final(self).is_trove_manager(a) == old(self).is_trove_manager(a),
            final(self).spec_roles() == old(self).spec_roles(),
            final(self).spec_gas_compensation() == old(self).spec_gas_compensation(),
    {
        if !self.trove_managers.contains_key(&caller) && !caller.same(&self.borrower_operations) {
            return Err(DebtTokenError::UnauthorizedAccess);
        }
        if !ownership_valid {
            return Err(DebtTokenError::InvalidAccountData);
        }
        let request = extended_transition_request(state_tx, &caller_tx.input[0], caller);
        let balance = Self::amount_of(&self.balances, &account);
        self.balances.insert(account, balance + amount);
        self.total_supply = self.total_supply + amount;
        Ok(request)
    }

    /// Burns `amount` of `account`'s balance for a trove manager whose
    /// account the runtime validated.
    pub fn burn(&mut self, account: Pubkey, amount: u128, caller: Pubkey, ownership_valid: bool) -> (r: Result<(), ProgramError>)
        requires
            old(self).well_formed(),
            old(self).balance(account@) >= amount ==> old(self).spec_total_supply() >= amount,
        ensures
            final(self).well_formed(),
            !ownership_valid ==> r == Err::<(), ProgramError>(ProgramError::InvalidAccountData),
            ownership_valid && !old(self).is_trove_manager(caller@) ==> r == Err::<(), ProgramError>(
                ProgramError::InvalidInstructionData,
            ),
            ownership_valid && old(self).is_trove_manager(caller@) && old(self).balance(account@) < amount ==> r == Err::<
                (),
                ProgramError,
            >(ProgramError::InsufficientFunds),
            r is Ok <==> ownership_valid && old(self).is_trove_manager(caller@) && old(self).balance(account@) >= amount,
            r is Ok ==> final(self).spec_balances() == with_amount(old(self).spec_balances(), account@, old(self).balance(account@) - amount)
                && final(self).spec_total_supply() == old(self).spec_total_supply() - amount,
            r is Err ==> final(self).spec_total_supply() == old(self).spec_total_supply() && forall|a: Seq<u8>|
                #[trigger] final(self).balance(a) == old(self).balance(a),
            final(self).spec_collateral() == old(self).spec_collateral(),
            final(self).spec_debt() == old(self).spec_debt(),
            forall|a: Seq<u8>| final(self).is_trove_manager(a) == old(self).is_trove_manager(a),
            final(self).spec_roles() == old(self).spec_roles(),
            final(self).spec_gas_compensation() == old(self).spec_gas_compensation(),
    {
        if !ownership_valid {
            return Err(ProgramError::InvalidAccountData);
        }
        if !self.trove_managers.contains_key(&caller) {
            return Err(ProgramError::InvalidInstructionData);
        }
        let balance = Self::amount_of(&self.balances, &account);
        if balance < amount {
            self.balances.insert(account, balance);
            return Err(ProgramError::InsufficientFunds);
        }
        self.balances.insert(account, balance - amount);
        self.total_supply = self.total_supply - amount;
        Ok(())
    }

    /// Moves `amount` from `from` to `to` when the runtime validated both
    /// accounts and `to` may receive transfers.
    pub fn transfer(&mut self, from: Pubkey, to: Pubkey, amount: u128, from_valid: bool, to_valid: bool, program_id: &Pubkey) -> (r:
        Result<(), ProgramError>)
        requires
            old(self).well_formed(),
            from_valid && to_valid && old(self).valid_recipient(to@, program_id@) && from@ != to@ && old(self).balance(from@)
                >= amount ==> old(self).balance(to@) + amount <= u128::MAX,
        ensures
            final(self).well_formed(),
            !(from_valid && to_valid) ==> r == Err::<(), ProgramError>(ProgramError::InvalidAccountData),
            from_valid && to_valid && !old(self).valid_recipient(to@, program_id@) ==> r == Err::<(), ProgramError>(
                ProgramError::InvalidInstructionData,
            ),
            from_valid && to_valid && old(self).valid_recipient(to@, program_id@) && old(self).balance(from@) < amount ==> r
                == Err::<(), ProgramError>(ProgramError::InsufficientFunds),
            r is Ok <==> from_valid && to_valid && old(self).valid_recipient(to@, program_id@) && old(self).balance(from@) >= amount,
            r is Ok ==> forall|a: Seq<u8>| #[trigger] final(self).balance(a) == if a == from@ && a == to@ {
                old(self).balance(a)
            } else if a == from@ {
                old(self).balance(a) - amount
            } else if a == to@ {
                old(self).balance(a) + amount
            } else {
                old(self).balance(a)
            },
            r is Err ==> forall|a: Seq<u8>| #[trigger] final(self).balance(a) == old(self).balance(a),
            final(self).spec_total_supply() == old(self).spec_total_supply(),
            final(self).spec_collateral() == old(self).spec_collateral(),
            final(self).spec_debt() == old(self).spec_debt(),
            forall|a: Seq<u8>| final(self).is_trove_manager(a) == old(self).is_trove_manager(a),
            final(self).spec_roles() == old(self).spec_roles(),
    {
        if !from_valid || !to_valid {
            return Err(ProgramError::InvalidAccountData);
        }
        if to.same(program_id) || to.same(&self.stability_pool) || self.trove_managers.contains_key(&to) || to.same(
            &self.borrower_operations,
        ) {
            return Err(ProgramError::InvalidInstructionData);
        }
        let from_balance = Self::amount_of(&self.balances, &from);
        if from_balance < amount {
            self.balances.insert(from, from_balance);
            return Err(ProgramError::InsufficientFunds);
        }
        self.balances.insert(from, from_balance - amount);
        let to_balance = Self::amount_of(&self.balances, &to);
        self.balances.insert(to, to_balance + amount);
        Ok(())
    }

    /// Issues `amount` of debt to `user` (minting it to the user) when the
    /// runtime validated the signing account `signer` and the user's
    /// collateral is at least twice the amount. Gives the request to sign, by
    /// `signer`, the runtime's state transition `state_tx` with the first
    /// input of the signer's transaction `signer_tx` appended.
    pub fn issue_debt(
        &mut self,
        user: Pubkey,
        amount: u128,
        signer: Pubkey,
        ownership_valid: bool,
        state_tx: Transaction,
        signer_tx: &Transaction,
    ) -> (r: Result<TransactionToSign, ProgramError>)
        requires
            old(self).well_formed(),
            signer_tx.input@.len() > 0,
            ownership_valid ==> amount * 2 <= u128::MAX,
            ownership_valid && amount_in(old(self).spec_collateral(), user@) >= amount * 2 ==> {
                &&& amount_in(old(self).spec_debt(), user@) + amount <= u128::MAX
                &&& old(self).spec_total_supply() + amount <= u128::MAX
                &&& old(self).balance(user@) + amount <= u128::MAX
            },
        ensures
            final(self).well_formed(),
            !ownership_valid ==> r == Err::<TransactionToSign, ProgramError>(ProgramError::InvalidAccountData)
                && final(self).spec_debt() == old(self).spec_debt(),
            ownership_valid && amount_in(old(self).spec_collateral(), user@) < amount * 2 ==> r == Err::<
                TransactionToSign,
                ProgramError,
            >(ProgramError::InsufficientFunds),
            r is Ok <==> ownership_valid && amount_in(old(self).spec_collateral(), user@) >= amount * 2,
            r matches Ok(t) ==> signs_extended_transition(t, state_tx, signer_tx.input@[0], signer@),
            r is Ok ==> {
                &&& final(self).spec_debt() == with_amount(old(self).spec_debt(), user@, amount_in(old(self).spec_debt(), user@) + amount)
                &&& final(self).spec_total_supply() == old(self).spec_total_supply() + amount
                &&& final(self).spec_balances() == with_amount(old(self).spec_balances(), user@, old(self).balance(user@) + amount)
            },
            r is Err ==> final(self).spec_total_supply() == old(self).spec_total_supply() && final(self).spec_balances()
                == old(self).spec_balances() && forall|a: Seq<u8>|
                #[trigger] amount_in(final(self).spec_debt(), a) == amount_in(old(self).spec_debt(), a),
            final(self).spec_collateral() == old(self).spec_collateral(),
            forall|a: Seq<u8>| final(self).is_trove_manager(a) == old(self).is_trove_manager(a),
            final(self).spec_roles() == old(self).spec_roles(),
    {
        if !ownership_valid {
            return Err(ProgramError::InvalidAccountData);
        }
        let request = extended_transition_request(state_tx, &signer_tx.input[0], signer);
        let debt_balance = Self::amount_of(&self.debt, &user);
        self.debt.insert(user, debt_balance);
        let collateral_balance = Self::amount_of(&self.collateral, &user);
        if collateral_balance >= amount * 2 {
            self.debt.insert(user, debt_balance + amount);
            self.total_supply = self.total_supply + amount;
            let user_balance = Self::amount_of(&self.balances, &user);
            self.balances.insert(user, user_balance + amount);
            Ok(request)
        } else {
            Err(ProgramError::InsufficientFunds)
        }
    }

    /// The flash loan fee on `amount`.
    pub fn calculate_flash_loan_fee(&self, amount: u128) -> (r: u128)
        requires
            amount * FLASH_LOAN_FEE <= u128::MAX,
        ensures
            r == flash_fee(amount as int),
    {
        (amount * FLASH_LOAN_FEE) / 10000
    }

    /// The most that can be lent: what the supply can still grow by.
    pub fn max_flash_loan(&self) -> (r: u128)
        ensures
            r == u128::MAX - self.spec_total_supply(),
    {
        u128::MAX - self.total_supply
    }

    /// Lends `amount` to `receiver` for the span of its callback, which
    /// reports whether it handled the loan; the receiver repays the amount
    /// with the fee, which goes to the fee account. When the callback fails
    /// the loan stays with the receiver.
    pub fn flash_loan(&mut self, receiver: Pubkey, amount: u128, ownership_valid: bool, receiver_handled: bool) -> (r: Result<(), ProgramError>)
        requires
            old(self).well_formed(),
            ownership_valid && amount <= u128::MAX - old(self).spec_total_supply() ==> {
                &&& amount * FLASH_LOAN_FEE <= u128::MAX
                &&& old(self).balance(receiver@) + amount <= u128::MAX
                &&& receiver_handled ==> old(self).balance(receiver@) >= flash_fee(amount as int)
                &&& receiver_handled && receiver@ != old(self).spec_roles().4 ==> old(self).balance(old(self).spec_roles().4)
                    + flash_fee(amount as int) <= u128::MAX
            },
        ensures
            final(self).well_formed(),
            !ownership_valid ==> r == Err::<(), ProgramError>(ProgramError::InvalidAccountData)
                && final(self).spec_balances() == old(self).spec_balances(),
            ownership_valid && amount > u128::MAX - old(self).spec_total_supply() ==> r == Err::<(), ProgramError>(
                ProgramError::InvalidInstructionData,
            ) && final(self).spec_balances() == old(self).spec_balances(),
            ownership_valid && amount <= u128::MAX - old(self).spec_total_supply() && !receiver_handled ==> r == Err::<
                (),
                ProgramError,
            >(ProgramError::Custom(0)) && final(self).spec_balances() == with_amount(
                old(self).spec_balances(),
                receiver@,
                old(self).balance(receiver@) + amount,
            ),
            r is Ok <==> ownership_valid && amount <= u128::MAX - old(self).spec_total_supply() && receiver_handled,
            r is Ok ==> {
                let fee = flash_fee(amount as int);
                let fee_account = old(self).spec_roles().4;
                let repaid = with_amount(old(self).spec_balances(), receiver@, old(self).balance(receiver@) - fee);
                final(self).spec_balances() == with_amount(repaid, fee_account, amount_in(repaid, fee_account) + fee)
            },
            final(self).spec_total_supply() == old(self).spec_total_supply(),
            final(self).spec_collateral() == old(self).spec_collateral(),
            final(self).spec_debt() == old(self).spec_debt(),
            forall|a: Seq<u8>| final(self).is_trove_manager(a) == old(self).is_trove_manager(a),
            final(self).spec_roles() == old(self).spec_roles(),
    {
        if !ownership_valid {
            return Err(ProgramError::InvalidAccountData);
        }
        if amount > self.max_flash_loan() {
            return Err(ProgramError::InvalidInstructionData);
        }
        let fee = self.calculate_flash_loan_fee(amount);
        let receiver_balance = Self::amount_of(&self.balances, &receiver);
        self.balances.insert(receiver, receiver_balance + amount);
        if !receiver_handled {
            return Err(ProgramError::Custom(0));
        }
        self.balances.insert(receiver, receiver_balance + amount - (amount + fee));
        let fee_balance = Self::amount_of(&self.balances, &self.fee_account);
        self.balances.insert(self.fee_account, fee_balance + fee);
        Ok(())
    }

    /// Adds `amount` to `user`'s collateral.
    pub fn add_collateral(&mut self, user: Pubkey, amount: u128)
        requires
            old(self).well_formed(),
            amount_in(old(self).spec_collateral(), user@) + amount <= u128::MAX,
        ensures
            final(self).well_formed(),
            final(self).spec_collateral() == with_amount(
                old(self).spec_collateral(),
                user@,
                amount_in(old(self).spec_collateral(), user@) + amount,
            ),
            final(self).spec_balances() == old(self).spec_balances(),
            final(self).spec_debt() == old(self).spec_debt(),
            final(self).spec_total_supply() == old(self).spec_total_supply(),
            forall|a: Seq<u8>| final(self).is_trove_manager(a) == old(self).is_trove_manager(a),
            final(self).spec_roles() == old(self).spec_roles(),
    {
        let collateral_balance = Self::amount_of(&self.collateral, &user);
        self.collateral.insert(user, collateral_balance + amount);
    }

    /// Enables `trove_manager` when the factory asks.
    pub fn enable_trove_manager(&mut self, trove_manager: Pubkey, caller: Pubkey) -> (r: Result<(), DebtTokenError>)
        requires
            old(self).well_formed(),
        ensures
            final(self).well_formed(),
            r is Ok <==> caller@ == old(self).spec_roles().0,
            r matches Err(e) ==> e == DebtTokenError::UnauthorizedAccess,
            forall|a: Seq<u8>| final(self).is_trove_manager(a) == (old(self).is_trove_manager(a) || r is Ok && a == trove_manager@),
            final(self).spec_balances() == old(self).spec_balances(),
            final(self).spec_total_supply() == old(self).spec_total_supply(),
            final(self).spec_roles() == old(self).spec_roles(),
    {
        if !caller.same(&self.factory) {
            return Err(DebtTokenError::UnauthorizedAccess);
        }
        self.trove_managers.insert(trove_manager, true);
        Ok(())
    }

    /// Moves `amount` from `from` to `to` inside the protocol, with the
    /// same checks as a transfer.
    fn transfer_internal(&mut self, from: Pubkey, to: Pubkey, amount: u128, from_valid: bool, to_valid: bool, program_id: &Pubkey) -> (r:
        Result<(), DebtTokenError>)
        requires
            old(self).well_formed(),
            from_valid && to_valid && old(self).valid_recipient(to@, program_id@) && from@ != to@ && old(self).balance(from@)
                >= amount ==> old(self).balance(to@) + amount <= u128::MAX,
        ensures
            final(self).well_formed(),
            !(from_valid && to_valid) ==> r == Err::<(), DebtTokenError>(DebtTokenError::InvalidAccountData),
            from_valid && to_valid && !old(self).valid_recipient(to@, program_id@) ==> r == Err::<(), DebtTokenError>(
                DebtTokenError::InvalidOperation,
            ),
            from_valid && to_valid && old(self).valid_recipient(to@, program_id@) && old(self).balance(from@) < amount ==> r
                == Err::<(), DebtTokenError>(DebtTokenError::InsufficientFunds),
            r is Ok <==> from_valid && to_valid && old(self).valid_recipient(to@, program_id@) && old(self).balance(from@) >= amount,
            r is Ok ==> forall|a: Seq<u8>| #[trigger] final(self).balance(a) == if a == from@ && a == to@ {
                old(self).balance(a)
            } else if a == from@ {
                old(self).balance(a) - amount
            } else if a == to@ {
                old(self).balance(a) + amount
            } else {
                old(self).balance(a)
            },
            r is Err ==> forall|a: Seq<u8>| #[trigger] final(self).balance(a) == old(self).balance(a),
            final(self).spec_total_supply() == old(self).spec_total_supply(),
            final(self).spec_collateral() == old(self).spec_collateral(),
            final(self).spec_debt() == old(self).spec_debt(),
            forall|a: Seq<u8>| final(self).is_trove_manager(a) == old(self).is_trove_manager(a),
            final(self).spec_roles() == old(self).spec_roles(),
    {
        match self.transfer(from, to, amount, from_valid, to_valid, program_id) {
            Ok(()) => Ok(()),
            Err(ProgramError::InvalidAccountData) => Err(DebtTokenError::InvalidAccountData),
            Err(ProgramError::InvalidInstructionData) => Err(DebtTokenError::InvalidOperation),
            Err(_) => Err(DebtTokenError::InsufficientFunds),
        }
    }

    /// Sends `amount` from `sender` to the stability pool, when the pool
    /// asks.
    pub fn send_to_sp(&mut self, sender: Pubkey, amount: u128, caller: Pubkey, from_valid: bool, to_valid: bool, program_id: &Pubkey) -> (r:
        Result<(), DebtTokenError>)
        requires
            old(self).well_formed(),
        ensures
            final(self).well_formed(),
            caller@ != old(self).spec_roles().2 ==> r == Err::<(), DebtTokenError>(DebtTokenError::UnauthorizedAccess),
            caller@ == old(self).spec_roles().2 && from_valid && to_valid ==> r == Err::<(), DebtTokenError>(
                DebtTokenError::InvalidOperation,
            ),
            caller@ == old(self).spec_roles().2 && !(from_valid && to_valid) ==> r == Err::<(), DebtTokenError>(
                DebtTokenError::InvalidAccountData,
            ),
            forall|a: Seq<u8>| #[trigger] final(self).balance(a) == old(self).balance(a),
            final(self).spec_total_supply() == old(self).spec_total_supply(),
            final(self).spec_roles() == old(self).spec_roles(),
    {
        if !caller.same(&self.stability_pool) {
            return Err(DebtTokenError::UnauthorizedAccess);
        }
        let pool = self.stability_pool;
        self.transfer_internal(sender, pool, amount, from_valid, to_valid, program_id)
    }

    /// Returns `amount` from `pool` to `receiver`, when the stability pool or
    /// a trove manager asks.
    pub fn return_from_pool(
        &mut self,
        pool: Pubkey,
        receiver: Pubkey,
        amount: u128,
        caller: Pubkey,
        from_valid: bool,
        to_valid: bool,
        program_id: &Pubkey,
    ) -> (r: Result<(), DebtTokenError>)
        requires
            old(self).well_formed(),
            from_valid && to_valid && old(self).valid_recipient(receiver@, program_id@) && pool@ != receiver@ && old(self).balance(
                pool@,
            ) >= amount ==> old(self).balance(receiver@) + amount <= u128::MAX,
        ensures
            final(self).well_formed(),
            !(caller@ == old(self).spec_roles().2 || old(self).is_trove_manager(caller@)) ==> r == Err::<(), DebtTokenError>(
                DebtTokenError::UnauthorizedAccess,
            ) && forall|a: Seq<u8>| #[trigger] final(self).balance(a) == old(self).balance(a),
            (caller@ == old(self).spec_roles().2 || old(self).is_trove_manager(caller@)) ==> {
                &&& r is Ok <==> from_valid && to_valid && old(self).valid_recipient(receiver@, program_id@)
                    && old(self).balance(pool@) >= amount
                &&& r is Ok ==> forall|a: Seq<u8>| #[trigger] final(self).balance(a) == if a == pool@ && a == receiver@ {
                    old(self).balance(a)
                } else if a == pool@ {
                    old(self).balance(a) - amount
                } else if a == receiver@ {
                    old(self).balance(a) + amount
                } else {
                    old(self).balance(a)
                }
                &&& r is Err ==> forall|a: Seq<u8>| #[trigger] final(self).balance(a) == old(self).balance(a)
            },
            final(self).spec_total_supply() == old(self).spec_total_supply(),
            final(self).spec_roles() == old(self).spec_roles(),
    {
        if !caller.same(&self.stability_pool) && !self.trove_managers.contains_key(&caller) {
            return Err(DebtTokenError::UnauthorizedAccess);
        }
        self.transfer_internal(pool, receiver, amount, from_valid, to_valid, program_id)
    }

    /// Mints `amount` to `account` and the gas compensation to the gas
    /// pool, when the borrower operations ask. Gives the signing requests of
    /// the two mints (see `mint`), for the runtime's state transitions
    /// `state_tx` and `gas_state_tx`.
    pub fn mint_with_gas_compensation(
        &mut self,
        account: Pubkey,
        amount: u128,
        caller: Pubkey,
        ownership_valid: bool,
        state_tx: Transaction,
        gas_state_tx: Transaction,
        caller_tx: &Transaction,
    ) -> (r: Result<(TransactionToSign, TransactionToSign), DebtTokenError>)
        requires
            old(self).well_formed(),
            caller_tx.input@.len() > 0,
            old(self).spec_total_supply() + amount + old(self).spec_gas_compensation() <= u128::MAX,
            old(self).balance(account@) + amount <= u128::MAX,
            old(self).balance(old(self).spec_roles().3) + amount + old(self).spec_gas_compensation() <= u128::MAX,
        ensures
            final(self).well_formed(),
            caller@ != old(self).spec_roles().1 ==> r == Err::<(TransactionToSign, TransactionToSign), DebtTokenError>(
                DebtTokenError::UnauthorizedAccess,
            ),
            caller@ == old(self).spec_roles().1 && !ownership_valid ==> r == Err::<
                (TransactionToSign, TransactionToSign),
                DebtTokenError,
            >(DebtTokenError::InvalidAccountData),
            r is Ok <==> caller@ == old(self).spec_roles().1 && ownership_valid,
            r matches Ok((t, g)) ==> signs_extended_transition(t, state_tx, caller_tx.input@[0], caller@)
                && signs_extended_transition(g, gas_state_tx, caller_tx.input@[0], caller@),
            r is Ok ==> {
                let gas_pool = old(self).spec_roles().3;
                let minted = with_amount(old(self).spec_balances(), account@, old(self).balance(account@) + amount);
                &&& final(self).spec_balances() == with_amount(
                    minted,
                    gas_pool,
                    amount_in(minted, gas_pool) + old(self).spec_gas_compensation(),
                )
                &&& final(self).spec_total_supply() == old(self).spec_total_supply() + amount + old(self).spec_gas_compensation()
            },
            r is Err ==> final(self).spec_balances() == old(self).spec_balances() && final(self).spec_total_supply()
                == old(self).spec_total_supply(),
            final(self).spec_roles() == old(self).spec_roles(),
    {
        if !caller.same(&self.borrower_operations) {
            return Err(DebtTokenError::UnauthorizedAccess);
        }
        let first = match self.mint(account, amount, caller, ownership_valid, state_tx, caller_tx) {
            Ok(t) => t,
            Err(e) => {
                return Err(e);
            },
        };
        let gas_pool = self.gas_pool;
        let compensation = self.debt_gas_compensation;
        let second = match self.mint(gas_pool, compensation, caller, ownership_valid, gas_state_tx, caller_tx) {
            Ok(t) => t,
            Err(e) => {
                return Err(e);
            },
        };
        Ok((first, second))
    }
}

/// Burning what was just minted undoes the mint: every account's balance
/// is what it was before.
pub proof fn lemma_burn_undoes_mint(balances: Map<Seq<u8>, u128>, account: Seq<u8>, amount: int)
    requires
        0 <= amount,
        amount_in(balances, account) + amount <= u128::MAX,
    ensures
        ({
            let minted = with_amount(balances, account, amount_in(balances, account) + amount);
            let burned = with_amount(minted, account, amount_in(minted, account) - amount);
            forall|k: Seq<u8>| #[trigger] amount_in(burned, k) == amount_in(balances, k)
        }),
{
}

/// A transfer between two accounts keeps the sum of their balances.
pub proof fn lemma_transfer_keeps_sum(before: DebtToken, after: DebtToken, from: Seq<u8>, to: Seq<u8>, amount: int)
    requires
        forall|a: Seq<u8>| #[trigger] after.balance(a) == if a == from && a == to {
            before.balance(a)
        } else if a == from {
            before.balance(a) - amount
        } else if a == to {
            before.balance(a) + amount
        } else {
            before.balance(a)
        },
    ensures
        from != to ==> after.balance(from) + after.balance(to) == before.balance(from) + before.balance(to),
        after.balance(from) + (if from != to { after.balance(to) } else { 0 }) == before.balance(from) + (if from != to {
            before.balance(to)
        } else {
            0
        }),
{
    assert(after.balance(from) == if from == to { before.balance(from) } else { before.balance(from) - amount });
    assert(after.balance(to) == if from == to { before.balance(to) } else { before.balance(to) + amount });
}

} // verus!
