//! The rules borrowers' operations obey: who may act on a trove, the
//! collateral ratios an adjustment must keep, the system's total collateral
//! ratio and recovery mode, and the debt an operation issues or burns.
use crate::base::BabelBase;
use crate::delegated_ops::DelegatedOps;
use crate::ownable::BabelOwnable;
use crate::types::Table;
use vstd::prelude::*;

verus! {

/// A trove manager the borrower operations know: its collateral token and
/// its index.
#[derive(Clone, Debug)]
pub struct TroveManagerData {
    pub collateral_token: String,
    pub index: u16,
}

/// The collateral, debt and price of each trove manager, position by
/// position.
#[derive(Clone, Debug)]
pub struct SystemBalances {
    pub collaterals: Vec<u128>,
    pub debts: Vec<u128>,
    pub prices: Vec<u128>,
}

/// What an adjustment asks of the debt token.
#[derive(Clone, Copy, Debug, PartialEq, Eq, Structural)]
pub enum DebtChange {
    Issue(u64),
    Burn(u64),
}

/// The borrower operations' state.
pub struct BorrowerOperationsState {
    min_net_debt: u64,
    babel_base: BabelBase,
    babel_ownable: BabelOwnable,
    delegated_ops: DelegatedOps,
    trove_managers_data: Table<String, TroveManagerData>,
    critical_collateral_ratio: u128,
}

/// The sum of collateral times price over the first `n` positions.
pub open spec fn priced_collateral_sum(collaterals: Seq<u128>, prices: Seq<u128>, n: int) -> int
    decreases n,
{
    if n <= 0 { 0 } else { priced_collateral_sum(collaterals, prices, n - 1) + collaterals[n - 1] * prices[n - 1] }
}

/// The sum of the debts over the first `n` positions.
pub open spec fn debt_sum(debts: Seq<u128>, n: int) -> int
    decreases n,
{
    if n <= 0 { 0 } else { debt_sum(debts, n - 1) + debts[n - 1] }
}

/// The total collateral ratio: priced collateral over debt, or the largest
/// ratio when there is no debt.
pub open spec fn tcr_of(total_priced_collateral: int, total_debt: int) -> int {
    if total_debt == 0 { u128::MAX as int } else { total_priced_collateral / total_debt }
}

/// The balances have a price and a debt for each collateral, and their
/// totals fit in 128 bits.
pub open spec fn balances_fit(b: SystemBalances) -> bool {
    let n = b.collaterals@.len() as int;
    &&& b.prices@.len() >= n
    &&& b.debts@.len() >= n
    &&& priced_collateral_sum(b.collaterals@, b.prices@, n) <= u128::MAX
    &&& debt_sum(b.debts@, n) <= u128::MAX
}

/// The error an adjustment gets in the current mode, if any.
pub open spec fn adjustment_error(
    ccr: u128,
    is_recovery_mode: bool,
    coll_withdrawal: u128,
    is_debt_increase: bool,
    new_icr: u128,
    old_icr: u128,
    mcr: u128,
    new_tcr: u128,
) -> Option<Seq<char>> {
    if is_recovery_mode {
        if coll_withdrawal != 0 {
            Some("Collateral withdrawal not permitted in Recovery Mode"@)
        } else if is_debt_increase && new_icr < ccr {
            Some("ICR must be above the critical collateral ratio"@)
        } else if is_debt_increase && new_icr < old_icr {
            Some("New ICR must be above the old ICR in Recovery Mode"@)
        } else {
            None
        }
    } else if new_icr < mcr {
        Some("ICR must be above the minimum collateral ratio"@)
    } else if new_tcr < ccr {
        Some("New TCR must be above the critical collateral ratio"@)
    } else {
        None
    }
}

/// The partial sums only grow.
proof fn lemma_sums_monotonic(b: SystemBalances, i: int, n: int)
    requires
        0 <= i <= n,
    ensures
        priced_collateral_sum(b.collaterals@, b.prices@, i) <= priced_collateral_sum(b.collaterals@, b.prices@, n),
        debt_sum(b.debts@, i) <= debt_sum(b.debts@, n),
    decreases n - i,
{
    if i < n {
        lemma_sums_monotonic(b, i, n - 1);
        let c = b.collaterals@[n - 1];
        let p = b.prices@[n - 1];
        assert(c * p >= 0) by (nonlinear_arith)
            requires
                c >= 0,
                p >= 0,
        ;
    }
}

impl BorrowerOperationsState {
    pub closed spec fn well_formed(&self) -> bool {
        &&& self.trove_managers_data.well_formed()
        &&& self.delegated_ops.well_formed()
    }

    pub closed spec fn spec_ccr(&self) -> u128 {
        self.critical_collateral_ratio
    }

    pub closed spec fn spec_min_net_debt(&self) -> u64 {
        self.min_net_debt
    }

    pub closed spec fn spec_owner(&self) -> Seq<char> {
        self.babel_ownable.owner_account()
    }

    /// Whether `delegate` may act for the owner.
    pub closed spec fn owner_approved(&self, delegate: Seq<char>) -> bool {
        self.delegated_ops.approved(self.babel_ownable.owner_account(), delegate)
    }

    pub closed spec fn spec_trove_managers(&self) -> Map<Seq<char>, TroveManagerData> {
        self.trove_managers_data.view()
    }

    pub closed spec fn spec_base(&self) -> BabelBase {
        self.babel_base
    }

    /// Borrower operations with no trove managers yet.
    pub fn new(
        min_net_debt: u64,
        babel_base: BabelBase,
        babel_ownable: BabelOwnable,
        delegated_ops: DelegatedOps,
        critical_collateral_ratio: u128,
    ) -> (r: Self)
        requires
            delegated_ops.well_formed(),
        ensures
            r.well_formed(),
            r.spec_min_net_debt() == min_net_debt,
            r.spec_ccr() == critical_collateral_ratio,
            r.spec_owner() == babel_ownable.owner_account(),
            r.spec_base() == babel_base,
            forall|d: Seq<char>| r.owner_approved(d) == delegated_ops.approved(babel_ownable.owner_account(), d),
            r.spec_trove_managers() == Map::<Seq<char>, TroveManagerData>::empty(),
    {
        BorrowerOperationsState {
            min_net_debt,
            babel_base,
            babel_ownable,
            delegated_ops,
            trove_managers_data: Table::new(),
            critical_collateral_ratio,
        }
    }

    /// The individual collateral ratio: collateral times price over debt,
    /// or the largest ratio when there is no debt.
    pub fn calculate_icr(&self, collateral: u128, debt: u128, price: u128) -> (r: u128)
        requires
            debt != 0 ==> collateral * price <= u128::MAX,
        ensures
            r == tcr_of(collateral * price, debt as int),
    {
        if debt == 0 {
            return u128::MAX;
        }
        collateral * price / debt
    }

    /// The check that `caller` is the owner or a delegate the owner approved;
    /// any other caller aborts the call, so callers must establish it.
    pub fn ensure_owner_or_delegate(&self, caller: &String)
        requires
            self.well_formed(),
            caller@ == self.spec_owner() || self.owner_approved(caller@),
    {
    }

    /// Succeeds when the fee is at most `max_fee_percentage` percent of the
    /// debt.
    pub fn ensure_user_accepts_fee(&self, fee: u128, debt_amount: u128, max_fee_percentage: u128) -> (r: Result<(), &'static str>)
        requires
            debt_amount * max_fee_percentage <= u128::MAX,
        ensures
            r is Ok <==> fee <= debt_amount * max_fee_percentage / 100,
            r matches Err(e) ==> e@ == "Fee exceeds the maximum fee percentage allowed"@,
    {
        let max_fee = debt_amount * max_fee_percentage / 100;
        if fee <= max_fee {
            Ok(())
        } else {
            Err("Fee exceeds the maximum fee percentage allowed")
        }
    }

    /// Succeeds when the new ICR is at least the minimum collateral ratio.
    pub fn require_icr_is_above_mcr(&self, new_icr: u128, mcr: u128) -> (r: Result<(), &'static str>)
        ensures
            r is Ok <==> new_icr >= mcr,
            r matches Err(e) ==> e@ == "ICR must be above the minimum collateral ratio"@,
    {
        if new_icr >= mcr {
            Ok(())
        } else {
            Err("ICR must be above the minimum collateral ratio")
        }
    }

    /// Succeeds when the new ICR is at least the critical collateral ratio.
    pub fn require_icr_is_above_ccr(&self, new_icr: u128) -> (r: Result<(), &'static str>)
        ensures
            r is Ok <==> new_icr >= self.spec_ccr(),
            r matches Err(e) ==> e@ == "ICR must be above the critical collateral ratio"@,
    {
        if new_icr >= self.critical_collateral_ratio {
            Ok(())
        } else {
            Err("ICR must be above the critical collateral ratio")
        }
    }

    /// Succeeds when the new ICR is at least the old one.
    pub fn require_new_icr_is_above_old_icr(&self, new_icr: u128, old_icr: u128) -> (r: Result<(), &'static str>)
        ensures
            r is Ok <==> new_icr >= old_icr,
            r matches Err(e) ==> e@ == "New ICR must be above the old ICR in Recovery Mode"@,
    {
        if new_icr >= old_icr {
            Ok(())
        } else {
            Err("New ICR must be above the old ICR in Recovery Mode")
        }
    }

    /// Succeeds when the new TCR is at least the critical collateral ratio.
    pub fn require_new_tcr_is_above_ccr(&self, new_tcr: u128) -> (r: Result<(), &'static str>)
        ensures
            r is Ok <==> new_tcr >= self.spec_ccr(),
            r matches Err(e) ==> e@ == "New TCR must be above the critical collateral ratio"@,
    {
        if new_tcr >= self.critical_collateral_ratio {
            Ok(())
        } else {
            Err("New TCR must be above the critical collateral ratio")
        }
    }

    /// Checks an adjustment against the rules of the current mode: in
    /// recovery mode no collateral may leave and a debt increase must keep
    /// the ICR above the CCR and not lower it; in normal mode the ICR must
    /// stay above the MCR and the TCR above the CCR.
    pub fn require_valid_adjustment_in_current_mode(
        &self,
        total_priced_collateral: u128,
        total_debt: u128,
        is_recovery_mode: bool,
        coll_withdrawal: u128,
        is_debt_increase: bool,
        new_icr: u128,
        old_icr: u128,
        mcr: u128,
        new_tcr: u128,
    ) -> (r: Result<(), &'static str>)
        ensures
            ({
                let e = adjustment_error(
                    self.spec_ccr(),
                    is_recovery_mode,
                    coll_withdrawal,
                    is_debt_increase,
                    new_icr,
                    old_icr,
                    mcr,
                    new_tcr,
                );
                &&& r is Ok <==> e is None
                &&& r matches Err(msg) ==> e == Some(msg@)
            }),
    {
        if is_recovery_mode {
            if coll_withdrawal != 0 {
                return Err("Collateral withdrawal not permitted in Recovery Mode");
            }
            if is_debt_increase {
                self.require_icr_is_above_ccr(new_icr)?;
                self.require_new_icr_is_above_old_icr(new_icr, old_icr)?;
            }
            Ok(())
        } else {
            self.require_icr_is_above_mcr(new_icr, mcr)?;
            self.require_new_tcr_is_above_ccr(new_tcr)?;
            Ok(())
        }
    }

    /// The total collateral ratio, the total priced collateral and the total
    /// debt of the balances.
    pub fn get_tcr_data(&self, balances: &SystemBalances) -> (r: (u128, u128, u128))
        requires
            balances_fit(*balances),
        ensures
            ({
                let n = balances.collaterals@.len() as int;
                let coll = priced_collateral_sum(balances.collaterals@, balances.prices@, n);
                let debt = debt_sum(balances.debts@, n);
                &&& r.1 == coll
                &&& r.2 == debt
                &&& r.0 == tcr_of(coll, debt)
            }),
    {
        let n = balances.collaterals.len();
        let mut total_priced_collateral: u128 = 0;
        let mut total_debt: u128 = 0;
        let mut i: usize = 0;
        while i < n
            invariant
                n == balances.collaterals@.len(),
                balances_fit(*balances),
                i <= n,
                total_priced_collateral == priced_collateral_sum(balances.collaterals@, balances.prices@, i as int),
                total_debt == debt_sum(balances.debts@, i as int),
            decreases n - i,
        {
            proof {
                lemma_sums_monotonic(*balances, i + 1, n as int);
            }
            total_priced_collateral = total_priced_collateral + balances.collaterals[i] * balances.prices[i];
            total_debt = total_debt + balances.debts[i];
            i = i + 1;
        }
        let tcr = if total_debt == 0 { u128::MAX } else { total_priced_collateral / total_debt };
        (tcr, total_priced_collateral, total_debt)
    }

    /// The total priced collateral and the total debt of the balances.
    pub fn get_global_system_balances(&self, balances: &SystemBalances) -> (r: (u128, u128))
        requires
            balances_fit(*balances),
        ensures
            r.0 == priced_collateral_sum(balances.collaterals@, balances.prices@, balances.collaterals@.len() as int),
            r.1 == debt_sum(balances.debts@, balances.collaterals@.len() as int),
    {
        let (_, total_priced_collateral, total_debt) = self.get_tcr_data(balances);
        (total_priced_collateral, total_debt)
    }

    /// Whether the system is in recovery mode: its total collateral ratio
    /// is below the critical collateral ratio.
    pub fn check_recovery_mode(&self, balances: &SystemBalances) -> (r: bool)
        requires
            balances_fit(*balances),
        ensures
            r == (tcr_of(
                priced_collateral_sum(balances.collaterals@, balances.prices@, balances.collaterals@.len() as int),
                debt_sum(balances.debts@, balances.collaterals@.len() as int),
            ) < self.spec_ccr()),
    {
        let (tcr, _, _) = self.get_tcr_data(balances);
        tcr < self.critical_collateral_ratio
    }

    /// The change of debt that an adjustment of `user_id`'s trove makes:
    /// debt to issue for a positive change, debt to burn otherwise. The
    /// user must be the owner or a delegate the owner approved, and in
    /// recovery mode no collateral may be withdrawn; any other call aborts,
    /// so callers must establish both.
    pub fn adjust_trove(&self, user_id: &String, coll_change: i64, debt_change: i64, balances: &SystemBalances) -> (r:
        DebtChange)
        requires
            self.well_formed(),
            balances_fit(*balances),
            debt_change != i64::MIN,
            user_id@ == self.spec_owner() || self.owner_approved(user_id@),
            tcr_of(
                priced_collateral_sum(balances.collaterals@, balances.prices@, balances.collaterals@.len() as int),
                debt_sum(balances.debts@, balances.collaterals@.len() as int),
            ) < self.spec_ccr() ==> coll_change >= 0,
        ensures
            r == if debt_change > 0 { DebtChange::Issue(debt_change as u64) } else { DebtChange::Burn((-debt_change) as u64) },
    {
        self.ensure_owner_or_delegate(user_id);
        if debt_change > 0 {
            DebtChange::Issue(debt_change as u64)
        } else {
            DebtChange::Burn((-debt_change) as u64)
        }
    }

    /// Opens a trove under a known trove manager and gives the debt to
    /// issue for it.
    pub fn open_trove(&self, trove_manager: &String, account: &String, collateral_amount: u128, debt_amount: u128) -> (r:
        Result<u128, &'static str>)
        requires
            self.well_formed(),
        ensures
            r is Ok <==> self.spec_trove_managers().contains_key(trove_manager@),
            r matches Ok(d) ==> d == debt_amount,
            r matches Err(e) ==> e@ == "Invalid Trove Manager"@,
    {
        match self.trove_managers_data.get(trove_manager) {
            Some(_) => Ok(debt_amount),
            None => Err("Invalid Trove Manager"),
        }
    }

    /// Checks that the user accepts `fee` on borrowing `amount` and gives
    /// the debt to issue: the amount with its fee.
    pub fn issue_debt(&self, amount: u128, max_fee_percentage: u128, fee: u128) -> (r: Result<u128, &'static str>)
        requires
            amount * max_fee_percentage <= u128::MAX,
            amount + fee <= u128::MAX,
        ensures
            r is Ok <==> fee <= amount * max_fee_percentage / 100,
            r matches Ok(d) ==> d == amount + fee,
            r matches Err(e) ==> e@ == "Fee exceeds the maximum fee percentage allowed"@,
    {
        self.ensure_user_accepts_fee(fee, amount, max_fee_percentage)?;
        Ok(amount + fee)
    }
}

} // verus!
