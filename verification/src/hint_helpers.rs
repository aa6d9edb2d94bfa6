//! Redemption hints: where a redemption of a given debt amount starts in the
//! sorted troves, and the NICR the last, partially redeemed trove ends with.
use vstd::prelude::*;

verus! {

/// A trove as the trove manager reports it: owner, debt, collateral and its
/// current collateral ratio at the redemption price.
pub struct TroveSnapshot {
    pub owner: String,
    pub debt: u128,
    pub coll: u128,
    pub icr: u128,
}

/// The hints for a redemption: the first trove to redeem from (empty when
/// none), the NICR of the partially redeemed trove (zero when none) and the
/// debt that the redemption will actually take.
pub struct RedemptionHints {
    pub first_redemption_hint: String,
    pub partial_redemption_hint_nicr: u128,
    pub truncated_debt_amount: u128,
}

/// The position just after the last trove, counting down from `idx`, whose
/// ICR is at least `mcr`; zero when there is none.
pub open spec fn first_redeemable(troves: Seq<TroveSnapshot>, idx: int, mcr: u128) -> int
    decreases idx,
{
    if idx > 0 && troves[idx - 1].icr < mcr {
        first_redeemable(troves, idx - 1, mcr)
    } else {
        idx
    }
}

/// The debt a trove gives up when the remaining amount is smaller than its
/// debt: as much as leaves it `min_net_debt`, at most the remaining amount.
pub open spec fn partial_amount(debt: u128, remaining: u128, min_net_debt: u128) -> u128 {
    if remaining < (debt - min_net_debt) as u128 { remaining } else { (debt - min_net_debt) as u128 }
}

/// Walking down from position `idx`: the partial NICR and the redeemed debt
/// once `remaining` is used up, the troves run out, or `iters` steps are taken.
pub open spec fn redemption_walk(
    troves: Seq<TroveSnapshot>,
    idx: int,
    remaining: u128,
    partial: u128,
    truncated: u128,
    iters: int,
    min_net_debt: u128,
    price: u128,
) -> (u128, u128)
    decreases idx,
{
    if idx <= 0 || remaining == 0 || iters <= 0 {
        (partial, truncated)
    } else {
        let t = troves[idx - 1];
        if t.debt > remaining {
            if t.debt > min_net_debt {
                let m = partial_amount(t.debt, remaining, min_net_debt);
                (((t.coll - m * price) / (t.debt - m as int)) as u128, (truncated + m) as u128)
            } else {
                (partial, truncated)
            }
        } else {
            redemption_walk(
                troves,
                idx - 1,
                (remaining - t.debt) as u128,
                partial,
                (truncated + t.debt) as u128,
                iters - 1,
                min_net_debt,
                price,
            )
        }
    }
}

/// The walk never takes more collateral from the partially redeemed trove
/// than it has.
pub open spec fn redemption_walk_defined(
    troves: Seq<TroveSnapshot>,
    idx: int,
    remaining: u128,
    iters: int,
    min_net_debt: u128,
    price: u128,
) -> bool
    decreases idx,
{
    if idx <= 0 || remaining == 0 || iters <= 0 {
        true
    } else {
        let t = troves[idx - 1];
        if t.debt > remaining {
            t.debt > min_net_debt ==> partial_amount(t.debt, remaining, min_net_debt) * price <= t.coll
        } else {
            redemption_walk_defined(troves, idx - 1, (remaining - t.debt) as u128, iters - 1, min_net_debt, price)
        }
    }
}

/// The troves in the order the redemption sees them, walked from the end:
/// up to the first redeemable one from the end. Where that is the last trove
/// it is read once more after its first visit, so the walk meets it twice.
pub open spec fn redemption_order(troves: Seq<TroveSnapshot>, mcr: u128) -> Seq<TroveSnapshot> {
    let n = troves.len() as int;
    let start = first_redeemable(troves, n, mcr);
    if start == n && n > 0 {
        troves.push(troves[n - 1])
    } else {
        troves.take(start)
    }
}

/// The redemption starts below the troves at the end whose ICR is under
/// `mcr`: counting down from `idx`, every trove skipped has an ICR below
/// `mcr`, and the trove it starts from, if any, has an ICR of at least `mcr`.
pub proof fn lemma_first_redeemable_bounds(troves: Seq<TroveSnapshot>, idx: int, mcr: u128)
    requires
        0 <= idx <= troves.len(),
    ensures
        0 <= first_redeemable(troves, idx, mcr) <= idx,
        first_redeemable(troves, idx, mcr) > 0 ==> troves[first_redeemable(troves, idx, mcr) - 1].icr >= mcr,
        forall|j: int| first_redeemable(troves, idx, mcr) <= j < idx ==> #[trigger] troves[j].icr < mcr,
    decreases idx,
{
    if idx > 0 && troves[idx - 1].icr < mcr {
        lemma_first_redeemable_bounds(troves, idx - 1, mcr);
    }
}

proof fn lemma_walk_redeems_at_most(
    troves: Seq<TroveSnapshot>,
    idx: int,
    remaining: u128,
    partial: u128,
    truncated: u128,
    iters: int,
    min_net_debt: u128,
    price: u128,
)
    requires
        truncated + remaining <= u128::MAX,
    ensures
        redemption_walk(troves, idx, remaining, partial, truncated, iters, min_net_debt, price).1 <= truncated + remaining,
        redemption_walk(troves, idx, remaining, partial, truncated, iters, min_net_debt, price).1 >= truncated,
    decreases idx,
{
    if !(idx <= 0 || remaining == 0 || iters <= 0) {
        let t = troves[idx - 1];
        if t.debt <= remaining {
            lemma_walk_redeems_at_most(
                troves,
                idx - 1,
                (remaining - t.debt) as u128,
                partial,
                (truncated + t.debt) as u128,
                iters - 1,
                min_net_debt,
                price,
            );
        }
    }
}

/// The total debt of the troves at positions `lo` up to, not including, `hi`.
pub open spec fn debts_between(troves: Seq<TroveSnapshot>, lo: int, hi: int) -> int
    decreases hi - lo,
{
    if hi <= lo { 0 } else { debts_between(troves, lo, hi - 1) + troves[hi - 1].debt }
}

proof fn lemma_debts_between_nonneg(troves: Seq<TroveSnapshot>, lo: int, hi: int)
    ensures
        debts_between(troves, lo, hi) >= 0,
    decreases hi - lo,
{
    if hi > lo {
        lemma_debts_between_nonneg(troves, lo, hi - 1);
    }
}

/// Troves whose debt fits in what is left are redeemed whole: walking down
/// from `idx` with `remaining` to redeem, when the troves from position `lo`
/// up hold `D <= remaining` of debt in all, with something left to redeem
/// before the last of them and enough steps, the walk takes all of `D`
/// and goes on from `lo` with `remaining - D`; where it stops there (no
/// trove below, nothing left, no step left) nothing is partially redeemed
/// and the redeemed debt is `D`.
pub proof fn lemma_whole_redemptions(
    troves: Seq<TroveSnapshot>,
    idx: int,
    lo: int,
    remaining: u128,
    partial: u128,
    truncated: u128,
    iters: int,
    min_net_debt: u128,
    price: u128,
)
    requires
        0 <= lo <= idx <= troves.len(),
        idx - lo <= iters,
        truncated + remaining <= u128::MAX,
        debts_between(troves, lo, idx) <= remaining,
        lo < idx ==> debts_between(troves, lo + 1, idx) < remaining,
    ensures
        ({
            let d = debts_between(troves, lo, idx);
            let walk = redemption_walk(troves, idx, remaining, partial, truncated, iters, min_net_debt, price);
            &&& walk == redemption_walk(
                troves,
                lo,
                (remaining - d) as u128,
                partial,
                (truncated + d) as u128,
                iters - (idx - lo),
                min_net_debt,
                price,
            )
            &&& (lo == 0 || d == remaining || iters == idx - lo) ==> walk == (partial, (truncated + d) as u128)
        }),
    decreases idx,
{
    if lo < idx {
        let t = troves[idx - 1];
        lemma_debts_between_nonneg(troves, lo, idx - 1);
        lemma_debts_between_nonneg(troves, lo + 1, idx);
        if lo + 1 <= idx - 1 {
            assert(debts_between(troves, lo + 1, idx) == debts_between(troves, lo + 1, idx - 1) + t.debt);
        }
        lemma_whole_redemptions(
            troves,
            idx - 1,
            lo,
            (remaining - t.debt) as u128,
            partial,
            (truncated + t.debt) as u128,
            iters - 1,
            min_net_debt,
            price,
        );
    }
}

/// A partial redemption takes `m * price` of collateral for `m` of debt.
/// Walking down from `idx` with `remaining` to redeem, when every trove
/// above position `k` is redeemed whole (its debt fits in what is left of
/// `remaining`) and trove `k` does not fit, with more than `min_net_debt`
/// of debt and enough steps left to reach it, then trove `k` gives up
/// `m = min(left, debt - min_net_debt)` of its debt, where `left` is what
/// the troves above it left over: the partial NICR is
/// `(coll - m * price) / (debt - m)` and the redeemed debt is what the
/// troves above it held plus `m`.
pub proof fn lemma_partial_redemption(
    troves: Seq<TroveSnapshot>,
    idx: int,
    k: int,
    remaining: u128,
    partial: u128,
    truncated: u128,
    iters: int,
    min_net_debt: u128,
    price: u128,
)
    requires
        0 <= k < idx <= troves.len(),
        idx - k <= iters,
        truncated + remaining <= u128::MAX,
        debts_between(troves, k + 1, idx) < remaining,
        forall|j: int| k < j < idx ==> #[trigger] troves[j].debt <= remaining - debts_between(troves, j + 1, idx),
        troves[k].debt > remaining - debts_between(troves, k + 1, idx),
        troves[k].debt > min_net_debt,
        partial_amount(troves[k].debt, (remaining - debts_between(troves, k + 1, idx)) as u128, min_net_debt) * price
            <= troves[k].coll,
    ensures
        ({
            let left = remaining - debts_between(troves, k + 1, idx);
            let t = troves[k];
            let m = if left < t.debt - min_net_debt { left } else { t.debt - min_net_debt };
            let walk = redemption_walk(troves, idx, remaining, partial, truncated, iters, min_net_debt, price);
            &&& 0 < m < t.debt
            &&& walk.0 as int == (t.coll - m * price) / (t.debt - m)
            &&& walk.1 as int == truncated + debts_between(troves, k + 1, idx) + m
        }),
    decreases idx,
{
    let t = troves[idx - 1];
    if k == idx - 1 {
        assert(debts_between(troves, k + 1, idx) == 0);
    } else {
        assert(troves[idx - 1].debt <= remaining - debts_between(troves, idx, idx));
        assert(debts_between(troves, idx, idx) == 0);
        assert(debts_between(troves, k + 1, idx) == debts_between(troves, k + 1, idx - 1) + t.debt);
        assert forall|j: int| k < j < idx - 1 implies #[trigger] troves[j].debt <= (remaining - t.debt) - debts_between(
            troves,
            j + 1,
            idx - 1,
        ) by {
            assert(debts_between(troves, j + 1, idx) == debts_between(troves, j + 1, idx - 1) + t.debt);
        }
        lemma_partial_redemption(
            troves,
            idx - 1,
            k,
            (remaining - t.debt) as u128,
            partial,
            (truncated + t.debt) as u128,
            iters - 1,
            min_net_debt,
            price,
        );
    }
}

/// Computes redemption hints over troves that a borrower-operations state
/// (held in a UTXO) governs.
pub struct MultiCollateralHintHelpers {
    borrower_operations_utxo: Vec<u8>,
}

impl MultiCollateralHintHelpers {
    pub closed spec fn spec_borrower_operations_utxo(&self) -> Seq<u8> {
        self.borrower_operations_utxo@
    }

    pub fn new(borrower_operations_utxo: Vec<u8>) -> (r: Self)
        ensures
            r.spec_borrower_operations_utxo() == borrower_operations_utxo@,
    {
        Self { borrower_operations_utxo }
    }

    /// Nominal collateral ratio as the hints compute it: `coll / debt`.
    pub fn compute_nominal_cr(coll: u128, debt: u128) -> (r: u128)
        requires
            debt > 0,
        ensures
            r == coll / debt,
    {
        coll / debt
    }

    /// Collateral ratio at `price`: `coll * price / debt`.
    pub fn compute_cr(coll: u128, debt: u128, price: u128) -> (r: u128)
        requires
            debt > 0,
            coll * price <= u128::MAX,
        ensures
            r == coll * price / (debt as int),
    {
        (coll * price) / debt
    }

    /// The hints for redeeming `debt_amount` at `price` from `sorted_troves`
    /// (ordered by ascending NICR, so that redemption starts from the end).
    /// Troves with an ICR below `mcr` at the end are skipped; then troves are
    /// redeemed whole, from the end, while their debt fits in what remains;
    /// the first that does not fit is redeemed partially, down to
    /// `min_net_debt`, and ends the walk, as do `max_iterations` steps. When
    /// the last trove is redeemable it is visited twice (see
    /// `redemption_order`).
    pub fn get_redemption_hints(
        &self,
        sorted_troves: &Vec<TroveSnapshot>,
        mcr: u128,
        min_net_debt: u128,
        debt_amount: u128,
        price: u128,
        max_iterations: usize,
    ) -> (r: RedemptionHints)
        requires
            redemption_walk_defined(
                redemption_order(sorted_troves@, mcr),
                redemption_order(sorted_troves@, mcr).len() as int,
                debt_amount,
                max_iterations as int,
                min_net_debt,
                price,
            ),
        ensures
            ({
                let start = first_redeemable(sorted_troves@, sorted_troves@.len() as int, mcr);
                let order = redemption_order(sorted_troves@, mcr);
                let walk = redemption_walk(order, order.len() as int, debt_amount, 0, 0, max_iterations as int, min_net_debt, price);
                &&& r.first_redemption_hint@ == if start > 0 { sorted_troves@[start - 1].owner@ } else { Seq::<char>::empty() }
                &&& r.partial_redemption_hint_nicr == walk.0
                &&& r.truncated_debt_amount == walk.1
            }),
            r.truncated_debt_amount <= debt_amount,
    {
        let ghost troves = sorted_troves@;
        let n = sorted_troves.len();
        let mut idx: usize = n;
        while idx > 0 && sorted_troves[idx - 1].icr < mcr
            invariant
                idx <= troves.len(),
                troves == sorted_troves@,
                first_redeemable(troves, troves.len() as int, mcr) == first_redeemable(troves, idx as int, mcr),
            decreases idx,
        {
            idx = idx - 1;
        }
        proof {
            lemma_first_redeemable_bounds(troves, troves.len() as int, mcr);
        }
        let first_redemption_hint = if idx > 0 {
            sorted_troves[idx - 1].owner.clone()
        } else {
            String::new()
        };

        let ghost order = redemption_order(troves, mcr);
        let mut repeat: bool = idx == n && idx > 0;
        let ghost total = order.len() as int;
        proof {
            assert(total == idx + if repeat { 1int } else { 0int });
            assert forall|k: int| 0 < k <= idx implies #[trigger] order[k - 1] == troves[k - 1] by {}
        }
        let mut remaining = debt_amount;
        let mut partial: u128 = 0;
        let mut truncated: u128 = 0;
        let mut iters = max_iterations;
        proof {
            lemma_walk_redeems_at_most(order, total, debt_amount, 0, 0, max_iterations as int, min_net_debt, price);
        }

        while idx > 0 && remaining > 0 && iters > 0
            invariant_except_break
                idx <= troves.len(),
                troves == sorted_troves@,
                order == redemption_order(troves, mcr),
                total == order.len(),
                repeat ==> idx == troves.len() && idx > 0 && order.len() == idx + 1 && order[idx as int] == troves[idx - 1],
                forall|k: int| 0 < k <= idx ==> #[trigger] order[k - 1] == troves[k - 1],
                truncated + remaining == debt_amount,
                redemption_walk_defined(order, idx + if repeat { 1int } else { 0int }, remaining, iters as int, min_net_debt, price),
                redemption_walk(order, idx + if repeat { 1int } else { 0int }, remaining, partial, truncated, iters as int, min_net_debt, price)
                    == redemption_walk(order, total, debt_amount, 0, 0, max_iterations as int, min_net_debt, price),
            ensures
                (partial, truncated) == redemption_walk(order, total, debt_amount, 0, 0, max_iterations as int, min_net_debt, price),
            decreases idx + if repeat { 1int } else { 0int },
        {
            let ghost pos = idx + if repeat { 1int } else { 0int };
            proof {
                assert(order[pos - 1] == troves[idx - 1]);
            }
            let debt = sorted_troves[idx - 1].debt;
            let coll = sorted_troves[idx - 1].coll;
            if debt > remaining {
                if debt > min_net_debt {
                    let max_redeemable_debt = if remaining < debt - min_net_debt { remaining } else { debt - min_net_debt };
                    let new_coll = coll - max_redeemable_debt * price;
                    let new_debt = debt - max_redeemable_debt;
                    partial = Self::compute_nominal_cr(new_coll, new_debt);
                    remaining = remaining - max_redeemable_debt;
                    truncated = truncated + max_redeemable_debt;
                }
                break;
            } else {
                remaining = remaining - debt;
                truncated = truncated + debt;
            }
            if repeat {
                repeat = false;
            } else {
                idx = idx - 1;
            }
            iters = iters - 1;
        }

        RedemptionHints {
            first_redemption_hint,
            partial_redemption_hint_nicr: partial,
            truncated_debt_amount: truncated,
        }
    }
}

} // verus!
