//! Paged reads over the troves of a trove manager, joining each trove with
//! its reward snapshot.
use crate::types::{Table, TableKey};
use vstd::prelude::*;

verus! {

/// A trove joined with its reward snapshot.
#[derive(Clone, Debug)]
pub struct CombinedTroveData {
    pub owner: String,
    pub debt: u128,
    pub coll: u128,
    pub stake: u128,
    pub snapshot_collateral: u128,
    pub snapshot_debt: u128,
}

/// The troves (debt, collateral, stake) and reward snapshots (collateral,
/// debt) of a trove manager, by owner, in the order owners were added.
pub struct TroveManager {
    troves: Table<String, (u128, u128, u128)>,
    reward_snapshots: Table<String, (u128, u128)>,
}

/// The pages the getter reads.
pub struct MultiTroveGetter {
    trove_manager: TroveManager,
}

/// A joined row as plain values.
pub type CombinedRow = (Seq<char>, u128, u128, u128, u128, u128);

/// The joined rows of the owners in `keys`, in order, for the owners that
/// have both a trove and a snapshot.
pub open spec fn combined_rows(
    keys: Seq<Seq<char>>,
    troves: Map<Seq<char>, (u128, u128, u128)>,
    snapshots: Map<Seq<char>, (u128, u128)>,
) -> Seq<CombinedRow>
    decreases keys.len(),
{
    if keys.len() == 0 {
        Seq::empty()
    } else {
        let rest = combined_rows(keys.drop_last(), troves, snapshots);
        let k = keys.last();
        if troves.contains_key(k) && snapshots.contains_key(k) {
            let t = troves[k];
            let s = snapshots[k];
            rest.push((k, t.0, t.1, t.2, s.0, s.1))
        } else {
            rest
        }
    }
}

/// The part of `keys` that skipping `start` and taking `count` leaves.
pub open spec fn page(keys: Seq<Seq<char>>, start: int, count: int) -> Seq<Seq<char>> {
    let from = if start < keys.len() { start } else { keys.len() as int };
    let to = if count < keys.len() - from { from + count } else { keys.len() as int };
    keys.subrange(from, to)
}

/// A combined trove as a joined row.
pub open spec fn row_of(c: CombinedTroveData) -> CombinedRow {
    (c.owner@, c.debt, c.coll, c.stake, c.snapshot_collateral, c.snapshot_debt)
}

impl TroveManager {
    pub closed spec fn well_formed(&self) -> bool {
        self.troves.well_formed() && self.reward_snapshots.well_formed()
    }

    /// The owners in the order their troves were added.
    pub closed spec fn owners(&self) -> Seq<Seq<char>> {
        self.troves.key_seq()
    }

    pub closed spec fn spec_troves(&self) -> Map<Seq<char>, (u128, u128, u128)> {
        self.troves.view()
    }

    pub closed spec fn spec_snapshots(&self) -> Map<Seq<char>, (u128, u128)> {
        self.reward_snapshots.view()
    }

    /// A trove manager with no troves and no snapshots.
    pub fn new() -> (r: Self)
        ensures
            r.well_formed(),
            r.owners() == Seq::<Seq<char>>::empty(),
            r.spec_troves() == Map::<Seq<char>, (u128, u128, u128)>::empty(),
            r.spec_snapshots() == Map::<Seq<char>, (u128, u128)>::empty(),
    {
        TroveManager { troves: Table::new(), reward_snapshots: Table::new() }
    }

    /// `owner`'s trove: debt, collateral and stake.
    pub fn get_trove_data(&self, owner: &String) -> (r: Option<(u128, u128, u128)>)
        requires
            self.well_formed(),
        ensures
            r == (if self.spec_troves().contains_key(owner@) { Some(self.spec_troves()[owner@]) } else { None }),
    {
        match self.troves.get(owner) {
            Some(t) => Some(*t),
            None => None,
        }
    }

    /// `owner`'s reward snapshot: collateral and debt.
    pub fn get_reward_snapshot(&self, owner: &String) -> (r: Option<(u128, u128)>)
        requires
            self.well_formed(),
        ensures
            r == (if self.spec_snapshots().contains_key(owner@) { Some(self.spec_snapshots()[owner@]) } else { None }),
    {
        match self.reward_snapshots.get(owner) {
            Some(s) => Some(*s),
            None => None,
        }
    }
}

impl MultiTroveGetter {
    pub closed spec fn well_formed(&self) -> bool {
        self.trove_manager.well_formed()
    }

    pub closed spec fn manager(&self) -> TroveManager {
        self.trove_manager
    }

    /// A getter over an empty trove manager.
    pub fn new() -> (r: Self)
        ensures
            r.well_formed(),
            r.manager().owners() == Seq::<Seq<char>>::empty(),
    {
        MultiTroveGetter { trove_manager: TroveManager::new() }
    }

    /// The troves of the owners from position `start_idx`, at most `count`
    /// of them, each joined with its snapshot; owners without a snapshot
    /// are left out.
    pub fn get_multiple_sorted_troves(&self, start_idx: usize, count: usize) -> (r: Vec<CombinedTroveData>)
        requires
            self.well_formed(),
        ensures
            r@.map_values(|c: CombinedTroveData| row_of(c)) == combined_rows(
                page(self.manager().owners(), start_idx as int, count as int),
                self.manager().spec_troves(),
                self.manager().spec_snapshots(),
            ),
    {
        let tm = &self.trove_manager;
        let n = tm.troves.len();
        let from = if start_idx < n { start_idx } else { n };
        let to = if count < n - from { from + count } else { n };
        let ghost keys = tm.troves.key_seq();
        let mut troves_data: Vec<CombinedTroveData> = Vec::new();
        let mut i = from;
        while i < to
            invariant
                tm.well_formed(),
                keys == tm.troves.key_seq(),
                n == keys.len(),
                from <= i <= to <= n,
                troves_data@.map_values(|c: CombinedTroveData| row_of(c)) == combined_rows(
                    keys.subrange(from as int, i as int),
                    tm.troves.view(),
                    tm.reward_snapshots.view(),
                ),
            decreases to - i,
        {
            let owner = tm.troves.key_at(i);
            proof {
                assert(keys.subrange(from as int, i + 1).drop_last() =~= keys.subrange(from as int, i as int));
                tm.troves.lemma_key_seq_in_dom(i as int);
            }
            let trove = tm.get_trove_data(owner);
            let snapshot = tm.get_reward_snapshot(owner);
            match (trove, snapshot) {
                (Some((debt, coll, stake)), Some((snapshot_collateral, snapshot_debt))) => {
                    let ghost before = troves_data@;
                    troves_data.push(CombinedTroveData {
                        owner: owner.clone(),
                        debt,
                        coll,
                        stake,
                        snapshot_collateral,
                        snapshot_debt,
                    });
                    assert(troves_data@.map_values(|c: CombinedTroveData| row_of(c)) =~= before.map_values(
                        |c: CombinedTroveData| row_of(c),
                    ).push(row_of(troves_data@.last())));
                },
                _ => {},
            }
            i = i + 1;
        }
        troves_data
    }
}

} // verus!
