//! Read-only queries over the registered trove managers: the collateral each
//! one takes and the status of each account's trove in it.
use vstd::prelude::*;

verus! {

/// The collateral token a trove manager takes.
pub struct CollateralEntry {
    pub trove_manager: String,
    pub collateral: String,
}

/// The status of an account's trove in a trove manager.
pub struct StatusEntry {
    pub trove_manager: String,
    pub account: String,
    pub status: i32,
}

/// The first collateral recorded for `tm`.
pub open spec fn find_collateral(entries: Seq<(Seq<char>, Seq<char>)>, tm: Seq<char>) -> Option<Seq<char>>
    decreases entries.len(),
{
    if entries.len() == 0 {
        None
    } else if entries[0].0 == tm {
        Some(entries[0].1)
    } else {
        find_collateral(entries.drop_first(), tm)
    }
}

/// The first status recorded for (`tm`, `account`).
pub open spec fn find_status(entries: Seq<(Seq<char>, Seq<char>, i32)>, tm: Seq<char>, account: Seq<char>) -> Option<i32>
    decreases entries.len(),
{
    if entries.len() == 0 {
        None
    } else if entries[0].0 == tm && entries[0].1 == account {
        Some(entries[0].2)
    } else {
        find_status(entries.drop_first(), tm, account)
    }
}

/// The trove managers, in record order, in which `account` has a positive status.
pub open spec fn active_managers(entries: Seq<(Seq<char>, Seq<char>, i32)>, account: Seq<char>) -> Seq<Seq<char>>
    decreases entries.len(),
{
    if entries.len() == 0 {
        Seq::empty()
    } else {
        let last = entries.last();
        active_managers(entries.drop_last(), account) + if last.1 == account && last.2 > 0 {
            seq![last.0]
        } else {
            Seq::empty()
        }
    }
}

/// No (trove manager, account) pair is recorded twice.
pub open spec fn status_pairs_distinct(entries: Seq<(Seq<char>, Seq<char>, i32)>) -> bool {
    forall|i: int, j: int|
        0 <= i < j < entries.len() ==> !(#[trigger] entries[i].0 == #[trigger] entries[j].0 && entries[i].1
            == entries[j].1)
}

/// A trove manager is listed as active for `account` exactly when some
/// record gives the pair a positive status.
proof fn lemma_active_managers_contains(entries: Seq<(Seq<char>, Seq<char>, i32)>, account: Seq<char>, tm: Seq<char>)
    ensures
        active_managers(entries, account).contains(tm) <==> exists|i: int|
            0 <= i < entries.len() && #[trigger] entries[i].0 == tm && entries[i].1 == account && entries[i].2 > 0,
    decreases entries.len(),
{
    if entries.len() > 0 {
        let front = entries.drop_last();
        let last = entries.last();
        lemma_active_managers_contains(front, account, tm);
        let tail: Seq<Seq<char>> = if last.1 == account && last.2 > 0 { seq![last.0] } else { Seq::empty() };
        assert(active_managers(entries, account) == active_managers(front, account) + tail);
        if active_managers(entries, account).contains(tm) {
            let k = choose|k: int| 0 <= k < active_managers(entries, account).len() && active_managers(entries, account)[k] == tm;
            if k < active_managers(front, account).len() {
                assert(active_managers(front, account)[k] == tm);
                let i = choose|i: int| 0 <= i < front.len() && #[trigger] front[i].0 == tm && front[i].1 == account && front[i].2 > 0;
                assert(entries[i] == front[i]);
            } else {
                assert(entries[entries.len() - 1].0 == tm);
            }
        }
        if exists|i: int| 0 <= i < entries.len() && #[trigger] entries[i].0 == tm && entries[i].1 == account && entries[i].2 > 0 {
            let i = choose|i: int| 0 <= i < entries.len() && #[trigger] entries[i].0 == tm && entries[i].1 == account && entries[i].2 > 0;
            if i < front.len() {
                assert(front[i] == entries[i]);
                assert(front[i].0 == tm);
                let k = choose|k: int| 0 <= k < active_managers(front, account).len() && active_managers(front, account)[k] == tm;
                assert(active_managers(entries, account)[k] == tm);
            } else {
                assert(active_managers(entries, account)[active_managers(front, account).len() as int] == tm);
            }
        }
    }
}

/// The status found for a pair is that of a record of the pair, and some
/// status is found whenever the pair is recorded.
proof fn lemma_find_status(entries: Seq<(Seq<char>, Seq<char>, i32)>, tm: Seq<char>, account: Seq<char>)
    ensures
        find_status(entries, tm, account) matches Some(st) ==> exists|i: int|
            0 <= i < entries.len() && #[trigger] entries[i].0 == tm && entries[i].1 == account && entries[i].2 == st,
        (exists|i: int| 0 <= i < entries.len() && #[trigger] entries[i].0 == tm && entries[i].1 == account)
            ==> find_status(entries, tm, account) is Some,
    decreases entries.len(),
{
    if entries.len() > 0 {
        let rest = entries.drop_first();
        lemma_find_status(rest, tm, account);
        if !(entries[0].0 == tm && entries[0].1 == account) {
            match find_status(entries, tm, account) {
                Some(st) => {
                    let i = choose|i: int| 0 <= i < rest.len() && #[trigger] rest[i].0 == tm && rest[i].1 == account && rest[i].2 == st;
                    assert(entries[i + 1] == rest[i]);
                },
                None => {},
            }
            if exists|i: int| 0 <= i < entries.len() && #[trigger] entries[i].0 == tm && entries[i].1 == account {
                let i = choose|i: int| 0 <= i < entries.len() && #[trigger] entries[i].0 == tm && entries[i].1 == account;
                assert(i != 0);
                assert(rest[i - 1] == entries[i]);
                assert(rest[i - 1].0 == tm);
            }
        } else {
            assert(entries[0].0 == tm);
        }
    }
}

/// Where no pair is recorded twice, a trove manager is listed as active for
/// `account` exactly when the account's trove status in it is positive.
pub proof fn lemma_active_iff_positive_status(entries: Seq<(Seq<char>, Seq<char>, i32)>, account: Seq<char>, tm: Seq<char>)
    requires
        status_pairs_distinct(entries),
    ensures
        active_managers(entries, account).contains(tm) <==> match find_status(entries, tm, account) {
            Some(st) => st > 0,
            None => false,
        },
{
    lemma_active_managers_contains(entries, account, tm);
    lemma_find_status(entries, tm, account);
    if active_managers(entries, account).contains(tm) {
        let i = choose|i: int| 0 <= i < entries.len() && #[trigger] entries[i].0 == tm && entries[i].1 == account && entries[i].2 > 0;
        assert(find_status(entries, tm, account) is Some);
        let st = find_status(entries, tm, account)->Some_0;
        let j = choose|j: int| 0 <= j < entries.len() && #[trigger] entries[j].0 == tm && entries[j].1 == account && entries[j].2 == st;
        if i < j {
            assert(!(entries[i].0 == entries[j].0 && entries[i].1 == entries[j].1));
        } else if j < i {
            assert(!(entries[j].0 == entries[i].0 && entries[j].1 == entries[i].1));
        }
    }
    match find_status(entries, tm, account) {
        Some(st) => {
            if st > 0 {
                let j = choose|j: int| 0 <= j < entries.len() && #[trigger] entries[j].0 == tm && entries[j].1 == account && entries[j].2 == st;
                assert(entries[j].2 > 0);
            }
        },
        None => {},
    }
}

/// Where no pair is recorded twice, no trove manager is listed twice as
/// active for an account.
pub proof fn lemma_active_managers_distinct(entries: Seq<(Seq<char>, Seq<char>, i32)>, account: Seq<char>)
    requires
        status_pairs_distinct(entries),
    ensures
        active_managers(entries, account).no_duplicates(),
    decreases entries.len(),
{
    if entries.len() > 0 {
        let front = entries.drop_last();
        let last = entries.last();
        assert(status_pairs_distinct(front)) by {
            assert forall|i: int, j: int| 0 <= i < j < front.len() implies !(#[trigger] front[i].0 == #[trigger] front[j].0
                && front[i].1 == front[j].1) by {
                assert(front[i] == entries[i] && front[j] == entries[j]);
            }
        }
        lemma_active_managers_distinct(front, account);
        let am = active_managers(front, account);
        if last.1 == account && last.2 > 0 {
            lemma_active_managers_contains(front, account, last.0);
            if am.contains(last.0) {
                let i = choose|i: int| 0 <= i < front.len() && #[trigger] front[i].0 == last.0 && front[i].1 == account && front[i].2 > 0;
                assert(entries[i] == front[i]);
                assert(entries[entries.len() - 1] == last);
                assert(!(entries[i].0 == entries[entries.len() - 1].0 && entries[i].1 == entries[entries.len() - 1].1));
            }
            let whole = active_managers(entries, account);
            assert(whole == am + seq![last.0]);
            assert forall|a: int, b: int| 0 <= a < b < whole.len() implies whole[a] != whole[b] by {
                if b == whole.len() - 1 {
                    assert(whole[a] == am[a]);
                    assert(am.contains(am[a]));
                } else {
                    assert(whole[a] == am[a] && whole[b] == am[b]);
                }
            }
        } else {
            assert(active_managers(entries, account) =~= am);
        }
    }
}

/// The text views of a sequence of strings.
pub open spec fn texts(v: Seq<String>) -> Seq<Seq<char>> {
    v.map_values(|s: String| s@)
}

/// The registered trove managers with their collaterals and trove statuses.
pub struct TroveManagerGetters {
    trove_managers: Vec<String>,
    trove_to_collateral: Vec<CollateralEntry>,
    trove_status: Vec<StatusEntry>,
}

impl TroveManagerGetters {
    /// No (trove manager, account) pair has two status records.
    #[verifier::type_invariant]
    spec fn statuses_distinct(&self) -> bool {
        status_pairs_distinct(self.statuses())
    }

    pub closed spec fn collaterals(&self) -> Seq<(Seq<char>, Seq<char>)> {
        self.trove_to_collateral@.map_values(|e: CollateralEntry| (e.trove_manager@, e.collateral@))
    }

    pub closed spec fn statuses(&self) -> Seq<(Seq<char>, Seq<char>, i32)> {
        self.trove_status@.map_values(|e: StatusEntry| (e.trove_manager@, e.account@, e.status))
    }

    /// The registry with its three trove managers (ETH, BTC and DAI) and the
    /// statuses of their first accounts.
    pub fn new() -> (r: Self)
        ensures
            r.collaterals() == seq![
                ("trove_manager_1"@, "ETH"@),
                ("trove_manager_2"@, "BTC"@),
                ("trove_manager_3"@, "DAI"@),
            ],
            r.statuses() == seq![
                ("trove_manager_1"@, "account_1"@, 1i32),
                ("trove_manager_2"@, "account_2"@, 0i32),
                ("trove_manager_3"@, "account_3"@, 1i32),
            ],
    {
        let mut trove_to_collateral: Vec<CollateralEntry> = Vec::new();
        let mut trove_status: Vec<StatusEntry> = Vec::new();

        trove_to_collateral.push(
            CollateralEntry { trove_manager: "trove_manager_1".to_string(), collateral: "ETH".to_string() },
        );
        trove_to_collateral.push(
            CollateralEntry { trove_manager: "trove_manager_2".to_string(), collateral: "BTC".to_string() },
        );
        trove_to_collateral.push(
            CollateralEntry { trove_manager: "trove_manager_3".to_string(), collateral: "DAI".to_string() },
        );

        trove_status.push(
            StatusEntry {
                trove_manager: "trove_manager_1".to_string(),
                account: "account_1".to_string(),
                status: 1,
            },
        );
        trove_status.push(
            StatusEntry {
                trove_manager: "trove_manager_2".to_string(),
                account: "account_2".to_string(),
                status: 0,
            },
        );
        trove_status.push(
            StatusEntry {
                trove_manager: "trove_manager_3".to_string(),
                account: "account_3".to_string(),
                status: 1,
            },
        );

        proof {
            reveal_strlit("trove_manager_1");
            reveal_strlit("trove_manager_2");
            reveal_strlit("trove_manager_3");
            let st = trove_status@.map_values(|e: StatusEntry| (e.trove_manager@, e.account@, e.status));
            assert(st[0].0[14] == '1' && st[1].0[14] == '2' && st[2].0[14] == '3');
        }
        let r = TroveManagerGetters { trove_managers: Vec::new(), trove_to_collateral, trove_status };
        assert(r.collaterals() =~= seq![
            ("trove_manager_1"@, "ETH"@),
            ("trove_manager_2"@, "BTC"@),
            ("trove_manager_3"@, "DAI"@),
        ]);
        assert(r.statuses() =~= seq![
            ("trove_manager_1"@, "account_1"@, 1i32),
            ("trove_manager_2"@, "account_2"@, 0i32),
            ("trove_manager_3"@, "account_3"@, 1i32),
        ]);
        r
    }

    /// The collateral token of `trove_manager`, or "Unknown" for an unregistered one.
    pub fn get_collateral_token(&self, trove_manager: &str) -> (r: String)
        ensures
            r@ == match find_collateral(self.collaterals(), trove_manager@) {
                Some(c) => c,
                None => "Unknown"@,
            },
    {
        let key = trove_manager.to_string();
        let mut i: usize = 0;
        assert(self.collaterals().skip(0) =~= self.collaterals());
        while i < self.trove_to_collateral.len()
            invariant
                i <= self.trove_to_collateral@.len(),
                key@ == trove_manager@,
                find_collateral(self.collaterals(), key@) == find_collateral(
                    self.collaterals().skip(i as int),
                    key@,
                ),
            decreases self.trove_to_collateral@.len() - i,
        {
            assert(self.collaterals().skip(i as int).drop_first() =~= self.collaterals().skip(i + 1));
            if self.trove_to_collateral[i].trove_manager == key {
                return self.trove_to_collateral[i].collateral.clone();
            }
            i = i + 1;
        }
        "Unknown".to_string()
    }

    /// The status of `account`'s trove in `trove_manager`, or 0 for none.
    pub fn get_trove_status(&self, trove_manager: &str, account: &str) -> (r: i32)
        ensures
            r == match find_status(self.statuses(), trove_manager@, account@) {
                Some(s) => s,
                None => 0,
            },
    {
        let tm = trove_manager.to_string();
        let acct = account.to_string();
        let mut i: usize = 0;
        assert(self.statuses().skip(0) =~= self.statuses());
        while i < self.trove_status.len()
            invariant
                i <= self.trove_status@.len(),
                tm@ == trove_manager@,
                acct@ == account@,
                find_status(self.statuses(), tm@, acct@) == find_status(
                    self.statuses().skip(i as int),
                    tm@,
                    acct@,
                ),
            decreases self.trove_status@.len() - i,
        {
            assert(self.statuses().skip(i as int).drop_first() =~= self.statuses().skip(i + 1));
            if self.trove_status[i].trove_manager == tm && self.trove_status[i].account == acct {
                return self.trove_status[i].status;
            }
            i = i + 1;
        }
        0
    }

    /// The trove managers in which `account` has a trove of positive status:
    /// exactly those whose status for the account (see `get_trove_status`)
    /// is positive, each once.
    pub fn get_active_trove_managers_for_account(&self, account: &str) -> (r: Vec<String>)
        ensures
            texts(r@) == active_managers(self.statuses(), account@),
            forall|tm: Seq<char>|
                #[trigger] texts(r@).contains(tm) <==> match find_status(self.statuses(), tm, account@) {
                    Some(st) => st > 0,
                    None => false,
                },
            texts(r@).no_duplicates(),
    {
        proof {
            use_type_invariant(self);
            lemma_active_managers_distinct(self.statuses(), account@);
            assert forall|tm: Seq<char>|
                #[trigger] active_managers(self.statuses(), account@).contains(tm) <==> match find_status(
                    self.statuses(),
                    tm,
                    account@,
                ) {
                    Some(st) => st > 0,
                    None => false,
                } by {
                lemma_active_iff_positive_status(self.statuses(), account@, tm);
            }
        }
        let acct = account.to_string();
        let mut active: Vec<String> = Vec::new();
        let mut i: usize = 0;
        while i < self.trove_status.len()
            invariant
                i <= self.trove_status@.len(),
                acct@ == account@,
                texts(active@) == active_managers(self.statuses().take(i as int), account@),
            decreases self.trove_status@.len() - i,
        {
            assert(self.statuses().take(i + 1).drop_last() =~= self.statuses().take(i as int));
            if self.trove_status[i].account == acct && self.trove_status[i].status > 0 {
                active.push(self.trove_status[i].trove_manager.clone());
            }
            assert(texts(active@) =~= active_managers(self.statuses().take(i + 1), account@));
            i = i + 1;
        }
        assert(self.statuses().take(i as int) =~= self.statuses());
        active
    }
}

} // verus!
