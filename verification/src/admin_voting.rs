//! Governance by locked weight: accounts propose batches of actions, vote on
//! them with their weight, and a proposal that gathered its required weight
//! runs within a window after a delay.
use crate::types::Table;
use vstd::prelude::*;

verus! {

/// The least time between two proposals of one account, in seconds.
pub const MIN_TIME_BETWEEN_PROPOSALS: u64 = 86400;

/// The delay between reaching the required weight and running, in seconds.
pub const MIN_TIME_TO_EXECUTION: u64 = 86400;

/// How long a proposal accepts votes after it is made, in seconds.
pub const VOTING_PERIOD: u64 = 604800;

/// How long a passed proposal may be run once its delay is over, in seconds.
pub const MAX_TIME_TO_EXECUTION: u64 = 1814400;

/// The weight every proposal needs to pass.
pub const REQUIRED_WEIGHT: u64 = 1000;

/// A proposal: its week, when it was made, from when it may run (zero until
/// it passes), the weight it has and needs, and whether it has run.
#[derive(Clone, Copy, Debug, PartialEq, Eq, Structural)]
pub struct Proposal {
    pub week: u16,
    pub created_at: u64,
    pub can_execute_after: u64,
    pub current_weight: u64,
    pub required_weight: u64,
    pub processed: bool,
}

/// One call a proposal makes: the contract it targets and the call data.
#[derive(Clone, Debug)]
pub struct Action {
    pub target: String,
    pub data: Vec<u8>,
}

/// The voting contract's state.
pub struct AdminVoting {
    proposal_data: Table<u32, Proposal>,
    proposal_payloads: Table<u32, Vec<Action>>,
    account_vote_weights: Table<(String, u32), u64>,
    latest_proposal_timestamp: Table<String, u64>,
    min_create_proposal_pct: u32,
    passing_pct: u32,
    system_start: u64,
}

/// Whether a proposal may run at `now`: it has not run, it passed, its delay
/// is over and its window is still open.
pub open spec fn executable(p: Proposal, now: u64) -> bool {
    &&& !p.processed
    &&& p.can_execute_after != 0
    &&& p.can_execute_after <= now
    &&& now <= p.can_execute_after + MAX_TIME_TO_EXECUTION
}

/// A proposal after a vote of `weight` at `now`: the weight is added, and
/// once it reaches the required weight the proposal may run a delay later.
pub open spec fn with_vote(p: Proposal, weight: u64, now: u64) -> Proposal {
    let total = (p.current_weight + weight) as u64;
    Proposal {
        current_weight: total,
        can_execute_after: if total >= p.required_weight { (now + MIN_TIME_TO_EXECUTION) as u64 } else { p.can_execute_after },
        ..p
    }
}

impl AdminVoting {
    /// Every proposal has a payload and every payload a proposal.
    pub closed spec fn well_formed(&self) -> bool {
        &&& self.proposal_data.well_formed()
        &&& self.proposal_payloads.well_formed()
        &&& self.account_vote_weights.well_formed()
        &&& self.latest_proposal_timestamp.well_formed()
        &&& self.proposal_payloads.view().dom() == self.proposal_data.view().dom()
    }

    pub closed spec fn spec_proposals(&self) -> Map<u32, Proposal> {
        self.proposal_data.view()
    }

    pub closed spec fn spec_payloads(&self) -> Map<u32, Vec<Action>> {
        self.proposal_payloads.view()
    }

    /// The weight each account gave each proposal.
    pub closed spec fn spec_votes(&self) -> Map<(Seq<char>, u32), u64> {
        self.account_vote_weights.view()
    }

    /// When each account last proposed.
    pub closed spec fn spec_latest(&self) -> Map<Seq<char>, u64> {
        self.latest_proposal_timestamp.view()
    }

    pub closed spec fn spec_system_start(&self) -> u64 {
        self.system_start
    }

    pub closed spec fn spec_percentages(&self) -> (u32, u32) {
        (self.min_create_proposal_pct, self.passing_pct)
    }

    /// When `account` last proposed; zero if it never did.
    pub open spec fn last_proposal_time(&self, account: Seq<char>) -> int {
        if self.spec_latest().contains_key(account) { self.spec_latest()[account] as int } else { 0 }
    }

    /// The weight `account` gave proposal `id`; zero if it did not vote.
    pub open spec fn vote_of(&self, account: Seq<char>, id: u32) -> int {
        if self.spec_votes().contains_key((account, id)) { self.spec_votes()[(account, id)] as int } else { 0 }
    }

    /// A contract with no proposals, no votes and no proposal times.
    pub fn new(min_create_proposal_pct: u32, passing_pct: u32, system_start: u64) -> (r: Self)
        ensures
            r.well_formed(),
            r.spec_proposals() == Map::<u32, Proposal>::empty(),
            r.spec_votes() == Map::<(Seq<char>, u32), u64>::empty(),
            r.spec_latest() == Map::<Seq<char>, u64>::empty(),
            r.spec_system_start() == system_start,
            r.spec_percentages() == (min_create_proposal_pct, passing_pct),
    {
        AdminVoting {
            proposal_data: Table::new(),
            proposal_payloads: Table::new(),
            account_vote_weights: Table::new(),
            latest_proposal_timestamp: Table::new(),
            min_create_proposal_pct,
            passing_pct,
            system_start,
        }
    }

    /// Records `account`'s proposal made at `now` under the next id, with
    /// its payload, and `now` as the account's latest proposal time.
    pub fn create_new_proposal(&mut self, account: String, payload: Vec<Action>, now: u64)
        requires
            old(self).well_formed(),
            now > old(self).last_proposal_time(account@) + MIN_TIME_BETWEEN_PROPOSALS,
            old(self).spec_system_start() != 0,
        ensures
            final(self).well_formed(),
            ({
                let id = old(self).spec_proposals().dom().len() as u32;
                &&& final(self).spec_proposals() == old(self).spec_proposals().insert(
                    id,
                    Proposal {
                        week: old(self).spec_system_start() as u16,
                        created_at: now,
                        can_execute_after: 0,
                        current_weight: 0,
                        required_weight: REQUIRED_WEIGHT,
                        processed: false,
                    },
                )
                &&& final(self).spec_payloads() == old(self).spec_payloads().insert(id, payload)
            }),
            final(self).spec_latest() == old(self).spec_latest().insert(account@, now),
            final(self).spec_votes() == old(self).spec_votes(),
            final(self).spec_system_start() == old(self).spec_system_start(),
    {
        let id = self.proposal_data.len() as u32;
        let proposal = Proposal {
            week: self.system_start as u16,
            created_at: now,
            can_execute_after: 0,
            current_weight: 0,
            required_weight: REQUIRED_WEIGHT,
            processed: false,
        };
        self.proposal_data.insert(id, proposal);
        self.proposal_payloads.insert(id, payload);
        self.latest_proposal_timestamp.insert(account, now);
    }

    /// Records `account`'s vote of `weight` for proposal `proposal_id` at
    /// `now` and adds it to the proposal's weight.
    pub fn vote_for_proposal(&mut self, account: String, proposal_id: u32, weight: u64, now: u64)
        requires
            old(self).well_formed(),
            old(self).spec_proposals().contains_key(proposal_id),
            ({
                let p = old(self).spec_proposals()[proposal_id];
                &&& !p.processed
                &&& p.created_at + VOTING_PERIOD <= u64::MAX
                &&& now <= p.created_at + VOTING_PERIOD
                &&& p.current_weight + weight <= u64::MAX
                &&& p.current_weight + weight >= p.required_weight ==> now + MIN_TIME_TO_EXECUTION <= u64::MAX
            }),
            old(self).vote_of(account@, proposal_id) == 0,
        ensures
            final(self).well_formed(),
            final(self).spec_votes() == old(self).spec_votes().insert((account@, proposal_id), weight),
            final(self).spec_proposals() == old(self).spec_proposals().insert(
                proposal_id,
                with_vote(old(self).spec_proposals()[proposal_id], weight, now),
            ),
            final(self).spec_payloads() == old(self).spec_payloads(),
            final(self).spec_latest() == old(self).spec_latest(),
            final(self).spec_system_start() == old(self).spec_system_start(),
    {
        let mut proposal = *self.proposal_data.get(&proposal_id).unwrap();
        self.account_vote_weights.insert((account, proposal_id), weight);
        proposal.current_weight = proposal.current_weight + weight;
        if proposal.current_weight >= proposal.required_weight {
            proposal.can_execute_after = now + MIN_TIME_TO_EXECUTION;
        }
        self.proposal_data.insert(proposal_id, proposal);
        assert(self.proposal_payloads.view().dom() =~= self.proposal_data.view().dom());
    }

    /// Marks proposal `proposal_id` as run at `now` and returns the targets
    /// of its actions, in order.
    pub fn execute_proposal(&mut self, proposal_id: u32, now: u64) -> (r: Vec<String>)
        requires
            old(self).well_formed(),
            old(self).spec_proposals().contains_key(proposal_id),
            executable(old(self).spec_proposals()[proposal_id], now),
        ensures
            final(self).well_formed(),
            final(self).spec_proposals() == old(self).spec_proposals().insert(
                proposal_id,
                Proposal { processed: true, ..old(self).spec_proposals()[proposal_id] },
            ),
            r@.len() == old(self).spec_payloads()[proposal_id]@.len(),
            forall|i: int| 0 <= i < r@.len() ==> #[trigger] r@[i]@ == old(self).spec_payloads()[proposal_id]@[i].target@,
            final(self).spec_payloads() == old(self).spec_payloads(),
            final(self).spec_votes() == old(self).spec_votes(),
            final(self).spec_latest() == old(self).spec_latest(),
            final(self).spec_system_start() == old(self).spec_system_start(),
    {
        let mut proposal = *self.proposal_data.get(&proposal_id).unwrap();
        proposal.processed = true;
        self.proposal_data.insert(proposal_id, proposal);
        assert(self.proposal_payloads.view().dom() =~= self.proposal_data.view().dom());
        let actions = self.proposal_payloads.get(&proposal_id).unwrap();
        let mut targets: Vec<String> = Vec::new();
        let mut i: usize = 0;
        while i < actions.len()
            invariant
                i <= actions@.len(),
                targets@.len() == i,
                forall|j: int| 0 <= j < i ==> #[trigger] targets@[j]@ == actions@[j].target@,
            decreases actions@.len() - i,
        {
            targets.push(actions[i].target.clone());
            i = i + 1;
        }
        targets
    }

    /// Proposal `id`, if there is one.
    pub fn get_proposal(&self, id: u32) -> (r: Option<Proposal>)
        requires
            self.well_formed(),
        ensures
            r == (if self.spec_proposals().contains_key(id) { Some(self.spec_proposals()[id]) } else { None }),
    {
        match self.proposal_data.get(&id) {
            Some(p) => Some(*p),
            None => None,
        }
    }
}

} // verus!
