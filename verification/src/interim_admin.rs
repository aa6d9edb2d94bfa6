//! The interim administrator: the owner's proposals while governance is not
//! yet live, a few per day, each cancellable by the guardian or the owner.
use crate::btc::Transaction;
use vstd::prelude::*;

verus! {

/// Seconds in a day.
pub const DAY_SECONDS: u64 = 86400;

/// The most proposals the owner may make in one day.
pub const MAX_DAILY_PROPOSALS: u32 = 3;

/// The days of the year whose proposals are counted.
pub const TRACKED_DAYS: usize = 365;

/// The least value, in satoshis, the first output of a handled transaction carries.
pub const MIN_FIRST_OUTPUT_VALUE: u64 = 1000;

/// A proposal: when it was made, from when it may run, and whether it has
/// been cancelled or run.
#[derive(Clone, Copy, Debug, PartialEq, Eq, Structural)]
pub struct Proposal {
    pub created_at: u64,
    pub can_execute_after: u64,
    pub processed: bool,
}

/// One call a proposal makes: the contract it targets and the call data.
#[derive(Clone, Debug)]
pub struct Action {
    pub target: String,
    pub data: Vec<u8>,
}

/// A transaction handed to the runtime for signing, with the input it must
/// have signed and the account that signs it.
#[derive(Clone, Debug)]
pub struct SigningRequest {
    pub tx_bytes: Vec<u8>,
    pub index: u32,
    pub signer: String,
}

/// The interim administrator's state.
pub struct InterimAdmin {
    babel_core: String,
    proposals: Vec<Proposal>,
    proposal_payloads: Vec<Vec<Action>>,
    daily_proposals_count: Vec<u32>,
    guardian: Option<String>,
    owner: String,
}

/// The bytes of the transaction that records proposal `id`: its low byte.
pub open spec fn proposal_tx_bytes(id: u64) -> Seq<u8> {
    seq![id as u8]
}

/// A proposal's actions as plain values: each target and its call data.
pub open spec fn payload_view(p: Seq<Action>) -> Seq<(Seq<char>, Seq<u8>)> {
    p.map_values(|a: Action| (a.target@, a.data@))
}

/// The day of the year counter that a proposal made at `now` falls into.
pub open spec fn day_of(now: u64) -> int {
    now as int / DAY_SECONDS as int
}

impl InterimAdmin {
    /// One counter per tracked day, and one payload per proposal.
    pub closed spec fn well_formed(&self) -> bool {
        &&& self.daily_proposals_count@.len() == TRACKED_DAYS
        &&& self.proposal_payloads@.len() == self.proposals@.len()
    }

    /// What well-formedness gives: one counter per tracked day, and one
    /// payload per proposal, at the proposal's index.
    pub proof fn lemma_well_formed_shape(&self)
        requires
            self.well_formed(),
        ensures
            self.spec_daily_counts().len() == TRACKED_DAYS,
            self.spec_payloads().len() == self.spec_proposals().len(),
    {
    }

    pub closed spec fn spec_owner(&self) -> Seq<char> {
        self.owner@
    }

    pub closed spec fn spec_babel_core(&self) -> Seq<char> {
        self.babel_core@
    }

    pub closed spec fn spec_guardian(&self) -> Option<Seq<char>> {
        match self.guardian {
            Some(g) => Some(g@),
            None => None,
        }
    }

    pub closed spec fn spec_proposals(&self) -> Seq<Proposal> {
        self.proposals@
    }

    /// The actions each proposal carries, as plain values.
    pub closed spec fn spec_payloads(&self) -> Seq<Seq<(Seq<char>, Seq<u8>)>> {
        self.proposal_payloads@.map_values(|p: Vec<Action>| payload_view(p@))
    }

    pub closed spec fn spec_daily_counts(&self) -> Seq<u32> {
        self.daily_proposals_count@
    }

    /// A new administrator for `owner`, with no guardian, no proposals and
    /// every day's count at zero.
    pub fn new(babel_core: String, owner: String) -> (r: Self)
        ensures
            r.well_formed(),
            r.spec_owner() == owner@,
            r.spec_babel_core() == babel_core@,
            r.spec_guardian() is None,
            r.spec_proposals() == Seq::<Proposal>::empty(),
            forall|d: int| 0 <= d < TRACKED_DAYS ==> #[trigger] r.spec_daily_counts()[d] == 0,
    {
        let counts: Vec<u32> = vec![0u32; TRACKED_DAYS];
        InterimAdmin {
            babel_core,
            proposals: Vec::new(),
            proposal_payloads: Vec::new(),
            daily_proposals_count: counts,
            guardian: None,
            owner,
        }
    }

    /// Whether `caller` is the owner.
    pub fn is_owner(&self, caller: &str) -> (r: bool)
        ensures
            r == (caller@ == self.spec_owner()),
    {
        let c: String = caller.to_owned();
        self.owner == c
    }

    /// Sets the guardian once, and only for the owner; returns whether it
    /// was set.
    pub fn set_guardian(&mut self, caller: &str, guardian: String) -> (r: bool)
        requires
            old(self).well_formed(),
        ensures
            final(self).well_formed(),
            r == (caller@ == old(self).spec_owner() && old(self).spec_guardian() is None),
            final(self).spec_guardian() == (if r { Some(guardian@) } else { old(self).spec_guardian() }),
            final(self).spec_owner() == old(self).spec_owner(),
            final(self).spec_babel_core() == old(self).spec_babel_core(),
            final(self).spec_proposals() == old(self).spec_proposals(),
            final(self).spec_daily_counts() == old(self).spec_daily_counts(),
            final(self).spec_payloads() == old(self).spec_payloads(),
    {
        if self.is_owner(caller) && self.guardian.is_none() {
            self.guardian = Some(guardian);
            true
        } else {
            false
        }
    }

    /// The bytes of the transaction that records proposal `amount`.
    pub fn create_transaction_bytes(&self, amount: u64) -> (r: Vec<u8>)
        ensures
            r@ == proposal_tx_bytes(amount),
    {
        let mut bytes: Vec<u8> = Vec::new();
        bytes.push(amount as u8);
        bytes
    }

    /// Records the owner's proposal made at `now`, counted against its day,
    /// executable a day later; returns the transaction to sign, or `None`
    /// when the caller is not the owner, in which case nothing changes.
    pub fn create_new_proposal(&mut self, caller: &str, payload: Vec<Action>, now: u64) -> (r: Option<SigningRequest>)
        requires
            old(self).well_formed(),
            caller@ == old(self).spec_owner() ==> day_of(now) < TRACKED_DAYS
                && old(self).spec_daily_counts()[day_of(now)] < MAX_DAILY_PROPOSALS,
        ensures
            final(self).well_formed(),
            final(self).spec_owner() == old(self).spec_owner(),
            final(self).spec_babel_core() == old(self).spec_babel_core(),
            final(self).spec_guardian() == old(self).spec_guardian(),
            caller@ != old(self).spec_owner() ==> r is None && final(self).spec_proposals() == old(self).spec_proposals()
                && final(self).spec_daily_counts() == old(self).spec_daily_counts()
                && final(self).spec_payloads() == old(self).spec_payloads(),
            caller@ == old(self).spec_owner() ==> {
                &&& r is Some
                &&& r->Some_0.tx_bytes@ == proposal_tx_bytes(old(self).spec_proposals().len() as u64)
                &&& r->Some_0.index == 0
                &&& r->Some_0.signer@ == caller@
                &&& final(self).spec_proposals() == old(self).spec_proposals().push(
                    Proposal { created_at: now, can_execute_after: (now + DAY_SECONDS) as u64, processed: false },
                )
                &&& final(self).spec_payloads() == old(self).spec_payloads().push(payload_view(payload@))
                &&& final(self).spec_daily_counts() == old(self).spec_daily_counts().update(
                    day_of(now),
                    (old(self).spec_daily_counts()[day_of(now)] + 1) as u32,
                )
            },
    {
        if !self.is_owner(caller) {
            return None;
        }
        let day = (now / DAY_SECONDS) as usize;
        let proposal_id = self.proposals.len();
        self.proposals.push(Proposal { created_at: now, can_execute_after: now + DAY_SECONDS, processed: false });
        let ghost payloads_before = old(self).spec_payloads();
        let ghost added = payload_view(payload@);
        self.proposal_payloads.push(payload);
        assert(self.spec_payloads() =~= payloads_before.push(added));
        let count = self.daily_proposals_count[day];
        self.daily_proposals_count.set(day, count + 1);
        let tx_bytes = self.create_transaction_bytes(proposal_id as u64);
        Some(SigningRequest { tx_bytes, index: 0, signer: caller.to_owned() })
    }

    /// The actions of proposal `index`.
    pub fn proposal_payload(&self, index: usize) -> (r: &Vec<Action>)
        requires
            self.well_formed(),
            index < self.spec_proposals().len(),
        ensures
            payload_view(r@) == self.spec_payloads()[index as int],
    {
        &self.proposal_payloads[index]
    }

    /// Cancels proposal `index` for the guardian or the owner, once a
    /// guardian is set and while the proposal is pending; returns the
    /// transaction to sign, or `None` when nothing is cancelled.
    pub fn cancel_proposal(&mut self, caller: &str, index: usize) -> (r: Option<SigningRequest>)
        requires
            old(self).well_formed(),
            old(self).spec_guardian() is Some && (caller@ == old(self).spec_guardian()->Some_0
                || caller@ == old(self).spec_owner()) ==> index < old(self).spec_proposals().len(),
        ensures
            final(self).well_formed(),
            final(self).spec_owner() == old(self).spec_owner(),
            final(self).spec_babel_core() == old(self).spec_babel_core(),
            final(self).spec_guardian() == old(self).spec_guardian(),
            final(self).spec_daily_counts() == old(self).spec_daily_counts(),
            final(self).spec_payloads() == old(self).spec_payloads(),
            ({
                let allowed = old(self).spec_guardian() is Some && (caller@ == old(self).spec_guardian()->Some_0
                    || caller@ == old(self).spec_owner()) && !old(self).spec_proposals()[index as int].processed;
                &&& r is Some <==> allowed
                &&& allowed ==> r->Some_0.tx_bytes@ == proposal_tx_bytes(index as u64) && r->Some_0.index == 0
                    && r->Some_0.signer@ == caller@
                    && final(self).spec_proposals() == old(self).spec_proposals().update(
                        index as int,
                        Proposal { processed: true, ..old(self).spec_proposals()[index as int] },
                    )
                &&& !allowed ==> final(self).spec_proposals() == old(self).spec_proposals()
            }),
    {
        let allowed = match &self.guardian {
            Some(guardian) => {
                let c: String = caller.to_owned();
                (c == *guardian || self.is_owner(caller)) && !self.proposals[index].processed
            },
            None => false,
        };
        if !allowed {
            return None;
        }
        let mut p = self.proposals[index];
        p.processed = true;
        self.proposals.set(index, p);
        let tx_bytes = self.create_transaction_bytes(index as u64);
        Some(SigningRequest { tx_bytes, index: 0, signer: caller.to_owned() })
    }

    /// Whether a Bitcoin transaction is handled: the runtime confirmed that
    /// the program owns its inputs, it has an input and an output, and its
    /// first output carries at least the least value.
    pub fn handle_bitcoin_transaction(&self, tx: &Transaction, ownership_valid: bool) -> (r: bool)
        ensures
            r == (ownership_valid && tx.input@.len() > 0 && tx.output@.len() > 0
                && tx.output@[0].value >= MIN_FIRST_OUTPUT_VALUE),
    {
        if !ownership_valid {
            return false;
        }
        if tx.input.len() == 0 || tx.output.len() == 0 {
            return false;
        }
        tx.output[0].value >= MIN_FIRST_OUTPUT_VALUE
    }
}

} // verus!
