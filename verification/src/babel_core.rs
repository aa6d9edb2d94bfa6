//! The core contract: owner, guardian and pause switch, a two-step ownership
//! transfer with a delay, and the protocol's own unspent outputs.
use crate::arch::ProgramError;
use crate::types::{bytes_eq, Pubkey, Table, TableKey};
use vstd::prelude::*;

verus! {

/// Seconds an ownership transfer must wait before it can be accepted: three days.
pub const OWNERSHIP_TRANSFER_DELAY: u64 = 259_200;

/// Seconds in a week.
pub const WEEK_SECONDS: u64 = 604_800;

/// An unspent output held by the core contract.
#[derive(Clone, Debug)]
pub struct UTXO {
    pub txid: Vec<u8>,
    pub vout: u32,
    pub value: u64,
    pub script_pubkey: Vec<u8>,
}

/// The reference to an output: transaction id and output index.
#[derive(Clone, Debug)]
pub struct UtxoRef {
    pub txid: Vec<u8>,
    pub vout: u32,
}

impl TableKey for UtxoRef {
    type KeyView = (Seq<u8>, u32);

    open spec fn key_view(&self) -> (Seq<u8>, u32) {
        (self.txid@, self.vout)
    }

    fn same_key(&self, other: &Self) -> (r: bool) {
        self.vout == other.vout && bytes_eq(&self.txid, &other.txid)
    }
}

/// The held outputs after spending `inputs`.
pub open spec fn without_inputs(m: Map<(Seq<u8>, u32), UTXO>, inputs: Seq<UtxoRef>) -> Map<(Seq<u8>, u32), UTXO>
    decreases inputs.len(),
{
    if inputs.len() == 0 { m } else { without_inputs(m, inputs.drop_last()).remove(inputs.last().key_view()) }
}

/// The held outputs after adding `outputs` in order.
pub open spec fn with_outputs(m: Map<(Seq<u8>, u32), UTXO>, outputs: Seq<UTXO>) -> Map<(Seq<u8>, u32), UTXO>
    decreases outputs.len(),
{
    if outputs.len() == 0 {
        m
    } else {
        let o = outputs.last();
        with_outputs(m, outputs.drop_last()).insert((o.txid@, o.vout), o)
    }
}

/// The total value of the referenced held outputs.
pub open spec fn inputs_value(m: Map<(Seq<u8>, u32), UTXO>, inputs: Seq<UtxoRef>) -> int
    decreases inputs.len(),
{
    if inputs.len() == 0 { 0 } else { inputs_value(m, inputs.drop_last()) + m[inputs.last().key_view()].value }
}

/// The total value of the outputs.
pub open spec fn outputs_value(outputs: Seq<UTXO>) -> int
    decreases outputs.len(),
{
    if outputs.len() == 0 { 0 } else { outputs_value(outputs.drop_last()) + outputs.last().value }
}

/// The first refusal among the runtime's ownership verdicts, if any.
pub open spec fn first_refusal(verdicts: Seq<Result<(), ProgramError>>) -> Option<ProgramError>
    decreases verdicts.len(),
{
    if verdicts.len() == 0 {
        None
    } else {
        match verdicts[0] {
            Err(e) => Some(e),
            Ok(()) => first_refusal(verdicts.drop_first()),
        }
    }
}

/// The references are distinct and all name held outputs.
pub open spec fn inputs_held(m: Map<(Seq<u8>, u32), UTXO>, inputs: Seq<UtxoRef>) -> bool {
    &&& forall|i: int| 0 <= i < inputs.len() ==> m.contains_key(#[trigger] inputs[i].key_view())
    &&& forall|i: int, j: int| 0 <= i < j < inputs.len() ==> #[trigger] inputs[i].key_view() != #[trigger] inputs[j].key_view()
}

proof fn lemma_without_inputs_keeps_later(m: Map<(Seq<u8>, u32), UTXO>, inputs: Seq<UtxoRef>, i: int)
    requires
        inputs_held(m, inputs),
        0 <= i <= inputs.len(),
    ensures
        forall|j: int| i <= j < inputs.len() ==> #[trigger] without_inputs(m, inputs.take(i)).contains_key(inputs[j].key_view())
            && without_inputs(m, inputs.take(i))[inputs[j].key_view()] == m[inputs[j].key_view()],
    decreases i,
{
    if i > 0 {
        lemma_without_inputs_keeps_later(m, inputs, i - 1);
        assert(inputs.take(i).drop_last() =~= inputs.take(i - 1));
        assert forall|j: int| i <= j < inputs.len() implies #[trigger] without_inputs(m, inputs.take(i)).contains_key(inputs[j].key_view())
            && without_inputs(m, inputs.take(i))[inputs[j].key_view()] == m[inputs[j].key_view()] by {
            assert(inputs.take(i).last() == inputs[i - 1]);
            assert(inputs[i - 1].key_view() != inputs[j].key_view());
            assert(without_inputs(m, inputs.take(i - 1)).contains_key(inputs[j].key_view()));
        }
    }
}

/// The core contract's state.
pub struct BabelCore {
    utxos: Table<UtxoRef, UTXO>,
    fee_receiver: String,
    price_feed: String,
    owner: Pubkey,
    pending_owner: Option<Pubkey>,
    ownership_transfer_deadline: Option<u64>,
    guardian: Pubkey,
    paused: bool,
    start_time: u64,
}

impl BabelCore {
    pub closed spec fn well_formed(&self) -> bool {
        &&& self.utxos.well_formed()
        &&& self.pending_owner is Some <==> self.ownership_transfer_deadline is Some
        &&& forall|k: (Seq<u8>, u32)| #[trigger] self.utxos.view().contains_key(k) ==> (self.utxos.view()[k].txid@, self.utxos.view()[k].vout) == k
    }

    pub closed spec fn utxo_view(&self) -> Map<(Seq<u8>, u32), UTXO> {
        self.utxos.view()
    }

    pub closed spec fn spec_owner(&self) -> Seq<u8> {
        self.owner@
    }

    pub closed spec fn spec_guardian(&self) -> Seq<u8> {
        self.guardian@
    }

    pub closed spec fn spec_pending_owner(&self) -> Option<Seq<u8>> {
        match self.pending_owner {
            Some(p) => Some(p@),
            None => None,
        }
    }

    pub closed spec fn spec_deadline(&self) -> Option<u64> {
        self.ownership_transfer_deadline
    }

    pub closed spec fn spec_paused(&self) -> bool {
        self.paused
    }

    pub closed spec fn spec_start_time(&self) -> u64 {
        self.start_time
    }

    pub closed spec fn spec_fee_receiver(&self) -> Seq<char> {
        self.fee_receiver@
    }

    pub closed spec fn spec_price_feed(&self) -> Seq<char> {
        self.price_feed@
    }

    /// The core contract, unpaused, with no transfer pending, started at
    /// `now` rounded down to a whole week.
    pub fn new(owner: Pubkey, guardian: Pubkey, price_feed: String, fee_receiver: String, now: u64) -> (r: Self)
        ensures
            r.well_formed(),
            r.spec_owner() == owner@,
            r.spec_guardian() == guardian@,
            r.spec_price_feed() == price_feed@,
            r.spec_fee_receiver() == fee_receiver@,
            r.spec_pending_owner() is None,
            r.spec_deadline() is None,
            !r.spec_paused(),
            r.spec_start_time() == now - now % WEEK_SECONDS,
            r.utxo_view() == Map::<(Seq<u8>, u32), UTXO>::empty(),
    {
        let r = Self {
            utxos: Table::new(),
            fee_receiver,
            price_feed,
            owner,
            pending_owner: None,
            ownership_transfer_deadline: None,
            guardian,
            paused: false,
            start_time: now - (now % WEEK_SECONDS),
        };
        r
    }

    /// Sets the fee receiver.
    pub fn set_fee_receiver(&mut self, new_fee_receiver: String)
        ensures
            final(self).spec_fee_receiver() == new_fee_receiver@,
            final(self).utxo_view() == old(self).utxo_view(),
            final(self).spec_owner() == old(self).spec_owner(),
            final(self).spec_guardian() == old(self).spec_guardian(),
            final(self).spec_pending_owner() == old(self).spec_pending_owner(),
            final(self).spec_deadline() == old(self).spec_deadline(),
            final(self).spec_paused() == old(self).spec_paused(),
            final(self).spec_price_feed() == old(self).spec_price_feed(),
            final(self).well_formed() == old(self).well_formed(),
    {
        self.fee_receiver = new_fee_receiver;
    }

    /// Sets the price feed.
    pub fn set_price_feed(&mut self, new_price_feed: String)
        ensures
            final(self).spec_price_feed() == new_price_feed@,
            final(self).utxo_view() == old(self).utxo_view(),
            final(self).spec_owner() == old(self).spec_owner(),
            final(self).spec_guardian() == old(self).spec_guardian(),
            final(self).spec_pending_owner() == old(self).spec_pending_owner(),
            final(self).spec_deadline() == old(self).spec_deadline(),
            final(self).spec_paused() == old(self).spec_paused(),
            final(self).spec_fee_receiver() == old(self).spec_fee_receiver(),
            final(self).well_formed() == old(self).well_formed(),
    {
        self.price_feed = new_price_feed;
    }

    /// Sets the guardian.
    pub fn set_guardian(&mut self, new_guardian: Pubkey)
        ensures
            final(self).spec_guardian() == new_guardian@,
            final(self).utxo_view() == old(self).utxo_view(),
            final(self).spec_owner() == old(self).spec_owner(),
            final(self).spec_pending_owner() == old(self).spec_pending_owner(),
            final(self).spec_deadline() == old(self).spec_deadline(),
            final(self).spec_paused() == old(self).spec_paused(),
            final(self).well_formed() == old(self).well_formed(),
    {
        self.guardian = new_guardian;
    }

    /// Pauses or unpauses. Unpausing is always accepted; the guardian and
    /// the owner may both pause, and any other `caller` is refused.
    pub fn set_paused(&mut self, caller: &Pubkey, new_paused: bool) -> (r: Result<(), ProgramError>)
        ensures
            r is Err <==> (new_paused && caller@ != old(self).spec_owner() && caller@ != old(self).spec_guardian()),
            r is Err ==> r == Err::<(), ProgramError>(ProgramError::Unauthorized) && final(self).spec_paused() == old(self).spec_paused(),
            r is Ok ==> final(self).spec_paused() == new_paused,
            final(self).utxo_view() == old(self).utxo_view(),
            final(self).spec_owner() == old(self).spec_owner(),
            final(self).spec_guardian() == old(self).spec_guardian(),
            final(self).spec_pending_owner() == old(self).spec_pending_owner(),
            final(self).spec_deadline() == old(self).spec_deadline(),
            final(self).well_formed() == old(self).well_formed(),
    {
        if new_paused && !self.owner.same(caller) && !self.guardian.same(caller) {
            return Err(ProgramError::Unauthorized);
        }
        self.paused = new_paused;
        Ok(())
    }

    /// Whether `caller` is the owner.
    pub fn is_owner(&self, caller: &Pubkey) -> (r: bool)
        ensures
            r == (caller@ == self.spec_owner()),
    {
        self.owner.same(caller)
    }

    /// The owner proposes `new_owner`, who may accept once the delay after
    /// `now` has passed; any other caller is refused.
    pub fn commit_transfer_ownership(&mut self, caller: &Pubkey, new_owner: Pubkey, now: u64) -> (r: Result<(), ProgramError>)
        requires
            old(self).well_formed(),
            now + OWNERSHIP_TRANSFER_DELAY <= u64::MAX,
        ensures
            final(self).well_formed(),
            r is Ok <==> caller@ == old(self).spec_owner(),
            r is Err ==> r == Err::<(), ProgramError>(ProgramError::Unauthorized) && *final(self) == *old(self),
            r is Ok ==> final(self).spec_pending_owner() == Some(new_owner@) && final(self).spec_deadline() == Some(
                (now + OWNERSHIP_TRANSFER_DELAY) as u64,
            ),
            final(self).spec_owner() == old(self).spec_owner(),
            final(self).utxo_view() == old(self).utxo_view(),
            final(self).spec_paused() == old(self).spec_paused(),
    {
        if self.is_owner(caller) {
            self.pending_owner = Some(new_owner);
            self.ownership_transfer_deadline = Some(now + OWNERSHIP_TRANSFER_DELAY);
            Ok(())
        } else {
            Err(ProgramError::Unauthorized)
        }
    }

    /// The pending owner takes ownership at `now`, once the deadline has
    /// passed. Refused with `InvalidArgument` when no transfer is pending and
    /// with `Unauthorized` for another caller or before the deadline.
    pub fn accept_transfer_ownership(&mut self, caller: &Pubkey, now: u64) -> (r: Result<(), ProgramError>)
        requires
            old(self).well_formed(),
        ensures
            final(self).well_formed(),
            old(self).spec_pending_owner() is None ==> r == Err::<(), ProgramError>(ProgramError::InvalidArgument),
            old(self).spec_pending_owner() is Some ==> (r is Ok <==> (old(self).spec_pending_owner() == Some(caller@)
                && now >= old(self).spec_deadline().unwrap())),
            r is Err ==> *final(self) == *old(self),
            r is Err && old(self).spec_pending_owner() is Some ==> r == Err::<(), ProgramError>(ProgramError::Unauthorized),
            r is Ok ==> final(self).spec_owner() == caller@ && final(self).spec_pending_owner() is None
                && final(self).spec_deadline() is None,
            final(self).utxo_view() == old(self).utxo_view(),
            final(self).spec_guardian() == old(self).spec_guardian(),
            final(self).spec_paused() == old(self).spec_paused(),
    {
        match self.pending_owner {
            Some(pending_owner) => {
                let deadline = match self.ownership_transfer_deadline {
                    Some(d) => d,
                    None => 0,
                };
                if caller.same(&pending_owner) && now >= deadline {
                    self.owner = pending_owner;
                    self.pending_owner = None;
                    self.ownership_transfer_deadline = None;
                    Ok(())
                } else {
                    Err(ProgramError::Unauthorized)
                }
            },
            None => Err(ProgramError::InvalidArgument),
        }
    }

    /// Cancels any pending ownership transfer.
    pub fn revoke_transfer_ownership(&mut self)
        requires
            old(self).well_formed(),
        ensures
            final(self).well_formed(),
            final(self).spec_pending_owner() is None,
            final(self).spec_deadline() is None,
            final(self).spec_owner() == old(self).spec_owner(),
            final(self).utxo_view() == old(self).utxo_view(),
            final(self).spec_guardian() == old(self).spec_guardian(),
            final(self).spec_paused() == old(self).spec_paused(),
    {
        self.pending_owner = None;
        self.ownership_transfer_deadline = None;
    }

    /// The guardian pauses the system.
    pub fn trigger_emergency(&mut self, caller: &Pubkey)
        requires
            caller@ == old(self).spec_guardian(),
        ensures
            final(self).spec_paused(),
            final(self).utxo_view() == old(self).utxo_view(),
            final(self).spec_owner() == old(self).spec_owner(),
            final(self).spec_guardian() == old(self).spec_guardian(),
            final(self).spec_pending_owner() == old(self).spec_pending_owner(),
            final(self).spec_deadline() == old(self).spec_deadline(),
            final(self).well_formed() == old(self).well_formed(),
    {
        self.paused = true;
    }

    /// Records an output as held by the contract.
    pub fn add_utxo(&mut self, utxo: UTXO)
        requires
            old(self).well_formed(),
        ensures
            final(self).well_formed(),
            final(self).utxo_view() == old(self).utxo_view().insert((utxo.txid@, utxo.vout), utxo),
            final(self).spec_owner() == old(self).spec_owner(),
            final(self).spec_guardian() == old(self).spec_guardian(),
            final(self).spec_pending_owner() == old(self).spec_pending_owner(),
            final(self).spec_paused() == old(self).spec_paused(),
    {
        let key = UtxoRef { txid: utxo.txid.clone(), vout: utxo.vout };
        self.utxos.insert(key, utxo);
        proof {
            assert forall|k: (Seq<u8>, u32)| #[trigger] self.utxos.view().contains_key(k) implies (self.utxos.view()[k].txid@, self.utxos.view()[k].vout) == k by {
                if k != (utxo.txid@, utxo.vout) {
                    assert(old(self).utxos.view().contains_key(k));
                }
            }
        }
    }

    /// Spends the held outputs `input_utxos` and holds `output_utxos` instead.
    /// Refused with `Custom(502)` when the values do not balance; otherwise
    /// refused with the first error among `ownership`, the runtime's
    /// verdicts on the ownership of each input, in order. The inputs are
    /// spent and the outputs recorded even when refused.
    pub fn transfer_utxo(
        &mut self,
        input_utxos: Vec<UtxoRef>,
        output_utxos: Vec<UTXO>,
        ownership: &Vec<Result<(), ProgramError>>,
    ) -> (r: Result<(), ProgramError>)
        requires
            old(self).well_formed(),
            inputs_held(old(self).utxo_view(), input_utxos@),
            inputs_value(old(self).utxo_view(), input_utxos@) <= u64::MAX,
            outputs_value(output_utxos@) <= u64::MAX,
            ownership@.len() == input_utxos@.len(),
        ensures
            final(self).well_formed(),
            final(self).utxo_view() == with_outputs(without_inputs(old(self).utxo_view(), input_utxos@), output_utxos@),
            r == if inputs_value(old(self).utxo_view(), input_utxos@) != outputs_value(output_utxos@) {
                Err::<(), ProgramError>(ProgramError::Custom(502))
            } else {
                match first_refusal(ownership@) {
                    Some(e) => Err::<(), ProgramError>(e),
                    None => Ok::<(), ProgramError>(()),
                }
            },
            final(self).spec_owner() == old(self).spec_owner(),
            final(self).spec_guardian() == old(self).spec_guardian(),
            final(self).spec_paused() == old(self).spec_paused(),
            final(self).spec_pending_owner() == old(self).spec_pending_owner(),
    {
        let ghost held = old(self).utxo_view();
        let ghost ins = input_utxos@;
        let mut input_value: u64 = 0;
        let mut i: usize = 0;
        while i < input_utxos.len()
            invariant
                self.well_formed(),
                i <= ins.len(),
                ins == input_utxos@,
                inputs_held(held, ins),
                inputs_value(held, ins) <= u64::MAX,
                self.utxo_view() == without_inputs(held, ins.take(i as int)),
                input_value == inputs_value(held, ins.take(i as int)),
                self.owner == old(self).owner,
                self.guardian == old(self).guardian,
                self.paused == old(self).paused,
                self.pending_owner == old(self).pending_owner,
            decreases ins.len() - i,
        {
            proof {
                lemma_without_inputs_keeps_later(held, ins, i as int);
                assert(ins.take(i + 1).drop_last() =~= ins.take(i as int));
                lemma_inputs_value_prefix_bounded(held, ins, i + 1);
            }
            let key = &input_utxos[i];
            let value = match self.utxos.get(key) {
                Some(u) => u.value,
                None => 0,
            };
            input_value = input_value + value;
            let _ = self.utxos.remove(key);
            proof {
                assert forall|k: (Seq<u8>, u32)| #[trigger] self.utxos.view().contains_key(k) implies (self.utxos.view()[k].txid@, self.utxos.view()[k].vout) == k by {
                    assert(old(self).utxos.view().contains_key(k) || true);
                }
            }
            i = i + 1;
        }
        assert(ins.take(i as int) =~= ins);

        let ghost mid = self.utxo_view();
        let ghost outs = output_utxos@;
        let n = output_utxos.len();
        let mut rest = output_utxos;
        let mut output_value: u64 = 0;
        let mut j: usize = 0;
        while rest.len() > 0
            invariant
                self.well_formed(),
                j <= outs.len(),
                rest@ == outs.skip(j as int),
                outputs_value(outs) <= u64::MAX,
                self.utxo_view() == with_outputs(mid, outs.take(j as int)),
                output_value == outputs_value(outs.take(j as int)),
                self.spec_owner() == old(self).spec_owner(),
                self.spec_guardian() == old(self).spec_guardian(),
                self.spec_paused() == old(self).spec_paused(),
                self.spec_pending_owner() == old(self).spec_pending_owner(),
                n == outs.len(),
            decreases rest@.len(),
        {
            proof {
                assert(outs.take(j + 1).drop_last() =~= outs.take(j as int));
                lemma_outputs_value_prefix_bounded(outs, j + 1);
            }
            let utxo = rest.remove(0);
            assert(utxo == outs[j as int]);
            assert(rest@ =~= outs.skip(j + 1));
            output_value = output_value + utxo.value;
            self.add_utxo(utxo);
            j = j + 1;
        }
        assert(outs.take(j as int) =~= outs);

        if input_value != output_value {
            return Err(ProgramError::Custom(502));
        }
        match first_refusal_of(ownership) {
            Some(e) => Err(e),
            None => Ok(()),
        }
    }
}

/// The first refusal among the runtime's ownership verdicts, if any.
fn first_refusal_of(verdicts: &Vec<Result<(), ProgramError>>) -> (r: Option<ProgramError>)
    ensures
        r == first_refusal(verdicts@),
{
    let mut k: usize = 0;
    assert(verdicts@.skip(0) =~= verdicts@);
    while k < verdicts.len()
        invariant
            k <= verdicts@.len(),
            first_refusal(verdicts@) == first_refusal(verdicts@.skip(k as int)),
        decreases verdicts@.len() - k,
    {
        assert(verdicts@.skip(k as int).drop_first() =~= verdicts@.skip(k + 1));
        match verdicts[k] {
            Err(e) => {
                return Some(e);
            },
            Ok(()) => {},
        }
        k = k + 1;
    }
    None
}

proof fn lemma_inputs_value_prefix_bounded(m: Map<(Seq<u8>, u32), UTXO>, inputs: Seq<UtxoRef>, i: int)
    requires
        0 <= i <= inputs.len(),
    ensures
        inputs_value(m, inputs.take(i)) <= inputs_value(m, inputs),
    decreases inputs.len() - i,
{
    if i < inputs.len() {
        lemma_inputs_value_prefix_bounded(m, inputs, i + 1);
        assert(inputs.take(i + 1).drop_last() =~= inputs.take(i));
    } else {
        assert(inputs.take(i) =~= inputs);
    }
}

proof fn lemma_outputs_value_prefix_bounded(outputs: Seq<UTXO>, i: int)
    requires
        0 <= i <= outputs.len(),
    ensures
        outputs_value(outputs.take(i)) <= outputs_value(outputs),
    decreases outputs.len() - i,
{
    if i < outputs.len() {
        lemma_outputs_value_prefix_bounded(outputs, i + 1);
        assert(outputs.take(i + 1).drop_last() =~= outputs.take(i));
    } else {
        assert(outputs.take(i) =~= outputs);
    }
}

} // verus!
