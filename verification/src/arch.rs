//! The runtime's request types: transactions handed to the runtime for
//! signing, and the errors a program returns.
use crate::btc::{clone_txin, encode_transaction, extended_encoding, serialize_transaction, tx_view, txin_view, Transaction, TxIn};
use crate::types::Pubkey;
use vstd::prelude::*;

verus! {

/// An input of a transaction to sign, with the account that signs it.
#[derive(Clone, Copy, Debug)]
pub struct InputToSign {
    pub index: u32,
    pub signer: Pubkey,
}

/// A serialized transaction and the inputs the runtime must have signed.
#[derive(Clone, Debug)]
pub struct TransactionToSign {
    pub tx_bytes: Vec<u8>,
    pub inputs_to_sign: Vec<InputToSign>,
}

/// Errors a program returns to the runtime.
#[derive(Clone, Copy, Debug, PartialEq, Eq, Structural)]
pub enum ProgramError {
    Custom(u32),
    InvalidArgument,
    InvalidInstructionData,
    InvalidAccountData,
    InsufficientFunds,
    Unauthorized,
}

/// `t` asks the runtime to have the first input of its state transition
/// `state_tx` signed by `signer`.
pub open spec fn signs_state_transition(t: TransactionToSign, state_tx: Transaction, signer: Pubkey) -> bool {
    &&& t.tx_bytes@ == encode_transaction(state_tx)
    &&& t.inputs_to_sign@.len() == 1
    &&& t.inputs_to_sign@[0].index == 0
    &&& t.inputs_to_sign@[0].signer@ == signer@
}

/// The request to sign the first input of `state_tx` by `signer`.
pub fn state_transition_request(state_tx: &Transaction, signer: Pubkey) -> (r: TransactionToSign)
    ensures
        signs_state_transition(r, *state_tx, signer),
{
    let tx_bytes = serialize_transaction(state_tx);
    let mut inputs_to_sign: Vec<InputToSign> = Vec::new();
    inputs_to_sign.push(InputToSign { index: 0, signer });
    TransactionToSign { tx_bytes, inputs_to_sign }
}

/// `t` asks the runtime to have the first input of its state transition
/// `state_tx`, with `extra` appended to its inputs, signed by `signer`.
pub open spec fn signs_extended_transition(t: TransactionToSign, state_tx: Transaction, extra: TxIn, signer: Seq<u8>) -> bool {
    &&& t.tx_bytes@ == extended_encoding(state_tx, extra)
    &&& t.inputs_to_sign@.len() == 1
    &&& t.inputs_to_sign@[0].index == 0
    &&& t.inputs_to_sign@[0].signer@ == signer
}

/// The request to sign the first input of `state_tx`, with `extra`
/// appended to its inputs, by `signer`.
pub fn extended_transition_request(state_tx: Transaction, extra: &TxIn, signer: Pubkey) -> (r: TransactionToSign)
    ensures
        signs_extended_transition(r, state_tx, *extra, signer@),
{
    let ghost runtime_tx = state_tx;
    let mut state_tx = state_tx;
    let first = clone_txin(extra);
    state_tx.input.push(first);
    let tx_bytes = serialize_transaction(&state_tx);
    proof {
        assert(txin_view(first) == txin_view(*extra));
        assert(tx_view(state_tx).2 =~= tx_view(runtime_tx).2.push(txin_view(*extra)));
        assert(tx_view(state_tx) == (runtime_tx.version, runtime_tx.lock_time, tx_view(runtime_tx).2.push(txin_view(*extra)), tx_view(runtime_tx).3));
    }
    let mut inputs_to_sign: Vec<InputToSign> = Vec::new();
    inputs_to_sign.push(InputToSign { index: 0, signer });
    TransactionToSign { tx_bytes, inputs_to_sign }
}

} // verus!
