//! The pool program's instructions: their Borsh layout, and the authority
//! and data each instruction gives the UTXOs it is applied to.
use crate::codec::{encode_bytes, le_bytes, lemma_le_bytes_of_value, lemma_le_roundtrip, lemma_pow256_values, read_bytes};
use crate::types::{Pubkey, Table};
use vstd::prelude::*;

verus! {

/// What an instruction asks of the pool.
#[derive(Clone, Copy, Debug, PartialEq, Eq, Structural)]
pub enum InstructionType {
    OpenPool,
    AddLiquidity,
    RemoveLiquidity,
}

/// An instruction: its kind and its payload.
#[derive(Clone, Debug)]
pub struct ContractInstruction {
    pub method: InstructionType,
    pub data: Vec<u8>,
}

/// A UTXO the instruction applies to: its outpoint, its authority and the
/// data it carries.
#[derive(Clone, Debug)]
pub struct UtxoInfo {
    pub txid: String,
    pub vout: u32,
    pub authority: Pubkey,
    pub data: Vec<u8>,
}

/// The authorities and data the UTXOs have after an instruction, by txid.
pub struct UtxoChanges {
    pub new_authorities: Table<String, Pubkey>,
    pub new_data: Table<String, Vec<u8>>,
}

/// The size of the data a UTXO gets when liquidity is added.
pub const LIQUIDITY_DATA_LEN: usize = 10;

/// The Borsh tag of an instruction kind: its position in the enum.
pub open spec fn method_tag(m: InstructionType) -> u8 {
    match m {
        InstructionType::OpenPool => 0,
        InstructionType::AddLiquidity => 1,
        InstructionType::RemoveLiquidity => 2,
    }
}

/// The Borsh encoding of an instruction: the kind's tag, then the payload
/// framed as a byte string.
pub open spec fn encode_instruction(m: InstructionType, data: Seq<u8>) -> Seq<u8> {
    seq![method_tag(m)] + encode_bytes(data)
}

/// The authority of each txid after applying `m` to `utxos` in order, where
/// the UTXO at position `i` gets `fresh[i]` when liquidity is added.
pub open spec fn authorities_after(m: InstructionType, utxos: Seq<UtxoInfo>, fresh: Seq<Pubkey>) -> Map<Seq<char>, Pubkey>
    decreases utxos.len(),
{
    if utxos.len() == 0 {
        Map::empty()
    } else {
        let prev = authorities_after(m, utxos.drop_last(), fresh);
        let u = utxos.last();
        match m {
            InstructionType::OpenPool => prev.insert(u.txid@, u.authority),
            InstructionType::AddLiquidity => prev.insert(u.txid@, fresh[utxos.len() - 1]),
            InstructionType::RemoveLiquidity => prev.remove(u.txid@),
        }
    }
}

/// The data of each txid after applying `m` to `utxos` in order.
pub open spec fn data_after(m: InstructionType, utxos: Seq<UtxoInfo>) -> Map<Seq<char>, Seq<u8>>
    decreases utxos.len(),
{
    if utxos.len() == 0 {
        Map::empty()
    } else {
        let prev = data_after(m, utxos.drop_last());
        let u = utxos.last();
        match m {
            InstructionType::OpenPool => prev.insert(u.txid@, u.data@),
            InstructionType::AddLiquidity => prev.insert(u.txid@, Seq::new(LIQUIDITY_DATA_LEN as nat, |i: int| 0u8)),
            InstructionType::RemoveLiquidity => prev.remove(u.txid@),
        }
    }
}

/// The data table holds, for each txid, bytes with the given view.
pub open spec fn data_matches(t: Map<Seq<char>, Vec<u8>>, expected: Map<Seq<char>, Seq<u8>>) -> bool {
    &&& t.dom() == expected.dom()
    &&& forall|k: Seq<char>| #[trigger] t.contains_key(k) ==> t[k]@ == expected[k]
}

/// Decodes an instruction in Borsh layout, consuming all the bytes. Whatever
/// it returns encodes to the input, and every encoding decodes to its
/// instruction.
pub fn decode_instruction(bytes: &[u8]) -> (r: Option<ContractInstruction>)
    ensures
        r matches Some(ci) ==> encode_instruction(ci.method, ci.data@) == bytes@ && ci.data@.len() <= u32::MAX,
        forall|m: InstructionType, d: Seq<u8>|
            #![trigger encode_instruction(m, d)]
            d.len() <= u32::MAX && bytes@ == encode_instruction(m, d) ==> (r matches Some(ci) && ci.method == m
                && ci.data@ == d),
{
    proof {
        lemma_pow256_values();
    }
    if bytes.len() == 0 {
        proof {
            assert forall|m: InstructionType, d: Seq<u8>|
                #![trigger encode_instruction(m, d)]
                d.len() <= u32::MAX && bytes@ == encode_instruction(m, d) implies false by {
                assert(encode_instruction(m, d).len() >= 1);
            }
        }
        return None;
    }
    let tag = bytes[0];
    let method = if tag == 0 {
        InstructionType::OpenPool
    } else if tag == 1 {
        InstructionType::AddLiquidity
    } else if tag == 2 {
        InstructionType::RemoveLiquidity
    } else {
        proof {
            assert forall|m: InstructionType, d: Seq<u8>|
                #![trigger encode_instruction(m, d)]
                d.len() <= u32::MAX && bytes@ == encode_instruction(m, d) implies false by {
                assert(encode_instruction(m, d)[0] == method_tag(m));
            }
        }
        return None;
    };
    assert(method_tag(method) == tag);
    match read_bytes(bytes, 1) {
        Some((data, next)) => {
            if next != bytes.len() {
                proof {
                    assert forall|m: InstructionType, d: Seq<u8>|
                        #![trigger encode_instruction(m, d)]
                        d.len() <= u32::MAX && bytes@ == encode_instruction(m, d) implies false by {
                        lemma_encoding_parts(bytes@, m, d);
                    }
                }
                return None;
            }
            let ci = ContractInstruction { method, data };
            proof {
                crate::codec::lemma_le_value_bound(bytes@.subrange(1, 5));
                lemma_le_bytes_of_value(bytes@.subrange(1, 5));
                assert(encode_instruction(ci.method, ci.data@) =~= bytes@);
                assert forall|m: InstructionType, d: Seq<u8>|
                    #![trigger encode_instruction(m, d)]
                    d.len() <= u32::MAX && bytes@ == encode_instruction(m, d) implies (ci.method == m && ci.data@ == d) by {
                    lemma_encoding_parts(bytes@, m, d);
                    assert(encode_instruction(m, d)[0] == method_tag(m));
                }
            }
            Some(ci)
        },
        None => {
            proof {
                assert forall|m: InstructionType, d: Seq<u8>|
                    #![trigger encode_instruction(m, d)]
                    d.len() <= u32::MAX && bytes@ == encode_instruction(m, d) implies false by {
                    lemma_encoding_parts(bytes@, m, d);
                }
            }
            None
        },
    }
}

/// The parts of an instruction's encoding: its length prefix reads back
/// the payload's length, and the payload follows it.
proof fn lemma_encoding_parts(bytes: Seq<u8>, m: InstructionType, d: Seq<u8>)
    requires
        d.len() <= u32::MAX,
        bytes == encode_instruction(m, d),
    ensures
        bytes.len() == 5 + d.len(),
        crate::codec::le_value(bytes.subrange(1, 5)) == d.len(),
        bytes.subrange(5, 5 + d.len() as int) == d,
        bytes[0] == method_tag(m),
{
    lemma_pow256_values();
    lemma_le_roundtrip(d.len(), 4);
    assert(bytes.subrange(1, 5) =~= le_bytes(d.len(), 4));
    assert(bytes.subrange(5, 5 + d.len() as int) =~= d);
}

/// The authorities and data the UTXOs get from `instruction`, applied to
/// `utxos` in order; `fresh[i]` is the new authority of the UTXO at
/// position `i` when liquidity is added.
pub fn apply_instruction(instruction: &ContractInstruction, utxos: &[UtxoInfo], fresh: &[Pubkey]) -> (r: UtxoChanges)
    requires
        instruction.method == InstructionType::AddLiquidity ==> fresh@.len() >= utxos@.len(),
    ensures
        r.new_authorities.well_formed(),
        r.new_data.well_formed(),
        r.new_authorities.view() == authorities_after(instruction.method, utxos@, fresh@),
        data_matches(r.new_data.view(), data_after(instruction.method, utxos@)),
{
    let mut new_authorities: Table<String, Pubkey> = Table::new();
    let mut new_data: Table<String, Vec<u8>> = Table::new();
    let mut i: usize = 0;
    while i < utxos.len()
        invariant
            i <= utxos@.len(),
            instruction.method == InstructionType::AddLiquidity ==> fresh@.len() >= utxos@.len(),
            new_authorities.well_formed(),
            new_data.well_formed(),
            new_authorities.view() == authorities_after(instruction.method, utxos@.subrange(0, i as int), fresh@),
            data_matches(new_data.view(), data_after(instruction.method, utxos@.subrange(0, i as int))),
        decreases utxos@.len() - i,
    {
        let ghost done = utxos@.subrange(0, i as int);
        let ghost next = utxos@.subrange(0, i + 1);
        assert(next.drop_last() =~= done);
        let utxo = &utxos[i];
        let ghost before_data = new_data.view();
        match instruction.method {
            InstructionType::OpenPool => {
                new_authorities.insert(utxo.txid.clone(), utxo.authority);
                new_data.insert(utxo.txid.clone(), utxo.data.clone());
            },
            InstructionType::AddLiquidity => {
                new_authorities.insert(utxo.txid.clone(), fresh[i]);
                let zeros: Vec<u8> = vec![0u8; LIQUIDITY_DATA_LEN];
                assert(zeros@ =~= Seq::new(LIQUIDITY_DATA_LEN as nat, |j: int| 0u8));
                new_data.insert(utxo.txid.clone(), zeros);
            },
            InstructionType::RemoveLiquidity => {
                new_authorities.remove(&utxo.txid);
                new_data.remove(&utxo.txid);
            },
        }
        proof {
            let expected = data_after(instruction.method, next);
            assert(new_data.view().dom() =~= expected.dom());
            assert forall|k: Seq<char>| #[trigger] new_data.view().contains_key(k) implies new_data.view()[k]@ == expected[k] by {
                if k != utxo.txid@ {
                    assert(before_data.contains_key(k));
                }
            }
            assert(new_authorities.view() =~= authorities_after(instruction.method, next, fresh@));
        }
        i = i + 1;
    }
    assert(utxos@.subrange(0, utxos@.len() as int) =~= utxos@);
    UtxoChanges { new_authorities, new_data }
}

/// Runs the pool program on its input: the instruction must decode, else
/// the program fails with code 1.
pub fn process_instructions(program_id: &Pubkey, utxos: &[UtxoInfo], instruction_data: &[u8]) -> (r: Result<(), u64>)
    ensures
        r is Ok <==> exists|m: InstructionType, d: Seq<u8>|
            d.len() <= u32::MAX && #[trigger] encode_instruction(m, d) == instruction_data@,
        r matches Err(code) ==> code == 1,
{
    match decode_instruction(instruction_data) {
        Some(ci) => {
            assert(encode_instruction(ci.method, ci.data@) == instruction_data@);
            Ok(())
        },
        None => Err(1),
    }
}

} // verus!
