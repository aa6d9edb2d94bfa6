//! Gas compensation and fee acceptance shared by the protocol's contracts.
use crate::codec::{le_bytes, le_value, lemma_le_roundtrip, lemma_pow256_values, push_le, read_le};
use vstd::prelude::*;

verus! {

/// The gas compensation reserved with every trove's debt.
pub struct BabelBase {
    debt_gas_compensation: u128,
}

impl BabelBase {
    /// Fixed-point precision (1e18).
    pub const DECIMAL_PRECISION: u128 = 1_000_000_000_000_000_000;

    /// Critical system collateral ratio (225%).
    pub const CCR: u128 = 2_250_000_000_000_000_000;

    /// Dividing by 200 yields 0.5%.
    pub const PERCENT_DIVISOR: u128 = 200;

    /// The debt gas compensation this value holds.
    pub closed spec fn gas_compensation(&self) -> u128 {
        self.debt_gas_compensation
    }

    pub fn new(gas_compensation: u128) -> (r: Self)
        ensures
            r.gas_compensation() == gas_compensation,
    {
        Self { debt_gas_compensation: gas_compensation }
    }

    /// The debt gas compensation.
    pub fn debt_gas_compensation(&self) -> (r: u128)
        ensures
            r == self.gas_compensation(),
    {
        self.debt_gas_compensation
    }

    /// The composite debt of a trove (drawn debt plus gas compensation), as
    /// used for its collateral ratio.
    pub fn get_composite_debt(&self, debt: u128) -> (r: u128)
        requires
            debt + self.gas_compensation() <= u128::MAX,
        ensures
            r == debt + self.gas_compensation(),
    {
        debt + self.debt_gas_compensation
    }

    /// The net debt of a trove: its debt without the gas compensation.
    pub fn get_net_debt(&self, debt: u128) -> (r: u128)
        requires
            debt >= self.gas_compensation(),
        ensures
            r == debt - self.gas_compensation(),
    {
        debt - self.debt_gas_compensation
    }

    /// The collateral drawn from a trove as gas compensation: 0.5% of it.
    pub fn get_coll_gas_compensation(&self, entire_coll: u128) -> (r: u128)
        ensures
            r == entire_coll / Self::PERCENT_DIVISOR,
    {
        entire_coll / Self::PERCENT_DIVISOR
    }

    /// Accepts a fee whose share `fee * 1e18 / amount` of the amount does not
    /// exceed `max_fee_percentage`; refuses it otherwise.
    pub fn require_user_accepts_fee(&self, fee: u128, amount: u128, max_fee_percentage: u128) -> (r:
        Result<(), &'static str>)
        requires
            amount > 0,
            fee * Self::DECIMAL_PRECISION <= u128::MAX,
        ensures
            r is Ok <==> (fee * Self::DECIMAL_PRECISION) / (amount as int) <= max_fee_percentage,
            r matches Err(e) ==> e@ == "Fee exceeded provided maximum"@,
    {
        let fee_percentage = (fee * Self::DECIMAL_PRECISION) / amount;
        if fee_percentage > max_fee_percentage {
            return Err("Fee exceeded provided maximum");
        }
        Ok(())
    }

    /// The Borsh encoding of this value.
    pub open spec fn spec_to_bytes(&self) -> Seq<u8> {
        le_bytes(self.gas_compensation() as nat, 16)
    }

    /// Encodes this value in Borsh layout: the compensation as 16 little-endian bytes.
    pub fn to_bytes(&self) -> (r: Vec<u8>)
        ensures
            r@ == self.spec_to_bytes(),
    {
        let mut out: Vec<u8> = Vec::new();
        proof {
            lemma_pow256_values();
        }
        push_le(&mut out, self.debt_gas_compensation, 16);
        assert(out@ =~= self.spec_to_bytes());
        out
    }

    /// Decodes a value in Borsh layout; `None` unless the input is exactly 16 bytes.
    pub fn from_bytes(bytes: &[u8]) -> (r: Option<Self>)
        ensures
            r is Some <==> bytes@.len() == 16,
            r matches Some(b) ==> b.gas_compensation() == le_value(bytes@),
    {
        if bytes.len() != 16 {
            return None;
        }
        let v = read_le(bytes, 0, 16);
        assert(bytes@.subrange(0, 16) =~= bytes@);
        Some(Self { debt_gas_compensation: v })
    }
}

/// The net debt of a composite debt is the debt itself, and the composite
/// debt of a net debt is the debt it was taken from: adding and removing
/// the gas compensation undo each other.
pub proof fn lemma_net_undoes_composite(b: BabelBase, debt: int)
    requires
        debt >= 0,
    ensures
        (debt + b.gas_compensation()) - b.gas_compensation() == debt,
        debt >= b.gas_compensation() ==> (debt - b.gas_compensation()) + b.gas_compensation() == debt,
{
}

/// Decoding the encoding of a `BabelBase` gives back its gas compensation.
pub proof fn lemma_babel_base_roundtrip(b: BabelBase)
    ensures
        b.spec_to_bytes().len() == 16,
        le_value(b.spec_to_bytes()) == b.gas_compensation(),
{
    lemma_pow256_values();
    lemma_le_roundtrip(b.gas_compensation() as nat, 16);
}

} // verus!
