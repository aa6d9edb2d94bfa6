//! A batch of stablecoin instructions: each must be an issue of stablecoin
//! against bitcoin; the first other instruction ends the batch with error 2.
use vstd::prelude::*;

verus! {

/// An instruction of a stablecoin batch.
#[derive(Clone, Copy, Debug, PartialEq, Eq, Structural)]
pub enum Instruction {
    /// Issue stablecoin against `btc_amount` satoshis.
    IssueStablecoin { btc_amount: u64 },
    /// Any instruction the batch does not handle.
    Unsupported,
}

/// Whether every instruction of the batch issues stablecoin.
pub open spec fn all_issues(instructions: Seq<Instruction>) -> bool {
    forall|i: int| 0 <= i < instructions.len() ==> #[trigger] instructions[i] is IssueStablecoin
}

/// Processes a batch: the issues are made on a fresh vault state, which the
/// batch then drops, so what remains is the outcome: `Ok` when every
/// instruction issues stablecoin, and error 2 at the first that does not.
pub fn process_instructions(instructions: Vec<Instruction>) -> (r: Result<(), u64>)
    ensures
        r is Ok <==> all_issues(instructions@),
        r is Err ==> r == Err::<(), u64>(2),
{
    let mut i: usize = 0;
    while i < instructions.len()
        invariant
            i <= instructions@.len(),
            forall|j: int| 0 <= j < i ==> #[trigger] instructions@[j] is IssueStablecoin,
        decreases instructions@.len() - i,
    {
        match instructions[i] {
            Instruction::IssueStablecoin { btc_amount: _ } => {},
            Instruction::Unsupported => {
                return Err(2);
            },
        }
        i = i + 1;
    }
    Ok(())
}

} // verus!
