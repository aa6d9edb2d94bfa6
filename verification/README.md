# babel_protocol

The core logic of the Babel collateralized-debt protocol for the Arch
network, written in Verus and verified: every public function states in its
contract what it returns and how it changes its contract's state.

## Layout

- `src/` — the verified library, one module per contract or concern:
  fixed-point math (`math`), gas compensation (`base`), ownership and
  delegation (`ownable`, `delegated_ops`), the core contract (`babel_core`),
  sorted troves, trove managers, liquidation, the stability pool, borrower
  operations, the debt token, price feeds, redemption hints, and the DAO
  contracts (vesting, emission schedule, token locker, incentive and admin
  voting, vault, boost calculator, airdrop, fee receiver). Bitcoin transactions are modelled in
  `btc`, Borsh layouts in `codec`.
- `tests/` — tests that run the library on concrete values, comparing the
  Bitcoin and Borsh encodings with the `bitcoin` and `borsh` crates.
- `app/` — what stays outside verification: reading configuration files and
  the wall clock.

Time, the runtime's account checks and oracle answers reach the library as
arguments. Most operations that move tokens or need a signature return what
they ask of the runtime (a payment, a lock to make, a transaction to sign);
the UTXO transfer of the core contract returns only its outcome. Bitcoin transactions are encoded, and their ids computed, by
the `bitcoin` crate.
