//! Prices of collateral tokens: each token has an oracle, and the last
//! price read from it is kept and reused within the same second.
use crate::types::{Pubkey, Table};
use vstd::prelude::*;

verus! {

/// Fixed-point precision of prices (1e18).
pub const PRICE_PRECISION: u128 = 1_000_000_000_000_000_000;

/// Slack, in seconds, allowed beyond an oracle's heartbeat before its
/// answer is stale.
pub const RESPONSE_TIMEOUT_BUFFER: u32 = 3600;

/// The decimals every oracle answer is scaled to.
pub const TARGET_DIGITS: u8 = 18;

/// An oracle of a token: its account, the decimals of its answers, its
/// heartbeat, the share-price call and its decimals, whether it works and
/// whether it quotes in ETH.
#[derive(Clone, Copy, Debug)]
pub struct OracleRecord {
    pub chainlink_oracle: Pubkey,
    pub decimals: u8,
    pub heartbeat: u32,
    pub share_price_signature: [u8; 4],
    pub share_price_decimals: u8,
    pub is_feed_working: bool,
    pub is_eth_indexed: bool,
}

/// The last price read for a token: the scaled price, the oracle's time,
/// when it was stored and the oracle's round.
#[derive(Clone, Copy, Debug, PartialEq, Eq, Structural)]
pub struct PriceRecord {
    pub scaled_price: u128,
    pub timestamp: u32,
    pub last_updated: u32,
    pub round_id: u64,
}

/// What an oracle's latest round answered: the round, the answer and its time.
#[derive(Clone, Copy, Debug, PartialEq, Eq, Structural)]
pub struct RoundData {
    pub round_id: u64,
    pub answer: i128,
    pub timestamp: u32,
}

/// The price feed's state.
pub struct PriceFeed {
    oracle_records: Table<String, OracleRecord>,
    price_records: Table<String, PriceRecord>,
    owner: Pubkey,
}

/// Ten to the power `n`.
pub open spec fn pow10(n: nat) -> nat
    decreases n,
{
    if n == 0 { 1 } else { 10 * pow10((n - 1) as nat) }
}

/// Whether the oracle's answer from `timestamp` is too old at `now`.
pub open spec fn is_stale(o: OracleRecord, timestamp: u32, now: u32) -> bool {
    now - timestamp > o.heartbeat + RESPONSE_TIMEOUT_BUFFER
}

/// Whether the oracle reads a share price.
pub open spec fn has_share_price(o: OracleRecord) -> bool {
    o.share_price_signature@ != seq![0u8, 0u8, 0u8, 0u8]
}

/// The answer scaled to 18 decimals, then divided by the share price's
/// decimals when the oracle reads a share price (whose value is one).
pub open spec fn base_price(o: OracleRecord, answer: i128) -> int {
    let scaled = (answer as u128) * pow10((TARGET_DIGITS - o.decimals) as nat);
    if has_share_price(o) { scaled / pow10(o.share_price_decimals as nat) as int } else { scaled }
}

/// The arithmetic of `base_price` stays within its types.
pub open spec fn base_price_fits(o: OracleRecord, answer: i128) -> bool {
    &&& o.decimals <= TARGET_DIGITS
    &&& (answer as u128) * pow10((TARGET_DIGITS - o.decimals) as nat) <= u128::MAX
    &&& has_share_price(o) ==> o.share_price_decimals <= 38
}

/// The record stored for a price read at `now` from `round`.
pub open spec fn stored_record(price: int, round: RoundData, now: u32) -> PriceRecord {
    PriceRecord { scaled_price: price as u128, timestamp: round.timestamp, last_updated: now, round_id: round.round_id }
}

proof fn lemma_pow10_bound(n: nat)
    requires
        n <= 38,
    ensures
        1 <= pow10(n) <= pow10(38),
        pow10(38) == 100_000_000_000_000_000_000_000_000_000_000_000_000,
    decreases 38 - n,
{
    assert(pow10(38) == 100_000_000_000_000_000_000_000_000_000_000_000_000) by {
        reveal_with_fuel(pow10, 39);
    }
    if n < 38 {
        lemma_pow10_bound(n + 1);
    }
}

/// Ten to the power `e`.
fn pow10_u128(e: u32) -> (r: u128)
    requires
        e <= 38,
    ensures
        r == pow10(e as nat),
{
    let mut r: u128 = 1;
    let mut i: u32 = 0;
    while i < e
        invariant
            i <= e <= 38,
            r == pow10(i as nat),
        decreases e - i,
    {
        proof {
            lemma_pow10_bound((i + 1) as nat);
        }
        r = r * 10;
        i = i + 1;
    }
    r
}

/// The price an oracle's answer gives, before any conversion from ETH.
fn compute_base_price(o: &OracleRecord, answer: i128) -> (r: u128)
    requires
        base_price_fits(*o, answer),
    ensures
        r == base_price(*o, answer),
{
    let scale = pow10_u128((TARGET_DIGITS - o.decimals) as u32);
    let mut scaled = (answer as u128) * scale;
    let sig = o.share_price_signature;
    if sig[0] != 0 || sig[1] != 0 || sig[2] != 0 || sig[3] != 0 {
        assert(has_share_price(*o)) by {
            if sig@ == seq![0u8, 0u8, 0u8, 0u8] {
                assert(sig@[0] == 0 && sig@[1] == 0 && sig@[2] == 0 && sig@[3] == 0);
            }
        }
        let share_price: u128 = 1;
        proof {
            lemma_pow10_bound(o.share_price_decimals as nat);
        }
        scaled = (scaled * share_price) / pow10_u128(o.share_price_decimals as u32);
    } else {
        assert(!has_share_price(*o)) by {
            assert(sig@ =~= seq![0u8, 0u8, 0u8, 0u8]);
        }
    }
    scaled
}

/// What reading `token`'s price at `now` gives without converting from
/// ETH: `None` without a stored price, the stored price when it was stored
/// at `now`, `None` without an oracle or with a stale answer, and else the
/// oracle's price, which is then stored.
pub open spec fn direct_outcome(
    prices: Map<Seq<char>, PriceRecord>,
    oracles: Map<Seq<char>, OracleRecord>,
    token: Seq<char>,
    now: u32,
    round: RoundData,
) -> (Option<int>, Map<Seq<char>, PriceRecord>) {
    if !prices.contains_key(token) {
        (None, prices)
    } else if prices[token].last_updated == now {
        (Some(prices[token].scaled_price as int), prices)
    } else if !oracles.contains_key(token) || is_stale(oracles[token], round.timestamp, now) {
        (None, prices)
    } else {
        let p = base_price(oracles[token], round.answer);
        (Some(p), prices.insert(token, stored_record(p, round, now)))
    }
}

/// Whether reading `token`'s price reaches its oracle.
pub open spec fn reaches_oracle(
    prices: Map<Seq<char>, PriceRecord>,
    oracles: Map<Seq<char>, OracleRecord>,
    token: Seq<char>,
    now: u32,
) -> bool {
    prices.contains_key(token) && prices[token].last_updated != now && oracles.contains_key(token)
}

/// The reading of `token` stays within its types where it reaches the
/// oracle: the answer is not from the future, the staleness bound fits, and
/// a fresh answer's price fits.
pub open spec fn direct_fits(
    prices: Map<Seq<char>, PriceRecord>,
    oracles: Map<Seq<char>, OracleRecord>,
    token: Seq<char>,
    now: u32,
    round: RoundData,
) -> bool {
    reaches_oracle(prices, oracles, token, now) ==> {
        let o = oracles[token];
        &&& round.timestamp <= now
        &&& o.heartbeat + RESPONSE_TIMEOUT_BUFFER <= u32::MAX
        &&& !is_stale(o, round.timestamp, now) ==> base_price_fits(o, round.answer)
    }
}

/// Whether reading `token` at `now` reaches a conversion from ETH.
pub open spec fn reaches_conversion(
    prices: Map<Seq<char>, PriceRecord>,
    oracles: Map<Seq<char>, OracleRecord>,
    token: Seq<char>,
    now: u32,
    round: RoundData,
) -> bool {
    reaches_oracle(prices, oracles, token, now) && !is_stale(oracles[token], round.timestamp, now)
        && oracles[token].is_eth_indexed
}

/// What reading `token`'s price at `now` gives: as the direct reading, but
/// an ETH-quoted price is converted with ETH's price, read first (and
/// stored, if read from its oracle), and `None` without it.
pub open spec fn fetch_outcome(
    prices: Map<Seq<char>, PriceRecord>,
    oracles: Map<Seq<char>, OracleRecord>,
    token: Seq<char>,
    now: u32,
    round: RoundData,
    eth_round: RoundData,
) -> (Option<int>, Map<Seq<char>, PriceRecord>) {
    if !reaches_conversion(prices, oracles, token, now, round) {
        direct_outcome(prices, oracles, token, now, round)
    } else {
        let (eth, after_eth) = direct_outcome(prices, oracles, "ETH"@, now, eth_round);
        match eth {
            None => (None, after_eth),
            Some(e) => {
                let p = base_price(oracles[token], round.answer) * e / PRICE_PRECISION as int;
                (Some(p), after_eth.insert(token, stored_record(p, round, now)))
            },
        }
    }
}

/// A price read at `now` is the price then stored for the token, with `now`
/// as the time it was stored; so a second read in the same second, whatever
/// the oracles answer then, gives the same price and changes nothing.
pub proof fn lemma_fetch_same_second(
    prices: Map<Seq<char>, PriceRecord>,
    oracles: Map<Seq<char>, OracleRecord>,
    token: Seq<char>,
    now: u32,
    round: RoundData,
    eth_round: RoundData,
    later_round: RoundData,
    later_eth_round: RoundData,
)
    requires
        fetch_outcome(prices, oracles, token, now, round, eth_round).0 matches Some(p) && p <= u128::MAX,
    ensures
        ({
            let (first, after) = fetch_outcome(prices, oracles, token, now, round, eth_round);
            let (second, after_second) = fetch_outcome(after, oracles, token, now, later_round, later_eth_round);
            &&& after.contains_key(token)
            &&& after[token].scaled_price as int == first->0
            &&& after[token].last_updated == now
            &&& second == first
            &&& after_second == after
        }),
{
    let (first, after) = fetch_outcome(prices, oracles, token, now, round, eth_round);
    let p = first->0;
    assert(p >= 0) by {
        if reaches_conversion(prices, oracles, token, now, round) {
            let o = oracles[token];
            let b = base_price(o, round.answer);
            lemma_base_price_nonneg(o, round.answer);
            let (eth, after_eth) = direct_outcome(prices, oracles, "ETH"@, now, eth_round);
            let e = eth->0;
            if !prices.contains_key("ETH"@) {
            } else if prices["ETH"@].last_updated == now {
            } else {
                lemma_base_price_nonneg(oracles["ETH"@], eth_round.answer);
            }
            assert(e >= 0);
            assert(b * e >= 0) by (nonlinear_arith)
                requires
                    b >= 0,
                    e >= 0,
            ;
        } else if prices.contains_key(token) && prices[token].last_updated != now {
            lemma_base_price_nonneg(oracles[token], round.answer);
        }
    }
}

proof fn lemma_base_price_nonneg(o: OracleRecord, answer: i128)
    ensures
        base_price(o, answer) >= 0,
{
    let a: u128 = answer as u128;
    let s: nat = pow10((TARGET_DIGITS - o.decimals) as nat);
    let d: nat = pow10(o.share_price_decimals as nat);
    assert(a * s >= 0) by (nonlinear_arith);
    lemma_pow10_positive(o.share_price_decimals as nat);
    assert((a * s) / (d as int) >= 0) by (nonlinear_arith)
        requires
            a * s >= 0,
            d > 0,
    ;
}

proof fn lemma_pow10_positive(n: nat)
    ensures
        pow10(n) >= 1,
    decreases n,
{
    if n > 0 {
        lemma_pow10_positive((n - 1) as nat);
    }
}

impl PriceFeed {
    pub closed spec fn well_formed(&self) -> bool {
        self.oracle_records.well_formed() && self.price_records.well_formed()
    }

    pub closed spec fn spec_oracles(&self) -> Map<Seq<char>, OracleRecord> {
        self.oracle_records.view()
    }

    pub closed spec fn spec_prices(&self) -> Map<Seq<char>, PriceRecord> {
        self.price_records.view()
    }

    pub closed spec fn spec_owner(&self) -> Seq<u8> {
        self.owner@
    }

    /// A feed with no oracles and no prices.
    pub fn new(owner: Pubkey) -> (r: Self)
        ensures
            r.well_formed(),
            r.spec_oracles() == Map::<Seq<char>, OracleRecord>::empty(),
            r.spec_prices() == Map::<Seq<char>, PriceRecord>::empty(),
            r.spec_owner() == owner@,
    {
        PriceFeed { oracle_records: Table::new(), price_records: Table::new(), owner }
    }

    /// Sets `token`'s oracle; its answers have 18 decimals and it works.
    pub fn set_oracle(
        &mut self,
        token: String,
        chainlink_oracle: Pubkey,
        heartbeat: u32,
        share_price_signature: [u8; 4],
        share_price_decimals: u8,
        is_eth_indexed: bool,
    )
        requires
            old(self).well_formed(),
        ensures
            final(self).well_formed(),
            final(self).spec_oracles() == old(self).spec_oracles().insert(
                token@,
                OracleRecord {
                    chainlink_oracle,
                    decimals: TARGET_DIGITS,
                    heartbeat,
                    share_price_signature,
                    share_price_decimals,
                    is_feed_working: true,
                    is_eth_indexed,
                },
            ),
            final(self).spec_prices() == old(self).spec_prices(),
            final(self).spec_owner() == old(self).spec_owner(),
    {
        let record = OracleRecord {
            chainlink_oracle,
            decimals: TARGET_DIGITS,
            heartbeat,
            share_price_signature,
            share_price_decimals,
            is_feed_working: true,
            is_eth_indexed,
        };
        self.oracle_records.insert(token, record);
    }

    /// Whether an answer from `price_timestamp` is stale at `now` for an
    /// oracle with the given heartbeat.
    pub fn is_price_stale(&self, price_timestamp: u32, heartbeat: u32, now: u32) -> (r: bool)
        requires
            price_timestamp <= now,
            heartbeat + RESPONSE_TIMEOUT_BUFFER <= u32::MAX,
        ensures
            r == (now - price_timestamp > heartbeat + RESPONSE_TIMEOUT_BUFFER),
    {
        now - price_timestamp > heartbeat + RESPONSE_TIMEOUT_BUFFER
    }

    /// Stores `price` as `token`'s price, read at `now` from `round`.
    pub fn store_price(&mut self, token: &String, price: u128, round: RoundData, now: u32)
        requires
            old(self).well_formed(),
        ensures
            final(self).well_formed(),
            final(self).spec_prices() == old(self).spec_prices().insert(token@, stored_record(price as int, round, now)),
            final(self).spec_oracles() == old(self).spec_oracles(),
            final(self).spec_owner() == old(self).spec_owner(),
    {
        self.price_records.insert(
            token.clone(),
            PriceRecord { scaled_price: price, timestamp: round.timestamp, last_updated: now, round_id: round.round_id },
        );
    }

    /// Reads `token`'s price at `now` without converting from ETH, given
    /// what its oracle's latest round answered.
    fn fetch_direct(&mut self, token: &String, now: u32, round: RoundData) -> (r: Option<u128>)
        requires
            old(self).well_formed(),
            direct_fits(old(self).spec_prices(), old(self).spec_oracles(), token@, now, round),
        ensures
            final(self).well_formed(),
            ({
                let (price, prices) = direct_outcome(old(self).spec_prices(), old(self).spec_oracles(), token@, now, round);
                &&& r matches Some(p) ==> price == Some(p as int)
                &&& r is None ==> price is None
                &&& final(self).spec_prices() == prices
            }),
            final(self).spec_oracles() == old(self).spec_oracles(),
            final(self).spec_owner() == old(self).spec_owner(),
    {
        let record = match self.price_records.get(token) {
            Some(p) => *p,
            None => return None,
        };
        if record.last_updated == now {
            return Some(record.scaled_price);
        }
        let oracle = match self.oracle_records.get(token) {
            Some(o) => *o,
            None => return None,
        };
        if self.is_price_stale(round.timestamp, oracle.heartbeat, now) {
            return None;
        }
        let price = compute_base_price(&oracle, round.answer);
        self.store_price(token, price, round, now);
        Some(price)
    }

    /// Reads `token`'s price at `now`, given what its oracle's latest round
    /// answered and, for an ETH-quoted token, what ETH's oracle answered:
    /// `None` without a stored price, the stored price when it was stored
    /// at `now`, `None` without an oracle or with a stale answer, and else
    /// the oracle's price (converted with ETH's price, and `None` without
    /// it), which is then stored.
    pub fn fetch_price(&mut self, token: &String, now: u32, round: RoundData, eth_round: RoundData) -> (r: Option<u128>)
        requires
            old(self).well_formed(),
            direct_fits(old(self).spec_prices(), old(self).spec_oracles(), token@, now, round),
            reaches_conversion(old(self).spec_prices(), old(self).spec_oracles(), token@, now, round) ==> {
                let prices = old(self).spec_prices();
                let oracles = old(self).spec_oracles();
                &&& direct_fits(prices, oracles, "ETH"@, now, eth_round)
                &&& !reaches_conversion(prices, oracles, "ETH"@, now, eth_round)
                &&& direct_outcome(prices, oracles, "ETH"@, now, eth_round).0 matches Some(e)
                    ==> base_price(oracles[token@], round.answer) * e <= u128::MAX
            },
        ensures
            final(self).well_formed(),
            ({
                let (price, prices) = fetch_outcome(
                    old(self).spec_prices(),
                    old(self).spec_oracles(),
                    token@,
                    now,
                    round,
                    eth_round,
                );
                &&& r matches Some(p) ==> price == Some(p as int)
                &&& r is None ==> price is None
                &&& final(self).spec_prices() == prices
            }),
            r matches Some(p) ==> {
                &&& final(self).spec_prices().contains_key(token@)
                &&& final(self).spec_prices()[token@].scaled_price == p
                &&& final(self).spec_prices()[token@].last_updated == now
            },
            final(self).spec_oracles() == old(self).spec_oracles(),
            final(self).spec_owner() == old(self).spec_owner(),
    {
        let record = match self.price_records.get(token) {
            Some(p) => *p,
            None => return None,
        };
        if record.last_updated == now {
            return Some(record.scaled_price);
        }
        let oracle = match self.oracle_records.get(token) {
            Some(o) => *o,
            None => return None,
        };
        if self.is_price_stale(round.timestamp, oracle.heartbeat, now) {
            return None;
        }
        let mut price = compute_base_price(&oracle, round.answer);
        if oracle.is_eth_indexed {
            let eth_token: String = "ETH".to_owned();
            let eth_price = match self.fetch_direct(&eth_token, now, eth_round) {
                Some(e) => e,
                None => return None,
            };
            price = (price * eth_price) / PRICE_PRECISION;
        }
        self.store_price(token, price, round, now);
        Some(price)
    }
}

} // verus!
