use vstd::arithmetic::div_mod::*;
use vstd::arithmetic::mul::*;
use vstd::prelude::*;

verus! {

/// Half of the decimal precision, used to round `dec_mul` to nearest.
pub open spec fn half_precision() -> int {
    500_000_000_000_000_000
}

/// Rounded fixed-point product: `x * y / 1e18`, rounded half up.
pub open spec fn spec_dec_mul(x: int, y: int) -> int {
    (x * y + half_precision()) / (BabelMath::DECIMAL_PRECISION as int)
}

/// The smaller of two values.
pub open spec fn spec_min(a: int, b: int) -> int {
    if a < b { a } else { b }
}

/// The larger of two values.
pub open spec fn spec_max(a: int, b: int) -> int {
    if a >= b { a } else { b }
}

/// The distance between two values.
pub open spec fn abs_diff(a: int, b: int) -> int {
    if a >= b { a - b } else { b - a }
}

/// No intermediate product of `spec_dec_mul(x, y)` leaves `u128`.
pub open spec fn dec_mul_fits(x: int, y: int) -> bool {
    x * y + half_precision() <= u128::MAX
}

/// The exponent that `dec_pow` actually uses: `minutes`, capped at 1000 years.
pub open spec fn capped_minutes(minutes: nat) -> nat {
    if minutes > BabelMath::DEC_POW_CAP_MINUTES { BabelMath::DEC_POW_CAP_MINUTES as nat } else { minutes }
}

/// Exponentiation by squaring on fixed-point numbers: the value of
/// `dec_mul(x^n, y)` when every product is rounded as `dec_mul` rounds it.
/// With `y` one (1e18) and `n >= 1`, this is the rounded `x^n`.
pub open spec fn pow_by_squaring(x: int, y: int, n: nat) -> int
    decreases n,
{
    if n <= 1 {
        spec_dec_mul(x, y)
    } else if n % 2 == 0 {
        pow_by_squaring(spec_dec_mul(x, x), y, n / 2)
    } else {
        pow_by_squaring(spec_dec_mul(x, x), spec_dec_mul(x, y), ((n - 1) / 2) as nat)
    }
}

/// Every rounded product that `pow_by_squaring(x, y, n)` forms fits in `u128`.
pub open spec fn pow_by_squaring_fits(x: int, y: int, n: nat) -> bool
    decreases n,
{
    if n <= 1 {
        dec_mul_fits(x, y)
    } else if n % 2 == 0 {
        dec_mul_fits(x, x) && pow_by_squaring_fits(spec_dec_mul(x, x), y, n / 2)
    } else {
        &&& dec_mul_fits(x, y)
        &&& dec_mul_fits(x, x)
        &&& pow_by_squaring_fits(spec_dec_mul(x, x), spec_dec_mul(x, y), ((n - 1) / 2) as nat)
    }
}

/// The fixed-point power `base ^ minutes` computed by `dec_pow`.
pub open spec fn spec_dec_pow(base: int, minutes: nat) -> int {
    let n = capped_minutes(minutes);
    if n == 0 {
        BabelMath::DECIMAL_PRECISION as int
    } else {
        pow_by_squaring(base, BabelMath::DECIMAL_PRECISION as int, n)
    }
}

/// `dec_pow(base, minutes)` computes without leaving `u128`.
pub open spec fn dec_pow_fits(base: int, minutes: nat) -> bool {
    let n = capped_minutes(minutes);
    n == 0 || pow_by_squaring_fits(base, BabelMath::DECIMAL_PRECISION as int, n)
}

/// A collateral ratio `numerator / debt`, or the largest `u128` for a debt of zero.
pub open spec fn ratio_or_max(numerator: int, debt: int) -> int {
    if debt > 0 { numerator / debt } else { u128::MAX as int }
}

/// Multiplying by one (1e18) in fixed point gives the value back exactly.
pub proof fn lemma_dec_mul_by_one(x: int)
    requires
        x >= 0,
    ensures
        spec_dec_mul(x, BabelMath::DECIMAL_PRECISION as int) == x,
        spec_dec_mul(BabelMath::DECIMAL_PRECISION as int, x) == x,
{
    let p = BabelMath::DECIMAL_PRECISION as int;
    lemma_mul_is_commutative(x, p);
    lemma_div_multiples_vanish_fancy(x, half_precision(), p);
}

/// `min`, `max` and the absolute difference do not depend on the order of
/// their arguments; the minimum and the maximum are the two values, and the
/// difference is the maximum less the minimum.
pub proof fn lemma_min_max_difference(a: int, b: int)
    ensures
        spec_min(a, b) == spec_min(b, a),
        spec_max(a, b) == spec_max(b, a),
        abs_diff(a, b) == abs_diff(b, a),
        spec_min(a, b) + spec_max(a, b) == a + b,
        abs_diff(a, b) == spec_max(a, b) - spec_min(a, b),
        spec_min(a, b) <= spec_max(a, b),
{
}

/// The rounded fixed-point product does not depend on the order of its factors.
pub proof fn lemma_dec_mul_commutative(x: int, y: int)
    ensures
        spec_dec_mul(x, y) == spec_dec_mul(y, x),
{
    lemma_mul_is_commutative(x, y);
}

/// Raising one (1e18) to any power by squaring gives one.
proof fn lemma_pow_by_squaring_of_one(n: nat)
    ensures
        pow_by_squaring(BabelMath::DECIMAL_PRECISION as int, BabelMath::DECIMAL_PRECISION as int, n)
            == BabelMath::DECIMAL_PRECISION as int,
        pow_by_squaring_fits(BabelMath::DECIMAL_PRECISION as int, BabelMath::DECIMAL_PRECISION as int, n),
    decreases n,
{
    lemma_dec_mul_by_one(BabelMath::DECIMAL_PRECISION as int);
    if n > 1 {
        if n % 2 == 0 {
            lemma_pow_by_squaring_of_one(n / 2);
        } else {
            lemma_pow_by_squaring_of_one(((n - 1) / 2) as nat);
        }
    }
}

/// Laws of `dec_pow`: the zeroth power is one, the first power is the base,
/// every power of one is one, and exponents beyond the cap act as the cap.
pub proof fn lemma_dec_pow_laws(base: int, minutes: nat)
    requires
        0 <= base,
        dec_mul_fits(base, BabelMath::DECIMAL_PRECISION as int),
    ensures
        spec_dec_pow(base, 0) == BabelMath::DECIMAL_PRECISION as int,
        spec_dec_pow(base, 1) == base,
        spec_dec_pow(BabelMath::DECIMAL_PRECISION as int, minutes) == BabelMath::DECIMAL_PRECISION as int,
        dec_pow_fits(BabelMath::DECIMAL_PRECISION as int, minutes),
        minutes >= BabelMath::DEC_POW_CAP_MINUTES ==> spec_dec_pow(base, minutes) == spec_dec_pow(
            base,
            BabelMath::DEC_POW_CAP_MINUTES as nat,
        ),
{
    lemma_dec_mul_by_one(base);
    lemma_pow_by_squaring_of_one(capped_minutes(minutes));
}

/// The exponent is capped: every exponent beyond `DEC_POW_CAP_MINUTES`
/// (1000 years in minutes) gives the power at the cap, for every base, and
/// computes without overflow exactly when the power at the cap does.
pub proof fn lemma_dec_pow_cap(base: int, minutes: nat)
    requires
        minutes >= BabelMath::DEC_POW_CAP_MINUTES,
    ensures
        spec_dec_pow(base, minutes) == spec_dec_pow(base, BabelMath::DEC_POW_CAP_MINUTES as nat),
        dec_pow_fits(base, minutes) == dec_pow_fits(base, BabelMath::DEC_POW_CAP_MINUTES as nat),
{
}

/// Stateless helper holding the protocol's fixed-point arithmetic.
pub struct BabelMath;

impl BabelMath {
    /// Fixed-point precision (1e18) of the protocol's decimal numbers.
    pub const DECIMAL_PRECISION: u128 = 1_000_000_000_000_000_000;

    /// Precision (1e20) of nominal collateral ratios.
    pub const NICR_PRECISION: u128 = 100_000_000_000_000_000_000;

    /// The largest exponent `dec_pow` uses: 1000 years in minutes.
    pub const DEC_POW_CAP_MINUTES: u64 = 525_600_000;

    /// The smaller of the two values.
    pub fn min(a: u128, b: u128) -> (r: u128)
        ensures
            r == spec_min(a as int, b as int),
    {
        if a < b {
            a
        } else {
            b
        }
    }

    /// The larger of the two values.
    pub fn max(a: u128, b: u128) -> (r: u128)
        ensures
            r == spec_max(a as int, b as int),
    {
        if a >= b {
            a
        } else {
            b
        }
    }

    /// Fixed-point product of two decimals, rounded half up.
    pub fn dec_mul(x: u128, y: u128) -> (r: u128)
        requires
            dec_mul_fits(x as int, y as int),
        ensures
            r == spec_dec_mul(x as int, y as int),
    {
        let prod_xy = x * y;
        let half_precision = Self::DECIMAL_PRECISION / 2;
        (prod_xy + half_precision) / Self::DECIMAL_PRECISION
    }

    /// Fixed-point power `base ^ minutes` by repeated squaring, with the
    /// exponent capped at 525,600,000 minutes.
    pub fn dec_pow(base: u128, minutes: u64) -> (r: u128)
        requires
            dec_pow_fits(base as int, minutes as nat),
        ensures
            r == spec_dec_pow(base as int, minutes as nat),
    {
        let cap_minutes = Self::DEC_POW_CAP_MINUTES;
        let mut n = if minutes > cap_minutes {
            cap_minutes
        } else {
            minutes
        };

        if n == 0 {
            return Self::DECIMAL_PRECISION;
        }

        let mut y = Self::DECIMAL_PRECISION;
        let mut x = base;

        while n > 1
            invariant
                n >= 1,
                pow_by_squaring_fits(x as int, y as int, n as nat),
                pow_by_squaring(x as int, y as int, n as nat) == spec_dec_pow(base as int, minutes as nat),
            decreases n,
        {
            if n % 2 == 0 {
                x = Self::dec_mul(x, x);
                n = n / 2;
            } else {
                y = Self::dec_mul(x, y);
                x = Self::dec_mul(x, x);
                n = (n - 1) / 2;
            }
        }

        Self::dec_mul(x, y)
    }

    /// The distance `|a - b|` between the two values.
    pub fn get_absolute_difference(a: u128, b: u128) -> (r: u128)
        ensures
            r == abs_diff(a as int, b as int),
    {
        if a >= b {
            a - b
        } else {
            b - a
        }
    }

    /// Nominal collateral ratio `coll * 1e20 / debt`; the largest `u128` for no debt.
    pub fn compute_nominal_cr(coll: u128, debt: u128) -> (r: u128)
        requires
            debt > 0 ==> coll * Self::NICR_PRECISION <= u128::MAX,
        ensures
            r == ratio_or_max(coll * Self::NICR_PRECISION, debt as int),
    {
        if debt > 0 {
            (coll * Self::NICR_PRECISION) / debt
        } else {
            u128::MAX
        }
    }

    /// Collateral ratio `coll * price / debt`; the largest `u128` for no debt.
    pub fn compute_cr(coll: u128, debt: u128, price: u128) -> (r: u128)
        requires
            debt > 0 ==> coll * price <= u128::MAX,
        ensures
            r == ratio_or_max(coll * price, debt as int),
    {
        if debt > 0 {
            (coll * price) / debt
        } else {
            u128::MAX
        }
    }

    /// Collateral ratio `coll / debt` without a price; the largest `u128` for no debt.
    pub fn compute_cr_without_price(coll: u128, debt: u128) -> (r: u128)
        ensures
            r == ratio_or_max(coll as int, debt as int),
    {
        if debt > 0 {
            coll / debt
        } else {
            u128::MAX
        }
    }
}

} // verus!
