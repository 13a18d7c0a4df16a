//! Exact shares of the weekly quota.
//!
//! A share is counted in ticks of 1/420 of a percent, and a budget is an even part of a
//! number of ticks, kept as a quotient: nothing is lost when a share is divided. 420 is a
//! multiple of every product `(7 - k) * (6 - k)`, so budgets that come from whole percent
//! are whole numbers of ticks.

use vstd::prelude::*;

verus! {

/// The number of ticks in one percent.
pub const TICKS_PER_PERCENT: i64 = 420;

/// The number of ticks in the whole weekly quota.
pub const FULL_TICKS: i64 = 42_000;

/// A share of the weekly quota.
#[derive(Clone, Copy, Debug, PartialEq, Eq, Structural)]
pub struct Percent {
    pub ticks: i64,
}

/// One of equal parts of a number of ticks.
#[derive(Clone, Copy, Debug, PartialEq, Eq, Structural)]
pub struct Budget {
    pub ticks: i64,
    pub parts: i64,
}

/// A quotient that is kept as its two parts.
#[derive(Clone, Copy, Debug, PartialEq, Eq, Structural)]
pub struct Ratio {
    pub numerator: u64,
    pub denominator: u64,
}

/// `x`, moved into the range from `low` to `high`.
pub open spec fn clamped(x: int, low: int, high: int) -> int {
    if x < low {
        low
    } else if x > high {
        high
    } else {
        x
    }
}

/// The larger of two numbers.
pub open spec fn larger(x: int, y: int) -> int {
    if x < y {
        y
    } else {
        x
    }
}

/// The smaller of two numbers.
pub open spec fn smaller(x: int, y: int) -> int {
    if x < y {
        x
    } else {
        y
    }
}

/// The larger of two numbers.
pub fn max_of(x: i64, y: i64) -> (r: i64)
    ensures
        r == larger(x as int, y as int),
{
    if x < y {
        y
    } else {
        x
    }
}

/// The smaller of two numbers.
pub fn min_of(x: i64, y: i64) -> (r: i64)
    ensures
        r == smaller(x as int, y as int),
{
    if x < y {
        x
    } else {
        y
    }
}

/// Moves a number into the range from `low` to `high`.
pub fn clamp_to(x: i64, low: i64, high: i64) -> (r: i64)
    ensures
        r == clamped(x as int, low as int, high as int),
{
    if x < low {
        low
    } else if x > high {
        high
    } else {
        x
    }
}

/// The share of the given number of ticks.
pub open spec fn share(ticks: int) -> Percent {
    Percent { ticks: ticks as i64 }
}

impl Percent {
    /// A number of whole percent.
    pub fn whole(percent: u8) -> (r: Self)
        ensures
            r == share(percent * TICKS_PER_PERCENT),
    {
        Percent { ticks: percent as i64 * TICKS_PER_PERCENT }
    }
}

/// One of the given number of equal parts of ticks.
pub open spec fn one_of(ticks: int, parts: int) -> Budget {
    Budget { ticks: ticks as i64, parts: parts as i64 }
}

impl Budget {
    /// The whole of a share.
    pub fn of(share: Percent) -> (r: Self)
        ensures
            r == one_of(share.ticks as int, 1),
    {
        Budget { ticks: share.ticks, parts: 1 }
    }

    /// Whether the budget has the size of one of `parts` equal parts of `ticks`.
    pub open spec fn equals(self, ticks: int, parts: int) -> bool {
        self.ticks * parts == ticks * self.parts
    }

    /// Whether two budgets have the same size.
    pub open spec fn same_size(self, other: Budget) -> bool {
        self.equals(other.ticks as int, other.parts as int)
    }

    /// Whether the budget is smaller than another one.
    pub open spec fn less_than(self, other: Budget) -> bool {
        self.ticks * other.parts < other.ticks * self.parts
    }

    /// The budget, or nothing where it is negative.
    pub open spec fn at_least_nothing(self) -> Budget {
        one_of(larger(self.ticks as int, 0), self.parts as int)
    }
}

/// The whole number nearest to `n / d`; from the middle between two, the even one.
pub open spec fn nearest_even(n: int, d: int) -> int {
    let q = n / d;
    let r = n % d;
    if 2 * r < d || (2 * r == d && q % 2 == 0) {
        q
    } else {
        q + 1
    }
}

/// The whole number nearest to `n / d`; from the middle between two, the larger one.
pub open spec fn nearest_up(n: int, d: int) -> int {
    if 2 * (n % d) < d {
        n / d
    } else {
        n / d + 1
    }
}

/// Rounds `n / d` to the nearest whole number, halves to even.
pub fn round_half_even(n: u128, d: u128) -> (r: u128)
    requires
        0 < d <= i128::MAX,
        n / d < u128::MAX,
    ensures
        r == nearest_even(n as int, d as int),
{
    let q: u128 = n / d;
    let r: u128 = n % d;
    if 2 * r < d || (2 * r == d && q % 2 == 0) {
        q
    } else {
        q + 1
    }
}

/// Rounds `n / d` to the nearest whole number, halves up.
pub fn round_half_up(n: u128, d: u128) -> (r: u128)
    requires
        0 < d <= i128::MAX,
        n / d < u128::MAX,
    ensures
        r == nearest_up(n as int, d as int),
{
    if 2 * (n % d) < d {
        n / d
    } else {
        n / d + 1
    }
}

/// The larger and the smaller of two numbers are the two numbers, in their order; a number
/// moved into a range lies in it and is kept where it lay in it before.
pub proof fn law_bounds_are_kept(x: int, y: int, low: int, high: int)
    requires
        low <= high,
    ensures
        smaller(x, y) <= x <= larger(x, y),
        smaller(x, y) <= y <= larger(x, y),
        smaller(x, y) + larger(x, y) == x + y,
        low <= clamped(x, low, high) <= high,
        low <= x <= high ==> clamped(x, low, high) == x,
        x <= low ==> clamped(x, low, high) == low,
        x >= high ==> clamped(x, low, high) == high,
{
}

/// Rounding goes to a nearest whole number: none lies closer, and from the middle between
/// two it goes to the even one or to the larger one.
pub proof fn law_rounding_goes_to_the_nearest(n: int, d: int)
    requires
        d > 0,
    ensures
        ({
            let even = nearest_even(n, d);
            let up = nearest_up(n, d);
            &&& -d <= 2 * (n - even * d) <= d
            &&& 2 * (n - even * d) == d || 2 * (n - even * d) == -d ==> even % 2 == 0
            &&& -d <= 2 * (n - up * d) < d
        }),
{
    let q = n / d;
    let r = n % d;
    vstd::arithmetic::div_mod::lemma_fundamental_div_mod(n, d);
    vstd::arithmetic::div_mod::lemma_mod_bound(n, d);
    assert(q * d == d * q && (q + 1) * d == d * q + d) by (nonlinear_arith);
}

/// A number of percent has 420 ticks for each.
pub proof fn law_a_percent_has_420_ticks(percent: u8)
    ensures
        share(percent * TICKS_PER_PERCENT).ticks == percent * 420,
        FULL_TICKS == 100 * 420,
{
}

} // verus!
