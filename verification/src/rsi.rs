//! The indicator calculator: an exact, simple-moving-average RSI over a
//! sequence of integer prices.
//!
//! Gains are the sum of the positive period-over-period deltas, losses the
//! sum of the absolute negative ones. With fewer than two prices the neutral
//! sentinel 50 is returned; with no losses, 100; otherwise
//! `100 - 100 / (1 + gains/losses)`, which equals the exact ratio
//! `100 * gains / (gains + losses)`. The result is returned as that ratio.

use vstd::prelude::*;

verus! {

/// A sequence of machine prices read as mathematical integers.
pub open spec fn to_ints(s: Seq<i64>) -> Seq<int> {
    s.map(|i: int, p: i64| p as int)
}

/// The positive part of the delta that ends at position `i`.
pub open spec fn gain_at(s: Seq<int>, i: int) -> int {
    if s[i] >= s[i - 1] {
        s[i] - s[i - 1]
    } else {
        0
    }
}

/// The absolute negative part of the delta that ends at position `i`.
pub open spec fn loss_at(s: Seq<int>, i: int) -> int {
    if s[i] < s[i - 1] {
        s[i - 1] - s[i]
    } else {
        0
    }
}

/// Sum of the gains over all consecutive pairs of `s`.
pub open spec fn gains_of(s: Seq<int>) -> int
    decreases s.len(),
{
    if s.len() < 2 {
        0
    } else {
        gains_of(s.drop_last()) + gain_at(s, s.len() - 1)
    }
}

/// Sum of the losses over all consecutive pairs of `s`.
pub open spec fn losses_of(s: Seq<int>) -> int
    decreases s.len(),
{
    if s.len() < 2 {
        0
    } else {
        losses_of(s.drop_last()) + loss_at(s, s.len() - 1)
    }
}

/// Numerator of the exact RSI of `s`.
pub open spec fn rsi_num(s: Seq<int>) -> int {
    if s.len() < 2 {
        50
    } else if losses_of(s) == 0 {
        100
    } else {
        100 * gains_of(s)
    }
}

/// Denominator of the exact RSI of `s`.
pub open spec fn rsi_den(s: Seq<int>) -> int {
    if s.len() < 2 {
        1
    } else if losses_of(s) == 0 {
        1
    } else {
        gains_of(s) + losses_of(s)
    }
}

/// An RSI value as the exact ratio `num / den`, always within [0, 100].
#[derive(Clone, Copy, Debug, PartialEq, Eq, Structural)]
pub struct Rsi {
    pub num: u128,
    pub den: u128,
}

impl Rsi {
    /// The ratio is a defined fraction no greater than 100.
    pub open spec fn wf(self) -> bool {
        self.den > 0 && self.num <= 100 * self.den
    }
}

/// Headroom for the arithmetic: the number of prices the calculator accepts
/// in one call, far above the window capacity it is ever given.
pub const MAX_RSI_PRICES: usize = 0x4000_0000;

/// Computes the exact RSI of `prices`, oldest first.
///
/// Fewer than two prices yield the neutral `50 / 1`; a window with no losses
/// yields `100 / 1`; otherwise the ratio `100 * gains / (gains + losses)`.
pub fn compute_rsi(prices: &Vec<i64>) -> (r: Rsi)
    requires
        prices@.len() <= MAX_RSI_PRICES,
    ensures
        r.num == rsi_num(to_ints(prices@)),
        r.den == rsi_den(to_ints(prices@)),
        r.wf(),
{
    let ghost s = to_ints(prices@);
    if prices.len() < 2 {
        return Rsi { num: 50, den: 1 };
    }
    let mut gains: u128 = 0;
    let mut losses: u128 = 0;
    let mut i: usize = 1;
    while i < prices.len()
        invariant
            1 <= i <= prices@.len(),
            2 <= prices@.len() <= MAX_RSI_PRICES,
            s == to_ints(prices@),
            gains == gains_of(s.take(i as int)),
            losses == losses_of(s.take(i as int)),
            gains <= (i - 1) * 0xffff_ffff_ffff_ffffu128,
            losses <= (i - 1) * 0xffff_ffff_ffff_ffffu128,
        decreases prices@.len() - i,
    {
        let cur = prices[i] as i128;
        let prev = prices[i - 1] as i128;
        let diff = cur - prev;
        proof {
            assert(s.take(i + 1).drop_last() =~= s.take(i as int));
            assert(s.take(i + 1).last() == s[i as int]);
        }
        if diff >= 0 {
            gains = gains + (diff as u128);
        } else {
            losses = losses + ((-diff) as u128);
        }
        i = i + 1;
    }
    proof {
        assert(s.take(i as int) =~= s);
    }
    if losses == 0 {
        Rsi { num: 100, den: 1 }
    } else {
        Rsi { num: 100 * gains, den: gains + losses }
    }
}

/// The price sequence `s` with every price shifted by the same offset `c`.
pub open spec fn shifted(s: Seq<int>, c: int) -> Seq<int> {
    s.map(|i: int, p: int| p + c)
}

/// Law: the RSI depends only on the consecutive price deltas, so shifting
/// every price by one constant offset leaves gains, losses, and hence the
/// RSI ratio unchanged.
pub proof fn lemma_rsi_shift_invariant(s: Seq<int>, c: int)
    ensures
        gains_of(shifted(s, c)) == gains_of(s),
        losses_of(shifted(s, c)) == losses_of(s),
        rsi_num(shifted(s, c)) == rsi_num(s),
        rsi_den(shifted(s, c)) == rsi_den(s),
    decreases s.len(),
{
    if s.len() >= 2 {
        assert(shifted(s, c).drop_last() =~= shifted(s.drop_last(), c));
        lemma_rsi_shift_invariant(s.drop_last(), c);
        assert(gain_at(shifted(s, c), s.len() - 1) == gain_at(s, s.len() - 1));
        assert(loss_at(shifted(s, c), s.len() - 1) == loss_at(s, s.len() - 1));
    }
}

} // verus!
