//! Prices within the current window, and candles of the windows before.
//!
//! Prices are floating-point numbers, held by their bits; what has to be known
//! of them comes in as [`PriceFacts`].

use crate::decimal::div_toward_zero;
use crate::lists::{lemma_picked_step, picked, ring_pushed};
use crate::market::MARKET_WINDOW_SECS;
use std::collections::VecDeque;
use vstd::prelude::*;

verus! {

/// How many prices are kept.
pub const PRICES_KEPT: usize = 1000;

/// How many candles are kept.
pub const CANDLES_KEPT: usize = 10;

/// How many prices there have to be before their volatility is computed.
pub const PRICES_FOR_VOLATILITY: usize = 20;

/// How many of them have to be recent.
pub const RECENT_FOR_VOLATILITY: usize = 10;

/// The length of a window in milliseconds.
pub const WINDOW_MS: i64 = 300_000;

/// A candle: the prices at the start and the end of a window, and the extremes
/// between.
#[derive(Clone, Copy, Debug, PartialEq, Eq, Structural)]
pub struct Candle {
    pub open_bits: u64,
    pub high_bits: u64,
    pub low_bits: u64,
    pub close_bits: u64,
}

/// A price and its time.
#[derive(Clone, Copy, Debug, PartialEq, Eq, Structural)]
pub struct TimedPrice {
    pub ts_ms: i64,
    pub price_bits: u64,
}

/// What a comparison of prices tells.
#[derive(Clone, Copy, Debug, PartialEq, Eq, Structural)]
pub struct PriceFacts {
    /// The higher of the window's high and the new price.
    pub high_bits: u64,
    /// The lower of the window's low and the new price.
    pub low_bits: u64,
    /// The window has a start price above zero and a low.
    pub candle_complete: bool,
}

/// Whether some bits are those of the floating-point number zero, of either
/// sign.
pub open spec fn zero_bits(bits: u64) -> bool {
    bits == 0 || bits == 0x8000_0000_0000_0000u64
}

/// Tells whether some bits are those of zero.
pub fn is_zero_bits(bits: u64) -> (r: bool)
    ensures
        r == zero_bits(bits),
{
    bits == 0 || bits == 0x8000_0000_0000_0000u64
}

/// The prices of the current window and those before.
#[derive(Debug)]
pub struct IntraWindowState {
    pub window_start_ms: i64,
    pub start_bits: u64,
    pub high_bits: u64,
    pub low_bits: u64,
    /// The price at which a position was entered.
    pub entry_bits: Option<u64>,
    pub prev_candles: VecDeque<Candle>,
    pub recent_prices: VecDeque<TimedPrice>,
}

/// The start of the window that a time lies in.
pub open spec fn window_of(ts_ms: int) -> int {
    div_toward_zero(ts_ms, WINDOW_MS as int) * WINDOW_MS
}

/// Computes the start of the window that a time lies in.
pub fn window_start(ts_ms: i64) -> (r: i64)
    ensures
        r == window_of(ts_ms as int),
{
    if ts_ms >= 0 {
        (ts_ms / WINDOW_MS) * WINDOW_MS
    } else {
        let away: i128 = -(ts_ms as i128);
        let whole: i128 = (away / WINDOW_MS as i128) * WINDOW_MS as i128;
        (-whole) as i64
    }
}

/// Milliseconds of a quarter of an hour.
pub const QUARTER_MS: i64 = 900_000;

/// Whether a time lies in a quarter of an hour that began after the given one.
pub fn in_later_quarter(ts_ms: i64, since_ms: i64) -> (r: bool)
    ensures
        r == (div_toward_zero(ts_ms as int, QUARTER_MS as int) * QUARTER_MS > since_ms),
        ts_ms >= 0 ==> r == ((ts_ms as int / 900_000) * 900_000 > since_ms),
{
    let whole: i128 = if ts_ms >= 0 {
        (ts_ms as i128 / QUARTER_MS as i128) * QUARTER_MS as i128
    } else {
        -(((-(ts_ms as i128)) / QUARTER_MS as i128) * QUARTER_MS as i128)
    };
    whole > since_ms as i128
}

/// A price, where it is not older than the given time.
pub open spec fn price_since(cutoff_ms: int) -> spec_fn(int, TimedPrice) -> Option<u64> {
    |i: int, p: TimedPrice|
        if p.ts_ms >= cutoff_ms {
            Some(p.price_bits)
        } else {
            None
        }
}

impl IntraWindowState {
    /// Nothing known yet.  The low starts as the given bits, those of the largest
    /// number.
    pub fn new(largest_bits: u64) -> (r: IntraWindowState)
        ensures
            r.window_start_ms == 0,
            r.start_bits == 0,
            r.high_bits == 0,
            r.low_bits == largest_bits,
            r.entry_bits is None,
            r.prev_candles@ == Seq::<Candle>::empty(),
            r.recent_prices@ == Seq::<TimedPrice>::empty(),
    {
        IntraWindowState {
            window_start_ms: 0,
            start_bits: 0,
            high_bits: 0,
            low_bits: largest_bits,
            entry_bits: None,
            prev_candles: VecDeque::with_capacity(10),
            recent_prices: VecDeque::with_capacity(1000),
        }
    }

    /// Takes in a price.  The first price of a later window closes the candle of
    /// the last one, where that is complete, and opens the new one; any other
    /// moves the extremes.
    pub fn update(&mut self, price_bits: u64, ts_ms: i64, facts: &PriceFacts)
        ensures
            final(self).recent_prices@ == ring_pushed(
                old(self).recent_prices@,
                (TimedPrice { ts_ms, price_bits }),
                PRICES_KEPT as int,
            ),
            old(self).recent_prices@.len() <= PRICES_KEPT ==> final(self).recent_prices@.len()
                <= PRICES_KEPT,
            old(self).prev_candles@.len() <= CANDLES_KEPT ==> final(self).prev_candles@.len()
                <= CANDLES_KEPT,
            old(self).recent_prices@.len() <= 1000 ==> final(self).recent_prices@.len() <= 1000,
            old(self).recent_prices@.len() < 1000 ==> final(self).recent_prices@.len()
                == old(self).recent_prices@.len() + 1,
            old(self).prev_candles@.len() <= 10 ==> final(self).prev_candles@.len() <= 10,
            old(self).prev_candles@.len() < 10 && facts.candle_complete && window_of(ts_ms as int)
                > old(self).window_start_ms ==> final(self).prev_candles@.len()
                == old(self).prev_candles@.len() + 1,
            final(self).recent_prices@.last() == (TimedPrice { ts_ms, price_bits }),
            final(self).entry_bits == old(self).entry_bits,
            window_of(ts_ms as int) > old(self).window_start_ms ==> {
                &&& final(self).window_start_ms == window_of(ts_ms as int)
                &&& final(self).start_bits == price_bits
                &&& final(self).high_bits == price_bits
                &&& final(self).low_bits == price_bits
                &&& final(self).prev_candles@ == (if facts.candle_complete {
                    ring_pushed(
                        old(self).prev_candles@,
                        (Candle {
                            open_bits: old(self).start_bits,
                            high_bits: old(self).high_bits,
                            low_bits: old(self).low_bits,
                            close_bits: price_bits,
                        }),
                        CANDLES_KEPT as int,
                    )
                } else {
                    old(self).prev_candles@
                })
            },
            window_of(ts_ms as int) <= old(self).window_start_ms ==> {
                &&& final(self).window_start_ms == old(self).window_start_ms
                &&& final(self).start_bits == (if zero_bits(old(self).start_bits) {
                    price_bits
                } else {
                    old(self).start_bits
                })
                &&& final(self).high_bits == facts.high_bits
                &&& final(self).low_bits == facts.low_bits
                &&& final(self).prev_candles == old(self).prev_candles
            },
    {
        self.recent_prices.push_back(TimedPrice { ts_ms, price_bits });
        if self.recent_prices.len() > PRICES_KEPT {
            let _oldest = self.recent_prices.pop_front();
        }
        assert(self.recent_prices@ =~= ring_pushed(
            old(self).recent_prices@,
            TimedPrice { ts_ms, price_bits },
            PRICES_KEPT as int,
        ));
        let current: i64 = window_start(ts_ms);
        if current > self.window_start_ms {
            if facts.candle_complete {
                let candle = Candle {
                    open_bits: self.start_bits,
                    high_bits: self.high_bits,
                    low_bits: self.low_bits,
                    close_bits: price_bits,
                };
                self.prev_candles.push_back(candle);
                if self.prev_candles.len() > CANDLES_KEPT {
                    let _oldest = self.prev_candles.pop_front();
                }
                assert(self.prev_candles@ =~= ring_pushed(
                    old(self).prev_candles@,
                    candle,
                    CANDLES_KEPT as int,
                ));
            }
            self.window_start_ms = current;
            self.start_bits = price_bits;
            self.high_bits = price_bits;
            self.low_bits = price_bits;
        } else {
            self.high_bits = facts.high_bits;
            self.low_bits = facts.low_bits;
            if is_zero_bits(self.start_bits) {
                self.start_bits = price_bits;
            }
        }
    }

    /// The first kept price that is not older than the given time.
    pub fn first_since(&self, cutoff_ms: i64) -> (r: Option<u64>)
        ensures
            match r {
                Some(bits) => exists|i: int|
                    0 <= i < self.recent_prices@.len() && (#[trigger] self.recent_prices@[i]).ts_ms
                        >= cutoff_ms && self.recent_prices@[i].price_bits == bits && (forall|j: int|
                        0 <= j < i ==> (#[trigger] self.recent_prices@[j]).ts_ms < cutoff_ms),
                None => forall|j: int|
                    0 <= j < self.recent_prices@.len() ==> (#[trigger] self.recent_prices@[j]).ts_ms
                        < cutoff_ms,
            },
    {
        let mut i: usize = 0;
        while i < self.recent_prices.len()
            invariant
                i <= self.recent_prices@.len(),
                forall|j: int|
                    0 <= j < i ==> (#[trigger] self.recent_prices@[j]).ts_ms < cutoff_ms,
            decreases self.recent_prices@.len() - i,
        {
            let p = self.recent_prices[i];
            if p.ts_ms >= cutoff_ms {
                assert(self.recent_prices@[i as int].ts_ms >= cutoff_ms);
                return Some(p.price_bits);
            }
            i += 1;
        }
        None
    }

    /// All kept prices that are not older than the given time.
    pub fn prices_since(&self, cutoff_ms: i128) -> (r: Vec<u64>)
        ensures
            r@ == picked(self.recent_prices@, price_since(cutoff_ms as int)),
    {
        let ghost pick = price_since(cutoff_ms as int);
        let mut out: Vec<u64> = Vec::new();
        let mut i: usize = 0;
        proof {
            assert(self.recent_prices@.take(0) =~= Seq::empty());
        }
        while i < self.recent_prices.len()
            invariant
                i <= self.recent_prices@.len(),
                pick == price_since(cutoff_ms as int),
                out@ == picked(self.recent_prices@.take(i as int), pick),
            decreases self.recent_prices@.len() - i,
        {
            proof {
                lemma_picked_step(self.recent_prices@, pick, i as int);
            }
            let p = self.recent_prices[i];
            if p.ts_ms as i128 >= cutoff_ms {
                out.push(p.price_bits);
            }
            i += 1;
        }
        proof {
            assert(self.recent_prices@.take(i as int) =~= self.recent_prices@);
        }
        out
    }

    /// The prices whose volatility is computed: those of the given seconds before
    /// the last one, where there are enough.
    pub open spec fn spec_volatility_prices(self, window_secs: i64) -> Option<Seq<u64>> {
        if self.recent_prices@.len() < PRICES_FOR_VOLATILITY {
            None
        } else {
            let recent = picked(
                self.recent_prices@,
                price_since(self.recent_prices@.last().ts_ms - window_secs * 1000),
            );
            if recent.len() < RECENT_FOR_VOLATILITY {
                None
            } else {
                Some(recent)
            }
        }
    }

    /// The prices whose volatility is computed.
    pub fn volatility_prices(&self, window_secs: i64) -> (r: Option<Vec<u64>>)
        ensures
            r is Some <==> self.spec_volatility_prices(window_secs) is Some,
            r matches Some(prices) ==> Some(prices@) == self.spec_volatility_prices(window_secs),
    {
        let total: usize = self.recent_prices.len();
        if total < PRICES_FOR_VOLATILITY {
            return None;
        }
        let last = self.recent_prices[total - 1];
        let cutoff: i128 = last.ts_ms as i128 - window_secs as i128 * 1000;
        let recent = self.prices_since(cutoff);
        if recent.len() < RECENT_FOR_VOLATILITY {
            None
        } else {
            Some(recent)
        }
    }

    /// The last kept prices, one more than the given number of changes between
    /// them; nothing where there are fewer.
    pub fn last_prices(&self, changes: usize) -> (r: Option<Vec<u64>>)
        requires
            changes < usize::MAX,
        ensures
            r is Some <==> self.recent_prices@.len() >= changes + 1,
            r matches Some(prices) ==> {
                &&& prices@.len() == changes + 1
                &&& forall|i: int|
                    0 <= i <= changes ==> #[trigger] prices@[i] == self.recent_prices@[
                        self.recent_prices@.len() - changes - 1 + i].price_bits
            },
    {
        let total: usize = self.recent_prices.len();
        if total < changes + 1 {
            return None;
        }
        let start: usize = total - changes - 1;
        let mut out: Vec<u64> = Vec::new();
        let mut i: usize = start;
        while i < total
            invariant
                start <= i <= total,
                total == self.recent_prices@.len(),
                start == total - changes - 1,
                out@.len() == i - start,
                forall|j: int|
                    0 <= j < i - start ==> #[trigger] out@[j] == self.recent_prices@[start
                        + j].price_bits,
            decreases total - i,
        {
            out.push(self.recent_prices[i].price_bits);
            i += 1;
        }
        Some(out)
    }

    /// The candle that lies the given number of candles before the last one.
    pub fn candle_back(&self, back: usize) -> (r: Option<Candle>)
        ensures
            r == (if back < self.prev_candles@.len() {
                Some(self.prev_candles@[self.prev_candles@.len() - 1 - back])
            } else {
                None
            }),
    {
        let total: usize = self.prev_candles.len();
        if back < total {
            Some(self.prev_candles[total - 1 - back])
        } else {
            None
        }
    }
}

// ---------------------------------------------------------------------------
// Laws
// ---------------------------------------------------------------------------

/// A window is as long as a market, starts at a multiple of its length, and
/// holds the time it was made from.
pub proof fn law_window_holds_its_time(ts_ms: int)
    requires
        ts_ms >= 0,
    ensures
        WINDOW_MS == MARKET_WINDOW_SECS * 1000,
        window_of(ts_ms) % (WINDOW_MS as int) == 0,
        window_of(ts_ms) <= ts_ms < window_of(ts_ms) + WINDOW_MS,
{
}

/// A time lies in the window that began at the last full five minutes.
pub proof fn law_windows_last_five_minutes(ts_ms: int)
    requires
        ts_ms >= 0,
    ensures
        window_of(ts_ms) % 300_000 == 0,
        window_of(ts_ms) <= ts_ms < window_of(ts_ms) + 300_000,
{
}

/// Both zeros, and no other number, count as zero.
pub proof fn law_both_zeros_are_zero(bits: u64)
    ensures
        zero_bits(bits) <==> bits == 0 || bits == 9223372036854775808,
{
}

/// A price is taken exactly where it is not older than the given time.
pub proof fn law_prices_are_taken_by_their_time(p: TimedPrice, i: int, cutoff_ms: int)
    ensures
        p.ts_ms >= cutoff_ms ==> price_since(cutoff_ms)(i, p) == Some(p.price_bits),
        p.ts_ms < cutoff_ms ==> price_since(cutoff_ms)(i, p) is None,
{
}

/// The volatility is computed from the prices of the asked seconds before the
/// last one, where there are twenty prices in all and ten of these.
pub proof fn law_volatility_needs_enough_prices(s: IntraWindowState, window_secs: i64)
    ensures
        s.recent_prices@.len() < 20 ==> s.spec_volatility_prices(window_secs) is None,
        s.recent_prices@.len() >= 20 ==> ({
            let recent = picked(
                s.recent_prices@,
                price_since(
                    s.recent_prices@[s.recent_prices@.len() - 1].ts_ms - 1000 * window_secs,
                ),
            );
            &&& recent.len() < 10 ==> s.spec_volatility_prices(window_secs) is None
            &&& recent.len() >= 10 ==> s.spec_volatility_prices(window_secs) == Some(recent)
        }),
{
}

} // verus!
