//! Windows of recent ticks.
//!
//! Prices and quantities are floating-point numbers here; they are carried by
//! their bit patterns, in fields that end in `bits`, and computed with
//! elsewhere.  This module decides which ticks belong to a window.

use crate::decimal::{div_toward_zero, Dec};
use crate::lists::{
    count_where, dropped_while, lemma_count_step, lemma_picked_step, picked, ring_pushed,
};
use crate::side::Side;
use std::collections::VecDeque;
use vstd::prelude::*;

verus! {

/// A trade.
#[derive(Clone, Copy, Debug, PartialEq, Eq, Structural)]
pub struct Tick {
    /// Time in microseconds.
    pub timestamp_us: i64,
    pub price_bits: u64,
    pub quantity_bits: u64,
    pub is_buyer: bool,
}

/// Milliseconds as microseconds, modulo 2^64, as a signed number.
pub open spec fn micros(timestamp_ms: u64) -> i64 {
    timestamp_ms.wrapping_mul(1000) as i64
}

// ---------------------------------------------------------------------------
// A window of a fixed number of ticks
// ---------------------------------------------------------------------------

/// How many ticks are kept.
pub const MAX_TICKS: usize = 200;

/// How many ticks the features look back.
pub const LOOKBACK_TICKS: usize = 50;

/// The last ticks.
#[derive(Debug)]
pub struct FeatureEngine {
    pub ticks: VecDeque<Tick>,
}

impl FeatureEngine {
    /// No ticks yet.
    pub fn new() -> (r: FeatureEngine)
        ensures
            r.ticks@ == Seq::<Tick>::empty(),
    {
        FeatureEngine { ticks: VecDeque::with_capacity(MAX_TICKS) }
    }

    /// Takes in a tick.
    pub fn push_tick(&mut self, timestamp_ms: u64, price_bits: u64, quantity_bits: u64, is_buyer: bool)
        ensures
            final(self).ticks@ == ring_pushed(
                old(self).ticks@,
                (Tick { timestamp_us: micros(timestamp_ms), price_bits, quantity_bits, is_buyer }),
                MAX_TICKS as int,
            ),
            old(self).ticks@.len() <= MAX_TICKS ==> final(self).ticks@.len() <= MAX_TICKS,
            old(self).ticks@.len() <= 200 ==> final(self).ticks@.len() <= 200,
            old(self).ticks@.len() < 200 ==> final(self).ticks@.len() == old(self).ticks@.len() + 1,
            final(self).ticks@.len() > 0,
            final(self).ticks@.last().price_bits == price_bits,
            final(self).ticks@.last().quantity_bits == quantity_bits,
            final(self).ticks@.last().is_buyer == is_buyer,
    {
        let tick = Tick {
            timestamp_us: timestamp_ms.wrapping_mul(1000) as i64,
            price_bits,
            quantity_bits,
            is_buyer,
        };
        self.ticks.push_back(tick);
        if self.ticks.len() > MAX_TICKS {
            let _dropped = self.ticks.pop_front();
        }
        assert(self.ticks@ =~= ring_pushed(old(self).ticks@, tick, MAX_TICKS as int));
    }

    /// The ticks that the features are computed from: the last fifty, once there
    /// are that many.
    pub fn window(&self) -> (r: Option<Vec<Tick>>)
        ensures
            match r {
                Some(w) => self.ticks@.len() >= LOOKBACK_TICKS && w@ == self.ticks@.skip(
                    self.ticks@.len() - LOOKBACK_TICKS,
                ),
                None => self.ticks@.len() < LOOKBACK_TICKS,
            },
            r is Some <==> self.ticks@.len() >= 50,
            r matches Some(w) ==> w@ == self.ticks@.skip(self.ticks@.len() - 50),
    {
        let total: usize = self.ticks.len();
        if total < LOOKBACK_TICKS {
            return None;
        }
        let start: usize = total - LOOKBACK_TICKS;
        let mut out: Vec<Tick> = Vec::new();
        let mut i: usize = start;
        while i < total
            invariant
                start <= i <= total,
                total == self.ticks@.len(),
                out@ =~= self.ticks@.subrange(start as int, i as int),
            decreases total - i,
        {
            out.push(self.ticks[i]);
            i += 1;
        }
        assert(out@ =~= self.ticks@.skip(start as int));
        Some(out)
    }

    /// How many ticks are kept at present.
    pub fn tick_count(&self) -> (r: usize)
        ensures
            r == self.ticks@.len(),
    {
        self.ticks.len()
    }
}

/// How many ticks of a window were bought.
pub open spec fn is_buy() -> spec_fn(Tick) -> bool {
    |t: Tick| t.is_buyer
}

/// Counts the ticks of a window that were bought.
pub fn count_buys(window: &Vec<Tick>) -> (r: usize)
    ensures
        r == count_where(window@, is_buy()),
        r <= window@.len(),
{
    let ghost p = is_buy();
    let mut count: usize = 0;
    let mut i: usize = 0;
    proof {
        assert(window@.take(0) =~= Seq::empty());
    }
    while i < window.len()
        invariant
            i <= window@.len(),
            p == is_buy(),
            count == count_where(window@.take(i as int), p),
            count <= i,
        decreases window@.len() - i,
    {
        proof {
            lemma_count_step(window@, p, i as int);
        }
        if window[i].is_buyer {
            count += 1;
        }
        i += 1;
    }
    proof {
        assert(window@.take(i as int) =~= window@);
    }
    count
}

// ---------------------------------------------------------------------------
// A window of a fixed length of time
// ---------------------------------------------------------------------------

/// The time of a tick in whole milliseconds.
pub open spec fn tick_ms(t: Tick) -> int {
    div_toward_zero(t.timestamp_us as int, 1000)
}

/// Whether a tick is older than a moment.
pub open spec fn older_than(cutoff_ms: int) -> spec_fn(Tick) -> bool {
    |t: Tick| tick_ms(t) < cutoff_ms
}

/// The ticks of the last `window_ms` milliseconds, by the time of the newest.
#[derive(Debug)]
pub struct DirectionFeatureEngine {
    pub ticks: VecDeque<Tick>,
    pub window_ms: u64,
}

impl DirectionFeatureEngine {
    /// No ticks yet.
    pub fn new(window_ms: u64) -> (r: DirectionFeatureEngine)
        ensures
            r.ticks@ == Seq::<Tick>::empty(),
            r.window_ms == window_ms,
    {
        DirectionFeatureEngine { ticks: VecDeque::with_capacity(10000), window_ms }
    }

    /// Takes in a tick and drops those at the front that have become too old.
    pub fn push_tick(&mut self, timestamp_ms: u64, price_bits: u64, quantity_bits: u64, is_buyer: bool)
        ensures
            ({
                let tick = Tick {
                    timestamp_us: micros(timestamp_ms),
                    price_bits,
                    quantity_bits,
                    is_buyer,
                };
                final(self).ticks@ == dropped_while(
                    old(self).ticks@.push(tick),
                    older_than(tick_ms(tick) - old(self).window_ms),
                )
            }),
            final(self).window_ms == old(self).window_ms,
    {
        let tick = Tick {
            timestamp_us: timestamp_ms.wrapping_mul(1000) as i64,
            price_bits,
            quantity_bits,
            is_buyer,
        };
        self.ticks.push_back(tick);
        let last_ms: i64 = tick.timestamp_us / 1000;
        let cutoff: i128 = last_ms as i128 - self.window_ms as i128;
        self.prune(cutoff);
    }

    /// Drops the ticks at the front that are older than a moment.
    fn prune(&mut self, cutoff_ms: i128)
        ensures
            final(self).ticks@ == dropped_while(old(self).ticks@, older_than(cutoff_ms as int)),
            final(self).window_ms == old(self).window_ms,
    {
        let ghost p = older_than(cutoff_ms as int);
        while self.ticks.len() > 0 && ((self.ticks[0].timestamp_us / 1000) as i128) < cutoff_ms
            invariant
                p == older_than(cutoff_ms as int),
                dropped_while(self.ticks@, p) == dropped_while(old(self).ticks@, p),
                self.window_ms == old(self).window_ms,
            decreases self.ticks@.len(),
        {
            let ghost before = self.ticks@;
            let _dropped = self.ticks.pop_front();
            assert(self.ticks@ =~= before.skip(1));
        }
    }

    /// How many ticks are kept at present.
    pub fn tick_count(&self) -> (r: usize)
        ensures
            r == self.ticks@.len(),
    {
        self.ticks.len()
    }
}

/// A tick that is not older than a moment.
pub open spec fn kept_since(cutoff_ms: int) -> spec_fn(int, Tick) -> Option<Tick> {
    |i: int, t: Tick|
        if tick_ms(t) >= cutoff_ms {
            Some(t)
        } else {
            None
        }
}

/// The ticks of a window that are not older than a moment.
pub fn ticks_since(window: &Vec<Tick>, cutoff_ms: i64) -> (r: Vec<Tick>)
    ensures
        r@ == picked(window@, kept_since(cutoff_ms as int)),
{
    let ghost pick = kept_since(cutoff_ms as int);
    let mut out: Vec<Tick> = Vec::new();
    let mut i: usize = 0;
    proof {
        assert(window@.take(0) =~= Seq::empty());
    }
    while i < window.len()
        invariant
            i <= window@.len(),
            pick == kept_since(cutoff_ms as int),
            out@ == picked(window@.take(i as int), pick),
        decreases window@.len() - i,
    {
        proof {
            lemma_picked_step(window@, pick, i as int);
        }
        if window[i].timestamp_us / 1000 >= cutoff_ms {
            out.push(window[i]);
        }
        i += 1;
    }
    proof {
        assert(window@.take(i as int) =~= window@);
    }
    out
}

// ---------------------------------------------------------------------------
// Runs
// ---------------------------------------------------------------------------

/// The length of the run of `wanted` at the end of some flags.
pub open spec fn ending_run(flags: Seq<bool>, wanted: bool) -> nat
    decreases flags.len(),
{
    if flags.len() > 0 && flags.last() == wanted {
        ending_run(flags.drop_last(), wanted) + 1
    } else {
        0
    }
}

/// The length of the longest run of `wanted` among some flags.
pub open spec fn longest_run(flags: Seq<bool>, wanted: bool) -> nat
    decreases flags.len(),
{
    if flags.len() == 0 {
        0
    } else {
        let before = longest_run(flags.drop_last(), wanted);
        let now = ending_run(flags, wanted);
        if now > before {
            now
        } else {
            before
        }
    }
}

/// Runs are no longer than what they are found in, and the longest is at least
/// as long as the last.
proof fn lemma_runs(flags: Seq<bool>, wanted: bool)
    ensures
        ending_run(flags, wanted) <= longest_run(flags, wanted) <= flags.len(),
    decreases flags.len(),
{
    if flags.len() > 0 {
        lemma_runs(flags.drop_last(), wanted);
    }
}

/// Which ticks of a window were bought.
pub open spec fn buy_flags(window: Seq<Tick>) -> Seq<bool> {
    window.map_values(|t: Tick| t.is_buyer)
}

/// Computes the longest runs of bought and of sold ticks.
pub fn longest_runs(window: &Vec<Tick>) -> (r: (usize, usize))
    ensures
        r.0 == longest_run(buy_flags(window@), true),
        r.1 == longest_run(buy_flags(window@), false),
{
    let ghost flags = buy_flags(window@);
    let mut buy_run: usize = 0;
    let mut sell_run: usize = 0;
    let mut max_buy_run: usize = 0;
    let mut max_sell_run: usize = 0;
    let mut i: usize = 0;
    proof {
        assert(flags.take(0) =~= Seq::empty());
    }
    while i < window.len()
        invariant
            i <= window@.len(),
            flags == buy_flags(window@),
            buy_run == ending_run(flags.take(i as int), true),
            sell_run == ending_run(flags.take(i as int), false),
            max_buy_run == longest_run(flags.take(i as int), true),
            max_sell_run == longest_run(flags.take(i as int), false),
        decreases window@.len() - i,
    {
        proof {
            lemma_runs(flags.take(i as int), true);
            lemma_runs(flags.take(i as int), false);
            assert(flags.take(i + 1).drop_last() =~= flags.take(i as int));
            assert(flags.take(i + 1).last() == window@[i as int].is_buyer);
        }
        if window[i].is_buyer {
            buy_run += 1;
            sell_run = 0;
            if buy_run > max_buy_run {
                max_buy_run = buy_run;
            }
        } else {
            sell_run += 1;
            buy_run = 0;
            if sell_run > max_sell_run {
                max_sell_run = sell_run;
            }
        }
        i += 1;
    }
    proof {
        assert(flags.take(i as int) =~= flags);
    }
    (max_buy_run, max_sell_run)
}

// ---------------------------------------------------------------------------
// Directions of the last ticks
// ---------------------------------------------------------------------------

/// How many directions are kept.
pub const DIRECTIONS_KEPT: usize = 15;

/// How many of them count as recent.
pub const RECENT_DIRECTIONS: usize = 5;

/// The directions of the last price changes, and how many of the recent ones
/// went up and down.
#[derive(Debug)]
pub struct TickDirections {
    pub directions: VecDeque<i8>,
    pub consecutive_up: usize,
    pub consecutive_down: usize,
}

/// Whether a direction is up.
pub open spec fn goes_up() -> spec_fn(i8) -> bool {
    |d: i8| d > 0
}

/// Whether a direction is down.
pub open spec fn goes_down() -> spec_fn(i8) -> bool {
    |d: i8| d < 0
}

/// The recent directions: the last five, or all where there are fewer.
pub open spec fn recent_directions(directions: Seq<i8>) -> Seq<i8> {
    if directions.len() > RECENT_DIRECTIONS {
        directions.skip(directions.len() - RECENT_DIRECTIONS)
    } else {
        directions
    }
}

/// The sum of some directions.
pub open spec fn net_direction(directions: Seq<i8>) -> int
    decreases directions.len(),
{
    if directions.len() == 0 {
        0
    } else {
        net_direction(directions.drop_last()) + directions.last()
    }
}

/// The recent directions counted, once there are enough of them.
pub open spec fn recounted(t: TickDirections) -> TickDirections {
    if t.directions@.len() >= RECENT_DIRECTIONS {
        TickDirections {
            consecutive_up: count_where(recent_directions(t.directions@), goes_up()) as usize,
            consecutive_down: count_where(recent_directions(t.directions@), goes_down()) as usize,
            ..t
        }
    } else {
        t
    }
}

impl TickDirections {
    /// None yet.
    pub fn new() -> (r: TickDirections)
        ensures
            r.directions@ == Seq::<i8>::empty(),
            r.consecutive_up == 0,
            r.consecutive_down == 0,
    {
        TickDirections {
            directions: VecDeque::with_capacity(20),
            consecutive_up: 0,
            consecutive_down: 0,
        }
    }

    /// Takes in a direction; one that goes nowhere is left out.
    pub fn push(&mut self, direction: i8)
        ensures
            final(self).directions@ == (if direction != 0 {
                ring_pushed(old(self).directions@, direction, DIRECTIONS_KEPT as int)
            } else {
                old(self).directions@
            }),
            old(self).directions@.len() <= DIRECTIONS_KEPT ==> final(self).directions@.len()
                <= DIRECTIONS_KEPT,
            direction == 0 ==> final(self).directions@ == old(self).directions@,
            direction != 0 && old(self).directions@.len() < 15 ==> final(self).directions@ == old(
                self,
            ).directions@.push(direction),
            direction != 0 && old(self).directions@.len() == 15 ==> final(self).directions@ == old(
                self,
            ).directions@.push(direction).skip(1),
            final(self).consecutive_up == old(self).consecutive_up,
            final(self).consecutive_down == old(self).consecutive_down,
    {
        if direction != 0 {
            self.directions.push_back(direction);
            if self.directions.len() > DIRECTIONS_KEPT {
                let _dropped = self.directions.pop_front();
            }
            assert(self.directions@ =~= ring_pushed(
                old(self).directions@,
                direction,
                DIRECTIONS_KEPT as int,
            ));
        }
    }

    /// Counts the recent directions, once there are enough of them.
    pub fn recount(&mut self)
        ensures
            final(self).directions == old(self).directions,
            old(self).directions@.len() >= RECENT_DIRECTIONS ==> final(self).consecutive_up
                == count_where(recent_directions(old(self).directions@), goes_up())
                && final(self).consecutive_down == count_where(
                recent_directions(old(self).directions@),
                goes_down(),
            ),
            old(self).directions@.len() < RECENT_DIRECTIONS ==> *final(self) == *old(self),
    {
        let total: usize = self.directions.len();
        if total < RECENT_DIRECTIONS {
            return;
        }
        let ghost recent = recent_directions(self.directions@);
        let start: usize = total - RECENT_DIRECTIONS;
        let mut up: usize = 0;
        let mut down: usize = 0;
        let mut i: usize = start;
        proof {
            assert(recent.take(0) =~= Seq::empty());
        }
        while i < total
            invariant
                start <= i <= total,
                total == self.directions@.len(),
                start == total - RECENT_DIRECTIONS,
                *self == *old(self),
                recent =~= self.directions@.skip(start as int),
                up == count_where(recent.take(i - start), goes_up()),
                down == count_where(recent.take(i - start), goes_down()),
                up <= i - start,
                down <= i - start,
            decreases total - i,
        {
            proof {
                lemma_count_step(recent, goes_up(), i - start);
                lemma_count_step(recent, goes_down(), i - start);
            }
            let d = self.directions[i];
            if d > 0 {
                up += 1;
            } else if d < 0 {
                down += 1;
            }
            i += 1;
        }
        proof {
            assert(recent.take(i - start) =~= recent);
        }
        self.consecutive_up = up;
        self.consecutive_down = down;
    }

    /// Forgets all directions.
    pub fn clear(&mut self)
        ensures
            final(self).directions@ == Seq::<i8>::empty(),
            final(self).consecutive_up == old(self).consecutive_up,
            final(self).consecutive_down == old(self).consecutive_down,
    {
        self.directions.clear();
    }

    /// The sum of the recent directions.
    pub fn net_ticks(&self) -> (r: i32)
        ensures
            r == net_direction(recent_directions(self.directions@)),
    {
        let total: usize = self.directions.len();
        let start: usize = if total > RECENT_DIRECTIONS {
            total - RECENT_DIRECTIONS
        } else {
            0
        };
        let ghost recent = recent_directions(self.directions@);
        let mut net: i32 = 0;
        let mut i: usize = start;
        proof {
            assert(recent =~= self.directions@.skip(start as int));
            assert(recent.take(0) =~= Seq::empty());
        }
        while i < total
            invariant
                start <= i <= total,
                total == self.directions@.len(),
                total - start <= RECENT_DIRECTIONS,
                recent =~= self.directions@.skip(start as int),
                net == net_direction(recent.take(i - start)),
                -128 * (i - start) <= net <= 127 * (i - start),
            decreases total - i,
        {
            proof {
                let k = i - start;
                assert(recent.take(k + 1).drop_last() =~= recent.take(k));
                assert(recent.take(k + 1).last() == self.directions@[i as int]);
            }
            net += self.directions[i] as i32;
            i += 1;
        }
        proof {
            assert(recent.take(i - start) =~= recent);
        }
        net
    }

    /// The side that the recent directions show: their sum has to reach the
    /// threshold.
    pub fn tick_signal(&self, threshold: usize) -> (r: Option<Side>)
        ensures
            r == (if net_direction(recent_directions(self.directions@)) >= threshold {
                Some(Side::Up)
            } else if net_direction(recent_directions(self.directions@)) <= -threshold {
                Some(Side::Down)
            } else {
                None
            }),
    {
        let net: i32 = self.net_ticks();
        let limit: i128 = threshold as i128;
        if net as i128 >= limit {
            Some(Side::Up)
        } else if net as i128 <= -limit {
            Some(Side::Down)
        } else {
            None
        }
    }
}

// ---------------------------------------------------------------------------
// Prices of the last seconds
// ---------------------------------------------------------------------------

/// Seconds for which prices are kept.
pub const PRICE_HISTORY_SECS: u64 = 30;

/// Recent prices with their times in milliseconds, and the highest and lowest
/// price of the session.
#[derive(Debug)]
pub struct PriceHistory {
    pub prices: VecDeque<(u64, Dec)>,
    pub high: Dec,
    pub low: Dec,
}

/// Whether a price is older than the history goes back, in whole seconds.
pub open spec fn outdated(now_ms: u64) -> spec_fn((u64, Dec)) -> bool {
    |e: (u64, Dec)| now_ms > e.0 && (now_ms - e.0) / 1000 > PRICE_HISTORY_SECS
}

impl PriceHistory {
    /// No prices yet.
    pub fn new() -> (r: PriceHistory)
        ensures
            r.prices@ == Seq::<(u64, Dec)>::empty(),
            r.high == Dec::of(0, 0),
            r.low == Dec::of(999999, 0),
    {
        PriceHistory { prices: VecDeque::new(), high: Dec::zero(), low: Dec::new(999999, 0) }
    }

    /// Takes in a price and drops those that have become outdated.
    pub fn push(&mut self, now_ms: u64, price: Dec)
        ensures
            final(self).prices@ == dropped_while(
                old(self).prices@.push((now_ms, price)),
                outdated(now_ms),
            ),
            final(self).high == (if price@ > old(self).high@ {
                price
            } else {
                old(self).high
            }),
            final(self).low == (if price@ < old(self).low@ {
                price
            } else {
                old(self).low
            }),
    {
        self.prices.push_back((now_ms, price));
        let ghost all = self.prices@;
        let ghost p = outdated(now_ms);
        while self.prices.len() > 0 && now_ms > self.prices[0].0 && (now_ms - self.prices[0].0)
            / 1000 > PRICE_HISTORY_SECS
            invariant
                p == outdated(now_ms),
                dropped_while(self.prices@, p) == dropped_while(all, p),
                self.high == old(self).high,
                self.low == old(self).low,
            decreases self.prices@.len(),
        {
            let ghost before = self.prices@;
            let _dropped = self.prices.pop_front();
            assert(self.prices@ =~= before.skip(1));
        }
        if self.high.lt(price) {
            self.high = price;
        }
        if price.lt(self.low) {
            self.low = price;
        }
    }
}

// ---------------------------------------------------------------------------
// Laws
// ---------------------------------------------------------------------------

/// The newest tick is never dropped, and a window in time order holds no tick
/// that is older than its length.
pub proof fn law_window_holds_recent_ticks(before: Seq<Tick>, tick: Tick, window_ms: u64, i: int)
    requires
        forall|a: int, b: int|
            0 <= a <= b < before.push(tick).len() ==> tick_ms(#[trigger] before.push(tick)[a])
                <= tick_ms(#[trigger] before.push(tick)[b]),
        0 <= i < dropped_while(
            before.push(tick),
            older_than(tick_ms(tick) - window_ms),
        ).len(),
    ensures
        dropped_while(before.push(tick), older_than(tick_ms(tick) - window_ms)).last() == tick,
        tick_ms(dropped_while(before.push(tick), older_than(tick_ms(tick) - window_ms))[i])
            >= tick_ms(tick) - window_ms,
{
    let all = before.push(tick);
    let p = older_than(tick_ms(tick) - window_ms);
    let kept = dropped_while(all, p);
    crate::lists::lemma_dropped_while(all, p);
    let gone = all.len() - kept.len();
    assert(kept[0] == all[gone]);
    assert(kept[i] == all[gone + i]);
    assert(!p(kept[0]));
    assert(tick_ms(all[gone]) <= tick_ms(all[gone + i]));
    assert(kept.last() == all[all.len() - 1]);
}

/// Of the recent directions no more than five are counted, and none both ways.
pub proof fn law_recent_counts_are_small(directions: Seq<i8>)
    ensures
        count_where(recent_directions(directions), goes_up()) + count_where(
            recent_directions(directions),
            goes_down(),
        ) <= RECENT_DIRECTIONS,
{
    lemma_disjoint_counts(recent_directions(directions));
}

/// No direction is counted both ways.
proof fn lemma_disjoint_counts(directions: Seq<i8>)
    ensures
        count_where(directions, goes_up()) + count_where(directions, goes_down())
            <= directions.len(),
    decreases directions.len(),
{
    if directions.len() > 0 {
        lemma_disjoint_counts(directions.drop_last());
    }
}

/// A time in milliseconds becomes a thousand times as many microseconds, where
/// these can be held.
pub proof fn law_micros_are_thousandths(timestamp_ms: u64)
    requires
        timestamp_ms * 1000 <= i64::MAX,
    ensures
        micros(timestamp_ms) == timestamp_ms * 1000,
        forall|t: Tick|
            t.timestamp_us == micros(timestamp_ms) ==> #[trigger] tick_ms(t) == timestamp_ms,
{
}

/// A tick is older than a moment, and is not kept since it, exactly where its
/// time in whole milliseconds is less.
pub proof fn law_ticks_are_kept_by_their_time(t: Tick, i: int, cutoff_ms: int)
    requires
        t.timestamp_us >= 0,
    ensures
        older_than(cutoff_ms)(t) <==> t.timestamp_us as int / 1000 < cutoff_ms,
        t.timestamp_us as int / 1000 >= cutoff_ms ==> kept_since(cutoff_ms)(i, t) == Some(t),
        (t.timestamp_us as int) / 1000 < cutoff_ms ==> kept_since(cutoff_ms)(i, t) is None,
        is_buy()(t) == t.is_buyer,
{
}

/// The run at the end of some flags is all wanted, and the flag before it is not.
proof fn lemma_ending_run(flags: Seq<bool>, wanted: bool)
    ensures
        ending_run(flags, wanted) <= flags.len(),
        forall|k: int|
            flags.len() - ending_run(flags, wanted) <= k < flags.len() ==> #[trigger] flags[k]
                == wanted,
        ending_run(flags, wanted) < flags.len() ==> flags[flags.len() - 1 - ending_run(
            flags,
            wanted,
        )] != wanted,
    decreases flags.len(),
{
    if flags.len() > 0 && flags.last() == wanted {
        let before = flags.drop_last();
        lemma_ending_run(before, wanted);
        assert forall|k: int|
            flags.len() - ending_run(flags, wanted) <= k < flags.len() implies #[trigger] flags[k]
            == wanted by {
            if k < before.len() {
                assert(before[k] == flags[k]);
            }
        }
        if ending_run(flags, wanted) < flags.len() {
            let k = flags.len() - 1 - ending_run(flags, wanted);
            assert(before[k] == flags[k]);
        }
    }
}

/// The longest run is at least as long as any stretch of wanted flags.
pub proof fn law_no_run_is_longer_than_the_longest(
    flags: Seq<bool>,
    wanted: bool,
    from: int,
    to: int,
)
    requires
        0 <= from <= to <= flags.len(),
        forall|k: int| from <= k < to ==> #[trigger] flags[k] == wanted,
    ensures
        to - from <= longest_run(flags, wanted),
    decreases flags.len(),
{
    if flags.len() > 0 {
        let before = flags.drop_last();
        lemma_runs(flags, wanted);
        if to < flags.len() {
            assert forall|k: int| from <= k < to implies #[trigger] before[k] == wanted by {
                assert(before[k] == flags[k]);
            }
            law_no_run_is_longer_than_the_longest(before, wanted, from, to);
        } else {
            lemma_ending_run(flags, wanted);
            let n = flags.len() - 1 - ending_run(flags, wanted);
            if n >= 0 && n >= from {
                assert(flags[n] == wanted);
            }
        }
    }
}

/// There is a stretch of wanted flags that is as long as the longest run.
pub proof fn law_longest_run_is_there(flags: Seq<bool>, wanted: bool) -> (from: int)
    ensures
        0 <= from,
        from + longest_run(flags, wanted) <= flags.len(),
        forall|k: int|
            from <= k < from + longest_run(flags, wanted) ==> #[trigger] flags[k] == wanted,
    decreases flags.len(),
{
    if flags.len() == 0 {
        0
    } else {
        let before = flags.drop_last();
        lemma_ending_run(flags, wanted);
        if ending_run(flags, wanted) > longest_run(before, wanted) {
            flags.len() - ending_run(flags, wanted)
        } else {
            let from = law_longest_run_is_there(before, wanted);
            assert forall|k: int|
                from <= k < from + longest_run(flags, wanted) implies #[trigger] flags[k]
                == wanted by {
                assert(before[k] == flags[k]);
            }
            from
        }
    }
}

/// The flags of a window tell for each tick whether it was bought.
pub proof fn law_flags_tell_what_was_bought(window: Seq<Tick>)
    ensures
        buy_flags(window).len() == window.len(),
        forall|i: int|
            0 <= i < window.len() ==> #[trigger] buy_flags(window)[i] == window[i].is_buyer,
{
}

/// The recent directions are the last five, or all where there are fewer.
pub proof fn law_five_directions_are_recent(directions: Seq<i8>)
    ensures
        directions.len() <= 5 ==> recent_directions(directions) == directions,
        directions.len() > 5 ==> recent_directions(directions) == directions.subrange(
            directions.len() - 5,
            directions.len() as int,
        ),
        forall|d: i8| #[trigger] goes_up()(d) <==> d > 0,
        forall|d: i8| #[trigger] goes_down()(d) <==> d < 0,
{
}

/// The net of some directions is how many more of them go up than down.
pub proof fn law_net_is_ups_less_downs(directions: Seq<i8>)
    requires
        forall|i: int| 0 <= i < directions.len() ==> -1 <= #[trigger] directions[i] <= 1,
    ensures
        net_direction(directions) == count_where(directions, |d: i8| d > 0) - count_where(
            directions,
            |d: i8| d < 0,
        ),
    decreases directions.len(),
{
    if directions.len() > 0 {
        let before = directions.drop_last();
        assert forall|i: int| 0 <= i < before.len() implies -1 <= #[trigger] before[i] <= 1 by {
            assert(before[i] == directions[i]);
        }
        law_net_is_ups_less_downs(before);
        assert(directions.last() == directions[directions.len() - 1]);
    }
}

/// Counting the recent directions anew counts those that go up and those that go
/// down, once there are five, and otherwise leaves the counts; the directions
/// themselves stay.
pub proof fn law_recount_counts_ups_and_downs(t: TickDirections)
    ensures
        t.directions@.len() < 5 ==> recounted(t) == t,
        t.directions@.len() >= 5 ==> recounted(t).consecutive_up == count_where(
            recent_directions(t.directions@),
            |d: i8| d > 0,
        ) && recounted(t).consecutive_down == count_where(
            recent_directions(t.directions@),
            |d: i8| d < 0,
        ),
        recounted(t).directions == t.directions,
{
    law_recent_counts_are_small(t.directions@);
    assert((|d: i8| d > 0) =~= goes_up());
    assert((|d: i8| d < 0) =~= goes_down());
}

/// A price is outdated once it is more than thirty whole seconds old.
pub proof fn law_prices_are_kept_for_thirty_seconds(at_ms: u64, price: Dec, now_ms: u64)
    ensures
        now_ms <= at_ms ==> !outdated(now_ms)((at_ms, price)),
        now_ms > at_ms ==> (outdated(now_ms)((at_ms, price)) <==> now_ms - at_ms >= 31000),
{
}

} // verus!
