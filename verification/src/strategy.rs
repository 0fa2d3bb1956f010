//! When the trading bot enters and leaves.
//!
//! The models behind a decision are floating-point computations; what they say
//! comes in as a [`Reading`], in plain yes or no.

use crate::accounting::tally_after_entry;
use crate::decimal::{cents, Dec};
use crate::lists::{count_where, lemma_count_step, lemma_picked_step, picked};
use crate::market::{seconds_to_close, seconds_until_close, MARKET_WINDOW_SECS};
use crate::orderbook::{Orderbook, BOOK_MAX_AGE_MS};
use crate::side::Side;
use crate::signals::empty_board;
use crate::ticks::{law_recent_counts_are_small, net_direction, recent_directions, recounted};
use crate::trader::{held, BlockReason, EntryType, Position, SharedState, Tally};
use vstd::prelude::*;

verus! {

/// Seconds before the close of a market from which nothing is entered.
pub const NO_ENTRY_SECS: i64 = 15;

/// Seconds before the close of a market from which all positions are forced out.
pub const FORCED_EXIT_SECS: i64 = 5;

/// Seconds before the close of a market from which positions are left.
pub const CLOSE_BUFFER_SECS: i64 = 30;

/// Milliseconds after which a position is left whatever the book says.
pub const EMERGENCY_HOLD_MS: u64 = 30_000;

/// Seconds that have to be left for the exit that scales with time.
pub const TIME_SCALE_MIN_SECS: i64 = 60;

/// Open positions of one entry type.
pub const MAX_PER_TYPE: usize = 5;

/// Milliseconds of pause after the third position.
pub const THIRD_POSITION_PAUSE_MS: u64 = 7_500;

/// Milliseconds for which a big move is remembered.
pub const BIG_MOVE_MEMORY_MS: u64 = 20_000;

/// What the models say.
#[derive(Clone, Copy, Debug, PartialEq, Eq, Structural)]
pub struct Reading {
    /// The displacement is above zero.
    pub z_positive: bool,
    /// The displacement is below zero.
    pub z_negative: bool,
    /// The displacement is too small to hold on to.
    pub z_faded: bool,
    /// The displacement has reached the threshold for up.
    pub z_enters_up: bool,
    /// The displacement has reached the threshold for down.
    pub z_enters_down: bool,
    /// The displacement is too large to enter.
    pub z_extreme: bool,
    /// The displacement is where entries do best.
    pub z_optimal: bool,
    /// The momentum has changed its sign since the last tick.
    pub momentum_flipped: bool,
    /// The predicted volatility is below the set minimum.
    pub vol_too_low: bool,
    /// The predicted volatility is good.
    pub vol_good: bool,
}

// ---------------------------------------------------------------------------
// Leaving
// ---------------------------------------------------------------------------

/// Why a position is left.
#[derive(Clone, Copy, Debug, PartialEq, Eq, Structural)]
pub enum LeaveReason {
    MarketClose,
    Timeout,
    MomentumFaded,
    TimeScaled,
    MomentumReversed,
}

/// Whether the displacement goes with a side.
pub open spec fn goes_with(reading: Reading, side: Side) -> bool {
    match side {
        Side::Up => reading.z_positive,
        Side::Down => reading.z_negative,
    }
}

/// Whether a position is left on a faded displacement that is not with it.
pub open spec fn leaves_on_fade(reading: Reading, side: Side, met_min_hold: bool) -> bool {
    met_min_hold && reading.z_faded && !goes_with(reading, side)
}

/// Whether a position has been held for more than half of the time that is left.
pub open spec fn leaves_on_time(hold_ms: int, seconds_left: int, met_min_hold: bool) -> bool {
    met_min_hold && seconds_left > TIME_SCALE_MIN_SECS && hold_ms > 500 * seconds_left
}

/// Whether a position is left on a momentum that has turned against it.
pub open spec fn leaves_on_reversal(reading: Reading, side: Side, met_min_hold: bool) -> bool {
    met_min_hold && reading.momentum_flipped && !goes_with(reading, side)
}

/// Why a position is left, if it is.  A position is left before the market
/// closes and at its timeout in any case, and otherwise not before its minimum
/// hold.
pub open spec fn leave_reason(
    side: Side,
    hold_ms: int,
    seconds_left: int,
    min_hold_ms: u64,
    hold_timeout_ms: u64,
    reading: Reading,
) -> Option<LeaveReason> {
    let met = hold_ms >= min_hold_ms;
    if seconds_left <= CLOSE_BUFFER_SECS {
        Some(LeaveReason::MarketClose)
    } else if hold_ms >= hold_timeout_ms {
        Some(LeaveReason::Timeout)
    } else if leaves_on_fade(reading, side, met) || leaves_on_time(hold_ms, seconds_left, met)
        || leaves_on_reversal(reading, side, met) {
        if met && reading.z_faded {
            Some(LeaveReason::MomentumFaded)
        } else if leaves_on_time(hold_ms, seconds_left, met) {
            Some(LeaveReason::TimeScaled)
        } else {
            Some(LeaveReason::MomentumReversed)
        }
    } else {
        None
    }
}

/// Decides whether a position is left.
pub fn decide_exit(
    side: Side,
    hold_ms: u64,
    seconds_left: i64,
    min_hold_ms: u64,
    hold_timeout_ms: u64,
    reading: &Reading,
) -> (r: Option<LeaveReason>)
    ensures
        r == leave_reason(
            side,
            hold_ms as int,
            seconds_left as int,
            min_hold_ms,
            hold_timeout_ms,
            *reading,
        ),
{
    if seconds_left <= CLOSE_BUFFER_SECS {
        return Some(LeaveReason::MarketClose);
    }
    if hold_ms >= hold_timeout_ms {
        return Some(LeaveReason::Timeout);
    }
    let met = hold_ms >= min_hold_ms;
    let with_us = match side {
        Side::Up => reading.z_positive,
        Side::Down => reading.z_negative,
    };
    let faded = met && reading.z_faded;
    let time_up = met && seconds_left > TIME_SCALE_MIN_SECS && (hold_ms as i128) > 500 * (
    seconds_left as i128);
    let reversed = met && reading.momentum_flipped && !with_us;
    if (faded && !with_us) || time_up || reversed {
        if faded {
            Some(LeaveReason::MomentumFaded)
        } else if time_up {
            Some(LeaveReason::TimeScaled)
        } else {
            Some(LeaveReason::MomentumReversed)
        }
    } else {
        None
    }
}

/// The index of a position that is left, and why.
pub open spec fn leaving(
    now_ms: u64,
    seconds_left: int,
    min_hold_ms: u64,
    hold_timeout_ms: u64,
    reading: Reading,
) -> spec_fn(int, Position) -> Option<(usize, LeaveReason)> {
    |i: int, p: Position|
        match leave_reason(
            p.side,
            held(p.entry_ms, now_ms),
            seconds_left,
            min_hold_ms,
            hold_timeout_ms,
            reading,
        ) {
            Some(reason) => Some((i as usize, reason)),
            None => None,
        }
}

/// The index of a position that has been held for too long.
pub open spec fn overdue(now_ms: u64) -> spec_fn(int, Position) -> Option<usize> {
    |i: int, p: Position|
        if held(p.entry_ms, now_ms) >= EMERGENCY_HOLD_MS {
            Some(i as usize)
        } else {
            None
        }
}

/// The price at which a position is left: the ask of the other token.
pub open spec fn exit_ask(book: Orderbook, side: Side) -> Option<Dec> {
    match side {
        Side::Up => book.down_best_ask,
        Side::Down => book.up_best_ask,
    }
}

impl SharedState {
    /// Decides for all positions whether they are left.
    pub fn positions_to_exit(&self, reading: &Reading, seconds_left: i64, now_ms: u64) -> (r: Vec<
        (usize, LeaveReason),
    >)
        ensures
            r@ == picked(
                self.positions@,
                leaving(
                    now_ms,
                    seconds_left as int,
                    self.min_hold_ms,
                    self.hold_timeout_ms,
                    *reading,
                ),
            ),
    {
        let ghost pick = leaving(
            now_ms,
            seconds_left as int,
            self.min_hold_ms,
            self.hold_timeout_ms,
            *reading,
        );
        let mut out: Vec<(usize, LeaveReason)> = Vec::new();
        let mut i: usize = 0;
        proof {
            assert(self.positions@.take(0) =~= Seq::empty());
        }
        while i < self.positions.len()
            invariant
                i <= self.positions@.len(),
                pick == leaving(
                    now_ms,
                    seconds_left as int,
                    self.min_hold_ms,
                    self.hold_timeout_ms,
                    *reading,
                ),
                out@ == picked(self.positions@.take(i as int), pick),
            decreases self.positions@.len() - i,
        {
            proof {
                lemma_picked_step(self.positions@, pick, i as int);
            }
            let p = &self.positions[i];
            let reason = decide_exit(
                p.side,
                p.held_ms(now_ms),
                seconds_left,
                self.min_hold_ms,
                self.hold_timeout_ms,
                reading,
            );
            if let Some(reason) = reason {
                out.push((i, reason));
            }
            i += 1;
        }
        proof {
            assert(self.positions@.take(i as int) =~= self.positions@);
        }
        out
    }

    /// The positions that have been held for too long.
    pub fn overdue_positions(&self, now_ms: u64) -> (r: Vec<usize>)
        ensures
            r@ == picked(self.positions@, overdue(now_ms)),
    {
        let ghost pick = overdue(now_ms);
        let mut out: Vec<usize> = Vec::new();
        let mut i: usize = 0;
        proof {
            assert(self.positions@.take(0) =~= Seq::empty());
        }
        while i < self.positions.len()
            invariant
                i <= self.positions@.len(),
                pick == overdue(now_ms),
                out@ == picked(self.positions@.take(i as int), pick),
            decreases self.positions@.len() - i,
        {
            proof {
                lemma_picked_step(self.positions@, pick, i as int);
            }
            if self.positions[i].held_ms(now_ms) >= EMERGENCY_HOLD_MS {
                out.push(i);
            }
            i += 1;
        }
        proof {
            assert(self.positions@.take(i as int) =~= self.positions@);
        }
        out
    }

    /// The price at which a position of a side would be left.
    pub fn exit_price(&self, side: Side) -> (r: Option<Dec>)
        ensures
            r == exit_ask(self.orderbook, side),
    {
        match side {
            Side::Up => self.orderbook.down_best_ask,
            Side::Down => self.orderbook.up_best_ask,
        }
    }
}

// ---------------------------------------------------------------------------
// Entering
// ---------------------------------------------------------------------------

/// The side that displacement and ticks agree on, if they do: the ticks net of
/// those that went the other way have to reach the threshold.
pub open spec fn signal_side(reading: Reading, net_ticks: int, threshold: usize) -> Option<Side> {
    if reading.z_enters_up && net_ticks >= threshold {
        Some(Side::Up)
    } else if reading.z_enters_down && net_ticks <= -threshold {
        Some(Side::Down)
    } else {
        None
    }
}

/// Decides whether displacement and ticks agree on a side.
pub fn entry_signal(reading: &Reading, net_ticks: i32, threshold: usize) -> (r: Option<Side>)
    ensures
        r == signal_side(*reading, net_ticks as int, threshold),
{
    let net: i128 = net_ticks as i128;
    let limit: i128 = threshold as i128;
    if reading.z_enters_up && net >= limit {
        Some(Side::Up)
    } else if reading.z_enters_down && net <= -limit {
        Some(Side::Down)
    } else {
        None
    }
}

/// Whether a position was entered on momentum.
pub open spec fn is_momentum() -> spec_fn(Position) -> bool {
    |p: Position| p.spec_entry_type() == EntryType::Momentum
}

/// The lowest entry price of the positions of a side; of several equal ones the
/// first.
pub open spec fn best_entry(positions: Seq<Position>, side: Side) -> Option<Dec>
    decreases positions.len(),
{
    if positions.len() == 0 {
        None
    } else {
        let before = best_entry(positions.drop_last(), side);
        let p = positions.last();
        if p.side == side {
            match before {
                Some(b) => if p.entry_price@ < b@ {
                    Some(p.entry_price)
                } else {
                    Some(b)
                },
                None => Some(p.entry_price),
            }
        } else {
            before
        }
    }
}

/// Finds the lowest entry price of the positions of a side.
pub fn lowest_entry(positions: &Vec<Position>, side: Side) -> (r: Option<Dec>)
    ensures
        r == best_entry(positions@, side),
{
    let mut best: Option<Dec> = None;
    let mut i: usize = 0;
    proof {
        assert(positions@.take(0) =~= Seq::empty());
    }
    while i < positions.len()
        invariant
            i <= positions@.len(),
            best == best_entry(positions@.take(i as int), side),
        decreases positions@.len() - i,
    {
        let p = &positions[i];
        proof {
            assert(positions@.take(i + 1).drop_last() =~= positions@.take(i as int));
            assert(positions@.take(i + 1).last() == *p);
        }
        if p.side == side {
            best = match best {
                Some(b) => if p.entry_price.lt(b) {
                    Some(p.entry_price)
                } else {
                    Some(b)
                },
                None => Some(p.entry_price),
            };
        }
        i += 1;
    }
    proof {
        assert(positions@.take(i as int) =~= positions@);
    }
    best
}

/// Counts the positions that were entered on momentum.
fn count_momentum(positions: &Vec<Position>) -> (r: usize)
    ensures
        r == count_where(positions@, is_momentum()),
{
    let ghost p = is_momentum();
    let mut count: usize = 0;
    let mut i: usize = 0;
    proof {
        assert(positions@.take(0) =~= Seq::empty());
    }
    while i < positions.len()
        invariant
            i <= positions@.len(),
            p == is_momentum(),
            count == count_where(positions@.take(i as int), p),
            count <= i,
        decreases positions@.len() - i,
    {
        proof {
            lemma_count_step(positions@, p, i as int);
        }
        if positions[i].entry_type() == EntryType::Momentum {
            count += 1;
        }
        i += 1;
    }
    proof {
        assert(positions@.take(i as int) =~= positions@);
    }
    count
}

/// A price that could not be computed, did not exist, or did.
#[derive(Clone, Copy, Debug)]
pub enum PriceQuote {
    Overflow,
    Missing,
    At(Dec),
}

/// What a token costs: its ask, or what the bid of the other token leaves of
/// one, whichever is lower.
pub open spec fn entry_quote(book: Orderbook, side: Side) -> PriceQuote {
    let (ask, bid) = match side {
        Side::Up => (book.up_best_ask, book.down_best_bid),
        Side::Down => (book.down_best_ask, book.up_best_bid),
    };
    match bid {
        Some(b) => match Dec::of(1, 0).spec_minus(b) {
            Some(implied) => match ask {
                Some(a) => PriceQuote::At(
                    if a@ > implied@ {
                        implied
                    } else {
                        a
                    },
                ),
                None => PriceQuote::At(implied),
            },
            None => PriceQuote::Overflow,
        },
        None => match ask {
            Some(a) => PriceQuote::At(a),
            None => PriceQuote::Missing,
        },
    }
}

/// Computes what a token costs.
pub fn quote_entry(book: &Orderbook, side: Side) -> (r: PriceQuote)
    ensures
        r == entry_quote(*book, side),
{
    let (ask, bid) = match side {
        Side::Up => (book.up_best_ask, book.down_best_bid),
        Side::Down => (book.down_best_ask, book.up_best_bid),
    };
    match bid {
        Some(b) => match Dec::new(1, 0).minus(b) {
            Some(implied) => match ask {
                Some(a) => if implied.lt(a) {
                    PriceQuote::At(implied)
                } else {
                    PriceQuote::At(a)
                },
                None => PriceQuote::At(implied),
            },
            None => PriceQuote::Overflow,
        },
        None => match ask {
            Some(a) => PriceQuote::At(a),
            None => PriceQuote::Missing,
        },
    }
}

/// The size of an entry: doubled where price, displacement and volatility are
/// all good, one and a half where the price is, or the other two are.
pub open spec fn entry_size(base: Dec, price: Dec, reading: Reading) -> Option<Dec> {
    let sweet = cents(30) <= price@ <= cents(50);
    if sweet && reading.z_optimal && reading.vol_good {
        base.spec_times(Dec::of(2, 0))
    } else if sweet || (reading.z_optimal && reading.vol_good) {
        base.spec_times(Dec::of(15, 1))
    } else {
        Some(base)
    }
}

/// Computes the size of an entry.
pub fn size_entry(base: Dec, price: Dec, reading: &Reading) -> (r: Option<Dec>)
    ensures
        r == entry_size(base, price, *reading),
{
    let sweet = Dec::new(30, 2).le(price) && price.le(Dec::new(50, 2));
    if sweet && reading.z_optimal && reading.vol_good {
        base.times(Dec::new(2, 0))
    } else if sweet || (reading.z_optimal && reading.vol_good) {
        base.times(Dec::new(15, 1))
    } else {
        Some(base)
    }
}

/// What becomes of a signal.
#[derive(Clone, Copy, Debug)]
pub enum EntryDecision {
    /// Nothing is entered, for this reason.
    Blocked(BlockReason),
    /// Nothing is entered during the pause after the third position.
    Pausing,
    /// Nothing is entered: the predicted volatility is too low.
    Filtered,
    /// Nothing is entered: the displacement is too large.
    Extreme,
    /// Nothing is entered: a price or a size cannot be computed.
    Uncomputable,
    /// Buy this many shares of the side at about this price.
    Enter { side: Side, price: Dec, size: Dec },
}

/// The price by which adding to a side is judged.
pub open spec fn stack_price(book: Orderbook, side: Side) -> Dec {
    match side {
        Side::Up => match book.up_best_ask {
            Some(a) => a,
            None => Dec::of(5, 1),
        },
        Side::Down => match book.down_best_ask {
            Some(a) => a,
            None => Dec::of(5, 1),
        },
    }
}

/// Whether adding to a side is refused, as its price has risen by more than five
/// cents over the best entry; nothing where the limit cannot be computed.
pub open spec fn stack_refused(positions: Seq<Position>, book: Orderbook, side: Side) -> Option<
    bool,
> {
    match best_entry(positions, side) {
        Some(best) => match best.spec_plus(Dec::of(5, 2)) {
            Some(limit) => Some(stack_price(book, side)@ > limit@),
            None => None,
        },
        None => Some(false),
    }
}

/// Whether the pause after the third position still lasts.
pub open spec fn pausing(last_third_ms: Option<u64>, now_ms: u64) -> bool {
    match last_third_ms {
        Some(t) => held(t, now_ms) < THIRD_POSITION_PAUSE_MS,
        None => false,
    }
}

/// Whether an entry of the other side was too short a time ago.
pub open spec fn direction_cooling(
    last_side: Option<Side>,
    last_ms: Option<u64>,
    cooldown_ms: u64,
    side: Side,
    now_ms: u64,
) -> bool {
    match (last_side, last_ms) {
        (Some(s), Some(t)) => s != side && held(t, now_ms) < cooldown_ms,
        _ => false,
    }
}

/// Whether a side has had its share, one half, of the trades of the market.
pub open spec fn side_exhausted(max_trades: u32, t: Tally, side: Side) -> bool {
    let share = max_trades / 2;
    let count = match side {
        Side::Up => t.up_trade_count,
        Side::Down => t.down_trade_count,
    };
    count >= share
}

/// What becomes of a signal for a side, before price and models are looked at.
pub open spec fn early_decision(s: SharedState, side: Side, now_ms: u64) -> Option<EntryDecision> {
    if count_where(s.positions@, is_momentum()) >= MAX_PER_TYPE {
        Some(EntryDecision::Blocked(BlockReason::MaxPositions))
    } else {
        match stack_refused(s.positions@, s.orderbook, side) {
            None => Some(EntryDecision::Uncomputable),
            Some(true) => Some(EntryDecision::Blocked(BlockReason::PriceOutOfRange)),
            Some(false) => if pausing(s.last_third_ms, now_ms) {
                Some(EntryDecision::Pausing)
            } else {
                None
            },
        }
    }
}

/// What becomes of a signal for a side that has passed the pause.
pub open spec fn late_decision(s: SharedState, side: Side, reading: Reading, now_ms: u64) -> EntryDecision {
    if direction_cooling(
        s.last_entry_side,
        s.last_entry_ms,
        s.direction_cooldown_ms,
        side,
        now_ms,
    ) {
        EntryDecision::Blocked(BlockReason::DirectionCooldown)
    } else if side_exhausted(s.max_trades, s.tally, side) {
        EntryDecision::Blocked(BlockReason::MaxTradesReached)
    } else {
        match entry_quote(s.orderbook, side) {
            PriceQuote::Overflow => EntryDecision::Uncomputable,
            PriceQuote::Missing => EntryDecision::Blocked(BlockReason::PriceOutOfRange),
            PriceQuote::At(price) => if price@ < cents(5) || price@ > cents(95) {
                EntryDecision::Blocked(BlockReason::PriceOutOfRange)
            } else if reading.vol_too_low {
                EntryDecision::Filtered
            } else if reading.z_extreme {
                EntryDecision::Extreme
            } else {
                match entry_size(s.position_size, price, reading) {
                    Some(size) => EntryDecision::Enter { side, price, size },
                    None => EntryDecision::Uncomputable,
                }
            },
        }
    }
}

/// What becomes of a signal for a side.
pub open spec fn entry_decision(s: SharedState, side: Side, reading: Reading, now_ms: u64) -> EntryDecision {
    match early_decision(s, side, now_ms) {
        Some(d) => d,
        None => late_decision(s, side, reading, now_ms),
    }
}

/// The reason shown after a decision; one that gives none leaves what was shown.
pub open spec fn reason_after(d: EntryDecision, before: BlockReason) -> BlockReason {
    match d {
        EntryDecision::Blocked(reason) => reason,
        EntryDecision::Filtered => BlockReason::MLFiltered,
        EntryDecision::Extreme => BlockReason::MLFiltered,
        EntryDecision::Enter { .. } => BlockReason::Ready,
        _ => before,
    }
}

/// The price of a side that is remembered with a big move: its ask, or its bid
/// where there is no ask.
pub open spec fn side_price(book: Orderbook, side: Side) -> Option<Dec> {
    match side {
        Side::Up => if book.up_best_ask is Some {
            book.up_best_ask
        } else {
            book.up_best_bid
        },
        Side::Down => if book.down_best_ask is Some {
            book.down_best_ask
        } else {
            book.down_best_bid
        },
    }
}

/// The state without a big move that lies too far back.
pub open spec fn without_old_move(s: SharedState, now_ms: u64) -> SharedState {
    if s.last_big_move_ms is Some && held(s.last_big_move_ms->0, now_ms) > BIG_MOVE_MEMORY_MS {
        SharedState {
            last_big_move_ms: None,
            last_big_move_side: None,
            last_big_move_price: None,
            reversal_traded: false,
            ..s
        }
    } else {
        s
    }
}

/// The state after a signal for a side was judged.
pub open spec fn after_signal(s: SharedState, side: Side, reading: Reading, now_ms: u64) -> SharedState {
    let decision = entry_decision(s, side, reading, now_ms);
    SharedState {
        momentum_signals: (s.momentum_signals + 1) as u32,
        last_big_move_ms: Some(now_ms),
        last_big_move_side: Some(side),
        last_big_move_price: side_price(s.orderbook, side),
        reversal_traded: false,
        last_third_ms: if early_decision(s, side, now_ms) is None {
            None
        } else {
            s.last_third_ms
        },
        ml_filtered_count: if decision is Filtered {
            (s.ml_filtered_count + 1) as u32
        } else {
            s.ml_filtered_count
        },
        block_reason: reason_after(decision, s.block_reason),
        ..s
    }
}

/// The state in which an entry is looked for.
pub open spec fn before_entry(s: SharedState, now_ms: u64) -> SharedState {
    SharedState {
        board: if s.board.ready {
            empty_board()
        } else {
            s.board
        },
        ticks: recounted(s.ticks),
        ..without_old_move(s, now_ms)
    }
}

impl SharedState {
    /// Decides what becomes of a signal before price and models are looked at.
    fn decide_early(&self, side: Side, now_ms: u64) -> (r: Option<EntryDecision>)
        ensures
            r == early_decision(*self, side, now_ms),
    {
        if count_momentum(&self.positions) >= MAX_PER_TYPE {
            return Some(EntryDecision::Blocked(BlockReason::MaxPositions));
        }
        if let Some(best) = lowest_entry(&self.positions, side) {
            let ask = match side {
                Side::Up => self.orderbook.up_best_ask,
                Side::Down => self.orderbook.down_best_ask,
            };
            let current = match ask {
                Some(a) => a,
                None => Dec::new(5, 1),
            };
            match best.plus(Dec::new(5, 2)) {
                Some(limit) => {
                    if limit.lt(current) {
                        return Some(EntryDecision::Blocked(BlockReason::PriceOutOfRange));
                    }
                },
                None => {
                    return Some(EntryDecision::Uncomputable);
                },
            }
        }
        if let Some(t) = self.last_third_ms {
            if now_ms <= t || now_ms - t < THIRD_POSITION_PAUSE_MS {
                return Some(EntryDecision::Pausing);
            }
        }
        None
    }

    /// Decides what becomes of a signal that has passed the pause.
    fn decide_late(&self, side: Side, reading: &Reading, now_ms: u64) -> (r: EntryDecision)
        ensures
            r == late_decision(*self, side, *reading, now_ms),
    {
        if let (Some(last_side), Some(last_ms)) = (self.last_entry_side, self.last_entry_ms) {
            if last_side != side {
                let elapsed: u64 = if now_ms > last_ms {
                    now_ms - last_ms
                } else {
                    0
                };
                if elapsed < self.direction_cooldown_ms {
                    return EntryDecision::Blocked(BlockReason::DirectionCooldown);
                }
            }
        }
        let share: u32 = self.max_trades / 2;
        let count: u32 = match side {
            Side::Up => self.tally.up_trade_count,
            Side::Down => self.tally.down_trade_count,
        };
        if count >= share {
            return EntryDecision::Blocked(BlockReason::MaxTradesReached);
        }
        let price = match quote_entry(&self.orderbook, side) {
            PriceQuote::Overflow => {
                return EntryDecision::Uncomputable;
            },
            PriceQuote::Missing => {
                return EntryDecision::Blocked(BlockReason::PriceOutOfRange);
            },
            PriceQuote::At(price) => price,
        };
        if price.lt(Dec::new(5, 2)) || Dec::new(95, 2).lt(price) {
            return EntryDecision::Blocked(BlockReason::PriceOutOfRange);
        }
        if reading.vol_too_low {
            return EntryDecision::Filtered;
        }
        if reading.z_extreme {
            return EntryDecision::Extreme;
        }
        match size_entry(self.position_size, price, reading) {
            Some(size) => EntryDecision::Enter { side, price, size },
            None => EntryDecision::Uncomputable,
        }
    }

    /// Forgets a big move that lies too far back.
    pub fn forget_old_move(&mut self, now_ms: u64)
        ensures
            *final(self) == without_old_move(*old(self), now_ms),
    {
        if let Some(t) = self.last_big_move_ms {
            if now_ms > t && now_ms - t > BIG_MOVE_MEMORY_MS {
                self.last_big_move_ms = None;
                self.last_big_move_side = None;
                self.last_big_move_price = None;
                self.reversal_traded = false;
            }
        }
    }

    /// Judges a signal for a side: remembers it as a big move, decides what
    /// becomes of it, and shows why nothing is entered.  A pause that is over is
    /// forgotten once it is asked about.
    pub fn judge_signal(&mut self, side: Side, reading: &Reading, now_ms: u64) -> (r: EntryDecision)
        requires
            old(self).momentum_signals < u32::MAX,
            old(self).ml_filtered_count < u32::MAX,
        ensures
            r == entry_decision(*old(self), side, *reading, now_ms),
            *final(self) == after_signal(*old(self), side, *reading, now_ms),
            final(self).momentum_signals == old(self).momentum_signals + 1,
            final(self).last_big_move_ms == Some(now_ms),
            final(self).last_big_move_side == Some(side),
            r matches EntryDecision::Enter { side: bought, .. } ==> bought == side
                && final(self).block_reason == BlockReason::Ready,
            r matches EntryDecision::Blocked(reason) ==> final(self).block_reason == reason,
            final(self).positions == old(self).positions,
            final(self).tally == old(self).tally,
            final(self).orderbook == old(self).orderbook,
    {
        let early = self.decide_early(side, now_ms);
        let decision = match early {
            Some(d) => d,
            None => self.decide_late(side, reading, now_ms),
        };
        self.momentum_signals += 1;
        self.last_big_move_ms = Some(now_ms);
        self.last_big_move_side = Some(side);
        self.last_big_move_price = match side {
            Side::Up => if self.orderbook.up_best_ask.is_some() {
                self.orderbook.up_best_ask
            } else {
                self.orderbook.up_best_bid
            },
            Side::Down => if self.orderbook.down_best_ask.is_some() {
                self.orderbook.down_best_ask
            } else {
                self.orderbook.down_best_bid
            },
        };
        self.reversal_traded = false;
        if early.is_none() {
            self.last_third_ms = None;
        }
        match decision {
            EntryDecision::Blocked(reason) => {
                self.block_reason = reason;
            },
            EntryDecision::Filtered => {
                self.ml_filtered_count += 1;
                self.block_reason = BlockReason::MLFiltered;
            },
            EntryDecision::Extreme => {
                self.block_reason = BlockReason::MLFiltered;
            },
            EntryDecision::Enter { .. } => {
                self.block_reason = BlockReason::Ready;
            },
            _ => {},
        }
        decision
    }

    /// Looks for an entry: forgets early signals that have become ready and big
    /// moves that lie too far back, counts the recent ticks, and judges the
    /// signal where there is one.
    pub fn consider_entry(&mut self, reading: &Reading, now_ms: u64) -> (r: Option<EntryDecision>)
        requires
            old(self).momentum_signals < u32::MAX,
            old(self).ml_filtered_count < u32::MAX,
        ensures
            ({
                let s = before_entry(*old(self), now_ms);
                match signal_side(
                    *reading,
                    net_direction(recent_directions(s.ticks.directions@)),
                    s.tick_threshold,
                ) {
                    Some(side) => r == Some(entry_decision(s, side, *reading, now_ms))
                        && *final(self) == after_signal(s, side, *reading, now_ms),
                    None => r is None && *final(self) == (SharedState {
                        block_reason: BlockReason::NoMomentum,
                        ..s
                    }),
                }
            }),
    {
        self.board.clear_ready();
        proof {
            law_recent_counts_are_small(self.ticks.directions@);
        }
        self.ticks.recount();
        self.forget_old_move(now_ms);
        proof {
            assert(*self == before_entry(*old(self), now_ms));
        }
        match entry_signal(reading, self.ticks.net_ticks(), self.tick_threshold) {
            Some(side) => Some(self.judge_signal(side, reading, now_ms)),
            None => {
                self.block_reason = BlockReason::NoMomentum;
                None
            },
        }
    }
}

// ---------------------------------------------------------------------------
// Stages of a tick
// ---------------------------------------------------------------------------

/// How far a tick gets, with the seconds until the market closes.
#[derive(Clone, Copy, Debug, PartialEq, Eq, Structural)]
pub enum TickStage {
    /// There is no market.
    NoMarket,
    /// The market closes soon: nothing is entered.
    Closing(i64),
    /// The market is about to close: everything is left.
    ForcedExit(i64),
    /// The market is open.
    Trading(i64),
}

/// How far a tick gets.
pub open spec fn stage_at(s: SharedState, now: i64) -> TickStage {
    match s.market {
        None => TickStage::NoMarket,
        Some(m) => {
            let left = seconds_to_close(m.interval_start as int, now as int) as i64;
            if left > NO_ENTRY_SECS {
                TickStage::Trading(left)
            } else if left <= FORCED_EXIT_SECS && s.positions@.len() > 0 {
                TickStage::ForcedExit(left)
            } else {
                TickStage::Closing(left)
            }
        },
    }
}

/// What the book allows.
#[derive(Clone, Copy, Debug, PartialEq, Eq, Structural)]
pub enum BookCheck {
    /// It has not been updated for too long.
    Stale,
    /// Its prices contradict each other.
    Insane,
    /// It can be traded on.
    Good,
}

impl SharedState {
    /// Begins a tick: decides how far it gets, and shows why nothing is entered
    /// where it does not get to trading.
    pub fn open_tick(&mut self, now: i64) -> (r: TickStage)
        requires
            old(self).market matches Some(m) ==> m.interval_start + MARKET_WINDOW_SECS <= i64::MAX
                && i64::MIN <= seconds_to_close(m.interval_start as int, now as int) <= i64::MAX,
        ensures
            r == stage_at(*old(self), now),
            *final(self) == (SharedState {
                block_reason: match r {
                    TickStage::NoMarket => BlockReason::NoMarket,
                    TickStage::Trading(_) => old(self).block_reason,
                    _ => BlockReason::MarketClosing,
                },
                ..*old(self)
            }),
    {
        let left: i64 = match &self.market {
            Some(m) => seconds_until_close(m.interval_start, now),
            None => {
                self.block_reason = BlockReason::NoMarket;
                return TickStage::NoMarket;
            },
        };
        if left > NO_ENTRY_SECS {
            return TickStage::Trading(left);
        }
        self.block_reason = BlockReason::MarketClosing;
        if left <= FORCED_EXIT_SECS && self.positions.len() > 0 {
            TickStage::ForcedExit(left)
        } else {
            TickStage::Closing(left)
        }
    }

    /// Checks the book before anything is decided on it.  One whose prices
    /// contradict each other loses them, until newer ones come.
    pub fn check_book(&mut self, now_ms: u64) -> (r: BookCheck)
        ensures
            r == (match old(self).orderbook.last_update_ms {
                Some(t) => if now_ms > t + BOOK_MAX_AGE_MS {
                    BookCheck::Stale
                } else if old(self).orderbook.spec_is_sane() {
                    BookCheck::Good
                } else {
                    BookCheck::Insane
                },
                None => BookCheck::Stale,
            }),
            *final(self) == (SharedState {
                block_reason: if r == BookCheck::Good {
                    old(self).block_reason
                } else {
                    BlockReason::OrderbookStale
                },
                orderbook: if r == BookCheck::Insane {
                    Orderbook {
                        up_best_bid: None,
                        up_best_ask: None,
                        down_best_bid: None,
                        down_best_ask: None,
                        ..old(self).orderbook
                    }
                } else {
                    old(self).orderbook
                },
                ..*old(self)
            }),
    {
        if self.orderbook.is_stale(now_ms) {
            self.block_reason = BlockReason::OrderbookStale;
            return BookCheck::Stale;
        }
        if !self.orderbook.is_sane() {
            self.orderbook.clear_best_prices();
            self.block_reason = BlockReason::OrderbookStale;
            return BookCheck::Insane;
        }
        BookCheck::Good
    }
}

// ---------------------------------------------------------------------------
// Laws
// ---------------------------------------------------------------------------

/// Every entry is at a price between 5 and 95 cents, within the limits on open
/// positions and on trades per side, outside every pause, and with models that
/// allow it.
pub proof fn law_entries_respect_all_limits(s: SharedState, side: Side, reading: Reading, now_ms: u64)
    requires
        entry_decision(s, side, reading, now_ms) is Enter,
    ensures
        cents(5) <= entry_decision(s, side, reading, now_ms)->price@ <= cents(95),
        entry_decision(s, side, reading, now_ms)->side == side,
        count_where(s.positions@, is_momentum()) < MAX_PER_TYPE,
        !pausing(s.last_third_ms, now_ms),
        !side_exhausted(s.max_trades, s.tally, side),
        !direction_cooling(
            s.last_entry_side,
            s.last_entry_ms,
            s.direction_cooldown_ms,
            side,
            now_ms,
        ),
        !reading.vol_too_low,
        !reading.z_extreme,
{
}

/// Before the timeout and away from the close, no position is left before its
/// minimum hold.
pub proof fn law_minimum_hold(
    side: Side,
    hold_ms: int,
    seconds_left: int,
    min_hold_ms: u64,
    hold_timeout_ms: u64,
    reading: Reading,
)
    requires
        hold_ms < min_hold_ms,
        hold_ms < hold_timeout_ms,
        seconds_left > CLOSE_BUFFER_SECS,
    ensures
        leave_reason(side, hold_ms, seconds_left, min_hold_ms, hold_timeout_ms, reading) is None,
{
}

/// A position is always left at its timeout, and before the market closes.
pub proof fn law_timeout_always_leaves(
    side: Side,
    hold_ms: int,
    seconds_left: int,
    min_hold_ms: u64,
    hold_timeout_ms: u64,
    reading: Reading,
)
    requires
        hold_ms >= hold_timeout_ms || seconds_left <= CLOSE_BUFFER_SECS,
    ensures
        leave_reason(side, hold_ms, seconds_left, min_hold_ms, hold_timeout_ms, reading) is Some,
{
}

/// A signal needs a displacement and as many net ticks of the same side as the
/// threshold asks for.
pub proof fn law_signal_needs_agreement(reading: Reading, net_ticks: int, threshold: usize)
    ensures
        signal_side(reading, net_ticks, threshold) == Some(Side::Up) ==> reading.z_enters_up
            && net_ticks >= threshold,
        signal_side(reading, net_ticks, threshold) == Some(Side::Down) ==> reading.z_enters_down
            && net_ticks <= -threshold,
{
}

/// Whether the entries of a session are within its limit: half of it on each
/// side.
pub open spec fn session_within(max_trades: u32, t: Tally) -> bool {
    t.up_trade_count <= max_trades / 2 && t.down_trade_count <= max_trades / 2
}

/// The tallies of a session: it begins without entries, and each further tally
/// is the one before it after an entry that was decided on.
pub open spec fn is_session(
    max_trades: u32,
    states: Seq<SharedState>,
    readings: Seq<(Reading, u64)>,
    tallies: Seq<Tally>,
) -> bool {
    &&& tallies.len() == states.len() + 1
    &&& readings.len() == states.len()
    &&& tallies[0].up_trade_count == 0
    &&& tallies[0].down_trade_count == 0
    &&& forall|i: int|
        0 <= i < states.len() ==> (#[trigger] states[i]).max_trades == max_trades && states[i].tally
            == tallies[i] && session_step(states[i], readings[i].0, readings[i].1, tallies[i + 1])
}

/// Whether a tally is the one after a state: an entry that was decided on there
/// has been counted, or none has.
pub open spec fn session_step(s: SharedState, reading: Reading, now_ms: u64, after: Tally) -> bool {
    let counts = (after.up_trade_count, after.down_trade_count);
    ||| counts == (s.tally.up_trade_count, s.tally.down_trade_count)
    ||| exists|side: Side|
        (#[trigger] entry_decision(s, side, reading, now_ms)) is Enter && exists|size: Dec|
            Some(after) == #[trigger] tally_after_entry(s.tally, side, size)
}

/// In a session at most as many entries are made as its limit says, and at most
/// half of them on each side.
pub proof fn law_session_trades_are_limited(
    max_trades: u32,
    states: Seq<SharedState>,
    readings: Seq<(Reading, u64)>,
    tallies: Seq<Tally>,
    i: int,
)
    requires
        is_session(max_trades, states, readings, tallies),
        0 <= i < tallies.len(),
    ensures
        session_within(max_trades, tallies[i]),
        tallies[i].up_trade_count + tallies[i].down_trade_count <= max_trades,
    decreases i,
{
    if i > 0 {
        law_session_trades_are_limited(max_trades, states, readings, tallies, i - 1);
        let s = states[i - 1];
        assert(session_step(s, readings[i - 1].0, readings[i - 1].1, tallies[i]));
    }
}

/// A token is never quoted above its ask, where it has one.
pub proof fn law_quote_is_not_above_ask(book: Orderbook, side: Side)
    ensures
        entry_quote(book, side) matches PriceQuote::At(price) ==> (match side {
            Side::Up => book.up_best_ask matches Some(a) ==> price@ <= a@,
            Side::Down => book.down_best_ask matches Some(a) ==> price@ <= a@,
        }),
{
}

/// Whether the position at `i` is the first of the cheapest ones of a side.
pub open spec fn is_first_cheapest(positions: Seq<Position>, side: Side, i: int) -> bool {
    &&& 0 <= i < positions.len()
    &&& positions[i].side == side
    &&& forall|j: int|
        0 <= j < positions.len() && (#[trigger] positions[j]).side == side
            ==> positions[i].entry_price@ <= positions[j].entry_price@ && (j < i
            ==> positions[i].entry_price@ < positions[j].entry_price@)
}

/// The best entry of a side is the entry price of the first of its cheapest
/// positions; a side without positions has none.
pub proof fn law_best_entry_is_the_cheapest(positions: Seq<Position>, side: Side)
    ensures
        best_entry(positions, side) is None <==> forall|i: int|
            0 <= i < positions.len() ==> (#[trigger] positions[i]).side != side,
        best_entry(positions, side) matches Some(best) ==> exists|i: int| #[trigger]
            is_first_cheapest(positions, side, i) && positions[i].entry_price == best,
    decreases positions.len(),
{
    if positions.len() > 0 {
        let before = positions.drop_last();
        let n = positions.len() - 1;
        law_best_entry_is_the_cheapest(before, side);
        assert(positions.last() == positions[n]);
        assert forall|j: int| 0 <= j < n implies #[trigger] before[j] == positions[j] by {}
        if best_entry(before, side) is Some {
            let k = choose|k: int| #[trigger]
                is_first_cheapest(before, side, k) && before[k].entry_price == best_entry(
                    before,
                    side,
                )->0;
            assert(positions[k] == before[k]);
            if positions.last().side == side && positions.last().entry_price@
                < before[k].entry_price@ {
                assert forall|j: int|
                    0 <= j < positions.len() && (#[trigger] positions[j]).side == side implies
                    positions[n].entry_price@ <= positions[j].entry_price@ && (j < n
                    ==> positions[n].entry_price@ < positions[j].entry_price@) by {
                    if j < n {
                        assert(before[j] == positions[j]);
                    }
                }
                assert(is_first_cheapest(positions, side, n));
            } else {
                assert forall|j: int|
                    0 <= j < positions.len() && (#[trigger] positions[j]).side == side implies
                    positions[k].entry_price@ <= positions[j].entry_price@ && (j < k
                    ==> positions[k].entry_price@ < positions[j].entry_price@) by {
                    if j < n {
                        assert(before[j] == positions[j]);
                    }
                }
                assert(is_first_cheapest(positions, side, k));
            }
        } else if positions.last().side == side {
            assert forall|j: int|
                0 <= j < positions.len() && (#[trigger] positions[j]).side == side implies
                positions[n].entry_price@ <= positions[j].entry_price@ && (j < n
                ==> positions[n].entry_price@ < positions[j].entry_price@) by {
                if j < n {
                    assert(before[j] == positions[j]);
                }
            }
            assert(is_first_cheapest(positions, side, n));
        } else {
            assert forall|i: int| 0 <= i < positions.len() implies (#[trigger] positions[i]).side
                != side by {
                if i < n {
                    assert(before[i] == positions[i]);
                }
            }
        }
    }
}

/// Two positions of which one is the first of the cheapest are the same one.
proof fn lemma_first_cheapest_is_one(positions: Seq<Position>, side: Side, i: int, j: int)
    requires
        is_first_cheapest(positions, side, i),
        is_first_cheapest(positions, side, j),
    ensures
        i == j,
{
    assert(positions[i].side == side);
    assert(positions[j].side == side);
}

/// Entries are complete, for up and down alike.  A side is entered, at its quote
/// and with its size, wherever fewer than five positions were entered on momentum,
/// the side has no position or has not become more than five cents dearer than
/// the cheapest of them, the pause of 7.5 seconds after a third position is over,
/// no entry of the other side lies within the cooldown, the side has had less
/// than half of the trades, the quote lies between 5 and 95 cents, the models
/// refuse nothing, and the size can be computed.
pub proof fn law_unhindered_signal_enters(
    s: SharedState,
    side: Side,
    reading: Reading,
    now_ms: u64,
    price: Dec,
    size: Dec,
    i: int,
    limit: Dec,
)
    requires
        count_where(s.positions@, |p: Position| !p.is_reversal && !p.is_safe_entry) < 5,
        (forall|k: int|
            0 <= k < s.positions@.len() ==> (#[trigger] s.positions@[k]).side != side) || ({
            &&& is_first_cheapest(s.positions@, side, i)
            &&& s.positions@[i].entry_price.spec_plus(Dec::of(5, 2)) == Some(limit)
            &&& match (side, s.orderbook.up_best_ask, s.orderbook.down_best_ask) {
                (Side::Up, Some(ask), _) => ask@ <= limit@,
                (Side::Down, _, Some(ask)) => ask@ <= limit@,
                _ => Dec::of(5, 1)@ <= limit@,
            }
        }),
        s.last_third_ms matches Some(t) ==> now_ms >= t + 7500,
        s.last_entry_side is Some && s.last_entry_ms is Some && s.last_entry_side != Some(side)
            ==> now_ms >= s.last_entry_ms->0 + s.direction_cooldown_ms || s.direction_cooldown_ms
            == 0,
        side == Side::Up ==> s.tally.up_trade_count < s.max_trades / 2,
        side == Side::Down ==> s.tally.down_trade_count < s.max_trades / 2,
        entry_quote(s.orderbook, side) == PriceQuote::At(price),
        cents(5) <= price@ <= cents(95),
        !reading.vol_too_low,
        !reading.z_extreme,
        entry_size(s.position_size, price, reading) == Some(size),
    ensures
        entry_decision(s, side, reading, now_ms) == (EntryDecision::Enter { side, price, size }),
        after_signal(s, side, reading, now_ms).block_reason == BlockReason::Ready,
{
    assert((|p: Position| !p.is_reversal && !p.is_safe_entry) =~= is_momentum());
    law_best_entry_is_the_cheapest(s.positions@, side);
    if best_entry(s.positions@, side) is Some {
        let best = best_entry(s.positions@, side)->0;
        let k = choose|k: int| #[trigger]
            is_first_cheapest(s.positions@, side, k) && s.positions@[k].entry_price == best;
        assert(s.positions@[k].side == side);
        lemma_first_cheapest_is_one(s.positions@, side, i, k);
    }
}

/// A signal is refused only for cause, and the cause is the one that is shown: a
/// cooldown for an entry of the other side made less than the cooldown ago, full
/// positions for five of them, a reached limit for a side that has had half of
/// the trades, a pause for a third position less than 7.5 seconds ago, and the
/// models for what they say.
pub proof fn law_refusals_have_their_cause(s: SharedState, side: Side, reading: Reading, now_ms: u64)
    ensures
        ({
            let d = entry_decision(s, side, reading, now_ms);
            &&& d == EntryDecision::Blocked(BlockReason::DirectionCooldown) ==> s.last_entry_side
                is Some && s.last_entry_side != Some(side) && s.last_entry_ms is Some && now_ms
                < s.last_entry_ms->0 + s.direction_cooldown_ms
            &&& d == EntryDecision::Blocked(BlockReason::MaxPositions) <==> count_where(
                s.positions@,
                |p: Position| !p.is_reversal && !p.is_safe_entry,
            ) >= 5
            &&& d == EntryDecision::Blocked(BlockReason::MaxTradesReached) && side == Side::Up
                ==> s.tally.up_trade_count >= s.max_trades / 2
            &&& d == EntryDecision::Blocked(BlockReason::MaxTradesReached) && side == Side::Down
                ==> s.tally.down_trade_count >= s.max_trades / 2
            &&& d is Pausing ==> s.last_third_ms is Some && now_ms < s.last_third_ms->0 + 7500
            &&& d is Filtered ==> reading.vol_too_low
            &&& d is Extreme ==> reading.z_extreme
            &&& d == EntryDecision::Blocked(BlockReason::PriceOutOfRange) ==> s.positions@.len() > 0
                || entry_quote(s.orderbook, side) is Missing || (entry_quote(
                s.orderbook,
                side,
            ) matches PriceQuote::At(price) && (price@ < cents(5) || price@ > cents(95)))
            &&& d matches EntryDecision::Blocked(reason) ==> reason
                == BlockReason::DirectionCooldown || reason == BlockReason::MaxPositions || reason
                == BlockReason::MaxTradesReached || reason == BlockReason::PriceOutOfRange
        }),
{
    assert((|p: Position| !p.is_reversal && !p.is_safe_entry) =~= is_momentum());
    law_best_entry_is_the_cheapest(s.positions@, side);
}

/// An entry of the other side within the cooldown, a side that has had half of
/// the trades, five positions, and a pause all keep a signal from being entered.
pub proof fn law_limits_stop_entries(s: SharedState, side: Side, reading: Reading, now_ms: u64)
    requires
        ({
            ||| count_where(s.positions@, |p: Position| !p.is_reversal && !p.is_safe_entry) >= 5
            ||| s.last_third_ms is Some && now_ms < s.last_third_ms->0 + 7500
            ||| s.last_entry_side is Some && s.last_entry_side != Some(side) && s.last_entry_ms
                is Some && now_ms < s.last_entry_ms->0 + s.direction_cooldown_ms
                && s.direction_cooldown_ms > 0
            ||| side == Side::Up && s.tally.up_trade_count >= s.max_trades / 2
            ||| side == Side::Down && s.tally.down_trade_count >= s.max_trades / 2
            ||| reading.vol_too_low
            ||| reading.z_extreme
            ||| entry_quote(s.orderbook, side) is Missing
            ||| entry_quote(s.orderbook, side) matches PriceQuote::At(price) && price@ < cents(5)
            ||| entry_quote(s.orderbook, side) matches PriceQuote::At(price) && price@ > cents(95)
        }),
    ensures
        !(entry_decision(s, side, reading, now_ms) is Enter),
{
    assert((|p: Position| !p.is_reversal && !p.is_safe_entry) =~= is_momentum());
}

/// Adding to a side that has become more than five cents dearer than its best
/// entry is refused; a side without an ask counts as 50 cents.
pub proof fn law_no_adding_to_a_dearer_side(
    s: SharedState,
    side: Side,
    reading: Reading,
    now_ms: u64,
    i: int,
    limit: Dec,
)
    requires
        is_first_cheapest(s.positions@, side, i),
        s.positions@[i].entry_price.spec_plus(Dec::of(5, 2)) == Some(limit),
        match (side, s.orderbook.up_best_ask, s.orderbook.down_best_ask) {
            (Side::Up, Some(ask), _) => ask@ > limit@,
            (Side::Down, _, Some(ask)) => ask@ > limit@,
            _ => Dec::of(5, 1)@ > limit@,
        },
    ensures
        entry_decision(s, side, reading, now_ms) == EntryDecision::Blocked(
            BlockReason::PriceOutOfRange,
        ) || entry_decision(s, side, reading, now_ms) == EntryDecision::Blocked(
            BlockReason::MaxPositions,
        ),
{
    law_best_entry_is_the_cheapest(s.positions@, side);
    assert(s.positions@[i].side == side);
    let best = best_entry(s.positions@, side)->0;
    let k = choose|k: int| #[trigger]
        is_first_cheapest(s.positions@, side, k) && s.positions@[k].entry_price == best;
    lemma_first_cheapest_is_one(s.positions@, side, i, k);
}

/// A token is quoted at the lower of its own ask and of what the bid of the other
/// token leaves of one; at the one there is where the other is missing, and not
/// at all where both are.
pub proof fn law_quote_is_the_lower_of_two(book: Orderbook)
    ensures
        book.up_best_ask is None && book.down_best_bid is None ==> entry_quote(book, Side::Up)
            is Missing,
        book.down_best_ask is None && book.up_best_bid is None ==> entry_quote(book, Side::Down)
            is Missing,
        book.down_best_bid is None ==> (book.up_best_ask matches Some(a) ==> entry_quote(
            book,
            Side::Up,
        ) == PriceQuote::At(a)),
        book.up_best_bid is None ==> (book.down_best_ask matches Some(a) ==> entry_quote(
            book,
            Side::Down,
        ) == PriceQuote::At(a)),
        forall|b: Dec, implied: Dec|
            book.down_best_bid == Some(b) && #[trigger] Dec::of(1, 0).spec_minus(b) == Some(implied)
                ==> entry_quote(book, Side::Up) == PriceQuote::At(
                if book.up_best_ask is Some && book.up_best_ask->0@ <= (#[trigger] implied@) {
                    book.up_best_ask->0
                } else {
                    implied
                },
            ),
        forall|b: Dec, implied: Dec|
            book.up_best_bid == Some(b) && #[trigger] Dec::of(1, 0).spec_minus(b) == Some(implied)
                ==> entry_quote(book, Side::Down) == PriceQuote::At(
                if book.down_best_ask is Some && book.down_best_ask->0@ <= (#[trigger] implied@) {
                    book.down_best_ask->0
                } else {
                    implied
                },
            ),
        entry_quote(book, Side::Up) is Overflow ==> book.down_best_bid is Some && Dec::of(
            1,
            0,
        ).spec_minus(book.down_best_bid->0) is None,
        entry_quote(book, Side::Down) is Overflow ==> book.up_best_bid is Some && Dec::of(
            1,
            0,
        ).spec_minus(book.up_best_bid->0) is None,
{
}

/// The size of an entry is the set size; one and a half of it where either the
/// price lies between 30 and 50 cents or displacement and volatility are good,
/// and twice where both hold.
pub proof fn law_entry_size_grows_with_the_odds(base: Dec, price: Dec, reading: Reading)
    ensures
        cents(30) <= price@ <= cents(50) && reading.z_optimal && reading.vol_good ==> entry_size(
            base,
            price,
            reading,
        ) == base.spec_times(Dec::of(2, 0)),
        cents(30) <= price@ <= cents(50) && !(reading.z_optimal && reading.vol_good) ==> entry_size(
            base,
            price,
            reading,
        ) == base.spec_times(Dec::of(15, 1)),
        !(cents(30) <= price@ <= cents(50)) && reading.z_optimal && reading.vol_good ==> entry_size(
            base,
            price,
            reading,
        ) == base.spec_times(Dec::of(15, 1)),
        !(cents(30) <= price@ <= cents(50)) && !(reading.z_optimal && reading.vol_good)
            ==> entry_size(base, price, reading) == Some(base),
{
}

/// Displacement and ticks give a signal exactly where they agree: up for a
/// displacement that enters up and enough net ticks up, down for one that enters
/// down and enough net ticks down.
pub proof fn law_agreement_gives_a_signal(reading: Reading, net_ticks: int, threshold: usize)
    ensures
        reading.z_enters_up && net_ticks >= threshold ==> signal_side(
            reading,
            net_ticks,
            threshold,
        ) == Some(Side::Up),
        reading.z_enters_down && net_ticks <= -threshold && !(reading.z_enters_up && net_ticks
            >= threshold) ==> signal_side(reading, net_ticks, threshold) == Some(Side::Down),
        !(reading.z_enters_up && net_ticks >= threshold) && !(reading.z_enters_down && net_ticks
            <= -threshold) ==> signal_side(reading, net_ticks, threshold) is None,
{
}

/// When positions are left: in the last half minute of a market and at the
/// timeout always; before that only once the minimum hold is met, on a
/// displacement that has faded or a momentum that has flipped without the
/// displacement being with the position, or after more than half of the time that
/// is left, where that is more than a minute.
pub proof fn law_when_positions_are_left(
    side: Side,
    hold_ms: int,
    seconds_left: int,
    min_hold_ms: u64,
    hold_timeout_ms: u64,
    reading: Reading,
)
    ensures
        ({
            let r = leave_reason(side, hold_ms, seconds_left, min_hold_ms, hold_timeout_ms, reading);
            let open = seconds_left > 30 && hold_ms < hold_timeout_ms;
            let met = hold_ms >= min_hold_ms;
            let with_us = match side {
                Side::Up => reading.z_positive,
                Side::Down => reading.z_negative,
            };
            let late = seconds_left > 60 && hold_ms > 500 * seconds_left;
            &&& r == Some(LeaveReason::MarketClose) <==> seconds_left <= 30
            &&& r == Some(LeaveReason::Timeout) <==> seconds_left > 30 && hold_ms >= hold_timeout_ms
            &&& open && met && !with_us && reading.z_faded ==> r == Some(LeaveReason::MomentumFaded)
            &&& open && met && late ==> r is Some
            &&& open && met && !with_us && reading.momentum_flipped ==> r is Some
            &&& open && met && late && !reading.z_faded ==> r == Some(LeaveReason::TimeScaled)
            &&& open && met && late && reading.z_faded ==> r == Some(LeaveReason::MomentumFaded)
            &&& open && met && !late && !with_us && reading.momentum_flipped && !reading.z_faded ==> r
                == Some(LeaveReason::MomentumReversed)
            &&& open && with_us && !late ==> r is None
            &&& open && !late && !reading.z_faded && !reading.momentum_flipped ==> r is None
            &&& open && !met ==> r is None
        }),
{
}

/// Which positions are left, and which are overdue, goes by each position's own
/// side and entry: a position has been held since it was entered, and is overdue
/// after half a minute.
pub proof fn law_positions_leave_by_their_own_time(
    p: Position,
    i: int,
    now_ms: u64,
    seconds_left: int,
    min_hold_ms: u64,
    hold_timeout_ms: u64,
    reading: Reading,
)
    requires
        0 <= i <= usize::MAX,
        p.entry_ms <= now_ms,
    ensures
        ({
            let reason = leave_reason(
                p.side,
                now_ms - p.entry_ms,
                seconds_left,
                min_hold_ms,
                hold_timeout_ms,
                reading,
            );
            let left = leaving(now_ms, seconds_left, min_hold_ms, hold_timeout_ms, reading)(i, p);
            &&& reason is None ==> left is None
            &&& reason matches Some(why) ==> left == Some((i as usize, why))
        }),
        now_ms - p.entry_ms >= 30000 ==> overdue(now_ms)(i, p) == Some(i as usize),
        now_ms - p.entry_ms < 30000 ==> overdue(now_ms)(i, p) is None,
{
}

/// A position of a side is left at the ask of the other side.
pub proof fn law_exit_buys_the_other_side(book: Orderbook)
    ensures
        exit_ask(book, Side::Up) == book.down_best_ask,
        exit_ask(book, Side::Down) == book.up_best_ask,
{
}

/// A signal is remembered as a big move of its side, at the ask of the side or,
/// without one, at its bid; a pause that is over is forgotten, signals the models
/// refuse for low volatility are counted, and nothing else changes but the reason
/// shown.
pub proof fn law_signals_are_remembered(s: SharedState, side: Side, reading: Reading, now_ms: u64)
    requires
        s.momentum_signals < u32::MAX,
        s.ml_filtered_count < u32::MAX,
    ensures
        ({
            let after = after_signal(s, side, reading, now_ms);
            let d = entry_decision(s, side, reading, now_ms);
            &&& after.momentum_signals == s.momentum_signals + 1
            &&& after.last_big_move_ms == Some(now_ms)
            &&& after.last_big_move_side == Some(side)
            &&& !after.reversal_traded
            &&& side == Side::Up ==> after.last_big_move_price == (if s.orderbook.up_best_ask
                is Some {
                s.orderbook.up_best_ask
            } else {
                s.orderbook.up_best_bid
            })
            &&& side == Side::Down ==> after.last_big_move_price == (if s.orderbook.down_best_ask
                is Some {
                s.orderbook.down_best_ask
            } else {
                s.orderbook.down_best_bid
            })
            &&& d is Filtered ==> after.ml_filtered_count == s.ml_filtered_count + 1
            &&& !(d is Filtered) ==> after.ml_filtered_count == s.ml_filtered_count
            &&& d is Enter || d is Filtered || d is Extreme ==> after.last_third_ms is None
            &&& d is Pausing ==> after.last_third_ms == s.last_third_ms
            &&& after.last_third_ms is None || after.last_third_ms == s.last_third_ms
            &&& d matches EntryDecision::Blocked(reason) ==> after.block_reason == reason
            &&& d is Enter ==> after.block_reason == BlockReason::Ready
            &&& d is Filtered || d is Extreme ==> after.block_reason == BlockReason::MLFiltered
            &&& d is Pausing || d is Uncomputable ==> after.block_reason == s.block_reason
            &&& after == (SharedState {
                momentum_signals: after.momentum_signals,
                last_big_move_ms: after.last_big_move_ms,
                last_big_move_side: after.last_big_move_side,
                last_big_move_price: after.last_big_move_price,
                reversal_traded: after.reversal_traded,
                last_third_ms: after.last_third_ms,
                ml_filtered_count: after.ml_filtered_count,
                block_reason: after.block_reason,
                ..s
            })
        }),
{
}

/// A big move is forgotten once it lies more than twenty seconds back, and not
/// before; nothing else is forgotten with it.
pub proof fn law_big_moves_are_forgotten(s: SharedState, now_ms: u64)
    ensures
        s.last_big_move_ms is None ==> without_old_move(s, now_ms) == s,
        s.last_big_move_ms matches Some(t) ==> {
            &&& now_ms <= t + 20000 ==> without_old_move(s, now_ms) == s
            &&& now_ms > t + 20000 ==> without_old_move(s, now_ms) == (SharedState {
                last_big_move_ms: None,
                last_big_move_side: None,
                last_big_move_price: None,
                reversal_traded: false,
                ..s
            })
        },
{
}

/// Looking for an entry clears the signal board exactly where it has become ready,
/// counts the ticks anew, and leaves everything else but old moves alone.
pub proof fn law_looking_for_an_entry_changes_little(s: SharedState, now_ms: u64)
    ensures
        s.board.ready ==> before_entry(s, now_ms).board == empty_board(),
        !s.board.ready ==> before_entry(s, now_ms).board == s.board,
        before_entry(s, now_ms).ticks == recounted(s.ticks),
        before_entry(s, now_ms) == (SharedState {
            board: before_entry(s, now_ms).board,
            ticks: before_entry(s, now_ms).ticks,
            ..without_old_move(s, now_ms)
        }),
{
}

/// How far a tick gets: without a market nowhere; with more than fifteen seconds
/// to the close it trades; in the last five seconds open positions are forced
/// out; in between, and without positions, nothing is done.
pub proof fn law_stages_of_a_closing_market(s: SharedState, now: i64)
    requires
        s.market is Some,
        i64::MIN <= s.market->0.interval_start + 300 - now <= i64::MAX,
    ensures
        ({
            let left = s.market->0.interval_start + 300 - now;
            &&& left > 15 ==> stage_at(s, now) == TickStage::Trading(left as i64)
            &&& left <= 5 && s.positions@.len() > 0 ==> stage_at(s, now) == TickStage::ForcedExit(
                left as i64,
            )
            &&& left <= 15 && (left > 5 || s.positions@.len() == 0) ==> stage_at(s, now)
                == TickStage::Closing(left as i64)
        }),
{
}

/// Without a market a tick gets nowhere.
pub proof fn law_no_market_no_tick(s: SharedState, now: i64)
    ensures
        s.market is None <==> stage_at(s, now) is NoMarket,
{
}

/// A position counts as entered on momentum exactly where it is marked neither as
/// a reversal nor as a safe entry.
pub proof fn law_momentum_positions_have_no_mark(p: Position)
    ensures
        is_momentum()(p) <==> !p.is_reversal && !p.is_safe_entry,
{
}

} // verus!
