//! State and bookkeeping of the trading bot.
//!
//! The bot never sells: it leaves a position by buying the other token, so that
//! the shares of both sides bought over time have to match.

use crate::accounting::shares_of;
use crate::bot::Connection;
use crate::decimal::Dec;
use crate::market::BtcMarket;
use crate::orderbook::Orderbook;
use crate::side::Side;
use crate::signals::SignalBoard;
use crate::ticks::{PriceHistory, TickDirections};
use std::collections::VecDeque;
use vstd::prelude::*;

verus! {

/// How many trades are kept for display.
pub const TRADES_KEPT: usize = 20;

/// How many log lines are kept.
pub const BOT_LOG_LINES: usize = 100;

/// How a position was entered.
#[derive(Clone, Copy, Debug, PartialEq, Eq, Structural)]
pub enum EntryType {
    Momentum,
    SafeEntry,
    Reversal,
}

/// An open position.  The fields that end in `bits` hold floating-point numbers
/// by their bit patterns.
#[derive(Debug)]
pub struct Position {
    pub side: Side,
    pub entry_price: Dec,
    /// When it was entered, in milliseconds.
    pub entry_ms: u64,
    pub size: Dec,
    pub predicted_vol_bits: u32,
    pub is_safe_entry: bool,
    pub is_reversal: bool,
    /// What triggered the entry.
    pub trigger_exchange: String,
    pub direction_prob_raw_bits: u32,
    pub direction_prob_cal_bits: u32,
    /// Start of the market interval it was entered in.
    pub market_interval_start: i64,
    pub entry_z_bits: u64,
    pub displacement_bits: u64,
    pub elapsed_bits: u64,
    pub liq_count_bits: u64,
}

impl Position {
    /// How the position was entered.
    pub open spec fn spec_entry_type(self) -> EntryType {
        if self.is_reversal {
            EntryType::Reversal
        } else if self.is_safe_entry {
            EntryType::SafeEntry
        } else {
            EntryType::Momentum
        }
    }

    /// Tells how the position was entered.
    pub fn entry_type(&self) -> (r: EntryType)
        ensures
            r == self.spec_entry_type(),
    {
        if self.is_reversal {
            EntryType::Reversal
        } else if self.is_safe_entry {
            EntryType::SafeEntry
        } else {
            EntryType::Momentum
        }
    }

    /// A second value of the same position.
    pub fn duplicate(&self) -> (r: Position)
        ensures
            r == *self,
    {
        Position {
            side: self.side,
            entry_price: self.entry_price,
            entry_ms: self.entry_ms,
            size: self.size,
            predicted_vol_bits: self.predicted_vol_bits,
            is_safe_entry: self.is_safe_entry,
            is_reversal: self.is_reversal,
            trigger_exchange: self.trigger_exchange.clone(),
            direction_prob_raw_bits: self.direction_prob_raw_bits,
            direction_prob_cal_bits: self.direction_prob_cal_bits,
            market_interval_start: self.market_interval_start,
            entry_z_bits: self.entry_z_bits,
            displacement_bits: self.displacement_bits,
            elapsed_bits: self.elapsed_bits,
            liq_count_bits: self.liq_count_bits,
        }
    }

    /// How long the position has been held.
    pub fn held_ms(&self, now_ms: u64) -> (r: u64)
        ensures
            r == held(self.entry_ms, now_ms),
    {
        if now_ms > self.entry_ms {
            now_ms - self.entry_ms
        } else {
            0
        }
    }
}

/// Milliseconds from an entry to now; none where the entry lies ahead.
pub open spec fn held(entry_ms: u64, now_ms: u64) -> int {
    if now_ms > entry_ms {
        now_ms - entry_ms
    } else {
        0
    }
}

/// A completed trade.
#[derive(Debug)]
pub struct TradeRecord {
    /// When it was completed, in milliseconds since 1970.
    pub time_ms: i64,
    pub side: Side,
    pub entry_price: Dec,
    pub exit_price: Dec,
    /// Profit per share.
    pub pnl: Dec,
    pub hold_ms: u64,
    pub predicted_vol_bits: u32,
    pub size: Dec,
    pub entry_type: EntryType,
    pub trigger_exchange: String,
    pub z_bits: u64,
}

/// Why no trade is entered.
#[derive(Clone, Copy, Debug, PartialEq, Eq, Structural)]
pub enum BlockReason {
    Ready,
    NoMarket,
    MarketClosing,
    OrderbookStale,
    NotEnoughTicks,
    NoMomentum,
    PriceOutOfRange,
    MLFiltered,
    InPosition,
    MaxTradesReached,
    MaxPositions,
    DirectionCooldown,
}

impl BlockReason {
    /// The text shown for a reason.
    pub open spec fn spec_text(self) -> Seq<char> {
        match self {
            BlockReason::Ready => "Ready to trade"@,
            BlockReason::NoMarket => "No market discovered"@,
            BlockReason::MarketClosing => "Market closing (<15s)"@,
            BlockReason::OrderbookStale => "Orderbook stale (>5s)"@,
            BlockReason::NotEnoughTicks => "Not enough ticks"@,
            BlockReason::NoMomentum => "No momentum signal"@,
            BlockReason::PriceOutOfRange => "Price out of range"@,
            BlockReason::MLFiltered => "ML filtered (low volatility)"@,
            BlockReason::InPosition => "Already in position"@,
            BlockReason::MaxTradesReached => "Max trades reached"@,
            BlockReason::MaxPositions => "Max positions reached"@,
            BlockReason::DirectionCooldown => "Direction cooldown active"@,
        }
    }

    /// The text shown for this reason.
    pub fn to_text(self) -> (r: String)
        ensures
            r@ == self.spec_text(),
    {
        let text = match self {
            BlockReason::Ready => "Ready to trade",
            BlockReason::NoMarket => "No market discovered",
            BlockReason::MarketClosing => "Market closing (<15s)",
            BlockReason::OrderbookStale => "Orderbook stale (>5s)",
            BlockReason::NotEnoughTicks => "Not enough ticks",
            BlockReason::NoMomentum => "No momentum signal",
            BlockReason::PriceOutOfRange => "Price out of range",
            BlockReason::MLFiltered => "ML filtered (low volatility)",
            BlockReason::InPosition => "Already in position",
            BlockReason::MaxTradesReached => "Max trades reached",
            BlockReason::MaxPositions => "Max positions reached",
            BlockReason::DirectionCooldown => "Direction cooldown active",
        };
        text.to_owned()
    }
}

/// A trade whose market has not been decided yet: the bits of the probability it
/// was entered with, its market interval and its side.
#[derive(Clone, Copy, Debug, PartialEq, Eq, Structural)]
pub struct PendingSample {
    pub raw_prob_bits: u32,
    pub market_interval: i64,
    pub side: Side,
}

/// Counts and sums of the bot.
#[derive(Clone, Copy, Debug)]
pub struct Tally {
    pub total_pnl: Dec,
    pub trade_count: u32,
    pub win_count: u32,
    /// Shares of each side ever bought, for entries and for exits.
    pub up_shares_bought: Dec,
    pub down_shares_bought: Dec,
    pub up_entry_count: u32,
    pub down_entry_count: u32,
    pub up_exit_count: u32,
    pub down_exit_count: u32,
    pub failed_exit_count: u32,
    /// Entries of each side in the current market.
    pub up_trade_count: u32,
    pub down_trade_count: u32,
    /// Entries in the current market.
    pub session_trade_count: u32,
}

/// Everything the bot knows beside its floating-point models.
#[derive(Debug)]
pub struct SharedState {
    pub market: Option<BtcMarket>,
    pub orderbook: Orderbook,
    pub positions: Vec<Position>,
    pub tally: Tally,
    pub trades: VecDeque<TradeRecord>,
    /// When the third position was opened, while its cooldown may last.
    pub last_third_ms: Option<u64>,
    pub last_entry_side: Option<Side>,
    pub last_entry_ms: Option<u64>,
    pub direction_cooldown_ms: u64,
    pub ml_filtered_count: u32,
    pub momentum_signals: u32,
    pub block_reason: BlockReason,
    pub dry_run: bool,
    pub position_size: Dec,
    pub tick_threshold: usize,
    pub min_hold_ms: u64,
    pub hold_timeout_ms: u64,
    /// Trades that a session may have at most, whatever the wallet pays for.
    pub trade_limit: u32,
    /// Trades that the current session may have.
    pub max_trades: u32,
    pub wallet_balance: Dec,
    pub session_start: Option<i64>,
    pub last_market_trade_count: u32,
    pub pre_signed_up_ready: bool,
    pub pre_signed_down_ready: bool,
    pub last_big_move_ms: Option<u64>,
    pub last_big_move_side: Option<Side>,
    pub last_big_move_price: Option<Dec>,
    pub reversal_traded: bool,
    pub pending_calibration: Vec<PendingSample>,
    pub last_resolved_market: i64,
    pub ticks: TickDirections,
    pub board: SignalBoard,
    pub history: PriceHistory,
    pub btc_price: Dec,
    pub binance: Connection,
    pub polymarket: Connection,
    /// The last log lines, newest first.
    pub logs: VecDeque<String>,
    pub start_ms: u64,
}

// ---------------------------------------------------------------------------
// Sizes
// ---------------------------------------------------------------------------

/// The size of all positions of a side, as an exact number.
pub open spec fn open_size(positions: Seq<Position>, side: Side) -> int
    decreases positions.len(),
{
    if positions.len() == 0 {
        0
    } else {
        open_size(positions.drop_last(), side) + (if positions.last().side == side {
            positions.last().size@
        } else {
            0
        })
    }
}

/// The sum of the sizes of all positions of a side, added one after the other,
/// where it can be held.
pub open spec fn size_sum(positions: Seq<Position>, side: Side) -> Option<Dec>
    decreases positions.len(),
{
    if positions.len() == 0 {
        Some(Dec::of(0, 0))
    } else {
        match size_sum(positions.drop_last(), side) {
            Some(sum) => if positions.last().side == side {
                sum.spec_plus(positions.last().size)
            } else {
                Some(sum)
            },
            None => None,
        }
    }
}

/// Whether the sum of the sizes of a side needs no rounding at any step.
pub open spec fn size_sum_exact(positions: Seq<Position>, side: Side) -> bool
    decreases positions.len(),
{
    if positions.len() == 0 {
        true
    } else {
        &&& size_sum_exact(positions.drop_last(), side)
        &&& positions.last().side == side ==> size_sum(positions.drop_last(), side) is Some
            && size_sum(positions.drop_last(), side)->0.exact_with(positions.last().size)
    }
}

/// Adds up the sizes of all positions of a side.
pub fn sum_sizes(positions: &Vec<Position>, side: Side) -> (r: Option<Dec>)
    ensures
        r == size_sum(positions@, side),
        size_sum_exact(positions@, side) ==> r is Some && r->0@ == open_size(positions@, side),
{
    let mut sum: Option<Dec> = Some(Dec::zero());
    let mut i: usize = 0;
    proof {
        assert(positions@.take(0) =~= Seq::empty());
    }
    while i < positions.len()
        invariant
            i <= positions@.len(),
            sum == size_sum(positions@.take(i as int), side),
            size_sum_exact(positions@.take(i as int), side) ==> sum is Some && sum->0@
                == open_size(positions@.take(i as int), side),
        decreases positions@.len() - i,
    {
        let p = &positions[i];
        proof {
            assert(positions@.take(i + 1).drop_last() =~= positions@.take(i as int));
            assert(positions@.take(i + 1).last() == *p);
        }
        if p.side == side {
            sum = match sum {
                Some(s) => s.plus(p.size),
                None => None,
            };
        }
        i += 1;
    }
    proof {
        assert(positions@.take(i as int) =~= positions@);
    }
    sum
}

/// Whether the shares bought of the two sides differ by just what is open.
pub open spec fn shares_balanced(tally: Tally, positions: Seq<Position>) -> bool {
    tally.up_shares_bought@ - tally.down_shares_bought@ == open_size(positions, Side::Up)
        - open_size(positions, Side::Down)
}

/// Whether shares of one side were bought, and none of the other.
pub open spec fn shares_moved(before: Tally, after: Tally, side: Side, amount: int) -> bool {
    &&& shares_of(after, side)@ == shares_of(before, side)@ + amount
    &&& shares_of(after, side.spec_opposite())@ == shares_of(before, side.spec_opposite())@
}

/// Whether the position at `i` was left: it is gone, and the other token was
/// bought for it.
pub open spec fn left_at(before: SharedState, after: SharedState, i: int) -> bool {
    &&& 0 <= i < before.positions@.len()
    &&& after.positions@ == before.positions@.remove(i)
    &&& shares_moved(
        before.tally,
        after.tally,
        before.positions@[i].side.spec_opposite(),
        before.positions@[i].size@,
    )
}

/// Whether the positions of other markets than the given one were given up: for
/// each, the shares of the other side are taken as bought.
pub open spec fn gave_up_others(before: SharedState, after: SharedState, interval: i64) -> bool {
    let gone = of_market(before.positions@, interval, false);
    &&& after.positions@ == of_market(before.positions@, interval, true)
    &&& after.tally.down_shares_bought@ == before.tally.down_shares_bought@ + open_size(
        gone,
        Side::Up,
    )
    &&& after.tally.up_shares_bought@ == before.tally.up_shares_bought@ + open_size(
        gone,
        Side::Down,
    )
}

/// Whether all positions were given up.
pub open spec fn gave_up_all(before: SharedState, after: SharedState) -> bool {
    &&& after.positions@ == Seq::<Position>::empty()
    &&& after.tally.down_shares_bought@ == before.tally.down_shares_bought@ + open_size(
        before.positions@,
        Side::Up,
    )
    &&& after.tally.up_shares_bought@ == before.tally.up_shares_bought@ + open_size(
        before.positions@,
        Side::Down,
    )
}

/// Whether a position was entered.
pub open spec fn entered_one(before: SharedState, after: SharedState) -> bool {
    &&& after.positions@.len() == before.positions@.len() + 1
    &&& after.positions@.drop_last() == before.positions@
    &&& shares_moved(
        before.tally,
        after.tally,
        after.positions@.last().side,
        after.positions@.last().size@,
    )
}

/// Whether neither positions nor shares have changed.
pub open spec fn nothing_moved(before: SharedState, after: SharedState) -> bool {
    &&& after.positions@ == before.positions@
    &&& after.tally.up_shares_bought == before.tally.up_shares_bought
    &&& after.tally.down_shares_bought == before.tally.down_shares_bought
}

/// A step of the trading bot, seen from its positions and shares: it enters or
/// leaves a position, gives up positions, or does neither.
pub open spec fn share_step(before: SharedState, after: SharedState) -> bool {
    ||| nothing_moved(before, after)
    ||| entered_one(before, after)
    ||| exists|i: int| #[trigger] left_at(before, after, i)
    ||| exists|interval: i64| #[trigger] gave_up_others(before, after, interval)
    ||| gave_up_all(before, after)
}

/// Every step keeps the shares balanced.
pub proof fn law_steps_keep_shares_balanced(before: SharedState, after: SharedState)
    requires
        shares_balanced(before.tally, before.positions@),
        share_step(before, after),
    ensures
        shares_balanced(after.tally, after.positions@),
{
    if exists|i: int| #[trigger] left_at(before, after, i) {
        let i = choose|i: int| #[trigger] left_at(before, after, i);
        lemma_open_size_remove(before.positions@, i, Side::Up);
        lemma_open_size_remove(before.positions@, i, Side::Down);
    } else if exists|interval: i64| #[trigger] gave_up_others(before, after, interval) {
        let interval = choose|interval: i64| #[trigger] gave_up_others(before, after, interval);
        lemma_split_sizes(before.positions@, interval, Side::Up);
        lemma_split_sizes(before.positions@, interval, Side::Down);
    }
}

/// After every tick, and at every moment in one, the shares bought of the two
/// sides differ by just what is open: the bot starts without positions and
/// shares, and whatever it does on a tick is made of steps.
pub proof fn law_shares_stay_balanced(states: Seq<SharedState>, n: int)
    requires
        0 <= n < states.len(),
        states[0].positions@.len() == 0,
        states[0].tally.up_shares_bought@ == states[0].tally.down_shares_bought@,
        forall|i: int|
            0 <= i < states.len() - 1 ==> share_step(#[trigger] states[i], states[i + 1]),
    ensures
        shares_balanced(states[n].tally, states[n].positions@),
    decreases n,
{
    if n > 0 {
        law_shares_stay_balanced(states, n - 1);
        assert(share_step(states[n - 1], states[n - 1 + 1]));
        law_steps_keep_shares_balanced(states[n - 1], states[n]);
    }
}

/// Taking a position out takes its size out.
pub proof fn lemma_open_size_remove(positions: Seq<Position>, i: int, side: Side)
    requires
        0 <= i < positions.len(),
    ensures
        open_size(positions.remove(i), side) == open_size(positions, side) - (if positions[i].side
            == side {
            positions[i].size@
        } else {
            0
        }),
    decreases positions.len(),
{
    let rest = positions.remove(i);
    if i == positions.len() - 1 {
        assert(rest =~= positions.drop_last());
    } else {
        assert(rest.drop_last() =~= positions.drop_last().remove(i));
        assert(rest.last() == positions.last());
        lemma_open_size_remove(positions.drop_last(), i, side);
    }
}

// ---------------------------------------------------------------------------
// Positions that can no longer be left
// ---------------------------------------------------------------------------

/// The positions of the given market, or those of all others.
pub open spec fn of_market(positions: Seq<Position>, interval: i64, same: bool) -> Seq<Position>
    decreases positions.len(),
{
    if positions.len() == 0 {
        Seq::empty()
    } else {
        let before = of_market(positions.drop_last(), interval, same);
        if (positions.last().market_interval_start == interval) == same {
            before.push(positions.last())
        } else {
            before
        }
    }
}

/// Splitting the positions splits their sizes.
proof fn lemma_split_sizes(positions: Seq<Position>, interval: i64, side: Side)
    ensures
        open_size(of_market(positions, interval, true), side) + open_size(
            of_market(positions, interval, false),
            side,
        ) == open_size(positions, side),
    decreases positions.len(),
{
    if positions.len() > 0 {
        lemma_split_sizes(positions.drop_last(), interval, side);
        let same = of_market(positions.drop_last(), interval, true);
        let other = of_market(positions.drop_last(), interval, false);
        let p = positions.last();
        assert(same.push(p).drop_last() =~= same);
        assert(other.push(p).drop_last() =~= other);
    }
}

/// Splits off the positions of other markets.
fn split_by_market(positions: &Vec<Position>, interval: i64) -> (r: (Vec<Position>, Vec<Position>))
    ensures
        r.0@ == of_market(positions@, interval, true),
        r.1@ == of_market(positions@, interval, false),
{
    let mut same: Vec<Position> = Vec::new();
    let mut other: Vec<Position> = Vec::new();
    let mut i: usize = 0;
    proof {
        assert(positions@.take(0) =~= Seq::empty());
    }
    while i < positions.len()
        invariant
            i <= positions@.len(),
            same@ == of_market(positions@.take(i as int), interval, true),
            other@ == of_market(positions@.take(i as int), interval, false),
        decreases positions@.len() - i,
    {
        let p = &positions[i];
        proof {
            assert(positions@.take(i + 1).drop_last() =~= positions@.take(i as int));
            assert(positions@.take(i + 1).last() == *p);
        }
        if p.market_interval_start == interval {
            same.push(p.duplicate());
        } else {
            other.push(p.duplicate());
        }
        i += 1;
    }
    proof {
        assert(positions@.take(i as int) =~= positions@);
    }
    (same, other)
}

/// What was cleared away.
#[derive(Clone, Copy, Debug)]
pub struct Cleared {
    pub count: usize,
    pub up: Dec,
    pub down: Dec,
}

/// The tally once positions are given up: their shares are balanced by counting
/// them for the other side.
pub open spec fn tally_without(tally: Tally, gone: Seq<Position>) -> Option<Tally> {
    match (size_sum(gone, Side::Up), size_sum(gone, Side::Down)) {
        (Some(up), Some(down)) => match (
            tally.down_shares_bought.spec_plus(up),
            tally.up_shares_bought.spec_plus(down),
        ) {
            (Some(down_total), Some(up_total)) => Some(
                Tally { down_shares_bought: down_total, up_shares_bought: up_total, ..tally },
            ),
            _ => None,
        },
        _ => None,
    }
}

/// Whether giving up positions needs no rounding.
pub open spec fn giving_up_exact(tally: Tally, gone: Seq<Position>) -> bool {
    &&& size_sum_exact(gone, Side::Up)
    &&& size_sum_exact(gone, Side::Down)
    &&& size_sum(gone, Side::Up) matches Some(up) ==> tally.down_shares_bought.exact_with(up)
    &&& size_sum(gone, Side::Down) matches Some(down) ==> tally.up_shares_bought.exact_with(down)
}

impl Tally {
    /// Gives up positions.  Where the sums cannot be held, nothing happens.
    fn give_up(&mut self, gone: &Vec<Position>) -> (r: Option<Cleared>)
        ensures
            match r {
                Some(c) => {
                    &&& tally_without(*old(self), gone@) == Some(*final(self))
                    &&& c.count == gone@.len()
                    &&& size_sum(gone@, Side::Up) == Some(c.up)
                    &&& size_sum(gone@, Side::Down) == Some(c.down)
                    &&& giving_up_exact(*old(self), gone@) ==> {
                        &&& final(self).down_shares_bought@ == old(self).down_shares_bought@
                            + open_size(gone@, Side::Up)
                        &&& final(self).up_shares_bought@ == old(self).up_shares_bought@
                            + open_size(gone@, Side::Down)
                    }
                },
                None => tally_without(*old(self), gone@) is None && *final(self) == *old(self),
            },
    {
        let up = match sum_sizes(gone, Side::Up) {
            Some(up) => up,
            None => {
                return None;
            },
        };
        let down = match sum_sizes(gone, Side::Down) {
            Some(down) => down,
            None => {
                return None;
            },
        };
        match (self.down_shares_bought.plus(up), self.up_shares_bought.plus(down)) {
            (Some(down_total), Some(up_total)) => {
                self.down_shares_bought = down_total;
                self.up_shares_bought = up_total;
                Some(Cleared { count: gone.len(), up, down })
            },
            _ => None,
        }
    }
}

impl SharedState {
    /// Gives up the positions of other markets than the given one; they can no
    /// longer be left.  Where there are none, or their sums cannot be held,
    /// nothing happens.
    pub fn clear_stale_positions(&mut self, interval: i64) -> (r: Option<Cleared>)
        ensures
            ({
                let gone = of_market(old(self).positions@, interval, false);
                match r {
                    Some(c) => {
                        &&& gone.len() > 0
                        &&& c.count == gone.len()
                        &&& size_sum(gone, Side::Up) == Some(c.up)
                        &&& size_sum(gone, Side::Down) == Some(c.down)
                        &&& tally_without(old(self).tally, gone) == Some(final(self).tally)
                        &&& final(self).positions@ == of_market(
                            old(self).positions@,
                            interval,
                            true,
                        )
                        &&& *final(self) == (SharedState {
                            tally: final(self).tally,
                            positions: final(self).positions,
                            ..*old(self)
                        })
                        &&& giving_up_exact(old(self).tally, gone) && shares_balanced(
                            old(self).tally,
                            old(self).positions@,
                        ) ==> shares_balanced(final(self).tally, final(self).positions@)
                        &&& giving_up_exact(old(self).tally, gone) ==> gave_up_others(
                            *old(self),
                            *final(self),
                            interval,
                        )
                    },
                    None => {
                        &&& gone.len() == 0 || tally_without(old(self).tally, gone) is None
                        &&& *final(self) == *old(self)
                    },
                }
            }),
    {
        let (same, gone) = split_by_market(&self.positions, interval);
        if gone.len() == 0 {
            return None;
        }
        let report = self.tally.give_up(&gone);
        if report.is_some() {
            proof {
                lemma_split_sizes(self.positions@, interval, Side::Up);
                lemma_split_sizes(self.positions@, interval, Side::Down);
            }
            self.positions = same;
        }
        report
    }

    /// Gives up all positions, as a new market opens.  Where there are none, or
    /// their sums cannot be held, nothing happens.
    pub fn clear_orphaned_positions(&mut self) -> (r: Option<Cleared>)
        ensures
            match r {
                Some(c) => {
                    &&& old(self).positions@.len() > 0
                    &&& c.count == old(self).positions@.len()
                    &&& size_sum(old(self).positions@, Side::Up) == Some(c.up)
                    &&& size_sum(old(self).positions@, Side::Down) == Some(c.down)
                    &&& tally_without(old(self).tally, old(self).positions@) == Some(
                        final(self).tally,
                    )
                    &&& final(self).positions@ == Seq::<Position>::empty()
                    &&& *final(self) == (SharedState {
                        tally: final(self).tally,
                        positions: final(self).positions,
                        ..*old(self)
                    })
                    &&& giving_up_exact(old(self).tally, old(self).positions@) && shares_balanced(
                        old(self).tally,
                        old(self).positions@,
                    ) ==> shares_balanced(final(self).tally, final(self).positions@)
                    &&& giving_up_exact(old(self).tally, old(self).positions@) ==> gave_up_all(
                        *old(self),
                        *final(self),
                    )
                },
                None => {
                    &&& old(self).positions@.len() == 0 || tally_without(
                        old(self).tally,
                        old(self).positions@,
                    ) is None
                    &&& *final(self) == *old(self)
                },
            },
    {
        if self.positions.len() == 0 {
            return None;
        }
        let report = self.tally.give_up(&self.positions);
        if report.is_some() {
            self.positions = Vec::new();
        }
        report
    }
}

/// How a position was entered: on a reversal where it is marked so, else as a safe
/// entry where it is marked so, and else on momentum.
pub proof fn law_entry_type_goes_by_the_marks(p: Position)
    ensures
        p.is_reversal ==> p.spec_entry_type() == EntryType::Reversal,
        !p.is_reversal && p.is_safe_entry ==> p.spec_entry_type() == EntryType::SafeEntry,
        !p.is_reversal && !p.is_safe_entry ==> p.spec_entry_type() == EntryType::Momentum,
{
}

/// A position is held from its entry on, and no time at all before it.
pub proof fn law_time_held_is_since_entry(entry_ms: u64, now_ms: u64)
    ensures
        now_ms >= entry_ms ==> held(entry_ms, now_ms) == now_ms - entry_ms,
        now_ms < entry_ms ==> held(entry_ms, now_ms) == 0,
{
}

/// One more position adds its size to the open size of its side, and nothing to
/// that of the other side.
pub proof fn law_open_size_adds_up(positions: Seq<Position>, p: Position)
    ensures
        open_size(Seq::<Position>::empty(), Side::Up) == 0,
        open_size(Seq::<Position>::empty(), Side::Down) == 0,
        p.side == Side::Up ==> open_size(positions.push(p), Side::Up) == open_size(
            positions,
            Side::Up,
        ) + p.size@ && open_size(positions.push(p), Side::Down) == open_size(positions, Side::Down),
        p.side == Side::Down ==> open_size(positions.push(p), Side::Down) == open_size(
            positions,
            Side::Down,
        ) + p.size@ && open_size(positions.push(p), Side::Up) == open_size(positions, Side::Up),
        p.side == Side::Up ==> size_sum(positions.push(p), Side::Down) == size_sum(
            positions,
            Side::Down,
        ),
        p.side == Side::Down ==> size_sum(positions.push(p), Side::Up) == size_sum(
            positions,
            Side::Up,
        ),
        forall|sum: Dec|
            size_sum(positions, p.side) == Some(sum) ==> size_sum(positions.push(p), p.side)
                == #[trigger] sum.spec_plus(p.size),
        size_sum(Seq::<Position>::empty(), Side::Up) == Some(Dec::of(0, 0)),
        size_sum(Seq::<Position>::empty(), Side::Down) == Some(Dec::of(0, 0)),
{
    assert(positions.push(p).drop_last() =~= positions);
}

/// The bot is balanced exactly where it has bought as many shares of up as of
/// down, but for what is open on either side.
pub proof fn law_balance_is_of_shares_and_open_sizes(t: Tally, positions: Seq<Position>)
    ensures
        shares_balanced(t, positions) <==> t.up_shares_bought@ + open_size(positions, Side::Down)
            == t.down_shares_bought@ + open_size(positions, Side::Up),
        positions.len() == 0 ==> (shares_balanced(t, positions) <==> t.up_shares_bought@
            == t.down_shares_bought@),
{
}

/// Splitting positions by market keeps their order and loses none: each position
/// is among those of the market exactly where its interval is that of the market,
/// and otherwise among the others.
pub proof fn law_positions_are_split_by_market(positions: Seq<Position>, interval: i64)
    ensures
        of_market(positions, interval, true) == positions.filter(
            |p: Position| p.market_interval_start == interval,
        ),
        of_market(positions, interval, false) == positions.filter(
            |p: Position| p.market_interval_start != interval,
        ),
    decreases positions.len(),
{
    reveal(Seq::filter);
    if positions.len() > 0 {
        law_positions_are_split_by_market(positions.drop_last(), interval);
    }
}

/// Giving up positions counts their shares for the other side: what was open of up
/// is added to the shares of down, what was open of down to those of up, and
/// nothing else of the tally changes.
pub proof fn law_given_up_positions_are_balanced(t: Tally, gone: Seq<Position>, up: Dec, down: Dec)
    requires
        size_sum(gone, Side::Up) == Some(up),
        size_sum(gone, Side::Down) == Some(down),
    ensures
        t.down_shares_bought.spec_plus(up) is Some && t.up_shares_bought.spec_plus(down) is Some
            ==> tally_without(t, gone) == Some(
            Tally {
                down_shares_bought: t.down_shares_bought.spec_plus(up)->0,
                up_shares_bought: t.up_shares_bought.spec_plus(down)->0,
                ..t
            },
        ),
        t.down_shares_bought.spec_plus(up) is None || t.up_shares_bought.spec_plus(down) is None
            ==> tally_without(t, gone) is None,
{
}

/// The text of each reason.
pub proof fn law_reasons_have_their_texts(reason: BlockReason)
    ensures
        reason is Ready ==> reason.spec_text() == "Ready to trade"@,
        reason is NoMarket ==> reason.spec_text() == "No market discovered"@,
        reason is MarketClosing ==> reason.spec_text() == "Market closing (<15s)"@,
        reason is OrderbookStale ==> reason.spec_text() == "Orderbook stale (>5s)"@,
        reason is NotEnoughTicks ==> reason.spec_text() == "Not enough ticks"@,
        reason is NoMomentum ==> reason.spec_text() == "No momentum signal"@,
        reason is PriceOutOfRange ==> reason.spec_text() == "Price out of range"@,
        reason is MLFiltered ==> reason.spec_text() == "ML filtered (low volatility)"@,
        reason is InPosition ==> reason.spec_text() == "Already in position"@,
        reason is MaxTradesReached ==> reason.spec_text() == "Max trades reached"@,
        reason is MaxPositions ==> reason.spec_text() == "Max positions reached"@,
        reason is DirectionCooldown ==> reason.spec_text() == "Direction cooldown active"@,
{
}

} // verus!
