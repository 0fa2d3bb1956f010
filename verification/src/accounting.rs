//! Entering and leaving positions of the trading bot.

use crate::decimal::{lemma_literal, Dec};
use crate::side::Side;
use crate::trader::{
    entered_one, left_at, lemma_open_size_remove, open_size, share_step, shares_balanced,
    PendingSample, Position, SharedState, Tally, TradeRecord, TRADES_KEPT,
};
use vstd::prelude::*;

verus! {

/// How many open positions start a cooldown.
pub const COOLDOWN_POSITIONS: usize = 3;

/// Whether every count can go up by one.
pub open spec fn can_count(t: Tally) -> bool {
    &&& t.trade_count < u32::MAX
    &&& t.win_count < u32::MAX
    &&& t.up_entry_count < u32::MAX
    &&& t.down_entry_count < u32::MAX
    &&& t.up_exit_count < u32::MAX
    &&& t.down_exit_count < u32::MAX
    &&& t.failed_exit_count < u32::MAX
    &&& t.up_trade_count < u32::MAX
    &&& t.down_trade_count < u32::MAX
    &&& t.session_trade_count < u32::MAX
}

// ---------------------------------------------------------------------------
// Entering
// ---------------------------------------------------------------------------

/// A filled entry.  The fields that end in `bits` hold floating-point numbers by
/// their bit patterns.
#[derive(Debug)]
pub struct EntryFill {
    pub side: Side,
    pub price: Dec,
    pub size: Dec,
    pub trigger_exchange: String,
    pub is_safe_entry: bool,
    pub is_reversal: bool,
    pub market_interval_start: i64,
    pub predicted_vol_bits: u32,
    pub direction_prob_raw_bits: u32,
    pub direction_prob_cal_bits: u32,
    pub entry_z_bits: u64,
    pub displacement_bits: u64,
    pub elapsed_bits: u64,
    pub liq_count_bits: u64,
}

/// The position that a filled entry opens.
pub open spec fn opened(fill: EntryFill, now_ms: u64) -> Position {
    Position {
        side: fill.side,
        entry_price: fill.price,
        entry_ms: now_ms,
        size: fill.size,
        predicted_vol_bits: fill.predicted_vol_bits,
        is_safe_entry: fill.is_safe_entry,
        is_reversal: fill.is_reversal,
        trigger_exchange: fill.trigger_exchange,
        direction_prob_raw_bits: fill.direction_prob_raw_bits,
        direction_prob_cal_bits: fill.direction_prob_cal_bits,
        market_interval_start: fill.market_interval_start,
        entry_z_bits: fill.entry_z_bits,
        displacement_bits: fill.displacement_bits,
        elapsed_bits: fill.elapsed_bits,
        liq_count_bits: fill.liq_count_bits,
    }
}

/// The tally after an entry.
pub open spec fn tally_after_entry(t: Tally, side: Side, size: Dec) -> Option<Tally> {
    match side {
        Side::Up => match t.up_shares_bought.spec_plus(size) {
            Some(total) => Some(
                Tally {
                    up_shares_bought: total,
                    up_entry_count: (t.up_entry_count + 1) as u32,
                    up_trade_count: (t.up_trade_count + 1) as u32,
                    session_trade_count: (t.session_trade_count + 1) as u32,
                    ..t
                },
            ),
            None => None,
        },
        Side::Down => match t.down_shares_bought.spec_plus(size) {
            Some(total) => Some(
                Tally {
                    down_shares_bought: total,
                    down_entry_count: (t.down_entry_count + 1) as u32,
                    down_trade_count: (t.down_trade_count + 1) as u32,
                    session_trade_count: (t.session_trade_count + 1) as u32,
                    ..t
                },
            ),
            None => None,
        },
    }
}

/// The shares of a side ever bought.
pub open spec fn shares_of(t: Tally, side: Side) -> Dec {
    match side {
        Side::Up => t.up_shares_bought,
        Side::Down => t.down_shares_bought,
    }
}

impl SharedState {
    /// Takes in a filled entry: a position opens, its shares and counts are
    /// added, its sample waits for the market to be decided, the directions of
    /// the last ticks are forgotten, and the third open position starts a
    /// cooldown.  Where the shares cannot be added, nothing happens and the
    /// result is false.
    pub fn record_entry(&mut self, fill: EntryFill, now_ms: u64) -> (r: bool)
        requires
            can_count(old(self).tally),
        ensures
            r == (tally_after_entry(old(self).tally, fill.side, fill.size) is Some),
            !r ==> *final(self) == *old(self),
            r ==> {
                let after = tally_after_entry(old(self).tally, fill.side, fill.size)->0;
                &&& final(self).tally == after
                &&& final(self).positions@ == old(self).positions@.push(opened(fill, now_ms))
                &&& final(self).pending_calibration@ == old(self).pending_calibration@.push(
                    (PendingSample {
                        raw_prob_bits: fill.direction_prob_raw_bits,
                        market_interval: fill.market_interval_start,
                        side: fill.side,
                    }),
                )
                &&& final(self).last_entry_side == Some(fill.side)
                &&& final(self).last_entry_ms == Some(now_ms)
                &&& final(self).last_third_ms == (if final(self).positions@.len()
                    == COOLDOWN_POSITIONS {
                    Some(now_ms)
                } else {
                    old(self).last_third_ms
                })
                &&& old(self).positions@.len() == 2 ==> final(self).last_third_ms == Some(now_ms)
                &&& old(self).positions@.len() != 2 ==> final(self).last_third_ms
                    == old(self).last_third_ms
                &&& final(self).ticks.directions@ == Seq::<i8>::empty()
                &&& final(self).ticks.consecutive_up == old(self).ticks.consecutive_up
                &&& final(self).ticks.consecutive_down == old(self).ticks.consecutive_down
                &&& *final(self) == (SharedState {
                    tally: final(self).tally,
                    positions: final(self).positions,
                    pending_calibration: final(self).pending_calibration,
                    last_entry_side: final(self).last_entry_side,
                    last_entry_ms: final(self).last_entry_ms,
                    last_third_ms: final(self).last_third_ms,
                    ticks: final(self).ticks,
                    ..*old(self)
                })
                &&& shares_of(old(self).tally, fill.side).exact_with(fill.size) && shares_balanced(
                    old(self).tally,
                    old(self).positions@,
                ) ==> shares_balanced(final(self).tally, final(self).positions@)
                &&& shares_of(old(self).tally, fill.side).exact_with(fill.size) ==> share_step(
                    *old(self),
                    *final(self),
                )
            },
    {
        let total = match fill.side {
            Side::Up => self.tally.up_shares_bought.plus(fill.size),
            Side::Down => self.tally.down_shares_bought.plus(fill.size),
        };
        let total = match total {
            Some(total) => total,
            None => {
                return false;
            },
        };
        match fill.side {
            Side::Up => {
                self.tally.up_shares_bought = total;
                self.tally.up_entry_count += 1;
                self.tally.up_trade_count += 1;
            },
            Side::Down => {
                self.tally.down_shares_bought = total;
                self.tally.down_entry_count += 1;
                self.tally.down_trade_count += 1;
            },
        }
        self.tally.session_trade_count += 1;
        self.pending_calibration.push(
            PendingSample {
                raw_prob_bits: fill.direction_prob_raw_bits,
                market_interval: fill.market_interval_start,
                side: fill.side,
            },
        );
        self.last_entry_side = Some(fill.side);
        self.last_entry_ms = Some(now_ms);
        let position = Position {
            side: fill.side,
            entry_price: fill.price,
            entry_ms: now_ms,
            size: fill.size,
            predicted_vol_bits: fill.predicted_vol_bits,
            is_safe_entry: fill.is_safe_entry,
            is_reversal: fill.is_reversal,
            trigger_exchange: fill.trigger_exchange,
            direction_prob_raw_bits: fill.direction_prob_raw_bits,
            direction_prob_cal_bits: fill.direction_prob_cal_bits,
            market_interval_start: fill.market_interval_start,
            entry_z_bits: fill.entry_z_bits,
            displacement_bits: fill.displacement_bits,
            elapsed_bits: fill.elapsed_bits,
            liq_count_bits: fill.liq_count_bits,
        };
        proof {
            let all = self.positions@.push(position);
            assert(all.drop_last() =~= self.positions@);
            assert(open_size(all, Side::Up) == open_size(self.positions@, Side::Up) + (
            if position.side == Side::Up {
                position.size@
            } else {
                0
            }));
            assert(open_size(all, Side::Down) == open_size(self.positions@, Side::Down) + (
            if position.side == Side::Down {
                position.size@
            } else {
                0
            }));
        }
        self.positions.push(position);
        if self.positions.len() == COOLDOWN_POSITIONS {
            self.last_third_ms = Some(now_ms);
        }
        self.ticks.clear();
        proof {
            assert(self.positions@.drop_last() =~= old(self).positions@);
            if shares_of(old(self).tally, fill.side).exact_with(fill.size) {
                assert(entered_one(*old(self), *self));
            }
        }
        true
    }
}

// ---------------------------------------------------------------------------
// Leaving
// ---------------------------------------------------------------------------

/// Why a position is left.
#[derive(Clone, Copy, Debug, PartialEq, Eq, Structural)]
pub enum ExitKind {
    /// Its exit conditions are met.
    Regular,
    /// It has been held for too long.
    Emergency,
    /// The market is about to close.
    Forced,
}

/// The profit per share of leaving a position: what a pair of both tokens is
/// worth, less what the two tokens cost.
pub open spec fn exit_pnl(p: Position, exit_price: Dec) -> Option<Dec> {
    match Dec::of(1, 0).spec_minus(exit_price) {
        Some(d) => d.spec_minus(p.entry_price),
        None => None,
    }
}

/// The tally after an exit: the other token is bought, so its shares go up.  A
/// forced exit counts as won by its whole profit, any other by the profit per
/// share.
pub open spec fn tally_after_exit(t: Tally, p: Position, exit_price: Dec, kind: ExitKind) -> Option<
    Tally,
> {
    match exit_pnl(p, exit_price) {
        Some(pnl) => match pnl.spec_times(p.size) {
            Some(usd) => match (
                t.total_pnl.spec_plus(usd),
                shares_of(t, p.side.spec_opposite()).spec_plus(p.size),
            ) {
                (Some(total), Some(shares)) => {
                    let won = if kind == ExitKind::Forced {
                        usd@ > 0
                    } else {
                        pnl@ > 0
                    };
                    let counted = Tally {
                        total_pnl: total,
                        trade_count: (t.trade_count + 1) as u32,
                        win_count: if won {
                            (t.win_count + 1) as u32
                        } else {
                            t.win_count
                        },
                        ..t
                    };
                    Some(
                        match p.side {
                            Side::Up => Tally {
                                down_shares_bought: shares,
                                up_exit_count: (t.up_exit_count + 1) as u32,
                                ..counted
                            },
                            Side::Down => Tally {
                                up_shares_bought: shares,
                                down_exit_count: (t.down_exit_count + 1) as u32,
                                ..counted
                            },
                        },
                    )
                },
                _ => None,
            },
            None => None,
        },
        None => None,
    }
}

/// Whether a record is the one of an exit.
pub open spec fn is_record_of(
    record: TradeRecord,
    p: Position,
    exit_price: Dec,
    kind: ExitKind,
    hold_ms: u64,
    time_ms: i64,
) -> bool {
    &&& record.time_ms == time_ms
    &&& record.side == p.side
    &&& record.entry_price == p.entry_price
    &&& record.exit_price == exit_price
    &&& Some(record.pnl) == exit_pnl(p, exit_price)
    &&& record.hold_ms == hold_ms
    &&& record.predicted_vol_bits == p.predicted_vol_bits
    &&& record.size == p.size
    &&& record.entry_type == p.spec_entry_type()
    &&& record.trigger_exchange@ == (if kind == ExitKind::Emergency {
        "EMERGENCY"@
    } else {
        p.trigger_exchange@
    })
    &&& record.z_bits == p.entry_z_bits
}

/// The kept trades with one more at the front.
pub open spec fn with_trade(trades: Seq<TradeRecord>, record: TradeRecord) -> Seq<TradeRecord> {
    let all = seq![record] + trades;
    if all.len() > TRADES_KEPT {
        all.drop_last()
    } else {
        all
    }
}

/// Whether `after` are the kept trades after an exit; a forced exit leaves no
/// record.
pub open spec fn trades_after_exit(
    before: Seq<TradeRecord>,
    after: Seq<TradeRecord>,
    p: Position,
    exit_price: Dec,
    kind: ExitKind,
    hold_ms: u64,
    time_ms: i64,
) -> bool {
    if kind == ExitKind::Forced {
        after == before
    } else {
        exists|record: TradeRecord|
            is_record_of(record, p, exit_price, kind, hold_ms, time_ms) && after
                == #[trigger] with_trade(before, record)
    }
}

impl SharedState {
    /// Books an exit of a position at a price, without taking the position out.
    /// Where the sums cannot be held, nothing happens.
    pub fn account_exit(
        &mut self,
        p: &Position,
        exit_price: Dec,
        kind: ExitKind,
        hold_ms: u64,
        time_ms: i64,
    ) -> (r: Option<Dec>)
        requires
            can_count(old(self).tally),
        ensures
            r is Some <==> tally_after_exit(old(self).tally, *p, exit_price, kind) is Some,
            r is None ==> *final(self) == *old(self),
            r is Some ==> {
                &&& r == exit_pnl(*p, exit_price)
                &&& Some(final(self).tally) == tally_after_exit(
                    old(self).tally,
                    *p,
                    exit_price,
                    kind,
                )
                &&& trades_after_exit(
                    old(self).trades@,
                    final(self).trades@,
                    *p,
                    exit_price,
                    kind,
                    hold_ms,
                    time_ms,
                )
                &&& *final(self) == (SharedState {
                    tally: final(self).tally,
                    trades: final(self).trades,
                    ..*old(self)
                })
                &&& shares_of(old(self).tally, p.side.spec_opposite()).exact_with(p.size)
                    ==> shares_of(final(self).tally, p.side.spec_opposite())@ == shares_of(
                    old(self).tally,
                    p.side.spec_opposite(),
                )@ + p.size@
                &&& Dec::of(1, 0).exact_with(exit_price) && (Dec::of(1, 0).spec_minus(
                    exit_price,
                ) matches Some(d) ==> d.exact_with(p.entry_price)) ==> r->0@
                    == 10000000000000000000000000000 - exit_price@ - p.entry_price@
            },
    {
        proof {
            lemma_literal(1, 0);
        }
        let pnl = match Dec::new(1, 0).minus(exit_price) {
            Some(d) => match d.minus(p.entry_price) {
                Some(pnl) => pnl,
                None => {
                    return None;
                },
            },
            None => {
                return None;
            },
        };
        let usd = match pnl.times(p.size) {
            Some(usd) => usd,
            None => {
                return None;
            },
        };
        let total = match self.tally.total_pnl.plus(usd) {
            Some(total) => total,
            None => {
                return None;
            },
        };
        let shares = match p.side {
            Side::Up => self.tally.down_shares_bought.plus(p.size),
            Side::Down => self.tally.up_shares_bought.plus(p.size),
        };
        let shares = match shares {
            Some(shares) => shares,
            None => {
                return None;
            },
        };
        let won = if kind == ExitKind::Forced {
            usd.is_positive()
        } else {
            pnl.is_positive()
        };
        self.tally.total_pnl = total;
        self.tally.trade_count += 1;
        if won {
            self.tally.win_count += 1;
        }
        match p.side {
            Side::Up => {
                self.tally.down_shares_bought = shares;
                self.tally.up_exit_count += 1;
            },
            Side::Down => {
                self.tally.up_shares_bought = shares;
                self.tally.down_exit_count += 1;
            },
        }
        if kind != ExitKind::Forced {
            let record = TradeRecord {
                time_ms,
                side: p.side,
                entry_price: p.entry_price,
                exit_price,
                pnl,
                hold_ms,
                predicted_vol_bits: p.predicted_vol_bits,
                size: p.size,
                entry_type: p.entry_type(),
                trigger_exchange: if kind == ExitKind::Emergency {
                    "EMERGENCY".to_owned()
                } else {
                    p.trigger_exchange.clone()
                },
                z_bits: p.entry_z_bits,
            };
            let ghost kept = record;
            let ghost before = self.trades@;
            self.trades.push_front(record);
            if self.trades.len() > TRADES_KEPT {
                let _dropped = self.trades.pop_back();
            }
            proof {
                assert(is_record_of(kept, *p, exit_price, kind, hold_ms, time_ms));
                assert(self.trades@ =~= with_trade(before, kept));
            }
        }
        Some(pnl)
    }

    /// Leaves the position at `index` at a price: books the exit and takes the
    /// position out.  Where the sums cannot be held, nothing happens.
    pub fn exit_position_at(
        &mut self,
        index: usize,
        exit_price: Dec,
        kind: ExitKind,
        hold_ms: u64,
        time_ms: i64,
    ) -> (r: Option<Dec>)
        requires
            index < old(self).positions@.len(),
            can_count(old(self).tally),
        ensures
            ({
                let p = old(self).positions@[index as int];
                &&& r is Some <==> tally_after_exit(old(self).tally, p, exit_price, kind) is Some
                &&& r is None ==> *final(self) == *old(self)
                &&& r is Some ==> {
                    &&& r == exit_pnl(p, exit_price)
                    &&& Some(final(self).tally) == tally_after_exit(
                        old(self).tally,
                        p,
                        exit_price,
                        kind,
                    )
                    &&& final(self).positions@ == old(self).positions@.remove(index as int)
                    &&& trades_after_exit(
                        old(self).trades@,
                        final(self).trades@,
                        p,
                        exit_price,
                        kind,
                        hold_ms,
                        time_ms,
                    )
                    &&& *final(self) == (SharedState {
                        tally: final(self).tally,
                        trades: final(self).trades,
                        positions: final(self).positions,
                        ..*old(self)
                    })
                    &&& shares_of(old(self).tally, p.side.spec_opposite()).exact_with(p.size)
                        && shares_balanced(old(self).tally, old(self).positions@)
                        ==> shares_balanced(final(self).tally, final(self).positions@)
                    &&& shares_of(old(self).tally, p.side.spec_opposite()).exact_with(p.size)
                        ==> share_step(*old(self), *final(self))
                }
            }),
    {
        let p = self.positions[index].duplicate();
        let r = self.account_exit(&p, exit_price, kind, hold_ms, time_ms);
        if r.is_some() {
            proof {
                lemma_open_size_remove(self.positions@, index as int, Side::Up);
                lemma_open_size_remove(self.positions@, index as int, Side::Down);
            }
            let _left = self.positions.remove(index);
            proof {
                if shares_of(old(self).tally, p.side.spec_opposite()).exact_with(p.size) {
                    assert(left_at(*old(self), *self, index as int));
                }
            }
        }
        r
    }

    /// Counts an exit that did not go through; the position stays.
    pub fn record_failed_exit(&mut self)
        requires
            can_count(old(self).tally),
        ensures
            *final(self) == (SharedState {
                tally: (Tally {
                    failed_exit_count: (old(self).tally.failed_exit_count + 1) as u32,
                    ..old(self).tally
                }),
                ..*old(self)
            }),
    {
        self.tally.failed_exit_count += 1;
    }

    /// Finds the first open position with the side, the entry price and the entry
    /// time of the given one.
    pub fn find_open(&self, p: &Position) -> (r: Option<usize>)
        ensures
            match r {
                Some(i) => i < self.positions@.len() && same_entry(self.positions@[i as int], *p)
                    && forall|j: int|
                    0 <= j < i ==> !same_entry(#[trigger] self.positions@[j], *p),
                None => forall|j: int|
                    0 <= j < self.positions@.len() ==> !same_entry(
                        #[trigger] self.positions@[j],
                        *p,
                    ),
            },
    {
        let mut i: usize = 0;
        while i < self.positions.len()
            invariant
                i <= self.positions@.len(),
                forall|j: int| 0 <= j < i ==> !same_entry(#[trigger] self.positions@[j], *p),
            decreases self.positions@.len() - i,
        {
            let q = &self.positions[i];
            if q.side == p.side && q.entry_price.same(p.entry_price) && q.entry_ms == p.entry_ms {
                return Some(i);
            }
            i += 1;
        }
        None
    }
}

/// Whether two positions have the same side, entry price and entry time.
pub open spec fn same_entry(a: Position, b: Position) -> bool {
    a.side == b.side && a.entry_price@ == b.entry_price@ && a.entry_ms == b.entry_ms
}

// ---------------------------------------------------------------------------
// Laws
// ---------------------------------------------------------------------------

/// The tally counts every exit once, as won at most once, and for the side of
/// the position.
pub proof fn law_exit_counts_once(t: Tally, p: Position, exit_price: Dec, kind: ExitKind)
    requires
        can_count(t),
        tally_after_exit(t, p, exit_price, kind) is Some,
    ensures
        ({
            let after = tally_after_exit(t, p, exit_price, kind)->0;
            &&& after.trade_count == t.trade_count + 1
            &&& t.win_count <= after.win_count <= t.win_count + 1
            &&& after.up_exit_count + after.down_exit_count == t.up_exit_count + t.down_exit_count
                + 1
            &&& after.up_entry_count == t.up_entry_count
            &&& after.down_entry_count == t.down_entry_count
        }),
{
}

/// Wins never outnumber trades.
pub proof fn law_wins_within_trades(t: Tally, p: Position, exit_price: Dec, kind: ExitKind)
    requires
        can_count(t),
        t.win_count <= t.trade_count,
        tally_after_exit(t, p, exit_price, kind) is Some,
    ensures
        tally_after_exit(t, p, exit_price, kind)->0.win_count <= tally_after_exit(
            t,
            p,
            exit_price,
            kind,
        )->0.trade_count,
{
}

/// Every entry is counted for its side, in the session and in the market alike.
pub proof fn law_entry_counts_once(t: Tally, side: Side, size: Dec)
    requires
        can_count(t),
        tally_after_entry(t, side, size) is Some,
    ensures
        ({
            let after = tally_after_entry(t, side, size)->0;
            &&& after.session_trade_count == t.session_trade_count + 1
            &&& after.up_trade_count + after.down_trade_count == t.up_trade_count
                + t.down_trade_count + 1
            &&& after.up_entry_count + after.down_entry_count == t.up_entry_count
                + t.down_entry_count + 1
            &&& after.total_pnl == t.total_pnl
        }),
{
}

/// No more trades are kept than are shown.
pub proof fn law_trades_are_bounded(trades: Seq<TradeRecord>, record: TradeRecord)
    requires
        trades.len() <= TRADES_KEPT,
    ensures
        with_trade(trades, record).len() <= TRADES_KEPT,
        with_trade(trades, record)[0] == record,
{
}

/// A filled entry opens a position of just what was bought: its side, its price,
/// its size, in its market, from now on.
pub proof fn law_opened_position_is_what_was_bought(fill: EntryFill, now_ms: u64)
    ensures
        opened(fill, now_ms).side == fill.side,
        opened(fill, now_ms).entry_price == fill.price,
        opened(fill, now_ms).size == fill.size,
        opened(fill, now_ms).entry_ms == now_ms,
        opened(fill, now_ms).market_interval_start == fill.market_interval_start,
        opened(fill, now_ms).is_safe_entry == fill.is_safe_entry,
        opened(fill, now_ms).is_reversal == fill.is_reversal,
        opened(fill, now_ms).trigger_exchange == fill.trigger_exchange,
        opened(fill, now_ms).predicted_vol_bits == fill.predicted_vol_bits,
        opened(fill, now_ms).direction_prob_raw_bits == fill.direction_prob_raw_bits,
        opened(fill, now_ms).direction_prob_cal_bits == fill.direction_prob_cal_bits,
        opened(fill, now_ms).entry_z_bits == fill.entry_z_bits,
        opened(fill, now_ms).displacement_bits == fill.displacement_bits,
        opened(fill, now_ms).elapsed_bits == fill.elapsed_bits,
        opened(fill, now_ms).liq_count_bits == fill.liq_count_bits,
{
}

/// An entry adds its shares to those of its side and counts once, for its side
/// and for the session; the other side, the exits and the profit stay.
pub proof fn law_entry_adds_to_its_side(t: Tally, size: Dec)
    requires
        can_count(t),
    ensures
        t.up_shares_bought.spec_plus(size) is None ==> tally_after_entry(t, Side::Up, size) is None,
        t.down_shares_bought.spec_plus(size) is None ==> tally_after_entry(t, Side::Down, size)
            is None,
        t.up_shares_bought.spec_plus(size) matches Some(total) ==> tally_after_entry(
            t,
            Side::Up,
            size,
        ) is Some && ({
            let after = tally_after_entry(t, Side::Up, size)->0;
            &&& after.up_shares_bought == total
            &&& after.up_entry_count == t.up_entry_count + 1
            &&& after.up_trade_count == t.up_trade_count + 1
            &&& after.session_trade_count == t.session_trade_count + 1
            &&& after == (Tally {
                up_shares_bought: after.up_shares_bought,
                up_entry_count: after.up_entry_count,
                up_trade_count: after.up_trade_count,
                session_trade_count: after.session_trade_count,
                ..t
            })
        }),
        t.down_shares_bought.spec_plus(size) matches Some(total) ==> tally_after_entry(
            t,
            Side::Down,
            size,
        ) is Some && ({
            let after = tally_after_entry(t, Side::Down, size)->0;
            &&& after.down_shares_bought == total
            &&& after.down_entry_count == t.down_entry_count + 1
            &&& after.down_trade_count == t.down_trade_count + 1
            &&& after.session_trade_count == t.session_trade_count + 1
            &&& after == (Tally {
                down_shares_bought: after.down_shares_bought,
                down_entry_count: after.down_entry_count,
                down_trade_count: after.down_trade_count,
                session_trade_count: after.session_trade_count,
                ..t
            })
        }),
{
}

/// The profit per share of an exit is one, less the exit price, less the entry
/// price, where these differences can be held.
pub proof fn law_exit_profit_is_what_a_pair_leaves(p: Position, exit_price: Dec)
    ensures
        Dec::of(1, 0).spec_minus(exit_price) is None ==> exit_pnl(p, exit_price) is None,
        forall|rest: Dec|
            Dec::of(1, 0).spec_minus(exit_price) == Some(rest) ==> exit_pnl(p, exit_price)
                == #[trigger] rest.spec_minus(p.entry_price),
{
}

/// An exit adds its profit, times its size, to the total, and its size to the
/// shares of the other side; it counts once as a trade, once for the side that is
/// left, and once as won exactly where it made a profit.
pub proof fn law_exit_books_its_profit(
    t: Tally,
    p: Position,
    exit_price: Dec,
    kind: ExitKind,
    pnl: Dec,
    usd: Dec,
    total: Dec,
    shares: Dec,
)
    requires
        can_count(t),
        exit_pnl(p, exit_price) == Some(pnl),
        pnl.spec_times(p.size) == Some(usd),
        t.total_pnl.spec_plus(usd) == Some(total),
        p.side == Side::Up ==> t.down_shares_bought.spec_plus(p.size) == Some(shares),
        p.side == Side::Down ==> t.up_shares_bought.spec_plus(p.size) == Some(shares),
    ensures
        tally_after_exit(t, p, exit_price, kind) is Some,
        ({
            let after = tally_after_exit(t, p, exit_price, kind)->0;
            &&& after.total_pnl == total
            &&& after.trade_count == t.trade_count + 1
            &&& kind == ExitKind::Forced && usd@ > 0 ==> after.win_count == t.win_count + 1
            &&& kind == ExitKind::Forced && usd@ <= 0 ==> after.win_count == t.win_count
            &&& kind != ExitKind::Forced && pnl@ > 0 ==> after.win_count == t.win_count + 1
            &&& kind != ExitKind::Forced && pnl@ <= 0 ==> after.win_count == t.win_count
            &&& p.side == Side::Up ==> after == (Tally {
                total_pnl: after.total_pnl,
                trade_count: after.trade_count,
                win_count: after.win_count,
                down_shares_bought: shares,
                up_exit_count: (t.up_exit_count + 1) as u32,
                ..t
            })
            &&& p.side == Side::Down ==> after == (Tally {
                total_pnl: after.total_pnl,
                trade_count: after.trade_count,
                win_count: after.win_count,
                up_shares_bought: shares,
                down_exit_count: (t.down_exit_count + 1) as u32,
                ..t
            })
        }),
{
}

/// An exit cannot be booked exactly where its profit, that profit in money, the
/// total or the shares of the other side cannot be held.
pub proof fn law_exit_is_booked_where_it_can_be(
    t: Tally,
    p: Position,
    exit_price: Dec,
    kind: ExitKind,
)
    requires
        tally_after_exit(t, p, exit_price, kind) is None,
    ensures
        match exit_pnl(p, exit_price) {
            None => true,
            Some(pnl) => match pnl.spec_times(p.size) {
                None => true,
                Some(usd) => t.total_pnl.spec_plus(usd) is None || (p.side == Side::Up
                    && t.down_shares_bought.spec_plus(p.size) is None) || (p.side == Side::Down
                    && t.up_shares_bought.spec_plus(p.size) is None),
            },
        },
{
}

/// An exit that is not forced is kept as the newest of the shown trades, with
/// prices, profit, size and time of the exit; the others stay in order, and of
/// twenty the oldest goes.  A forced exit leaves the shown trades alone.
pub proof fn law_exit_is_shown_first(
    before: Seq<TradeRecord>,
    after: Seq<TradeRecord>,
    p: Position,
    exit_price: Dec,
    kind: ExitKind,
    hold_ms: u64,
    time_ms: i64,
)
    requires
        trades_after_exit(before, after, p, exit_price, kind, hold_ms, time_ms),
    ensures
        kind == ExitKind::Forced ==> after == before,
        kind != ExitKind::Forced ==> {
            &&& after.len() > 0
            &&& after[0].side == p.side
            &&& after[0].entry_price == p.entry_price
            &&& after[0].exit_price == exit_price
            &&& Some(after[0].pnl) == exit_pnl(p, exit_price)
            &&& after[0].size == p.size
            &&& after[0].hold_ms == hold_ms
            &&& after[0].time_ms == time_ms
            &&& after[0].predicted_vol_bits == p.predicted_vol_bits
            &&& after[0].z_bits == p.entry_z_bits
            &&& after[0].entry_type == p.spec_entry_type()
            &&& kind == ExitKind::Emergency ==> after[0].trigger_exchange@ == "EMERGENCY"@
            &&& kind != ExitKind::Emergency ==> after[0].trigger_exchange@ == p.trigger_exchange@
            &&& before.len() < 20 ==> after.len() == before.len() + 1
            &&& before.len() >= 20 ==> after.len() == before.len()
            &&& forall|i: int| 0 < i < after.len() ==> #[trigger] after[i] == before[i - 1]
        },
{
}

/// Two positions have the same entry exactly where side, price and time of the
/// entry are the same.
pub proof fn law_same_entry_is_side_price_and_time(a: Position, b: Position)
    ensures
        same_entry(a, b) <==> a.side == b.side && a.entry_price@ == b.entry_price@ && a.entry_ms
            == b.entry_ms,
{
}

/// The shares of a side are those that were bought of it.
pub proof fn law_shares_are_kept_by_side(t: Tally)
    ensures
        shares_of(t, Side::Up) == t.up_shares_bought,
        shares_of(t, Side::Down) == t.down_shares_bought,
{
}

} // verus!
