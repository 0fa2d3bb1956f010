//! What is shown: statistics of the kept trades, a summary of the open
//! positions, and the tone of log lines.

use crate::decimal::Dec;
use crate::lists::{count_where, lemma_count_step};
use crate::orderbook::Orderbook;
use crate::side::Side;
use crate::text::{contains, contains_text};
use crate::trader::{held, EntryType, Position, TradeRecord};
use std::collections::VecDeque;
use vstd::prelude::*;

verus! {

// ---------------------------------------------------------------------------
// Statistics of trades
// ---------------------------------------------------------------------------

/// Which trades count.
#[derive(Clone, Copy, Debug, PartialEq, Eq, Structural)]
pub enum Selection {
    /// Those completed at the given time or later, in milliseconds.
    Since(i64),
    /// Those completed at the given time or later with a profit.
    WonSince(i64),
    /// Those with a profit.
    Won,
    /// Those with a loss.
    Lost,
}

/// Whether a trade counts.
pub open spec fn selects(which: Selection, t: TradeRecord) -> bool {
    match which {
        Selection::Since(from) => t.time_ms >= from,
        Selection::WonSince(from) => t.time_ms >= from && t.pnl@ > 0,
        Selection::Won => t.pnl@ > 0,
        Selection::Lost => t.pnl@ < 0,
    }
}

/// Tells whether a trade counts.
fn is_selected(which: Selection, t: &TradeRecord) -> (r: bool)
    ensures
        r == selects(which, *t),
{
    match which {
        Selection::Since(from) => t.time_ms >= from,
        Selection::WonSince(from) => t.time_ms >= from && t.pnl.is_positive(),
        Selection::Won => t.pnl.is_positive(),
        Selection::Lost => t.pnl.lt(Dec::zero()),
    }
}

/// What a trade made, in dollars; a loss counts by its size where `unsigned` is
/// set.
pub open spec fn made_by(t: TradeRecord, unsigned: bool) -> Option<Dec> {
    match t.pnl.spec_times(t.size) {
        Some(usd) => if unsigned {
            Some(usd.spec_abs())
        } else {
            Some(usd)
        },
        None => None,
    }
}

/// What all trades that count made, added one after the other, where that can be
/// held.
pub open spec fn total_made(trades: Seq<TradeRecord>, which: Selection, unsigned: bool) -> Option<
    Dec,
>
    decreases trades.len(),
{
    if trades.len() == 0 {
        Some(Dec::of(0, 0))
    } else {
        let before = total_made(trades.drop_last(), which, unsigned);
        if selects(which, trades.last()) {
            match (before, made_by(trades.last(), unsigned)) {
                (Some(sum), Some(usd)) => sum.spec_plus(usd),
                _ => None,
            }
        } else {
            before
        }
    }
}

/// Adds up what all trades that count made.
pub fn sum_made(trades: &VecDeque<TradeRecord>, which: Selection, unsigned: bool) -> (r: Option<Dec>)
    ensures
        r == total_made(trades@, which, unsigned),
{
    let mut sum: Option<Dec> = Some(Dec::zero());
    let mut i: usize = 0;
    proof {
        assert(trades@.take(0) =~= Seq::empty());
    }
    while i < trades.len()
        invariant
            i <= trades@.len(),
            sum == total_made(trades@.take(i as int), which, unsigned),
        decreases trades@.len() - i,
    {
        let t = &trades[i];
        proof {
            assert(trades@.take(i + 1).drop_last() =~= trades@.take(i as int));
            assert(trades@.take(i + 1).last() == *t);
        }
        if is_selected(which, t) {
            let made = match t.pnl.times(t.size) {
                Some(usd) => if unsigned {
                    Some(usd.abs())
                } else {
                    Some(usd)
                },
                None => None,
            };
            sum = match (sum, made) {
                (Some(s), Some(usd)) => s.plus(usd),
                _ => None,
            };
        }
        i += 1;
    }
    proof {
        assert(trades@.take(i as int) =~= trades@);
    }
    sum
}

/// How many trades count.
pub open spec fn selected_count(trades: Seq<TradeRecord>, which: Selection) -> nat {
    count_where(trades, |t: TradeRecord| selects(which, t))
}

/// Counts the trades that count.
pub fn count_selected(trades: &VecDeque<TradeRecord>, which: Selection) -> (r: usize)
    ensures
        r == selected_count(trades@, which),
        r <= trades@.len(),
{
    let ghost p = |t: TradeRecord| selects(which, t);
    let mut count: usize = 0;
    let mut i: usize = 0;
    proof {
        assert(trades@.take(0) =~= Seq::empty());
    }
    while i < trades.len()
        invariant
            i <= trades@.len(),
            p == (|t: TradeRecord| selects(which, t)),
            count == count_where(trades@.take(i as int), p),
            count <= i,
        decreases trades@.len() - i,
    {
        proof {
            lemma_count_step(trades@, p, i as int);
        }
        if is_selected(which, &trades[i]) {
            count += 1;
        }
        i += 1;
    }
    proof {
        assert(trades@.take(i as int) =~= trades@);
    }
    count
}

/// The largest or the smallest that a trade made; of several equal ones the last
/// or the first.  The outer part is missing where it cannot be held, the inner
/// one where there are no trades.
pub open spec fn extreme_made(trades: Seq<TradeRecord>, largest: bool) -> Option<Option<Dec>>
    decreases trades.len(),
{
    if trades.len() == 0 {
        Some(None)
    } else {
        match (extreme_made(trades.drop_last(), largest), made_by(trades.last(), false)) {
            (Some(before), Some(usd)) => Some(
                Some(
                    match before {
                        Some(b) => if (largest && usd@ >= b@) || (!largest && usd@ < b@) {
                            usd
                        } else {
                            b
                        },
                        None => usd,
                    },
                ),
            ),
            _ => None,
        }
    }
}

/// Finds the largest or the smallest that a trade made; zero without trades.
pub fn find_extreme(trades: &VecDeque<TradeRecord>, largest: bool) -> (r: Option<Dec>)
    ensures
        r == (match extreme_made(trades@, largest) {
            Some(Some(d)) => Some(d),
            Some(None) => Some(Dec::of(0, 0)),
            None => None,
        }),
{
    let mut best: Option<Option<Dec>> = Some(None);
    let mut i: usize = 0;
    proof {
        assert(trades@.take(0) =~= Seq::empty());
    }
    while i < trades.len()
        invariant
            i <= trades@.len(),
            best == extreme_made(trades@.take(i as int), largest),
        decreases trades@.len() - i,
    {
        let t = &trades[i];
        proof {
            assert(trades@.take(i + 1).drop_last() =~= trades@.take(i as int));
            assert(trades@.take(i + 1).last() == *t);
        }
        best =
        match (best, t.pnl.times(t.size)) {
            (Some(before), Some(usd)) => Some(
                Some(
                    match before {
                        Some(b) => if (largest && b.le(usd)) || (!largest && usd.lt(b)) {
                            usd
                        } else {
                            b
                        },
                        None => usd,
                    },
                ),
            ),
            _ => None,
        };
        i += 1;
    }
    proof {
        assert(trades@.take(i as int) =~= trades@);
    }
    match best {
        Some(Some(d)) => Some(d),
        Some(None) => Some(Dec::zero()),
        None => None,
    }
}

/// Statistics of the kept trades.
#[derive(Clone, Copy, Debug)]
pub struct TradeStats {
    /// Profit, trades and wins since the start of the market's window.
    pub window_pnl: Dec,
    pub window_trades: usize,
    pub window_wins: usize,
    pub gross_profit: Dec,
    /// All losses together, as a positive number.
    pub gross_loss: Dec,
    /// Gross profit per gross loss, where there is a loss.
    pub profit_factor: Option<Dec>,
    pub avg_win: Dec,
    pub avg_loss: Dec,
    pub max_win: Dec,
    pub max_loss: Dec,
}

/// An average; zero of nothing.
pub open spec fn average(total: Dec, count: nat) -> Option<Dec> {
    if count > 0 {
        total.spec_over(Dec::of(count as int, 0))
    } else {
        Some(Dec::of(0, 0))
    }
}

/// Computes an average.
fn average_of(total: Dec, count: usize) -> (r: Option<Dec>)
    requires
        count <= i64::MAX,
    ensures
        r == average(total, count as nat),
{
    if count > 0 {
        total.over(Dec::new(count as i64, 0))
    } else {
        Some(Dec::zero())
    }
}

/// Whether statistics are those of the kept trades, for a window that starts at
/// the given time.
pub open spec fn are_stats_of(stats: TradeStats, trades: Seq<TradeRecord>, from_ms: i64) -> bool {
    &&& Some(stats.window_pnl) == total_made(trades, Selection::Since(from_ms), false)
    &&& stats.window_trades == selected_count(trades, Selection::Since(from_ms))
    &&& stats.window_wins == selected_count(trades, Selection::WonSince(from_ms))
    &&& Some(stats.gross_profit) == total_made(trades, Selection::Won, false)
    &&& Some(stats.gross_loss) == total_made(trades, Selection::Lost, true)
    &&& stats.profit_factor == (if stats.gross_loss@ > 0 {
        stats.gross_profit.spec_over(stats.gross_loss)
    } else {
        None
    })
    &&& Some(stats.avg_win) == average(
        stats.gross_profit,
        selected_count(trades, Selection::Won),
    )
    &&& Some(stats.avg_loss) == average(
        stats.gross_loss,
        selected_count(trades, Selection::Lost),
    )
    &&& match extreme_made(trades, true) {
        Some(Some(d)) => stats.max_win == d,
        Some(None) => stats.max_win == Dec::of(0, 0),
        None => false,
    }
    &&& match extreme_made(trades, false) {
        Some(Some(d)) => stats.max_loss == d,
        Some(None) => stats.max_loss == Dec::of(0, 0),
        None => false,
    }
}

/// Whether all sums and averages of the kept trades can be held.
pub open spec fn stats_computable(trades: Seq<TradeRecord>, from_ms: i64) -> bool {
    &&& total_made(trades, Selection::Since(from_ms), false) is Some
    &&& total_made(trades, Selection::Won, false) is Some
    &&& total_made(trades, Selection::Lost, true) is Some
    &&& average(
        total_made(trades, Selection::Won, false)->0,
        selected_count(trades, Selection::Won),
    ) is Some
    &&& average(
        total_made(trades, Selection::Lost, true)->0,
        selected_count(trades, Selection::Lost),
    ) is Some
    &&& extreme_made(trades, true) is Some
    &&& extreme_made(trades, false) is Some
}

/// Computes the statistics of the kept trades, for a window that starts at the
/// given time.
pub fn trade_stats(trades: &VecDeque<TradeRecord>, from_ms: i64) -> (r: Option<TradeStats>)
    requires
        trades@.len() <= i64::MAX,
    ensures
        r is Some <==> stats_computable(trades@, from_ms),
        r matches Some(stats) ==> are_stats_of(stats, trades@, from_ms),
{
    let window_pnl = sum_made(trades, Selection::Since(from_ms), false);
    let gross_profit = sum_made(trades, Selection::Won, false);
    let gross_loss = sum_made(trades, Selection::Lost, true);
    let max_win = find_extreme(trades, true);
    let max_loss = find_extreme(trades, false);
    let (gross_profit, gross_loss) = match (gross_profit, gross_loss) {
        (Some(p), Some(l)) => (p, l),
        _ => {
            return None;
        },
    };
    let avg_win = average_of(gross_profit, count_selected(trades, Selection::Won));
    let avg_loss = average_of(gross_loss, count_selected(trades, Selection::Lost));
    let profit_factor = if gross_loss.is_positive() {
        gross_profit.over(gross_loss)
    } else {
        None
    };
    match (window_pnl, avg_win, avg_loss, max_win, max_loss) {
        (
            Some(window_pnl),
            Some(avg_win),
            Some(avg_loss),
            Some(max_win),
            Some(max_loss),
        ) => Some(
            TradeStats {
                window_pnl,
                window_trades: count_selected(trades, Selection::Since(from_ms)),
                window_wins: count_selected(trades, Selection::WonSince(from_ms)),
                gross_profit,
                gross_loss,
                profit_factor,
                avg_win,
                avg_loss,
                max_win,
                max_loss,
            },
        ),
        _ => None,
    }
}

// ---------------------------------------------------------------------------
// Summary of open positions
// ---------------------------------------------------------------------------

/// A summary of the open positions.
#[derive(Clone, Copy, Debug)]
pub struct PositionSummary {
    pub count: usize,
    pub up: usize,
    pub down: usize,
    pub momentum: usize,
    pub safe: usize,
    pub reversal: usize,
    /// How long the oldest one has been held, in milliseconds.
    pub oldest_ms: u64,
    /// Their sizes together, where that can be held.
    pub total_size: Option<Dec>,
}

/// How long the oldest position has been held.
pub open spec fn oldest_held(positions: Seq<Position>, now_ms: u64) -> int
    decreases positions.len(),
{
    if positions.len() == 0 {
        0
    } else {
        let before = oldest_held(positions.drop_last(), now_ms);
        let last = held(positions.last().entry_ms, now_ms);
        if last > before {
            last
        } else {
            before
        }
    }
}

/// The sizes of all positions, added one after the other, where that can be held.
pub open spec fn all_sizes(positions: Seq<Position>) -> Option<Dec>
    decreases positions.len(),
{
    if positions.len() == 0 {
        Some(Dec::of(0, 0))
    } else {
        match all_sizes(positions.drop_last()) {
            Some(sum) => sum.spec_plus(positions.last().size),
            None => None,
        }
    }
}

/// Whether a position is of a side.
pub open spec fn on_side(side: Side) -> spec_fn(Position) -> bool {
    |p: Position| p.side == side
}

/// Whether a position was entered in a way.
pub open spec fn entered_by(kind: EntryType) -> spec_fn(Position) -> bool {
    |p: Position| p.spec_entry_type() == kind
}

/// Sums up the open positions.
pub fn summarize(positions: &Vec<Position>, now_ms: u64) -> (r: PositionSummary)
    ensures
        r.count == positions@.len(),
        r.up == count_where(positions@, on_side(Side::Up)),
        r.down == count_where(positions@, on_side(Side::Down)),
        r.momentum == count_where(positions@, entered_by(EntryType::Momentum)),
        r.safe == count_where(positions@, entered_by(EntryType::SafeEntry)),
        r.reversal == count_where(positions@, entered_by(EntryType::Reversal)),
        r.oldest_ms == oldest_held(positions@, now_ms),
        r.total_size == all_sizes(positions@),
        r.up + r.down == r.count,
        r.momentum + r.safe + r.reversal == r.count,
{
    let mut up: usize = 0;
    let mut down: usize = 0;
    let mut momentum: usize = 0;
    let mut safe: usize = 0;
    let mut reversal: usize = 0;
    let mut oldest_ms: u64 = 0;
    let mut total_size: Option<Dec> = Some(Dec::zero());
    let mut i: usize = 0;
    proof {
        assert(positions@.take(0) =~= Seq::empty());
    }
    while i < positions.len()
        invariant
            i <= positions@.len(),
            up == count_where(positions@.take(i as int), on_side(Side::Up)),
            down == count_where(positions@.take(i as int), on_side(Side::Down)),
            momentum == count_where(positions@.take(i as int), entered_by(EntryType::Momentum)),
            safe == count_where(positions@.take(i as int), entered_by(EntryType::SafeEntry)),
            reversal == count_where(positions@.take(i as int), entered_by(EntryType::Reversal)),
            oldest_ms == oldest_held(positions@.take(i as int), now_ms),
            total_size == all_sizes(positions@.take(i as int)),
            up + down == i,
            momentum + safe + reversal == i,
        decreases positions@.len() - i,
    {
        let p = &positions[i];
        proof {
            lemma_count_step(positions@, on_side(Side::Up), i as int);
            lemma_count_step(positions@, on_side(Side::Down), i as int);
            lemma_count_step(positions@, entered_by(EntryType::Momentum), i as int);
            lemma_count_step(positions@, entered_by(EntryType::SafeEntry), i as int);
            lemma_count_step(positions@, entered_by(EntryType::Reversal), i as int);
            assert(positions@.take(i + 1).drop_last() =~= positions@.take(i as int));
            assert(positions@.take(i + 1).last() == *p);
        }
        match p.side {
            Side::Up => {
                up += 1;
            },
            Side::Down => {
                down += 1;
            },
        }
        match p.entry_type() {
            EntryType::Momentum => {
                momentum += 1;
            },
            EntryType::SafeEntry => {
                safe += 1;
            },
            EntryType::Reversal => {
                reversal += 1;
            },
        }
        let age = p.held_ms(now_ms);
        if age > oldest_ms {
            oldest_ms = age;
        }
        total_size =
        match total_size {
            Some(sum) => sum.plus(p.size),
            None => None,
        };
        i += 1;
    }
    proof {
        assert(positions@.take(i as int) =~= positions@);
    }
    PositionSummary {
        count: positions.len(),
        up,
        down,
        momentum,
        safe,
        reversal,
        oldest_ms,
        total_size,
    }
}

/// The price shown for entering a side: its ask, or what the bid of the other
/// side leaves of one where that is lower; nothing without an ask.
pub fn shown_entry(book: &Orderbook, side: Side) -> (r: Option<Dec>)
    ensures
        ({
            let (ask, bid) = match side {
                Side::Up => (book.up_best_ask, book.down_best_bid),
                Side::Down => (book.down_best_ask, book.up_best_bid),
            };
            r == (match ask {
                Some(a) => match bid {
                    Some(b) => match Dec::of(1, 0).spec_minus(b) {
                        Some(implied) => if a@ > implied@ {
                            Some(implied)
                        } else {
                            Some(a)
                        },
                        None => None,
                    },
                    None => Some(a),
                },
                None => None,
            })
        }),
{
    let (ask, bid) = match side {
        Side::Up => (book.up_best_ask, book.down_best_bid),
        Side::Down => (book.down_best_ask, book.up_best_bid),
    };
    match ask {
        Some(a) => match bid {
            Some(b) => match Dec::new(1, 0).minus(b) {
                Some(implied) => if implied.lt(a) {
                    Some(implied)
                } else {
                    Some(a)
                },
                None => None,
            },
            None => Some(a),
        },
        None => None,
    }
}

// ---------------------------------------------------------------------------
// Log lines
// ---------------------------------------------------------------------------

/// The tone of a log line.
#[derive(Clone, Copy, Debug, PartialEq, Eq, Structural)]
pub enum Tone {
    Good,
    Bad,
    Entry,
    Warning,
    Plain,
}

/// The tone of a line of the trading bot's log.
pub open spec fn bot_tone_of(line: Seq<char>) -> Tone {
    if contains_text(line, "[OK]"@) || contains_text(line, "EXIT"@) {
        Tone::Good
    } else if contains_text(line, "[X]"@) || contains_text(line, "error"@) || contains_text(
        line,
        "Error"@,
    ) {
        Tone::Bad
    } else if contains_text(line, ">>> ENTER"@) || contains_text(line, "ENTRY"@) {
        Tone::Entry
    } else if contains_text(line, "[!]"@) || contains_text(line, "WARN"@) {
        Tone::Warning
    } else {
        Tone::Plain
    }
}

/// Tells the tone of a line of the trading bot's log.
pub fn bot_tone(line: &str) -> (r: Tone)
    ensures
        r == bot_tone_of(line@),
{
    if contains(line, "[OK]") || contains(line, "EXIT") {
        Tone::Good
    } else if contains(line, "[X]") || contains(line, "error") || contains(line, "Error") {
        Tone::Bad
    } else if contains(line, ">>> ENTER") || contains(line, "ENTRY") {
        Tone::Entry
    } else if contains(line, "[!]") || contains(line, "WARN") {
        Tone::Warning
    } else {
        Tone::Plain
    }
}

/// The tone of a line of the position manager's log.
pub open spec fn manager_tone_of(line: Seq<char>) -> Tone {
    if contains_text(line, "[OK]"@) {
        Tone::Good
    } else if contains_text(line, "[X]"@) {
        Tone::Bad
    } else if contains_text(line, "[!]"@) || contains_text(line, ">>>"@) {
        Tone::Warning
    } else {
        Tone::Plain
    }
}

/// Tells the tone of a line of the position manager's log.
pub fn manager_tone(line: &str) -> (r: Tone)
    ensures
        r == manager_tone_of(line@),
{
    if contains(line, "[OK]") {
        Tone::Good
    } else if contains(line, "[X]") {
        Tone::Bad
    } else if contains(line, "[!]") || contains(line, ">>>") {
        Tone::Warning
    } else {
        Tone::Plain
    }
}

// ---------------------------------------------------------------------------
// Laws
// ---------------------------------------------------------------------------

/// The wins of a window are among its trades, and no trade counts as won and as
/// lost.
pub proof fn law_selections_are_consistent(trades: Seq<TradeRecord>, from_ms: i64)
    ensures
        selected_count(trades, Selection::WonSince(from_ms)) <= selected_count(
            trades,
            Selection::Since(from_ms),
        ),
        selected_count(trades, Selection::Won) + selected_count(trades, Selection::Lost)
            <= trades.len(),
    decreases trades.len(),
{
    if trades.len() > 0 {
        law_selections_are_consistent(trades.drop_last(), from_ms);
    }
}

/// Which trades count: by the time they were completed, and as won or lost by the
/// sign of their profit.
pub proof fn law_trades_are_selected_by_time_and_profit(t: TradeRecord, from_ms: i64)
    ensures
        selects(Selection::Since(from_ms), t) <==> t.time_ms >= from_ms,
        selects(Selection::WonSince(from_ms), t) <==> t.time_ms >= from_ms && t.pnl@ > 0,
        selects(Selection::Won, t) <==> t.pnl@ > 0,
        selects(Selection::Lost, t) <==> t.pnl@ < 0,
{
}

/// A trade made its profit per share times its size, and without its sign where
/// that is asked for.
pub proof fn law_trades_make_profit_times_size(t: TradeRecord)
    ensures
        t.pnl.spec_times(t.size) is None ==> made_by(t, false) is None && made_by(t, true) is None,
        t.pnl.spec_times(t.size) matches Some(usd) ==> made_by(t, false) == Some(usd) && made_by(
            t,
            true,
        ) == Some(usd.spec_abs()),
{
}

/// One more trade adds what it made to the total, and one to the count, exactly
/// where it counts.
pub proof fn law_totals_add_up(
    trades: Seq<TradeRecord>,
    t: TradeRecord,
    which: Selection,
    unsigned: bool,
)
    ensures
        total_made(Seq::<TradeRecord>::empty(), which, unsigned) == Some(Dec::of(0, 0)),
        selected_count(Seq::<TradeRecord>::empty(), which) == 0,
        !selects(which, t) ==> total_made(trades.push(t), which, unsigned) == total_made(
            trades,
            which,
            unsigned,
        ) && selected_count(trades.push(t), which) == selected_count(trades, which),
        selects(which, t) ==> selected_count(trades.push(t), which) == selected_count(trades, which)
            + 1,
        forall|sum: Dec, usd: Dec|
            selects(which, t) && total_made(trades, which, unsigned) == Some(sum) && made_by(
                t,
                unsigned,
            ) == Some(usd) ==> total_made(trades.push(t), which, unsigned)
                == #[trigger] sum.spec_plus(usd),
        selects(which, t) && (total_made(trades, which, unsigned) is None || made_by(t, unsigned)
            is None) ==> total_made(trades.push(t), which, unsigned) is None,
{
    assert(trades.push(t).drop_last() =~= trades);
}

/// The largest that a trade made is what one of them made, and none made more; the
/// smallest likewise, and none made less.
pub proof fn law_extremes_are_made_by_a_trade(trades: Seq<TradeRecord>, largest: bool)
    ensures
        trades.len() == 0 ==> extreme_made(trades, largest) == Some(None::<Dec>),
        extreme_made(trades, largest) matches Some(found) ==> {
            &&& trades.len() > 0 ==> found is Some
            &&& forall|i: int|
                0 <= i < trades.len() ==> {
                    let made = (#[trigger] trades[i]).pnl.spec_times(trades[i].size);
                    &&& made is Some
                    &&& largest ==> made->0@ <= found->0@
                    &&& !largest ==> made->0@ >= found->0@
                }
            &&& trades.len() > 0 ==> exists|i: int|
                0 <= i < trades.len() && (#[trigger] trades[i]).pnl.spec_times(trades[i].size)
                    == found
        },
        (forall|i: int|
            0 <= i < trades.len() ==> (#[trigger] trades[i]).pnl.spec_times(trades[i].size)
                is Some) ==> extreme_made(trades, largest) is Some,
    decreases trades.len(),
{
    if trades.len() > 0 {
        let before = trades.drop_last();
        let n = trades.len() - 1;
        law_extremes_are_made_by_a_trade(before, largest);
        assert(trades.last() == trades[n]);
        assert forall|i: int| 0 <= i < n implies #[trigger] before[i] == trades[i] by {}
        if extreme_made(trades, largest) is Some {
            let found = extreme_made(trades, largest)->0;
            assert forall|i: int| 0 <= i < trades.len() implies {
                let made = (#[trigger] trades[i]).pnl.spec_times(trades[i].size);
                &&& made is Some
                &&& largest ==> made->0@ <= found->0@
                &&& !largest ==> made->0@ >= found->0@
            } by {
                if i < n {
                    assert(before[i] == trades[i]);
                }
            }
            if found != trades[n].pnl.spec_times(trades[n].size) {
                assert(before.len() > 0);
                let i = choose|i: int|
                    0 <= i < before.len() && (#[trigger] before[i]).pnl.spec_times(before[i].size)
                        == found;
                assert(trades[i] == before[i]);
            }
        }
        if forall|i: int|
            0 <= i < trades.len() ==> (#[trigger] trades[i]).pnl.spec_times(trades[i].size)
                is Some {
            assert forall|i: int| 0 <= i < before.len() implies (#[trigger] before[i]).pnl.spec_times(
                before[i].size,
            ) is Some by {
                assert(before[i] == trades[i]);
            }
        }
    }
}

/// An average is the total divided by the count, and zero of nothing.
pub proof fn law_averages_divide_by_the_count(total: Dec, count: nat)
    ensures
        count == 0 ==> average(total, count) == Some(Dec::of(0, 0)),
        count > 0 ==> average(total, count) == total.spec_over(Dec::of(count as int, 0)),
{
}

/// What the statistics of trades say: profit, trades and wins of the window, what
/// was won and lost in all, their ratio where something was lost, and averages
/// and extremes.
pub proof fn law_statistics_say_what_was_traded(
    stats: TradeStats,
    trades: Seq<TradeRecord>,
    from_ms: i64,
)
    requires
        are_stats_of(stats, trades, from_ms),
    ensures
        Some(stats.window_pnl) == total_made(trades, Selection::Since(from_ms), false),
        stats.window_trades == selected_count(trades, Selection::Since(from_ms)),
        stats.window_wins == selected_count(trades, Selection::WonSince(from_ms)),
        Some(stats.gross_profit) == total_made(trades, Selection::Won, false),
        Some(stats.gross_loss) == total_made(trades, Selection::Lost, true),
        stats.gross_loss@ > 0 ==> stats.profit_factor == stats.gross_profit.spec_over(
            stats.gross_loss,
        ),
        stats.gross_loss@ <= 0 ==> stats.profit_factor is None,
        selected_count(trades, Selection::Won) > 0 ==> Some(stats.avg_win)
            == stats.gross_profit.spec_over(
            Dec::of(selected_count(trades, Selection::Won) as int, 0),
        ),
        selected_count(trades, Selection::Won) == 0 ==> stats.avg_win == Dec::of(0, 0),
        selected_count(trades, Selection::Lost) > 0 ==> Some(stats.avg_loss)
            == stats.gross_loss.spec_over(
            Dec::of(selected_count(trades, Selection::Lost) as int, 0),
        ),
        selected_count(trades, Selection::Lost) == 0 ==> stats.avg_loss == Dec::of(0, 0),
        trades.len() > 0 ==> extreme_made(trades, true) == Some(Some(stats.max_win))
            && extreme_made(trades, false) == Some(Some(stats.max_loss)),
        trades.len() == 0 ==> stats.max_win == Dec::of(0, 0) && stats.max_loss == Dec::of(0, 0),
{
    law_extremes_are_made_by_a_trade(trades, true);
    law_extremes_are_made_by_a_trade(trades, false);
}

/// The oldest position has been held as long as one of them, and none longer.
pub proof fn law_oldest_is_held_longest(positions: Seq<Position>, now_ms: u64)
    ensures
        positions.len() == 0 ==> oldest_held(positions, now_ms) == 0,
        forall|i: int|
            0 <= i < positions.len() && (#[trigger] positions[i]).entry_ms <= now_ms ==> now_ms
                - positions[i].entry_ms <= oldest_held(positions, now_ms),
        oldest_held(positions, now_ms) > 0 ==> exists|i: int|
            0 <= i < positions.len() && now_ms - (#[trigger] positions[i]).entry_ms == oldest_held(
                positions,
                now_ms,
            ),
    decreases positions.len(),
{
    if positions.len() > 0 {
        let before = positions.drop_last();
        let n = positions.len() - 1;
        law_oldest_is_held_longest(before, now_ms);
        assert(positions.last() == positions[n]);
        assert forall|i: int|
            0 <= i < positions.len() && (#[trigger] positions[i]).entry_ms <= now_ms implies now_ms
            - positions[i].entry_ms <= oldest_held(positions, now_ms) by {
            if i < n {
                assert(before[i] == positions[i]);
            }
        }
        if oldest_held(positions, now_ms) > 0 && oldest_held(positions, now_ms) == oldest_held(
            before,
            now_ms,
        ) {
            let i = choose|i: int|
                0 <= i < before.len() && now_ms - (#[trigger] before[i]).entry_ms == oldest_held(
                    before,
                    now_ms,
                );
            assert(positions[i] == before[i]);
        }
    }
}

/// One more position adds its size to all sizes, and counts for its own side and
/// its own kind of entry only.
pub proof fn law_sizes_and_sides_are_summed(positions: Seq<Position>, p: Position)
    ensures
        all_sizes(Seq::<Position>::empty()) == Some(Dec::of(0, 0)),
        forall|sum: Dec|
            all_sizes(positions) == Some(sum) ==> all_sizes(positions.push(p))
                == #[trigger] sum.spec_plus(p.size),
        all_sizes(positions) is None ==> all_sizes(positions.push(p)) is None,
        on_side(Side::Up)(p) <==> p.side == Side::Up,
        on_side(Side::Down)(p) <==> p.side == Side::Down,
        entered_by(EntryType::Reversal)(p) <==> p.is_reversal,
        entered_by(EntryType::SafeEntry)(p) <==> p.is_safe_entry && !p.is_reversal,
        entered_by(EntryType::Momentum)(p) <==> !p.is_safe_entry && !p.is_reversal,
{
    assert(positions.push(p).drop_last() =~= positions);
}

/// The tone of a log line goes by the marks in it; the first that is found counts.
pub proof fn law_tones_go_by_marks(line: Seq<char>)
    ensures
        ({
            let ok = contains_text(line, "[OK]"@);
            let bad = contains_text(line, "[X]"@);
            let warned = contains_text(line, "[!]"@);
            let done = ok || contains_text(line, "EXIT"@);
            let failed = bad || contains_text(line, "error"@) || contains_text(line, "Error"@);
            let entered = contains_text(line, ">>> ENTER"@) || contains_text(line, "ENTRY"@);
            &&& done ==> bot_tone_of(line) == Tone::Good
            &&& !done && failed ==> bot_tone_of(line) == Tone::Bad
            &&& !done && !failed && entered ==> bot_tone_of(line) == Tone::Entry
            &&& !done && !failed && !entered && (warned || contains_text(line, "WARN"@))
                ==> bot_tone_of(line) == Tone::Warning
            &&& !done && !failed && !entered && !warned && !contains_text(line, "WARN"@)
                ==> bot_tone_of(line) == Tone::Plain
            &&& ok ==> manager_tone_of(line) == Tone::Good
            &&& !ok && bad ==> manager_tone_of(line) == Tone::Bad
            &&& !ok && !bad && (warned || contains_text(line, ">>>"@)) ==> manager_tone_of(line)
                == Tone::Warning
            &&& !ok && !bad && !warned && !contains_text(line, ">>>"@) ==> manager_tone_of(line)
                == Tone::Plain
        }),
{
}

/// Statistics are given exactly where all sums, averages and extremes they are made
/// of can be held.
pub proof fn law_statistics_are_given_where_they_can_be(
    trades: Seq<TradeRecord>,
    from_ms: i64,
    won: Dec,
    lost: Dec,
)
    requires
        total_made(trades, Selection::Won, false) == Some(won),
        total_made(trades, Selection::Lost, true) == Some(lost),
    ensures
        stats_computable(trades, from_ms) <==> {
            &&& total_made(trades, Selection::Since(from_ms), false) is Some
            &&& average(won, selected_count(trades, Selection::Won)) is Some
            &&& average(lost, selected_count(trades, Selection::Lost)) is Some
            &&& extreme_made(trades, true) is Some
            &&& extreme_made(trades, false) is Some
        },
        trades.len() == 0 ==> stats_computable(trades, from_ms),
{
}

/// Without trades all statistics can be given.
pub proof fn law_no_trades_have_statistics(from_ms: i64)
    ensures
        stats_computable(Seq::<TradeRecord>::empty(), from_ms),
{
}

/// Of trades that made the same, the largest is the latest and the smallest the
/// earliest.
pub proof fn law_equal_extremes_have_an_order(
    trades: Seq<TradeRecord>,
    t: TradeRecord,
    largest: bool,
    known: Dec,
    made: Dec,
)
    requires
        extreme_made(trades, largest) == Some(Some(known)),
        t.pnl.spec_times(t.size) == Some(made),
        made@ == known@,
    ensures
        extreme_made(trades.push(t), largest) == Some(
            Some(
                if largest {
                    made
                } else {
                    known
                },
            ),
        ),
{
    assert(trades.push(t).drop_last() =~= trades);
}

} // verus!
