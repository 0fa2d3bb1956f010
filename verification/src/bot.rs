//! The trading bot as a whole: its connections, its log and its keys.

use crate::config::BotConfig;
use crate::decimal::Dec;
use crate::lists::{dropped_while, ring_pushed};
use crate::orderbook::Orderbook;
use crate::signals::{empty_board, SignalBoard};
use crate::text::{duration_text, format_duration};
use crate::ticks::{outdated, PriceHistory, TickDirections, DIRECTIONS_KEPT};
use crate::trader::{
    BlockReason, PendingSample, Position, SharedState, Tally, TradeRecord, BOT_LOG_LINES,
};
use std::collections::VecDeque;
use vstd::prelude::*;

verus! {

/// Seconds without a message after which a connection is restarted.
pub const RESTART_AFTER_SECS: u64 = 10;

/// The largest threshold that the keys can set.
pub const MAX_TICK_THRESHOLD: usize = 10;

/// The smallest threshold that the keys can set.
pub const MIN_TICK_THRESHOLD: usize = 1;

// ---------------------------------------------------------------------------
// Connections
// ---------------------------------------------------------------------------

/// How a connection stands.
#[derive(Clone, Copy, Debug, PartialEq, Eq, Structural)]
pub enum ConnectionStatus {
    Disconnected,
    Connecting,
    Connected,
}

/// What is known of a connection.
#[derive(Clone, Copy, Debug, PartialEq, Eq, Structural)]
pub struct Connection {
    pub status: ConnectionStatus,
    pub msg_count: u64,
    pub last_msg_ms: Option<u64>,
    pub latency_ms: u64,
}

/// Whether a connection claims to stand and yet has been silent for too long,
/// in whole seconds.
pub open spec fn gone_silent(c: Connection, now_ms: u64) -> bool {
    c.status == ConnectionStatus::Connected && match c.last_msg_ms {
        Some(t) => now_ms > t && (now_ms - t) / 1000 > RESTART_AFTER_SECS,
        None => false,
    }
}

impl Connection {
    /// Not connected yet.
    pub fn new() -> (r: Connection)
        ensures
            r == (Connection {
                status: ConnectionStatus::Disconnected,
                msg_count: 0,
                last_msg_ms: None,
                latency_ms: 0,
            }),
    {
        Connection {
            status: ConnectionStatus::Disconnected,
            msg_count: 0,
            last_msg_ms: None,
            latency_ms: 0,
        }
    }

    /// Counts a message.
    pub fn message(&mut self, latency_ms: u64, now_ms: u64)
        requires
            old(self).msg_count < u64::MAX,
        ensures
            *final(self) == (Connection {
                msg_count: (old(self).msg_count + 1) as u64,
                last_msg_ms: Some(now_ms),
                latency_ms,
                ..*old(self)
            }),
    {
        self.msg_count += 1;
        self.last_msg_ms = Some(now_ms);
        self.latency_ms = latency_ms;
    }

    /// Whether the connection has to be restarted.
    pub fn is_stale(&self, now_ms: u64) -> (r: bool)
        ensures
            r == gone_silent(*self, now_ms),
    {
        let silent = match self.last_msg_ms {
            Some(t) => now_ms > t && (now_ms - t) / 1000 > RESTART_AFTER_SECS,
            None => false,
        };
        self.status == ConnectionStatus::Connected && silent
    }

    /// Notes that the connection is restarted; it gets time to come up again.
    pub fn restart(&mut self, now_ms: u64)
        ensures
            *final(self) == (Connection {
                status: ConnectionStatus::Disconnected,
                last_msg_ms: Some(now_ms),
                ..*old(self)
            }),
            !gone_silent(*final(self), now_ms),
    {
        self.status = ConnectionStatus::Disconnected;
        self.last_msg_ms = Some(now_ms);
    }
}

// ---------------------------------------------------------------------------
// The state
// ---------------------------------------------------------------------------

/// The tally with which the bot starts.
pub open spec fn empty_tally() -> Tally {
    Tally {
        total_pnl: Dec::of(0, 0),
        trade_count: 0,
        win_count: 0,
        up_shares_bought: Dec::of(0, 0),
        down_shares_bought: Dec::of(0, 0),
        up_entry_count: 0,
        down_entry_count: 0,
        up_exit_count: 0,
        down_exit_count: 0,
        failed_exit_count: 0,
        up_trade_count: 0,
        down_trade_count: 0,
        session_trade_count: 0,
    }
}

/// The log with a line more at its front, and without its last line where there
/// are too many.
pub open spec fn log_with(logs: Seq<String>, line: String) -> Seq<String> {
    let all = seq![line] + logs;
    if all.len() > BOT_LOG_LINES {
        all.drop_last()
    } else {
        all
    }
}

impl SharedState {
    /// The state with which the bot starts.
    pub fn new(config: &BotConfig, now_ms: u64) -> (r: SharedState)
        ensures
            r.market is None,
            r.orderbook.is_empty_book(),
            r.positions@ == Seq::<Position>::empty(),
            r.tally == empty_tally(),
            r.trades@ == Seq::<TradeRecord>::empty(),
            r.last_third_ms is None,
            r.last_entry_side is None,
            r.last_entry_ms is None,
            r.direction_cooldown_ms == 0,
            r.ml_filtered_count == 0,
            r.momentum_signals == 0,
            r.block_reason == BlockReason::NoMarket,
            r.dry_run == config.dry_run,
            r.position_size == config.position_size,
            r.tick_threshold == config.tick_threshold,
            r.min_hold_ms == config.min_hold_ms,
            r.hold_timeout_ms == config.hold_timeout_ms,
            r.trade_limit == config.max_trades,
            r.max_trades == config.max_trades,
            r.wallet_balance == Dec::of(0, 0),
            r.session_start is None,
            r.last_market_trade_count == 0,
            !r.pre_signed_up_ready,
            !r.pre_signed_down_ready,
            r.last_big_move_ms is None,
            r.last_big_move_side is None,
            r.last_big_move_price is None,
            !r.reversal_traded,
            r.pending_calibration@ == Seq::<PendingSample>::empty(),
            r.last_resolved_market == 0,
            r.ticks.directions@ == Seq::<i8>::empty(),
            r.ticks.consecutive_up == 0,
            r.ticks.consecutive_down == 0,
            r.board == empty_board(),
            r.history.prices@ == Seq::<(u64, Dec)>::empty(),
            r.history.high == Dec::of(0, 0),
            r.history.low == Dec::of(999999, 0),
            r.btc_price == Dec::of(0, 0),
            r.binance == (Connection {
                status: ConnectionStatus::Disconnected,
                msg_count: 0,
                last_msg_ms: None,
                latency_ms: 0,
            }),
            r.polymarket == r.binance,
            r.logs@ == Seq::<String>::empty(),
            r.start_ms == now_ms,
    {
        SharedState {
            market: None,
            orderbook: Orderbook::new(),
            positions: Vec::new(),
            tally: Tally {
                total_pnl: Dec::zero(),
                trade_count: 0,
                win_count: 0,
                up_shares_bought: Dec::zero(),
                down_shares_bought: Dec::zero(),
                up_entry_count: 0,
                down_entry_count: 0,
                up_exit_count: 0,
                down_exit_count: 0,
                failed_exit_count: 0,
                up_trade_count: 0,
                down_trade_count: 0,
                session_trade_count: 0,
            },
            trades: VecDeque::new(),
            last_third_ms: None,
            last_entry_side: None,
            last_entry_ms: None,
            direction_cooldown_ms: 0,
            ml_filtered_count: 0,
            momentum_signals: 0,
            block_reason: BlockReason::NoMarket,
            dry_run: config.dry_run,
            position_size: config.position_size,
            tick_threshold: config.tick_threshold,
            min_hold_ms: config.min_hold_ms,
            hold_timeout_ms: config.hold_timeout_ms,
            trade_limit: config.max_trades,
            max_trades: config.max_trades,
            wallet_balance: Dec::zero(),
            session_start: None,
            last_market_trade_count: 0,
            pre_signed_up_ready: false,
            pre_signed_down_ready: false,
            last_big_move_ms: None,
            last_big_move_side: None,
            last_big_move_price: None,
            reversal_traded: false,
            pending_calibration: Vec::new(),
            last_resolved_market: 0,
            ticks: TickDirections::new(),
            board: SignalBoard::new(),
            history: PriceHistory::new(),
            btc_price: Dec::zero(),
            binance: Connection::new(),
            polymarket: Connection::new(),
            logs: VecDeque::new(),
            start_ms: now_ms,
        }
    }

    /// Puts a line with the time before it at the front of the log, and drops the
    /// last line where there are too many.
    pub fn add_log(&mut self, time: &str, msg: &str)
        ensures
            exists|line: String|
                line@ == "["@ + time@ + "] "@ + msg@ && final(self).logs@ == log_with(
                    old(self).logs@,
                    line,
                ),
            *final(self) == (SharedState { logs: final(self).logs, ..*old(self) }),
    {
        let line = "[".to_owned().concat(time).concat("] ").concat(msg);
        let ghost shown = line;
        self.logs.push_front(line);
        if self.logs.len() > BOT_LOG_LINES {
            let _dropped = self.logs.pop_back();
        }
        proof {
            assert(shown@ =~= "["@ + time@ + "] "@ + msg@);
            assert(self.logs@ =~= log_with(old(self).logs@, shown));
        }
    }

    /// Takes in a trade of the leading exchange: its price, its direction against
    /// the trade before and its latency.
    pub fn take_tick(&mut self, price: Dec, direction: i8, latency_ms: u64, now_ms: u64)
        requires
            old(self).binance.msg_count < u64::MAX,
        ensures
            final(self).btc_price == price,
            final(self).binance == (Connection {
                msg_count: (old(self).binance.msg_count + 1) as u64,
                last_msg_ms: Some(now_ms),
                latency_ms,
                ..old(self).binance
            }),
            final(self).history.prices@ == dropped_while(
                old(self).history.prices@.push((now_ms, price)),
                outdated(now_ms),
            ),
            final(self).history.high == (if price@ > old(self).history.high@ {
                price
            } else {
                old(self).history.high
            }),
            final(self).history.low == (if price@ < old(self).history.low@ {
                price
            } else {
                old(self).history.low
            }),
            final(self).ticks.directions@ == (if direction != 0 {
                ring_pushed(old(self).ticks.directions@, direction, DIRECTIONS_KEPT as int)
            } else {
                old(self).ticks.directions@
            }),
            old(self).ticks.directions@.len() <= DIRECTIONS_KEPT
                ==> final(self).ticks.directions@.len() <= DIRECTIONS_KEPT,
            direction == 0 ==> final(self).ticks.directions@ == old(self).ticks.directions@,
            direction != 0 && old(self).ticks.directions@.len() < 15
                ==> final(self).ticks.directions@ == old(self).ticks.directions@.push(direction),
            final(self).ticks.consecutive_up == old(self).ticks.consecutive_up,
            final(self).ticks.consecutive_down == old(self).ticks.consecutive_down,
            *final(self) == (SharedState {
                btc_price: final(self).btc_price,
                binance: final(self).binance,
                history: final(self).history,
                ticks: final(self).ticks,
                ..*old(self)
            }),
    {
        self.btc_price = price;
        self.binance.message(latency_ms, now_ms);
        self.history.push(now_ms, price);
        self.ticks.push(direction);
    }

    /// How long the bot has run, as text.
    pub fn uptime(&self, now_ms: u64) -> (r: String)
        ensures
            r@ == duration_text(
                if now_ms >= self.start_ms {
                    ((now_ms - self.start_ms) / 1000) as nat
                } else {
                    0
                },
            ),
    {
        let elapsed: u64 = if now_ms >= self.start_ms {
            now_ms - self.start_ms
        } else {
            0
        };
        format_duration(elapsed / 1000)
    }

    // -----------------------------------------------------------------------
    // Keys
    // -----------------------------------------------------------------------

    /// Toggles the dry run.  The result tells whether orders have to be signed at
    /// once: the bot is live now, and there is a market.
    pub fn toggle_dry_run(&mut self) -> (r: bool)
        ensures
            *final(self) == (SharedState { dry_run: !old(self).dry_run, ..*old(self) }),
            r == (old(self).dry_run && old(self).market is Some),
    {
        self.dry_run = !self.dry_run;
        !self.dry_run && self.market.is_some()
    }

    /// Raises the threshold on ticks by one, up to its largest value.
    pub fn raise_threshold(&mut self)
        ensures
            *final(self) == (SharedState {
                tick_threshold: if old(self).tick_threshold < MAX_TICK_THRESHOLD {
                    (old(self).tick_threshold + 1) as usize
                } else {
                    MAX_TICK_THRESHOLD
                },
                ..*old(self)
            }),
            old(self).tick_threshold < 10 ==> final(self).tick_threshold == old(self).tick_threshold
                + 1,
            old(self).tick_threshold >= 10 ==> final(self).tick_threshold == 10,
    {
        self.tick_threshold =
        if self.tick_threshold < MAX_TICK_THRESHOLD {
            self.tick_threshold + 1
        } else {
            MAX_TICK_THRESHOLD
        };
    }

    /// Lowers the threshold on ticks by one, down to its smallest value.
    pub fn lower_threshold(&mut self)
        ensures
            *final(self) == (SharedState {
                tick_threshold: if old(self).tick_threshold > MIN_TICK_THRESHOLD {
                    (old(self).tick_threshold - 1) as usize
                } else {
                    MIN_TICK_THRESHOLD
                },
                ..*old(self)
            }),
            old(self).tick_threshold > 1 ==> final(self).tick_threshold == old(self).tick_threshold
                - 1,
            old(self).tick_threshold <= 1 ==> final(self).tick_threshold == 1,
    {
        self.tick_threshold =
        if self.tick_threshold > MIN_TICK_THRESHOLD {
            self.tick_threshold - 1
        } else {
            MIN_TICK_THRESHOLD
        };
    }

    /// Notes that orders of both tokens are signed.
    pub fn mark_pre_signed(&mut self)
        ensures
            *final(self) == (SharedState {
                pre_signed_up_ready: true,
                pre_signed_down_ready: true,
                ..*old(self)
            }),
    {
        self.pre_signed_up_ready = true;
        self.pre_signed_down_ready = true;
    }
}

/// The minimum volatility that follows one with the given whole part, in
/// dollars.
pub open spec fn volatility_after(whole: u32) -> u32 {
    if whole <= 2 {
        5
    } else if whole <= 6 {
        10
    } else if whole <= 12 {
        15
    } else if whole <= 20 {
        0
    } else {
        5
    }
}

/// Steps through the values of the minimum volatility.
pub fn next_min_volatility(whole: u32) -> (r: u32)
    ensures
        r == volatility_after(whole),
{
    if whole <= 2 {
        5
    } else if whole <= 6 {
        10
    } else if whole <= 12 {
        15
    } else if whole <= 20 {
        0
    } else {
        5
    }
}

// ---------------------------------------------------------------------------
// Laws
// ---------------------------------------------------------------------------

/// Whatever the minimum volatility was, the key sets one of four values, and from
/// each of them four presses lead back to it.
pub proof fn law_min_volatility_cycles(whole: u32)
    ensures
        ({
            let set = volatility_after(whole);
            &&& set == 0 || set == 5 || set == 10 || set == 15
            &&& volatility_after(
                volatility_after(volatility_after(volatility_after(set))),
            ) == set
        }),
{
}

/// The log never holds more lines than are kept, and its first line is the
/// newest.
pub proof fn law_bot_log_is_bounded(logs: Seq<String>, line: String)
    requires
        logs.len() <= BOT_LOG_LINES,
    ensures
        log_with(logs, line).len() <= BOT_LOG_LINES,
        log_with(logs, line)[0] == line,
{
}

/// A connection that was just restarted, or has just had a message, is not
/// restarted again.
pub proof fn law_fresh_connection_is_kept(c: Connection, now_ms: u64)
    requires
        c.last_msg_ms == Some(now_ms),
    ensures
        !gone_silent(c, now_ms),
{
}

/// A connection is restarted exactly where it claims to stand and its last message
/// is more than ten whole seconds old; one that has had no message is not.
pub proof fn law_silent_connections_are_restarted(c: Connection, now_ms: u64)
    ensures
        c.status != ConnectionStatus::Connected ==> !gone_silent(c, now_ms),
        c.last_msg_ms is None ==> !gone_silent(c, now_ms),
        c.status == ConnectionStatus::Connected ==> (c.last_msg_ms matches Some(t) ==> (gone_silent(
            c,
            now_ms,
        ) <==> now_ms >= t + 11000)),
{
}

/// The bot starts without trades, shares and profit.
pub proof fn law_bot_starts_with_nothing()
    ensures
        empty_tally().total_pnl == Dec::of(0, 0),
        empty_tally().up_shares_bought == Dec::of(0, 0),
        empty_tally().down_shares_bought == Dec::of(0, 0),
        empty_tally().trade_count == 0,
        empty_tally().win_count == 0,
        empty_tally().up_entry_count == 0,
        empty_tally().down_entry_count == 0,
        empty_tally().up_exit_count == 0,
        empty_tally().down_exit_count == 0,
        empty_tally().failed_exit_count == 0,
        empty_tally().up_trade_count == 0,
        empty_tally().down_trade_count == 0,
        empty_tally().session_trade_count == 0,
{
}

/// The log of the bot keeps its lines in order, the newest first, and only the
/// oldest is dropped, once there are a hundred.
pub proof fn law_bot_log_drops_only_the_oldest(logs: Seq<String>, line: String)
    ensures
        logs.len() < 100 ==> log_with(logs, line) == seq![line] + logs,
        logs.len() >= 100 ==> log_with(logs, line) == seq![line] + logs.subrange(
            0,
            logs.len() - 1,
        ),
{
    if logs.len() >= 100 {
        assert((seq![line] + logs).drop_last() =~= seq![line] + logs.subrange(0, logs.len() - 1));
    }
}

/// The minimum volatility goes from 0 to 5, to 10, to 15 and back to 0; a value in
/// between goes on from the nearest of these.
pub proof fn law_volatility_steps_by_five(whole: u32)
    ensures
        whole <= 2 ==> volatility_after(whole) == 5,
        3 <= whole <= 6 ==> volatility_after(whole) == 10,
        7 <= whole <= 12 ==> volatility_after(whole) == 15,
        13 <= whole <= 20 ==> volatility_after(whole) == 0,
        whole > 20 ==> volatility_after(whole) == 5,
{
}

} // verus!
