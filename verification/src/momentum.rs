//! The momentum bot: its trade messages, its tick window, and its decisions.
//!
//! Displacement and probabilities are floating-point computations; what they
//! say comes in as plain facts, and the decision on them is made here.

use crate::binance::{
    after_field, extract_json_field, field_value, price_pattern, quantity_pattern, quoted_value,
    time_pattern,
};
use crate::bytes::{find, find_byte, parse_i64, signed_value, text_of};
use crate::decimal::div_toward_zero;
use crate::lists::{law_picking_is_exact, lemma_picked_step, picked, ring_pushed};
use crate::side::Side;
use crate::ticks::{buy_flags, longest_run, longest_runs, Tick};
use crate::window::{is_zero_bits, zero_bits};
use std::collections::VecDeque;
use vstd::prelude::*;
use vstd::slice::slice_subrange;
use vstd::utf8::*;

verus! {

/// How many ticks the bot keeps.
pub const MOMENTUM_TICKS: usize = 500;

/// Every how many ticks signals are looked for.
pub const SIGNAL_EVERY: u64 = 10;

/// How many ticks there have to be before a spike is looked for.
pub const TICKS_FOR_SPIKE: usize = 10;

/// How many of them have to be recent.
pub const RECENT_FOR_SPIKE: usize = 5;

/// How many signs make a spike.
pub const SIGNS_FOR_SPIKE: u8 = 2;

/// The run that has to be exceeded to count as a sign.
pub const RUN_FOR_SPIKE: usize = 5;

// ---------------------------------------------------------------------------
// Trade messages
// ---------------------------------------------------------------------------

/// A trade message: its time in microseconds, the texts of price and quantity,
/// and whether it was bought.
#[derive(Debug)]
pub struct TradeMessage<'a> {
    pub ts_us: i64,
    pub price: &'a str,
    pub quantity: &'a str,
    pub is_buy: bool,
}

/// The bytes `"m":` that stand before the mark of the maker.
pub open spec fn maker_pattern() -> Seq<u8> {
    seq![34u8, 109u8, 34u8, 58u8]
}

/// The time of a message in milliseconds: what stands up to the next comma.
pub open spec fn message_time(json: Seq<u8>) -> Option<int> {
    match field_value(json, time_pattern(), seq![44u8]) {
        Some(digits) => match signed_value(digits) {
            Some(ms) => if i64::MIN <= ms <= i64::MAX {
                Some(ms)
            } else {
                None
            },
            None => None,
        },
        None => None,
    }
}

/// Whether bytes begin with `true`.
pub open spec fn begins_true(rest: Seq<u8>) -> bool {
    rest.len() >= 4 && rest[0] == 116 && rest[1] == 114 && rest[2] == 117 && rest[3] == 101
}

/// Whether a message holds all that is read of it, with a time that still fits
/// in microseconds.
pub open spec fn is_trade_message(json: Seq<u8>) -> bool {
    &&& message_time(json) matches Some(ms)
    &&& i64::MIN <= ms * 1000 <= i64::MAX
    &&& quoted_value(json, price_pattern()) is Some
    &&& quoted_value(json, quantity_pattern()) is Some
    &&& after_field(json, maker_pattern()) is Some
}

/// Reads the time of a message.
fn read_time(json: &[u8]) -> (r: Option<i64>)
    ensures
        match r {
            Some(ms) => message_time(json@) == Some(ms as int),
            None => message_time(json@) is None,
        },
{
    let time_mark: [u8; 4] = [34, 84, 34, 58];
    assert(time_mark@ =~= time_pattern());
    let pos = match find(json, time_mark.as_slice()) {
        Some(pos) => pos,
        None => {
            return None;
        },
    };
    let total: usize = json.len();
    let rest = slice_subrange(json, pos + 4, total);
    let end = match find_byte(rest, 44) {
        Some(end) => end,
        None => {
            return None;
        },
    };
    match text_of(slice_subrange(rest, 0, end)) {
        Some(text) => parse_i64(text.as_bytes()),
        None => None,
    }
}

/// Reads a trade message of the Binance stream.  A trade whose maker bought was
/// sold.
pub fn parse_binance_trade_fast<'a>(json: &'a [u8]) -> (r: Option<TradeMessage<'a>>)
    ensures
        r is Some <==> is_trade_message(json@),
        r matches Some(m) ==> {
            &&& message_time(json@) matches Some(ms)
            &&& m.ts_us == ms * 1000
            &&& quoted_value(json@, price_pattern()) == Some(encode_utf8(m.price@))
            &&& quoted_value(json@, quantity_pattern()) == Some(encode_utf8(m.quantity@))
            &&& m.is_buy == !begins_true(after_field(json@, maker_pattern())->0)
        },
{
    let price_mark: [u8; 5] = [34, 112, 34, 58, 34];
    let quantity_mark: [u8; 5] = [34, 113, 34, 58, 34];
    let maker_mark: [u8; 4] = [34, 109, 34, 58];
    assert(price_mark@ =~= price_pattern());
    assert(quantity_mark@ =~= quantity_pattern());
    assert(maker_mark@ =~= maker_pattern());
    let ms = match read_time(json) {
        Some(ms) => ms,
        None => {
            return None;
        },
    };
    let price = match extract_json_field(json, price_mark.as_slice()) {
        Some(price) => price,
        None => {
            return None;
        },
    };
    let quantity = match extract_json_field(json, quantity_mark.as_slice()) {
        Some(quantity) => quantity,
        None => {
            return None;
        },
    };
    let pos = match find(json, maker_mark.as_slice()) {
        Some(pos) => pos,
        None => {
            return None;
        },
    };
    let total: usize = json.len();
    let rest = slice_subrange(json, pos + 4, total);
    let is_sell = rest.len() >= 4 && rest[0] == 116 && rest[1] == 114 && rest[2] == 117 && rest[3]
        == 101;
    let wide: i128 = ms as i128 * 1000;
    if wide < i64::MIN as i128 || wide > i64::MAX as i128 {
        return None;
    }
    Some(TradeMessage { ts_us: wide as i64, price, quantity, is_buy: !is_sell })
}

// ---------------------------------------------------------------------------
// Ticks
// ---------------------------------------------------------------------------

/// The last ticks.
#[derive(Debug)]
pub struct TickMomentum {
    pub ticks: VecDeque<Tick>,
    pub max_ticks: usize,
}

/// A tick, where it is not older than the given time.
pub open spec fn tick_since(cutoff_us: int) -> spec_fn(int, Tick) -> Option<Tick> {
    |i: int, t: Tick|
        if t.timestamp_us >= cutoff_us {
            Some(t)
        } else {
            None
        }
}

/// The ticks of the given milliseconds before the last one.
pub open spec fn recent_ticks(ticks: Seq<Tick>, lookback_ms: i64) -> Seq<Tick> {
    picked(ticks, tick_since(ticks.last().timestamp_us - lookback_ms * 1000))
}

impl TickMomentum {
    /// No ticks yet.
    pub fn new(max_ticks: usize) -> (r: TickMomentum)
        ensures
            r.ticks@ == Seq::<Tick>::empty(),
            r.max_ticks == max_ticks,
    {
        TickMomentum { ticks: VecDeque::new(), max_ticks }
    }

    /// Takes in a tick, and drops the oldest one where there are too many.
    pub fn push(&mut self, tick: Tick)
        requires
            old(self).ticks@.len() < usize::MAX,
        ensures
            final(self).ticks@ == ring_pushed(old(self).ticks@, tick, old(self).max_ticks as int),
            final(self).max_ticks == old(self).max_ticks,
    {
        self.ticks.push_back(tick);
        if self.ticks.len() > self.max_ticks {
            let _oldest = self.ticks.pop_front();
        }
        assert(self.ticks@ =~= ring_pushed(old(self).ticks@, tick, old(self).max_ticks as int));
    }

    /// The ticks of the given milliseconds before the last one, where there are
    /// at least `needed` ticks in all.
    pub fn recent(&self, lookback_ms: i64, needed: usize) -> (r: Option<Vec<Tick>>)
        requires
            needed >= 1,
        ensures
            r is Some <==> self.ticks@.len() >= needed,
            r matches Some(window) ==> window@ == recent_ticks(self.ticks@, lookback_ms),
    {
        let total: usize = self.ticks.len();
        if total < needed {
            return None;
        }
        let now_us: i64 = self.ticks[total - 1].timestamp_us;
        let cutoff: i128 = now_us as i128 - lookback_ms as i128 * 1000;
        let ghost pick = tick_since(cutoff as int);
        let mut out: Vec<Tick> = Vec::new();
        let mut i: usize = 0;
        proof {
            assert(self.ticks@.take(0) =~= Seq::empty());
        }
        while i < total
            invariant
                i <= total,
                total == self.ticks@.len(),
                pick == tick_since(cutoff as int),
                out@ == picked(self.ticks@.take(i as int), pick),
            decreases total - i,
        {
            proof {
                lemma_picked_step(self.ticks@, pick, i as int);
            }
            let t = self.ticks[i];
            if t.timestamp_us as i128 >= cutoff {
                out.push(t);
            }
            i += 1;
        }
        proof {
            assert(self.ticks@.take(i as int) =~= self.ticks@);
        }
        Some(out)
    }
}

/// What the prices and quantities of recent ticks tell.
#[derive(Clone, Copy, Debug, PartialEq, Eq, Structural)]
pub struct SpikeFacts {
    /// The price has risen by more than the threshold.
    pub price_up: bool,
    /// The price has fallen by more than the threshold.
    pub price_down: bool,
    /// Clearly more was bought than sold.
    pub volume_up: bool,
    /// Clearly more was sold than bought.
    pub volume_down: bool,
    /// Ticks come fast.
    pub fast: bool,
}

/// A spike, or none.
#[derive(Clone, Copy, Debug, PartialEq, Eq, Structural)]
pub struct Spike {
    /// Up is one, down minus one, and no spike zero.
    pub direction: i8,
    /// Signs that speak for it, out of four; none without a spike.
    pub signs: u8,
}

/// One for a sign that holds.
pub open spec fn sign(holds: bool) -> u8 {
    if holds {
        1
    } else {
        0
    }
}

/// How many signs speak for a side.
pub open spec fn signs_for(window: Seq<Tick>, facts: SpikeFacts, side: Side) -> int {
    match side {
        Side::Up => sign(facts.price_up) + sign(facts.volume_up) + sign(
            longest_run(buy_flags(window), true) > RUN_FOR_SPIKE,
        ) + sign(facts.fast),
        Side::Down => sign(facts.price_down) + sign(facts.volume_down) + sign(
            longest_run(buy_flags(window), false) > RUN_FOR_SPIKE,
        ) + sign(facts.fast),
    }
}

/// The spike that recent ticks show: two signs of one side, up before down.
pub open spec fn spike_in(window: Seq<Tick>, facts: SpikeFacts) -> Spike {
    if window.len() < RECENT_FOR_SPIKE {
        Spike { direction: 0, signs: 0 }
    } else if signs_for(window, facts, Side::Up) >= SIGNS_FOR_SPIKE {
        Spike { direction: 1, signs: signs_for(window, facts, Side::Up) as u8 }
    } else if signs_for(window, facts, Side::Down) >= SIGNS_FOR_SPIKE {
        Spike { direction: (-1int) as i8, signs: signs_for(window, facts, Side::Down) as u8 }
    } else {
        Spike { direction: 0, signs: 0 }
    }
}

/// One for a sign that holds.
fn count_sign(holds: bool) -> (r: u8)
    ensures
        r == sign(holds),
{
    if holds {
        1
    } else {
        0
    }
}

/// Looks for a spike in recent ticks.
pub fn judge_spike(window: &Vec<Tick>, facts: &SpikeFacts) -> (r: Spike)
    ensures
        r == spike_in(window@, *facts),
{
    if window.len() < RECENT_FOR_SPIKE {
        return Spike { direction: 0, signs: 0 };
    }
    let (up_run, down_run) = longest_runs(window);
    let up: u8 = count_sign(facts.price_up) + count_sign(facts.volume_up) + count_sign(
        up_run > RUN_FOR_SPIKE,
    ) + count_sign(facts.fast);
    let down: u8 = count_sign(facts.price_down) + count_sign(facts.volume_down) + count_sign(
        down_run > RUN_FOR_SPIKE,
    ) + count_sign(facts.fast);
    if up >= SIGNS_FOR_SPIKE {
        Spike { direction: 1, signs: up }
    } else if down >= SIGNS_FOR_SPIKE {
        Spike { direction: -1, signs: down }
    } else {
        Spike { direction: 0, signs: 0 }
    }
}

impl TickMomentum {
    /// Looks for a spike in the ticks of the given milliseconds, given what their
    /// prices and quantities tell.
    pub fn detect_spike(&self, lookback_ms: i64, facts: &SpikeFacts) -> (r: Spike)
        ensures
            r == (if self.ticks@.len() < TICKS_FOR_SPIKE {
                Spike { direction: 0, signs: 0 }
            } else {
                spike_in(recent_ticks(self.ticks@, lookback_ms), *facts)
            }),
            self.ticks@.len() < 10 ==> r.direction == 0 && r.signs == 0,
            self.ticks@.len() >= 10 ==> r == spike_in(
                recent_ticks(self.ticks@, lookback_ms),
                *facts,
            ),
    {
        match self.recent(lookback_ms, TICKS_FOR_SPIKE) {
            Some(window) => judge_spike(&window, facts),
            None => Spike { direction: 0, signs: 0 },
        }
    }
}

// ---------------------------------------------------------------------------
// Entering
// ---------------------------------------------------------------------------

/// Milliseconds of a window.
pub const MOMENTUM_WINDOW_MS: i64 = 3_600_000;

/// Milliseconds from the start of a window in which early entries are made.
pub const EARLY_WINDOW_MS: i64 = 180_000;

/// Milliseconds before the end of a window in which late entries are made.
pub const LATE_WINDOW_MS: i64 = 300_000;

/// A window with the price at its start, and the price and time last looked at.
/// The fields that end in `bits` hold floating-point numbers by their bit
/// patterns.
#[derive(Clone, Copy, Debug, PartialEq, Eq, Structural)]
pub struct MarketState {
    pub reference_bits: u64,
    pub current_bits: u64,
    pub window_start_ms: i64,
    pub current_ts_ms: i64,
}

impl MarketState {
    /// Milliseconds since the start of the window.
    pub open spec fn spec_elapsed(self) -> int {
        self.current_ts_ms - self.window_start_ms
    }

    /// A window at its start.
    pub fn new(reference_bits: u64, window_start_ms: i64) -> (r: MarketState)
        ensures
            r == (MarketState {
                reference_bits,
                current_bits: reference_bits,
                window_start_ms,
                current_ts_ms: window_start_ms,
            }),
    {
        MarketState {
            reference_bits,
            current_bits: reference_bits,
            window_start_ms,
            current_ts_ms: window_start_ms,
        }
    }

    /// Milliseconds since the start of the window.
    pub fn elapsed_ms(&self) -> (r: i128)
        ensures
            r == self.spec_elapsed(),
    {
        self.current_ts_ms as i128 - self.window_start_ms as i128
    }
}

/// Whether a moment lies in the first three minutes of a window.
pub fn in_early_window(elapsed_ms: i128) -> (r: bool)
    ensures
        r == (elapsed_ms < EARLY_WINDOW_MS),
        r == (elapsed_ms < 180_000),
{
    elapsed_ms < EARLY_WINDOW_MS as i128
}

/// Whether a moment lies in the last five minutes of a window, or after it.
pub fn in_late_window(elapsed_ms: i128) -> (r: bool)
    ensures
        r == (MOMENTUM_WINDOW_MS - elapsed_ms < LATE_WINDOW_MS),
        r == (elapsed_ms > 3_300_000),
{
    elapsed_ms > MOMENTUM_WINDOW_MS as i128 - LATE_WINDOW_MS as i128
}

/// What the displacement tells about an entry.
#[derive(Clone, Copy, Debug, PartialEq, Eq, Structural)]
pub struct EntryFacts {
    /// Displaced upward at least a little.
    pub leans_up: bool,
    /// Displaced downward at least a little.
    pub leans_down: bool,
    /// Displaced enough for a late entry, and not yet priced in.
    pub strong: bool,
    /// Displaced above zero.
    pub above: bool,
    /// The edge over the market is large enough.
    pub has_edge: bool,
}

/// How an entry came about.
#[derive(Clone, Copy, Debug, PartialEq, Eq, Structural)]
pub enum EntryChoice {
    /// On a spike early in the window.
    Early(Side),
    /// On a strong displacement late in the window.
    Late(Side),
}

/// The side of a spike.
pub open spec fn spike_side(spike: Spike) -> Side {
    if spike.direction > 0 {
        Side::Up
    } else {
        Side::Down
    }
}

/// Whether a spike is confirmed: the displacement leans the same way.
pub open spec fn confirmed(spike: Spike, facts: EntryFacts) -> bool {
    (facts.leans_up && spike.direction > 0) || (facts.leans_down && spike.direction < 0)
}

/// Whether to enter, and on what: in the first three minutes on a confirmed
/// spike, in the last five on a strong displacement with an edge.
pub open spec fn entry_choice(spike: Spike, facts: EntryFacts, elapsed_ms: int) -> Option<EntryChoice> {
    if elapsed_ms < EARLY_WINDOW_MS && spike.signs >= SIGNS_FOR_SPIKE && confirmed(spike, facts) {
        Some(EntryChoice::Early(spike_side(spike)))
    } else if MOMENTUM_WINDOW_MS - elapsed_ms < LATE_WINDOW_MS && facts.strong && facts.has_edge {
        Some(
            EntryChoice::Late(
                if facts.above {
                    Side::Up
                } else {
                    Side::Down
                },
            ),
        )
    } else {
        None
    }
}

/// Decides whether to enter.
pub fn choose_entry(spike: Spike, facts: &EntryFacts, market: &MarketState) -> (r: Option<EntryChoice>)
    ensures
        r == entry_choice(spike, *facts, market.spec_elapsed()),
{
    let elapsed: i128 = market.elapsed_ms();
    let agrees = (facts.leans_up && spike.direction > 0) || (facts.leans_down && spike.direction
        < 0);
    if in_early_window(elapsed) && spike.signs >= SIGNS_FOR_SPIKE && agrees {
        let side = if spike.direction > 0 {
            Side::Up
        } else {
            Side::Down
        };
        return Some(EntryChoice::Early(side));
    }
    if in_late_window(elapsed) && facts.strong && facts.has_edge {
        let side = if facts.above {
            Side::Up
        } else {
            Side::Down
        };
        return Some(EntryChoice::Late(side));
    }
    None
}

// ---------------------------------------------------------------------------
// Leaving
// ---------------------------------------------------------------------------

/// Why a position is held or left.
#[derive(Clone, Copy, Debug, PartialEq, Eq, Structural)]
pub enum ExitReason {
    /// Keep the position.
    Hold,
    /// The displacement is strongly in its favour.
    TakeProfit,
    /// The displacement has turned against it.
    StopLoss,
    /// The window is about to be decided.
    TimeExpiry,
    /// The ticks have turned against it.
    MomentumReversal,
}

impl ExitReason {
    /// The text shown for a reason.
    pub open spec fn spec_text(self) -> Seq<char> {
        match self {
            ExitReason::Hold => "HOLD"@,
            ExitReason::TakeProfit => "TP"@,
            ExitReason::StopLoss => "SL"@,
            ExitReason::TimeExpiry => "TIME"@,
            ExitReason::MomentumReversal => "REVERSAL"@,
        }
    }

    /// The text shown for this reason.
    pub fn to_text(self) -> (r: String)
        ensures
            r@ == self.spec_text(),
    {
        let text = match self {
            ExitReason::Hold => "HOLD",
            ExitReason::TakeProfit => "TP",
            ExitReason::StopLoss => "SL",
            ExitReason::TimeExpiry => "TIME",
            ExitReason::MomentumReversal => "REVERSAL",
        };
        text.to_owned()
    }
}

/// What the displacement, seen from a position, tells about leaving it.
#[derive(Clone, Copy, Debug, PartialEq, Eq, Structural)]
pub struct ExitFacts {
    /// The window is about to be decided.
    pub expiring: bool,
    /// Strongly in favour of the position.
    pub winning: bool,
    /// Clearly against the position.
    pub losing: bool,
    /// The momentum of the ticks is against the position.
    pub momentum_against: bool,
}

/// Whether a position is left, and why it is held or left.
#[derive(Clone, Copy, Debug, PartialEq, Eq, Structural)]
pub struct ExitDecision {
    pub should_exit: bool,
    pub reason: ExitReason,
}

/// How many signs a spike against a position needs.
pub const SIGNS_AGAINST: u8 = 3;

/// Whether a spike speaks against a position.
pub open spec fn spike_against(spike: Spike, side: Side) -> bool {
    spike.signs >= SIGNS_AGAINST && match side {
        Side::Up => spike.direction < 0,
        Side::Down => spike.direction > 0,
    }
}

/// Whether a position is left: near the decision and while it wins it is held;
/// it is left where it loses and the momentum confirms that, or on a strong
/// spike against it.
pub open spec fn exit_decision(side: Side, spike: Spike, facts: ExitFacts) -> ExitDecision {
    if facts.expiring {
        ExitDecision { should_exit: false, reason: ExitReason::TimeExpiry }
    } else if facts.winning {
        ExitDecision { should_exit: false, reason: ExitReason::TakeProfit }
    } else if facts.losing && facts.momentum_against {
        ExitDecision { should_exit: true, reason: ExitReason::StopLoss }
    } else if spike_against(spike, side) {
        ExitDecision { should_exit: true, reason: ExitReason::MomentumReversal }
    } else {
        ExitDecision { should_exit: false, reason: ExitReason::Hold }
    }
}

/// Decides whether a position is left.
pub fn decide_leaving(side: Side, spike: Spike, facts: &ExitFacts) -> (r: ExitDecision)
    ensures
        r == exit_decision(side, spike, *facts),
{
    if facts.expiring {
        return ExitDecision { should_exit: false, reason: ExitReason::TimeExpiry };
    }
    if facts.winning {
        return ExitDecision { should_exit: false, reason: ExitReason::TakeProfit };
    }
    if facts.losing && facts.momentum_against {
        return ExitDecision { should_exit: true, reason: ExitReason::StopLoss };
    }
    let against = match side {
        Side::Up => spike.direction < 0,
        Side::Down => spike.direction > 0,
    };
    if spike.signs >= SIGNS_AGAINST && against {
        return ExitDecision { should_exit: true, reason: ExitReason::MomentumReversal };
    }
    ExitDecision { should_exit: false, reason: ExitReason::Hold }
}

// ---------------------------------------------------------------------------
// The bot
// ---------------------------------------------------------------------------

/// An open position.  The fields that end in `bits` hold floating-point numbers
/// by their bit patterns.
#[derive(Clone, Copy, Debug, PartialEq, Eq, Structural)]
pub struct Position {
    pub side: Side,
    pub entry_z_bits: u64,
    pub entry_price_bits: u64,
    pub entry_ts_ms: i64,
    pub shares_bits: u64,
}

/// Window, position and results of the bot.
#[derive(Debug)]
pub struct SharedState {
    pub market: MarketState,
    pub window_id: String,
    pub up_token_id: String,
    pub down_token_id: String,
    pub up_price_bits: u64,
    pub down_price_bits: u64,
    pub position: Option<Position>,
    pub total_trades: u32,
    pub winning_trades: u32,
    pub pnl_cents: i64,
    pub dry_run: bool,
    pub position_size_bits: u64,
}

/// The bits of one half, the price of both tokens before any is known.
pub const HALF_BITS: u64 = 0x3FE0_0000_0000_0000;

/// The bot.
#[derive(Debug)]
pub struct MomentumBot {
    pub state: SharedState,
    pub tick_momentum: TickMomentum,
    pub last_tick_us: i64,
    pub tick_count: u64,
}

/// What is looked for on a tick.
#[derive(Clone, Copy, Debug, PartialEq, Eq, Structural)]
pub enum SignalCheck {
    /// Nothing.
    Skip,
    /// A reason to leave the position.
    Exit(Position),
    /// A reason to enter.
    Entry,
}

/// Whether signals are looked for on the tick with the given number: every tenth,
/// where the market has a reference price.
pub open spec fn is_looked_at(market: MarketState, number: int) -> bool {
    !zero_bits(market.reference_bits) && number % SIGNAL_EVERY as int == 0
}

/// The state after the tick with the given number: where signals are looked for,
/// the market has its price and its time.
pub open spec fn state_after_tick(s: SharedState, number: int, tick: Tick) -> SharedState {
    if is_looked_at(s.market, number) {
        SharedState {
            market: MarketState {
                current_bits: tick.price_bits,
                current_ts_ms: div_toward_zero(tick.timestamp_us as int, 1000) as i64,
                ..s.market
            },
            ..s
        }
    } else {
        s
    }
}

/// What is looked for on the tick with the given number.
pub open spec fn check_on_tick(s: SharedState, number: int) -> SignalCheck {
    if is_looked_at(s.market, number) {
        match s.position {
            Some(p) => SignalCheck::Exit(p),
            None => SignalCheck::Entry,
        }
    } else {
        SignalCheck::Skip
    }
}

impl MomentumBot {
    /// The bot before its first window.
    pub fn new(market: MarketState, dry_run: bool, position_size_bits: u64) -> (r: MomentumBot)
        ensures
            r.state.market == market,
            r.state.up_price_bits == HALF_BITS,
            r.state.down_price_bits == HALF_BITS,
            r.state.position_size_bits == position_size_bits,
            r.state.window_id@ == ""@,
            r.state.up_token_id@ == ""@,
            r.state.down_token_id@ == ""@,
            r.state.position is None,
            r.state.total_trades == 0,
            r.state.winning_trades == 0,
            r.state.pnl_cents == 0,
            r.state.dry_run == dry_run,
            r.tick_momentum.ticks@ == Seq::<Tick>::empty(),
            r.tick_momentum.max_ticks == MOMENTUM_TICKS,
            r.tick_momentum.max_ticks == 500,
            r.last_tick_us == 0,
            r.tick_count == 0,
    {
        MomentumBot {
            state: SharedState {
                market,
                window_id: "".to_owned(),
                up_token_id: "".to_owned(),
                down_token_id: "".to_owned(),
                up_price_bits: HALF_BITS,
                down_price_bits: HALF_BITS,
                position: None,
                total_trades: 0,
                winning_trades: 0,
                pnl_cents: 0,
                dry_run,
                position_size_bits,
            },
            tick_momentum: TickMomentum::new(MOMENTUM_TICKS),
            last_tick_us: 0,
            tick_count: 0,
        }
    }

    /// Takes in a tick, and decides what is looked for: nothing without a
    /// reference price, and otherwise on every tenth tick, whose price and time
    /// the market then has.
    pub fn process_tick(&mut self, tick: Tick) -> (r: SignalCheck)
        requires
            old(self).tick_count < u64::MAX,
            old(self).tick_momentum.ticks@.len() < usize::MAX,
        ensures
            final(self).tick_momentum.ticks@ == ring_pushed(
                old(self).tick_momentum.ticks@,
                tick,
                old(self).tick_momentum.max_ticks as int,
            ),
            final(self).tick_momentum.max_ticks == old(self).tick_momentum.max_ticks,
            final(self).tick_count == old(self).tick_count + 1,
            final(self).last_tick_us == tick.timestamp_us,
            final(self).state == state_after_tick(
                old(self).state,
                old(self).tick_count + 1,
                tick,
            ),
            r == check_on_tick(old(self).state, old(self).tick_count + 1),
    {
        self.tick_momentum.push(tick);
        self.tick_count += 1;
        self.last_tick_us = tick.timestamp_us;
        if is_zero_bits(self.state.market.reference_bits) || self.tick_count % SIGNAL_EVERY != 0 {
            return SignalCheck::Skip;
        }
        self.state.market.current_bits = tick.price_bits;
        self.state.market.current_ts_ms = tick.timestamp_us / 1000;
        match self.state.position {
            Some(p) => SignalCheck::Exit(p),
            None => SignalCheck::Entry,
        }
    }
}

impl SharedState {
    /// Opens a position, unless its size is none.  The result tells whether it
    /// did.
    pub fn execute_entry(&mut self, position: Position, has_size: bool) -> (r: bool)
        requires
            old(self).total_trades < u32::MAX,
        ensures
            r == has_size,
            *final(self) == (if has_size {
                SharedState {
                    position: Some(position),
                    total_trades: (old(self).total_trades + 1) as u32,
                    ..*old(self)
                }
            } else {
                *old(self)
            }),
    {
        if !has_size {
            return false;
        }
        self.position = Some(position);
        self.total_trades += 1;
        true
    }

    /// Closes the position with the given profit in cents.  Without a position
    /// nothing happens.
    pub fn execute_exit(&mut self, pnl_cents: i64, won: bool) -> (r: Option<Position>)
        requires
            i64::MIN <= old(self).pnl_cents + pnl_cents <= i64::MAX,
            old(self).winning_trades < u32::MAX,
        ensures
            r == old(self).position,
            *final(self) == (if old(self).position is Some {
                SharedState {
                    position: None,
                    pnl_cents: (old(self).pnl_cents + pnl_cents) as i64,
                    winning_trades: if won {
                        (old(self).winning_trades + 1) as u32
                    } else {
                        old(self).winning_trades
                    },
                    ..*old(self)
                }
            } else {
                *old(self)
            }),
    {
        let closed = self.position;
        if closed.is_some() {
            self.position = None;
            self.pnl_cents = self.pnl_cents + pnl_cents;
            if won {
                self.winning_trades += 1;
            }
        }
        closed
    }

    /// Begins a new window; a position of the last one is forgotten.
    pub fn update_window(
        &mut self,
        window_id: String,
        up_token_id: String,
        down_token_id: String,
        reference_bits: u64,
        window_start_ms: i64,
    )
        ensures
            *final(self) == (SharedState {
                market: MarketState {
                    reference_bits,
                    current_bits: reference_bits,
                    window_start_ms,
                    current_ts_ms: window_start_ms,
                },
                window_id,
                up_token_id,
                down_token_id,
                position: None,
                ..*old(self)
            }),
    {
        self.market = MarketState::new(reference_bits, window_start_ms);
        self.window_id = window_id;
        self.up_token_id = up_token_id;
        self.down_token_id = down_token_id;
        self.position = None;
    }

    /// Takes in the prices of both tokens.
    pub fn update_prices(&mut self, up_price_bits: u64, down_price_bits: u64)
        ensures
            *final(self) == (SharedState { up_price_bits, down_price_bits, ..*old(self) }),
    {
        self.up_price_bits = up_price_bits;
        self.down_price_bits = down_price_bits;
    }

    /// Trades, wins and profit in cents.
    pub fn stats(&self) -> (r: (u32, u32, i64))
        ensures
            r == (self.total_trades, self.winning_trades, self.pnl_cents),
    {
        (self.total_trades, self.winning_trades, self.pnl_cents)
    }
}

// ---------------------------------------------------------------------------
// Laws
// ---------------------------------------------------------------------------

/// A spike is backed by two to four signs, and goes one way.
pub proof fn law_spike_is_backed(window: Seq<Tick>, facts: SpikeFacts)
    ensures
        ({
            let s = spike_in(window, facts);
            &&& s.direction == 0 <==> s.signs == 0
            &&& s.signs == 0 || SIGNS_FOR_SPIKE <= s.signs <= 4
            &&& -1 <= s.direction <= 1
        }),
{
}

/// A position is never left near the decision of the window, nor while it
/// strongly wins.
pub proof fn law_winners_are_held(side: Side, spike: Spike, facts: ExitFacts)
    requires
        facts.expiring || facts.winning,
    ensures
        !exit_decision(side, spike, facts).should_exit,
{
}

/// A position is left only as a stop loss or on a reversal.
pub proof fn law_exits_have_a_reason(side: Side, spike: Spike, facts: ExitFacts)
    ensures
        exit_decision(side, spike, facts).should_exit <==> exit_decision(side, spike, facts).reason
            == ExitReason::StopLoss || exit_decision(side, spike, facts).reason
            == ExitReason::MomentumReversal,
{
}

/// An early entry is only made in the first three minutes of the window, on a
/// spike that the displacement confirms; a late one only in the last five, on a
/// strong displacement with an edge.
pub proof fn law_entries_need_their_window(spike: Spike, facts: EntryFacts, elapsed_ms: int)
    ensures
        entry_choice(spike, facts, elapsed_ms) matches Some(EntryChoice::Early(side)) ==> {
            &&& elapsed_ms < 180_000
            &&& spike.signs >= SIGNS_FOR_SPIKE
            &&& side == Side::Up ==> facts.leans_up && spike.direction > 0
            &&& side == Side::Down ==> facts.leans_down && spike.direction < 0
        },
        entry_choice(spike, facts, elapsed_ms) matches Some(EntryChoice::Late(side)) ==> {
            &&& MOMENTUM_WINDOW_MS - elapsed_ms < 300_000
            &&& facts.strong && facts.has_edge
        },
{
}

/// Only every tenth tick, and only with a reference price, touches the state:
/// the market then has the price and the time of the tick, and nothing else
/// changes.  A position can only be left where there is one, and only be opened
/// where there is none.
pub proof fn law_tenth_ticks_are_looked_at(s: SharedState, number: int, tick: Tick)
    ensures
        ({
            let after = state_after_tick(s, number, tick);
            let check = check_on_tick(s, number);
            if number % 10 != 0 || zero_bits(s.market.reference_bits) {
                after == s && check == SignalCheck::Skip
            } else {
                &&& after.market.current_bits == tick.price_bits
                &&& after.market.current_ts_ms == div_toward_zero(tick.timestamp_us as int, 1000)
                &&& after == (SharedState {
                    market: MarketState {
                        current_bits: after.market.current_bits,
                        current_ts_ms: after.market.current_ts_ms,
                        ..s.market
                    },
                    ..s
                })
                &&& check is Exit <==> s.position is Some
                &&& check is Entry <==> s.position is None
            }
        }),
{
}

/// The recent ticks are those of the given milliseconds before the last one.
pub proof fn law_recent_ticks_are_of_the_lookback(ticks: Seq<Tick>, lookback_ms: i64) -> (sources:
    Seq<int>)
    requires
        ticks.len() > 0,
    ensures
        sources.len() == recent_ticks(ticks, lookback_ms).len(),
        forall|k: int|
            0 <= k < sources.len() ==> 0 <= #[trigger] sources[k] < ticks.len() && recent_ticks(
                ticks,
                lookback_ms,
            )[k] == ticks[sources[k]],
        forall|j: int, k: int|
            0 <= j < k < sources.len() ==> #[trigger] sources[j] < #[trigger] sources[k],
        forall|i: int|
            0 <= i < ticks.len() ==> (sources.contains(i) <==> (#[trigger] ticks[i]).timestamp_us
                >= ticks[ticks.len() - 1].timestamp_us - 1000 * lookback_ms),
{
    let pick = tick_since(ticks.last().timestamp_us - lookback_ms * 1000);
    let sources = law_picking_is_exact(ticks, pick);
    assert forall|k: int| 0 <= k < sources.len() implies 0 <= #[trigger] sources[k] < ticks.len()
        && recent_ticks(ticks, lookback_ms)[k] == ticks[sources[k]] by {
        assert(pick(sources[k], ticks[sources[k]]) == Some(recent_ticks(ticks, lookback_ms)[k]));
    }
    assert forall|i: int| 0 <= i < ticks.len() implies (sources.contains(i) <==> (
    #[trigger] ticks[i]).timestamp_us >= ticks[ticks.len() - 1].timestamp_us - 1000
        * lookback_ms) by {
        if sources.contains(i) {
            let k = choose|k: int| 0 <= k < sources.len() && sources[k] == i;
            assert(pick(sources[k], ticks[sources[k]]) is Some);
        }
        if ticks[i].timestamp_us >= ticks[ticks.len() - 1].timestamp_us - 1000 * lookback_ms {
            assert(pick(i, ticks[i]) is Some);
        }
    }
    sources
}

/// Each of four signs counts once for its side: the price moved, the volume leans,
/// more than five ticks in a row went that way, and, for both sides, ticks come
/// fast.
pub proof fn law_four_signs_of_a_spike(window: Seq<Tick>, facts: SpikeFacts)
    ensures
        ({
            let up_run = longest_run(buy_flags(window), true) > 5;
            let down_run = longest_run(buy_flags(window), false) > 5;
            let one = |b: bool|
                if b {
                    1int
                } else {
                    0int
                };
            &&& signs_for(window, facts, Side::Up) == one(facts.price_up) + one(facts.volume_up)
                + one(up_run) + one(facts.fast)
            &&& signs_for(window, facts, Side::Down) == one(facts.price_down) + one(
                facts.volume_down,
            ) + one(down_run) + one(facts.fast)
        }),
{
}

/// A spike needs five recent ticks and two signs of one side; up comes before
/// down, and its signs are those of its side.
pub proof fn law_two_signs_make_a_spike(window: Seq<Tick>, facts: SpikeFacts)
    ensures
        ({
            let up = signs_for(window, facts, Side::Up);
            let down = signs_for(window, facts, Side::Down);
            let s = spike_in(window, facts);
            &&& window.len() < 5 ==> s.direction == 0 && s.signs == 0
            &&& window.len() >= 5 && up >= 2 ==> s.direction == 1 && s.signs == up
            &&& window.len() >= 5 && up < 2 && down >= 2 ==> s.direction == -1 && s.signs == down
            &&& window.len() >= 5 && up < 2 && down < 2 ==> s.direction == 0 && s.signs == 0
        }),
{
}

/// Entries are complete: in the first three minutes of the hour a spike of two
/// signs is followed where the displacement leans its way; in the last five
/// minutes a strong displacement with an edge is; and otherwise nothing is
/// entered.
pub proof fn law_when_the_momentum_bot_enters(spike: Spike, facts: EntryFacts, elapsed_ms: int)
    ensures
        ({
            let choice = entry_choice(spike, facts, elapsed_ms);
            let up = facts.leans_up && spike.direction > 0;
            let down = facts.leans_down && spike.direction < 0;
            let early = elapsed_ms < 180_000 && spike.signs >= 2;
            let late = elapsed_ms > 3_300_000 && facts.strong && facts.has_edge;
            &&& early && up ==> choice == Some(EntryChoice::Early(Side::Up))
            &&& early && down ==> choice == Some(EntryChoice::Early(Side::Down))
            &&& !(early && (up || down)) && late && facts.above ==> choice == Some(
                EntryChoice::Late(Side::Up),
            )
            &&& !(early && (up || down)) && late && !facts.above ==> choice == Some(
                EntryChoice::Late(Side::Down),
            )
            &&& !(early && (up || down)) && !late ==> choice is None
        }),
{
}

/// A position is left as a stop loss exactly where it is losing with the momentum
/// against it, and on a reversal where a spike of three signs goes against it;
/// neither near the decision nor while it wins.
pub proof fn law_when_the_momentum_bot_leaves(side: Side, spike: Spike, facts: ExitFacts)
    ensures
        ({
            let d = exit_decision(side, spike, facts);
            let against = spike.signs >= 3 && ((side == Side::Up && spike.direction < 0) || (side
                == Side::Down && spike.direction > 0));
            &&& facts.expiring ==> !d.should_exit && d.reason == ExitReason::TimeExpiry
            &&& !facts.expiring && facts.winning ==> !d.should_exit && d.reason
                == ExitReason::TakeProfit
            &&& !facts.expiring && !facts.winning && facts.losing && facts.momentum_against
                ==> d.should_exit && d.reason == ExitReason::StopLoss
            &&& !facts.expiring && !facts.winning && !(facts.losing && facts.momentum_against)
                && against ==> d.should_exit && d.reason == ExitReason::MomentumReversal
            &&& !facts.expiring && !facts.winning && !(facts.losing && facts.momentum_against)
                && !against ==> !d.should_exit && d.reason == ExitReason::Hold
        }),
{
}

/// The text of each reason.
pub proof fn law_exit_reasons_have_their_texts(reason: ExitReason)
    ensures
        reason is Hold ==> reason.spec_text() == "HOLD"@,
        reason is TakeProfit ==> reason.spec_text() == "TP"@,
        reason is StopLoss ==> reason.spec_text() == "SL"@,
        reason is TimeExpiry ==> reason.spec_text() == "TIME"@,
        reason is MomentumReversal ==> reason.spec_text() == "REVERSAL"@,
{
}

/// What is looked for on a tick: on a tenth one with a reference price that is not
/// zero, a reason to leave the very position there is, or a reason to enter; on
/// any other nothing.
pub proof fn law_what_is_looked_for_on_a_tick(s: SharedState, number: int)
    ensures
        ({
            let looked = number % 10 == 0 && s.market.reference_bits != 0 && s.market.reference_bits
                != 9223372036854775808;
            &&& !looked ==> check_on_tick(s, number) == SignalCheck::Skip
            &&& looked ==> (match s.position {
                Some(p) => check_on_tick(s, number) == SignalCheck::Exit(p),
                None => check_on_tick(s, number) == SignalCheck::Entry,
            })
        }),
{
}

/// The time since the start of a window is that from its start to the time last
/// looked at.
pub proof fn law_elapsed_time_is_since_the_start(m: MarketState)
    ensures
        m.spec_elapsed() == m.current_ts_ms - m.window_start_ms,
{
}

/// A trade message is one that has a time, a price, a quantity and the mark of the
/// maker, and whose time fits in microseconds; a mark that begins with `true`
/// tells a sale.
pub proof fn law_trade_messages_have_all_fields(json: Seq<u8>)
    ensures
        is_trade_message(json) <==> {
            &&& message_time(json) is Some
            &&& i64::MIN <= message_time(json)->0 * 1000 <= i64::MAX
            &&& quoted_value(json, price_pattern()) is Some
            &&& quoted_value(json, quantity_pattern()) is Some
            &&& after_field(json, maker_pattern()) is Some
        },
        maker_pattern() == seq![34u8, 109u8, 34u8, 58u8],
        forall|rest: Seq<u8>| #[trigger]
            begins_true(rest) <==> rest.len() >= 4 && rest.subrange(0, 4) == seq![
                116u8,
                114u8,
                117u8,
                101u8,
            ],
{
    assert forall|rest: Seq<u8>| #[trigger]
        begins_true(rest) <==> rest.len() >= 4 && rest.subrange(0, 4) == seq![
            116u8,
            114u8,
            117u8,
            101u8,
        ] by {
        if begins_true(rest) {
            assert(rest.subrange(0, 4) =~= seq![116u8, 114u8, 117u8, 101u8]);
        }
        if rest.len() >= 4 && rest.subrange(0, 4) == seq![116u8, 114u8, 117u8, 101u8] {
            assert(rest[0] == rest.subrange(0, 4)[0]);
            assert(rest[1] == rest.subrange(0, 4)[1]);
            assert(rest[2] == rest.subrange(0, 4)[2]);
            assert(rest[3] == rest.subrange(0, 4)[3]);
        }
    }
}

/// The time of a message is the whole number that stands behind its mark and
/// before the next comma, where it fits in 64 bits.
pub proof fn law_message_time_stands_before_a_comma(json: Seq<u8>, digits: Seq<u8>)
    ensures
        field_value(json, time_pattern(), seq![44u8]) is None ==> message_time(json) is None,
        field_value(json, time_pattern(), seq![44u8]) == Some(digits) ==> {
            &&& signed_value(digits) is None ==> message_time(json) is None
            &&& signed_value(digits) matches Some(ms) ==> {
                &&& i64::MIN <= ms <= i64::MAX ==> message_time(json) == Some(ms)
                &&& !(i64::MIN <= ms <= i64::MAX) ==> message_time(json) is None
            }
        },
{
}

/// Before any price is known both tokens count as one half: sign zero, exponent
/// 1022, no fraction.
pub proof fn law_unknown_prices_are_one_half()
    ensures
        HALF_BITS == 1022 * 4503599627370496,
        MOMENTUM_WINDOW_MS == 3_600_000,
{
}

} // verus!
