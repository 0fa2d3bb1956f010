//! Early signals: what faster exchanges show before the market moves.

use crate::decimal::Dec;
use crate::json::{
    element_pointer, json_length, json_signed, json_text, json_whole, length_at, pointer_to,
    signed_at, text_at, whole_at,
};
use crate::settings::text_of;
use crate::side::Side;
use vstd::prelude::*;

verus! {

/// Trades in one direction that make a signal.
pub const SIGNAL_STREAK: u8 = 3;

/// Trades in one direction that confirm a signal of another exchange.
pub const CONFIRM_STREAK: u8 = 2;

/// Milliseconds within which a signal can be confirmed.
pub const SIGNAL_LIFETIME_MS: u64 = 500;

/// Exchanges that have to agree before a signal may be traded.
pub const EXCHANGES_TO_AGREE: u8 = 2;

/// An exchange that is watched for early signals.
#[derive(Clone, Copy, Debug, PartialEq, Eq, Structural)]
pub enum Exchange {
    Kraken,
    Coinbase,
    Bybit,
    Bitfinex,
}

/// How many trades in a row went up or down; at most one of the two is not zero.
#[derive(Clone, Copy, Debug)]
pub struct Streak {
    pub ups: u8,
    pub downs: u8,
}

/// The streak after one trade more.
pub open spec fn extended(s: Streak, direction: i8) -> Streak {
    if direction > 0 {
        Streak { ups: (s.ups + 1) as u8, downs: 0 }
    } else if direction < 0 {
        Streak { ups: 0, downs: (s.downs + 1) as u8 }
    } else {
        s
    }
}

impl Streak {
    /// No trades yet.
    pub fn new() -> (r: Streak)
        ensures
            r == (Streak { ups: 0, downs: 0 }),
    {
        Streak { ups: 0, downs: 0 }
    }

    /// Counts one trade more; one that goes nowhere changes nothing.
    pub fn extend(&mut self, direction: i8)
        requires
            direction > 0 ==> old(self).ups < u8::MAX,
            direction < 0 ==> old(self).downs < u8::MAX,
        ensures
            *final(self) == extended(*old(self), direction),
    {
        if direction > 0 {
            self.ups += 1;
            self.downs = 0;
        } else if direction < 0 {
            self.downs += 1;
            self.ups = 0;
        }
    }
}

/// The direction of a price against the one before: up, down or neither.
pub open spec fn direction_of(last: Option<Dec>, price: Dec) -> i8 {
    match last {
        Some(l) => if price@ > l@ {
            1
        } else if price@ < l@ {
            (-1int) as i8
        } else {
            0
        },
        None => 0,
    }
}

/// Computes the direction of a price against the one before.
pub fn price_direction(last: Option<Dec>, price: Dec) -> (r: i8)
    ensures
        r == direction_of(last, price),
{
    match last {
        Some(l) => {
            if l.lt(price) {
                1
            } else if price.lt(l) {
                -1
            } else {
                0
            }
        },
        None => 0,
    }
}

/// A signal that an exchange has shown.
#[derive(Clone, Copy, Debug, PartialEq, Eq, Structural)]
pub struct EarlySignal {
    pub side: Side,
    pub at_ms: u64,
    pub source: Exchange,
}

/// Some of the exchanges.
#[derive(Clone, Copy, Debug, PartialEq, Eq, Structural)]
pub struct ExchangeSet {
    pub kraken: bool,
    pub coinbase: bool,
    pub bybit: bool,
    pub bitfinex: bool,
}

impl ExchangeSet {
    /// Whether an exchange is among them.
    pub open spec fn spec_contains(self, e: Exchange) -> bool {
        match e {
            Exchange::Kraken => self.kraken,
            Exchange::Coinbase => self.coinbase,
            Exchange::Bybit => self.bybit,
            Exchange::Bitfinex => self.bitfinex,
        }
    }

    /// The set as a mathematical one.
    pub open spec fn members(self) -> Set<Exchange> {
        Set::new(|e: Exchange| self.spec_contains(e))
    }

    /// None of them.
    pub open spec fn none() -> ExchangeSet {
        ExchangeSet { kraken: false, coinbase: false, bybit: false, bitfinex: false }
    }

    /// The same exchanges and one more.
    pub open spec fn spec_with(self, e: Exchange) -> ExchangeSet {
        match e {
            Exchange::Kraken => ExchangeSet { kraken: true, ..self },
            Exchange::Coinbase => ExchangeSet { coinbase: true, ..self },
            Exchange::Bybit => ExchangeSet { bybit: true, ..self },
            Exchange::Bitfinex => ExchangeSet { bitfinex: true, ..self },
        }
    }

    /// How many they are.
    pub open spec fn spec_count(self) -> u8 {
        let kraken: int = if self.kraken { 1 } else { 0 };
        let coinbase: int = if self.coinbase { 1 } else { 0 };
        let bybit: int = if self.bybit { 1 } else { 0 };
        let bitfinex: int = if self.bitfinex { 1 } else { 0 };
        (kraken + coinbase + bybit + bitfinex) as u8
    }

    /// No exchange.
    pub fn new() -> (r: ExchangeSet)
        ensures
            r == ExchangeSet::none(),
    {
        ExchangeSet { kraken: false, coinbase: false, bybit: false, bitfinex: false }
    }

    /// Adds an exchange.
    pub fn insert(&mut self, e: Exchange)
        ensures
            *final(self) == old(self).spec_with(e),
    {
        match e {
            Exchange::Kraken => {
                self.kraken = true;
            },
            Exchange::Coinbase => {
                self.coinbase = true;
            },
            Exchange::Bybit => {
                self.bybit = true;
            },
            Exchange::Bitfinex => {
                self.bitfinex = true;
            },
        }
    }

    /// Counts the exchanges.
    pub fn count(&self) -> (r: u8)
        ensures
            r == self.spec_count(),
    {
        let mut n: u8 = 0;
        if self.kraken {
            n += 1;
        }
        if self.coinbase {
            n += 1;
        }
        if self.bybit {
            n += 1;
        }
        if self.bitfinex {
            n += 1;
        }
        n
    }
}

/// The current early signal.
#[derive(Clone, Copy, Debug, PartialEq, Eq, Structural)]
pub struct SignalBoard {
    pub early_signal: Option<EarlySignal>,
    /// The exchanges that agree.
    pub agreed: ExchangeSet,
    /// How many exchanges agree.
    pub confirmations: u8,
    /// Whether the signal may be traded.
    pub ready: bool,
}

/// A board without a signal.
pub open spec fn empty_board() -> SignalBoard {
    SignalBoard {
        early_signal: None,
        agreed: ExchangeSet::none(),
        confirmations: 0,
        ready: false,
    }
}

/// The side that a streak of at least `length` trades shows; up is looked at
/// first.
pub open spec fn streak_side(s: Streak, length: u8) -> Option<Side> {
    if s.ups >= length {
        Some(Side::Up)
    } else if s.downs >= length {
        Some(Side::Down)
    } else {
        None
    }
}

/// Whether a streak agrees with a side.
pub open spec fn agrees(s: Streak, side: Side) -> bool {
    match side {
        Side::Up => s.ups >= CONFIRM_STREAK,
        Side::Down => s.downs >= CONFIRM_STREAK,
    }
}

/// The board with a new signal, where the streak shows one.
pub open spec fn with_new_signal(board: SignalBoard, source: Exchange, s: Streak, now_ms: u64) -> SignalBoard {
    match streak_side(s, SIGNAL_STREAK) {
        Some(side) => SignalBoard {
            early_signal: Some(EarlySignal { side, at_ms: now_ms, source }),
            agreed: ExchangeSet::none().spec_with(source),
            confirmations: 1,
            ready: false,
        },
        None => board,
    }
}

/// The board after a trade.  Kraken, the fastest, only makes signals.  Each of
/// the others confirms a signal of another exchange while it is fresh, and makes
/// one where there is none; an exchange counts once however often it agrees.
pub open spec fn board_after(board: SignalBoard, source: Exchange, s: Streak, now_ms: u64) -> SignalBoard {
    if source == Exchange::Kraken {
        with_new_signal(board, source, s, now_ms)
    } else {
        match board.early_signal {
            Some(signal) => if now_ms < signal.at_ms + SIGNAL_LIFETIME_MS && agrees(s, signal.side)
                && signal.source != source {
                let agreed = board.agreed.spec_with(source);
                let confirmations = agreed.spec_count();
                SignalBoard {
                    agreed,
                    confirmations,
                    ready: board.ready || confirmations >= EXCHANGES_TO_AGREE,
                    ..board
                }
            } else {
                board
            },
            None => with_new_signal(board, source, s, now_ms),
        }
    }
}

impl SignalBoard {
    /// No signal.
    pub fn new() -> (r: SignalBoard)
        ensures
            r == empty_board(),
    {
        SignalBoard {
            early_signal: None,
            agreed: ExchangeSet::new(),
            confirmations: 0,
            ready: false,
        }
    }

    /// Makes a new signal, where the streak shows one.
    fn raise(&mut self, source: Exchange, s: Streak, now_ms: u64)
        ensures
            *final(self) == with_new_signal(*old(self), source, s, now_ms),
    {
        let side = if s.ups >= SIGNAL_STREAK {
            Some(Side::Up)
        } else if s.downs >= SIGNAL_STREAK {
            Some(Side::Down)
        } else {
            None
        };
        if let Some(side) = side {
            self.early_signal = Some(EarlySignal { side, at_ms: now_ms, source });
            self.agreed = ExchangeSet::new();
            self.agreed.insert(source);
            self.confirmations = 1;
            self.ready = false;
        }
    }

    /// Takes in a trade of an exchange, by the streak it belongs to.
    pub fn take_trade(&mut self, source: Exchange, s: Streak, now_ms: u64)
        ensures
            *final(self) == board_after(*old(self), source, s, now_ms),
    {
        if source == Exchange::Kraken {
            self.raise(source, s, now_ms);
            return;
        }
        match self.early_signal {
            Some(signal) => {
                let fresh = now_ms < signal.at_ms || now_ms - signal.at_ms < SIGNAL_LIFETIME_MS;
                let confirms = match signal.side {
                    Side::Up => s.ups >= CONFIRM_STREAK,
                    Side::Down => s.downs >= CONFIRM_STREAK,
                };
                if fresh && confirms && signal.source != source {
                    self.agreed.insert(source);
                    self.confirmations = self.agreed.count();
                    if self.confirmations >= EXCHANGES_TO_AGREE {
                        self.ready = true;
                    }
                }
            },
            None => {
                self.raise(source, s, now_ms);
            },
        }
    }

    /// Forgets a signal that has become ready.
    pub fn clear_ready(&mut self)
        ensures
            *final(self) == (if old(self).ready {
                empty_board()
            } else {
                *old(self)
            }),
    {
        if self.ready {
            *self = SignalBoard::new();
        }
    }
}

/// What is known of an exchange's feed.
#[derive(Clone, Copy, Debug)]
pub struct Feed {
    pub msg_count: u64,
    pub last_msg_ms: Option<u64>,
    pub latency_ms: u64,
    pub price: Dec,
    pub last_direction: i8,
}

impl Feed {
    /// Nothing known yet.
    pub fn new() -> (r: Feed)
        ensures
            r == (Feed {
                msg_count: 0,
                last_msg_ms: None,
                latency_ms: 0,
                price: Dec::of(0, 0),
                last_direction: 0,
            }),
    {
        Feed {
            msg_count: 0,
            last_msg_ms: None,
            latency_ms: 0,
            price: Dec::zero(),
            last_direction: 0,
        }
    }

    /// Takes in a trade.
    pub fn record(&mut self, price: Dec, direction: i8, latency_ms: u64, now_ms: u64)
        requires
            old(self).msg_count < u64::MAX,
        ensures
            *final(self) == (Feed {
                msg_count: (old(self).msg_count + 1) as u64,
                last_msg_ms: Some(now_ms),
                latency_ms,
                price,
                last_direction: direction,
            }),
    {
        self.msg_count += 1;
        self.last_msg_ms = Some(now_ms);
        self.latency_ms = latency_ms;
        self.price = price;
        self.last_direction = direction;
    }
}

/// How long a message was under way; none for a time that lies ahead.
pub open spec fn delay(now_ms: u64, event_ms: u64) -> u64 {
    if now_ms > event_ms {
        (now_ms - event_ms) as u64
    } else {
        0
    }
}

/// Computes how long a message was under way.
pub fn latency(now_ms: u64, event_ms: u64) -> (r: u64)
    ensures
        r == delay(now_ms, event_ms),
{
    if now_ms > event_ms {
        now_ms - event_ms
    } else {
        0
    }
}

/// The moment that an RFC 3339 text denotes, in milliseconds since 1970, as
/// `chrono` reads it.
pub uninterp spec fn rfc3339_millis(text: Seq<char>) -> Option<i64>;

/// `chrono::DateTime::parse_from_rfc3339`, and the `timestamp_millis` of what it
/// reads; nothing for a text that it refuses.
#[verifier::external_body]
fn parse_rfc3339(text: &str) -> (r: Option<i64>)
    ensures
        r == rfc3339_millis(text@),
{
    match chrono::DateTime::parse_from_rfc3339(text) {
        Ok(time) => Some(time.timestamp_millis()),
        Err(_) => None,
    }
}

/// The time a trade took place, given what its text was read as: the current
/// time where it was refused.
pub fn trade_time(read: Option<i64>, now_ms: u64) -> (r: u64)
    ensures
        r == (match read {
            Some(t) => t as u64,
            None => now_ms,
        }),
{
    match read {
        Some(t) => t as u64,
        None => now_ms,
    }
}

/// How long a Coinbase message was under way, given what the time in it was read
/// as.
pub open spec fn coinbase_delay(read: Option<i64>, now_ms: u64) -> u64 {
    delay(
        now_ms,
        match read {
            Some(t) => t as u64,
            None => now_ms,
        },
    )
}

/// How long a Coinbase message was under way, by the time in its text.
pub fn coinbase_latency(time_text: &str, now_ms: u64) -> (r: u64)
    ensures
        r == coinbase_delay(rfc3339_millis(time_text@), now_ms),
{
    latency(now_ms, trade_time(parse_rfc3339(time_text), now_ms))
}

/// Reads a Kraken trade: a price and the letter `b` for a buy, which goes up;
/// anything else goes down.
pub fn parse_kraken_trade(price_text: &str, side_text: &String, time_ms: u64) -> (r: Option<
    (Dec, i8, u64),
>)
    ensures
        r == (match Dec::spec_parse(price_text@) {
            Some(price) => Some(
                (
                    price,
                    if side_text@ == "b"@ {
                        1i8
                    } else {
                        (-1int) as i8
                    },
                    time_ms,
                ),
            ),
            None => None,
        }),
{
    match Dec::parse(price_text) {
        Some(price) => {
            let direction: i8 = if *side_text == "b".to_owned() {
                1
            } else {
                -1
            };
            Some((price, direction, time_ms))
        },
        None => None,
    }
}

/// The direction of a Bybit trade: up for the side `Buy`, down for any other.
pub fn bybit_direction(side_text: &String) -> (r: i8)
    ensures
        r == (if side_text@ == "Buy"@ {
            1
        } else {
            -1int
        }),
{
    if *side_text == "Buy".to_owned() {
        1
    } else {
        -1
    }
}

// ---------------------------------------------------------------------------
// Messages
// ---------------------------------------------------------------------------

/// The trade of a Coinbase message, by the texts of its type, price and time:
/// price, direction against the trade before, and latency.  Only a match that
/// has all of them is one.
pub open spec fn coinbase_trade(
    kind: Option<Seq<char>>,
    price: Option<Seq<char>>,
    time: Option<Seq<char>>,
    last: Option<Dec>,
    now_ms: u64,
) -> Option<(Dec, i8, u64)> {
    match (price, time) {
        (Some(price), Some(time)) => if kind == Some("match"@) {
            match Dec::spec_parse(price) {
                Some(p) => Some(
                    (p, direction_of(last, p), coinbase_delay(rfc3339_millis(time), now_ms)),
                ),
                None => None,
            }
        } else {
            None
        },
        _ => None,
    }
}

/// Judges the texts of a Coinbase message.
pub fn judge_coinbase(
    kind: &Option<String>,
    price: &Option<String>,
    time: &Option<String>,
    last: Option<Dec>,
    now_ms: u64,
) -> (r: Option<(Dec, i8, u64)>)
    ensures
        r == coinbase_trade(text_of(*kind), text_of(*price), text_of(*time), last, now_ms),
{
    let is_match = match kind {
        Some(k) => *k == "match".to_owned(),
        None => false,
    };
    match (price, time) {
        (Some(price), Some(time)) => {
            if !is_match {
                return None;
            }
            match Dec::parse(price.as_str()) {
                Some(p) => Some(
                    (p, price_direction(last, p), coinbase_latency(time.as_str(), now_ms)),
                ),
                None => None,
            }
        },
        _ => None,
    }
}

/// Reads a Coinbase message.
pub fn read_coinbase_message(message: &str, last: Option<Dec>, now_ms: u64) -> (r: Option<
    (Dec, i8, u64),
>)
    ensures
        r == coinbase_trade(
            json_text(message@, "/type"@),
            json_text(message@, "/price"@),
            json_text(message@, "/time"@),
            last,
            now_ms,
        ),
{
    judge_coinbase(
        &text_at(message, "/type"),
        &text_at(message, "/price"),
        &text_at(message, "/time"),
        last,
        now_ms,
    )
}

/// The texts of a Kraken trade.  The time is a decimal number of seconds.
#[derive(Debug)]
pub struct KrakenTexts {
    pub price: String,
    pub time: String,
    pub side: String,
}

/// The place of the last trade of a Kraken message, which is a list of at least
/// two with the trades second; a trade is a list of at least four.
pub open spec fn kraken_trade_at(message: Seq<char>) -> Option<Seq<char>> {
    match (json_length(message, ""@), json_length(message, "/1"@)) {
        (Some(parts), Some(trades)) => if parts >= 2 && trades > 0 {
            let at = element_pointer("/1"@, (trades - 1) as nat, ""@);
            match json_length(message, at) {
                Some(fields) => if fields >= 4 {
                    Some(at)
                } else {
                    None
                },
                None => None,
            }
        } else {
            None
        },
        _ => None,
    }
}

/// The texts of the price, the time and the side of the last trade of a Kraken
/// message, where it has all three.
pub open spec fn kraken_trade_texts(message: Seq<char>) -> Option<(Seq<char>, Seq<char>, Seq<char>)> {
    match kraken_trade_at(message) {
        Some(at) => match (
            json_text(message, at + "/0"@),
            json_text(message, at + "/2"@),
            json_text(message, at + "/3"@),
        ) {
            (Some(price), Some(time), Some(side)) => Some((price, time, side)),
            _ => None,
        },
        None => None,
    }
}

/// Finds the last trade of a Kraken message.
fn find_kraken_trade(message: &str) -> (r: Option<String>)
    ensures
        text_of(r) == kraken_trade_at(message@),
{
    let parts: usize = match length_at(message, "") {
        Some(n) => n,
        None => {
            return None;
        },
    };
    let trades: usize = match length_at(message, "/1") {
        Some(n) => n,
        None => {
            return None;
        },
    };
    if parts < 2 || trades == 0 {
        return None;
    }
    let at = pointer_to("/1", trades - 1, "");
    match length_at(message, at.as_str()) {
        Some(fields) => if fields >= 4 {
            Some(at)
        } else {
            None
        },
        None => None,
    }
}

/// Reads the texts of the last trade of a Kraken message.
pub fn read_kraken_message(message: &str) -> (r: Option<KrakenTexts>)
    ensures
        match r {
            Some(t) => kraken_trade_texts(message@) == Some((t.price@, t.time@, t.side@)),
            None => kraken_trade_texts(message@) is None,
        },
{
    let at = match find_kraken_trade(message) {
        Some(at) => at,
        None => {
            return None;
        },
    };
    let price = text_at(message, at.as_str().to_owned().concat("/0").as_str());
    let time = text_at(message, at.as_str().to_owned().concat("/2").as_str());
    let side = text_at(message, at.as_str().to_owned().concat("/3").as_str());
    match (price, time, side) {
        (Some(price), Some(time), Some(side)) => Some(KrakenTexts { price, time, side }),
        _ => None,
    }
}

/// The trade of a Bybit message, by its price, time and side: up for the side
/// `Buy`, down for any other.  Only what has all three is a trade.
pub open spec fn bybit_trade(
    price: Option<Seq<char>>,
    time: Option<u64>,
    side: Option<Seq<char>>,
    now_ms: u64,
) -> Option<(Dec, i8, u64)> {
    match (price, time, side) {
        (Some(price), Some(time), Some(side)) => match Dec::spec_parse(price) {
            Some(p) => Some(
                (
                    p,
                    if side == "Buy"@ {
                        1i8
                    } else {
                        (-1int) as i8
                    },
                    delay(now_ms, time),
                ),
            ),
            None => None,
        },
        _ => None,
    }
}

/// Judges price, time and side of a Bybit trade.
pub fn judge_bybit(price: &Option<String>, time: Option<u64>, side: &Option<String>, now_ms: u64) -> (r:
    Option<(Dec, i8, u64)>)
    ensures
        r == bybit_trade(text_of(*price), time, text_of(*side), now_ms),
{
    match (price, time, side) {
        (Some(price), Some(time), Some(side)) => match Dec::parse(price.as_str()) {
            Some(p) => Some((p, bybit_direction(side), latency(now_ms, time))),
            None => None,
        },
        _ => None,
    }
}

/// The trade of a Bybit message: the last of its list of data.
pub open spec fn bybit_message_trade(message: Seq<char>, now_ms: u64) -> Option<(Dec, i8, u64)> {
    match json_length(message, "/data"@) {
        Some(n) => if n > 0 {
            let last = (n - 1) as nat;
            bybit_trade(
                json_text(message, element_pointer("/data"@, last, "/p"@)),
                json_whole(message, element_pointer("/data"@, last, "/T"@)),
                json_text(message, element_pointer("/data"@, last, "/S"@)),
                now_ms,
            )
        } else {
            None
        },
        None => None,
    }
}

/// Reads a Bybit message.
pub fn read_bybit_message(message: &str, now_ms: u64) -> (r: Option<(Dec, i8, u64)>)
    ensures
        r == bybit_message_trade(message@, now_ms),
{
    match length_at(message, "/data") {
        Some(n) => {
            if n == 0 {
                return None;
            }
            let price = text_at(message, pointer_to("/data", n - 1, "/p").as_str());
            let time = whole_at(message, pointer_to("/data", n - 1, "/T").as_str());
            let side = text_at(message, pointer_to("/data", n - 1, "/S").as_str());
            judge_bybit(&price, time, &side, now_ms)
        },
        None => None,
    }
}

/// The time of the trade in a Bitfinex message, a list of at least three that
/// tells an executed trade by `te` and holds its fields, at least four, third.
/// A time that is missing is zero; one before 1970 is taken modulo 2^64.
pub open spec fn bitfinex_time(
    parts: Option<usize>,
    kind: Option<Seq<char>>,
    fields: Option<usize>,
    time: Option<i64>,
) -> Option<u64> {
    match (parts, fields) {
        (Some(parts), Some(fields)) => if parts >= 3 && kind == Some("te"@) && fields >= 4 {
            Some(
                match time {
                    Some(t) => t as u64,
                    None => 0,
                },
            )
        } else {
            None
        },
        _ => None,
    }
}

/// Judges what a Bitfinex message holds.
pub fn judge_bitfinex(
    parts: Option<usize>,
    kind: &Option<String>,
    fields: Option<usize>,
    time: Option<i64>,
) -> (r: Option<u64>)
    ensures
        r == bitfinex_time(parts, text_of(*kind), fields, time),
{
    let executed = match kind {
        Some(k) => *k == "te".to_owned(),
        None => false,
    };
    match (parts, fields) {
        (Some(parts), Some(fields)) => {
            if parts >= 3 && executed && fields >= 4 {
                match time {
                    Some(t) => Some(t as u64),
                    None => Some(0),
                }
            } else {
                None
            }
        },
        _ => None,
    }
}

/// Reads the time of the trade in a Bitfinex message; other messages have none.
pub fn read_bitfinex_message(message: &str) -> (r: Option<u64>)
    ensures
        r == bitfinex_time(
            json_length(message@, ""@),
            json_text(message@, "/1"@),
            json_length(message@, "/2"@),
            json_signed(message@, "/2/1"@),
        ),
{
    judge_bitfinex(
        length_at(message, ""),
        &text_at(message, "/1"),
        length_at(message, "/2"),
        signed_at(message, "/2/1"),
    )
}

/// Makes a Bitfinex trade of its time, whether it was bought, and its price,
/// where that can be held.
pub fn bitfinex_trade(time_ms: u64, bought: bool, price: Option<Dec>, now_ms: u64) -> (r: Option<
    (Dec, i8, u64),
>)
    ensures
        r == (match price {
            Some(p) => Some(
                (
                    p,
                    if bought {
                        1i8
                    } else {
                        (-1int) as i8
                    },
                    delay(now_ms, time_ms),
                ),
            ),
            None => None,
        }),
{
    match price {
        Some(p) => {
            let direction: i8 = if bought {
                1
            } else {
                -1
            };
            Some((p, direction, latency(now_ms, time_ms)))
        },
        None => None,
    }
}

// ---------------------------------------------------------------------------
// Laws
// ---------------------------------------------------------------------------

/// Whether a board is sound: it counts each exchange that agrees once, that of
/// the signal among them, it counts them only for a signal, and it is ready only
/// with a signal that enough exchanges agree on.
pub open spec fn board_sound(board: SignalBoard) -> bool {
    &&& board.confirmations == board.agreed.spec_count()
    &&& board.early_signal matches Some(signal) ==> board.agreed.spec_contains(signal.source)
    &&& board.ready ==> board.early_signal is Some && board.confirmations >= EXCHANGES_TO_AGREE
    &&& board.early_signal is None ==> board.confirmations == 0
    &&& board.early_signal is Some ==> board.confirmations >= 1
}

/// Every trade keeps a board sound; so a signal becomes ready only once two
/// exchanges agree on it.
pub proof fn law_board_stays_sound(board: SignalBoard, source: Exchange, s: Streak, now_ms: u64)
    requires
        board_sound(board),
    ensures
        board_sound(board_after(board, source, s, now_ms)),
{
}

/// An exchange that has agreed already adds nothing by agreeing again.
pub proof fn law_exchanges_count_once(board: SignalBoard, source: Exchange, s: Streak, now_ms: u64)
    requires
        board_sound(board),
        board.early_signal is Some,
        source != Exchange::Kraken,
        board.agreed.spec_contains(source),
    ensures
        board_after(board, source, s, now_ms).agreed == board.agreed,
        board_after(board, source, s, now_ms).confirmations == board.confirmations,
{
}

/// The confirmations of a sound board are the number of the exchanges that agree.
pub proof fn law_confirmations_count_exchanges(board: SignalBoard)
    requires
        board_sound(board),
    ensures
        board.agreed.members().finite(),
        board.agreed.members().len() == board.confirmations,
{
    let mut built = Set::<Exchange>::empty();
    if board.agreed.kraken {
        built = built.insert(Exchange::Kraken);
    }
    if board.agreed.coinbase {
        built = built.insert(Exchange::Coinbase);
    }
    if board.agreed.bybit {
        built = built.insert(Exchange::Bybit);
    }
    if board.agreed.bitfinex {
        built = built.insert(Exchange::Bitfinex);
    }
    assert(board.agreed.members() =~= built);
}

/// No exchange confirms its own signal.
pub proof fn law_no_self_confirmation(board: SignalBoard, s: Streak, now_ms: u64)
    requires
        board.early_signal is Some,
        board.early_signal->0.source != Exchange::Kraken,
    ensures
        board_after(board, board.early_signal->0.source, s, now_ms) == board,
{
}

/// A streak counts one direction only.
pub proof fn law_streak_has_one_direction(s: Streak, direction: i8)
    requires
        s.ups == 0 || s.downs == 0,
        s.ups < u8::MAX,
        s.downs < u8::MAX,
    ensures
        extended(s, direction).ups == 0 || extended(s, direction).downs == 0,
{
}

/// A trade lengthens the streak of its own direction by one and ends that of the
/// other; one that goes nowhere changes nothing.
pub proof fn law_trades_lengthen_their_streak(s: Streak, direction: i8)
    requires
        s.ups < u8::MAX,
        s.downs < u8::MAX,
    ensures
        direction > 0 ==> extended(s, direction).ups == s.ups + 1 && extended(s, direction).downs
            == 0,
        direction < 0 ==> extended(s, direction).downs == s.downs + 1 && extended(s, direction).ups
            == 0,
        direction == 0 ==> extended(s, direction) == s,
{
}

/// A price goes up where it is above the one before, down where it is below, and
/// nowhere where it is the same or the first.
pub proof fn law_direction_is_against_the_last_price(last: Dec, price: Dec)
    ensures
        price@ > last@ ==> direction_of(Some(last), price) == 1,
        price@ < last@ ==> direction_of(Some(last), price) == -1,
        price@ == last@ ==> direction_of(Some(last), price) == 0,
        direction_of(None, price) == 0,
{
}

/// Adding an exchange to a set adds that one and no other, and the set has as many
/// as are in it.
pub proof fn law_exchange_sets_are_sets(s: ExchangeSet, e: Exchange, other: Exchange)
    ensures
        !ExchangeSet::none().spec_contains(e),
        ExchangeSet::none().spec_count() == 0,
        s.spec_with(e).spec_contains(e),
        other != e ==> s.spec_with(e).spec_contains(other) == s.spec_contains(other),
        s.spec_contains(e) ==> s.spec_with(e) == s,
        !s.spec_contains(e) ==> s.spec_with(e).spec_count() == s.spec_count() + 1,
        s.members().contains(e) <==> s.spec_contains(e),
        s.spec_contains(Exchange::Kraken) == s.kraken,
        s.spec_contains(Exchange::Coinbase) == s.coinbase,
        s.spec_contains(Exchange::Bybit) == s.bybit,
        s.spec_contains(Exchange::Bitfinex) == s.bitfinex,
{
}

/// Three trades in a row in one direction make a new signal of that side, by that
/// exchange and from now on, on which it alone agrees; it is not ready.  Kraken
/// makes one whatever there was, any other exchange only where there was none.
pub proof fn law_three_in_a_row_make_a_signal(
    board: SignalBoard,
    source: Exchange,
    s: Streak,
    now_ms: u64,
)
    requires
        source == Exchange::Kraken || board.early_signal is None,
        s.ups >= 3 || s.downs >= 3,
    ensures
        ({
            let after = board_after(board, source, s, now_ms);
            &&& after.early_signal == Some(
                EarlySignal {
                    side: if s.ups >= 3 {
                        Side::Up
                    } else {
                        Side::Down
                    },
                    at_ms: now_ms,
                    source,
                },
            )
            &&& after.agreed.spec_contains(source)
            &&& forall|e: Exchange| e != source ==> !(#[trigger] after.agreed.spec_contains(e))
            &&& after.confirmations == 1
            &&& !after.ready
        }),
{
}

/// Fewer than three trades in a row make no signal.
pub proof fn law_short_streaks_make_no_signal(
    board: SignalBoard,
    source: Exchange,
    s: Streak,
    now_ms: u64,
)
    requires
        source == Exchange::Kraken || board.early_signal is None,
        s.ups < 3,
        s.downs < 3,
    ensures
        board_after(board, source, s, now_ms) == board,
{
}

/// An exchange other than Kraken confirms a signal of another exchange, of half a
/// second at most, with two trades in a row of the same side: it is counted among
/// those that agree, and the signal is ready once two of them do.
pub proof fn law_two_in_a_row_confirm_a_signal(
    board: SignalBoard,
    source: Exchange,
    s: Streak,
    now_ms: u64,
    signal: EarlySignal,
)
    requires
        source != Exchange::Kraken,
        board.early_signal == Some(signal),
        signal.source != source,
        now_ms < signal.at_ms + 500,
        signal.side == Side::Up ==> s.ups >= 2,
        signal.side == Side::Down ==> s.downs >= 2,
    ensures
        ({
            let after = board_after(board, source, s, now_ms);
            &&& after.early_signal == Some(signal)
            &&& after.agreed.spec_contains(source)
            &&& forall|e: Exchange|
                e != source ==> #[trigger] after.agreed.spec_contains(e)
                    == board.agreed.spec_contains(e)
            &&& after.confirmations == after.agreed.spec_count()
            &&& after.ready <==> board.ready || after.confirmations >= 2
            &&& board.agreed.spec_contains(signal.source) ==> after.ready
        }),
{
    if board.agreed.spec_contains(signal.source) {
        assert(board.agreed.spec_with(source).spec_count() >= 2);
    }
}

/// A signal stays as it is under a trade of the exchange that made it, of one
/// whose streak is shorter than two or of the other side, and of any exchange
/// once it is half a second old.
pub proof fn law_signals_are_confirmed_only_in_time(
    board: SignalBoard,
    source: Exchange,
    s: Streak,
    now_ms: u64,
    signal: EarlySignal,
)
    requires
        source != Exchange::Kraken,
        board.early_signal == Some(signal),
        ({
            ||| signal.source == source
            ||| now_ms >= signal.at_ms + 500
            ||| signal.side == Side::Up && s.ups < 2
            ||| signal.side == Side::Down && s.downs < 2
        }),
    ensures
        board_after(board, source, s, now_ms) == board,
{
}

/// A board without a signal has none that agrees, counts none, and is not ready.
pub proof fn law_empty_board_has_no_signal(e: Exchange)
    ensures
        empty_board().early_signal is None,
        !empty_board().agreed.spec_contains(e),
        empty_board().confirmations == 0,
        !empty_board().ready,
{
}

/// A message was under way from its own time to now, and no time at all where its
/// time lies ahead; a Coinbase message whose time cannot be read was not under
/// way.
pub proof fn law_latency_is_since_the_event(now_ms: u64, event_ms: u64)
    ensures
        now_ms >= event_ms ==> delay(now_ms, event_ms) == now_ms - event_ms,
        now_ms < event_ms ==> delay(now_ms, event_ms) == 0,
        coinbase_delay(None, now_ms) == 0,
        event_ms <= i64::MAX ==> coinbase_delay(Some(event_ms as i64), now_ms) == delay(
            now_ms,
            event_ms,
        ),
{
}

/// A Coinbase message is a trade exactly where it is a match and has a price that
/// is a number and a time; its direction is against the trade before.
pub proof fn law_coinbase_trades_are_matches(
    kind: Seq<char>,
    price: Seq<char>,
    time: Seq<char>,
    last: Option<Dec>,
    now_ms: u64,
)
    ensures
        kind == "match"@ ==> (match Dec::spec_parse(price) {
            Some(p) => coinbase_trade(Some(kind), Some(price), Some(time), last, now_ms) == Some(
                (p, direction_of(last, p), coinbase_delay(rfc3339_millis(time), now_ms)),
            ),
            None => coinbase_trade(Some(kind), Some(price), Some(time), last, now_ms) is None,
        }),
        kind != "match"@ ==> coinbase_trade(Some(kind), Some(price), Some(time), last, now_ms)
            is None,
        coinbase_trade(None, Some(price), Some(time), last, now_ms) is None,
        coinbase_trade(Some(kind), None, Some(time), last, now_ms) is None,
        coinbase_trade(Some(kind), Some(price), None, last, now_ms) is None,
{
}

/// A Bybit message is a trade exactly where it has a price that is a number, a
/// time and a side; only the side `Buy` goes up.
pub proof fn law_bybit_buys_go_up(price: Seq<char>, time: u64, side: Seq<char>, now_ms: u64)
    ensures
        Dec::spec_parse(price) is None ==> bybit_trade(Some(price), Some(time), Some(side), now_ms)
            is None,
        Dec::spec_parse(price) matches Some(p) ==> {
            match bybit_trade(Some(price), Some(time), Some(side), now_ms) {
                Some((at, direction, late)) => {
                    &&& at == p
                    &&& side == "Buy"@ ==> direction == 1
                    &&& side != "Buy"@ ==> direction == -1
                    &&& late == delay(now_ms, time)
                },
                None => false,
            }
        },
        bybit_trade(None, Some(time), Some(side), now_ms) is None,
        bybit_trade(Some(price), None, Some(side), now_ms) is None,
        bybit_trade(Some(price), Some(time), None, now_ms) is None,
{
}

/// A Bybit message is judged by the last entry of its data, by the fields `p`, `T`
/// and `S`; without data it is no trade.
pub proof fn law_bybit_message_is_its_last_entry(message: Seq<char>, now_ms: u64)
    ensures
        json_length(message, "/data"@) is None ==> bybit_message_trade(message, now_ms) is None,
        json_length(message, "/data"@) matches Some(n) ==> {
            &&& n == 0 ==> bybit_message_trade(message, now_ms) is None
            &&& n > 0 ==> bybit_message_trade(message, now_ms) == bybit_trade(
                json_text(message, element_pointer("/data"@, (n - 1) as nat, "/p"@)),
                json_whole(message, element_pointer("/data"@, (n - 1) as nat, "/T"@)),
                json_text(message, element_pointer("/data"@, (n - 1) as nat, "/S"@)),
                now_ms,
            )
        },
{
}

/// A Kraken message is a trade exactly where it has at least two parts, the second
/// has entries, and the last of these has at least four fields with texts for
/// price, time and side, first, third and fourth.
pub proof fn law_kraken_trade_is_the_last_entry(message: Seq<char>, parts: usize, trades: usize, fields: usize)
    requires
        json_length(message, ""@) == Some(parts),
        json_length(message, "/1"@) == Some(trades),
    ensures
        parts < 2 || trades == 0 ==> kraken_trade_texts(message) is None,
        parts >= 2 && trades > 0 ==> {
            let at = element_pointer("/1"@, (trades - 1) as nat, ""@);
            let price = json_text(message, at + "/0"@);
            let time = json_text(message, at + "/2"@);
            let side = json_text(message, at + "/3"@);
            &&& json_length(message, at) is None ==> kraken_trade_texts(message) is None
            &&& json_length(message, at) == Some(fields) && fields < 4 ==> kraken_trade_texts(message)
                is None
            &&& json_length(message, at) == Some(fields) && fields >= 4 && price is Some && time
                is Some && side is Some ==> kraken_trade_texts(message) == Some(
                (price->0, time->0, side->0),
            )
            &&& price is None || time is None || side is None ==> kraken_trade_texts(message)
                is None
        },
{
}

/// A Kraken message that is no list, or whose second part is none, is no trade.
pub proof fn law_kraken_messages_are_lists(message: Seq<char>)
    requires
        json_length(message, ""@) is None || json_length(message, "/1"@) is None,
    ensures
        kraken_trade_texts(message) is None,
{
}

/// A Bitfinex message is a trade exactly where it has at least three parts, the
/// second is `te` and the third has at least four fields; a missing time is zero.
pub proof fn law_bitfinex_trades_are_executions(
    parts: usize,
    kind: Seq<char>,
    fields: usize,
    time: i64,
)
    ensures
        parts >= 3 && kind == "te"@ && fields >= 4 ==> bitfinex_time(
            Some(parts),
            Some(kind),
            Some(fields),
            None,
        ) == Some(0u64),
        parts >= 3 && kind == "te"@ && fields >= 4 && time >= 0 ==> bitfinex_time(
            Some(parts),
            Some(kind),
            Some(fields),
            Some(time),
        ) == Some(time as u64),
        parts < 3 || kind != "te"@ || fields < 4 ==> bitfinex_time(
            Some(parts),
            Some(kind),
            Some(fields),
            Some(time),
        ) is None,
        bitfinex_time(None, Some(kind), Some(fields), Some(time)) is None,
        bitfinex_time(Some(parts), None, Some(fields), Some(time)) is None,
        bitfinex_time(Some(parts), Some(kind), None, Some(time)) is None,
{
}

} // verus!
