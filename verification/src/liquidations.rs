//! Forced liquidations of the last minute.

use crate::json::{json_text, json_whole, text_at, whole_at};
use crate::lists::{dropped_while, lemma_dropped_while, lemma_picked_step, picked};
use crate::settings::text_of;
use std::collections::VecDeque;
use vstd::prelude::*;

verus! {

/// How far back liquidations are kept, in milliseconds.
pub const LIQUIDATION_LOOKBACK_MS: i64 = 60_000;

/// A forced liquidation.  Quantity and price are floating-point numbers by their
/// bits.
#[derive(Clone, Copy, Debug, PartialEq, Eq, Structural)]
pub struct Liquidation {
    pub timestamp_ms: i64,
    /// Whether a long position was liquidated, or a short one.
    pub side: bool,
    pub quantity_bits: u64,
    pub price_bits: u64,
}

/// The liquidations of the last minute, in the order they came.
#[derive(Debug)]
pub struct LiquidationTracker {
    pub liquidations: VecDeque<Liquidation>,
}

/// Whether a liquidation lies too far back.
pub open spec fn too_old(now_ms: i64) -> spec_fn(Liquidation) -> bool {
    |l: Liquidation| l.timestamp_ms < now_ms - LIQUIDATION_LOOKBACK_MS
}

/// A liquidation, where it does not lie too far back.
pub open spec fn still_recent(now_ms: i64) -> spec_fn(int, Liquidation) -> Option<Liquidation> {
    |i: int, l: Liquidation|
        if l.timestamp_ms >= now_ms - LIQUIDATION_LOOKBACK_MS {
            Some(l)
        } else {
            None
        }
}

impl LiquidationTracker {
    /// None yet.
    pub fn new() -> (r: LiquidationTracker)
        ensures
            r.liquidations@ == Seq::<Liquidation>::empty(),
    {
        LiquidationTracker { liquidations: VecDeque::with_capacity(1000) }
    }

    /// Takes in a liquidation, and drops those at the front that lie too far back
    /// before it.
    pub fn add(&mut self, timestamp_ms: i64, side: bool, quantity_bits: u64, price_bits: u64)
        ensures
            final(self).liquidations@ == dropped_while(
                old(self).liquidations@.push(
                    (Liquidation { timestamp_ms, side, quantity_bits, price_bits }),
                ),
                too_old(timestamp_ms),
            ),
    {
        self.liquidations.push_back(
            Liquidation { timestamp_ms, side, quantity_bits, price_bits },
        );
        let ghost all = self.liquidations@;
        let ghost p = too_old(timestamp_ms);
        let cutoff: i128 = timestamp_ms as i128 - LIQUIDATION_LOOKBACK_MS as i128;
        while self.liquidations.len() > 0 && (self.liquidations[0].timestamp_ms as i128) < cutoff
            invariant
                p == too_old(timestamp_ms),
                cutoff == timestamp_ms - LIQUIDATION_LOOKBACK_MS,
                dropped_while(self.liquidations@, p) == dropped_while(all, p),
            decreases self.liquidations@.len(),
        {
            let ghost before = self.liquidations@;
            let _dropped = self.liquidations.pop_front();
            assert(self.liquidations@ =~= before.skip(1));
        }
    }

    /// The liquidations that do not lie too far back.
    pub fn recent(&self, now_ms: i64) -> (r: Vec<Liquidation>)
        ensures
            r@ == picked(self.liquidations@, still_recent(now_ms)),
    {
        let ghost pick = still_recent(now_ms);
        let cutoff: i128 = now_ms as i128 - LIQUIDATION_LOOKBACK_MS as i128;
        let mut out: Vec<Liquidation> = Vec::new();
        let mut i: usize = 0;
        proof {
            assert(self.liquidations@.take(0) =~= Seq::empty());
        }
        while i < self.liquidations.len()
            invariant
                i <= self.liquidations@.len(),
                cutoff == now_ms - LIQUIDATION_LOOKBACK_MS,
                pick == still_recent(now_ms),
                out@ == picked(self.liquidations@.take(i as int), pick),
            decreases self.liquidations@.len() - i,
        {
            proof {
                lemma_picked_step(self.liquidations@, pick, i as int);
            }
            let l = self.liquidations[i];
            if l.timestamp_ms as i128 >= cutoff {
                out.push(l);
            }
            i += 1;
        }
        proof {
            assert(self.liquidations@.take(i as int) =~= self.liquidations@);
        }
        out
    }
}

/// The side that a message of the stream tells: a forced sale liquidates a long
/// position, anything else a short one.  Other messages tell none.
pub fn liquidated_side(event: &Option<String>, order_side: &Option<String>) -> (r: Option<bool>)
    ensures
        r == (if event is Some && event->0@ == "forceOrder"@ {
            Some(order_side is Some && order_side->0@ == "SELL"@)
        } else {
            None
        }),
{
    let forced = match event {
        Some(e) => *e == "forceOrder".to_owned(),
        None => false,
    };
    if !forced {
        return None;
    }
    match order_side {
        Some(s) => Some(*s == "SELL".to_owned()),
        None => Some(false),
    }
}

/// A liquidation as the stream tells it.  Quantity and price are texts of
/// floating-point numbers.
#[derive(Debug)]
pub struct LiquidationTexts {
    /// Whether a long position was liquidated.
    pub is_long: bool,
    pub quantity: String,
    pub price: String,
    pub time_ms: u64,
}

/// Whether some texts are those of a liquidation: a quantity or a price that is
/// missing is the text `0`, a time that is missing is zero.
pub open spec fn is_told(
    r: LiquidationTexts,
    side: Option<Seq<char>>,
    quantity: Option<Seq<char>>,
    price: Option<Seq<char>>,
    time: Option<u64>,
) -> bool {
    &&& r.is_long == (side == Some("SELL"@))
    &&& r.quantity@ == (match quantity {
        Some(q) => q,
        None => "0"@,
    })
    &&& r.price@ == (match price {
        Some(p) => p,
        None => "0"@,
    })
    &&& r.time_ms == (match time {
        Some(t) => t,
        None => 0,
    })
}

/// Judges the texts of a message of the stream: only a forced order tells a
/// liquidation.
pub fn judge_liquidation(
    event: &Option<String>,
    side: &Option<String>,
    quantity: Option<String>,
    price: Option<String>,
    time: Option<u64>,
) -> (r: Option<LiquidationTexts>)
    ensures
        r is Some <==> text_of(*event) == Some("forceOrder"@),
        r matches Some(told) ==> is_told(
            told,
            text_of(*side),
            text_of(quantity),
            text_of(price),
            time,
        ),
{
    match liquidated_side(event, side) {
        Some(is_long) => Some(
            LiquidationTexts {
                is_long,
                quantity: match quantity {
                    Some(q) => q,
                    None => "0".to_owned(),
                },
                price: match price {
                    Some(p) => p,
                    None => "0".to_owned(),
                },
                time_ms: match time {
                    Some(t) => t,
                    None => 0,
                },
            },
        ),
        None => None,
    }
}

/// Reads a message of the stream.
pub fn read_liquidation_message(message: &str) -> (r: Option<LiquidationTexts>)
    ensures
        r is Some <==> json_text(message@, "/e"@) == Some("forceOrder"@),
        r matches Some(told) ==> is_told(
            told,
            json_text(message@, "/o/S"@),
            json_text(message@, "/o/q"@),
            json_text(message@, "/o/p"@),
            json_whole(message@, "/o/T"@),
        ),
{
    judge_liquidation(
        &text_at(message, "/e"),
        &text_at(message, "/o/S"),
        text_at(message, "/o/q"),
        text_at(message, "/o/p"),
        whole_at(message, "/o/T"),
    )
}

// ---------------------------------------------------------------------------
// Laws
// ---------------------------------------------------------------------------

/// A liquidation that was just taken in stays, as the last one.
pub proof fn law_new_liquidation_stays(before: Seq<Liquidation>, l: Liquidation)
    ensures
        ({
            let after = dropped_while(before.push(l), too_old(l.timestamp_ms));
            after.len() >= 1 && after.last() == l
        }),
{
    let all = before.push(l);
    let p = too_old(l.timestamp_ms);
    lemma_dropped_while(all, p);
    lemma_drop_stops(all, p);
}

/// Dropping never goes past an element that is not dropped.
proof fn lemma_drop_stops(s: Seq<Liquidation>, p: spec_fn(Liquidation) -> bool)
    requires
        s.len() > 0,
        !p(s.last()),
    ensures
        dropped_while(s, p).len() >= 1,
    decreases s.len(),
{
    if p(s[0]) {
        assert(s.len() > 1);
        assert(s.skip(1).last() == s.last());
        lemma_drop_stops(s.skip(1), p);
    }
}

/// A liquidation is kept for a minute: it is too old, and not recent, exactly
/// where it lies more than sixty seconds back.
pub proof fn law_liquidations_are_kept_for_a_minute(l: Liquidation, i: int, now_ms: i64)
    ensures
        too_old(now_ms)(l) <==> l.timestamp_ms + 60_000 < now_ms,
        l.timestamp_ms + 60_000 >= now_ms ==> still_recent(now_ms)(i, l) == Some(l),
        l.timestamp_ms + 60_000 < now_ms ==> still_recent(now_ms)(i, l) is None,
{
}

/// What is told of a liquidation: a sale is one of a long position, and a text or
/// a time that is missing counts as zero.
pub proof fn law_told_liquidations_have_their_texts(
    r: LiquidationTexts,
    side: Option<Seq<char>>,
    quantity: Option<Seq<char>>,
    price: Option<Seq<char>>,
    time: Option<u64>,
)
    requires
        is_told(r, side, quantity, price, time),
    ensures
        r.is_long <==> side is Some && side->0 == "SELL"@,
        quantity matches Some(q) ==> r.quantity@ == q,
        quantity is None ==> r.quantity@ == "0"@,
        price matches Some(p) ==> r.price@ == p,
        price is None ==> r.price@ == "0"@,
        time matches Some(t) ==> r.time_ms == t,
        time is None ==> r.time_ms == 0,
{
}

} // verus!
