//! Streamed prices of the watched positions.

use crate::decimal::Dec;
use crate::lists::{law_picking_is_exact, lemma_picked_step, picked};
use crate::position::TrackedPosition;
use crate::settings::{read_price, stored_price, text_of};
use vstd::prelude::*;

verus! {

/// Seconds without a message after which the stream counts as dead.
pub const STALE_TIMEOUT_SECS: u64 = 15;

/// How many messages pass between two looks at the set of tokens.
pub const MESSAGES_PER_TOKEN_CHECK: u32 = 100;

/// New best prices of one token, as texts.
#[derive(Debug)]
pub struct PriceChange {
    pub asset_id: Option<String>,
    pub best_bid: Option<String>,
    pub best_ask: Option<String>,
}

/// A message of the price stream.
#[derive(Debug)]
pub enum StreamMessage {
    /// New best prices of some tokens.
    PriceChanges(Vec<PriceChange>),
    /// All prices of the book of one token, as texts.
    Book { asset_id: Option<String>, bids: Option<Vec<String>>, asks: Option<Vec<String>> },
    /// Anything else.
    Other,
}

/// A message as it comes, with whatever fields it has.
#[derive(Debug)]
pub struct OrderbookMsg {
    pub event_type: Option<String>,
    pub asset_id: Option<String>,
    pub bids: Option<Vec<String>>,
    pub asks: Option<Vec<String>>,
    pub price_changes: Option<Vec<PriceChange>>,
}

/// What a message is, by its event type.
pub open spec fn classified(msg: OrderbookMsg) -> StreamMessage {
    match text_of(msg.event_type) {
        Some(event) => if event == "price_change"@ {
            match msg.price_changes {
                Some(changes) => StreamMessage::PriceChanges(changes),
                None => StreamMessage::Other,
            }
        } else if event == "book"@ {
            StreamMessage::Book { asset_id: msg.asset_id, bids: msg.bids, asks: msg.asks }
        } else {
            StreamMessage::Other
        },
        None => StreamMessage::Other,
    }
}

/// Tells what a message is.
pub fn classify(msg: OrderbookMsg) -> (r: StreamMessage)
    ensures
        r == classified(msg),
{
    match &msg.event_type {
        Some(event) => {
            if *event == "price_change".to_owned() {
                match msg.price_changes {
                    Some(changes) => StreamMessage::PriceChanges(changes),
                    None => StreamMessage::Other,
                }
            } else if *event == "book".to_owned() {
                StreamMessage::Book { asset_id: msg.asset_id, bids: msg.bids, asks: msg.asks }
            } else {
                StreamMessage::Other
            }
        },
        None => StreamMessage::Other,
    }
}

/// The position with new best prices, where it is one of `token`; a price that
/// is missing stays as it was.
pub open spec fn priced(
    p: TrackedPosition,
    token: Seq<char>,
    bid: Option<Dec>,
    ask: Option<Dec>,
    now_ms: u64,
) -> TrackedPosition {
    if p.token_id@ == token {
        TrackedPosition {
            current_bid: if bid is Some {
                bid
            } else {
                p.current_bid
            },
            current_ask: if ask is Some {
                ask
            } else {
                p.current_ask
            },
            last_price_update: Some(now_ms),
            ..p
        }
    } else {
        p
    }
}

/// All positions with new best prices of `token`.
pub open spec fn all_priced(
    positions: Seq<TrackedPosition>,
    token: Seq<char>,
    bid: Option<Dec>,
    ask: Option<Dec>,
    now_ms: u64,
) -> Seq<TrackedPosition> {
    positions.map_values(|p: TrackedPosition| priced(p, token, bid, ask, now_ms))
}

/// Enters new best prices of a token.
pub fn apply_best_prices(
    positions: &mut Vec<TrackedPosition>,
    token: &String,
    bid: Option<Dec>,
    ask: Option<Dec>,
    now_ms: u64,
)
    ensures
        final(positions)@ == all_priced(old(positions)@, token@, bid, ask, now_ms),
        final(positions)@.len() == old(positions)@.len(),
        forall|i: int|
            0 <= i < old(positions)@.len() && old(positions)@[i].token_id@ == token@ ==> {
                &&& bid is Some ==> (#[trigger] final(positions)@[i]).current_bid == bid
                &&& bid is None ==> final(positions)@[i].current_bid == old(positions)@[i].current_bid
                &&& ask is Some ==> final(positions)@[i].current_ask == ask
                &&& ask is None ==> final(positions)@[i].current_ask == old(positions)@[i].current_ask
                &&& final(positions)@[i].last_price_update == Some(now_ms)
            },
        forall|i: int|
            0 <= i < old(positions)@.len() && old(positions)@[i].token_id@ != token@
                ==> #[trigger] final(positions)@[i] == old(positions)@[i],
{
    let ghost before = positions@;
    let mut i: usize = 0;
    while i < positions.len()
        invariant
            i <= positions@.len(),
            positions@.len() == before.len(),
            forall|j: int|
                0 <= j < i ==> #[trigger] positions@[j] == priced(
                    before[j],
                    token@,
                    bid,
                    ask,
                    now_ms,
                ),
            forall|j: int| i <= j < before.len() ==> #[trigger] positions@[j] == before[j],
        decreases positions@.len() - i,
    {
        if positions[i].token_id == *token {
            if bid.is_some() {
                positions[i].current_bid = bid;
            }
            if ask.is_some() {
                positions[i].current_ask = ask;
            }
            positions[i].last_price_update = Some(now_ms);
        }
        i += 1;
    }
    assert(positions@ =~= all_priced(before, token@, bid, ask, now_ms));
}

/// The positions after the first `n` of some price changes.
pub open spec fn after_changes(
    positions: Seq<TrackedPosition>,
    changes: Seq<PriceChange>,
    now_ms: u64,
) -> Seq<TrackedPosition>
    decreases changes.len(),
{
    if changes.len() == 0 {
        positions
    } else {
        let before = after_changes(positions, changes.drop_last(), now_ms);
        match changes.last().asset_id {
            Some(token) => all_priced(
                before,
                token@,
                stored_price(text_of(changes.last().best_bid)),
                stored_price(text_of(changes.last().best_ask)),
                now_ms,
            ),
            None => before,
        }
    }
}

/// The prices of a book that are numbers.
pub open spec fn readable_prices(texts: Seq<String>) -> Seq<Dec> {
    picked(texts, |i: int, t: String| Dec::spec_parse(t@))
}

/// Whether `best` is the highest of some prices, and missing only where there is
/// none; of several equal ones it is the last.
pub open spec fn is_highest(prices: Seq<Dec>, best: Option<Dec>) -> bool {
    match best {
        Some(b) => exists|i: int|
            0 <= i < prices.len() && b == #[trigger] prices[i] && (forall|j: int|
                0 <= j < prices.len() ==> (#[trigger] prices[j])@ <= b@ && (j > i ==> prices[j]@
                    < b@)),
        None => prices.len() == 0,
    }
}

/// Whether `best` is the lowest of some prices, and missing only where there is
/// none; of several equal ones it is the first.
pub open spec fn is_lowest(prices: Seq<Dec>, best: Option<Dec>) -> bool {
    match best {
        Some(b) => exists|i: int|
            0 <= i < prices.len() && b == #[trigger] prices[i] && (forall|j: int|
                0 <= j < prices.len() ==> (#[trigger] prices[j])@ >= b@ && (j < i ==> prices[j]@
                    > b@)),
        None => prices.len() == 0,
    }
}

/// Finds the highest readable price.
pub fn highest_price(texts: &Vec<String>) -> (r: Option<Dec>)
    ensures
        is_highest(readable_prices(texts@), r),
{
    let ghost pick = |i: int, t: String| Dec::spec_parse(t@);
    let mut best: Option<Dec> = None;
    let mut i: usize = 0;
    proof {
        assert(texts@.take(0) =~= Seq::empty());
    }
    while i < texts.len()
        invariant
            i <= texts@.len(),
            pick == (|i: int, t: String| Dec::spec_parse(t@)),
            is_highest(picked(texts@.take(i as int), pick), best),
        decreases texts@.len() - i,
    {
        let ghost before = picked(texts@.take(i as int), pick);
        proof {
            lemma_picked_step(texts@, pick, i as int);
        }
        if let Some(price) = Dec::parse(texts[i].as_str()) {
            let better = match best {
                Some(b) => b.le(price),
                None => true,
            };
            let ghost after = before.push(price);
            proof {
                if better {
                    assert(after[before.len() as int] == price);
                    assert(is_highest(after, Some(price)));
                } else {
                    let b = best->0;
                    let k = choose|k: int|
                        0 <= k < before.len() && b == #[trigger] before[k] && (forall|j: int|
                            0 <= j < before.len() ==> (#[trigger] before[j])@ <= b@ && (j > k
                                ==> before[j]@ < b@));
                    assert(after[k] == b);
                    assert forall|j: int| 0 <= j < after.len() implies (#[trigger] after[j])@ <= b@
                        && (j > k ==> after[j]@ < b@) by {
                        if j < before.len() {
                            assert(after[j] == before[j]);
                        }
                    }
                    assert(is_highest(after, best));
                }
            }
            if better {
                best = Some(price);
            }
        }
        i += 1;
    }
    proof {
        assert(texts@.take(i as int) =~= texts@);
    }
    best
}

/// Finds the lowest readable price.
pub fn lowest_price(texts: &Vec<String>) -> (r: Option<Dec>)
    ensures
        is_lowest(readable_prices(texts@), r),
{
    let ghost pick = |i: int, t: String| Dec::spec_parse(t@);
    let mut best: Option<Dec> = None;
    let mut i: usize = 0;
    proof {
        assert(texts@.take(0) =~= Seq::empty());
    }
    while i < texts.len()
        invariant
            i <= texts@.len(),
            pick == (|i: int, t: String| Dec::spec_parse(t@)),
            is_lowest(picked(texts@.take(i as int), pick), best),
        decreases texts@.len() - i,
    {
        let ghost before = picked(texts@.take(i as int), pick);
        proof {
            lemma_picked_step(texts@, pick, i as int);
        }
        if let Some(price) = Dec::parse(texts[i].as_str()) {
            let better = match best {
                Some(b) => price.lt(b),
                None => true,
            };
            let ghost after = before.push(price);
            proof {
                if better {
                    assert(after[before.len() as int] == price);
                    assert forall|j: int| 0 <= j < after.len() implies (#[trigger] after[j])@
                        >= price@ && (j < before.len() ==> after[j]@ > price@) by {
                        if j < before.len() {
                            assert(after[j] == before[j]);
                        }
                    }
                    assert(is_lowest(after, Some(price)));
                } else {
                    let b = best->0;
                    let k = choose|k: int|
                        0 <= k < before.len() && b == #[trigger] before[k] && (forall|j: int|
                            0 <= j < before.len() ==> (#[trigger] before[j])@ >= b@ && (j < k
                                ==> before[j]@ > b@));
                    assert(after[k] == b);
                    assert forall|j: int| 0 <= j < after.len() implies (#[trigger] after[j])@ >= b@
                        && (j < k ==> after[j]@ > b@) by {
                        if j < before.len() {
                            assert(after[j] == before[j]);
                        }
                    }
                    assert(is_lowest(after, best));
                }
            }
            if better {
                best = Some(price);
            }
        }
        i += 1;
    }
    proof {
        assert(texts@.take(i as int) =~= texts@);
    }
    best
}

/// Whether `after` is what a message makes of the positions: price changes are
/// entered one after the other; of a book the highest bid and the lowest ask
/// are entered; any other message changes nothing.
pub open spec fn after_message(
    before: Seq<TrackedPosition>,
    message: StreamMessage,
    now_ms: u64,
    after: Seq<TrackedPosition>,
) -> bool {
    match message {
        StreamMessage::PriceChanges(changes) => after == after_changes(before, changes@, now_ms),
        StreamMessage::Book { asset_id: Some(token), bids, asks } => exists|
            bid: Option<Dec>,
            ask: Option<Dec>,
        |
            {
                &&& match bids {
                    Some(texts) => is_highest(readable_prices(texts@), bid),
                    None => bid is None,
                }
                &&& match asks {
                    Some(texts) => is_lowest(readable_prices(texts@), ask),
                    None => ask is None,
                }
                &&& after == #[trigger] all_priced(before, token@, bid, ask, now_ms)
            },
        _ => after == before,
    }
}

/// Takes in a message of the price stream.
pub fn apply_message(positions: &mut Vec<TrackedPosition>, message: &StreamMessage, now_ms: u64)
    ensures
        after_message(old(positions)@, *message, now_ms, final(positions)@),
{
    match message {
        StreamMessage::PriceChanges(changes) => {
            let ghost before = positions@;
            let mut i: usize = 0;
            proof {
                assert(changes@.take(0) =~= Seq::empty());
            }
            while i < changes.len()
                invariant
                    i <= changes@.len(),
                    positions@ == after_changes(before, changes@.take(i as int), now_ms),
                decreases changes@.len() - i,
            {
                let change = &changes[i];
                proof {
                    assert(changes@.take(i + 1).drop_last() =~= changes@.take(i as int));
                    assert(changes@.take(i + 1).last() == *change);
                }
                if let Some(token) = &change.asset_id {
                    let bid = read_price(&change.best_bid);
                    let ask = read_price(&change.best_ask);
                    apply_best_prices(positions, token, bid, ask, now_ms);
                }
                i += 1;
            }
            assert(changes@.take(i as int) =~= changes@);
        },
        StreamMessage::Book { asset_id, bids, asks } => {
            if let Some(token) = asset_id {
                let bid = match bids {
                    Some(texts) => highest_price(texts),
                    None => None,
                };
                let ask = match asks {
                    Some(texts) => lowest_price(texts),
                    None => None,
                };
                apply_best_prices(positions, token, bid, ask, now_ms);
            }
        },
        StreamMessage::Other => {},
    }
}

/// Whether a token is among some others.
pub open spec fn has_token(tokens: Seq<String>, token: Seq<char>) -> bool {
    exists|i: int| 0 <= i < tokens.len() && (#[trigger] tokens[i])@ == token
}

/// Looks for a token.
fn contains_token(tokens: &Vec<String>, token: &String) -> (r: bool)
    ensures
        r == has_token(tokens@, token@),
{
    let mut i: usize = 0;
    while i < tokens.len()
        invariant
            i <= tokens@.len(),
            forall|j: int| 0 <= j < i ==> (#[trigger] tokens@[j])@ != token@,
        decreases tokens@.len() - i,
    {
        if tokens[i] == *token {
            assert(tokens@[i as int]@ == token@);
            return true;
        }
        i += 1;
    }
    false
}

/// Whether the stream has to be opened again: there are more or fewer tokens
/// than it was opened for, or one that it was not opened for.
pub fn needs_resubscription(current: &Vec<String>, subscribed: &Vec<String>) -> (r: bool)
    ensures
        r == (current@.len() != subscribed@.len() || exists|i: int|
            0 <= i < current@.len() && !has_token(subscribed@, (#[trigger] current@[i])@)),
{
    if current.len() != subscribed.len() {
        return true;
    }
    let mut i: usize = 0;
    while i < current.len()
        invariant
            i <= current@.len(),
            forall|j: int| 0 <= j < i ==> has_token(subscribed@, (#[trigger] current@[j])@),
        decreases current@.len() - i,
    {
        if !contains_token(subscribed, &current[i]) {
            assert(!has_token(subscribed@, current@[i as int]@));
            return true;
        }
        i += 1;
    }
    false
}

/// Counts one message more since the last look at the tokens, and says whether
/// it is time for the next.
pub fn count_message(since_check: u32) -> (r: (u32, bool))
    requires
        since_check < MESSAGES_PER_TOKEN_CHECK,
    ensures
        r.1 == (since_check + 1 == MESSAGES_PER_TOKEN_CHECK),
        r.1 == (since_check + 1 == 100),
        r.0 == (if r.1 {
            0
        } else {
            since_check + 1
        }),
        r.0 < MESSAGES_PER_TOKEN_CHECK,
{
    let next: u32 = since_check + 1;
    if next >= MESSAGES_PER_TOKEN_CHECK {
        (0, true)
    } else {
        (next, false)
    }
}

/// A price message changes nothing but prices and their time, and nothing at all
/// of the positions of other tokens.
pub proof fn law_prices_touch_only_their_token(
    p: TrackedPosition,
    token: Seq<char>,
    bid: Option<Dec>,
    ask: Option<Dec>,
    now_ms: u64,
)
    ensures
        p.token_id@ != token ==> priced(p, token, bid, ask, now_ms) == p,
        priced(p, token, bid, ask, now_ms) == (TrackedPosition {
            current_bid: priced(p, token, bid, ask, now_ms).current_bid,
            current_ask: priced(p, token, bid, ask, now_ms).current_ask,
            last_price_update: priced(p, token, bid, ask, now_ms).last_price_update,
            ..p
        }),
{
}

/// New best prices of a token reach every position of it, whatever else the
/// position has: each price that has come is taken, each that is missing stays
/// as it was, and nothing else changes but the time.
pub proof fn law_new_prices_reach_every_position(
    positions: Seq<TrackedPosition>,
    token: Seq<char>,
    bid: Option<Dec>,
    ask: Option<Dec>,
    now_ms: u64,
    i: int,
)
    requires
        0 <= i < positions.len(),
    ensures
        all_priced(positions, token, bid, ask, now_ms).len() == positions.len(),
        ({
            let p = positions[i];
            let after = all_priced(positions, token, bid, ask, now_ms)[i];
            if p.token_id@ == token {
                &&& bid is Some ==> after.current_bid == bid
                &&& bid is None ==> after.current_bid == p.current_bid
                &&& ask is Some ==> after.current_ask == ask
                &&& ask is None ==> after.current_ask == p.current_ask
                &&& after.last_price_update == Some(now_ms)
                &&& after == (TrackedPosition {
                    current_bid: after.current_bid,
                    current_ask: after.current_ask,
                    last_price_update: after.last_price_update,
                    ..p
                })
            } else {
                after == p
            }
        }),
{
}

/// Price changes are entered one after the other, each by its texts: a change
/// without a token does nothing; one with a token gives the positions of that
/// token the bid and the ask that its texts denote, and leaves a price whose text
/// is missing or no number.
pub proof fn law_price_changes_are_entered_in_turn(
    positions: Seq<TrackedPosition>,
    changes: Seq<PriceChange>,
    change: PriceChange,
    now_ms: u64,
    i: int,
)
    requires
        0 <= i < positions.len(),
    ensures
        after_changes(positions, Seq::<PriceChange>::empty(), now_ms) == positions,
        after_changes(positions, changes, now_ms).len() == positions.len(),
        after_changes(positions, changes, now_ms)[i].token_id == positions[i].token_id,
        ({
            let p = after_changes(positions, changes, now_ms)[i];
            let after = after_changes(positions, changes.push(change), now_ms)[i];
            match change.asset_id {
                Some(token) => if p.token_id@ == token@ {
                    &&& after.current_bid == (match change.best_bid {
                        Some(text) => match Dec::spec_parse(text@) {
                            Some(bid) => Some(bid),
                            None => p.current_bid,
                        },
                        None => p.current_bid,
                    })
                    &&& after.current_ask == (match change.best_ask {
                        Some(text) => match Dec::spec_parse(text@) {
                            Some(ask) => Some(ask),
                            None => p.current_ask,
                        },
                        None => p.current_ask,
                    })
                    &&& after.last_price_update == Some(now_ms)
                    &&& after == (TrackedPosition {
                        current_bid: after.current_bid,
                        current_ask: after.current_ask,
                        last_price_update: after.last_price_update,
                        ..p
                    })
                } else {
                    after == p
                },
                None => after == p,
            }
        }),
    decreases changes.len(),
{
    assert(changes.push(change).drop_last() =~= changes);
    if changes.len() > 0 {
        law_price_changes_are_entered_in_turn(
            positions,
            changes.drop_last(),
            changes.last(),
            now_ms,
            i,
        );
        assert(changes.drop_last().push(changes.last()) =~= changes);
    }
}

/// The last readable bid that has come for a token is the bid of its positions,
/// and the last readable ask their ask.
pub proof fn law_last_price_change_counts(
    positions: Seq<TrackedPosition>,
    changes: Seq<PriceChange>,
    now_ms: u64,
    i: int,
    k: int,
)
    requires
        0 <= i < positions.len(),
        0 <= k < changes.len(),
        changes[k].asset_id is Some,
        changes[k].asset_id->0@ == positions[i].token_id@,
    ensures
        ({
            let after = after_changes(positions, changes, now_ms)[i];
            &&& changes[k].best_bid is Some && Dec::spec_parse(changes[k].best_bid->0@) is Some
                && (forall|j: int|
                k < j < changes.len() ==> (#[trigger] changes[j]).asset_id is None
                    || changes[j].asset_id->0@ != positions[i].token_id@) ==> after.current_bid
                == Dec::spec_parse(changes[k].best_bid->0@)
            &&& changes[k].best_ask is Some && Dec::spec_parse(changes[k].best_ask->0@) is Some
                && (forall|j: int|
                k < j < changes.len() ==> (#[trigger] changes[j]).asset_id is None
                    || changes[j].asset_id->0@ != positions[i].token_id@) ==> after.current_ask
                == Dec::spec_parse(changes[k].best_ask->0@)
        }),
    decreases changes.len(),
{
    let before = changes.drop_last();
    law_price_changes_are_entered_in_turn(positions, before, changes.last(), now_ms, i);
    assert(before.push(changes.last()) =~= changes);
    if k < changes.len() - 1 {
        law_last_price_change_counts(positions, before, now_ms, i, k);
        assert(changes[changes.len() - 1] == changes.last());
        assert forall|j: int| 0 <= j < before.len() implies before[j] == changes[j] by {}
    }
}

/// A book gives every position of its token the highest readable bid and the
/// lowest readable ask, and leaves a price of which the book has none readable;
/// other positions and all else stay as they are.
pub proof fn law_book_gives_best_prices(
    before: Seq<TrackedPosition>,
    token: String,
    bids: Option<Vec<String>>,
    asks: Option<Vec<String>>,
    now_ms: u64,
    after: Seq<TrackedPosition>,
    i: int,
)
    requires
        after_message(
            before,
            StreamMessage::Book { asset_id: Some(token), bids, asks },
            now_ms,
            after,
        ),
        0 <= i < before.len(),
    ensures
        after.len() == before.len(),
        before[i].token_id@ != token@ ==> after[i] == before[i],
        after[i] == (TrackedPosition {
            current_bid: after[i].current_bid,
            current_ask: after[i].current_ask,
            last_price_update: after[i].last_price_update,
            ..before[i]
        }),
        before[i].token_id@ == token@ ==> after[i].last_price_update == Some(now_ms),
        before[i].token_id@ == token@ && bids is Some ==> forall|j: int|
            0 <= j < bids->0@.len() && Dec::spec_parse((#[trigger] bids->0@[j])@) is Some
                ==> after[i].current_bid is Some && after[i].current_bid->0@ >= Dec::spec_parse(
                bids->0@[j]@,
            )->0@,
        before[i].token_id@ == token@ && asks is Some ==> forall|j: int|
            0 <= j < asks->0@.len() && Dec::spec_parse((#[trigger] asks->0@[j])@) is Some
                ==> after[i].current_ask is Some && after[i].current_ask->0@ <= Dec::spec_parse(
                asks->0@[j]@,
            )->0@,
        before[i].token_id@ == token@ && after[i].current_bid != before[i].current_bid ==> bids
            is Some && exists|j: int|
            0 <= j < bids->0@.len() && Dec::spec_parse((#[trigger] bids->0@[j])@)
                == after[i].current_bid,
        before[i].token_id@ == token@ && after[i].current_ask != before[i].current_ask ==> asks
            is Some && exists|j: int|
            0 <= j < asks->0@.len() && Dec::spec_parse((#[trigger] asks->0@[j])@)
                == after[i].current_ask,
        bids is None ==> after[i].current_bid == before[i].current_bid,
        asks is None ==> after[i].current_ask == before[i].current_ask,
{
    let (bid, ask) = choose|bid: Option<Dec>, ask: Option<Dec>|
        {
            &&& match bids {
                Some(texts) => is_highest(readable_prices(texts@), bid),
                None => bid is None,
            }
            &&& match asks {
                Some(texts) => is_lowest(readable_prices(texts@), ask),
                None => ask is None,
            }
            &&& after == #[trigger] all_priced(before, token@, bid, ask, now_ms)
        };
    let pick = |i: int, t: String| Dec::spec_parse(t@);
    if bids is Some {
        let texts = bids->0@;
        let prices = readable_prices(texts);
        let sources = law_picking_is_exact(texts, pick);
        assert forall|j: int|
            0 <= j < texts.len() && Dec::spec_parse((#[trigger] texts[j])@) is Some implies bid
            is Some && bid->0@ >= Dec::spec_parse(texts[j]@)->0@ by {
            assert(pick(j, texts[j]) is Some);
            let k = choose|k: int| 0 <= k < sources.len() && sources[k] == j;
            assert(pick(sources[k], texts[sources[k]]) == Some(prices[k]));
        }
        if bid is Some {
            let k = choose|k: int| 0 <= k < prices.len() && bid->0 == #[trigger] prices[k];
            assert(pick(sources[k], texts[sources[k]]) == Some(prices[k]));
            assert(Dec::spec_parse(texts[sources[k]]@) == bid);
        }
    }
    if asks is Some {
        let texts = asks->0@;
        let prices = readable_prices(texts);
        let sources = law_picking_is_exact(texts, pick);
        assert forall|j: int|
            0 <= j < texts.len() && Dec::spec_parse((#[trigger] texts[j])@) is Some implies ask
            is Some && ask->0@ <= Dec::spec_parse(texts[j]@)->0@ by {
            assert(pick(j, texts[j]) is Some);
            let k = choose|k: int| 0 <= k < sources.len() && sources[k] == j;
            assert(pick(sources[k], texts[sources[k]]) == Some(prices[k]));
        }
        if ask is Some {
            let k = choose|k: int| 0 <= k < prices.len() && ask->0 == #[trigger] prices[k];
            assert(pick(sources[k], texts[sources[k]]) == Some(prices[k]));
            assert(Dec::spec_parse(texts[sources[k]]@) == ask);
        }
    }
}

/// A message is a price change or a book by its event type alone; one that is
/// neither, that has no type, or that has no list of changes changes nothing.
pub proof fn law_messages_are_told_by_event_type(
    msg: OrderbookMsg,
    before: Seq<TrackedPosition>,
    now_ms: u64,
    after: Seq<TrackedPosition>,
)
    requires
        after_message(before, classified(msg), now_ms, after),
    ensures
        msg.event_type is None ==> after == before,
        msg.event_type is Some && msg.event_type->0@ != "price_change"@ && msg.event_type->0@
            != "book"@ ==> after == before,
        msg.event_type is Some && msg.event_type->0@ == "price_change"@ && msg.price_changes is None
            ==> after == before,
        msg.event_type is Some && msg.event_type->0@ == "price_change"@ && msg.price_changes is Some
            ==> classified(msg) == StreamMessage::PriceChanges(msg.price_changes->0) && after
            == after_changes(before, msg.price_changes->0@, now_ms),
        msg.event_type is Some && msg.event_type->0@ == "book"@ ==> classified(msg)
            == (StreamMessage::Book { asset_id: msg.asset_id, bids: msg.bids, asks: msg.asks }),
        msg.event_type is Some && msg.event_type->0@ == "book"@ && msg.asset_id is None ==> after
            == before,
{
    reveal_strlit("price_change");
    reveal_strlit("book");
    assert("price_change"@.len() != "book"@.len());
}

/// A token is among some others exactly where one of them is the same text.
pub proof fn law_token_is_found_where_it_stands(tokens: Seq<String>, token: Seq<char>)
    ensures
        forall|i: int| 0 <= i < tokens.len() && (#[trigger] tokens[i])@ == token ==> has_token(
            tokens,
            token,
        ),
        (forall|i: int| 0 <= i < tokens.len() ==> (#[trigger] tokens[i])@ != token) ==> !has_token(
            tokens,
            token,
        ),
{
}

/// The stream counts as dead after fifteen seconds without a message, and the
/// tokens are looked at after every hundredth message.
pub proof fn law_stream_is_watched()
    ensures
        STALE_TIMEOUT_SECS == 15,
        MESSAGES_PER_TOKEN_CHECK == 100,
{
}

} // verus!
