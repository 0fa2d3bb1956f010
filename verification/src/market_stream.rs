//! Messages that keep the order book of the current market up to date.

use crate::bytes::{parse_u64, unsigned_value};
use crate::orderbook::{
    first_price, newer, side_depth, side_levels, OrderLevel, Orderbook,
};
use crate::decimal::Dec;
use crate::settings::{read_price, stored_price, text_of};
use vstd::prelude::*;
use vstd::utf8::*;

verus! {

/// Seconds without a message after which the stream is opened again.
pub const MARKET_STREAM_TIMEOUT_SECS: u64 = 10;

/// New best prices of one token.
#[derive(Debug)]
pub struct MarketPriceChange {
    pub asset_id: Option<String>,
    pub best_bid: Option<String>,
    pub best_ask: Option<String>,
    pub timestamp: Option<String>,
}

/// A message of the market stream.
#[derive(Debug)]
pub struct MarketMessage {
    pub event_type: Option<String>,
    pub asset_id: Option<String>,
    pub bids: Option<Vec<OrderLevel>>,
    pub asks: Option<Vec<OrderLevel>>,
    pub price_changes: Option<Vec<MarketPriceChange>>,
    pub timestamp: Option<String>,
}

/// The time that a text gives, in milliseconds.
pub open spec fn stated_time(text: Option<Seq<char>>) -> Option<int> {
    match text {
        Some(t) => match unsigned_value(encode_utf8(t)) {
            Some(n) => if n <= u64::MAX {
                Some(n)
            } else {
                None
            },
            None => None,
        },
        None => None,
    }
}

/// The latency that follows from a stated time; the one known before where no
/// time is stated.  A time in the future means no latency.
pub open spec fn latency_after(text: Option<Seq<char>>, now_ms: u64, before: u64) -> u64 {
    match stated_time(text) {
        Some(t) => if t < now_ms {
            (now_ms - t) as u64
        } else {
            0
        },
        None => before,
    }
}

/// Computes the latency from a stated time.
pub fn latency_from(timestamp: &Option<String>, now_ms: u64, before: u64) -> (r: u64)
    ensures
        r == latency_after(text_of(*timestamp), now_ms, before),
{
    match timestamp {
        Some(t) => match parse_u64(t.as_str().as_bytes()) {
            Some(time) => if time < now_ms {
                now_ms - time
            } else {
                0
            },
            None => before,
        },
        None => before,
    }
}

/// What the market's two tokens are to a message's token.
#[derive(Clone, Copy, Debug, PartialEq, Eq, Structural)]
pub enum TokenSide {
    Up,
    Down,
    Neither,
}

/// Which of the two tokens a text names; the up token is looked at first.
pub open spec fn side_of(token: Seq<char>, up: Seq<char>, down: Seq<char>) -> TokenSide {
    if token == up {
        TokenSide::Up
    } else if token == down {
        TokenSide::Down
    } else {
        TokenSide::Neither
    }
}

/// Tells which of the two tokens a text names.
pub fn token_side(token: &String, up_token: &String, down_token: &String) -> (r: TokenSide)
    ensures
        r == side_of(token@, up_token@, down_token@),
{
    if *token == *up_token {
        TokenSide::Up
    } else if *token == *down_token {
        TokenSide::Down
    } else {
        TokenSide::Neither
    }
}

/// The book after a change of best prices.
pub open spec fn after_change(
    book: Orderbook,
    change: MarketPriceChange,
    up: Seq<char>,
    down: Seq<char>,
    now_ms: u64,
) -> Orderbook {
    let bid = stored_price(text_of(change.best_bid));
    let ask = stored_price(text_of(change.best_ask));
    match text_of(change.asset_id) {
        Some(token) => match side_of(token, up, down) {
            TokenSide::Up => Orderbook {
                up_best_bid: newer(bid, book.up_best_bid),
                up_best_ask: newer(ask, book.up_best_ask),
                last_update_ms: Some(now_ms),
                update_count: (book.update_count + 1) as u64,
                ..book
            },
            TokenSide::Down => Orderbook {
                down_best_bid: newer(bid, book.down_best_bid),
                down_best_ask: newer(ask, book.down_best_ask),
                last_update_ms: Some(now_ms),
                update_count: (book.update_count + 1) as u64,
                ..book
            },
            TokenSide::Neither => book,
        },
        None => book,
    }
}

/// The book after some changes of best prices, one after the other.
pub open spec fn after_all_changes(
    book: Orderbook,
    changes: Seq<MarketPriceChange>,
    up: Seq<char>,
    down: Seq<char>,
    now_ms: u64,
) -> Orderbook
    decreases changes.len(),
{
    if changes.len() == 0 {
        book
    } else {
        after_change(
            after_all_changes(book, changes.drop_last(), up, down, now_ms),
            changes.last(),
            up,
            down,
            now_ms,
        )
    }
}

/// The latency after some changes: the last stated time counts.
pub open spec fn latency_after_all(changes: Seq<MarketPriceChange>, now_ms: u64, before: u64) -> u64
    decreases changes.len(),
{
    if changes.len() == 0 {
        before
    } else {
        latency_after(
            text_of(changes.last().timestamp),
            now_ms,
            latency_after_all(changes.drop_last(), now_ms, before),
        )
    }
}

/// Changes count at most one update each.
proof fn lemma_changes_count(
    book: Orderbook,
    changes: Seq<MarketPriceChange>,
    up: Seq<char>,
    down: Seq<char>,
    now_ms: u64,
)
    requires
        book.update_count + changes.len() <= u64::MAX,
    ensures
        after_all_changes(book, changes, up, down, now_ms).update_count <= book.update_count
            + changes.len(),
    decreases changes.len(),
{
    if changes.len() > 0 {
        lemma_changes_count(book, changes.drop_last(), up, down, now_ms);
    }
}

/// Whether `after` is the book after the whole book of one token has come.
pub open spec fn book_replaced(
    before: Orderbook,
    after: Orderbook,
    is_up: bool,
    bids: Option<Vec<OrderLevel>>,
    asks: Option<Vec<OrderLevel>>,
    now_ms: u64,
) -> bool {
    let bid_levels = side_levels(bids, true);
    let ask_levels = side_levels(asks, false);
    &&& after.last_update_ms == Some(now_ms)
    &&& after.update_count == before.update_count + 1
    &&& if is_up {
        &&& after.up_bids@ == bid_levels
        &&& after.up_asks@ == ask_levels
        &&& after.up_best_bid == first_price(bid_levels)
        &&& after.up_best_ask == first_price(ask_levels)
        &&& after.up_bid_depth == side_depth(bids)
        &&& after.up_ask_depth == side_depth(asks)
        &&& after.down_best_bid == before.down_best_bid
        &&& after.down_best_ask == before.down_best_ask
        &&& after.down_bids == before.down_bids
        &&& after.down_asks == before.down_asks
        &&& after.down_bid_depth == before.down_bid_depth
        &&& after.down_ask_depth == before.down_ask_depth
    } else {
        &&& after.down_bids@ == bid_levels
        &&& after.down_asks@ == ask_levels
        &&& after.down_best_bid == first_price(bid_levels)
        &&& after.down_best_ask == first_price(ask_levels)
        &&& after.down_bid_depth == side_depth(bids)
        &&& after.down_ask_depth == side_depth(asks)
        &&& after.up_best_bid == before.up_best_bid
        &&& after.up_best_ask == before.up_best_ask
        &&& after.up_bids == before.up_bids
        &&& after.up_asks == before.up_asks
        &&& after.up_bid_depth == before.up_bid_depth
        &&& after.up_ask_depth == before.up_ask_depth
    }
}

/// Whether a message carries changes of best prices.
pub open spec fn is_price_change(msg: MarketMessage) -> bool {
    text_of(msg.event_type) == Some("price_change"@)
}

/// Whether a message carries a whole book.
pub open spec fn is_book(msg: MarketMessage) -> bool {
    !is_price_change(msg) && text_of(msg.event_type) == Some("book"@)
}

/// Whether `after` is what a message makes of the book.
pub open spec fn book_after(
    before: Orderbook,
    msg: MarketMessage,
    up: Seq<char>,
    down: Seq<char>,
    now_ms: u64,
    after: Orderbook,
) -> bool {
    if is_price_change(msg) {
        match msg.price_changes {
            Some(changes) => after == after_all_changes(before, changes@, up, down, now_ms),
            None => after == before,
        }
    } else if is_book(msg) {
        match text_of(msg.asset_id) {
            Some(token) => match side_of(token, up, down) {
                TokenSide::Up => book_replaced(before, after, true, msg.bids, msg.asks, now_ms),
                TokenSide::Down => book_replaced(before, after, false, msg.bids, msg.asks, now_ms),
                TokenSide::Neither => after == before,
            },
            None => after == before,
        }
    } else {
        after == before
    }
}

/// The latency after a message.
pub open spec fn message_latency(msg: MarketMessage, now_ms: u64, before: u64) -> u64 {
    let stated = latency_after(text_of(msg.timestamp), now_ms, before);
    if is_price_change(msg) && msg.price_changes is Some {
        latency_after_all(msg.price_changes->0@, now_ms, stated)
    } else {
        stated
    }
}

/// Takes in a message; the new latency is handed back.
pub fn apply_market_message(
    book: &mut Orderbook,
    latency_ms: u64,
    msg: &MarketMessage,
    up_token: &String,
    down_token: &String,
    now_ms: u64,
) -> (r: u64)
    requires
        old(book).update_count < u64::MAX,
        msg.price_changes matches Some(changes) ==> old(book).update_count + changes@.len()
            <= u64::MAX,
    ensures
        book_after(*old(book), *msg, up_token@, down_token@, now_ms, *final(book)),
        r == message_latency(*msg, now_ms, latency_ms),
{
    let mut latency: u64 = latency_from(&msg.timestamp, now_ms, latency_ms);
    let event = match &msg.event_type {
        Some(event) => event,
        None => {
            return latency;
        },
    };
    if *event == "price_change".to_owned() {
        if let Some(changes) = &msg.price_changes {
            let ghost before = *book;
            let ghost stated = latency;
            let mut i: usize = 0;
            proof {
                assert(changes@.take(0) =~= Seq::empty());
            }
            while i < changes.len()
                invariant
                    i <= changes@.len(),
                    before.update_count + changes@.len() <= u64::MAX,
                    *book == after_all_changes(
                        before,
                        changes@.take(i as int),
                        up_token@,
                        down_token@,
                        now_ms,
                    ),
                    latency == latency_after_all(changes@.take(i as int), now_ms, stated),
                decreases changes@.len() - i,
            {
                let change = &changes[i];
                proof {
                    assert(changes@.take(i + 1).drop_last() =~= changes@.take(i as int));
                    assert(changes@.take(i + 1).last() == *change);
                    lemma_changes_count(
                        before,
                        changes@.take(i as int),
                        up_token@,
                        down_token@,
                        now_ms,
                    );
                }
                latency = latency_from(&change.timestamp, now_ms, latency);
                if let Some(token) = &change.asset_id {
                    let side = token_side(token, up_token, down_token);
                    if side != TokenSide::Neither {
                        let bid = read_price(&change.best_bid);
                        let ask = read_price(&change.best_ask);
                        book.apply_price_change(side == TokenSide::Up, bid, ask, now_ms);
                    }
                }
                i += 1;
            }
            assert(changes@.take(i as int) =~= changes@);
        }
    } else if *event == "book".to_owned() {
        if let Some(token) = &msg.asset_id {
            let side = token_side(token, up_token, down_token);
            if side != TokenSide::Neither {
                book.apply_book(side == TokenSide::Up, &msg.bids, &msg.asks, now_ms);
            }
        }
    }
    latency
}

// ---------------------------------------------------------------------------
// Laws
// ---------------------------------------------------------------------------

/// A stated time is the number that its text denotes; from it the latency is the
/// time from then to now, none for a time ahead, and without one the latency
/// known before stays.
pub proof fn law_latency_is_since_the_stated_time(text: Seq<char>, now_ms: u64, before: u64)
    ensures
        stated_time(None) is None,
        latency_after(None, now_ms, before) == before,
        unsigned_value(encode_utf8(text)) is None ==> stated_time(Some(text)) is None,
        unsigned_value(encode_utf8(text)) matches Some(n) ==> {
            &&& n <= u64::MAX ==> stated_time(Some(text)) == Some(n)
            &&& n > u64::MAX ==> stated_time(Some(text)) is None
        },
        stated_time(Some(text)) is None ==> latency_after(Some(text), now_ms, before) == before,
        stated_time(Some(text)) matches Some(t) ==> {
            &&& 0 <= t <= now_ms ==> latency_after(Some(text), now_ms, before) == now_ms - t
            &&& t > now_ms ==> latency_after(Some(text), now_ms, before) == 0
        },
{
}

/// A text names the up token or the down token exactly where it is that token.
pub proof fn law_tokens_name_their_side(token: Seq<char>, up: Seq<char>, down: Seq<char>)
    ensures
        token == up ==> side_of(token, up, down) == TokenSide::Up,
        token != up && token == down ==> side_of(token, up, down) == TokenSide::Down,
        token != up && token != down ==> side_of(token, up, down) == TokenSide::Neither,
{
}

/// A change of best prices of the up token changes just the best prices of up, each
/// where its text is a number, and counts as an update.
pub proof fn law_up_changes_reach_up_prices(
    book: Orderbook,
    change: MarketPriceChange,
    up: Seq<char>,
    down: Seq<char>,
    now_ms: u64,
)
    requires
        book.update_count < u64::MAX,
        change.asset_id is Some,
        change.asset_id->0@ == up,
    ensures
        ({
            let after = after_change(book, change, up, down, now_ms);
            &&& after.up_best_bid == (match change.best_bid {
                Some(text) => match Dec::spec_parse(text@) {
                    Some(bid) => Some(bid),
                    None => book.up_best_bid,
                },
                None => book.up_best_bid,
            })
            &&& after.up_best_ask == (match change.best_ask {
                Some(text) => match Dec::spec_parse(text@) {
                    Some(ask) => Some(ask),
                    None => book.up_best_ask,
                },
                None => book.up_best_ask,
            })
            &&& after.last_update_ms == Some(now_ms)
            &&& after.update_count == book.update_count + 1
            &&& after == (Orderbook {
                up_best_bid: after.up_best_bid,
                up_best_ask: after.up_best_ask,
                last_update_ms: after.last_update_ms,
                update_count: after.update_count,
                ..book
            })
        }),
{
}

/// A change of best prices of the down token changes just the best prices of down,
/// each where its text is a number, and counts as an update.
pub proof fn law_down_changes_reach_down_prices(
    book: Orderbook,
    change: MarketPriceChange,
    up: Seq<char>,
    down: Seq<char>,
    now_ms: u64,
)
    requires
        book.update_count < u64::MAX,
        change.asset_id is Some,
        change.asset_id->0@ == down,
        down != up,
    ensures
        ({
            let after = after_change(book, change, up, down, now_ms);
            &&& after.down_best_bid == (match change.best_bid {
                Some(text) => match Dec::spec_parse(text@) {
                    Some(bid) => Some(bid),
                    None => book.down_best_bid,
                },
                None => book.down_best_bid,
            })
            &&& after.down_best_ask == (match change.best_ask {
                Some(text) => match Dec::spec_parse(text@) {
                    Some(ask) => Some(ask),
                    None => book.down_best_ask,
                },
                None => book.down_best_ask,
            })
            &&& after.last_update_ms == Some(now_ms)
            &&& after.update_count == book.update_count + 1
            &&& after == (Orderbook {
                down_best_bid: after.down_best_bid,
                down_best_ask: after.down_best_ask,
                last_update_ms: after.last_update_ms,
                update_count: after.update_count,
                ..book
            })
        }),
{
}

/// A change without a token, or of neither token, changes nothing.
pub proof fn law_other_changes_do_nothing(
    book: Orderbook,
    change: MarketPriceChange,
    up: Seq<char>,
    down: Seq<char>,
    now_ms: u64,
)
    requires
        change.asset_id matches Some(token) ==> token@ != up && token@ != down,
    ensures
        after_change(book, change, up, down, now_ms) == book,
{
}

/// Changes are entered one after the other, and the last stated time among them
/// counts for the latency.
pub proof fn law_changes_are_entered_in_turn(
    book: Orderbook,
    changes: Seq<MarketPriceChange>,
    change: MarketPriceChange,
    up: Seq<char>,
    down: Seq<char>,
    now_ms: u64,
    before: u64,
)
    ensures
        after_all_changes(book, Seq::<MarketPriceChange>::empty(), up, down, now_ms) == book,
        after_all_changes(book, changes.push(change), up, down, now_ms) == after_change(
            after_all_changes(book, changes, up, down, now_ms),
            change,
            up,
            down,
            now_ms,
        ),
        latency_after_all(Seq::<MarketPriceChange>::empty(), now_ms, before) == before,
        change.timestamp is None ==> latency_after_all(changes.push(change), now_ms, before)
            == latency_after_all(changes, now_ms, before),
        change.timestamp matches Some(text) ==> (stated_time(Some(text@)) matches Some(t) ==> 0 <= t
            <= now_ms ==> latency_after_all(changes.push(change), now_ms, before) == now_ms - t),
{
    assert(changes.push(change).drop_last() =~= changes);
}

/// A whole book of a token takes the place of what was known of it: its levels,
/// its best prices and its depth; nothing of the other token changes.
pub proof fn law_book_takes_the_place_of_its_token(
    before: Orderbook,
    after: Orderbook,
    is_up: bool,
    bids: Option<Vec<OrderLevel>>,
    asks: Option<Vec<OrderLevel>>,
    now_ms: u64,
)
    requires
        book_replaced(before, after, is_up, bids, asks, now_ms),
    ensures
        after.last_update_ms == Some(now_ms),
        after.update_count == before.update_count + 1,
        is_up ==> {
            &&& after.up_bids@ == side_levels(bids, true)
            &&& after.up_asks@ == side_levels(asks, false)
            &&& after.up_best_bid == first_price(side_levels(bids, true))
            &&& after.up_best_ask == first_price(side_levels(asks, false))
            &&& after.up_bid_depth == side_depth(bids)
            &&& after.up_ask_depth == side_depth(asks)
            &&& after.down_best_bid == before.down_best_bid
            &&& after.down_best_ask == before.down_best_ask
            &&& after.down_bids == before.down_bids
            &&& after.down_asks == before.down_asks
            &&& after.down_bid_depth == before.down_bid_depth
            &&& after.down_ask_depth == before.down_ask_depth
        },
        !is_up ==> {
            &&& after.down_bids@ == side_levels(bids, true)
            &&& after.down_asks@ == side_levels(asks, false)
            &&& after.down_best_bid == first_price(side_levels(bids, true))
            &&& after.down_best_ask == first_price(side_levels(asks, false))
            &&& after.down_bid_depth == side_depth(bids)
            &&& after.down_ask_depth == side_depth(asks)
            &&& after.up_best_bid == before.up_best_bid
            &&& after.up_best_ask == before.up_best_ask
            &&& after.up_bids == before.up_bids
            &&& after.up_asks == before.up_asks
            &&& after.up_bid_depth == before.up_bid_depth
            &&& after.up_ask_depth == before.up_ask_depth
        },
{
}

/// What a message makes of the book goes by its event type: changes are entered, a
/// book of one of the two tokens takes its place, and anything else changes
/// nothing; the latency is that of the last stated time.
pub proof fn law_market_messages_go_by_event_type(
    before: Orderbook,
    msg: MarketMessage,
    up: Seq<char>,
    down: Seq<char>,
    now_ms: u64,
    after: Orderbook,
    known: u64,
)
    requires
        book_after(before, msg, up, down, now_ms, after),
    ensures
        ({
            let changes = msg.event_type is Some && msg.event_type->0@ == "price_change"@;
            let book = msg.event_type is Some && msg.event_type->0@ == "book"@;
            &&& !changes && !book ==> after == before
            &&& changes && msg.price_changes is None ==> after == before
            &&& changes && msg.price_changes is Some ==> after == after_all_changes(
                before,
                msg.price_changes->0@,
                up,
                down,
                now_ms,
            )
            &&& book && msg.asset_id is Some && msg.asset_id->0@ == up ==> book_replaced(
                before,
                after,
                true,
                msg.bids,
                msg.asks,
                now_ms,
            )
            &&& book && msg.asset_id is Some && msg.asset_id->0@ == down && down != up
                ==> book_replaced(before, after, false, msg.bids, msg.asks, now_ms)
            &&& book && (msg.asset_id is None || (msg.asset_id->0@ != up && msg.asset_id->0@
                != down)) ==> after == before
            &&& !changes || msg.price_changes is None ==> message_latency(msg, now_ms, known)
                == latency_after(text_of(msg.timestamp), now_ms, known)
            &&& changes && msg.price_changes is Some ==> message_latency(msg, now_ms, known)
                == latency_after_all(
                msg.price_changes->0@,
                now_ms,
                latency_after(text_of(msg.timestamp), now_ms, known),
            )
        }),
{
    reveal_strlit("price_change");
    reveal_strlit("book");
    assert("price_change"@.len() != "book"@.len());
}

/// The market stream is opened again after ten seconds without a message.
pub proof fn law_silent_market_stream_is_opened_again()
    ensures
        MARKET_STREAM_TIMEOUT_SECS == 10,
{
}

} // verus!
