//! The order book of the current market: best prices and top levels of both
//! tokens.

use crate::decimal::{cents, Dec};
use crate::lists::{law_picking_is_exact, lemma_picked_step, picked};
use crate::settings::{read_price, stored_price, text_of};
use vstd::prelude::*;

verus! {

/// How many levels are kept for display.
pub const LEVELS_SHOWN: usize = 5;

/// Age in milliseconds beyond which the book counts as stale.
pub const BOOK_MAX_AGE_MS: u64 = 5_000;

/// One level of the book.
#[derive(Clone, Copy, Debug)]
pub struct PriceLevel {
    pub price: Dec,
    pub size: Dec,
}

/// One level as it comes, in texts.
#[derive(Debug)]
pub struct OrderLevel {
    pub price: String,
    pub size: Option<String>,
}

/// The book of both tokens.
#[derive(Debug)]
pub struct Orderbook {
    pub up_best_bid: Option<Dec>,
    pub up_best_ask: Option<Dec>,
    pub down_best_bid: Option<Dec>,
    pub down_best_ask: Option<Dec>,
    pub up_bids: Vec<PriceLevel>,
    pub up_asks: Vec<PriceLevel>,
    pub down_bids: Vec<PriceLevel>,
    pub down_asks: Vec<PriceLevel>,
    pub up_bid_depth: usize,
    pub up_ask_depth: usize,
    pub down_bid_depth: usize,
    pub down_ask_depth: usize,
    pub last_update_ms: Option<u64>,
    pub update_count: u64,
}

/// The level that texts denote: nothing where the price is no number, and a size
/// of zero where the size is none.
pub open spec fn level_of(l: OrderLevel) -> Option<PriceLevel> {
    match Dec::spec_parse(l.price@) {
        Some(price) => Some(
            PriceLevel {
                price,
                size: match stored_price(text_of(l.size)) {
                    Some(size) => size,
                    None => Dec::of(0, 0),
                },
            },
        ),
        None => None,
    }
}

/// The readable levels, in their order.
pub open spec fn readable_levels(levels: Seq<OrderLevel>) -> Seq<PriceLevel> {
    picked(levels, |i: int, l: OrderLevel| level_of(l))
}

/// Whether the first price stands before the second in a list that goes from the
/// best to the worst: bids from high to low, asks from low to high.
pub open spec fn ahead(a: Dec, b: Dec, descending: bool) -> bool {
    if descending {
        a@ > b@
    } else {
        a@ < b@
    }
}

/// A sorted list with one level more: behind all levels that are not worse.
pub open spec fn inserted(sorted: Seq<PriceLevel>, x: PriceLevel, descending: bool) -> Seq<PriceLevel>
    decreases sorted.len(),
{
    if sorted.len() == 0 {
        seq![x]
    } else if ahead(x.price, sorted.last().price, descending) {
        inserted(sorted.drop_last(), x, descending).push(sorted.last())
    } else {
        sorted.push(x)
    }
}

/// Levels sorted from the best to the worst; equal prices stay in their order.
pub open spec fn sorted_levels(levels: Seq<PriceLevel>, descending: bool) -> Seq<PriceLevel>
    decreases levels.len(),
{
    if levels.len() == 0 {
        Seq::empty()
    } else {
        inserted(sorted_levels(levels.drop_last(), descending), levels.last(), descending)
    }
}

/// The best levels of a book side.
pub open spec fn top_levels(levels: Seq<OrderLevel>, descending: bool) -> Seq<PriceLevel> {
    let sorted = sorted_levels(readable_levels(levels), descending);
    if sorted.len() > LEVELS_SHOWN {
        sorted.take(LEVELS_SHOWN as int)
    } else {
        sorted
    }
}

/// An insertion adds one level.
proof fn lemma_inserted_len(sorted: Seq<PriceLevel>, x: PriceLevel, descending: bool)
    ensures
        inserted(sorted, x, descending).len() == sorted.len() + 1,
    decreases sorted.len(),
{
    if sorted.len() > 0 {
        lemma_inserted_len(sorted.drop_last(), x, descending);
    }
}

/// Where an insertion puts a level: all behind it are worse, and the one before
/// it is not.
proof fn lemma_inserted_at(sorted: Seq<PriceLevel>, x: PriceLevel, descending: bool, at: int)
    requires
        0 <= at <= sorted.len(),
        forall|j: int|
            at <= j < sorted.len() ==> ahead(x.price, (#[trigger] sorted[j]).price, descending),
        at > 0 ==> !ahead(x.price, sorted[at - 1].price, descending),
    ensures
        inserted(sorted, x, descending) == sorted.insert(at, x),
    decreases sorted.len(),
{
    if at == sorted.len() {
        if sorted.len() > 0 {
            assert(sorted.last() == sorted[at - 1]);
        }
        assert(sorted.insert(at, x) =~= sorted.push(x));
    } else {
        assert(ahead(x.price, sorted[sorted.len() - 1].price, descending));
        lemma_inserted_at(sorted.drop_last(), x, descending, at);
        assert(sorted.drop_last().insert(at, x).push(sorted.last()) =~= sorted.insert(at, x));
    }
}

/// Puts a level into a sorted list.
fn insert_level(sorted: &mut Vec<PriceLevel>, x: PriceLevel, descending: bool)
    ensures
        final(sorted)@ == inserted(old(sorted)@, x, descending),
{
    let mut at: usize = sorted.len();
    let mut searching: bool = true;
    while searching && at > 0
        invariant
            sorted@ == old(sorted)@,
            at <= sorted@.len(),
            forall|j: int|
                at <= j < sorted@.len() ==> ahead(
                    x.price,
                    (#[trigger] sorted@[j]).price,
                    descending,
                ),
            !searching ==> at > 0 && !ahead(x.price, sorted@[at - 1].price, descending),
        decreases at, (if searching {
            1int
        } else {
            0int
        }),
    {
        let before = sorted[at - 1];
        let worse = if descending {
            before.price.lt(x.price)
        } else {
            x.price.lt(before.price)
        };
        if worse {
            at -= 1;
        } else {
            searching = false;
        }
    }
    proof {
        lemma_inserted_at(sorted@, x, descending, at as int);
    }
    sorted.insert(at, x);
}

/// Reads the best levels of a book side.
pub fn read_top_levels(levels: &Vec<OrderLevel>, descending: bool) -> (r: Vec<PriceLevel>)
    ensures
        r@ == top_levels(levels@, descending),
{
    let ghost pick = |i: int, l: OrderLevel| level_of(l);
    let mut sorted: Vec<PriceLevel> = Vec::new();
    let mut i: usize = 0;
    proof {
        assert(levels@.take(0) =~= Seq::empty());
    }
    while i < levels.len()
        invariant
            i <= levels@.len(),
            pick == (|i: int, l: OrderLevel| level_of(l)),
            sorted@ == sorted_levels(picked(levels@.take(i as int), pick), descending),
        decreases levels@.len() - i,
    {
        let ghost before = picked(levels@.take(i as int), pick);
        proof {
            lemma_picked_step(levels@, pick, i as int);
        }
        if let Some(price) = Dec::parse(levels[i].price.as_str()) {
            let size = match read_price(&levels[i].size) {
                Some(size) => size,
                None => Dec::zero(),
            };
            let level = PriceLevel { price, size };
            proof {
                assert(before.push(level).drop_last() =~= before);
            }
            insert_level(&mut sorted, level, descending);
        }
        i += 1;
    }
    proof {
        assert(levels@.take(i as int) =~= levels@);
    }
    if sorted.len() > LEVELS_SHOWN {
        sorted.truncate(LEVELS_SHOWN);
        assert(sorted@ =~= top_levels(levels@, descending));
    }
    sorted
}

/// The price of the first level.
pub open spec fn first_price(levels: Seq<PriceLevel>) -> Option<Dec> {
    if levels.len() > 0 {
        Some(levels[0].price)
    } else {
        None
    }
}

/// The levels of a book side that may be missing.
pub open spec fn side_levels(levels: Option<Vec<OrderLevel>>, descending: bool) -> Seq<PriceLevel> {
    match levels {
        Some(l) => top_levels(l@, descending),
        None => Seq::empty(),
    }
}

/// How many levels a book side has, readable or not.
pub open spec fn side_depth(levels: Option<Vec<OrderLevel>>) -> int {
    match levels {
        Some(l) => l@.len() as int,
        None => 0,
    }
}

/// A price where a new one is known, and the old one otherwise.
pub open spec fn newer(new: Option<Dec>, old_price: Option<Dec>) -> Option<Dec> {
    if new is Some {
        new
    } else {
        old_price
    }
}

impl Orderbook {
    /// Whether nothing is known of the book.
    pub open spec fn is_empty_book(self) -> bool {
        &&& self.up_best_bid is None
        &&& self.up_best_ask is None
        &&& self.down_best_bid is None
        &&& self.down_best_ask is None
        &&& self.up_bids@ == Seq::<PriceLevel>::empty()
        &&& self.up_asks@ == Seq::<PriceLevel>::empty()
        &&& self.down_bids@ == Seq::<PriceLevel>::empty()
        &&& self.down_asks@ == Seq::<PriceLevel>::empty()
        &&& self.up_bid_depth == 0
        &&& self.up_ask_depth == 0
        &&& self.down_bid_depth == 0
        &&& self.down_ask_depth == 0
        &&& self.last_update_ms is None
        &&& self.update_count == 0
    }

    /// An empty book.
    pub fn new() -> (r: Orderbook)
        ensures
            r.is_empty_book(),
    {
        Orderbook {
            up_best_bid: None,
            up_best_ask: None,
            down_best_bid: None,
            down_best_ask: None,
            up_bids: Vec::new(),
            up_asks: Vec::new(),
            down_bids: Vec::new(),
            down_asks: Vec::new(),
            up_bid_depth: 0,
            up_ask_depth: 0,
            down_bid_depth: 0,
            down_ask_depth: 0,
            last_update_ms: None,
            update_count: 0,
        }
    }

    /// Enters new best prices of one token; a price that is missing stays as it
    /// was.
    pub fn apply_price_change(&mut self, is_up: bool, bid: Option<Dec>, ask: Option<Dec>, now_ms: u64)
        requires
            old(self).update_count < u64::MAX,
        ensures
            *final(self) == (if is_up {
                Orderbook {
                    up_best_bid: newer(bid, old(self).up_best_bid),
                    up_best_ask: newer(ask, old(self).up_best_ask),
                    last_update_ms: Some(now_ms),
                    update_count: (old(self).update_count + 1) as u64,
                    ..*old(self)
                }
            } else {
                Orderbook {
                    down_best_bid: newer(bid, old(self).down_best_bid),
                    down_best_ask: newer(ask, old(self).down_best_ask),
                    last_update_ms: Some(now_ms),
                    update_count: (old(self).update_count + 1) as u64,
                    ..*old(self)
                }
            }),
            is_up && bid is Some ==> final(self).up_best_bid == bid,
            is_up && bid is None ==> final(self).up_best_bid == old(self).up_best_bid,
            is_up && ask is Some ==> final(self).up_best_ask == ask,
            is_up && ask is None ==> final(self).up_best_ask == old(self).up_best_ask,
            is_up ==> final(self).down_best_bid == old(self).down_best_bid
                && final(self).down_best_ask == old(self).down_best_ask,
            !is_up && bid is Some ==> final(self).down_best_bid == bid,
            !is_up && bid is None ==> final(self).down_best_bid == old(self).down_best_bid,
            !is_up && ask is Some ==> final(self).down_best_ask == ask,
            !is_up && ask is None ==> final(self).down_best_ask == old(self).down_best_ask,
            !is_up ==> final(self).up_best_bid == old(self).up_best_bid && final(self).up_best_ask
                == old(self).up_best_ask,
    {
        if is_up {
            if bid.is_some() {
                self.up_best_bid = bid;
            }
            if ask.is_some() {
                self.up_best_ask = ask;
            }
        } else {
            if bid.is_some() {
                self.down_best_bid = bid;
            }
            if ask.is_some() {
                self.down_best_ask = ask;
            }
        }
        self.last_update_ms = Some(now_ms);
        self.update_count += 1;
    }

    /// Takes over the whole book of one token.
    pub fn apply_book(
        &mut self,
        is_up: bool,
        bids: &Option<Vec<OrderLevel>>,
        asks: &Option<Vec<OrderLevel>>,
        now_ms: u64,
    )
        requires
            old(self).update_count < u64::MAX,
        ensures
            final(self).last_update_ms == Some(now_ms),
            final(self).update_count == old(self).update_count + 1,
            ({
                let bid_levels = side_levels(*bids, true);
                let ask_levels = side_levels(*asks, false);
                if is_up {
                    &&& final(self).up_bids@ == bid_levels
                    &&& final(self).up_asks@ == ask_levels
                    &&& final(self).up_best_bid == first_price(bid_levels)
                    &&& final(self).up_best_ask == first_price(ask_levels)
                    &&& final(self).up_bid_depth == side_depth(*bids)
                    &&& final(self).up_ask_depth == side_depth(*asks)
                    &&& *final(self) == (Orderbook {
                        down_best_bid: old(self).down_best_bid,
                        down_best_ask: old(self).down_best_ask,
                        down_bids: old(self).down_bids,
                        down_asks: old(self).down_asks,
                        down_bid_depth: old(self).down_bid_depth,
                        down_ask_depth: old(self).down_ask_depth,
                        ..*final(self)
                    })
                } else {
                    &&& final(self).down_bids@ == bid_levels
                    &&& final(self).down_asks@ == ask_levels
                    &&& final(self).down_best_bid == first_price(bid_levels)
                    &&& final(self).down_best_ask == first_price(ask_levels)
                    &&& final(self).down_bid_depth == side_depth(*bids)
                    &&& final(self).down_ask_depth == side_depth(*asks)
                    &&& *final(self) == (Orderbook {
                        up_best_bid: old(self).up_best_bid,
                        up_best_ask: old(self).up_best_ask,
                        up_bids: old(self).up_bids,
                        up_asks: old(self).up_asks,
                        up_bid_depth: old(self).up_bid_depth,
                        up_ask_depth: old(self).up_ask_depth,
                        ..*final(self)
                    })
                }
            }),
    {
        let (bid_levels, bid_depth) = match bids {
            Some(levels) => (read_top_levels(levels, true), levels.len()),
            None => (Vec::new(), 0),
        };
        let (ask_levels, ask_depth) = match asks {
            Some(levels) => (read_top_levels(levels, false), levels.len()),
            None => (Vec::new(), 0),
        };
        let best_bid = if bid_levels.len() > 0 {
            Some(bid_levels[0].price)
        } else {
            None
        };
        let best_ask = if ask_levels.len() > 0 {
            Some(ask_levels[0].price)
        } else {
            None
        };
        if is_up {
            self.up_best_bid = best_bid;
            self.up_best_ask = best_ask;
            self.up_bids = bid_levels;
            self.up_asks = ask_levels;
            self.up_bid_depth = bid_depth;
            self.up_ask_depth = ask_depth;
        } else {
            self.down_best_bid = best_bid;
            self.down_best_ask = best_ask;
            self.down_bids = bid_levels;
            self.down_asks = ask_levels;
            self.down_bid_depth = bid_depth;
            self.down_ask_depth = ask_depth;
        }
        self.last_update_ms = Some(now_ms);
        self.update_count += 1;
    }

    /// Whether the book has not been updated for too long, or never.
    pub fn is_stale(&self, now_ms: u64) -> (r: bool)
        ensures
            r == (match self.last_update_ms {
                Some(t) => now_ms > t + BOOK_MAX_AGE_MS,
                None => true,
            }),
            self.last_update_ms is None ==> r,
            self.last_update_ms matches Some(t) ==> r == (now_ms > t + 5000),
    {
        match self.last_update_ms {
            Some(t) => now_ms > t && now_ms - t > BOOK_MAX_AGE_MS,
            None => true,
        }
    }

    /// What the ask of one token and the bid of the other come to, where both are
    /// known: the two are complements, so a sound book has about one.
    pub open spec fn spec_complement_sum(self) -> Option<Option<Dec>> {
        match (self.up_best_ask, self.down_best_bid) {
            (Some(ask), Some(bid)) => Some(ask.spec_plus(bid)),
            _ => None,
        }
    }

    /// Whether the complement sum, where there is one, lies between 0.95 and
    /// 1.05.  A sum that cannot be held does not.
    pub open spec fn spec_is_sane(self) -> bool {
        match self.spec_complement_sum() {
            Some(Some(sum)) => cents(95) <= sum@ <= cents(105),
            Some(None) => false,
            None => true,
        }
    }

    /// Checks that the best prices of the two tokens fit together.
    pub fn is_sane(&self) -> (r: bool)
        ensures
            r == self.spec_is_sane(),
    {
        match (self.up_best_ask, self.down_best_bid) {
            (Some(ask), Some(bid)) => match ask.plus(bid) {
                Some(sum) => Dec::new(95, 2).le(sum) && sum.le(Dec::new(105, 2)),
                None => false,
            },
            _ => true,
        }
    }

    /// Forgets all best prices.
    pub fn clear_best_prices(&mut self)
        ensures
            *final(self) == (Orderbook {
                up_best_bid: None,
                up_best_ask: None,
                down_best_bid: None,
                down_best_ask: None,
                ..*old(self)
            }),
    {
        self.up_best_ask = None;
        self.up_best_bid = None;
        self.down_best_ask = None;
        self.down_best_bid = None;
    }
}

// ---------------------------------------------------------------------------
// Laws
// ---------------------------------------------------------------------------

/// Whether levels go from the best to the worst.
pub open spec fn is_sorted(levels: Seq<PriceLevel>, descending: bool) -> bool {
    forall|i: int, j: int|
        0 <= i < j < levels.len() ==> !ahead(
            (#[trigger] levels[j]).price,
            (#[trigger] levels[i]).price,
            descending,
        )
}

/// Inserting into a sorted list keeps it sorted and adds just the new level.
proof fn lemma_inserted(sorted: Seq<PriceLevel>, x: PriceLevel, descending: bool)
    requires
        is_sorted(sorted, descending),
    ensures
        is_sorted(inserted(sorted, x, descending), descending),
        inserted(sorted, x, descending).to_multiset() == sorted.to_multiset().insert(x),
        forall|j: int|
            0 <= j < inserted(sorted, x, descending).len() ==> {
                let l = #[trigger] inserted(sorted, x, descending)[j];
                l == x || exists|i: int| 0 <= i < sorted.len() && l == sorted[i]
            },
    decreases sorted.len(),
{
    broadcast use vstd::seq_lib::group_to_multiset_ensures;

    lemma_inserted_len(sorted, x, descending);
    if sorted.len() == 0 {
        assert(sorted =~= Seq::empty());
        assert(inserted(sorted, x, descending) =~= sorted.push(x));
    } else if ahead(x.price, sorted.last().price, descending) {
        let before = sorted.drop_last();
        lemma_inserted(before, x, descending);
        let moved = inserted(before, x, descending);
        assert(sorted =~= before.push(sorted.last()));
        assert(inserted(sorted, x, descending) == moved.push(sorted.last()));
        assert(sorted.to_multiset() == before.to_multiset().insert(sorted.last()));
        assert(moved.push(sorted.last()).to_multiset() == moved.to_multiset().insert(
            sorted.last(),
        ));
        assert(before.to_multiset().insert(x).insert(sorted.last())
            =~= before.to_multiset().insert(sorted.last()).insert(x));
        let all = moved.push(sorted.last());
        assert forall|j: int| 0 <= j < all.len() implies {
            let l = #[trigger] all[j];
            l == x || exists|i: int| 0 <= i < sorted.len() && l == sorted[i]
        } by {
            if j < moved.len() {
                assert(all[j] == moved[j]);
                if moved[j] != x {
                    let i = choose|i: int| 0 <= i < before.len() && moved[j] == before[i];
                    assert(sorted[i] == before[i]);
                }
            } else {
                assert(all[j] == sorted[sorted.len() - 1]);
            }
        }
        assert forall|i: int, j: int| 0 <= i < j < all.len() implies !ahead(
            (#[trigger] all[j]).price,
            (#[trigger] all[i]).price,
            descending,
        ) by {
            assert(all[i] == moved[i]);
            if j < moved.len() {
                assert(all[j] == moved[j]);
            } else if moved[i] != x {
                let k = choose|k: int| 0 <= k < before.len() && moved[i] == before[k];
                assert(sorted[k] == before[k]);
            }
        }
    } else {
        let all = sorted.push(x);
        assert forall|i: int, j: int| 0 <= i < j < all.len() implies !ahead(
            (#[trigger] all[j]).price,
            (#[trigger] all[i]).price,
            descending,
        ) by {
            assert(all[i] == sorted[i]);
            if j == sorted.len() {
                assert(!ahead(sorted[sorted.len() - 1].price, sorted[i].price, descending) || i
                    == sorted.len() - 1);
            } else {
                assert(all[j] == sorted[j]);
            }
        }
        assert forall|j: int| 0 <= j < all.len() implies {
            let l = #[trigger] all[j];
            l == x || exists|i: int| 0 <= i < sorted.len() && l == sorted[i]
        } by {
            if j < sorted.len() {
                assert(all[j] == sorted[j]);
            }
        }
    }
}

/// Sorting keeps all levels, and puts them from the best to the worst.
pub proof fn law_sorting_keeps_levels(levels: Seq<PriceLevel>, descending: bool)
    ensures
        is_sorted(sorted_levels(levels, descending), descending),
        sorted_levels(levels, descending).to_multiset() == levels.to_multiset(),
        sorted_levels(levels, descending).len() == levels.len(),
    decreases levels.len(),
{
    broadcast use vstd::seq_lib::group_to_multiset_ensures;

    if levels.len() > 0 {
        let before = levels.drop_last();
        law_sorting_keeps_levels(before, descending);
        lemma_inserted(sorted_levels(before, descending), levels.last(), descending);
        lemma_inserted_len(sorted_levels(before, descending), levels.last(), descending);
        assert(levels =~= before.push(levels.last()));
    } else {
        assert(levels =~= Seq::empty());
    }
}

/// No readable level is better than the best price of a side, and no more than
/// five levels are kept.
pub proof fn law_top_level_is_best(levels: Seq<OrderLevel>, descending: bool, i: int)
    requires
        0 <= i < readable_levels(levels).len(),
    ensures
        first_price(top_levels(levels, descending)) is Some,
        !ahead(
            readable_levels(levels)[i].price,
            first_price(top_levels(levels, descending))->0,
            descending,
        ),
        top_levels(levels, descending).len() <= LEVELS_SHOWN,
{
    broadcast use vstd::seq_lib::group_to_multiset_ensures;

    let readable = readable_levels(levels);
    let sorted = sorted_levels(readable, descending);
    law_sorting_keeps_levels(readable, descending);
    assert(readable.contains(readable[i]));
    assert(sorted.to_multiset().count(readable[i]) > 0);
    assert(sorted.contains(readable[i]));
    let k = choose|k: int| 0 <= k < sorted.len() && sorted[k] == readable[i];
    if k > 0 {
        assert(!ahead(sorted[k].price, sorted[0].price, descending));
    }
}

/// A level is what its texts denote: one whose price is no number is none, and a
/// size that is missing or no number is zero.
pub proof fn law_levels_are_as_written(l: OrderLevel)
    ensures
        Dec::spec_parse(l.price@) is None ==> level_of(l) is None,
        Dec::spec_parse(l.price@) matches Some(price) ==> {
            &&& level_of(l) is Some
            &&& level_of(l)->0.price == price
            &&& l.size is None ==> level_of(l)->0.size == Dec::of(0, 0)
            &&& l.size matches Some(text) ==> (match Dec::spec_parse(text@) {
                Some(size) => level_of(l)->0.size == size,
                None => level_of(l)->0.size == Dec::of(0, 0),
            })
        },
{
}

/// Bids go from high to low and asks from low to high.
pub proof fn law_bids_fall_and_asks_rise(a: Dec, b: Dec)
    ensures
        ahead(a, b, true) <==> a@ > b@,
        ahead(a, b, false) <==> a@ < b@,
{
}

/// A level is put into a sorted list behind all that are as good or better, so
/// that equal prices stay in the order in which they came, and before all that
/// are worse.
pub proof fn law_equal_prices_stay_in_order(
    sorted: Seq<PriceLevel>,
    x: PriceLevel,
    descending: bool,
) -> (at: int)
    requires
        is_sorted(sorted, descending),
    ensures
        0 <= at <= sorted.len(),
        inserted(sorted, x, descending) == sorted.insert(at, x),
        forall|j: int|
            0 <= j < at ==> (if descending {
                (#[trigger] sorted[j]).price@ >= x.price@
            } else {
                sorted[j].price@ <= x.price@
            }),
        forall|j: int|
            at <= j < sorted.len() ==> (if descending {
                (#[trigger] sorted[j]).price@ < x.price@
            } else {
                sorted[j].price@ > x.price@
            }),
    decreases sorted.len(),
{
    if sorted.len() == 0 {
        assert(sorted.insert(0, x) =~= seq![x]);
        0
    } else if ahead(x.price, sorted.last().price, descending) {
        let before = sorted.drop_last();
        let at = law_equal_prices_stay_in_order(before, x, descending);
        assert(before.insert(at, x).push(sorted.last()) =~= sorted.insert(at, x));
        assert forall|j: int| 0 <= j < before.len() implies before[j] == sorted[j] by {}
        at
    } else {
        let n = sorted.len() as int;
        assert(sorted.insert(n, x) =~= sorted.push(x));
        assert forall|j: int| 0 <= j < n implies (if descending {
            (#[trigger] sorted[j]).price@ >= x.price@
        } else {
            sorted[j].price@ <= x.price@
        }) by {
            if j < n - 1 {
                assert(!ahead(sorted[n - 1].price, sorted[j].price, descending));
            }
        }
        n
    }
}

/// The best bid of a book is the highest readable one and its best ask the lowest
/// readable one, each is among what was read, and there is none exactly where
/// nothing can be read.
pub proof fn law_best_prices_of_a_book(levels: Seq<OrderLevel>, i: int)
    requires
        0 <= i < levels.len(),
    ensures
        Dec::spec_parse(levels[i].price@) matches Some(price) ==> {
            &&& first_price(top_levels(levels, true)) is Some
            &&& first_price(top_levels(levels, true))->0@ >= price@
            &&& first_price(top_levels(levels, false)) is Some
            &&& first_price(top_levels(levels, false))->0@ <= price@
        },
{
    let pick = |i: int, l: OrderLevel| level_of(l);
    let sources = law_picking_is_exact(levels, pick);
    if Dec::spec_parse(levels[i].price@) is Some {
        assert(pick(i, levels[i]) is Some);
        let k = choose|k: int| 0 <= k < sources.len() && sources[k] == i;
        assert(pick(sources[k], levels[sources[k]]) == Some(readable_levels(levels)[k]));
        law_top_level_is_best(levels, true, k);
        law_top_level_is_best(levels, false, k);
    }
}

/// What is shown of a side of a book are its readable levels, sorted, five at
/// most; the best price is that of the first.
pub proof fn law_five_levels_are_shown(levels: Seq<OrderLevel>, descending: bool)
    ensures
        ({
            let sorted = sorted_levels(readable_levels(levels), descending);
            let top = top_levels(levels, descending);
            &&& sorted.len() <= 5 ==> top == sorted
            &&& sorted.len() > 5 ==> top == sorted.subrange(0, 5)
            &&& top.len() > 0 ==> first_price(top) == Some(top[0].price)
            &&& top.len() == 0 ==> first_price(top) is None
            &&& top.len() == 0 <==> readable_levels(levels).len() == 0
        }),
{
    law_sorting_keeps_levels(readable_levels(levels), descending);
}

/// A side that is missing in a book has no levels and no depth; one that is there
/// has its best levels, and is as deep as it has levels, readable or not.
pub proof fn law_missing_sides_are_empty(levels: Vec<OrderLevel>, descending: bool)
    ensures
        side_levels(None, descending).len() == 0,
        side_levels(Some(levels), descending) == top_levels(levels@, descending),
        side_depth(None) == 0,
        side_depth(Some(levels)) == levels@.len(),
{
}

/// A new price takes the place of the old one; a missing one does not.
pub proof fn law_newer_price_counts(new: Option<Dec>, old_price: Option<Dec>)
    ensures
        new is Some ==> newer(new, old_price) == new,
        new is None ==> newer(new, old_price) == old_price,
{
}

/// A book is sane exactly where one of the ask of up and the bid of down is
/// missing, or they come to between 0.95 and 1.05 together.
pub proof fn law_sane_books_add_up_to_one(book: Orderbook)
    ensures
        book.up_best_ask is None || book.down_best_bid is None ==> book.spec_is_sane(),
        book.up_best_ask is Some && book.down_best_bid is Some ==> {
            let sum = book.up_best_ask->0.spec_plus(book.down_best_bid->0);
            &&& sum is None ==> !book.spec_is_sane()
            &&& sum is Some && sum->0@ < cents(95) ==> !book.spec_is_sane()
            &&& sum is Some && sum->0@ > cents(105) ==> !book.spec_is_sane()
            &&& sum is Some && cents(95) <= sum->0@ <= cents(105) ==> book.spec_is_sane()
        },
{
}

/// Nothing is known of an empty book.
pub proof fn law_empty_book_knows_nothing(book: Orderbook)
    requires
        book.is_empty_book(),
    ensures
        book.up_best_bid is None,
        book.up_best_ask is None,
        book.down_best_bid is None,
        book.down_best_ask is None,
        book.up_bids@.len() == 0,
        book.up_asks@.len() == 0,
        book.down_bids@.len() == 0,
        book.down_asks@.len() == 0,
        book.up_bid_depth == 0,
        book.up_ask_depth == 0,
        book.down_bid_depth == 0,
        book.down_ask_depth == 0,
        book.last_update_ms is None,
        book.update_count == 0,
{
}

} // verus!
