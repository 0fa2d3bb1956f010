//! Selling a position whose trigger has fired, or that is sold by hand.
//!
//! The order itself is sent elsewhere; the functions here say what is asked of
//! the exchange, and what becomes of the position for every reply.

use crate::checker::{Trigger, TriggerKind};
use crate::decimal::{div_toward_zero, pow10, Dec, MAX_SCALE};
use crate::manager::AppState;
use crate::position::{compute_pnl_percent, pnl_percent, PositionStatus, TrackedPosition};
use vstd::prelude::*;

verus! {

/// Milliseconds to wait before an unfilled sell is tried again.
pub const RETRY_DELAY_MS: u64 = 200;

/// Decimal places of an order size.
pub const LOT_SIZE_SCALE: u32 = 2;

/// Decimal places of a price where the market does not tell its step.
pub const FALLBACK_TICK_DECIMALS: u32 = 3;

// ---------------------------------------------------------------------------
// The order
// ---------------------------------------------------------------------------

/// A limit order to sell.
#[derive(Clone, Copy, Debug)]
pub struct SellOrder {
    pub price: Dec,
    pub size: Dec,
}

/// The highest of some bids; of several equal ones the first.
pub open spec fn highest_bid(bids: Seq<Dec>) -> Option<Dec>
    decreases bids.len(),
{
    if bids.len() == 0 {
        None
    } else {
        match highest_bid(bids.drop_last()) {
            Some(b) => if bids.last()@ > b@ {
                Some(bids.last())
            } else {
                Some(b)
            },
            None => Some(bids.last()),
        }
    }
}

/// Whether a bid is one of some, and none of them is higher.
pub open spec fn is_highest(bids: Seq<Dec>, r: Option<Dec>) -> bool {
    match r {
        Some(b) => bids.contains(b) && forall|i: int|
            0 <= i < bids.len() ==> (#[trigger] bids[i])@ <= b@,
        None => bids.len() == 0,
    }
}

/// Finds the best bid of a book, in whatever order it comes.
pub fn best_bid(bids: &Vec<Dec>) -> (r: Option<Dec>)
    ensures
        r == highest_bid(bids@),
        is_highest(bids@, r),
{
    let mut best: Option<Dec> = None;
    let mut i: usize = 0;
    proof {
        assert(bids@.take(0) =~= Seq::empty());
    }
    while i < bids.len()
        invariant
            i <= bids@.len(),
            best == highest_bid(bids@.take(i as int)),
            is_highest(bids@.take(i as int), best),
        decreases bids@.len() - i,
    {
        let bid = bids[i];
        let ghost before = bids@.take(i as int);
        let ghost after = bids@.take(i + 1);
        let ghost known = best;
        proof {
            assert(after.drop_last() =~= before);
            assert(after.last() == bid);
        }
        best = match best {
            Some(b) => if b.lt(bid) {
                Some(bid)
            } else {
                Some(b)
            },
            None => Some(bid),
        };
        proof {
            assert(after[i as int] == bid);
            if known is Some {
                let j = choose|j: int| 0 <= j < before.len() && before[j] == known->0;
                assert(after[j] == known->0);
            }
            assert forall|k: int| 0 <= k < after.len() implies (#[trigger] after[k])@
                <= best->0@ by {
                if k < i {
                    assert(after[k] == before[k]);
                }
            }
        }
        i += 1;
    }
    proof {
        assert(bids@.take(i as int) =~= bids@);
    }
    best
}

/// Makes the order: at the best bid, or at the asked price where no bid is
/// known, with no more decimal places than the market takes.
pub fn sell_order(size: Dec, price: Dec, bids: &Vec<Dec>, tick_decimals: u32) -> (r: SellOrder)
    requires
        tick_decimals <= MAX_SCALE,
    ensures
        ({
            let raw = match highest_bid(bids@) {
                Some(bid) => bid,
                None => price,
            };
            let step = pow10((MAX_SCALE - tick_decimals) as nat);
            let lot = pow10((MAX_SCALE - LOT_SIZE_SCALE) as nat);
            &&& r.price@ == div_toward_zero(raw@, step) * step
            &&& r.size@ == div_toward_zero(size@, lot) * lot
            &&& raw.spec_scale() >= tick_decimals ==> r.price.spec_scale() == tick_decimals
            &&& size.spec_scale() >= LOT_SIZE_SCALE ==> r.size.spec_scale() == LOT_SIZE_SCALE
            &&& r.price.spec_scale() <= tick_decimals
            &&& r.size.spec_scale() <= LOT_SIZE_SCALE
            &&& r.size@ == div_toward_zero(size@, pow10(26)) * pow10(26)
        }),
{
    let raw = match best_bid(bids) {
        Some(bid) => bid,
        None => price,
    };
    SellOrder { price: raw.truncate(tick_decimals), size: size.truncate(LOT_SIZE_SCALE) }
}

/// The decimal places of a price: those of the market's step, or a fallback
/// where the step is not known.
pub fn tick_decimals(tick_size: Option<Dec>) -> (r: u32)
    ensures
        r <= MAX_SCALE,
        r == (match tick_size {
            Some(step) => step.spec_scale(),
            None => FALLBACK_TICK_DECIMALS as nat,
        }),
        tick_size is None ==> r == 3,
{
    match tick_size {
        Some(step) => step.scale(),
        None => FALLBACK_TICK_DECIMALS,
    }
}

/// What the exchange answers to an order.
#[derive(Debug)]
pub struct PostReply {
    pub success: bool,
    pub error_msg: Option<String>,
    pub making_amount: Dec,
    pub taking_amount: Dec,
    pub order_id: String,
}

/// What an answer means for the order.
#[derive(Clone, Copy, Debug)]
pub enum OrderOutcome {
    /// Filled at once, at this price.
    Filled(Dec),
    /// Accepted and waiting in the book at this price.
    Resting(Dec),
    /// Not sold.
    NotFilled,
    /// Filled at a price that cannot be computed.
    Unpriceable,
}

/// Whether an answer carries an error text; an empty text is none.
pub open spec fn has_error(reply: PostReply) -> bool {
    reply.error_msg is Some && reply.error_msg->0@.len() > 0
}

/// What the first answer to a sell order means: nothing is sold without success,
/// a positive amount taken is a fill at the amount taken per share given, and
/// otherwise an order with an identifier rests at its limit price.
pub open spec fn sell_meaning(reply: Option<PostReply>, limit: Dec) -> OrderOutcome {
    match reply {
        Some(r) => if r.success && !has_error(r) {
            if r.taking_amount@ > 0 {
                match r.taking_amount.spec_over(r.making_amount) {
                    Some(price) => OrderOutcome::Filled(price),
                    None => OrderOutcome::Unpriceable,
                }
            } else if r.order_id@.len() > 0 {
                OrderOutcome::Resting(limit)
            } else {
                OrderOutcome::NotFilled
            }
        } else {
            OrderOutcome::NotFilled
        },
        None => OrderOutcome::NotFilled,
    }
}

/// Reads the first answer to a sell order.
pub fn sell_outcome(reply: &Option<PostReply>, limit: Dec) -> (r: OrderOutcome)
    ensures
        r == sell_meaning(*reply, limit),
{
    match reply {
        Some(r) => {
            let failed = match &r.error_msg {
                Some(text) => !text.as_str().is_empty(),
                None => false,
            };
            if r.success && !failed {
                if r.taking_amount.is_positive() {
                    match r.taking_amount.over(r.making_amount) {
                        Some(price) => OrderOutcome::Filled(price),
                        None => OrderOutcome::Unpriceable,
                    }
                } else if !r.order_id.as_str().is_empty() {
                    OrderOutcome::Resting(limit)
                } else {
                    OrderOutcome::NotFilled
                }
            } else {
                OrderOutcome::NotFilled
            }
        },
        None => OrderOutcome::NotFilled,
    }
}

/// A collateral balance, which comes in millionths, in whole units.
pub fn usdc_balance(raw: Dec) -> (r: Option<Dec>)
    ensures
        r == raw.spec_over(Dec::of(1000000, 0)),
        raw.spec_scale() <= MAX_SCALE - 6 ==> r is Some && r->0@ * 1000000 == raw@,
{
    proof {
        reveal_with_fuel(pow10, 7);
        assert(pow10(6) == 1000000);
    }
    raw.over(Dec::new(1000000, 0))
}

// ---------------------------------------------------------------------------
// What becomes of the position
// ---------------------------------------------------------------------------

/// A line of the trade log.
#[derive(Debug)]
pub struct TradeLogEntry {
    pub token_id: String,
    pub market_title: String,
    pub outcome: String,
    pub trigger_type: String,
    pub shares: Dec,
    pub entry_price: Dec,
    pub sell_price: Dec,
    pub fill_price: Option<Dec>,
    pub pnl_pct: Option<Dec>,
    pub dry_run: bool,
    pub status: String,
}

/// What a sell attempt came to.
#[derive(Debug)]
pub enum SellReply {
    Filled(Dec),
    Unfilled,
    Failed(String),
}

/// What has to be done next for a trigger.
#[derive(Debug)]
pub enum SellAction {
    /// Send the order for these shares at this price.
    Sell { shares: Dec, price: Dec },
    /// Wait a little and send the order again.
    Retry,
    /// Write the trade log; the saved triggers of the token are removed too
    /// where `clear_settings` says so.
    Record { entry: TradeLogEntry, clear_settings: bool },
}

/// What an answer to a sell order comes to: only a fill sells.  An order that
/// rests in the book has sold nothing.
pub open spec fn is_reply_to(outcome: OrderOutcome, reply: SellReply) -> bool {
    match outcome {
        OrderOutcome::Filled(price) => reply == SellReply::Filled(price),
        OrderOutcome::Resting(_) => reply == SellReply::Unfilled,
        OrderOutcome::NotFilled => reply == SellReply::Unfilled,
        OrderOutcome::Unpriceable => reply matches SellReply::Failed(text) && text@
            == "The price of the fill cannot be computed"@,
    }
}

/// Tells what an answer to a sell order comes to.
pub fn sell_reply(outcome: OrderOutcome) -> (r: SellReply)
    ensures
        is_reply_to(outcome, r),
{
    match outcome {
        OrderOutcome::Filled(price) => SellReply::Filled(price),
        OrderOutcome::Resting(_) => SellReply::Unfilled,
        OrderOutcome::NotFilled => SellReply::Unfilled,
        OrderOutcome::Unpriceable => SellReply::Failed(
            "The price of the fill cannot be computed".to_owned(),
        ),
    }
}

/// The name of a trigger in the trade log.
pub open spec fn trigger_name(kind: TriggerKind) -> Seq<char> {
    match kind {
        TriggerKind::StopLoss => "SL"@,
        TriggerKind::TakeProfit => "TP"@,
        TriggerKind::Manual => "MANUAL"@,
    }
}

/// Names a trigger as the trade log does.
fn name_of(kind: TriggerKind) -> (r: &'static str)
    ensures
        r@ == trigger_name(kind),
{
    match kind {
        TriggerKind::StopLoss => "SL",
        TriggerKind::TakeProfit => "TP",
        TriggerKind::Manual => "MANUAL",
    }
}

/// The profit that the position itself keeps: none for an entry price that is
/// not positive.
pub open spec fn kept_pnl(entry: Dec, exit: Dec) -> Option<Dec> {
    if entry@ > 0 {
        pnl_percent(entry, exit)
    } else {
        Some(Dec::of(0, 0))
    }
}

/// Whether leaving a position entered at `entry` has a profit that can be
/// computed or needs none.
pub open spec fn pnl_known(entry: Dec, exit: Dec) -> bool {
    entry@ > 0 ==> pnl_percent(entry, exit) is Some
}

/// The profit that the trade log shows.
pub open spec fn logged_pnl(entry: Dec, exit: Dec) -> Option<Dec> {
    if entry@ > 0 {
        pnl_percent(entry, exit)
    } else {
        None
    }
}

/// Computes the profit that the position keeps.
fn compute_kept_pnl(entry: Dec, exit: Dec) -> (r: Option<Dec>)
    ensures
        r == kept_pnl(entry, exit),
        r is Some <==> pnl_known(entry, exit),
{
    if entry.is_positive() {
        compute_pnl_percent(entry, exit)
    } else {
        Some(Dec::zero())
    }
}

/// Whether `entry` is the log line of `trigger` with the given outcome.
pub open spec fn is_log_of(
    entry: TradeLogEntry,
    trigger: Trigger,
    fill_price: Option<Dec>,
    pnl_pct: Option<Dec>,
    dry_run: bool,
    status: Seq<char>,
) -> bool {
    &&& entry.token_id == trigger.token_id
    &&& entry.market_title == trigger.market_title
    &&& entry.outcome == trigger.outcome
    &&& entry.trigger_type@ == trigger_name(trigger.kind)
    &&& entry.shares == trigger.shares
    &&& entry.entry_price == trigger.entry_price
    &&& entry.sell_price == trigger.bid_price
    &&& entry.fill_price == fill_price
    &&& entry.pnl_pct == pnl_pct
    &&& entry.dry_run == dry_run
    &&& entry.status@ == status
}

/// Whether `action` is to record that log line, and to remove the saved triggers
/// where `clear` says so.
pub open spec fn is_record(
    action: SellAction,
    trigger: Trigger,
    fill_price: Option<Dec>,
    pnl_pct: Option<Dec>,
    dry_run: bool,
    status: Seq<char>,
    clear: bool,
) -> bool {
    match action {
        SellAction::Record { entry, clear_settings } => clear_settings == clear && is_log_of(
            entry,
            trigger,
            fill_price,
            pnl_pct,
            dry_run,
            status,
        ),
        _ => false,
    }
}

/// Makes the log line of a trigger.
fn log_entry(
    trigger: &Trigger,
    fill_price: Option<Dec>,
    pnl_pct: Option<Dec>,
    dry_run: bool,
    status: String,
) -> (r: TradeLogEntry)
    ensures
        is_log_of(r, *trigger, fill_price, pnl_pct, dry_run, status@),
{
    TradeLogEntry {
        token_id: trigger.token_id.clone(),
        market_title: trigger.market_title.clone(),
        outcome: trigger.outcome.clone(),
        trigger_type: name_of(trigger.kind).to_owned(),
        shares: trigger.shares,
        entry_price: trigger.entry_price,
        sell_price: trigger.bid_price,
        fill_price,
        pnl_pct,
        dry_run,
        status,
    }
}

/// The position once sold at `exit`.
pub open spec fn sold_at(p: TrackedPosition, exit: Dec) -> TrackedPosition {
    TrackedPosition { status: PositionStatus::Sold, exit_pnl: kept_pnl(p.entry_price, exit), ..p }
}

/// The position with another status.
pub open spec fn with_status(p: TrackedPosition, status: PositionStatus) -> TrackedPosition {
    TrackedPosition { status, ..p }
}

/// The position with no triggers.
pub open spec fn without_triggers(p: TrackedPosition) -> TrackedPosition {
    TrackedPosition { sl_price: None, tp_price: None, ..p }
}

/// The positions with the one at `index` changed to `p`, where there is one.
pub open spec fn with_position(
    positions: Seq<TrackedPosition>,
    index: int,
    p: TrackedPosition,
) -> Seq<TrackedPosition> {
    if 0 <= index < positions.len() {
        positions.update(index, p)
    } else {
        positions
    }
}

/// Whether two states differ at most in their positions and in the number of
/// sells.
pub open spec fn same_but_positions(a: AppState, b: AppState) -> bool {
    a == (AppState { positions: a.positions, sells_executed: a.sells_executed, ..b })
}

/// The status of a position whose trigger has fired; one that is sold by hand is
/// being sold at once.
pub open spec fn triggered_status(kind: TriggerKind) -> PositionStatus {
    match kind {
        TriggerKind::StopLoss => PositionStatus::SLTriggered,
        TriggerKind::TakeProfit => PositionStatus::TPTriggered,
        TriggerKind::Manual => PositionStatus::Selling,
    }
}

impl AppState {
    /// Marks the position of a trigger that has fired.
    pub fn mark_triggered(&mut self, trigger: &Trigger)
        ensures
            final(self).positions@ == with_position(
                old(self).positions@,
                trigger.index as int,
                with_status(
                    old(self).positions@[trigger.index as int],
                    triggered_status(trigger.kind),
                ),
            ),
            final(self).sells_executed == old(self).sells_executed,
            same_but_positions(*final(self), *old(self)),
    {
        if trigger.index < self.positions.len() {
            self.positions[trigger.index].status = match trigger.kind {
                TriggerKind::StopLoss => PositionStatus::SLTriggered,
                TriggerKind::TakeProfit => PositionStatus::TPTriggered,
                TriggerKind::Manual => PositionStatus::Selling,
            };
            assert(self.positions@ =~= with_position(
                old(self).positions@,
                trigger.index as int,
                with_status(
                    old(self).positions@[trigger.index as int],
                    triggered_status(trigger.kind),
                ),
            ));
        }
    }

    /// Whether the profits of a sale can be computed: that of the position as it
    /// is now, and that of the position as the trigger saw it.
    pub open spec fn sale_computable(self, trigger: Trigger, exit: Dec) -> bool {
        &&& trigger.index < self.positions@.len() ==> pnl_known(
            self.positions@[trigger.index as int].entry_price,
            exit,
        )
        &&& pnl_known(trigger.entry_price, exit)
    }

    /// Begins to sell.  In a dry run the sale is pretended at the bid and nothing
    /// is sent: the position counts as sold and loses its triggers.  Otherwise
    /// the order is to be sent.  Where a profit cannot be computed, nothing
    /// happens.
    pub fn begin_sell(&mut self, trigger: &Trigger) -> (r: Option<SellAction>)
        requires
            old(self).sells_executed < u32::MAX,
        ensures
            r is None <==> old(self).dry_run && !old(self).sale_computable(
                *trigger,
                trigger.bid_price,
            ),
            r is None ==> *final(self) == *old(self),
            old(self).dry_run && r is Some ==> {
                &&& is_record(
                    r->0,
                    *trigger,
                    None,
                    logged_pnl(trigger.entry_price, trigger.bid_price),
                    true,
                    "dry_run"@,
                    true,
                )
                &&& final(self).positions@ == with_position(
                    old(self).positions@,
                    trigger.index as int,
                    without_triggers(
                        sold_at(old(self).positions@[trigger.index as int], trigger.bid_price),
                    ),
                )
                &&& final(self).sells_executed == old(self).sells_executed + (if trigger.index
                    < old(self).positions@.len() {
                    1int
                } else {
                    0int
                })
            },
            !old(self).dry_run ==> {
                &&& r == Some(
                    SellAction::Sell { shares: trigger.shares, price: trigger.bid_price },
                )
                &&& final(self).positions@ == with_position(
                    old(self).positions@,
                    trigger.index as int,
                    with_status(
                        old(self).positions@[trigger.index as int],
                        PositionStatus::Selling,
                    ),
                )
                &&& final(self).sells_executed == old(self).sells_executed
            },
            same_but_positions(*final(self), *old(self)),
    {
        let index = trigger.index;
        if self.dry_run {
            let logged = match compute_kept_pnl(trigger.entry_price, trigger.bid_price) {
                Some(pnl) => if trigger.entry_price.is_positive() {
                    Some(pnl)
                } else {
                    None
                },
                None => {
                    return None;
                },
            };
            if index < self.positions.len() {
                let kept = match compute_kept_pnl(
                    self.positions[index].entry_price,
                    trigger.bid_price,
                ) {
                    Some(pnl) => pnl,
                    None => {
                        return None;
                    },
                };
                self.positions[index].status = PositionStatus::Sold;
                self.positions[index].exit_pnl = Some(kept);
                self.positions[index].sl_price = None;
                self.positions[index].tp_price = None;
                self.sells_executed += 1;
                assert(self.positions@ =~= with_position(
                    old(self).positions@,
                    index as int,
                    without_triggers(
                        sold_at(old(self).positions@[index as int], trigger.bid_price),
                    ),
                ));
            }
            let entry = log_entry(trigger, None, logged, true, "dry_run".to_owned());
            Some(SellAction::Record { entry, clear_settings: true })
        } else {
            if index < self.positions.len() {
                self.positions[index].status = PositionStatus::Selling;
                assert(self.positions@ =~= with_position(
                    old(self).positions@,
                    index as int,
                    with_status(old(self).positions@[index as int], PositionStatus::Selling),
                ));
            }
            Some(SellAction::Sell { shares: trigger.shares, price: trigger.bid_price })
        }
    }

    /// Takes in what a sell attempt came to.  A fill sells the position; the
    /// first attempt also takes its triggers away.  An unfilled first attempt is
    /// tried once more.  An unfilled second attempt, or a failure of either,
    /// leaves the position with an error.  Where a profit cannot be computed,
    /// nothing happens.
    pub fn settle_sell(&mut self, trigger: &Trigger, is_retry: bool, reply: SellReply) -> (r: Option<
        SellAction,
    >)
        requires
            old(self).sells_executed < u32::MAX,
        ensures
            r is None <==> (reply matches SellReply::Filled(price) && !old(self).sale_computable(
                *trigger,
                price,
            )),
            r is None ==> *final(self) == *old(self),
            r matches Some(action) ==> match reply {
                SellReply::Filled(price) => {
                    let before = old(self).positions@;
                    let sold = sold_at(before[trigger.index as int], price);
                    &&& is_record(
                        action,
                        *trigger,
                        Some(price),
                        logged_pnl(trigger.entry_price, price),
                        false,
                        (if is_retry {
                            "filled_retry"@
                        } else {
                            "filled"@
                        }),
                        true,
                    )
                    &&& final(self).positions@ == with_position(
                        before,
                        trigger.index as int,
                        (if is_retry {
                            sold
                        } else {
                            without_triggers(sold)
                        }),
                    )
                    &&& final(self).sells_executed == old(self).sells_executed + (if is_retry
                        || trigger.index < before.len() {
                        1int
                    } else {
                        0int
                    })
                },
                SellReply::Unfilled => {
                    &&& final(self).sells_executed == old(self).sells_executed
                    &&& if is_retry {
                        &&& is_record(
                            action,
                            *trigger,
                            None,
                            None,
                            false,
                            "failed"@,
                            false,
                        )
                        &&& left_with_error(
                            old(self).positions@,
                            final(self).positions@,
                            trigger.index as int,
                            "Sell returned no fill"@,
                        )
                    } else {
                        &&& action is Retry
                        &&& final(self).positions@ == old(self).positions@
                    }
                },
                SellReply::Failed(text) => {
                    &&& final(self).sells_executed == old(self).sells_executed
                    &&& is_record(
                        action,
                        *trigger,
                        None,
                        None,
                        false,
                        "error: "@ + text@,
                        false,
                    )
                    &&& left_with_error(
                        old(self).positions@,
                        final(self).positions@,
                        trigger.index as int,
                        text@,
                    )
                },
            },
            same_but_positions(*final(self), *old(self)),
    {
        let index = trigger.index;
        match reply {
            SellReply::Filled(price) => {
                let logged = match compute_kept_pnl(trigger.entry_price, price) {
                    Some(pnl) => if trigger.entry_price.is_positive() {
                        Some(pnl)
                    } else {
                        None
                    },
                    None => {
                        return None;
                    },
                };
                if index < self.positions.len() {
                    let kept = match compute_kept_pnl(self.positions[index].entry_price, price) {
                        Some(pnl) => pnl,
                        None => {
                            return None;
                        },
                    };
                    self.positions[index].status = PositionStatus::Sold;
                    self.positions[index].exit_pnl = Some(kept);
                    if !is_retry {
                        self.positions[index].sl_price = None;
                        self.positions[index].tp_price = None;
                    }
                    self.sells_executed += 1;
                    proof {
                        let sold = sold_at(old(self).positions@[index as int], price);
                        assert(self.positions@ =~= with_position(
                            old(self).positions@,
                            index as int,
                            if is_retry {
                                sold
                            } else {
                                without_triggers(sold)
                            },
                        ));
                    }
                } else if is_retry {
                    self.sells_executed += 1;
                }
                let status = if is_retry {
                    "filled_retry"
                } else {
                    "filled"
                };
                let entry = log_entry(trigger, Some(price), logged, false, status.to_owned());
                Some(SellAction::Record { entry, clear_settings: true })
            },
            SellReply::Unfilled => {
                if !is_retry {
                    return Some(SellAction::Retry);
                }
                self.fail_position(index, "Sell returned no fill".to_owned());
                let entry = log_entry(trigger, None, None, false, "failed".to_owned());
                Some(SellAction::Record { entry, clear_settings: false })
            },
            SellReply::Failed(text) => {
                let status = "error: ".to_owned().concat(text.as_str());
                self.fail_position(index, text);
                let entry = log_entry(trigger, None, None, false, status);
                Some(SellAction::Record { entry, clear_settings: false })
            },
        }
    }

    /// Takes in what a sell by hand came to.  A fill sells the position and takes
    /// its triggers away; anything else makes it watched again.  Where a profit
    /// cannot be computed, nothing happens and the result is false.
    pub fn settle_force_sell(&mut self, trigger: &Trigger, reply: &SellReply) -> (r: (
        bool,
        Option<SellAction>,
    ))
        requires
            old(self).sells_executed < u32::MAX,
        ensures
            r.0 == (*reply matches SellReply::Filled(price) ==> old(self).sale_computable(
                *trigger,
                price,
            )),
            !r.0 ==> r.1 is None && *final(self) == *old(self),
            r.0 ==> match *reply {
                SellReply::Filled(price) => {
                    &&& r.1 is Some
                    &&& is_record(
                        r.1->0,
                        *trigger,
                        Some(price),
                        logged_pnl(trigger.entry_price, price),
                        false,
                        "filled"@,
                        true,
                    )
                    &&& final(self).positions@ == with_position(
                        old(self).positions@,
                        trigger.index as int,
                        without_triggers(
                            sold_at(old(self).positions@[trigger.index as int], price),
                        ),
                    )
                    &&& final(self).sells_executed == old(self).sells_executed + (if trigger.index
                        < old(self).positions@.len() {
                        1int
                    } else {
                        0int
                    })
                },
                _ => {
                    &&& r.1 is None
                    &&& final(self).positions@ == with_position(
                        old(self).positions@,
                        trigger.index as int,
                        with_status(
                            old(self).positions@[trigger.index as int],
                            PositionStatus::Active,
                        ),
                    )
                    &&& final(self).sells_executed == old(self).sells_executed
                },
            },
            same_but_positions(*final(self), *old(self)),
    {
        let index = trigger.index;
        match reply {
            SellReply::Filled(price) => {
                let logged = match compute_kept_pnl(trigger.entry_price, *price) {
                    Some(pnl) => if trigger.entry_price.is_positive() {
                        Some(pnl)
                    } else {
                        None
                    },
                    None => {
                        return (false, None);
                    },
                };
                if index < self.positions.len() {
                    let kept = match compute_kept_pnl(self.positions[index].entry_price, *price) {
                        Some(pnl) => pnl,
                        None => {
                            return (false, None);
                        },
                    };
                    self.positions[index].status = PositionStatus::Sold;
                    self.positions[index].exit_pnl = Some(kept);
                    self.positions[index].sl_price = None;
                    self.positions[index].tp_price = None;
                    self.sells_executed += 1;
                    assert(self.positions@ =~= with_position(
                        old(self).positions@,
                        index as int,
                        without_triggers(sold_at(old(self).positions@[index as int], *price)),
                    ));
                }
                let entry = log_entry(trigger, Some(*price), logged, false, "filled".to_owned());
                (true, Some(SellAction::Record { entry, clear_settings: true }))
            },
            _ => {
                if index < self.positions.len() {
                    self.positions[index].status = PositionStatus::Active;
                    assert(self.positions@ =~= with_position(
                        old(self).positions@,
                        index as int,
                        with_status(old(self).positions@[index as int], PositionStatus::Active),
                    ));
                }
                (true, None)
            },
        }
    }

    /// Leaves the position at `index` with an error, where there is one.
    fn fail_position(&mut self, index: usize, text: String)
        ensures
            left_with_error(
                old(self).positions@,
                final(self).positions@,
                index as int,
                text@,
            ),
            final(self).sells_executed == old(self).sells_executed,
            same_but_positions(*final(self), *old(self)),
    {
        let ghost shown = text;
        if index < self.positions.len() {
            self.positions[index].status = PositionStatus::Error(text);
            assert(self.positions@ =~= with_position(
                old(self).positions@,
                index as int,
                with_status(old(self).positions@[index as int], PositionStatus::Error(shown)),
            ));
        }
    }
}

/// Whether the positions differ only in that the one at `index`, where there is
/// one, has come to an error with this text.
pub open spec fn left_with_error(
    before: Seq<TrackedPosition>,
    after: Seq<TrackedPosition>,
    index: int,
    text: Seq<char>,
) -> bool {
    if 0 <= index < before.len() {
        &&& after.len() == before.len()
        &&& after[index].status matches PositionStatus::Error(shown)
        &&& shown@ == text
        &&& after == before.update(index, with_status(before[index], after[index].status))
    } else {
        after == before
    }
}

// ---------------------------------------------------------------------------
// Laws
// ---------------------------------------------------------------------------

/// A sold position is not watched, so no later check fires for it, whatever its
/// prices and triggers.
pub proof fn law_sold_position_never_fires(p: TrackedPosition, exit: Dec, bid: Option<Dec>)
    ensures
        crate::checker::finding(
            TrackedPosition { current_bid: bid, ..sold_at(p, exit) },
        ) == crate::checker::Finding::Quiet,
        crate::checker::finding(
            TrackedPosition { current_bid: bid, ..without_triggers(sold_at(p, exit)) },
        ) == crate::checker::Finding::Quiet,
{
}

/// Selling keeps what the position holds and cost: only its status, its profit
/// and its triggers change.
pub proof fn law_selling_keeps_holdings(p: TrackedPosition, exit: Dec)
    ensures
        without_triggers(sold_at(p, exit)).token_id == p.token_id,
        without_triggers(sold_at(p, exit)).shares == p.shares,
        without_triggers(sold_at(p, exit)).entry_price == p.entry_price,
        !without_triggers(sold_at(p, exit)).has_live_trigger(),
        !sold_at(p, exit).has_live_trigger(),
{
}

/// A sell order never asks more than the bid it was made from, nor sells more
/// shares than are held: both are only ever cut.
pub proof fn law_truncation_never_raises(value: int, step: int)
    requires
        value >= 0,
        step >= 1,
    ensures
        0 <= div_toward_zero(value, step) * step <= value,
        value - div_toward_zero(value, step) * step < step,
{
    vstd::arithmetic::div_mod::lemma_fundamental_div_mod(value, step);
    vstd::arithmetic::div_mod::lemma_mod_bound(value, step);
    vstd::arithmetic::mul::lemma_mul_is_commutative(step, value / step);
    vstd::arithmetic::div_mod::lemma_div_pos_is_pos(value, step);
    vstd::arithmetic::mul::lemma_mul_nonnegative(value / step, step);
}

/// The best bid is one of the bids, and none is higher; of several equal ones it
/// is the first.  Without bids there is none.
pub proof fn law_best_bid_is_the_highest(bids: Seq<Dec>)
    ensures
        bids.len() == 0 <==> highest_bid(bids) is None,
        highest_bid(bids) matches Some(best) ==> exists|i: int|
            0 <= i < bids.len() && best == #[trigger] bids[i] && (forall|j: int|
                0 <= j < bids.len() ==> (#[trigger] bids[j])@ <= best@ && (j < i ==> bids[j]@
                    < best@)),
    decreases bids.len(),
{
    if bids.len() > 0 {
        let before = bids.drop_last();
        let n = bids.len() - 1;
        law_best_bid_is_the_highest(before);
        assert(bids.last() == bids[n]);
        if before.len() > 0 {
            let known = highest_bid(before)->0;
            let k = choose|k: int|
                0 <= k < before.len() && known == #[trigger] before[k] && (forall|j: int|
                    0 <= j < before.len() ==> (#[trigger] before[j])@ <= known@ && (j < k
                        ==> before[j]@ < known@));
            let i = if bids.last()@ > known@ {
                n
            } else {
                k
            };
            let best = highest_bid(bids)->0;
            assert(best == bids[i]);
            assert forall|j: int| 0 <= j < bids.len() implies (#[trigger] bids[j])@ <= best@ && (j
                < i ==> bids[j]@ < best@) by {
                if j < n {
                    assert(before[j] == bids[j]);
                }
            }
        } else {
            assert(highest_bid(bids)->0 == bids[0]);
        }
    }
}

/// What an answer to a sell order means: without an answer, without success or
/// with an error text nothing is sold; a positive amount taken is a sale at the
/// amount taken per share given; otherwise an order with an identifier rests at
/// its limit, and one without has sold nothing.
pub proof fn law_sell_answers_mean_what_they_say(reply: PostReply, limit: Dec)
    ensures
        sell_meaning(None, limit) is NotFilled,
        !reply.success ==> sell_meaning(Some(reply), limit) is NotFilled,
        reply.error_msg is Some && reply.error_msg->0@.len() > 0 ==> sell_meaning(
            Some(reply),
            limit,
        ) is NotFilled,
        reply.success && (reply.error_msg is None || reply.error_msg->0@.len() == 0) ==> {
            &&& reply.taking_amount@ > 0 ==> (match reply.taking_amount.spec_over(
                reply.making_amount,
            ) {
                Some(price) => sell_meaning(Some(reply), limit) == OrderOutcome::Filled(price),
                None => sell_meaning(Some(reply), limit) is Unpriceable,
            })
            &&& reply.taking_amount@ <= 0 && reply.order_id@.len() > 0 ==> sell_meaning(
                Some(reply),
                limit,
            ) == OrderOutcome::Resting(limit)
            &&& reply.taking_amount@ <= 0 && reply.order_id@.len() == 0 ==> sell_meaning(
                Some(reply),
                limit,
            ) is NotFilled
        },
{
}

/// Only a fill sells, and at its own price; an order that rests or did not fill
/// has sold nothing, and one whose price cannot be computed has failed.
pub proof fn law_only_fills_sell(outcome: OrderOutcome, reply: SellReply)
    requires
        is_reply_to(outcome, reply),
    ensures
        outcome matches OrderOutcome::Filled(price) ==> reply == SellReply::Filled(price),
        outcome is Resting || outcome is NotFilled ==> reply is Unfilled,
        outcome is Unpriceable ==> reply is Failed,
        reply is Filled ==> outcome is Filled,
{
}

/// The trade log names each kind of trigger by its own word.
pub proof fn law_triggers_have_their_names(kind: TriggerKind)
    ensures
        kind == TriggerKind::StopLoss ==> trigger_name(kind) == "SL"@,
        kind == TriggerKind::TakeProfit ==> trigger_name(kind) == "TP"@,
        kind == TriggerKind::Manual ==> trigger_name(kind) == "MANUAL"@,
{
}

/// The profit kept with a sold position is the one in percent of its entry price,
/// and nothing for an entry price that is not positive; the trade log shows the
/// same, or none.
pub proof fn law_kept_profit_is_in_percent_of_entry(entry: Dec, exit: Dec)
    ensures
        entry@ > 0 ==> kept_pnl(entry, exit) == pnl_percent(entry, exit) && logged_pnl(entry, exit)
            == pnl_percent(entry, exit),
        entry@ <= 0 ==> kept_pnl(entry, exit) == Some(Dec::of(0, 0)) && logged_pnl(entry, exit)
            is None,
        pnl_known(entry, exit) <==> kept_pnl(entry, exit) is Some,
{
}

/// A log line tells of its trigger: the token, market and outcome sold, the
/// shares, the entry price and the price asked for.
pub proof fn law_log_line_tells_of_its_trigger(
    entry: TradeLogEntry,
    trigger: Trigger,
    fill_price: Option<Dec>,
    pnl_pct: Option<Dec>,
    dry_run: bool,
    status: Seq<char>,
)
    requires
        is_log_of(entry, trigger, fill_price, pnl_pct, dry_run, status),
    ensures
        entry.token_id == trigger.token_id,
        entry.market_title == trigger.market_title,
        entry.outcome == trigger.outcome,
        entry.shares == trigger.shares,
        entry.entry_price == trigger.entry_price,
        entry.sell_price == trigger.bid_price,
        entry.fill_price == fill_price,
        entry.pnl_pct == pnl_pct,
        entry.dry_run == dry_run,
        entry.status@ == status,
        trigger.kind == TriggerKind::StopLoss ==> entry.trigger_type@ == "SL"@,
        trigger.kind == TriggerKind::TakeProfit ==> entry.trigger_type@ == "TP"@,
        trigger.kind == TriggerKind::Manual ==> entry.trigger_type@ == "MANUAL"@,
{
}

/// Recording writes the log line of the trigger, and has the saved triggers
/// removed exactly where it is said to.
pub proof fn law_recording_writes_the_log(
    action: SellAction,
    trigger: Trigger,
    fill_price: Option<Dec>,
    pnl_pct: Option<Dec>,
    dry_run: bool,
    status: Seq<char>,
    clear: bool,
)
    requires
        is_record(action, trigger, fill_price, pnl_pct, dry_run, status, clear),
    ensures
        match action {
            SellAction::Record { entry, clear_settings } => {
                &&& clear_settings == clear
                &&& is_log_of(entry, trigger, fill_price, pnl_pct, dry_run, status)
            },
            _ => false,
        },
{
}

/// A sold position is sold, keeps the profit of its own entry price, and keeps all
/// else; taking triggers away and setting a status change just these.
pub proof fn law_selling_changes_status_profit_and_triggers(
    p: TrackedPosition,
    exit: Dec,
    status: PositionStatus,
)
    ensures
        sold_at(p, exit).status is Sold,
        p.entry_price@ > 0 ==> sold_at(p, exit).exit_pnl == pnl_percent(p.entry_price, exit),
        p.entry_price@ <= 0 ==> sold_at(p, exit).exit_pnl == Some(Dec::of(0, 0)),
        p == (TrackedPosition { status: p.status, exit_pnl: p.exit_pnl, ..sold_at(p, exit) }),
        without_triggers(p).sl_price is None,
        without_triggers(p).tp_price is None,
        p == (TrackedPosition {
            sl_price: p.sl_price,
            tp_price: p.tp_price,
            ..without_triggers(p)
        }),
        with_status(p, status).status == status,
        p == (TrackedPosition { status: p.status, ..with_status(p, status) }),
{
}

/// Changing the position at an index changes that one, where there is one, and no
/// other.
pub proof fn law_one_position_is_changed(
    positions: Seq<TrackedPosition>,
    index: int,
    p: TrackedPosition,
    j: int,
)
    requires
        0 <= j < positions.len(),
    ensures
        with_position(positions, index, p).len() == positions.len(),
        j == index ==> with_position(positions, index, p)[j] == p,
        j != index ==> with_position(positions, index, p)[j] == positions[j],
{
}

/// A stop-loss and a take-profit that fire are shown as such; a sale by hand is
/// shown as selling.
pub proof fn law_fired_triggers_are_shown(kind: TriggerKind)
    ensures
        kind == TriggerKind::StopLoss ==> triggered_status(kind) is SLTriggered,
        kind == TriggerKind::TakeProfit ==> triggered_status(kind) is TPTriggered,
        kind == TriggerKind::Manual ==> triggered_status(kind) is Selling,
{
}

/// A sale changes of the state the positions and the number of sells, and nothing
/// else.
pub proof fn law_sales_leave_the_state_alone(a: AppState, b: AppState)
    requires
        same_but_positions(a, b),
    ensures
        a.selected_index == b.selected_index,
        a.input_mode == b.input_mode,
        a.input_buffer == b.input_buffer,
        a.logs == b.logs,
        a.dry_run == b.dry_run,
        a.usdc_balance == b.usdc_balance,
        a.funder_address == b.funder_address,
        a.start_ms == b.start_ms,
        a.last_scan_ms == b.last_scan_ms,
        a.ws_connected == b.ws_connected,
        a.ws_msg_count == b.ws_msg_count,
        a.active_triggers == b.active_triggers,
        a.highlighted == b.highlighted,
{
}

/// A position left with an error shows its text, keeps its triggers, shares and
/// all else, and no other position changes.
pub proof fn law_failed_sale_keeps_the_position(
    before: Seq<TrackedPosition>,
    after: Seq<TrackedPosition>,
    index: int,
    text: Seq<char>,
    j: int,
)
    requires
        left_with_error(before, after, index, text),
        0 <= j < before.len(),
    ensures
        after.len() == before.len(),
        j != index ==> after[j] == before[j],
        j == index ==> {
            &&& after[j].status is Error
            &&& after[j].status->Error_0@ == text
            &&& after[j] == (TrackedPosition { status: after[j].status, ..before[j] })
        },
{
}

/// Whether a sale can be booked: the profit of the trigger, and that of the
/// position where there is one, can be computed or is not needed.
pub proof fn law_sale_is_booked_where_profits_are_known(s: AppState, trigger: Trigger, exit: Dec)
    ensures
        s.sale_computable(trigger, exit) <==> (trigger.entry_price@ > 0 ==> pnl_percent(
            trigger.entry_price,
            exit,
        ) is Some) && (trigger.index < s.positions@.len() && s.positions@[trigger.index as int].entry_price@
            > 0 ==> pnl_percent(s.positions@[trigger.index as int].entry_price, exit) is Some),
{
}

/// An unfilled sell is tried again after a fifth of a second; sizes have two
/// decimal places, and prices three where the market does not tell.
pub proof fn law_sells_have_their_grid()
    ensures
        RETRY_DELAY_MS == 200,
        LOT_SIZE_SCALE == 2,
        FALLBACK_TICK_DECIMALS == 3,
{
}

/// The highest of some bids is one of them, and no other is above it; there is
/// one exactly where there are bids.
pub proof fn law_highest_is_not_below_any(bids: Seq<Dec>, r: Option<Dec>)
    ensures
        r matches Some(b) ==> (is_highest(bids, r) <==> (exists|k: int|
            0 <= k < bids.len() && #[trigger] bids[k] == b) && (forall|i: int|
            0 <= i < bids.len() ==> b@ >= (#[trigger] bids[i])@)),
        r is None ==> (is_highest(bids, r) <==> bids.len() == 0),
{
    if let Some(b) = r {
        if exists|k: int| 0 <= k < bids.len() && #[trigger] bids[k] == b {
            let k = choose|k: int| 0 <= k < bids.len() && #[trigger] bids[k] == b;
            assert(bids.contains(bids[k]));
        }
    }
}

} // verus!
