//! The stop-loss and take-profit check.
//!
//! The check runs on a fixed beat.  A trigger fires only once the bid has been
//! beyond it in a whole run of consecutive checks, so that a short spike sells
//! nothing.

use crate::decimal::Dec;
use crate::lists::{law_picking_is_exact, lemma_picked_step, picked};
use crate::position::TrackedPosition;
use vstd::prelude::*;

verus! {

/// Milliseconds from one check to the next.
pub const CHECK_INTERVAL_MS: u64 = 250;

/// Consecutive checks that have to find the bid beyond a trigger before it
/// fires.
pub const CONFIRMATIONS_REQUIRED: u32 = 12;

/// What one check finds about one position.
#[derive(Clone, Copy, Debug, PartialEq, Eq, Structural)]
pub enum Finding {
    /// No trigger is breached.
    Quiet,
    /// The stop-loss is breached, not yet confirmed.
    StopLossPending,
    /// The take-profit is breached, not yet confirmed.
    TakeProfitPending,
    /// The stop-loss is breached and confirmed.
    StopLossFires,
    /// The take-profit is breached and confirmed.
    TakeProfitFires,
}

/// Whether the position is watched, has a bid, and the bid is at or below its
/// stop-loss.
pub open spec fn stop_loss_breached(p: TrackedPosition) -> bool {
    p.status is Active && p.current_bid is Some && p.sl_price is Some && p.current_bid->0@
        <= p.sl_price->0@
}

/// Whether the position is watched, has a bid, and the bid is at or above its
/// take-profit.
pub open spec fn take_profit_breached(p: TrackedPosition) -> bool {
    p.status is Active && p.current_bid is Some && p.tp_price is Some && p.current_bid->0@
        >= p.tp_price->0@
}

/// What a check finds: the stop-loss is looked at first, and the take-profit
/// only where the stop-loss is not breached.
pub open spec fn finding(p: TrackedPosition) -> Finding {
    if stop_loss_breached(p) {
        if p.sl_trigger_count + 1 >= CONFIRMATIONS_REQUIRED {
            Finding::StopLossFires
        } else {
            Finding::StopLossPending
        }
    } else if take_profit_breached(p) {
        if p.tp_trigger_count + 1 >= CONFIRMATIONS_REQUIRED {
            Finding::TakeProfitFires
        } else {
            Finding::TakeProfitPending
        }
    } else {
        Finding::Quiet
    }
}

/// The position after a check: a pending breach is counted, and every count that
/// the check does not continue starts again from zero.
pub open spec fn counted(p: TrackedPosition) -> TrackedPosition {
    match finding(p) {
        Finding::StopLossPending => TrackedPosition {
            sl_trigger_count: (p.sl_trigger_count + 1) as u32,
            tp_trigger_count: 0,
            ..p
        },
        Finding::TakeProfitPending => TrackedPosition {
            sl_trigger_count: 0,
            tp_trigger_count: (p.tp_trigger_count + 1) as u32,
            ..p
        },
        _ => TrackedPosition { sl_trigger_count: 0, tp_trigger_count: 0, ..p },
    }
}

/// Why a position is sold.
#[derive(Clone, Copy, Debug, PartialEq, Eq, Structural)]
pub enum TriggerKind {
    StopLoss,
    TakeProfit,
    Manual,
}

/// A position that is to be sold, with what is needed to sell it.
#[derive(Debug)]
pub struct Trigger {
    pub index: usize,
    pub token_id: String,
    pub market_title: String,
    pub outcome: String,
    pub shares: Dec,
    pub entry_price: Dec,
    pub bid_price: Dec,
    pub kind: TriggerKind,
}

/// The trigger that fires for the position at index `i`, if one does.
pub open spec fn fired(i: int, p: TrackedPosition) -> Option<Trigger> {
    if finding(p) == Finding::StopLossFires || finding(p) == Finding::TakeProfitFires {
        Some(
            Trigger {
                index: i as usize,
                token_id: p.token_id,
                market_title: p.market_title,
                outcome: p.outcome,
                shares: p.shares,
                entry_price: p.entry_price,
                bid_price: p.current_bid->0,
                kind: if finding(p) == Finding::TakeProfitFires {
                    TriggerKind::TakeProfit
                } else {
                    TriggerKind::StopLoss
                },
            },
        )
    } else {
        None
    }
}

/// The index of a position whose stop-loss breach begins with this check.
pub open spec fn stop_loss_begins(i: int, p: TrackedPosition) -> Option<usize> {
    if finding(p) == Finding::StopLossPending && p.sl_trigger_count == 0 {
        Some(i as usize)
    } else {
        None
    }
}

/// The index of a position whose take-profit breach begins with this check.
pub open spec fn take_profit_begins(i: int, p: TrackedPosition) -> Option<usize> {
    if finding(p) == Finding::TakeProfitPending && p.tp_trigger_count == 0 {
        Some(i as usize)
    } else {
        None
    }
}

/// The index of a position whose price has recovered from a stop-loss breach,
/// and how many checks the breach had lasted.
pub open spec fn spike_filtered(i: int, p: TrackedPosition) -> Option<(usize, u32)> {
    if finding(p) == Finding::Quiet && p.sl_trigger_count > 0 {
        Some((i as usize, p.sl_trigger_count))
    } else {
        None
    }
}

/// What one check reports.  Each list is in the order of the positions.
#[derive(Debug)]
pub struct CheckReport {
    pub triggers: Vec<Trigger>,
    pub stop_loss_begun: Vec<usize>,
    pub take_profit_begun: Vec<usize>,
    pub spikes_filtered: Vec<(usize, u32)>,
}

/// Looks at one position.
pub fn check_position(p: &TrackedPosition) -> (r: Finding)
    ensures
        r == finding(*p),
        match (p.current_bid, p.sl_price) {
            (Some(bid), Some(sl)) => p.status is Active && bid@ <= sl@ ==> r == (
            if p.sl_trigger_count + 1 >= 12 {
                Finding::StopLossFires
            } else {
                Finding::StopLossPending
            }),
            _ => true,
        },
        match (p.current_bid, p.tp_price) {
            (Some(bid), Some(tp)) => p.status is Active && bid@ >= tp@ && (p.sl_price matches Some(
                sl,
            ) ==> sl@ < bid@) ==> r == (if p.tp_trigger_count + 1 >= 12 {
                Finding::TakeProfitFires
            } else {
                Finding::TakeProfitPending
            }),
            _ => true,
        },
        r is StopLossFires || r is StopLossPending ==> p.status is Active && p.current_bid is Some
            && p.sl_price is Some && p.current_bid->0@ <= p.sl_price->0@,
        r is TakeProfitFires || r is TakeProfitPending ==> p.status is Active && p.current_bid
            is Some && p.tp_price is Some && p.current_bid->0@ >= p.tp_price->0@,
{
    if !p.status.is_active() {
        return Finding::Quiet;
    }
    let bid = match p.current_bid {
        Some(bid) => bid,
        None => {
            return Finding::Quiet;
        },
    };
    if let Some(sl) = p.sl_price {
        if bid.le(sl) {
            return if p.sl_trigger_count >= CONFIRMATIONS_REQUIRED - 1 {
                Finding::StopLossFires
            } else {
                Finding::StopLossPending
            };
        }
    }
    if let Some(tp) = p.tp_price {
        if tp.le(bid) {
            return if p.tp_trigger_count >= CONFIRMATIONS_REQUIRED - 1 {
                Finding::TakeProfitFires
            } else {
                Finding::TakeProfitPending
            };
        }
    }
    Finding::Quiet
}

/// Carries out one check on all positions: counts the breaches and reports what
/// begins, what has recovered and what fires.
pub fn check_positions(positions: &mut Vec<TrackedPosition>) -> (r: CheckReport)
    ensures
        final(positions)@ == old(positions)@.map_values(|p: TrackedPosition| counted(p)),
        r.triggers@ == picked(old(positions)@, |i: int, p: TrackedPosition| fired(i, p)),
        r.stop_loss_begun@ == picked(
            old(positions)@,
            |i: int, p: TrackedPosition| stop_loss_begins(i, p),
        ),
        r.take_profit_begun@ == picked(
            old(positions)@,
            |i: int, p: TrackedPosition| take_profit_begins(i, p),
        ),
        r.spikes_filtered@ == picked(
            old(positions)@,
            |i: int, p: TrackedPosition| spike_filtered(i, p),
        ),
{
    let ghost before = positions@;
    let ghost pick_fired = |i: int, p: TrackedPosition| fired(i, p);
    let ghost pick_sl = |i: int, p: TrackedPosition| stop_loss_begins(i, p);
    let ghost pick_tp = |i: int, p: TrackedPosition| take_profit_begins(i, p);
    let ghost pick_spike = |i: int, p: TrackedPosition| spike_filtered(i, p);
    let mut triggers: Vec<Trigger> = Vec::new();
    let mut stop_loss_begun: Vec<usize> = Vec::new();
    let mut take_profit_begun: Vec<usize> = Vec::new();
    let mut spikes_filtered: Vec<(usize, u32)> = Vec::new();
    let mut i: usize = 0;
    proof {
        assert(before.take(0) =~= Seq::empty());
    }
    while i < positions.len()
        invariant
            i <= positions@.len(),
            positions@.len() == before.len(),
            pick_fired == (|i: int, p: TrackedPosition| fired(i, p)),
            pick_sl == (|i: int, p: TrackedPosition| stop_loss_begins(i, p)),
            pick_tp == (|i: int, p: TrackedPosition| take_profit_begins(i, p)),
            pick_spike == (|i: int, p: TrackedPosition| spike_filtered(i, p)),
            forall|j: int| 0 <= j < i ==> #[trigger] positions@[j] == counted(before[j]),
            forall|j: int| i <= j < before.len() ==> #[trigger] positions@[j] == before[j],
            triggers@ == picked(before.take(i as int), pick_fired),
            stop_loss_begun@ == picked(before.take(i as int), pick_sl),
            take_profit_begun@ == picked(before.take(i as int), pick_tp),
            spikes_filtered@ == picked(before.take(i as int), pick_spike),
        decreases positions@.len() - i,
    {
        let found = check_position(&positions[i]);
        proof {
            lemma_picked_step(before, pick_fired, i as int);
            lemma_picked_step(before, pick_sl, i as int);
            lemma_picked_step(before, pick_tp, i as int);
            lemma_picked_step(before, pick_spike, i as int);
        }
        match found {
            Finding::StopLossPending => {
                if positions[i].sl_trigger_count == 0 {
                    stop_loss_begun.push(i);
                }
                positions[i].sl_trigger_count += 1;
                positions[i].tp_trigger_count = 0;
            },
            Finding::TakeProfitPending => {
                if positions[i].tp_trigger_count == 0 {
                    take_profit_begun.push(i);
                }
                positions[i].tp_trigger_count += 1;
                positions[i].sl_trigger_count = 0;
            },
            Finding::Quiet => {
                if positions[i].sl_trigger_count > 0 {
                    spikes_filtered.push((i, positions[i].sl_trigger_count));
                }
                positions[i].sl_trigger_count = 0;
                positions[i].tp_trigger_count = 0;
            },
            _ => {
                let p = &positions[i];
                if let Some(bid) = p.current_bid {
                    triggers.push(
                        Trigger {
                            index: i,
                            token_id: p.token_id.clone(),
                            market_title: p.market_title.clone(),
                            outcome: p.outcome.clone(),
                            shares: p.shares,
                            entry_price: p.entry_price,
                            bid_price: bid,
                            kind: if found == Finding::TakeProfitFires {
                                TriggerKind::TakeProfit
                            } else {
                                TriggerKind::StopLoss
                            },
                        },
                    );
                }
                positions[i].sl_trigger_count = 0;
                positions[i].tp_trigger_count = 0;
            },
        }
        i += 1;
    }
    proof {
        assert(before.take(i as int) =~= before);
        assert(positions@ =~= before.map_values(|p: TrackedPosition| counted(p)));
    }
    CheckReport { triggers, stop_loss_begun, take_profit_begun, spikes_filtered }
}

// ---------------------------------------------------------------------------
// Laws
// ---------------------------------------------------------------------------

/// Whether `history` is the same position at successive checks: between checks
/// its prices and triggers may change in any way, its counts do not.
pub open spec fn successive_checks(history: Seq<TrackedPosition>) -> bool {
    forall|k: int|
        0 <= k < history.len() - 1 ==> {
            &&& (#[trigger] history[k + 1]).sl_trigger_count == counted(history[k]).sl_trigger_count
            &&& history[k + 1].tp_trigger_count == counted(history[k]).tp_trigger_count
        }
}

/// The counts at check `n` go back over breached checks only.
proof fn lemma_counts_are_runs(history: Seq<TrackedPosition>, n: int)
    requires
        successive_checks(history),
        history[0].sl_trigger_count == 0,
        history[0].tp_trigger_count == 0,
        0 <= n < history.len(),
    ensures
        history[n].sl_trigger_count <= n,
        history[n].tp_trigger_count <= n,
        forall|j: int|
            n - history[n].sl_trigger_count <= j < n ==> stop_loss_breached(#[trigger] history[j]),
        forall|j: int|
            n - history[n].tp_trigger_count <= j < n ==> take_profit_breached(
                #[trigger] history[j],
            ) && !stop_loss_breached(history[j]),
    decreases n,
{
    if n > 0 {
        lemma_counts_are_runs(history, n - 1);
        assert(history[(n - 1) + 1].sl_trigger_count == counted(history[n - 1]).sl_trigger_count);
    }
}

/// A stop-loss fires only where the bid has been at or below it in the last
/// twelve consecutive checks, the current one included: a shorter spike never
/// sells.
pub proof fn law_stop_loss_needs_confirmation(history: Seq<TrackedPosition>, n: int)
    requires
        successive_checks(history),
        history[0].sl_trigger_count == 0,
        history[0].tp_trigger_count == 0,
        0 <= n < history.len(),
        finding(history[n]) == Finding::StopLossFires,
    ensures
        n >= CONFIRMATIONS_REQUIRED - 1,
        forall|j: int|
            n - CONFIRMATIONS_REQUIRED < j <= n ==> stop_loss_breached(#[trigger] history[j]),
{
    lemma_counts_are_runs(history, n);
}

/// A take-profit fires only where the bid has been at or above it, and above the
/// stop-loss, in the last twelve consecutive checks, the current one included.
pub proof fn law_take_profit_needs_confirmation(history: Seq<TrackedPosition>, n: int)
    requires
        successive_checks(history),
        history[0].sl_trigger_count == 0,
        history[0].tp_trigger_count == 0,
        0 <= n < history.len(),
        finding(history[n]) == Finding::TakeProfitFires,
    ensures
        n >= CONFIRMATIONS_REQUIRED - 1,
        forall|j: int|
            n - CONFIRMATIONS_REQUIRED < j <= n ==> take_profit_breached(#[trigger] history[j])
                && !stop_loss_breached(history[j]),
{
    lemma_counts_are_runs(history, n);
}

/// While a stop-loss stays breached, its count is the number of checks made.
proof fn lemma_sustained_stop_loss(history: Seq<TrackedPosition>, n: int)
    requires
        successive_checks(history),
        history[0].sl_trigger_count == 0,
        0 <= n < history.len(),
        n < CONFIRMATIONS_REQUIRED,
        forall|j: int| 0 <= j <= n ==> stop_loss_breached(#[trigger] history[j]),
    ensures
        history[n].sl_trigger_count == n,
    decreases n,
{
    if n > 0 {
        lemma_sustained_stop_loss(history, n - 1);
        assert(stop_loss_breached(history[n - 1]));
        assert(history[(n - 1) + 1].sl_trigger_count == counted(history[n - 1]).sl_trigger_count);
    }
}

/// While a take-profit stays breached, its count is the number of checks made.
proof fn lemma_sustained_take_profit(history: Seq<TrackedPosition>, n: int)
    requires
        successive_checks(history),
        history[0].tp_trigger_count == 0,
        0 <= n < history.len(),
        n < CONFIRMATIONS_REQUIRED,
        forall|j: int|
            0 <= j <= n ==> take_profit_breached(#[trigger] history[j]) && !stop_loss_breached(
                history[j],
            ),
    ensures
        history[n].tp_trigger_count == n,
    decreases n,
{
    if n > 0 {
        lemma_sustained_take_profit(history, n - 1);
        assert(take_profit_breached(history[n - 1]) && !stop_loss_breached(history[n - 1]));
        assert(history[(n - 1) + 1].tp_trigger_count == counted(history[n - 1]).tp_trigger_count);
    }
}

/// A stop-loss that is breached in twelve consecutive checks fires with the
/// twelfth, and with none before it.
pub proof fn law_sustained_stop_loss_fires(history: Seq<TrackedPosition>, n: int)
    requires
        successive_checks(history),
        history[0].sl_trigger_count == 0,
        0 <= n < CONFIRMATIONS_REQUIRED,
        history.len() >= CONFIRMATIONS_REQUIRED,
        forall|j: int|
            0 <= j < CONFIRMATIONS_REQUIRED ==> stop_loss_breached(#[trigger] history[j]),
    ensures
        finding(history[n]) == (if n == CONFIRMATIONS_REQUIRED - 1 {
            Finding::StopLossFires
        } else {
            Finding::StopLossPending
        }),
{
    lemma_sustained_stop_loss(history, n);
    assert(stop_loss_breached(history[n]));
}

/// A take-profit that is breached in twelve consecutive checks, with the bid
/// above the stop-loss, fires with the twelfth, and with none before it.
pub proof fn law_sustained_take_profit_fires(history: Seq<TrackedPosition>, n: int)
    requires
        successive_checks(history),
        history[0].tp_trigger_count == 0,
        0 <= n < CONFIRMATIONS_REQUIRED,
        history.len() >= CONFIRMATIONS_REQUIRED,
        forall|j: int|
            0 <= j < CONFIRMATIONS_REQUIRED ==> take_profit_breached(#[trigger] history[j])
                && !stop_loss_breached(history[j]),
    ensures
        finding(history[n]) == (if n == CONFIRMATIONS_REQUIRED - 1 {
            Finding::TakeProfitFires
        } else {
            Finding::TakeProfitPending
        }),
{
    lemma_sustained_take_profit(history, n);
    assert(take_profit_breached(history[n]));
}

/// One quiet check ends every run: both counts start again from zero.
pub proof fn law_recovery_resets_counts(p: TrackedPosition)
    requires
        finding(p) == Finding::Quiet,
    ensures
        counted(p).sl_trigger_count == 0,
        counted(p).tp_trigger_count == 0,
{
}

/// A position that is not watched fires nothing, whatever its prices.
pub proof fn law_only_active_positions_fire(p: TrackedPosition)
    requires
        !(p.status is Active),
    ensures
        finding(p) == Finding::Quiet,
{
}

/// A check changes nothing of a position but its two counts.
pub proof fn law_check_changes_only_counts(p: TrackedPosition)
    ensures
        p == (TrackedPosition {
            sl_trigger_count: p.sl_trigger_count,
            tp_trigger_count: p.tp_trigger_count,
            ..counted(p)
        }),
{
}

/// A bid at or below the stop-loss of a watched position breaches it, whatever
/// else the position has: the twelfth check in a row fires, an earlier one is
/// pending.
pub proof fn law_bid_at_stop_loss_breaches(p: TrackedPosition, bid: Dec, sl: Dec)
    requires
        p.status is Active,
        p.current_bid == Some(bid),
        p.sl_price == Some(sl),
        bid@ <= sl@,
    ensures
        p.sl_trigger_count < 11 ==> finding(p) == Finding::StopLossPending,
        p.sl_trigger_count >= 11 ==> finding(p) == Finding::StopLossFires,
        p.sl_trigger_count < 11 ==> counted(p) == (TrackedPosition {
            sl_trigger_count: (p.sl_trigger_count + 1) as u32,
            tp_trigger_count: 0,
            ..p
        }),
        p.sl_trigger_count >= 11 ==> counted(p) == (TrackedPosition {
            sl_trigger_count: 0,
            tp_trigger_count: 0,
            ..p
        }),
{
}

/// A bid at or above the take-profit of a watched position breaches it, with a
/// stop-loss below the bid as without any: the twelfth check in a row fires, an
/// earlier one is pending.
pub proof fn law_bid_at_take_profit_breaches(p: TrackedPosition, bid: Dec, tp: Dec)
    requires
        p.status is Active,
        p.current_bid == Some(bid),
        p.tp_price == Some(tp),
        bid@ >= tp@,
        p.sl_price matches Some(sl) ==> sl@ < bid@,
    ensures
        p.tp_trigger_count < 11 ==> finding(p) == Finding::TakeProfitPending,
        p.tp_trigger_count >= 11 ==> finding(p) == Finding::TakeProfitFires,
        p.tp_trigger_count < 11 ==> counted(p) == (TrackedPosition {
            sl_trigger_count: 0,
            tp_trigger_count: (p.tp_trigger_count + 1) as u32,
            ..p
        }),
        p.tp_trigger_count >= 11 ==> counted(p) == (TrackedPosition {
            sl_trigger_count: 0,
            tp_trigger_count: 0,
            ..p
        }),
{
}

/// A position is quiet where it is not watched, has no bid, or has a bid strictly
/// between the triggers it has; then both its counts are zero after the check.
pub proof fn law_bid_between_triggers_is_quiet(p: TrackedPosition)
    requires
        p.status is Active && p.current_bid is Some ==> {
            &&& p.sl_price matches Some(sl) ==> p.current_bid->0@ > sl@
            &&& p.tp_price matches Some(tp) ==> p.current_bid->0@ < tp@
        },
    ensures
        finding(p) == Finding::Quiet,
        counted(p) == (TrackedPosition { sl_trigger_count: 0, tp_trigger_count: 0, ..p }),
{
}

/// The position at the `n`-th check of a row of checks between which nothing
/// changes.
pub open spec fn at_check(p: TrackedPosition, n: nat) -> TrackedPosition
    decreases n,
{
    if n == 0 {
        p
    } else {
        counted(at_check(p, (n - 1) as nat))
    }
}

/// A position that has only a take-profit, and a bid at or above it, is sold: of
/// twelve checks the first eleven count the breach and the twelfth fires.
pub proof fn law_take_profit_alone_sells(p: TrackedPosition, n: nat)
    requires
        p.status is Active,
        p.sl_price is None,
        p.tp_price is Some,
        p.current_bid is Some,
        p.current_bid->0@ >= p.tp_price->0@,
        p.tp_trigger_count == 0,
        p.sl_trigger_count == 0,
        n < 12,
    ensures
        at_check(p, n) == (TrackedPosition { tp_trigger_count: n as u32, ..p }),
        n < 11 ==> finding(at_check(p, n)) == Finding::TakeProfitPending,
        n == 11 ==> finding(at_check(p, n)) == Finding::TakeProfitFires,
    decreases n,
{
    if n > 0 {
        law_take_profit_alone_sells(p, (n - 1) as nat);
    }
}

/// A position that has only a stop-loss, and a bid at or below it, is sold: of
/// twelve checks the first eleven count the breach and the twelfth fires.
pub proof fn law_stop_loss_alone_sells(p: TrackedPosition, n: nat)
    requires
        p.status is Active,
        p.tp_price is None,
        p.sl_price is Some,
        p.current_bid is Some,
        p.current_bid->0@ <= p.sl_price->0@,
        p.tp_trigger_count == 0,
        p.sl_trigger_count == 0,
        n < 12,
    ensures
        at_check(p, n) == (TrackedPosition { sl_trigger_count: n as u32, ..p }),
        n < 11 ==> finding(at_check(p, n)) == Finding::StopLossPending,
        n == 11 ==> finding(at_check(p, n)) == Finding::StopLossFires,
    decreases n,
{
    if n > 0 {
        law_stop_loss_alone_sells(p, (n - 1) as nat);
    }
}

/// A check of many positions reports a sale for each position whose breach it
/// confirms, of all the shares held, at the bid; nothing else is sold, and the
/// sales are in the order of the positions.
pub proof fn law_check_sells_what_is_confirmed(positions: Seq<TrackedPosition>, i: int) -> (k: int)
    requires
        0 <= i < positions.len() <= usize::MAX,
        positions[i].status is Active,
        positions[i].current_bid is Some,
        (positions[i].sl_price is Some && positions[i].current_bid->0@ <= positions[i].sl_price->0@
            && positions[i].sl_trigger_count >= 11) || (positions[i].tp_price is Some
            && positions[i].current_bid->0@ >= positions[i].tp_price->0@ && (
        positions[i].sl_price matches Some(sl) ==> sl@ < positions[i].current_bid->0@)
            && positions[i].tp_trigger_count >= 11),
    ensures
        ({
            let triggers = picked(positions, |j: int, p: TrackedPosition| fired(j, p));
            &&& 0 <= k < triggers.len()
            &&& triggers[k] == (Trigger {
                index: i as usize,
                token_id: positions[i].token_id,
                market_title: positions[i].market_title,
                outcome: positions[i].outcome,
                shares: positions[i].shares,
                entry_price: positions[i].entry_price,
                bid_price: positions[i].current_bid->0,
                kind: if positions[i].sl_price is Some && positions[i].current_bid->0@
                    <= positions[i].sl_price->0@ {
                    TriggerKind::StopLoss
                } else {
                    TriggerKind::TakeProfit
                },
            })
        }),
{
    let pick = |j: int, p: TrackedPosition| fired(j, p);
    let triggers = picked(positions, pick);
    let sources = law_picking_is_exact(positions, pick);
    assert(pick(i, positions[i]) is Some);
    let k = choose|k: int| 0 <= k < sources.len() && sources[k] == i;
    assert(pick(sources[k], positions[sources[k]]) == Some(triggers[k]));
    k
}

/// Every sale that a check reports is of a watched position whose bid has been
/// beyond its trigger in eleven checks before and is so now; it is of the shares
/// held, at that bid, and a position is sold only once.
pub proof fn law_check_sells_nothing_else(positions: Seq<TrackedPosition>, k: int)
    requires
        positions.len() <= usize::MAX,
        0 <= k < picked(positions, |j: int, p: TrackedPosition| fired(j, p)).len(),
    ensures
        ({
            let triggers = picked(positions, |j: int, p: TrackedPosition| fired(j, p));
            let t = triggers[k];
            let p = positions[t.index as int];
            &&& t.index < positions.len()
            &&& p.status is Active
            &&& p.current_bid == Some(t.bid_price)
            &&& t.token_id == p.token_id
            &&& t.market_title == p.market_title
            &&& t.outcome == p.outcome
            &&& t.shares == p.shares
            &&& t.entry_price == p.entry_price
            &&& t.kind == TriggerKind::StopLoss || t.kind == TriggerKind::TakeProfit
            &&& t.kind == TriggerKind::StopLoss ==> p.sl_price is Some && t.bid_price@
                <= p.sl_price->0@ && p.sl_trigger_count >= 11
            &&& t.kind == TriggerKind::TakeProfit ==> p.tp_price is Some && t.bid_price@
                >= p.tp_price->0@ && p.tp_trigger_count >= 11
            &&& forall|j: int| 0 <= j < k ==> (#[trigger] triggers[j]).index < t.index
        }),
{
    let pick = |j: int, p: TrackedPosition| fired(j, p);
    let triggers = picked(positions, pick);
    let sources = law_picking_is_exact(positions, pick);
    assert(pick(sources[k], positions[sources[k]]) == Some(triggers[k]));
    assert forall|j: int| 0 <= j < k implies (#[trigger] triggers[j]).index < triggers[k].index by {
        assert(pick(sources[j], positions[sources[j]]) == Some(triggers[j]));
        assert(sources[j] < sources[k]);
    }
}

/// A check tells that a breach begins exactly where a breach is found that the
/// check before did not find, and that a spike is over exactly where a counted
/// stop-loss breach has ended without a sale.
pub proof fn law_check_tells_beginnings_and_ends(i: int, p: TrackedPosition)
    requires
        0 <= i <= usize::MAX,
    ensures
        stop_loss_begins(i, p) == (if p.status is Active && p.current_bid is Some && p.sl_price
            is Some && p.current_bid->0@ <= p.sl_price->0@ && p.sl_trigger_count == 0 {
            Some(i as usize)
        } else {
            None
        }),
        take_profit_begins(i, p) == (if p.status is Active && p.current_bid is Some && p.tp_price
            is Some && p.current_bid->0@ >= p.tp_price->0@ && (p.sl_price matches Some(sl) ==> sl@
            < p.current_bid->0@) && p.tp_trigger_count == 0 {
            Some(i as usize)
        } else {
            None
        }),
        spike_filtered(i, p) is Some ==> p.sl_trigger_count > 0 && spike_filtered(i, p) == Some(
            (i as usize, p.sl_trigger_count),
        ),
        p.status is Active && p.current_bid is Some && p.sl_price is Some && p.current_bid->0@
            <= p.sl_price->0@ ==> spike_filtered(i, p) is None,
        p.sl_trigger_count > 0 && (p.current_bid is Some ==> {
            &&& p.sl_price matches Some(sl) ==> p.current_bid->0@ > sl@
            &&& p.tp_price matches Some(tp) ==> p.current_bid->0@ < tp@
        }) ==> spike_filtered(i, p) is Some,
{
}

/// Twelve checks, a quarter of a second apart, make up three seconds: so long the
/// bid has to stay beyond a trigger before it fires.
pub proof fn law_confirmation_takes_three_seconds()
    ensures
        CHECK_INTERVAL_MS == 250,
        CONFIRMATIONS_REQUIRED == 12,
        CHECK_INTERVAL_MS * CONFIRMATIONS_REQUIRED == 3000,
{
}

} // verus!
