//! Bringing the watched positions in line with the wallet.

use crate::decimal::Dec;
use crate::json::{
    element_pointer, flag_at, is_json, json_flag, json_length, json_text, json_valid, length_at,
    pointer_to, text_at,
};
use crate::lists::{law_picking_is_exact, lemma_picked_step, picked};
use crate::manager::{live_triggers, AppState};
use crate::position::{
    find_token, first_of_token, lemma_first_of_token, models, PositionModel, PositionStatus, StatusModel,
    TrackedPosition,
};
use crate::settings::{read_price, stored_price, text_of, SavedTriggers};
use vstd::prelude::*;
use vstd::utf8::*;

verus! {

/// Milliseconds between two scans of the wallet.
pub const SCAN_INTERVAL_MS: u64 = 30_000;

/// Age in milliseconds from which consensus figures are fetched again.
pub const CONSENSUS_MAX_AGE_MS: u64 = 55_000;

/// How many bytes of a market's identifier stand in for a missing title.
pub const MARKET_NAME_BYTES: usize = 12;

/// An amount as the wallet service gives it: a number, where it can be held as a
/// decimal, a text, or something else.
#[derive(Debug)]
pub enum RawAmount {
    Number(Option<Dec>),
    Text(String),
    Other,
}

/// The amount that is meant; zero where none is.
pub open spec fn amount(v: RawAmount) -> Dec {
    match v {
        RawAmount::Number(Some(d)) => d,
        RawAmount::Text(s) => match Dec::spec_parse(s@) {
            Some(d) => d,
            None => Dec::of(0, 0),
        },
        _ => Dec::of(0, 0),
    }
}

/// Reads an amount.
pub fn parse_decimal_value(v: &RawAmount) -> (r: Dec)
    ensures
        r == amount(*v),
{
    match v {
        RawAmount::Number(Some(d)) => *d,
        RawAmount::Text(s) => match Dec::parse(s.as_str()) {
            Some(d) => d,
            None => Dec::zero(),
        },
        _ => Dec::zero(),
    }
}

/// A position as the wallet service reports it.
#[derive(Debug)]
pub struct RawPosition {
    pub asset: String,
    pub market: String,
    pub title: String,
    pub outcome: String,
    pub condition_id: String,
    pub size: RawAmount,
    pub avg_price: RawAmount,
    pub cur_price: RawAmount,
}

/// Where the shortened identifier of a market ends.
pub open spec fn market_name_end(market: Seq<char>) -> int {
    if encode_utf8(market).len() < MARKET_NAME_BYTES {
        encode_utf8(market).len() as int
    } else {
        MARKET_NAME_BYTES as int
    }
}

/// The title shown for a reported position.
pub open spec fn raw_title(raw: RawPosition) -> Seq<char> {
    if raw.title@.len() == 0 {
        "Market "@ + decode_utf8(
            encode_utf8(raw.market@).subrange(0, market_name_end(raw.market@)),
        )
    } else {
        raw.title@
    }
}

/// The outcome shown for a reported position.
pub open spec fn raw_outcome(raw: RawPosition) -> Seq<char> {
    if raw.outcome@.len() == 0 {
        "Unknown"@
    } else {
        raw.outcome@
    }
}

/// A price that counts only where it is positive.
pub open spec fn positive_price(price: Dec) -> Option<Dec> {
    if price@ > 0 {
        Some(price)
    } else {
        None
    }
}

/// A position seen for the first time, without triggers.
pub open spec fn new_position(raw: RawPosition) -> PositionModel {
    PositionModel {
        token_id: raw.asset@,
        condition_id: raw.condition_id@,
        market_title: raw_title(raw),
        outcome: raw_outcome(raw),
        shares: amount(raw.size),
        entry_price: amount(raw.avg_price),
        current_bid: positive_price(amount(raw.cur_price)),
        current_ask: None,
        sl_price: None,
        tp_price: None,
        status: StatusModel::Active,
        last_price_update: None,
        exit_pnl: None,
        min_order_size: None,
        tick_size: None,
        neg_risk: None,
        consensus: None,
        sl_trigger_count: 0,
        tp_trigger_count: 0,
    }
}

/// Whether the shortened market identifier of a report can be cut off where the
/// title is made from it.
pub open spec fn market_name_ok(raw: RawPosition) -> bool {
    raw.title@.len() == 0 ==> is_char_boundary(
        encode_utf8(raw.market@),
        market_name_end(raw.market@),
    )
}

/// Makes a position seen for the first time.
pub fn track_new(raw: &RawPosition) -> (r: TrackedPosition)
    requires
        market_name_ok(*raw),
    ensures
        r@ == new_position(*raw),
        r.token_id@ == raw.asset@,
        r.condition_id@ == raw.condition_id@,
        raw.title@.len() > 0 ==> r.market_title@ == raw.title@,
        raw.outcome@.len() > 0 ==> r.outcome@ == raw.outcome@,
        raw.outcome@.len() == 0 ==> r.outcome@ == "Unknown"@,
        r.shares == amount(raw.size),
        r.entry_price == amount(raw.avg_price),
        amount(raw.cur_price)@ > 0 ==> r.current_bid == Some(amount(raw.cur_price)),
        amount(raw.cur_price)@ <= 0 ==> r.current_bid is None,
        r.current_ask is None,
        r.sl_price is None,
        r.tp_price is None,
        r.status is Active,
        r.sl_trigger_count == 0,
        r.tp_trigger_count == 0,
{
    let market_title = if raw.title.as_str().is_empty() {
        let market = raw.market.as_str();
        let bytes: usize = market.as_bytes().len();
        let cut: usize = if bytes < MARKET_NAME_BYTES {
            bytes
        } else {
            MARKET_NAME_BYTES
        };
        let (head, _tail) = market.split_at(cut);
        proof {
            encode_utf8_decode_utf8(head@);
        }
        "Market ".to_owned().concat(head)
    } else {
        raw.title.clone()
    };
    let outcome = if raw.outcome.as_str().is_empty() {
        "Unknown".to_owned()
    } else {
        raw.outcome.clone()
    };
    let cur_price = parse_decimal_value(&raw.cur_price);
    TrackedPosition {
        token_id: raw.asset.clone(),
        condition_id: raw.condition_id.clone(),
        market_title,
        outcome,
        shares: parse_decimal_value(&raw.size),
        entry_price: parse_decimal_value(&raw.avg_price),
        current_bid: if cur_price.is_positive() {
            Some(cur_price)
        } else {
            None
        },
        current_ask: None,
        sl_price: None,
        tp_price: None,
        status: PositionStatus::Active,
        last_price_update: None,
        exit_pnl: None,
        min_order_size: None,
        tick_size: None,
        neg_risk: None,
        consensus: None,
        sl_trigger_count: 0,
        tp_trigger_count: 0,
    }
}

/// Whether a position with this status is watched again when the wallet holds
/// shares of it.
pub open spec fn reenters(status: StatusModel) -> bool {
    status is Sold || status is SLTriggered || status is TPTriggered || status is Error
}

/// A known position brought up to date: the triggers stay, except that a
/// position bought back after it was left starts afresh.
pub open spec fn updated_position(p: PositionModel, raw: RawPosition) -> PositionModel {
    let cur = amount(raw.cur_price);
    let fresh = PositionModel {
        shares: amount(raw.size),
        entry_price: if amount(raw.avg_price)@ > 0 {
            amount(raw.avg_price)
        } else {
            p.entry_price
        },
        market_title: if raw.title@.len() == 0 {
            p.market_title
        } else {
            raw.title@
        },
        outcome: if raw.outcome@.len() == 0 {
            p.outcome
        } else {
            raw.outcome@
        },
        current_bid: if p.current_bid is None {
            positive_price(cur)
        } else {
            p.current_bid
        },
        ..p
    };
    if amount(raw.size)@ > 0 && reenters(p.status) {
        PositionModel {
            status: StatusModel::Active,
            exit_pnl: None,
            current_bid: positive_price(cur),
            current_ask: None,
            sl_price: None,
            tp_price: None,
            ..fresh
        }
    } else {
        fresh
    }
}

/// Brings a known position up to date.
pub fn update_known(existing: &TrackedPosition, raw: &RawPosition) -> (r: TrackedPosition)
    ensures
        r@ == updated_position(existing@, *raw),
        r.token_id@ == existing.token_id@,
        r.shares == amount(raw.size),
        amount(raw.avg_price)@ > 0 ==> r.entry_price == amount(raw.avg_price),
        amount(raw.avg_price)@ <= 0 ==> r.entry_price == existing.entry_price,
        existing.status is Active || existing.status is Selling ==> r.status@ == existing.status@
            && r.sl_price == existing.sl_price && r.tp_price == existing.tp_price,
{
    let size = parse_decimal_value(&raw.size);
    let avg_price = parse_decimal_value(&raw.avg_price);
    let cur_price = parse_decimal_value(&raw.cur_price);
    let mut updated = existing.duplicate();
    updated.shares = size;
    if avg_price.is_positive() {
        updated.entry_price = avg_price;
    }
    if !raw.title.as_str().is_empty() {
        updated.market_title = raw.title.clone();
    }
    if !raw.outcome.as_str().is_empty() {
        updated.outcome = raw.outcome.clone();
    }
    let known_price = if cur_price.is_positive() {
        Some(cur_price)
    } else {
        None
    };
    if updated.current_bid.is_none() {
        updated.current_bid = known_price;
    }
    let left = match updated.status {
        PositionStatus::Sold => true,
        PositionStatus::SLTriggered => true,
        PositionStatus::TPTriggered => true,
        PositionStatus::Error(_) => true,
        _ => false,
    };
    if size.is_positive() && left {
        updated.status = PositionStatus::Active;
        updated.exit_pnl = None;
        updated.current_bid = known_price;
        updated.current_ask = None;
        updated.sl_price = None;
        updated.tp_price = None;
    }
    updated
}

// ---------------------------------------------------------------------------
// Saved triggers
// ---------------------------------------------------------------------------

/// The triggers saved for a token: those of the first entry for it.
pub open spec fn saved_for(saved: Seq<SavedTriggers>, token: Seq<char>) -> Option<SavedTriggers>
    decreases saved.len(),
{
    if saved.len() == 0 {
        None
    } else if saved[0].token_id@ == token {
        Some(saved[0])
    } else {
        saved_for(saved.skip(1), token)
    }
}

/// A position with the triggers saved for its token, where some are.
pub open spec fn restored(p: PositionModel, saved: Seq<SavedTriggers>) -> PositionModel {
    match saved_for(saved, p.token_id) {
        Some(s) => PositionModel { sl_price: s.sl_price, tp_price: s.tp_price, ..p },
        None => p,
    }
}

/// Gives a position the triggers saved for its token.
fn restore_triggers(p: &mut TrackedPosition, saved: &Vec<SavedTriggers>)
    ensures
        final(p)@ == restored(old(p)@, saved@),
{
    let mut i: usize = 0;
    proof {
        assert(saved@.skip(0) =~= saved@);
    }
    while i < saved.len()
        invariant
            i <= saved@.len(),
            *p == *old(p),
            saved_for(saved@, p.token_id@) == saved_for(saved@.skip(i as int), p.token_id@),
        decreases saved@.len() - i,
    {
        proof {
            assert(saved@.skip(i as int).skip(1) =~= saved@.skip(i + 1));
        }
        if saved[i].token_id == p.token_id {
            p.sl_price = saved[i].sl_price;
            p.tp_price = saved[i].tp_price;
            return;
        }
        i += 1;
    }
}

// ---------------------------------------------------------------------------
// Merging a scan
// ---------------------------------------------------------------------------

/// What a report with shares becomes: the known position brought up to date, or
/// a new one with its saved triggers.
pub open spec fn merged_position(
    raw: RawPosition,
    known: Seq<PositionModel>,
    saved: Seq<SavedTriggers>,
) -> PositionModel {
    match first_of_token(known, raw.asset@) {
        Some(i) => updated_position(known[i], raw),
        None => restored(new_position(raw), saved),
    }
}

/// What a report becomes; one without shares becomes nothing.
pub open spec fn merged_report(
    known: Seq<PositionModel>,
    saved: Seq<SavedTriggers>,
) -> spec_fn(int, RawPosition) -> Option<PositionModel> {
    |i: int, raw: RawPosition|
        if amount(raw.size)@ > 0 {
            Some(merged_position(raw, known, saved))
        } else {
            None
        }
}

/// The positions with the sold ones of `known` appended whose token is not there
/// yet.
pub open spec fn with_sold(positions: Seq<PositionModel>, known: Seq<PositionModel>) -> Seq<
    PositionModel,
>
    decreases known.len(),
{
    if known.len() == 0 {
        positions
    } else {
        let before = with_sold(positions, known.drop_last());
        if known.last().status is Sold && first_of_token(before, known.last().token_id) is None {
            before.push(known.last())
        } else {
            before
        }
    }
}

/// The positions after a scan: one for each report with shares, in the order of
/// the reports, and behind them the sold ones that are still shown.
pub open spec fn merged(
    reports: Seq<RawPosition>,
    known: Seq<PositionModel>,
    saved: Seq<SavedTriggers>,
) -> Seq<PositionModel> {
    with_sold(picked(reports, merged_report(known, saved)), known)
}

/// A position that was bought back, with the status it had.
#[derive(Debug)]
pub struct Reentry {
    pub market_title: String,
    pub from: PositionStatus,
}

/// What there is to tell about a scan.
#[derive(Debug)]
pub struct ScanReport {
    /// Positions that were bought back.
    pub reentries: Vec<Reentry>,
    /// Whether the number of positions has changed.
    pub count_changed: bool,
}

/// The title and the former status of a report's position, where it was bought
/// back.
pub open spec fn reentry(known: Seq<PositionModel>) -> spec_fn(int, RawPosition) -> Option<
    (Seq<char>, StatusModel),
> {
    |i: int, raw: RawPosition|
        match first_of_token(known, raw.asset@) {
            Some(k) => if amount(raw.size)@ > 0 && reenters(known[k].status) {
                Some((updated_position(known[k], raw).market_title, known[k].status))
            } else {
                None
            },
            None => None,
        }
}

/// The entries of a report list as mathematical values.
pub open spec fn reentry_models(list: Seq<Reentry>) -> Seq<(Seq<char>, StatusModel)> {
    list.map_values(|e: Reentry| (e.market_title@, e.from@))
}

/// Whether all reports that make a new position can be given a title.
pub open spec fn titles_ok(reports: Seq<RawPosition>, known: Seq<PositionModel>) -> bool {
    forall|i: int|
        0 <= i < reports.len() && amount((#[trigger] reports[i]).size)@ > 0 && first_of_token(
            known,
            reports[i].asset@,
        ) is None ==> market_name_ok(reports[i])
}

impl AppState {
    /// Takes in a scan of the wallet.  The selection stays on a position where
    /// there is one.
    pub fn merge_scan(
        &mut self,
        reports: &Vec<RawPosition>,
        saved: &Vec<SavedTriggers>,
        now_ms: u64,
    ) -> (r: ScanReport)
        requires
            titles_ok(reports@, models(old(self).positions@)),
        ensures
            models(final(self).positions@) == merged(
                reports@,
                models(old(self).positions@),
                saved@,
            ),
            final(self).last_scan_ms == Some(now_ms),
            final(self).selected_index == (if old(self).selected_index
                >= final(self).positions@.len() && final(self).positions@.len() > 0 {
                final(self).positions@.len() - 1
            } else {
                old(self).selected_index as int
            }),
            final(self).selection_in_bounds(),
            final(self).highlighted == (if final(self).positions@.len() == 0 {
                None
            } else {
                Some(final(self).selected_index)
            }),
            final(self).active_triggers == live_triggers(final(self).positions@),
            *final(self) == (AppState {
                positions: final(self).positions,
                last_scan_ms: final(self).last_scan_ms,
                selected_index: final(self).selected_index,
                highlighted: final(self).highlighted,
                active_triggers: final(self).active_triggers,
                ..*old(self)
            }),
            reentry_models(r.reentries@) == picked(
                reports@,
                reentry(models(old(self).positions@)),
            ),
            r.count_changed == (final(self).positions@.len() != old(self).positions@.len()),
    {
        let ghost known = models(self.positions@);
        let ghost pick = merged_report(known, saved@);
        let ghost pick_reentry = reentry(known);
        let mut next: Vec<TrackedPosition> = Vec::new();
        let mut reentries: Vec<Reentry> = Vec::new();
        let mut i: usize = 0;
        proof {
            assert(reports@.take(0) =~= Seq::empty());
            assert(models(next@) =~= picked(reports@.take(0), pick));
            assert(reentry_models(reentries@) =~= picked(reports@.take(0), pick_reentry));
        }
        while i < reports.len()
            invariant
                i <= reports@.len(),
                *self == *old(self),
                known == models(self.positions@),
                pick == merged_report(known, saved@),
                pick_reentry == reentry(known),
                titles_ok(reports@, known),
                models(next@) == picked(reports@.take(i as int), pick),
                reentry_models(reentries@) == picked(reports@.take(i as int), pick_reentry),
            decreases reports@.len() - i,
        {
            let raw = &reports[i];
            proof {
                lemma_picked_step(reports@, pick, i as int);
                lemma_picked_step(reports@, pick_reentry, i as int);
            }
            let size = parse_decimal_value(&raw.size);
            if size.is_positive() {
                let ghost done = next@;
                let ghost told = reentries@;
                match find_token(&self.positions, &raw.asset) {
                    Some(k) => {
                        let existing = &self.positions[k];
                        assert(known[k as int] == existing@);
                        let updated = update_known(existing, raw);
                        let left = match existing.status {
                            PositionStatus::Sold => true,
                            PositionStatus::SLTriggered => true,
                            PositionStatus::TPTriggered => true,
                            PositionStatus::Error(_) => true,
                            _ => false,
                        };
                        if left {
                            reentries.push(
                                Reentry {
                                    market_title: updated.market_title.clone(),
                                    from: existing.status.duplicate(),
                                },
                            );
                            assert(reentry_models(reentries@) =~= reentry_models(told).push(
                                (updated.market_title@, existing.status@),
                            ));
                        }
                        next.push(updated);
                        assert(models(next@) =~= models(done).push(updated@));
                    },
                    None => {
                        let mut fresh = track_new(raw);
                        restore_triggers(&mut fresh, saved);
                        let ghost added = fresh@;
                        next.push(fresh);
                        assert(models(next@) =~= models(done).push(added));
                    },
                }
            }
            i += 1;
        }
        proof {
            assert(reports@.take(i as int) =~= reports@);
            assert(known.take(0) =~= Seq::empty());
        }
        let ghost active = models(next@);
        let mut k: usize = 0;
        while k < self.positions.len()
            invariant
                k <= self.positions@.len(),
                *self == *old(self),
                known == models(self.positions@),
                models(next@) == with_sold(active, known.take(k as int)),
            decreases self.positions@.len() - k,
        {
            let position = &self.positions[k];
            let ghost done = next@;
            proof {
                assert(known.take(k + 1).drop_last() =~= known.take(k as int));
                assert(known.take(k + 1).last() == position@);
            }
            if position.status.is_sold() && find_token(&next, &position.token_id).is_none() {
                let kept = position.duplicate();
                next.push(kept);
                assert(models(next@) =~= models(done).push(position@));
            }
            k += 1;
        }
        proof {
            assert(known.take(k as int) =~= known);
            assert(models(next@) == merged(reports@, known, saved@));
        }
        let previous: usize = self.positions.len();
        let found: usize = next.len();
        self.positions = next;
        self.last_scan_ms = Some(now_ms);
        if self.selected_index >= found && found > 0 {
            self.selected_index = found - 1;
        }
        self.highlighted = if found == 0 {
            None
        } else {
            Some(self.selected_index)
        };
        self.active_triggers = self.count_active_triggers();
        ScanReport { reentries, count_changed: found != previous }
    }
}

// ---------------------------------------------------------------------------
// Start of a session
// ---------------------------------------------------------------------------

/// What a report becomes at the start; one without shares becomes nothing.
pub open spec fn first_report() -> spec_fn(int, RawPosition) -> Option<PositionModel> {
    |i: int, raw: RawPosition|
        if amount(raw.size)@ > 0 {
            Some(new_position(raw))
        } else {
            None
        }
}

/// Makes the positions at the start of a session from the first scan.
pub fn initial_positions(reports: &Vec<RawPosition>) -> (r: Vec<TrackedPosition>)
    requires
        titles_ok(reports@, Seq::empty()),
    ensures
        models(r@) == picked(reports@, first_report()),
{
    let ghost pick = first_report();
    let mut out: Vec<TrackedPosition> = Vec::new();
    let mut i: usize = 0;
    proof {
        assert(reports@.take(0) =~= Seq::empty());
        assert(models(out@) =~= picked(reports@.take(0), pick));
    }
    while i < reports.len()
        invariant
            i <= reports@.len(),
            pick == first_report(),
            titles_ok(reports@, Seq::empty()),
            models(out@) == picked(reports@.take(i as int), pick),
        decreases reports@.len() - i,
    {
        proof {
            lemma_picked_step(reports@, pick, i as int);
        }
        let raw = &reports[i];
        if parse_decimal_value(&raw.size).is_positive() {
            let ghost done = out@;
            let fresh = track_new(raw);
            let ghost added = fresh@;
            out.push(fresh);
            assert(models(out@) =~= models(done).push(added));
        }
        i += 1;
    }
    proof {
        assert(reports@.take(i as int) =~= reports@);
    }
    out
}

/// A position after the saved entries have been gone through in order: the last
/// one for its token counts.
pub open spec fn restored_by_all(p: PositionModel, saved: Seq<SavedTriggers>) -> PositionModel
    decreases saved.len(),
{
    if saved.len() == 0 {
        p
    } else if saved.last().token_id@ == p.token_id {
        PositionModel { sl_price: saved.last().sl_price, tp_price: saved.last().tp_price, ..p }
    } else {
        restored_by_all(p, saved.drop_last())
    }
}

/// Gives the positions at the start of a session their saved triggers.
pub fn restore_saved(positions: &mut Vec<TrackedPosition>, saved: &Vec<SavedTriggers>)
    ensures
        models(final(positions)@) == models(old(positions)@).map_values(
            |p: PositionModel| restored_by_all(p, saved@),
        ),
{
    let ghost before = positions@;
    let mut i: usize = 0;
    while i < positions.len()
        invariant
            i <= positions@.len(),
            positions@.len() == before.len(),
            forall|j: int|
                0 <= j < i ==> (#[trigger] positions@[j])@ == restored_by_all(before[j]@, saved@),
            forall|j: int| i <= j < before.len() ==> #[trigger] positions@[j] == before[j],
        decreases positions@.len() - i,
    {
        let mut k: usize = saved.len();
        let mut searching: bool = true;
        proof {
            assert(saved@.take(k as int) =~= saved@);
        }
        while searching && k > 0
            invariant
                i < positions@.len(),
                positions@.len() == before.len(),
                k <= saved@.len(),
                searching ==> positions@[i as int] == before[i as int] && restored_by_all(
                    before[i as int]@,
                    saved@,
                ) == restored_by_all(before[i as int]@, saved@.take(k as int)),
                !searching ==> positions@[i as int]@ == restored_by_all(before[i as int]@, saved@),
                forall|j: int|
                    0 <= j < i ==> (#[trigger] positions@[j])@ == restored_by_all(
                        before[j]@,
                        saved@,
                    ),
                forall|j: int| i < j < before.len() ==> #[trigger] positions@[j] == before[j],
            decreases k,
        {
            proof {
                assert(saved@.take(k as int).drop_last() =~= saved@.take(k - 1));
                assert(saved@.take(k as int).last() == saved@[k - 1]);
            }
            k -= 1;
            if saved[k].token_id == positions[i].token_id {
                positions[i].sl_price = saved[k].sl_price;
                positions[i].tp_price = saved[k].tp_price;
                searching = false;
            }
        }
        i += 1;
    }
    assert(models(positions@) =~= models(before).map_values(
        |p: PositionModel| restored_by_all(p, saved@),
    ));
}

// ---------------------------------------------------------------------------
// What is fetched after a scan
// ---------------------------------------------------------------------------

/// The token of a position whose market parameters are not known yet.
pub open spec fn lacks_meta() -> spec_fn(int, TrackedPosition) -> Option<String> {
    |i: int, p: TrackedPosition|
        if p.min_order_size is None && !(p.status is Sold) {
            Some(p.token_id)
        } else {
            None
        }
}

/// The tokens whose market parameters are to be fetched.
pub fn tokens_needing_meta(positions: &Vec<TrackedPosition>) -> (r: Vec<String>)
    ensures
        r@ == picked(positions@, lacks_meta()),
{
    let ghost pick = lacks_meta();
    let mut out: Vec<String> = Vec::new();
    let mut i: usize = 0;
    proof {
        assert(positions@.take(0) =~= Seq::empty());
    }
    while i < positions.len()
        invariant
            i <= positions@.len(),
            pick == lacks_meta(),
            out@ == picked(positions@.take(i as int), pick),
        decreases positions@.len() - i,
    {
        proof {
            lemma_picked_step(positions@, pick, i as int);
        }
        let p = &positions[i];
        if p.min_order_size.is_none() && !p.status.is_sold() {
            out.push(p.token_id.clone());
        }
        i += 1;
    }
    proof {
        assert(positions@.take(i as int) =~= positions@);
    }
    out
}

/// The token of a watched position.
pub open spec fn watched_token() -> spec_fn(int, TrackedPosition) -> Option<String> {
    |i: int, p: TrackedPosition|
        if p.status is Active {
            Some(p.token_id)
        } else {
            None
        }
}

/// The tokens whose prices are to be streamed: those of the watched positions.
pub fn watched_tokens(positions: &Vec<TrackedPosition>) -> (r: Vec<String>)
    ensures
        r@ == picked(positions@, watched_token()),
{
    let ghost pick = watched_token();
    let mut out: Vec<String> = Vec::new();
    let mut i: usize = 0;
    proof {
        assert(positions@.take(0) =~= Seq::empty());
    }
    while i < positions.len()
        invariant
            i <= positions@.len(),
            pick == watched_token(),
            out@ == picked(positions@.take(i as int), pick),
        decreases positions@.len() - i,
    {
        proof {
            lemma_picked_step(positions@, pick, i as int);
        }
        let p = &positions[i];
        if p.status.is_active() {
            out.push(p.token_id.clone());
        }
        i += 1;
    }
    proof {
        assert(positions@.take(i as int) =~= positions@);
    }
    out
}

/// The watched positions, of which a snapshot is kept.
pub open spec fn watched_position() -> spec_fn(int, TrackedPosition) -> Option<TrackedPosition> {
    |i: int, p: TrackedPosition|
        if p.status is Active {
            Some(p)
        } else {
            None
        }
}

/// Copies the watched positions.
pub fn watched_positions(positions: &Vec<TrackedPosition>) -> (r: Vec<TrackedPosition>)
    ensures
        r@ == picked(positions@, watched_position()),
{
    let ghost pick = watched_position();
    let mut out: Vec<TrackedPosition> = Vec::new();
    let mut i: usize = 0;
    proof {
        assert(positions@.take(0) =~= Seq::empty());
    }
    while i < positions.len()
        invariant
            i <= positions@.len(),
            pick == watched_position(),
            out@ == picked(positions@.take(i as int), pick),
        decreases positions@.len() - i,
    {
        proof {
            lemma_picked_step(positions@, pick, i as int);
        }
        let p = &positions[i];
        if p.status.is_active() {
            out.push(p.duplicate());
        }
        i += 1;
    }
    proof {
        assert(positions@.take(i as int) =~= positions@);
    }
    out
}

/// Parameters and best prices of a market.
#[derive(Clone, Copy, Debug)]
pub struct OrderbookMeta {
    pub min_order_size: Dec,
    pub tick_size: Dec,
    pub neg_risk: bool,
    pub best_bid: Option<Dec>,
    pub best_ask: Option<Dec>,
}

/// Reads the parameters of a market from the texts of its book; a smallest order
/// of 5, a price step of 0.01 and no negative risk stand in for what is missing.
/// The best prices are those of the last levels, and `None` where there is none.
pub fn read_orderbook_meta(
    min_order_size: &Option<String>,
    tick_size: &Option<String>,
    neg_risk: Option<bool>,
    last_bid: &Option<String>,
    last_ask: &Option<String>,
) -> (r: OrderbookMeta)
    ensures
        r.min_order_size == (match stored_price(text_of(*min_order_size)) {
            Some(d) => d,
            None => Dec::of(5, 0),
        }),
        r.tick_size == (match stored_price(text_of(*tick_size)) {
            Some(d) => d,
            None => Dec::of(1, 2),
        }),
        r.neg_risk == (neg_risk == Some(true)),
        r.best_bid == stored_price(text_of(*last_bid)),
        r.best_ask == stored_price(text_of(*last_ask)),
{
    OrderbookMeta {
        min_order_size: match read_price(min_order_size) {
            Some(d) => d,
            None => Dec::new(5, 0),
        },
        tick_size: match read_price(tick_size) {
            Some(d) => d,
            None => Dec::new(1, 2),
        },
        neg_risk: match neg_risk {
            Some(flag) => flag,
            None => false,
        },
        best_bid: read_price(last_bid),
        best_ask: read_price(last_ask),
    }
}

/// The text of the price of the last level of a list in a message.
pub open spec fn last_level_price(body: Seq<char>, list: Seq<char>) -> Option<Seq<char>> {
    match json_length(body, list) {
        Some(n) => if n > 0 {
            json_text(body, element_pointer(list, (n - 1) as nat, "/price"@))
        } else {
            None
        },
        None => None,
    }
}

/// Reads the text of the price of the last level of a list in a message.
fn read_last_price(body: &str, list: &str) -> (r: Option<String>)
    ensures
        text_of(r) == last_level_price(body@, list@),
{
    match length_at(body, list) {
        Some(n) => {
            if n == 0 {
                return None;
            }
            text_at(body, pointer_to(list, n - 1, "/price").as_str())
        },
        None => None,
    }
}

/// Reads the parameters of a market from the answer that holds its book; nothing
/// where the answer is no JSON.
pub fn read_book_message(body: &str) -> (r: Option<OrderbookMeta>)
    ensures
        r is Some <==> json_valid(body@),
        r matches Some(meta) ==> {
            &&& meta.min_order_size == (match stored_price(json_text(body@, "/min_order_size"@)) {
                Some(d) => d,
                None => Dec::of(5, 0),
            })
            &&& meta.tick_size == (match stored_price(json_text(body@, "/tick_size"@)) {
                Some(d) => d,
                None => Dec::of(1, 2),
            })
            &&& meta.neg_risk == (json_flag(body@, "/neg_risk"@) == Some(true))
            &&& meta.best_bid == stored_price(last_level_price(body@, "/bids"@))
            &&& meta.best_ask == stored_price(last_level_price(body@, "/asks"@))
        },
{
    if !is_json(body) {
        return None;
    }
    Some(
        read_orderbook_meta(
            &text_at(body, "/min_order_size"),
            &text_at(body, "/tick_size"),
            flag_at(body, "/neg_risk"),
            &read_last_price(body, "/bids"),
            &read_last_price(body, "/asks"),
        ),
    )
}

/// The positions with the market parameters of a token entered in its first
/// position.
pub open spec fn with_meta(
    positions: Seq<TrackedPosition>,
    token: Seq<char>,
    meta: OrderbookMeta,
) -> Seq<TrackedPosition> {
    match first_of_token(models(positions), token) {
        Some(i) => positions.update(
            i,
            TrackedPosition {
                min_order_size: Some(meta.min_order_size),
                tick_size: Some(meta.tick_size),
                neg_risk: Some(meta.neg_risk),
                ..positions[i]
            },
        ),
        None => positions,
    }
}

/// Enters the market parameters of a token.
pub fn apply_meta(positions: &mut Vec<TrackedPosition>, token: &String, meta: OrderbookMeta)
    ensures
        final(positions)@ == with_meta(old(positions)@, token@, meta),
{
    if let Some(i) = find_token(positions, token) {
        positions[i].min_order_size = Some(meta.min_order_size);
        positions[i].tick_size = Some(meta.tick_size);
        positions[i].neg_risk = Some(meta.neg_risk);
        assert(positions@ =~= with_meta(old(positions)@, token@, meta));
    }
}

// ---------------------------------------------------------------------------
// Laws
// ---------------------------------------------------------------------------

/// A scan keeps the triggers, the status and the counts of every watched
/// position that the wallet still holds.
pub proof fn law_scan_keeps_triggers(p: PositionModel, raw: RawPosition)
    requires
        p.status is Active,
    ensures
        updated_position(p, raw).sl_price == p.sl_price,
        updated_position(p, raw).tp_price == p.tp_price,
        updated_position(p, raw).status == p.status,
        updated_position(p, raw).sl_trigger_count == p.sl_trigger_count,
        updated_position(p, raw).tp_trigger_count == p.tp_trigger_count,
        updated_position(p, raw).token_id == p.token_id,
{
}

/// A position bought back after a sale is watched again and has no triggers.
pub proof fn law_reentry_starts_afresh(p: PositionModel, raw: RawPosition)
    requires
        reenters(p.status),
        amount(raw.size)@ > 0,
    ensures
        updated_position(p, raw).status is Active,
        updated_position(p, raw).sl_price is None,
        updated_position(p, raw).tp_price is None,
        updated_position(p, raw).exit_pnl is None,
{
}

/// Appending sold positions leaves the positions before them as they are, and
/// appends sold ones only.
proof fn lemma_with_sold_extends(positions: Seq<PositionModel>, known: Seq<PositionModel>)
    ensures
        with_sold(positions, known).len() >= positions.len(),
        with_sold(positions, known).take(positions.len() as int) =~= positions,
        forall|j: int|
            positions.len() <= j < with_sold(positions, known).len() ==> (
            #[trigger] with_sold(positions, known)[j]).status is Sold,
    decreases known.len(),
{
    if known.len() > 0 {
        lemma_with_sold_extends(positions, known.drop_last());
    }
}

/// After a scan every watched position is one that the wallet reports with
/// shares; nothing else is watched.
pub proof fn law_scan_watches_only_reported(
    reports: Seq<RawPosition>,
    known: Seq<PositionModel>,
    saved: Seq<SavedTriggers>,
    j: int,
)
    requires
        0 <= j < merged(reports, known, saved).len(),
        !(merged(reports, known, saved)[j].status is Sold),
    ensures
        exists|i: int|
            0 <= i < reports.len() && amount((#[trigger] reports[i]).size)@ > 0 && merged(
                reports,
                known,
                saved,
            )[j] == merged_position(reports[i], known, saved),
{
    let active = picked(reports, merged_report(known, saved));
    lemma_with_sold_extends(active, known);
    assert(merged(reports, known, saved).take(active.len() as int)[j] == active[j]);
    lemma_picked_from(reports, known, saved, j);
}

/// Every merged report comes from a report with shares.
proof fn lemma_picked_from(
    reports: Seq<RawPosition>,
    known: Seq<PositionModel>,
    saved: Seq<SavedTriggers>,
    j: int,
)
    requires
        0 <= j < picked(reports, merged_report(known, saved)).len(),
    ensures
        exists|i: int|
            0 <= i < reports.len() && amount((#[trigger] reports[i]).size)@ > 0 && picked(
                reports,
                merged_report(known, saved),
            )[j] == merged_position(reports[i], known, saved),
    decreases reports.len(),
{
    if reports.len() > 0 {
        let before = reports.drop_last();
        let pick = merged_report(known, saved);
        if j < picked(before, pick).len() {
            lemma_picked_from(before, known, saved, j);
            let i = choose|i: int|
                0 <= i < before.len() && amount((#[trigger] before[i]).size)@ > 0 && picked(
                    before,
                    pick,
                )[j] == merged_position(before[i], known, saved);
            assert(reports[i] == before[i]);
        } else {
            assert(amount(reports[reports.len() - 1].size)@ > 0);
        }
    }
}

/// A sold position stays shown after a scan: its token is among the positions.
pub proof fn law_sold_positions_stay(
    reports: Seq<RawPosition>,
    known: Seq<PositionModel>,
    saved: Seq<SavedTriggers>,
    k: int,
)
    requires
        0 <= k < known.len(),
        known[k].status is Sold,
    ensures
        first_of_token(merged(reports, known, saved), known[k].token_id) is Some,
{
    lemma_sold_stays(picked(reports, merged_report(known, saved)), known, k);
}

/// A token that is there stays there when a position is appended.
proof fn lemma_token_stays(positions: Seq<PositionModel>, p: PositionModel, token: Seq<char>)
    ensures
        first_of_token(positions, token) is Some ==> first_of_token(positions.push(p), token)
            is Some,
        p.token_id == token ==> first_of_token(positions.push(p), token) is Some,
{
    assert(positions.push(p).drop_last() =~= positions);
}

/// Sold tokens are among the positions once they have been gone through.
proof fn lemma_sold_stays(positions: Seq<PositionModel>, known: Seq<PositionModel>, k: int)
    requires
        0 <= k < known.len(),
        known[k].status is Sold,
    ensures
        first_of_token(with_sold(positions, known), known[k].token_id) is Some,
    decreases known.len(),
{
    let before = with_sold(positions, known.drop_last());
    let token = known[k].token_id;
    lemma_token_stays(before, known.last(), token);
    if k < known.len() - 1 {
        lemma_sold_stays(positions, known.drop_last(), k);
    }
}

/// Triggers that were saved for a token, as the only entry for it, are the ones
/// its position has after a restart.
pub proof fn law_saved_triggers_survive_restart(
    raw: RawPosition,
    saved: Seq<SavedTriggers>,
    k: int,
)
    requires
        0 <= k < saved.len(),
        saved[k].token_id@ == raw.asset@,
        forall|j: int|
            0 <= j < saved.len() && j != k ==> (#[trigger] saved[j]).token_id@ != raw.asset@,
    ensures
        restored_by_all(new_position(raw), saved).sl_price == saved[k].sl_price,
        restored_by_all(new_position(raw), saved).tp_price == saved[k].tp_price,
        restored(new_position(raw), saved).sl_price == saved[k].sl_price,
        restored(new_position(raw), saved).tp_price == saved[k].tp_price,
{
    lemma_last_entry_counts(new_position(raw), saved, k);
    lemma_first_entry_counts(saved, raw.asset@, k);
}

/// The last entry of a token is the one that counts.
proof fn lemma_last_entry_counts(p: PositionModel, saved: Seq<SavedTriggers>, k: int)
    requires
        0 <= k < saved.len(),
        saved[k].token_id@ == p.token_id,
        forall|j: int|
            k < j < saved.len() ==> (#[trigger] saved[j]).token_id@ != p.token_id,
    ensures
        restored_by_all(p, saved).sl_price == saved[k].sl_price,
        restored_by_all(p, saved).tp_price == saved[k].tp_price,
    decreases saved.len(),
{
    if k < saved.len() - 1 {
        assert(saved.last() == saved[saved.len() - 1]);
        lemma_last_entry_counts(p, saved.drop_last(), k);
    }
}

/// The first entry of a token is the one that is found.
proof fn lemma_first_entry_counts(saved: Seq<SavedTriggers>, token: Seq<char>, k: int)
    requires
        0 <= k < saved.len(),
        saved[k].token_id@ == token,
        forall|j: int| 0 <= j < k ==> (#[trigger] saved[j]).token_id@ != token,
    ensures
        saved_for(saved, token) == Some(saved[k]),
    decreases saved.len(),
{
    if k > 0 {
        let rest = saved.skip(1);
        assert(rest[k - 1] == saved[k]);
        assert forall|j: int| 0 <= j < k - 1 implies (#[trigger] rest[j]).token_id@ != token by {
            assert(rest[j] == saved[j + 1]);
        }
        lemma_first_entry_counts(rest, token, k - 1);
    }
}

/// An amount is the number that is reported, as a number or as the text of one;
/// anything else counts as zero.
pub proof fn law_amounts_are_as_reported(v: RawAmount)
    ensures
        v matches RawAmount::Number(Some(d)) ==> amount(v) == d,
        v matches RawAmount::Number(None) ==> amount(v) == Dec::of(0, 0),
        v matches RawAmount::Text(s) ==> (Dec::spec_parse(s@) is Some ==> Some(amount(v))
            == Dec::spec_parse(s@)) && (Dec::spec_parse(s@) is None ==> amount(v) == Dec::of(0, 0)),
        v is Other ==> amount(v) == Dec::of(0, 0),
{
}

/// A token seen for the first time is watched as it is reported: with the
/// reported shares, average price and price, under its own token and market, and
/// without triggers or anything learnt later.
pub proof fn law_new_position_is_as_reported(raw: RawPosition)
    ensures
        new_position(raw).token_id == raw.asset@,
        new_position(raw).condition_id == raw.condition_id@,
        new_position(raw).shares == amount(raw.size),
        new_position(raw).entry_price == amount(raw.avg_price),
        amount(raw.cur_price)@ > 0 ==> new_position(raw).current_bid == Some(amount(raw.cur_price)),
        amount(raw.cur_price)@ <= 0 ==> new_position(raw).current_bid is None,
        raw.title@.len() > 0 ==> new_position(raw).market_title == raw.title@,
        raw.title@.len() == 0 && encode_utf8(raw.market@).len() >= 12
            ==> new_position(raw).market_title == "Market "@ + decode_utf8(
            encode_utf8(raw.market@).subrange(0, 12),
        ),
        raw.title@.len() == 0 && encode_utf8(raw.market@).len() < 12
            ==> new_position(raw).market_title == "Market "@ + raw.market@,
        raw.outcome@.len() > 0 ==> new_position(raw).outcome == raw.outcome@,
        raw.outcome@.len() == 0 ==> new_position(raw).outcome == "Unknown"@,
        new_position(raw).status is Active,
        new_position(raw).current_ask is None,
        new_position(raw).sl_price is None,
        new_position(raw).tp_price is None,
        new_position(raw).last_price_update is None,
        new_position(raw).exit_pnl is None,
        new_position(raw).min_order_size is None,
        new_position(raw).tick_size is None,
        new_position(raw).neg_risk is None,
        new_position(raw).consensus is None,
        new_position(raw).sl_trigger_count == 0,
        new_position(raw).tp_trigger_count == 0,
{
    if raw.title@.len() == 0 && encode_utf8(raw.market@).len() < 12 {
        encode_utf8_decode_utf8(raw.market@);
        assert(encode_utf8(raw.market@).subrange(0, market_name_end(raw.market@)) =~= encode_utf8(
            raw.market@,
        ));
    }
}

/// A known position takes over what is reported: the shares always, the average
/// price where it is positive, title and outcome where there is one, and the
/// price where no bid is known yet; of its own it keeps token, market, ask,
/// counts and what was learnt of the market.
pub proof fn law_known_position_takes_over_the_report(p: PositionModel, raw: RawPosition)
    ensures
        updated_position(p, raw).shares == amount(raw.size),
        amount(raw.avg_price)@ > 0 ==> updated_position(p, raw).entry_price == amount(
            raw.avg_price,
        ),
        amount(raw.avg_price)@ <= 0 ==> updated_position(p, raw).entry_price == p.entry_price,
        raw.title@.len() > 0 ==> updated_position(p, raw).market_title == raw.title@,
        raw.title@.len() == 0 ==> updated_position(p, raw).market_title == p.market_title,
        raw.outcome@.len() > 0 ==> updated_position(p, raw).outcome == raw.outcome@,
        raw.outcome@.len() == 0 ==> updated_position(p, raw).outcome == p.outcome,
        updated_position(p, raw).token_id == p.token_id,
        updated_position(p, raw).condition_id == p.condition_id,
        updated_position(p, raw).last_price_update == p.last_price_update,
        updated_position(p, raw).min_order_size == p.min_order_size,
        updated_position(p, raw).tick_size == p.tick_size,
        updated_position(p, raw).neg_risk == p.neg_risk,
        updated_position(p, raw).consensus == p.consensus,
        updated_position(p, raw).sl_trigger_count == p.sl_trigger_count,
        updated_position(p, raw).tp_trigger_count == p.tp_trigger_count,
{
}

/// A known position that was not left keeps status, triggers, profit, bid and
/// ask; only a missing bid is filled in from a positive reported price.
pub proof fn law_held_position_keeps_its_life(p: PositionModel, raw: RawPosition)
    requires
        p.status is Active || p.status is Selling || amount(raw.size)@ <= 0,
    ensures
        updated_position(p, raw).status == p.status,
        updated_position(p, raw).sl_price == p.sl_price,
        updated_position(p, raw).tp_price == p.tp_price,
        updated_position(p, raw).exit_pnl == p.exit_pnl,
        updated_position(p, raw).current_ask == p.current_ask,
        p.current_bid is Some ==> updated_position(p, raw).current_bid == p.current_bid,
        p.current_bid is None && amount(raw.cur_price)@ > 0 ==> updated_position(p, raw).current_bid
            == Some(amount(raw.cur_price)),
        p.current_bid is None && amount(raw.cur_price)@ <= 0 ==> updated_position(
            p,
            raw,
        ).current_bid is None,
{
}

/// A position that was left in any way, and of which the wallet holds shares
/// again, is watched again, without triggers, profit and old prices.
pub proof fn law_left_position_is_watched_again(p: PositionModel, raw: RawPosition)
    requires
        p.status is Sold || p.status is SLTriggered || p.status is TPTriggered || p.status is Error,
        amount(raw.size)@ > 0,
    ensures
        updated_position(p, raw).status is Active,
        updated_position(p, raw).sl_price is None,
        updated_position(p, raw).tp_price is None,
        updated_position(p, raw).exit_pnl is None,
        updated_position(p, raw).current_ask is None,
        amount(raw.cur_price)@ > 0 ==> updated_position(p, raw).current_bid == Some(
            amount(raw.cur_price),
        ),
        amount(raw.cur_price)@ <= 0 ==> updated_position(p, raw).current_bid is None,
{
}

/// After a scan every report with shares has its position, under its token and
/// with the reported number of shares, whether the token was known before or not;
/// the average price is the reported one where that is positive.
pub proof fn law_scan_shows_every_holding(
    reports: Seq<RawPosition>,
    known: Seq<PositionModel>,
    saved: Seq<SavedTriggers>,
    i: int,
) -> (j: int)
    requires
        0 <= i < reports.len(),
        amount(reports[i].size)@ > 0,
    ensures
        0 <= j < merged(reports, known, saved).len(),
        merged(reports, known, saved)[j].token_id == reports[i].asset@,
        merged(reports, known, saved)[j].shares == amount(reports[i].size),
        amount(reports[i].avg_price)@ > 0 ==> merged(reports, known, saved)[j].entry_price
            == amount(reports[i].avg_price),
        (forall|k: int|
            0 <= k < known.len() ==> (#[trigger] known[k]).token_id != reports[i].asset@) ==> merged(
            reports,
            known,
            saved,
        )[j].entry_price == amount(reports[i].avg_price) && merged(reports, known, saved)[j].status
            is Active,
{
    let pick = merged_report(known, saved);
    let active = picked(reports, pick);
    let sources = law_picking_is_exact(reports, pick);
    assert(pick(i, reports[i]) is Some);
    let j = choose|j: int| 0 <= j < sources.len() && sources[j] == i;
    assert(pick(sources[j], reports[sources[j]]) == Some(active[j]));
    lemma_with_sold_extends(active, known);
    assert(merged(reports, known, saved).take(active.len() as int)[j] == active[j]);
    lemma_first_of_token(known, reports[i].asset@);
    j
}

/// A scan puts the reports with shares in the order of the reports, one position
/// for each, before everything else.
pub proof fn law_scan_keeps_the_order_of_reports(
    reports: Seq<RawPosition>,
    known: Seq<PositionModel>,
    saved: Seq<SavedTriggers>,
) -> (sources: Seq<int>)
    ensures
        sources.len() <= merged(reports, known, saved).len(),
        forall|k: int|
            0 <= k < sources.len() ==> 0 <= #[trigger] sources[k] < reports.len() && amount(
                reports[sources[k]].size,
            )@ > 0 && merged(reports, known, saved)[k].token_id == reports[sources[k]].asset@,
        forall|j: int, k: int|
            0 <= j < k < sources.len() ==> #[trigger] sources[j] < #[trigger] sources[k],
        forall|i: int|
            0 <= i < reports.len() && amount((#[trigger] reports[i]).size)@ > 0
                ==> sources.contains(i),
        forall|k: int|
            sources.len() <= k < merged(reports, known, saved).len() ==> (#[trigger] merged(
                reports,
                known,
                saved,
            )[k]).status is Sold,
{
    let pick = merged_report(known, saved);
    let active = picked(reports, pick);
    let sources = law_picking_is_exact(reports, pick);
    lemma_with_sold_extends(active, known);
    assert forall|k: int| 0 <= k < sources.len() implies 0 <= #[trigger] sources[k]
        < reports.len() && amount(reports[sources[k]].size)@ > 0 && merged(
        reports,
        known,
        saved,
    )[k].token_id == reports[sources[k]].asset@ by {
        assert(pick(sources[k], reports[sources[k]]) == Some(active[k]));
        assert(merged(reports, known, saved).take(active.len() as int)[k] == active[k]);
        lemma_first_of_token(known, reports[sources[k]].asset@);
    }
    assert forall|i: int| 0 <= i < reports.len() && amount((#[trigger] reports[i]).size)@ > 0 implies
        sources.contains(i) by {
        assert(pick(i, reports[i]) is Some);
    }
    sources
}

/// A watched position that the wallet still reports keeps its triggers through a
/// scan.
pub proof fn law_scan_keeps_triggers_of_holdings(
    reports: Seq<RawPosition>,
    known: Seq<PositionModel>,
    saved: Seq<SavedTriggers>,
    i: int,
    k: int,
) -> (j: int)
    requires
        0 <= i < reports.len(),
        amount(reports[i].size)@ > 0,
        0 <= k < known.len(),
        known[k].token_id == reports[i].asset@,
        forall|m: int| 0 <= m < k ==> (#[trigger] known[m]).token_id != reports[i].asset@,
        known[k].status is Active,
    ensures
        0 <= j < merged(reports, known, saved).len(),
        merged(reports, known, saved)[j].token_id == known[k].token_id,
        merged(reports, known, saved)[j].sl_price == known[k].sl_price,
        merged(reports, known, saved)[j].tp_price == known[k].tp_price,
        merged(reports, known, saved)[j].status is Active,
        merged(reports, known, saved)[j].sl_trigger_count == known[k].sl_trigger_count,
        merged(reports, known, saved)[j].tp_trigger_count == known[k].tp_trigger_count,
        merged(reports, known, saved)[j].shares == amount(reports[i].size),
{
    let pick = merged_report(known, saved);
    let active = picked(reports, pick);
    let sources = law_picking_is_exact(reports, pick);
    assert(pick(i, reports[i]) is Some);
    let j = choose|j: int| 0 <= j < sources.len() && sources[j] == i;
    assert(pick(sources[j], reports[sources[j]]) == Some(active[j]));
    lemma_with_sold_extends(active, known);
    assert(merged(reports, known, saved).take(active.len() as int)[j] == active[j]);
    lemma_first_of_token(known, reports[i].asset@);
    j
}

/// A token seen for the first time gets the triggers of the first entry saved for
/// it, and none where nothing is saved; nothing else of it changes.
pub proof fn law_saved_triggers_are_restored(p: PositionModel, saved: Seq<SavedTriggers>)
    ensures
        forall|k: int|
            0 <= k < saved.len() && (#[trigger] saved[k]).token_id@ == p.token_id && (forall|j: int|
                0 <= j < k ==> (#[trigger] saved[j]).token_id@ != p.token_id) ==> restored(p, saved)
                == (PositionModel { sl_price: saved[k].sl_price, tp_price: saved[k].tp_price, ..p }),
        (forall|k: int| 0 <= k < saved.len() ==> (#[trigger] saved[k]).token_id@ != p.token_id)
            ==> restored(p, saved) == p,
{
    assert forall|k: int|
        0 <= k < saved.len() && (#[trigger] saved[k]).token_id@ == p.token_id && (forall|j: int|
            0 <= j < k ==> (#[trigger] saved[j]).token_id@ != p.token_id) implies restored(p, saved)
        == (PositionModel { sl_price: saved[k].sl_price, tp_price: saved[k].tp_price, ..p }) by {
        lemma_first_entry_counts(saved, p.token_id, k);
    }
    if forall|k: int| 0 <= k < saved.len() ==> (#[trigger] saved[k]).token_id@ != p.token_id {
        lemma_no_entry(saved, p.token_id);
    }
}

/// Where no entry is for a token, none is found.
proof fn lemma_no_entry(saved: Seq<SavedTriggers>, token: Seq<char>)
    requires
        forall|k: int| 0 <= k < saved.len() ==> (#[trigger] saved[k]).token_id@ != token,
    ensures
        saved_for(saved, token) is None,
    decreases saved.len(),
{
    if saved.len() > 0 {
        let rest = saved.skip(1);
        assert forall|k: int| 0 <= k < rest.len() implies (#[trigger] rest[k]).token_id@ != token by {
            assert(rest[k] == saved[k + 1]);
        }
        lemma_no_entry(rest, token);
    }
}

/// At the start of a session a position gets the triggers of the last entry saved
/// for its token; nothing else of it changes.
pub proof fn law_saved_triggers_are_restored_at_start(
    p: PositionModel,
    saved: Seq<SavedTriggers>,
    k: int,
)
    requires
        0 <= k < saved.len(),
        saved[k].token_id@ == p.token_id,
        forall|j: int| k < j < saved.len() ==> (#[trigger] saved[j]).token_id@ != p.token_id,
    ensures
        restored_by_all(p, saved) == (PositionModel {
            sl_price: saved[k].sl_price,
            tp_price: saved[k].tp_price,
            ..p
        }),
    decreases saved.len(),
{
    if k < saved.len() - 1 {
        assert(saved[saved.len() - 1].token_id@ != p.token_id);
        law_saved_triggers_are_restored_at_start(p, saved.drop_last(), k);
    }
}

/// At the start of a session a position whose token has no saved entry stays as it
/// is.
pub proof fn law_without_saved_triggers_nothing_changes(
    p: PositionModel,
    saved: Seq<SavedTriggers>,
)
    requires
        forall|k: int| 0 <= k < saved.len() ==> (#[trigger] saved[k]).token_id@ != p.token_id,
    ensures
        restored_by_all(p, saved) == p,
    decreases saved.len(),
{
    if saved.len() > 0 {
        assert(saved[saved.len() - 1].token_id@ != p.token_id);
        law_without_saved_triggers_nothing_changes(p, saved.drop_last());
    }
}

/// The sold positions that a scan appends are known ones, unchanged, and no token
/// that is there already is appended.
pub proof fn law_sold_positions_are_appended_unchanged(
    positions: Seq<PositionModel>,
    known: Seq<PositionModel>,
    j: int,
)
    requires
        positions.len() <= j < with_sold(positions, known).len(),
    ensures
        known.contains(with_sold(positions, known)[j]),
        forall|i: int|
            0 <= i < j ==> (#[trigger] with_sold(positions, known)[i]).token_id != with_sold(
                positions,
                known,
            )[j].token_id,
    decreases known.len(),
{
    if known.len() > 0 {
        let earlier = known.drop_last();
        let before = with_sold(positions, earlier);
        let after = with_sold(positions, known);
        assert(known.last() == known[known.len() - 1]);
        if j < before.len() {
            law_sold_positions_are_appended_unchanged(positions, earlier, j);
            let k = choose|k: int| 0 <= k < earlier.len() && earlier[k] == before[j];
            assert(known[k] == after[j]);
            assert forall|i: int| 0 <= i < j implies (#[trigger] after[i]).token_id
                != after[j].token_id by {
                assert(after[i] == before[i]);
            }
        } else {
            lemma_first_of_token(before, known.last().token_id);
            assert forall|i: int| 0 <= i < j implies (#[trigger] after[i]).token_id
                != after[j].token_id by {
                assert(after[i] == before[i]);
            }
        }
    }
}

/// At the start of a session there is one position for each report with shares,
/// in the order of the reports and as it is reported, and no other.
pub proof fn law_session_starts_with_the_holdings(reports: Seq<RawPosition>) -> (sources: Seq<int>)
    ensures
        sources.len() == picked(reports, first_report()).len(),
        forall|k: int|
            0 <= k < sources.len() ==> 0 <= #[trigger] sources[k] < reports.len() && ({
                let p = picked(reports, first_report())[k];
                let raw = reports[sources[k]];
                &&& amount(raw.size)@ > 0
                &&& p.token_id == raw.asset@
                &&& p.shares == amount(raw.size)
                &&& p.entry_price == amount(raw.avg_price)
                &&& p.status is Active
                &&& p.sl_price is None
                &&& p.tp_price is None
            }),
        forall|j: int, k: int|
            0 <= j < k < sources.len() ==> #[trigger] sources[j] < #[trigger] sources[k],
        forall|i: int|
            0 <= i < reports.len() && amount((#[trigger] reports[i]).size)@ > 0
                ==> sources.contains(i),
{
    let pick = first_report();
    let sources = law_picking_is_exact(reports, pick);
    assert forall|k: int| 0 <= k < sources.len() implies 0 <= #[trigger] sources[k]
        < reports.len() && ({
        let p = picked(reports, first_report())[k];
        let raw = reports[sources[k]];
        &&& amount(raw.size)@ > 0
        &&& p.token_id == raw.asset@
        &&& p.shares == amount(raw.size)
        &&& p.entry_price == amount(raw.avg_price)
        &&& p.status is Active
        &&& p.sl_price is None
        &&& p.tp_price is None
    }) by {
        assert(pick(sources[k], reports[sources[k]]) == Some(picked(reports, pick)[k]));
    }
    assert forall|i: int| 0 <= i < reports.len() && amount((#[trigger] reports[i]).size)@ > 0 implies
        sources.contains(i) by {
        assert(pick(i, reports[i]) is Some);
    }
    sources
}

/// A position counts as bought back exactly where its token was left and is
/// reported with shares again; it is told with its title and the status it had.
pub proof fn law_reentries_are_of_left_positions(
    known: Seq<PositionModel>,
    raw: RawPosition,
    i: int,
    k: int,
)
    requires
        0 <= k < known.len(),
        known[k].token_id == raw.asset@,
        forall|m: int| 0 <= m < k ==> (#[trigger] known[m]).token_id != raw.asset@,
    ensures
        amount(raw.size)@ <= 0 ==> reentry(known)(i, raw) is None,
        known[k].status is Active || known[k].status is Selling ==> reentry(known)(i, raw) is None,
        amount(raw.size)@ > 0 && !(known[k].status is Active) && !(known[k].status is Selling)
            ==> reentry(known)(i, raw) == Some(
            (
                if raw.title@.len() > 0 {
                    raw.title@
                } else {
                    known[k].market_title
                },
                known[k].status,
            ),
        ),
{
    lemma_first_of_token(known, raw.asset@);
}

/// Market parameters are fetched for every position that has none and is not
/// sold; prices are streamed, and snapshots kept, for every watched position; all
/// for no others.
pub proof fn law_what_is_fetched_for_a_position(i: int, p: TrackedPosition)
    ensures
        p.min_order_size is None && !(p.status is Sold) ==> lacks_meta()(i, p) == Some(p.token_id),
        p.min_order_size is Some || p.status is Sold ==> lacks_meta()(i, p) is None,
        p.status is Active ==> watched_token()(i, p) == Some(p.token_id) && watched_position()(i, p)
            == Some(p),
        !(p.status is Active) ==> watched_token()(i, p) is None && watched_position()(i, p) is None,
{
}

/// Market parameters are entered in the first position of their token, and
/// nothing else changes.
pub proof fn law_meta_goes_to_the_first_of_its_token(
    positions: Seq<TrackedPosition>,
    token: Seq<char>,
    meta: OrderbookMeta,
    i: int,
)
    requires
        0 <= i < positions.len(),
    ensures
        with_meta(positions, token, meta).len() == positions.len(),
        positions[i].token_id@ == token && (forall|j: int|
            0 <= j < i ==> (#[trigger] positions[j]).token_id@ != token) ==> with_meta(
            positions,
            token,
            meta,
        )[i] == (TrackedPosition {
            min_order_size: Some(meta.min_order_size),
            tick_size: Some(meta.tick_size),
            neg_risk: Some(meta.neg_risk),
            ..positions[i]
        }),
        positions[i].token_id@ != token || (exists|j: int|
            0 <= j < i && (#[trigger] positions[j]).token_id@ == token) ==> with_meta(
            positions,
            token,
            meta,
        )[i] == positions[i],
{
    lemma_first_of_token(models(positions), token);
    assert forall|j: int| 0 <= j < positions.len() implies (#[trigger] models(
        positions,
    )[j]).token_id == positions[j].token_id@ by {}
    if positions[i].token_id@ == token {
        assert(models(positions)[i].token_id == token);
    }
    if exists|j: int| 0 <= j < i && (#[trigger] positions[j]).token_id@ == token {
        let j = choose|j: int| 0 <= j < i && (#[trigger] positions[j]).token_id@ == token;
        assert(models(positions)[j].token_id == token);
    }
}

/// The best price of a list of levels in a message is the text at the last level,
/// and there is none for an empty or missing list.
pub proof fn law_best_price_is_of_the_last_level(body: Seq<char>, list: Seq<char>)
    ensures
        json_length(body, list) is None ==> last_level_price(body, list) is None,
        json_length(body, list) matches Some(n) ==> (n == 0 ==> last_level_price(body, list)
            is None) && (n > 0 ==> last_level_price(body, list) == json_text(
            body,
            element_pointer(list, (n - 1) as nat, "/price"@),
        )),
{
}

/// The wallet is scanned every thirty seconds, and consensus figures are fetched
/// again when they are 55 seconds old.
pub proof fn law_wallet_is_scanned_every_thirty_seconds()
    ensures
        SCAN_INTERVAL_MS == 30_000,
        CONSENSUS_MAX_AGE_MS == 55_000,
{
}

/// A scan brings the first known position of a reported token up to date, and
/// gives a token that is not known the triggers saved first for it.
pub proof fn law_scan_updates_the_known_and_restores_the_new(
    reports: Seq<RawPosition>,
    known: Seq<PositionModel>,
    saved: Seq<SavedTriggers>,
    i: int,
    k: int,
) -> (j: int)
    requires
        0 <= i < reports.len(),
        amount(reports[i].size)@ > 0,
    ensures
        0 <= j < merged(reports, known, saved).len(),
        0 <= k < known.len() && known[k].token_id == reports[i].asset@ && (forall|m: int|
            0 <= m < k ==> (#[trigger] known[m]).token_id != reports[i].asset@) ==> merged(
            reports,
            known,
            saved,
        )[j] == updated_position(known[k], reports[i]),
        (forall|m: int|
            0 <= m < known.len() ==> (#[trigger] known[m]).token_id != reports[i].asset@) ==> {
            let p = merged(reports, known, saved)[j];
            let fresh = new_position(reports[i]);
            &&& 0 <= k < saved.len() && saved[k].token_id@ == reports[i].asset@ && (forall|m: int|
                0 <= m < k ==> (#[trigger] saved[m]).token_id@ != reports[i].asset@) ==> p == (
            PositionModel { sl_price: saved[k].sl_price, tp_price: saved[k].tp_price, ..fresh })
            &&& (forall|m: int|
                0 <= m < saved.len() ==> (#[trigger] saved[m]).token_id@ != reports[i].asset@)
                ==> p == fresh
        },
{
    let pick = merged_report(known, saved);
    let active = picked(reports, pick);
    let sources = law_picking_is_exact(reports, pick);
    assert(pick(i, reports[i]) is Some);
    let j = choose|j: int| 0 <= j < sources.len() && sources[j] == i;
    assert(pick(sources[j], reports[sources[j]]) == Some(active[j]));
    lemma_with_sold_extends(active, known);
    assert(merged(reports, known, saved).take(active.len() as int)[j] == active[j]);
    lemma_first_of_token(known, reports[i].asset@);
    law_saved_triggers_are_restored(new_position(reports[i]), saved);
    j
}

/// A position that was bought back is told with its title and the status it had.
pub proof fn law_reentries_are_told_as_they_are(list: Seq<Reentry>, i: int)
    requires
        0 <= i < list.len(),
    ensures
        reentry_models(list).len() == list.len(),
        reentry_models(list)[i] == (list[i].market_title@, list[i].from@),
{
}

/// A position is watched again exactly where it was sold, has triggered, or has
/// come to an error.
pub proof fn law_which_positions_are_watched_again(status: StatusModel)
    ensures
        reenters(status) <==> !(status is Active) && !(status is Selling),
{
}

} // verus!
