//! Positions that the manager watches.

use crate::decimal::{lemma_literal, Dec};
use vstd::prelude::*;
use vstd::utf8::*;

verus! {

/// Where a position stands in its life.
#[derive(Debug)]
pub enum PositionStatus {
    Active,
    SLTriggered,
    TPTriggered,
    Selling,
    Sold,
    Error(String),
}

impl PositionStatus {
    /// The text shown for a status.
    pub open spec fn spec_text(self) -> Seq<char> {
        match self {
            PositionStatus::Active => "Active"@,
            PositionStatus::SLTriggered => "SL Hit"@,
            PositionStatus::TPTriggered => "TP Hit"@,
            PositionStatus::Selling => "Selling..."@,
            PositionStatus::Sold => "SOLD"@,
            PositionStatus::Error(e) => "ERR: "@ + e@,
        }
    }

    /// The text shown for this status.
    pub fn to_text(&self) -> (r: String)
        ensures
            r@ == self.spec_text(),
            *self is Active ==> r@ == "Active"@,
            *self is SLTriggered ==> r@ == "SL Hit"@,
            *self is TPTriggered ==> r@ == "TP Hit"@,
            *self is Selling ==> r@ == "Selling..."@,
            *self is Sold ==> r@ == "SOLD"@,
            *self matches PositionStatus::Error(e) ==> r@ == "ERR: "@ + e@,
    {
        match self {
            PositionStatus::Active => "Active".to_owned(),
            PositionStatus::SLTriggered => "SL Hit".to_owned(),
            PositionStatus::TPTriggered => "TP Hit".to_owned(),
            PositionStatus::Selling => "Selling...".to_owned(),
            PositionStatus::Sold => "SOLD".to_owned(),
            PositionStatus::Error(e) => "ERR: ".to_owned().concat(e.as_str()),
        }
    }

    /// A second value of the same status.
    pub fn duplicate(&self) -> (r: PositionStatus)
        ensures
            r == *self,
    {
        match self {
            PositionStatus::Active => PositionStatus::Active,
            PositionStatus::SLTriggered => PositionStatus::SLTriggered,
            PositionStatus::TPTriggered => PositionStatus::TPTriggered,
            PositionStatus::Selling => PositionStatus::Selling,
            PositionStatus::Sold => PositionStatus::Sold,
            PositionStatus::Error(e) => PositionStatus::Error(e.clone()),
        }
    }

    /// Whether the position is watched.
    pub fn is_active(&self) -> (r: bool)
        ensures
            r == (*self is Active),
    {
        match self {
            PositionStatus::Active => true,
            _ => false,
        }
    }

    /// Whether the position has been sold.
    pub fn is_sold(&self) -> (r: bool)
        ensures
            r == (*self is Sold),
    {
        match self {
            PositionStatus::Sold => true,
            _ => false,
        }
    }
}

/// Consensus figures of a market at one moment.  The fields that end in `bits`
/// hold floating-point numbers by their bit patterns.
#[derive(Debug)]
pub struct ConsensusSnapshot {
    pub consensus_pct: i32,
    pub yes_count: i32,
    pub no_count: i32,
    pub total_value_bits: u64,
    pub market_prob_bits: u64,
    pub ml_signal: String,
    pub ml_edge_bits: u64,
    pub ml_confidence: String,
    pub ml_risk_bits: u64,
    pub top_trader_count: i32,
    pub active_trader_count: i32,
    pub timestamp_ms: u64,
}

impl ConsensusSnapshot {
    /// A second value of the same figures.
    pub fn duplicate(&self) -> (r: ConsensusSnapshot)
        ensures
            r == *self,
    {
        ConsensusSnapshot {
            consensus_pct: self.consensus_pct,
            yes_count: self.yes_count,
            no_count: self.no_count,
            total_value_bits: self.total_value_bits,
            market_prob_bits: self.market_prob_bits,
            ml_signal: self.ml_signal.clone(),
            ml_edge_bits: self.ml_edge_bits,
            ml_confidence: self.ml_confidence.clone(),
            ml_risk_bits: self.ml_risk_bits,
            top_trader_count: self.top_trader_count,
            active_trader_count: self.active_trader_count,
            timestamp_ms: self.timestamp_ms,
        }
    }
}

/// Consensus figures at entry and now.
#[derive(Debug)]
pub struct ConsensusData {
    pub entry: ConsensusSnapshot,
    pub current: ConsensusSnapshot,
}

impl ConsensusData {
    /// A second value of the same figures.
    pub fn duplicate(&self) -> (r: ConsensusData)
        ensures
            r == *self,
    {
        ConsensusData { entry: self.entry.duplicate(), current: self.current.duplicate() }
    }
}

/// A position of the wallet with its triggers.
#[derive(Debug)]
pub struct TrackedPosition {
    /// Token of the outcome held.
    pub token_id: String,
    /// Identifier of the market.
    pub condition_id: String,
    /// Market title for people.
    pub market_title: String,
    /// Name of the outcome held.
    pub outcome: String,
    /// Number of shares held.
    pub shares: Dec,
    /// Average entry price.
    pub entry_price: Dec,
    /// Best bid, where one is known.
    pub current_bid: Option<Dec>,
    /// Best ask, where one is known.
    pub current_ask: Option<Dec>,
    /// Stop-loss: sell when the bid is at or below this.
    pub sl_price: Option<Dec>,
    /// Take-profit: sell when the bid is at or above this.
    pub tp_price: Option<Dec>,
    /// Where the position stands.
    pub status: PositionStatus,
    /// When the last price came, in milliseconds.
    pub last_price_update: Option<u64>,
    /// Profit in percent once sold.
    pub exit_pnl: Option<Dec>,
    /// Smallest order the market takes.
    pub min_order_size: Option<Dec>,
    /// Price step of the market.
    pub tick_size: Option<Dec>,
    /// Whether the market is a negative-risk one.
    pub neg_risk: Option<bool>,
    /// Consensus figures, once fetched.
    pub consensus: Option<ConsensusData>,
    /// Consecutive checks in which the bid was at or below the stop-loss.
    pub sl_trigger_count: u32,
    /// Consecutive checks in which the bid was at or above the take-profit.
    pub tp_trigger_count: u32,
}

/// The profit of leaving at `exit` a position entered at `entry`, in percent of
/// the entry price.
pub open spec fn pnl_percent(entry: Dec, exit: Dec) -> Option<Dec> {
    match exit.spec_minus(entry) {
        Some(gain) => match gain.spec_over(entry) {
            Some(ratio) => ratio.spec_times(Dec::of(100, 0)),
            None => None,
        },
        None => None,
    }
}

/// Computes the profit in percent, where the arithmetic can be carried out.
pub fn compute_pnl_percent(entry: Dec, exit: Dec) -> (r: Option<Dec>)
    ensures
        r == pnl_percent(entry, exit),
        exit.exact_with(entry) && exit@ == entry@ && entry@ != 0 ==> r == Some(Dec::of(0, 0)),
        exit.exact_with(entry) && entry@ == 0 ==> r is None,
{
    proof {
        lemma_literal(0, 0);
    }
    match exit.minus(entry) {
        Some(gain) => match gain.over(entry) {
            Some(ratio) => ratio.times(Dec::new(100, 0)),
            None => None,
        },
        None => None,
    }
}

/// A title cut down to `max_len` bytes, with dots where something was cut.
pub open spec fn shortened(title: Seq<char>, max_len: usize) -> Seq<char> {
    if encode_utf8(title).len() <= max_len {
        title
    } else {
        decode_utf8(encode_utf8(title).subrange(0, dots_start(max_len))) + "..."@
    }
}

/// Where the dots of a shortened title stand.
pub open spec fn dots_start(max_len: usize) -> int {
    if max_len < 3 {
        0
    } else {
        max_len - 3
    }
}

impl TrackedPosition {
    /// Whether the position is watched and has a trigger.
    pub open spec fn has_live_trigger(self) -> bool {
        self.status is Active && (self.sl_price is Some || self.tp_price is Some)
    }

    /// A second value of the same position.
    pub fn duplicate(&self) -> (r: TrackedPosition)
        ensures
            r == *self,
    {
        TrackedPosition {
            token_id: self.token_id.clone(),
            condition_id: self.condition_id.clone(),
            market_title: self.market_title.clone(),
            outcome: self.outcome.clone(),
            shares: self.shares,
            entry_price: self.entry_price,
            current_bid: self.current_bid,
            current_ask: self.current_ask,
            sl_price: self.sl_price,
            tp_price: self.tp_price,
            status: self.status.duplicate(),
            last_price_update: self.last_price_update,
            exit_pnl: self.exit_pnl,
            min_order_size: self.min_order_size,
            tick_size: self.tick_size,
            neg_risk: self.neg_risk,
            consensus: match &self.consensus {
                Some(data) => Some(data.duplicate()),
                None => None,
            },
            sl_trigger_count: self.sl_trigger_count,
            tp_trigger_count: self.tp_trigger_count,
        }
    }

    /// The profit in percent at the current bid, where there is a bid and the
    /// entry price is not zero.
    pub open spec fn spec_unrealized_pnl_pct(self) -> Option<Dec> {
        match self.current_bid {
            Some(bid) => if self.entry_price@ == 0 {
                None
            } else {
                pnl_percent(self.entry_price, bid)
            },
            None => None,
        }
    }

    /// Computes the profit in percent at the current bid.
    pub fn unrealized_pnl_pct(&self) -> (r: Option<Dec>)
        ensures
            r == self.spec_unrealized_pnl_pct(),
    {
        match self.current_bid {
            Some(bid) => {
                if self.entry_price.same(Dec::zero()) {
                    None
                } else {
                    compute_pnl_percent(self.entry_price, bid)
                }
            },
            None => None,
        }
    }

    /// The market title for a column of `max_len` bytes.
    pub fn short_title(&self, max_len: usize) -> (r: String)
        requires
            encode_utf8(self.market_title@).len() > max_len ==> is_char_boundary(
                encode_utf8(self.market_title@),
                dots_start(max_len),
            ),
        ensures
            r@ == shortened(self.market_title@, max_len),
            encode_utf8(self.market_title@).len() <= max_len ==> r@ == self.market_title@,
    {
        let title = self.market_title.as_str();
        let bytes: usize = title.as_bytes().len();
        if bytes <= max_len {
            self.market_title.clone()
        } else {
            let cut: usize = if max_len < 3 {
                0
            } else {
                max_len - 3
            };
            let (head, _tail) = title.split_at(cut);
            proof {
                encode_utf8_decode_utf8(head@);
            }
            head.to_owned().concat("...")
        }
    }
}

// ---------------------------------------------------------------------------
// Positions as mathematical values
// ---------------------------------------------------------------------------

/// A status with its text as a sequence of characters.
pub enum StatusModel {
    Active,
    SLTriggered,
    TPTriggered,
    Selling,
    Sold,
    Error(Seq<char>),
}

/// A position with its texts as sequences of characters.
pub struct PositionModel {
    pub token_id: Seq<char>,
    pub condition_id: Seq<char>,
    pub market_title: Seq<char>,
    pub outcome: Seq<char>,
    pub shares: Dec,
    pub entry_price: Dec,
    pub current_bid: Option<Dec>,
    pub current_ask: Option<Dec>,
    pub sl_price: Option<Dec>,
    pub tp_price: Option<Dec>,
    pub status: StatusModel,
    pub last_price_update: Option<u64>,
    pub exit_pnl: Option<Dec>,
    pub min_order_size: Option<Dec>,
    pub tick_size: Option<Dec>,
    pub neg_risk: Option<bool>,
    pub consensus: Option<ConsensusData>,
    pub sl_trigger_count: u32,
    pub tp_trigger_count: u32,
}

impl View for PositionStatus {
    type V = StatusModel;

    open spec fn view(&self) -> StatusModel {
        match *self {
            PositionStatus::Active => StatusModel::Active,
            PositionStatus::SLTriggered => StatusModel::SLTriggered,
            PositionStatus::TPTriggered => StatusModel::TPTriggered,
            PositionStatus::Selling => StatusModel::Selling,
            PositionStatus::Sold => StatusModel::Sold,
            PositionStatus::Error(e) => StatusModel::Error(e@),
        }
    }
}

impl View for TrackedPosition {
    type V = PositionModel;

    open spec fn view(&self) -> PositionModel {
        PositionModel {
            token_id: self.token_id@,
            condition_id: self.condition_id@,
            market_title: self.market_title@,
            outcome: self.outcome@,
            shares: self.shares,
            entry_price: self.entry_price,
            current_bid: self.current_bid,
            current_ask: self.current_ask,
            sl_price: self.sl_price,
            tp_price: self.tp_price,
            status: self.status@,
            last_price_update: self.last_price_update,
            exit_pnl: self.exit_pnl,
            min_order_size: self.min_order_size,
            tick_size: self.tick_size,
            neg_risk: self.neg_risk,
            consensus: self.consensus,
            sl_trigger_count: self.sl_trigger_count,
            tp_trigger_count: self.tp_trigger_count,
        }
    }
}

/// Positions as mathematical values.
pub open spec fn models(positions: Seq<TrackedPosition>) -> Seq<PositionModel> {
    positions.map_values(|p: TrackedPosition| p@)
}

/// The index of the first position of a token.
pub open spec fn first_of_token(positions: Seq<PositionModel>, token: Seq<char>) -> Option<int>
    decreases positions.len(),
{
    if positions.len() == 0 {
        None
    } else {
        match first_of_token(positions.drop_last(), token) {
            Some(i) => Some(i),
            None => if positions.last().token_id == token {
                Some(positions.len() - 1)
            } else {
                None
            },
        }
    }
}

/// What the first position of a token is.
pub proof fn lemma_first_of_token(positions: Seq<PositionModel>, token: Seq<char>)
    ensures
        match first_of_token(positions, token) {
            Some(i) => 0 <= i < positions.len() && positions[i].token_id == token && forall|j: int|
                0 <= j < i ==> (#[trigger] positions[j]).token_id != token,
            None => forall|j: int|
                0 <= j < positions.len() ==> (#[trigger] positions[j]).token_id != token,
        },
    decreases positions.len(),
{
    if positions.len() > 0 {
        let before = positions.drop_last();
        lemma_first_of_token(before, token);
        assert forall|j: int| 0 <= j < before.len() implies positions[j] == before[j] by {}
    }
}

/// Finds the first position of a token.
pub fn find_token(positions: &Vec<TrackedPosition>, token: &String) -> (r: Option<usize>)
    ensures
        match r {
            Some(i) => i < positions@.len() && first_of_token(models(positions@), token@) == Some(
                i as int,
            ),
            None => first_of_token(models(positions@), token@) is None,
        },
{
    let ghost all = models(positions@);
    let mut i: usize = 0;
    proof {
        lemma_first_of_token(all, token@);
    }
    while i < positions.len()
        invariant
            i <= positions@.len(),
            all == models(positions@),
            forall|j: int| 0 <= j < i ==> (#[trigger] all[j]).token_id != token@,
        decreases positions@.len() - i,
    {
        assert(all[i as int] == positions@[i as int]@);
        if positions[i].token_id == *token {
            proof {
                lemma_first_of_token(all, token@);
            }
            return Some(i);
        }
        i += 1;
    }
    proof {
        lemma_first_of_token(all, token@);
    }
    None
}

// ---------------------------------------------------------------------------
// Laws
// ---------------------------------------------------------------------------

/// The profit in percent is what the exit price gains on the entry price, divided
/// by the entry price and multiplied by a hundred; where one of these steps
/// cannot be carried out there is none.
pub proof fn law_profit_is_relative_to_entry(entry: Dec, exit: Dec)
    ensures
        exit.spec_minus(entry) is None ==> pnl_percent(entry, exit) is None,
        forall|gain: Dec|
            exit.spec_minus(entry) == Some(gain) && gain.spec_over(entry) is None ==> (
            #[trigger] gain.spec_over(entry)) is None && pnl_percent(entry, exit) is None,
        forall|gain: Dec, ratio: Dec|
            exit.spec_minus(entry) == Some(gain) && #[trigger] gain.spec_over(entry) == Some(ratio)
                ==> pnl_percent(entry, exit) == #[trigger] ratio.spec_times(Dec::of(100, 0)),
{
}

/// The profit at the current bid is shown exactly where there is a bid and the
/// entry price is not zero, and is that of leaving at the bid.
pub proof fn law_shown_profit_is_at_the_bid(p: TrackedPosition)
    ensures
        p.current_bid is None ==> p.spec_unrealized_pnl_pct() is None,
        p.entry_price@ == 0 ==> p.spec_unrealized_pnl_pct() is None,
        p.current_bid is Some && p.entry_price@ != 0 ==> p.spec_unrealized_pnl_pct()
            == pnl_percent(p.entry_price, p.current_bid->0),
{
}

/// A trigger is live exactly where the position is watched and has a stop-loss or
/// a take-profit.
pub proof fn law_live_triggers_are_watched(p: TrackedPosition)
    ensures
        !(p.status is Active) ==> !p.has_live_trigger(),
        p.sl_price is None && p.tp_price is None ==> !p.has_live_trigger(),
        p.status is Active && p.sl_price is Some ==> p.has_live_trigger(),
        p.status is Active && p.tp_price is Some ==> p.has_live_trigger(),
{
}

/// A title that fits is shown as it is; a longer one ends in three dots, and what
/// stands before them are the first bytes of the title, as many as fit.
pub proof fn law_short_titles_begin_like_the_title(title: Seq<char>, max_len: usize)
    ensures
        encode_utf8(title).len() <= max_len ==> shortened(title, max_len) == title,
        encode_utf8(title).len() > max_len && max_len >= 3 ==> shortened(title, max_len)
            == decode_utf8(encode_utf8(title).subrange(0, max_len - 3)) + "..."@,
        encode_utf8(title).len() > max_len && max_len < 3 ==> shortened(title, max_len)
            == decode_utf8(encode_utf8(title).subrange(0, 0)) + "..."@,
{
}

/// A position and its mathematical value have the same texts, numbers and
/// triggers, and their statuses go together.
pub proof fn law_model_holds_all_fields(p: TrackedPosition)
    ensures
        p@.token_id == p.token_id@,
        p@.condition_id == p.condition_id@,
        p@.market_title == p.market_title@,
        p@.outcome == p.outcome@,
        p@.shares == p.shares,
        p@.entry_price == p.entry_price,
        p@.current_bid == p.current_bid,
        p@.current_ask == p.current_ask,
        p@.sl_price == p.sl_price,
        p@.tp_price == p.tp_price,
        p@.last_price_update == p.last_price_update,
        p@.exit_pnl == p.exit_pnl,
        p@.min_order_size == p.min_order_size,
        p@.tick_size == p.tick_size,
        p@.neg_risk == p.neg_risk,
        p@.consensus == p.consensus,
        p@.sl_trigger_count == p.sl_trigger_count,
        p@.tp_trigger_count == p.tp_trigger_count,
        p@.status is Active <==> p.status is Active,
        p@.status is SLTriggered <==> p.status is SLTriggered,
        p@.status is TPTriggered <==> p.status is TPTriggered,
        p@.status is Selling <==> p.status is Selling,
        p@.status is Sold <==> p.status is Sold,
        p.status matches PositionStatus::Error(e) ==> p@.status == StatusModel::Error(e@),
{
}

/// The mathematical values of positions are those of each, in order.
pub proof fn law_models_are_of_each_position(positions: Seq<TrackedPosition>, i: int)
    requires
        0 <= i < positions.len(),
    ensures
        models(positions).len() == positions.len(),
        models(positions)[i] == positions[i]@,
{
}

} // verus!
