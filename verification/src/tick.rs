//! What the trading bot does on a tick, in what order, and which tokens it buys.

use crate::accounting::{
    can_count, exit_pnl, same_entry, shares_of, tally_after_exit, trades_after_exit, ExitKind,
};
use crate::decimal::Dec;
use crate::market::{seconds_to_close, BtcMarket, MARKET_WINDOW_SECS};
use crate::side::Side;
use crate::strategy::{exit_ask, stage_at, BookCheck, TickStage};
use crate::trader::{
    gave_up_others, giving_up_exact, law_positions_are_split_by_market, left_at,
    lemma_open_size_remove, nothing_moved, of_market,
    share_step, shares_balanced, size_sum, tally_without, BlockReason, Cleared, Position, SharedState, Tally,
};
use vstd::prelude::*;

verus! {

// ---------------------------------------------------------------------------
// Beginning a tick
// ---------------------------------------------------------------------------

/// How a tick begins.
#[derive(Debug)]
pub struct TickPlan {
    /// The positions of other markets that were given up.
    pub cleared: Option<Cleared>,
    /// How far the tick gets.
    pub stage: TickStage,
    /// Whether the market is another one than that of the last session, so that
    /// a new session begins before anything is traded.
    pub new_session: bool,
}

/// Whether a market is another one than that of the last session.
pub open spec fn is_other_market(market: Option<BtcMarket>, known_slug: Option<String>) -> bool {
    match (market, known_slug) {
        (Some(m), Some(slug)) => m.slug@ != slug@,
        (Some(m), None) => true,
        (None, _) => false,
    }
}

/// The open positions that a market leaves no way out of: those of all others.
pub open spec fn stranded(s: SharedState) -> Seq<Position> {
    match s.market {
        Some(m) => of_market(s.positions@, m.interval_start, false),
        None => Seq::empty(),
    }
}

/// Whether there are stranded positions that can be given up.
pub open spec fn clears_stranded(s: SharedState) -> bool {
    stranded(s).len() > 0 && tally_without(s.tally, stranded(s)) is Some
}

impl SharedState {
    /// Begins a tick: gives up the positions of other markets, decides how far
    /// the tick gets, and whether a new session begins.  Without a market nothing
    /// is given up; a session begins only where there is time left to trade.
    pub fn begin_tick(&mut self, now: i64, known_slug: &Option<String>) -> (r: TickPlan)
        requires
            old(self).market matches Some(m) ==> m.interval_start + MARKET_WINDOW_SECS <= i64::MAX
                && i64::MIN <= seconds_to_close(m.interval_start as int, now as int) <= i64::MAX,
        ensures
            r.cleared is Some <==> clears_stranded(*old(self)),
            r.cleared matches Some(c) ==> {
                &&& c.count == stranded(*old(self)).len()
                &&& size_sum(stranded(*old(self)), Side::Up) == Some(c.up)
                &&& size_sum(stranded(*old(self)), Side::Down) == Some(c.down)
                &&& Some(final(self).tally) == tally_without(
                    old(self).tally,
                    stranded(*old(self)),
                )
                &&& final(self).positions@ == of_market(
                    old(self).positions@,
                    old(self).market->0.interval_start,
                    true,
                )
                &&& giving_up_exact(old(self).tally, stranded(*old(self))) && shares_balanced(
                    old(self).tally,
                    old(self).positions@,
                ) ==> shares_balanced(final(self).tally, final(self).positions@)
            },
            giving_up_exact(old(self).tally, stranded(*old(self))) ==> share_step(
                *old(self),
                *final(self),
            ),
            r.cleared is None ==> final(self).tally == old(self).tally && final(self).positions
                == old(self).positions,
            r.stage == stage_at(*final(self), now),
            r.new_session == (r.stage is Trading && is_other_market(
                old(self).market,
                *known_slug,
            )),
            *final(self) == (SharedState {
                tally: final(self).tally,
                positions: final(self).positions,
                block_reason: match r.stage {
                    TickStage::NoMarket => BlockReason::NoMarket,
                    TickStage::Trading(_) => old(self).block_reason,
                    _ => BlockReason::MarketClosing,
                },
                ..*old(self)
            }),
    {
        let interval = match &self.market {
            Some(m) => Some(m.interval_start),
            None => None,
        };
        let cleared = match interval {
            Some(start) => self.clear_stale_positions(start),
            None => None,
        };
        let stage = self.open_tick(now);
        let new_session = match stage {
            TickStage::Trading(_) => match (&self.market, known_slug) {
                (Some(m), Some(slug)) => m.slug != *slug,
                (Some(_), None) => true,
                _ => false,
            },
            _ => false,
        };
        proof {
            if cleared.is_some() {
                if giving_up_exact(old(self).tally, stranded(*old(self))) {
                    assert(gave_up_others(
                        *old(self),
                        *self,
                        old(self).market->0.interval_start,
                    ));
                }
            } else {
                assert(nothing_moved(*old(self), *self));
            }
        }
        TickPlan { cleared, stage, new_session }
    }
}

// ---------------------------------------------------------------------------
// The order of a tick
// ---------------------------------------------------------------------------

/// What a tick is at.
#[derive(Clone, Copy, Debug, PartialEq, Eq, Structural)]
pub enum TickPhase {
    /// The tick has begun.
    Begun,
    /// All positions are forced out.
    ForceOut,
    /// A new session begins.
    BeginSession,
    /// Orders are signed anew, where that is due.
    SignOrders,
    /// Positions that have been held for too long are left, whatever the book says.
    LeaveOverdue,
    /// The book is checked.
    CheckBook,
    /// Positions whose exit conditions are met are left.
    LeaveChosen,
    /// An entry is looked for.
    Enter,
    /// The tick is over.
    Finished,
}

/// The phase after another, given how the tick began and what the book allows.
pub open spec fn phase_after(phase: TickPhase, stage: TickStage, new_session: bool, book: BookCheck) -> TickPhase {
    match phase {
        TickPhase::Begun => match stage {
            TickStage::NoMarket => TickPhase::Finished,
            TickStage::Closing(_) => TickPhase::Finished,
            TickStage::ForcedExit(_) => TickPhase::ForceOut,
            TickStage::Trading(_) => if new_session {
                TickPhase::BeginSession
            } else {
                TickPhase::SignOrders
            },
        },
        TickPhase::ForceOut => TickPhase::Finished,
        TickPhase::BeginSession => TickPhase::SignOrders,
        TickPhase::SignOrders => TickPhase::LeaveOverdue,
        TickPhase::LeaveOverdue => TickPhase::CheckBook,
        TickPhase::CheckBook => if book == BookCheck::Good {
            TickPhase::LeaveChosen
        } else {
            TickPhase::Finished
        },
        TickPhase::LeaveChosen => TickPhase::Enter,
        TickPhase::Enter => TickPhase::Finished,
        TickPhase::Finished => TickPhase::Finished,
    }
}

/// Decides which phase comes next.  What the book allows is known once it has
/// been checked, and asked about only then.
pub fn next_phase(phase: TickPhase, stage: TickStage, new_session: bool, book: BookCheck) -> (r: TickPhase)
    ensures
        r == phase_after(phase, stage, new_session, book),
        phase != TickPhase::Finished ==> phases_left(r) < phases_left(phase),
{
    match phase {
        TickPhase::Begun => match stage {
            TickStage::NoMarket => TickPhase::Finished,
            TickStage::Closing(_) => TickPhase::Finished,
            TickStage::ForcedExit(_) => TickPhase::ForceOut,
            TickStage::Trading(_) => if new_session {
                TickPhase::BeginSession
            } else {
                TickPhase::SignOrders
            },
        },
        TickPhase::ForceOut => TickPhase::Finished,
        TickPhase::BeginSession => TickPhase::SignOrders,
        TickPhase::SignOrders => TickPhase::LeaveOverdue,
        TickPhase::LeaveOverdue => TickPhase::CheckBook,
        TickPhase::CheckBook => if book == BookCheck::Good {
            TickPhase::LeaveChosen
        } else {
            TickPhase::Finished
        },
        TickPhase::LeaveChosen => TickPhase::Enter,
        TickPhase::Enter => TickPhase::Finished,
        TickPhase::Finished => TickPhase::Finished,
    }
}

/// How many phases can follow at most.
pub open spec fn phases_left(phase: TickPhase) -> nat {
    match phase {
        TickPhase::Begun => 7,
        TickPhase::BeginSession => 6,
        TickPhase::SignOrders => 5,
        TickPhase::LeaveOverdue => 4,
        TickPhase::CheckBook => 3,
        TickPhase::LeaveChosen => 2,
        TickPhase::Enter => 1,
        TickPhase::ForceOut => 1,
        TickPhase::Finished => 0,
    }
}

/// The phases that a tick goes through from one on.
pub open spec fn phases_from(phase: TickPhase, stage: TickStage, new_session: bool, book: BookCheck) -> Seq<
    TickPhase,
>
    decreases phases_left(phase),
{
    if phase == TickPhase::Finished {
        seq![phase]
    } else {
        seq![phase] + phases_from(
            phase_after(phase, stage, new_session, book),
            stage,
            new_session,
            book,
        )
    }
}

// ---------------------------------------------------------------------------
// What is bought
// ---------------------------------------------------------------------------

/// An order to buy shares of a token.
#[derive(Debug)]
pub struct BuyOrder {
    /// Whether it is the token of up.
    pub is_up: bool,
    pub token: String,
    pub size: Dec,
    /// The price it is expected to fill at.
    pub expected: Option<Dec>,
}

/// The token of a side.
pub open spec fn token_of(market: BtcMarket, side: Side) -> Seq<char> {
    match side {
        Side::Up => market.up_token_id@,
        Side::Down => market.down_token_id@,
    }
}

/// Whether an order buys so many shares of the token of a side.
pub open spec fn buys(order: BuyOrder, market: BtcMarket, side: Side, size: Dec) -> bool {
    &&& order.is_up == (side == Side::Up)
    &&& order.token@ == token_of(market, side)
    &&& order.size == size
}

/// Makes an order to buy the token of a side.
fn buy_of(market: &BtcMarket, side: Side, size: Dec, expected: Option<Dec>) -> (r: BuyOrder)
    ensures
        buys(r, *market, side, size),
        r.expected == expected,
{
    match side {
        Side::Up => BuyOrder {
            is_up: true,
            token: market.up_token_id.clone(),
            size,
            expected,
        },
        Side::Down => BuyOrder {
            is_up: false,
            token: market.down_token_id.clone(),
            size,
            expected,
        },
    }
}

/// The order that enters a position: its own token.
pub fn entry_order(market: &BtcMarket, side: Side, price: Dec, size: Dec) -> (r: BuyOrder)
    ensures
        buys(r, *market, side, size),
        r.expected == Some(price),
{
    buy_of(market, side, size, Some(price))
}

/// The price that an exit is expected at: the ask of the other token.  Without
/// one, an overdue position is left at 50 cents, one in a closing market at
/// whatever comes, and any other is not left yet.
pub open spec fn expected_exit(ask: Option<Dec>, kind: ExitKind) -> Option<Option<Dec>> {
    match (ask, kind) {
        (Some(a), _) => Some(Some(a)),
        (None, ExitKind::Emergency) => Some(Some(Dec::of(50, 2))),
        (None, ExitKind::Forced) => Some(None),
        (None, ExitKind::Regular) => None,
    }
}

impl SharedState {
    /// The order that leaves a position: as many shares of the other token.
    pub fn exit_order(&self, market: &BtcMarket, p: &Position, kind: ExitKind) -> (r: Option<
        BuyOrder,
    >)
        ensures
            r is Some <==> expected_exit(exit_ask(self.orderbook, p.side), kind) is Some,
            r matches Some(order) ==> {
                &&& buys(order, *market, p.side.spec_opposite(), p.size)
                &&& expected_exit(exit_ask(self.orderbook, p.side), kind) == Some(order.expected)
            },
    {
        let expected = match (self.exit_price(p.side), kind) {
            (Some(a), _) => Some(a),
            (None, ExitKind::Emergency) => Some(Dec::new(50, 2)),
            (None, ExitKind::Forced) => None,
            (None, ExitKind::Regular) => {
                return None;
            },
        };
        Some(buy_of(market, p.side.opposite(), p.size, expected))
    }
}

// ---------------------------------------------------------------------------
// What came of an exit
// ---------------------------------------------------------------------------

/// What came of an exit.
#[derive(Clone, Copy, Debug)]
pub enum ExitOutcome {
    /// The order did not fill; the position stays.
    NotFilled,
    /// The position is left with this profit per share.
    Left(Dec),
    /// The order filled with this profit per share, but the position is not open
    /// any more.
    Gone(Dec),
    /// The order filled, but its sums cannot be held; nothing is booked.
    Uncomputable,
}

/// The index of the first open position with the same entry.
pub open spec fn first_same(positions: Seq<Position>, p: Position) -> Option<int>
    decreases positions.len(),
{
    if positions.len() == 0 {
        None
    } else {
        match first_same(positions.drop_last(), p) {
            Some(i) => Some(i),
            None => if same_entry(positions.last(), p) {
                Some(positions.len() - 1)
            } else {
                None
            },
        }
    }
}

/// An index before which nothing has the same entry, and which has, is the first.
proof fn lemma_first_same(positions: Seq<Position>, p: Position, i: int)
    requires
        0 <= i < positions.len(),
        same_entry(positions[i], p),
        forall|j: int| 0 <= j < i ==> !same_entry(#[trigger] positions[j], p),
    ensures
        first_same(positions, p) == Some(i),
    decreases positions.len(),
{
    let before = positions.drop_last();
    if i < before.len() {
        assert forall|j: int| 0 <= j < i implies !same_entry(#[trigger] before[j], p) by {
            assert(before[j] == positions[j]);
        }
        lemma_first_same(before, p, i);
    } else {
        assert forall|j: int| 0 <= j < before.len() implies !same_entry(
            #[trigger] before[j],
            p,
        ) by {
            assert(before[j] == positions[j]);
        }
        lemma_none_same(before, p);
    }
}

/// Where nothing has the same entry, there is no first.
proof fn lemma_none_same(positions: Seq<Position>, p: Position)
    requires
        forall|j: int| 0 <= j < positions.len() ==> !same_entry(#[trigger] positions[j], p),
    ensures
        first_same(positions, p) is None,
    decreases positions.len(),
{
    if positions.len() > 0 {
        let before = positions.drop_last();
        assert forall|j: int| 0 <= j < before.len() implies !same_entry(
            #[trigger] before[j],
            p,
        ) by {
            assert(before[j] == positions[j]);
        }
        lemma_none_same(before, p);
        assert(positions.last() == positions[positions.len() - 1]);
    }
}

/// The tally after an exit that did not fill: it is counted, but for one in a
/// closing market, which is tried again at once.
pub open spec fn tally_not_filled(t: Tally, kind: ExitKind) -> Tally {
    if kind == ExitKind::Forced {
        t
    } else {
        Tally { failed_exit_count: (t.failed_exit_count + 1) as u32, ..t }
    }
}

/// What comes of an exit that filled at a price, or did not.
pub open spec fn exit_outcome(s: SharedState, p: Position, kind: ExitKind, fill: Option<Dec>) -> ExitOutcome {
    match fill {
        None => ExitOutcome::NotFilled,
        Some(price) => match tally_after_exit(s.tally, p, price, kind) {
            None => ExitOutcome::Uncomputable,
            Some(_) => if first_same(s.positions@, p) is Some {
                ExitOutcome::Left(exit_pnl(p, price)->0)
            } else {
                ExitOutcome::Gone(exit_pnl(p, price)->0)
            },
        },
    }
}

impl SharedState {
    /// Takes in what came of the order that leaves a position.  The position may
    /// have moved in the list while the order was out, so it is looked for by
    /// its entry.
    pub fn settle_exit(
        &mut self,
        p: &Position,
        kind: ExitKind,
        fill: Option<Dec>,
        hold_ms: u64,
        time_ms: i64,
    ) -> (r: ExitOutcome)
        requires
            can_count(old(self).tally),
        ensures
            r == exit_outcome(*old(self), *p, kind, fill),
            match r {
                ExitOutcome::NotFilled => *final(self) == (SharedState {
                    tally: tally_not_filled(old(self).tally, kind),
                    ..*old(self)
                }),
                ExitOutcome::Uncomputable => *final(self) == *old(self),
                _ => {
                    let found = first_same(old(self).positions@, *p);
                    &&& Some(final(self).tally) == tally_after_exit(
                        old(self).tally,
                        *p,
                        fill->0,
                        kind,
                    )
                    &&& trades_after_exit(
                        old(self).trades@,
                        final(self).trades@,
                        *p,
                        fill->0,
                        kind,
                        hold_ms,
                        time_ms,
                    )
                    &&& final(self).positions@ == (match found {
                        Some(i) => old(self).positions@.remove(i),
                        None => old(self).positions@,
                    })
                    &&& *final(self) == (SharedState {
                        tally: final(self).tally,
                        trades: final(self).trades,
                        positions: final(self).positions,
                        ..*old(self)
                    })
                    &&& found is Some && old(self).positions@[found->0].size@ == p.size@
                        && shares_of(old(self).tally, p.side.spec_opposite()).exact_with(p.size)
                        && shares_balanced(old(self).tally, old(self).positions@)
                        ==> shares_balanced(final(self).tally, final(self).positions@)
                },
            },
            r is NotFilled || r is Uncomputable || r is Left && old(
                self,
            ).positions@[first_same(old(self).positions@, *p)->0].size@ == p.size@ && shares_of(
                old(self).tally,
                p.side.spec_opposite(),
            ).exact_with(p.size) ==> share_step(*old(self), *final(self)),
    {
        let price = match fill {
            Some(price) => price,
            None => {
                if kind != ExitKind::Forced {
                    self.record_failed_exit();
                }
                return ExitOutcome::NotFilled;
            },
        };
        let pnl = match self.account_exit(p, price, kind, hold_ms, time_ms) {
            Some(pnl) => pnl,
            None => {
                return ExitOutcome::Uncomputable;
            },
        };
        match self.find_open(p) {
            Some(i) => {
                proof {
                    lemma_first_same(self.positions@, *p, i as int);
                    lemma_open_size_remove(self.positions@, i as int, Side::Up);
                    lemma_open_size_remove(self.positions@, i as int, Side::Down);
                }
                let _left = self.positions.remove(i);
                proof {
                    if old(self).positions@[i as int].size@ == p.size@ && shares_of(
                        old(self).tally,
                        p.side.spec_opposite(),
                    ).exact_with(p.size) {
                        assert(left_at(*old(self), *self, i as int));
                    }
                }
                ExitOutcome::Left(pnl)
            },
            None => {
                proof {
                    lemma_none_same(self.positions@, *p);
                }
                ExitOutcome::Gone(pnl)
            },
        }
    }
}

impl Tally {
    /// Whether every count can go up by one.
    pub fn has_room(&self) -> (r: bool)
        ensures
            r == can_count(*self),
    {
        self.trade_count < u32::MAX && self.win_count < u32::MAX && self.up_entry_count < u32::MAX
            && self.down_entry_count < u32::MAX && self.up_exit_count < u32::MAX
            && self.down_exit_count < u32::MAX && self.failed_exit_count < u32::MAX
            && self.up_trade_count < u32::MAX && self.down_trade_count < u32::MAX
            && self.session_trade_count < u32::MAX
    }
}

// ---------------------------------------------------------------------------
// Laws
// ---------------------------------------------------------------------------

/// A tick goes through its phases in a fixed order: it looks for an entry only in
/// an open market and on a good book, and it leaves overdue positions before it
/// looks at the book.
pub proof fn law_phases_are_ordered(stage: TickStage, new_session: bool, book: BookCheck)
    ensures
        phases_from(TickPhase::Begun, stage, new_session, book) == (match stage {
            TickStage::NoMarket => seq![TickPhase::Begun, TickPhase::Finished],
            TickStage::Closing(_) => seq![TickPhase::Begun, TickPhase::Finished],
            TickStage::ForcedExit(_) => seq![
                TickPhase::Begun,
                TickPhase::ForceOut,
                TickPhase::Finished,
            ],
            TickStage::Trading(_) => (if new_session {
                seq![TickPhase::Begun, TickPhase::BeginSession]
            } else {
                seq![TickPhase::Begun]
            }) + seq![TickPhase::SignOrders, TickPhase::LeaveOverdue, TickPhase::CheckBook] + (
            if book == BookCheck::Good {
                seq![TickPhase::LeaveChosen, TickPhase::Enter, TickPhase::Finished]
            } else {
                seq![TickPhase::Finished]
            }),
        }),
{
    reveal_with_fuel(phases_from, 9);
}

/// Entering and leaving a position buys as many shares of the one token as of
/// the other: together they are pairs, whichever side wins.
pub proof fn law_exit_completes_the_pair(
    market: BtcMarket,
    p: Position,
    entry: BuyOrder,
    exit: BuyOrder,
)
    requires
        buys(entry, market, p.side, p.size),
        buys(exit, market, p.side.spec_opposite(), p.size),
    ensures
        entry.is_up != exit.is_up,
        entry.size == exit.size,
        (entry.token@ == market.up_token_id@ && exit.token@ == market.down_token_id@) || (
        entry.token@ == market.down_token_id@ && exit.token@ == market.up_token_id@),
{
}

/// An overdue position, and one in a closing market, is always left, whatever
/// the book says.
pub proof fn law_urgent_exits_need_no_book(ask: Option<Dec>, kind: ExitKind)
    requires
        kind != ExitKind::Regular,
    ensures
        expected_exit(ask, kind) is Some,
{
}

/// An exit that did not fill books nothing: no trade, no shares, no profit.
pub proof fn law_unfilled_exit_books_nothing(t: Tally, kind: ExitKind)
    ensures
        tally_not_filled(t, kind).up_shares_bought == t.up_shares_bought,
        tally_not_filled(t, kind).down_shares_bought == t.down_shares_bought,
        tally_not_filled(t, kind).trade_count == t.trade_count,
        tally_not_filled(t, kind).win_count == t.win_count,
        tally_not_filled(t, kind).total_pnl == t.total_pnl,
        tally_not_filled(t, kind).up_exit_count == t.up_exit_count,
        tally_not_filled(t, kind).down_exit_count == t.down_exit_count,
{
}

/// A market is another one than the last exactly where there is a market and its
/// slug is not the known one; without a known slug every market is another.
pub proof fn law_other_market_has_another_slug(market: BtcMarket, slug: String)
    ensures
        !is_other_market(None, Some(slug)),
        !is_other_market(None, None),
        is_other_market(Some(market), None),
        is_other_market(Some(market), Some(slug)) <==> market.slug@ != slug@,
{
}

/// The stranded positions are those of other markets than the current one, in
/// order; without a market none is stranded.
pub proof fn law_stranded_positions_are_of_other_markets(s: SharedState)
    ensures
        s.market is None ==> stranded(s).len() == 0,
        s.market matches Some(m) ==> stranded(s) == s.positions@.filter(
            |p: Position| p.market_interval_start != m.interval_start,
        ),
        clears_stranded(s) <==> stranded(s).len() > 0 && tally_without(s.tally, stranded(s))
            is Some,
{
    if let Some(m) = s.market {
        law_positions_are_split_by_market(s.positions@, m.interval_start);
    }
}

/// An order for a side buys the token of that side, and of the asked size.
pub proof fn law_orders_buy_the_token_of_their_side(
    order: BuyOrder,
    market: BtcMarket,
    size: Dec,
)
    ensures
        buys(order, market, Side::Up, size) <==> order.is_up && order.token@
            == market.up_token_id@ && order.size == size,
        buys(order, market, Side::Down, size) <==> !order.is_up && order.token@
            == market.down_token_id@ && order.size == size,
{
}

/// An exit is expected at the ask there is; without one an overdue position is
/// left at 50 cents, one in a closing market at any price, and any other stays.
pub proof fn law_exit_is_expected_at_the_ask(ask: Dec, kind: ExitKind)
    ensures
        expected_exit(Some(ask), kind) == Some(Some(ask)),
        expected_exit(None, ExitKind::Emergency) == Some(Some(Dec::of(50, 2))),
        expected_exit(None, ExitKind::Forced) == Some(None::<Dec>),
        expected_exit(None, ExitKind::Regular) is None,
{
}

/// The position that an exit belongs to is the first open one of the same side,
/// entry price and entry time; where there is none, nothing is found.
pub proof fn law_exit_finds_its_position(positions: Seq<Position>, p: Position)
    ensures
        match first_same(positions, p) {
            Some(i) => {
                &&& 0 <= i < positions.len()
                &&& positions[i].side == p.side
                &&& positions[i].entry_price@ == p.entry_price@
                &&& positions[i].entry_ms == p.entry_ms
                &&& forall|j: int|
                    0 <= j < i ==> (#[trigger] positions[j]).side != p.side
                        || positions[j].entry_price@ != p.entry_price@ || positions[j].entry_ms
                        != p.entry_ms
            },
            None => forall|j: int|
                0 <= j < positions.len() ==> (#[trigger] positions[j]).side != p.side
                    || positions[j].entry_price@ != p.entry_price@ || positions[j].entry_ms
                    != p.entry_ms,
        },
    decreases positions.len(),
{
    if positions.len() > 0 {
        let before = positions.drop_last();
        law_exit_finds_its_position(before, p);
        assert forall|j: int| 0 <= j < before.len() implies before[j] == positions[j] by {}
    }
}

/// What comes of an exit: without a fill it is not filled; with one whose sums
/// cannot be held nothing is booked; otherwise it has its profit, and leaves the
/// position where that is still open.
pub proof fn law_outcomes_of_an_exit(s: SharedState, p: Position, kind: ExitKind, price: Dec)
    ensures
        exit_outcome(s, p, kind, None) is NotFilled,
        tally_after_exit(s.tally, p, price, kind) is None ==> exit_outcome(s, p, kind, Some(price))
            is Uncomputable,
        tally_after_exit(s.tally, p, price, kind) is Some && (exists|j: int|
            0 <= j < s.positions@.len() && (#[trigger] s.positions@[j]).side == p.side
                && s.positions@[j].entry_price@ == p.entry_price@ && s.positions@[j].entry_ms
                == p.entry_ms) ==> exit_outcome(s, p, kind, Some(price)) == ExitOutcome::Left(
            exit_pnl(p, price)->0,
        ),
        tally_after_exit(s.tally, p, price, kind) is Some && (forall|j: int|
            0 <= j < s.positions@.len() ==> (#[trigger] s.positions@[j]).side != p.side
                || s.positions@[j].entry_price@ != p.entry_price@ || s.positions@[j].entry_ms
                != p.entry_ms) ==> exit_outcome(s, p, kind, Some(price)) == ExitOutcome::Gone(
            exit_pnl(p, price)->0,
        ),
{
    law_exit_finds_its_position(s.positions@, p);
}

/// An exit that did not fill is counted as failed, but for one in a closing
/// market; nothing else of the tally changes.
pub proof fn law_failed_exits_are_counted(t: Tally)
    requires
        t.failed_exit_count < u32::MAX,
    ensures
        tally_not_filled(t, ExitKind::Forced) == t,
        tally_not_filled(t, ExitKind::Regular).failed_exit_count == t.failed_exit_count + 1,
        tally_not_filled(t, ExitKind::Emergency).failed_exit_count == t.failed_exit_count + 1,
        t == (Tally {
            failed_exit_count: t.failed_exit_count,
            ..tally_not_filled(t, ExitKind::Regular)
        }),
        t == (Tally {
            failed_exit_count: t.failed_exit_count,
            ..tally_not_filled(t, ExitKind::Emergency)
        }),
{
}

/// Each phase is followed by just one: what comes after it depends on how the
/// tick began only at its beginning, and on the book only where that is checked.
pub proof fn law_phases_follow_each_other(stage: TickStage, new_session: bool, book: BookCheck)
    ensures
        stage is NoMarket || stage is Closing ==> phase_after(
            TickPhase::Begun,
            stage,
            new_session,
            book,
        ) == TickPhase::Finished,
        stage is ForcedExit ==> phase_after(TickPhase::Begun, stage, new_session, book)
            == TickPhase::ForceOut,
        stage is Trading && new_session ==> phase_after(TickPhase::Begun, stage, new_session, book)
            == TickPhase::BeginSession,
        stage is Trading && !new_session ==> phase_after(TickPhase::Begun, stage, new_session, book)
            == TickPhase::SignOrders,
        phase_after(TickPhase::ForceOut, stage, new_session, book) == TickPhase::Finished,
        phase_after(TickPhase::BeginSession, stage, new_session, book) == TickPhase::SignOrders,
        phase_after(TickPhase::SignOrders, stage, new_session, book) == TickPhase::LeaveOverdue,
        phase_after(TickPhase::LeaveOverdue, stage, new_session, book) == TickPhase::CheckBook,
        book == BookCheck::Good ==> phase_after(TickPhase::CheckBook, stage, new_session, book)
            == TickPhase::LeaveChosen,
        book != BookCheck::Good ==> phase_after(TickPhase::CheckBook, stage, new_session, book)
            == TickPhase::Finished,
        phase_after(TickPhase::LeaveChosen, stage, new_session, book) == TickPhase::Enter,
        phase_after(TickPhase::Enter, stage, new_session, book) == TickPhase::Finished,
        phase_after(TickPhase::Finished, stage, new_session, book) == TickPhase::Finished,
{
}

} // verus!
