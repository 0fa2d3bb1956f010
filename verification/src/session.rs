//! What happens as one market gives way to the next.

use crate::decimal::{dec_in_range, lemma_literal, lemma_pow10_positive, pow10, Dec};
use crate::lists::{lemma_picked_step, picked, ring_pushed};
use crate::market::{BtcMarket, MARKET_WINDOW_SECS};
use crate::orderbook::Orderbook;
use crate::side::Side;
use crate::trader::{
    gave_up_all, giving_up_exact, nothing_moved, share_step, shares_balanced, size_sum, tally_without, Cleared, PendingSample, Position,
    SharedState, Tally,
};
use vstd::prelude::*;

verus! {

/// How many volatility samples are kept.
pub const VOLATILITY_SAMPLES: usize = 100;

/// How many of them a new market starts with.
pub const SAMPLES_CARRIED_OVER: usize = 30;

/// Milliseconds between two checks that the shares of both sides match.
pub const RECONCILE_INTERVAL_MS: u64 = 60_000;

// ---------------------------------------------------------------------------
// Finding a market
// ---------------------------------------------------------------------------

impl SharedState {
    /// Takes in the market that was found.  A market with another slug than the
    /// known one starts with an empty book; the result tells whether it did.
    pub fn adopt_market(&mut self, found: BtcMarket) -> (r: bool)
        ensures
            r == (match old(self).market {
                Some(m) => m.slug@ != found.slug@,
                None => true,
            }),
            final(self).market == Some(found),
            *final(self) == (SharedState {
                market: final(self).market,
                orderbook: final(self).orderbook,
                ..*old(self)
            }),
            !r ==> final(self).orderbook == old(self).orderbook,
            r ==> final(self).orderbook.is_empty_book(),
    {
        let is_new = match &self.market {
            Some(m) => m.slug != found.slug,
            None => true,
        };
        if is_new {
            self.orderbook = Orderbook::new();
        }
        self.market = Some(found);
        is_new
    }
}

// ---------------------------------------------------------------------------
// Samples whose market has been decided
// ---------------------------------------------------------------------------

/// A sample whose market has been decided: the bits of the probability that up
/// wins, the side that was entered, and whether that side won.
#[derive(Clone, Copy, Debug, PartialEq, Eq, Structural)]
pub struct ResolvedSample {
    pub raw_prob_bits: u32,
    pub side: Side,
    pub won: bool,
}

/// Whether a side won.
pub open spec fn side_won(side: Side, up_won: bool) -> bool {
    match side {
        Side::Up => up_won,
        Side::Down => !up_won,
    }
}

/// What a sample resolves to; one of a market that was resolved before to
/// nothing.
pub open spec fn resolving(last_resolved: i64, up_won: bool) -> spec_fn(
    int,
    PendingSample,
) -> Option<ResolvedSample> {
    |i: int, p: PendingSample|
        if p.market_interval > last_resolved {
            Some(
                ResolvedSample {
                    raw_prob_bits: p.raw_prob_bits,
                    side: p.side,
                    won: side_won(p.side, up_won),
                },
            )
        } else {
            None
        }
}

/// Resolves the samples of markets that were not resolved before.
pub fn resolve_samples(pending: &Vec<PendingSample>, last_resolved: i64, up_won: bool) -> (r: Vec<
    ResolvedSample,
>)
    ensures
        r@ == picked(pending@, resolving(last_resolved, up_won)),
{
    let ghost pick = resolving(last_resolved, up_won);
    let mut out: Vec<ResolvedSample> = Vec::new();
    let mut i: usize = 0;
    proof {
        assert(pending@.take(0) =~= Seq::empty());
    }
    while i < pending.len()
        invariant
            i <= pending@.len(),
            pick == resolving(last_resolved, up_won),
            out@ == picked(pending@.take(i as int), pick),
        decreases pending@.len() - i,
    {
        proof {
            lemma_picked_step(pending@, pick, i as int);
        }
        let p = pending[i];
        if p.market_interval > last_resolved {
            let won = match p.side {
                Side::Up => up_won,
                Side::Down => !up_won,
            };
            out.push(ResolvedSample { raw_prob_bits: p.raw_prob_bits, side: p.side, won });
        }
        i += 1;
    }
    proof {
        assert(pending@.take(i as int) =~= pending@);
    }
    out
}

// ---------------------------------------------------------------------------
// A new session
// ---------------------------------------------------------------------------

/// What a new session found.
#[derive(Debug)]
pub struct SessionReport {
    /// The positions of the last market that were given up.
    pub cleared: Option<Cleared>,
    /// The samples that were resolved.
    pub resolved: Vec<ResolvedSample>,
}

/// The start of the interval before a market's.
pub open spec fn interval_before(interval_start: i64) -> i64 {
    if interval_start - MARKET_WINDOW_SECS < i64::MIN {
        i64::MIN
    } else {
        (interval_start - MARKET_WINDOW_SECS) as i64
    }
}

/// The tally with which a new market begins.
pub open spec fn tally_for_session(t: Tally) -> Tally {
    Tally { up_trade_count: 0, down_trade_count: 0, session_trade_count: 0, ..t }
}

/// Whether the open positions can be given up: there are none, or their sums
/// can be held.
pub open spec fn can_give_up(s: SharedState) -> bool {
    s.positions@.len() == 0 || tally_without(s.tally, s.positions@) is Some
}

/// The tally once the open positions are given up.
pub open spec fn tally_given_up(s: SharedState) -> Tally {
    if s.positions@.len() == 0 {
        s.tally
    } else {
        tally_without(s.tally, s.positions@)->0
    }
}

impl SharedState {
    /// Begins a new session as a market opens: gives up what is still open, as
    /// it can no longer be left; resolves the waiting samples where the price at
    /// the start of the last market is known; and resets the counts.  Where the
    /// sums of what is given up cannot be held, nothing happens.
    ///
    /// `had_market` tells whether there was a market before, `window_known`
    /// whether the price at its start is known, and `up_won` whether the price
    /// has risen since.
    pub fn begin_session(
        &mut self,
        interval_start: i64,
        had_market: bool,
        window_known: bool,
        up_won: bool,
    ) -> (r: Option<SessionReport>)
        requires
            old(self).tally.up_trade_count + old(self).tally.down_trade_count <= u32::MAX,
        ensures
            r is Some <==> can_give_up(*old(self)),
            r is None ==> *final(self) == *old(self),
            r matches Some(report) ==> {
                let resolves = window_known && old(self).pending_calibration@.len() > 0;
                &&& report.cleared is Some <==> old(self).positions@.len() > 0
                &&& report.cleared matches Some(c) ==> c.count == old(self).positions@.len()
                    && size_sum(old(self).positions@, Side::Up) == Some(c.up) && size_sum(
                    old(self).positions@,
                    Side::Down,
                ) == Some(c.down)
                &&& report.resolved@ == (if resolves {
                    picked(
                        old(self).pending_calibration@,
                        resolving(old(self).last_resolved_market, up_won),
                    )
                } else {
                    Seq::empty()
                })
                &&& final(self).positions@ == Seq::<Position>::empty()
                &&& final(self).tally == tally_for_session(tally_given_up(*old(self)))
                &&& final(self).pending_calibration@ == (if resolves {
                    Seq::<PendingSample>::empty()
                } else {
                    old(self).pending_calibration@
                })
                &&& final(self).last_resolved_market == (if resolves && had_market {
                    interval_before(interval_start)
                } else {
                    old(self).last_resolved_market
                })
                &&& final(self).last_market_trade_count == old(self).tally.up_trade_count + old(
                    self,
                ).tally.down_trade_count
                &&& final(self).session_start == Some(interval_start)
                &&& *final(self) == (SharedState {
                    positions: final(self).positions,
                    tally: final(self).tally,
                    pending_calibration: final(self).pending_calibration,
                    last_resolved_market: final(self).last_resolved_market,
                    last_market_trade_count: final(self).last_market_trade_count,
                    session_start: final(self).session_start,
                    ..*old(self)
                })
                &&& giving_up_exact(old(self).tally, old(self).positions@) && shares_balanced(
                    old(self).tally,
                    old(self).positions@,
                ) ==> shares_balanced(final(self).tally, final(self).positions@)
                &&& giving_up_exact(old(self).tally, old(self).positions@) ==> share_step(
                    *old(self),
                    *final(self),
                )
            },
    {
        let cleared = self.clear_orphaned_positions();
        if self.positions.len() > 0 {
            return None;
        }
        proof {
            assert(self.positions@ =~= Seq::<Position>::empty());
        }
        let mut resolved: Vec<ResolvedSample> = Vec::new();
        if window_known && self.pending_calibration.len() > 0 {
            resolved =
            resolve_samples(&self.pending_calibration, self.last_resolved_market, up_won);
            self.pending_calibration = Vec::new();
            if had_market {
                self.last_resolved_market =
                if interval_start >= i64::MIN + MARKET_WINDOW_SECS {
                    interval_start - MARKET_WINDOW_SECS
                } else {
                    i64::MIN
                };
            }
        }
        self.last_market_trade_count = self.tally.up_trade_count + self.tally.down_trade_count;
        self.tally.up_trade_count = 0;
        self.tally.down_trade_count = 0;
        self.tally.session_trade_count = 0;
        self.session_start = Some(interval_start);
        proof {
            if old(self).positions@.len() > 0 && giving_up_exact(
                old(self).tally,
                old(self).positions@,
            ) {
                assert(gave_up_all(*old(self), *self));
            } else if old(self).positions@.len() == 0 {
                assert(old(self).positions@ =~= Seq::<Position>::empty());
                assert(nothing_moved(*old(self), *self));
            }
        }
        Some(SessionReport { cleared, resolved })
    }
}

// ---------------------------------------------------------------------------
// How much can be traded
// ---------------------------------------------------------------------------

/// The whole part of a value as a `u32`, or zero where there is none.
pub open spec fn whole_or_zero(d: Dec) -> u32 {
    let whole = d.spec_mantissa() / pow10(d.spec_scale());
    if d.spec_mantissa() >= 0 && whole <= u32::MAX {
        whole as u32
    } else {
        0
    }
}

/// The trades that a balance pays for: nine tenths of it may be spent, a trade
/// costs half its size, and both sides get the same number.  Nothing where this
/// cannot be computed.
pub open spec fn affordable_trades(balance: Dec, position_size: Dec) -> Option<u32> {
    match (balance.spec_times(Dec::of(90, 2)), position_size.spec_times(Dec::of(50, 2))) {
        (Some(usable), Some(cost)) => match usable.spec_over(cost) {
            Some(ratio) => Some(
                (whole_or_zero(
                    Dec::of(ratio.spec_mantissa() / pow10(ratio.spec_scale()), 0),
                ) / 2 * 2) as u32,
            ),
            None => None,
        },
        _ => None,
    }
}

/// The trades that a session may have: those that the balance pays for, up to
/// the limit.  Where the balance is not known, and in a dry run whose wallet pays
/// for none, the limit alone holds.  Nothing where this cannot be computed.
pub open spec fn session_limit(
    balance: Option<Dec>,
    position_size: Dec,
    dry_run: bool,
    trade_limit: u32,
) -> Option<u32> {
    match balance {
        Some(b) => match affordable_trades(b, position_size) {
            Some(n) => Some(
                if n < trade_limit && !(dry_run && n == 0) {
                    n
                } else {
                    trade_limit
                },
            ),
            None => None,
        },
        None => Some(trade_limit),
    }
}

/// Computes the trades that a balance pays for.
pub fn max_trades_for(balance: Dec, position_size: Dec) -> (r: Option<u32>)
    ensures
        r == affordable_trades(balance, position_size),
        r matches Some(n) ==> n % 2 == 0,
{
    let usable = balance.times(Dec::new(90, 2));
    let cost = position_size.times(Dec::new(50, 2));
    match (usable, cost) {
        (Some(usable), Some(cost)) => match usable.over(cost) {
            Some(ratio) => {
                let whole = ratio.floor();
                let total: u32 = match whole.to_u32() {
                    Some(n) => n,
                    None => 0,
                };
                Some(total / 2 * 2)
            },
            None => None,
        },
        _ => None,
    }
}

impl SharedState {
    /// Takes in the balance of the wallet, where it is known: no more trades are
    /// made than it pays for, and never more than are allowed.  A dry run spends
    /// nothing, so a wallet that pays for no trade does not stop it.  Where the
    /// trades that the balance pays for cannot be computed, the limit on trades
    /// stays and the result is nothing; otherwise it is the limit per side.
    pub fn set_balance(&mut self, balance: Option<Dec>) -> (r: Option<u32>)
        ensures
            ({
                let held = match balance {
                    Some(b) => b,
                    None => Dec::of(0, 0),
                };
                match session_limit(
                    balance,
                    old(self).position_size,
                    old(self).dry_run,
                    old(self).trade_limit,
                ) {
                    Some(limit) => r == Some((limit / 2) as u32) && *final(self) == (SharedState {
                        wallet_balance: held,
                        max_trades: limit,
                        ..*old(self)
                    }),
                    None => r is None && *final(self) == (SharedState {
                        wallet_balance: held,
                        ..*old(self)
                    }),
                }
            }),
    {
        let held = match balance {
            Some(b) => b,
            None => Dec::zero(),
        };
        self.wallet_balance = held;
        let limit: u32 = match balance {
            Some(b) => match max_trades_for(b, self.position_size) {
                Some(n) => if n < self.trade_limit && !(self.dry_run && n == 0) {
                    n
                } else {
                    self.trade_limit
                },
                None => {
                    return None;
                },
            },
            None => self.trade_limit,
        };
        self.max_trades = limit;
        Some(limit / 2)
    }
}

// ---------------------------------------------------------------------------
// Shares of both sides
// ---------------------------------------------------------------------------

/// How far the shares bought of the two sides are apart, where that can be held
/// and is more than five.
pub open spec fn share_imbalance(t: Tally) -> Option<Dec> {
    match t.up_shares_bought.spec_minus(t.down_shares_bought) {
        Some(d) => if d.spec_abs()@ > 5 * crate::decimal::unit() {
            Some(d.spec_abs())
        } else {
            None
        },
        None => None,
    }
}

impl Tally {
    /// Checks that the shares bought of the two sides match.
    pub fn imbalance(&self) -> (r: Option<Dec>)
        ensures
            r == share_imbalance(*self),
    {
        match self.up_shares_bought.minus(self.down_shares_bought) {
            Some(d) => {
                let distance = d.abs();
                if Dec::new(5, 0).lt(distance) {
                    Some(distance)
                } else {
                    None
                }
            },
            None => None,
        }
    }
}

/// Whether more than the given time has passed since something happened.
pub fn is_due(last_ms: u64, now_ms: u64, interval_ms: u64) -> (r: bool)
    ensures
        r == (now_ms > last_ms + interval_ms),
{
    now_ms > last_ms && now_ms - last_ms > interval_ms
}

// ---------------------------------------------------------------------------
// Volatility samples
// ---------------------------------------------------------------------------

/// The last predictions of the volatility, each a floating-point number by its
/// bits.
#[derive(Debug)]
pub struct VolatilitySamples {
    pub bits: Vec<u32>,
}

impl VolatilitySamples {
    /// None yet.
    pub fn new() -> (r: VolatilitySamples)
        ensures
            r.bits@ == Seq::<u32>::empty(),
    {
        VolatilitySamples { bits: Vec::new() }
    }

    /// Takes in a prediction.
    pub fn push(&mut self, bits: u32)
        ensures
            final(self).bits@ == ring_pushed(old(self).bits@, bits, VOLATILITY_SAMPLES as int),
            old(self).bits@.len() <= VOLATILITY_SAMPLES ==> final(self).bits@.len()
                <= VOLATILITY_SAMPLES,
            old(self).bits@.len() < 100 ==> final(self).bits@ == old(self).bits@.push(bits),
            old(self).bits@.len() == 100 ==> final(self).bits@ == old(self).bits@.push(bits).skip(1),
    {
        self.bits.push(bits);
        if self.bits.len() > VOLATILITY_SAMPLES {
            let _oldest = self.bits.remove(0);
        }
        assert(self.bits@ =~= ring_pushed(old(self).bits@, bits, VOLATILITY_SAMPLES as int));
    }

    /// Keeps the latest predictions for a new market.
    pub fn carry_over(&mut self)
        ensures
            final(self).bits@ == (if old(self).bits@.len() > SAMPLES_CARRIED_OVER {
                old(self).bits@.skip(old(self).bits@.len() - SAMPLES_CARRIED_OVER)
            } else {
                old(self).bits@
            }),
            old(self).bits@.len() > 30 ==> final(self).bits@ == old(self).bits@.skip(
                old(self).bits@.len() - 30,
            ),
    {
        let total: usize = self.bits.len();
        if total > SAMPLES_CARRIED_OVER {
            let kept = self.bits.split_off(total - SAMPLES_CARRIED_OVER);
            self.bits = kept;
            assert(self.bits@ =~= old(self).bits@.skip(total - SAMPLES_CARRIED_OVER));
        }
    }
}

// ---------------------------------------------------------------------------
// Laws
// ---------------------------------------------------------------------------

/// No trade is resolved twice: once the last resolved market is set, none of the
/// samples up to it resolves to anything.
pub proof fn law_no_sample_resolves_twice(pending: Seq<PendingSample>, last_resolved: i64, up_won: bool)
    requires
        forall|i: int| 0 <= i < pending.len() ==> (#[trigger] pending[i]).market_interval
            <= last_resolved,
    ensures
        picked(pending, resolving(last_resolved, up_won)) == Seq::<ResolvedSample>::empty(),
    decreases pending.len(),
{
    if pending.len() > 0 {
        let before = pending.drop_last();
        assert forall|i: int| 0 <= i < before.len() implies (#[trigger] before[i]).market_interval
            <= last_resolved by {
            assert(before[i] == pending[i]);
        }
        law_no_sample_resolves_twice(before, last_resolved, up_won);
        assert(pending.last() == pending[pending.len() - 1]);
    }
}

/// Of a resolved market, exactly one side has won.
pub proof fn law_one_side_wins(up_won: bool)
    ensures
        side_won(Side::Up, up_won) != side_won(Side::Down, up_won),
{
}

/// Both sides can trade equally often.
pub proof fn law_both_sides_trade_equally(balance: Dec, position_size: Dec)
    ensures
        affordable_trades(balance, position_size) matches Some(n) ==> n % 2 == 0,
{
}

/// A sample of a market that was not resolved before resolves to its side and
/// probability, as won exactly where the price went its way; any other resolves
/// to nothing.
pub proof fn law_samples_win_with_the_price(p: PendingSample, i: int, last_resolved: i64, up_won: bool)
    ensures
        p.market_interval <= last_resolved ==> resolving(last_resolved, up_won)(i, p) is None,
        p.market_interval > last_resolved && p.side == Side::Up ==> resolving(
            last_resolved,
            up_won,
        )(i, p) == Some(
            ResolvedSample { raw_prob_bits: p.raw_prob_bits, side: Side::Up, won: up_won },
        ),
        p.market_interval > last_resolved && p.side == Side::Down ==> resolving(
            last_resolved,
            up_won,
        )(i, p) == Some(
            ResolvedSample { raw_prob_bits: p.raw_prob_bits, side: Side::Down, won: !up_won },
        ),
{
}

/// The interval before a market's lies five minutes before it.
pub proof fn law_interval_before_is_five_minutes_earlier(interval_start: i64)
    ensures
        interval_start - 300 >= i64::MIN ==> interval_before(interval_start) == interval_start - 300,
        interval_start - 300 < i64::MIN ==> interval_before(interval_start) == i64::MIN,
{
}

/// A new session starts its own counts of entries from zero and keeps all others.
pub proof fn law_session_starts_its_counts(t: Tally)
    ensures
        tally_for_session(t).up_trade_count == 0,
        tally_for_session(t).down_trade_count == 0,
        tally_for_session(t).session_trade_count == 0,
        t == (Tally {
            up_trade_count: t.up_trade_count,
            down_trade_count: t.down_trade_count,
            session_trade_count: t.session_trade_count,
            ..tally_for_session(t)
        }),
{
}

/// What is open as a market ends is given up: without positions the tally stays,
/// and with positions their shares are balanced, where that can be computed.
pub proof fn law_session_gives_up_what_is_open(s: SharedState)
    ensures
        s.positions@.len() == 0 ==> can_give_up(s) && tally_given_up(s) == s.tally,
        s.positions@.len() > 0 ==> (can_give_up(s) <==> tally_without(s.tally, s.positions@) is Some)
            && (can_give_up(s) ==> Some(tally_given_up(s)) == tally_without(s.tally, s.positions@)),
{
}

/// The trades that a balance pays for: nine tenths of it, divided by half the
/// size of a position, rounded down to an even number.
pub proof fn law_balance_pays_for_even_trades(
    balance: Dec,
    position_size: Dec,
    usable: Dec,
    cost: Dec,
    ratio: Dec,
)
    requires
        balance.spec_times(Dec::of(90, 2)) == Some(usable),
        position_size.spec_times(Dec::of(50, 2)) == Some(cost),
        usable.spec_over(cost) == Some(ratio),
        dec_in_range(ratio.spec_mantissa(), ratio.spec_scale()),
    ensures
        ({
            let whole = ratio.spec_mantissa() / pow10(ratio.spec_scale());
            let n = affordable_trades(balance, position_size)->0;
            &&& affordable_trades(balance, position_size) is Some
            &&& n % 2 == 0
            &&& 0 <= whole <= u32::MAX ==> n <= whole < n + 2
            &&& whole < 0 || whole > u32::MAX ==> n == 0
        }),
{
    let p = pow10(ratio.spec_scale());
    let m = ratio.spec_mantissa();
    lemma_pow10_positive(ratio.spec_scale());
    let whole = m / p;
    assert(-79228162514264337593543950335 <= whole <= 79228162514264337593543950335)
        by (nonlinear_arith)
        requires
            p >= 1,
            whole == m / p,
            -79228162514264337593543950335 <= m <= 79228162514264337593543950335,
    ;
    lemma_literal(whole, 0);
    assert(pow10(0) == 1);
}

/// The trades of a session: where the balance is not known just the limit; where
/// it is known what it pays for, but never more than the limit; and in a dry run
/// a wallet that pays for none does not stop it.
pub proof fn law_session_limit_is_what_the_balance_pays_for(
    balance: Dec,
    position_size: Dec,
    dry_run: bool,
    trade_limit: u32,
)
    ensures
        session_limit(None, position_size, dry_run, trade_limit) == Some(trade_limit),
        affordable_trades(balance, position_size) is None ==> session_limit(
            Some(balance),
            position_size,
            dry_run,
            trade_limit,
        ) is None,
        affordable_trades(balance, position_size) matches Some(n) ==> {
            let limit = session_limit(Some(balance), position_size, dry_run, trade_limit);
            &&& limit is Some
            &&& limit->0 <= trade_limit
            &&& n >= trade_limit ==> limit->0 == trade_limit
            &&& 0 < n < trade_limit ==> limit->0 == n
            &&& n == 0 && dry_run ==> limit->0 == trade_limit
            &&& n == 0 && !dry_run ==> limit->0 == 0
        },
{
}

/// The shares of both sides are out of balance exactly where they are more than
/// five apart, and then by how much they are.
pub proof fn law_imbalance_is_more_than_five(t: Tally, d: Dec)
    requires
        t.up_shares_bought.spec_minus(t.down_shares_bought) == Some(d),
    ensures
        d.spec_abs()@ > 50000000000000000000000000000 ==> share_imbalance(t) == Some(d.spec_abs()),
        d.spec_abs()@ <= 50000000000000000000000000000 ==> share_imbalance(t) is None,
{
}

/// The shares of both sides are compared every minute.
pub proof fn law_shares_are_compared_every_minute()
    ensures
        RECONCILE_INTERVAL_MS == 60_000,
{
}

} // verus!
