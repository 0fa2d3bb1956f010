use position_manager::accounting::{EntryFill, ExitKind};
use position_manager::bot::{next_min_volatility, Connection, ConnectionStatus};
use position_manager::config::{read_config, BotConfig, BotTexts};
use position_manager::decimal::Dec;
use position_manager::market::BtcMarket;
use position_manager::orderbook::Orderbook;
use position_manager::session::{is_due, max_trades_for, resolve_samples, VolatilitySamples};
use position_manager::side::Side;
use position_manager::strategy::{decide_exit, entry_signal, lowest_entry, quote_entry, size_entry, BookCheck, EntryDecision, LeaveReason, PriceQuote, Reading, TickStage};
use position_manager::trader::{sum_sizes, BlockReason, EntryType, PendingSample, Position, SharedState};

fn d(text: &str) -> Dec {
    Dec::parse(text).unwrap()
}

fn config() -> BotConfig {
    read_config(&BotTexts { dry_run: None, position_size: None, tick_threshold: None, min_hold_ms: None, hold_timeout_ms: None, max_trades: None })
}

fn bot() -> SharedState {
    SharedState::new(&config(), 1000)
}

fn market(slug: &str, start: i64) -> BtcMarket {
    BtcMarket { slug: slug.to_string(), up_token_id: String::from("u"), down_token_id: String::from("d"), interval_start: start }
}

fn fill(side: Side, price: &str, size: &str, interval: i64) -> EntryFill {
    EntryFill {
        side,
        price: d(price),
        size: d(size),
        trigger_exchange: String::from("Kraken"),
        is_safe_entry: false,
        is_reversal: false,
        market_interval_start: interval,
        predicted_vol_bits: 7.5f32.to_bits(),
        direction_prob_raw_bits: 0.61f32.to_bits(),
        direction_prob_cal_bits: 0.6f32.to_bits(),
        entry_z_bits: 0.9f64.to_bits(),
        displacement_bits: 0,
        elapsed_bits: 0,
        liq_count_bits: 0,
    }
}

fn quiet() -> Reading {
    Reading {
        z_positive: true,
        z_negative: false,
        z_faded: false,
        z_enters_up: false,
        z_enters_down: false,
        z_extreme: false,
        z_optimal: false,
        momentum_flipped: false,
        vol_too_low: false,
        vol_good: false,
    }
}

fn rising() -> Reading {
    Reading { z_enters_up: true, ..quiet() }
}

/// A bot with a sound book and five ticks up.
fn ready_bot() -> SharedState {
    let mut s = bot();
    s.orderbook.up_best_ask = Some(d("0.60"));
    s.orderbook.up_best_bid = Some(d("0.58"));
    s.orderbook.down_best_ask = Some(d("0.42"));
    s.orderbook.down_best_bid = Some(d("0.40"));
    s.orderbook.last_update_ms = Some(1000);
    for n in 0..6 {
        s.take_tick(d("97000"), 1, 3, 1000 + n);
    }
    s
}

#[test]
fn an_entry_opens_a_position() {
    let mut s = ready_bot();
    assert!(s.record_entry(fill(Side::Up, "0.45", "30", 600), 2000));
    assert_eq!(s.positions.len(), 1);
    let p = &s.positions[0];
    assert_eq!((p.side, p.entry_ms, p.market_interval_start), (Side::Up, 2000, 600));
    assert_eq!(p.entry_type(), EntryType::Momentum);
    assert!(s.tally.up_shares_bought.same(d("30")));
    assert_eq!((s.tally.up_entry_count, s.tally.up_trade_count, s.tally.session_trade_count), (1, 1, 1));
    assert_eq!(s.tally.down_entry_count, 0);
    assert_eq!(s.last_entry_side, Some(Side::Up));
    assert_eq!(s.last_entry_ms, Some(2000));
    assert!(s.last_third_ms.is_none());
    assert!(s.ticks.directions.is_empty());
    assert_eq!(s.pending_calibration, vec![PendingSample { raw_prob_bits: 0.61f32.to_bits(), market_interval: 600, side: Side::Up }]);
    assert!(s.record_entry(fill(Side::Down, "0.40", "10", 600), 2100));
    assert!(s.record_entry(fill(Side::Up, "0.40", "5.5", 600), 2200));
    assert_eq!(s.last_third_ms, Some(2200));
    assert!(sum_sizes(&s.positions, Side::Up).unwrap().same(d("35.5")));
    assert!(sum_sizes(&s.positions, Side::Down).unwrap().same(d("10")));
}

#[test]
fn leaving_buys_the_other_side() {
    let mut s = bot();
    s.record_entry(fill(Side::Up, "0.45", "30", 600), 2000);
    let pnl = s.exit_position_at(0, d("0.50"), ExitKind::Regular, 4000, 99).unwrap();
    assert!(pnl.same(d("0.05")));
    assert!(s.positions.is_empty());
    assert!(s.tally.total_pnl.same(d("1.5")));
    assert!(s.tally.up_shares_bought.same(s.tally.down_shares_bought));
    assert_eq!((s.tally.trade_count, s.tally.win_count, s.tally.up_exit_count), (1, 1, 1));
    let t = &s.trades[0];
    assert_eq!((t.time_ms, t.hold_ms, t.side, t.trigger_exchange.as_str()), (99, 4000, Side::Up, "Kraken"));
    assert_eq!(t.z_bits, 0.9f64.to_bits());
    assert!(t.pnl.same(d("0.05")));
}

#[test]
fn losses_are_no_wins() {
    let mut s = bot();
    s.record_entry(fill(Side::Down, "0.60", "10", 600), 2000);
    let pnl = s.exit_position_at(0, d("0.45"), ExitKind::Emergency, 4000, 99).unwrap();
    assert!(pnl.same(d("-0.05")));
    assert!(s.tally.total_pnl.same(d("-0.5")));
    assert_eq!((s.tally.trade_count, s.tally.win_count, s.tally.down_exit_count), (1, 0, 1));
    assert_eq!(s.trades[0].trigger_exchange, "EMERGENCY");
    assert!(s.tally.imbalance().is_none());
}

#[test]
fn a_forced_exit_leaves_no_record() {
    let mut s = bot();
    s.record_entry(fill(Side::Up, "0.45", "30", 600), 2000);
    s.exit_position_at(0, d("0.50"), ExitKind::Forced, 4000, 99);
    assert!(s.trades.is_empty());
    assert_eq!((s.tally.trade_count, s.tally.win_count), (1, 1));
}

#[test]
fn only_the_last_twenty_trades_are_kept() {
    let mut s = bot();
    for n in 0..25 {
        s.record_entry(fill(Side::Up, "0.45", "1", 600), 2000);
        s.exit_position_at(0, d("0.50"), ExitKind::Regular, 1, n);
    }
    assert_eq!(s.trades.len(), 20);
    assert_eq!(s.trades[0].time_ms, 24);
    assert_eq!(s.trades[19].time_ms, 5);
    assert_eq!((s.tally.trade_count, s.tally.win_count), (25, 25));
}

#[test]
fn open_positions_are_found_again() {
    let mut s = bot();
    s.record_entry(fill(Side::Up, "0.45", "1", 600), 2000);
    s.record_entry(fill(Side::Up, "0.46", "1", 600), 2000);
    let second = s.positions[1].duplicate();
    assert_eq!(s.find_open(&second), Some(1));
    s.positions[1].entry_ms = 1;
    assert_eq!(s.find_open(&second), None);
    s.record_failed_exit();
    assert_eq!(s.tally.failed_exit_count, 1);
}

#[test]
fn stale_positions_are_balanced_away() {
    let mut s = bot();
    s.record_entry(fill(Side::Up, "0.45", "30", 300), 2000);
    s.record_entry(fill(Side::Down, "0.45", "10", 300), 2000);
    s.record_entry(fill(Side::Up, "0.45", "5", 600), 2000);
    let cleared = s.clear_stale_positions(600).unwrap();
    assert_eq!(cleared.count, 2);
    assert!(cleared.up.same(d("30")));
    assert!(cleared.down.same(d("10")));
    assert_eq!(s.positions.len(), 1);
    assert!(s.tally.up_shares_bought.same(d("45")));
    assert!(s.tally.down_shares_bought.same(d("40")));
    assert!(s.clear_stale_positions(600).is_none());
    let cleared = s.clear_orphaned_positions().unwrap();
    assert_eq!(cleared.count, 1);
    assert!(s.tally.up_shares_bought.same(s.tally.down_shares_bought));
    assert!(s.clear_orphaned_positions().is_none());
}

#[test]
fn shares_apart_are_noticed() {
    let mut s = bot();
    s.tally.up_shares_bought = d("15");
    s.tally.down_shares_bought = d("10");
    assert!(s.tally.imbalance().is_none());
    s.tally.down_shares_bought = d("20.5");
    assert!(s.tally.imbalance().unwrap().same(d("5.5")));
}

#[test]
fn positions_are_left_for_a_reason() {
    let r = quiet();
    assert_eq!(decide_exit(Side::Up, 0, 30, 3500, 7500, &r), Some(LeaveReason::MarketClose));
    assert_eq!(decide_exit(Side::Up, 7500, 200, 3500, 7500, &r), Some(LeaveReason::Timeout));
    assert_eq!(decide_exit(Side::Up, 5000, 200, 3500, 7500, &r), None);
    let faded = Reading { z_faded: true, z_positive: false, ..r };
    assert_eq!(decide_exit(Side::Up, 3499, 200, 3500, 7500, &faded), None);
    assert_eq!(decide_exit(Side::Up, 3500, 200, 3500, 7500, &faded), Some(LeaveReason::MomentumFaded));
    let faded_with_us = Reading { z_faded: true, ..r };
    assert_eq!(decide_exit(Side::Up, 3500, 200, 3500, 7500, &faded_with_us), None);
    assert_eq!(decide_exit(Side::Down, 3500, 200, 3500, 7500, &faded_with_us), Some(LeaveReason::MomentumFaded));
    let flipped = Reading { momentum_flipped: true, z_positive: false, z_negative: true, ..r };
    assert_eq!(decide_exit(Side::Up, 3500, 200, 3500, 7500, &flipped), Some(LeaveReason::MomentumReversed));
    assert_eq!(decide_exit(Side::Down, 3500, 200, 3500, 7500, &flipped), None);
    assert_eq!(decide_exit(Side::Up, 31_000, 61, 3500, 90_000, &r), Some(LeaveReason::TimeScaled));
    assert_eq!(decide_exit(Side::Up, 30_500, 61, 3500, 90_000, &r), None);
    assert_eq!(decide_exit(Side::Up, 31_000, 60, 3500, 90_000, &r), None);
}

#[test]
fn all_positions_are_judged() {
    let mut s = ready_bot();
    s.record_entry(fill(Side::Up, "0.45", "1", 600), 1000);
    s.record_entry(fill(Side::Down, "0.45", "1", 600), 9000);
    assert_eq!(s.positions_to_exit(&quiet(), 200, 9500), vec![(0, LeaveReason::Timeout)]);
    assert_eq!(s.positions_to_exit(&quiet(), 10, 9500).len(), 2);
    assert!(s.overdue_positions(30_999).is_empty());
    assert_eq!(s.overdue_positions(31_000), vec![0]);
    assert!(s.exit_price(Side::Up).unwrap().same(d("0.42")));
    assert!(s.exit_price(Side::Down).unwrap().same(d("0.60")));
}

#[test]
fn a_signal_needs_ticks_and_displacement() {
    assert_eq!(entry_signal(&rising(), 4, 4), Some(Side::Up));
    assert_eq!(entry_signal(&rising(), 3, 4), None);
    assert_eq!(entry_signal(&rising(), -5, 4), None);
    let falling = Reading { z_enters_down: true, ..quiet() };
    assert_eq!(entry_signal(&falling, -4, 4), Some(Side::Down));
    assert_eq!(entry_signal(&falling, -3, 4), None);
    assert_eq!(entry_signal(&falling, 5, 4), None);
    assert_eq!(entry_signal(&quiet(), 5, 4), None);
}

#[test]
fn an_entry_needs_as_many_net_ticks_as_the_threshold() {
    let mut s = ready_bot();
    assert_eq!(s.tick_threshold, 4);
    s.ticks.clear();
    for direction in [1, -1, 1, -1, 1] {
        s.ticks.push(direction);
    }
    assert_eq!(s.ticks.net_ticks(), 1);
    assert!(s.consider_entry(&rising(), 2000).is_none());
    assert_eq!(s.block_reason, BlockReason::NoMomentum);
    for _ in 0..3 {
        s.lower_threshold();
    }
    assert!(matches!(s.consider_entry(&rising(), 2000), Some(EntryDecision::Enter { .. })));
}

#[test]
fn entries_are_quoted_at_the_lower_price() {
    let mut book = Orderbook::new();
    assert!(matches!(quote_entry(&book, Side::Up), PriceQuote::Missing));
    book.up_best_ask = Some(d("0.60"));
    match quote_entry(&book, Side::Up) {
        PriceQuote::At(price) => assert!(price.same(d("0.60"))),
        other => panic!("{:?}", other),
    }
    book.down_best_bid = Some(d("0.45"));
    match quote_entry(&book, Side::Up) {
        PriceQuote::At(price) => assert!(price.same(d("0.55"))),
        other => panic!("{:?}", other),
    }
    book.up_best_ask = None;
    match quote_entry(&book, Side::Up) {
        PriceQuote::At(price) => assert!(price.same(d("0.55"))),
        other => panic!("{:?}", other),
    }
    book.down_best_bid = Some(Dec::from_parts(-79228162514264337593543950335, 0).unwrap());
    assert!(matches!(quote_entry(&book, Side::Up), PriceQuote::Overflow));
}

#[test]
fn good_entries_are_larger() {
    let good = Reading { z_optimal: true, vol_good: true, ..quiet() };
    assert!(size_entry(d("30"), d("0.40"), &good).unwrap().same(d("60")));
    assert!(size_entry(d("30"), d("0.60"), &good).unwrap().same(d("45")));
    assert!(size_entry(d("30"), d("0.30"), &quiet()).unwrap().same(d("45")));
    assert!(size_entry(d("30"), d("0.50"), &quiet()).unwrap().same(d("45")));
    assert!(size_entry(d("30"), d("0.51"), &quiet()).unwrap().same(d("30")));
    let half = Reading { z_optimal: true, ..quiet() };
    assert!(size_entry(d("30"), d("0.29"), &half).unwrap().same(d("30")));
}

#[test]
fn a_signal_is_entered() {
    let mut s = ready_bot();
    match s.consider_entry(&rising(), 2000) {
        Some(EntryDecision::Enter { side, price, size }) => {
            assert_eq!(side, Side::Up);
            assert!(price.same(d("0.60")));
            assert!(size.same(d("30")));
        }
        other => panic!("{:?}", other),
    }
    assert_eq!(s.block_reason, BlockReason::Ready);
    assert_eq!(s.momentum_signals, 1);
    assert_eq!(s.last_big_move_ms, Some(2000));
    assert_eq!(s.last_big_move_side, Some(Side::Up));
    assert!(s.last_big_move_price.unwrap().same(d("0.60")));
    s.forget_old_move(22_000);
    assert!(s.last_big_move_ms.is_some());
    s.forget_old_move(22_001);
    assert!(s.last_big_move_ms.is_none());
}

#[test]
fn without_a_signal_nothing_is_entered() {
    let mut s = ready_bot();
    assert!(s.consider_entry(&quiet(), 2000).is_none());
    assert_eq!(s.block_reason, BlockReason::NoMomentum);
    assert_eq!(s.momentum_signals, 0);
}

#[test]
fn open_positions_limit_entries() {
    let mut s = ready_bot();
    for n in 0..5 {
        s.record_entry(fill(Side::Up, "0.60", "1", 600), n);
    }
    assert!(matches!(s.judge_signal(Side::Up, &rising(), 90_000), EntryDecision::Blocked(BlockReason::MaxPositions)));
    assert_eq!(s.block_reason, BlockReason::MaxPositions);
    s.positions[0].is_safe_entry = true;
    assert!(matches!(s.judge_signal(Side::Up, &rising(), 90_000), EntryDecision::Enter { .. }));
}

#[test]
fn a_side_is_not_chased() {
    let mut s = ready_bot();
    s.record_entry(fill(Side::Up, "0.56", "1", 600), 1000);
    s.record_entry(fill(Side::Up, "0.54", "1", 600), 1000);
    assert!(lowest_entry(&s.positions, Side::Up).unwrap().same(d("0.54")));
    assert!(lowest_entry(&s.positions, Side::Down).is_none());
    assert!(matches!(s.judge_signal(Side::Up, &rising(), 90_000), EntryDecision::Blocked(BlockReason::PriceOutOfRange)));
    s.positions[1].entry_price = d("0.55");
    assert!(matches!(s.judge_signal(Side::Up, &rising(), 90_000), EntryDecision::Enter { .. }));
}

#[test]
fn the_third_position_is_followed_by_a_pause() {
    let mut s = ready_bot();
    s.last_third_ms = Some(10_000);
    assert!(matches!(s.judge_signal(Side::Up, &rising(), 17_499), EntryDecision::Pausing));
    assert_eq!(s.last_third_ms, Some(10_000));
    assert!(matches!(s.judge_signal(Side::Up, &rising(), 17_500), EntryDecision::Enter { .. }));
    assert!(s.last_third_ms.is_none());
}

#[test]
fn turning_round_can_be_delayed() {
    let mut s = ready_bot();
    s.last_entry_side = Some(Side::Down);
    s.last_entry_ms = Some(5000);
    s.direction_cooldown_ms = 1000;
    assert!(matches!(s.judge_signal(Side::Up, &rising(), 5999), EntryDecision::Blocked(BlockReason::DirectionCooldown)));
    assert!(matches!(s.judge_signal(Side::Up, &rising(), 6000), EntryDecision::Enter { .. }));
    s.last_entry_side = Some(Side::Up);
    assert!(matches!(s.judge_signal(Side::Up, &rising(), 5999), EntryDecision::Enter { .. }));
}

#[test]
fn each_side_has_its_share_of_trades() {
    let mut s = ready_bot();
    s.max_trades = 5;
    s.tally.up_trade_count = 2;
    assert!(matches!(s.judge_signal(Side::Up, &rising(), 5999), EntryDecision::Blocked(BlockReason::MaxTradesReached)));
    s.tally.up_trade_count = 1;
    assert!(matches!(s.judge_signal(Side::Up, &rising(), 5999), EntryDecision::Enter { .. }));
    for (limit, made) in [(1, 0), (1, 9), (0, 0), (0, 1000)] {
        s.max_trades = limit;
        s.tally.up_trade_count = made;
        assert!(matches!(s.judge_signal(Side::Up, &rising(), 5999), EntryDecision::Blocked(BlockReason::MaxTradesReached)));
    }
}

#[test]
fn a_session_never_exceeds_its_limit() {
    let mut s = ready_bot();
    s.max_trades = 4;
    for n in 0..9 {
        if let EntryDecision::Enter { side, price, .. } = s.judge_signal(Side::Up, &rising(), 90_000 + n) {
            let mut entry = fill(side, "0.60", "1", 600);
            entry.price = price;
            assert!(s.record_entry(entry, 90_000 + n));
        }
    }
    assert_eq!((s.tally.up_trade_count, s.tally.down_trade_count), (2, 0));
    assert_eq!(s.block_reason, BlockReason::MaxTradesReached);
}

#[test]
fn a_large_wallet_does_not_lift_the_limit() {
    let mut s = ready_bot();
    assert_eq!(s.set_balance(Some(d("100000"))), Some(10));
    assert_eq!(s.max_trades, 20);
}

#[test]
fn an_empty_wallet_stops_only_real_trades() {
    let mut s = ready_bot();
    assert!(s.dry_run);
    assert_eq!(s.set_balance(Some(d("0"))), Some(10));
    assert!(matches!(s.judge_signal(Side::Up, &rising(), 5999), EntryDecision::Enter { .. }));
    s.dry_run = false;
    assert_eq!(s.set_balance(Some(d("0"))), Some(0));
    assert!(matches!(s.judge_signal(Side::Up, &rising(), 5999), EntryDecision::Blocked(BlockReason::MaxTradesReached)));
    assert_eq!(s.set_balance(None), Some(10));
    assert!(s.wallet_balance.same(d("0")));
    assert!(matches!(s.judge_signal(Side::Up, &rising(), 5999), EntryDecision::Enter { .. }));
}

#[test]
fn entries_stay_between_five_and_ninety_five_cents() {
    let mut s = ready_bot();
    s.orderbook.down_best_bid = None;
    for (ask, allowed) in [("0.04", false), ("0.05", true), ("0.95", true), ("0.96", false)] {
        s.orderbook.up_best_ask = Some(d(ask));
        let decision = s.judge_signal(Side::Up, &rising(), 5999);
        assert_eq!(matches!(decision, EntryDecision::Enter { .. }), allowed);
        assert_eq!(matches!(decision, EntryDecision::Blocked(BlockReason::PriceOutOfRange)), !allowed);
    }
    s.orderbook.up_best_ask = None;
    assert!(matches!(s.judge_signal(Side::Up, &rising(), 5999), EntryDecision::Blocked(BlockReason::PriceOutOfRange)));
}

#[test]
fn models_can_refuse_an_entry() {
    let mut s = ready_bot();
    let flat = Reading { vol_too_low: true, z_extreme: true, ..rising() };
    assert!(matches!(s.judge_signal(Side::Up, &flat, 5999), EntryDecision::Filtered));
    assert_eq!(s.ml_filtered_count, 1);
    assert_eq!(s.block_reason, BlockReason::MLFiltered);
    let extreme = Reading { z_extreme: true, ..rising() };
    assert!(matches!(s.judge_signal(Side::Up, &extreme, 5999), EntryDecision::Extreme));
    assert_eq!(s.ml_filtered_count, 1);
}

#[test]
fn what_cannot_be_computed_is_not_entered() {
    let mut s = ready_bot();
    s.position_size = Dec::from_parts(79228162514264337593543950335, 0).unwrap();
    s.orderbook.up_best_ask = Some(d("0.40"));
    assert!(matches!(s.judge_signal(Side::Up, &rising(), 5999), EntryDecision::Uncomputable));
    s.record_entry(fill(Side::Up, "0.5", "1", 600), 1000);
    s.positions[0].entry_price = Dec::from_parts(79228162514264337593543950335, 2).unwrap();
    assert!(matches!(s.judge_signal(Side::Up, &rising(), 5999), EntryDecision::Uncomputable));
}

#[test]
fn ticks_get_as_far_as_the_market_allows() {
    let mut s = bot();
    assert_eq!(s.open_tick(700), TickStage::NoMarket);
    assert_eq!(s.block_reason, BlockReason::NoMarket);
    s.market = Some(market("m", 600));
    s.block_reason = BlockReason::Ready;
    assert_eq!(s.open_tick(884), TickStage::Trading(16));
    assert_eq!(s.block_reason, BlockReason::Ready);
    assert_eq!(s.open_tick(885), TickStage::Closing(15));
    assert_eq!(s.block_reason, BlockReason::MarketClosing);
    assert_eq!(s.open_tick(895), TickStage::Closing(5));
    s.record_entry(fill(Side::Up, "0.5", "1", 600), 1000);
    assert_eq!(s.open_tick(894), TickStage::Closing(6));
    assert_eq!(s.open_tick(895), TickStage::ForcedExit(5));
}

#[test]
fn books_are_checked_before_trading() {
    let mut s = ready_bot();
    assert_eq!(s.check_book(6000), BookCheck::Good);
    assert_eq!(s.check_book(6001), BookCheck::Stale);
    assert_eq!(s.block_reason, BlockReason::OrderbookStale);
    assert!(s.orderbook.up_best_ask.is_some());
    s.orderbook.down_best_bid = Some(d("0.90"));
    assert_eq!(s.check_book(6000), BookCheck::Insane);
    assert!(s.orderbook.up_best_ask.is_none());
    assert_eq!(s.check_book(6000), BookCheck::Good);
}

#[test]
fn a_new_market_starts_with_an_empty_book() {
    let mut s = ready_bot();
    assert!(s.adopt_market(market("a", 300)));
    assert!(s.orderbook.up_best_ask.is_none());
    s.orderbook.up_best_ask = Some(d("0.5"));
    assert!(!s.adopt_market(market("a", 300)));
    assert!(s.orderbook.up_best_ask.is_some());
    assert!(s.adopt_market(market("b", 600)));
    assert!(s.orderbook.up_best_ask.is_none());
    assert_eq!(s.market.unwrap().interval_start, 600);
}

#[test]
fn samples_are_resolved_once() {
    let sample = |interval: i64, side: Side| PendingSample { raw_prob_bits: 1, market_interval: interval, side };
    let pending = vec![sample(300, Side::Up), sample(600, Side::Up), sample(600, Side::Down)];
    let resolved = resolve_samples(&pending, 300, true);
    assert_eq!(resolved.len(), 2);
    assert!(resolved[0].won);
    assert!(!resolved[1].won);
    assert!(resolve_samples(&pending, 600, true).is_empty());
}

#[test]
fn a_session_begins_with_everything_settled() {
    let mut s = bot();
    s.record_entry(fill(Side::Up, "0.5", "12", 600), 1000);
    s.record_entry(fill(Side::Down, "0.5", "2", 600), 1000);
    let report = s.begin_session(900, true, true, false).unwrap();
    let cleared = report.cleared.unwrap();
    assert_eq!(cleared.count, 2);
    assert!(cleared.up.same(d("12")));
    assert!(cleared.down.same(d("2")));
    assert_eq!(report.resolved.len(), 2);
    assert!(!report.resolved[0].won);
    assert!(report.resolved[1].won);
    assert!(s.positions.is_empty() && s.pending_calibration.is_empty());
    assert_eq!(s.last_resolved_market, 600);
    assert_eq!(s.last_market_trade_count, 2);
    assert_eq!(s.tally.session_trade_count, 0);
    assert_eq!((s.tally.up_entry_count, s.tally.down_entry_count), (1, 1));
    assert_eq!(s.session_start, Some(900));
    assert!(s.tally.up_shares_bought.same(s.tally.down_shares_bought));
}

#[test]
fn samples_wait_while_the_start_is_unknown() {
    let mut s = bot();
    s.record_entry(fill(Side::Up, "0.5", "12", 600), 1000);
    let report = s.begin_session(900, true, false, true).unwrap();
    assert!(report.resolved.is_empty());
    assert_eq!(s.pending_calibration.len(), 1);
    assert_eq!(s.last_resolved_market, 0);
    let report = s.begin_session(1200, false, true, true).unwrap();
    assert!(report.cleared.is_none());
    assert_eq!(report.resolved.len(), 1);
    assert_eq!(s.last_resolved_market, 0);
}

#[test]
fn a_balance_pays_for_an_even_number_of_trades() {
    assert_eq!(max_trades_for(d("100"), d("30")), Some(6));
    assert_eq!(max_trades_for(d("117"), d("30")), Some(6));
    assert_eq!(max_trades_for(d("134"), d("30")), Some(8));
    assert_eq!(max_trades_for(d("0"), d("30")), Some(0));
    assert_eq!(max_trades_for(d("10"), d("0")), None);
    let mut s = bot();
    assert_eq!(s.set_balance(Some(d("100"))), Some(3));
    assert_eq!(s.max_trades, 6);
    s.position_size = d("0");
    assert_eq!(s.set_balance(Some(d("50"))), None);
    assert_eq!(s.max_trades, 6);
    assert!(s.wallet_balance.same(d("50")));
}

#[test]
fn intervals_have_to_pass() {
    assert!(!is_due(1000, 61_000, 60_000));
    assert!(is_due(1000, 61_001, 60_000));
    assert!(!is_due(1000, 0, 60_000));
}

#[test]
fn volatility_samples_are_carried_over() {
    let mut v = VolatilitySamples::new();
    for n in 0..130 {
        v.push(n);
    }
    assert_eq!(v.bits.len(), 100);
    assert_eq!(v.bits[0], 30);
    v.carry_over();
    assert_eq!(v.bits, (100..130).collect::<Vec<u32>>());
    v.carry_over();
    assert_eq!(v.bits.len(), 30);
}

#[test]
fn silent_connections_are_restarted() {
    let mut c = Connection::new();
    assert!(!c.is_stale(99_000));
    c.status = ConnectionStatus::Connected;
    assert!(!c.is_stale(99_000));
    c.message(5, 1000);
    assert_eq!((c.msg_count, c.latency_ms), (1, 5));
    assert!(!c.is_stale(11_999));
    assert!(c.is_stale(12_000));
    c.restart(12_000);
    assert_eq!(c.status, ConnectionStatus::Disconnected);
    assert!(!c.is_stale(12_000));
    c.status = ConnectionStatus::Connected;
    assert!(!c.is_stale(12_000));
}

#[test]
fn a_new_bot_knows_nothing() {
    let s = bot();
    assert!(s.market.is_none() && s.positions.is_empty() && s.trades.is_empty());
    assert_eq!(s.block_reason, BlockReason::NoMarket);
    assert!(s.dry_run);
    assert!(s.position_size.same(d("30")));
    assert_eq!((s.tick_threshold, s.min_hold_ms, s.hold_timeout_ms, s.max_trades), (4, 3500, 7500, 20));
    assert_eq!(s.tally.trade_count, 0);
    assert_eq!(s.start_ms, 1000);
}

#[test]
fn the_bot_log_keeps_its_newest_lines() {
    let mut s = bot();
    for n in 0..103 {
        s.add_log("01:02:03", &format!("n{}", n));
    }
    assert_eq!(s.logs.len(), 100);
    assert_eq!(s.logs[0], "[01:02:03] n102");
    assert_eq!(s.logs[99], "[01:02:03] n3");
}

#[test]
fn trades_of_the_leading_exchange_are_taken_in() {
    let mut s = bot();
    s.take_tick(d("97000"), 0, 9, 2000);
    s.take_tick(d("97010"), 1, 8, 2100);
    assert!(s.btc_price.same(d("97010")));
    assert_eq!((s.binance.msg_count, s.binance.latency_ms, s.binance.last_msg_ms), (2, 8, Some(2100)));
    assert_eq!(s.ticks.directions.len(), 1);
    assert_eq!(s.history.prices.len(), 2);
    assert!(s.history.low.same(d("97000")));
    assert_eq!(s.uptime(3_724_000), "01:02:03");
}

#[test]
fn keys_of_the_bot_change_its_settings() {
    let mut s = bot();
    assert!(!s.toggle_dry_run());
    assert!(!s.dry_run);
    s.toggle_dry_run();
    s.market = Some(market("m", 600));
    assert!(s.toggle_dry_run());
    assert!(!s.toggle_dry_run());
    for _ in 0..20 {
        s.raise_threshold();
    }
    assert_eq!(s.tick_threshold, 10);
    for _ in 0..20 {
        s.lower_threshold();
    }
    assert_eq!(s.tick_threshold, 1);
    s.mark_pre_signed();
    assert!(s.pre_signed_up_ready && s.pre_signed_down_ready);
}

#[test]
fn the_minimum_volatility_goes_round() {
    assert_eq!(next_min_volatility(0), 5);
    assert_eq!(next_min_volatility(5), 10);
    assert_eq!(next_min_volatility(10), 15);
    assert_eq!(next_min_volatility(15), 0);
    assert_eq!(next_min_volatility(99), 5);
}

#[test]
fn block_reasons_have_texts() {
    assert_eq!(BlockReason::Ready.to_text(), "Ready to trade");
    assert_eq!(BlockReason::NoMarket.to_text(), "No market discovered");
    assert_eq!(BlockReason::MarketClosing.to_text(), "Market closing (<15s)");
    assert_eq!(BlockReason::OrderbookStale.to_text(), "Orderbook stale (>5s)");
    assert_eq!(BlockReason::MLFiltered.to_text(), "ML filtered (low volatility)");
    assert_eq!(BlockReason::DirectionCooldown.to_text(), "Direction cooldown active");
}

#[test]
fn entry_types_follow_the_flags() {
    let mut p = Position {
        side: Side::Up,
        entry_price: d("0.5"),
        entry_ms: 10,
        size: d("1"),
        predicted_vol_bits: 0,
        is_safe_entry: false,
        is_reversal: false,
        trigger_exchange: String::new(),
        direction_prob_raw_bits: 0,
        direction_prob_cal_bits: 0,
        market_interval_start: 0,
        entry_z_bits: 0,
        displacement_bits: 0,
        elapsed_bits: 0,
        liq_count_bits: 0,
    };
    assert_eq!(p.entry_type(), EntryType::Momentum);
    p.is_safe_entry = true;
    assert_eq!(p.entry_type(), EntryType::SafeEntry);
    p.is_reversal = true;
    assert_eq!(p.entry_type(), EntryType::Reversal);
    assert_eq!((p.held_ms(25), p.held_ms(5)), (15, 0));
}

#[test]
fn shares_stay_balanced_over_ticks() {
    let mut s = ready_bot();
    s.market = Some(market("m", 600));
    let balanced = |s: &SharedState| {
        let open = |side: Side| s.positions.iter().filter(|p| p.side == side).fold(Dec::zero(), |sum, p| sum.plus(p.size).unwrap());
        let bought = s.tally.up_shares_bought.minus(s.tally.down_shares_bought).unwrap();
        bought.same(open(Side::Up).minus(open(Side::Down)).unwrap())
    };
    assert!(balanced(&s));
    s.record_entry(fill(Side::Up, "0.45", "30", 600), 1000);
    s.record_entry(fill(Side::Down, "0.45", "45.5", 600), 1100);
    s.record_entry(fill(Side::Up, "0.45", "60", 300), 1200);
    assert!(balanced(&s));
    s.begin_tick(700, &None);
    assert_eq!(s.positions.len(), 2);
    assert!(balanced(&s));
    let p = s.positions[0].duplicate();
    s.settle_exit(&p, ExitKind::Regular, Some(d("0.5")), 10, 10);
    assert_eq!(s.positions.len(), 1);
    assert!(balanced(&s));
    s.begin_session(900, true, false, false);
    assert!(s.positions.is_empty() && balanced(&s));
}
