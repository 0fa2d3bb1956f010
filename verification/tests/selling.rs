use position_manager::checker::{check_positions, Trigger, TriggerKind};
use position_manager::decimal::Dec;
use position_manager::manager::AppState;
use position_manager::position::{PositionStatus, TrackedPosition};
use position_manager::selling::{best_bid, sell_order, sell_outcome, sell_reply, tick_decimals, usdc_balance, OrderOutcome, PostReply, SellAction, SellReply};
use position_manager::settings::{load_sl_tp_settings, price_text, read_price, save_sl_tp, SavedRow};

fn d(text: &str) -> Dec {
    Dec::parse(text).unwrap()
}

fn state(dry_run: bool) -> AppState {
    let mut s = AppState::new(dry_run, String::from("0xf"), 0);
    s.positions.push(TrackedPosition {
        token_id: String::from("a"),
        condition_id: String::new(),
        market_title: String::from("Rain"),
        outcome: String::from("Yes"),
        shares: d("10"),
        entry_price: d("0.50"),
        current_bid: Some(d("0.40")),
        current_ask: None,
        sl_price: Some(d("0.45")),
        tp_price: Some(d("0.90")),
        status: PositionStatus::Active,
        last_price_update: None,
        exit_pnl: None,
        min_order_size: None,
        tick_size: None,
        neg_risk: None,
        consensus: None,
        sl_trigger_count: 0,
        tp_trigger_count: 0,
    });
    s
}

fn trigger(kind: TriggerKind) -> Trigger {
    Trigger {
        index: 0,
        token_id: String::from("a"),
        market_title: String::from("Rain"),
        outcome: String::from("Yes"),
        shares: d("10"),
        entry_price: d("0.50"),
        bid_price: d("0.40"),
        kind,
    }
}

fn reply(success: bool, making: &str, taking: &str, order_id: &str) -> Option<PostReply> {
    Some(PostReply {
        success,
        error_msg: None,
        making_amount: d(making),
        taking_amount: d(taking),
        order_id: order_id.to_string(),
    })
}

#[test]
fn orders_are_cut_to_the_steps_of_the_market() {
    let order = sell_order(d("10.129"), d("0.5"), &vec![d("0.4567")], 2);
    assert_eq!(order.price.to_text(), "0.45");
    assert_eq!(order.size.to_text(), "10.12");
    let order = sell_order(d("3"), d("0.5678"), &Vec::new(), 3);
    assert_eq!(order.price.to_text(), "0.567");
    assert!(order.size.same(d("3")));
    assert!(order.price.le(d("0.5678")));
}

#[test]
fn orders_are_made_at_the_best_bid() {
    let bids = vec![d("0.10"), d("0.40"), d("0.55")];
    assert!(best_bid(&bids).unwrap().same(d("0.55")));
    assert!(best_bid(&vec![d("0.55"), d("0.40")]).unwrap().same(d("0.55")));
    assert!(best_bid(&Vec::new()).is_none());
    let order = sell_order(d("12.349"), d("0.50"), &bids, tick_decimals(Some(d("0.01"))));
    assert_eq!((order.price.to_text().as_str(), order.size.to_text().as_str()), ("0.55", "12.34"));
}

#[test]
fn a_resting_order_has_sold_nothing() {
    assert!(matches!(sell_reply(sell_outcome(&reply(true, "0", "0", "0xid"), d("0.4"))), SellReply::Unfilled));
    assert!(matches!(sell_reply(OrderOutcome::NotFilled), SellReply::Unfilled));
    match sell_reply(sell_outcome(&reply(true, "10", "4.5", ""), d("0.4"))) {
        SellReply::Filled(price) => assert!(price.same(d("0.45"))),
        other => panic!("{:?}", other),
    }
    match sell_reply(OrderOutcome::Unpriceable) {
        SellReply::Failed(text) => assert_eq!(text, "The price of the fill cannot be computed"),
        other => panic!("{:?}", other),
    }
}

#[test]
fn price_decimals_follow_the_step() {
    assert_eq!(tick_decimals(Some(d("0.01"))), 2);
    assert_eq!(tick_decimals(Some(d("0.001"))), 3);
    assert_eq!(tick_decimals(None), 3);
}

#[test]
fn replies_to_a_sell_order_are_told_apart() {
    match sell_outcome(&reply(true, "10", "4.5", ""), d("0.4")) {
        OrderOutcome::Filled(price) => assert!(price.same(d("0.45"))),
        other => panic!("{:?}", other),
    }
    match sell_outcome(&reply(true, "0", "0", "0xid"), d("0.4")) {
        OrderOutcome::Resting(price) => assert!(price.same(d("0.4"))),
        other => panic!("{:?}", other),
    }
    assert!(matches!(sell_outcome(&reply(true, "0", "0", ""), d("0.4")), OrderOutcome::NotFilled));
    assert!(matches!(sell_outcome(&reply(false, "10", "4", "x"), d("0.4")), OrderOutcome::NotFilled));
    assert!(matches!(sell_outcome(&reply(true, "0", "4", "x"), d("0.4")), OrderOutcome::Unpriceable));
    assert!(matches!(sell_outcome(&None, d("0.4")), OrderOutcome::NotFilled));
    let mut failed = reply(true, "10", "4.5", "x");
    failed.as_mut().unwrap().error_msg = Some(String::from("no match"));
    assert!(matches!(sell_outcome(&failed, d("0.4")), OrderOutcome::NotFilled));
    failed.as_mut().unwrap().error_msg = Some(String::new());
    assert!(matches!(sell_outcome(&failed, d("0.4")), OrderOutcome::Filled(_)));
}

#[test]
fn balances_come_in_millionths() {
    assert!(usdc_balance(d("12345678")).unwrap().same(d("12.345678")));
}

#[test]
fn fired_triggers_mark_their_position() {
    let mut s = state(false);
    s.mark_triggered(&trigger(TriggerKind::StopLoss));
    assert!(matches!(s.positions[0].status, PositionStatus::SLTriggered));
    s.mark_triggered(&trigger(TriggerKind::TakeProfit));
    assert!(matches!(s.positions[0].status, PositionStatus::TPTriggered));
    s.mark_triggered(&trigger(TriggerKind::Manual));
    assert!(matches!(s.positions[0].status, PositionStatus::Selling));
}

#[test]
fn a_dry_run_only_pretends() {
    for (kind, name) in [(TriggerKind::StopLoss, "SL"), (TriggerKind::TakeProfit, "TP"), (TriggerKind::Manual, "MANUAL")] {
        let mut s = state(true);
        match s.begin_sell(&trigger(kind)) {
            Some(SellAction::Record { entry, clear_settings }) => {
                assert_eq!(entry.trigger_type, name);
                assert_eq!(entry.status, "dry_run");
                assert!(entry.dry_run);
                assert!(entry.fill_price.is_none());
                assert!(entry.pnl_pct.unwrap().same(d("-20")));
                assert!(clear_settings);
            }
            other => panic!("{:?}", other),
        }
        assert!(matches!(s.positions[0].status, PositionStatus::Sold));
        assert!(s.positions[0].exit_pnl.unwrap().same(d("-20")));
        assert!(s.positions[0].sl_price.is_none());
        assert!(s.positions[0].tp_price.is_none());
        assert_eq!(s.sells_executed, 1);
    }
}

#[test]
fn a_live_sell_sends_the_order() {
    let mut s = state(false);
    match s.begin_sell(&trigger(TriggerKind::StopLoss)) {
        Some(SellAction::Sell { shares, price }) => {
            assert!(shares.same(d("10")));
            assert!(price.same(d("0.40")));
        }
        other => panic!("{:?}", other),
    }
    assert!(matches!(s.positions[0].status, PositionStatus::Selling));
    assert_eq!(s.sells_executed, 0);
}

#[test]
fn a_filled_sell_is_recorded() {
    let mut s = state(false);
    match s.settle_sell(&trigger(TriggerKind::TakeProfit), false, SellReply::Filled(d("0.55"))) {
        Some(SellAction::Record { entry, clear_settings }) => {
            assert_eq!(entry.status, "filled");
            assert!(entry.fill_price.unwrap().same(d("0.55")));
            assert!(entry.pnl_pct.unwrap().same(d("10")));
            assert!(!entry.dry_run);
            assert!(clear_settings);
        }
        other => panic!("{:?}", other),
    }
    assert!(matches!(s.positions[0].status, PositionStatus::Sold));
    assert!(s.positions[0].shares.same(d("10")));
    assert!(s.positions[0].sl_price.is_none());
    assert_eq!(s.sells_executed, 1);
}

#[test]
fn an_unfilled_sell_is_tried_once_more() {
    let mut s = state(false);
    let fired = trigger(TriggerKind::StopLoss);
    assert!(matches!(s.settle_sell(&fired, false, SellReply::Unfilled), Some(SellAction::Retry)));
    assert!(matches!(s.positions[0].status, PositionStatus::Active));
    match s.settle_sell(&fired, true, SellReply::Unfilled) {
        Some(SellAction::Record { entry, clear_settings }) => {
            assert_eq!(entry.status, "failed");
            assert!(!clear_settings);
        }
        other => panic!("{:?}", other),
    }
    assert_eq!(s.positions[0].status.to_text(), "ERR: Sell returned no fill");
    assert_eq!(s.sells_executed, 0);
}

#[test]
fn a_filled_retry_is_recorded_as_such() {
    let mut s = state(false);
    match s.settle_sell(&trigger(TriggerKind::StopLoss), true, SellReply::Filled(d("0.39"))) {
        Some(SellAction::Record { entry, .. }) => assert_eq!(entry.status, "filled_retry"),
        other => panic!("{:?}", other),
    }
    assert!(matches!(s.positions[0].status, PositionStatus::Sold));
    assert_eq!(s.sells_executed, 1);
}

#[test]
fn a_failed_sell_leaves_an_error() {
    let mut s = state(false);
    match s.settle_sell(&trigger(TriggerKind::StopLoss), false, SellReply::Failed(String::from("timeout"))) {
        Some(SellAction::Record { entry, clear_settings }) => {
            assert_eq!(entry.status, "error: timeout");
            assert!(entry.fill_price.is_none());
            assert!(!clear_settings);
        }
        other => panic!("{:?}", other),
    }
    assert_eq!(s.positions[0].status.to_text(), "ERR: timeout");
}

#[test]
fn a_sale_without_an_entry_price_has_no_logged_profit() {
    let mut s = state(true);
    s.positions[0].entry_price = d("0");
    let mut fired = trigger(TriggerKind::StopLoss);
    fired.entry_price = d("0");
    match s.begin_sell(&fired) {
        Some(SellAction::Record { entry, .. }) => assert!(entry.pnl_pct.is_none()),
        other => panic!("{:?}", other),
    }
    assert!(s.positions[0].exit_pnl.unwrap().same(d("0")));
}

#[test]
fn a_sell_by_hand_that_does_not_fill_is_watched_again() {
    let mut s = state(false);
    let fired = trigger(TriggerKind::Manual);
    s.begin_sell(&fired);
    let (done, action) = s.settle_force_sell(&fired, &SellReply::Unfilled);
    assert!(done);
    assert!(action.is_none());
    assert!(matches!(s.positions[0].status, PositionStatus::Active));
    assert!(s.positions[0].sl_price.is_some());
    let (done, action) = s.settle_force_sell(&fired, &SellReply::Failed(String::from("x")));
    assert!(done && action.is_none());
    match s.settle_force_sell(&fired, &SellReply::Filled(d("0.6"))) {
        (true, Some(SellAction::Record { entry, clear_settings: true })) => {
            assert_eq!(entry.trigger_type, "MANUAL");
            assert_eq!(entry.status, "filled");
            assert!(entry.pnl_pct.unwrap().same(d("20")));
        }
        other => panic!("{:?}", other),
    }
    assert!(matches!(s.positions[0].status, PositionStatus::Sold));
    assert_eq!(s.sells_executed, 1);
}

#[test]
fn a_sold_position_never_fires_again() {
    let mut s = state(false);
    s.settle_sell(&trigger(TriggerKind::StopLoss), true, SellReply::Filled(d("0.4")));
    s.positions[0].current_bid = Some(d("0.01"));
    for _ in 0..30 {
        assert!(check_positions(&mut s.positions).triggers.is_empty());
    }
}

#[test]
fn a_trigger_of_a_position_that_is_gone_changes_no_position() {
    let mut s = state(true);
    let mut fired = trigger(TriggerKind::StopLoss);
    fired.index = 7;
    assert!(s.begin_sell(&fired).is_some());
    assert!(matches!(s.positions[0].status, PositionStatus::Active));
    assert_eq!(s.sells_executed, 0);
}

#[test]
fn saved_triggers_read_back_unchanged() {
    let row = save_sl_tp(&String::from("a"), Some(d("0.455")), None);
    assert_eq!(row.token_id, "a");
    assert_eq!(row.sl_text.as_deref(), Some("0.455"));
    assert!(row.tp_text.is_none());
    let loaded = load_sl_tp_settings(&vec![row]);
    assert_eq!(loaded.len(), 1);
    assert!(loaded[0].sl_price.unwrap().same(d("0.455")));
    assert_eq!(loaded[0].sl_price.unwrap().scale(), 3);
    assert!(loaded[0].tp_price.is_none());
}

#[test]
fn stored_texts_that_are_no_prices_are_none() {
    let rows = vec![SavedRow { token_id: String::from("a"), sl_text: Some(String::from("x")), tp_text: Some(String::from("0.9")) }];
    let loaded = load_sl_tp_settings(&rows);
    assert!(loaded[0].sl_price.is_none());
    assert!(loaded[0].tp_price.unwrap().same(d("0.9")));
    assert!(read_price(&None).is_none());
    assert!(price_text(None).is_none());
}

#[test]
fn the_last_saved_triggers_of_each_token_load() {
    let rows = vec![
        save_sl_tp(&String::from("a"), Some(d("0.30")), Some(d("0.9"))),
        save_sl_tp(&String::from("c"), None, Some(d("0.7"))),
    ];
    let loaded = load_sl_tp_settings(&rows);
    assert_eq!(loaded.iter().filter(|t| t.token_id == "a").count(), 1);
    let a = loaded.iter().find(|t| t.token_id == "a").unwrap();
    assert!(a.sl_price.unwrap().same(d("0.3")) && a.tp_price.unwrap().same(d("0.9")));
    let c = loaded.iter().find(|t| t.token_id == "c").unwrap();
    assert!(c.sl_price.is_none() && c.tp_price.unwrap().same(d("0.7")));
    assert!(loaded.iter().all(|t| t.token_id != "b"));
}

#[test]
fn balances_are_exact() {
    let balance = usdc_balance(d("79228162514264337593543.950335")).unwrap();
    assert!(balance.times(d("1000000")).unwrap().same(d("79228162514264337593543.950335")));
    assert_eq!(usdc_balance(d("79228162514264337593543950335")).unwrap().to_text(), "79228162514264337593543.950335");
}
