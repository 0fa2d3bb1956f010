use position_manager::checker::{check_position, check_positions, Finding, TriggerKind, CHECK_INTERVAL_MS, CONFIRMATIONS_REQUIRED};
use position_manager::decimal::Dec;
use position_manager::keyboard::{bot_key_action, key_action, BotKeyAction, Command, Key, KeyAction, Notice};
use position_manager::manager::{AppState, InputMode, LOG_LINES};
use position_manager::position::{compute_pnl_percent, find_token, PositionStatus, TrackedPosition};

fn d(text: &str) -> Dec {
    Dec::parse(text).unwrap()
}

fn position(token: &str) -> TrackedPosition {
    TrackedPosition {
        token_id: token.to_string(),
        condition_id: String::from("0xc"),
        market_title: String::from("Will it rain tomorrow?"),
        outcome: String::from("Yes"),
        shares: d("10"),
        entry_price: d("0.50"),
        current_bid: Some(d("0.50")),
        current_ask: None,
        sl_price: None,
        tp_price: None,
        status: PositionStatus::Active,
        last_price_update: None,
        exit_pnl: None,
        min_order_size: None,
        tick_size: None,
        neg_risk: None,
        consensus: None,
        sl_trigger_count: 0,
        tp_trigger_count: 0,
    }
}

fn state(positions: Vec<TrackedPosition>) -> AppState {
    let mut s = AppState::new(true, String::from("0xf"), 1000);
    s.positions = positions;
    s
}

#[test]
fn profit_is_in_percent_of_the_entry() {
    assert!(compute_pnl_percent(d("0.50"), d("0.60")).unwrap().same(d("20")));
    assert!(compute_pnl_percent(d("0.50"), d("0.25")).unwrap().same(d("-50")));
    assert!(compute_pnl_percent(d("0"), d("0.25")).is_none());
}

#[test]
fn unrealized_profit_needs_a_bid_and_an_entry() {
    let mut p = position("a");
    p.current_bid = Some(d("0.75"));
    assert!(p.unrealized_pnl_pct().unwrap().same(d("50")));
    p.entry_price = d("0.00");
    assert!(p.unrealized_pnl_pct().is_none());
    p.entry_price = d("0.5");
    p.current_bid = None;
    assert!(p.unrealized_pnl_pct().is_none());
}

#[test]
fn titles_are_shortened_with_dots() {
    let p = position("a");
    assert_eq!(p.short_title(40), "Will it rain tomorrow?");
    assert_eq!(p.short_title(22), "Will it rain tomorrow?");
    assert_eq!(p.short_title(10), "Will it...");
    assert_eq!(p.short_title(2), "...");
}

#[test]
fn statuses_have_texts() {
    assert_eq!(PositionStatus::Active.to_text(), "Active");
    assert_eq!(PositionStatus::SLTriggered.to_text(), "SL Hit");
    assert_eq!(PositionStatus::TPTriggered.to_text(), "TP Hit");
    assert_eq!(PositionStatus::Selling.to_text(), "Selling...");
    assert_eq!(PositionStatus::Sold.to_text(), "SOLD");
    assert_eq!(PositionStatus::Error(String::from("no fill")).to_text(), "ERR: no fill");
}

#[test]
fn the_first_position_of_a_token_is_found() {
    let all = vec![position("a"), position("b"), position("b")];
    assert_eq!(find_token(&all, &String::from("b")), Some(1));
    assert_eq!(find_token(&all, &String::from("c")), None);
}

#[test]
fn twelve_checks_take_three_seconds() {
    assert_eq!(CHECK_INTERVAL_MS * CONFIRMATIONS_REQUIRED as u64, 3000);
}

#[test]
fn a_sustained_stop_loss_fires_with_the_twelfth_check() {
    let mut p = position("a");
    p.sl_price = Some(d("0.45"));
    p.current_bid = Some(d("0.45"));
    let mut all = vec![p];
    for n in 0..11 {
        let report = check_positions(&mut all);
        assert!(report.triggers.is_empty());
        assert_eq!(report.stop_loss_begun, if n == 0 { vec![0] } else { vec![] });
        assert_eq!(all[0].sl_trigger_count, n + 1);
    }
    let report = check_positions(&mut all);
    assert_eq!(report.triggers.len(), 1);
    let trigger = &report.triggers[0];
    assert_eq!(trigger.index, 0);
    assert_eq!(trigger.token_id, "a");
    assert_eq!(trigger.kind, TriggerKind::StopLoss);
    assert!(trigger.bid_price.same(d("0.45")));
    assert!(trigger.shares.same(d("10")));
    assert_eq!(all[0].sl_trigger_count, 0);
}

#[test]
fn a_sustained_take_profit_fires_with_the_twelfth_check() {
    let mut p = position("a");
    p.tp_price = Some(d("0.80"));
    p.sl_price = Some(d("0.30"));
    p.current_bid = Some(d("0.81"));
    let mut all = vec![position("x"), p];
    for n in 0..11 {
        let report = check_positions(&mut all);
        assert!(report.triggers.is_empty());
        assert_eq!(report.take_profit_begun, if n == 0 { vec![1] } else { vec![] });
    }
    let report = check_positions(&mut all);
    assert_eq!(report.triggers.len(), 1);
    assert_eq!(report.triggers[0].index, 1);
    assert_eq!(report.triggers[0].kind, TriggerKind::TakeProfit);
}

#[test]
fn a_short_spike_sells_nothing() {
    let mut p = position("a");
    p.sl_price = Some(d("0.45"));
    let mut all = vec![p];
    for _ in 0..5 {
        for _ in 0..11 {
            all[0].current_bid = Some(d("0.40"));
            assert!(check_positions(&mut all).triggers.is_empty());
        }
        all[0].current_bid = Some(d("0.46"));
        let report = check_positions(&mut all);
        assert!(report.triggers.is_empty());
        assert_eq!(report.spikes_filtered, vec![(0, 11)]);
        assert_eq!(all[0].sl_trigger_count, 0);
    }
}

#[test]
fn counts_start_again_when_the_breach_changes() {
    let mut p = position("a");
    p.sl_price = Some(d("0.40"));
    p.tp_price = Some(d("0.60"));
    p.sl_trigger_count = 7;
    p.current_bid = Some(d("0.65"));
    let mut all = vec![p];
    check_positions(&mut all);
    assert_eq!(all[0].sl_trigger_count, 0);
    assert_eq!(all[0].tp_trigger_count, 1);
    all[0].current_bid = Some(d("0.35"));
    check_positions(&mut all);
    assert_eq!(all[0].sl_trigger_count, 1);
    assert_eq!(all[0].tp_trigger_count, 0);
}

#[test]
fn only_watched_positions_with_a_bid_are_checked() {
    let mut p = position("a");
    p.sl_price = Some(d("0.90"));
    p.sl_trigger_count = 11;
    assert_eq!(check_position(&p), Finding::StopLossFires);
    p.current_bid = None;
    assert_eq!(check_position(&p), Finding::Quiet);
    p.current_bid = Some(d("0.1"));
    p.status = PositionStatus::Sold;
    assert_eq!(check_position(&p), Finding::Quiet);
    p.status = PositionStatus::Selling;
    assert_eq!(check_position(&p), Finding::Quiet);
    p.status = PositionStatus::Active;
    p.sl_trigger_count = 10;
    assert_eq!(check_position(&p), Finding::StopLossPending);
    p.sl_price = None;
    assert_eq!(check_position(&p), Finding::Quiet);
}

#[test]
fn stop_loss_comes_before_take_profit() {
    let mut p = position("a");
    p.sl_price = Some(d("0.50"));
    p.tp_price = Some(d("0.50"));
    assert_eq!(check_position(&p), Finding::StopLossPending);
    p.sl_price = Some(d("0.49"));
    assert_eq!(check_position(&p), Finding::TakeProfitPending);
    p.tp_trigger_count = 11;
    assert_eq!(check_position(&p), Finding::TakeProfitFires);
}

#[test]
fn the_selection_goes_round() {
    let mut s = state(vec![position("a"), position("b"), position("c")]);
    assert_eq!(s.selected_position().unwrap().token_id, "a");
    s.move_selection_up();
    assert_eq!((s.selected_index, s.highlighted), (2, Some(2)));
    s.move_selection_down();
    assert_eq!(s.selected_index, 0);
    s.move_selection_down();
    s.move_selection_down();
    assert_eq!(s.selected_position().unwrap().token_id, "c");
    s.move_selection_up();
    assert_eq!(s.selected_index, 1);
    let mut empty = state(Vec::new());
    empty.move_selection_up();
    empty.move_selection_down();
    assert_eq!(empty.selected_index, 0);
    assert!(empty.selected_position().is_none());
}

#[test]
fn the_manager_log_keeps_its_last_lines() {
    let mut s = state(Vec::new());
    for n in 0..105 {
        s.add_log("12:00:00", &format!("line {}", n));
    }
    assert_eq!(s.logs.len(), LOG_LINES);
    assert_eq!(s.logs.back().unwrap(), "[12:00:00] line 104");
    assert_eq!(s.logs.front().unwrap(), "[12:00:00] line 5");
}

#[test]
fn live_triggers_are_counted() {
    let mut a = position("a");
    a.sl_price = Some(d("0.1"));
    let mut b = position("b");
    b.tp_price = Some(d("0.9"));
    b.sl_price = Some(d("0.1"));
    let mut sold = position("c");
    sold.tp_price = Some(d("0.9"));
    sold.status = PositionStatus::Sold;
    let s = state(vec![a, b, sold, position("e")]);
    assert_eq!(s.count_active_triggers(), 2);
}

#[test]
fn the_manager_tells_how_long_it_runs() {
    let s = state(Vec::new());
    assert_eq!(s.uptime(62_000), "1m1s");
    assert_eq!(s.uptime(500), "0s");
}

#[test]
fn keys_mean_different_things_while_typing() {
    let normal = [
        (Key::Char('q'), KeyAction::Quit),
        (Key::Char('j'), KeyAction::SelectNext),
        (Key::Down, KeyAction::SelectNext),
        (Key::Char('k'), KeyAction::SelectPrevious),
        (Key::Up, KeyAction::SelectPrevious),
        (Key::Char('s'), KeyAction::Edit(InputMode::EditingSL)),
        (Key::Char('t'), KeyAction::Edit(InputMode::EditingTP)),
        (Key::Char('x'), KeyAction::ClearTriggers),
        (Key::Char('d'), KeyAction::ToggleDryRun),
        (Key::Char('r'), KeyAction::Refresh),
        (Key::Char('f'), KeyAction::ForceSell),
        (Key::Char('5'), KeyAction::Ignore),
        (Key::Enter, KeyAction::Ignore),
        (Key::Esc, KeyAction::Ignore),
    ];
    for (key, action) in normal {
        assert_eq!(key_action(InputMode::Normal, key), action);
    }
    let typing = [
        (Key::Esc, KeyAction::Cancel),
        (Key::Enter, KeyAction::Confirm),
        (Key::Backspace, KeyAction::Erase),
        (Key::Char('5'), KeyAction::Type('5')),
        (Key::Char('.'), KeyAction::Type('.')),
        (Key::Char('q'), KeyAction::Ignore),
        (Key::Char('f'), KeyAction::Ignore),
        (Key::Char('d'), KeyAction::Ignore),
        (Key::Up, KeyAction::Ignore),
        (Key::Other, KeyAction::Ignore),
    ];
    for (key, action) in typing {
        assert_eq!(key_action(InputMode::EditingSL, key), action);
        assert_eq!(key_action(InputMode::EditingTP, key), action);
    }
}

#[test]
fn a_typed_price_sets_a_trigger() {
    let mut s = state(vec![position("a"), position("b")]);
    s.move_selection_down();
    s.begin_edit(InputMode::EditingSL);
    assert_eq!(s.input_mode, InputMode::EditingSL);
    for c in "45.55".chars() {
        s.type_char(c);
    }
    s.erase_char();
    assert_eq!(s.input_buffer, "45.5");
    let (command, notice) = s.confirm_edit();
    assert!(matches!(command, Command::Save { index: 1 }));
    match notice {
        Notice::TriggerSet { cents, is_stop_loss } => {
            assert!(cents.same(d("45.5")));
            assert!(is_stop_loss);
        }
        other => panic!("{:?}", other),
    }
    assert!(s.positions[1].sl_price.unwrap().same(d("0.455")));
    assert!(s.positions[1].tp_price.is_none());
    assert_eq!(s.active_triggers, 1);
    assert_eq!(s.input_mode, InputMode::Normal);
    assert_eq!(s.input_buffer, "");
}

#[test]
fn a_typed_take_profit_leaves_the_stop_loss() {
    let mut a = position("a");
    a.sl_price = Some(d("0.2"));
    let mut s = state(vec![a]);
    s.begin_edit(InputMode::EditingTP);
    s.type_char('9');
    s.type_char('9');
    let (command, notice) = s.confirm_edit();
    assert!(matches!(command, Command::Save { index: 0 }));
    assert!(matches!(notice, Notice::TriggerSet { is_stop_loss: false, .. }));
    assert!(s.positions[0].tp_price.unwrap().same(d("0.99")));
    assert!(s.positions[0].sl_price.unwrap().same(d("0.2")));
}

#[test]
fn prices_outside_their_range_set_nothing() {
    for text in ["0", "100", "250"] {
        let mut s = state(vec![position("a")]);
        s.begin_edit(InputMode::EditingSL);
        for c in text.chars() {
            s.type_char(c);
        }
        let (command, notice) = s.confirm_edit();
        assert!(matches!(command, Command::Nothing));
        assert!(matches!(notice, Notice::PriceOutOfRange));
        assert!(s.positions[0].sl_price.is_none());
        assert_eq!(s.input_mode, InputMode::Normal);
    }
}

#[test]
fn texts_that_are_no_prices_set_nothing() {
    let mut s = state(vec![position("a")]);
    s.begin_edit(InputMode::EditingSL);
    for c in "1.2.3".chars() {
        s.type_char(c);
    }
    let (_, notice) = s.confirm_edit();
    assert!(matches!(notice, Notice::InvalidPrice));
    s.begin_edit(InputMode::EditingSL);
    let (command, notice) = s.confirm_edit();
    assert!(matches!(command, Command::Nothing));
    assert!(matches!(notice, Notice::Nothing));
}

#[test]
fn editing_can_be_cancelled_and_needs_a_position() {
    let mut s = state(vec![position("a")]);
    s.begin_edit(InputMode::EditingTP);
    s.type_char('1');
    s.cancel_edit();
    assert_eq!(s.input_mode, InputMode::Normal);
    assert_eq!(s.input_buffer, "");
    s.erase_char();
    assert_eq!(s.input_buffer, "");
    let mut empty = state(Vec::new());
    empty.begin_edit(InputMode::EditingTP);
    assert_eq!(empty.input_mode, InputMode::Normal);
    assert!(matches!(empty.clear_selected_triggers().0, Command::Nothing));
}

#[test]
fn clearing_undoes_setting() {
    let mut s = state(vec![position("a")]);
    s.positions[0].sl_price = Some(d("0.3"));
    s.active_triggers = 1;
    let (command, notice) = s.clear_selected_triggers();
    assert!(matches!(command, Command::Forget { index: 0 }));
    assert!(matches!(notice, Notice::TriggersCleared));
    assert!(s.positions[0].sl_price.is_none());
    assert!(s.positions[0].tp_price.is_none());
    assert_eq!(s.active_triggers, 0);
}

#[test]
fn the_dry_run_can_be_switched() {
    let mut s = state(Vec::new());
    assert!(s.dry_run);
    s.toggle_dry_run();
    assert!(!s.dry_run);
    s.toggle_dry_run();
    assert!(s.dry_run);
}

#[test]
fn selling_by_hand_needs_shares_and_a_bid() {
    let mut s = state(vec![position("a")]);
    match s.request_force_sell() {
        (Command::Sell(trigger), Notice::ForceSelling) => {
            assert_eq!(trigger.kind, TriggerKind::Manual);
            assert_eq!(trigger.index, 0);
            assert!(trigger.bid_price.same(d("0.5")));
        }
        other => panic!("{:?}", other),
    }
    s.positions[0].current_bid = None;
    assert!(matches!(s.request_force_sell(), (Command::Nothing, Notice::NoBid)));
    s.positions[0].shares = d("0");
    assert!(matches!(s.request_force_sell(), (Command::Nothing, Notice::NotSellable)));
    s.positions[0].shares = d("5");
    s.positions[0].status = PositionStatus::Selling;
    assert!(matches!(s.request_force_sell(), (Command::Nothing, Notice::NotSellable)));
    s.positions.clear();
    assert!(matches!(s.request_force_sell(), (Command::Nothing, Notice::Nothing)));
}

#[test]
fn keys_are_followed_one_by_one() {
    let mut s = state(vec![position("a"), position("b")]);
    for key in [Key::Down, Key::Down, Key::Down, Key::Char('s'), Key::Char('4'), Key::Char('q'), Key::Char('1'), Key::Backspace] {
        let (command, notice) = s.press(key);
        assert!(matches!(command, Command::Nothing));
        assert!(matches!(notice, Notice::Nothing));
    }
    assert_eq!(s.input_buffer, "4");
    assert_eq!(s.selected_index, 1);
    let (command, notice) = s.press(Key::Enter);
    assert!(matches!(command, Command::Save { index: 1 }));
    assert!(matches!(notice, Notice::TriggerSet { is_stop_loss: true, .. }));
    assert!(s.positions[1].sl_price.unwrap().same(d("0.04")));
    assert!(s.positions[0].sl_price.is_none());
    let (_, notice) = s.press(Key::Char('d'));
    assert!(matches!(notice, Notice::ModeSwitched));
    assert!(!s.dry_run);
    let (command, notice) = s.press(Key::Char('f'));
    assert!(matches!(command, Command::Sell(_)));
    assert!(matches!(notice, Notice::ForceSelling));
    let (command, notice) = s.press(Key::Char('x'));
    assert!(matches!(command, Command::Forget { index: 1 }));
    assert!(matches!(notice, Notice::TriggersCleared));
    assert!(s.positions[1].sl_price.is_none());
    s.press(Key::Char('t'));
    s.press(Key::Char('9'));
    s.press(Key::Esc);
    assert_eq!(s.input_mode, InputMode::Normal);
    assert_eq!(s.input_buffer, "");
    assert!(matches!(s.press(Key::Char('r')).0, Command::Refresh));
    assert!(matches!(s.press(Key::Char('q')).0, Command::Quit));
    s.press(Key::Up);
    assert_eq!(s.selected_index, 0);
}

#[test]
fn the_trading_bot_has_its_own_keys() {
    for (c, action) in [
        ('q', BotKeyAction::Quit),
        ('d', BotKeyAction::ToggleDryRun),
        ('+', BotKeyAction::RaiseThreshold),
        ('=', BotKeyAction::RaiseThreshold),
        ('-', BotKeyAction::LowerThreshold),
        ('m', BotKeyAction::CycleVolatility),
        ('f', BotKeyAction::Ignore),
    ] {
        assert_eq!(bot_key_action(Key::Char(c)), action);
    }
    assert_eq!(bot_key_action(Key::Up), BotKeyAction::Ignore);
}
