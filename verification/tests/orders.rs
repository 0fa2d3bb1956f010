use position_manager::config::{read_config, read_dry_run, read_position_size, read_setting, read_signature_type, signature_name, BotTexts, SignatureKind};
use position_manager::decimal::Dec;
use position_manager::orders::{after_attempt, balance_call, buy_limit, buy_outcome, order_size, plan_order, read_balance_message, refresh_due, wallet_balance, AfterAttempt, Attempt, BalanceReply, BuyReply, Fill, OrderPlan, PreSignedOrders};

fn d(text: &str) -> Dec {
    Dec::parse(text).unwrap()
}

#[test]
fn a_signed_order_is_sent_only_once() {
    let mut orders: PreSignedOrders<u32> = PreSignedOrders::new(5);
    assert!(!orders.has_pre_signed(true));
    assert!(orders.size.same(d("7.5")));
    orders.store(String::from("u"), String::from("d"), 1, 2, d("30"), 50);
    assert_eq!((orders.up_token.as_str(), orders.down_token.as_str(), orders.signed_ms), ("u", "d", 50));
    assert!(orders.has_pre_signed(true) && orders.has_pre_signed(false));
    assert!(orders.has_pre_signed_with_size(true, d("30.0")));
    assert!(!orders.has_pre_signed_with_size(true, d("45")));
    assert_eq!(orders.take(true), Some(1));
    assert_eq!(orders.take(true), None);
    assert!(!orders.has_pre_signed_with_size(true, d("30")));
    assert_eq!(orders.take(false), Some(2));
}

#[test]
fn orders_are_signed_anew_only_live() {
    assert!(!refresh_due(false, 1000, 16_000));
    assert!(refresh_due(false, 1000, 16_001));
    assert!(!refresh_due(true, 1000, 99_000));
}

#[test]
fn orders_have_a_smallest_size() {
    assert!(buy_limit().same(d("0.99")));
    assert!(order_size(d("30")).unwrap().same(d("30")));
    assert!(order_size(d("1")).unwrap().same(d("2")));
    assert!(order_size(d("2")).unwrap().same(d("2")));
    assert!(order_size(d("2.5")).unwrap().same(d("2.5")));
}

#[test]
fn replies_to_a_buy_order_are_told_apart() {
    let reply = |success: bool, making: &str, taking: &str| Some(BuyReply { success, making_amount: d(making), taking_amount: d(taking) });
    match buy_outcome(reply(true, "4.5", "10"), None) {
        Fill::Filled(price) => assert!(price.same(d("0.45"))),
        other => panic!("{:?}", other),
    }
    match buy_outcome(reply(true, "0", "0"), Some(d("0.61"))) {
        Fill::Filled(price) => assert!(price.same(d("0.61"))),
        other => panic!("{:?}", other),
    }
    match buy_outcome(reply(true, "0", "0"), None) {
        Fill::Filled(price) => assert!(price.same(d("0.50"))),
        other => panic!("{:?}", other),
    }
    assert!(matches!(buy_outcome(reply(false, "4.5", "10"), Some(d("0.6"))), Fill::NotFilled));
    assert!(matches!(buy_outcome(None, Some(d("0.6"))), Fill::NotFilled));
    let huge = Some(BuyReply {
        success: true,
        making_amount: Dec::from_parts(79228162514264337593543950335, 0).unwrap(),
        taking_amount: d("0.1"),
    });
    assert!(matches!(buy_outcome(huge, None), Fill::Unpriceable));
}

#[test]
fn a_dry_run_sends_no_order() {
    for must_fill in [true, false] {
        match plan_order(true, must_fill, Some(d("0.5"))) {
            OrderPlan::Pretend(Some(price)) => assert!(price.same(d("0.5"))),
            other => panic!("{:?}", other),
        }
        assert!(matches!(plan_order(true, must_fill, None), OrderPlan::Pretend(None)));
    }
    assert!(matches!(plan_order(false, true, None), OrderPlan::Send(3)));
    assert!(matches!(plan_order(false, false, None), OrderPlan::Send(1)));
}

#[test]
fn attempts_are_bounded() {
    for last in [Attempt::NotFilled, Attempt::Failed] {
        let mut made = 0;
        for attempt in 0.. {
            made += 1;
            if !matches!(after_attempt(attempt, 3, last), AfterAttempt::Retry(100)) {
                break;
            }
        }
        assert_eq!(made, 4);
    }
    assert!(matches!(after_attempt(3, 3, Attempt::NotFilled), AfterAttempt::GiveUp));
    assert!(matches!(after_attempt(3, 3, Attempt::Failed), AfterAttempt::Fail));
    match after_attempt(0, 3, Attempt::Filled(d("0.4"))) {
        AfterAttempt::Done(price) => assert!(price.same(d("0.4"))),
        other => panic!("{:?}", other),
    }
}

#[test]
fn balances_are_read_from_the_chain() {
    assert!(wallet_balance("0x00000000000000000000000000000000000000000000000000000000005e69ec").unwrap().same(d("6.187500")));
    assert!(wallet_balance("0xF4240").unwrap().same(d("1")));
    assert!(wallet_balance("0x").unwrap().same(d("0")));
    assert!(wallet_balance("0xzz").unwrap().same(d("0")));
    assert!(wallet_balance("0xffffffffffffffffffffffffffffffffff").unwrap().same(d("0")));
    assert!(wallet_balance("0xffffffffffffffffffffffffffffffff").is_none());
}

#[test]
fn the_balance_call_names_the_address() {
    assert_eq!(balance_call("0xabc").unwrap(), "0x70a08231000000000000000000000000abc");
    assert_eq!(balance_call("abc").unwrap(), "0x70a08231000000000000000000000000abc");
    assert!(balance_call("").is_none());
}

#[test]
fn settings_have_defaults() {
    let c = read_config(&BotTexts {
        dry_run: Some("false"),
        position_size: Some("12.5"),
        tick_threshold: Some("6"),
        min_hold_ms: Some("100"),
        hold_timeout_ms: Some("x"),
        max_trades: Some("4294967296"),
    });
    assert!(!c.dry_run);
    assert!(c.position_size.same(d("12.5")));
    assert_eq!((c.tick_threshold, c.min_hold_ms, c.hold_timeout_ms, c.max_trades), (6, 100, 7500, 20));
    assert!(read_dry_run(None));
    assert!(read_dry_run(Some("no")));
    assert!(read_dry_run(Some("False")));
    assert!(read_position_size(Some("many")).same(d("30")));
    assert_eq!(read_setting(Some("7"), 7, 1), 7);
    assert_eq!(read_setting(Some("8"), 7, 1), 1);
    assert_eq!(read_setting(None, 7, 1), 1);
}

#[test]
fn signature_types_have_names() {
    assert_eq!(read_signature_type(None), 1);
    assert_eq!(read_signature_type(Some("2")), 2);
    assert_eq!(read_signature_type(Some("256")), 1);
    assert_eq!(SignatureKind::of_number(0), SignatureKind::Eoa);
    assert_eq!(SignatureKind::of_number(1), SignatureKind::Proxy);
    assert_eq!(SignatureKind::of_number(2), SignatureKind::GnosisSafe);
    assert_eq!(SignatureKind::of_number(9), SignatureKind::Proxy);
    assert_eq!(signature_name(0), "EOA");
    assert_eq!(signature_name(1), "Proxy");
    assert_eq!(signature_name(2), "GnosisSafe (MetaMask)");
    assert_eq!(signature_name(9), "Unknown");
}

#[test]
fn answers_of_the_chain_are_read() {
    match read_balance_message(r#"{"jsonrpc":"2.0","id":1,"result":"0xF4240"}"#) {
        BalanceReply::Balance(balance) => assert!(balance.same(d("1"))),
        other => panic!("{:?}", other),
    }
    for unknown in [r#"{"error":"x"}"#, r#"{"result":"0x"}"#, r#"{"result":"0xzz"}"#, r#"{"result":5}"#] {
        assert!(matches!(read_balance_message(unknown), BalanceReply::Unknown));
    }
    assert!(matches!(read_balance_message(r#"{"result":"0xffffffffffffffffffffffffffffffff"}"#), BalanceReply::TooLarge));
    assert!(matches!(read_balance_message("busy"), BalanceReply::Unreadable));
}

/// The attempts of an order that end as told, and what comes of them.
fn attempts(max_retries: u32, results: &[Attempt]) -> (usize, AfterAttempt) {
    for (n, result) in results.iter().enumerate() {
        match after_attempt(n as u32, max_retries, *result) {
            AfterAttempt::Retry(_) => {}
            end => return (n + 1, end),
        }
    }
    panic!("more attempts than told")
}

#[test]
fn unfilled_orders_use_all_attempts() {
    let (n, end) = attempts(2, &[Attempt::Failed, Attempt::Failed, Attempt::NotFilled]);
    assert!(n == 3 && matches!(end, AfterAttempt::GiveUp));
    let (n, end) = attempts(2, &[Attempt::NotFilled, Attempt::NotFilled, Attempt::Failed]);
    assert!(n == 3 && matches!(end, AfterAttempt::Fail));
    let (n, end) = attempts(0, &[Attempt::NotFilled]);
    assert!(n == 1 && matches!(end, AfterAttempt::GiveUp));
    let (n, end) = attempts(5, &[Attempt::Failed, Attempt::Filled(d("0.4"))]);
    assert!(n == 2 && matches!(end, AfterAttempt::Done(price) if price.same(d("0.4"))));
}
