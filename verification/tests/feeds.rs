use position_manager::decimal::Dec;
use position_manager::liquidations::{judge_liquidation, liquidated_side, read_liquidation_message, LiquidationTracker};
use position_manager::side::Side;
use position_manager::signals::{bitfinex_trade, bybit_direction, coinbase_latency, judge_bitfinex, judge_bybit, judge_coinbase, latency, parse_kraken_trade, price_direction, read_bitfinex_message, read_bybit_message, read_coinbase_message, read_kraken_message, trade_time, Exchange, Feed, SignalBoard, Streak};
use position_manager::ticks::{count_buys, longest_runs, ticks_since, DirectionFeatureEngine, FeatureEngine, PriceHistory, Tick, TickDirections};
use position_manager::window::{in_later_quarter, is_zero_bits, window_start, IntraWindowState, PriceFacts};

fn d(text: &str) -> Dec {
    Dec::parse(text).unwrap()
}

fn streak(directions: &[i8]) -> Streak {
    let mut s = Streak::new();
    for direction in directions {
        s.extend(*direction);
    }
    s
}

fn tick(ms: i64, is_buyer: bool) -> Tick {
    Tick { timestamp_us: ms * 1000, price_bits: 0, quantity_bits: 0, is_buyer }
}

#[test]
fn streaks_go_one_way() {
    let s = streak(&[1, 1, 0, 1]);
    assert_eq!((s.ups, s.downs), (3, 0));
    let s = streak(&[1, 1, -1]);
    assert_eq!((s.ups, s.downs), (0, 1));
}

#[test]
fn directions_compare_with_the_price_before() {
    assert_eq!(price_direction(Some(d("10")), d("10.1")), 1);
    assert_eq!(price_direction(Some(d("10")), d("9.9")), -1);
    assert_eq!(price_direction(Some(d("10")), d("10.0")), 0);
    assert_eq!(price_direction(None, d("10")), 0);
}

#[test]
fn a_signal_becomes_ready_once_two_exchanges_agree() {
    let mut board = SignalBoard::new();
    board.take_trade(Exchange::Kraken, streak(&[1, 1]), 100);
    assert!(board.early_signal.is_none());
    board.take_trade(Exchange::Kraken, streak(&[1, 1, 1]), 100);
    let signal = board.early_signal.unwrap();
    assert_eq!((signal.side, signal.source, signal.at_ms), (Side::Up, Exchange::Kraken, 100));
    assert_eq!((board.confirmations, board.ready), (1, false));
    board.take_trade(Exchange::Coinbase, streak(&[1]), 200);
    board.take_trade(Exchange::Coinbase, streak(&[-1, -1]), 200);
    assert!(!board.ready);
    board.take_trade(Exchange::Coinbase, streak(&[1, 1]), 599);
    assert_eq!((board.confirmations, board.ready), (2, true));
    board.clear_ready();
    assert_eq!(board, SignalBoard::new());
}

#[test]
fn old_signals_are_not_confirmed() {
    let mut board = SignalBoard::new();
    board.take_trade(Exchange::Kraken, streak(&[-1, -1, -1]), 100);
    board.take_trade(Exchange::Bybit, streak(&[-1, -1]), 600);
    assert!(!board.ready);
    assert_eq!(board.confirmations, 1);
    board.clear_ready();
    assert!(board.early_signal.is_some());
}

#[test]
fn no_exchange_confirms_itself() {
    let mut board = SignalBoard::new();
    board.take_trade(Exchange::Bitfinex, streak(&[-1, -1, -1]), 100);
    assert_eq!(board.early_signal.unwrap().side, Side::Down);
    let before = board;
    board.take_trade(Exchange::Bitfinex, streak(&[-1, -1, -1, -1]), 110);
    assert_eq!(board, before);
    for n in 0..9 {
        board.take_trade(Exchange::Bybit, streak(&[-1, -1]), 110 + n);
    }
    assert_eq!((board.confirmations, board.ready), (2, true));
    board.take_trade(Exchange::Coinbase, streak(&[-1, -1]), 130);
    assert_eq!(board.confirmations, 3);
    assert_eq!(board.agreed.count(), 3);
}

#[test]
fn an_exchange_counts_once_however_often_it_agrees() {
    let mut board = SignalBoard::new();
    board.take_trade(Exchange::Kraken, streak(&[1, 1, 1]), 100);
    let signal = board.early_signal;
    for n in 0..3 {
        board.take_trade(Exchange::Coinbase, streak(&[1, 1]), 200 + n);
    }
    assert_eq!((board.confirmations, board.ready), (2, true));
    assert_eq!(board.early_signal, signal);
    assert!(board.agreed.kraken && board.agreed.coinbase && !board.agreed.bybit && !board.agreed.bitfinex);
}

#[test]
fn coinbase_messages_are_read() {
    let now = 1700000000223;
    let text = r#"{"type":"match","price":"97000.50","time":"2023-11-14T22:13:20.123Z","size":"0.1"}"#;
    let (price, direction, delay) = read_coinbase_message(text, Some(d("97000.4")), now).unwrap();
    assert!(price.same(d("97000.5")));
    assert_eq!((direction, delay), (1, 100));
    assert_eq!(read_coinbase_message(text, None, now).unwrap().1, 0);
    for other in [
        r#"{"type":"last_match","price":"1","time":"2023-11-14T22:13:20.123Z"}"#,
        r#"{"type":"match","price":1,"time":"2023-11-14T22:13:20.123Z"}"#,
        r#"{"type":"match","price":"1"}"#,
        r#"{"type":"match","price":"x","time":"2023-11-14T22:13:20.123Z"}"#,
        r#"["match"]"#,
        "no json",
    ] {
        assert!(read_coinbase_message(other, None, now).is_none());
    }
    let some = |t: &str| Some(String::from(t));
    assert_eq!(judge_coinbase(&some("match"), &some("2"), &some("never"), Some(d("3")), 7).unwrap().1, -1);
    assert!(judge_coinbase(&some("match"), &some("2"), &None, None, 7).is_none());
}

#[test]
fn kraken_messages_are_read() {
    let text = r#"[337,[["1","0.1","5.5","b","m",""],["97000.1","0.2","1700000000.5","s","l",""]],"trade","XBT/USD"]"#;
    let texts = read_kraken_message(text).unwrap();
    assert_eq!((texts.price.as_str(), texts.time.as_str(), texts.side.as_str()), ("97000.1", "1700000000.5", "s"));
    for other in [
        r#"{"event":"heartbeat"}"#,
        r#"[337]"#,
        r#"[337,[],"trade","XBT/USD"]"#,
        r#"[337,[["1","0.1","5.5"]],"trade","XBT/USD"]"#,
        r#"[337,[[1,"0.1","5.5","b"]],"trade","XBT/USD"]"#,
        r#"{"0":0,"1":[["1","0.1","5.5","b"]]}"#,
        "",
    ] {
        assert!(read_kraken_message(other).is_none());
    }
}

#[test]
fn the_last_trade_of_a_long_kraken_message_is_read() {
    let trades: Vec<String> = (0..12).map(|n| format!(r#"["{}","0.1","5.5","b"]"#, n)).collect();
    let text = format!(r#"[1,[{}],"trade"]"#, trades.join(","));
    assert_eq!(read_kraken_message(&text).unwrap().price, "11");
}

#[test]
fn bybit_messages_are_read() {
    let text = r#"{"topic":"publicTrade.BTCUSDT","data":[{"T":1,"S":"Sell","p":"1"},{"T":900,"S":"Buy","p":"97000.2"}]}"#;
    let (price, direction, delay) = read_bybit_message(text, 1000).unwrap();
    assert!(price.same(d("97000.2")));
    assert_eq!((direction, delay), (1, 100));
    for other in [
        r#"{"success":true}"#,
        r#"{"data":[]}"#,
        r#"{"data":[{"T":"900","S":"Buy","p":"1"}]}"#,
        r#"{"data":[{"T":900,"p":"1"}]}"#,
        r#"{"data":[{"T":900,"S":"Buy","p":"x"}]}"#,
    ] {
        assert!(read_bybit_message(other, 1000).is_none());
    }
    assert_eq!(judge_bybit(&Some(String::from("1")), Some(5), &Some(String::from("Sell")), 9).unwrap().1, -1);
    assert!(judge_bybit(&Some(String::from("1")), None, &Some(String::from("Sell")), 9).is_none());
}

#[test]
fn bitfinex_messages_are_read() {
    assert_eq!(read_bitfinex_message(r#"[17,"te",[401,1700000000000,0.5,97000.1]]"#), Some(1700000000000));
    assert_eq!(read_bitfinex_message(r#"[17,"te",[401,null,0.5,97000.1]]"#), Some(0));
    for other in [r#"[17,"tu",[401,1,0.5,9]]"#, r#"[17,"hb"]"#, r#"[17,"te",[401,1,0.5]]"#, r#"{"event":"info"}"#, "x"] {
        assert!(read_bitfinex_message(other).is_none());
    }
    assert_eq!(judge_bitfinex(Some(3), &Some(String::from("te")), Some(4), Some(-1)), Some(u64::MAX));
    assert_eq!(judge_bitfinex(Some(2), &Some(String::from("te")), Some(4), Some(1)), None);
    let (price, direction, delay) = bitfinex_trade(5, false, Some(d("2")), 9).unwrap();
    assert!(price.same(d("2")));
    assert_eq!((direction, delay), (-1, 4));
    assert_eq!(bitfinex_trade(5, true, Some(d("2")), 9).unwrap().1, 1);
    assert!(bitfinex_trade(5, true, None, 9).is_none());
}

#[test]
fn liquidation_messages_are_read() {
    let text = r#"{"e":"forceOrder","E":1,"o":{"s":"BTCUSDT","S":"SELL","q":"0.014","p":"97530.00","T":1706012345678}}"#;
    let told = read_liquidation_message(text).unwrap();
    assert_eq!((told.is_long, told.quantity.as_str(), told.price.as_str(), told.time_ms), (true, "0.014", "97530.00", 1706012345678));
    let bare = read_liquidation_message(r#"{"e":"forceOrder"}"#).unwrap();
    assert_eq!((bare.is_long, bare.quantity.as_str(), bare.price.as_str(), bare.time_ms), (false, "0", "0", 0));
    assert!(read_liquidation_message(r#"{"e":"trade","o":{"S":"SELL"}}"#).is_none());
    assert!(read_liquidation_message("x").is_none());
    let told = judge_liquidation(&Some(String::from("forceOrder")), &Some(String::from("BUY")), Some(String::from("2")), None, Some(3)).unwrap();
    assert_eq!((told.is_long, told.quantity.as_str(), told.price.as_str(), told.time_ms), (false, "2", "0", 3));
}

#[test]
fn kraken_replaces_a_signal() {
    let mut board = SignalBoard::new();
    board.take_trade(Exchange::Bybit, streak(&[-1, -1, -1]), 100);
    board.take_trade(Exchange::Coinbase, streak(&[-1, -1]), 120);
    assert!(board.ready);
    board.take_trade(Exchange::Kraken, streak(&[1, 1, 1]), 130);
    assert_eq!(board.early_signal.unwrap().side, Side::Up);
    assert_eq!((board.confirmations, board.ready), (1, false));
}

#[test]
fn feeds_record_their_trades() {
    let mut feed = Feed::new();
    feed.record(d("97000.5"), 1, 12, 500);
    assert_eq!((feed.msg_count, feed.last_msg_ms, feed.latency_ms, feed.last_direction), (1, Some(500), 12, 1));
    assert!(feed.price.same(d("97000.5")));
}

#[test]
fn latencies_are_not_negative() {
    assert_eq!(latency(1000, 990), 10);
    assert_eq!(latency(1000, 1100), 0);
    assert_eq!(trade_time(Some(5), 9), 5);
    assert_eq!(trade_time(None, 9), 9);
}

#[test]
fn coinbase_times_are_rfc3339() {
    assert_eq!(coinbase_latency("2023-11-14T22:13:20.123Z", 1700000000223), 100);
    assert_eq!(coinbase_latency("2023-11-14T23:13:20.123+01:00", 1700000000223), 100);
    assert_eq!(coinbase_latency("yesterday", 1700000000223), 0);
}

#[test]
fn kraken_and_bybit_tell_their_direction() {
    let (price, direction, time) = parse_kraken_trade("97000.1", &String::from("b"), 5).unwrap();
    assert!(price.same(d("97000.1")));
    assert_eq!((direction, time), (1, 5));
    assert_eq!(parse_kraken_trade("97000.1", &String::from("s"), 5).unwrap().1, -1);
    assert!(parse_kraken_trade("x", &String::from("b"), 5).is_none());
    assert_eq!(bybit_direction(&String::from("Buy")), 1);
    assert_eq!(bybit_direction(&String::from("Sell")), -1);
}

#[test]
fn the_feature_window_holds_the_last_fifty_ticks() {
    let mut engine = FeatureEngine::new();
    for n in 0..49 {
        engine.push_tick(n, n, 0, true);
    }
    assert!(engine.window().is_none());
    for n in 49..260 {
        engine.push_tick(n, n, 0, n % 2 == 0);
    }
    assert_eq!(engine.tick_count(), 200);
    let window = engine.window().unwrap();
    assert_eq!(window.len(), 50);
    assert_eq!(window[0].price_bits, 210);
    assert_eq!(window[49].timestamp_us, 259_000);
    assert_eq!(count_buys(&window), 25);
}

#[test]
fn the_direction_window_holds_recent_ticks() {
    let mut engine = DirectionFeatureEngine::new(1000);
    for ms in [0, 500, 1000, 1500] {
        engine.push_tick(ms, ms, 0, true);
    }
    assert_eq!(engine.tick_count(), 3);
    assert_eq!(engine.ticks[0].price_bits, 500);
    engine.push_tick(9000, 9, 0, true);
    assert_eq!(engine.tick_count(), 1);
    let all = vec![tick(100, true), tick(300, false), tick(200, true)];
    assert_eq!(ticks_since(&all, 200), vec![tick(300, false), tick(200, true)]);
}

#[test]
fn longest_runs_are_found() {
    let flags = [true, true, false, true, true, true, false, false];
    let window: Vec<Tick> = flags.iter().map(|b| tick(0, *b)).collect();
    assert_eq!(longest_runs(&window), (3, 2));
    assert_eq!(longest_runs(&Vec::new()), (0, 0));
}

#[test]
fn recent_directions_are_counted() {
    let mut t = TickDirections::new();
    for direction in [1, 1, 0, -1, 1] {
        t.push(direction);
    }
    t.recount();
    assert_eq!((t.consecutive_up, t.consecutive_down), (0, 0));
    t.push(1);
    t.recount();
    assert_eq!((t.consecutive_up, t.consecutive_down), (4, 1));
    assert_eq!(t.tick_signal(3), Some(Side::Up));
    assert_eq!(t.tick_signal(4), None);
    for _ in 0..20 {
        t.push(-1);
    }
    assert_eq!(t.directions.len(), 15);
    t.recount();
    assert_eq!((t.consecutive_up, t.consecutive_down), (0, 5));
    assert_eq!(t.tick_signal(5), Some(Side::Down));
    assert_eq!(t.tick_signal(6), None);
    t.clear();
    assert!(t.directions.is_empty());
    assert_eq!(t.consecutive_down, 5);
}

#[test]
fn prices_are_kept_for_thirty_seconds() {
    let mut h = PriceHistory::new();
    h.push(0, d("100"));
    h.push(10_000, d("90"));
    h.push(30_999, d("95"));
    assert_eq!(h.prices.len(), 3);
    h.push(31_000, d("96"));
    assert_eq!(h.prices.len(), 3);
    assert_eq!(h.prices[0].0, 10_000);
    assert!(h.high.same(d("100")));
    assert!(h.low.same(d("90")));
}

#[test]
fn liquidations_are_kept_for_a_minute() {
    let mut t = LiquidationTracker::new();
    t.add(0, true, 1, 1);
    t.add(60_000, false, 2, 2);
    assert_eq!(t.liquidations.len(), 2);
    t.add(60_001, true, 3, 3);
    assert_eq!(t.liquidations.len(), 2);
    assert_eq!(t.liquidations.back().unwrap().quantity_bits, 3);
    let recent = t.recent(120_001);
    assert_eq!(recent.len(), 1);
    assert_eq!(recent[0].quantity_bits, 3);
}

#[test]
fn liquidations_tell_the_side_that_lost() {
    let text = |s: &str| Some(s.to_string());
    assert_eq!(liquidated_side(&text("forceOrder"), &text("SELL")), Some(true));
    assert_eq!(liquidated_side(&text("forceOrder"), &text("BUY")), Some(false));
    assert_eq!(liquidated_side(&text("forceOrder"), &None), Some(false));
    assert_eq!(liquidated_side(&text("trade"), &text("SELL")), None);
    assert_eq!(liquidated_side(&None, &text("SELL")), None);
}

fn facts(high: f64, low: f64, candle_complete: bool) -> PriceFacts {
    PriceFacts { high_bits: high.to_bits(), low_bits: low.to_bits(), candle_complete }
}

#[test]
fn windows_start_at_multiples_of_five_minutes() {
    assert_eq!(window_start(1700000123456), 1700000100000);
    assert_eq!(window_start(299_999), 0);
    assert_eq!(window_start(300_000), 300_000);
    assert_eq!(window_start(-1), 0);
}

#[test]
fn a_new_window_closes_the_candle_of_the_last() {
    let mut w = IntraWindowState::new(f64::MAX.to_bits());
    w.update(100f64.to_bits(), 300_000, &facts(100.0, 100.0, false));
    assert_eq!(w.window_start_ms, 300_000);
    assert_eq!(f64::from_bits(w.start_bits), 100.0);
    w.update(110f64.to_bits(), 400_000, &facts(110.0, 100.0, true));
    w.update(95f64.to_bits(), 500_000, &facts(110.0, 95.0, true));
    assert!(w.prev_candles.is_empty());
    assert_eq!(f64::from_bits(w.high_bits), 110.0);
    w.update(105f64.to_bits(), 600_000, &facts(110.0, 95.0, true));
    let candle = w.candle_back(0).unwrap();
    assert_eq!(f64::from_bits(candle.open_bits), 100.0);
    assert_eq!(f64::from_bits(candle.high_bits), 110.0);
    assert_eq!(f64::from_bits(candle.low_bits), 95.0);
    assert_eq!(f64::from_bits(candle.close_bits), 105.0);
    assert!(w.candle_back(1).is_none());
    assert_eq!(w.low_bits, 105f64.to_bits());
    assert_eq!(w.first_since(450_000), Some(95f64.to_bits()));
    assert_eq!(w.first_since(600_001), None);
    assert_eq!(w.prices_since(400_001), vec![95f64.to_bits(), 105f64.to_bits()]);
    assert_eq!(w.last_prices(1), Some(vec![95f64.to_bits(), 105f64.to_bits()]));
    assert_eq!(w.last_prices(4), None);
}

#[test]
fn windows_forget_old_prices_and_candles() {
    let mut w = IntraWindowState::new(f64::MAX.to_bits());
    for n in 1..1101 {
        w.update(n, n as i64 * 300_000, &facts(1.0, 1.0, true));
    }
    assert_eq!(w.recent_prices.len(), 1000);
    assert_eq!(w.prev_candles.len(), 10);
    assert_eq!(w.candle_back(0).unwrap().close_bits, 1100);
}

#[test]
fn volatility_needs_enough_prices() {
    let mut w = IntraWindowState::new(f64::MAX.to_bits());
    for n in 0..19 {
        w.update(n, n as i64 * 1000, &facts(1.0, 1.0, false));
    }
    assert!(w.volatility_prices(60).is_none());
    w.update(19, 19_000, &facts(1.0, 1.0, false));
    assert_eq!(w.volatility_prices(60).unwrap().len(), 20);
    assert_eq!(w.volatility_prices(9).unwrap(), (10..20).collect::<Vec<u64>>());
    assert!(w.volatility_prices(8).is_none());
}

#[test]
fn quarters_of_an_hour_follow_each_other() {
    assert!(in_later_quarter(900_000, 0));
    assert!(!in_later_quarter(899_999, 0));
    assert!(!in_later_quarter(1_799_999, 900_000));
    assert!(in_later_quarter(-1, -900_000));
    assert!(!in_later_quarter(-900_001, -900_000));
}

#[test]
fn a_start_price_of_zero_is_replaced() {
    let mut w = IntraWindowState::new(f64::MAX.to_bits());
    w.window_start_ms = 300_000;
    for zero in [0.0f64, -0.0] {
        w.start_bits = zero.to_bits();
        w.update(7f64.to_bits(), 300_001, &facts(7.0, 7.0, false));
        assert_eq!(f64::from_bits(w.start_bits), 7.0);
        w.update(8f64.to_bits(), 300_002, &facts(8.0, 7.0, false));
        assert_eq!(f64::from_bits(w.start_bits), 7.0);
    }
    assert!(is_zero_bits(0.0f64.to_bits()) && is_zero_bits((-0.0f64).to_bits()));
    assert!(!is_zero_bits(f64::MIN_POSITIVE.to_bits()) && !is_zero_bits(f64::NAN.to_bits()));
}

#[test]
fn a_direction_window_can_be_of_any_length() {
    let mut engine = DirectionFeatureEngine::new(u64::MAX);
    engine.push_tick(5, 1, 1, true);
    engine.push_tick(9_000_000_000_000, 1, 1, true);
    assert_eq!(engine.tick_count(), 2);
}
