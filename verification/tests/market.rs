use position_manager::decimal::Dec;
use position_manager::market::{discover_tokens, discover_tokens_in, generate_market_slug, interval_start, pick_tokens, seconds_until_close, time_left_in_market, BtcMarket};
use position_manager::market_stream::{apply_market_message, latency_from, token_side, MarketMessage, MarketPriceChange, TokenSide};
use position_manager::orderbook::{read_top_levels, OrderLevel, Orderbook};
use position_manager::side::Side;

fn d(text: &str) -> Dec {
    Dec::parse(text).unwrap()
}

fn list(names: &[&str]) -> Vec<String> {
    names.iter().map(|n| n.to_string()).collect()
}

fn level(price: &str, size: &str) -> OrderLevel {
    OrderLevel { price: price.to_string(), size: Some(size.to_string()) }
}

#[test]
fn sides_have_an_opposite() {
    assert_eq!(Side::Up.opposite(), Side::Down);
    assert_eq!(Side::Down.opposite(), Side::Up);
}

#[test]
fn slugs_name_the_start_of_the_interval() {
    assert_eq!(interval_start(1700000123), 1700000100);
    assert_eq!(generate_market_slug(1700000123), (String::from("btc-updown-5m-1700000100"), 1700000100));
    assert_eq!(generate_market_slug(1700000399).1, 1700000100);
    assert_eq!(generate_market_slug(1700000400).1, 1700000400);
    for now in [0, 1, 299, 300, 1700000123] {
        let start = interval_start(now);
        assert!(start % 300 == 0 && start <= now && now < start + 300);
    }
}

#[test]
fn slugs_tell_intervals_apart() {
    assert_eq!(generate_market_slug(600).0, generate_market_slug(899).0);
    assert_ne!(generate_market_slug(899).0, generate_market_slug(900).0);
}

#[test]
fn tokens_are_found_by_their_outcome() {
    let ids = list(&["1", "2"]);
    assert_eq!(discover_tokens(&list(&["UP", "Down"]), &ids), Some((String::from("1"), String::from("2"))));
    assert_eq!(discover_tokens(&list(&["down", "Up"]), &ids), Some((String::from("2"), String::from("1"))));
    assert_eq!(discover_tokens(&list(&["Yes", "No"]), &ids), None);
    assert_eq!(discover_tokens(&list(&["Up"]), &ids), None);
    assert_eq!(discover_tokens(&list(&["Up", "Down"]), &list(&["1"])), None);
    assert_eq!(discover_tokens(&list(&["Up", "x", "Down"]), &ids), None);
    assert_eq!(discover_tokens(&list(&["Up", "Down"]), &list(&["1", ""])), None);
}

#[test]
fn the_last_matching_outcome_counts() {
    let ids = list(&["1", "2", "3"]);
    assert_eq!(pick_tokens(&list(&["up", "down", "up"]), &ids), Some((String::from("3"), String::from("2"))));
    assert_eq!(pick_tokens(&list(&["UP", "DOWN"]), &ids), None);
}

#[test]
fn time_runs_out() {
    assert_eq!(seconds_until_close(600, 650), 250);
    assert_eq!(seconds_until_close(600, 950), -50);
    let m = BtcMarket { slug: String::from("s"), up_token_id: String::from("u"), down_token_id: String::from("d"), interval_start: 600 };
    assert_eq!(time_left_in_market(&Some(m.duplicate()), 650), Some(250));
    assert_eq!(time_left_in_market(&Some(m), 950), Some(0));
    assert_eq!(time_left_in_market(&None, 950), None);
}

#[test]
fn top_levels_go_from_best_to_worst() {
    let levels = vec![
        level("0.10", "1"),
        level("0.50", "2"),
        level("bad", "9"),
        level("0.30", "x"),
        level("0.50", "3"),
        level("0.20", "4"),
        level("0.40", "5"),
        level("0.05", "6"),
    ];
    let bids: Vec<(String, String)> = read_top_levels(&levels, true).iter().map(|l| (l.price.to_text(), l.size.to_text())).collect();
    let expected: Vec<(String, String)> = [("0.50", "2"), ("0.50", "3"), ("0.40", "5"), ("0.30", "0"), ("0.20", "4")]
        .iter()
        .map(|(p, s)| (p.to_string(), s.to_string()))
        .collect();
    assert_eq!(bids, expected);
    let asks: Vec<String> = read_top_levels(&levels, false).iter().map(|l| l.price.to_text()).collect();
    assert_eq!(asks, list(&["0.05", "0.10", "0.20", "0.30", "0.40"]));
    assert!(read_top_levels(&vec![level("?", "1")], true).is_empty());
}

#[test]
fn a_book_is_taken_over() {
    let mut book = Orderbook::new();
    book.apply_book(true, &Some(vec![level("0.4", "1"), level("0.45", "2"), level("x", "1")]), &Some(vec![level("0.5", "1"), level("0.48", "2")]), 10);
    assert!(book.up_best_bid.unwrap().same(d("0.45")));
    assert!(book.up_best_ask.unwrap().same(d("0.48")));
    assert_eq!((book.up_bid_depth, book.up_ask_depth), (3, 2));
    assert_eq!((book.last_update_ms, book.update_count), (Some(10), 1));
    assert!(book.down_best_bid.is_none());
    book.apply_price_change(false, Some(d("0.53")), None, 11);
    assert!(book.down_best_bid.unwrap().same(d("0.53")));
    assert!(book.down_best_ask.is_none());
    book.apply_price_change(false, None, Some(d("0.55")), 12);
    assert!(book.down_best_bid.unwrap().same(d("0.53")));
    assert!(book.down_best_ask.unwrap().same(d("0.55")));
    book.apply_book(true, &None, &None, 13);
    assert!(book.up_best_bid.is_none() && book.up_bids.is_empty());
    assert_eq!(book.update_count, 4);
}

#[test]
fn books_grow_stale() {
    let mut book = Orderbook::new();
    assert!(book.is_stale(0));
    book.apply_price_change(true, None, None, 1000);
    assert!(!book.is_stale(6000));
    assert!(book.is_stale(6001));
    assert!(!book.is_stale(0));
}

#[test]
fn prices_of_both_tokens_have_to_fit_together() {
    let mut book = Orderbook::new();
    assert!(book.is_sane());
    for (ask, bid, sane) in [("0.50", "0.45", true), ("0.50", "0.44", false), ("0.60", "0.45", true), ("0.60", "0.46", false)] {
        book.up_best_ask = Some(d(ask));
        book.down_best_bid = Some(d(bid));
        assert_eq!(book.is_sane(), sane);
    }
    book.clear_best_prices();
    assert!(book.up_best_ask.is_none() && book.down_best_bid.is_none());
    assert!(book.is_sane());
}

#[test]
fn latencies_follow_from_stated_times() {
    assert_eq!(latency_from(&Some(String::from("900")), 1000, 7), 100);
    assert_eq!(latency_from(&Some(String::from("1200")), 1000, 7), 0);
    assert_eq!(latency_from(&Some(String::from("soon")), 1000, 7), 7);
    assert_eq!(latency_from(&None, 1000, 7), 7);
}

#[test]
fn tokens_belong_to_a_side() {
    let (up, down) = (String::from("u"), String::from("d"));
    assert_eq!(token_side(&String::from("u"), &up, &down), TokenSide::Up);
    assert_eq!(token_side(&String::from("d"), &up, &down), TokenSide::Down);
    assert_eq!(token_side(&String::from("x"), &up, &down), TokenSide::Neither);
}

fn change(token: &str, bid: &str, timestamp: Option<&str>) -> MarketPriceChange {
    MarketPriceChange {
        asset_id: Some(token.to_string()),
        best_bid: Some(bid.to_string()),
        best_ask: None,
        timestamp: timestamp.map(String::from),
    }
}

#[test]
fn market_messages_keep_the_book_up_to_date() {
    let (up, down) = (String::from("u"), String::from("d"));
    let mut book = Orderbook::new();
    let mut msg = MarketMessage {
        event_type: Some(String::from("price_change")),
        asset_id: None,
        bids: None,
        asks: None,
        price_changes: Some(vec![change("u", "0.41", Some("950")), change("x", "0.9", None), change("d", "0.57", Some("980"))]),
        timestamp: Some(String::from("900")),
    };
    assert_eq!(apply_market_message(&mut book, 5, &msg, &up, &down, 1000), 20);
    assert!(book.up_best_bid.unwrap().same(d("0.41")));
    assert!(book.down_best_bid.unwrap().same(d("0.57")));
    assert_eq!(book.update_count, 2);
    msg.event_type = Some(String::from("book"));
    msg.asset_id = Some(String::from("d"));
    msg.bids = Some(vec![level("0.5", "1"), level("0.6", "1")]);
    assert_eq!(apply_market_message(&mut book, 5, &msg, &up, &down, 1000), 100);
    assert!(book.down_best_bid.unwrap().same(d("0.6")));
    assert!(book.down_best_ask.is_none());
    assert_eq!(book.update_count, 3);
    msg.asset_id = Some(String::from("other"));
    msg.timestamp = None;
    assert_eq!(apply_market_message(&mut book, 5, &msg, &up, &down, 1000), 5);
    msg.event_type = Some(String::from("tick_size_change"));
    apply_market_message(&mut book, 5, &msg, &up, &down, 1000);
    msg.event_type = None;
    apply_market_message(&mut book, 5, &msg, &up, &down, 1000);
    assert_eq!(book.update_count, 3);
}

#[test]
fn tokens_are_found_in_lists_of_texts() {
    let found = discover_tokens_in(r#"["Up","Down"]"#, r#"["11","22"]"#);
    assert_eq!(found, Some((String::from("11"), String::from("22"))));
    assert_eq!(discover_tokens_in(r#"["DOWN","up"]"#, r#"["11","22"]"#), Some((String::from("22"), String::from("11"))));
    assert_eq!(discover_tokens_in(r#"["Up","Down"]"#, "no list"), None);
    assert_eq!(discover_tokens_in(r#"["Up",1]"#, r#"["11","22"]"#), None);
    assert_eq!(discover_tokens_in(r#"["Up","Down"]"#, r#"["11"]"#), None);
}
