use position_manager::consensus::{apply_consensus, consensus_snapshot, needs_entry_figures, positions_for_consensus, should_fetch_consensus, ConsensusMarket, ConsensusMlSignal, ConsensusTrader};
use position_manager::decimal::Dec;
use position_manager::manager::AppState;
use position_manager::position::{PositionStatus, TrackedPosition};
use position_manager::prices::{apply_best_prices, apply_message, classify, count_message, highest_price, lowest_price, needs_resubscription, OrderbookMsg, PriceChange, StreamMessage};
use position_manager::scanner::{apply_meta, initial_positions, parse_decimal_value, read_book_message, read_orderbook_meta, restore_saved, tokens_needing_meta, track_new, update_known, watched_positions, watched_tokens, RawAmount, RawPosition};
use position_manager::settings::SavedTriggers;

fn d(text: &str) -> Dec {
    Dec::parse(text).unwrap()
}

fn text(s: &str) -> Option<String> {
    Some(s.to_string())
}

fn raw(asset: &str, size: &str, price: &str) -> RawPosition {
    RawPosition {
        asset: asset.to_string(),
        market: String::from("0x1234567890abcdef"),
        title: String::from("Rain"),
        outcome: String::from("Yes"),
        condition_id: format!("c-{}", asset),
        size: RawAmount::Text(size.to_string()),
        avg_price: RawAmount::Number(Some(d("0.40"))),
        cur_price: RawAmount::Text(price.to_string()),
    }
}

fn saved(token: &str, sl: Option<&str>, tp: Option<&str>) -> SavedTriggers {
    SavedTriggers { token_id: token.to_string(), sl_price: sl.map(d), tp_price: tp.map(d) }
}

fn watched(asset: &str) -> TrackedPosition {
    track_new(&raw(asset, "10", "0.5"))
}

#[test]
fn amounts_are_numbers_or_texts() {
    assert!(parse_decimal_value(&RawAmount::Number(Some(d("1.5")))).same(d("1.5")));
    assert!(parse_decimal_value(&RawAmount::Text(String::from("2.25"))).same(d("2.25")));
    assert!(parse_decimal_value(&RawAmount::Text(String::from("x"))).same(d("0")));
    assert!(parse_decimal_value(&RawAmount::Number(None)).same(d("0")));
    assert!(parse_decimal_value(&RawAmount::Other).same(d("0")));
}

#[test]
fn a_new_position_has_no_triggers() {
    let p = watched("a");
    assert_eq!(p.token_id, "a");
    assert_eq!(p.market_title, "Rain");
    assert!(p.entry_price.same(d("0.40")));
    assert!(p.current_bid.unwrap().same(d("0.5")));
    assert!(p.sl_price.is_none() && p.tp_price.is_none());
    assert!(matches!(p.status, PositionStatus::Active));
}

#[test]
fn missing_texts_are_filled_in() {
    let mut r = raw("a", "1", "0");
    r.title = String::new();
    r.outcome = String::new();
    let p = track_new(&r);
    assert_eq!(p.market_title, "Market 0x1234567890");
    assert_eq!(p.outcome, "Unknown");
    assert!(p.current_bid.is_none());
    r.market = String::from("0x1");
    assert_eq!(track_new(&r).market_title, "Market 0x1");
}

#[test]
fn a_known_position_keeps_its_triggers() {
    let mut p = watched("a");
    p.sl_price = Some(d("0.3"));
    p.tp_price = Some(d("0.8"));
    p.sl_trigger_count = 4;
    let mut r = raw("a", "12", "0.9");
    r.title = String::from("Rain tomorrow");
    r.avg_price = RawAmount::Text(String::from("0.45"));
    let u = update_known(&p, &r);
    assert!(u.shares.same(d("12")));
    assert!(u.entry_price.same(d("0.45")));
    assert_eq!(u.market_title, "Rain tomorrow");
    assert!(u.current_bid.unwrap().same(d("0.5")));
    assert!(u.sl_price.unwrap().same(d("0.3")));
    assert!(u.tp_price.unwrap().same(d("0.8")));
    assert_eq!(u.sl_trigger_count, 4);
    r.avg_price = RawAmount::Other;
    r.title = String::new();
    let u = update_known(&p, &r);
    assert!(u.entry_price.same(d("0.40")));
    assert_eq!(u.market_title, "Rain");
}

#[test]
fn a_position_bought_back_starts_afresh() {
    for status in [PositionStatus::Sold, PositionStatus::SLTriggered, PositionStatus::TPTriggered, PositionStatus::Error(String::from("x"))] {
        let mut p = watched("a");
        p.status = status;
        p.sl_price = Some(d("0.3"));
        p.exit_pnl = Some(d("5"));
        p.current_ask = Some(d("0.6"));
        let u = update_known(&p, &raw("a", "3", "0.7"));
        assert!(matches!(u.status, PositionStatus::Active));
        assert!(u.sl_price.is_none() && u.tp_price.is_none());
        assert!(u.exit_pnl.is_none());
        assert!(u.current_ask.is_none());
        assert!(u.current_bid.unwrap().same(d("0.7")));
    }
    let mut p = watched("a");
    p.status = PositionStatus::Selling;
    assert!(matches!(update_known(&p, &raw("a", "3", "0.7")).status, PositionStatus::Selling));
}

#[test]
fn a_scan_watches_what_the_wallet_holds() {
    let mut s = AppState::new(true, String::new(), 0);
    let mut sold = watched("sold");
    sold.status = PositionStatus::Sold;
    let mut known = watched("known");
    known.tp_price = Some(d("0.9"));
    s.positions = vec![watched("gone"), sold, known];
    s.selected_index = 7;
    let reports = vec![raw("new", "5", "0.2"), raw("known", "6", "0.3"), raw("none", "0", "0.3")];
    let report = s.merge_scan(&reports, &vec![saved("new", Some("0.1"), None)], 99);
    let tokens: Vec<&str> = s.positions.iter().map(|p| p.token_id.as_str()).collect();
    assert_eq!(tokens, vec!["new", "known", "sold"]);
    assert!(s.positions[0].sl_price.unwrap().same(d("0.1")));
    assert!(s.positions[1].tp_price.unwrap().same(d("0.9")));
    assert_eq!(s.selected_index, 2);
    assert_eq!(s.highlighted, Some(2));
    assert_eq!(s.active_triggers, 2);
    assert_eq!(s.last_scan_ms, Some(99));
    assert!(!report.count_changed);
    assert!(report.reentries.is_empty());
}

#[test]
fn a_scan_tells_what_was_bought_back() {
    let mut s = AppState::new(true, String::new(), 0);
    let mut sold = watched("a");
    sold.status = PositionStatus::Sold;
    s.positions = vec![sold];
    let report = s.merge_scan(&vec![raw("a", "1", "0.5"), raw("b", "1", "0.5")], &Vec::new(), 1);
    assert_eq!(report.reentries.len(), 1);
    assert_eq!(report.reentries[0].market_title, "Rain");
    assert!(matches!(report.reentries[0].from, PositionStatus::Sold));
    assert!(report.count_changed);
    assert_eq!(s.positions.len(), 2);
    let report = s.merge_scan(&Vec::new(), &Vec::new(), 2);
    assert!(report.count_changed);
    assert!(s.positions.is_empty());
    assert_eq!(s.highlighted, None);
}

#[test]
fn saved_triggers_survive_a_restart() {
    let mut all = initial_positions(&vec![raw("a", "1", "0.5"), raw("b", "0", "0.5"), raw("c", "2", "0.5")]);
    assert_eq!(all.len(), 2);
    restore_saved(&mut all, &vec![saved("c", Some("0.2"), Some("0.8")), saved("x", Some("0.1"), None)]);
    assert!(all[0].sl_price.is_none());
    assert!(all[1].sl_price.unwrap().same(d("0.2")));
    assert!(all[1].tp_price.unwrap().same(d("0.8")));
    restore_saved(&mut all, &vec![saved("c", Some("0.2"), None), saved("c", None, Some("0.7"))]);
    assert!(all[1].sl_price.is_none());
    assert!(all[1].tp_price.unwrap().same(d("0.7")));
}

#[test]
fn markets_are_asked_for_what_is_not_known() {
    let mut all = vec![watched("a"), watched("b"), watched("c")];
    all[1].status = PositionStatus::Sold;
    let meta = read_orderbook_meta(&text("15"), &text("0.001"), Some(true), &text("0.41"), &text("0.43"));
    assert!(meta.best_bid.unwrap().same(d("0.41")));
    assert!(meta.best_ask.unwrap().same(d("0.43")));
    apply_meta(&mut all, &String::from("c"), meta);
    assert!(all[2].min_order_size.unwrap().same(d("15")));
    assert!(all[2].tick_size.unwrap().same(d("0.001")));
    assert_eq!(all[2].neg_risk, Some(true));
    assert_eq!(tokens_needing_meta(&all), vec![String::from("a")]);
    assert_eq!(watched_tokens(&all), vec![String::from("a"), String::from("c")]);
    assert_eq!(watched_positions(&all).len(), 2);
}

#[test]
fn missing_market_parameters_have_defaults() {
    let meta = read_orderbook_meta(&None, &text("x"), None, &None, &None);
    assert!(meta.min_order_size.same(d("5")));
    assert!(meta.tick_size.same(d("0.01")));
    assert!(!meta.neg_risk);
    assert!(meta.best_bid.is_none() && meta.best_ask.is_none());
}

#[test]
fn prices_touch_only_their_token() {
    let mut all = vec![watched("a"), watched("b"), watched("a")];
    apply_best_prices(&mut all, &String::from("a"), Some(d("0.61")), None, 50);
    assert!(all[0].current_bid.unwrap().same(d("0.61")));
    assert!(all[2].current_bid.unwrap().same(d("0.61")));
    assert!(all[0].current_ask.is_none());
    assert_eq!(all[0].last_price_update, Some(50));
    assert!(all[1].current_bid.unwrap().same(d("0.5")));
    assert_eq!(all[1].last_price_update, None);
}

#[test]
fn stream_messages_are_told_apart() {
    let msg = |event: Option<&str>, changes: Option<Vec<PriceChange>>| OrderbookMsg {
        event_type: event.map(String::from),
        asset_id: text("a"),
        bids: Some(vec![String::from("0.1")]),
        asks: None,
        price_changes: changes,
    };
    assert!(matches!(classify(msg(Some("price_change"), Some(Vec::new()))), StreamMessage::PriceChanges(_)));
    assert!(matches!(classify(msg(Some("price_change"), None)), StreamMessage::Other));
    assert!(matches!(classify(msg(Some("book"), None)), StreamMessage::Book { .. }));
    assert!(matches!(classify(msg(Some("tick"), None)), StreamMessage::Other));
    assert!(matches!(classify(msg(None, None)), StreamMessage::Other));
}

#[test]
fn price_messages_are_entered() {
    let mut all = vec![watched("a"), watched("b")];
    let changes = vec![
        PriceChange { asset_id: text("a"), best_bid: text("0.3"), best_ask: text("0.4") },
        PriceChange { asset_id: None, best_bid: text("0.9"), best_ask: None },
        PriceChange { asset_id: text("a"), best_bid: text("0.35"), best_ask: text("bad") },
    ];
    apply_message(&mut all, &StreamMessage::PriceChanges(changes), 7);
    assert!(all[0].current_bid.unwrap().same(d("0.35")));
    assert!(all[0].current_ask.unwrap().same(d("0.4")));
    assert!(all[1].current_bid.unwrap().same(d("0.5")));
    let book = StreamMessage::Book {
        asset_id: text("b"),
        bids: Some(vec![String::from("0.10"), String::from("0.22"), String::from("x"), String::from("0.15")]),
        asks: Some(vec![String::from("0.5"), String::from("0.33"), String::from("0.4")]),
    };
    apply_message(&mut all, &book, 8);
    assert!(all[1].current_bid.unwrap().same(d("0.22")));
    assert!(all[1].current_ask.unwrap().same(d("0.33")));
    apply_message(&mut all, &StreamMessage::Other, 9);
    assert_eq!(all[1].last_price_update, Some(8));
}

#[test]
fn best_prices_of_a_book_are_found() {
    assert!(highest_price(&vec![String::from("0.2"), String::from("0.20"), String::from("0.1")]).unwrap().scale() == 2);
    assert!(lowest_price(&vec![String::from("0.2"), String::from("0.20"), String::from("0.3")]).unwrap().scale() == 1);
    assert!(highest_price(&Vec::new()).is_none());
    assert!(lowest_price(&vec![String::from("?")]).is_none());
}

#[test]
fn the_stream_follows_the_tokens() {
    let list = |names: &[&str]| names.iter().map(|n| n.to_string()).collect::<Vec<String>>();
    assert!(!needs_resubscription(&list(&["a", "b"]), &list(&["b", "a"])));
    assert!(needs_resubscription(&list(&["a"]), &list(&["a", "b"])));
    assert!(needs_resubscription(&list(&["a", "c"]), &list(&["a", "b"])));
    assert_eq!(count_message(0), (1, false));
    assert_eq!(count_message(98), (99, false));
    assert_eq!(count_message(99), (0, true));
}

fn market() -> ConsensusMarket {
    let trader = |outcome: &str, is_arbitrage: bool| ConsensusTrader { outcome: outcome.to_string(), is_arbitrage };
    ConsensusMarket {
        consensus_pct: 71,
        top_trader_count: 5,
        active_trader_count: 3,
        total_value_bits: 1234.5f64.to_bits(),
        outcome_probability_bits: vec![0.62f64.to_bits(), 0.38f64.to_bits()],
        top_traders: vec![trader("Yes", false), trader("Yes", true), trader("No", false), trader("Yes", false), trader("Maybe", false)],
    }
}

#[test]
fn consensus_figures_leave_out_arbitrage() {
    let signal = ConsensusMlSignal {
        signal: String::from("BUY"),
        edge_bits: 0.1f64.to_bits(),
        confidence_label: String::from("high"),
        risk_score_bits: 0.2f64.to_bits(),
    };
    let s = consensus_snapshot(&Some(market()), &Some(signal), 5);
    assert_eq!((s.yes_count, s.no_count, s.consensus_pct), (2, 1, 71));
    assert_eq!(s.market_prob_bits, 0.62f64.to_bits());
    assert_eq!(s.ml_signal, "BUY");
    assert_eq!(s.ml_confidence, "high");
    assert_eq!(s.timestamp_ms, 5);
    let s = consensus_snapshot(&None, &None, 6);
    assert_eq!((s.yes_count, s.no_count, s.consensus_pct), (0, 0, 0));
    assert_eq!(s.ml_signal, "N/A");
    assert_eq!(s.ml_confidence, "none");
    assert_eq!(f64::from_bits(s.market_prob_bits), 0.0);
}

#[test]
fn entry_figures_are_kept() {
    let mut all = vec![watched("a")];
    let token = String::from("a");
    assert!(should_fetch_consensus(&all, 0));
    assert!(needs_entry_figures(&all, &token));
    let mut stored = consensus_snapshot(&None, &None, 1);
    stored.consensus_pct = 11;
    let to_store = apply_consensus(&mut all, &token, consensus_snapshot(&Some(market()), &None, 100), Some(stored));
    assert_eq!(to_store.unwrap().consensus_pct, 11);
    assert!(!needs_entry_figures(&all, &token));
    assert!(!should_fetch_consensus(&all, 55_099));
    assert!(should_fetch_consensus(&all, 55_100));
    let again = apply_consensus(&mut all, &token, consensus_snapshot(&None, &None, 200), None);
    assert!(again.is_none());
    let figures = all[0].consensus.as_ref().unwrap();
    assert_eq!(figures.entry.consensus_pct, 11);
    assert_eq!(figures.current.timestamp_ms, 200);
    assert!(apply_consensus(&mut all, &String::from("z"), consensus_snapshot(&None, &None, 200), None).is_none());
}

#[test]
fn figures_are_fetched_for_watched_markets() {
    let mut all = vec![watched("a"), watched("b"), watched("c")];
    all[1].status = PositionStatus::Sold;
    all[2].condition_id = String::new();
    assert_eq!(positions_for_consensus(&all), vec![(String::from("a"), String::from("c-a"))]);
    assert!(should_fetch_consensus(&Vec::new(), 3));
}

#[test]
fn books_are_read_from_their_answers() {
    let body = r#"{"min_order_size":"15","tick_size":"0.001","neg_risk":true,
        "bids":[{"price":"0.10","size":"1"},{"price":"0.41","size":"2"}],"asks":[{"price":"0.90","size":"1"},{"price":"0.43","size":"2"}]}"#;
    let meta = read_book_message(body).unwrap();
    assert!(meta.min_order_size.same(d("15")));
    assert!(meta.tick_size.same(d("0.001")));
    assert!(meta.neg_risk);
    assert!(meta.best_bid.unwrap().same(d("0.41")));
    assert!(meta.best_ask.unwrap().same(d("0.43")));
    let bare = read_book_message(r#"{"bids":[],"tick_size":0.001}"#).unwrap();
    assert!(bare.min_order_size.same(d("5")));
    assert!(bare.tick_size.same(d("0.01")));
    assert!(!bare.neg_risk && bare.best_bid.is_none() && bare.best_ask.is_none());
    assert!(read_book_message("<html>").is_none());
}
