use position_manager::binance::{extract_json_field, extract_json_number, parse_binance_trade_fast};
use position_manager::momentum;

const TRADE: &[u8] = br#"{"e":"trade","E":1700000000500,"s":"BTCUSDT","t":1,"p":"97123.45","q":"0.015","T":1700000000499,"m":true,"M":true}"#;

#[test]
fn a_trade_message_is_read() {
    assert_eq!(parse_binance_trade_fast(TRADE), Some(("97123.45", "0.015", 1700000000499)));
}

#[test]
fn incomplete_trade_messages_are_refused() {
    assert_eq!(parse_binance_trade_fast(br#"{"q":"1","T":5}"#), None);
    assert_eq!(parse_binance_trade_fast(br#"{"p":"1","T":5}"#), None);
    assert_eq!(parse_binance_trade_fast(br#"{"p":"1","q":"1"}"#), None);
    assert_eq!(parse_binance_trade_fast(br#"{"p":"1","q":"1","T":x}"#), None);
    assert_eq!(parse_binance_trade_fast(br#"{"p":"1","q":"1","T":5"#), None);
    assert_eq!(parse_binance_trade_fast(br#"{"p":"1","q":"1","T":5}"#), Some(("1", "1", 5)));
    assert_eq!(parse_binance_trade_fast(b""), None);
}

#[test]
fn fields_end_at_their_marks() {
    assert_eq!(extract_json_field(br#"{"a":"x","b":"y"}"#, br#""b":""#), Some("y"));
    assert_eq!(extract_json_field(br#"{"a":"x"#, br#""a":""#), None);
    assert_eq!(extract_json_field(b"\"a\":\"\xff\"", br#""a":""#), None);
    assert_eq!(extract_json_number(br#"[{"n":12}]"#, br#""n":"#), Some("12"));
    assert_eq!(extract_json_number(br#"["n":12]"#, br#""n":"#), Some("12"));
    assert_eq!(extract_json_number(br#"{"n":12,"#, br#""n":"#), Some("12"));
    assert_eq!(extract_json_number(br#"{"n":12"#, br#""n":"#), None);
}

#[test]
fn a_trade_message_of_the_momentum_bot_is_read() {
    let m = momentum::parse_binance_trade_fast(TRADE).unwrap();
    assert_eq!(m.ts_us, 1700000000499000);
    assert_eq!(m.price, "97123.45");
    assert_eq!(m.quantity, "0.015");
    assert!(!m.is_buy);
    let bought = momentum::parse_binance_trade_fast(br#"{"p":"1","q":"2","T":-3,"m":false}"#).unwrap();
    assert_eq!(bought.ts_us, -3000);
    assert!(bought.is_buy);
}

#[test]
fn momentum_messages_need_all_their_fields() {
    assert!(momentum::parse_binance_trade_fast(br#"{"p":"1","q":"2","T":3}"#).is_none());
    assert!(momentum::parse_binance_trade_fast(br#"{"p":"1","q":"2","m":true}"#).is_none());
    assert!(momentum::parse_binance_trade_fast(br#"{"p":"1","T":3,"m":true}"#).is_none());
    assert!(momentum::parse_binance_trade_fast(br#"{"p":"1","q":"2","m":true,"T":3}"#).is_none());
    assert!(momentum::parse_binance_trade_fast(br#"{"p":"1","q":"2","T":9223372036854775807,"m":true}"#).is_none());
}

#[test]
fn the_order_of_the_fields_does_not_matter() {
    let orders: [&str; 3] = [
        r#"{"e":"trade","p":"97000.1","q":"0.5","T":1700000000123,"m":true}"#,
        r#"{"T":1700000000123,"x":"p","q":"0.5","s":"BTC","p":"97000.1"}"#,
        r#"{"q":"0.5","y":"T","p":"97000.1","n":12,"T":1700000000123}"#,
    ];
    for text in orders {
        assert_eq!(parse_binance_trade_fast(text.as_bytes()), Some(("97000.1", "0.5", 1700000000123)));
    }
}
