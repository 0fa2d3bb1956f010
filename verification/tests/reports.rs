use position_manager::config::{read_config, BotTexts};
use position_manager::decimal::Dec;
use position_manager::display::{bot_tone, count_selected, find_extreme, manager_tone, shown_entry, sum_made, summarize, trade_stats, Selection, Tone};
use position_manager::health::{disk_fields, read_memory};
use position_manager::history::{parse_trade_line, read_or_now, row_time, trade_from_fields, FileRow, TradeRow};
use position_manager::models::{norm_fields, plan_model, read_dims, value_in_line, window_sections, LayerShape, WINDOW_MODEL_VALUES};
use position_manager::orderbook::Orderbook;
use position_manager::side::Side;
use position_manager::trader::{EntryType, Position, SharedState, TradeRecord};
use std::collections::VecDeque;

fn d(text: &str) -> Dec {
    Dec::parse(text).unwrap()
}

fn bot() -> SharedState {
    let texts = BotTexts { dry_run: None, position_size: None, tick_threshold: None, min_hold_ms: None, hold_timeout_ms: None, max_trades: None };
    SharedState::new(&read_config(&texts), 0)
}

fn trade(time_ms: i64, pnl: &str, size: &str) -> TradeRecord {
    TradeRecord {
        time_ms,
        side: Side::Up,
        entry_price: d("0.5"),
        exit_price: d("0.4"),
        pnl: d(pnl),
        hold_ms: 1,
        predicted_vol_bits: 0,
        size: d(size),
        entry_type: EntryType::Momentum,
        trigger_exchange: String::new(),
        z_bits: 0,
    }
}

fn open_position(side: Side, size: &str, entry_ms: u64) -> Position {
    Position {
        side,
        entry_price: d("0.5"),
        entry_ms,
        size: d(size),
        predicted_vol_bits: 0,
        is_safe_entry: false,
        is_reversal: false,
        trigger_exchange: String::new(),
        direction_prob_raw_bits: 0,
        direction_prob_cal_bits: 0,
        market_interval_start: 0,
        entry_z_bits: 0,
        displacement_bits: 0,
        elapsed_bits: 0,
        liq_count_bits: 0,
    }
}

#[test]
fn trades_are_summed_up() {
    let trades: VecDeque<TradeRecord> = vec![trade(100, "0.10", "10"), trade(200, "-0.05", "20"), trade(300, "0.02", "50"), trade(400, "0", "9")].into();
    let s = trade_stats(&trades, 200).unwrap();
    assert!(s.window_pnl.same(d("0")));
    assert_eq!((s.window_trades, s.window_wins), (3, 1));
    assert!(s.gross_profit.same(d("2")));
    assert!(s.gross_loss.same(d("1")));
    assert!(s.profit_factor.unwrap().same(d("2")));
    assert!(s.avg_win.same(d("1")));
    assert!(s.avg_loss.same(d("1")));
    assert!(s.max_win.same(d("1")));
    assert!(s.max_loss.same(d("-1")));
    assert_eq!(count_selected(&trades, Selection::Won) + count_selected(&trades, Selection::Lost), 3);
    assert!(count_selected(&trades, Selection::WonSince(0)) <= count_selected(&trades, Selection::Since(0)));
    assert!(sum_made(&trades, Selection::Lost, false).unwrap().same(d("-1")));
    assert!(find_extreme(&trades, true).unwrap().same(d("1")));
}

#[test]
fn no_trades_give_empty_statistics() {
    let s = trade_stats(&VecDeque::new(), 0).unwrap();
    assert!(s.window_pnl.same(d("0")) && s.avg_win.same(d("0")) && s.max_win.same(d("0")) && s.max_loss.same(d("0")));
    assert!(s.profit_factor.is_none());
    assert_eq!(s.window_trades, 0);
}

#[test]
fn sums_that_cannot_be_held_give_no_statistics() {
    let mut t = trade(0, "79228162514264337593543950335", "10");
    t.side = Side::Down;
    let trades: VecDeque<TradeRecord> = vec![t].into();
    assert!(trade_stats(&trades, 0).is_none());
}

#[test]
fn open_positions_are_summarized() {
    let mut all = vec![open_position(Side::Up, "10", 100), open_position(Side::Down, "2.5", 50), open_position(Side::Up, "1", 900)];
    all[1].is_safe_entry = true;
    all[2].is_reversal = true;
    let s = summarize(&all, 500);
    assert_eq!((s.count, s.up, s.down), (3, 2, 1));
    assert_eq!((s.momentum, s.safe, s.reversal), (1, 1, 1));
    assert_eq!(s.oldest_ms, 450);
    assert!(s.total_size.unwrap().same(d("13.5")));
}

#[test]
fn shown_entries_need_an_ask() {
    let mut book = Orderbook::new();
    book.up_best_bid = Some(d("0.58"));
    assert!(shown_entry(&book, Side::Down).is_none());
    book.down_best_ask = Some(d("0.44"));
    assert!(shown_entry(&book, Side::Down).unwrap().same(d("0.42")));
    book.up_best_bid = None;
    assert!(shown_entry(&book, Side::Down).unwrap().same(d("0.44")));
}

#[test]
fn log_lines_have_a_tone() {
    assert_eq!(bot_tone("[OK] filled"), Tone::Good);
    assert_eq!(bot_tone("<<< EXIT Up"), Tone::Good);
    assert_eq!(bot_tone("[X] lost"), Tone::Bad);
    assert_eq!(bot_tone("some error"), Tone::Bad);
    assert_eq!(bot_tone(">>> ENTER Up"), Tone::Entry);
    assert_eq!(bot_tone("[!] slow"), Tone::Warning);
    assert_eq!(bot_tone("hello"), Tone::Plain);
    assert_eq!(manager_tone("[OK] sold"), Tone::Good);
    assert_eq!(manager_tone("[X] no"), Tone::Bad);
    assert_eq!(manager_tone(">>> selling"), Tone::Warning);
    assert_eq!(manager_tone("[!] slow"), Tone::Warning);
    assert_eq!(manager_tone("error"), Tone::Plain);
}

#[test]
fn times_of_rows_are_utc() {
    assert_eq!(row_time("2023-11-14 22:13:20.123", 5), 1700000000123);
    assert_eq!(row_time("14.11.2023", 5), 5);
    assert_eq!(read_or_now(Some(1), 2), 1);
    assert_eq!(read_or_now(None, 2), 2);
}

#[test]
fn trades_of_the_database_are_loaded() {
    let row = |time_ms: i64, side: &str, pnl: &str| TradeRow {
        time_ms,
        side_text: side.to_string(),
        entry_price: d("0.5"),
        exit_price: d("0.4"),
        pnl: d(pnl),
        hold_ms: 9,
        predicted_vol_bits: 3,
    };
    let mut s = bot();
    let total = s.load_trades(&vec![row(1, "Up", "0.10"), row(2, "Down", "-0.04")]).unwrap();
    assert!(total.same(d("0.6")));
    assert!(s.tally.total_pnl.same(d("0.6")));
    assert_eq!((s.tally.trade_count, s.tally.win_count), (2, 1));
    assert_eq!((s.trades[0].time_ms, s.trades[1].time_ms), (2, 1));
    assert_eq!((s.trades[0].side, s.trades[1].side), (Side::Down, Side::Up));
    assert_eq!(s.trades[0].trigger_exchange, "Unknown");
    assert!(s.trades[0].size.same(d("10")));
    assert!(s.load_trades(&vec![row(1, "Up", "79228162514264337593543950335")]).is_none());
    assert_eq!(s.trades.len(), 2);
}

const LINE: &str = "2023-11-14 22:13:20.500,BTC Up,0.45,0.50,5.0,4200,7.25,a,b,c";

#[test]
fn lines_of_the_old_file_are_read() {
    let t = parse_trade_line(LINE).unwrap();
    assert_eq!((t.time_ms, t.side, t.hold_ms, t.vol_text.as_str()), (1700000000500, Side::Up, 4200, "7.25"));
    assert!(t.entry_price.same(d("0.45")));
    assert!(t.exit_price.same(d("0.50")));
    assert!(t.pnl.same(d("0.05")));
    let t = parse_trade_line("2023-11-14 22:13:20.500,Down,?,?,?,?,?,a,b,c").unwrap();
    assert_eq!((t.side, t.hold_ms), (Side::Down, 0));
    assert!(t.entry_price.same(d("0")) && t.pnl.same(d("0")));
    assert!(parse_trade_line("2023-11-14 22:13:20.500,Up,1,2,3,4,5,6,7").is_none());
    assert!(parse_trade_line("time,side,entry,exit,pnl,hold,vol,a,b,c").is_none());
    let fields = vec!["x", "Up", "1", "2", "300", "4", "5", "6", "7", "8"];
    assert!(trade_from_fields(&fields, Some(7)).unwrap().pnl.same(d("3")));
    assert!(trade_from_fields(&fields, None).is_none());
}

#[test]
fn trades_of_the_old_file_are_loaded() {
    let mut s = bot();
    let rows: Vec<FileRow> = (0..53).map(|n| FileRow { trade: parse_trade_line(LINE).unwrap(), predicted_vol_bits: n }).collect();
    let total = s.load_historical_trades(&rows).unwrap();
    assert!(total.same(d("26.5")));
    assert_eq!((s.tally.trade_count, s.tally.win_count), (53, 53));
    assert_eq!(s.trades.len(), 50);
    assert_eq!(s.trades[0].predicted_vol_bits, 3);
    assert_eq!(s.trades[49].predicted_vol_bits, 52);
}

#[test]
fn model_headers_give_the_layers() {
    assert_eq!(read_dims("MLP 12 x 64 32 -1 1"), vec![12, 64, 32, 1]);
    let plan = plan_model("12 64 32 1").unwrap();
    assert_eq!(plan.n_features, 12);
    assert_eq!(plan.hidden, vec![LayerShape { inputs: 12, outputs: 64 }, LayerShape { inputs: 64, outputs: 32 }]);
    assert_eq!(plan.hidden[0].outputs, plan.hidden[1].inputs);
    assert_eq!(plan.last_hidden, 32);
    assert!(plan_model("12 1").is_none());
}

#[test]
fn lines_of_model_files_are_told_apart() {
    assert_eq!(norm_fields("return_5,0.1,0.02"), Some(("0.1", "0.02")));
    assert_eq!(norm_fields("#name,mean,std"), None);
    assert_eq!(norm_fields("  "), None);
    assert_eq!(norm_fields("a,b"), None);
    assert_eq!(value_in_line(" 0.25 "), Some("0.25"));
    assert_eq!(value_in_line("# 3"), None);
    assert_eq!(value_in_line("1 2"), None);
    assert_eq!(value_in_line(""), None);
}

#[test]
fn sections_of_the_window_model_have_no_gaps() {
    assert!(window_sections(WINDOW_MODEL_VALUES - 1).is_none());
    let starts = window_sections(WINDOW_MODEL_VALUES).unwrap();
    assert_eq!(starts, vec![0, 960, 1024, 1088, 1152, 1216, 1280, 3328, 3360, 3392, 3424, 3456, 3488, 4000, 4016, 4032]);
    assert_eq!(starts[15] + 1, WINDOW_MODEL_VALUES);
}

#[test]
fn memory_is_read_in_megabytes() {
    let m = read_memory("MemTotal:       2048000 kB\nMemFree: 5 kB\nMemAvailable:   1024000 kB\n").unwrap();
    assert_eq!((m.total_mb, m.used_mb), (2000, 1000));
    let m = read_memory("nothing").unwrap();
    assert_eq!((m.total_mb, m.used_mb), (0, 0));
    assert!(read_memory("MemAvailable: 5 kB").is_none());
}

#[test]
fn disk_sizes_stand_in_the_second_line() {
    assert_eq!(disk_fields("Filesystem Size Used Avail\n/dev/a 40G 12G 28G 30% /\n"), Some(("40G", "12G")));
    assert_eq!(disk_fields("Filesystem"), None);
    assert_eq!(disk_fields("a\nb c d"), None);
}
