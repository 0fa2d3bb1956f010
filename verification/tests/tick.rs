use position_manager::accounting::{EntryFill, ExitKind};
use position_manager::config::{read_config, BotTexts};
use position_manager::decimal::Dec;
use position_manager::market::BtcMarket;
use position_manager::side::Side;
use position_manager::strategy::{BookCheck, TickStage};
use position_manager::tick::{entry_order, next_phase, ExitOutcome, TickPhase};
use position_manager::trader::{BlockReason, SharedState};

fn d(text: &str) -> Dec {
    Dec::parse(text).unwrap()
}

fn bot() -> SharedState {
    let config = read_config(&BotTexts { dry_run: None, position_size: None, tick_threshold: None, min_hold_ms: None, hold_timeout_ms: None, max_trades: None });
    SharedState::new(&config, 1000)
}

fn market(slug: &str, start: i64) -> BtcMarket {
    BtcMarket { slug: slug.to_string(), up_token_id: String::from("u"), down_token_id: String::from("d"), interval_start: start }
}

fn fill(side: Side, price: &str, size: &str, interval: i64) -> EntryFill {
    EntryFill {
        side,
        price: d(price),
        size: d(size),
        trigger_exchange: String::from("Z-Score"),
        is_safe_entry: false,
        is_reversal: false,
        market_interval_start: interval,
        predicted_vol_bits: 0,
        direction_prob_raw_bits: 0,
        direction_prob_cal_bits: 0,
        entry_z_bits: 0,
        displacement_bits: 0,
        elapsed_bits: 0,
        liq_count_bits: 0,
    }
}

#[test]
fn a_tick_without_a_market_gives_nothing_up() {
    let mut s = bot();
    s.record_entry(fill(Side::Up, "0.45", "30", 600), 2000);
    let plan = s.begin_tick(700, &None);
    assert_eq!(plan.stage, TickStage::NoMarket);
    assert!(plan.cleared.is_none());
    assert!(!plan.new_session);
    assert_eq!(s.block_reason, BlockReason::NoMarket);
    assert_eq!(s.positions.len(), 1);
}

#[test]
fn a_tick_gives_up_what_is_stranded() {
    let mut s = bot();
    s.record_entry(fill(Side::Up, "0.45", "30", 600), 2000);
    s.record_entry(fill(Side::Down, "0.45", "7", 900), 2001);
    s.adopt_market(market("b", 900));
    let plan = s.begin_tick(1000, &Some(String::from("a")));
    assert_eq!(plan.stage, TickStage::Trading(200));
    let cleared = plan.cleared.unwrap();
    assert_eq!(cleared.count, 1);
    assert!(cleared.up.same(d("30")));
    assert!(cleared.down.same(d("0")));
    assert!(plan.new_session);
    assert_eq!(s.positions.len(), 1);
    assert_eq!(s.positions[0].side, Side::Down);
    assert!(s.tally.down_shares_bought.same(d("37")));
}

#[test]
fn a_session_begins_once_per_market_and_only_with_time_left() {
    let mut s = bot();
    s.adopt_market(market("b", 900));
    assert!(s.begin_tick(1000, &None).new_session);
    assert!(!s.begin_tick(1000, &Some(String::from("b"))).new_session);
    let closing = s.begin_tick(1190, &None);
    assert_eq!(closing.stage, TickStage::Closing(10));
    assert!(!closing.new_session);
    assert_eq!(s.block_reason, BlockReason::MarketClosing);
    s.record_entry(fill(Side::Up, "0.45", "30", 900), 2000);
    assert_eq!(s.begin_tick(1196, &None).stage, TickStage::ForcedExit(4));
}

#[test]
fn entries_buy_their_own_token() {
    let up = entry_order(&market("b", 900), Side::Up, d("0.45"), d("30"));
    assert!(up.is_up);
    assert_eq!(up.token, "u");
    assert!(up.size.same(d("30")));
    assert!(up.expected.unwrap().same(d("0.45")));
    let down = entry_order(&market("b", 900), Side::Down, d("0.45"), d("30"));
    assert!(!down.is_up);
    assert_eq!(down.token, "d");
}

#[test]
fn exits_buy_the_other_token() {
    let mut s = bot();
    s.record_entry(fill(Side::Up, "0.45", "30", 900), 2000);
    s.orderbook.down_best_ask = Some(d("0.52"));
    s.orderbook.up_best_ask = Some(d("0.49"));
    let order = s.exit_order(&market("b", 900), &s.positions[0], ExitKind::Regular).unwrap();
    assert!(!order.is_up);
    assert_eq!(order.token, "d");
    assert!(order.size.same(d("30")));
    assert!(order.expected.unwrap().same(d("0.52")));
}

#[test]
fn urgent_exits_do_without_a_book() {
    let mut s = bot();
    s.record_entry(fill(Side::Down, "0.45", "30", 900), 2000);
    let m = market("b", 900);
    assert!(s.exit_order(&m, &s.positions[0], ExitKind::Regular).is_none());
    let emergency = s.exit_order(&m, &s.positions[0], ExitKind::Emergency).unwrap();
    assert!(emergency.is_up);
    assert!(emergency.expected.unwrap().same(d("0.5")));
    assert!(s.exit_order(&m, &s.positions[0], ExitKind::Forced).unwrap().expected.is_none());
}

#[test]
fn a_filled_exit_takes_its_position_out() {
    let mut s = bot();
    s.record_entry(fill(Side::Up, "0.45", "30", 900), 2000);
    s.record_entry(fill(Side::Up, "0.40", "10", 900), 2001);
    let p = s.positions[1].duplicate();
    match s.settle_exit(&p, ExitKind::Regular, Some(d("0.5")), 4000, 99) {
        ExitOutcome::Left(pnl) => assert!(pnl.same(d("0.1"))),
        other => panic!("{:?}", other),
    }
    assert_eq!(s.positions.len(), 1);
    assert!(s.positions[0].entry_price.same(d("0.45")));
    assert_eq!((s.tally.trade_count, s.tally.win_count, s.tally.up_exit_count), (1, 1, 1));
    assert!(s.tally.down_shares_bought.same(d("10")));
    assert_eq!(s.trades.len(), 1);
    assert!(matches!(s.settle_exit(&p, ExitKind::Regular, Some(d("0.5")), 4000, 99), ExitOutcome::Gone(_)));
    assert_eq!(s.positions.len(), 1);
}

#[test]
fn an_exit_that_did_not_fill_keeps_its_position() {
    let mut s = bot();
    s.record_entry(fill(Side::Up, "0.45", "30", 900), 2000);
    let p = s.positions[0].duplicate();
    assert!(matches!(s.settle_exit(&p, ExitKind::Emergency, None, 4000, 99), ExitOutcome::NotFilled));
    assert_eq!(s.tally.failed_exit_count, 1);
    assert!(matches!(s.settle_exit(&p, ExitKind::Forced, None, 4000, 99), ExitOutcome::NotFilled));
    assert_eq!(s.tally.failed_exit_count, 1);
    assert_eq!(s.positions.len(), 1);
    assert_eq!(s.tally.trade_count, 0);
    assert!(s.trades.is_empty());
}

#[test]
fn an_exit_that_cannot_be_booked_changes_nothing() {
    let mut s = bot();
    s.record_entry(fill(Side::Up, "0.45", "30", 900), 2000);
    s.positions[0].size = d("79228162514264337593543950335");
    let p = s.positions[0].duplicate();
    s.tally.down_shares_bought = d("79228162514264337593543950335");
    assert!(matches!(s.settle_exit(&p, ExitKind::Regular, Some(d("0.5")), 4000, 99), ExitOutcome::Uncomputable));
    assert_eq!(s.positions.len(), 1);
    assert_eq!(s.tally.trade_count, 0);
}

#[test]
fn counts_have_room_until_they_are_full() {
    let mut s = bot();
    assert!(s.tally.has_room());
    s.tally.win_count = u32::MAX;
    assert!(!s.tally.has_room());
}

fn phases(stage: TickStage, new_session: bool, book: BookCheck) -> Vec<TickPhase> {
    let mut all = vec![TickPhase::Begun];
    while *all.last().unwrap() != TickPhase::Finished {
        all.push(next_phase(*all.last().unwrap(), stage, new_session, book));
    }
    all
}

#[test]
fn a_tick_goes_through_its_phases() {
    assert_eq!(
        phases(TickStage::Trading(100), true, BookCheck::Good),
        vec![
            TickPhase::Begun,
            TickPhase::BeginSession,
            TickPhase::SignOrders,
            TickPhase::LeaveOverdue,
            TickPhase::CheckBook,
            TickPhase::LeaveChosen,
            TickPhase::Enter,
            TickPhase::Finished,
        ]
    );
    assert_eq!(
        phases(TickStage::Trading(100), false, BookCheck::Insane),
        vec![TickPhase::Begun, TickPhase::SignOrders, TickPhase::LeaveOverdue, TickPhase::CheckBook, TickPhase::Finished]
    );
    assert_eq!(
        phases(TickStage::ForcedExit(3), true, BookCheck::Good),
        vec![TickPhase::Begun, TickPhase::ForceOut, TickPhase::Finished]
    );
    assert_eq!(phases(TickStage::Closing(10), false, BookCheck::Good), vec![TickPhase::Begun, TickPhase::Finished]);
    assert_eq!(phases(TickStage::NoMarket, false, BookCheck::Good), vec![TickPhase::Begun, TickPhase::Finished]);
}
