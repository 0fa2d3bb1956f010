use position_manager::momentum::{choose_entry, decide_leaving, in_early_window, in_late_window, judge_spike, EntryChoice, EntryFacts, ExitFacts, ExitReason, MarketState, MomentumBot, Position, SignalCheck, Spike, SpikeFacts, TickMomentum};
use position_manager::side::Side;
use position_manager::ticks::Tick;

fn tick(ms: i64, is_buyer: bool) -> Tick {
    Tick { timestamp_us: ms * 1000, price_bits: 0, quantity_bits: 0, is_buyer }
}

fn nothing() -> SpikeFacts {
    SpikeFacts { price_up: false, price_down: false, volume_up: false, volume_down: false, fast: false }
}

fn position() -> Position {
    Position { side: Side::Up, entry_z_bits: 1, entry_price_bits: 2, entry_ts_ms: 3, shares_bits: 4 }
}

fn bot() -> MomentumBot {
    MomentumBot::new(MarketState::new(97_000f64.to_bits(), 0), true, 10f64.to_bits())
}

#[test]
fn a_new_bot_knows_its_market_and_size() {
    let mut s = bot().state;
    assert_eq!(f64::from_bits(s.market.reference_bits), 97_000.0);
    assert_eq!((f64::from_bits(s.up_price_bits), f64::from_bits(s.down_price_bits)), (0.5, 0.5));
    assert_eq!(f64::from_bits(s.position_size_bits), 10.0);
    assert!(s.dry_run && s.position.is_none());
    s.update_prices(0.6f64.to_bits(), 0.4f64.to_bits());
    assert_eq!((f64::from_bits(s.up_price_bits), f64::from_bits(s.down_price_bits)), (0.6, 0.4));
}

#[test]
fn two_signs_make_a_spike() {
    let five: Vec<Tick> = (0..5).map(|n| tick(n, true)).collect();
    let six: Vec<Tick> = (0..6).map(|n| tick(n, true)).collect();
    let sold: Vec<Tick> = (0..6).map(|n| tick(n, false)).collect();
    let up = SpikeFacts { price_up: true, ..nothing() };
    assert_eq!(judge_spike(&five, &up), Spike { direction: 0, signs: 0 });
    assert_eq!(judge_spike(&six, &up), Spike { direction: 1, signs: 2 });
    let all = SpikeFacts { price_up: true, volume_up: true, fast: true, ..nothing() };
    assert_eq!(judge_spike(&six, &all), Spike { direction: 1, signs: 4 });
    let down = SpikeFacts { price_down: true, volume_down: true, ..nothing() };
    assert_eq!(judge_spike(&sold, &down), Spike { direction: -1, signs: 3 });
    assert_eq!(judge_spike(&five, &down), Spike { direction: -1, signs: 2 });
    assert_eq!(judge_spike(&vec![tick(0, true); 4], &all), Spike { direction: 0, signs: 0 });
    let both = SpikeFacts { price_up: true, volume_up: true, price_down: true, volume_down: true, fast: false };
    assert_eq!(judge_spike(&five, &both).direction, 1);
}

#[test]
fn spikes_look_at_recent_ticks() {
    let mut ticks = TickMomentum::new(12);
    let facts = SpikeFacts { price_up: true, fast: true, ..nothing() };
    for n in 0..9 {
        ticks.push(tick(n * 100, true));
    }
    assert_eq!(ticks.detect_spike(1000, &facts).signs, 0);
    ticks.push(tick(900, true));
    assert_eq!(ticks.detect_spike(1000, &facts), Spike { direction: 1, signs: 3 });
    assert_eq!(ticks.detect_spike(400, &facts), Spike { direction: 1, signs: 2 });
    assert_eq!(ticks.detect_spike(300, &facts), Spike { direction: 0, signs: 0 });
    assert_eq!(ticks.recent(300, 10).unwrap().len(), 4);
    assert!(ticks.recent(300, 11).is_none());
    for n in 0..9 {
        ticks.push(tick(1000 + n, true));
    }
    assert_eq!(ticks.ticks.len(), 12);
}

fn undecided() -> EntryFacts {
    EntryFacts { leans_up: false, leans_down: false, strong: false, above: false, has_edge: false }
}

fn after(minutes: i64) -> MarketState {
    let mut market = MarketState::new(7, 1_000);
    market.current_ts_ms = 1_000 + minutes * 60_000;
    market
}

#[test]
fn early_entries_need_a_confirmed_spike() {
    let up = Spike { direction: 1, signs: 2 };
    let down = Spike { direction: -1, signs: 2 };
    let leaning_up = EntryFacts { leans_up: true, ..undecided() };
    assert_eq!(choose_entry(up, &leaning_up, &after(2)), Some(EntryChoice::Early(Side::Up)));
    assert_eq!(choose_entry(down, &leaning_up, &after(2)), None);
    assert_eq!(choose_entry(Spike { direction: 0, signs: 0 }, &leaning_up, &after(2)), None);
    assert_eq!(choose_entry(up, &undecided(), &after(2)), None);
    assert_eq!(choose_entry(down, &undecided(), &after(2)), None);
    let leaning_down = EntryFacts { leans_down: true, ..undecided() };
    assert_eq!(choose_entry(down, &leaning_down, &after(0)), Some(EntryChoice::Early(Side::Down)));
    assert_eq!(choose_entry(up, &leaning_up, &after(3)), None);
    assert_eq!(choose_entry(up, &leaning_up, &after(10)), None);
}

#[test]
fn late_entries_need_an_edge() {
    let none = Spike { direction: 0, signs: 0 };
    let late = EntryFacts { strong: true, has_edge: true, above: true, ..undecided() };
    assert_eq!(choose_entry(none, &late, &after(56)), Some(EntryChoice::Late(Side::Up)));
    assert_eq!(choose_entry(none, &EntryFacts { above: false, ..late }, &after(56)), Some(EntryChoice::Late(Side::Down)));
    assert_eq!(choose_entry(none, &EntryFacts { has_edge: false, ..late }, &after(56)), None);
    assert_eq!(choose_entry(none, &EntryFacts { strong: false, ..late }, &after(56)), None);
    assert_eq!(choose_entry(none, &late, &after(55)), None);
    assert_eq!(choose_entry(none, &late, &after(30)), None);
}

#[test]
fn windows_have_a_beginning_and_an_end() {
    assert!(in_early_window(0) && in_early_window(179_999) && !in_early_window(180_000));
    assert!(!in_late_window(3_300_000) && in_late_window(3_300_001) && in_late_window(4_000_000));
    assert_eq!(after(2).elapsed_ms(), 120_000);
}

#[test]
fn only_tenth_ticks_touch_the_market() {
    let mut bot = bot();
    bot.state.update_window(String::from("w"), String::new(), String::new(), 40, 5);
    let start = bot.state.market;
    assert_eq!((start.reference_bits, start.current_bits, start.window_start_ms, start.current_ts_ms), (40, 40, 5, 5));
    for n in 1..10 {
        bot.process_tick(Tick { price_bits: 77, ..tick(n * 7, true) });
        assert_eq!(bot.state.market, start);
    }
    bot.process_tick(Tick { price_bits: 78, ..tick(90, true) });
    assert_eq!(bot.state.market, MarketState { current_bits: 78, current_ts_ms: 90, ..start });
    for zero in [0.0f64, -0.0] {
        bot.state.market.reference_bits = zero.to_bits();
        let seen = bot.state.market;
        for n in 11..21 {
            assert_eq!(bot.process_tick(Tick { price_bits: 79, ..tick(n * 10, true) }), SignalCheck::Skip);
        }
        assert_eq!(bot.state.market, seen);
    }
}

#[test]
fn winners_are_held_and_losers_left() {
    let calm = ExitFacts { expiring: false, winning: false, losing: false, momentum_against: false };
    let none = Spike { direction: 0, signs: 0 };
    let crash = Spike { direction: -1, signs: 3 };
    let hold = decide_leaving(Side::Up, none, &calm);
    assert_eq!((hold.should_exit, hold.reason), (false, ExitReason::Hold));
    let r = decide_leaving(Side::Up, crash, &ExitFacts { expiring: true, losing: true, momentum_against: true, ..calm });
    assert_eq!((r.should_exit, r.reason), (false, ExitReason::TimeExpiry));
    let r = decide_leaving(Side::Up, crash, &ExitFacts { winning: true, ..calm });
    assert_eq!((r.should_exit, r.reason), (false, ExitReason::TakeProfit));
    let r = decide_leaving(Side::Up, none, &ExitFacts { losing: true, momentum_against: true, ..calm });
    assert_eq!((r.should_exit, r.reason), (true, ExitReason::StopLoss));
    let r = decide_leaving(Side::Up, none, &ExitFacts { losing: true, ..calm });
    assert_eq!(r.reason, ExitReason::Hold);
    let r = decide_leaving(Side::Up, crash, &calm);
    assert_eq!((r.should_exit, r.reason), (true, ExitReason::MomentumReversal));
    assert!(!decide_leaving(Side::Down, crash, &calm).should_exit);
    assert!(!decide_leaving(Side::Up, Spike { direction: -1, signs: 2 }, &calm).should_exit);
}

#[test]
fn exit_reasons_have_texts() {
    assert_eq!(ExitReason::Hold.to_text(), "HOLD");
    assert_eq!(ExitReason::TakeProfit.to_text(), "TP");
    assert_eq!(ExitReason::StopLoss.to_text(), "SL");
    assert_eq!(ExitReason::TimeExpiry.to_text(), "TIME");
    assert_eq!(ExitReason::MomentumReversal.to_text(), "REVERSAL");
}

#[test]
fn signals_are_looked_for_on_every_tenth_tick() {
    let mut bot = bot();
    for n in 1..10 {
        assert_eq!(bot.process_tick(tick(n, true)), SignalCheck::Skip);
    }
    assert_eq!(bot.process_tick(tick(10, true)), SignalCheck::Entry);
    assert!(bot.state.execute_entry(position(), true));
    for n in 11..20 {
        assert_eq!(bot.process_tick(tick(n, true)), SignalCheck::Skip);
    }
    assert_eq!(bot.process_tick(tick(20, true)), SignalCheck::Exit(position()));
    for n in 21..30 {
        bot.process_tick(tick(n, true));
    }
    bot.state.market.reference_bits = 0;
    assert_eq!(bot.process_tick(tick(30, true)), SignalCheck::Skip);
    assert_eq!((bot.tick_count, bot.last_tick_us), (30, 30_000));
}

#[test]
fn entries_and_exits_are_counted() {
    let mut s = bot().state;
    assert!(!s.execute_entry(position(), false));
    assert_eq!(s.stats(), (0, 0, 0));
    assert!(s.execute_exit(50, true).is_none());
    s.execute_entry(position(), true);
    assert_eq!(s.execute_exit(150, true), Some(position()));
    s.execute_entry(position(), true);
    s.execute_exit(-40, false);
    assert_eq!(s.stats(), (2, 1, 110));
    s.execute_entry(position(), true);
    s.update_window(String::from("w"), String::from("u"), String::from("d"), 1, 2);
    assert!(s.position.is_none());
    assert_eq!((s.window_id.as_str(), s.up_token_id.as_str(), s.down_token_id.as_str()), ("w", "u", "d"));
    assert_eq!(s.stats(), (3, 1, 110));
}
