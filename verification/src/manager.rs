//! State of the position manager.

use crate::decimal::Dec;
use crate::lists::{count_where, law_counting_is_exact, lemma_count_step};
use crate::position::TrackedPosition;
use crate::text::{format_uptime, uptime_text};
use std::collections::VecDeque;
use vstd::prelude::*;

verus! {

/// How many log lines are kept.
pub const LOG_LINES: usize = 100;

/// What the keyboard is used for.
#[derive(Clone, Copy, Debug, PartialEq, Eq, Structural)]
pub enum InputMode {
    Normal,
    EditingSL,
    EditingTP,
}

/// Everything the position manager knows.
#[derive(Debug)]
pub struct AppState {
    /// All positions.
    pub positions: Vec<TrackedPosition>,
    /// Index of the selected position.
    pub selected_index: usize,
    /// What the keyboard is used for.
    pub input_mode: InputMode,
    /// The price being typed.
    pub input_buffer: String,
    /// The last log lines, oldest first.
    pub logs: VecDeque<String>,
    /// Whether orders are only pretended.
    pub dry_run: bool,
    /// Balance of the wallet.
    pub usdc_balance: Dec,
    /// Address of the wallet.
    pub funder_address: String,
    /// When the session began, in milliseconds.
    pub start_ms: u64,
    /// When the wallet was last scanned, in milliseconds.
    pub last_scan_ms: Option<u64>,
    /// Whether prices are streaming.
    pub ws_connected: bool,
    /// How many stream messages have come.
    pub ws_msg_count: u64,
    /// How many watched positions have a trigger.
    pub active_triggers: usize,
    /// How many sells were executed in this session.
    pub sells_executed: u32,
    /// The row that the table highlights.
    pub highlighted: Option<usize>,
}

/// A log with one more line at its end, cut to the last lines that are kept.
pub open spec fn logged(logs: Seq<String>, line: String) -> Seq<String> {
    if logs.len() + 1 > LOG_LINES {
        logs.push(line).skip(1)
    } else {
        logs.push(line)
    }
}

/// How many watched positions have a trigger.
pub open spec fn live_triggers(positions: Seq<TrackedPosition>) -> nat {
    count_where(positions, |p: TrackedPosition| p.has_live_trigger())
}

impl AppState {
    /// Whether the selection is on a position, where there is one.
    pub open spec fn selection_in_bounds(self) -> bool {
        self.positions@.len() > 0 ==> self.selected_index < self.positions@.len()
    }

    /// The state at the start of a session.
    pub fn new(dry_run: bool, funder_address: String, now_ms: u64) -> (r: AppState)
        ensures
            r.positions@ == Seq::<TrackedPosition>::empty(),
            r.selected_index == 0,
            r.input_mode == InputMode::Normal,
            r.input_buffer@ == Seq::<char>::empty(),
            r.logs@ == Seq::<String>::empty(),
            r.dry_run == dry_run,
            r.usdc_balance == Dec::of(0, 0),
            r.funder_address == funder_address,
            r.start_ms == now_ms,
            r.last_scan_ms is None,
            !r.ws_connected,
            r.ws_msg_count == 0,
            r.active_triggers == 0,
            r.sells_executed == 0,
            r.highlighted == Some(0usize),
            r.selection_in_bounds(),
    {
        AppState {
            positions: Vec::new(),
            selected_index: 0,
            input_mode: InputMode::Normal,
            input_buffer: String::new(),
            logs: VecDeque::with_capacity(LOG_LINES),
            dry_run,
            usdc_balance: Dec::zero(),
            funder_address,
            start_ms: now_ms,
            last_scan_ms: None,
            ws_connected: false,
            ws_msg_count: 0,
            active_triggers: 0,
            sells_executed: 0,
            highlighted: Some(0),
        }
    }

    /// Appends a log line with the time before it, and drops the oldest line
    /// where there are too many.
    pub fn add_log(&mut self, time: &str, msg: &str)
        ensures
            exists|line: String|
                line@ == "["@ + time@ + "] "@ + msg@ && final(self).logs@ == logged(
                    old(self).logs@,
                    line,
                ),
            old(self).logs@.len() <= LOG_LINES ==> final(self).logs@.len() <= LOG_LINES,
            *final(self) == (AppState { logs: final(self).logs, ..*old(self) }),
    {
        let line = "[".to_owned().concat(time).concat("] ").concat(msg);
        let ghost shown = line;
        self.logs.push_back(line);
        if self.logs.len() > LOG_LINES {
            let _dropped = self.logs.pop_front();
        }
        proof {
            assert(shown@ =~= "["@ + time@ + "] "@ + msg@);
            assert(self.logs@ =~= logged(old(self).logs@, shown));
        }
    }

    /// The selected position, if there is one.
    pub fn selected_position(&self) -> (r: Option<&TrackedPosition>)
        ensures
            r == (if self.selected_index < self.positions@.len() {
                Some(&self.positions@[self.selected_index as int])
            } else {
                None
            }),
    {
        if self.selected_index < self.positions.len() {
            Some(&self.positions[self.selected_index])
        } else {
            None
        }
    }

    /// Where the selection goes from the index `selected` of `len` positions when
    /// it moves up: to the one before, or from the first to the last.
    pub open spec fn index_above(selected: int, len: int) -> int {
        if selected > 0 {
            selected - 1
        } else {
            len - 1
        }
    }

    /// Where the selection goes when it moves down: to the next one, or from the
    /// last to the first.
    pub open spec fn index_below(selected: int, len: int) -> int {
        if selected < len - 1 {
            selected + 1
        } else {
            0
        }
    }

    /// Moves the selection up.
    pub fn move_selection_up(&mut self)
        ensures
            *final(self) == (if old(self).positions@.len() == 0 {
                *old(self)
            } else {
                let to = AppState::index_above(
                    old(self).selected_index as int,
                    old(self).positions@.len() as int,
                );
                AppState { selected_index: to as usize, highlighted: Some(to as usize), ..*old(self) }
            }),
            old(self).selection_in_bounds() ==> final(self).selection_in_bounds(),
    {
        let len: usize = self.positions.len();
        if len > 0 {
            if self.selected_index > 0 {
                self.selected_index -= 1;
            } else {
                self.selected_index = len - 1;
            }
            self.highlighted = Some(self.selected_index);
        }
    }

    /// Moves the selection down.
    pub fn move_selection_down(&mut self)
        ensures
            *final(self) == (if old(self).positions@.len() == 0 {
                *old(self)
            } else {
                let to = AppState::index_below(
                    old(self).selected_index as int,
                    old(self).positions@.len() as int,
                );
                AppState { selected_index: to as usize, highlighted: Some(to as usize), ..*old(self) }
            }),
            old(self).selection_in_bounds() ==> final(self).selection_in_bounds(),
    {
        let len: usize = self.positions.len();
        if len > 0 {
            if self.selected_index < len - 1 {
                self.selected_index += 1;
            } else {
                self.selected_index = 0;
            }
            self.highlighted = Some(self.selected_index);
        }
    }

    /// Counts the watched positions that have a trigger.
    pub fn count_active_triggers(&self) -> (r: usize)
        ensures
            r == live_triggers(self.positions@),
    {
        let ghost p = |p: TrackedPosition| p.has_live_trigger();
        let mut count: usize = 0;
        let mut i: usize = 0;
        let len: usize = self.positions.len();
        proof {
            assert(self.positions@.take(0) =~= Seq::empty());
        }
        while i < len
            invariant
                i <= len,
                len == self.positions@.len(),
                p == (|p: TrackedPosition| p.has_live_trigger()),
                count == count_where(self.positions@.take(i as int), p),
                count <= i,
            decreases len - i,
        {
            proof {
                lemma_count_step(self.positions@, p, i as int);
            }
            let position = &self.positions[i];
            if position.status.is_active() && (position.sl_price.is_some()
                || position.tp_price.is_some()) {
                count += 1;
            }
            i += 1;
        }
        proof {
            assert(self.positions@.take(i as int) =~= self.positions@);
        }
        count
    }

    /// How long the session has lasted.
    pub fn uptime(&self, now_ms: u64) -> (r: String)
        ensures
            r@ == uptime_text(
                if now_ms >= self.start_ms {
                    ((now_ms - self.start_ms) / 1000) as nat
                } else {
                    0
                },
            ),
    {
        let elapsed: u64 = if now_ms >= self.start_ms {
            now_ms - self.start_ms
        } else {
            0
        };
        format_uptime(elapsed / 1000)
    }
}

/// Moving the selection up undoes moving it down.
pub proof fn law_selection_up_undoes_down(selected: int, len: int)
    requires
        0 <= selected < len,
    ensures
        AppState::index_above(AppState::index_below(selected, len), len) == selected,
        AppState::index_below(AppState::index_above(selected, len), len) == selected,
{
}

/// Adding a line never makes the log longer than it may be, and the line is its
/// newest.
pub proof fn law_log_is_bounded(logs: Seq<String>, line: String)
    requires
        logs.len() <= LOG_LINES,
    ensures
        logged(logs, line).len() <= LOG_LINES,
        logged(logs, line).last() == line,
{
}

/// The log keeps its lines in order, the newest last, and only the oldest line is
/// dropped, once there are a hundred.
pub proof fn law_log_drops_only_the_oldest(logs: Seq<String>, line: String)
    ensures
        logs.len() < 100 ==> logged(logs, line) == logs + seq![line],
        logs.len() >= 100 ==> logged(logs, line) == logs.subrange(1, logs.len() as int) + seq![
            line,
        ],
{
    assert(logs.push(line) =~= logs + seq![line]);
    if logs.len() >= 100 {
        assert(logs.push(line).skip(1) =~= logs.subrange(1, logs.len() as int) + seq![line]);
    }
}

/// One more position adds to the number of live triggers exactly where it is
/// watched and has a stop-loss or a take-profit.
pub proof fn law_live_triggers_are_counted(positions: Seq<TrackedPosition>, p: TrackedPosition)
    ensures
        live_triggers(Seq::empty()) == 0,
        p.status is Active && (p.sl_price is Some || p.tp_price is Some) ==> live_triggers(
            positions.push(p),
        ) == live_triggers(positions) + 1,
        !(p.status is Active) || (p.sl_price is None && p.tp_price is None) ==> live_triggers(
            positions.push(p),
        ) == live_triggers(positions),
{
    law_counting_is_exact(positions, p, |p: TrackedPosition| p.has_live_trigger());
}

/// Moving the selection goes to the neighbouring position, and round at the ends.
pub proof fn law_selection_goes_round(selected: int, len: int)
    requires
        0 <= selected < len,
    ensures
        selected < len - 1 ==> AppState::index_below(selected, len) == selected + 1,
        selected == len - 1 ==> AppState::index_below(selected, len) == 0,
        selected > 0 ==> AppState::index_above(selected, len) == selected - 1,
        selected == 0 ==> AppState::index_above(selected, len) == len - 1,
{
}

/// The selection is in bounds exactly where it is on a position or there is none.
pub proof fn law_selection_is_on_a_position(s: AppState)
    ensures
        s.selection_in_bounds() <==> s.positions@.len() == 0 || s.selected_index
            < s.positions@.len(),
{
}

} // verus!
