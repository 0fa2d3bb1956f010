//! What the keys of the position manager do.

use crate::checker::{Trigger, TriggerKind};
use crate::decimal::{pow10, unit, Dec, MAX_SCALE};
use crate::manager::{live_triggers, AppState, InputMode};
use crate::position::TrackedPosition;
use crate::selling::{with_position, without_triggers};
use vstd::prelude::*;

verus! {

/// A key.
#[derive(Clone, Copy, Debug, PartialEq, Eq, Structural)]
pub enum Key {
    Char(char),
    Up,
    Down,
    Enter,
    Esc,
    Backspace,
    Other,
}

/// What a key stands for.
#[derive(Clone, Copy, Debug, PartialEq, Eq, Structural)]
pub enum KeyAction {
    Quit,
    SelectNext,
    SelectPrevious,
    Edit(InputMode),
    ClearTriggers,
    ToggleDryRun,
    Refresh,
    ForceSell,
    Cancel,
    Confirm,
    Erase,
    Type(char),
    Ignore,
}

/// Whether a character may stand in a typed price.
pub open spec fn typable(c: char) -> bool {
    '0' <= c <= '9' || c == '.'
}

/// What a key stands for in an input mode.
pub open spec fn meaning(mode: InputMode, key: Key) -> KeyAction {
    if mode == InputMode::Normal {
        match key {
            Key::Char('q') => KeyAction::Quit,
            Key::Char('j') => KeyAction::SelectNext,
            Key::Down => KeyAction::SelectNext,
            Key::Char('k') => KeyAction::SelectPrevious,
            Key::Up => KeyAction::SelectPrevious,
            Key::Char('s') => KeyAction::Edit(InputMode::EditingSL),
            Key::Char('t') => KeyAction::Edit(InputMode::EditingTP),
            Key::Char('x') => KeyAction::ClearTriggers,
            Key::Char('d') => KeyAction::ToggleDryRun,
            Key::Char('r') => KeyAction::Refresh,
            Key::Char('f') => KeyAction::ForceSell,
            _ => KeyAction::Ignore,
        }
    } else {
        match key {
            Key::Esc => KeyAction::Cancel,
            Key::Enter => KeyAction::Confirm,
            Key::Backspace => KeyAction::Erase,
            Key::Char(c) => if typable(c) {
                KeyAction::Type(c)
            } else {
                KeyAction::Ignore
            },
            _ => KeyAction::Ignore,
        }
    }
}

/// Tells what a key stands for.
pub fn key_action(mode: InputMode, key: Key) -> (r: KeyAction)
    ensures
        r == meaning(mode, key),
{
    if mode == InputMode::Normal {
        match key {
            Key::Down => KeyAction::SelectNext,
            Key::Up => KeyAction::SelectPrevious,
            Key::Char(c) => {
                if c == 'q' {
                    KeyAction::Quit
                } else if c == 'j' {
                    KeyAction::SelectNext
                } else if c == 'k' {
                    KeyAction::SelectPrevious
                } else if c == 's' {
                    KeyAction::Edit(InputMode::EditingSL)
                } else if c == 't' {
                    KeyAction::Edit(InputMode::EditingTP)
                } else if c == 'x' {
                    KeyAction::ClearTriggers
                } else if c == 'd' {
                    KeyAction::ToggleDryRun
                } else if c == 'r' {
                    KeyAction::Refresh
                } else if c == 'f' {
                    KeyAction::ForceSell
                } else {
                    KeyAction::Ignore
                }
            },
            _ => KeyAction::Ignore,
        }
    } else {
        match key {
            Key::Esc => KeyAction::Cancel,
            Key::Enter => KeyAction::Confirm,
            Key::Backspace => KeyAction::Erase,
            Key::Char(c) => {
                if c == '.' || ('0' <= c && c <= '9') {
                    KeyAction::Type(c)
                } else {
                    KeyAction::Ignore
                }
            },
            _ => KeyAction::Ignore,
        }
    }
}

/// What a key of the trading bot asks for.
#[derive(Clone, Copy, Debug, PartialEq, Eq, Structural)]
pub enum BotKeyAction {
    Quit,
    ToggleDryRun,
    RaiseThreshold,
    LowerThreshold,
    CycleVolatility,
    Ignore,
}

/// What a key of the trading bot stands for.
pub open spec fn bot_meaning(key: Key) -> BotKeyAction {
    match key {
        Key::Char('q') => BotKeyAction::Quit,
        Key::Char('d') => BotKeyAction::ToggleDryRun,
        Key::Char('+') => BotKeyAction::RaiseThreshold,
        Key::Char('=') => BotKeyAction::RaiseThreshold,
        Key::Char('-') => BotKeyAction::LowerThreshold,
        Key::Char('m') => BotKeyAction::CycleVolatility,
        _ => BotKeyAction::Ignore,
    }
}

/// Tells what a key of the trading bot stands for.
pub fn bot_key_action(key: Key) -> (r: BotKeyAction)
    ensures
        r == bot_meaning(key),
{
    match key {
        Key::Char(c) => {
            if c == 'q' {
                BotKeyAction::Quit
            } else if c == 'd' {
                BotKeyAction::ToggleDryRun
            } else if c == '+' || c == '=' {
                BotKeyAction::RaiseThreshold
            } else if c == '-' {
                BotKeyAction::LowerThreshold
            } else if c == 'm' {
                BotKeyAction::CycleVolatility
            } else {
                BotKeyAction::Ignore
            }
        },
        _ => BotKeyAction::Ignore,
    }
}

/// What the program around the state has to do after a key.
#[derive(Debug)]
pub enum Command {
    Nothing,
    Quit,
    /// Scan the wallet now.
    Refresh,
    /// Sell this position by hand.
    Sell(Trigger),
    /// Store the triggers of the position at this index.
    Save { index: usize },
    /// Remove the stored triggers of the position at this index.
    Forget { index: usize },
}

/// What there is to tell after a key.
#[derive(Debug)]
pub enum Notice {
    Nothing,
    ModeSwitched,
    TriggersCleared,
    ForceSelling,
    NoBid,
    NotSellable,
    /// A trigger was set, at this many cents.
    TriggerSet { cents: Dec, is_stop_loss: bool },
    PriceOutOfRange,
    InvalidPrice,
}

/// The state with the keyboard used for something else and nothing typed.
pub open spec fn mode_entered(before: AppState, after: AppState, mode: InputMode) -> bool {
    &&& after.input_mode == mode
    &&& after.input_buffer@ == Seq::<char>::empty()
    &&& after == (AppState {
        input_mode: after.input_mode,
        input_buffer: after.input_buffer,
        ..before
    })
}

/// Whether a typed text is a price between 0 and 100 cents.
pub open spec fn typed_price(text: Seq<char>) -> Option<Dec> {
    match Dec::spec_parse(text) {
        Some(cents) => match cents.spec_over(Dec::of(100, 0)) {
            Some(price) => if 0 < price@ < unit() {
                Some(price)
            } else {
                None
            },
            None => None,
        },
        None => None,
    }
}

/// Whether a typed text that is a number of cents is taken for what it is: it is
/// a price exactly where it lies between 0 and 100, and the price is a hundredth
/// of it.
pub open spec fn read_as_cents(text: Seq<char>) -> bool {
    match Dec::spec_parse(text) {
        Some(c) => c.spec_scale() <= MAX_SCALE - 2 ==> {
            &&& typed_price(text) is Some <==> 0 < c@ < 100 * unit()
            &&& typed_price(text) matches Some(price) ==> price@ * 100 == c@
        },
        None => true,
    }
}

/// The position with a new trigger of the kind that is edited.
pub open spec fn with_trigger(p: TrackedPosition, is_stop_loss: bool, price: Dec) -> TrackedPosition {
    if is_stop_loss {
        TrackedPosition { sl_price: Some(price), ..p }
    } else {
        TrackedPosition { tp_price: Some(price), ..p }
    }
}

/// Whether a position can be sold by hand.
pub open spec fn sellable(p: TrackedPosition) -> bool {
    p.status is Active && p.shares@ > 0
}

/// The selection moved up or down by one, and round at the ends.
pub open spec fn selection_moved(s: AppState, down: bool) -> AppState {
    if s.positions@.len() == 0 {
        s
    } else {
        let to = if down {
            AppState::index_below(s.selected_index as int, s.positions@.len() as int)
        } else {
            AppState::index_above(s.selected_index as int, s.positions@.len() as int)
        };
        AppState { selected_index: to as usize, highlighted: Some(to as usize), ..s }
    }
}

/// Whether the triggers of the selected position were taken away.
pub open spec fn triggers_cleared(before: AppState, after: AppState, told: (Command, Notice)) -> bool {
    &&& after.positions@ == with_position(
        before.positions@,
        before.selected_index as int,
        without_triggers(before.positions@[before.selected_index as int]),
    )
    &&& after.active_triggers == live_triggers(after.positions@)
    &&& after == (AppState {
        positions: after.positions,
        active_triggers: after.active_triggers,
        ..before
    })
    &&& told == (if before.selected_index < before.positions@.len() {
        (Command::Forget { index: before.selected_index }, Notice::TriggersCleared)
    } else {
        (Command::Nothing, Notice::Nothing)
    })
}

/// What is told on asking to sell the selected position by hand.
pub open spec fn force_sell_told(s: AppState) -> (Command, Notice) {
    if s.selected_index < s.positions@.len() {
        let p = s.positions@[s.selected_index as int];
        if sellable(p) {
            match p.current_bid {
                Some(bid) => (
                    Command::Sell(
                        Trigger {
                            index: s.selected_index,
                            token_id: p.token_id,
                            market_title: p.market_title,
                            outcome: p.outcome,
                            shares: p.shares,
                            entry_price: p.entry_price,
                            bid_price: bid,
                            kind: TriggerKind::Manual,
                        },
                    ),
                    Notice::ForceSelling,
                ),
                None => (Command::Nothing, Notice::NoBid),
            }
        } else {
            (Command::Nothing, Notice::NotSellable)
        }
    } else {
        (Command::Nothing, Notice::Nothing)
    }
}

/// Whether the typed price was set as the trigger that is edited, where it can
/// be, and typing has stopped.
pub open spec fn edit_confirmed(before: AppState, after: AppState, told: (Command, Notice)) -> bool {
    let text = before.input_buffer@;
    let index = before.selected_index;
    let positions = before.positions@;
    let is_stop_loss = before.input_mode == InputMode::EditingSL;
    &&& match typed_price(text) {
        Some(price) => {
            &&& after.positions@ == with_position(
                positions,
                index as int,
                with_trigger(positions[index as int], is_stop_loss, price),
            )
            &&& after.active_triggers == live_triggers(after.positions@)
            &&& told == (if index < positions.len() {
                (
                    Command::Save { index },
                    Notice::TriggerSet { cents: Dec::spec_parse(text)->0, is_stop_loss },
                )
            } else {
                (Command::Nothing, Notice::Nothing)
            })
        },
        None => {
            &&& after.positions@ == positions
            &&& after.active_triggers == before.active_triggers
            &&& told == (
                Command::Nothing,
                if Dec::spec_parse(text) is Some {
                    Notice::PriceOutOfRange
                } else if text.len() > 0 {
                    Notice::InvalidPrice
                } else {
                    Notice::Nothing
                },
            )
        },
    }
    &&& after.input_mode == InputMode::Normal
    &&& after.input_buffer@ == Seq::<char>::empty()
    &&& after == (AppState {
        positions: after.positions,
        active_triggers: after.active_triggers,
        input_mode: after.input_mode,
        input_buffer: after.input_buffer,
        ..before
    })
}

/// Whether the typed price is now `text`, and nothing else has changed.
pub open spec fn typed_text_is(before: AppState, after: AppState, text: Seq<char>) -> bool {
    &&& after.input_buffer@ == text
    &&& after == (AppState { input_buffer: after.input_buffer, ..before })
}

/// Whether a key that stands for `action` was followed.
pub open spec fn followed(
    before: AppState,
    after: AppState,
    told: (Command, Notice),
    action: KeyAction,
) -> bool {
    let quiet = told == (Command::Nothing, Notice::Nothing);
    match action {
        KeyAction::Quit => after == before && told == (Command::Quit, Notice::Nothing),
        KeyAction::Refresh => after == before && told == (Command::Refresh, Notice::Nothing),
        KeyAction::SelectNext => after == selection_moved(before, true) && quiet,
        KeyAction::SelectPrevious => after == selection_moved(before, false) && quiet,
        KeyAction::Edit(mode) => quiet && (if before.selected_index < before.positions@.len() {
            mode_entered(before, after, mode)
        } else {
            after == before
        }),
        KeyAction::ClearTriggers => triggers_cleared(before, after, told),
        KeyAction::ToggleDryRun => after == (AppState { dry_run: !before.dry_run, ..before })
            && told == (Command::Nothing, Notice::ModeSwitched),
        KeyAction::ForceSell => after == before && told == force_sell_told(before),
        KeyAction::Cancel => mode_entered(before, after, InputMode::Normal) && quiet,
        KeyAction::Confirm => edit_confirmed(before, after, told),
        KeyAction::Erase => quiet && typed_text_is(
            before,
            after,
            if before.input_buffer@.len() > 0 {
                before.input_buffer@.drop_last()
            } else {
                before.input_buffer@
            },
        ),
        KeyAction::Type(c) => quiet && typed_text_is(before, after, before.input_buffer@.push(c)),
        KeyAction::Ignore => after == before && quiet,
    }
}

/// The text of a character that may stand in a price.
fn typed_text(c: char) -> (r: &'static str)
    requires
        typable(c),
    ensures
        r@ == seq![c],
{
    proof {
        reveal_strlit("0");
        reveal_strlit("1");
        reveal_strlit("2");
        reveal_strlit("3");
        reveal_strlit("4");
        reveal_strlit("5");
        reveal_strlit("6");
        reveal_strlit("7");
        reveal_strlit("8");
        reveal_strlit("9");
        reveal_strlit(".");
    }
    let text: &'static str = if c == '0' {
        "0"
    } else if c == '1' {
        "1"
    } else if c == '2' {
        "2"
    } else if c == '3' {
        "3"
    } else if c == '4' {
        "4"
    } else if c == '5' {
        "5"
    } else if c == '6' {
        "6"
    } else if c == '7' {
        "7"
    } else if c == '8' {
        "8"
    } else if c == '9' {
        "9"
    } else {
        "."
    };
    assert(text@ =~= seq![c]);
    text
}

impl AppState {
    /// Begins to type a trigger price, where a position is selected.
    pub fn begin_edit(&mut self, mode: InputMode)
        ensures
            if old(self).selected_index < old(self).positions@.len() {
                mode_entered(*old(self), *final(self), mode)
            } else {
                *final(self) == *old(self)
            },
    {
        if self.selected_index < self.positions.len() {
            self.input_mode = mode;
            self.input_buffer = String::new();
        }
    }

    /// Stops typing without setting anything.
    pub fn cancel_edit(&mut self)
        ensures
            mode_entered(*old(self), *final(self), InputMode::Normal),
    {
        self.input_mode = InputMode::Normal;
        self.input_buffer = String::new();
    }

    /// Adds a character to the typed price.
    pub fn type_char(&mut self, c: char)
        requires
            typable(c),
        ensures
            final(self).input_buffer@ == old(self).input_buffer@.push(c),
            *final(self) == (AppState { input_buffer: final(self).input_buffer, ..*old(self) }),
    {
        self.input_buffer.append(typed_text(c));
        assert(self.input_buffer@ =~= old(self).input_buffer@.push(c));
    }

    /// Takes the last character of the typed price away, if there is one.
    pub fn erase_char(&mut self)
        ensures
            final(self).input_buffer@ == (if old(self).input_buffer@.len() > 0 {
                old(self).input_buffer@.drop_last()
            } else {
                old(self).input_buffer@
            }),
            *final(self) == (AppState { input_buffer: final(self).input_buffer, ..*old(self) }),
    {
        let typed: usize = self.input_buffer.as_str().unicode_len();
        if typed > 0 {
            let kept = self.input_buffer.as_str().substring_char(0, typed - 1).to_owned();
            assert(kept@ =~= self.input_buffer@.drop_last());
            self.input_buffer = kept;
        }
    }

    /// Switches between pretended and real orders.
    pub fn toggle_dry_run(&mut self)
        ensures
            *final(self) == (AppState { dry_run: !old(self).dry_run, ..*old(self) }),
    {
        self.dry_run = !self.dry_run;
    }

    /// Takes the triggers of the selected position away.
    pub fn clear_selected_triggers(&mut self) -> (r: (Command, Notice))
        ensures
            triggers_cleared(*old(self), *final(self), r),
    {
        let index = self.selected_index;
        let mut told = (Command::Nothing, Notice::Nothing);
        if index < self.positions.len() {
            self.positions[index].sl_price = None;
            self.positions[index].tp_price = None;
            told = (Command::Forget { index }, Notice::TriggersCleared);
            assert(self.positions@ =~= with_position(
                old(self).positions@,
                index as int,
                without_triggers(old(self).positions@[index as int]),
            ));
        }
        self.active_triggers = self.count_active_triggers();
        told
    }

    /// Asks to sell the selected position by hand at its bid.
    pub fn request_force_sell(&self) -> (r: (Command, Notice))
        ensures
            r == force_sell_told(*self),
    {
        let index = self.selected_index;
        if index >= self.positions.len() {
            return (Command::Nothing, Notice::Nothing);
        }
        let p = &self.positions[index];
        if !p.status.is_active() || !p.shares.is_positive() {
            return (Command::Nothing, Notice::NotSellable);
        }
        match p.current_bid {
            Some(bid) => (
                Command::Sell(
                    Trigger {
                        index,
                        token_id: p.token_id.clone(),
                        market_title: p.market_title.clone(),
                        outcome: p.outcome.clone(),
                        shares: p.shares,
                        entry_price: p.entry_price,
                        bid_price: bid,
                        kind: TriggerKind::Manual,
                    },
                ),
                Notice::ForceSelling,
            ),
            None => (Command::Nothing, Notice::NoBid),
        }
    }

    /// Sets the typed price as the trigger that is edited, where it is between 0
    /// and 100 cents, and stops typing in any case.
    pub fn confirm_edit(&mut self) -> (r: (Command, Notice))
        ensures
            edit_confirmed(*old(self), *final(self), r),
            read_as_cents(old(self).input_buffer@),
            final(self).positions@.len() == old(self).positions@.len(),
            forall|i: int|
                0 <= i < old(self).positions@.len() && i != old(self).selected_index
                    ==> #[trigger] final(self).positions@[i] == old(self).positions@[i],
            old(self).selected_index < old(self).positions@.len() ==> {
                let before = old(self).positions@[old(self).selected_index as int];
                let after = final(self).positions@[old(self).selected_index as int];
                &&& old(self).input_mode == InputMode::EditingSL ==> after == (TrackedPosition {
                    sl_price: after.sl_price,
                    ..before
                })
                &&& old(self).input_mode != InputMode::EditingSL ==> after == (TrackedPosition {
                    tp_price: after.tp_price,
                    ..before
                })
            },
            final(self).selected_index == old(self).selected_index,
            final(self).dry_run == old(self).dry_run,
    {
        proof {
            reveal_with_fuel(pow10, 3);
            assert(pow10(2) == 100);
        }
        let is_stop_loss = self.input_mode == InputMode::EditingSL;
        let index = self.selected_index;
        let parsed = Dec::parse(self.input_buffer.as_str());
        let mut told = (Command::Nothing, Notice::Nothing);
        match parsed {
            Some(cents) => {
                let price = match cents.over(Dec::new(100, 0)) {
                    Some(price) => if price.is_positive() && price.lt(Dec::new(1, 0)) {
                        Some(price)
                    } else {
                        None
                    },
                    None => None,
                };
                match price {
                    Some(price) => {
                        if index < self.positions.len() {
                            if is_stop_loss {
                                self.positions[index].sl_price = Some(price);
                            } else {
                                self.positions[index].tp_price = Some(price);
                            }
                            told = (
                                Command::Save { index },
                                Notice::TriggerSet { cents, is_stop_loss },
                            );
                            assert(self.positions@ =~= with_position(
                                old(self).positions@,
                                index as int,
                                with_trigger(
                                    old(self).positions@[index as int],
                                    is_stop_loss,
                                    price,
                                ),
                            ));
                        }
                        self.active_triggers = self.count_active_triggers();
                    },
                    None => {
                        told = (Command::Nothing, Notice::PriceOutOfRange);
                    },
                }
            },
            None => {
                if !self.input_buffer.as_str().is_empty() {
                    told = (Command::Nothing, Notice::InvalidPrice);
                }
            },
        }
        self.input_mode = InputMode::Normal;
        self.input_buffer = String::new();
        told
    }

    /// Follows a key: what it stands for depends on what the keyboard is used
    /// for.
    pub fn press(&mut self, key: Key) -> (r: (Command, Notice))
        ensures
            followed(*old(self), *final(self), r, meaning(old(self).input_mode, key)),
            old(self).selection_in_bounds() ==> final(self).selection_in_bounds(),
    {
        match key_action(self.input_mode, key) {
            KeyAction::Quit => (Command::Quit, Notice::Nothing),
            KeyAction::Refresh => (Command::Refresh, Notice::Nothing),
            KeyAction::SelectNext => {
                self.move_selection_down();
                (Command::Nothing, Notice::Nothing)
            },
            KeyAction::SelectPrevious => {
                self.move_selection_up();
                (Command::Nothing, Notice::Nothing)
            },
            KeyAction::Edit(mode) => {
                self.begin_edit(mode);
                (Command::Nothing, Notice::Nothing)
            },
            KeyAction::ClearTriggers => self.clear_selected_triggers(),
            KeyAction::ToggleDryRun => {
                self.toggle_dry_run();
                (Command::Nothing, Notice::ModeSwitched)
            },
            KeyAction::ForceSell => self.request_force_sell(),
            KeyAction::Cancel => {
                self.cancel_edit();
                (Command::Nothing, Notice::Nothing)
            },
            KeyAction::Confirm => self.confirm_edit(),
            KeyAction::Erase => {
                self.erase_char();
                (Command::Nothing, Notice::Nothing)
            },
            KeyAction::Type(c) => {
                self.type_char(c);
                (Command::Nothing, Notice::Nothing)
            },
            KeyAction::Ignore => (Command::Nothing, Notice::Nothing),
        }
    }
}

/// Every trigger that can be typed lies strictly between 0 and 1.
pub proof fn law_typed_triggers_are_probabilities(text: Seq<char>)
    ensures
        typed_price(text) matches Some(price) ==> 0 < price@ < unit(),
{
}

/// Clearing triggers undoes setting one on a position that had none.
pub proof fn law_clear_undoes_set(p: TrackedPosition, is_stop_loss: bool, price: Dec)
    requires
        p.sl_price is None,
        p.tp_price is None,
    ensures
        without_triggers(with_trigger(p, is_stop_loss, price)) == p,
{
}

/// While a price is typed no key can quit, sell or switch the dry run.
pub proof fn law_typing_only_edits(mode: InputMode, key: Key)
    requires
        mode != InputMode::Normal,
    ensures
        meaning(mode, key) is Cancel || meaning(mode, key) is Confirm || meaning(mode, key) is Erase
            || meaning(mode, key) is Type || meaning(mode, key) is Ignore,
{
}

/// What each key does while nothing is typed: every action has its keys, and no
/// other key has one.
pub proof fn law_keys_of_the_manager(key: Key)
    ensures
        meaning(InputMode::Normal, key) is Quit <==> key == Key::Char('q'),
        meaning(InputMode::Normal, key) is SelectNext <==> key == Key::Char('j') || key
            == Key::Down,
        meaning(InputMode::Normal, key) is SelectPrevious <==> key == Key::Char('k') || key
            == Key::Up,
        meaning(InputMode::Normal, key) == KeyAction::Edit(InputMode::EditingSL) <==> key
            == Key::Char('s'),
        meaning(InputMode::Normal, key) == KeyAction::Edit(InputMode::EditingTP) <==> key
            == Key::Char('t'),
        meaning(InputMode::Normal, key) is Edit ==> key == Key::Char('s') || key == Key::Char('t'),
        meaning(InputMode::Normal, key) is ClearTriggers <==> key == Key::Char('x'),
        meaning(InputMode::Normal, key) is ToggleDryRun <==> key == Key::Char('d'),
        meaning(InputMode::Normal, key) is Refresh <==> key == Key::Char('r'),
        meaning(InputMode::Normal, key) is ForceSell <==> key == Key::Char('f'),
        !(meaning(InputMode::Normal, key) is Cancel),
        !(meaning(InputMode::Normal, key) is Confirm),
        !(meaning(InputMode::Normal, key) is Erase),
        !(meaning(InputMode::Normal, key) is Type),
{
}

/// What each key does while a price is typed: digits and the point are taken,
/// three keys end or correct the typing, and every other key does nothing.
pub proof fn law_keys_while_typing(mode: InputMode, key: Key)
    requires
        mode == InputMode::EditingSL || mode == InputMode::EditingTP,
    ensures
        meaning(mode, key) is Cancel <==> key is Esc,
        meaning(mode, key) is Confirm <==> key is Enter,
        meaning(mode, key) is Erase <==> key is Backspace,
        forall|c: char|
            key == Key::Char(c) && ('0' <= c <= '9' || c == '.') ==> #[trigger] meaning(
                mode,
                Key::Char(c),
            ) == KeyAction::Type(c),
        forall|c: char|
            key == Key::Char(c) && !('0' <= c <= '9' || c == '.') ==> #[trigger] meaning(
                mode,
                Key::Char(c),
            ) == KeyAction::Ignore,
        key is Up || key is Down || key is Other ==> meaning(mode, key) == KeyAction::Ignore,
{
}

/// What each key of the trading bot does.
pub proof fn law_keys_of_the_bot(key: Key)
    ensures
        bot_meaning(key) is Quit <==> key == Key::Char('q'),
        bot_meaning(key) is ToggleDryRun <==> key == Key::Char('d'),
        bot_meaning(key) is RaiseThreshold <==> key == Key::Char('+') || key == Key::Char('='),
        bot_meaning(key) is LowerThreshold <==> key == Key::Char('-'),
        bot_meaning(key) is CycleVolatility <==> key == Key::Char('m'),
{
}

/// Confirming a price of more than 0 and less than 100 cents sets the trigger that
/// is edited, of the selected position, to a hundredth of what was typed; the
/// other trigger and everything else of the position stay, other positions stay,
/// and the triggers are to be stored.
pub proof fn law_confirming_sets_only_the_edited_trigger(
    before: AppState,
    after: AppState,
    told: (Command, Notice),
    cents: Dec,
    price: Dec,
)
    requires
        edit_confirmed(before, after, told),
        before.selected_index < before.positions@.len(),
        Dec::spec_parse(before.input_buffer@) == Some(cents),
        cents.spec_over(Dec::of(100, 0)) == Some(price),
        0 < price@ < 10000000000000000000000000000,
    ensures
        ({
            let i = before.selected_index as int;
            let p = before.positions@[i];
            let q = after.positions@[i];
            &&& after.positions@.len() == before.positions@.len()
            &&& before.input_mode == InputMode::EditingSL ==> q.sl_price == Some(price)
                && q.tp_price == p.tp_price
            &&& before.input_mode == InputMode::EditingTP ==> q.tp_price == Some(price)
                && q.sl_price == p.sl_price
            &&& q == (TrackedPosition { sl_price: q.sl_price, tp_price: q.tp_price, ..p })
            &&& forall|j: int|
                0 <= j < before.positions@.len() && j != i ==> #[trigger] after.positions@[j]
                    == before.positions@[j]
            &&& told.0 == (Command::Save { index: before.selected_index })
            &&& told.1 == (Notice::TriggerSet {
                cents,
                is_stop_loss: before.input_mode == InputMode::EditingSL,
            })
        }),
{
}

/// A typed text that is no number, or no price of more than 0 and less than 100
/// cents, changes no position and stores nothing, and what is wrong is told.
pub proof fn law_unusable_price_sets_nothing(
    before: AppState,
    after: AppState,
    told: (Command, Notice),
)
    requires
        edit_confirmed(before, after, told),
        match Dec::spec_parse(before.input_buffer@) {
            Some(cents) => match cents.spec_over(Dec::of(100, 0)) {
                Some(price) => price@ <= 0 || price@ >= 10000000000000000000000000000,
                None => true,
            },
            None => true,
        },
    ensures
        after.positions@ == before.positions@,
        after.active_triggers == before.active_triggers,
        told.0 is Nothing,
        Dec::spec_parse(before.input_buffer@) is Some ==> told.1 is PriceOutOfRange,
        Dec::spec_parse(before.input_buffer@) is None && before.input_buffer@.len() > 0 ==> told.1
            is InvalidPrice,
        Dec::spec_parse(before.input_buffer@) is None && before.input_buffer@.len() == 0 ==> told.1
            is Nothing,
{
}

/// Confirming ends the typing whatever was typed, and changes nothing but the
/// positions, the number of live triggers and the typing itself.
pub proof fn law_confirming_ends_the_typing(
    before: AppState,
    after: AppState,
    told: (Command, Notice),
)
    requires
        edit_confirmed(before, after, told),
    ensures
        after.input_mode == InputMode::Normal,
        after.input_buffer@.len() == 0,
        after.selected_index == before.selected_index,
        after.highlighted == before.highlighted,
        after.dry_run == before.dry_run,
        after.logs == before.logs,
        after.usdc_balance == before.usdc_balance,
        after.funder_address == before.funder_address,
        after.start_ms == before.start_ms,
        after.last_scan_ms == before.last_scan_ms,
        after.ws_connected == before.ws_connected,
        after.ws_msg_count == before.ws_msg_count,
        after.sells_executed == before.sells_executed,
{
}

/// Clearing takes both triggers of the selected position away and has them
/// removed from what is stored; all else of the position, and every other
/// position, stays.
pub proof fn law_clearing_takes_both_triggers_away(
    before: AppState,
    after: AppState,
    told: (Command, Notice),
)
    requires
        triggers_cleared(before, after, told),
    ensures
        after.positions@.len() == before.positions@.len(),
        forall|j: int|
            0 <= j < before.positions@.len() && j != before.selected_index
                ==> #[trigger] after.positions@[j] == before.positions@[j],
        before.selected_index < before.positions@.len() ==> {
            let p = before.positions@[before.selected_index as int];
            let q = after.positions@[before.selected_index as int];
            &&& q.sl_price is None
            &&& q.tp_price is None
            &&& p == (TrackedPosition { sl_price: p.sl_price, tp_price: p.tp_price, ..q })
            &&& told == (Command::Forget { index: before.selected_index }, Notice::TriggersCleared)
        },
        before.selected_index >= before.positions@.len() ==> told == (
            Command::Nothing,
            Notice::Nothing,
        ),
        after.selected_index == before.selected_index,
        after.highlighted == before.highlighted,
        after.input_mode == before.input_mode,
        after.input_buffer == before.input_buffer,
        after.dry_run == before.dry_run,
        after.logs == before.logs,
        after.usdc_balance == before.usdc_balance,
        after.sells_executed == before.sells_executed,
{
}

/// Asking to sell by hand sells the selected position, all of its shares at its
/// bid, exactly where it is watched, has shares and has a bid; otherwise nothing
/// is sold, and the reason is told.
pub proof fn law_force_sell_sells_the_selected_position(s: AppState)
    ensures
        s.selected_index >= s.positions@.len() ==> force_sell_told(s) == (
            Command::Nothing,
            Notice::Nothing,
        ),
        s.selected_index < s.positions@.len() ==> {
            let p = s.positions@[s.selected_index as int];
            &&& !(p.status is Active) || p.shares@ <= 0 ==> force_sell_told(s) == (
                Command::Nothing,
                Notice::NotSellable,
            )
            &&& p.status is Active && p.shares@ > 0 && p.current_bid is None ==> force_sell_told(s)
                == (Command::Nothing, Notice::NoBid)
            &&& p.status is Active && p.shares@ > 0 && p.current_bid is Some ==> force_sell_told(s)
                == (
                Command::Sell(
                    Trigger {
                        index: s.selected_index,
                        token_id: p.token_id,
                        market_title: p.market_title,
                        outcome: p.outcome,
                        shares: p.shares,
                        entry_price: p.entry_price,
                        bid_price: p.current_bid->0,
                        kind: TriggerKind::Manual,
                    },
                ),
                Notice::ForceSelling,
            )
        },
{
}

/// The selection moves by one position, from the last to the first and from the
/// first to the last, what is highlighted goes with it, and nothing else changes;
/// without positions nothing moves.
pub proof fn law_selection_moves_by_one(s: AppState)
    requires
        s.selected_index < s.positions@.len() <= usize::MAX,
    ensures
        ({
            let down = selection_moved(s, true);
            let up = selection_moved(s, false);
            let last = s.positions@.len() - 1;
            &&& s.selected_index < last ==> down.selected_index == s.selected_index + 1
            &&& s.selected_index == last ==> down.selected_index == 0
            &&& s.selected_index > 0 ==> up.selected_index == s.selected_index - 1
            &&& s.selected_index == 0 ==> up.selected_index == last
            &&& down.highlighted == Some(down.selected_index)
            &&& up.highlighted == Some(up.selected_index)
            &&& down == (AppState {
                selected_index: down.selected_index,
                highlighted: down.highlighted,
                ..s
            })
            &&& up == (AppState {
                selected_index: up.selected_index,
                highlighted: up.highlighted,
                ..s
            })
        }),
{
}

/// Without positions the selection does not move.
pub proof fn law_nothing_to_select(s: AppState, down: bool)
    requires
        s.positions@.len() == 0,
    ensures
        selection_moved(s, down) == s,
{
}

/// What follows a key that is pressed while nothing is typed, by what it stands
/// for: quitting and scanning only ask for it, the dry run is switched, and a
/// trigger is typed only where a position is selected.
pub proof fn law_pressing_a_key(
    before: AppState,
    after: AppState,
    told: (Command, Notice),
    action: KeyAction,
)
    requires
        followed(before, after, told, action),
    ensures
        action is Quit ==> after == before && told.0 is Quit,
        action is Refresh ==> after == before && told.0 is Refresh,
        action is ToggleDryRun ==> after == (AppState { dry_run: !before.dry_run, ..before })
            && told.0 is Nothing && told.1 is ModeSwitched,
        action is ForceSell ==> after == before && told == force_sell_told(before),
        action is SelectNext ==> after == selection_moved(before, true) && told.0 is Nothing,
        action is SelectPrevious ==> after == selection_moved(before, false) && told.0 is Nothing,
        action is ClearTriggers ==> triggers_cleared(before, after, told),
        action is Confirm ==> edit_confirmed(before, after, told),
        action is Ignore ==> after == before && told.0 is Nothing && told.1 is Nothing,
        told.0 is Sell ==> action is ForceSell,
        told.0 is Save ==> action is Confirm,
        told.0 is Forget ==> action is ClearTriggers,
        told.0 is Quit ==> action is Quit,
        told.0 is Refresh ==> action is Refresh,
        after.dry_run != before.dry_run ==> action is ToggleDryRun,
        after.positions@ != before.positions@ ==> action is ClearTriggers || action is Confirm,
{
}

/// What follows a key that types: a character is added at the end, the last one is
/// taken away, typing begins empty where a position is selected and is given up
/// without a change; nothing else changes.
pub proof fn law_typing_a_key(
    before: AppState,
    after: AppState,
    told: (Command, Notice),
    action: KeyAction,
)
    requires
        followed(before, after, told, action),
        action is Type || action is Erase || action is Edit || action is Cancel,
    ensures
        told == (Command::Nothing, Notice::Nothing),
        after == (AppState {
            input_mode: after.input_mode,
            input_buffer: after.input_buffer,
            ..before
        }),
        action matches KeyAction::Type(c) ==> after.input_buffer@ == before.input_buffer@ + seq![c]
            && after.input_mode == before.input_mode,
        action is Erase && before.input_buffer@.len() > 0 ==> after.input_buffer@
            == before.input_buffer@.subrange(0, before.input_buffer@.len() - 1),
        action is Erase && before.input_buffer@.len() == 0 ==> after.input_buffer@.len() == 0,
        action is Erase ==> after.input_mode == before.input_mode,
        action is Cancel ==> after.input_mode == InputMode::Normal && after.input_buffer@.len()
            == 0,
        action matches KeyAction::Edit(mode) ==> (if before.selected_index
            < before.positions@.len() {
            after.input_mode == mode && after.input_buffer@.len() == 0
        } else {
            after == before
        }),
{
    if let KeyAction::Type(c) = action {
        assert(before.input_buffer@.push(c) =~= before.input_buffer@ + seq![c]);
    }
    if action is Erase && before.input_buffer@.len() > 0 {
        assert(before.input_buffer@.drop_last() =~= before.input_buffer@.subrange(
            0,
            before.input_buffer@.len() - 1,
        ));
    }
}

/// What a typed text denotes: a hundredth of the number it reads as, where that
/// lies strictly between nothing and one.
pub proof fn law_typed_price_is_a_hundredth(text: Seq<char>)
    ensures
        Dec::spec_parse(text) is None ==> typed_price(text) is None,
        forall|c: Dec|
            Dec::spec_parse(text) == Some(c) && (#[trigger] c.spec_over(Dec::of(100, 0))) is None
                ==> typed_price(text) is None,
        forall|c: Dec, price: Dec|
            Dec::spec_parse(text) == Some(c) && #[trigger] c.spec_over(Dec::of(100, 0)) == Some(
                price,
            ) && 0 < (#[trigger] price@) < 10000000000000000000000000000 ==> typed_price(text)
                == Some(price),
        forall|c: Dec, price: Dec|
            Dec::spec_parse(text) == Some(c) && #[trigger] c.spec_over(Dec::of(100, 0)) == Some(
                price,
            ) && !(0 < (#[trigger] price@) < 10000000000000000000000000000) ==> typed_price(text)
                is None,
{
}

} // verus!
