//! Buying: orders signed in advance, sizes, fills and retries.

use crate::decimal::{pow10, unit, Dec, MAX_MANTISSA};
use crate::json::{is_json, json_text, json_valid, text_at};
use crate::settings::text_of;
use crate::text::characters;
use vstd::prelude::*;

verus! {

/// Milliseconds after which orders are signed anew.
pub const PRE_SIGN_INTERVAL_MS: u64 = 15_000;

/// Milliseconds between two attempts.
pub const ORDER_RETRY_DELAY_MS: u64 = 100;

/// How often an entry is retried.
pub const ENTRY_RETRIES: u32 = 1;

/// How often an exit is retried.
pub const EXIT_RETRIES: u32 = 3;

// ---------------------------------------------------------------------------
// Orders signed in advance
// ---------------------------------------------------------------------------

/// One signed order to buy per token, all of the same size, ready to be sent.
#[derive(Debug)]
pub struct PreSignedOrders<T> {
    pub up_token: String,
    pub down_token: String,
    pub up_buy: Option<T>,
    pub down_buy: Option<T>,
    pub size: Dec,
    /// When they were signed, in milliseconds.
    pub signed_ms: u64,
}

impl<T> PreSignedOrders<T> {
    /// The order of a token.
    pub open spec fn order_of(self, is_up: bool) -> Option<T> {
        if is_up {
            self.up_buy
        } else {
            self.down_buy
        }
    }

    /// None yet.
    pub fn new(now_ms: u64) -> (r: PreSignedOrders<T>)
        ensures
            r.up_token@ == Seq::<char>::empty(),
            r.down_token@ == Seq::<char>::empty(),
            r.up_buy is None,
            r.down_buy is None,
            r.size == Dec::of(75, 1),
            r.signed_ms == now_ms,
    {
        proof {
            reveal_strlit("");
        }
        let up_token = "".to_owned();
        let down_token = "".to_owned();
        assert(up_token@ =~= Seq::<char>::empty());
        PreSignedOrders {
            up_token,
            down_token,
            up_buy: None,
            down_buy: None,
            size: Dec::new(75, 1),
            signed_ms: now_ms,
        }
    }

    /// Takes in new orders of both tokens.
    pub fn store(
        &mut self,
        up_token: String,
        down_token: String,
        up_buy: T,
        down_buy: T,
        size: Dec,
        now_ms: u64,
    )
        ensures
            *final(self) == (PreSignedOrders {
                up_token,
                down_token,
                up_buy: Some(up_buy),
                down_buy: Some(down_buy),
                size,
                signed_ms: now_ms,
            }),
    {
        self.up_token = up_token;
        self.down_token = down_token;
        self.up_buy = Some(up_buy);
        self.down_buy = Some(down_buy);
        self.size = size;
        self.signed_ms = now_ms;
    }

    /// Whether there is an order of a token.
    pub fn has_pre_signed(&self, is_up: bool) -> (r: bool)
        ensures
            r == (self.order_of(is_up) is Some),
    {
        if is_up {
            self.up_buy.is_some()
        } else {
            self.down_buy.is_some()
        }
    }

    /// Whether there is an order of a token with just the given size.
    pub fn has_pre_signed_with_size(&self, is_up: bool, required_size: Dec) -> (r: bool)
        ensures
            r == (self.order_of(is_up) is Some && self.size@ == required_size@),
    {
        self.has_pre_signed(is_up) && self.size.same(required_size)
    }

    /// Takes the order of a token out; it can be sent only once.
    pub fn take(&mut self, is_up: bool) -> (r: Option<T>)
        ensures
            r == old(self).order_of(is_up),
            final(self).order_of(is_up) is None,
            final(self).order_of(!is_up) == old(self).order_of(!is_up),
            final(self).up_token == old(self).up_token,
            final(self).down_token == old(self).down_token,
            final(self).size == old(self).size,
            final(self).signed_ms == old(self).signed_ms,
    {
        if is_up {
            self.up_buy.take()
        } else {
            self.down_buy.take()
        }
    }
}

/// Whether orders are signed anew: only live, and once the last ones are old.
pub fn refresh_due(dry_run: bool, signed_ms: u64, now_ms: u64) -> (r: bool)
    ensures
        r == (!dry_run && now_ms > signed_ms + PRE_SIGN_INTERVAL_MS),
        r == (!dry_run && now_ms > signed_ms + 15_000),
{
    !dry_run && now_ms > signed_ms && now_ms - signed_ms > PRE_SIGN_INTERVAL_MS
}

// ---------------------------------------------------------------------------
// Sizes and fills
// ---------------------------------------------------------------------------

/// The price at which everything is bought: high enough to fill at the best
/// price there is.
pub fn buy_limit() -> (r: Dec)
    ensures
        r == Dec::of(99, 2),
        r@ == crate::decimal::cents(99),
{
    Dec::new(99, 2)
}

/// The size of an order to buy: no smaller than the whole number of shares that
/// costs at least 1.05 at the buying price.
pub open spec fn buy_size(size: Dec) -> Option<Dec> {
    match Dec::of(105, 2).spec_over(Dec::of(99, 2)) {
        Some(shares) => {
            let least = Dec::of(-((-shares.spec_mantissa()) / pow10(shares.spec_scale())), 0);
            if size@ > least@ {
                Some(size)
            } else {
                Some(least)
            }
        },
        None => None,
    }
}

/// Computes the size of an order to buy.
pub fn order_size(size: Dec) -> (r: Option<Dec>)
    ensures
        r == buy_size(size),
        r matches Some(s) ==> s@ >= size@,
{
    match Dec::new(105, 2).over(buy_limit()) {
        Some(shares) => {
            let least = shares.ceil();
            if least.lt(size) {
                Some(size)
            } else {
                Some(least)
            }
        },
        None => None,
    }
}

/// What the exchange answers to an order to buy.
#[derive(Clone, Copy, Debug)]
pub struct BuyReply {
    pub success: bool,
    pub making_amount: Dec,
    pub taking_amount: Dec,
}

/// What came of an order to buy.
#[derive(Clone, Copy, Debug)]
pub enum Fill {
    /// Bought at this price.
    Filled(Dec),
    /// Not bought.
    NotFilled,
    /// Bought at a price that cannot be computed.
    Unpriceable,
}

/// What the first answer to an order means: one that was accepted fills, at what
/// was paid per share where it filled at once, and otherwise at the expected
/// price, or at 50 cents where none is expected.
pub open spec fn buy_meaning(reply: Option<BuyReply>, expected: Option<Dec>) -> Fill {
    match reply {
        Some(r) => if !r.success {
            Fill::NotFilled
        } else if r.taking_amount@ > 0 {
            match r.making_amount.spec_over(r.taking_amount) {
                Some(price) => Fill::Filled(price),
                None => Fill::Unpriceable,
            }
        } else {
            match expected {
                Some(price) => Fill::Filled(price),
                None => Fill::Filled(Dec::of(50, 2)),
            }
        },
        None => Fill::NotFilled,
    }
}

/// Reads the first answer to an order.
pub fn buy_outcome(reply: Option<BuyReply>, expected: Option<Dec>) -> (r: Fill)
    ensures
        r == buy_meaning(reply, expected),
{
    match reply {
        Some(r) => if !r.success {
            Fill::NotFilled
        } else if r.taking_amount.is_positive() {
            match r.making_amount.over(r.taking_amount) {
                Some(price) => Fill::Filled(price),
                None => Fill::Unpriceable,
            }
        } else {
            match expected {
                Some(price) => Fill::Filled(price),
                None => Fill::Filled(Dec::new(50, 2)),
            }
        },
        None => Fill::NotFilled,
    }
}

// ---------------------------------------------------------------------------
// Dry run and retries
// ---------------------------------------------------------------------------

/// What is done about an order.
#[derive(Clone, Copy, Debug)]
pub enum OrderPlan {
    /// Nothing is sent; it counts as filled at this price, where there is one.
    Pretend(Option<Dec>),
    /// It is sent, and sent again at most this often.
    Send(u32),
}

/// What is done about an order: in a dry run it is only pretended.
pub open spec fn plan_of(dry_run: bool, must_fill: bool, expected: Option<Dec>) -> OrderPlan {
    if dry_run {
        OrderPlan::Pretend(expected)
    } else if must_fill {
        OrderPlan::Send(EXIT_RETRIES)
    } else {
        OrderPlan::Send(ENTRY_RETRIES)
    }
}

/// Decides what is done about an order.
pub fn plan_order(dry_run: bool, must_fill: bool, expected: Option<Dec>) -> (r: OrderPlan)
    ensures
        r == plan_of(dry_run, must_fill, expected),
{
    if dry_run {
        OrderPlan::Pretend(expected)
    } else if must_fill {
        OrderPlan::Send(EXIT_RETRIES)
    } else {
        OrderPlan::Send(ENTRY_RETRIES)
    }
}

/// What came of one attempt.
#[derive(Clone, Copy, Debug)]
pub enum Attempt {
    Filled(Dec),
    NotFilled,
    Failed,
}

/// What follows an attempt.
#[derive(Clone, Copy, Debug)]
pub enum AfterAttempt {
    /// The order is filled at this price.
    Done(Dec),
    /// Wait for this many milliseconds and try again.
    Retry(u64),
    /// The order stays unfilled.
    GiveUp,
    /// The order failed.
    Fail,
}

/// What follows the attempt with the given number, counted from zero.
pub open spec fn step_after(attempt: u32, max_retries: u32, result: Attempt) -> AfterAttempt {
    match result {
        Attempt::Filled(price) => AfterAttempt::Done(price),
        Attempt::NotFilled => if attempt < max_retries {
            AfterAttempt::Retry(ORDER_RETRY_DELAY_MS)
        } else {
            AfterAttempt::GiveUp
        },
        Attempt::Failed => if attempt < max_retries {
            AfterAttempt::Retry(ORDER_RETRY_DELAY_MS)
        } else {
            AfterAttempt::Fail
        },
    }
}

/// Decides what follows an attempt.
pub fn after_attempt(attempt: u32, max_retries: u32, result: Attempt) -> (r: AfterAttempt)
    ensures
        r == step_after(attempt, max_retries, result),
{
    match result {
        Attempt::Filled(price) => AfterAttempt::Done(price),
        Attempt::NotFilled => if attempt < max_retries {
            AfterAttempt::Retry(ORDER_RETRY_DELAY_MS)
        } else {
            AfterAttempt::GiveUp
        },
        Attempt::Failed => if attempt < max_retries {
            AfterAttempt::Retry(ORDER_RETRY_DELAY_MS)
        } else {
            AfterAttempt::Fail
        },
    }
}

/// How many attempts are made, starting with the one of the given number, if
/// they end as `results` tells: one more as long as the last is to be retried.
pub open spec fn attempts_made(attempt: u32, max_retries: u32, results: spec_fn(u32) -> Attempt) -> nat
    decreases max_retries - attempt,
{
    if step_after(attempt, max_retries, results(attempt)) is Retry {
        1 + attempts_made((attempt + 1) as u32, max_retries, results)
    } else {
        1
    }
}

/// What the attempts come to, starting with the one of the given number, if they
/// end as `results` tells: what follows the first that is not to be retried.
pub open spec fn attempts_end(attempt: u32, max_retries: u32, results: spec_fn(u32) -> Attempt) -> AfterAttempt
    decreases max_retries - attempt,
{
    let step = step_after(attempt, max_retries, results(attempt));
    if step is Retry {
        attempts_end((attempt + 1) as u32, max_retries, results)
    } else {
        step
    }
}

// ---------------------------------------------------------------------------
// The balance of the wallet
// ---------------------------------------------------------------------------

/// A text without all `0x` at its front.
pub open spec fn without_hex_prefix(s: Seq<char>) -> Seq<char>
    decreases s.len(),
{
    if s.len() >= 2 && s[0] == '0' && s[1] == 'x' {
        without_hex_prefix(s.skip(2))
    } else {
        s
    }
}

/// Takes all `0x` at the front of a text away.
fn strip_hex_prefix(text: &str) -> (r: &str)
    ensures
        r@ == without_hex_prefix(text@),
{
    let chars = characters(text);
    let total: usize = chars.len();
    let mut i: usize = 0;
    proof {
        assert(text@.skip(0) =~= text@);
    }
    while total - i >= 2 && chars[i] == '0' && chars[i + 1] == 'x'
        invariant
            i <= total,
            total == text@.len(),
            chars@ == text@,
            without_hex_prefix(text@) == without_hex_prefix(text@.skip(i as int)),
        decreases total - i,
    {
        proof {
            assert(text@.skip(i as int).skip(2) =~= text@.skip(i + 2));
        }
        i += 2;
    }
    proof {
        assert(text@.subrange(i as int, total as int) =~= text@.skip(i as int));
    }
    text.substring_char(i, total)
}

/// The value of a hexadecimal digit.
pub open spec fn hex_digit(c: char) -> Option<int> {
    if '0' <= c <= '9' {
        Some(c as int - '0' as int)
    } else if 'a' <= c <= 'f' {
        Some(c as int - 'a' as int + 10)
    } else if 'A' <= c <= 'F' {
        Some(c as int - 'A' as int + 10)
    } else {
        None
    }
}

/// The number that hexadecimal digits denote, where they all are some.
pub open spec fn hex_value(s: Seq<char>) -> Option<int>
    decreases s.len(),
{
    if s.len() == 0 {
        Some(0)
    } else {
        match (hex_value(s.drop_last()), hex_digit(s.last())) {
            (Some(n), Some(d)) => Some(n * 16 + d),
            _ => None,
        }
    }
}

/// The number that a hexadecimal text denotes: at least one digit, with or
/// without a `+` before them.
pub open spec fn hex_number(s: Seq<char>) -> Option<int> {
    let digits = if s.len() > 0 && s[0] == '+' {
        s.skip(1)
    } else {
        s
    };
    if digits.len() > 0 {
        hex_value(digits)
    } else {
        None
    }
}

/// Hexadecimal digits denote no negative number, and fewer of them no larger
/// one.
proof fn lemma_hex_grows(s: Seq<char>, i: int)
    requires
        0 <= i <= s.len(),
    ensures
        hex_value(s) is Some ==> hex_value(s.take(i)) is Some && 0 <= hex_value(s.take(i))->0
            <= hex_value(s)->0,
    decreases s.len(),
{
    if i == s.len() {
        assert(s.take(i) =~= s);
        if s.len() > 0 {
            lemma_hex_grows(s.drop_last(), s.len() - 1);
            assert(s.drop_last().take(s.len() - 1) =~= s.drop_last());
        }
    } else {
        lemma_hex_grows(s.drop_last(), i);
        assert(s.drop_last().take(i) =~= s.take(i));
    }
}

/// Reads a hexadecimal number, as far as it fits.
fn read_hex(text: &str) -> (r: Option<u128>)
    ensures
        match r {
            Some(n) => hex_number(text@) == Some(n as int),
            None => hex_number(text@) matches Some(n) ==> n > u128::MAX,
        },
{
    let chars = characters(text);
    let total: usize = chars.len();
    let start: usize = if total > 0 && chars[0] == '+' {
        1
    } else {
        0
    };
    if start >= total {
        return None;
    }
    let ghost digits = text@.skip(start as int);
    proof {
        assert(text@.skip(0) =~= text@);
    }
    let mut value: u128 = 0;
    let mut i: usize = start;
    proof {
        assert(digits.take(0) =~= Seq::empty());
    }
    while i < total
        invariant
            start <= i <= total,
            total == text@.len(),
            chars@ == text@,
            digits == text@.skip(start as int),
            digits.len() > 0,
            hex_number(text@) == hex_value(digits),
            hex_value(digits.take(i - start)) == Some(value as int),
        decreases total - i,
    {
        let c = chars[i];
        let d: u32 = if '0' <= c && c <= '9' {
            c as u32 - '0' as u32
        } else if 'a' <= c && c <= 'f' {
            c as u32 - 'a' as u32 + 10
        } else if 'A' <= c && c <= 'F' {
            c as u32 - 'A' as u32 + 10
        } else {
            99
        };
        proof {
            let k = i - start;
            assert(digits.take(k + 1).drop_last() =~= digits.take(k));
            assert(digits.take(k + 1).last() == c);
            lemma_hex_grows(digits, k + 1);
        }
        if d == 99 {
            return None;
        }
        match value.checked_mul(16) {
            Some(shifted) => match shifted.checked_add(d as u128) {
                Some(next) => {
                    value = next;
                },
                None => {
                    return None;
                },
            },
            None => {
                return None;
            },
        }
        i += 1;
    }
    proof {
        assert(digits.take(total - start) =~= digits);
    }
    Some(value)
}

/// The balance that an answer in hexadecimal millionths denotes: zero where it
/// is no number of 128 bits, and nothing where a number is too large to be held.
pub open spec fn balance_in(result: Seq<char>) -> Option<Dec> {
    match hex_number(without_hex_prefix(result)) {
        Some(n) => if n > u128::MAX {
            Some(Dec::of(0, 0))
        } else if n > MAX_MANTISSA {
            None
        } else {
            Dec::of(n, 0).spec_over(Dec::of(1000000, 0))
        },
        None => Some(Dec::of(0, 0)),
    }
}

/// Reads the balance of the wallet from the answer of the chain.
pub fn wallet_balance(result: &str) -> (r: Option<Dec>)
    ensures
        r == balance_in(result@),
        match hex_number(without_hex_prefix(result@)) {
            Some(n) => n <= MAX_MANTISSA ==> r is Some && r->0@ * 1000000 == n * unit(),
            None => r == Some(Dec::of(0, 0)),
        },
{
    proof {
        reveal_with_fuel(pow10, 29);
        assert(pow10(6) == 1000000);
        assert(pow10(28) == unit());
    }
    let digits = strip_hex_prefix(result);
    match read_hex(digits) {
        Some(n) => {
            if n > MAX_MANTISSA as u128 {
                return None;
            }
            match Dec::from_parts(n as i128, 0) {
                Some(d) => d.over(Dec::new(1000000, 0)),
                None => None,
            }
        },
        None => Some(Dec::zero()),
    }
}

/// What an answer of the chain tells about a balance.
#[derive(Clone, Copy, Debug)]
pub enum BalanceReply {
    /// The answer is no JSON.
    Unreadable,
    /// The balance cannot be held.
    TooLarge,
    /// The answer has no result, or one that is no number of 128 bits.
    Unknown,
    /// The balance.
    Balance(Dec),
}

/// What an answer with a result, or without one, tells about a balance.
pub open spec fn balance_told(result: Option<Seq<char>>) -> BalanceReply {
    match result {
        Some(text) => match hex_number(without_hex_prefix(text)) {
            Some(n) => if n > u128::MAX {
                BalanceReply::Unknown
            } else {
                match balance_in(text) {
                    Some(d) => BalanceReply::Balance(d),
                    None => BalanceReply::TooLarge,
                }
            },
            None => BalanceReply::Unknown,
        },
        None => BalanceReply::Unknown,
    }
}

/// Judges the result in an answer of the chain.
pub fn judge_balance(result: &Option<String>) -> (r: BalanceReply)
    ensures
        r == balance_told(text_of(*result)),
{
    match result {
        Some(text) => {
            if read_hex(strip_hex_prefix(text.as_str())).is_none() {
                return BalanceReply::Unknown;
            }
            match wallet_balance(text.as_str()) {
                Some(d) => BalanceReply::Balance(d),
                None => BalanceReply::TooLarge,
            }
        },
        None => BalanceReply::Unknown,
    }
}

/// Reads the answer of the chain to a question for a balance.
pub fn read_balance_message(body: &str) -> (r: BalanceReply)
    ensures
        r == (if json_valid(body@) {
            balance_told(json_text(body@, "/result"@))
        } else {
            BalanceReply::Unreadable
        }),
{
    if !is_json(body) {
        return BalanceReply::Unreadable;
    }
    judge_balance(&text_at(body, "/result"))
}

/// The call that asks the chain for the balance of an address.
pub fn balance_call(funder: &str) -> (r: Option<String>)
    ensures
        r is Some <==> funder@.len() > 0,
        r matches Some(call) ==> call@ == "0x70a08231000000000000000000000000"@
            + without_hex_prefix(funder@),
{
    if funder.unicode_len() == 0 {
        return None;
    }
    let call = "0x70a08231000000000000000000000000".to_owned();
    Some(call.concat(strip_hex_prefix(funder)))
}

// ---------------------------------------------------------------------------
// Laws
// ---------------------------------------------------------------------------

/// In a dry run nothing is ever sent.
pub proof fn law_dry_run_sends_nothing(must_fill: bool, expected: Option<Dec>)
    ensures
        plan_of(true, must_fill, expected) == OrderPlan::Pretend(expected),
{
}

/// An order is attempted at least once, and at most once more than it may be
/// retried.
pub proof fn law_attempts_are_bounded(attempt: u32, max_retries: u32, results: spec_fn(u32) -> Attempt)
    requires
        attempt <= max_retries,
    ensures
        1 <= attempts_made(attempt, max_retries, results) <= max_retries - attempt + 1,
    decreases max_retries - attempt,
{
    if attempt < max_retries && !(results(attempt) is Filled) {
        law_attempts_are_bounded((attempt + 1) as u32, max_retries, results);
    }
}

/// Without a fill all attempts are made, one more than the retries, and the last
/// of them decides between giving up and failing.
pub proof fn law_unfilled_order_uses_all_attempts(
    attempt: u32,
    max_retries: u32,
    results: spec_fn(u32) -> Attempt,
)
    requires
        attempt <= max_retries,
        forall|k: u32| attempt <= k <= max_retries ==> !(#[trigger] results(k) is Filled),
    ensures
        attempts_made(attempt, max_retries, results) == max_retries - attempt + 1,
        attempts_end(attempt, max_retries, results) == (if results(max_retries) is NotFilled {
            AfterAttempt::GiveUp
        } else {
            AfterAttempt::Fail
        }),
    decreases max_retries - attempt,
{
    assert(!(results(attempt) is Filled));
    if attempt < max_retries {
        law_unfilled_order_uses_all_attempts((attempt + 1) as u32, max_retries, results);
    }
}

/// The first fill ends the attempts, and its price is that of the order.
pub proof fn law_first_fill_ends_the_attempts(
    attempt: u32,
    max_retries: u32,
    results: spec_fn(u32) -> Attempt,
    filled: u32,
)
    requires
        attempt <= filled <= max_retries,
        results(filled) is Filled,
        forall|k: u32| attempt <= k < filled ==> !(#[trigger] results(k) is Filled),
    ensures
        attempts_made(attempt, max_retries, results) == filled - attempt + 1,
        attempts_end(attempt, max_retries, results) == AfterAttempt::Done(results(filled)->0),
    decreases filled - attempt,
{
    if attempt < filled {
        assert(!(results(attempt) is Filled));
        law_first_fill_ends_the_attempts((attempt + 1) as u32, max_retries, results, filled);
    }
}

/// No attempt follows one that filled, nor the last one allowed.
pub proof fn law_retry_needs_an_open_attempt(attempt: u32, max_retries: u32, result: Attempt)
    ensures
        step_after(attempt, max_retries, result) is Retry <==> !(result is Filled) && attempt
            < max_retries,
{
}

/// The order of a token is the one that was signed for it.
pub proof fn law_orders_are_kept_by_token<T>(orders: PreSignedOrders<T>)
    ensures
        orders.order_of(true) == orders.up_buy,
        orders.order_of(false) == orders.down_buy,
{
}

/// What an answer to an order to buy means: without an answer or success nothing
/// is bought; a positive amount taken is a purchase at what was paid per share
/// taken; otherwise an accepted order fills at the expected price, or at 50 cents
/// where none is expected.
pub proof fn law_buy_answers_mean_what_they_say(reply: BuyReply, expected: Dec)
    ensures
        buy_meaning(None, Some(expected)) is NotFilled,
        buy_meaning(None, None) is NotFilled,
        !reply.success ==> buy_meaning(Some(reply), Some(expected)) is NotFilled && buy_meaning(
            Some(reply),
            None,
        ) is NotFilled,
        reply.success && reply.taking_amount@ > 0 ==> (match reply.making_amount.spec_over(
            reply.taking_amount,
        ) {
            Some(price) => buy_meaning(Some(reply), Some(expected)) == Fill::Filled(price)
                && buy_meaning(Some(reply), None) == Fill::Filled(price),
            None => buy_meaning(Some(reply), Some(expected)) is Unpriceable && buy_meaning(
                Some(reply),
                None,
            ) is Unpriceable,
        }),
        reply.success && reply.taking_amount@ <= 0 ==> buy_meaning(Some(reply), Some(expected))
            == Fill::Filled(expected) && buy_meaning(Some(reply), None) == Fill::Filled(
            Dec::of(50, 2),
        ),
{
}

/// An order to buy is of the asked size, or of the whole number of shares that
/// 1.05 pays for at 99 cents, rounded up, whichever is more.
pub proof fn law_orders_are_large_enough(size: Dec, shares: Dec)
    requires
        Dec::of(105, 2).spec_over(Dec::of(99, 2)) == Some(shares),
    ensures
        ({
            let least = Dec::of(-((-shares.spec_mantissa()) / pow10(shares.spec_scale())), 0);
            &&& buy_size(size) is Some
            &&& buy_size(size)->0 == size || buy_size(size)->0 == least
            &&& buy_size(size)->0@ >= size@
            &&& buy_size(size)->0@ >= least@
        }),
{
}

/// A live order is sent; one that has to fill is retried three times, any other
/// once.
pub proof fn law_live_orders_are_sent(must_fill: bool, expected: Option<Dec>)
    ensures
        must_fill ==> plan_of(false, must_fill, expected) == OrderPlan::Send(3),
        !must_fill ==> plan_of(false, must_fill, expected) == OrderPlan::Send(1),
{
}

/// What follows an attempt: a fill is the end, at its price; anything else is
/// tried again after a tenth of a second as long as retries are left, and then
/// given up where it did not fill and failed where it failed.
pub proof fn law_what_follows_an_attempt(attempt: u32, max_retries: u32, price: Dec)
    ensures
        step_after(attempt, max_retries, Attempt::Filled(price)) == AfterAttempt::Done(price),
        attempt < max_retries ==> step_after(attempt, max_retries, Attempt::NotFilled)
            == AfterAttempt::Retry(100) && step_after(attempt, max_retries, Attempt::Failed)
            == AfterAttempt::Retry(100),
        attempt >= max_retries ==> step_after(attempt, max_retries, Attempt::NotFilled)
            == AfterAttempt::GiveUp && step_after(attempt, max_retries, Attempt::Failed)
            == AfterAttempt::Fail,
{
}

/// Every `0x` at the front of a text is taken away, and nothing else.
pub proof fn law_hex_prefixes_are_taken_away(s: Seq<char>)
    ensures
        s.len() < 2 || s[0] != '0' || s[1] != 'x' ==> without_hex_prefix(s) == s,
        without_hex_prefix(seq!['0', 'x'] + s) == without_hex_prefix(s),
{
    assert((seq!['0', 'x'] + s).skip(2) =~= s);
}

/// Hexadecimal digits are read from the left, each worth sixteen times the next;
/// capital and small letters mean the same, and a text with any other character
/// is no number.
pub proof fn law_hex_digits_have_their_places(s: Seq<char>, c: char)
    ensures
        hex_value(Seq::<char>::empty()) == Some(0int),
        '0' <= c <= '9' ==> hex_digit(c) == Some(c as int - 48),
        'a' <= c <= 'f' ==> hex_digit(c) == Some(c as int - 87),
        'A' <= c <= 'F' ==> hex_digit(c) == Some(c as int - 55),
        !('0' <= c <= '9' || 'a' <= c <= 'f' || 'A' <= c <= 'F') ==> hex_digit(c) is None
            && hex_value(s.push(c)) is None,
        hex_value(s) is None ==> hex_value(s.push(c)) is None,
        hex_value(s) is Some && hex_digit(c) is Some ==> hex_value(s.push(c)) == Some(
            16 * hex_value(s)->0 + hex_digit(c)->0,
        ),
        hex_number(Seq::<char>::empty()) is None,
        hex_number(seq!['+']) is None,
        s.len() > 0 && s[0] != '+' ==> hex_number(s) == hex_value(s),
        s.len() > 0 ==> hex_number(seq!['+'] + s) == hex_value(s),
{
    assert(s.push(c).drop_last() =~= s);
    assert((seq!['+'] + s).skip(1) =~= s);
    assert(seq!['+'].skip(1) =~= Seq::<char>::empty());
}

/// What an answer tells about a balance: nothing where it has no result or none
/// that is a number of 128 bits; otherwise the number, in millionths, where it
/// can be held.
pub proof fn law_balance_is_told_in_millionths(text: Seq<char>)
    ensures
        balance_told(None) is Unknown,
        hex_number(without_hex_prefix(text)) is None ==> balance_told(Some(text)) is Unknown,
        hex_number(without_hex_prefix(text)) matches Some(n) ==> {
            &&& n > u128::MAX ==> balance_told(Some(text)) is Unknown
            &&& MAX_MANTISSA < n <= u128::MAX ==> balance_told(Some(text)) is TooLarge
            &&& n <= MAX_MANTISSA ==> (match Dec::of(n, 0).spec_over(Dec::of(1000000, 0)) {
                Some(d) => balance_told(Some(text)) == BalanceReply::Balance(d),
                None => balance_told(Some(text)) is TooLarge,
            })
        },
{
}

} // verus!
