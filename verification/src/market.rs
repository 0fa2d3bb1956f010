//! The markets that the trading bot takes part in.
//!
//! A new market opens at every full interval; it is found by its slug, which is
//! made from the time the interval begins.

use crate::decimal::div_toward_zero;
use crate::json::{json_texts, texts_in};
use crate::text::{contains, contains_text, push_signed, signed_digits};
use vstd::prelude::*;

verus! {

/// Length of a market's interval in seconds.
pub const MARKET_WINDOW_SECS: i64 = 300;

/// A market with its two tokens.
#[derive(Debug)]
pub struct BtcMarket {
    pub slug: String,
    pub up_token_id: String,
    pub down_token_id: String,
    pub interval_start: i64,
}

impl BtcMarket {
    /// A second value of the same market.
    pub fn duplicate(&self) -> (r: BtcMarket)
        ensures
            r == *self,
    {
        BtcMarket {
            slug: self.slug.clone(),
            up_token_id: self.up_token_id.clone(),
            down_token_id: self.down_token_id.clone(),
            interval_start: self.interval_start,
        }
    }
}

/// The start of the interval that a time lies in.
pub open spec fn interval_of(now: int) -> int {
    div_toward_zero(now, MARKET_WINDOW_SECS as int) * MARKET_WINDOW_SECS
}

/// Computes the start of the interval that a time lies in.
pub fn interval_start(now: i64) -> (r: i64)
    ensures
        r == interval_of(now as int),
{
    let units: i64 = now / MARKET_WINDOW_SECS;
    units * MARKET_WINDOW_SECS
}

/// The slug of the market whose interval begins at `start`.
pub open spec fn slug_text(start: int) -> Seq<char> {
    "btc-updown-5m-"@ + signed_digits(start)
}

/// Makes the slug of the market that is open at `now`, and the start of its
/// interval.
pub fn generate_market_slug(now: i64) -> (r: (String, i64))
    ensures
        r.1 == interval_of(now as int),
        r.0@ == slug_text(interval_of(now as int)),
{
    let start = interval_start(now);
    let mut slug = "btc-updown-5m-".to_owned();
    push_signed(&mut slug, start);
    (slug, start)
}

/// The text of `String::to_lowercase`.
pub uninterp spec fn lowercase_text(text: Seq<char>) -> Seq<char>;

/// `str::to_lowercase`: the named lower-case form of a text.
#[verifier::external_body]
fn lowercase(text: &str) -> (r: String)
    ensures
        r@ == lowercase_text(text@),
{
    text.to_lowercase()
}

/// Which of the two outcomes a name stands for, by its lower-case form.
pub open spec fn names_up(lower: Seq<char>) -> bool {
    contains_text(lower, "up"@)
}

/// Whether a name that does not stand for up stands for down.
pub open spec fn names_down(lower: Seq<char>) -> bool {
    !names_up(lower) && contains_text(lower, "down"@)
}

/// The token at an index; none where there are fewer tokens.
pub open spec fn token_at(token_ids: Seq<Seq<char>>, i: int) -> Seq<char> {
    if 0 <= i < token_ids.len() {
        token_ids[i]
    } else {
        Seq::empty()
    }
}

/// The token of the last outcome whose lower-case name satisfies `wanted`; empty
/// where there is none.
pub open spec fn token_of_last(
    lower_names: Seq<Seq<char>>,
    token_ids: Seq<Seq<char>>,
    wanted: spec_fn(Seq<char>) -> bool,
) -> Seq<char>
    decreases lower_names.len(),
{
    if lower_names.len() == 0 {
        Seq::empty()
    } else if wanted(lower_names.last()) {
        token_at(token_ids, lower_names.len() - 1)
    } else {
        token_of_last(lower_names.drop_last(), token_ids, wanted)
    }
}

/// The two tokens of a market, up first; nothing where there are fewer than two
/// outcomes or tokens, or where one of the two has no token.
pub open spec fn market_tokens(lower_names: Seq<Seq<char>>, token_ids: Seq<Seq<char>>) -> Option<
    (Seq<char>, Seq<char>),
> {
    let up = token_of_last(lower_names, token_ids, |t: Seq<char>| names_up(t));
    let down = token_of_last(lower_names, token_ids, |t: Seq<char>| names_down(t));
    if lower_names.len() >= 2 && token_ids.len() >= 2 && up.len() > 0 && down.len() > 0 {
        Some((up, down))
    } else {
        None
    }
}

/// The texts of some strings.
pub open spec fn texts(strings: Seq<String>) -> Seq<Seq<char>> {
    strings.map_values(|s: String| s@)
}

/// Picks the two tokens of a market by the lower-case names of its outcomes.
pub fn pick_tokens(lower_names: &Vec<String>, token_ids: &Vec<String>) -> (r: Option<
    (String, String),
>)
    ensures
        match r {
            Some((up, down)) => market_tokens(texts(lower_names@), texts(token_ids@)) == Some((up@, down@)),
            None => market_tokens(texts(lower_names@), texts(token_ids@)) is None,
        },
{
    let ghost names = texts(lower_names@);
    let ghost wants_up = |t: Seq<char>| names_up(t);
    let ghost wants_down = |t: Seq<char>| names_down(t);
    if lower_names.len() < 2 || token_ids.len() < 2 {
        return None;
    }
    let mut up = String::new();
    let mut down = String::new();
    let mut i: usize = 0;
    proof {
        assert(names.take(0) =~= Seq::empty());
    }
    while i < lower_names.len()
        invariant
            i <= lower_names@.len(),
            names == texts(lower_names@),
            wants_up == (|t: Seq<char>| names_up(t)),
            wants_down == (|t: Seq<char>| names_down(t)),
            up@ == token_of_last(names.take(i as int), texts(token_ids@), wants_up),
            down@ == token_of_last(names.take(i as int), texts(token_ids@), wants_down),
        decreases lower_names@.len() - i,
    {
        let name = lower_names[i].as_str();
        proof {
            assert(names.take(i + 1).drop_last() =~= names.take(i as int));
            assert(names.take(i + 1).last() == name@);
        }
        let is_up = contains(name, "up");
        if is_up || contains(name, "down") {
            let token = if i < token_ids.len() {
                token_ids[i].clone()
            } else {
                String::new()
            };
            if is_up {
                up = token;
            } else {
                down = token;
            }
        }
        i += 1;
    }
    proof {
        assert(names.take(i as int) =~= names);
    }
    if up.as_str().is_empty() || down.as_str().is_empty() {
        None
    } else {
        Some((up, down))
    }
}

/// The lower-case forms of some texts.
pub open spec fn lowercase_all(strings: Seq<String>) -> Seq<Seq<char>> {
    strings.map_values(|s: String| lowercase_text(s@))
}

/// Picks the two tokens of a market by the names of its outcomes, in whatever
/// case they are written.
pub fn discover_tokens(outcomes: &Vec<String>, token_ids: &Vec<String>) -> (r: Option<
    (String, String),
>)
    ensures
        match r {
            Some((up, down)) => market_tokens(lowercase_all(outcomes@), texts(token_ids@)) == Some(
                (up@, down@),
            ),
            None => market_tokens(lowercase_all(outcomes@), texts(token_ids@)) is None,
        },
{
    let mut lower: Vec<String> = Vec::new();
    let mut i: usize = 0;
    while i < outcomes.len()
        invariant
            i <= outcomes@.len(),
            lower@.len() == i,
            forall|j: int|
                0 <= j < i ==> (#[trigger] lower@[j])@ == lowercase_text(outcomes@[j]@),
        decreases outcomes@.len() - i,
    {
        lower.push(lowercase(outcomes[i].as_str()));
        i += 1;
    }
    assert(texts(lower@) =~= lowercase_all(outcomes@));
    pick_tokens(&lower, token_ids)
}

/// The strings of a text that is to be a list of strings; none where it is not.
pub open spec fn listed_texts(text: Seq<char>) -> Seq<Seq<char>> {
    match json_texts(text) {
        Some(list) => list,
        None => Seq::empty(),
    }
}

/// Reads the strings of a text that is to be a list of strings.
fn read_list(text: &str) -> (r: Vec<String>)
    ensures
        texts(r@) == listed_texts(text@),
{
    match texts_in(text) {
        Some(list) => list,
        None => {
            let none: Vec<String> = Vec::new();
            assert(texts(none@) =~= Seq::empty());
            none
        },
    }
}

/// Picks the two tokens of a market by its outcomes and tokens, each a list of
/// strings in JSON.
pub fn discover_tokens_in(outcomes: &str, token_ids: &str) -> (r: Option<(String, String)>)
    ensures
        ({
            let names = listed_texts(outcomes@).map_values(|t: Seq<char>| lowercase_text(t));
            match r {
                Some((up, down)) => market_tokens(names, listed_texts(token_ids@)) == Some(
                    (up@, down@),
                ),
                None => market_tokens(names, listed_texts(token_ids@)) is None,
            }
        }),
{
    let all = read_list(outcomes);
    let ids = read_list(token_ids);
    proof {
        assert(lowercase_all(all@) =~= texts(all@).map_values(
            |t: Seq<char>| lowercase_text(t),
        ));
    }
    discover_tokens(&all, &ids)
}

/// Seconds until a market's interval ends.
pub open spec fn seconds_to_close(interval_start: int, now: int) -> int {
    interval_start + MARKET_WINDOW_SECS - now
}

/// Computes the seconds until a market's interval ends; negative afterwards.
pub fn seconds_until_close(start: i64, now: i64) -> (r: i64)
    requires
        start + MARKET_WINDOW_SECS <= i64::MAX,
        i64::MIN <= seconds_to_close(start as int, now as int) <= i64::MAX,
    ensures
        r == seconds_to_close(start as int, now as int),
{
    (start + MARKET_WINDOW_SECS) - now
}

/// Computes the seconds left in a market; zero once its interval has ended.
pub fn time_left_in_market(market: &Option<BtcMarket>, now: i64) -> (r: Option<i64>)
    requires
        market matches Some(m) ==> m.interval_start + MARKET_WINDOW_SECS <= i64::MAX && i64::MIN
            <= seconds_to_close(m.interval_start as int, now as int) <= i64::MAX,
    ensures
        r == (match *market {
            Some(m) => Some(
                if seconds_to_close(m.interval_start as int, now as int) > 0 {
                    seconds_to_close(m.interval_start as int, now as int) as i64
                } else {
                    0i64
                },
            ),
            None => None,
        }),
{
    match market {
        Some(m) => {
            let left: i64 = seconds_until_close(m.interval_start, now);
            Some(
                if left > 0 {
                    left
                } else {
                    0
                },
            )
        },
        None => None,
    }
}

/// An interval begins at a multiple of its length, not after the time it was
/// made from, and that time lies in it.
pub proof fn law_interval_contains_now(now: int)
    requires
        now >= 0,
    ensures
        interval_of(now) % (MARKET_WINDOW_SECS as int) == 0,
        interval_of(now) <= now < interval_of(now) + MARKET_WINDOW_SECS,
{
}

/// Two times lie in the same interval exactly where they give the same slug.
pub proof fn law_slug_identifies_interval(a: int, b: int)
    requires
        a >= 0,
        b >= 0,
        slug_text(interval_of(a)) == slug_text(interval_of(b)),
    ensures
        interval_of(a) == interval_of(b),
{
    let head = "btc-updown-5m-"@;
    let x = signed_digits(interval_of(a));
    let y = signed_digits(interval_of(b));
    assert((head + x).skip(head.len() as int) =~= x);
    assert((head + y).skip(head.len() as int) =~= y);
    crate::text::law_digits_are_unique(interval_of(a) as nat, interval_of(b) as nat);
}

/// The interval of a time begins at the last full five minutes, its slug is made
/// from that, and it closes five minutes after it began.
pub proof fn law_markets_last_five_minutes(now: int)
    requires
        now >= 0,
    ensures
        interval_of(now) % 300 == 0,
        interval_of(now) <= now < interval_of(now) + 300,
        seconds_to_close(interval_of(now), now) == interval_of(now) + 300 - now,
        0 < seconds_to_close(interval_of(now), now) <= 300,
        slug_text(interval_of(now)) == "btc-updown-5m-"@ + signed_digits(interval_of(now)),
{
}

/// The seconds to the close of a market are those from now to five minutes after
/// its start.
pub proof fn law_close_is_five_minutes_after_start(interval_start: int, now: int)
    ensures
        seconds_to_close(interval_start, now) == interval_start + 300 - now,
{
}

/// A name stands for up where it has "up" in it, and for down where it has "down"
/// in it and not "up".
pub proof fn law_outcomes_are_told_by_name(lower: Seq<char>)
    ensures
        names_up(lower) <==> contains_text(lower, "up"@),
        names_down(lower) <==> contains_text(lower, "down"@) && !contains_text(lower, "up"@),
{
}

/// The token of an outcome stands at the place of the last outcome with the
/// wanted name; where no name is wanted, or there is no token at that place, it
/// is empty.
pub proof fn law_token_stands_at_the_place_of_its_name(
    lower_names: Seq<Seq<char>>,
    token_ids: Seq<Seq<char>>,
    wanted: spec_fn(Seq<char>) -> bool,
)
    ensures
        forall|i: int|
            0 <= i < lower_names.len() && wanted(#[trigger] lower_names[i]) && (forall|j: int|
                i < j < lower_names.len() ==> !wanted(#[trigger] lower_names[j]))
                ==> token_of_last(lower_names, token_ids, wanted) == (if i < token_ids.len() {
                token_ids[i]
            } else {
                Seq::empty()
            }),
        (forall|i: int| 0 <= i < lower_names.len() ==> !wanted(#[trigger] lower_names[i]))
            ==> token_of_last(lower_names, token_ids, wanted) == Seq::<char>::empty(),
    decreases lower_names.len(),
{
    if lower_names.len() > 0 {
        let before = lower_names.drop_last();
        let n = lower_names.len() - 1;
        law_token_stands_at_the_place_of_its_name(before, token_ids, wanted);
        assert(lower_names.last() == lower_names[n]);
        assert forall|j: int| 0 <= j < n implies #[trigger] before[j] == lower_names[j] by {}
        if !wanted(lower_names.last()) {
            assert forall|i: int|
                0 <= i < lower_names.len() && wanted(#[trigger] lower_names[i]) && (forall|j: int|
                    i < j < lower_names.len() ==> !wanted(#[trigger] lower_names[j])) implies
                token_of_last(lower_names, token_ids, wanted) == (if i < token_ids.len() {
                token_ids[i]
            } else {
                Seq::empty()
            }) by {
                assert(before[i] == lower_names[i]);
            }
            if forall|i: int| 0 <= i < lower_names.len() ==> !wanted(#[trigger] lower_names[i]) {
                assert forall|i: int| 0 <= i < before.len() implies !wanted(
                    #[trigger] before[i],
                ) by {
                    assert(before[i] == lower_names[i]);
                }
            }
        }
    }
}

/// A market with two outcomes, one for up and one for down, has the tokens that
/// stand at their places, up first, in whichever order the outcomes come.
pub proof fn law_market_has_the_tokens_of_its_outcomes(
    lower_names: Seq<Seq<char>>,
    token_ids: Seq<Seq<char>>,
    u: int,
    d: int,
)
    requires
        lower_names.len() == 2,
        token_ids.len() == 2,
        (u == 0 && d == 1) || (u == 1 && d == 0),
        contains_text(lower_names[u], "up"@),
        contains_text(lower_names[d], "down"@),
        !contains_text(lower_names[d], "up"@),
        token_ids[0].len() > 0,
        token_ids[1].len() > 0,
    ensures
        market_tokens(lower_names, token_ids) == Some((token_ids[u], token_ids[d])),
{
    let wants_up = |t: Seq<char>| names_up(t);
    let wants_down = |t: Seq<char>| names_down(t);
    law_token_stands_at_the_place_of_its_name(lower_names, token_ids, wants_up);
    law_token_stands_at_the_place_of_its_name(lower_names, token_ids, wants_down);
    assert(wants_up(lower_names[u]));
    assert(!wants_up(lower_names[d]));
    assert(wants_down(lower_names[d]));
    assert(!wants_down(lower_names[u]));
    assert(token_of_last(lower_names, token_ids, wants_up) == token_ids[u]);
    assert(token_of_last(lower_names, token_ids, wants_down) == token_ids[d]);
}

/// A market without two outcomes, without two tokens, or of which no outcome
/// stands for up or none for down has no tokens.
pub proof fn law_market_needs_both_outcomes(
    lower_names: Seq<Seq<char>>,
    token_ids: Seq<Seq<char>>,
)
    requires
        ({
            ||| lower_names.len() < 2
            ||| token_ids.len() < 2
            ||| forall|i: int|
                0 <= i < lower_names.len() ==> !contains_text(#[trigger] lower_names[i], "up"@)
            ||| forall|i: int|
                0 <= i < lower_names.len() ==> !contains_text(#[trigger] lower_names[i], "down"@)
        }),
    ensures
        market_tokens(lower_names, token_ids) is None,
{
    let wants_up = |t: Seq<char>| names_up(t);
    let wants_down = |t: Seq<char>| names_down(t);
    law_token_stands_at_the_place_of_its_name(lower_names, token_ids, wants_up);
    law_token_stands_at_the_place_of_its_name(lower_names, token_ids, wants_down);
    if forall|i: int| 0 <= i < lower_names.len() ==> !contains_text(
        #[trigger] lower_names[i],
        "up"@,
    ) {
        assert forall|i: int| 0 <= i < lower_names.len() implies !wants_up(
            #[trigger] lower_names[i],
        ) by {}
    }
    if forall|i: int| 0 <= i < lower_names.len() ==> !contains_text(
        #[trigger] lower_names[i],
        "down"@,
    ) {
        assert forall|i: int| 0 <= i < lower_names.len() implies !wants_down(
            #[trigger] lower_names[i],
        ) by {}
    }
}

/// A text that is a list of strings gives these strings, and any other none.
pub proof fn law_listed_texts_are_those_of_the_list(text: Seq<char>)
    ensures
        json_texts(text) is None ==> listed_texts(text).len() == 0,
        json_texts(text) matches Some(list) ==> listed_texts(text) == list,
{
}

/// The names of outcomes are compared in lower case, and tokens as they are.
pub proof fn law_outcomes_are_compared_in_lower_case(strings: Seq<String>, i: int)
    requires
        0 <= i < strings.len(),
    ensures
        lowercase_all(strings).len() == strings.len(),
        lowercase_all(strings)[i] == lowercase_text(strings[i]@),
        texts(strings).len() == strings.len(),
        texts(strings)[i] == strings[i]@,
{
}

} // verus!
