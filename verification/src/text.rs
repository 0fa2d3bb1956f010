//! Text the library writes and reads: decimal integers, durations, substrings.

use vstd::prelude::*;

verus! {

/// The character of a decimal digit.
pub open spec fn digit_char(d: nat) -> char {
    (d + 48) as char
}

/// A number written in decimal, without leading zeros.
pub open spec fn decimal_digits(n: nat) -> Seq<char>
    decreases n,
{
    if n < 10 {
        seq![digit_char(n)]
    } else {
        decimal_digits(n / 10).push(digit_char(n % 10))
    }
}

/// A number written in decimal with at least two digits.
pub open spec fn two_digits(n: nat) -> Seq<char> {
    if n < 10 {
        seq!['0'] + decimal_digits(n)
    } else {
        decimal_digits(n)
    }
}

/// Appends one decimal digit.
fn push_digit(out: &mut String, d: u64)
    requires
        d < 10,
    ensures
        final(out)@ == old(out)@.push(digit_char(d as nat)),
{
    proof {
        reveal_strlit("0");
        reveal_strlit("1");
        reveal_strlit("2");
        reveal_strlit("3");
        reveal_strlit("4");
        reveal_strlit("5");
        reveal_strlit("6");
        reveal_strlit("7");
        reveal_strlit("8");
        reveal_strlit("9");
    }
    let digit: &str = if d == 0 {
        "0"
    } else if d == 1 {
        "1"
    } else if d == 2 {
        "2"
    } else if d == 3 {
        "3"
    } else if d == 4 {
        "4"
    } else if d == 5 {
        "5"
    } else if d == 6 {
        "6"
    } else if d == 7 {
        "7"
    } else if d == 8 {
        "8"
    } else {
        "9"
    };
    out.append(digit);
    assert(digit@ =~= seq![digit_char(d as nat)]);
    assert(out@ =~= old(out)@.push(digit_char(d as nat)));
}

/// Appends a number in decimal.
pub fn push_number(out: &mut String, n: u64)
    ensures
        final(out)@ == old(out)@ + decimal_digits(n as nat),
    decreases n,
{
    if n < 10 {
        push_digit(out, n);
        assert(out@ =~= old(out)@ + decimal_digits(n as nat));
    } else {
        push_number(out, n / 10);
        push_digit(out, n % 10);
        assert(out@ =~= old(out)@ + decimal_digits(n as nat));
    }
}

/// Appends a number in decimal, with at least two digits.
pub fn push_two_digits(out: &mut String, n: u64)
    ensures
        final(out)@ == old(out)@ + two_digits(n as nat),
{
    if n < 10 {
        push_digit(out, 0);
    }
    push_number(out, n);
    assert(out@ =~= old(out)@ + two_digits(n as nat));
}

/// A number written in decimal, with a minus sign where it is negative.
pub open spec fn signed_digits(n: int) -> Seq<char> {
    if n < 0 {
        seq!['-'] + decimal_digits((-n) as nat)
    } else {
        decimal_digits(n as nat)
    }
}

/// Appends a number in decimal, with a minus sign where it is negative.
pub fn push_signed(out: &mut String, n: i64)
    ensures
        final(out)@ == old(out)@ + signed_digits(n as int),
{
    proof {
        reveal_strlit("-");
    }
    if n < 0 {
        out.append("-");
        let size: u64 = (-(n as i128)) as u64;
        push_number(out, size);
        assert("-"@ =~= seq!['-']);
    } else {
        push_number(out, n as u64);
    }
    assert(out@ =~= old(out)@ + signed_digits(n as int));
}

/// Whether `part` stands somewhere in `text`.
pub open spec fn contains_text(text: Seq<char>, part: Seq<char>) -> bool {
    exists|i: int|
        0 <= i && i + part.len() <= text.len() && #[trigger] text.subrange(i, i + part.len())
            == part
}

/// The characters of a text, one by one.
pub fn characters(text: &str) -> (r: Vec<char>)
    ensures
        r@ == text@,
{
    let mut out: Vec<char> = Vec::new();
    for c in it: text.chars()
        invariant
            out@ == it.seq().take(it.index()),
            it.seq() == text@,
    {
        out.push(c);
        assert(out@ =~= it.seq().take(it.index() + 1));
    }
    assert(out@ =~= text@);
    out
}

/// Whether `part` stands at index `from` of `text`.
fn stands_at(text: &Vec<char>, part: &Vec<char>, from: usize) -> (r: bool)
    requires
        from + part@.len() <= text@.len(),
    ensures
        r == (text@.subrange(from as int, from + part@.len()) == part@),
{
    let total: usize = text.len();
    let mut k: usize = 0;
    let ghost window = text@.subrange(from as int, from + part@.len());
    while k < part.len()
        invariant
            k <= part@.len(),
            total == text@.len(),
            from + part@.len() <= total,
            window == text@.subrange(from as int, from + part@.len()),
            forall|j: int| 0 <= j < k ==> window[j] == part@[j],
        decreases part@.len() - k,
    {
        if text[from + k] != part[k] {
            assert(window[k as int] != part@[k as int]);
            return false;
        }
        k += 1;
    }
    assert(window =~= part@);
    true
}

/// Looks for `part` in `text`.
pub fn contains(text: &str, part: &str) -> (r: bool)
    ensures
        r == contains_text(text@, part@),
{
    let text_chars = characters(text);
    let part_chars = characters(part);
    let total: usize = text_chars.len();
    let width: usize = part_chars.len();
    if width > total {
        return false;
    }
    let mut i: usize = 0;
    while i <= total - width
        invariant
            width == part_chars@.len(),
            total == text_chars@.len(),
            width <= total,
            i <= total - width + 1,
            text_chars@ == text@,
            part_chars@ == part@,
            forall|j: int| 0 <= j < i ==> #[trigger] text@.subrange(j, j + width) != part@,
        decreases total - width + 1 - i,
    {
        if stands_at(&text_chars, &part_chars, i) {
            assert(text@.subrange(i as int, i + part@.len()) == part@);
            return true;
        }
        if i == total - width {
            return false;
        }
        i += 1;
    }
    false
}

/// A length of time as hours, minutes and seconds of at least two digits each.
pub open spec fn duration_text(secs: nat) -> Seq<char> {
    two_digits(secs / 3600) + seq![':'] + two_digits((secs % 3600) / 60) + seq![':'] + two_digits(
        secs % 60,
    )
}

/// Writes a length of time as `HH:MM:SS`.
pub fn format_duration(secs: u64) -> (r: String)
    ensures
        r@ == duration_text(secs as nat),
{
    proof {
        reveal_strlit(":");
    }
    let mut out = String::new();
    push_two_digits(&mut out, secs / 3600);
    out.append(":");
    push_two_digits(&mut out, (secs % 3600) / 60);
    out.append(":");
    push_two_digits(&mut out, secs % 60);
    assert(":"@ =~= seq![':']);
    assert(out@ =~= duration_text(secs as nat));
    out
}

/// A length of time with the units `h`, `m` and `s`, beginning with the largest
/// unit that is not zero.
pub open spec fn uptime_text(secs: nat) -> Seq<char> {
    let h = secs / 3600;
    let m = (secs % 3600) / 60;
    let s = secs % 60;
    if h > 0 {
        decimal_digits(h) + seq!['h'] + decimal_digits(m) + seq!['m'] + decimal_digits(s)
            + seq!['s']
    } else if m > 0 {
        decimal_digits(m) + seq!['m'] + decimal_digits(s) + seq!['s']
    } else {
        decimal_digits(s) + seq!['s']
    }
}

/// Writes a length of time such as `1h2m3s`.
pub fn format_uptime(secs: u64) -> (r: String)
    ensures
        r@ == uptime_text(secs as nat),
{
    proof {
        reveal_strlit("h");
        reveal_strlit("m");
        reveal_strlit("s");
    }
    let h: u64 = secs / 3600;
    let m: u64 = (secs % 3600) / 60;
    let s: u64 = secs % 60;
    let mut out = String::new();
    if h > 0 {
        push_number(&mut out, h);
        out.append("h");
    }
    if h > 0 || m > 0 {
        push_number(&mut out, m);
        out.append("m");
    }
    push_number(&mut out, s);
    out.append("s");
    assert("h"@ =~= seq!['h']);
    assert("m"@ =~= seq!['m']);
    assert("s"@ =~= seq!['s']);
    assert(out@ =~= uptime_text(secs as nat));
    out
}

/// A number has at least one digit.
proof fn lemma_digits_not_empty(n: nat)
    ensures
        decimal_digits(n).len() >= 1,
    decreases n,
{
    if n >= 10 {
        lemma_digits_not_empty(n / 10);
    }
}

/// Different numbers are written differently.
pub proof fn law_digits_are_unique(m: nat, n: nat)
    requires
        decimal_digits(m) == decimal_digits(n),
    ensures
        m == n,
    decreases m,
{
    if m < 10 && n >= 10 {
        lemma_digits_not_empty(n / 10);
        assert(decimal_digits(n).len() >= 2);
    } else if n < 10 && m >= 10 {
        lemma_digits_not_empty(m / 10);
        assert(decimal_digits(m).len() >= 2);
    } else if m < 10 && n < 10 {
        assert(decimal_digits(m)[0] == digit_char(m));
        assert(decimal_digits(n)[0] == digit_char(n));
    } else {
        assert(decimal_digits(m).last() == digit_char(m % 10));
        assert(decimal_digits(n).last() == digit_char(n % 10));
        assert(decimal_digits(m).drop_last() =~= decimal_digits(m / 10));
        assert(decimal_digits(n).drop_last() =~= decimal_digits(n / 10));
        law_digits_are_unique(m / 10, n / 10);
    }
}

/// The number that some decimal digits denote.
pub open spec fn digits_denote(s: Seq<char>) -> int
    decreases s.len(),
{
    if s.len() == 0 {
        0
    } else {
        10 * digits_denote(s.drop_last()) + (s.last() as int - 48)
    }
}

/// The digits of a number denote it; all of them are digits, and the first is not
/// zero unless it is the only one.
pub proof fn law_digits_denote_their_number(n: nat)
    ensures
        digits_denote(decimal_digits(n)) == n,
        decimal_digits(n).len() >= 1,
        forall|i: int|
            0 <= i < decimal_digits(n).len() ==> '0' <= #[trigger] decimal_digits(n)[i] <= '9',
        decimal_digits(n).len() > 1 ==> decimal_digits(n)[0] != '0',
    decreases n,
{
    reveal_with_fuel(digits_denote, 2);
    if n >= 10 {
        law_digits_denote_their_number(n / 10);
        let head = decimal_digits(n / 10);
        let all = decimal_digits(n);
        assert(all.drop_last() =~= head);
        assert forall|i: int| 0 <= i < all.len() implies '0' <= #[trigger] all[i] <= '9' by {
            if i < head.len() {
                assert(all[i] == head[i]);
            }
        }
        assert(all[0] == head[0]);
        if head.len() == 1 {
            assert(n / 10 < 10) by {
                if n / 10 >= 10 {
                    lemma_digits_not_empty(n / 100);
                    assert(decimal_digits(n / 10).len() >= 2) by {
                        lemma_digits_not_empty((n / 10) / 10);
                    }
                }
            }
            assert(head[0] == digit_char(n / 10));
        }
    } else {
        assert(decimal_digits(n).drop_last() =~= Seq::<char>::empty());
    }
}

/// Two digits are written with a zero before a single one; a negative number is
/// written with a minus sign before the digits of its size.
pub proof fn law_signs_and_zeros_stand_before_digits(n: nat)
    ensures
        n < 10 ==> two_digits(n) == seq!['0', digit_char(n)],
        n >= 10 ==> two_digits(n) == decimal_digits(n),
        n > 0 ==> signed_digits(-(n as int)) == seq!['-'] + decimal_digits(n),
        signed_digits(n as int) == decimal_digits(n),
{
    if n < 10 {
        assert(seq!['0'] + decimal_digits(n) =~= seq!['0', digit_char(n)]);
    }
}

/// A text is in another exactly where the other is something, the text, and
/// something.
pub proof fn law_parts_stand_in_their_text(head: Seq<char>, part: Seq<char>, tail: Seq<char>, text: Seq<char>)
    ensures
        contains_text(head + part + tail, part),
        text.len() < part.len() ==> !contains_text(text, part),
        contains_text(text, part) ==> exists|i: int|
            0 <= i && i + part.len() <= text.len() && #[trigger] text.subrange(i, i + part.len())
                == part,
{
    let all = head + part + tail;
    let i = head.len() as int;
    assert(all.subrange(i, i + part.len()) =~= part);
}

/// A length of time is written in hours, minutes and seconds; minutes and seconds
/// are below sixty, and together they are the time.
pub proof fn law_durations_are_hours_minutes_seconds(h: nat, m: nat, s: nat)
    requires
        m < 60,
        s < 60,
    ensures
        duration_text(3600 * h + 60 * m + s) == two_digits(h) + seq![':'] + two_digits(m) + seq![
            ':',
        ] + two_digits(s),
        h > 0 ==> uptime_text(3600 * h + 60 * m + s) == decimal_digits(h) + seq!['h']
            + decimal_digits(m) + seq!['m'] + decimal_digits(s) + seq!['s'],
        h == 0 && m > 0 ==> uptime_text(3600 * h + 60 * m + s) == decimal_digits(m) + seq!['m']
            + decimal_digits(s) + seq!['s'],
        h == 0 && m == 0 ==> uptime_text(3600 * h + 60 * m + s) == decimal_digits(s) + seq!['s'],
{
    let t: nat = 3600 * h + 60 * m + s;
    assert(t / 3600 == h);
    assert(t % 3600 == 60 * m + s);
    assert((t % 3600) / 60 == m);
    assert(t % 60 == s);
}

} // verus!
