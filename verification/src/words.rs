//! Splitting text.

use crate::bytes::{parse_u64, unsigned_value};
use crate::text::characters;
use vstd::prelude::*;
use vstd::utf8::encode_utf8;

verus! {

/// The pieces of a text between the separators; a text without any is one piece.
pub open spec fn pieces(s: Seq<char>, separator: char) -> Seq<Seq<char>>
    decreases s.len(),
{
    if s.len() == 0 {
        seq![Seq::empty()]
    } else {
        let before = pieces(s.drop_last(), separator);
        if s.last() == separator {
            before.push(Seq::empty())
        } else {
            before.drop_last().push(before.last().push(s.last()))
        }
    }
}

/// The characters of each text.
pub open spec fn views(texts: Seq<&str>) -> Seq<Seq<char>> {
    texts.map_values(|t: &str| t@)
}

/// Splits a text at a separator.
pub fn split(text: &str, separator: char) -> (r: Vec<&str>)
    ensures
        views(r@) == pieces(text@, separator),
{
    let chars = characters(text);
    let total: usize = chars.len();
    let mut out: Vec<&str> = Vec::new();
    let mut start: usize = 0;
    let mut i: usize = 0;
    proof {
        assert(text@.take(0) =~= Seq::empty());
        assert(views(out@).push(text@.subrange(0, 0)) =~= pieces(text@.take(0), separator));
    }
    while i < total
        invariant
            start <= i <= total,
            total == text@.len(),
            chars@ == text@,
            views(out@).push(text@.subrange(start as int, i as int)) == pieces(
                text@.take(i as int),
                separator,
            ),
        decreases total - i,
    {
        let ghost before = pieces(text@.take(i as int), separator);
        let ghost piece = text@.subrange(start as int, i as int);
        proof {
            assert(text@.take(i + 1).drop_last() =~= text@.take(i as int));
            assert(text@.take(i + 1).last() == text@[i as int]);
            assert(before.last() == piece);
            assert(before.drop_last() =~= views(out@));
        }
        if chars[i] == separator {
            let ghost so_far = views(out@);
            out.push(text.substring_char(start, i));
            start = i + 1;
            proof {
                assert(views(out@) =~= so_far.push(piece));
                assert(text@.subrange(start as int, i + 1) =~= Seq::empty());
            }
        } else {
            proof {
                assert(text@.subrange(start as int, i + 1) =~= piece.push(text@[i as int]));
            }
        }
        i += 1;
    }
    let ghost so_far = views(out@);
    out.push(text.substring_char(start, total));
    proof {
        assert(text@.take(total as int) =~= text@);
        assert(views(out@) =~= so_far.push(text@.subrange(start as int, total as int)));
    }
    out
}

/// Whether a character is white space: one of Unicode's `White_Space` property.
pub open spec fn is_white(c: char) -> bool {
    let n = c as int;
    9 <= n <= 13 || n == 32 || n == 133 || n == 160 || n == 5760 || 8192 <= n <= 8202 || n == 8232
        || n == 8233 || n == 8239 || n == 8287 || n == 12288
}

/// Tells whether a character is white space.
fn white(c: char) -> (r: bool)
    ensures
        r == is_white(c),
{
    let n: u32 = c as u32;
    (n >= 9 && n <= 13) || n == 32 || n == 133 || n == 160 || n == 5760 || (n >= 8192 && n <= 8202)
        || n == 8232 || n == 8233 || n == 8239 || n == 8287 || n == 12288
}

/// A text without the white space at its front and at its end.
pub open spec fn trimmed(s: Seq<char>) -> Seq<char>
    decreases s.len(),
{
    if s.len() > 0 && is_white(s[0]) {
        trimmed(s.skip(1))
    } else if s.len() > 0 && is_white(s.last()) {
        trimmed(s.drop_last())
    } else {
        s
    }
}

/// Takes the white space at the front and at the end of a text away.
pub fn trim(text: &str) -> (r: &str)
    ensures
        r@ == trimmed(text@),
{
    let chars = characters(text);
    let total: usize = chars.len();
    let mut start: usize = 0;
    let mut end: usize = total;
    proof {
        assert(text@.subrange(0, total as int) =~= text@);
    }
    while start < end && white(chars[start])
        invariant
            start <= end,
            end == total,
            total == text@.len(),
            chars@ == text@,
            trimmed(text@.subrange(start as int, end as int)) == trimmed(text@),
        decreases end - start,
    {
        proof {
            assert(text@.subrange(start as int, end as int).skip(1) =~= text@.subrange(
                start + 1,
                end as int,
            ));
        }
        start += 1;
    }
    while start < end && white(chars[end - 1])
        invariant
            start <= end <= total,
            total == text@.len(),
            chars@ == text@,
            start < end ==> !is_white(text@[start as int]),
            trimmed(text@.subrange(start as int, end as int)) == trimmed(text@),
        decreases end - start,
    {
        proof {
            assert(text@.subrange(start as int, end as int).drop_last() =~= text@.subrange(
                start as int,
                end - 1,
            ));
        }
        end -= 1;
    }
    text.substring_char(start, end)
}

/// Whether a text ends within a word.
pub open spec fn ends_in_word(s: Seq<char>) -> bool {
    s.len() > 0 && !is_white(s.last())
}

/// The words of a text: its longest pieces without white space.
pub open spec fn word_list(s: Seq<char>) -> Seq<Seq<char>>
    decreases s.len(),
{
    if s.len() == 0 {
        Seq::empty()
    } else {
        let before = word_list(s.drop_last());
        if is_white(s.last()) {
            before
        } else if ends_in_word(s.drop_last()) {
            before.drop_last().push(before.last().push(s.last()))
        } else {
            before.push(seq![s.last()])
        }
    }
}

/// Splits a text into words.
pub fn words(text: &str) -> (r: Vec<&str>)
    ensures
        views(r@) == word_list(text@),
{
    let chars = characters(text);
    let total: usize = chars.len();
    let mut out: Vec<&str> = Vec::new();
    let mut start: usize = 0;
    let mut in_word: bool = false;
    let mut i: usize = 0;
    proof {
        assert(text@.take(0) =~= Seq::empty());
        assert(views(out@) =~= word_list(text@.take(0)));
    }
    while i < total
        invariant
            start <= i <= total,
            total == text@.len(),
            chars@ == text@,
            in_word == ends_in_word(text@.take(i as int)),
            in_word ==> views(out@).push(text@.subrange(start as int, i as int)) == word_list(
                text@.take(i as int),
            ),
            !in_word ==> views(out@) == word_list(text@.take(i as int)),
        decreases total - i,
    {
        let ghost before = word_list(text@.take(i as int));
        let ghost word = text@.subrange(start as int, i as int);
        proof {
            assert(text@.take(i + 1).drop_last() =~= text@.take(i as int));
            assert(text@.take(i + 1).last() == text@[i as int]);
            if in_word {
                assert(before.last() == word);
                assert(before.drop_last() =~= views(out@));
            }
        }
        if white(chars[i]) {
            if in_word {
                let ghost so_far = views(out@);
                out.push(text.substring_char(start, i));
                in_word = false;
                assert(views(out@) =~= so_far.push(word));
            }
        } else if in_word {
            assert(text@.subrange(start as int, i + 1) =~= word.push(text@[i as int]));
        } else {
            start = i;
            in_word = true;
            assert(text@.subrange(start as int, i + 1) =~= seq![text@[i as int]]);
        }
        i += 1;
    }
    proof {
        assert(text@.take(total as int) =~= text@);
    }
    if in_word {
        let ghost so_far = views(out@);
        out.push(text.substring_char(start, total));
        assert(views(out@) =~= so_far.push(text@.subrange(start as int, total as int)));
    }
    out
}

/// Whether a text begins with another.
pub open spec fn begins_with(text: Seq<char>, head: Seq<char>) -> bool {
    head.len() <= text.len() && text.take(head.len() as int) == head
}

/// Tells whether a text begins with another.
pub fn starts_with(text: &str, head: &str) -> (r: bool)
    ensures
        r == begins_with(text@, head@),
{
    let text_chars = characters(text);
    let head_chars = characters(head);
    let width: usize = head_chars.len();
    if width > text_chars.len() {
        return false;
    }
    let mut i: usize = 0;
    while i < width
        invariant
            i <= width,
            width == head@.len(),
            width <= text@.len(),
            text_chars@ == text@,
            head_chars@ == head@,
            forall|j: int| 0 <= j < i ==> text@[j] == head@[j],
        decreases width - i,
    {
        if text_chars[i] != head_chars[i] {
            assert(text@.take(width as int)[i as int] != head@[i as int]);
            return false;
        }
        i += 1;
    }
    assert(text@.take(width as int) =~= head@);
    true
}

/// The unsigned number that a text denotes, where it fits 64 bits.
pub open spec fn number_in(text: Seq<char>) -> Option<u64> {
    match unsigned_value(encode_utf8(text)) {
        Some(n) => if n <= u64::MAX {
            Some(n as u64)
        } else {
            None
        },
        None => None,
    }
}

/// Reads an unsigned number.
pub fn read_number(text: &str) -> (r: Option<u64>)
    ensures
        r == number_in(text@),
{
    let r = parse_u64(text.as_bytes());
    proof {
        lemma_unsigned_not_negative(encode_utf8(text@));
    }
    r
}

/// Digits denote no negative number.
proof fn lemma_digits_not_negative(bytes: Seq<u8>)
    requires
        crate::bytes::all_digits(bytes),
    ensures
        crate::bytes::digits_value(bytes) >= 0,
    decreases bytes.len(),
{
    if bytes.len() > 0 {
        assert forall|i: int| 0 <= i < bytes.drop_last().len() implies 48
            <= #[trigger] bytes.drop_last()[i] <= 57 by {
            assert(bytes.drop_last()[i] == bytes[i]);
        }
        lemma_digits_not_negative(bytes.drop_last());
        assert(48 <= bytes[bytes.len() - 1]);
    }
}

/// An unsigned text denotes no negative number.
proof fn lemma_unsigned_not_negative(bytes: Seq<u8>)
    ensures
        unsigned_value(bytes) matches Some(n) ==> n >= 0,
{
    let digits = if bytes.len() > 0 && bytes[0] == 43 {
        bytes.subrange(1, bytes.len() as int)
    } else {
        bytes
    };
    if digits.len() > 0 && crate::bytes::all_digits(digits) {
        lemma_digits_not_negative(digits);
    }
}

// ---------------------------------------------------------------------------
// Laws
// ---------------------------------------------------------------------------

/// A text has at least one piece, and no piece holds the separator.
pub proof fn law_pieces_hold_no_separator(s: Seq<char>, separator: char)
    ensures
        pieces(s, separator).len() >= 1,
        forall|i: int|
            0 <= i < pieces(s, separator).len() ==> !(#[trigger] pieces(s, separator)[i]).contains(
                separator,
            ),
    decreases s.len(),
{
    if s.len() > 0 {
        law_pieces_hold_no_separator(s.drop_last(), separator);
        let before = pieces(s.drop_last(), separator);
        let after = pieces(s, separator);
        assert forall|i: int| 0 <= i < after.len() implies !(#[trigger] after[i]).contains(
            separator,
        ) by {
            if s.last() == separator {
                if i < before.len() {
                    assert(after[i] == before[i]);
                }
            } else if i < before.len() - 1 {
                assert(after[i] == before[i]);
            } else {
                let last = before.last();
                assert(!before[before.len() - 1].contains(separator));
                assert(after[i] == last.push(s.last()));
                if last.push(s.last()).contains(separator) {
                    let k = choose|k: int|
                        0 <= k < last.len() + 1 && last.push(s.last())[k] == separator;
                    if k < last.len() {
                        assert(last[k] == separator);
                        assert(last.contains(separator));
                    }
                }
            }
        }
    }
}

/// Some pieces with a separator between each two.
pub open spec fn joined(list: Seq<Seq<char>>, separator: char) -> Seq<char>
    decreases list.len(),
{
    if list.len() == 0 {
        Seq::empty()
    } else if list.len() == 1 {
        list[0]
    } else {
        joined(list.drop_last(), separator) + seq![separator] + list.last()
    }
}

/// The pieces of a text with the separator between them are the text again.
pub proof fn law_joined_pieces_are_the_text(s: Seq<char>, separator: char)
    ensures
        pieces(s, separator).len() >= 1,
        joined(pieces(s, separator), separator) == s,
    decreases s.len(),
{
    if s.len() > 0 {
        let before = pieces(s.drop_last(), separator);
        law_joined_pieces_are_the_text(s.drop_last(), separator);
        let after = pieces(s, separator);
        if s.last() == separator {
            assert(after.drop_last() =~= before);
            assert(after.last() =~= Seq::<char>::empty());
            assert(joined(after, separator) =~= s);
        } else {
            assert(after.drop_last() =~= before.drop_last());
            assert(after.last() == before.last().push(s.last()));
            if before.len() == 1 {
                assert(joined(before, separator) == before[0]);
                assert(after[0] == before[0].push(s.last()));
                assert(after[0] =~= s);
                assert(joined(after, separator) == after[0]);
            } else {
                assert(joined(before, separator) == joined(before.drop_last(), separator) + seq![
                    separator,
                ] + before.last());
                let start = joined(before.drop_last(), separator) + seq![separator];
                assert(joined(after, separator) == joined(after.drop_last(), separator) + seq![
                    separator,
                ] + after.last());
                assert(start + before.last().push(s.last()) =~= (start + before.last()).push(
                    s.last(),
                ));
                assert(s.drop_last().push(s.last()) =~= s);
            }
        }
    }
}

/// The characters of each text are its own, in order.
pub proof fn law_views_are_of_the_texts(texts: Seq<&str>, i: int)
    ensures
        views(texts).len() == texts.len(),
        0 <= i < texts.len() ==> views(texts)[i] == texts[i]@,
{
}

/// White space are the tab, the line breaks, the space and the other spaces of
/// Unicode; no letter, digit or sign of ASCII is.
pub proof fn law_white_space_is_that_of_unicode(c: char)
    ensures
        is_white(' '),
        is_white('\t'),
        is_white('\n'),
        is_white('\r'),
        33 <= c as int <= 126 ==> !is_white(c),
        is_white(c) <==> {
            ||| 9 <= c as int <= 13
            ||| c as int == 32
            ||| c as int == 133
            ||| c as int == 160
            ||| c as int == 5760
            ||| 8192 <= c as int <= 8202
            ||| c as int == 8232
            ||| c as int == 8233
            ||| c as int == 8239
            ||| c as int == 8287
            ||| c as int == 12288
        },
{
}

/// Trimming takes away white space only, at the two ends, and all of it there.
pub proof fn law_trimming_takes_only_white_space(s: Seq<char>) -> (from: int)
    ensures
        0 <= from,
        from + trimmed(s).len() <= s.len(),
        trimmed(s) == s.subrange(from, from + trimmed(s).len()),
        forall|k: int| 0 <= k < from ==> is_white(#[trigger] s[k]),
        forall|k: int| from + trimmed(s).len() <= k < s.len() ==> is_white(#[trigger] s[k]),
        trimmed(s).len() > 0 ==> !is_white(trimmed(s)[0]) && !is_white(trimmed(s).last()),
    decreases s.len(),
{
    if s.len() > 0 && is_white(s[0]) {
        let rest = s.skip(1);
        let from = law_trimming_takes_only_white_space(rest);
        let n = trimmed(s).len();
        assert(s.subrange(from + 1, from + 1 + n) =~= rest.subrange(from, from + n));
        assert forall|k: int| 0 <= k < from + 1 implies is_white(#[trigger] s[k]) by {
            if k > 0 {
                assert(rest[k - 1] == s[k]);
            }
        }
        assert forall|k: int| from + 1 + n <= k < s.len() implies is_white(#[trigger] s[k]) by {
            assert(rest[k - 1] == s[k]);
        }
        from + 1
    } else if s.len() > 0 && is_white(s.last()) {
        let rest = s.drop_last();
        let from = law_trimming_takes_only_white_space(rest);
        let n = trimmed(s).len();
        assert(s.subrange(from, from + n) =~= rest.subrange(from, from + n));
        assert forall|k: int| 0 <= k < from implies is_white(#[trigger] s[k]) by {
            assert(rest[k] == s[k]);
        }
        assert forall|k: int| from + n <= k < s.len() implies is_white(#[trigger] s[k]) by {
            if k < rest.len() {
                assert(rest[k] == s[k]);
            }
        }
        from
    } else {
        assert(s.subrange(0, s.len() as int) =~= s);
        0
    }
}

/// A text without white space is one word, and an empty one is none.
pub proof fn law_text_without_white_space_is_a_word(s: Seq<char>)
    requires
        forall|i: int| 0 <= i < s.len() ==> !is_white(#[trigger] s[i]),
    ensures
        s.len() == 0 ==> word_list(s).len() == 0,
        s.len() > 0 ==> word_list(s) == seq![s],
    decreases s.len(),
{
    if s.len() > 0 {
        let before = s.drop_last();
        assert forall|i: int| 0 <= i < before.len() implies !is_white(#[trigger] before[i]) by {
            assert(before[i] == s[i]);
        }
        law_text_without_white_space_is_a_word(before);
        assert(!is_white(s[s.len() - 1]));
        assert(s =~= before.push(s.last()));
        if before.len() > 0 {
            assert(!is_white(before[before.len() - 1]));
            assert(word_list(s) =~= seq![s]);
        } else {
            assert(seq![s.last()] =~= s);
            assert(word_list(s) =~= seq![s]);
        }
    }
}

/// White space divides words: the words of two texts with white space between
/// them are those of the one and then those of the other.
pub proof fn law_white_space_divides_words(a: Seq<char>, w: char, b: Seq<char>)
    requires
        is_white(w),
    ensures
        word_list(a.push(w) + b) == word_list(a) + word_list(b),
        ends_in_word(b) ==> word_list(b).len() > 0,
    decreases b.len(),
{
    let all = a.push(w) + b;
    if b.len() == 0 {
        assert(all =~= a.push(w));
        assert(all.drop_last() =~= a);
        assert(word_list(a) + word_list(b) =~= word_list(a));
    } else {
        let before = b.drop_last();
        law_white_space_divides_words(a, w, before);
        let head = a.push(w) + before;
        assert(all.drop_last() =~= head);
        assert(all.last() == b.last());
        if before.len() > 0 {
            assert(head.last() == before.last());
        } else {
            assert(head.last() == w);
        }
        assert(ends_in_word(head) == ends_in_word(before));
        if is_white(b.last()) {
        } else if ends_in_word(before) {
            let both = word_list(a) + word_list(before);
            assert(both.last() == word_list(before).last());
            assert(both.drop_last() =~= word_list(a) + word_list(before).drop_last());
            assert(word_list(all) =~= word_list(a) + word_list(b));
        } else {
            assert(word_list(all) =~= word_list(a) + word_list(b));
        }
    }
}

/// A text begins with another exactly where the other followed by something is
/// the text.
pub proof fn law_beginnings_are_followed_by_the_rest(head: Seq<char>, rest: Seq<char>, text: Seq<char>)
    ensures
        begins_with(head + rest, head),
        begins_with(text, head) ==> text == head + text.skip(head.len() as int),
        begins_with(text, Seq::<char>::empty()),
        head.len() > text.len() ==> !begins_with(text, head),
{
    assert((head + rest).take(head.len() as int) =~= head);
    if begins_with(text, head) {
        assert(text =~= text.take(head.len() as int) + text.skip(head.len() as int));
    }
    assert(text.take(0) =~= Seq::<char>::empty());
}

/// A text is a number exactly where its bytes are digits, with or without a plus
/// sign, that fit in 64 bits.
pub proof fn law_numbers_fit_in_their_bits(text: Seq<char>)
    ensures
        unsigned_value(encode_utf8(text)) is None ==> number_in(text) is None,
        unsigned_value(encode_utf8(text)) matches Some(n) ==> {
            &&& n <= u64::MAX ==> number_in(text) is Some && number_in(text)->0 == n
            &&& n > u64::MAX ==> number_in(text) is None
        },
{
    lemma_unsigned_not_negative(encode_utf8(text));
}

} // verus!
