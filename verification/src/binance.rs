//! Trade messages of the Binance stream, read without building a JSON tree.

use crate::bytes::{find, find_any_of_three, find_byte, parse_u64, text_of};
use vstd::prelude::*;
use vstd::slice::slice_subrange;
use vstd::utf8::*;

verus! {

/// The bytes `"p":"` that stand before a price.
pub open spec fn price_pattern() -> Seq<u8> {
    seq![34u8, 112u8, 34u8, 58u8, 34u8]
}

/// The bytes `"q":"` that stand before a quantity.
pub open spec fn quantity_pattern() -> Seq<u8> {
    seq![34u8, 113u8, 34u8, 58u8, 34u8]
}

/// The bytes `"T":` that stand before the trade time.
pub open spec fn time_pattern() -> Seq<u8> {
    seq![34u8, 84u8, 34u8, 58u8]
}

/// What follows the first occurrence of `field`.
pub open spec fn after_field(json: Seq<u8>, field: Seq<u8>) -> Option<Seq<u8>> {
    match crate::bytes::first_match(json, field, 0) {
        Some(i) => Some(json.subrange(i + field.len(), json.len() as int)),
        None => None,
    }
}

/// The bytes before the first of the given end marks.
pub open spec fn up_to(rest: Seq<u8>, ends: Seq<u8>) -> Option<Seq<u8>> {
    match crate::bytes::first_byte(rest, ends, 0) {
        Some(i) => Some(rest.subrange(0, i)),
        None => None,
    }
}

/// The value of a field: what stands between the first occurrence of `field` and
/// the first end mark after it, where that is UTF-8.
pub open spec fn field_value(json: Seq<u8>, field: Seq<u8>, ends: Seq<u8>) -> Option<Seq<u8>> {
    match after_field(json, field) {
        Some(rest) => match up_to(rest, ends) {
            Some(value) => if valid_utf8(value) {
                Some(value)
            } else {
                None
            },
            None => None,
        },
        None => None,
    }
}

/// A quoted value, which ends at a quote.
pub open spec fn quoted_value(json: Seq<u8>, field: Seq<u8>) -> Option<Seq<u8>> {
    field_value(json, field, seq![34u8])
}

/// A bare value, which ends at a comma, a closing brace or a closing bracket.
pub open spec fn bare_value(json: Seq<u8>, field: Seq<u8>) -> Option<Seq<u8>> {
    field_value(json, field, seq![44u8, 125u8, 93u8])
}

/// Reads a quoted value.
pub fn extract_json_field<'a>(json: &'a [u8], field: &[u8]) -> (r: Option<&'a str>)
    ensures
        match r {
            Some(s) => quoted_value(json@, field@) == Some(encode_utf8(s@)),
            None => quoted_value(json@, field@) is None,
        },
{
    let pos = match find(json, field) {
        Some(pos) => pos,
        None => {
            return None;
        },
    };
    let total: usize = json.len();
    let rest = slice_subrange(json, pos + field.len(), total);
    let end = match find_byte(rest, 34) {
        Some(end) => end,
        None => {
            return None;
        },
    };
    text_of(slice_subrange(rest, 0, end))
}

/// Reads a bare value.
pub fn extract_json_number<'a>(json: &'a [u8], field: &[u8]) -> (r: Option<&'a str>)
    ensures
        match r {
            Some(s) => bare_value(json@, field@) == Some(encode_utf8(s@)),
            None => bare_value(json@, field@) is None,
        },
{
    let pos = match find(json, field) {
        Some(pos) => pos,
        None => {
            return None;
        },
    };
    let total: usize = json.len();
    let rest = slice_subrange(json, pos + field.len(), total);
    let end = match find_any_of_three(rest, 44, 125, 93) {
        Some(end) => end,
        None => {
            return None;
        },
    };
    text_of(slice_subrange(rest, 0, end))
}

/// The trade that the bytes of a price, of a quantity and of a time make, where
/// all three are there and the time fits.
pub open spec fn trade_of(price: Option<Seq<u8>>, quantity: Option<Seq<u8>>, time: Option<Seq<u8>>) -> Option<
    (Seq<u8>, Seq<u8>, u64),
> {
    match (price, quantity, time) {
        (Some(price), Some(quantity), Some(digits)) => match crate::bytes::unsigned_value(digits) {
            Some(time) => if time <= u64::MAX {
                Some((price, quantity, time as u64))
            } else {
                None
            },
            None => None,
        },
        _ => None,
    }
}

/// The trade that a message holds.
pub open spec fn trade_in(json: Seq<u8>) -> Option<(Seq<u8>, Seq<u8>, u64)> {
    trade_of(
        quoted_value(json, price_pattern()),
        quoted_value(json, quantity_pattern()),
        bare_value(json, time_pattern()),
    )
}

/// Reads price, quantity and time of a trade message; the two texts are slices
/// of the message.
pub fn parse_binance_trade_fast<'a>(json: &'a [u8]) -> (r: Option<(&'a str, &'a str, u64)>)
    ensures
        match r {
            Some((price, quantity, time)) => trade_in(json@) == Some(
                (encode_utf8(price@), encode_utf8(quantity@), time),
            ),
            None => trade_in(json@) is None,
        },
{
    let price_mark: [u8; 5] = [34, 112, 34, 58, 34];
    let quantity_mark: [u8; 5] = [34, 113, 34, 58, 34];
    let time_mark: [u8; 4] = [34, 84, 34, 58];
    assert(price_mark@ =~= price_pattern());
    assert(quantity_mark@ =~= quantity_pattern());
    assert(time_mark@ =~= time_pattern());
    let price = match extract_json_field(json, price_mark.as_slice()) {
        Some(price) => price,
        None => {
            return None;
        },
    };
    let quantity = match extract_json_field(json, quantity_mark.as_slice()) {
        Some(quantity) => quantity,
        None => {
            return None;
        },
    };
    let time_text = match extract_json_number(json, time_mark.as_slice()) {
        Some(text) => text,
        None => {
            return None;
        },
    };
    match parse_u64(time_text.as_bytes()) {
        Some(time) => Some((price, quantity, time)),
        None => None,
    }
}

// ---------------------------------------------------------------------------
// Laws
// ---------------------------------------------------------------------------

/// A field of a flat object: a key, and a value that is quoted or bare.
pub struct FlatField {
    pub key: Seq<u8>,
    pub value: Seq<u8>,
    pub quoted: bool,
}

/// Whether a field can stand in a flat object as it is: neither key nor quoted
/// value holds a quote, and a bare value holds no quote and no end mark.
pub open spec fn field_sound(f: FlatField) -> bool {
    &&& !f.key.contains(34)
    &&& !f.value.contains(34)
    &&& !f.quoted ==> !f.value.contains(44) && !f.value.contains(125) && !f.value.contains(93)
}

/// The bytes of a value.
pub open spec fn value_bytes(f: FlatField) -> Seq<u8> {
    if f.quoted {
        seq![34u8] + f.value + seq![34u8]
    } else {
        f.value
    }
}

/// The bytes of a field.
pub open spec fn field_bytes(f: FlatField) -> Seq<u8> {
    seq![34u8] + f.key + seq![34u8, 58u8] + value_bytes(f)
}

/// The bytes of some fields with commas between them, and the closing brace.
pub open spec fn fields_bytes(fields: Seq<FlatField>) -> Seq<u8>
    decreases fields.len(),
{
    if fields.len() == 0 {
        seq![125u8]
    } else if fields.len() == 1 {
        field_bytes(fields[0]) + seq![125u8]
    } else {
        field_bytes(fields[0]) + seq![44u8] + fields_bytes(fields.skip(1))
    }
}

/// The bytes of a flat object without white space.
pub open spec fn object_bytes(fields: Seq<FlatField>) -> Seq<u8> {
    seq![123u8] + fields_bytes(fields)
}

/// The field with a key of one letter, where there is one.
pub open spec fn field_of(fields: Seq<FlatField>, letter: u8) -> Option<FlatField>
    decreases fields.len(),
{
    if fields.len() == 0 {
        None
    } else if fields[0].key == seq![letter] {
        Some(fields[0])
    } else {
        field_of(fields.skip(1), letter)
    }
}

/// Whether no two fields have the same key of one letter.
pub open spec fn letter_once(fields: Seq<FlatField>, letter: u8) -> bool {
    forall|i: int, j: int|
        0 <= i < j < fields.len() && (#[trigger] fields[i]).key == seq![letter] ==> (
        #[trigger] fields[j]).key != seq![letter]
}

/// Whether some fields make a flat object in which price, quantity and time each
/// stand at most once.
pub open spec fn is_flat(fields: Seq<FlatField>) -> bool {
    &&& forall|i: int| 0 <= i < fields.len() ==> field_sound(#[trigger] fields[i])
    &&& letter_once(fields, 112)
    &&& letter_once(fields, 113)
    &&& letter_once(fields, 84)
}

/// The bytes before the first of the given marks; all of them where there is
/// none.
pub open spec fn cut_at(bytes: Seq<u8>, ends: Seq<u8>) -> Seq<u8> {
    match crate::bytes::first_byte(bytes, ends, 0) {
        Some(i) => bytes.subrange(0, i),
        None => bytes,
    }
}

/// The bytes, where they are UTF-8.
pub open spec fn if_text(bytes: Seq<u8>) -> Option<Seq<u8>> {
    if valid_utf8(bytes) {
        Some(bytes)
    } else {
        None
    }
}

/// What is read of a field that has to be quoted.
pub open spec fn quoted_reading(f: Option<FlatField>) -> Option<Seq<u8>> {
    match f {
        Some(f) => if f.quoted {
            if_text(f.value)
        } else {
            None
        },
        None => None,
    }
}

/// What is read of a field that has to be bare.
pub open spec fn bare_reading(f: Option<FlatField>) -> Option<Seq<u8>> {
    match f {
        Some(f) => if_text(cut_at(value_bytes(f), seq![44u8, 125u8, 93u8])),
        None => None,
    }
}

/// The mark before the value of a field with a key of one letter.
pub open spec fn mark_of(letter: u8, quoted: bool) -> Seq<u8> {
    if quoted {
        seq![34u8, letter, 34u8, 58u8, 34u8]
    } else {
        seq![34u8, letter, 34u8, 58u8]
    }
}

/// Whether a letter is none of the marks.
pub open spec fn is_letter(letter: u8) -> bool {
    letter != 34 && letter != 58 && letter != 44 && letter != 125
}

/// A mark stands at the start of a field only where the field has its letter as
/// its key, and nowhere else in it.
proof fn lemma_mark_in_field(f: FlatField, rest: Seq<u8>, letter: u8, quoted: bool, i: int)
    requires
        field_sound(f),
        is_letter(letter),
        rest.len() > 0,
        rest[0] == 44 || rest[0] == 125,
        0 <= i <= field_bytes(f).len(),
        crate::bytes::occurs_at(field_bytes(f) + rest, mark_of(letter, quoted), i),
    ensures
        i == 0,
        f.key == seq![letter],
        quoted ==> f.quoted,
{
    let all = field_bytes(f) + rest;
    let mark = mark_of(letter, quoted);
    let k = f.key.len() as int;
    let v = f.value.len() as int;
    let n = field_bytes(f).len() as int;
    let part = all.subrange(i, i + mark.len());
    assert(part == mark);
    assert(all[i] == part[0]);
    assert(all[i + 1] == part[1]);
    assert(all[i + 2] == part[2]);
    assert(all[i + 3] == part[3]);
    assert(quoted ==> all[i + 4] == part[4]);
    assert(all[0] == 34);
    assert forall|j: int| 0 <= j < k implies #[trigger] f.key[j] == all[j + 1] && f.key[j] != 34 by {
        assert(f.key.contains(f.key[j]));
    }
    assert(all[k + 1] == 34);
    assert(all[k + 2] == 58);
    assert forall|j: int| 0 <= j < v implies #[trigger] f.value[j] != 34 by {
        assert(f.value.contains(f.value[j]));
    }
    assert(all[n] == rest[0]);
    if f.quoted {
        assert(n == k + v + 5);
        assert(all[k + 3] == 34);
        assert forall|j: int| 0 <= j < v implies #[trigger] f.value[j] == all[j + k + 4] by {}
        assert(all[k + v + 4] == 34);
        if k + 4 <= i < k + 4 + v {
            assert(f.value[i - k - 4] == all[i]);
        }
        if i == k + 3 && v >= 2 {
            assert(f.value[1] == all[k + 5]);
        }
    } else {
        assert(n == k + v + 3);
        assert forall|j: int| 0 <= j < v implies #[trigger] f.value[j] == all[j + k + 3] by {}
        if k + 3 <= i < n {
            assert(f.value[i - k - 3] == all[i]);
        }
    }
    if 1 <= i <= k {
        assert(f.key[i - 1] == all[i]);
    }
    if i == 0 {
        if k >= 2 {
            assert(f.key[1] == all[2]);
        }
        assert(k == 1);
        assert(f.key[0] == letter);
        assert(f.key =~= seq![letter]);
        if quoted && !f.quoted {
            if v > 0 {
                assert(f.value[0] == all[4]);
            }
        }
    }
}

/// Whether a mark stands in the bytes of some fields at the index `at` and
/// nowhere else, where the field with its letter has its value; or nowhere.
pub open spec fn mark_found(fields: Seq<FlatField>, letter: u8, quoted: bool, at: Option<int>) -> bool {
    let all = fields_bytes(fields);
    let mark = mark_of(letter, quoted);
    match at {
        Some(i) => {
            &&& field_of(fields, letter) matches Some(f)
            &&& quoted ==> f.quoted
            &&& 0 <= i
            &&& i + 4 + value_bytes(f).len() < all.len()
            &&& all.subrange(i + 4, i + 4 + value_bytes(f).len()) == value_bytes(f)
            &&& all[i + 4 + value_bytes(f).len()] == 44 || all[i + 4 + value_bytes(f).len()] == 125
            &&& crate::bytes::occurs_at(all, mark, i)
            &&& forall|j: int| j != i ==> !crate::bytes::occurs_at(all, mark, j)
        },
        None => {
            &&& field_of(fields, letter) matches Some(f) ==> quoted && !f.quoted
            &&& forall|j: int| !crate::bytes::occurs_at(all, mark, j)
        },
    }
}

/// Finds a mark in the bytes of some fields.
proof fn lemma_mark_in_fields(fields: Seq<FlatField>, letter: u8, quoted: bool) -> (at: Option<int>)
    requires
        forall|i: int| 0 <= i < fields.len() ==> field_sound(#[trigger] fields[i]),
        letter_once(fields, letter),
        is_letter(letter),
    ensures
        mark_found(fields, letter, quoted, at),
    decreases fields.len(), 1int,
{
    if fields.len() == 0 {
        None
    } else {
        lemma_mark_in_more_fields(fields, letter, quoted)
    }
}

/// The same where there is a field.
proof fn lemma_mark_in_more_fields(fields: Seq<FlatField>, letter: u8, quoted: bool) -> (at: Option<int>)
    requires
        fields.len() > 0,
        forall|i: int| 0 <= i < fields.len() ==> field_sound(#[trigger] fields[i]),
        letter_once(fields, letter),
        is_letter(letter),
    ensures
        mark_found(fields, letter, quoted, at),
    decreases fields.len(), 0int,
{
    let all = fields_bytes(fields);
    let mark = mark_of(letter, quoted);
    let f = fields[0];
    let tail = fields.skip(1);
    let head = field_bytes(f);
    let rest = if fields.len() == 1 {
        seq![125u8]
    } else {
        seq![44u8] + fields_bytes(tail)
    };
    assert(all =~= head + rest);
    assert forall|i: int| 0 <= i < tail.len() implies field_sound(#[trigger] tail[i]) by {
        assert(tail[i] == fields[i + 1]);
    }
    assert forall|i: int, j: int|
        0 <= i < j < tail.len() && (#[trigger] tail[i]).key == seq![letter] implies (
    #[trigger] tail[j]).key != seq![letter] by {
        assert(tail[i] == fields[i + 1]);
        assert(tail[j] == fields[j + 1]);
    }
    let later = lemma_mark_in_fields(tail, letter, quoted);
    let n = head.len() as int;
    // Beyond the first field, an occurrence is one in the bytes of the others.
    assert forall|j: int| j > n && crate::bytes::occurs_at(all, mark, j) implies fields.len() > 1
        && crate::bytes::occurs_at(fields_bytes(tail), mark, j - n - 1) by {
        if fields.len() > 1 {
            assert(fields_bytes(tail).subrange(j - n - 1, j - n - 1 + mark.len()) =~= all.subrange(
                j,
                j + mark.len(),
            ));
        }
    }
    assert forall|j: int| 0 <= j <= n && crate::bytes::occurs_at(all, mark, j) implies j == 0
        && f.key == seq![letter] && (quoted ==> f.quoted) by {
        lemma_mark_in_field(f, rest, letter, quoted, j);
    }
    if f.key == seq![letter] {
        assert forall|i: int| 0 <= i < tail.len() implies (#[trigger] tail[i]).key != seq![letter] by {
            assert(tail[i] == fields[i + 1]);
            assert(fields[0].key == seq![letter]);
        }
        lemma_no_later(tail, letter);
        assert(later is None);
        let v = value_bytes(f).len() as int;
        assert(n == 4 + v);
        if !quoted || f.quoted {
            assert(all.subrange(0, mark.len() as int) =~= mark);
            assert(crate::bytes::occurs_at(all, mark, 0));
            assert(all.subrange(4, 4 + v) =~= value_bytes(f));
            assert(all[4 + v] == rest[0]);
            Some(0)
        } else {
            None
        }
    } else {
        match later {
            Some(i) => {
                let g = field_of(tail, letter)->0;
                let v = value_bytes(g).len() as int;
                let at = i + n + 1;
                if fields.len() == 1 {
                    assert(tail =~= Seq::empty());
                    assert(false);
                }
                assert(all.subrange(at, at + mark.len()) =~= fields_bytes(tail).subrange(
                    i,
                    i + mark.len(),
                ));
                assert(all.subrange(at + 4, at + 4 + v) =~= fields_bytes(tail).subrange(
                    i + 4,
                    i + 4 + v,
                ));
                assert(all[at + 4 + v] == fields_bytes(tail)[i + 4 + v]);
                assert forall|j: int| j != at implies !crate::bytes::occurs_at(all, mark, j) by {
                    if crate::bytes::occurs_at(all, mark, j) && j > n {
                        assert(j - n - 1 != i);
                    }
                }
                Some(at)
            },
            None => None,
        }
    }
}

/// A search for a mark in the bytes of an object.
proof fn lemma_mark_in_object(fields: Seq<FlatField>, letter: u8, quoted: bool) -> (at: Option<int>)
    requires
        forall|i: int| 0 <= i < fields.len() ==> field_sound(#[trigger] fields[i]),
        letter_once(fields, letter),
        is_letter(letter),
    ensures
        mark_found(fields, letter, quoted, at),
        crate::bytes::first_match(object_bytes(fields), mark_of(letter, quoted), 0) == (match at {
            Some(i) => Some(i + 1),
            None => None,
        }),
{
    let at = lemma_mark_in_fields(fields, letter, quoted);
    let inner = fields_bytes(fields);
    let all = object_bytes(fields);
    let mark = mark_of(letter, quoted);
    assert forall|j: int| 0 <= j && crate::bytes::occurs_at(all, mark, j) implies j > 0
        && crate::bytes::occurs_at(inner, mark, j - 1) by {
        assert(all.subrange(j, j + mark.len())[0] == all[j]);
        assert(all[0] == 123);
        assert(inner.subrange(j - 1, j - 1 + mark.len()) =~= all.subrange(j, j + mark.len()));
    }
    match at {
        Some(i) => {
            assert(all.subrange(i + 1, i + 1 + mark.len()) =~= inner.subrange(i, i + mark.len()));
            assert forall|j: int| 0 <= j < i + 1 implies !crate::bytes::occurs_at(all, mark, j) by {
                if crate::bytes::occurs_at(all, mark, j) {
                    assert(j - 1 != i);
                }
            }
            crate::bytes::lemma_first_match(all, mark, 0, Some(i + 1));
        },
        None => {
            crate::bytes::lemma_first_match(all, mark, 0, None);
        },
    }
    at
}

/// Cutting at the first of some marks, where one of them follows.
proof fn lemma_cut_before(bytes: Seq<u8>, rest: Seq<u8>, ends: Seq<u8>, from: int)
    requires
        0 <= from <= bytes.len() < rest.len(),
        rest.subrange(0, bytes.len() as int) == bytes,
        ends.contains(rest[bytes.len() as int]),
    ensures
        crate::bytes::first_byte(rest, ends, from) == (match crate::bytes::first_byte(
            bytes,
            ends,
            from,
        ) {
            Some(i) => Some(i),
            None => Some(bytes.len() as int),
        }),
    decreases bytes.len() - from,
{
    if from < bytes.len() {
        assert(rest[from] == rest.subrange(0, bytes.len() as int)[from]);
        lemma_cut_before(bytes, rest, ends, from + 1);
    }
}

/// A search for bytes finds one within, or nothing.
proof fn lemma_first_byte_within(bytes: Seq<u8>, ends: Seq<u8>, from: int)
    requires
        0 <= from,
    ensures
        crate::bytes::first_byte(bytes, ends, from) matches Some(i) ==> from <= i < bytes.len(),
        (forall|j: int| 0 <= j < bytes.len() ==> !ends.contains(#[trigger] bytes[j]))
            ==> crate::bytes::first_byte(bytes, ends, from) is None,
    decreases bytes.len() - from,
{
    if from < bytes.len() {
        lemma_first_byte_within(bytes, ends, from + 1);
    }
}

/// What is read of a field that has to be quoted.
proof fn lemma_quoted_field(fields: Seq<FlatField>, letter: u8)
    requires
        forall|i: int| 0 <= i < fields.len() ==> field_sound(#[trigger] fields[i]),
        letter_once(fields, letter),
        is_letter(letter),
    ensures
        quoted_value(object_bytes(fields), mark_of(letter, true)) == quoted_reading(
            field_of(fields, letter),
        ),
{
    let at = lemma_mark_in_object(fields, letter, true);
    let all = object_bytes(fields);
    if let Some(i) = at {
        lemma_field_of_is_sound(fields, letter);
        let f = field_of(fields, letter)->0;
        let rest = all.subrange(i + 6, all.len() as int);
        let v = f.value.len() as int;
        let told = value_bytes(f);
        let inner = fields_bytes(fields);
        assert forall|j: int| 0 <= j < told.len() implies #[trigger] told[j] == all[i + 5 + j] by {
            assert(inner.subrange(i + 4, i + 4 + told.len())[j] == inner[i + 4 + j]);
        }
        assert(rest.subrange(0, v) =~= f.value) by {
            assert forall|j: int| 0 <= j < v implies rest[j] == f.value[j] by {
                assert(told[j + 1] == f.value[j]);
            }
        }
        assert(told[v + 1] == 34);
        assert(rest[v] == 34);
        let ends = seq![34u8];
        assert(ends[0] == 34);
        assert(ends.contains(34));
        lemma_cut_before(f.value, rest, ends, 0);
        assert forall|j: int| 0 <= j < v implies !ends.contains(#[trigger] f.value[j]) by {
            assert(f.value.contains(f.value[j]));
        }
        lemma_first_byte_within(f.value, ends, 0);
    }
}

/// What is read of a field that has to be bare.
proof fn lemma_bare_field(fields: Seq<FlatField>, letter: u8)
    requires
        forall|i: int| 0 <= i < fields.len() ==> field_sound(#[trigger] fields[i]),
        letter_once(fields, letter),
        is_letter(letter),
    ensures
        bare_value(object_bytes(fields), mark_of(letter, false)) == bare_reading(
            field_of(fields, letter),
        ),
{
    let at = lemma_mark_in_object(fields, letter, false);
    let all = object_bytes(fields);
    if let Some(i) = at {
        let f = field_of(fields, letter)->0;
        let rest = all.subrange(i + 5, all.len() as int);
        let told = value_bytes(f);
        let n = told.len() as int;
        let inner = fields_bytes(fields);
        assert forall|j: int| 0 <= j < n implies #[trigger] told[j] == all[i + 5 + j] by {
            assert(inner.subrange(i + 4, i + 4 + n)[j] == inner[i + 4 + j]);
        }
        assert(rest.subrange(0, n) =~= told);
        let ends = seq![44u8, 125u8, 93u8];
        assert(ends[0] == 44 && ends[1] == 125);
        assert(rest[n] == inner[i + 4 + n]);
        assert(ends.contains(rest[n]));
        lemma_cut_before(told, rest, ends, 0);
        lemma_first_byte_within(told, ends, 0);
        let end = crate::bytes::first_byte(rest, ends, 0)->0;
        assert(rest.subrange(0, end) =~= cut_at(told, ends));
    }
}

/// A field that is found is one of the fields.
proof fn lemma_field_of_is_sound(fields: Seq<FlatField>, letter: u8)
    ensures
        field_of(fields, letter) matches Some(f) ==> fields.contains(f) && f.key == seq![letter],
        field_of(fields, letter) is None ==> forall|i: int|
            0 <= i < fields.len() ==> (#[trigger] fields[i]).key != seq![letter],
    decreases fields.len(),
{
    if fields.len() > 0 {
        let tail = fields.skip(1);
        lemma_field_of_is_sound(tail, letter);
        if fields[0].key != seq![letter] {
            if let Some(f) = field_of(tail, letter) {
                let i = choose|i: int| 0 <= i < tail.len() && tail[i] == f;
                assert(fields[i + 1] == f);
            } else {
                assert forall|i: int| 0 <= i < fields.len() implies (#[trigger] fields[i]).key
                    != seq![letter] by {
                    if i > 0 {
                        assert(tail[i - 1] == fields[i]);
                    }
                }
            }
        } else {
            assert(fields.contains(fields[0]));
        }
    }
}

/// The trade in the bytes of a flat object is the one that its fields for price,
/// quantity and time make, wherever they stand in it and whatever else does.
pub proof fn law_trade_is_read_by_its_fields(fields: Seq<FlatField>)
    requires
        is_flat(fields),
    ensures
        trade_in(object_bytes(fields)) == trade_of(
            quoted_reading(field_of(fields, 112)),
            quoted_reading(field_of(fields, 113)),
            bare_reading(field_of(fields, 84)),
        ),
{
    lemma_quoted_field(fields, 112);
    lemma_quoted_field(fields, 113);
    lemma_bare_field(fields, 84);
    assert(mark_of(112, true) =~= price_pattern());
    assert(mark_of(113, true) =~= quantity_pattern());
    assert(mark_of(84, false) =~= time_pattern());
}

/// The order of the fields of a message does not matter, nor do fields other
/// than price, quantity and time: messages with the same three hold the same
/// trade.
pub proof fn law_field_order_does_not_matter(a: Seq<FlatField>, b: Seq<FlatField>)
    requires
        is_flat(a),
        is_flat(b),
        forall|f: FlatField|
            f.key == seq![112u8] || f.key == seq![113u8] || f.key == seq![84u8] ==> (
            #[trigger] a.contains(f) <==> b.contains(f)),
    ensures
        trade_in(object_bytes(a)) == trade_in(object_bytes(b)),
{
    law_trade_is_read_by_its_fields(a);
    law_trade_is_read_by_its_fields(b);
    lemma_same_field(a, b, 112);
    lemma_same_field(a, b, 113);
    lemma_same_field(a, b, 84);
}

/// Fields with the same key in two objects are the same.
proof fn lemma_same_field(a: Seq<FlatField>, b: Seq<FlatField>, letter: u8)
    requires
        letter_once(a, letter),
        letter_once(b, letter),
        forall|f: FlatField|
            f.key == seq![letter] ==> (#[trigger] a.contains(f) <==> b.contains(f)),
    ensures
        field_of(a, letter) == field_of(b, letter),
{
    lemma_field_of_is_sound(a, letter);
    lemma_field_of_is_sound(b, letter);
    if let Some(f) = field_of(a, letter) {
        assert(a.contains(f));
        let i = choose|i: int| 0 <= i < b.len() && b[i] == f;
        let g = field_of(b, letter)->0;
        let j = choose|j: int| 0 <= j < b.len() && b[j] == g;
        if i < j {
            assert(b[j].key != seq![letter]);
        } else if j < i {
            assert(b[i].key != seq![letter]);
        }
    } else if let Some(g) = field_of(b, letter) {
        assert(a.contains(g));
        let i = choose|i: int| 0 <= i < a.len() && a[i] == g;
        assert(a[i].key == seq![letter]);
    }
}

/// Where no field has a letter as its key, none is found.
proof fn lemma_no_later(fields: Seq<FlatField>, letter: u8)
    ensures
        (forall|i: int| 0 <= i < fields.len() ==> (#[trigger] fields[i]).key != seq![letter])
            ==> field_of(fields, letter) is None,
    decreases fields.len(),
{
    if fields.len() > 0 {
        let tail = fields.skip(1);
        lemma_no_later(tail, letter);
        if forall|i: int| 0 <= i < fields.len() ==> (#[trigger] fields[i]).key != seq![letter] {
            assert forall|i: int| 0 <= i < tail.len() implies (#[trigger] tail[i]).key
                != seq![letter] by {
                assert(tail[i] == fields[i + 1]);
            }
        }
    }
}

/// A trade is made of its price, its quantity and its time, in this order; it needs
/// all three, and a time that is a number of 64 bits.
pub proof fn law_trade_needs_price_quantity_and_time(
    price: Seq<u8>,
    quantity: Seq<u8>,
    digits: Seq<u8>,
)
    ensures
        crate::bytes::unsigned_value(digits) is None ==> trade_of(
            Some(price),
            Some(quantity),
            Some(digits),
        ) is None,
        crate::bytes::unsigned_value(digits) matches Some(time) ==> {
            &&& time <= u64::MAX ==> trade_of(Some(price), Some(quantity), Some(digits)) == Some(
                (price, quantity, time as u64),
            )
            &&& time > u64::MAX ==> trade_of(Some(price), Some(quantity), Some(digits)) is None
        },
        trade_of(None, Some(quantity), Some(digits)) is None,
        trade_of(Some(price), None, Some(digits)) is None,
        trade_of(Some(price), Some(quantity), None) is None,
{
}

/// The value of a field stands between the first occurrence of its mark and the
/// first end mark after it; without either, or where it is no UTF-8, there is
/// none.
pub proof fn law_value_stands_between_its_marks(
    head: Seq<u8>,
    field: Seq<u8>,
    value: Seq<u8>,
    end: u8,
    rest: Seq<u8>,
    ends: Seq<u8>,
)
    requires
        ends.contains(end),
        forall|k: int| 0 <= k < value.len() ==> !ends.contains(#[trigger] value[k]),
        forall|j: int|
            0 <= j < head.len() ==> #[trigger] (head + field + value.push(end)
                + rest).subrange(j, j + field.len()) != field,
    ensures
        ({
            let json = head + field + value.push(end) + rest;
            &&& valid_utf8(value) ==> field_value(json, field, ends) == Some(value)
            &&& !valid_utf8(value) ==> field_value(json, field, ends) is None
        }),
{
    let json = head + field + value.push(end) + rest;
    let h = head.len() as int;
    let f = field.len() as int;
    assert(json.subrange(h, h + f) =~= field);
    assert forall|j: int| 0 <= j < h implies !crate::bytes::occurs_at(json, field, j) by {
        assert(json.subrange(j, j + field.len()) != field);
    }
    crate::bytes::lemma_first_match(json, field, 0, Some(h));
    let after = json.subrange(h + f, json.len() as int);
    assert(after =~= value.push(end) + rest);
    let v = value.len() as int;
    assert(after[v] == end);
    assert forall|j: int| 0 <= j < v implies !ends.contains(#[trigger] after[j]) by {
        assert(after[j] == value[j]);
    }
    crate::bytes::lemma_first_byte(after, ends, 0, Some(v));
    assert(after.subrange(0, v) =~= value);
}

/// Where the mark of a field stands nowhere, the field has no value.
pub proof fn law_missing_fields_have_no_value(json: Seq<u8>, field: Seq<u8>, ends: Seq<u8>)
    requires
        forall|j: int|
            0 <= j && j + field.len() <= json.len() ==> #[trigger] json.subrange(
                j,
                j + field.len(),
            ) != field,
    ensures
        field_value(json, field, ends) is None,
        after_field(json, field) is None,
{
    assert forall|j: int| 0 <= j implies !crate::bytes::occurs_at(json, field, j) by {
        if j + field.len() <= json.len() {
            assert(json.subrange(j, j + field.len()) != field);
        }
    }
    crate::bytes::lemma_first_match(json, field, 0, None);
}

/// Quoted values end at a quote; bare ones at a comma, a brace or a bracket; and
/// price, quantity and time have the marks of the stream.
pub proof fn law_marks_of_the_stream(json: Seq<u8>, field: Seq<u8>)
    ensures
        quoted_value(json, field) == field_value(json, field, seq![34u8]),
        bare_value(json, field) == field_value(json, field, seq![44u8, 125u8, 93u8]),
        price_pattern() == seq![34u8, 112u8, 34u8, 58u8, 34u8],
        quantity_pattern() == seq![34u8, 113u8, 34u8, 58u8, 34u8],
        time_pattern() == seq![34u8, 84u8, 34u8, 58u8],
        trade_in(json) == trade_of(
            field_value(json, seq![34u8, 112u8, 34u8, 58u8, 34u8], seq![34u8]),
            field_value(json, seq![34u8, 113u8, 34u8, 58u8, 34u8], seq![34u8]),
            field_value(json, seq![34u8, 84u8, 34u8, 58u8], seq![44u8, 125u8, 93u8]),
        ),
{
}

} // verus!
