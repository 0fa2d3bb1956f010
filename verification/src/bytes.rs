//! Searching and reading byte strings.

use vstd::prelude::*;
use vstd::slice::slice_subrange;
use vstd::utf8::*;

verus! {

/// Whether `needle` stands at index `i` of `haystack`.
pub open spec fn occurs_at(haystack: Seq<u8>, needle: Seq<u8>, i: int) -> bool {
    0 <= i && i + needle.len() <= haystack.len() && haystack.subrange(i, i + needle.len())
        == needle
}

/// The first index at or after `from` where `needle` stands.
pub open spec fn first_match(haystack: Seq<u8>, needle: Seq<u8>, from: int) -> Option<int>
    decreases haystack.len() + 1 - from,
{
    if from < 0 || from + needle.len() > haystack.len() {
        None
    } else if occurs_at(haystack, needle, from) {
        Some(from)
    } else {
        first_match(haystack, needle, from + 1)
    }
}

/// The first index at or after `from` whose byte is one of `wanted`.
pub open spec fn first_byte(haystack: Seq<u8>, wanted: Seq<u8>, from: int) -> Option<int>
    decreases haystack.len() - from,
{
    if from < 0 || from >= haystack.len() {
        None
    } else if wanted.contains(haystack[from]) {
        Some(from)
    } else {
        first_byte(haystack, wanted, from + 1)
    }
}

/// What an index found by a forward search of `needle` means.
pub proof fn lemma_first_match(haystack: Seq<u8>, needle: Seq<u8>, from: int, found: Option<int>)
    requires
        0 <= from,
        match found {
            Some(i) => from <= i && occurs_at(haystack, needle, i) && forall|j: int|
                from <= j < i ==> !occurs_at(haystack, needle, j),
            None => forall|j: int| from <= j ==> !occurs_at(haystack, needle, j),
        },
    ensures
        first_match(haystack, needle, from) == found,
    decreases haystack.len() + 1 - from,
{
    if from + needle.len() <= haystack.len() && !occurs_at(haystack, needle, from) {
        lemma_first_match(haystack, needle, from + 1, found);
    }
}

/// What an index found by a forward search for bytes means.
pub proof fn lemma_first_byte(haystack: Seq<u8>, wanted: Seq<u8>, from: int, found: Option<int>)
    requires
        0 <= from,
        match found {
            Some(i) => from <= i < haystack.len() && wanted.contains(haystack[i]) && forall|j: int|
                from <= j < i ==> !wanted.contains(#[trigger] haystack[j]),
            None => forall|j: int|
                from <= j < haystack.len() ==> !wanted.contains(#[trigger] haystack[j]),
        },
    ensures
        first_byte(haystack, wanted, from) == found,
    decreases haystack.len() - from,
{
    if from < haystack.len() && !wanted.contains(haystack[from]) {
        lemma_first_byte(haystack, wanted, from + 1, found);
    }
}

/// `memchr::memmem::find`: the index of the first occurrence of the needle.
#[verifier::external_body]
fn memmem_find(haystack: &[u8], needle: &[u8]) -> (r: Option<usize>)
    ensures
        match r {
            Some(i) => occurs_at(haystack@, needle@, i as int) && forall|j: int|
                0 <= j < i ==> !occurs_at(haystack@, needle@, j),
            None => forall|j: int| 0 <= j ==> !occurs_at(haystack@, needle@, j),
        },
{
    memchr::memmem::find(haystack, needle)
}

/// `memchr::memchr`: the index of the first occurrence of a byte.
#[verifier::external_body]
fn memchr_find(needle: u8, haystack: &[u8]) -> (r: Option<usize>)
    ensures
        match r {
            Some(i) => i < haystack@.len() && haystack@[i as int] == needle && forall|j: int|
                0 <= j < i ==> #[trigger] haystack@[j] != needle,
            None => forall|j: int| 0 <= j < haystack@.len() ==> #[trigger] haystack@[j] != needle,
        },
{
    memchr::memchr(needle, haystack)
}

/// `std::str::from_utf8`: the text that the bytes encode, where they are UTF-8.
#[verifier::external_body]
fn utf8_text(bytes: &[u8]) -> (r: Option<&str>)
    ensures
        match r {
            Some(s) => valid_utf8(bytes@) && encode_utf8(s@) == bytes@,
            None => !valid_utf8(bytes@),
        },
{
    std::str::from_utf8(bytes).ok()
}

/// The index of the first occurrence of `needle`.
pub fn find(haystack: &[u8], needle: &[u8]) -> (r: Option<usize>)
    ensures
        match r {
            Some(i) => first_match(haystack@, needle@, 0) == Some(i as int) && i + needle@.len()
                <= haystack@.len(),
            None => first_match(haystack@, needle@, 0) is None,
        },
{
    let r = memmem_find(haystack, needle);
    proof {
        lemma_first_match(
            haystack@,
            needle@,
            0,
            match r {
                Some(i) => Some(i as int),
                None => None,
            },
        );
    }
    r
}

/// The index of the first occurrence of one byte.
pub fn find_byte(haystack: &[u8], needle: u8) -> (r: Option<usize>)
    ensures
        match r {
            Some(i) => first_byte(haystack@, seq![needle], 0) == Some(i as int) && i
                < haystack@.len(),
            None => first_byte(haystack@, seq![needle], 0) is None,
        },
{
    let r = memchr_find(needle, haystack);
    proof {
        let wanted = seq![needle];
        assert(wanted[0] == needle);
        assert forall|b: u8| wanted.contains(b) <==> b == needle by {
            if b == needle {
                assert(wanted[0] == b);
            }
        }
        lemma_first_byte(
            haystack@,
            wanted,
            0,
            match r {
                Some(i) => Some(i as int),
                None => None,
            },
        );
    }
    r
}

/// The index of the first byte that is one of three.
pub fn find_any_of_three(haystack: &[u8], a: u8, b: u8, c: u8) -> (r: Option<usize>)
    ensures
        match r {
            Some(i) => first_byte(haystack@, seq![a, b, c], 0) == Some(i as int) && i
                < haystack@.len(),
            None => first_byte(haystack@, seq![a, b, c], 0) is None,
        },
{
    let ghost wanted = seq![a, b, c];
    proof {
        assert forall|x: u8| wanted.contains(x) <==> (x == a || x == b || x == c) by {
            if x == a {
                assert(wanted[0] == x);
            } else if x == b {
                assert(wanted[1] == x);
            } else if x == c {
                assert(wanted[2] == x);
            }
        }
    }
    let mut i: usize = 0;
    while i < haystack.len()
        invariant
            i <= haystack@.len(),
            wanted == seq![a, b, c],
            forall|x: u8| wanted.contains(x) <==> (x == a || x == b || x == c),
            forall|j: int| 0 <= j < i ==> !wanted.contains(#[trigger] haystack@[j]),
        decreases haystack@.len() - i,
    {
        let x = haystack[i];
        if x == a || x == b || x == c {
            proof {
                lemma_first_byte(haystack@, wanted, 0, Some(i as int));
            }
            return Some(i);
        }
        i += 1;
    }
    proof {
        lemma_first_byte(haystack@, wanted, 0, None);
    }
    None
}

/// The text that bytes encode, where they are UTF-8.
pub fn text_of(bytes: &[u8]) -> (r: Option<&str>)
    ensures
        r is Some <==> valid_utf8(bytes@),
        r matches Some(s) ==> encode_utf8(s@) == bytes@,
{
    utf8_text(bytes)
}

// ---------------------------------------------------------------------------
// Integers
// ---------------------------------------------------------------------------

/// Whether all bytes are decimal digits.
pub open spec fn all_digits(bytes: Seq<u8>) -> bool {
    forall|i: int| 0 <= i < bytes.len() ==> 48 <= #[trigger] bytes[i] <= 57
}

/// The number that decimal digits denote.
pub open spec fn digits_value(bytes: Seq<u8>) -> int
    decreases bytes.len(),
{
    if bytes.len() == 0 {
        0
    } else {
        digits_value(bytes.drop_last()) * 10 + (bytes.last() - 48)
    }
}

/// The number of at least one decimal digit.
pub open spec fn digits_number(bytes: Seq<u8>) -> Option<int> {
    if bytes.len() > 0 && all_digits(bytes) {
        Some(digits_value(bytes))
    } else {
        None
    }
}

/// The unsigned number that a text denotes: digits, with or without a `+`
/// before them.
pub open spec fn unsigned_value(bytes: Seq<u8>) -> Option<int> {
    if bytes.len() > 0 && bytes[0] == 43 {
        digits_number(bytes.subrange(1, bytes.len() as int))
    } else {
        digits_number(bytes)
    }
}

/// The signed number that a text denotes: digits, with or without a sign before
/// them.
pub open spec fn signed_value(bytes: Seq<u8>) -> Option<int> {
    if bytes.len() > 0 && bytes[0] == 45 {
        match digits_number(bytes.subrange(1, bytes.len() as int)) {
            Some(n) => Some(-n),
            None => None,
        }
    } else {
        unsigned_value(bytes)
    }
}

/// Reads at least one decimal digit, as far as the number fits.
fn read_digits(bytes: &[u8]) -> (r: Option<u64>)
    ensures
        match r {
            Some(v) => digits_number(bytes@) == Some(v as int),
            None => digits_number(bytes@) matches Some(n) ==> n > u64::MAX,
        },
{
    if bytes.len() == 0 {
        return None;
    }
    let mut total: u64 = 0;
    let mut i: usize = 0;
    let mut fits: bool = true;
    while i < bytes.len()
        invariant
            i <= bytes@.len(),
            bytes@.len() > 0,
            forall|j: int| 0 <= j < i ==> 48 <= #[trigger] bytes@[j] <= 57,
            fits ==> total == digits_value(bytes@.subrange(0, i as int)),
            !fits ==> digits_value(bytes@.subrange(0, i as int)) > u64::MAX,
        decreases bytes@.len() - i,
    {
        let b = bytes[i];
        if b < 48 || b > 57 {
            assert(!all_digits(bytes@));
            return None;
        }
        proof {
            let next = bytes@.subrange(0, i + 1);
            assert(next.drop_last() =~= bytes@.subrange(0, i as int));
            assert(next.last() == b);
            assert(digits_value(next) == digits_value(bytes@.subrange(0, i as int)) * 10 + (b
                - 48));
        }
        if fits {
            match total.checked_mul(10) {
                Some(tenfold) => {
                    match tenfold.checked_add((b - 48) as u64) {
                        Some(sum) => {
                            total = sum;
                        },
                        None => {
                            fits = false;
                        },
                    }
                },
                None => {
                    fits = false;
                },
            }
        }
        i += 1;
    }
    assert(bytes@.subrange(0, i as int) =~= bytes@);
    assert(all_digits(bytes@));
    if fits {
        Some(total)
    } else {
        None
    }
}

/// Reads an unsigned number, as far as it fits.
pub fn parse_u64(bytes: &[u8]) -> (r: Option<u64>)
    ensures
        match r {
            Some(v) => unsigned_value(bytes@) == Some(v as int),
            None => unsigned_value(bytes@) matches Some(n) ==> n > u64::MAX,
        },
{
    if bytes.len() > 0 && bytes[0] == 43 {
        read_digits(slice_subrange(bytes, 1, bytes.len()))
    } else {
        read_digits(bytes)
    }
}

/// Reads a signed number, as far as it fits.
pub fn parse_i64(bytes: &[u8]) -> (r: Option<i64>)
    ensures
        match r {
            Some(v) => signed_value(bytes@) == Some(v as int),
            None => signed_value(bytes@) matches Some(n) ==> n < i64::MIN || n > i64::MAX,
        },
{
    if bytes.len() > 0 && bytes[0] == 45 {
        let rest = slice_subrange(bytes, 1, bytes.len());
        match read_digits(rest) {
            Some(n) => {
                if n <= 0x7fff_ffff_ffff_ffff {
                    Some(-(n as i64))
                } else if n == 0x8000_0000_0000_0000 {
                    Some(i64::MIN)
                } else {
                    None
                }
            },
            None => None,
        }
    } else {
        match parse_u64(bytes) {
            Some(n) => {
                if n <= 0x7fff_ffff_ffff_ffff {
                    Some(n as i64)
                } else {
                    None
                }
            },
            None => None,
        }
    }
}

// ---------------------------------------------------------------------------
// Laws
// ---------------------------------------------------------------------------

/// A search finds the first place at which the needle stands, and nothing exactly
/// where it stands nowhere.
pub proof fn law_search_finds_the_first(haystack: Seq<u8>, needle: Seq<u8>, from: int)
    requires
        0 <= from,
    ensures
        match first_match(haystack, needle, from) {
            Some(i) => {
                &&& from <= i
                &&& i + needle.len() <= haystack.len()
                &&& haystack.subrange(i, i + needle.len()) == needle
                &&& forall|j: int|
                    from <= j < i ==> #[trigger] haystack.subrange(j, j + needle.len()) != needle
            },
            None => forall|j: int|
                from <= j && j + needle.len() <= haystack.len() ==> #[trigger] haystack.subrange(
                    j,
                    j + needle.len(),
                ) != needle,
        },
    decreases haystack.len() + 1 - from,
{
    if from + needle.len() <= haystack.len() && !occurs_at(haystack, needle, from) {
        law_search_finds_the_first(haystack, needle, from + 1);
    }
}

/// A search for bytes finds the first one that is wanted, and nothing exactly
/// where none is.
pub proof fn law_byte_search_finds_the_first(haystack: Seq<u8>, wanted: Seq<u8>, from: int)
    requires
        0 <= from,
    ensures
        match first_byte(haystack, wanted, from) {
            Some(i) => {
                &&& from <= i < haystack.len()
                &&& wanted.contains(haystack[i])
                &&& forall|j: int| from <= j < i ==> !wanted.contains(#[trigger] haystack[j])
            },
            None => forall|j: int|
                from <= j < haystack.len() ==> !wanted.contains(#[trigger] haystack[j]),
        },
    decreases haystack.len() - from,
{
    if from < haystack.len() && !wanted.contains(haystack[from]) {
        law_byte_search_finds_the_first(haystack, wanted, from + 1);
    }
}

/// Digits are read from the left, each worth ten times the next; a text that is
/// empty or has anything else in it is no number.
pub proof fn law_digits_have_their_places(bytes: Seq<u8>, b: u8)
    ensures
        digits_value(Seq::<u8>::empty()) == 0,
        digits_value(bytes.push(b)) == 10 * digits_value(bytes) + (b - 48),
        digits_number(Seq::<u8>::empty()) is None,
        b < 48 || b > 57 ==> digits_number(bytes.push(b)) is None,
        48 <= b <= 57 ==> digits_number(seq![b]) == Some(b - 48),
        48 <= b <= 57 && digits_number(bytes) is Some ==> digits_number(bytes.push(b)) == Some(
            10 * digits_number(bytes)->0 + (b - 48),
        ),
{
    assert(bytes.push(b).drop_last() =~= bytes);
    assert(bytes.push(b)[bytes.len() as int] == b);
    assert(seq![b].drop_last() =~= Seq::<u8>::empty());
    assert(digits_value(seq![b]) == 10 * digits_value(Seq::<u8>::empty()) + (b - 48));
    if 48 <= b <= 57 && digits_number(bytes) is Some {
        assert forall|i: int| 0 <= i < bytes.push(b).len() implies 48 <= #[trigger] bytes.push(
            b,
        )[i] <= 57 by {
            if i < bytes.len() {
                assert(bytes.push(b)[i] == bytes[i]);
            }
        }
    }
}

/// A plus sign before digits changes nothing, a minus sign makes the number
/// negative where one may stand, and a second sign makes it no number.
pub proof fn law_signs_stand_before_digits(bytes: Seq<u8>)
    ensures
        unsigned_value(seq![43u8] + bytes) == digits_number(bytes),
        signed_value(seq![43u8] + bytes) == digits_number(bytes),
        digits_number(bytes) matches Some(n) ==> signed_value(seq![45u8] + bytes) == Some(-n),
        digits_number(bytes) is None ==> signed_value(seq![45u8] + bytes) is None,
        unsigned_value(seq![45u8] + bytes) is None,
        bytes.len() > 0 && bytes[0] != 43 ==> unsigned_value(bytes) == digits_number(bytes),
        bytes.len() > 0 && bytes[0] != 43 && bytes[0] != 45 ==> signed_value(bytes)
            == digits_number(bytes),
        unsigned_value(Seq::<u8>::empty()) is None,
        signed_value(Seq::<u8>::empty()) is None,
{
    let plus = seq![43u8] + bytes;
    let minus = seq![45u8] + bytes;
    assert(plus.subrange(1, plus.len() as int) =~= bytes);
    assert(minus.subrange(1, minus.len() as int) =~= bytes);
    assert(minus[0] == 45);
}

} // verus!
