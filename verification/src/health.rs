//! What the system tells of its health.

use crate::words::{begins_with, number_in, pieces, read_number, split, starts_with, views, word_list, words};
use vstd::prelude::*;

verus! {

/// The number in the second word of a line; zero where there is none.
pub open spec fn second_number(line: Seq<char>) -> u64 {
    let list = word_list(line);
    if list.len() < 2 {
        0
    } else {
        match number_in(list[1]) {
            Some(n) => n,
            None => 0,
        }
    }
}

/// Reads the number in the second word of a line.
fn read_second_number(line: &str) -> (r: u64)
    ensures
        r == second_number(line@),
{
    let all = words(line);
    proof {
        assert(views(all@).len() == all@.len());
    }
    if all.len() < 2 {
        return 0;
    }
    proof {
        assert(views(all@)[1] == all@[1]@);
    }
    match read_number(all[1]) {
        Some(n) => n,
        None => 0,
    }
}

/// The number of the last line that begins with `label`; zero without one.
pub open spec fn labelled_number(lines: Seq<Seq<char>>, label: Seq<char>) -> u64
    decreases lines.len(),
{
    if lines.len() == 0 {
        0
    } else if begins_with(lines.last(), label) {
        second_number(lines.last())
    } else {
        labelled_number(lines.drop_last(), label)
    }
}

/// Looks for the last line that begins with `label`.
fn find_labelled(lines: &Vec<&str>, label: &str) -> (r: u64)
    ensures
        r == labelled_number(views(lines@), label@),
{
    let ghost all = views(lines@);
    let mut found: u64 = 0;
    let mut i: usize = 0;
    proof {
        assert(all.len() == lines@.len());
        assert(all.take(0) =~= Seq::empty());
    }
    while i < lines.len()
        invariant
            i <= lines@.len(),
            all == views(lines@),
            all.len() == lines@.len(),
            found == labelled_number(all.take(i as int), label@),
        decreases lines@.len() - i,
    {
        proof {
            assert(all.take(i + 1).drop_last() =~= all.take(i as int));
            assert(all.take(i + 1).last() == lines@[i as int]@);
        }
        if starts_with(lines[i], label) {
            found = read_second_number(lines[i]);
        }
        i += 1;
    }
    proof {
        assert(all.take(i as int) =~= all);
    }
    found
}

/// Memory in megabytes.
#[derive(Clone, Copy, Debug, PartialEq, Eq, Structural)]
pub struct Memory {
    pub total_mb: u64,
    pub used_mb: u64,
}

/// Reads the memory from a table of lines in kilobytes; nothing where more is
/// available than there is.
pub fn read_memory(table: &str) -> (r: Option<Memory>)
    ensures
        ({
            let total = labelled_number(pieces(table@, '\n'), "MemTotal:"@);
            let available = labelled_number(pieces(table@, '\n'), "MemAvailable:"@);
            r == (if available > total {
                None
            } else {
                Some(
                    Memory {
                        total_mb: (total / 1024) as u64,
                        used_mb: ((total - available) / 1024) as u64,
                    },
                )
            })
        }),
{
    let lines = split(table, '\n');
    let total: u64 = find_labelled(&lines, "MemTotal:");
    let available: u64 = find_labelled(&lines, "MemAvailable:");
    if available > total {
        return None;
    }
    Some(Memory { total_mb: total / 1024, used_mb: (total - available) / 1024 })
}

/// The texts of the total and the used size of a disk: the second and the third
/// word of the second line, where that has four at least.
pub open spec fn disk_texts(report: Seq<char>) -> Option<(Seq<char>, Seq<char>)> {
    let lines = pieces(report, '\n');
    if lines.len() < 2 {
        None
    } else {
        let list = word_list(lines[1]);
        if list.len() < 4 {
            None
        } else {
            Some((list[1], list[2]))
        }
    }
}

/// Finds the total and the used size of a disk in a report.
pub fn disk_fields(report: &str) -> (r: Option<(&str, &str)>)
    ensures
        r is Some <==> disk_texts(report@) is Some,
        r matches Some((total, used)) ==> disk_texts(report@) == Some((total@, used@)),
{
    let lines = split(report, '\n');
    proof {
        assert(views(lines@).len() == lines@.len());
    }
    if lines.len() < 2 {
        return None;
    }
    proof {
        assert(views(lines@)[1] == lines@[1]@);
    }
    let list = words(lines[1]);
    proof {
        assert(views(list@).len() == list@.len());
    }
    if list.len() < 4 {
        return None;
    }
    proof {
        assert(views(list@)[1] == list@[1]@);
        assert(views(list@)[2] == list@[2]@);
    }
    Some((list[1], list[2]))
}

// ---------------------------------------------------------------------------
// Laws
// ---------------------------------------------------------------------------

/// The number of a line is that of its second word, and zero where it has none or
/// that is no number.
pub proof fn law_number_is_the_second_word(line: Seq<char>)
    ensures
        word_list(line).len() < 2 ==> second_number(line) == 0,
        word_list(line).len() >= 2 && number_in(word_list(line)[1]) is None ==> second_number(line)
            == 0,
        word_list(line).len() >= 2 && number_in(word_list(line)[1]) is Some ==> Some(
            second_number(line),
        ) == number_in(word_list(line)[1]),
{
}

/// The number of a label is that of the last line that begins with it, and zero
/// where no line does.
pub proof fn law_last_labelled_line_counts(lines: Seq<Seq<char>>, label: Seq<char>)
    ensures
        forall|i: int|
            0 <= i < lines.len() && begins_with(#[trigger] lines[i], label) && (forall|j: int|
                i < j < lines.len() ==> !begins_with(#[trigger] lines[j], label))
                ==> labelled_number(lines, label) == second_number(lines[i]),
        (forall|i: int| 0 <= i < lines.len() ==> !begins_with(#[trigger] lines[i], label))
            ==> labelled_number(lines, label) == 0,
    decreases lines.len(),
{
    if lines.len() > 0 {
        let before = lines.drop_last();
        let n = lines.len() - 1;
        law_last_labelled_line_counts(before, label);
        assert(lines.last() == lines[n]);
        assert forall|j: int| 0 <= j < n implies #[trigger] before[j] == lines[j] by {}
        if !begins_with(lines.last(), label) {
            assert forall|i: int|
                0 <= i < lines.len() && begins_with(#[trigger] lines[i], label) && (forall|j: int|
                    i < j < lines.len() ==> !begins_with(#[trigger] lines[j], label)) implies
                labelled_number(lines, label) == second_number(lines[i]) by {
                assert(before[i] == lines[i]);
            }
            if forall|i: int| 0 <= i < lines.len() ==> !begins_with(#[trigger] lines[i], label) {
                assert forall|i: int| 0 <= i < before.len() implies !begins_with(
                    #[trigger] before[i],
                    label,
                ) by {
                    assert(before[i] == lines[i]);
                }
            }
        }
    }
}

/// The sizes of a disk are the second and third words of the second line of its
/// report, where that line has four.
pub proof fn law_disk_sizes_stand_on_the_second_line(report: Seq<char>)
    ensures
        pieces(report, '\n').len() < 2 ==> disk_texts(report) is None,
        pieces(report, '\n').len() >= 2 ==> {
            let list = word_list(pieces(report, '\n')[1]);
            &&& list.len() < 4 ==> disk_texts(report) is None
            &&& list.len() >= 4 ==> disk_texts(report) == Some((list[1], list[2]))
        },
{
}

} // verus!
