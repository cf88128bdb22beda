use vstd::prelude::*;
use vstd::string::{StrSliceExecFns, StringExecFns};

use crate::text::views_of;
use crate::split::{pieces, split_pieces};
use crate::text::{contains_text, find_text, join_spaced, join_with_spaces};

verus! {

/// Whether a character is numeric in Unicode's sense, as
/// `char::is_numeric` decides it.
pub uninterp spec fn numeric_char(c: char) -> bool;

/// Relies on `char::is_numeric`: the answer depends on the character alone.
#[verifier::external_body]
fn char_is_numeric(c: char) -> (r: bool)
    ensures
        r == numeric_char(c),
{
    c.is_numeric()
}

pub open spec fn all_numeric(t: Seq<char>) -> bool {
    forall|i: int| 0 <= i < t.len() ==> numeric_char(#[trigger] t[i])
}

/// A token, with a number masked.
pub open spec fn masked(t: Seq<char>) -> Seq<char> {
    if all_numeric(t) {
        "<n>"@
    } else {
        t
    }
}

/// The non-empty pieces, each masked.
pub open spec fn masked_tokens(ps: Seq<Seq<char>>) -> Seq<Seq<char>>
    decreases ps.len(),
{
    if ps.len() == 0 {
        Seq::empty()
    } else if ps.last().len() == 0 {
        masked_tokens(ps.drop_last())
    } else {
        masked_tokens(ps.drop_last()).push(masked(ps.last()))
    }
}

/// A log line with its words rejoined by single spaces and each number
/// replaced by `<n>`, so that lines that differ in numbers alone coincide.
pub open spec fn normalized(line: Seq<char>) -> Seq<char> {
    join_spaced(masked_tokens(pieces(line, true)))
}

fn is_all_numeric(t: &str) -> (r: bool)
    ensures
        r == all_numeric(t@),
{
    let n = t.unicode_len();
    let mut i: usize = 0;
    while i < n
        invariant
            0 <= i <= n,
            n == t@.len(),
            forall|j: int| 0 <= j < i ==> numeric_char(#[trigger] t@[j]),
        decreases n - i,
    {
        if !char_is_numeric(t.get_char(i)) {
            return false;
        }
        i = i + 1;
    }
    true
}

/// Normalises a log line: numbers become `<n>`, runs of white space one
/// space.
pub fn normalize_trace(line: &str) -> (r: String)
    ensures
        r@ == normalized(line@),
{
    let parts = split_pieces(line, true);
    let mut tokens: Vec<String> = Vec::new();
    let mut i: usize = 0;
    while i < parts.len()
        invariant
            0 <= i <= parts@.len(),
            views_of(parts@) == pieces(line@, true),
            views_of(tokens@) == masked_tokens(views_of(parts@).take(i as int)),
        decreases parts@.len() - i,
    {
        let ghost ps = views_of(parts@);
        assert(ps.take(i + 1).drop_last() =~= ps.take(i as int));
        assert(ps.take(i + 1).last() == parts@[i as int]@);
        let part = &parts[i];
        if part.unicode_len() > 0 {
            let t = if is_all_numeric(part.as_str()) {
                String::from_str("<n>")
            } else {
                part.clone()
            };
            tokens.push(t);
            assert(views_of(tokens@) =~= masked_tokens(ps.take(i as int)).push(masked(part@)));
        }
        i = i + 1;
    }
    assert(views_of(parts@).take(i as int) =~= views_of(parts@));
    proof {
        assert(views_of(tokens@) =~= tokens@.map_values(|s: String| s@));
    }
    join_with_spaces(&tokens)
}

/// A log line that reports an error or a panic.
pub open spec fn is_error_line(line: Seq<char>) -> bool {
    contains_text(line, "ERROR"@) || contains_text(line, "panic"@)
}

/// `i` is the first position of `key` among the groups.
pub open spec fn first_group_at(groups: Seq<(Seq<char>, nat)>, key: Seq<char>, i: int) -> bool {
    0 <= i < groups.len() && groups[i].0 == key && forall|j: int|
        0 <= j < i ==> groups[j].0 != key
}

/// A count raised by one, held at the largest `usize`.
pub open spec fn raised(c: nat) -> nat {
    if c < usize::MAX {
        c + 1
    } else {
        c
    }
}

/// Counts one more occurrence of a trace: its group is raised, or a new
/// group of one is appended.
pub open spec fn count_trace(groups: Seq<(Seq<char>, nat)>, key: Seq<char>) -> Seq<(Seq<char>, nat)> {
    if exists|i: int| first_group_at(groups, key, i) {
        let i = choose|i: int| first_group_at(groups, key, i);
        groups.update(i, (key, raised(groups[i].1)))
    } else {
        groups.push((key, 1nat))
    }
}

/// The error lines grouped by normalised trace, each group with the number
/// of its lines, in the order the traces first appear.
pub open spec fn error_groups(lines: Seq<Seq<char>>) -> Seq<(Seq<char>, nat)>
    decreases lines.len(),
{
    if lines.len() == 0 {
        Seq::empty()
    } else {
        let init = error_groups(lines.drop_last());
        if is_error_line(lines.last()) {
            count_trace(init, normalized(lines.last()))
        } else {
            init
        }
    }
}

pub open spec fn groups_view(g: Seq<(String, usize)>) -> Seq<(Seq<char>, nat)> {
    g.map_values(|p: (String, usize)| (p.0@, p.1 as nat))
}

fn add_trace(groups: &mut Vec<(String, usize)>, key: String)
    ensures
        groups_view(final(groups)@) == count_trace(groups_view(old(groups)@), key@),
{
    let ghost before = groups_view(groups@);
    let mut i: usize = 0;
    while i < groups.len()
        invariant
            0 <= i <= groups@.len(),
            groups@ == old(groups)@,
            before == groups_view(groups@),
            forall|j: int| 0 <= j < i ==> before[j].0 != key@,
        decreases groups@.len() - i,
    {
        if groups[i].0 == key {
            assert(first_group_at(before, key@, i as int));
            proof {
                let c = choose|x: int| first_group_at(before, key@, x);
                assert(c == i) by {
                    if c < i {
                        assert(before[c].0 != key@);
                    }
                    if i < c {
                        assert(before[i as int].0 != key@);
                    }
                }
            }
            let n = groups[i].1.saturating_add(1);
            groups.set(i, (key, n));
            assert(groups_view(groups@) =~= before.update(
                i as int,
                (key@, raised(before[i as int].1)),
            ));
            return;
        }
        i = i + 1;
    }
    assert(!(exists|x: int| first_group_at(before, key@, x)));
    groups.push((key, 1));
    assert(groups_view(groups@) =~= before.push((key@, 1nat)));
}

/// Groups the error lines of a log by normalised trace and counts them.
pub fn group_error_lines(content: &str) -> (r: Vec<(String, usize)>)
    ensures
        groups_view(r@) == error_groups(pieces(content@, false)),
{
    let lines = split_pieces(content, false);
    let mut groups: Vec<(String, usize)> = Vec::new();
    let mut i: usize = 0;
    while i < lines.len()
        invariant
            0 <= i <= lines@.len(),
            views_of(lines@) == pieces(content@, false),
            groups_view(groups@) == error_groups(views_of(lines@).take(i as int)),
        decreases lines@.len() - i,
    {
        let ghost ls = views_of(lines@);
        assert(ls.take(i + 1).drop_last() =~= ls.take(i as int));
        assert(ls.take(i + 1).last() == lines@[i as int]@);
        let line = lines[i].as_str();
        if find_text(line, "ERROR") || find_text(line, "panic") {
            add_trace(&mut groups, normalize_trace(line));
        }
        i = i + 1;
    }
    assert(views_of(lines@).take(i as int) =~= views_of(lines@));
    groups
}

/// The traces of `current` that `previous` does not hold, in order.
pub open spec fn unseen(current: Seq<Seq<char>>, previous: Seq<Seq<char>>) -> Seq<Seq<char>>
    decreases current.len(),
{
    if current.len() == 0 {
        Seq::empty()
    } else {
        let init = unseen(current.drop_last(), previous);
        if previous.contains(current.last()) {
            init
        } else {
            init.push(current.last())
        }
    }
}

fn holds_text(items: &Vec<String>, s: &String) -> (r: bool)
    ensures
        r == views_of(items@).contains(s@),
{
    let mut i: usize = 0;
    while i < items.len()
        invariant
            0 <= i <= items@.len(),
            forall|j: int| 0 <= j < i ==> items@[j]@ != s@,
        decreases items@.len() - i,
    {
        if items[i] == *s {
            assert(views_of(items@)[i as int] == s@);
            return true;
        }
        i = i + 1;
    }
    assert forall|j: int| 0 <= j < views_of(items@).len() implies #[trigger] views_of(items@)[j]
        != s@ by {
        assert(views_of(items@)[j] == items@[j]@);
    }
    false
}

/// The traces seen now that were not seen on the previous run.
pub fn new_traces(current: &Vec<String>, previous: &Vec<String>) -> (r: Vec<String>)
    ensures
        views_of(r@) == unseen(views_of(current@), views_of(previous@)),
{
    let mut out: Vec<String> = Vec::new();
    let mut i: usize = 0;
    while i < current.len()
        invariant
            0 <= i <= current@.len(),
            views_of(out@) == unseen(views_of(current@).take(i as int), views_of(previous@)),
        decreases current@.len() - i,
    {
        let ghost cs = views_of(current@);
        assert(cs.take(i + 1).drop_last() =~= cs.take(i as int));
        assert(cs.take(i + 1).last() == current@[i as int]@);
        if !holds_text(previous, &current[i]) {
            out.push(current[i].clone());
            assert(views_of(out@) =~= unseen(cs.take(i as int), views_of(previous@)).push(
                current@[i as int]@,
            ));
        }
        i = i + 1;
    }
    assert(views_of(current@).take(i as int) =~= views_of(current@));
    out
}

} // verus!
