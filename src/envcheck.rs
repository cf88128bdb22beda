use vstd::prelude::*;
use vstd::string::{StrSliceExecFns, StringExecFns};

use crate::text::views_of;
use crate::split::{pieces, split_pieces, trim_text, trimmed};

verus! {

/// One way a variable of the environment breaks its schema.
#[derive(Debug, Clone)]
pub struct EnvIssue {
    pub key: String,
    pub reason: String,
}

impl View for EnvIssue {
    type V = (Seq<char>, Seq<char>);

    open spec fn view(&self) -> (Seq<char>, Seq<char>) {
        (self.key@, self.reason@)
    }
}

/// The views of a list of key/value pairs.
pub open spec fn pairs_view(v: Seq<(String, String)>) -> Seq<(Seq<char>, Seq<char>)> {
    v.map_values(|p: (String, String)| (p.0@, p.1@))
}

/// No key occurs twice, as in a map.
pub open spec fn keys_unique(entries: Seq<(Seq<char>, Seq<char>)>) -> bool {
    forall|i: int, j: int|
        0 <= i < j < entries.len() ==> #[trigger] entries[i].0 != #[trigger] entries[j].0
}

/// Whether no key occurs twice.
pub fn has_unique_keys(entries: &Vec<(String, String)>) -> (r: bool)
    ensures
        r == keys_unique(pairs_view(entries@)),
{
    let ghost e = pairs_view(entries@);
    let mut j: usize = 0;
    while j < entries.len()
        invariant
            0 <= j <= entries@.len(),
            e == pairs_view(entries@),
            forall|a: int, b: int| 0 <= a < b < j ==> #[trigger] e[a].0 != #[trigger] e[b].0,
        decreases entries@.len() - j,
    {
        let mut i: usize = 0;
        while i < j
            invariant
                0 <= i <= j < entries@.len(),
                e == pairs_view(entries@),
                forall|a: int, b: int| 0 <= a < b < j ==> #[trigger] e[a].0 != #[trigger] e[b].0,
                forall|a: int| 0 <= a < i ==> #[trigger] e[a].0 != e[j as int].0,
            decreases j - i,
        {
            if entries[i].0 == entries[j].0 {
                assert(e[i as int].0 == e[j as int].0);
                return false;
            }
            i = i + 1;
        }
        j = j + 1;
    }
    true
}

pub open spec fn is_digit(c: char) -> bool {
    '0' <= c && c <= '9'
}

pub open spec fn all_digits(d: Seq<char>) -> bool {
    forall|i: int| 0 <= i < d.len() ==> is_digit(#[trigger] d[i])
}

/// The value of a string of decimal digits.
pub open spec fn digits_value(d: Seq<char>) -> int
    decreases d.len(),
{
    if d.len() == 0 {
        0
    } else {
        digits_value(d.drop_last()) * 10 + (d.last() as int - '0' as int)
    }
}

/// Text that `i64` parses: an optional sign, then one or more decimal
/// digits, of a value in range.
pub open spec fn is_i64_text(s: Seq<char>) -> bool {
    if s.len() > 0 && s[0] == '-' {
        let d = s.subrange(1, s.len() as int);
        d.len() > 0 && all_digits(d) && -digits_value(d) >= i64::MIN
    } else if s.len() > 0 && s[0] == '+' {
        let d = s.subrange(1, s.len() as int);
        d.len() > 0 && all_digits(d) && digits_value(d) <= i64::MAX
    } else {
        s.len() > 0 && all_digits(s) && digits_value(s) <= i64::MAX
    }
}

/// Text that `bool` parses.
pub open spec fn is_bool_text(s: Seq<char>) -> bool {
    s == "true"@ || s == "false"@
}

/// Relies on `<i64 as FromStr>::from_str`: an optional `+` or `-`, then
/// decimal digits whose value fits.
#[verifier::external_body]
fn parses_as_i64(s: &str) -> (r: bool)
    ensures
        r == is_i64_text(s@),
{
    s.parse::<i64>().is_ok()
}

/// Relies on `<bool as FromStr>::from_str`: exactly `true` or `false`.
#[verifier::external_body]
fn parses_as_bool(s: &str) -> (r: bool)
    ensures
        r == is_bool_text(s@),
{
    s.parse::<bool>().is_ok()
}

/// The value of the first entry with the key, if any.
pub open spec fn lookup(entries: Seq<(Seq<char>, Seq<char>)>, key: Seq<char>) -> Option<Seq<char>>
    decreases entries.len(),
{
    if entries.len() == 0 {
        None
    } else if entries[0].0 == key {
        Some(entries[0].1)
    } else {
        lookup(entries.drop_first(), key)
    }
}

/// What is wrong with a value of a declared type, if anything.
pub open spec fn issue_of(typ: Seq<char>, value: Option<Seq<char>>) -> Option<Seq<char>> {
    match value {
        None => Some("missing"@),
        Some(v) => if typ == "int"@ && !is_i64_text(v) {
            Some("expected int"@)
        } else if typ == "bool"@ && !is_bool_text(v) {
            Some("expected bool"@)
        } else {
            None
        },
    }
}

/// The issues of an environment against a schema, in schema order.
pub open spec fn schema_issues(
    schema: Seq<(Seq<char>, Seq<char>)>,
    actual: Seq<(Seq<char>, Seq<char>)>,
) -> Seq<(Seq<char>, Seq<char>)>
    decreases schema.len(),
{
    if schema.len() == 0 {
        Seq::empty()
    } else {
        let init = schema_issues(schema.drop_last(), actual);
        let (key, typ) = schema.last();
        match issue_of(typ, lookup(actual, key)) {
            Some(reason) => init.push((key, reason)),
            None => init,
        }
    }
}

proof fn lemma_issue_keys_from_schema(
    schema: Seq<(Seq<char>, Seq<char>)>,
    actual: Seq<(Seq<char>, Seq<char>)>,
)
    ensures
        forall|i: int|
            0 <= i < schema_issues(schema, actual).len() ==> exists|j: int|
                0 <= j < schema.len() && schema[j].0 == #[trigger] schema_issues(
                    schema,
                    actual,
                )[i].0,
    decreases schema.len(),
{
    if schema.len() > 0 {
        lemma_issue_keys_from_schema(schema.drop_last(), actual);
        let init = schema_issues(schema.drop_last(), actual);
        let r = schema_issues(schema, actual);
        assert forall|i: int| 0 <= i < r.len() implies exists|j: int|
            0 <= j < schema.len() && schema[j].0 == #[trigger] r[i].0 by {
            if i < init.len() {
                assert(r[i] == init[i]);
                let j = choose|j: int|
                    0 <= j < schema.drop_last().len() && schema.drop_last()[j].0 == init[i].0;
                assert(schema[j] == schema.drop_last()[j]);
            } else {
                assert(r[i].0 == schema.last().0);
                assert(schema[schema.len() - 1].0 == r[i].0);
            }
        }
    }
}

/// A schema with unique keys gives issues with unique keys.
pub proof fn lemma_issues_keys_unique(
    schema: Seq<(Seq<char>, Seq<char>)>,
    actual: Seq<(Seq<char>, Seq<char>)>,
)
    requires
        keys_unique(schema),
    ensures
        keys_unique(schema_issues(schema, actual)),
    decreases schema.len(),
{
    if schema.len() > 0 {
        let prefix = schema.drop_last();
        assert(keys_unique(prefix)) by {
            assert forall|i: int, j: int| 0 <= i < j < prefix.len() implies #[trigger] prefix[i].0
                != #[trigger] prefix[j].0 by {
                assert(prefix[i] == schema[i] && prefix[j] == schema[j]);
            }
        }
        lemma_issues_keys_unique(prefix, actual);
        lemma_issue_keys_from_schema(prefix, actual);
        let init = schema_issues(prefix, actual);
        let r = schema_issues(schema, actual);
        assert forall|i: int, j: int| 0 <= i < j < r.len() implies #[trigger] r[i].0
            != #[trigger] r[j].0 by {
            if j < init.len() {
                assert(r[i] == init[i] && r[j] == init[j]);
            } else {
                assert(r[i] == init[i]);
                let k = choose|k: int| 0 <= k < prefix.len() && prefix[k].0 == init[i].0;
                assert(prefix[k] == schema[k]);
                assert(r[j].0 == schema[schema.len() - 1].0);
            }
        }
    }
}

fn find_value<'a>(actual: &'a Vec<(String, String)>, key: &String) -> (r: Option<&'a String>)
    ensures
        match r {
            Some(v) => lookup(pairs_view(actual@), key@) == Some(v@),
            None => lookup(pairs_view(actual@), key@) is None,
        },
{
    let mut i: usize = 0;
    assert(pairs_view(actual@).skip(0) =~= pairs_view(actual@));
    while i < actual.len()
        invariant
            0 <= i <= actual@.len(),
            lookup(pairs_view(actual@), key@) == lookup(pairs_view(actual@).skip(i as int), key@),
        decreases actual@.len() - i,
    {
        let ghost rest = pairs_view(actual@).skip(i as int);
        assert(rest.drop_first() =~= pairs_view(actual@).skip(i + 1));
        if actual[i].0 == *key {
            return Some(&actual[i].1);
        }
        i = i + 1;
    }
    None
}

/// Checks an environment against a schema of declared types: a key that is
/// absent is `missing`; a value declared `int` or `bool` that does not parse
/// as one is reported as such.
pub fn validate_env_schema(schema: &Vec<(String, String)>, actual: &Vec<(String, String)>) -> (r:
    Vec<EnvIssue>)
    requires
        keys_unique(pairs_view(schema@)),
    ensures
        r@.map_values(|i: EnvIssue| i@) == schema_issues(pairs_view(schema@), pairs_view(actual@)),
        keys_unique(r@.map_values(|i: EnvIssue| i@)),
{
    proof {
        lemma_issues_keys_unique(pairs_view(schema@), pairs_view(actual@));
    }
    let mut issues: Vec<EnvIssue> = Vec::new();
    let mut i: usize = 0;
    while i < schema.len()
        invariant
            0 <= i <= schema@.len(),
            issues@.map_values(|i: EnvIssue| i@) == schema_issues(
                pairs_view(schema@).take(i as int),
                pairs_view(actual@),
            ),
        decreases schema@.len() - i,
    {
        let key = &schema[i].0;
        let typ = &schema[i].1;
        let ghost before = issues@.map_values(|i: EnvIssue| i@);
        proof {
            let s = pairs_view(schema@);
            assert(s.take(i + 1).drop_last() =~= s.take(i as int));
            assert(s.take(i + 1).last() == (key@, typ@));
        }
        let reason: Option<String> = match find_value(actual, key) {
            None => Some(String::from_str("missing")),
            Some(value) => {
                if *typ == String::from_str("int") && !parses_as_i64(value.as_str()) {
                    Some(String::from_str("expected int"))
                } else if *typ == String::from_str("bool") && !parses_as_bool(value.as_str()) {
                    Some(String::from_str("expected bool"))
                } else {
                    None
                }
            },
        };
        match reason {
            Some(reason) => {
                issues.push(EnvIssue { key: key.clone(), reason });
                assert(issues@.map_values(|i: EnvIssue| i@) =~= before.push(
                    issues@[issues@.len() - 1]@,
                ));
            },
            None => {},
        }
        i = i + 1;
    }
    assert(pairs_view(schema@).take(i as int) =~= pairs_view(schema@));
    issues
}

/// `e` is the position of the first `=` of `t`.
pub open spec fn first_eq_at(t: Seq<char>, e: int) -> bool {
    0 <= e < t.len() && t[e] == '=' && forall|j: int| 0 <= j < e ==> t[j] != '='
}

/// The assignment a line of a dotenv file makes, if any: blank lines,
/// comments and lines without `=` make none; else the key is the trimmed
/// text before the first `=`, the value the trimmed text after it.
pub open spec fn dotenv_assignment(line: Seq<char>) -> Option<(Seq<char>, Seq<char>)> {
    let t = trimmed(line);
    if t.len() == 0 || t[0] == '#' || !(exists|e: int| first_eq_at(t, e)) {
        None
    } else {
        let e = choose|e: int| first_eq_at(t, e);
        Some((trimmed(t.subrange(0, e)), trimmed(t.subrange(e + 1, t.len() as int))))
    }
}

/// `i` is the first position of `key` in `entries`.
pub open spec fn first_key_at(entries: Seq<(Seq<char>, Seq<char>)>, key: Seq<char>, i: int) -> bool {
    0 <= i < entries.len() && entries[i].0 == key && forall|j: int|
        0 <= j < i ==> entries[j].0 != key
}

/// Sets a key: the value of its first entry is replaced, or the pair is
/// appended.
pub open spec fn upsert(entries: Seq<(Seq<char>, Seq<char>)>, key: Seq<char>, value: Seq<char>) -> Seq<
    (Seq<char>, Seq<char>),
> {
    if exists|i: int| first_key_at(entries, key, i) {
        let i = choose|i: int| first_key_at(entries, key, i);
        entries.update(i, (key, value))
    } else {
        entries.push((key, value))
    }
}

/// The variables a sequence of lines sets; a later assignment of a key
/// overrides an earlier one.
pub open spec fn dotenv_vars(lines: Seq<Seq<char>>) -> Seq<(Seq<char>, Seq<char>)>
    decreases lines.len(),
{
    if lines.len() == 0 {
        Seq::empty()
    } else {
        let init = dotenv_vars(lines.drop_last());
        match dotenv_assignment(lines.last()) {
            Some((k, v)) => upsert(init, k, v),
            None => init,
        }
    }
}

/// The assignment a line makes, if any.
pub fn parse_dotenv_line(line: &str) -> (r: Option<(String, String)>)
    ensures
        match r {
            Some((k, v)) => dotenv_assignment(line@) == Some((k@, v@)),
            None => dotenv_assignment(line@) is None,
        },
{
    let t = trim_text(line);
    let n = t.unicode_len();
    if n == 0 || t.as_str().get_char(0) == '#' {
        return None;
    }
    let mut e: usize = 0;
    while e < n && t.as_str().get_char(e) != '='
        invariant
            0 <= e <= n,
            n == t@.len(),
            forall|j: int| 0 <= j < e ==> t@[j] != '=',
        decreases n - e,
    {
        e = e + 1;
    }
    if e == n {
        assert(!(exists|x: int| first_eq_at(t@, x)));
        return None;
    }
    assert(first_eq_at(t@, e as int));
    proof {
        let c = choose|x: int| first_eq_at(t@, x);
        assert(c == e) by {
            if c < e {
                assert(t@[c] != '=');
            }
            if e < c {
                assert(t@[e as int] != '=');
            }
        }
    }
    let key = trim_text(t.as_str().substring_char(0, e));
    let value = trim_text(t.as_str().substring_char(e + 1, n));
    Some((key, value))
}

fn set_var(entries: &mut Vec<(String, String)>, key: String, value: String)
    requires
        keys_unique(pairs_view(old(entries)@)),
    ensures
        pairs_view(final(entries)@) == upsert(pairs_view(old(entries)@), key@, value@),
        keys_unique(pairs_view(final(entries)@)),
{
    let ghost before = pairs_view(entries@);
    let mut i: usize = 0;
    while i < entries.len()
        invariant
            0 <= i <= entries@.len(),
            entries@ == old(entries)@,
            before == pairs_view(entries@),
            keys_unique(before),
            forall|j: int| 0 <= j < i ==> before[j].0 != key@,
        decreases entries@.len() - i,
    {
        if entries[i].0 == key {
            assert(first_key_at(before, key@, i as int));
            proof {
                let c = choose|x: int| first_key_at(before, key@, x);
                assert(c == i) by {
                    if c < i {
                        assert(before[c].0 != key@);
                    }
                    if i < c {
                        assert(before[i as int].0 != key@);
                    }
                }
            }
            assert(before[i as int].0 == key@);
            entries.set(i, (key, value));
            assert(pairs_view(entries@) =~= before.update(i as int, (key@, value@)));
            assert forall|a: int, b: int| 0 <= a < b < pairs_view(entries@).len() implies #[trigger] pairs_view(entries@)[a].0
                != #[trigger] pairs_view(entries@)[b].0 by {
                assert(pairs_view(entries@)[a].0 == before[a].0);
                assert(pairs_view(entries@)[b].0 == before[b].0);
                assert(before[a].0 != before[b].0);
            }
            return;
        }
        i = i + 1;
    }
    assert(!(exists|x: int| first_key_at(before, key@, x)));
    entries.push((key, value));
    assert(pairs_view(entries@) =~= before.push((key@, value@)));
    assert forall|a: int, b: int| 0 <= a < b < pairs_view(entries@).len() implies #[trigger] pairs_view(entries@)[a].0
        != #[trigger] pairs_view(entries@)[b].0 by {
        assert(pairs_view(entries@)[a].0 == before[a].0);
        if b < before.len() {
            assert(pairs_view(entries@)[b].0 == before[b].0);
            assert(before[a].0 != before[b].0);
        }
    }
}

/// The variables a dotenv text sets, in the order they first appear; each
/// once.
pub fn parse_dotenv_text(content: &str) -> (r: Vec<(String, String)>)
    ensures
        pairs_view(r@) == dotenv_vars(pieces(content@, false)),
        keys_unique(pairs_view(r@)),
{
    let lines = split_pieces(content, false);
    let mut vars: Vec<(String, String)> = Vec::new();
    let mut i: usize = 0;
    while i < lines.len()
        invariant
            0 <= i <= lines@.len(),
            views_of(lines@) == pieces(content@, false),
            pairs_view(vars@) == dotenv_vars(views_of(lines@).take(i as int)),
            keys_unique(pairs_view(vars@)),
        decreases lines@.len() - i,
    {
        let ghost ls = views_of(lines@);
        assert(ls.take(i + 1).drop_last() =~= ls.take(i as int));
        assert(ls.take(i + 1).last() == lines@[i as int]@);
        match parse_dotenv_line(lines[i].as_str()) {
            Some((k, v)) => set_var(&mut vars, k, v),
            None => {},
        }
        i = i + 1;
    }
    assert(views_of(lines@).take(i as int) =~= views_of(lines@));
    vars
}

/// The problems with the tool's surroundings: `PATH` unset, no Python
/// interpreter, no Node.
pub open spec fn path_problems(path_set: bool, has_python: bool, has_node: bool) -> Seq<Seq<char>> {
    let a: Seq<Seq<char>> = if path_set {
        seq![]
    } else {
        seq!["PATH is unset"@]
    };
    let b: Seq<Seq<char>> = if has_python {
        seq![]
    } else {
        seq!["Python not found in PATH"@]
    };
    let c: Seq<Seq<char>> = if has_node {
        seq![]
    } else {
        seq!["Node not found in PATH"@]
    };
    a + b + c
}

/// Reports what is missing, given whether `PATH` is set and whether a
/// Python interpreter and Node were found on it.
pub fn path_issues(path_set: bool, has_python: bool, has_node: bool) -> (r: Vec<String>)
    ensures
        views_of(r@) == path_problems(path_set, has_python, has_node),
{
    let mut issues: Vec<String> = Vec::new();
    if !path_set {
        issues.push(String::from_str("PATH is unset"));
    }
    if !has_python {
        issues.push(String::from_str("Python not found in PATH"));
    }
    if !has_node {
        issues.push(String::from_str("Node not found in PATH"));
    }
    assert(views_of(issues@) =~= path_problems(path_set, has_python, has_node));
    issues
}

} // verus!
