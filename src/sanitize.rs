use vstd::prelude::*;

use regex::Regex;

verus! {

/// Whether the regex crate accepts a pattern.
pub uninterp spec fn regex_valid(pattern: Seq<char>) -> bool;

/// The text with every match of a pattern replaced, as
/// `Regex::replace_all` gives it, `$1` standing for the first group.
pub uninterp spec fn regex_replaced(pattern: Seq<char>, text: Seq<char>, with: Seq<char>) -> Seq<char>;

/// Relies on `Regex::new`, which fails exactly on a pattern it rejects, and
/// on `Regex::replace_all`, which replaces each match in the text.
#[verifier::external_body]
fn replace_all_matches(pattern: &str, text: &str, with: &str) -> (r: Option<String>)
    ensures
        r is Some <==> regex_valid(pattern@),
        r matches Some(s) ==> s@ == regex_replaced(pattern@, text@, with@),
{
    let re = Regex::new(pattern).ok()?;
    Some(re.replace_all(text, with).into_owned())
}

/// A secret assigned with `=`: `password = hunter2`, `token=abc`.
pub const ASSIGNED_SECRET: &'static str = r"(?i)(password|token|secret|apikey)\s*=\s*[^\s]+";

/// A secret quoted in JSON style: `"token": "abc"`.
pub const QUOTED_SECRET: &'static str = r#"(?i)(password|token|secret|apikey)"?\s*:\s*"[^"]+""#;

/// What a secret's value is replaced by; the key is kept.
pub const REDACTED: &'static str = "$1=<redacted>";

/// One pass of redaction: a pattern the regex crate rejects leaves the text
/// as it is.
pub open spec fn redact_pass(pattern: Seq<char>, text: Seq<char>) -> Seq<char> {
    if regex_valid(pattern) {
        regex_replaced(pattern, text, REDACTED@)
    } else {
        text
    }
}

/// The text with the values of secrets masked, assignments first, quoted
/// values second.
pub open spec fn redacted(input: Seq<char>) -> Seq<char> {
    redact_pass(QUOTED_SECRET@, redact_pass(ASSIGNED_SECRET@, input))
}

/// Masks the values of passwords, tokens, secrets and API keys.
pub fn redact(input: &str) -> (r: String)
    ensures
        r@ == redacted(input@),
{
    let patterns: [&str; 2] = [ASSIGNED_SECRET, QUOTED_SECRET];
    let mut text = input.to_owned();
    let mut i: usize = 0;
    while i < 2
        invariant
            0 <= i <= 2,
            patterns@ == seq![ASSIGNED_SECRET, QUOTED_SECRET],
            i == 0 ==> text@ == input@,
            i == 1 ==> text@ == redact_pass(ASSIGNED_SECRET@, input@),
            i == 2 ==> text@ == redacted(input@),
        decreases 2 - i,
    {
        match replace_all_matches(patterns[i], text.as_str(), REDACTED) {
            Some(t) => {
                text = t;
            },
            None => {},
        }
        i = i + 1;
    }
    text
}

} // verus!
