//! The calls into the `regex` and `chrono` crates, with what this library
//! assumes of them.
use vstd::prelude::*;

verus! {

#[verifier::external_type_specification]
#[verifier::external_body]
pub struct ExRegexError(regex::Error);

#[verifier::external_type_specification]
#[verifier::external_body]
pub struct ExChronoParseError(chrono::ParseError);

/// Whether `regex::Regex::new` accepts `pattern`.
pub uninterp spec fn regex_compiles(pattern: Seq<char>) -> bool;

/// The capture groups (group 0 first) of the leftmost-first match of
/// `pattern` in `haystack`, as `regex::Regex::captures` reports them; a group
/// that took no part in the match is `None`.
pub uninterp spec fn regex_first_captures(pattern: Seq<char>, haystack: Seq<char>) -> Option<
    Seq<Option<Seq<char>>>,
>;

/// The capture groups of each successive non-overlapping match of `pattern`
/// in `haystack`, as `regex::Regex::captures_iter` yields them.
pub uninterp spec fn regex_all_captures(pattern: Seq<char>, haystack: Seq<char>) -> Seq<
    Seq<Option<Seq<char>>>,
>;

/// The timestamp (seconds since 1970-01-01 00:00:00, no time zone applied) of
/// the date and time that `chrono::NaiveDateTime::parse_from_str` reads from
/// `text` with the strftime-style `format`, or `None` where it fails.
pub uninterp spec fn naive_timestamp(text: Seq<char>, format: Seq<char>) -> Option<i64>;

/// The texts of the groups of one match.
pub open spec fn group_texts(g: Seq<Option<String>>) -> Seq<Option<Seq<char>>> {
    g.map_values(
        |o: Option<String>|
            match o {
                Some(s) => Some(s@),
                None => None,
            },
    )
}

/// The texts of the groups of several matches.
pub open spec fn match_texts(m: Seq<Vec<Option<String>>>) -> Seq<Seq<Option<Seq<char>>>> {
    m.map_values(|g: Vec<Option<String>>| group_texts(g@))
}

/// The groups of an optional match.
pub open spec fn found_texts(found: Option<Vec<Option<String>>>) -> Option<Seq<Option<Seq<char>>>> {
    match found {
        Some(g) => Some(group_texts(g@)),
        None => None,
    }
}

/// Compiles `pattern` with `regex::Regex::new` and runs `Regex::captures` on
/// `haystack`. Claims: it fails exactly when the pattern does not compile, and
/// otherwise hands back the groups that `regex_first_captures` names.
#[verifier::external_body]
pub(crate) fn first_captures(pattern: &str, haystack: &str) -> (r: Result<
    Option<Vec<Option<String>>>,
    regex::Error,
>)
    ensures
        r is Ok == regex_compiles(pattern@),
        r matches Ok(found) ==> found_texts(found) == regex_first_captures(pattern@, haystack@),
{
    let re = regex::Regex::new(pattern)?;
    Ok(match re.captures(haystack) {
        Some(caps) => {
            let mut groups = Vec::new();
            for m in caps.iter() {
                groups.push(m.map(|m| m.as_str().to_string()));
            }
            Some(groups)
        },
        None => None,
    })
}

/// Compiles `pattern` with `regex::Regex::new` and collects what
/// `Regex::captures_iter` yields on `haystack`. Claims: it fails exactly when
/// the pattern does not compile, and otherwise hands back the matches that
/// `regex_all_captures` names, in order.
#[verifier::external_body]
pub(crate) fn all_captures(pattern: &str, haystack: &str) -> (r: Result<
    Vec<Vec<Option<String>>>,
    regex::Error,
>)
    ensures
        r is Ok == regex_compiles(pattern@),
        r matches Ok(all) ==> match_texts(all@) == regex_all_captures(pattern@, haystack@),
{
    let re = regex::Regex::new(pattern)?;
    let mut all = Vec::new();
    for caps in re.captures_iter(haystack) {
        let mut groups = Vec::new();
        for m in caps.iter() {
            groups.push(m.map(|m| m.as_str().to_string()));
        }
        all.push(groups);
    }
    Ok(all)
}

/// Reads a date and time with `chrono::NaiveDateTime::parse_from_str` and
/// takes its `timestamp`. Claims: the result is `naive_timestamp(text, format)`,
/// an error where that is `None`.
#[verifier::external_body]
#[allow(deprecated)]
pub(crate) fn parse_naive_timestamp(text: &str, format: &str) -> (r: Result<i64, chrono::ParseError>)
    ensures
        r is Ok == naive_timestamp(text@, format@) is Some,
        r matches Ok(t) ==> naive_timestamp(text@, format@) == Some(t),
{
    let parsed = chrono::NaiveDateTime::parse_from_str(text, format)?;
    Ok(parsed.timestamp())
}

} // verus!
