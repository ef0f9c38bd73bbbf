//! The regular-expression engine behind the line classifiers.
//!
//! Matching is done by the `regex` crate. Verus does not look inside it, so
//! what this module says of `regex` is believed, not proved: each such item
//! says which function of `regex` it stands for and gives that function's
//! answer a name. The classifiers are verified against those names.
use regex::Regex;
use vstd::prelude::*;

verus! {

/// `regex::Regex`, a compiled expression. Verus sees nothing inside it.
#[verifier::external_type_specification]
#[verifier::external_body]
pub struct ExRegex(regex::Regex);

/// `regex::Error`, why a pattern did not compile. Verus sees nothing
/// inside it.
#[verifier::external_type_specification]
#[verifier::external_body]
pub struct ExRegexError(regex::Error);

/// What a compiled expression was made of: its pattern, the text that
/// `Regex::as_str` returns, where the expression has the settings that
/// `Regex::new` gives it; `None` where a `RegexBuilder` gave it others, for
/// then the pattern alone does not say what the expression matches.
pub uninterp spec fn regex_pattern(re: &Regex) -> Option<Seq<char>>;

/// Whether `Regex::new` accepts `pattern`.
pub uninterp spec fn regex_compiles(pattern: Seq<char>) -> bool;

/// Whether the expression written as `pattern` matches somewhere in
/// `haystack`, as `Regex::is_match` decides it.
pub uninterp spec fn regex_is_match(pattern: Seq<char>, haystack: Seq<char>) -> bool;

/// What `Regex::captures` finds for the expression written as `pattern` in
/// `haystack`: nothing, or the text of every capture group of the leftmost
/// match, by group number, with `None` for a group that took no part.
pub uninterp spec fn regex_captures(pattern: Seq<char>, haystack: Seq<char>) -> Option<
    Seq<Option<Seq<char>>>,
>;

/// `Regex::new` compiles with the crate's default settings, so whether it
/// succeeds depends on the pattern alone, and the compiled expression
/// remembers the pattern it was given.
pub assume_specification[ Regex::new ](re: &str) -> (r: Result<Regex, regex::Error>)
    ensures
        r is Ok <==> regex_compiles(re@),
        r matches Ok(compiled) ==> regex_pattern(&compiled) == Some(re@),
;

/// `Regex::is_match` searches `haystack` from its start. For an expression
/// with the default settings the answer depends on the pattern and the
/// haystack alone.
pub assume_specification[ Regex::is_match ](re: &Regex, haystack: &str) -> (b: bool)
    ensures
        regex_pattern(re) matches Some(pattern) ==> b == regex_is_match(pattern, haystack@),
;

/// The texts of a list of capture groups.
pub open spec fn groups_view(groups: Seq<Option<String>>) -> Seq<Option<Seq<char>>> {
    Seq::new(
        groups.len(),
        |i: int|
            match groups[i] {
                Some(text) => Some(text@),
                None => None,
            },
    )
}

/// Whether none of the groups is longer than `line`.
pub open spec fn groups_fit(groups: Seq<Option<Seq<char>>>, line: Seq<char>) -> bool {
    forall|i: int|
        0 <= i < groups.len() ==> ((#[trigger] groups[i]) matches Some(text) ==> text.len()
            <= line.len())
}

/// What a search for captures came to, as plain texts.
pub open spec fn found_view(found: Option<Vec<Option<String>>>) -> Option<Seq<Option<Seq<char>>>> {
    match found {
        Some(groups) => Some(groups_view(groups@)),
        None => None,
    }
}

/// Runs `Regex::captures` and copies out the text of each group in the
/// order in which `Captures::iter` yields them (group 0, the whole match,
/// first). For an expression with the default settings the contract names
/// the outcome. It adds one fact: a group's text is cut out of the line
/// (`Match::as_str`), so it is no longer than the line. It claims nothing
/// about which texts match.
#[verifier::external_body]
pub(crate) fn captures(re: &Regex, line: &str) -> (r: Option<Vec<Option<String>>>)
    ensures
        regex_pattern(re) matches Some(pattern) ==> found_view(r) == regex_captures(
            pattern,
            line@,
        ),
        r matches Some(groups) ==> groups_fit(groups_view(groups@), line@),
{
    let found = re.captures(line)?;
    let mut groups = Vec::new();
    for group in found.iter() {
        groups.push(group.map(|m| m.as_str().to_owned()));
    }
    Some(groups)
}

/// The text of group `i`, where the list has such a group and the group
/// took part in the match.
pub fn group_text(groups: &Vec<Option<String>>, i: usize) -> (r: Option<&str>)
    ensures
        match r {
            Some(text) => i < groups.len() && groups_view(groups@)[i as int] == Some(text@),
            None => i >= groups.len() || groups_view(groups@)[i as int] is None,
        },
{
    if i < groups.len() {
        match &groups[i] {
            Some(text) => Some(text.as_str()),
            None => None,
        }
    } else {
        None
    }
}

/// The message of a compilation failure, as the `Display` of
/// `regex::Error` writes it. Nothing is claimed about the text.
#[verifier::external_body]
pub(crate) fn error_text(e: &regex::Error) -> (r: String) {
    e.to_string()
}

} // verus!
