//! Path patterns, matched by the `regex` and `regex-lite` engines.
//!
//! The library does not say what a pattern matches: it names what each
//! engine answers for a pattern and a text, and states every contract over
//! those names. The two engines differ (one reads `\d` and `\w` over all of
//! Unicode, the other over ASCII), so each has its own names.

use vstd::prelude::*;
use crate::http::HandlerError;

verus! {

/// The outside type `regex::Error`, carried through as an opaque value.
#[verifier::external_type_specification]
#[verifier::external_body]
pub struct ExRegexError(regex::Error);

/// The outside type `regex_lite::Error`, carried through as an opaque value.
#[verifier::external_type_specification]
#[verifier::external_body]
pub struct ExRegexLiteError(regex_lite::Error);

/// The capture groups of a match: the text of each group, from group 0 (the
/// whole match) on, and `None` for a group that took no part in the match.
pub type Groups = Vec<Option<String>>;

/// The views of the capture groups of a match.
pub open spec fn groups_of(groups: Seq<Option<String>>) -> Seq<Option<Seq<char>>> {
    Seq::new(groups.len(), |i: int| crate::text::option_view(groups[i]))
}

/// The view of what a search found: the groups of the match, where there
/// is one.
pub open spec fn groups_view(found: Option<Groups>) -> Option<Seq<Option<Seq<char>>>> {
    match found {
        Some(g) => Some(groups_of(g@)),
        None => None,
    }
}

/// Whether `regex::Regex::new` accepts `pattern`.
pub uninterp spec fn regex_compiles(pattern: Seq<char>) -> bool;

/// What `regex::Regex::captures` finds in `text` for an accepted `pattern`:
/// `None` where the pattern matches nowhere, else the groups of the leftmost
/// match.
pub uninterp spec fn regex_groups(pattern: Seq<char>, text: Seq<char>) -> Option<
    Seq<Option<Seq<char>>>,
>;

/// Whether `regex_lite::Regex::new` accepts `pattern`.
pub uninterp spec fn regex_lite_compiles(pattern: Seq<char>) -> bool;

/// What `regex_lite::Regex::captures` finds in `text` for an accepted
/// `pattern`.
pub uninterp spec fn regex_lite_groups(pattern: Seq<char>, text: Seq<char>) -> Option<
    Seq<Option<Seq<char>>>,
>;

/// `regex::Regex::new` followed by `Regex::captures`: an error exactly where
/// the pattern is not accepted; else the groups that the engine finds, which
/// depend on the pattern and the text alone.
#[verifier::external_body]
pub(crate) fn regex_captures(pattern: &str, text: &str) -> (r: Result<Option<Groups>, regex::Error>)
    ensures
        r is Ok <==> regex_compiles(pattern@),
        r matches Ok(found) ==> groups_view(found) == regex_groups(pattern@, text@),
{
    let re = regex::Regex::new(pattern)?;
    Ok(re.captures(text).map(|c| c.iter().map(|m| m.map(|m| m.as_str().to_owned())).collect()))
}

/// `regex_lite::Regex::new` followed by `Regex::captures`: an error exactly
/// where the pattern is not accepted; else the groups that the engine finds,
/// which depend on the pattern and the text alone.
#[verifier::external_body]
pub(crate) fn regex_lite_captures(pattern: &str, text: &str) -> (r: Result<
    Option<Groups>,
    regex_lite::Error,
>)
    ensures
        r is Ok <==> regex_lite_compiles(pattern@),
        r matches Ok(found) ==> groups_view(found) == regex_lite_groups(pattern@, text@),
{
    let re = regex_lite::Regex::new(pattern)?;
    Ok(re.captures(text).map(|c| c.iter().map(|m| m.map(|m| m.as_str().to_owned())).collect()))
}

/// The text of group `i`, where the match has such a group and it took part.
pub open spec fn group(groups: Seq<Option<Seq<char>>>, i: int) -> Option<Seq<char>> {
    if 0 <= i < groups.len() {
        groups[i]
    } else {
        None
    }
}

/// The text of group `i`, where the match has such a group and it took part.
pub fn get_group(groups: &Groups, i: usize) -> (r: Option<String>)
    ensures
        crate::text::option_view(r) == group(groups_of(groups@), i as int),
{
    if i < groups.len() {
        groups[i].clone()
    } else {
        None
    }
}

/// What the `regex` engine answers for a pattern and a text: that the
/// pattern is not accepted, or what it finds.
pub open spec fn regex_answer(pattern: Seq<char>, text: Seq<char>) -> Result<
    Option<Seq<Option<Seq<char>>>>,
    HandlerError,
> {
    if regex_compiles(pattern) {
        Ok(regex_groups(pattern, text))
    } else {
        Err(HandlerError::Pattern)
    }
}

/// What the `regex-lite` engine answers for a pattern and a text.
pub open spec fn regex_lite_answer(pattern: Seq<char>, text: Seq<char>) -> Result<
    Option<Seq<Option<Seq<char>>>>,
    HandlerError,
> {
    if regex_lite_compiles(pattern) {
        Ok(regex_lite_groups(pattern, text))
    } else {
        Err(HandlerError::Pattern)
    }
}

/// The view of an answer.
pub open spec fn answer_view(r: Result<Option<Groups>, HandlerError>) -> Result<
    Option<Seq<Option<Seq<char>>>>,
    HandlerError,
> {
    match r {
        Ok(found) => Ok(groups_view(found)),
        Err(e) => Err(e),
    }
}

/// The groups that `pattern` captures in `text`, by the `regex` engine.
pub fn captures(pattern: &str, text: &str) -> (r: Result<Option<Groups>, HandlerError>)
    ensures
        answer_view(r) == regex_answer(pattern@, text@),
{
    match regex_captures(pattern, text) {
        Ok(found) => Ok(found),
        Err(_) => Err(HandlerError::Pattern),
    }
}

/// The groups that `pattern` captures in `text`, by the `regex-lite` engine.
pub fn captures_lite(pattern: &str, text: &str) -> (r: Result<Option<Groups>, HandlerError>)
    ensures
        answer_view(r) == regex_lite_answer(pattern@, text@),
{
    match regex_lite_captures(pattern, text) {
        Ok(found) => Ok(found),
        Err(_) => Err(HandlerError::Pattern),
    }
}

} // verus!
