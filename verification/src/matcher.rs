//! Compiled matchers: CSS selectors of `scraper` and patterns of `regex`.
//!
//! Both are opaque here. What their functions return is named by a spec function per
//! outside function; nothing in this module is proved.

use vstd::prelude::*;

verus! {

/// `scraper::Selector`, a parsed group of CSS selectors.
#[verifier::external_type_specification]
#[verifier::external_body]
pub struct ExSelector(scraper::Selector);

/// `scraper::error::SelectorErrorKind`, why a selector did not parse.
#[verifier::external_type_specification]
#[verifier::external_body]
pub struct ExSelectorErrorKind(scraper::error::SelectorErrorKind);

/// `regex::Regex`, a compiled pattern.
#[verifier::external_type_specification]
#[verifier::external_body]
pub struct ExRegex(regex::Regex);

/// `regex::Error`, why a pattern did not compile.
#[verifier::external_type_specification]
#[verifier::external_body]
pub struct ExRegexError(regex::Error);

/// What `scraper::Selector::parse` returns for a selector text.
pub uninterp spec fn parsed_selector(text: Seq<char>) -> Result<
    scraper::Selector,
    scraper::error::SelectorErrorKind,
>;

/// What `regex::Regex::new` returns for a pattern text.
pub uninterp spec fn parsed_regex(pattern: Seq<char>) -> Result<regex::Regex, regex::Error>;

/// What `regex::Regex::captures` finds in a text, as `regex::Captures::iter` hands it out:
/// `None` where the pattern matches nowhere, else one entry per capture group of the first
/// match, group 0 (the whole match) included, each the text the group captured or `None`
/// where it took no part in the match.
pub uninterp spec fn captures_of(pattern: regex::Regex, text: Seq<char>) -> Option<
    Seq<Option<Seq<char>>>,
>;

/// `scraper::Selector::parse`: the selector that a text stands for, or why it stands for
/// none. The outcome depends on the text alone.
#[verifier::external_body]
pub(crate) fn parse_selector(text: &str) -> (parsed: Result<
    scraper::Selector,
    scraper::error::SelectorErrorKind,
>)
    ensures
        parsed == parsed_selector(text@),
{
    scraper::Selector::parse(text)
}

/// `regex::Regex::new`: the compiled pattern, or why the text is no pattern. The outcome
/// depends on the text alone.
#[verifier::external_body]
pub(crate) fn parse_regex(pattern: &str) -> (parsed: Result<regex::Regex, regex::Error>)
    ensures
        parsed == parsed_regex(pattern@),
{
    regex::Regex::new(pattern)
}

/// `regex::Regex::captures`, then `regex::Captures::iter`: the capture groups of the first
/// match of the pattern in the text, each one copied out as a `String`.
#[verifier::external_body]
pub(crate) fn captures(pattern: &regex::Regex, text: &str) -> (groups: Option<
    Vec<Option<String>>,
>)
    ensures
        groups.is_some() == captures_of(*pattern, text@).is_some(),
        groups.is_some() ==> groups.unwrap().deep_view() == captures_of(*pattern, text@).unwrap(),
{
    pattern.captures(text).map(
        |found| found.iter().map(|group| group.map(|m| m.as_str().to_owned())).collect(),
    )
}

} // verus!
