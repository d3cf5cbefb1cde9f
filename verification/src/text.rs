//! Operations on strings: comparison, trimming, concatenation.

use vstd::prelude::*;
use vstd::string::StringExecFns;

verus! {

/// `str`'s `==`: two string slices are equal when they hold the same characters.
pub assume_specification[ <str as PartialEq>::eq ](a: &str, b: &str) -> (r: bool)
    ensures
        r == (a@ == b@),
;

/// What `char::is_whitespace` returns: whether the character has Unicode's White_Space
/// property.
pub uninterp spec fn white_space(c: char) -> bool;

/// A text without its leading and trailing white space.
pub open spec fn trimmed(text: Seq<char>) -> Seq<char>
    decreases text.len(),
{
    if text.len() == 0 {
        text
    } else if white_space(text.first()) {
        trimmed(text.drop_first())
    } else if white_space(text.last()) {
        trimmed(text.drop_last())
    } else {
        text
    }
}

/// `str::trim`: the slice without its leading and trailing white space, where white space
/// is what `char::is_whitespace` accepts. What is left neither starts nor ends with it.
#[verifier::external_body]
pub(crate) fn trim(text: &str) -> (rest: &str)
    ensures
        rest@ == trimmed(text@),
        rest@.len() > 0 ==> !white_space(rest@.first()) && !white_space(rest@.last()),
{
    text.trim()
}

/// The strings of `parts` one after the other, with nothing between them.
pub fn concatenate(parts: &Vec<String>) -> (whole: String)
    ensures
        whole@ == parts.deep_view().flatten(),
{
    let mut whole = String::new();
    let mut i: usize = 0;
    while i < parts.len()
        invariant
            i <= parts.len(),
            whole@ == parts.deep_view().take(i as int).flatten(),
        decreases parts.len() - i,
    {
        proof {
            let views = parts.deep_view();
            assert(views.take(i + 1) =~= views.take(i as int).push(views[i as int]));
            views.take(i as int).lemma_flatten_push(views[i as int]);
        }
        whole.append(parts[i].as_str());
        i += 1;
    }
    proof {
        assert(parts.deep_view().take(i as int) =~= parts.deep_view());
    }
    whole
}

} // verus!
