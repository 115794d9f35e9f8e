//! What the standard library's string functions return, as far as the sample
//! chain needs them.

use vstd::prelude::*;

verus! {

/// Whether `c` is whitespace to the standard library: the result of
/// `char::is_whitespace`, which goes by the Unicode property `White_Space`.
pub uninterp spec fn white_space(c: char) -> bool;

/// `text` without the whitespace it starts with.
pub open spec fn without_leading_space(text: Seq<char>) -> Seq<char>
    decreases text.len(),
{
    if text.len() > 0 && white_space(text[0]) {
        without_leading_space(text.skip(1))
    } else {
        text
    }
}

/// `text` without the whitespace it ends with.
pub open spec fn without_trailing_space(text: Seq<char>) -> Seq<char>
    decreases text.len(),
{
    if text.len() > 0 && white_space(text.last()) {
        without_trailing_space(text.drop_last())
    } else {
        text
    }
}

/// `text` without the whitespace at either end.
pub open spec fn trimmed(text: Seq<char>) -> Seq<char> {
    without_trailing_space(without_leading_space(text))
}

/// Neither end of `text` is whitespace.
pub open spec fn is_trimmed(text: Seq<char>) -> bool {
    text.len() > 0 ==> !white_space(text[0]) && !white_space(text.last())
}

/// `str::trim` returns the slice with leading and trailing whitespace
/// removed, where whitespace is what `char::is_whitespace` accepts. What is
/// returned therefore neither starts nor ends with whitespace.
pub assume_specification<'a>[ str::trim ](text: &'a str) -> (out: &'a str)
    ensures
        out@ == trimmed(text@),
        out@.len() > 0 ==> !white_space(out@[0]) && !white_space(out@.last()),
;

/// `str::starts_with`, called with a string as the pattern, says whether
/// the text begins with that string.
#[verifier::external_body]
pub(crate) fn starts_with(text: &str, prefix: &str) -> (found: bool)
    ensures
        found == prefix@.is_prefix_of(text@),
{
    text.starts_with(prefix)
}

/// `str::ends_with`, called with a string as the pattern, says whether the
/// text ends with that string.
#[verifier::external_body]
pub(crate) fn ends_with(text: &str, suffix: &str) -> (found: bool)
    ensures
        found == suffix@.is_suffix_of(text@),
{
    text.ends_with(suffix)
}

/// Removing leading whitespace leaves a text that does not start with any.
pub proof fn lemma_leading_space_gone(text: Seq<char>)
    ensures
        without_leading_space(text).len() > 0 ==> !white_space(without_leading_space(text)[0]),
    decreases text.len(),
{
    if text.len() > 0 && white_space(text[0]) {
        lemma_leading_space_gone(text.skip(1));
    }
}

/// Removing trailing whitespace leaves a prefix that does not end with any.
pub proof fn lemma_trailing_space_gone(text: Seq<char>)
    ensures
        without_trailing_space(text).is_prefix_of(text),
        without_trailing_space(text).len() > 0 ==> !white_space(
            without_trailing_space(text).last(),
        ),
    decreases text.len(),
{
    if text.len() > 0 && white_space(text.last()) {
        lemma_trailing_space_gone(text.drop_last());
    }
}

/// A trimmed text has no whitespace at either end.
pub proof fn lemma_trimmed_is_trimmed(text: Seq<char>)
    ensures
        is_trimmed(trimmed(text)),
{
    let inner = without_leading_space(text);
    lemma_leading_space_gone(text);
    lemma_trailing_space_gone(inner);
    let out = without_trailing_space(inner);
    if out.len() > 0 {
        assert(out[0] == inner[0]);
    }
}

/// Trimming a text with no whitespace at either end returns it unchanged.
pub proof fn lemma_trim_keeps_trimmed(text: Seq<char>)
    requires
        is_trimmed(text),
    ensures
        trimmed(text) == text,
{
}

/// Trimming twice is trimming once.
pub proof fn lemma_trim_idempotent(text: Seq<char>)
    ensures
        trimmed(trimmed(text)) == trimmed(text),
{
    lemma_trimmed_is_trimmed(text);
    lemma_trim_keeps_trimmed(trimmed(text));
}

} // verus!
