//! The delimiter pattern: a compiled regular expression over bytes.
//!
//! Compiling and matching are done by the `regex` crate. What this module
//! states of them is believed, not proved.

use vstd::prelude::*;
use regex::bytes::Regex;

verus! {

/// `regex::bytes::Regex`, opaque to the verifier.
#[verifier::external_type_specification]
#[verifier::external_body]
pub struct ExRegex(regex::bytes::Regex);

/// `regex::Error`, opaque to the verifier.
#[verifier::external_type_specification]
#[verifier::external_body]
pub struct ExRegexError(regex::Error);

/// Whether `Regex::new` makes a regex of `pattern`: whether the pattern is
/// well-formed and not too big.
pub uninterp spec fn pattern_compiles(pattern: Seq<char>) -> bool;

/// What `Regex::new` has to say against a `pattern` that it refuses, as
/// text.
pub uninterp spec fn compile_diagnostic(pattern: Seq<char>) -> Seq<char>;

/// The text that the `Display` impl of a compile error writes.
pub uninterp spec fn error_text(e: regex::Error) -> Seq<char>;

/// What `Regex::find` returns on `haystack` for a regex that `Regex::new`
/// made from `pattern`: the byte offsets at which the first match starts and
/// ends, or `None` where there is no match.
pub uninterp spec fn first_match(pattern: Seq<char>, haystack: Seq<u8>) -> Option<(int, int)>;

/// A compiled delimiter pattern: the regex, and the text of the pattern as
/// the regex itself gives it. `compile` is the only maker of one, so the
/// regex inside was made by `Regex::new`, with no option set.
pub struct Fence {
    pattern: String,
    regex: Regex,
}

impl View for Fence {
    type V = Seq<char>;

    /// The text of the pattern.
    closed spec fn view(&self) -> Seq<char> {
        self.pattern@
    }
}

/// Calls `Regex::new`, which makes a regex of a pattern or refuses it,
/// always the same way for the same pattern. A regex that comes back keeps
/// the pattern's text, which `Regex::as_str` hands out.
#[verifier::external_body]
pub(crate) fn compile(pattern: &str) -> (r: Result<Fence, regex::Error>)
    ensures
        r is Ok <==> pattern_compiles(pattern@),
        r matches Ok(fence) ==> fence@ == pattern@,
        r matches Err(e) ==> error_text(e) == compile_diagnostic(pattern@),
{
    match Regex::new(pattern) {
        Ok(regex) => Ok(Fence { pattern: String::from(regex.as_str()), regex }),
        Err(e) => Err(e),
    }
}

/// Calls `Regex::find` and hands back the offsets of the match. They lie in
/// the haystack, the start not after the end, and depend on the pattern and
/// the haystack alone.
#[verifier::external_body]
pub(crate) fn find(fence: &Fence, haystack: &[u8]) -> (r: Option<(usize, usize)>)
    ensures
        r matches Some((start, end)) ==> start <= end <= haystack@.len(),
        first_match(fence@, haystack@) == match r {
            Some((start, end)) => Some((start as int, end as int)),
            None => None,
        },
{
    match fence.regex.find(haystack) {
        Some(m) => Some((m.start(), m.end())),
        None => None,
    }
}

/// The text of a compile error, as its `Display` impl writes it.
#[verifier::external_body]
pub(crate) fn diagnostic(e: &regex::Error) -> (text: String)
    ensures
        text@ == error_text(*e),
{
    format!("{}", e)
}

/// The delimiter that a scan of `buffer` acts on: the first match of
/// `pattern`, unless it ends at offset 0. Such a match is empty and stands
/// at the very start, so cutting there would consume nothing; it counts as
/// no match.
pub open spec fn delimiter_at(pattern: Seq<char>, buffer: Seq<u8>) -> Option<(int, int)> {
    match first_match(pattern, buffer) {
        Some((start, end)) => if 0 <= start <= end <= buffer.len() && 0 < end {
            Some((start, end))
        } else {
            None
        },
        None => None,
    }
}

} // verus!
