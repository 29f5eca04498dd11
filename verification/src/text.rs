//! Text predicates and the calls into std's string functions that the
//! library's rules are stated over.

use vstd::prelude::*;

verus! {

/// Whether `needle` stands in `haystack` at position `at`.
pub open spec fn occurs_at(haystack: Seq<char>, needle: Seq<char>, at: int) -> bool {
    0 <= at && at + needle.len() <= haystack.len() && haystack.subrange(
        at,
        at + needle.len() as int,
    ) == needle
}

/// Whether `needle` stands somewhere in `haystack`.
pub open spec fn contains_text(haystack: Seq<char>, needle: Seq<char>) -> bool {
    exists|at: int| occurs_at(haystack, needle, at)
}

/// Whether `haystack` begins with `prefix`.
pub open spec fn starts_with_text(haystack: Seq<char>, prefix: Seq<char>) -> bool {
    occurs_at(haystack, prefix, 0)
}

/// Whether `haystack` ends with `suffix`.
pub open spec fn ends_with_text(haystack: Seq<char>, suffix: Seq<char>) -> bool {
    occurs_at(haystack, suffix, haystack.len() - suffix.len())
}

/// The upper-case form that std gives a text.
pub uninterp spec fn uppercase(text: Seq<char>) -> Seq<char>;

/// A text without the white space that std finds at its two ends.
pub uninterp spec fn trimmed(text: Seq<char>) -> Seq<char>;

/// The words of a text: what stands between the white space that std finds in it.
pub uninterp spec fn words_of(text: Seq<char>) -> Seq<Seq<char>>;

/// The lines of a text as std splits it, line ends left out.
pub uninterp spec fn lines_of(text: Seq<char>) -> Seq<Seq<char>>;

/// The characters of each text.
pub open spec fn texts(list: Seq<String>) -> Seq<Seq<char>> {
    list.map_values(|s: String| s@)
}

/// Calls `str::split_whitespace` and copies the words out. The result is
/// the named list of words.
#[verifier::external_body]
pub(crate) fn words(text: &str) -> (r: Vec<String>)
    ensures
        texts(r@) == words_of(text@),
{
    text.split_whitespace().map(|w| w.to_string()).collect()
}

/// Calls `str::lines` and copies the lines out. The result is the named
/// list of lines.
#[verifier::external_body]
pub(crate) fn lines(text: &str) -> (r: Vec<String>)
    ensures
        texts(r@) == lines_of(text@),
{
    text.lines().map(|l| l.to_string()).collect()
}

/// Calls `str::chars` and collects the characters.
#[verifier::external_body]
pub(crate) fn chars_of(text: &str) -> (r: Vec<char>)
    ensures
        r@ == text@,
{
    text.chars().collect()
}

/// Collects characters into a `String` with `String::from_iter`.
#[verifier::external_body]
pub(crate) fn text_from_chars(chars: &Vec<char>) -> (r: String)
    ensures
        r@ == chars@,
{
    String::from_iter(chars.iter())
}

/// A text in which every occurrence of `from`, as std finds them, is
/// replaced by `to`.
pub uninterp spec fn replaced(text: Seq<char>, from: Seq<char>, to: Seq<char>) -> Seq<char>;

/// Calls `str::replace`. The result is the named replacement.
#[verifier::external_body]
pub(crate) fn replace(text: &str, from: &str, to: &str) -> (r: String)
    ensures
        r@ == replaced(text@, from@, to@),
{
    text.replace(from, to)
}

/// Calls `str::to_uppercase`. The result is the named upper-case form.
#[verifier::external_body]
pub(crate) fn to_uppercase(text: &str) -> (r: String)
    ensures
        r@ == uppercase(text@),
{
    text.to_uppercase()
}

/// Calls `str::trim`. The result is the named trimmed text.
#[verifier::external_body]
pub(crate) fn trim(text: &str) -> (r: &str)
    ensures
        r@ == trimmed(text@),
{
    text.trim()
}

/// Calls `str::contains` with a text as the pattern: whether the pattern
/// matches a part of the haystack.
#[verifier::external_body]
pub(crate) fn contains(haystack: &str, needle: &str) -> (r: bool)
    ensures
        r == contains_text(haystack@, needle@),
{
    haystack.contains(needle)
}

/// Calls `str::starts_with` with a text as the pattern.
#[verifier::external_body]
pub(crate) fn starts_with(haystack: &str, prefix: &str) -> (r: bool)
    ensures
        r == starts_with_text(haystack@, prefix@),
{
    haystack.starts_with(prefix)
}

/// Calls `str::ends_with` with a text as the pattern.
#[verifier::external_body]
pub(crate) fn ends_with(haystack: &str, suffix: &str) -> (r: bool)
    ensures
        r == ends_with_text(haystack@, suffix@),
{
    haystack.ends_with(suffix)
}

/// Compares two texts with `==` of `str`: whether they hold the same characters.
#[verifier::external_body]
pub(crate) fn same_text(a: &str, b: &str) -> (r: bool)
    ensures
        r == (a@ == b@),
{
    a == b
}

/// Whether one of the texts is `name`.
pub open spec fn position_of_spec(names: Seq<String>, name: Seq<char>) -> bool {
    exists|k: int| 0 <= k < names.len() && (#[trigger] names[k])@ == name
}

/// The position of the first text in `names` equal to `name`.
pub fn position_of(names: &Vec<String>, name: &str) -> (r: Option<usize>)
    ensures
        match r {
            Some(i) => i < names.len() && names[i as int]@ == name@ && forall|j: int|
                0 <= j < i ==> names[j]@ != name@,
            None => forall|j: int| 0 <= j < names.len() ==> names[j]@ != name@,
        },
{
    let mut i: usize = 0;
    while i < names.len()
        invariant
            i <= names.len(),
            forall|j: int| 0 <= j < i ==> names[j]@ != name@,
        decreases names.len() - i,
    {
        if same_text(names[i].as_str(), name) {
            return Some(i);
        }
        i += 1;
    }
    None
}

} // verus!
