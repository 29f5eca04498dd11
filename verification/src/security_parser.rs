//! Security names and ISINs as statements print them.

use vstd::prelude::*;
use crate::text::{trim, trimmed};

verus! {

/// A security's name, a slash, the word `ISIN` and a twelve-character code.
pub const SECURITY_PATTERN: &'static str = "(.*?)\\s*/\\s*ISIN\\s+([A-Z]{2}[A-Z0-9]{9}[0-9])";

/// What the `regex` crate captures for the leftmost match of a pattern in a
/// text: one entry per group, the whole match first, `None` for a group that
/// took no part. `None` when nothing matches or the pattern does not compile.
pub uninterp spec fn regex_captures(pattern: Seq<char>, text: Seq<char>) -> Option<Seq<Option<Seq<char>>>>;

/// The characters of an optional text.
pub open spec fn text_of(group: Option<String>) -> Option<Seq<char>> {
    match group {
        Some(s) => Some(s@),
        None => None,
    }
}

/// The characters of each captured group.
pub open spec fn groups_of(groups: Seq<Option<String>>) -> Seq<Option<Seq<char>>> {
    groups.map_values(|g: Option<String>| text_of(g))
}

/// The characters of what a match captured, if there was a match.
pub open spec fn captures_of(captures: Option<Vec<Option<String>>>) -> Option<Seq<Option<Seq<char>>>> {
    match captures {
        Some(groups) => Some(groups_of(groups@)),
        None => None,
    }
}

/// The group with the given number, `None` when the match has no such group
/// or the group took no part.
pub open spec fn group(groups: Seq<Option<Seq<char>>>, number: int) -> Option<Seq<char>> {
    if 0 <= number < groups.len() {
        groups[number]
    } else {
        None
    }
}

/// Name and ISIN as the captures of the security pattern give them: the
/// trimmed first group and the second group, or the trimmed text and no ISIN
/// when the pattern did not match.
pub open spec fn parsed_security(text: Seq<char>, captures: Option<Seq<Option<Seq<char>>>>) -> (
    Seq<char>,
    Option<Seq<char>>,
) {
    match captures {
        Some(groups) => (
            trimmed(
                match group(groups, 1) {
                    Some(name) => name,
                    None => Seq::<char>::empty(),
                },
            ),
            group(groups, 2),
        ),
        None => (trimmed(text), None),
    }
}

/// Name and ISIN of the security that a statement line describes.
pub open spec fn security_and_isin(text: Seq<char>) -> (Seq<char>, Option<Seq<char>>) {
    parsed_security(text, regex_captures(SECURITY_PATTERN@, text))
}

/// Compiles the pattern with `Regex::new` and calls `Regex::captures` of the
/// `regex` crate on the text. The result is the named capture list, each
/// group copied out as a text.
#[verifier::external_body]
fn capture_groups(pattern: &str, text: &str) -> (r: Option<Vec<Option<String>>>)
    ensures
        captures_of(r) == regex_captures(pattern@, text@),
{
    match regex::Regex::new(pattern) {
        Ok(re) => match re.captures(text) {
            Some(caps) => Some(caps.iter().map(|m| m.map(|g| g.as_str().to_string())).collect()),
            None => None,
        },
        Err(_) => None,
    }
}

/// Name and ISIN from what the security pattern captured in `text`.
pub fn security_from_captures(text: &str, captures: &Option<Vec<Option<String>>>) -> (r: (
    String,
    Option<String>,
))
    ensures
        (r.0@, text_of(r.1)) == parsed_security(text@, captures_of(*captures)),
{
    match captures {
        Some(groups) => {
            let name = if 1 < groups.len() {
                match &groups[1] {
                    Some(n) => trim(n.as_str()).to_owned(),
                    None => trim("").to_owned(),
                }
            } else {
                trim("").to_owned()
            };
            let isin = if 2 < groups.len() {
                groups[2].clone()
            } else {
                None
            };
            proof {
                reveal_strlit("");
                assert(""@ =~= Seq::<char>::empty());
            }
            (name, isin)
        },
        None => (trim(text).to_owned(), None),
    }
}

/// Splits `Name / ISIN XX000000000` into the trimmed name and the ISIN. A
/// text without an ISIN is returned trimmed, with no ISIN.
pub fn extract_security_and_isin(text: &str) -> (r: (String, Option<String>))
    ensures
        (r.0@, text_of(r.1)) == security_and_isin(text@),
{
    let captures = capture_groups(SECURITY_PATTERN, text);
    security_from_captures(text, &captures)
}

/// The ISIN of the security that a statement line describes, the empty
/// text where the line names none.
pub open spec fn isin_of(text: Seq<char>) -> Seq<char> {
    match security_and_isin(text).1 {
        Some(isin) => isin,
        None => Seq::<char>::empty(),
    }
}

/// The ISIN by which a trade is filed: that of the statement line, or the
/// empty text where the line names none.
pub fn extract_isin(text: &str) -> (r: String)
    ensures
        r@ == isin_of(text@),
{
    match extract_security_and_isin(text).1 {
        Some(isin) => isin,
        None => {
            proof {
                reveal_strlit("");
                assert(""@ =~= Seq::<char>::empty());
            }
            "".to_owned()
        },
    }
}

} // verus!
