//! ISINs and the tickers they are traded under.

use vstd::prelude::*;
use crate::text::{chars_of, contains, contains_text, ends_with, ends_with_text, same_text};

verus! {

/// How many characters an ISIN has.
pub const ISIN_LENGTH: usize = 12;

/// One result of a search for a security.
#[derive(Clone, Debug)]
pub struct SearchHit {
    pub symbol: String,
    pub exchange: String,
    pub kind: String,
}

/// Whether a character is a capital letter of the Latin alphabet.
pub open spec fn is_capital(c: char) -> bool {
    'A' <= c <= 'Z'
}

/// Whether a character is a digit.
pub open spec fn is_digit(c: char) -> bool {
    '0' <= c <= '9'
}

/// Whether a text has the form of an ISIN: two capital letters, nine
/// capital letters or digits, and a digit.
pub open spec fn isin_shaped(text: Seq<char>) -> bool {
    &&& text.len() == ISIN_LENGTH
    &&& is_capital(text[0])
    &&& is_capital(text[1])
    &&& forall|i: int| 2 <= i < 11 ==> is_capital(#[trigger] text[i]) || is_digit(text[i])
    &&& is_digit(text[11])
}

/// Whether a hit is listed in London: on the exchange `LSE` or under a
/// symbol that ends with `.L`.
pub open spec fn in_london(hit: SearchHit) -> bool {
    contains_text(hit.exchange@, "LSE"@) || ends_with_text(hit.symbol@, ".L"@)
}

/// Whether a hit is a fund traded on an exchange or a share.
pub open spec fn is_listed_kind(hit: SearchHit) -> bool {
    hit.kind@ == "Etf"@ || hit.kind@ == "Equity"@
}

/// Whether a hit is of a kind that may stand for a security.
pub open spec fn is_quoted_kind(hit: SearchHit) -> bool {
    is_listed_kind(hit) || hit.kind@ == "MutualFund"@ || hit.kind@ == "Currency"@
}

/// Whether the hit at `index` is the first London hit of a listed kind.
pub open spec fn first_london(hits: Seq<SearchHit>, index: int) -> bool {
    &&& 0 <= index < hits.len()
    &&& in_london(hits[index]) && is_listed_kind(hits[index])
    &&& forall|j: int| 0 <= j < index ==> !(in_london(#[trigger] hits[j]) && is_listed_kind(hits[j]))
}

/// Whether the hit at `index` is the first hit of a quoted kind whose
/// symbol is not the ISIN itself.
pub open spec fn first_quoted(hits: Seq<SearchHit>, isin: Seq<char>, index: int) -> bool {
    &&& 0 <= index < hits.len()
    &&& hits[index].symbol@ != isin && is_quoted_kind(hits[index])
    &&& forall|j: int| 0 <= j < index ==> !((#[trigger] hits[j]).symbol@ != isin && is_quoted_kind(hits[j]))
}

/// The symbol that stands for an ISIN among the hits of a search: that of
/// the first London hit of a listed kind, unless it is the ISIN itself;
/// else that of the first hit of a quoted kind that is not the ISIN itself.
pub open spec fn picked(hits: Seq<SearchHit>, isin: Seq<char>) -> Option<Seq<char>> {
    if exists|i: int| first_london(hits, i) && hits[i].symbol@ != isin {
        let i = choose|i: int| first_london(hits, i) && hits[i].symbol@ != isin;
        Some(hits[i].symbol@)
    } else if exists|i: int| first_quoted(hits, isin, i) {
        let i = choose|i: int| first_quoted(hits, isin, i);
        Some(hits[i].symbol@)
    } else {
        None
    }
}

/// Whether a text has the form of an ISIN.
pub fn is_valid_isin(text: &str) -> (r: bool)
    ensures
        r == isin_shaped(text@),
{
    let all = chars_of(text);
    if all.len() != ISIN_LENGTH {
        return false;
    }
    if !(all[0] >= 'A' && all[0] <= 'Z') || !(all[1] >= 'A' && all[1] <= 'Z') {
        return false;
    }
    let mut i: usize = 2;
    while i < 11
        invariant
            2 <= i <= 11,
            all.len() == ISIN_LENGTH,
            all@ == text@,
            forall|k: int| 2 <= k < i ==> is_capital(#[trigger] all[k]) || is_digit(all[k]),
        decreases 11 - i,
    {
        let c = all[i];
        if !((c >= 'A' && c <= 'Z') || (c >= '0' && c <= '9')) {
            assert(!(is_capital(text@[i as int]) || is_digit(text@[i as int])));
            return false;
        }
        i += 1;
    }
    all[11] >= '0' && all[11] <= '9'
}

/// Whether a hit is a London hit of a listed kind.
fn london_listed(hit: &SearchHit) -> (r: bool)
    ensures
        r == (in_london(*hit) && is_listed_kind(*hit)),
{
    (contains(hit.exchange.as_str(), "LSE") || ends_with(hit.symbol.as_str(), ".L")) && (same_text(
        hit.kind.as_str(),
        "Etf",
    ) || same_text(hit.kind.as_str(), "Equity"))
}

/// Whether a hit is of a quoted kind.
fn quoted(hit: &SearchHit) -> (r: bool)
    ensures
        r == is_quoted_kind(*hit),
{
    same_text(hit.kind.as_str(), "Etf") || same_text(hit.kind.as_str(), "Equity") || same_text(
        hit.kind.as_str(),
        "MutualFund",
    ) || same_text(hit.kind.as_str(), "Currency")
}

/// Picks the symbol that stands for an ISIN among the hits of a search.
pub fn pick_symbol(hits: &Vec<SearchHit>, isin: &str) -> (r: Option<String>)
    ensures
        crate::security_parser::text_of(r) == picked(hits@, isin@),
{
    let mut i: usize = 0;
    let mut london: Option<usize> = None;
    while i < hits.len() && london.is_none()
        invariant
            i <= hits.len(),
            match london {
                Some(k) => first_london(hits@, k as int),
                None => forall|j: int|
                    0 <= j < i ==> !(in_london(#[trigger] hits[j]) && is_listed_kind(hits[j])),
            },
        decreases hits.len() - i + if london is None { 1int } else { 0int },
    {
        if london_listed(&hits[i]) {
            london = Some(i);
        } else {
            i += 1;
        }
    }
    match london {
        Some(k) => {
            if !same_text(hits[k].symbol.as_str(), isin) {
                proof {
                    let c = choose|c: int| first_london(hits@, c) && hits[c].symbol@ != isin@;
                    assert(first_london(hits@, k as int) && hits[k as int].symbol@ != isin@);
                    assert(c == k) by {
                        if c < k {
                            assert(!(in_london(hits[c]) && is_listed_kind(hits[c])));
                        }
                        if k < c {
                            assert(!(in_london(hits[k as int]) && is_listed_kind(hits[k as int])));
                        }
                    }
                }
                return Some(hits[k].symbol.clone());
            }
            proof {
                assert forall|c: int| !(first_london(hits@, c) && hits[c].symbol@ != isin@) by {
                    if first_london(hits@, c) {
                        if c < k {
                            assert(!(in_london(hits[c]) && is_listed_kind(hits[c])));
                        }
                        if k < c {
                            assert(!(in_london(hits[k as int]) && is_listed_kind(hits[k as int])));
                        }
                    }
                }
            }
        },
        None => {
            proof {
                assert forall|c: int| !(first_london(hits@, c) && hits[c].symbol@ != isin@) by {
                    if first_london(hits@, c) {
                        assert(!(in_london(hits[c]) && is_listed_kind(hits[c])));
                    }
                }
            }
        },
    }
    let mut j: usize = 0;
    while j < hits.len()
        invariant
            j <= hits.len(),
            forall|c: int| !(first_london(hits@, c) && hits[c].symbol@ != isin@),
            forall|k: int|
                0 <= k < j ==> !((#[trigger] hits[k]).symbol@ != isin@ && is_quoted_kind(hits[k])),
        decreases hits.len() - j,
    {
        if !same_text(hits[j].symbol.as_str(), isin) && quoted(&hits[j]) {
            proof {
                assert(first_quoted(hits@, isin@, j as int));
                let c = choose|c: int| first_quoted(hits@, isin@, c);
                assert(c == j) by {
                    if c < j {
                        assert(!(hits[c].symbol@ != isin@ && is_quoted_kind(hits[c])));
                    }
                    if j < c {
                        assert(!(hits[j as int].symbol@ != isin@ && is_quoted_kind(hits[j as int])));
                    }
                }
            }
            return Some(hits[j].symbol.clone());
        }
        j += 1;
    }
    proof {
        assert forall|c: int| !first_quoted(hits@, isin@, c) by {
            if first_quoted(hits@, isin@, c) {
                assert(!(hits[c].symbol@ != isin@ && is_quoted_kind(hits[c])));
            }
        }
    }
    None
}

/// The texts of the list that are not empty, each once, in the order in
/// which they first occur.
pub fn distinct_texts(list: &Vec<String>) -> (r: Vec<String>)
    ensures
        crate::valuation::distinct(r@),
        forall|k: int| 0 <= k < r.len() ==> (#[trigger] r[k])@.len() > 0 && crate::background_processor::lists(
            list@,
            r[k]@,
        ),
        forall|i: int|
            0 <= i < list.len() && (#[trigger] list[i])@.len() > 0 ==> crate::background_processor::lists(
                r@,
                list[i]@,
            ),
{
    let mut out: Vec<String> = Vec::new();
    let mut i: usize = 0;
    while i < list.len()
        invariant
            i <= list.len(),
            crate::valuation::distinct(out@),
            forall|k: int|
                0 <= k < out.len() ==> (#[trigger] out[k])@.len() > 0 && crate::background_processor::lists(
                    list@,
                    out[k]@,
                ),
            forall|j: int|
                0 <= j < i && (#[trigger] list[j])@.len() > 0 ==> crate::background_processor::lists(
                    out@,
                    list[j]@,
                ),
        decreases list.len() - i,
    {
        let ghost before = out@;
        if !list[i].as_str().is_empty() && crate::text::position_of(&out, list[i].as_str()).is_none() {
            out.push(list[i].clone());
        }
        proof {
            assert forall|j: int| 0 <= j < i + 1 && (#[trigger] list[j])@.len() > 0 implies crate::background_processor::lists(
                out@,
                list[j]@,
            ) by {
                if j < i {
                    let k = choose|k: int| 0 <= k < before.len() && (#[trigger] before[k])@ == list[j]@;
                    assert(out[k]@ == list[j]@);
                } else {
                    if crate::text::position_of_spec(before, list[i as int]@) {
                        let k = choose|k: int|
                            0 <= k < before.len() && (#[trigger] before[k])@ == list[i as int]@;
                        assert(out[k]@ == list[j]@);
                    } else {
                        assert(out[out.len() - 1]@ == list[j]@);
                    }
                }
            }
        }
        i += 1;
    }
    out
}

} // verus!
