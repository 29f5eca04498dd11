//! The layout of statement files.
//!
//! A trading statement is a title line followed by a table. A cash
//! statement is a run of sections, each opened by a line that begins with
//! `Cash Statement:`; the section of the cash portfolio is left out, and in
//! every other section the table begins with the line that begins with
//! `Date,Activity`.

use vstd::prelude::*;
use crate::models::{net_flow, net_flow_of, CashRecord};
use crate::sorting::{lemma_sorted_items, sort_by_keys, sorted_items};
use crate::text::{
    contains, contains_text, lines, lines_of, starts_with, starts_with_text, texts, trim, trimmed,
};

verus! {

/// The table of one section of a cash statement.
#[derive(Clone, Debug)]
pub struct CashSection {
    pub header: String,
    pub rows: Vec<String>,
}

/// A table, as plain values.
pub struct SectionValue {
    pub header: Seq<char>,
    pub rows: Seq<Seq<char>>,
}

/// Where the reading of a cash statement stands.
pub struct Framing {
    pub sections: Seq<SectionValue>,
    pub header: Option<Seq<char>>,
    pub rows: Seq<Seq<char>>,
    pub skipping: bool,
}

/// The lines from position `from` on, each followed by a line end but the last.
pub open spec fn joined(lines: Seq<Seq<char>>, from: int) -> Seq<char>
    decreases lines.len() - from,
{
    if from < 0 || from >= lines.len() {
        Seq::empty()
    } else if from == lines.len() - 1 {
        lines[from]
    } else {
        lines[from] + "\n"@ + joined(lines, from + 1)
    }
}

/// The reading after a section has ended: its table is kept if it has a
/// header and rows, and the rows begin anew. A header without rows stays.
pub open spec fn closed(state: Framing) -> Framing {
    if state.rows.len() > 0 && state.header is Some {
        Framing {
            sections: state.sections.push(
                SectionValue { header: state.header->0, rows: state.rows },
            ),
            header: None,
            rows: Seq::empty(),
            skipping: state.skipping,
        }
    } else {
        Framing { sections: state.sections, header: state.header, rows: Seq::empty(), skipping: state.skipping }
    }
}

/// The reading after one more line.
pub open spec fn framed_line(state: Framing, raw: Seq<char>) -> Framing {
    let line = trimmed(raw);
    if line.len() == 0 {
        state
    } else if starts_with_text(line, "Cash Statement:"@) {
        let ended = closed(state);
        Framing {
            sections: ended.sections,
            header: ended.header,
            rows: ended.rows,
            skipping: contains_text(line, "Portfolio: Cash"@),
        }
    } else if state.skipping {
        state
    } else if state.header is None {
        if starts_with_text(line, "Date,Activity"@) {
            Framing { sections: state.sections, header: Some(line), rows: state.rows, skipping: false }
        } else {
            state
        }
    } else {
        Framing {
            sections: state.sections,
            header: state.header,
            rows: state.rows.push(line),
            skipping: false,
        }
    }
}

/// The reading after the first `count` lines.
pub open spec fn framed(lines: Seq<Seq<char>>, count: int) -> Framing
    decreases count,
{
    if count <= 0 {
        Framing { sections: Seq::empty(), header: None, rows: Seq::empty(), skipping: false }
    } else {
        framed_line(framed(lines, count - 1), lines[count - 1])
    }
}

/// The tables of a cash statement.
pub open spec fn sections_of(content: Seq<char>) -> Seq<SectionValue> {
    closed(framed(lines_of(content), lines_of(content).len() as int)).sections
}

/// A table, as plain values.
pub open spec fn section_value(section: CashSection) -> SectionValue {
    SectionValue { header: section.header@, rows: texts(section.rows@) }
}

/// Tables, as plain values.
pub open spec fn section_values(sections: Seq<CashSection>) -> Seq<SectionValue> {
    sections.map_values(|s: CashSection| section_value(s))
}

/// The text of a table: the header and the rows, a line each.
pub open spec fn table_text(section: SectionValue) -> Seq<char> {
    section.header + "\n"@ + joined(section.rows, 0)
}

/// The lines from `from` on, joined by line ends.
pub fn join_lines(all: &Vec<String>, from: usize) -> (r: String)
    ensures
        r@ == joined(texts(all@), from as int),
{
    let mut out: String = "".to_owned();
    proof {
        reveal_strlit("");
        assert(out@ =~= Seq::<char>::empty());
    }
    if from >= all.len() {
        return out;
    }
    let mut i: usize = all.len();
    while i > from
        invariant
            from <= i <= all.len(),
            from < all.len(),
            out@ == joined(texts(all@), i as int),
        decreases i,
    {
        i -= 1;
        let ghost rest = out@;
        let mut line = all[i].clone();
        if i + 1 < all.len() {
            line.append("\n");
            line.append(out.as_str());
        }
        proof {
            assert(texts(all@)[i as int] == all[i as int]@);
            if i + 1 < all.len() {
                assert(line@ =~= all[i as int]@ + "\n"@ + rest);
            }
        }
        out = line;
    }
    out
}

/// A trading statement without its title line.
pub fn statement_body(content: &str) -> (r: String)
    ensures
        r@ == joined(lines_of(content@), 1),
{
    let all = lines(content);
    join_lines(&all, 1)
}

/// The text of a table, as it is handed to the reader of tables.
pub fn section_text(section: &CashSection) -> (r: String)
    ensures
        r@ == table_text(section_value(*section)),
{
    let mut out = section.header.clone();
    out.append("\n");
    let body = join_lines(&section.rows, 0);
    out.append(body.as_str());
    out
}

/// The tables of a cash statement, in their order: for each section but
/// that of the cash portfolio, the header line and the lines that follow it.
pub fn cash_sections(content: &str) -> (r: Vec<CashSection>)
    ensures
        section_values(r@) == sections_of(content@),
{
    let all = lines(content);
    let mut sections: Vec<CashSection> = Vec::new();
    let mut header: Option<String> = None;
    let mut rows: Vec<String> = Vec::new();
    let mut skipping = false;
    let mut i: usize = 0;
    proof {
        assert(section_values(sections@) =~= Seq::empty());
        assert(texts(rows@) =~= Seq::empty());
    }
    while i < all.len()
        invariant
            i <= all.len(),
            texts(all@) == lines_of(content@),
            framed(lines_of(content@), i as int) == (Framing {
                sections: section_values(sections@),
                header: match header {
                    Some(h) => Some(h@),
                    None => None,
                },
                rows: texts(rows@),
                skipping,
            }),
        decreases all.len() - i,
    {
        proof {
            assert(texts(all@)[i as int] == all[i as int]@);
        }
        let line = trim(all[i].as_str());
        if line.is_empty() {
        } else if starts_with(line, "Cash Statement:") {
            if rows.len() > 0 && header.is_some() {
                let ghost before = sections@;
                let done = CashSection {
                    header: match header {
                        Some(h) => h,
                        None => "".to_owned(),
                    },
                    rows,
                };
                let ghost v = section_value(done);
                sections.push(done);
                proof {
                    assert(section_values(sections@) =~= section_values(before).push(v));
                }
                header = None;
            }
            rows = Vec::new();
            proof {
                assert(texts(rows@) =~= Seq::empty());
            }
            skipping = contains(line, "Portfolio: Cash");
        } else if skipping {
        } else if header.is_none() {
            if starts_with(line, "Date,Activity") {
                header = Some(line.to_owned());
            }
        } else {
            let ghost before = rows@;
            rows.push(line.to_owned());
            proof {
                assert(texts(rows@) =~= texts(before).push(line@));
            }
        }
        i += 1;
    }
    if rows.len() > 0 && header.is_some() {
        let ghost before = sections@;
        let done = CashSection {
            header: match header {
                Some(h) => h,
                None => "".to_owned(),
            },
            rows,
        };
        let ghost v = section_value(done);
        sections.push(done);
        proof {
            assert(section_values(sections@) =~= section_values(before).push(v));
        }
    }
    sections
}

/// Completes a cash record as the statement of an account gives it: the
/// net flow is credit less debit, and the record counts only if its activity
/// is an external cash movement. `Err` where the net flow overflows.
pub fn finish_cash_record(record: CashRecord, account_type: &str) -> (r: Result<Option<CashRecord>, ()>)
    ensures
        match r {
            Err(_) => net_flow_of(record.credit, record.debit) is None,
            Ok(None) => net_flow_of(record.credit, record.debit) is Some && !record.class().external(),
            Ok(Some(done)) => {
                &&& record.class().external()
                &&& Some(done.net_flow@) == net_flow_of(record.credit, record.debit)
                &&& done.account_type@ == account_type@
                &&& done.date == record.date
                &&& done.activity == record.activity
                &&& done.credit == record.credit
                &&& done.debit == record.debit
                &&& done.balance == record.balance
            },
        },
{
    let net = match net_flow(record.credit, record.debit) {
        Some(n) => n,
        None => {
            return Err(());
        },
    };
    let class = crate::models::classify_activity(record.activity.as_str());
    if !class.is_external() {
        return Ok(None);
    }
    let CashRecord { date, activity, credit, debit, balance, account_type: _, net_flow: _ } = record;
    Ok(
        Some(
            CashRecord {
                date,
                activity,
                credit,
                debit,
                balance,
                account_type: account_type.to_owned(),
                net_flow: net,
            },
        ),
    )
}

/// The day of each record, by which the records are ordered.
pub open spec fn day_keys(records: Seq<CashRecord>) -> Seq<i64> {
    records.map_values(|r: CashRecord| r.date@ as i64)
}

/// Sorts the records by their dates. Records of one date keep their order.
pub fn sort_cash_records(records: Vec<CashRecord>) -> (r: Vec<CashRecord>)
    ensures
        r@ == sorted_items(records@, day_keys(records@)),
        r@.to_multiset() == records@.to_multiset(),
        forall|i: int, j: int| 0 <= i <= j < r.len() ==> (#[trigger] r[i]).date@ <= (#[trigger] r[j]).date@,
{
    let mut keys: Vec<i64> = Vec::new();
    let mut i: usize = 0;
    while i < records.len()
        invariant
            i <= records.len(),
            keys.len() == i,
            forall|k: int| 0 <= k < i ==> (#[trigger] keys[k]) == records[k].date@,
            forall|k: int| 0 <= k < i ==> crate::date::valid_day((#[trigger] records[k]).date@),
        decreases records.len() - i,
    {
        keys.push(records[i].date.day_number() as i64);
        i += 1;
    }
    let ghost unsorted = records@;
    proof {
        assert(keys@ =~= day_keys(unsorted));
    }
    let (sorted, sorted_days) = sort_by_keys(records, keys);
    proof {
        let key_of = |r: CashRecord| r.date@ as i64;
        lemma_sorted_items(unsorted, day_keys(unsorted), key_of);
        assert forall|a: int, b: int| 0 <= a <= b < sorted.len() implies (#[trigger] sorted[a]).date@ <= (
        #[trigger] sorted[b]).date@ by {
            broadcast use vstd::seq_lib::group_to_multiset_ensures;

            assert(key_of(sorted[a]) <= key_of(sorted[b]));
            assert(sorted@.contains(sorted[a]));
            assert(unsorted.to_multiset().count(sorted[a]) > 0);
            assert(unsorted.contains(sorted[a]));
            assert(sorted@.contains(sorted[b]));
            assert(unsorted.to_multiset().count(sorted[b]) > 0);
            assert(unsorted.contains(sorted[b]));
            let ja = choose|j: int| 0 <= j < unsorted.len() && unsorted[j] == sorted[a];
            let jb = choose|j: int| 0 <= j < unsorted.len() && unsorted[j] == sorted[b];
            assert(crate::date::valid_day(unsorted[ja].date@));
            assert(crate::date::valid_day(unsorted[jb].date@));
        }
    }
    sorted
}

} // verus!
