//! What a statement file's name says about its contents.

use vstd::prelude::*;
use crate::text::{
    contains, contains_text, ends_with, ends_with_text, starts_with, starts_with_text, to_uppercase,
    uppercase,
};

verus! {

/// The kind of statement a file holds.
#[derive(Clone, Copy, Debug, PartialEq, Eq, Structural)]
pub enum FileType {
    Trading,
    Cash,
}

/// The kind of statement that a file name announces.
pub open spec fn file_type_of(filename: Seq<char>) -> FileType {
    if contains_text(uppercase(filename), "_CASH_"@) {
        FileType::Cash
    } else {
        FileType::Trading
    }
}

/// The account type that a file name announces.
pub open spec fn account_type_of(filename: Seq<char>) -> Seq<char> {
    let upper = uppercase(filename);
    if starts_with_text(upper, "GIA_"@) || contains_text(upper, "_GIA_"@) {
        "GIA"@
    } else if starts_with_text(upper, "ISA_"@) || contains_text(upper, "_ISA_"@) {
        "ISA"@
    } else if contains_text(upper, "GIA"@) {
        "GIA"@
    } else if contains_text(upper, "ISA"@) {
        "ISA"@
    } else {
        "Unknown"@
    }
}

/// What an uploaded file is taken for: nothing unless its name ends with
/// `.csv`, else the kind of statement that the name announces.
pub open spec fn upload_kind_of(filename: Seq<char>) -> Option<FileType> {
    if ends_with_text(filename, ".csv"@) {
        Some(file_type_of(filename))
    } else {
        None
    }
}

/// A file whose upper-cased name holds `_CASH_` is a cash statement; every
/// other file is a trading statement.
pub fn detect_file_type(filename: &str) -> (r: FileType)
    ensures
        r == file_type_of(filename@),
{
    let filename_upper = to_uppercase(filename);
    if contains(filename_upper.as_str(), "_CASH_") {
        FileType::Cash
    } else {
        FileType::Trading
    }
}

/// `GIA` or `ISA` as the upper-cased file name shows it, a delimited tag
/// taking precedence over a bare one and `GIA` over `ISA`; else `Unknown`.
pub fn extract_account_type(filename: &str) -> (r: String)
    ensures
        r@ == account_type_of(filename@),
{
    let filename_upper = to_uppercase(filename);
    let upper = filename_upper.as_str();
    if starts_with(upper, "GIA_") || contains(upper, "_GIA_") {
        "GIA".to_owned()
    } else if starts_with(upper, "ISA_") || contains(upper, "_ISA_") {
        "ISA".to_owned()
    } else if contains(upper, "GIA") {
        "GIA".to_owned()
    } else if contains(upper, "ISA") {
        "ISA".to_owned()
    } else {
        "Unknown".to_owned()
    }
}

/// What an uploaded file is taken for. A file without a name, or with a
/// name that does not end with `.csv`, is passed over.
pub fn upload_kind(filename: &str) -> (r: Option<FileType>)
    ensures
        r == upload_kind_of(filename@),
{
    if ends_with(filename, ".csv") {
        Some(detect_file_type(filename))
    } else {
        None
    }
}

} // verus!
