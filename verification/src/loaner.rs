//! The Chromebook loaner pages: which form a page shows, the list of loaners
//! to return, and the record of a new loan.
use vstd::prelude::*;
use std::fmt::Write;
use chrono::TimeZone;
use crate::text::{owned, concatenate, str_equal};
use crate::value::{ValueType, ExpandableInfo, field_text, get_text};

verus! {

broadcast use vstd::string::group_string_axioms;

/// The form of the loaner page.
#[derive(PartialEq, Eq, Structural, Debug)]
pub enum LoanerForm {
    Borrowing,
    Returning,
    /// No form chosen yet.
    Placeholder,
}

/// The loaner page's form named in its address: `borrowing`, `returning`, or
/// none for anything else.
pub fn loaner_form(name: &str) -> (r: LoanerForm)
    ensures
        r == (if name@ == "borrowing"@ {
            LoanerForm::Borrowing
        } else if name@ == "returning"@ {
            LoanerForm::Returning
        } else {
            LoanerForm::Placeholder
        }),
{
    if str_equal(name, "borrowing") {
        LoanerForm::Borrowing
    } else if str_equal(name, "returning") {
        LoanerForm::Returning
    } else {
        LoanerForm::Placeholder
    }
}

/// The screens of the loaner kiosk.
#[derive(Clone, Copy, PartialEq, Eq, Structural, Debug)]
pub enum LoanerKioskState {
    UserEntry,
    ActionSelection,
    Complete,
}

/// A loaner on the return list: who borrowed it and when.
pub struct LoanerReturnOutput {
    /// The identifier of the loan record.
    pub subject: String,
    /// The borrower's first name.
    pub first_name: String,
    /// The borrower's last name.
    pub last_name: String,
    /// When the loaner was taken, as stored.
    pub date: String,
}

/// A loan record holds the fields that the return list shows.
pub open spec fn has_return_fields(info: ExpandableInfo) -> bool {
    &&& info.data@.contains_key("first_name"@)
    &&& info.data@.contains_key("last_name"@)
    &&& info.data@.contains_key("date_taken"@)
}

/// `r` is the return-list entry of the loan record `info`: its subject, and the
/// texts of its names and date (empty where the field is not text).
pub open spec fn is_return_entry(r: LoanerReturnOutput, info: ExpandableInfo) -> bool {
    &&& r.subject@ == info.subject@
    &&& r.first_name@ == field_text(info.data@, "first_name"@)
    &&& r.last_name@ == field_text(info.data@, "last_name"@)
    &&& r.date@ == field_text(info.data@, "date_taken"@)
}

/// The return-list entry of a loan record, which must hold the names and the
/// date.
pub fn loaner_return_entry(info: ExpandableInfo) -> (r: LoanerReturnOutput)
    requires
        has_return_fields(info),
    ensures
        is_return_entry(r, info),
{
    let first_name = get_text(&info.data, "first_name");
    let last_name = get_text(&info.data, "last_name");
    let date = get_text(&info.data, "date_taken");
    LoanerReturnOutput { subject: info.subject, first_name, last_name, date }
}

/// The return list of the scanned loan records, in order; each must hold the
/// names and the date.
pub fn loaners_return_list(items: Vec<ExpandableInfo>) -> (r: Vec<LoanerReturnOutput>)
    requires
        forall|i: int| 0 <= i < items@.len() ==> has_return_fields(#[trigger] items@[i]),
    ensures
        r@.len() == items@.len(),
        forall|i: int| 0 <= i < items@.len() ==> is_return_entry(#[trigger] r@[i], items@[i]),
{
    let ghost all = items@;
    let mut r: Vec<LoanerReturnOutput> = Vec::new();
    for item in it: items
        invariant
            it.seq() == all,
            forall|i: int| 0 <= i < all.len() ==> has_return_fields(#[trigger] all[i]),
            r@.len() == it.index(),
            forall|i: int| 0 <= i < it.index() ==> is_return_entry(#[trigger] r@[i], all[i]),
    {
        proof {
            assert(item == all[it.index() as int]);
        }
        r.push(loaner_return_entry(item));
    }
    r
}

/// The question asked before a loaner is checked in.
pub fn check_in_prompt(chosen: &Option<LoanerReturnOutput>) -> (r: String)
    ensures
        r@ == match chosen {
            Some(s) => "Are you sure want to check in "@ + s.first_name@ + " "@ + s.last_name@ + "?"@,
            None => "There is no student selected."@,
        },
{
    match chosen {
        Some(s) => {
            let a = concatenate("Are you sure want to check in ", s.first_name.as_str());
            let b = concatenate(a.as_str(), " ");
            let c = concatenate(b.as_str(), s.last_name.as_str());
            concatenate(c.as_str(), "?")
        },
        None => owned("There is no student selected."),
    }
}

/// A new loan record: the borrower's answers with the time the loaner was
/// taken stored under `date_taken`.
pub fn stamp_borrow_entry(input: ExpandableInfo, taken_at: String) -> (r: ExpandableInfo)
    ensures
        r.subject == input.subject,
        r.data@ == input.data@.insert("date_taken"@, ValueType::String(Some(taken_at))),
{
    let mut info = input;
    info.data.insert(owned("date_taken"), ValueType::String(Some(taken_at)));
    info
}

/// The text of a moment read from `text` with the `chrono` format `in_format`
/// as a time in UTC, shifted `west_seconds` west of UTC and written with the
/// format `out_format`; `None` when the text does not parse, the offset is out
/// of range or the output format is not valid.
pub uninterp spec fn offset_time_text(
    text: Seq<char>,
    in_format: Seq<char>,
    west_seconds: i32,
    out_format: Seq<char>,
) -> Option<Seq<char>>;

/// Reads a UTC time with `chrono` (`NaiveDateTime::parse_from_str`), shifts it
/// with `FixedOffset::west_opt` and writes it with `DateTime::format`: the
/// result is `offset_time_text` of the arguments.
#[verifier::external_body]
fn shifted_time_text(text: &str, in_format: &str, west_seconds: i32, out_format: &str) -> (r: Option<String>)
    ensures
        r matches Some(t) ==> offset_time_text(text@, in_format@, west_seconds, out_format@) == Some(t@),
        r is None ==> offset_time_text(text@, in_format@, west_seconds, out_format@) is None,
{
    let naive = chrono::NaiveDateTime::parse_from_str(text, in_format).ok()?;
    let zone = chrono::FixedOffset::west_opt(west_seconds)?;
    let mut out = String::new();
    write!(out, "{}", zone.from_utc_datetime(&naive).format(out_format)).ok()?;
    Some(out)
}

/// The format in which a loan's time is stored.
pub open spec fn stamp_format() -> Seq<char> {
    "%H:%M, %m/%d/%Y"@
}

/// The format in which the return list shows a loan's time.
pub open spec fn display_format() -> Seq<char> {
    "%l:%M %p, %m/%d/%Y"@
}

/// When a loaner was taken, as the return list shows it: the stored UTC time
/// in Eastern standard time (five hours west); `None` when the stored time
/// does not read.
pub fn loan_time_display(date: &str) -> (r: Option<String>)
    ensures
        match r {
            Some(t) => offset_time_text(date@, stamp_format(), 18000, display_format()) == Some(t@),
            None => offset_time_text(date@, stamp_format(), 18000, display_format()) is None,
        },
{
    shifted_time_text(date, "%H:%M, %m/%d/%Y", 5 * 3600, "%l:%M %p, %m/%d/%Y")
}

} // verus!
