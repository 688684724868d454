//! Dates in the store's form: the boundary to `chrono`.

use vstd::prelude::*;

verus! {

/// The form in which the store takes a date and time.
pub const CANONICAL: &'static str = "%Y-%m-%d %H:%M:%S";

/// What stands in for a date that cannot be read: the first second of 1970
/// in the canonical form.
pub open spec fn placeholder() -> Seq<char> {
    "1970-01-01 00:00:00"@
}

/// The date and time that `chrono::NaiveDateTime::parse_from_str` reads in
/// `value` by the format `from`, written by the format `to`; `None` where it
/// reads none.
pub uninterp spec fn reformatted(value: Seq<char>, from: Seq<char>, to: Seq<char>) -> Option<
    Seq<char>,
>;

/// `chrono::NaiveDateTime::parse_from_str` and, on what it read,
/// `chrono::NaiveDateTime::format`. Only the canonical form is written, which
/// `format` can always write.
#[verifier::external_body]
fn reformat(value: &str, from: &str, to: &str) -> (r: Option<String>)
    requires
        to@ == CANONICAL@,
    ensures
        match r {
            Some(text) => reformatted(value@, from@, to@) == Some(text@),
            None => reformatted(value@, from@, to@) is None,
        },
{
    match chrono::NaiveDateTime::parse_from_str(value, from) {
        Ok(moment) => Some(moment.format(to).to_string()),
        Err(_) => None,
    }
}

/// `chrono::NaiveDateTime::default`, the first second of 1970, written by
/// `chrono::NaiveDateTime::format` in the canonical form.
#[verifier::external_body]
fn epoch(to: &str) -> (r: String)
    requires
        to@ == CANONICAL@,
    ensures
        r@ == placeholder(),
{
    chrono::NaiveDateTime::default().format(to).to_string()
}

/// `value`, read by `format`, in the canonical form; the placeholder where
/// `value` cannot be read.
pub open spec fn canonical_date(value: Seq<char>, format: Seq<char>) -> Seq<char> {
    match reformatted(value, format, CANONICAL@) {
        Some(text) => text,
        None => placeholder(),
    }
}

/// Reads `value` by `format` and writes it in the canonical form. A value
/// that cannot be read gives the placeholder.
pub fn canonical(value: &str, format: &str) -> (r: String)
    ensures
        r@ == canonical_date(value@, format@),
{
    match reformat(value, format, CANONICAL) {
        Some(text) => text,
        None => epoch(CANONICAL),
    }
}

} // verus!
