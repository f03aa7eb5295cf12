//! Trusted wrappers around the clock and the identifier generator.
//!
//! Everything in this module is believed, not verified: each wrapper's
//! contract states only what the called crate's source plainly shows.

use vstd::prelude::*;

verus! {

/// The hyphenated text form of an identifier, as `uuid`'s `Display` renders
/// it: a pure function of the 128-bit value alone.
pub uninterp spec fn id_text_of(id: u128) -> Seq<char>;

/// Relies on `uuid::Uuid::new_v4`, which draws a random 128-bit value:
/// nothing relates two calls, so nothing is promised of the result.
#[verifier::external_body]
pub(crate) fn fresh_id() -> (r: u128) {
    uuid::Uuid::new_v4().as_u128()
}

/// Relies on `uuid::Uuid::from_u128` and the `Display` impl for `Uuid`:
/// the hyphenated form (8-4-4-4-12 hex digits) is 36 characters long and
/// depends on the value alone.
#[verifier::external_body]
pub(crate) fn id_text(id: u128) -> (r: String)
    ensures
        r@ == id_text_of(id),
        r@.len() == 36,
{
    uuid::Uuid::from_u128(id).to_string()
}

/// The lowercase form of a text, as `str::to_lowercase` folds it: the full
/// Unicode case mapping, a pure function of the characters alone.
pub uninterp spec fn lower_of(s: Seq<char>) -> Seq<char>;

/// Relies on `str::to_lowercase`: the Unicode lowercase equivalent of the
/// text, depending on the characters alone; an empty text stays empty.
#[verifier::external_body]
pub(crate) fn lowercase(s: &str) -> (r: String)
    ensures
        r@ == lower_of(s@),
        s@.len() == 0 ==> r@.len() == 0,
{
    s.to_lowercase()
}

/// Relies on `chrono::Local::now` and `Datelike::num_days_from_ce`: the
/// current local calendar date as a day count from the common era. The
/// result depends on the clock, so only its `i32` range is promised.
#[verifier::external_body]
pub(crate) fn today_day_number() -> (r: i64)
    ensures
        -2147483648 <= r <= 2147483647,
{
    chrono::Datelike::num_days_from_ce(&chrono::Local::now().date_naive()) as i64
}

/// Relies on `chrono::Utc::now` and `DateTime::timestamp`: seconds since the
/// epoch. The result depends on the clock; `chrono` bounds its dates to about
/// a quarter of a million years around the epoch, so the count stays well
/// inside nine trillion seconds either way.
#[verifier::external_body]
pub(crate) fn now_timestamp() -> (r: i64)
    ensures
        -9_000_000_000_000 <= r <= 9_000_000_000_000,
{
    chrono::Utc::now().timestamp()
}

} // verus!
