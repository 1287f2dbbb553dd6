//! Calendar formatting of call timestamps.
use vstd::prelude::*;

verus! {

/// The text that chrono writes for the UTC moment `millis` milliseconds
/// after the Unix epoch under the strftime `pattern`, or `None` when the
/// moment is outside chrono's range.
pub uninterp spec fn utc_format(millis: i64, pattern: Seq<char>) -> Option<Seq<char>>;

/// A date and a time to the minute, as calls are listed.
pub const MINUTE_STAMP: &'static str = "%Y-%m-%d %H:%M";

/// A compact date, as the names of stored calls begin.
pub const DAY_STAMP: &'static str = "%Y%m%d";

/// The patterns the library formats with. Each is made of valid strftime
/// specifiers only, so chrono writes it without error.
pub open spec fn known_pattern(p: Seq<char>) -> bool {
    p == MINUTE_STAMP@ || p == DAY_STAMP@
}

/// The view of an optional string.
pub open spec fn opt_chars(o: Option<String>) -> Option<Seq<char>> {
    match o {
        Some(s) => Some(s@),
        None => None,
    }
}

/// `DateTime::<Utc>::from_timestamp_millis` followed by `format(pattern)`:
/// the contract names the result and says nothing more of it.
#[verifier::external_body]
pub(crate) fn format_utc_millis(millis: i64, pattern: &str) -> (r: Option<String>)
    requires
        known_pattern(pattern@),
    ensures
        opt_chars(r) == utc_format(millis, pattern@),
{
    match chrono::DateTime::from_timestamp_millis(millis) {
        Some(dt) => Some(dt.format(pattern).to_string()),
        None => None,
    }
}

/// The formatted moment, or nothing when it is out of range.
pub open spec fn stamp_or_empty(millis: i64, pattern: Seq<char>) -> Seq<char> {
    match utc_format(millis, pattern) {
        Some(s) => s,
        None => Seq::empty(),
    }
}

/// The formatted moment, or an empty string when it is out of range.
pub fn format_stamp(millis: i64, pattern: &str) -> (r: String)
    requires
        known_pattern(pattern@),
    ensures
        r@ == stamp_or_empty(millis, pattern@),
{
    match format_utc_millis(millis, pattern) {
        Some(s) => s,
        None => String::new(),
    }
}

} // verus!
