use vstd::prelude::*;

verus! {

/// The text `YYYY-MM-DD HH:MM:SS UTC` of a Unix time in seconds, if chrono can represent it.
pub uninterp spec fn utc_text(seconds: i64) -> Option<Seq<char>>;

/// Relies on chrono::Utc::now and DateTime::timestamp; nothing is known of the value.
#[verifier::external_body]
pub fn now_unix_seconds() -> (r: i64) {
    chrono::Utc::now().timestamp()
}

/// Relies on chrono::DateTime::from_timestamp and format with `%Y-%m-%d %H:%M:%S UTC`.
#[verifier::external_body]
pub(crate) fn format_utc(seconds: i64) -> (r: Option<String>)
    ensures
        r is Some <==> utc_text(seconds) is Some,
        r matches Some(t) ==> utc_text(seconds) == Some(t@),
{
    match chrono::DateTime::from_timestamp(seconds, 0) {
        Some(dt) => Some(dt.format("%Y-%m-%d %H:%M:%S UTC").to_string()),
        None => None,
    }
}

} // verus!
