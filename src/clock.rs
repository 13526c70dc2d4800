//! The clock and timestamps, through chrono.
use vstd::prelude::*;
use crate::lock::UtcInstant;

verus! {

/// The instant a timestamp text denotes, if it parses.
pub uninterp spec fn parsed_utc(s: Seq<char>) -> Option<(i64, u32)>;

/// Relies on `<chrono::DateTime<chrono::Utc> as FromStr>::from_str` (a relaxed
/// RFC 3339 form), then `timestamp` and `timestamp_subsec_nanos`: the
/// outcome depends on the text alone.
#[verifier::external_body]
pub(crate) fn parse_utc(s: &str) -> (r: Option<UtcInstant>)
    ensures
        r is None <==> parsed_utc(s@) is None,
        r matches Some(t) ==> parsed_utc(s@) == Some((t.secs, t.nanos)),
{
    match s.parse::<chrono::DateTime<chrono::Utc>>() {
        Ok(d) => Some(UtcInstant { secs: d.timestamp(), nanos: d.timestamp_subsec_nanos() }),
        Err(_) => None,
    }
}

/// Relies on `chrono::Utc::now`, read as `timestamp` and
/// `timestamp_subsec_nanos`.
#[verifier::external_body]
pub(crate) fn utc_now() -> (r: UtcInstant) {
    let d = chrono::Utc::now();
    UtcInstant { secs: d.timestamp(), nanos: d.timestamp_subsec_nanos() }
}

/// Relies on `chrono::Utc::now` and `DateTime::to_rfc3339`: the current time
/// as lock-file text.
#[verifier::external_body]
pub(crate) fn utc_now_rfc3339() -> (r: String) {
    chrono::Utc::now().to_rfc3339()
}

/// Relies on `chrono::Local::now` and `DateTime::format`, here only with the
/// pattern `%Y-%m-%d %H:%M`, which always formats.
#[verifier::external_body]
pub(crate) fn local_now_text(pattern: &str) -> (r: String)
    requires
        pattern@ == "%Y-%m-%d %H:%M"@,
{
    chrono::Local::now().format(pattern).to_string()
}

} // verus!
