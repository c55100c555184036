use vstd::prelude::*;

verus! {

/// The Unix time in seconds that chrono reads from a full timestamp text,
/// or `None` where chrono rejects the text.
pub uninterp spec fn utc_seconds_of(text: Seq<char>) -> Option<i64>;

/// Relies on chrono's `FromStr` for `DateTime<Utc>` (a relaxed RFC 3339
/// reading that also takes a ` UTC` suffix) and on `DateTime::timestamp`:
/// the outcome depends on the text alone.
#[verifier::external_body]
fn parse_utc_seconds(text: &str) -> (r: Option<i64>)
    ensures
        r == utc_seconds_of(text@),
{
    text.parse::<chrono::DateTime<chrono::Utc>>().ok().map(|d| d.timestamp())
}

/// The full timestamp text for a short deadline `yy-mm-dd hh:mm`: the
/// century `20` in front, seconds and the zone `UTC` behind.
pub open spec fn full_deadline_text(short: Seq<char>) -> Seq<char> {
    seq!['2', '0'] + short + seq![':', '0', '0', ' ', 'U', 'T', 'C']
}

/// The deadline, in Unix seconds, that a short deadline text stands for.
pub open spec fn parsed_deadline(short: Seq<char>) -> Option<i64> {
    utc_seconds_of(full_deadline_text(short))
}

/// Reads a short deadline `yy-mm-dd hh:mm` as a UTC instant in Unix seconds.
pub fn parse_deadline(short: &str) -> (r: Option<i64>)
    ensures
        r == parsed_deadline(short@),
{
    let full = String::from_str("20").concat(short).concat(":00 UTC");
    proof {
        reveal_strlit("20");
        reveal_strlit(":00 UTC");
        assert(full@ =~= full_deadline_text(short@));
    }
    parse_utc_seconds(full.as_str())
}

} // verus!
