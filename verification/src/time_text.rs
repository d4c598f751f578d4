//! Capture times as text.

use crate::text::optional_text;
use time::format_description::well_known::Rfc3339;
use time::OffsetDateTime;
use vstd::prelude::*;

verus! {

/// The RFC 3339 text, in UTC, of the instant that lies `nanos` nanoseconds
/// after the Unix epoch; nothing for an instant that has no such text.
pub uninterp spec fn rfc3339_of_nanos(nanos: int) -> Option<Seq<char>>;

/// `OffsetDateTime::from_unix_timestamp_nanos`, then `OffsetDateTime::format`
/// with the well-known format `Rfc3339`. The date-time is always in UTC, so
/// the text depends on the number alone. Where either step fails, there is
/// no text.
#[verifier::external_body]
fn rfc3339_from_nanos(nanos: i128) -> (r: Option<String>)
    ensures
        optional_text(r) == rfc3339_of_nanos(nanos as int),
{
    OffsetDateTime::from_unix_timestamp_nanos(nanos).ok().and_then(|dt| dt.format(&Rfc3339).ok())
}

/// The text of a capture time given in microseconds.
pub open spec fn rfc3339_of(ts: Option<u64>) -> Option<Seq<char>> {
    match ts {
        Some(t) => rfc3339_of_nanos(t * 1000),
        None => None,
    }
}

/// The RFC 3339 text of a capture time given in microseconds since the Unix
/// epoch.
pub fn ts_to_rfc3339(ts: Option<u64>) -> (r: Option<String>)
    ensures
        optional_text(r) == rfc3339_of(ts),
{
    match ts {
        Some(t) => rfc3339_from_nanos((t as i128) * 1000),
        None => None,
    }
}

} // verus!
