//! The wall clock and fresh identifiers, which the service takes from the
//! operating system and from a random source.
use vstd::prelude::*;

verus! {

/// The bound on the times, in milliseconds, that the service handles: a
/// `chrono::DateTime<Utc>` lies between the years -262143 and 262142, that is
/// within about 8.3 * 10^15 milliseconds of the Unix epoch.
pub const MAX_ABS_TIME_MILLIS: i64 = 10_000_000_000_000_000;

/// Calls `chrono::Utc::now` and converts it with `timestamp_millis`: the
/// current time in milliseconds since the Unix epoch. The clock decides the
/// value; all that is claimed is that it lies in the range of a `DateTime<Utc>`.
#[verifier::external_body]
pub(crate) fn now_millis() -> (r: i64)
    ensures
        -MAX_ABS_TIME_MILLIS < r < MAX_ABS_TIME_MILLIS,
{
    chrono::Utc::now().timestamp_millis()
}

/// Calls `chrono::Utc::now` and converts it with `timestamp`: the current
/// time in whole seconds since the Unix epoch. The clock decides the value;
/// all that is claimed is that it lies in the range of a `DateTime<Utc>`.
#[verifier::external_body]
pub(crate) fn now_seconds() -> (r: i64)
    ensures
        -MAX_ABS_TIME_MILLIS / 1000 < r < MAX_ABS_TIME_MILLIS / 1000,
{
    chrono::Utc::now().timestamp()
}

/// A lower-case hexadecimal digit.
pub open spec fn is_lower_hex_digit(c: char) -> bool {
    ('0' <= c && c <= '9') || ('a' <= c && c <= 'f')
}

/// Whether a position of a hyphenated UUID holds a hyphen.
pub open spec fn uuid_hyphen_at(i: int) -> bool {
    i == 8 || i == 13 || i == 18 || i == 23
}

/// The hyphenated lower-case form of a UUID: 36 characters, hyphens at
/// positions 8, 13, 18 and 23, and hexadecimal digits elsewhere.
pub open spec fn uuid_text(s: Seq<char>) -> bool {
    &&& s.len() == 36
    &&& forall|i: int| 0 <= i < 36 ==> if uuid_hyphen_at(i) {
        #[trigger] s[i] == '-'
    } else {
        is_lower_hex_digit(s[i])
    }
}

/// Calls `uuid::Uuid::new_v4` and renders it with `to_string`: a random
/// identifier. Its `Display` writes the hyphenated lower-case form, so the
/// text has that shape; which identifier it is, the random source decides.
#[verifier::external_body]
pub(crate) fn new_uuid_string() -> (r: String)
    ensures
        uuid_text(r@),
{
    uuid::Uuid::new_v4().to_string()
}

} // verus!
