//! Remote path joining and the modification stamps of listings.

use vstd::prelude::*;
use crate::models::ftp_entry::FtpEntry;
use crate::text::ends_with_char;

verus! {

/// `name` inside remote directory `base`, with exactly the one `/` that
/// `base` may already end with.
pub open spec fn join_remote_spec(base: Seq<char>, name: Seq<char>) -> Seq<char> {
    if ends_with_char(base, '/') {
        base + name
    } else {
        base + "/"@ + name
    }
}

/// `name` inside remote directory `base`.
pub fn join_remote(base: &str, name: &str) -> (r: String)
    ensures
        r@ == join_remote_spec(base@, name@),
{
    let n = base.unicode_len();
    let mut r = base.to_string();
    if n > 0 && base.get_char(n - 1) == '/' {
        r.append(name);
    } else {
        r.append("/");
        r.append(name);
    }
    r
}

/// Seconds since the Unix epoch that chrono reads from a `%Y-%m-%d %H:%M`
/// stamp (taken as UTC), or `None` when the text is no such stamp.
pub uninterp spec fn minute_stamp_spec(s: Seq<char>) -> Option<i64>;

/// Calls `chrono::NaiveDateTime::parse_from_str` with the format
/// `%Y-%m-%d %H:%M` and takes the result's UTC timestamp. The result is a
/// function of the text alone; nothing more of it is stated.
#[verifier::external_body]
fn parse_minute_stamp(s: &str) -> (r: Option<i64>)
    ensures
        r == minute_stamp_spec(s@),
{
    chrono::NaiveDateTime::parse_from_str(s, "%Y-%m-%d %H:%M").ok().map(|dt| dt.and_utc().timestamp())
}

/// The stamp of an entry, in seconds since the Unix epoch, when it has one
/// that reads as a date.
pub open spec fn entry_stamp(e: FtpEntry) -> Option<i64> {
    match e.modified {
        Some(m) => minute_stamp_spec(m@),
        None => None,
    }
}

/// Reads the stamp of an entry as seconds since the Unix epoch.
pub fn entry_timestamp(entry: &FtpEntry) -> (r: Option<i64>)
    ensures
        r == entry_stamp(*entry),
{
    match &entry.modified {
        Some(m) => parse_minute_stamp(m.as_str()),
        None => None,
    }
}

/// The modification time of an entry, in nanoseconds since the Unix epoch,
/// when its stamp reads as a date. The time is counted from the epoch as an
/// unsigned duration, so a stamp before the epoch is outside what this
/// accepts; `listing_time_of` tests for it first.
pub fn parse_modified(entry: &FtpEntry) -> (r: Option<u128>)
    requires
        entry_stamp(*entry) matches Some(t) ==> t >= 0,
    ensures
        r == match entry_stamp(*entry) {
            Some(t) => Some((t * 1_000_000_000) as u128),
            None => None,
        },
{
    match entry_timestamp(entry) {
        Some(t) => Some(t as u128 * 1_000_000_000),
        None => None,
    }
}

} // verus!
