//! One row of a directory listing, local or remote, and how a line of a
//! server's `LIST` answer becomes one.

use vstd::prelude::*;
use crate::text::str_eq;

verus! {

/// A file or directory as the panels show it. `size` is absent for
/// directories; `modified` is a `YYYY-MM-DD HH:MM` stamp when known.
#[derive(Debug, Clone, PartialEq, Eq)]
pub struct FtpEntry {
    pub name: String,
    pub is_dir: bool,
    pub size: Option<u64>,
    pub modified: Option<String>,
}

/// What suppaftp's `File::try_from` reads from a `LIST` line: its name,
/// directory flag and size, and the set of years in which it parses. A line
/// parses either as a POSIX line (starting with `-`, `d` or `l`) or as a DOS
/// line (starting with a digit), and the name, flag and size come from the
/// line's text alone. A POSIX line dated with an hour instead of a year is
/// read in the current UTC year, so whether it parses (29 February) depends
/// on the year; the set holds the years in which it does.
pub uninterp spec fn list_line_fields(line: Seq<char>) -> (Seq<char>, bool, usize, Set<i32>);

/// Calls `suppaftp::list::File::try_from` on a line of a `LIST` answer and,
/// when it parses, returns the file's name, whether it is a directory, its
/// size, and its modification time in whole seconds since the Unix epoch
/// (from `SystemTime::duration_since` and `Duration::as_secs`; none for a
/// time before the epoch). The line parses exactly when the current year is
/// one of those `list_line_fields` gives, and then the name, flag and size
/// are the ones it gives. Nothing is stated of the time, which for a line
/// dated with an hour depends on the clock.
#[verifier::external_body]
fn parse_list_line(line: &str) -> (r: Option<(String, bool, usize, Option<u64>)>)
    ensures
        exists|year: i32| (#[trigger] list_line_fields(line@).3.contains(year)) == (r is Some),
        r matches Some((n, d, s, _)) ==> n@ == list_line_fields(line@).0 && d == list_line_fields(line@).1
            && s == list_line_fields(line@).2,
{
    match suppaftp::list::File::try_from(line) {
        Ok(f) => {
            let secs = match f.modified().duration_since(std::time::UNIX_EPOCH) {
                Ok(d) => Some(d.as_secs()),
                Err(_) => None,
            };
            Some((f.name().to_string(), f.is_directory(), f.size(), secs))
        },
        Err(_) => None,
    }
}

/// What chrono writes for `secs` seconds after the Unix epoch with
/// `format("%Y-%m-%d %H:%M")` in UTC, or none when the time is outside
/// chrono's range.
pub uninterp spec fn minute_text_spec(secs: u64) -> Option<Seq<char>>;

/// Calls `chrono::DateTime::<Utc>::from_timestamp(secs, 0)` (after
/// `i64::try_from`) and, for a time in chrono's range, its
/// `format("%Y-%m-%d %H:%M")`: the time as a UTC stamp to the minute. The
/// text is a function of `secs` alone, named `minute_text_spec`.
#[verifier::external_body]
fn format_minute(secs: u64) -> (r: Option<String>)
    ensures
        match r {
            Some(t) => minute_text_spec(secs) == Some(t@),
            None => minute_text_spec(secs) is None,
        },
{
    let s = match i64::try_from(secs) {
        Ok(s) => s,
        Err(_) => return None,
    };
    match chrono::DateTime::<chrono::Utc>::from_timestamp(s, 0) {
        Some(dt) => Some(dt.format("%Y-%m-%d %H:%M").to_string()),
        None => None,
    }
}

/// The entry for a listed file: none for the `.` and `..` entries; a
/// directory has no size; the stamp is kept.
pub open spec fn listed_entry(name: String, is_dir: bool, size: usize, modified: Option<String>) -> Option<FtpEntry> {
    if name@ == "."@ || name@ == ".."@ {
        None
    } else {
        Some(FtpEntry {
            name,
            is_dir,
            size: if is_dir {
                None
            } else {
                Some(size as u64)
            },
            modified,
        })
    }
}

/// The entry for a listed file (see `listed_entry`).
pub fn list_entry(name: String, is_dir: bool, size: usize, modified: Option<String>) -> (r: Option<FtpEntry>)
    ensures
        r == listed_entry(name, is_dir, size, modified),
{
    if str_eq(name.as_str(), ".") || str_eq(name.as_str(), "..") {
        return None;
    }
    let size = if is_dir {
        None
    } else {
        Some(size as u64)
    };
    Some(FtpEntry { name, is_dir, size, modified })
}

/// The entry for a file of a local directory: `meta` holds whether it is a
/// directory and its length, when its metadata could be read. An entry
/// without metadata counts as a file of unknown size, and a directory has
/// no size.
pub fn local_entry(name: String, meta: Option<(bool, u64)>, modified: Option<String>) -> (r: FtpEntry)
    ensures
        r.name == name,
        r.modified == modified,
        r.is_dir == (meta matches Some((d, _)) && d),
        r.size == (match meta {
            Some((false, len)) => Some(len),
            _ => None,
        }),
{
    let (is_dir, size) = match meta {
        Some((true, _)) => (true, None),
        Some((false, len)) => (false, Some(len)),
        None => (false, None),
    };
    FtpEntry { name, is_dir, size, modified }
}

impl FtpEntry {
    /// The entry that a line of a `LIST` answer describes, whenever the line
    /// parses (in the current year) and is not the `.` or `..` entry: its
    /// name, directory flag and size are those the line gives
    /// (`list_line_fields`), a directory has no size, and the modification
    /// time is written as a UTC stamp to the minute. Whether the line
    /// parses, and the time, may depend on the clock (see `parse_list_line`).
    pub fn from_list_line(line: &str) -> (r: Option<FtpEntry>)
        ensures
            r matches Some(e) ==> {
                let f = list_line_fields(line@);
                &&& e.name@ == f.0
                &&& e.is_dir == f.1
                &&& e.size == (if f.1 {
                    None
                } else {
                    Some(f.2 as u64)
                })
                &&& e.name@ != "."@ && e.name@ != ".."@
                &&& e.modified matches Some(m) ==> exists|t: u64| minute_text_spec(t) == Some(m@)
            },
            list_line_fields(line@).0 == "."@ || list_line_fields(line@).0 == ".."@ ==> r is None,
            exists|year: i32|
                if #[trigger] list_line_fields(line@).3.contains(year) {
                    (r is Some) == (list_line_fields(line@).0 != "."@ && list_line_fields(line@).0 != ".."@)
                } else {
                    r is None
                },
    {
        match parse_list_line(line) {
            None => None,
            Some((name, is_dir, size, secs)) => {
                let modified = match secs {
                    Some(t) => format_minute(t),
                    None => None,
                };
                list_entry(name, is_dir, size, modified)
            },
        }
    }
}

} // verus!
