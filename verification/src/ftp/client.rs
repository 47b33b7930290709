//! Responses of FTP operations and the lines of the command log.

use vstd::prelude::*;
use crate::error::AppResult;

verus! {

/// Outcome of an FTP operation with the log lines it produced.
pub struct FtpResponse<T> {
    pub result: AppResult<T>,
    pub log: Vec<String>,
}

/// A sent command as the log shows it: `"> "` before the command.
pub fn cmd(line: &str) -> (r: String)
    ensures
        r@ == "> "@ + line@,
{
    let mut r = "> ".to_string();
    r.append(line);
    r
}

} // verus!
