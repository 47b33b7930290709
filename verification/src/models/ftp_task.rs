//! Results of FTP tasks as they come back to the interface.

use vstd::prelude::*;
use crate::error::{AppError, AppErrorMsg};

verus! {

/// Outcome of an FTP task with the log lines it produced.
#[derive(Debug)]
pub struct FtpTaskResult<T> {
    pub result: Result<T, AppErrorMsg>,
    pub log: Vec<String>,
}

impl<T> FtpTaskResult<T> {
    /// Wraps the outcome of an operation for the interface.
    pub fn from_response(result: Result<T, AppError>, log: Vec<String>) -> (r: Self)
        ensures
            r.log@ == log@,
            match (r.result, result) {
                (Ok(a), Ok(b)) => a == b,
                (Err(a), Err(b)) => a.0 == b,
                _ => false,
            },
    {
        let result = match result {
            Ok(v) => Ok(v),
            Err(e) => Err(AppErrorMsg(e)),
        };
        FtpTaskResult { result, log }
    }
}

} // verus!
