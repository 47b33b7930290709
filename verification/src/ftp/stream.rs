//! The bookkeeping of streamed transfers and of what the command log says
//! when an operation fails or is cancelled.

use vstd::prelude::*;
use crate::error::{AppError, AppResult, error_message};
use crate::ftp::throttle::{pause_nanos, throttle_nanos};
use crate::text::{decimal_digits, to_decimal};

verus! {

/// After reading `n` bytes of a transfer that had moved `transferred`
/// bytes: `None` when the source is exhausted (`n` is zero); otherwise the
/// new byte count to report and the nanoseconds to wait under the bandwidth
/// limit.
pub open spec fn chunk_outcome(n: usize, transferred: u64, limit_kbps: Option<u32>) -> Option<(u64, u64)> {
    if n == 0 {
        None
    } else {
        Some(((transferred + n) as u64, pause_nanos(n as u64, limit_kbps) as u64))
    }
}

/// Accounts for a chunk just read (see `chunk_outcome`). A transfer never
/// counts past `u64::MAX` bytes.
pub fn after_read(n: usize, transferred: u64, limit_kbps: Option<u32>) -> (r: Option<(u64, u64)>)
    requires
        transferred + n <= u64::MAX,
    ensures
        r == chunk_outcome(n, transferred, limit_kbps),
{
    if n == 0 {
        return None;
    }
    let moved = n as u64;
    Some((transferred + moved, throttle_nanos(moved, limit_kbps)))
}

/// The log line of an operation `op` that failed with `e`.
pub open spec fn error_line_spec(op: Seq<char>, e: AppError) -> Seq<char> {
    "< "@ + op + " ERROR: "@ + error_message(e)
}

/// The log line of an operation `op` that failed with `e`.
pub fn error_line(op: &str, e: &AppError) -> (r: String)
    ensures
        r@ == error_line_spec(op@, *e),
{
    let mut r = "< ".to_string();
    r.append(op);
    r.append(" ERROR: ");
    let m = e.message();
    r.append(m.as_str());
    r
}

/// How a streamed transfer's log ends, and whether its session is to be
/// dropped: a cancelled transfer (asked for, or ended so) logs
/// `> CANCELLED` and drops the session; a failed one logs its error line;
/// a completed one logs nothing more.
pub fn transfer_epilogue(op: &str, cancel_requested: bool, result: &AppResult<()>) -> (r: (Option<String>, bool))
    ensures
        if cancel_requested || result matches Err(AppError::Cancelled) {
            r.1 && (r.0 matches Some(l) && l@ == "> CANCELLED"@)
        } else {
            !r.1 && match result {
                Ok(()) => r.0 is None,
                Err(e) => r.0 matches Some(l) && l@ == error_line_spec(op@, *e),
            }
        },
{
    let cancelled = match result {
        Err(AppError::Cancelled) => true,
        _ => false,
    };
    if cancel_requested || cancelled {
        return (Some("> CANCELLED".to_string()), true);
    }
    match result {
        Ok(()) => (None, false),
        Err(e) => (Some(error_line(op, e)), false),
    }
}

/// A command sent on the control connection to set up a streamed transfer.
#[derive(Debug, Clone, PartialEq, Eq)]
pub enum TransferCommand {
    /// Change to the remote directory.
    Cwd(String),
    /// Start the next transfer at this byte offset.
    Rest(u64),
    /// Append to a remote file.
    Appe(String),
    /// Store a remote file from the start.
    Stor(String),
    /// Retrieve a remote file.
    Retr(String),
}

/// The command as the log shows it, before the `"> "` mark.
pub open spec fn command_text_spec(c: TransferCommand) -> Seq<char> {
    match c {
        TransferCommand::Cwd(p) => "CWD "@ + p@,
        TransferCommand::Rest(n) => "REST "@ + decimal_digits(n as nat),
        TransferCommand::Appe(f) => "APPE "@ + f@,
        TransferCommand::Stor(f) => "STOR "@ + f@,
        TransferCommand::Retr(f) => "RETR "@ + f@,
    }
}

/// The command as the log shows it (see `command_text_spec`).
pub fn command_text(c: &TransferCommand) -> (r: String)
    ensures
        r@ == command_text_spec(*c),
{
    let (mut head, tail) = match c {
        TransferCommand::Cwd(p) => ("CWD ".to_string(), p.clone()),
        TransferCommand::Rest(n) => ("REST ".to_string(), to_decimal(*n)),
        TransferCommand::Appe(f) => ("APPE ".to_string(), f.clone()),
        TransferCommand::Stor(f) => ("STOR ".to_string(), f.clone()),
        TransferCommand::Retr(f) => ("RETR ".to_string(), f.clone()),
    };
    head.append(tail.as_str());
    head
}

/// The commands that start an upload of `filename` into `remote_path`: the
/// directory change, then `REST` and `APPE` to resume at a nonzero offset,
/// or `STOR` to send the whole file.
pub open spec fn is_upload_plan(cmds: Seq<TransferCommand>, remote_path: Seq<char>, filename: Seq<char>, resume_from: u64) -> bool {
    &&& cmds.len() == (if resume_from > 0 { 3int } else { 2int })
    &&& cmds[0] matches TransferCommand::Cwd(p) && p@ == remote_path
    &&& if resume_from > 0 {
        &&& cmds[1] == TransferCommand::Rest(resume_from)
        &&& cmds[2] matches TransferCommand::Appe(f) && f@ == filename
    } else {
        cmds[1] matches TransferCommand::Stor(f) && f@ == filename
    }
}

/// The commands that start a download of `filename` from `remote_path`:
/// the directory change, `REST` when resuming at a nonzero offset, then
/// `RETR`.
pub open spec fn is_download_plan(cmds: Seq<TransferCommand>, remote_path: Seq<char>, filename: Seq<char>, resume_from: u64) -> bool {
    &&& cmds.len() == (if resume_from > 0 { 3int } else { 2int })
    &&& cmds[0] matches TransferCommand::Cwd(p) && p@ == remote_path
    &&& resume_from > 0 ==> cmds[1] == TransferCommand::Rest(resume_from)
    &&& cmds.last() matches TransferCommand::Retr(f) && f@ == filename
}

/// The commands that start an upload (see `is_upload_plan`).
pub fn upload_commands(remote_path: &str, filename: &str, resume_from: u64) -> (r: Vec<TransferCommand>)
    ensures
        is_upload_plan(r@, remote_path@, filename@, resume_from),
{
    let mut r: Vec<TransferCommand> = Vec::new();
    r.push(TransferCommand::Cwd(remote_path.to_string()));
    if resume_from > 0 {
        r.push(TransferCommand::Rest(resume_from));
        r.push(TransferCommand::Appe(filename.to_string()));
    } else {
        r.push(TransferCommand::Stor(filename.to_string()));
    }
    r
}

/// The commands that start a download (see `is_download_plan`).
pub fn download_commands(remote_path: &str, filename: &str, resume_from: u64) -> (r: Vec<TransferCommand>)
    ensures
        is_download_plan(r@, remote_path@, filename@, resume_from),
{
    let mut r: Vec<TransferCommand> = Vec::new();
    r.push(TransferCommand::Cwd(remote_path.to_string()));
    if resume_from > 0 {
        r.push(TransferCommand::Rest(resume_from));
    }
    r.push(TransferCommand::Retr(filename.to_string()));
    r
}

} // verus!
