//! Short notifications shown over the interface.

use vstd::prelude::*;
use crate::ids::new_id;

verus! {

#[verifier::external_type_specification]
#[verifier::external_body]
pub struct ExInstant(std::time::Instant);

/// Calls `std::time::Instant::now`. Nothing is stated of the instant.
#[verifier::external_body]
fn now() -> std::time::Instant {
    std::time::Instant::now()
}

/// Calls `std::time::Instant::elapsed` and `std::time::Duration::as_secs`:
/// the whole seconds since `t`. It depends on the clock; nothing is stated.
#[verifier::external_body]
pub(crate) fn elapsed_secs(t: &std::time::Instant) -> u64 {
    t.elapsed().as_secs()
}

/// Seconds a notification stays on screen.
pub const TOAST_SECONDS: u64 = 4;

/// Kind of a notification.
#[derive(Debug, Clone, Copy, PartialEq, Eq, Structural)]
pub enum ToastKind {
    Info,
    Success,
    Error,
}

/// A notification.
pub struct Toast {
    pub id: u128,
    pub message: String,
    pub kind: ToastKind,
    pub created_at: std::time::Instant,
}

/// Whether a notification shown for `elapsed` whole seconds is gone.
pub fn expired_after(elapsed: u64) -> (r: bool)
    ensures
        r == (elapsed >= TOAST_SECONDS),
{
    elapsed >= TOAST_SECONDS
}

impl Toast {
    /// A notification created now, under a fresh identifier.
    pub fn new(message: String, kind: ToastKind) -> (r: Self)
        ensures
            r.message == message,
            r.kind == kind,
            r.id != 0,
    {
        Toast { id: new_id(), message, kind, created_at: now() }
    }

    /// Whether the notification has been shown long enough. This reads the
    /// clock; `expired_after` states the rule.
    pub fn is_expired(&self) -> bool {
        expired_after(elapsed_secs(&self.created_at))
    }
}

} // verus!
