//! Which of the two file panels an action concerns.

use vstd::prelude::*;

verus! {

/// The local or the remote file panel.
#[derive(Debug, Clone, Copy, PartialEq, Eq, Structural)]
pub enum PanelKind {
    Local,
    Remote,
}

} // verus!
