//! The right-click menu of a file panel.

use vstd::prelude::*;
use crate::models::panel::PanelKind;

verus! {

/// An open context menu: the panel and the entry it was opened on.
#[derive(Debug, Clone)]
pub struct ContextMenu {
    pub panel: PanelKind,
    pub target: String,
}

} // verus!
