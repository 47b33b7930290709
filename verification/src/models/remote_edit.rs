//! Remote files opened in a local editor, waiting to be uploaded back.

use vstd::prelude::*;

verus! {

/// A remote file downloaded to `temp_path` for editing.
#[derive(Debug, Clone)]
pub struct RemoteEdit {
    pub temp_path: String,
    pub remote_dir: String,
    pub filename: String,
    pub connection_id: u128,
}

} // verus!
