//! The watch actor's state: the directory it watches, its ignore patterns,
//! and the channel on which it emits change batches.  The loop that drives
//! it from raw OS notifications lives outside the library; the event
//! classification and batch building it uses are in `filter`.

#![verifier::loop_isolation(false)]
use vstd::prelude::*;
use crate::pathmodel::SyncPath;

verus! {

/// A watch actor: it watches a directory for changes and sends batches of
/// changed file paths onward.
pub struct WatchActor {
    pub watch_dir: SyncPath,
    pub ignore_includes: Vec<String>,
    pub ignore_ends: Vec<String>,
    /// The sending half on which finished change batches leave the actor.
    pub files_to_upload_tx: std::sync::mpsc::Sender<Vec<SyncPath>>,
}

} // verus!
