//! Engine events, broadcast to observers. Losing an event never
//! affects a transfer or the store; the bus that fans these out lives
//! outside the library.

use vstd::prelude::*;
use crate::model::{ItemId, ItemStatus, JobId, JobStatus};

verus! {

/// One lifecycle, progress or diagnostic event.
#[derive(Clone, Debug)]
pub enum EngineEvent {
    JobStatusChanged { job_id: JobId, status: JobStatus },
    ItemAdded { item_id: ItemId, display_name: String, target_path: String, uri: String },
    ItemStatusChanged { item_id: ItemId, status: ItemStatus },
    Progress {
        item_id: ItemId,
        downloaded: u64,
        total: Option<u64>,
        speed_bps: u64,
        eta_secs: Option<u64>,
    },
    FragmentDone { item_id: ItemId, completed: u64, total: u64 },
    Error { scope: String, message: String },
    Info { scope: String, message: String },
}

} // verus!
