//! Engine decisions: the per-job and per-item pipeline logic. The
//! engine's outside work — network transfers, file writes, store
//! persistence — happens around these functions; every decision they
//! make about routing, planning, resume and completion is stated and
//! proved here.

use vstd::prelude::*;
use crate::model::{Fragment, FragmentKey, FragmentState, JobId, JobStatus, ResourceType};
use crate::store::FragmentRecord;

verus! {

/// How the per-item pipeline treats a resource: delegate the whole
/// file to a single-shot protocol driver, or run the fragment
/// machinery over a transfer driver.
#[derive(Clone, Copy, PartialEq, Eq, Structural, Debug)]
pub enum ItemRoute {
    DelegateBitTorrent,
    DelegateAdb,
    DelegateEd2k,
    DelegateSftp,
    Fragmented,
}

/// Route an item by the protocol of its primary resource: BitTorrent,
/// ADB, ED2K and SFTP transfer whole files on their own; everything
/// else goes through the fragment pipeline and driver selection.
pub fn route_for(rtype: ResourceType) -> (r: ItemRoute)
    ensures
        r == (match rtype {
            ResourceType::BitTorrent => ItemRoute::DelegateBitTorrent,
            ResourceType::Adb => ItemRoute::DelegateAdb,
            ResourceType::Ed2k => ItemRoute::DelegateEd2k,
            ResourceType::Sftp => ItemRoute::DelegateSftp,
            _ => ItemRoute::Fragmented,
        }),
{
    match rtype {
        ResourceType::BitTorrent => ItemRoute::DelegateBitTorrent,
        ResourceType::Adb => ItemRoute::DelegateAdb,
        ResourceType::Ed2k => ItemRoute::DelegateEd2k,
        ResourceType::Sftp => ItemRoute::DelegateSftp,
        _ => ItemRoute::Fragmented,
    }
}

/// Concurrency is clamped to at least one fragment in flight.
pub fn clamp_concurrency(concurrency: usize) -> (r: usize)
    ensures
        r == if concurrency >= 1 {
            concurrency as int
        } else {
            1int
        },
{
    if concurrency >= 1 {
        concurrency
    } else {
        1
    }
}

/// Chunk size is clamped to at least one mebibyte.
pub fn clamp_chunk_size(chunk_size: u64) -> (r: u64)
    ensures
        r == if chunk_size >= 1048576 {
            chunk_size as int
        } else {
            1048576int
        },
{
    if chunk_size >= 1048576 {
        chunk_size
    } else {
        1048576
    }
}

/// The staging path of an item: its target path with `.partial`
/// appended.
pub fn partial_path_of(target_path: &str) -> (r: String)
    ensures
        r@ == target_path@ + ".partial"@,
{
    let mut p = String::from_str(target_path);
    p.append(".partial");
    p
}

/// Range fragments are planned only when the probe confirmed range
/// support and gave a total size.
pub fn effective_supports_ranges(probed_supports_ranges: bool, total: Option<u64>) -> (r: bool)
    ensures
        r == (probed_supports_ranges && total is Some),
{
    probed_supports_ranges && total.is_some()
}

/// The `(offset, len)` pairs to persist for a plan; an indexed key has
/// no byte interval and persists as the whole-file sentinel.
pub fn ranges_of_plan(frags: &Vec<Fragment>) -> (r: Vec<(u64, u64)>)
    ensures
        r@.len() == frags@.len(),
        forall|i: int|
            0 <= i < frags@.len() ==> r@[i] == (match (#[trigger] frags@[i]).key {
                FragmentKey::Range { offset, len } => (offset, len),
                FragmentKey::Indexed { .. } => (0u64, 0u64),
            }),
{
    let n = frags.len();
    let mut r: Vec<(u64, u64)> = Vec::new();
    let mut i: usize = 0;
    while i < n
        invariant
            n == frags@.len(),
            i <= n,
            r@.len() == i,
            forall|j: int|
                0 <= j < i ==> r@[j] == (match (#[trigger] frags@[j]).key {
                    FragmentKey::Range { offset, len } => (offset, len),
                    FragmentKey::Indexed { .. } => (0u64, 0u64),
                }),
        decreases n - i,
    {
        let pair = match frags[i].key {
            FragmentKey::Range { offset, len } => (offset, len),
            FragmentKey::Indexed { .. } => (0u64, 0u64),
        };
        r.push(pair);
        i = i + 1;
    }
    r
}

/// Only `Missing` and `Bad` fragments are pending work at resume time.
pub open spec fn is_pending_state(s: FragmentState) -> bool {
    s == FragmentState::Missing || s == FragmentState::Bad
}

pub open spec fn done_count(s: Seq<FragmentRecord>) -> int
    decreases s.len(),
{
    if s.len() == 0 {
        0
    } else {
        done_count(s.drop_last()) + if s.last().state == FragmentState::Done {
            1int
        } else {
            0int
        }
    }
}

pub open spec fn pending_count(s: Seq<FragmentRecord>) -> int
    decreases s.len(),
{
    if s.len() == 0 {
        0
    } else {
        pending_count(s.drop_last()) + if is_pending_state(s.last().state) {
            1int
        } else {
            0int
        }
    }
}

/// Sum of the lengths of all fragments.
pub open spec fn total_bytes(s: Seq<FragmentRecord>) -> int
    decreases s.len(),
{
    if s.len() == 0 {
        0
    } else {
        total_bytes(s.drop_last()) + s.last().len
    }
}

/// Sum of the lengths of the `Done` fragments.
pub open spec fn done_bytes(s: Seq<FragmentRecord>) -> int
    decreases s.len(),
{
    if s.len() == 0 {
        0
    } else {
        done_bytes(s.drop_last()) + if s.last().state == FragmentState::Done {
            s.last().len as int
        } else {
            0int
        }
    }
}

/// Sum of the lengths of the pending (`Missing` or `Bad`) fragments.
pub open spec fn pending_bytes(s: Seq<FragmentRecord>) -> int
    decreases s.len(),
{
    if s.len() == 0 {
        0
    } else {
        pending_bytes(s.drop_last()) + if is_pending_state(s.last().state) {
            s.last().len as int
        } else {
            0int
        }
    }
}

/// Law: resume does exactly the remaining work. When every fragment is
/// `Done`, `Missing` or `Bad` — the states a finished or interrupted
/// run leaves behind — the pending fragments are exactly those not
/// done, and completing exactly those adds the bytes still missing
/// from the total: `done_bytes + pending_bytes == total_bytes`.
pub proof fn lemma_resume_exact(s: Seq<FragmentRecord>)
    requires
        forall|i: int|
            0 <= i < s.len() ==> ((#[trigger] s[i]).state == FragmentState::Done
                || is_pending_state(s[i].state)),
    ensures
        pending_count(s) == s.len() - done_count(s),
        done_bytes(s) + pending_bytes(s) == total_bytes(s),
    decreases s.len(),
{
    if s.len() > 0 {
        assert(forall|i: int|
            0 <= i < s.drop_last().len() ==> ((#[trigger] s.drop_last()[i]).state
                == FragmentState::Done || is_pending_state(s.drop_last()[i].state)));
        lemma_resume_exact(s.drop_last());
        assert(s[s.len() - 1] == s.last());
    }
}

/// Indices of the fragments that still need work, in ascending order.
pub fn pending_indices(frags: &Vec<FragmentRecord>) -> (r: Vec<usize>)
    ensures
        r@.len() == pending_count(frags@),
        forall|k: int|
            0 <= k < r@.len() ==> r@[k] < frags@.len() && is_pending_state(
                frags@[#[trigger] r@[k] as int].state,
            ),
        forall|a: int, b: int| 0 <= a < b < r@.len() ==> r@[a] < r@[b],
        forall|j: int|
            0 <= j < frags@.len() && is_pending_state((#[trigger] frags@[j]).state) ==> r@.contains(
                j as usize,
            ),
{
    let n = frags.len();
    let mut r: Vec<usize> = Vec::new();
    let mut i: usize = 0;
    while i < n
        invariant
            n == frags@.len(),
            i <= n,
            r@.len() == pending_count(frags@.take(i as int)),
            forall|k: int|
                0 <= k < r@.len() ==> r@[k] < i && is_pending_state(
                    frags@[#[trigger] r@[k] as int].state,
                ),
            forall|a: int, b: int| 0 <= a < b < r@.len() ==> r@[a] < r@[b],
            forall|j: int|
                0 <= j < i && is_pending_state((#[trigger] frags@[j]).state) ==> r@.contains(
                    j as usize,
                ),
        decreases n - i,
    {
        let ghost prev = r@;
        let state = frags[i].state;
        let pending = match state {
            FragmentState::Missing => true,
            FragmentState::Bad => true,
            _ => false,
        };
        if pending {
            r.push(i);
        }
        i = i + 1;
        proof {
            assert(frags@.take(i as int).drop_last() =~= frags@.take(i - 1));
            assert(frags@.take(i as int).last() == frags@[i - 1]);
            if is_pending_state(frags@[i - 1].state) {
                assert(r@ == prev.push((i - 1) as usize));
                assert forall|j: int|
                    0 <= j < i && is_pending_state(
                        (#[trigger] frags@[j]).state,
                    ) implies r@.contains(j as usize) by {
                    if j < i - 1 {
                        assert(prev.contains(j as usize));
                        let w = choose|w: int| 0 <= w < prev.len() && prev[w] == j as usize;
                        assert(r@[w] == j as usize);
                    } else {
                        assert(r@[r@.len() - 1] == (i - 1) as usize);
                    }
                }
            }
        }
    }
    proof {
        assert(frags@.take(n as int) =~= frags@);
    }
    r
}

/// Whether every persisted fragment of the item is `Done`; checked
/// before the partial file is promoted.
pub fn all_fragments_done(frags: &Vec<FragmentRecord>) -> (r: bool)
    ensures
        r == (forall|i: int|
            0 <= i < frags@.len() ==> (#[trigger] frags@[i]).state == FragmentState::Done),
{
    let n = frags.len();
    let mut i: usize = 0;
    while i < n
        invariant
            n == frags@.len(),
            i <= n,
            forall|j: int| 0 <= j < i ==> (#[trigger] frags@[j]).state == FragmentState::Done,
        decreases n - i,
    {
        let done = match frags[i].state {
            FragmentState::Done => true,
            _ => false,
        };
        if !done {
            return false;
        }
        i = i + 1;
    }
    true
}

/// Take the next wave off the front of the pending list: up to
/// `concurrency` fragment indices, dispatched together and drained
/// before the next wave starts.
pub fn next_wave(pending: &mut Vec<usize>, concurrency: usize) -> (batch: Vec<usize>)
    ensures
        batch@.len() == if old(pending)@.len() <= concurrency {
            old(pending)@.len() as int
        } else {
            concurrency as int
        },
        batch@ == old(pending)@.take(batch@.len() as int),
        final(pending)@ == old(pending)@.skip(batch@.len() as int),
{
    let m = if pending.len() <= concurrency {
        pending.len()
    } else {
        concurrency
    };
    let mut batch: Vec<usize> = Vec::new();
    let mut i: usize = 0;
    while i < m
        invariant
            m <= pending@.len(),
            pending@ == old(pending)@,
            i <= m,
            batch@.len() == i,
            forall|j: int| 0 <= j < i ==> batch@[j] == pending@[j],
        decreases m - i,
    {
        batch.push(pending[i]);
        i = i + 1;
    }
    let mut tail = pending.split_off(m);
    pending.clear();
    pending.append(&mut tail);
    proof {
        assert(batch@ =~= old(pending)@.take(batch@.len() as int));
        assert(pending@ =~= old(pending)@.skip(batch@.len() as int));
    }
    batch
}

/// What one fragment task asks of the transfer driver: the sentinel
/// fragment fetches the whole file, a range fragment fetches its byte
/// interval with an inclusive end.
#[derive(Clone, Copy, PartialEq, Eq, Structural, Debug)]
pub enum FragmentRequest {
    WholeFile,
    Range { start: u64, end_inclusive: u64 },
}

/// The request for a fragment record: `len == 0` means the whole file;
/// otherwise the interval `[offset, offset + len - 1]`.
pub fn fragment_request(offset: u64, len: u64) -> (r: FragmentRequest)
    requires
        offset + len <= u64::MAX,
    ensures
        r == if len == 0 {
            FragmentRequest::WholeFile
        } else {
            FragmentRequest::Range { start: offset, end_inclusive: (offset + len - 1) as u64 }
        },
{
    if len == 0 {
        FragmentRequest::WholeFile
    } else {
        FragmentRequest::Range { start: offset, end_inclusive: offset + (len - 1) }
    }
}

/// Progress figures after `downloaded` of `total` bytes in
/// `elapsed_ms` milliseconds: the byte rate over the elapsed time
/// (clamped to at least one millisecond), and the seconds remaining
/// when the total and a positive rate are known.
pub fn progress_snapshot(downloaded: u64, total: Option<u64>, elapsed_ms: u64) -> (r: (
    u64,
    Option<u64>,
))
    ensures
        r.0 == speed_bps_spec(downloaded as int, elapsed_ms as int),
        r.1 == eta_secs_spec(downloaded as int, total, r.0 as int),
{
    let ms: u64 = if elapsed_ms >= 1 {
        elapsed_ms
    } else {
        1
    };
    let speed_wide: u128 = (downloaded as u128) * 1000u128 / (ms as u128);
    let speed: u64 = if speed_wide > u64::MAX as u128 {
        u64::MAX
    } else {
        speed_wide as u64
    };
    let eta = match total {
        Some(t) => {
            if speed > 0 && downloaded < t {
                Some((t - downloaded) / speed)
            } else {
                None
            }
        },
        None => None,
    };
    (speed, eta)
}

/// Bytes per second: downloaded bytes over the elapsed time, clamped
/// to at least one millisecond and to the integer limit.
pub open spec fn speed_bps_spec(downloaded: int, elapsed_ms: int) -> int {
    let ms = if elapsed_ms >= 1 {
        elapsed_ms
    } else {
        1
    };
    let v = downloaded * 1000 / ms;
    if v > u64::MAX {
        u64::MAX as int
    } else {
        v
    }
}

/// Seconds remaining: known only when the total is known, the rate is
/// positive, and work remains.
pub open spec fn eta_secs_spec(downloaded: int, total: Option<u64>, speed: int) -> Option<u64> {
    match total {
        Some(t) => if speed > 0 && downloaded < t {
            Some(((t - downloaded) / speed) as u64)
        } else {
            None
        },
        None => None,
    }
}

/// Per-job failure accounting: a job fails exactly when a resolution
/// failed or an item failed; failed items never abort the rest.
pub struct JobTracker {
    pub job_id: JobId,
    pub any_failed: bool,
}

impl JobTracker {
    pub fn new(job_id: JobId) -> (r: Self)
        ensures
            r.job_id == job_id,
            !r.any_failed,
    {
        JobTracker { job_id, any_failed: false }
    }

    /// A link input failed to resolve (no resolver, or the resolver
    /// errored); the job keeps running and ends failed.
    pub fn on_resolve_failure(&mut self)
        ensures
            final(self).job_id == old(self).job_id,
            final(self).any_failed,
    {
        self.any_failed = true;
    }

    /// One item finished; a failure marks the job, a success changes
    /// nothing.
    pub fn on_item_result(&mut self, ok: bool)
        ensures
            final(self).job_id == old(self).job_id,
            final(self).any_failed == (old(self).any_failed || !ok),
    {
        if !ok {
            self.any_failed = true;
        }
    }

    /// The status the job ends with: `Failed` exactly when a
    /// resolution or an item failed.
    pub fn final_status(&self) -> (r: JobStatus)
        ensures
            r == if self.any_failed {
                JobStatus::Failed
            } else {
                JobStatus::Completed
            },
    {
        if self.any_failed {
            JobStatus::Failed
        } else {
            JobStatus::Completed
        }
    }
}

} // verus!
