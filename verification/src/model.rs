//! Entity definitions shared by the planner, the store, the resolvers
//! and the engine: identifiers, status enums, resources and fragments.

use vstd::prelude::*;

verus! {

/// Opaque 128-bit job identifier, unique per engine lifetime.
#[derive(Clone, Copy, PartialEq, Eq, Structural, Debug, Hash)]
pub struct JobId {
    pub value: u128,
}

/// Opaque 128-bit item identifier, unique per engine lifetime.
#[derive(Clone, Copy, PartialEq, Eq, Structural, Debug, Hash)]
pub struct ItemId {
    pub value: u128,
}

/// A user-supplied link: the raw string plus free-form header and
/// option pairs. Pairs act as a mapping; the first entry with a key
/// wins on lookup.
#[derive(Clone, Debug)]
pub struct LinkInput {
    pub raw: String,
    pub headers: Vec<(String, String)>,
    pub options: Vec<(String, String)>,
}

#[derive(Clone, Copy, PartialEq, Eq, Structural, Debug)]
pub enum JobStatus {
    Pending,
    Running,
    Paused,
    Completed,
    Failed,
}

#[derive(Clone, Copy, PartialEq, Eq, Structural, Debug)]
pub enum ItemStatus {
    Resolving,
    Ready,
    Downloading,
    Verifying,
    Assembling,
    Done,
    Failed,
}

/// Protocol tag of a resource handle.
#[derive(Clone, Copy, PartialEq, Eq, Structural, Debug)]
pub enum ResourceType {
    Http,
    GitHubResolvedHttp,
    BitTorrent,
    Ed2k,
    Ftp,
    Sftp,
    Adb,
}

/// Advisory capabilities of a resource; actual range support is
/// confirmed by the probe.
#[derive(Clone, Copy, PartialEq, Eq, Structural, Debug)]
pub struct Capabilities {
    pub supports_ranges: bool,
    pub max_parallel: u32,
}

impl Default for Capabilities {
    fn default() -> (r: Self)
        ensures
            !r.supports_ranges,
            r.max_parallel == 0,
    {
        Capabilities { supports_ranges: false, max_parallel: 0 }
    }
}

/// A protocol-tagged handle to one downloadable resource.
#[derive(Clone, Debug)]
pub struct ResourceDescriptor {
    pub rtype: ResourceType,
    pub uri: String,
    pub headers: Vec<(String, String)>,
    pub meta: Vec<(String, String)>,
    pub caps: Capabilities,
}

/// State of one fragment. Only `Missing` and `Bad` are pending work at
/// resume time.
#[derive(Clone, Copy, PartialEq, Eq, Structural, Debug)]
pub enum FragmentState {
    Missing,
    Downloading,
    Done,
    Bad,
}

/// A unit of work: a byte interval of the final file, or an index for
/// per-piece schemes. `Range { offset: 0, len: 0 }` is the sentinel
/// for "whole file, not range-split".
#[derive(Clone, Copy, PartialEq, Eq, Structural, Debug)]
pub enum FragmentKey {
    Range { offset: u64, len: u64 },
    Indexed { index: u32 },
}

#[derive(Clone, Copy, PartialEq, Eq, Structural, Debug)]
pub struct Fragment {
    pub key: FragmentKey,
    pub state: FragmentState,
    pub retry: u8,
}

/// How an item falls back when range transfers are unavailable.
#[derive(Clone, Copy, PartialEq, Eq, Structural, Debug)]
pub enum FallbackMode {
    Full,
    SeqRange,
}

#[derive(Clone, Debug)]
pub struct DownloadItem {
    pub id: ItemId,
    pub job_id: JobId,
    pub status: ItemStatus,
    pub display_name: String,
    pub target_path: String,
    pub total_size: Option<u64>,
    pub resources: Vec<ResourceDescriptor>,
    pub options: Vec<(String, String)>,
    pub fragments: Vec<Fragment>,
}

#[derive(Clone, Debug)]
pub struct DownloadJob {
    pub id: JobId,
    pub status: JobStatus,
    pub items: Vec<DownloadItem>,
}

/// Mapping view of a pair list: the value of the first entry whose key
/// matches, if any.
pub open spec fn pairs_get(pairs: Seq<(Seq<char>, Seq<char>)>, key: Seq<char>) -> Option<Seq<char>>
    decreases pairs.len(),
{
    if pairs.len() == 0 {
        None
    } else if pairs[0].0 == key {
        Some(pairs[0].1)
    } else {
        pairs_get(pairs.skip(1), key)
    }
}

/// First-match lookup in a pair list, the executable side of
/// `pairs_get`.
pub fn lookup_pair<'a>(pairs: &'a Vec<(String, String)>, key: &str) -> (r: Option<&'a String>)
    ensures
        match r {
            Some(v) => pairs_get(pairs.deep_view(), key@) == Some(v@),
            None => pairs_get(pairs.deep_view(), key@) is None,
        },
{
    let n = pairs.len();
    let mut i: usize = 0;
    proof {
        assert(pairs.deep_view().skip(0) =~= pairs.deep_view());
    }
    while i < n
        invariant
            n == pairs.len(),
            i <= n,
            pairs_get(pairs.deep_view(), key@) == pairs_get(pairs.deep_view().skip(i as int), key@),
        decreases n - i,
    {
        proof {
            assert(pairs.deep_view().skip(i as int)[0] == pairs.deep_view()[i as int]);
        }
        if str_eq(pairs[i].0.as_str(), key) {
            return Some(&pairs[i].1);
        }
        proof {
            assert(pairs.deep_view().skip(i as int).skip(1) =~= pairs.deep_view().skip(i + 1));
        }
        i = i + 1;
    }
    proof {
        assert(pairs.deep_view().skip(n as int).len() == 0);
    }
    None
}

/// Copy a pair list, preserving its mapping view.
pub fn clone_pairs(pairs: &Vec<(String, String)>) -> (r: Vec<(String, String)>)
    ensures
        r.deep_view() == pairs.deep_view(),
{
    let n = pairs.len();
    let mut r: Vec<(String, String)> = Vec::new();
    let mut i: usize = 0;
    while i < n
        invariant
            n == pairs@.len(),
            i <= n,
            r.deep_view().len() == i,
            forall|j: int| 0 <= j < i ==> r.deep_view()[j] == pairs.deep_view()[j],
        decreases n - i,
    {
        let k = pairs[i].0.clone();
        let v = pairs[i].1.clone();
        r.push((k, v));
        i = i + 1;
    }
    proof {
        assert(r.deep_view() =~= pairs.deep_view());
    }
    r
}

/// Character-wise string equality; vstd gives `&str` no equality
/// specification of its own.
pub fn str_eq(a: &str, b: &str) -> (r: bool)
    ensures
        r == (a@ == b@),
{
    let an = a.unicode_len();
    let bn = b.unicode_len();
    if an != bn {
        return false;
    }
    let mut i: usize = 0;
    while i < an
        invariant
            an == a@.len(),
            bn == b@.len(),
            an == bn,
            i <= an,
            forall|j: int| 0 <= j < i ==> a@[j] == b@[j],
        decreases an - i,
    {
        if a.get_char(i) != b.get_char(i) {
            return false;
        }
        i = i + 1;
    }
    proof {
        assert(a@ =~= b@);
    }
    true
}

} // verus!
