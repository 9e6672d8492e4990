//! Plugin registry: score-based resolver selection and
//! capability-based driver selection. Resolvers turn link strings into
//! draft items; drivers carry the transfers. Both are chosen here, and
//! the choice is pinned: the first resolver with the highest positive
//! score wins, and the first driver that supports the resource serves
//! it.

use vstd::prelude::*;
use crate::httpdriver::HttpDriver;
use crate::model::{LinkInput, ResourceDescriptor, ResourceType};
use crate::resolvers::adb::AdbResolver;
use crate::resolvers::bt::BtResolver;
use crate::resolvers::ed2k::Ed2kResolver;
use crate::resolvers::ftp::FtpResolver;
use crate::resolvers::github::GitHubResolver;
use crate::resolvers::http::HttpResolver;
use crate::resolvers::sftp::SftpResolver;

verus! {

/// What resolvers resolve against: the output directory and the
/// user agent of this engine.
pub struct ResolveContext {
    pub out_dir: String,
    pub user_agent: String,
}

/// A prospective download, before the engine admits it.
pub struct DownloadItemDraft {
    pub display_name: String,
    pub suggested_path: String,
    pub total_size: Option<u64>,
    pub resources: Vec<ResourceDescriptor>,
}

/// What a resolver produced: at least one draft, plus warnings for the
/// observer.
pub struct ResolveResult {
    pub drafts: Vec<DownloadItemDraft>,
    pub warnings: Vec<String>,
}

/// A resolution failure, carried as a human-readable message.
#[derive(Debug)]
pub struct ResolveError {
    pub message: String,
}

/// Connection parameters every transfer driver receives.
#[derive(Clone, Debug)]
pub struct DriverContext {
    pub user_agent: String,
    pub timeout_secs: u64,
    pub retries: u32,
    pub retry_backoff_ms: u64,
}

/// What the command line hands the engine: extra headers, free-form
/// options, and the driver context.
#[derive(Clone, Debug)]
pub struct DownloadCliConfig {
    pub headers: Vec<(String, String)>,
    pub options: Vec<(String, String)>,
    pub driver_ctx: DriverContext,
}

/// A link resolver: scores how well it can handle an input, and turns
/// the input into draft items. Each implementation pins its own score
/// and its own drafts through the two spec functions.
pub trait LinkResolver {
    /// The score this resolver gives a raw link; zero declines.
    spec fn score_spec(&self, raw: Seq<char>) -> int;

    /// What a successful resolution looks like.
    spec fn resolve_ok_spec(&self, input: &LinkInput, ctx: &ResolveContext, rr: &ResolveResult) -> bool;

    /// Exactly when resolution fails.
    spec fn resolve_err_spec(&self, input: &LinkInput) -> bool;

    fn name(&self) -> (r: &'static str);

    fn can_handle(&self, input: &LinkInput) -> (r: u8)
        ensures
            r as int == self.score_spec(input.raw@),
    ;

    /// Resolution must never succeed with an empty draft list.
    fn resolve(&self, input: &LinkInput, ctx: &ResolveContext) -> (r: Result<
        ResolveResult,
        ResolveError,
    >)
        ensures
            r matches Ok(rr) ==> rr.drafts@.len() > 0 && self.resolve_ok_spec(input, ctx, &rr),
            r is Err <==> self.resolve_err_spec(input),
    ;
}

/// The resolvers an engine can hold, as tagged variants.
pub enum ResolverEntry {
    GitHub(GitHubResolver),
    Http(HttpResolver),
    Bt(BtResolver),
    Ed2k(Ed2kResolver),
    Ftp(FtpResolver),
    Sftp(SftpResolver),
    Adb(AdbResolver),
}

impl ResolverEntry {
    pub open spec fn score_spec(&self, raw: Seq<char>) -> int {
        match self {
            ResolverEntry::GitHub(x) => x.score_spec(raw),
            ResolverEntry::Http(x) => x.score_spec(raw),
            ResolverEntry::Bt(x) => x.score_spec(raw),
            ResolverEntry::Ed2k(x) => x.score_spec(raw),
            ResolverEntry::Ftp(x) => x.score_spec(raw),
            ResolverEntry::Sftp(x) => x.score_spec(raw),
            ResolverEntry::Adb(x) => x.score_spec(raw),
        }
    }

    pub fn can_handle(&self, input: &LinkInput) -> (r: u8)
        ensures
            r as int == self.score_spec(input.raw@),
    {
        match self {
            ResolverEntry::GitHub(x) => x.can_handle(input),
            ResolverEntry::Http(x) => x.can_handle(input),
            ResolverEntry::Bt(x) => x.can_handle(input),
            ResolverEntry::Ed2k(x) => x.can_handle(input),
            ResolverEntry::Ftp(x) => x.can_handle(input),
            ResolverEntry::Sftp(x) => x.can_handle(input),
            ResolverEntry::Adb(x) => x.can_handle(input),
        }
    }

    pub fn name(&self) -> (r: &'static str) {
        match self {
            ResolverEntry::GitHub(x) => x.name(),
            ResolverEntry::Http(x) => x.name(),
            ResolverEntry::Bt(x) => x.name(),
            ResolverEntry::Ed2k(x) => x.name(),
            ResolverEntry::Ftp(x) => x.name(),
            ResolverEntry::Sftp(x) => x.name(),
            ResolverEntry::Adb(x) => x.name(),
        }
    }

    /// Resolve through whichever resolver this entry holds; success
    /// carries at least one draft and means what that resolver's own
    /// description says.
    pub fn resolve(&self, input: &LinkInput, ctx: &ResolveContext) -> (r: Result<
        ResolveResult,
        ResolveError,
    >)
        ensures
            r matches Ok(rr) ==> rr.drafts@.len() > 0 && (match self {
                ResolverEntry::GitHub(x) => x.resolve_ok_spec(input, ctx, &rr),
                ResolverEntry::Http(x) => x.resolve_ok_spec(input, ctx, &rr),
                ResolverEntry::Bt(x) => x.resolve_ok_spec(input, ctx, &rr),
                ResolverEntry::Ed2k(x) => x.resolve_ok_spec(input, ctx, &rr),
                ResolverEntry::Ftp(x) => x.resolve_ok_spec(input, ctx, &rr),
                ResolverEntry::Sftp(x) => x.resolve_ok_spec(input, ctx, &rr),
                ResolverEntry::Adb(x) => x.resolve_ok_spec(input, ctx, &rr),
            }),
            r is Err <==> (match self {
                ResolverEntry::GitHub(x) => x.resolve_err_spec(input),
                ResolverEntry::Http(x) => x.resolve_err_spec(input),
                ResolverEntry::Bt(x) => x.resolve_err_spec(input),
                ResolverEntry::Ed2k(x) => x.resolve_err_spec(input),
                ResolverEntry::Ftp(x) => x.resolve_err_spec(input),
                ResolverEntry::Sftp(x) => x.resolve_err_spec(input),
                ResolverEntry::Adb(x) => x.resolve_err_spec(input),
            }),
    {
        match self {
            ResolverEntry::GitHub(x) => x.resolve(input, ctx),
            ResolverEntry::Http(x) => x.resolve(input, ctx),
            ResolverEntry::Bt(x) => x.resolve(input, ctx),
            ResolverEntry::Ed2k(x) => x.resolve(input, ctx),
            ResolverEntry::Ftp(x) => x.resolve(input, ctx),
            ResolverEntry::Sftp(x) => x.resolve(input, ctx),
            ResolverEntry::Adb(x) => x.resolve(input, ctx),
        }
    }
}

/// The transfer drivers an engine can hold.
pub enum DriverEntry {
    Http(HttpDriver),
}

impl DriverEntry {
    /// Whether this driver serves resources of this type.
    pub open spec fn supports_spec(&self, rtype: ResourceType) -> bool {
        match self {
            DriverEntry::Http(_) => rtype == ResourceType::Http || rtype
                == ResourceType::GitHubResolvedHttp,
        }
    }

    pub fn supports(&self, res: &ResourceDescriptor) -> (r: bool)
        ensures
            r == self.supports_spec(res.rtype),
    {
        match self {
            DriverEntry::Http(d) => d.supports(res.rtype),
        }
    }
}

/// The registry: resolvers in registration order, drivers in
/// registration order. Immutable after construction.
pub struct PluginRegistry {
    pub resolvers: Vec<ResolverEntry>,
    pub drivers: Vec<DriverEntry>,
}

/// The first index of the maximum score; scores are compared left to
/// right and only a strictly greater score displaces the leader.
pub open spec fn first_max_index(scores: Seq<u8>) -> int
    decreases scores.len(),
{
    if scores.len() <= 1 {
        0
    } else {
        let b = first_max_index(scores.drop_last());
        if scores.last() > scores[b] {
            scores.len() - 1
        } else {
            b
        }
    }
}

/// The first index of the maximum score, or nothing when every
/// resolver declines (all scores zero) or there are none.
pub fn best_index(scores: &Vec<u8>) -> (r: Option<usize>)
    ensures
        r matches Some(i) ==> {
            &&& i < scores@.len()
            &&& i == first_max_index(scores@)
            &&& scores@[i as int] > 0
            &&& forall|j: int| 0 <= j < scores@.len() ==> scores@[j] <= scores@[i as int]
            &&& forall|j: int| 0 <= j < i ==> scores@[j] < scores@[i as int]
        },
        r is None <==> (forall|j: int| 0 <= j < scores@.len() ==> scores@[j] == 0),
{
    let n = scores.len();
    if n == 0 {
        return None;
    }
    let mut best: usize = 0;
    let mut i: usize = 1;
    while i < n
        invariant
            n == scores@.len(),
            1 <= i <= n,
            best < i,
            best == first_max_index(scores@.take(i as int)),
            forall|j: int| 0 <= j < i ==> scores@[j] <= scores@[best as int],
            forall|j: int| 0 <= j < best ==> scores@[j] < scores@[best as int],
        decreases n - i,
    {
        proof {
            assert(scores@.take(i + 1).drop_last() =~= scores@.take(i as int));
            assert(scores@.take(i + 1).last() == scores@[i as int]);
            assert(forall|j: int|
                0 <= j < i ==> scores@.take(i as int)[j] == scores@[j]);
        }
        if scores[i] > scores[best] {
            best = i;
        }
        i = i + 1;
    }
    proof {
        assert(scores@.take(n as int) =~= scores@);
    }
    if scores[best] == 0 {
        proof {
            assert(forall|j: int| 0 <= j < n ==> scores@[j] <= 0);
        }
        return None;
    }
    Some(best)
}

impl PluginRegistry {
    /// The scores all resolvers give a raw link, in registration order.
    pub open spec fn scores_spec(&self, raw: Seq<char>) -> Seq<int> {
        Seq::new(self.resolvers@.len(), |i: int| self.resolvers@[i].score_spec(raw))
    }

    /// The registry the engine constructs: the GitHub resolver ahead of
    /// the generic HTTP one, then the protocol resolvers, and the HTTP
    /// transfer driver.
    pub fn with_defaults() -> (r: Self)
        ensures
            r.resolvers@.len() == 7,
            r.resolvers@[0] is GitHub,
            r.resolvers@[1] is Http,
            r.resolvers@[2] is Bt,
            r.resolvers@[3] is Ed2k,
            r.resolvers@[4] is Ftp,
            r.resolvers@[5] is Sftp,
            r.resolvers@[6] is Adb,
            r.drivers@.len() == 1,
            r.drivers@[0] is Http,
    {
        let mut resolvers: Vec<ResolverEntry> = Vec::new();
        resolvers.push(ResolverEntry::GitHub(GitHubResolver::new()));
        resolvers.push(ResolverEntry::Http(HttpResolver::new()));
        resolvers.push(ResolverEntry::Bt(BtResolver::new()));
        resolvers.push(ResolverEntry::Ed2k(Ed2kResolver::new()));
        resolvers.push(ResolverEntry::Ftp(FtpResolver::new()));
        resolvers.push(ResolverEntry::Sftp(SftpResolver::new()));
        resolvers.push(ResolverEntry::Adb(AdbResolver::new()));
        let mut drivers: Vec<DriverEntry> = Vec::new();
        drivers.push(DriverEntry::Http(HttpDriver::new()));
        PluginRegistry { resolvers, drivers }
    }

    /// The resolver for this input: the first with the highest score,
    /// or nothing when every resolver declines.
    pub fn best_resolver(&self, input: &LinkInput) -> (r: Option<&ResolverEntry>)
        ensures
            r matches Some(e) ==> {
                let scores = self.scores_spec(input.raw@);
                let i = first_max_index_int(scores);
                &&& 0 <= i < self.resolvers@.len()
                &&& *e == self.resolvers@[i]
                &&& scores[i] > 0
                &&& forall|j: int| 0 <= j < scores.len() ==> scores[j] <= scores[i]
                &&& forall|j: int| 0 <= j < i ==> scores[j] < scores[i]
            },
            r is None <==> (forall|j: int|
                0 <= j < self.resolvers@.len() ==> self.scores_spec(input.raw@)[j] == 0),
    {
        let n = self.resolvers.len();
        let mut scores: Vec<u8> = Vec::new();
        let mut i: usize = 0;
        while i < n
            invariant
                n == self.resolvers@.len(),
                i <= n,
                scores@.len() == i,
                forall|j: int| 0 <= j < i ==> scores@[j] as int == self.scores_spec(
                    input.raw@,
                )[j],
            decreases n - i,
        {
            let s = self.resolvers[i].can_handle(input);
            scores.push(s);
            i = i + 1;
        }
        let ghost spec_scores = self.scores_spec(input.raw@);
        proof {
            assert(scores@.len() == spec_scores.len());
            assert(forall|j: int| 0 <= j < n ==> scores@[j] as int == spec_scores[j]);
        }
        match best_index(&scores) {
            Some(b) => {
                proof {
                    lemma_first_max_same(scores@, spec_scores);
                    assert(b as int == first_max_index_int(spec_scores));
                    assert(scores@[b as int] as int == spec_scores[b as int]);
                }
                Some(&self.resolvers[b])
            },
            None => {
                proof {
                    assert(forall|j: int| 0 <= j < n ==> spec_scores[j] == 0);
                }
                None
            },
        }
    }

    /// The first registered driver that supports the resource.
    pub fn driver_for(&self, res: &ResourceDescriptor) -> (r: Option<&DriverEntry>)
        ensures
            r matches Some(d) ==> exists|i: int|
                {
                    &&& 0 <= i < self.drivers@.len()
                    &&& *d == self.drivers@[i]
                    &&& (#[trigger] self.drivers@[i]).supports_spec(res.rtype)
                    &&& forall|j: int| 0 <= j < i ==> !self.drivers@[j].supports_spec(res.rtype)
                },
            r is None <==> (forall|i: int|
                0 <= i < self.drivers@.len() ==> !(#[trigger] self.drivers@[i]).supports_spec(
                    res.rtype,
                )),
    {
        let n = self.drivers.len();
        let mut i: usize = 0;
        while i < n
            invariant
                n == self.drivers@.len(),
                i <= n,
                forall|j: int| 0 <= j < i ==> !(#[trigger] self.drivers@[j]).supports_spec(
                    res.rtype,
                ),
            decreases n - i,
        {
            if self.drivers[i].supports(res) {
                return Some(&self.drivers[i]);
            }
            i = i + 1;
        }
        None
    }

    /// Whether the fragment machinery applies to this resource.
    pub fn is_fragmented_http_like(res: &ResourceDescriptor) -> (r: bool)
        ensures
            r == (res.rtype == ResourceType::Http || res.rtype
                == ResourceType::GitHubResolvedHttp),
    {
        match res.rtype {
            ResourceType::Http => true,
            ResourceType::GitHubResolvedHttp => true,
            _ => false,
        }
    }
}

/// `first_max_index` over integer scores.
pub open spec fn first_max_index_int(scores: Seq<int>) -> int
    decreases scores.len(),
{
    if scores.len() <= 1 {
        0
    } else {
        let b = first_max_index_int(scores.drop_last());
        if scores.last() > scores[b] {
            scores.len() - 1
        } else {
            b
        }
    }
}

/// The first maximum does not depend on whether scores are read as
/// bytes or integers.
proof fn lemma_first_max_same(a: Seq<u8>, b: Seq<int>)
    requires
        a.len() == b.len(),
        forall|j: int| 0 <= j < a.len() ==> a[j] as int == b[j],
    ensures
        first_max_index(a) == first_max_index_int(b),
    decreases a.len(),
{
    if a.len() > 1 {
        assert(forall|j: int|
            0 <= j < a.drop_last().len() ==> a.drop_last()[j] as int == b.drop_last()[j]);
        lemma_first_max_same(a.drop_last(), b.drop_last());
        assert(a.last() as int == b.last());
        assert(0 <= first_max_index(a.drop_last()) < a.drop_last().len()) by {
            lemma_first_max_in_range(a.drop_last());
        }
    }
}

/// The first maximum is a valid index.
proof fn lemma_first_max_in_range(a: Seq<u8>)
    requires
        a.len() >= 1,
    ensures
        0 <= first_max_index(a) < a.len(),
    decreases a.len(),
{
    if a.len() > 1 {
        lemma_first_max_in_range(a.drop_last());
    }
}

} // verus!
