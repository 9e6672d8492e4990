//! BitTorrent resolver: accepts magnet links, reads the info-hash out
//! of the `xt` query parameter and collects trackers; the transfer
//! itself is a whole-file delegation to a torrent client.

use vstd::prelude::*;
use crate::model::{pairs_get, str_eq, Capabilities, LinkInput, ResourceDescriptor, ResourceType};
use crate::naming::{joined_path_spec, join_path, sanitize_file_name, sanitized_of};
use crate::registry::{DownloadItemDraft, LinkResolver, ResolveContext, ResolveError, ResolveResult};
use crate::text::{has_prefix, has_prefix_spec, joined_with_sep, join_with_sep};
use crate::urlparse::{parse_url, url_parse_spec, UrlPartsView};

verus! {

pub struct BtResolver;

impl BtResolver {
    pub fn new() -> (r: Self) {
        BtResolver
    }
}

/// The info-hash of a magnet link: the first `xt` query value of the
/// form `urn:btih:<hash>`, without that prefix.
pub open spec fn btih_spec(pairs: Seq<(Seq<char>, Seq<char>)>) -> Option<Seq<char>>
    decreases pairs.len(),
{
    if pairs.len() == 0 {
        None
    } else if pairs[0].0 == "xt"@ && has_prefix_spec(pairs[0].1, "urn:btih:"@) {
        Some(pairs[0].1.skip("urn:btih:"@.len() as int))
    } else {
        btih_spec(pairs.skip(1))
    }
}

/// The tracker URLs of a magnet link: every `tr` query value, in
/// order.
pub open spec fn trackers_spec(pairs: Seq<(Seq<char>, Seq<char>)>) -> Seq<Seq<char>>
    decreases pairs.len(),
{
    if pairs.len() == 0 {
        Seq::empty()
    } else {
        let prev = trackers_spec(pairs.drop_last());
        if pairs.last().0 == "tr"@ {
            prev.push(pairs.last().1)
        } else {
            prev
        }
    }
}

/// The display name: the sanitized `dn` query value, or a name built
/// from the first twelve characters of the info-hash.
pub open spec fn bt_display_spec(pairs: Seq<(Seq<char>, Seq<char>)>, hash: Seq<char>) -> Seq<char> {
    match pairs_get(pairs, "dn"@) {
        Some(dn) => sanitized_of(dn),
        None => "torrent-"@ + hash.take(if hash.len() <= 12 {
            hash.len() as int
        } else {
            12
        }),
    }
}

/// The resource meta: the info-hash, and the trackers joined by
/// newlines when there are any.
pub open spec fn bt_meta_spec(pairs: Seq<(Seq<char>, Seq<char>)>, hash: Seq<char>) -> Seq<
    (Seq<char>, Seq<char>),
> {
    let base = seq![("infohash"@, hash)];
    if trackers_spec(pairs).len() > 0 {
        base.push(("trackers"@, joined_with_sep(trackers_spec(pairs), "\n"@)))
    } else {
        base
    }
}

/// The one draft a magnet resolution produces.
pub open spec fn bt_draft_spec(
    input: &LinkInput,
    ctx: &ResolveContext,
    rr: &ResolveResult,
    p: UrlPartsView,
) -> bool {
    match btih_spec(p.query_pairs) {
        Some(hash) => {
            let name = bt_display_spec(p.query_pairs, hash);
            &&& rr.drafts@.len() == 1
            &&& rr.warnings@.len() == 0
            &&& rr.drafts@[0].display_name@ == name
            &&& rr.drafts@[0].suggested_path@ == joined_path_spec(ctx.out_dir@, name)
            &&& rr.drafts@[0].total_size is None
            &&& rr.drafts@[0].resources@.len() == 1
            &&& rr.drafts@[0].resources@[0].rtype == ResourceType::BitTorrent
            &&& rr.drafts@[0].resources@[0].uri@ == input.raw@
            &&& rr.drafts@[0].resources@[0].headers@.len() == 0
            &&& rr.drafts@[0].resources@[0].meta.deep_view() == bt_meta_spec(p.query_pairs, hash)
            &&& rr.drafts@[0].resources@[0].caps == (Capabilities {
                supports_ranges: false,
                max_parallel: 0,
            })
        },
        None => false,
    }
}

impl LinkResolver for BtResolver {
    /// 80 for anything that begins `magnet:`; decline otherwise.
    open spec fn score_spec(&self, raw: Seq<char>) -> int {
        if has_prefix_spec(raw, "magnet:"@) {
            80
        } else {
            0
        }
    }

    open spec fn resolve_ok_spec(
        &self,
        input: &LinkInput,
        ctx: &ResolveContext,
        rr: &ResolveResult,
    ) -> bool {
        match url_parse_spec(input.raw@) {
            Some(p) => bt_draft_spec(input, ctx, rr, p),
            None => false,
        }
    }

    /// Resolution fails on an unparseable link or a magnet without a
    /// `urn:btih:` info-hash.
    open spec fn resolve_err_spec(&self, input: &LinkInput) -> bool {
        match url_parse_spec(input.raw@) {
            Some(p) => btih_spec(p.query_pairs) is None,
            None => true,
        }
    }

    fn name(&self) -> (r: &'static str) {
        "bt-resolver"
    }

    fn can_handle(&self, input: &LinkInput) -> (r: u8) {
        if has_prefix(input.raw.as_str(), "magnet:") {
            80
        } else {
            0
        }
    }

    fn resolve(&self, input: &LinkInput, ctx: &ResolveContext) -> (r: Result<
        ResolveResult,
        ResolveError,
    >) {
        let p = match parse_url(input.raw.as_str()) {
            Some(p) => p,
            None => {
                return Err(ResolveError { message: String::from_str("not a valid url") });
            },
        };
        let hash = match find_btih(&p.query_pairs) {
            Some(h) => h,
            None => {
                return Err(
                    ResolveError { message: String::from_str("magnet missing xt=urn:btih:...") },
                );
            },
        };
        let trackers = collect_trackers(&p.query_pairs);

        let name: String = match crate::model::lookup_pair(&p.query_pairs, "dn") {
            Some(dn) => sanitize_file_name(dn.as_str()),
            None => {
                let hn = hash.as_str().unicode_len();
                let cut = if hn <= 12 {
                    hn
                } else {
                    12
                };
                let mut s = String::from_str("torrent-");
                s.append(hash.as_str().substring_char(0, cut));
                s
            },
        };
        let suggested_path = join_path(ctx.out_dir.as_str(), name.as_str());

        let mut meta: Vec<(String, String)> = Vec::new();
        meta.push((String::from_str("infohash"), hash.clone()));
        if trackers.len() > 0 {
            meta.push((String::from_str("trackers"), join_with_sep(&trackers, "\n")));
        }
        proof {
            assert(meta.deep_view() =~= bt_meta_spec(p@.query_pairs, hash@));
        }

        let res = ResourceDescriptor {
            rtype: ResourceType::BitTorrent,
            uri: input.raw.clone(),
            headers: Vec::new(),
            meta,
            caps: Capabilities { supports_ranges: false, max_parallel: 0 },
        };
        let mut resources: Vec<ResourceDescriptor> = Vec::new();
        resources.push(res);
        let draft = DownloadItemDraft { display_name: name, suggested_path, total_size: None, resources };
        let mut drafts: Vec<DownloadItemDraft> = Vec::new();
        drafts.push(draft);
        Ok(ResolveResult { drafts, warnings: Vec::new() })
    }
}

/// The first `xt=urn:btih:` query value, without the prefix.
fn find_btih(pairs: &Vec<(String, String)>) -> (r: Option<String>)
    ensures
        match r {
            Some(h) => btih_spec(pairs.deep_view()) == Some(h@),
            None => btih_spec(pairs.deep_view()) is None,
        },
{
    let n = pairs.len();
    let mut i: usize = 0;
    proof {
        assert(pairs.deep_view().skip(0) =~= pairs.deep_view());
    }
    while i < n
        invariant
            n == pairs@.len(),
            i <= n,
            btih_spec(pairs.deep_view()) == btih_spec(pairs.deep_view().skip(i as int)),
        decreases n - i,
    {
        proof {
            assert(pairs.deep_view().skip(i as int)[0] == pairs.deep_view()[i as int]);
        }
        let matches_key = str_eq(pairs[i].0.as_str(), "xt");
        if matches_key && has_prefix(pairs[i].1.as_str(), "urn:btih:") {
            let v = pairs[i].1.as_str();
            let vn = v.unicode_len();
            proof {
                reveal_strlit("urn:btih:");
            }
            let rest = v.substring_char(9, vn);
            return Some(String::from_str(rest));
        }
        proof {
            assert(pairs.deep_view().skip(i as int).skip(1) =~= pairs.deep_view().skip(i + 1));
        }
        i = i + 1;
    }
    proof {
        assert(pairs.deep_view().skip(n as int).len() == 0);
    }
    None
}

/// Every `tr` query value, in order.
fn collect_trackers(pairs: &Vec<(String, String)>) -> (r: Vec<String>)
    ensures
        r.deep_view() == trackers_spec(pairs.deep_view()),
{
    let n = pairs.len();
    let mut out: Vec<String> = Vec::new();
    let mut i: usize = 0;
    proof {
        assert(pairs.deep_view().take(0) =~= Seq::<(Seq<char>, Seq<char>)>::empty());
        assert(out.deep_view() =~= trackers_spec(pairs.deep_view().take(0)));
    }
    while i < n
        invariant
            n == pairs@.len(),
            i <= n,
            out.deep_view() == trackers_spec(pairs.deep_view().take(i as int)),
        decreases n - i,
    {
        proof {
            assert(pairs.deep_view().take(i + 1).drop_last() =~= pairs.deep_view().take(i as int));
            assert(pairs.deep_view().take(i + 1).last() == pairs.deep_view()[i as int]);
        }
        if str_eq(pairs[i].0.as_str(), "tr") {
            out.push(pairs[i].1.clone());
        }
        i = i + 1;
        proof {
            assert(out.deep_view() =~= trackers_spec(pairs.deep_view().take(i as int)));
        }
    }
    proof {
        assert(pairs.deep_view().take(n as int) =~= pairs.deep_view());
    }
    out
}

} // verus!
