//! GitHub resolver: outranks the generic HTTP resolver on GitHub
//! hosts, rewrites `blob` page links to raw-content links and bare
//! repository links to an archive of the default branch, and passes
//! every other GitHub link through unchanged.

use vstd::prelude::*;
use crate::model::{clone_pairs, str_eq, Capabilities, LinkInput, ResourceDescriptor, ResourceType};
use crate::naming::{joined_path_spec, name_from_path, name_from_path_spec, join_path};
use crate::registry::{DownloadItemDraft, LinkResolver, ResolveContext, ResolveError, ResolveResult};
use crate::text::{eq_ignore_case, joined_with_sep, join_with_sep, lower_seq, split_char, split_spec};
use crate::urlparse::{parse_url, url_parse_spec, UrlPartsView};

verus! {

pub struct GitHubResolver;

/// A host this resolver takes over, compared without letter case.
pub open spec fn github_host_spec(h: Seq<char>) -> bool {
    lower_seq(h) == lower_seq("github.com"@) || lower_seq(h) == lower_seq(
        "raw.githubusercontent.com"@,
    )
}

/// The `/`-separated segments of a URL path, without the leading
/// slash.
pub open spec fn github_segments(path: Seq<char>) -> Seq<Seq<char>> {
    if path.len() > 0 && path[0] == '/' {
        split_spec(path.skip(1), '/')
    } else {
        split_spec(path, '/')
    }
}

/// Whether the blob rewrite applies: a `github.com` link of the shape
/// `owner/repo/blob/branch/...`.
pub open spec fn blob_applies(p: UrlPartsView) -> bool {
    &&& p.host == Some("github.com"@)
    &&& github_segments(p.path).len() >= 5
    &&& github_segments(p.path)[2] == "blob"@
}

/// The raw-content link of a blob page.
pub open spec fn blob_raw_uri(p: UrlPartsView) -> Seq<char> {
    let segs = github_segments(p.path);
    "https://raw.githubusercontent.com/"@ + segs[0] + "/"@ + segs[1] + "/"@ + segs[3] + "/"@
        + joined_with_sep(segs.skip(4), "/"@)
}

/// Whether the archive rewrite applies: a bare `github.com/owner/repo`
/// link.
pub open spec fn archive_applies(p: UrlPartsView) -> bool {
    p.host == Some("github.com"@) && github_segments(p.path).len() == 2
}

/// The archive link of a bare repository, for the default branch.
pub open spec fn archive_uri(p: UrlPartsView) -> Seq<char> {
    let segs = github_segments(p.path);
    "https://github.com/"@ + segs[0] + "/"@ + segs[1] + "/archive/refs/heads/main.zip"@
}

/// Where the link ends up: blob pages go to raw content, bare
/// repositories to an archive, anything else passes through unchanged.
pub open spec fn github_final_uri(raw: Seq<char>, p: UrlPartsView) -> Seq<char> {
    if blob_applies(p) {
        blob_raw_uri(p)
    } else if archive_applies(p) {
        archive_uri(p)
    } else {
        raw
    }
}

/// The path whose last segment names the file: the rewritten link when
/// a rewrite applied, else the parsed path.
pub open spec fn github_name_source(raw: Seq<char>, p: UrlPartsView) -> Seq<char> {
    if blob_applies(p) || archive_applies(p) {
        github_final_uri(raw, p)
    } else {
        p.path
    }
}

/// The one draft a GitHub resolution produces.
pub open spec fn github_draft_spec(
    input: &LinkInput,
    ctx: &ResolveContext,
    rr: &ResolveResult,
    p: UrlPartsView,
) -> bool {
    let name = name_from_path_spec(github_name_source(input.raw@, p), "github_download.bin"@);
    &&& rr.drafts@.len() == 1
    &&& rr.warnings@.len() == 0
    &&& rr.drafts@[0].display_name@ == name
    &&& rr.drafts@[0].suggested_path@ == joined_path_spec(ctx.out_dir@, name)
    &&& rr.drafts@[0].total_size is None
    &&& rr.drafts@[0].resources@.len() == 1
    &&& rr.drafts@[0].resources@[0].rtype == ResourceType::GitHubResolvedHttp
    &&& rr.drafts@[0].resources@[0].uri@ == github_final_uri(input.raw@, p)
    &&& rr.drafts@[0].resources@[0].headers.deep_view() == input.headers.deep_view()
    &&& rr.drafts@[0].resources@[0].meta@.len() == 0
    &&& rr.drafts@[0].resources@[0].caps == (Capabilities {
        supports_ranges: true,
        max_parallel: 8,
    })
}

impl GitHubResolver {
    pub fn new() -> (r: Self) {
        GitHubResolver
    }

    /// Whether this host belongs to GitHub, compared without letter
    /// case.
    pub fn is_github_host(host: &str) -> (r: bool)
        ensures
            r == github_host_spec(host@),
    {
        eq_ignore_case(host, "github.com") || eq_ignore_case(host, "raw.githubusercontent.com")
    }
}

impl LinkResolver for GitHubResolver {
    /// 90 — above the generic HTTP resolver — for a parseable link on a
    /// GitHub host; decline otherwise.
    open spec fn score_spec(&self, raw: Seq<char>) -> int {
        match url_parse_spec(raw) {
            Some(p) => match p.host {
                Some(h) => if github_host_spec(h) {
                    90
                } else {
                    0
                },
                None => 0,
            },
            None => 0,
        }
    }

    open spec fn resolve_ok_spec(
        &self,
        input: &LinkInput,
        ctx: &ResolveContext,
        rr: &ResolveResult,
    ) -> bool {
        match url_parse_spec(input.raw@) {
            Some(p) => github_draft_spec(input, ctx, rr, p),
            None => false,
        }
    }

    open spec fn resolve_err_spec(&self, input: &LinkInput) -> bool {
        url_parse_spec(input.raw@) is None
    }

    fn name(&self) -> (r: &'static str) {
        "github-resolver"
    }

    fn can_handle(&self, input: &LinkInput) -> (r: u8) {
        match parse_url(input.raw.as_str()) {
            Some(p) => match &p.host {
                Some(h) => {
                    if GitHubResolver::is_github_host(h.as_str()) {
                        90
                    } else {
                        0
                    }
                },
                None => 0,
            },
            None => 0,
        }
    }

    fn resolve(&self, input: &LinkInput, ctx: &ResolveContext) -> (r: Result<
        ResolveResult,
        ResolveError,
    >) {
        let p = match parse_url(input.raw.as_str()) {
            Some(p) => p,
            None => {
                return Err(ResolveError { message: String::from_str("not a valid url") });
            },
        };
        let path_str = p.path.as_str();
        let pn = path_str.unicode_len();
        let stripped: &str = if pn > 0 && path_str.get_char(0) == '/' {
            path_str.substring_char(1, pn)
        } else {
            path_str
        };
        let mut segs = split_char(stripped, '/');
        proof {
            assert(segs.deep_view() == github_segments(p@.path));
        }
        let on_github = match &p.host {
            Some(h) => str_eq(h.as_str(), "github.com"),
            None => false,
        };
        let blob = on_github && segs.len() >= 5 && str_eq(segs[2].as_str(), "blob");
        let archive = on_github && segs.len() == 2;
        proof {
            assert(Some("github.com"@) == p@.host <==> (match p@.host {
                Some(h) => h == "github.com"@,
                None => false,
            }));
        }

        let final_uri: String = if blob {
            let mut u = String::from_str("https://raw.githubusercontent.com/");
            u.append(segs[0].as_str());
            u.append("/");
            u.append(segs[1].as_str());
            u.append("/");
            u.append(segs[3].as_str());
            u.append("/");
            let rest = segs.split_off(4);
            let joined = join_with_sep(&rest, "/");
            u.append(joined.as_str());
            proof {
                assert(rest.deep_view() =~= github_segments(p@.path).skip(4));
                assert(u@ =~= blob_raw_uri(p@));
            }
            u
        } else if archive {
            let mut u = String::from_str("https://github.com/");
            u.append(segs[0].as_str());
            u.append("/");
            u.append(segs[1].as_str());
            u.append("/archive/refs/heads/main.zip");
            proof {
                assert(u@ =~= archive_uri(p@));
            }
            u
        } else {
            input.raw.clone()
        };

        let name = if blob || archive {
            name_from_path(final_uri.as_str(), "github_download.bin")
        } else {
            name_from_path(path_str, "github_download.bin")
        };
        let suggested_path = join_path(ctx.out_dir.as_str(), name.as_str());

        let res = ResourceDescriptor {
            rtype: ResourceType::GitHubResolvedHttp,
            uri: final_uri,
            headers: clone_pairs(&input.headers),
            meta: Vec::new(),
            caps: Capabilities { supports_ranges: true, max_parallel: 8 },
        };
        let mut resources: Vec<ResourceDescriptor> = Vec::new();
        resources.push(res);
        let draft = DownloadItemDraft { display_name: name, suggested_path, total_size: None, resources };
        let mut drafts: Vec<DownloadItemDraft> = Vec::new();
        drafts.push(draft);
        Ok(ResolveResult { drafts, warnings: Vec::new() })
    }
}

} // verus!
