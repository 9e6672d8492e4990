//! FTP resolver: accepts `ftp` links and moves the connection
//! parameters — user, password, port — into the resource's meta, with
//! command-line options overriding what the URL carries.

use vstd::prelude::*;
use crate::model::{lookup_pair, pairs_get, str_eq, Capabilities, LinkInput, ResourceDescriptor, ResourceType};
use crate::naming::{joined_path_spec, name_from_path, name_from_path_spec, join_path};
use crate::registry::{DownloadItemDraft, LinkResolver, ResolveContext, ResolveError, ResolveResult};
use crate::text::{decimal_string, format_u64};
use crate::urlparse::{parse_url, url_parse_spec, UrlPartsView};

verus! {

pub struct FtpResolver;

impl FtpResolver {
    pub fn new() -> (r: Self) {
        FtpResolver
    }
}

/// The login user: the `ftp_user` option if given, else the URL's
/// user, else anonymous.
pub open spec fn ftp_user_spec(input: &LinkInput, p: UrlPartsView) -> Seq<char> {
    match pairs_get(input.options.deep_view(), "ftp_user"@) {
        Some(u) => u,
        None => if p.username.len() == 0 {
            "anonymous"@
        } else {
            p.username
        },
    }
}

/// The password: the `ftp_pass` option if given, else the URL's, else
/// none.
pub open spec fn ftp_pass_spec(input: &LinkInput, p: UrlPartsView) -> Option<Seq<char>> {
    match pairs_get(input.options.deep_view(), "ftp_pass"@) {
        Some(v) => Some(v),
        None => p.password,
    }
}

/// The port, rendered in base ten: the `ftp_port` option if given,
/// else the URL's explicit port, else the protocol default.
pub open spec fn ftp_port_spec(input: &LinkInput, p: UrlPartsView) -> Seq<char> {
    match pairs_get(input.options.deep_view(), "ftp_port"@) {
        Some(v) => v,
        None => match p.port {
            Some(pt) => decimal_string(pt as int),
            None => "21"@,
        },
    }
}

/// The connection parameters as meta pairs, in a fixed order; the
/// password pair appears only when a password is known.
pub open spec fn ftp_meta_spec(input: &LinkInput, p: UrlPartsView) -> Seq<(Seq<char>, Seq<char>)> {
    let base = seq![("ftp_user"@, ftp_user_spec(input, p))];
    let with_pass = match ftp_pass_spec(input, p) {
        Some(pw) => base.push(("ftp_pass"@, pw)),
        None => base,
    };
    with_pass.push(("ftp_port"@, ftp_port_spec(input, p)))
}

/// The one draft an FTP resolution produces.
pub open spec fn ftp_draft_spec(
    input: &LinkInput,
    ctx: &ResolveContext,
    rr: &ResolveResult,
    p: UrlPartsView,
) -> bool {
    let name = name_from_path_spec(p.path, "download.bin"@);
    &&& rr.drafts@.len() == 1
    &&& rr.warnings@.len() == 0
    &&& rr.drafts@[0].display_name@ == name
    &&& rr.drafts@[0].suggested_path@ == joined_path_spec(ctx.out_dir@, name)
    &&& rr.drafts@[0].total_size is None
    &&& rr.drafts@[0].resources@.len() == 1
    &&& rr.drafts@[0].resources@[0].rtype == ResourceType::Ftp
    &&& rr.drafts@[0].resources@[0].uri@ == input.raw@
    &&& rr.drafts@[0].resources@[0].headers@.len() == 0
    &&& rr.drafts@[0].resources@[0].meta.deep_view() == ftp_meta_spec(input, p)
    &&& rr.drafts@[0].resources@[0].caps == (Capabilities {
        supports_ranges: true,
        max_parallel: 1,
    })
}

impl LinkResolver for FtpResolver {
    /// 70 for a parseable `ftp` link; decline otherwise.
    open spec fn score_spec(&self, raw: Seq<char>) -> int {
        match url_parse_spec(raw) {
            Some(p) => if p.scheme == "ftp"@ {
                70
            } else {
                0
            },
            None => 0,
        }
    }

    open spec fn resolve_ok_spec(
        &self,
        input: &LinkInput,
        ctx: &ResolveContext,
        rr: &ResolveResult,
    ) -> bool {
        match url_parse_spec(input.raw@) {
            Some(p) => ftp_draft_spec(input, ctx, rr, p),
            None => false,
        }
    }

    open spec fn resolve_err_spec(&self, input: &LinkInput) -> bool {
        url_parse_spec(input.raw@) is None
    }

    fn name(&self) -> (r: &'static str) {
        "ftp-resolver"
    }

    fn can_handle(&self, input: &LinkInput) -> (r: u8) {
        match parse_url(input.raw.as_str()) {
            Some(p) => {
                if str_eq(p.scheme.as_str(), "ftp") {
                    70
                } else {
                    0
                }
            },
            None => 0,
        }
    }

    fn resolve(&self, input: &LinkInput, ctx: &ResolveContext) -> (r: Result<
        ResolveResult,
        ResolveError,
    >) {
        let p = match parse_url(input.raw.as_str()) {
            Some(p) => p,
            None => {
                return Err(ResolveError { message: String::from_str("not a valid url") });
            },
        };
        let name = name_from_path(p.path.as_str(), "download.bin");
        let suggested_path = join_path(ctx.out_dir.as_str(), name.as_str());

        let user: String = match lookup_pair(&input.options, "ftp_user") {
            Some(u) => u.clone(),
            None => {
                if p.username.as_str().unicode_len() == 0 {
                    String::from_str("anonymous")
                } else {
                    p.username.clone()
                }
            },
        };
        let pass: Option<String> = match lookup_pair(&input.options, "ftp_pass") {
            Some(v) => Some(v.clone()),
            None => match &p.password {
                Some(pw) => Some(pw.clone()),
                None => None,
            },
        };
        let port: String = match lookup_pair(&input.options, "ftp_port") {
            Some(v) => v.clone(),
            None => match p.port {
                Some(pt) => format_u64(pt as u64),
                None => String::from_str("21"),
            },
        };

        let mut meta: Vec<(String, String)> = Vec::new();
        meta.push((String::from_str("ftp_user"), user));
        if let Some(pw) = pass {
            meta.push((String::from_str("ftp_pass"), pw));
        }
        meta.push((String::from_str("ftp_port"), port));
        proof {
            assert(meta.deep_view() =~= ftp_meta_spec(input, p@));
        }

        let res = ResourceDescriptor {
            rtype: ResourceType::Ftp,
            uri: input.raw.clone(),
            headers: Vec::new(),
            meta,
            caps: Capabilities { supports_ranges: true, max_parallel: 1 },
        };
        let mut resources: Vec<ResourceDescriptor> = Vec::new();
        resources.push(res);
        let draft = DownloadItemDraft { display_name: name, suggested_path, total_size: None, resources };
        let mut drafts: Vec<DownloadItemDraft> = Vec::new();
        drafts.push(draft);
        Ok(ResolveResult { drafts, warnings: Vec::new() })
    }
}

} // verus!
