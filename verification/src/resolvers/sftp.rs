//! SFTP resolver: accepts `sftp` links; the transfer itself is a
//! whole-file delegation to the system's copy tool.

use vstd::prelude::*;
use crate::model::{str_eq, Capabilities, LinkInput, ResourceDescriptor, ResourceType};
use crate::naming::{joined_path_spec, name_from_path, name_from_path_spec, join_path};
use crate::registry::{DownloadItemDraft, LinkResolver, ResolveContext, ResolveError, ResolveResult};
use crate::urlparse::{parse_url, url_parse_spec, UrlPartsView};

verus! {

pub struct SftpResolver;

impl SftpResolver {
    pub fn new() -> (r: Self) {
        SftpResolver
    }
}

/// The one draft an SFTP resolution produces: the sanitized last path
/// segment as name, one whole-file SFTP resource, and a warning that
/// the transfer relies on key-based authentication.
pub open spec fn sftp_draft_spec(
    input: &LinkInput,
    ctx: &ResolveContext,
    rr: &ResolveResult,
    p: UrlPartsView,
) -> bool {
    let name = name_from_path_spec(p.path, "download.bin"@);
    &&& rr.drafts@.len() == 1
    &&& rr.warnings@.len() == 1
    &&& rr.drafts@[0].display_name@ == name
    &&& rr.drafts@[0].suggested_path@ == joined_path_spec(ctx.out_dir@, name)
    &&& rr.drafts@[0].total_size is None
    &&& rr.drafts@[0].resources@.len() == 1
    &&& rr.drafts@[0].resources@[0].rtype == ResourceType::Sftp
    &&& rr.drafts@[0].resources@[0].uri@ == input.raw@
    &&& rr.drafts@[0].resources@[0].headers@.len() == 0
    &&& rr.drafts@[0].resources@[0].meta@.len() == 0
    &&& rr.drafts@[0].resources@[0].caps == (Capabilities {
        supports_ranges: false,
        max_parallel: 1,
    })
}

impl LinkResolver for SftpResolver {
    /// 70 for a parseable `sftp` link; decline otherwise.
    open spec fn score_spec(&self, raw: Seq<char>) -> int {
        match url_parse_spec(raw) {
            Some(p) => if p.scheme == "sftp"@ {
                70
            } else {
                0
            },
            None => 0,
        }
    }

    open spec fn resolve_ok_spec(
        &self,
        input: &LinkInput,
        ctx: &ResolveContext,
        rr: &ResolveResult,
    ) -> bool {
        match url_parse_spec(input.raw@) {
            Some(p) => sftp_draft_spec(input, ctx, rr, p),
            None => false,
        }
    }

    open spec fn resolve_err_spec(&self, input: &LinkInput) -> bool {
        url_parse_spec(input.raw@) is None
    }

    fn name(&self) -> (r: &'static str) {
        "sftp-resolver"
    }

    fn can_handle(&self, input: &LinkInput) -> (r: u8) {
        match parse_url(input.raw.as_str()) {
            Some(p) => {
                if str_eq(p.scheme.as_str(), "sftp") {
                    70
                } else {
                    0
                }
            },
            None => 0,
        }
    }

    fn resolve(&self, input: &LinkInput, ctx: &ResolveContext) -> (r: Result<
        ResolveResult,
        ResolveError,
    >) {
        let p = match parse_url(input.raw.as_str()) {
            Some(p) => p,
            None => {
                return Err(ResolveError { message: String::from_str("not a valid url") });
            },
        };
        let name = name_from_path(p.path.as_str(), "download.bin");
        let suggested_path = join_path(ctx.out_dir.as_str(), name.as_str());
        let res = ResourceDescriptor {
            rtype: ResourceType::Sftp,
            uri: input.raw.clone(),
            headers: Vec::new(),
            meta: Vec::new(),
            caps: Capabilities { supports_ranges: false, max_parallel: 1 },
        };
        let mut resources: Vec<ResourceDescriptor> = Vec::new();
        resources.push(res);
        let draft = DownloadItemDraft { display_name: name, suggested_path, total_size: None, resources };
        let mut drafts: Vec<DownloadItemDraft> = Vec::new();
        drafts.push(draft);
        let mut warnings: Vec<String> = Vec::new();
        warnings.push(
            String::from_str(
                "SFTP downloads use system scp. Configure key-based auth; password prompts are not supported.",
            ),
        );
        Ok(ResolveResult { drafts, warnings })
    }
}

} // verus!
