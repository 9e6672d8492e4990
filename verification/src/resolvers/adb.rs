//! ADB resolver: accepts `adb` links naming a device path; the pull
//! itself is a whole-file delegation to the local `adb` binary.

use vstd::prelude::*;
use crate::model::{str_eq, Capabilities, LinkInput, ResourceDescriptor, ResourceType};
use crate::naming::{joined_path_spec, name_from_path, name_from_path_spec, join_path};
use crate::registry::{DownloadItemDraft, LinkResolver, ResolveContext, ResolveError, ResolveResult};
use crate::urlparse::{parse_url, url_parse_spec, UrlPartsView};

verus! {

pub struct AdbResolver;

impl AdbResolver {
    pub fn new() -> (r: Self) {
        AdbResolver
    }
}

/// A usable device path: non-empty and more than the bare root.
pub open spec fn adb_path_ok(p: UrlPartsView) -> bool {
    p.path.len() > 0 && p.path != "/"@
}

/// The one draft an ADB resolution produces: the sanitized last
/// segment of the device path as name, the device path in the
/// resource's meta, and a warning about the local binary.
pub open spec fn adb_draft_spec(
    input: &LinkInput,
    ctx: &ResolveContext,
    rr: &ResolveResult,
    p: UrlPartsView,
) -> bool {
    let name = name_from_path_spec(p.path, "device.bin"@);
    &&& rr.drafts@.len() == 1
    &&& rr.warnings@.len() == 1
    &&& rr.drafts@[0].display_name@ == name
    &&& rr.drafts@[0].suggested_path@ == joined_path_spec(ctx.out_dir@, name)
    &&& rr.drafts@[0].total_size is None
    &&& rr.drafts@[0].resources@.len() == 1
    &&& rr.drafts@[0].resources@[0].rtype == ResourceType::Adb
    &&& rr.drafts@[0].resources@[0].uri@ == input.raw@
    &&& rr.drafts@[0].resources@[0].headers@.len() == 0
    &&& rr.drafts@[0].resources@[0].meta.deep_view() == seq![("device_path"@, p.path)]
    &&& rr.drafts@[0].resources@[0].caps == (Capabilities {
        supports_ranges: false,
        max_parallel: 1,
    })
}

impl LinkResolver for AdbResolver {
    /// 70 for a parseable `adb` link; decline otherwise.
    open spec fn score_spec(&self, raw: Seq<char>) -> int {
        match url_parse_spec(raw) {
            Some(p) => if p.scheme == "adb"@ {
                70
            } else {
                0
            },
            None => 0,
        }
    }

    open spec fn resolve_ok_spec(
        &self,
        input: &LinkInput,
        ctx: &ResolveContext,
        rr: &ResolveResult,
    ) -> bool {
        match url_parse_spec(input.raw@) {
            Some(p) => adb_path_ok(p) && adb_draft_spec(input, ctx, rr, p),
            None => false,
        }
    }

    /// Resolution fails on an unparseable link or a missing device
    /// path.
    open spec fn resolve_err_spec(&self, input: &LinkInput) -> bool {
        match url_parse_spec(input.raw@) {
            Some(p) => !adb_path_ok(p),
            None => true,
        }
    }

    fn name(&self) -> (r: &'static str) {
        "adb-resolver"
    }

    fn can_handle(&self, input: &LinkInput) -> (r: u8) {
        match parse_url(input.raw.as_str()) {
            Some(p) => {
                if str_eq(p.scheme.as_str(), "adb") {
                    70
                } else {
                    0
                }
            },
            None => 0,
        }
    }

    fn resolve(&self, input: &LinkInput, ctx: &ResolveContext) -> (r: Result<
        ResolveResult,
        ResolveError,
    >) {
        let p = match parse_url(input.raw.as_str()) {
            Some(p) => p,
            None => {
                return Err(ResolveError { message: String::from_str("not a valid url") });
            },
        };
        if p.path.as_str().unicode_len() == 0 || str_eq(p.path.as_str(), "/") {
            return Err(ResolveError { message: String::from_str("adb url missing device path") });
        }
        let name = name_from_path(p.path.as_str(), "device.bin");
        let suggested_path = join_path(ctx.out_dir.as_str(), name.as_str());
        let mut meta: Vec<(String, String)> = Vec::new();
        meta.push((String::from_str("device_path"), p.path.clone()));
        proof {
            reveal_strlit("device_path");
            assert(meta.deep_view() =~= seq![("device_path"@, p.path@)]);
        }
        let res = ResourceDescriptor {
            rtype: ResourceType::Adb,
            uri: input.raw.clone(),
            headers: Vec::new(),
            meta,
            caps: Capabilities { supports_ranges: false, max_parallel: 1 },
        };
        let mut resources: Vec<ResourceDescriptor> = Vec::new();
        resources.push(res);
        let draft = DownloadItemDraft { display_name: name, suggested_path, total_size: None, resources };
        let mut drafts: Vec<DownloadItemDraft> = Vec::new();
        drafts.push(draft);
        let mut warnings: Vec<String> = Vec::new();
        warnings.push(
            String::from_str(
                "ADB pull uses local adb binary; ensure a device is connected and authorized.",
            ),
        );
        Ok(ResolveResult { drafts, warnings })
    }
}

} // verus!
