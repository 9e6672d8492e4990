//! ED2K resolver: accepts `ed2k://|file|NAME|SIZE|HASH|/` links and
//! reads the file name, size and hash out of the pipe-separated
//! fields; the transfer itself is delegated to an external client
//! command.

use vstd::prelude::*;
use crate::model::{Capabilities, LinkInput, ResourceDescriptor, ResourceType};
use crate::naming::{joined_path_spec, join_path, sanitize_file_name, sanitized_of};
use crate::registry::{DownloadItemDraft, LinkResolver, ResolveContext, ResolveError, ResolveResult};
use crate::text::{
    all_digits, all_spaces, decimal_string, decimal_value, eq_ignore_case, format_u64,
    has_prefix_ignore_case, has_prefix_spec, is_blank, lower_seq, parse_u64, split_char,
    split_spec, strip_all, strip_char_all, strip_leading, strip_prefix_all,
};

verus! {

pub struct Ed2kResolver;

impl Ed2kResolver {
    pub fn new() -> (r: Self) {
        Ed2kResolver
    }
}

/// The pipe-separated fields of an ED2K link, after the scheme and any
/// leading pipes are peeled off.
pub open spec fn ed2k_fields(raw: Seq<char>) -> Seq<Seq<char>> {
    split_spec(strip_char_all(strip_prefix_all(raw, "ed2k://"@), '|'), '|')
}

/// A well-formed ED2K file link: the scheme (in any case), at least
/// five fields, a `file` tag, and a size that reads as a `u64`.
pub open spec fn ed2k_ok(raw: Seq<char>) -> bool {
    &&& has_prefix_spec(lower_seq(raw), lower_seq("ed2k://"@))
    &&& ed2k_fields(raw).len() >= 5
    &&& lower_seq(ed2k_fields(raw)[0]) == lower_seq("file"@)
    &&& ed2k_fields(raw)[2].len() > 0
    &&& all_digits(ed2k_fields(raw)[2])
    &&& decimal_value(ed2k_fields(raw)[2]) <= u64::MAX
}

pub open spec fn ed2k_name(raw: Seq<char>) -> Seq<char> {
    ed2k_fields(raw)[1]
}

pub open spec fn ed2k_size(raw: Seq<char>) -> int {
    decimal_value(ed2k_fields(raw)[2])
}

pub open spec fn ed2k_hash(raw: Seq<char>) -> Seq<char> {
    ed2k_fields(raw)[3]
}

/// The display name: the sanitized file name, or a name built from the
/// first twelve characters of the hash when the name is blank.
pub open spec fn ed2k_display_spec(raw: Seq<char>) -> Seq<char> {
    if all_spaces(ed2k_name(raw)) {
        "ed2k-"@ + ed2k_hash(raw).take(
            if ed2k_hash(raw).len() <= 12 {
                ed2k_hash(raw).len() as int
            } else {
                12
            },
        )
    } else {
        sanitized_of(ed2k_name(raw))
    }
}

/// The one draft an ED2K resolution produces.
pub open spec fn ed2k_draft_spec(
    input: &LinkInput,
    ctx: &ResolveContext,
    rr: &ResolveResult,
) -> bool {
    let raw = input.raw@;
    let name = ed2k_display_spec(raw);
    &&& rr.drafts@.len() == 1
    &&& rr.warnings@.len() == 1
    &&& rr.drafts@[0].display_name@ == name
    &&& rr.drafts@[0].suggested_path@ == joined_path_spec(ctx.out_dir@, name)
    &&& rr.drafts@[0].total_size == Some(ed2k_size(raw) as u64)
    &&& rr.drafts@[0].resources@.len() == 1
    &&& rr.drafts@[0].resources@[0].rtype == ResourceType::Ed2k
    &&& rr.drafts@[0].resources@[0].uri@ == raw
    &&& rr.drafts@[0].resources@[0].headers@.len() == 0
    &&& rr.drafts@[0].resources@[0].meta.deep_view() == seq![
        ("name"@, ed2k_name(raw)),
        ("size"@, decimal_string(ed2k_size(raw))),
        ("hash"@, ed2k_hash(raw)),
    ]
    &&& rr.drafts@[0].resources@[0].caps == (Capabilities {
        supports_ranges: false,
        max_parallel: 1,
    })
}

/// Parse an ED2K file link into its name, size and hash. Succeeds
/// exactly on well-formed links.
pub fn parse_ed2k_file(raw: &str) -> (r: Result<(String, u64, String), ResolveError>)
    ensures
        r matches Ok(parts) ==> {
            &&& ed2k_ok(raw@)
            &&& parts.0@ == ed2k_name(raw@)
            &&& parts.1 == ed2k_size(raw@)
            &&& parts.2@ == ed2k_hash(raw@)
        },
        r is Err <==> !ed2k_ok(raw@),
{
    if !has_prefix_ignore_case(raw, "ed2k://") {
        return Err(ResolveError { message: String::from_str("not an ed2k url") });
    }
    proof {
        reveal_strlit("ed2k://");
    }
    let stripped = strip_all(raw, "ed2k://");
    let unpiped = strip_leading(stripped.as_str(), '|');
    let fields = split_char(unpiped.as_str(), '|');
    if fields.len() < 5 {
        return Err(ResolveError { message: String::from_str("invalid ed2k url (too few fields)") });
    }
    if !eq_ignore_case(fields[0].as_str(), "file") {
        return Err(
            ResolveError { message: String::from_str("ed2k only supports file links for now") },
        );
    }
    let size = match parse_u64(fields[2].as_str()) {
        Some(v) => v,
        None => {
            return Err(ResolveError { message: String::from_str("invalid ed2k size field") });
        },
    };
    let name = fields[1].clone();
    let hash = fields[3].clone();
    Ok((name, size, hash))
}

impl LinkResolver for Ed2kResolver {
    /// 80 for anything that begins `ed2k://` in any letter case;
    /// decline otherwise.
    open spec fn score_spec(&self, raw: Seq<char>) -> int {
        if has_prefix_spec(lower_seq(raw), lower_seq("ed2k://"@)) {
            80
        } else {
            0
        }
    }

    open spec fn resolve_ok_spec(
        &self,
        input: &LinkInput,
        ctx: &ResolveContext,
        rr: &ResolveResult,
    ) -> bool {
        ed2k_ok(input.raw@) && ed2k_draft_spec(input, ctx, rr)
    }

    open spec fn resolve_err_spec(&self, input: &LinkInput) -> bool {
        !ed2k_ok(input.raw@)
    }

    fn name(&self) -> (r: &'static str) {
        "ed2k-resolver"
    }

    fn can_handle(&self, input: &LinkInput) -> (r: u8) {
        if has_prefix_ignore_case(input.raw.as_str(), "ed2k://") {
            80
        } else {
            0
        }
    }

    fn resolve(&self, input: &LinkInput, ctx: &ResolveContext) -> (r: Result<
        ResolveResult,
        ResolveError,
    >) {
        let (file_name, size, hash) = match parse_ed2k_file(input.raw.as_str()) {
            Ok(parts) => parts,
            Err(e) => {
                return Err(e);
            },
        };

        let display: String = if is_blank(file_name.as_str()) {
            let hn = hash.as_str().unicode_len();
            let cut = if hn <= 12 {
                hn
            } else {
                12
            };
            let mut s = String::from_str("ed2k-");
            s.append(hash.as_str().substring_char(0, cut));
            s
        } else {
            sanitize_file_name(file_name.as_str())
        };
        let suggested_path = join_path(ctx.out_dir.as_str(), display.as_str());

        let mut meta: Vec<(String, String)> = Vec::new();
        meta.push((String::from_str("name"), file_name));
        meta.push((String::from_str("size"), format_u64(size)));
        meta.push((String::from_str("hash"), hash));
        proof {
            assert(meta.deep_view() =~= seq![
                ("name"@, ed2k_name(input.raw@)),
                ("size"@, decimal_string(ed2k_size(input.raw@))),
                ("hash"@, ed2k_hash(input.raw@)),
            ]);
        }

        let res = ResourceDescriptor {
            rtype: ResourceType::Ed2k,
            uri: input.raw.clone(),
            headers: Vec::new(),
            meta,
            caps: Capabilities { supports_ranges: false, max_parallel: 1 },
        };
        let mut resources: Vec<ResourceDescriptor> = Vec::new();
        resources.push(res);
        let draft = DownloadItemDraft {
            display_name: display,
            suggested_path,
            total_size: Some(size),
            resources,
        };
        let mut drafts: Vec<DownloadItemDraft> = Vec::new();
        drafts.push(draft);
        let mut warnings: Vec<String> = Vec::new();
        warnings.push(
            String::from_str("ED2K requires an external client command (see --ed2k-cmd)."),
        );
        Ok(ResolveResult { drafts, warnings })
    }
}

} // verus!
