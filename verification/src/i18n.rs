//! Message catalogue: locale selection and the fixed strings of the
//! command-line front end.

use vstd::prelude::*;
use crate::text::{eq_ignore_case, lower_seq};

verus! {

#[derive(Clone, Copy, PartialEq, Eq, Structural, Debug)]
pub enum Locale {
    En,
    Zh,
}

impl Default for Locale {
    fn default() -> (r: Self)
        ensures
            r == Locale::En,
    {
        Locale::En
    }
}

/// The locale a tag selects: the Chinese catalogue for the common
/// Chinese tags, compared without letter case; English otherwise.
pub open spec fn locale_of(s: Seq<char>) -> Locale {
    if lower_seq(s) == "zh"@ || lower_seq(s) == "zh-cn"@ || lower_seq(s) == "zh_cn"@ || lower_seq(
        s,
    ) == "zh-hans"@ || lower_seq(s) == "zh-tw"@ || lower_seq(s) == "zh_tw"@ {
        Locale::Zh
    } else {
        Locale::En
    }
}

impl Locale {
    /// Select a locale from its tag.
    pub fn from_str(s: &str) -> (r: Self)
        ensures
            r == locale_of(s@),
    {
        proof {
            reveal_strlit("zh");
            reveal_strlit("zh-cn");
            reveal_strlit("zh_cn");
            reveal_strlit("zh-hans");
            reveal_strlit("zh-tw");
            reveal_strlit("zh_tw");
            assert(lower_seq("zh"@) =~= "zh"@);
            assert(lower_seq("zh-cn"@) =~= "zh-cn"@);
            assert(lower_seq("zh_cn"@) =~= "zh_cn"@);
            assert(lower_seq("zh-hans"@) =~= "zh-hans"@);
            assert(lower_seq("zh-tw"@) =~= "zh-tw"@);
            assert(lower_seq("zh_tw"@) =~= "zh_tw"@);
        }
        if eq_ignore_case(s, "zh") || eq_ignore_case(s, "zh-cn") || eq_ignore_case(s, "zh_cn")
            || eq_ignore_case(s, "zh-hans") || eq_ignore_case(s, "zh-tw") || eq_ignore_case(
            s,
            "zh_tw",
        ) {
            Locale::Zh
        } else {
            Locale::En
        }
    }
}

/// The fixed strings of the front end, in one language.
pub struct Messages {
    pub job_started: &'static str,
    pub job_finished: &'static str,
    pub summary_header: &'static str,
    pub status_done: &'static str,
    pub status_failed: &'static str,
    pub item_added: &'static str,
    pub fragments_label: &'static str,
    pub eta_unknown: &'static str,
    pub total_unknown: &'static str,
    pub error_prefix: &'static str,
    pub info_prefix: &'static str,
    pub job_prefix: &'static str,
}

/// The English catalogue.
pub open spec fn is_en_messages(m: Messages) -> bool {
    &&& m.job_started@ == "Job started"@
    &&& m.job_finished@ == "Job finished"@
    &&& m.summary_header@ == "Summary"@
    &&& m.status_done@ == "done"@
    &&& m.status_failed@ == "failed"@
    &&& m.item_added@ == "added"@
    &&& m.fragments_label@ == "fragments"@
    &&& m.eta_unknown@ == "-"@
    &&& m.total_unknown@ == "?"@
    &&& m.error_prefix@ == "ERR"@
    &&& m.info_prefix@ == "INFO"@
    &&& m.job_prefix@ == "JOB"@
}

/// The Chinese catalogue.
pub open spec fn is_zh_messages(m: Messages) -> bool {
    &&& m.job_started@ == "任务已启动"@
    &&& m.job_finished@ == "任务已完成"@
    &&& m.summary_header@ == "摘要"@
    &&& m.status_done@ == "完成"@
    &&& m.status_failed@ == "失败"@
    &&& m.item_added@ == "已添加"@
    &&& m.fragments_label@ == "分片"@
    &&& m.eta_unknown@ == "-"@
    &&& m.total_unknown@ == "?"@
    &&& m.error_prefix@ == "错误"@
    &&& m.info_prefix@ == "信息"@
    &&& m.job_prefix@ == "任务"@
}

/// The catalogue of a locale.
pub fn get_messages(locale: Locale) -> (r: Messages)
    ensures
        locale == Locale::En ==> is_en_messages(r),
        locale == Locale::Zh ==> is_zh_messages(r),
{
    match locale {
        Locale::En => Messages {
            job_started: "Job started",
            job_finished: "Job finished",
            summary_header: "Summary",
            status_done: "done",
            status_failed: "failed",
            item_added: "added",
            fragments_label: "fragments",
            eta_unknown: "-",
            total_unknown: "?",
            error_prefix: "ERR",
            info_prefix: "INFO",
            job_prefix: "JOB",
        },
        Locale::Zh => Messages {
            job_started: "任务已启动",
            job_finished: "任务已完成",
            summary_header: "摘要",
            status_done: "完成",
            status_failed: "失败",
            item_added: "已添加",
            fragments_label: "分片",
            eta_unknown: "-",
            total_unknown: "?",
            error_prefix: "错误",
            info_prefix: "信息",
            job_prefix: "任务",
        },
    }
}

} // verus!
