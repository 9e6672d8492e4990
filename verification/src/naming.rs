//! File naming: sanitization of names drawn from URL paths, and the
//! composition of suggested paths under the output directory.

use vstd::prelude::*;
use crate::text::{after_last_slash, last_slash_segment};

verus! {

/// A character that sanitization never lets through: path separators,
/// reserved punctuation, and control characters.
pub open spec fn is_reserved_name_char(c: char) -> bool {
    ||| c == '/'
    ||| c == '\\'
    ||| c == '?'
    ||| c == '<'
    ||| c == '>'
    ||| c == ':'
    ||| c == '*'
    ||| c == '|'
    ||| c == '"'
    ||| c as int <= 0x1f
    ||| (0x80 <= c as int && c as int <= 0x9f)
}

/// What sanitization makes of a name.
pub uninterp spec fn sanitized_of(s: Seq<char>) -> Seq<char>;

/// Relies on `sanitize_filename::sanitize_with_options` with fixed
/// options (windows rules, truncation, empty replacement): the result
/// depends on the name alone, only deletes, and no path separator,
/// reserved character or control character survives.
#[verifier::external_body]
pub fn sanitize_file_name(name: &str) -> (r: String)
    ensures
        r@ == sanitized_of(name@),
        forall|i: int| 0 <= i < r@.len() ==> !is_reserved_name_char(#[trigger] r@[i]),
        r@.len() <= name@.len(),
{
    let options = sanitize_filename::Options { windows: true, truncate: true, replacement: "" };
    sanitize_filename::sanitize_with_options(name, options)
}

/// The display name drawn from a URL path: its last segment,
/// sanitized; the fallback when the last segment is empty.
pub open spec fn name_from_path_spec(path: Seq<char>, fallback: Seq<char>) -> Seq<char> {
    if after_last_slash(path).len() == 0 {
        fallback
    } else {
        sanitized_of(after_last_slash(path))
    }
}

/// Derive a file name from a URL path: the sanitized last segment, or
/// the given fallback when the path ends in a separator or is empty.
pub fn name_from_path(path: &str, fallback: &str) -> (r: String)
    ensures
        r@ == name_from_path_spec(path@, fallback@),
{
    let seg = last_slash_segment(path);
    if seg.as_str().unicode_len() == 0 {
        String::from_str(fallback)
    } else {
        sanitize_file_name(seg.as_str())
    }
}

/// `dir` and `name` joined with exactly one separator.
pub open spec fn joined_path_spec(dir: Seq<char>, name: Seq<char>) -> Seq<char> {
    if dir.len() > 0 && dir.last() == '/' {
        dir + name
    } else {
        dir + seq!['/'] + name
    }
}

/// Compose a path under a directory.
pub fn join_path(dir: &str, name: &str) -> (r: String)
    ensures
        r@ == joined_path_spec(dir@, name@),
{
    let n = dir.unicode_len();
    let mut out = String::from_str(dir);
    if n == 0 || dir.get_char(n - 1) != '/' {
        out.append("/");
        proof {
            reveal_strlit("/");
        }
    }
    out.append(name);
    out
}

} // verus!
