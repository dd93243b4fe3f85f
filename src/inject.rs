//! The two development markers added to a template's source before it is
//! evaluated: the endpoint it came from, on its first tag, and the reload
//! client, before the end of its head.
use vstd::prelude::*;

use crate::text::{find_from, first_occurrence_from, starts_with, str_starts_with};

verus! {

/// The document type declaration that may open a page.
pub const DOCTYPE: &'static str = "<!DOCTYPE html>";

/// What opens the endpoint attribute.
pub const PATH_ATTRIBUTE_OPEN: &'static str = " hmr-path=\"";

/// What closes the endpoint attribute.
pub const PATH_ATTRIBUTE_CLOSE: &'static str = "\"";

/// The tag that closes a page's head.
pub const HEAD_CLOSE: &'static str = "</head>";

/// What stands before the reload client.
pub const SCRIPT_OPEN: &'static str = "\n\t<script>\n";

/// What stands after the reload client.
pub const SCRIPT_CLOSE: &'static str = "\n</script>\n";

/// Where the first tag of `t` ends: its first `>`, past the document type
/// declaration if `t` opens with one.
pub open spec fn first_tag_end(t: Seq<char>) -> Option<int> {
    if starts_with(t, DOCTYPE@) {
        first_occurrence_from(t, tag_close(), DOCTYPE@.len() as int)
    } else {
        first_occurrence_from(t, tag_close(), 0)
    }
}

/// The one-character sequence `>`.
pub open spec fn tag_close() -> Seq<char> {
    seq!['>']
}

/// `t` with `inserted` put in at position `p`.
pub open spec fn insert_at(t: Seq<char>, p: int, inserted: Seq<char>) -> Seq<char> {
    t.subrange(0, p) + inserted + t.subrange(p, t.len() as int)
}

/// `template` with the attribute recording `path` added to its first tag;
/// unchanged if it has no tag end.
pub open spec fn with_template_path(path: Seq<char>, template: Seq<char>) -> Seq<char> {
    match first_tag_end(template) {
        Some(p) => insert_at(template, p, PATH_ATTRIBUTE_OPEN@ + path + PATH_ATTRIBUTE_CLOSE@),
        None => template,
    }
}

/// `template` with `script` inlined before its first `</head>`; unchanged if
/// it has none.
pub open spec fn with_reload_client(template: Seq<char>, script: Seq<char>) -> Seq<char> {
    match first_occurrence_from(template, HEAD_CLOSE@, 0) {
        Some(p) => insert_at(template, p, SCRIPT_OPEN@ + script + SCRIPT_CLOSE@),
        None => template,
    }
}

/// `template` split at `p`, with `inserted` in between.
fn splice(template: &str, p: usize, inserted: &str) -> (r: String)
    requires
        p <= template@.len(),
    ensures
        r@ == insert_at(template@, p as int, inserted@),
{
    let n = template.unicode_len();
    let mut r = template.substring_char(0, p).to_owned();
    r.append(inserted);
    r.append(template.substring_char(p, n));
    r
}

/// Adds an attribute recording the endpoint `path` to the first tag of
/// `template`; see [`with_template_path`].
pub fn inject_template_path(path: &str, template: &str) -> (r: String)
    ensures
        r@ == with_template_path(path@, template@),
{
    let gt = ">";
    proof {
        reveal_strlit(">");
        assert(gt@ =~= tag_close());
    }
    let loc = if str_starts_with(template, DOCTYPE) {
        find_from(template, gt, DOCTYPE.unicode_len())
    } else {
        find_from(template, gt, 0)
    };
    match loc {
        Some(p) => {
            let mut attribute = PATH_ATTRIBUTE_OPEN.to_owned();
            attribute.append(path);
            attribute.append(PATH_ATTRIBUTE_CLOSE);
            splice(template, p, attribute.as_str())
        },
        None => template.to_owned(),
    }
}

/// Inlines the reload client `script` before the end of the head of
/// `template`; see [`with_reload_client`].
pub fn inject_hmr(template: &str, script: &str) -> (r: String)
    ensures
        r@ == with_reload_client(template@, script@),
{
    match find_from(template, HEAD_CLOSE, 0) {
        Some(p) => {
            let mut block = SCRIPT_OPEN.to_owned();
            block.append(script);
            block.append(SCRIPT_CLOSE);
            splice(template, p, block.as_str())
        },
        None => template.to_owned(),
    }
}

} // verus!
