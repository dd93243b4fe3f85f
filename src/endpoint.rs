//! The correspondence between template files and the endpoints they serve.
use vstd::prelude::*;

use crate::text::{
    ends_with, str_ends_with, trim_end_matches_str, trim_end_seq, trim_start_char,
    trim_start_matches_char,
};

verus! {

/// The file name that stands for the root of its directory.
pub const INDEX_NAME: &'static str = "index";

/// `w` names an index file: it is `index`, or ends with `/index`.
pub open spec fn names_index(w: Seq<char>) -> bool {
    &&& ends_with(w, INDEX_NAME@)
    &&& (w.len() == INDEX_NAME@.len() || w[w.len() - INDEX_NAME@.len() - 1] == '/')
}

/// The endpoint of template path `path`: the extension is removed from its
/// end (as often as it is there), and a trailing `index` is dropped so that
/// an index file stands for its directory.
pub open spec fn endpoint_of(path: Seq<char>, extension: Seq<char>) -> Seq<char> {
    let w = trim_end_seq(path, extension);
    if names_index(w) {
        w.subrange(0, w.len() - INDEX_NAME@.len())
    } else {
        w
    }
}

/// The endpoint of the template file at `relative`, a path under the template
/// root: one slash, then [`endpoint_of`] the path without its leading slashes.
pub open spec fn endpoint_of_file(relative: Seq<char>, extension: Seq<char>) -> Seq<char> {
    seq!['/'] + endpoint_of(trim_start_char(relative, '/'), extension)
}

/// The name that serves `endpoint`: the endpoint itself, or its `index` file
/// when it ends in a slash.
pub open spec fn serving_name(endpoint: Seq<char>) -> Seq<char> {
    if ends_with(endpoint, seq!['/']) {
        endpoint + INDEX_NAME@
    } else {
        endpoint
    }
}

/// The template file, relative to the template root, that serves `endpoint`:
/// its [`serving_name`] without leading slashes, with the extension added
/// unless that name already has one (`has_extension`).
pub open spec fn template_file_of(
    endpoint: Seq<char>,
    has_extension: bool,
    extension: Seq<char>,
) -> Seq<char> {
    let file = trim_start_char(serving_name(endpoint), '/');
    if has_extension {
        file
    } else {
        file + extension
    }
}

/// Whether `std::path::Path` finds an extension in the last component of `p`.
pub uninterp spec fn has_file_extension(p: Seq<char>) -> bool;

/// Relies on `std::path::Path::extension`: whether the last component of
/// `p` has an extension. A path without any dot has none.
#[verifier::external_body]
fn path_has_extension(p: &str) -> (r: bool)
    ensures
        r == has_file_extension(p@),
        !p@.contains('.') ==> !r,
{
    std::path::Path::new(p).extension().is_some()
}

/// The endpoint of template path `path`; see [`endpoint_of`].
pub fn endpointof<'a>(path: &'a str, extension: &str) -> (r: &'a str)
    ensures
        r@ == endpoint_of(path@, extension@),
{
    let w = trim_end_matches_str(path, extension);
    let index = INDEX_NAME;
    if str_ends_with(w, index) {
        let n = w.unicode_len();
        let k = index.unicode_len();
        if n == k || w.get_char(n - k - 1) == '/' {
            return w.substring_char(0, n - k);
        }
    }
    w
}

/// The endpoint of the template file at `relative`; see [`endpoint_of_file`].
pub fn endpoint_for_file(relative: &str, extension: &str) -> (r: String)
    ensures
        r@ == endpoint_of_file(relative@, extension@),
{
    let mut r = "/".to_owned();
    proof {
        reveal_strlit("/");
    }
    r.append(endpointof(trim_start_matches_char(relative, '/'), extension));
    r
}

/// The name that serves `endpoint`; see [`serving_name`].
pub fn serving_name_of(endpoint: &str) -> (r: String)
    ensures
        r@ == serving_name(endpoint@),
{
    let slash = "/";
    proof {
        reveal_strlit("/");
        assert(slash@ =~= seq!['/']);
    }
    let mut name = endpoint.to_owned();
    if str_ends_with(endpoint, slash) {
        name.append(INDEX_NAME);
    }
    name
}

/// The template file serving `endpoint`, given whether its serving name has
/// an extension of its own; see [`template_file_of`].
pub fn template_file_for(endpoint: &str, has_extension: bool, extension: &str) -> (r: String)
    ensures
        r@ == template_file_of(endpoint@, has_extension, extension@),
{
    let name = serving_name_of(endpoint);
    let mut file = trim_start_matches_char(name.as_str(), '/').to_owned();
    if !has_extension {
        file.append(extension);
    }
    file
}

/// A name without a dot serves an endpoint without a dot: `index` has none.
proof fn lemma_serving_name_without_dot(endpoint: Seq<char>)
    requires
        !endpoint.contains('.'),
    ensures
        !serving_name(endpoint).contains('.'),
{
    reveal_strlit("index");
    let name = serving_name(endpoint);
    if ends_with(endpoint, seq!['/']) {
        assert forall|i: int| 0 <= i < name.len() implies name[i] != '.' by {
            if i < endpoint.len() {
                assert(name[i] == endpoint[i]);
            } else {
                assert(name[i] == INDEX_NAME@[i - endpoint.len()]);
            }
        }
    }
}

/// The template file serving `endpoint`, relative to the template root. An
/// endpoint without a dot always gets the extension added.
pub fn path_of_endpoint(endpoint: &str, extension: &str) -> (r: String)
    ensures
        r@ == template_file_of(endpoint@, has_file_extension(serving_name(endpoint@)), extension@),
        !endpoint@.contains('.') ==> r@ == template_file_of(endpoint@, false, extension@),
{
    let name = serving_name_of(endpoint);
    let has_extension = path_has_extension(name.as_str());
    proof {
        if !endpoint@.contains('.') {
            lemma_serving_name_without_dot(endpoint@);
        }
    }
    template_file_for(endpoint, has_extension, extension)
}

/// The start of the placeholder that loads a fragment when it is revealed.
pub const MODULE_OPEN: &'static str = "<div hx-trigger=\"revealed\" hx-swap=\"outerHTML\" hx-get=\"";

/// The end of that placeholder.
pub const MODULE_CLOSE: &'static str = "\"></div>";

/// The placeholder for the fragment at `file` (a template file, as
/// [`template_file_of`] gives it), with `query` as its query string if given.
pub open spec fn module_tag(file: Seq<char>, extension: Seq<char>, query: Option<Seq<char>>) -> Seq<
    char,
> {
    let target = trim_end_seq(file, extension);
    let get = match query {
        Some(q) => target + seq!['?'] + q,
        None => target,
    };
    MODULE_OPEN@ + get + MODULE_CLOSE@
}

/// The placeholder that loads the fragment at `path` once it is revealed,
/// passing the already url-encoded `query` along.
pub fn module(path: &str, extension: &str, query: Option<&str>) -> (r: String)
    ensures
        r@ == module_tag(
            template_file_of(path@, has_file_extension(serving_name(path@)), extension@),
            extension@,
            match query {
                Some(q) => Some(q@),
                None => None,
            },
        ),
        !path@.contains('.') ==> r@ == module_tag(
            template_file_of(path@, false, extension@),
            extension@,
            match query {
                Some(q) => Some(q@),
                None => None,
            },
        ),
{
    let file = path_of_endpoint(path, extension);
    let target = trim_end_matches_str(file.as_str(), extension);
    let mut r = MODULE_OPEN.to_owned();
    r.append(target);
    match query {
        Some(q) => {
            proof {
                reveal_strlit("?");
            }
            r.append("?");
            r.append(q);
        },
        None => {},
    }
    r.append(MODULE_CLOSE);
    r
}

/// The file that serves an endpoint maps back to that endpoint: an endpoint
/// of one leading slash and no extension of its own, whose file name (before
/// the extension is added) does not itself end with the extension, is what
/// the watcher computes for the file [`template_file_of`] gives for it. A name
/// `index` is the one exception: it stands for its directory.
pub proof fn lemma_endpoint_file_round_trip(endpoint: Seq<char>, extension: Seq<char>)
    requires
        endpoint.len() > 0,
        endpoint[0] == '/',
        endpoint.len() == 1 || endpoint[1] != '/',
        extension.len() > 0,
        ({
            let rest = endpoint.drop_first();
            let name = if ends_with(endpoint, seq!['/']) {
                rest + INDEX_NAME@
            } else {
                rest
            };
            &&& !ends_with(name, extension)
            &&& !ends_with(endpoint, seq!['/']) ==> !names_index(rest)
        }),
    ensures
        endpoint_of_file(template_file_of(endpoint, false, extension), extension) == endpoint,
{
    let rest = endpoint.drop_first();
    assert(endpoint =~= seq!['/'] + rest);
    let base = if ends_with(endpoint, seq!['/']) {
        endpoint + INDEX_NAME@
    } else {
        endpoint
    };
    let name = if ends_with(endpoint, seq!['/']) {
        rest + INDEX_NAME@
    } else {
        rest
    };
    assert(base =~= seq!['/'] + name);
    proof_index_name_starts_with_i();
    assert(name.len() == 0 || name[0] != '/') by {
        if ends_with(endpoint, seq!['/']) && rest.len() == 0 {
            assert(name[0] == INDEX_NAME@[0]);
        }
    }
    lemma_trim_one_slash(name);
    assert(trim_start_char(base, '/') == name);
    let file = name + extension;
    assert(name.len() > 0) by {
        if !ends_with(endpoint, seq!['/']) && endpoint.len() == 1 {
            assert(endpoint.subrange(0, 1) =~= seq!['/']);
        }
    }
    assert(file[0] == name[0]);
    lemma_no_leading_slash(file);
    lemma_trim_end_once(name, extension);
    if ends_with(endpoint, seq!['/']) {
        let w = rest + INDEX_NAME@;
        assert(w.subrange(w.len() - INDEX_NAME@.len(), w.len() as int) =~= INDEX_NAME@);
        if rest.len() > 0 {
            assert(w[w.len() - INDEX_NAME@.len() - 1] == rest[rest.len() - 1]);
            assert(endpoint[endpoint.len() - 1] == '/');
        }
        assert(names_index(w));
        assert(w.subrange(0, w.len() - INDEX_NAME@.len()) =~= rest);
    }
    assert(seq!['/'] + rest =~= endpoint);
}

/// A template file maps to an endpoint that is served by that same file: for
/// a file `name` plus the extension, under the template root, the endpoint the
/// watcher computes has `/` + `name` as its serving name, and with that name
/// having no extension of its own the file found for the endpoint is the one
/// we started from. This holds for index files in directories with dots too.
pub proof fn lemma_file_endpoint_round_trip(name: Seq<char>, extension: Seq<char>)
    requires
        name.len() > 0,
        name[0] != '/',
        name[name.len() - 1] != '/',
        extension.len() > 0,
        !ends_with(name, extension),
    ensures
        ({
            let endpoint = endpoint_of_file(name + extension, extension);
            &&& serving_name(endpoint) == seq!['/'] + name
            &&& template_file_of(endpoint, false, extension) == name + extension
        }),
{
    let file = name + extension;
    assert(file[0] == name[0]);
    lemma_no_leading_slash(file);
    lemma_trim_end_once(name, extension);
    let endpoint = endpoint_of_file(file, extension);
    proof_index_name_starts_with_i();
    if names_index(name) {
        let k = name.len() - INDEX_NAME@.len();
        let dir = name.subrange(0, k);
        assert(endpoint == seq!['/'] + dir);
        assert(ends_with(endpoint, seq!['/'])) by {
            if k > 0 {
                assert(name[k - 1] == '/');
                assert(endpoint[endpoint.len() - 1] == dir[k - 1]);
            }
            assert(endpoint.subrange(endpoint.len() - 1, endpoint.len() as int) =~= seq!['/']);
        }
        assert(name.subrange(k, name.len() as int) =~= INDEX_NAME@);
        assert(serving_name(endpoint) =~= seq!['/'] + name);
    } else {
        assert(endpoint == seq!['/'] + name);
        assert(!ends_with(endpoint, seq!['/'])) by {
            assert(endpoint[endpoint.len() - 1] == name[name.len() - 1]);
            if ends_with(endpoint, seq!['/']) {
                assert(endpoint.subrange(endpoint.len() - 1, endpoint.len() as int)[0] == '/');
            }
        }
    }
    lemma_trim_one_slash(name);
}

proof fn proof_index_name_starts_with_i()
    ensures
        INDEX_NAME@.len() == 5,
        INDEX_NAME@[0] == 'i',
{
    reveal_strlit("index");
}

proof fn lemma_no_leading_slash(s: Seq<char>)
    requires
        s.len() == 0 || s[0] != '/',
    ensures
        trim_start_char(s, '/') == s,
{
}

proof fn lemma_trim_one_slash(s: Seq<char>)
    requires
        s.len() == 0 || s[0] != '/',
    ensures
        trim_start_char(seq!['/'] + s, '/') == s,
{
    let t = seq!['/'] + s;
    assert(t.drop_first() =~= s);
    lemma_no_leading_slash(s);
    assert(trim_start_char(t, '/') == trim_start_char(t.drop_first(), '/'));
}

proof fn lemma_trim_end_once(w: Seq<char>, extension: Seq<char>)
    requires
        extension.len() > 0,
        !ends_with(w, extension),
    ensures
        trim_end_seq(w + extension, extension) == w,
{
    let t = w + extension;
    assert(t.subrange(t.len() - extension.len(), t.len() as int) =~= extension);
    assert(t.subrange(0, t.len() - extension.len()) =~= w);
    assert(trim_end_seq(t, extension) == trim_end_seq(w, extension));
    assert(trim_end_seq(w, extension) == w);
}

} // verus!
