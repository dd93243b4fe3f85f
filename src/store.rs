//! The template source store: the validated source text of each endpoint,
//! loaded on first use and replaced when its file changes.
use vstd::prelude::*;

use crate::endpoint::{endpoint_for_file, endpoint_of_file};
use crate::text::{ends_with, str_ends_with, str_equal};

verus! {

/// Whether minijinja accepts `source` as a template.
pub uninterp spec fn template_syntax_ok(source: Seq<char>) -> bool;

/// minijinja's error type, carried through as it is.
#[verifier::external_type_specification]
#[verifier::external_body]
pub struct ExTemplateError(minijinja::Error);

/// Relies on minijinja's `Environment::template_from_str`, which parses and
/// compiles `source` with the default syntax and fails exactly when it is not
/// a well-formed template.
#[verifier::external_body]
fn check_syntax(source: &str) -> (r: Result<(), minijinja::Error>)
    ensures
        r is Ok == template_syntax_ok(source@),
{
    match minijinja::Environment::new().template_from_str(source) {
        Ok(_) => Ok(()),
        Err(e) => Err(e),
    }
}

/// A template text that did not pass validation, with the reason.
#[derive(Debug)]
pub struct TemplateRejected {
    pub message: String,
}

/// Why a changed file was not published.
#[derive(Debug)]
pub enum ChangeError {
    /// The file holds a template that does not pass validation.
    Rejected(TemplateRejected),
    /// The file could not be read.
    Unreadable,
}

/// The store after `text` was offered for `endpoint`: replaced if it passed
/// validation, else as it was.
pub open spec fn after_invalidate(
    m: Map<Seq<char>, Seq<char>>,
    endpoint: Seq<char>,
    text: Seq<char>,
    valid: bool,
) -> Map<Seq<char>, Seq<char>> {
    if valid {
        m.insert(endpoint, text)
    } else {
        m
    }
}

/// What loading `endpoint` yields, with `loaded` the text its file holds: the
/// cached text if there is one, else `loaded` if it passes validation.
pub open spec fn load_result(m: Map<Seq<char>, Seq<char>>, endpoint: Seq<char>, loaded: Seq<char>) -> Option<
    Seq<char>,
> {
    if m.contains_key(endpoint) {
        Some(m[endpoint])
    } else if template_syntax_ok(loaded) {
        Some(loaded)
    } else {
        None
    }
}

/// The store after loading `endpoint`, with `loaded` the text its file holds.
pub open spec fn after_load(m: Map<Seq<char>, Seq<char>>, endpoint: Seq<char>, loaded: Seq<char>) -> Map<
    Seq<char>,
    Seq<char>,
> {
    if m.contains_key(endpoint) {
        m
    } else {
        after_invalidate(m, endpoint, loaded, template_syntax_ok(loaded))
    }
}

/// The path published after the file at `relative` changed to `contents`
/// (`None`: unreadable): a template file only when it could be read and passes
/// validation; any other file as it is.
pub open spec fn change_published(
    relative: Seq<char>,
    extension: Seq<char>,
    contents: Option<Seq<char>>,
) -> Option<Seq<char>> {
    if !ends_with(relative, extension) {
        Some(relative)
    } else {
        match contents {
            Some(c) => if template_syntax_ok(c) {
                Some(relative)
            } else {
                None
            },
            None => None,
        }
    }
}

/// The store after the file at `relative` changed to `contents`.
pub open spec fn after_change(
    m: Map<Seq<char>, Seq<char>>,
    relative: Seq<char>,
    extension: Seq<char>,
    contents: Option<Seq<char>>,
) -> Map<Seq<char>, Seq<char>> {
    match contents {
        Some(c) => if ends_with(relative, extension) {
            after_invalidate(m, endpoint_of_file(relative, extension), c, template_syntax_ok(c))
        } else {
            m
        },
        None => m,
    }
}

/// One cached template.
struct TemplateSource {
    endpoint: String,
    text: String,
}

/// The validated source of each endpoint that was loaded or changed.
pub struct TemplateStore {
    entries: Vec<TemplateSource>,
    model: Ghost<Map<Seq<char>, Seq<char>>>,
}

impl View for TemplateStore {
    type V = Map<Seq<char>, Seq<char>>;

    closed spec fn view(&self) -> Map<Seq<char>, Seq<char>> {
        self.model@
    }
}

impl TemplateStore {
    /// The entries and the map they stand for agree, one entry per endpoint.
    pub closed spec fn well_formed(&self) -> bool {
        &&& forall|i: int|
            0 <= i < self.entries@.len() ==> #[trigger] self.model@.contains_key(
                self.entries@[i].endpoint@,
            ) && self.model@[self.entries@[i].endpoint@] == self.entries@[i].text@
        &&& forall|k: Seq<char>|
            #[trigger] self.model@.contains_key(k) ==> exists|i: int|
                0 <= i < self.entries@.len() && (#[trigger] self.entries@[i]).endpoint@ == k
        &&& forall|i: int, j: int|
            0 <= i < self.entries@.len() && 0 <= j < self.entries@.len() && i != j ==> (
            #[trigger] self.entries@[i]).endpoint@ != (#[trigger] self.entries@[j]).endpoint@
    }

    /// An empty store.
    pub fn new() -> (r: TemplateStore)
        ensures
            r.well_formed(),
            r@ == Map::<Seq<char>, Seq<char>>::empty(),
    {
        TemplateStore { entries: Vec::new(), model: Ghost(Map::empty()) }
    }

    fn position(&self, endpoint: &str) -> (r: Option<usize>)
        requires
            self.well_formed(),
        ensures
            match r {
                Some(i) => i < self.entries@.len() && self.entries@[i as int].endpoint@
                    == endpoint@,
                None => !self@.contains_key(endpoint@),
            },
    {
        let mut i: usize = 0;
        while i < self.entries.len()
            invariant
                i <= self.entries@.len(),
                forall|j: int| 0 <= j < i ==> (#[trigger] self.entries@[j]).endpoint@ != endpoint@,
            decreases self.entries@.len() - i,
        {
            if str_equal(self.entries[i].endpoint.as_str(), endpoint) {
                return Some(i);
            }
            i = i + 1;
        }
        None
    }

    /// The cached text of `endpoint`, if any.
    pub fn get(&self, endpoint: &str) -> (r: Option<String>)
        requires
            self.well_formed(),
        ensures
            match r {
                Some(t) => self@.contains_key(endpoint@) && t@ == self@[endpoint@],
                None => !self@.contains_key(endpoint@),
            },
    {
        match self.position(endpoint) {
            Some(i) => {
                assert(self.model@.contains_key(self.entries@[i as int].endpoint@));
                Some(self.entries[i].text.clone())
            },
            None => None,
        }
    }

    /// Makes `text` the text of `endpoint`.
    fn put(&mut self, endpoint: &str, text: String)
        requires
            old(self).well_formed(),
        ensures
            final(self).well_formed(),
            final(self)@ == old(self)@.insert(endpoint@, text@),
    {
        let ghost before = self.entries@;
        let ghost k = endpoint@;
        match self.position(endpoint) {
            Some(i) => {
                self.entries[i].text = text;
                self.model = Ghost(self.model@.insert(k, self.entries@[i as int].text@));
                proof {
                    assert forall|j: int| 0 <= j < self.entries@.len() implies #[trigger] self.model@.contains_key(
                        self.entries@[j].endpoint@,
                    ) && self.model@[self.entries@[j].endpoint@] == self.entries@[j].text@ by {
                        if j != i {
                            assert(self.entries@[j] == before[j]);
                            assert(before[j].endpoint@ != k);
                        }
                    }
                    assert forall|kk: Seq<char>| #[trigger] self.model@.contains_key(kk) implies exists|j: int|
                        0 <= j < self.entries@.len() && (#[trigger] self.entries@[j]).endpoint@ == kk by {
                        if kk == k {
                            assert(self.entries@[i as int].endpoint@ == kk);
                        } else {
                            let j = choose|j: int|
                                0 <= j < before.len() && (#[trigger] before[j]).endpoint@ == kk;
                            assert(self.entries@[j] == before[j] || j == i);
                        }
                    }
                    assert forall|a: int, b: int|
                        0 <= a < self.entries@.len() && 0 <= b < self.entries@.len() && a != b implies (
                        #[trigger] self.entries@[a]).endpoint@ != (#[trigger] self.entries@[b]).endpoint@ by {
                        assert(before[a].endpoint@ != before[b].endpoint@);
                        if a != i {
                            assert(self.entries@[a] == before[a]);
                        }
                        if b != i {
                            assert(self.entries@[b] == before[b]);
                        }
                    }
                }
            },
            None => {
                let entry = TemplateSource { endpoint: endpoint.to_owned(), text };
                self.entries.push(entry);
                self.model = Ghost(self.model@.insert(k, text@));
                proof {
                    assert forall|j: int| 0 <= j < self.entries@.len() implies #[trigger] self.model@.contains_key(
                        self.entries@[j].endpoint@,
                    ) && self.model@[self.entries@[j].endpoint@] == self.entries@[j].text@ by {
                        if j < before.len() {
                            assert(self.entries@[j] == before[j]);
                        }
                    }
                    assert forall|kk: Seq<char>| #[trigger] self.model@.contains_key(kk) implies exists|j: int|
                        0 <= j < self.entries@.len() && (#[trigger] self.entries@[j]).endpoint@ == kk by {
                        if kk == k {
                            assert(self.entries@[before.len() as int].endpoint@ == kk);
                        } else {
                            let j = choose|j: int|
                                0 <= j < before.len() && (#[trigger] before[j]).endpoint@ == kk;
                            assert(self.entries@[j] == before[j]);
                        }
                    }
                }
            },
        }
    }

    /// Stores `text` for `endpoint` when `checked`, the outcome of validating
    /// it, is a success; otherwise changes nothing and reports the rejection.
    pub fn commit(&mut self, endpoint: &str, text: String, checked: Result<(), String>) -> (r:
        Result<(), TemplateRejected>)
        requires
            old(self).well_formed(),
        ensures
            final(self).well_formed(),
            r is Ok == checked is Ok,
            final(self)@ == after_invalidate(old(self)@, endpoint@, text@, checked is Ok),
    {
        match checked {
            Ok(()) => {
                self.put(endpoint, text);
                Ok(())
            },
            Err(message) => Err(TemplateRejected { message }),
        }
    }

    /// Replaces the text of `endpoint` by `text` if it passes validation;
    /// otherwise keeps the old text and reports the rejection.
    pub fn invalidate(&mut self, endpoint: &str, text: String) -> (r: Result<(), TemplateRejected>)
        requires
            old(self).well_formed(),
        ensures
            final(self).well_formed(),
            r is Ok == template_syntax_ok(text@),
            final(self)@ == after_invalidate(old(self)@, endpoint@, text@, template_syntax_ok(text@)),
    {
        let checked = match check_syntax(text.as_str()) {
            Ok(()) => Ok(()),
            Err(e) => Err(e.to_string()),
        };
        self.commit(endpoint, text, checked)
    }

    /// The text of `endpoint`, with `loaded` the text its file holds: the
    /// cached text if there is one; otherwise `loaded` is validated, stored
    /// and returned, or rejected.
    pub fn get_or_load(&mut self, endpoint: &str, loaded: String) -> (r: Result<String, TemplateRejected>)
        requires
            old(self).well_formed(),
        ensures
            final(self).well_formed(),
            final(self)@ == after_load(old(self)@, endpoint@, loaded@),
            match r {
                Ok(t) => load_result(old(self)@, endpoint@, loaded@) == Some(t@),
                Err(_) => load_result(old(self)@, endpoint@, loaded@) is None,
            },
    {
        match self.get(endpoint) {
            Some(t) => Ok(t),
            None => {
                let kept = loaded.clone();
                match self.invalidate(endpoint, loaded) {
                    Ok(()) => Ok(kept),
                    Err(e) => Err(e),
                }
            },
        }
    }

    /// Takes in a change of the file at `relative` (a path under the template
    /// root) whose contents are `contents`, or `None` if it could not be
    /// read, and gives the path to publish to the connected browsers.
    ///
    /// A template file is validated and stored under its endpoint, and only
    /// published when it passed; any other file is published as it is, and
    /// the store is left alone.
    pub fn watched_file_changed(
        &mut self,
        relative: &str,
        extension: &str,
        contents: Option<String>,
    ) -> (r: Result<String, ChangeError>)
        requires
            old(self).well_formed(),
        ensures
            final(self).well_formed(),
            final(self)@ == after_change(
                old(self)@,
                relative@,
                extension@,
                match contents {
                    Some(c) => Some(c@),
                    None => None,
                },
            ),
            match r {
                Ok(p) => change_published(
                    relative@,
                    extension@,
                    match contents {
                        Some(c) => Some(c@),
                        None => None,
                    },
                ) == Some(p@),
                Err(_) => change_published(
                    relative@,
                    extension@,
                    match contents {
                        Some(c) => Some(c@),
                        None => None,
                    },
                ) is None,
            },
            !ends_with(relative@, extension@) ==> final(self)@ == old(self)@ && (r matches Ok(p)
                && p@ == relative@),
            ends_with(relative@, extension@) ==> match contents {
                None => r matches Err(ChangeError::Unreadable) && final(self)@ == old(self)@,
                Some(c) => {
                    &&& final(self)@ == after_invalidate(
                        old(self)@,
                        endpoint_of_file(relative@, extension@),
                        c@,
                        template_syntax_ok(c@),
                    )
                    &&& template_syntax_ok(c@) ==> (r matches Ok(p) && p@ == relative@)
                    &&& !template_syntax_ok(c@) ==> r matches Err(ChangeError::Rejected(_))
                },
            },
    {
        if !str_ends_with(relative, extension) {
            return Ok(relative.to_owned());
        }
        match contents {
            None => Err(ChangeError::Unreadable),
            Some(c) => {
                let endpoint = endpoint_for_file(relative, extension);
                match self.invalidate(endpoint.as_str(), c) {
                    Ok(()) => Ok(relative.to_owned()),
                    Err(e) => Err(ChangeError::Rejected(e)),
                }
            },
        }
    }
}

/// After a text that passes validation is offered for an endpoint, loading
/// that endpoint yields exactly that text, whatever its file holds, and loads
/// leave it in place; every other endpoint is untouched.
pub proof fn lemma_cache_coherence(
    m: Map<Seq<char>, Seq<char>>,
    endpoint: Seq<char>,
    text: Seq<char>,
    loaded: Seq<char>,
    other: Seq<char>,
)
    requires
        template_syntax_ok(text),
    ensures
        ({
            let after = after_invalidate(m, endpoint, text, template_syntax_ok(text));
            &&& load_result(after, endpoint, loaded) == Some(text)
            &&& after_load(after, endpoint, loaded) == after
            &&& other != endpoint ==> load_result(after, other, loaded) == load_result(
                m,
                other,
                loaded,
            )
        }),
{
}

/// Offering a text that does not pass validation changes nothing: every
/// later load of every endpoint yields what it would have yielded before.
pub proof fn lemma_validation_gating(
    m: Map<Seq<char>, Seq<char>>,
    endpoint: Seq<char>,
    text: Seq<char>,
    loaded: Seq<char>,
    any: Seq<char>,
)
    requires
        !template_syntax_ok(text),
    ensures
        ({
            let after = after_invalidate(m, endpoint, text, template_syntax_ok(text));
            &&& after == m
            &&& load_result(after, any, loaded) == load_result(m, any, loaded)
        }),
{
}

/// A changed template file whose new contents do not pass validation is not
/// published, and every later load of every endpoint yields what it yielded
/// before. (A file that is not a template is published unvalidated: the
/// browser refreshes its assets for it.)
pub proof fn lemma_rejected_change_is_not_published(
    m: Map<Seq<char>, Seq<char>>,
    relative: Seq<char>,
    extension: Seq<char>,
    contents: Seq<char>,
    any: Seq<char>,
    loaded: Seq<char>,
)
    requires
        ends_with(relative, extension),
        !template_syntax_ok(contents),
    ensures
        change_published(relative, extension, Some(contents)) is None,
        after_change(m, relative, extension, Some(contents)) == m,
        load_result(after_change(m, relative, extension, Some(contents)), any, loaded)
            == load_result(m, any, loaded),
{
}

} // verus!
