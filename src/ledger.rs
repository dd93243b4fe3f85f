//! The form-history ledger: for each (client, endpoint) pair, the forms that
//! were submitted and the queue of fragment instances still alive in the
//! browser, which decides whether a submission is new or a re-render.
use std::collections::VecDeque;
use vstd::prelude::*;

use crate::text::str_equal;

verus! {

/// A form as its (field name, value) pairs, in the order they were given.
pub type FormView = Seq<(Seq<char>, Seq<char>)>;

/// The ledger's key: a client identity and an endpoint.
pub type LedgerKey = (Seq<char>, Seq<char>);

/// The fields of one submitted form.
#[derive(Clone, Debug)]
pub struct Form {
    pub fields: Vec<(String, String)>,
}

impl View for Form {
    type V = FormView;

    open spec fn view(&self) -> FormView {
        self.fields@.map_values(|f: (String, String)| (f.0@, f.1@))
    }
}

/// No field name occurs twice in `f`, as in a map from names to values.
pub open spec fn unique_names(f: FormView) -> bool {
    forall|i: int, j: int| 0 <= i < j < f.len() ==> (#[trigger] f[i]).0 != (#[trigger] f[j]).0
}

/// Every form in `contents` has unique field names.
pub open spec fn all_unique_names(contents: Seq<FormView>) -> bool {
    forall|i: int| 0 <= i < contents.len() ==> unique_names(#[trigger] contents[i])
}

impl Form {
    /// A form with no fields.
    pub fn new() -> (r: Form)
        ensures
            r@ == Seq::<(Seq<char>, Seq<char>)>::empty(),
            unique_names(r@),
    {
        Form { fields: Vec::new() }
    }

    /// Sets field `name` to `value`: an existing field of that name gets the
    /// new value in place, otherwise the field is added at the end. Field
    /// names stay unique.
    pub fn insert(&mut self, name: String, value: String)
        ensures
            (exists|i: int| 0 <= i < old(self)@.len() && old(self)@[i].0 == name@) ==> (exists|i: int|
                0 <= i < old(self)@.len() && old(self)@[i].0 == name@
                    && final(self)@ == old(self)@.update(i, (name@, value@))),
            !(exists|i: int| 0 <= i < old(self)@.len() && old(self)@[i].0 == name@)
                ==> final(self)@ == old(self)@.push((name@, value@)),
            unique_names(old(self)@) ==> unique_names(final(self)@),
    {
        let mut i: usize = 0;
        while i < self.fields.len()
            invariant
                self@ == old(self)@,
                i <= self.fields@.len(),
                forall|j: int| 0 <= j < i ==> (#[trigger] self@[j]).0 != name@,
            decreases self.fields@.len() - i,
        {
            if str_equal(self.fields[i].0.as_str(), name.as_str()) {
                let ghost before = self@;
                self.fields[i].1 = value;
                proof {
                    assert(self@ =~= before.update(i as int, (name@, value@)));
                    if unique_names(before) {
                        assert forall|a: int, b: int| 0 <= a < b < self@.len() implies (
                        #[trigger] self@[a]).0 != (#[trigger] self@[b]).0 by {
                            assert(before[a].0 != before[b].0);
                        }
                    }
                }
                return;
            }
            i = i + 1;
        }
        let ghost before = self@;
        self.fields.push((name, value));
        proof {
            assert(self@ =~= before.push((name@, value@)));
            if unique_names(before) {
                assert forall|a: int, b: int| 0 <= a < b < self@.len() implies (
                #[trigger] self@[a]).0 != (#[trigger] self@[b]).0 by {
                    if b < before.len() {
                        assert(before[a].0 != before[b].0);
                    } else {
                        assert(before[a].0 != name@);
                    }
                }
            }
        }
    }

    /// Whether the form has no fields.
    pub fn is_empty(&self) -> (r: bool)
        ensures
            r == (self@.len() == 0),
    {
        self.fields.len() == 0
    }

    /// A field-by-field copy of the form.
    pub fn duplicate(&self) -> (r: Form)
        ensures
            r@ == self@,
    {
        let mut fields: Vec<(String, String)> = Vec::new();
        let mut i: usize = 0;
        while i < self.fields.len()
            invariant
                i <= self.fields@.len(),
                fields@.len() == i,
                forall|j: int|
                    0 <= j < i ==> (#[trigger] fields@[j]).0@ == self.fields@[j].0@ && fields@[j].1@
                        == self.fields@[j].1@,
            decreases self.fields@.len() - i,
        {
            let name = self.fields[i].0.clone();
            let value = self.fields[i].1.clone();
            fields.push((name, value));
            i = i + 1;
        }
        let r = Form { fields };
        assert(r@ =~= self@);
        r
    }
}

/// What the ledger holds for one (client, endpoint) pair.
pub struct HistoryView {
    /// Every form recorded for the pair, by instance number.
    pub contents: Seq<FormView>,
    /// Instance numbers the browser reported alive, oldest first.
    pub pending: Seq<u32>,
}

/// The submission history of one client on one endpoint.
#[derive(Debug)]
pub struct FormHistory {
    pub contents: Vec<Form>,
    pub pending: VecDeque<u32>,
}

impl View for FormHistory {
    type V = HistoryView;

    open spec fn view(&self) -> HistoryView {
        HistoryView { contents: self.contents@.map_values(|f: Form| f@), pending: self.pending@ }
    }
}

/// A history with nothing recorded and nothing pending.
pub open spec fn empty_history() -> HistoryView {
    HistoryView { contents: Seq::empty(), pending: Seq::empty() }
}

/// The history of `k` in `m`, or an empty one where `m` has none.
pub open spec fn history_or_empty(m: Map<LedgerKey, HistoryView>, k: LedgerKey) -> HistoryView {
    if m.contains_key(k) {
        m[k]
    } else {
        empty_history()
    }
}

/// Classifying `submitted` against history `h`: the new history and the form
/// to render with.
///
/// When the pending queue is non-empty its front instance is consumed; if that
/// instance was recorded, the submission is a re-render of it and the recorded
/// form is used. Otherwise the submission is a new instance: it is appended to
/// the contents and used unchanged.
pub open spec fn classified(h: HistoryView, submitted: FormView) -> (HistoryView, FormView) {
    let pending = if h.pending.len() > 0 {
        h.pending.drop_first()
    } else {
        h.pending
    };
    if h.pending.len() > 0 && h.pending[0] < h.contents.len() {
        (HistoryView { contents: h.contents, pending }, h.contents[h.pending[0] as int])
    } else {
        (HistoryView { contents: h.contents.push(submitted), pending }, submitted)
    }
}

/// `h` with its pending queue replaced by `ids`.
pub open spec fn with_pending(h: HistoryView, ids: Seq<u32>) -> HistoryView {
    HistoryView { contents: h.contents, pending: ids }
}

impl FormHistory {
    /// An empty history.
    pub fn new() -> (r: FormHistory)
        ensures
            r@ == empty_history(),
    {
        let r = FormHistory { contents: Vec::new(), pending: VecDeque::new() };
        assert(r@.contents =~= Seq::<FormView>::empty());
        r
    }

    /// The pending instance numbers, oldest first.
    pub fn pending_ids(&self) -> (r: Vec<u32>)
        ensures
            r@ == self@.pending,
    {
        let mut r: Vec<u32> = Vec::new();
        let mut i: usize = 0;
        while i < self.pending.len()
            invariant
                i <= self.pending@.len(),
                r@ == self.pending@.subrange(0, i as int),
            decreases self.pending@.len() - i,
        {
            r.push(self.pending[i]);
            i = i + 1;
        }
        r
    }

    /// Classifies one submission; see [`classified`].
    pub fn classify(&mut self, submitted: Form) -> (r: Form)
        ensures
            (final(self)@, r@) == classified(old(self)@, submitted@),
    {
        let front = self.pending.pop_front();
        let ghost contents0 = self.contents@;
        match front {
            Some(k) => {
                if (k as usize) < self.contents.len() {
                    let r = self.contents[k as usize].duplicate();
                    proof {
                        assert(self@.pending =~= old(self)@.pending.drop_first());
                    }
                    return r;
                }
            },
            None => {},
        }
        let kept = submitted.duplicate();
        self.contents.push(submitted);
        proof {
            assert(self.contents@ == contents0.push(submitted));
            assert(self@.contents =~= old(self)@.contents.push(submitted@));
            if front is Some {
                assert(self@.pending =~= old(self)@.pending.drop_first());
            }
        }
        kept
    }

    /// Replaces the pending queue by `ids`, in order.
    pub fn set_pending(&mut self, ids: &Vec<u32>)
        ensures
            final(self)@ == with_pending(old(self)@, ids@),
    {
        self.pending.clear();
        let mut i: usize = 0;
        while i < ids.len()
            invariant
                i <= ids@.len(),
                self.pending@ == ids@.subrange(0, i as int),
                self.contents@ == old(self).contents@,
            decreases ids@.len() - i,
        {
            self.pending.push_back(ids[i]);
            proof {
                assert(ids@.subrange(0, i + 1) =~= ids@.subrange(0, i as int).push(ids@[i as int]));
            }
            i = i + 1;
        }
        assert(ids@.subrange(0, ids@.len() as int) =~= ids@);
    }
}

/// One (client, endpoint) pair of the ledger and its history.
#[derive(Debug)]
struct LedgerEntry {
    client: String,
    endpoint: String,
    history: FormHistory,
}

/// The form histories of every client on every endpoint.
pub struct FormLedger {
    entries: Vec<LedgerEntry>,
    model: Ghost<Map<LedgerKey, HistoryView>>,
}

spec fn entry_key(e: LedgerEntry) -> LedgerKey {
    (e.client@, e.endpoint@)
}

impl View for FormLedger {
    type V = Map<LedgerKey, HistoryView>;

    closed spec fn view(&self) -> Map<LedgerKey, HistoryView> {
        self.model@
    }
}

impl FormLedger {
    /// The entries and the map they stand for agree, one entry per key.
    pub closed spec fn well_formed(&self) -> bool {
        &&& forall|i: int|
            0 <= i < self.entries@.len() ==> #[trigger] self.model@.contains_key(
                entry_key(self.entries@[i]),
            ) && self.model@[entry_key(self.entries@[i])] == self.entries@[i].history@
        &&& forall|k: LedgerKey|
            #[trigger] self.model@.contains_key(k) ==> exists|i: int|
                0 <= i < self.entries@.len() && entry_key(#[trigger] self.entries@[i]) == k
        &&& forall|i: int, j: int|
            0 <= i < self.entries@.len() && 0 <= j < self.entries@.len() && i != j ==> entry_key(
                #[trigger] self.entries@[i],
            ) != entry_key(#[trigger] self.entries@[j])
    }

    /// An empty ledger.
    pub fn new() -> (r: FormLedger)
        ensures
            r.well_formed(),
            r@ == Map::<LedgerKey, HistoryView>::empty(),
    {
        FormLedger { entries: Vec::new(), model: Ghost(Map::empty()) }
    }

    /// Where the entry for (`client`, `endpoint`) stands, if there is one.
    fn position(&self, client: &str, endpoint: &str) -> (r: Option<usize>)
        requires
            self.well_formed(),
        ensures
            match r {
                Some(i) => i < self.entries@.len() && entry_key(self.entries@[i as int]) == (
                    client@,
                    endpoint@,
                ),
                None => !self@.contains_key((client@, endpoint@)),
            },
    {
        let mut i: usize = 0;
        while i < self.entries.len()
            invariant
                i <= self.entries@.len(),
                forall|j: int|
                    0 <= j < i ==> entry_key(#[trigger] self.entries@[j]) != (client@, endpoint@),
            decreases self.entries@.len() - i,
        {
            if str_equal(self.entries[i].client.as_str(), client) && str_equal(
                self.entries[i].endpoint.as_str(),
                endpoint,
            ) {
                return Some(i);
            }
            i = i + 1;
        }
        None
    }

    /// Where the entry for (`client`, `endpoint`) stands, made empty first if
    /// there was none.
    fn position_or_insert(&mut self, client: &str, endpoint: &str) -> (r: usize)
        requires
            old(self).well_formed(),
        ensures
            final(self).well_formed(),
            r < final(self).entries@.len(),
            entry_key(final(self).entries@[r as int]) == (client@, endpoint@),
            final(self)@ == old(self)@.insert(
                (client@, endpoint@),
                history_or_empty(old(self)@, (client@, endpoint@)),
            ),
    {
        match self.position(client, endpoint) {
            Some(i) => {
                assert(self@.insert((client@, endpoint@), self@[(client@, endpoint@)]) =~= self@);
                i
            },
            None => {
                let entry = LedgerEntry {
                    client: client.to_owned(),
                    endpoint: endpoint.to_owned(),
                    history: FormHistory::new(),
                };
                let ghost k = (client@, endpoint@);
                let ghost old_entries = self.entries@;
                self.entries.push(entry);
                self.model = Ghost(self.model@.insert(k, empty_history()));
                proof {
                    assert forall|i: int| 0 <= i < self.entries@.len() implies #[trigger] self.model@.contains_key(
                        entry_key(self.entries@[i]),
                    ) && self.model@[entry_key(self.entries@[i])] == self.entries@[i].history@ by {
                        if i < old_entries.len() {
                            assert(self.entries@[i] == old_entries[i]);
                        }
                    }
                    assert forall|kk: LedgerKey| #[trigger] self.model@.contains_key(kk) implies exists|i: int|
                        0 <= i < self.entries@.len() && entry_key(#[trigger] self.entries@[i]) == kk by {
                        if kk == k {
                            assert(entry_key(self.entries@[old_entries.len() as int]) == kk);
                        } else {
                            let i = choose|i: int|
                                0 <= i < old_entries.len() && entry_key(#[trigger] old_entries[i]) == kk;
                            assert(self.entries@[i] == old_entries[i]);
                        }
                    }
                }
                self.entries.len() - 1
            },
        }
    }

    /// The history recorded for (`client`, `endpoint`), if any.
    pub fn history(&self, client: &str, endpoint: &str) -> (r: Option<&FormHistory>)
        requires
            self.well_formed(),
        ensures
            match r {
                Some(h) => self@.contains_key((client@, endpoint@)) && h@ == self@[(
                    client@,
                    endpoint@,
                )],
                None => !self@.contains_key((client@, endpoint@)),
            },
    {
        match self.position(client, endpoint) {
            Some(i) => {
                assert(self.model@.contains_key(entry_key(self.entries@[i as int])));
                Some(&self.entries[i].history)
            },
            None => None,
        }
    }

    /// Replaces the pending queue of (`client`, `endpoint`) by `ids`, creating
    /// an empty history for the pair first if it had none.
    pub fn set_pending(&mut self, client: &str, endpoint: &str, ids: &Vec<u32>)
        requires
            old(self).well_formed(),
        ensures
            final(self).well_formed(),
            final(self)@ == old(self)@.insert(
                (client@, endpoint@),
                with_pending(history_or_empty(old(self)@, (client@, endpoint@)), ids@),
            ),
    {
        let i = self.position_or_insert(client, endpoint);
        let ghost k = (client@, endpoint@);
        let ghost mid = self.entries@;
        self.entries[i].history.set_pending(ids);
        self.model = Ghost(self.model@.insert(k, self.entries@[i as int].history@));
        proof {
            self.lemma_replaced_entry(mid, i as int);
        }
    }

    /// Classifies a submission of `submitted` by `client` on `endpoint`; see
    /// [`classified`]. A history is created for the pair if it had none.
    pub fn classify(&mut self, client: &str, endpoint: &str, submitted: Form) -> (r: Form)
        requires
            old(self).well_formed(),
        ensures
            final(self).well_formed(),
            ({
                let (h, form) = classified(
                    history_or_empty(old(self)@, (client@, endpoint@)),
                    submitted@,
                );
                &&& final(self)@ == old(self)@.insert((client@, endpoint@), h)
                &&& r@ == form
            }),
    {
        let i = self.position_or_insert(client, endpoint);
        let ghost k = (client@, endpoint@);
        let ghost mid = self.entries@;
        let r = self.entries[i].history.classify(submitted);
        self.model = Ghost(self.model@.insert(k, self.entries@[i as int].history@));
        proof {
            self.lemma_replaced_entry(mid, i as int);
        }
        r
    }

    /// After the history of entry `i` changed and the model was updated to
    /// match, the ledger is well formed again.
    proof fn lemma_replaced_entry(&self, before: Seq<LedgerEntry>, i: int)
        requires
            0 <= i < before.len(),
            self.entries@.len() == before.len(),
            forall|j: int| 0 <= j < before.len() && j != i ==> self.entries@[j] == before[j],
            entry_key(self.entries@[i]) == entry_key(before[i]),
            self.model@.contains_key(entry_key(before[i])),
            self.model@[entry_key(before[i])] == self.entries@[i].history@,
            forall|j: int|
                0 <= j < before.len() && j != i ==> #[trigger] self.model@.contains_key(
                    entry_key(before[j]),
                ) && self.model@[entry_key(before[j])] == before[j].history@,
            forall|k: LedgerKey|
                #[trigger] self.model@.contains_key(k) ==> exists|j: int|
                    0 <= j < before.len() && entry_key(#[trigger] before[j]) == k,
            forall|a: int, b: int|
                0 <= a < before.len() && 0 <= b < before.len() && a != b ==> entry_key(
                    #[trigger] before[a],
                ) != entry_key(#[trigger] before[b]),
        ensures
            self.well_formed(),
    {
        assert forall|j: int| 0 <= j < self.entries@.len() implies #[trigger] self.model@.contains_key(
            entry_key(self.entries@[j]),
        ) && self.model@[entry_key(self.entries@[j])] == self.entries@[j].history@ by {
            if j != i {
                assert(self.entries@[j] == before[j]);
            }
        }
        assert forall|k: LedgerKey| #[trigger] self.model@.contains_key(k) implies exists|j: int|
            0 <= j < self.entries@.len() && entry_key(#[trigger] self.entries@[j]) == k by {
            let j = choose|j: int| 0 <= j < before.len() && entry_key(#[trigger] before[j]) == k;
            if j != i {
                assert(self.entries@[j] == before[j]);
            } else {
                assert(entry_key(self.entries@[i]) == k);
            }
        }
        assert forall|a: int, b: int|
            0 <= a < self.entries@.len() && 0 <= b < self.entries@.len() && a != b implies entry_key(
            #[trigger] self.entries@[a],
        ) != entry_key(#[trigger] self.entries@[b]) by {
            assert(entry_key(before[a]) != entry_key(before[b]));
            if a != i {
                assert(self.entries@[a] == before[a]);
            }
            if b != i {
                assert(self.entries@[b] == before[b]);
            }
        }
    }
}

/// Re-renders are matched first in, first out: when every pending instance
/// was recorded, two classifications in a row return the recorded forms of the
/// first and second pending instances, in that order, whatever was submitted,
/// and leave the contents as they were.
pub proof fn lemma_fifo_reconciliation(h: HistoryView, first: FormView, second: FormView)
    requires
        h.pending.len() >= 2,
        forall|i: int| 0 <= i < h.pending.len() ==> #[trigger] h.pending[i] < h.contents.len(),
    ensures
        ({
            let (h1, r1) = classified(h, first);
            let (h2, r2) = classified(h1, second);
            &&& r1 == h.contents[h.pending[0] as int]
            &&& r2 == h.contents[h.pending[1] as int]
            &&& h2.contents == h.contents
            &&& h2.pending == h.pending.subrange(2, h.pending.len() as int)
        }),
{
    let (h1, r1) = classified(h, first);
    assert(h1.pending[0] == h.pending[1]);
    assert(h.pending[1] < h.contents.len());
    let (h2, r2) = classified(h1, second);
    assert(h2.pending =~= h.pending.subrange(2, h.pending.len() as int));
}

/// With nothing pending, a submission is a new instance: it is returned
/// unchanged and appended to the contents.
pub proof fn lemma_new_instance(h: HistoryView, submitted: FormView)
    requires
        h.pending.len() == 0,
    ensures
        classified(h, submitted).1 == submitted,
        classified(h, submitted).0.contents == h.contents.push(submitted),
        classified(h, submitted).0.pending == h.pending,
{
}

/// Classification keeps field names unique: with unique names in every
/// recorded form and in the submission, every form recorded afterwards and
/// the form returned have unique names too.
pub proof fn lemma_classify_keeps_unique_names(h: HistoryView, submitted: FormView)
    requires
        all_unique_names(h.contents),
        unique_names(submitted),
    ensures
        all_unique_names(classified(h, submitted).0.contents),
        unique_names(classified(h, submitted).1),
{
    let contents = classified(h, submitted).0.contents;
    assert forall|i: int| 0 <= i < contents.len() implies unique_names(#[trigger] contents[i]) by {
        if i < h.contents.len() {
            assert(contents[i] == h.contents[i]);
        }
    }
}

} // verus!
