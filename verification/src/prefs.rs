//! The preference store: a durable mapping from preference name to a
//! structured value, loaded from a single backing document at startup and
//! kept resident in memory. Reads and in-memory updates live here; opening
//! and persisting the backing document is the shell's job, which hands the
//! loaded entries in and takes the entries to persist back out.

use vstd::prelude::*;

verus! {

/// A structured preference value. An explicit `Null` marker is a value in
/// its own right: a key bound to `Null` is present, which is distinct from a
/// key that was never written.
#[derive(Debug, PartialEq, Eq)]
pub enum PrefValue {
    Null,
    Bool(bool),
    Int(i64),
    Text(String),
}

/// The mathematical shadow of a `PrefValue`, with text as a character
/// sequence.
pub enum ValSpec {
    Null,
    Bool(bool),
    Int(i64),
    Text(Seq<char>),
}

impl View for PrefValue {
    type V = ValSpec;

    open spec fn view(&self) -> ValSpec {
        match self {
            PrefValue::Null => ValSpec::Null,
            PrefValue::Bool(b) => ValSpec::Bool(*b),
            PrefValue::Int(n) => ValSpec::Int(*n),
            PrefValue::Text(s) => ValSpec::Text(s@),
        }
    }
}

impl Clone for PrefValue {
    fn clone(&self) -> (r: Self)
        ensures
            r@ == self@,
    {
        match self {
            PrefValue::Null => PrefValue::Null,
            PrefValue::Bool(b) => PrefValue::Bool(*b),
            PrefValue::Int(n) => PrefValue::Int(*n),
            PrefValue::Text(s) => PrefValue::Text(s.clone()),
        }
    }
}

/// One binding of the backing document: a preference name and its value.
#[derive(Debug, PartialEq, Eq)]
pub struct PrefEntry {
    pub key: String,
    pub value: PrefValue,
}

impl Clone for PrefEntry {
    fn clone(&self) -> (r: Self)
        ensures
            r.key@ == self.key@,
            r.value@ == self.value@,
    {
        PrefEntry { key: self.key.clone(), value: self.value.clone() }
    }
}

/// The mapping that a sequence of document entries denotes: bindings are
/// taken in order, a later binding for a key overriding an earlier one.
pub open spec fn entries_map(s: Seq<PrefEntry>) -> Map<Seq<char>, ValSpec>
    decreases s.len(),
{
    if s.len() == 0 {
        Map::empty()
    } else {
        entries_map(s.drop_last()).insert(s.last().key@, s.last().value@)
    }
}

/// No two entries bind the same key.
pub open spec fn keys_unique(s: Seq<PrefEntry>) -> bool {
    forall|i: int, j: int| 0 <= i < j < s.len() ==> s[i].key@ != s[j].key@
}

/// The in-memory preference store. Its view is the mapping from key to
/// value; the entries keep their first-insertion order.
pub struct PrefStore {
    entries: Vec<PrefEntry>,
}

impl View for PrefStore {
    type V = Map<Seq<char>, ValSpec>;

    closed spec fn view(&self) -> Map<Seq<char>, ValSpec> {
        entries_map(self.entries@)
    }
}

/// Under unique keys, an entry binding `k` decides the denoted mapping at
/// `k`.
proof fn lemma_entries_map_found(s: Seq<PrefEntry>, i: int)
    requires
        keys_unique(s),
        0 <= i < s.len(),
    ensures
        entries_map(s).contains_key(s[i].key@),
        entries_map(s)[s[i].key@] == s[i].value@,
    decreases s.len(),
{
    if i == s.len() - 1 {
    } else {
        assert(s.drop_last()[i] == s[i]);
        lemma_entries_map_found(s.drop_last(), i);
        assert(s.last().key@ != s[i].key@);
    }
}

/// A key bound by no entry is outside the denoted mapping.
proof fn lemma_entries_map_absent(s: Seq<PrefEntry>, k: Seq<char>)
    requires
        forall|i: int| 0 <= i < s.len() ==> s[i].key@ != k,
    ensures
        !entries_map(s).contains_key(k),
    decreases s.len(),
{
    if s.len() > 0 {
        assert(forall|i: int|
            0 <= i < s.drop_last().len() ==> s.drop_last()[i].key@ != k);
        lemma_entries_map_absent(s.drop_last(), k);
    }
}

/// Rebinding the entry at `i` in place denotes an insert at its key.
proof fn lemma_entries_map_update(s: Seq<PrefEntry>, i: int, e: PrefEntry)
    requires
        keys_unique(s),
        0 <= i < s.len(),
        e.key@ == s[i].key@,
    ensures
        entries_map(s.update(i, e)) == entries_map(s).insert(e.key@, e.value@),
    decreases s.len(),
{
    let t = s.update(i, e);
    if i == s.len() - 1 {
        assert(t.drop_last() =~= s.drop_last());
        assert(entries_map(t) =~= entries_map(s).insert(e.key@, e.value@));
    } else {
        assert(t.drop_last() =~= s.drop_last().update(i, e));
        assert(s.drop_last()[i] == s[i]);
        lemma_entries_map_update(s.drop_last(), i, e);
        assert(s.last().key@ != e.key@);
        assert(t.last() == s.last());
        assert(entries_map(t) =~= entries_map(s).insert(e.key@, e.value@));
    }
}

impl PrefStore {
    /// The store's entries bind pairwise distinct keys.
    pub closed spec fn wf(&self) -> bool {
        keys_unique(self.entries@)
    }

    /// A fresh store with no entries, as when the backing document was just
    /// created.
    pub fn new() -> (s: PrefStore)
        ensures
            s.wf(),
            s@ == Map::<Seq<char>, ValSpec>::empty(),
    {
        PrefStore { entries: Vec::new() }
    }

    /// Builds the in-memory store from the entries read out of the backing
    /// document, in document order; a later binding for a key overrides an
    /// earlier one, as in the denoted mapping.
    pub fn load_from_entries(entries: Vec<PrefEntry>) -> (s: PrefStore)
        ensures
            s.wf(),
            s@ == entries_map(entries@),
    {
        let mut s = PrefStore::new();
        let n = entries.len();
        let mut i: usize = 0;
        while i < n
            invariant
                i <= n,
                n == entries@.len(),
                s.wf(),
                s@ == entries_map(entries@.subrange(0, i as int)),
            decreases n - i,
        {
            let e = entries[i].clone();
            assert(entries@.subrange(0, i + 1 as int).drop_last()
                =~= entries@.subrange(0, i as int));
            s.set(e.key, e.value);
            i = i + 1;
        }
        assert(entries@.subrange(0, n as int) =~= entries@);
        s
    }

    /// Returns the value bound to `key`, or `None` for a key that was never
    /// written. A key bound to an explicit `Null` yields `Some`, never
    /// `None`.
    pub fn get(&self, key: &String) -> (r: Option<&PrefValue>)
        requires
            self.wf(),
        ensures
            match r {
                Option::Some(v) => self@.contains_key(key@) && v@ == self@[key@],
                Option::None => !self@.contains_key(key@),
            },
    {
        let n = self.entries.len();
        let mut i: usize = 0;
        while i < n
            invariant
                i <= n,
                n == self.entries@.len(),
                self.wf(),
                forall|j: int| 0 <= j < i ==> self.entries@[j].key@ != key@,
            decreases n - i,
        {
            if self.entries[i].key == *key {
                proof {
                    lemma_entries_map_found(self.entries@, i as int);
                }
                return Option::Some(&self.entries[i].value);
            }
            i = i + 1;
        }
        proof {
            lemma_entries_map_absent(self.entries@, key@);
        }
        Option::None
    }

    /// Binds `key` to `value` in memory, overwriting any earlier binding.
    /// The caller is responsible for persisting the document afterwards;
    /// the in-memory update itself cannot fail.
    pub fn set(&mut self, key: String, value: PrefValue)
        requires
            old(self).wf(),
        ensures
            final(self).wf(),
            final(self)@ == old(self)@.insert(key@, value@),
    {
        let n = self.entries.len();
        let mut i: usize = 0;
        while i < n
            invariant
                i <= n,
                n == self.entries@.len(),
                self.wf(),
                self == old(self),
                forall|j: int| 0 <= j < i ==> self.entries@[j].key@ != key@,
            decreases n - i,
        {
            if self.entries[i].key == *(&key) {
                proof {
                    lemma_entries_map_update(
                        self.entries@,
                        i as int,
                        PrefEntry { key, value },
                    );
                }
                self.entries[i] = PrefEntry { key, value };
                return;
            }
            i = i + 1;
        }
        let ghost prev = self.entries@;
        self.entries.push(PrefEntry { key, value });
        proof {
            assert(self.entries@.drop_last() =~= prev);
        }
    }

    /// The entries to write back to the backing document, in store order;
    /// they denote exactly the store's mapping.
    pub fn entries(&self) -> (r: &Vec<PrefEntry>)
        requires
            self.wf(),
        ensures
            keys_unique(r@),
            entries_map(r@) == self@,
    {
        &self.entries
    }
}

} // verus!
