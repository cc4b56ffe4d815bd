//! The default seeder: runs once after the preference store is loaded and
//! idempotently ensures the required preference keys exist, writing the
//! canonical default for any key that is absent and leaving present keys
//! untouched. Each staged write must reach durable storage before the next
//! key is considered; a failed write aborts startup.

use vstd::prelude::*;
use crate::error::StartupError;
use crate::prefs::{PrefEntry, PrefStore, PrefValue, ValSpec};

verus! {

/// Seconds in the focus interval: 25 minutes.
pub const POMODORO_DEFAULT: i64 = 1500;

/// Seconds in the short rest: 5 minutes.
pub const SHORT_REST_DEFAULT: i64 = 300;

/// Seconds in the long rest: 15 minutes.
pub const LONG_REST_DEFAULT: i64 = 900;

/// The required-defaults table: the keys every run of the application must
/// find in its preference store, each with its canonical default.
pub open spec fn required_defaults_spec() -> Seq<(Seq<char>, ValSpec)> {
    seq![
        ("pomodoro"@, ValSpec::Int(POMODORO_DEFAULT)),
        ("short_rest"@, ValSpec::Int(SHORT_REST_DEFAULT)),
        ("long_rest"@, ValSpec::Int(LONG_REST_DEFAULT)),
    ]
}

/// The keys of the required-defaults table are pairwise distinct.
pub proof fn lemma_required_keys_distinct()
    ensures
        forall|i: int, j: int|
            0 <= i < j < required_defaults_spec().len()
                ==> required_defaults_spec()[i].0 != required_defaults_spec()[j].0,
{
    reveal_strlit("pomodoro");
    reveal_strlit("short_rest");
    reveal_strlit("long_rest");
    assert("pomodoro"@.len() == 8);
    assert("short_rest"@.len() == 10);
    assert("long_rest"@.len() == 9);
}

/// The required-defaults table as store entries, in table order.
pub fn required_defaults() -> (t: Vec<PrefEntry>)
    ensures
        t@.len() == required_defaults_spec().len(),
        forall|i: int|
            0 <= i < t@.len()
                ==> t@[i].key@ == required_defaults_spec()[i].0 && t@[i].value@
                == required_defaults_spec()[i].1,
{
    let mut t: Vec<PrefEntry> = Vec::new();
    t.push(PrefEntry {
        key: String::from_str("pomodoro"),
        value: PrefValue::Int(POMODORO_DEFAULT),
    });
    t.push(PrefEntry {
        key: String::from_str("short_rest"),
        value: PrefValue::Int(SHORT_REST_DEFAULT),
    });
    t.push(PrefEntry {
        key: String::from_str("long_rest"),
        value: PrefValue::Int(LONG_REST_DEFAULT),
    });
    t
}

/// Seeding one key: bind it to the default only where it is absent.
pub open spec fn seed_one(
    m: Map<Seq<char>, ValSpec>,
    k: Seq<char>,
    v: ValSpec,
) -> Map<Seq<char>, ValSpec> {
    if m.contains_key(k) {
        m
    } else {
        m.insert(k, v)
    }
}

/// Seeding a table of keys, first entry first.
pub open spec fn seed_table(
    m: Map<Seq<char>, ValSpec>,
    t: Seq<(Seq<char>, ValSpec)>,
) -> Map<Seq<char>, ValSpec>
    decreases t.len(),
{
    if t.len() == 0 {
        m
    } else {
        seed_table(seed_one(m, t[0].0, t[0].1), t.drop_first())
    }
}

/// What the preference mapping becomes once the seeder has run over it.
pub open spec fn seeded(m: Map<Seq<char>, ValSpec>) -> Map<Seq<char>, ValSpec> {
    seed_table(m, required_defaults_spec())
}

/// Seeding never rebinds a present key: whatever value a key had before the
/// seeder ran, it has afterwards.
pub proof fn lemma_seed_table_preserves_present(
    m: Map<Seq<char>, ValSpec>,
    t: Seq<(Seq<char>, ValSpec)>,
    k: Seq<char>,
)
    requires
        m.contains_key(k),
    ensures
        seed_table(m, t).contains_key(k),
        seed_table(m, t)[k] == m[k],
    decreases t.len(),
{
    if t.len() > 0 {
        lemma_seed_table_preserves_present(seed_one(m, t[0].0, t[0].1), t.drop_first(), k);
    }
}

/// No overwrite: a key that already holds a value, default or not, still
/// holds that value after seeding.
pub proof fn lemma_seed_preserves_present(m: Map<Seq<char>, ValSpec>, k: Seq<char>)
    requires
        m.contains_key(k),
    ensures
        seeded(m).contains_key(k),
        seeded(m)[k] == m[k],
{
    lemma_seed_table_preserves_present(m, required_defaults_spec(), k);
}

proof fn lemma_seed_table_fills_absent(
    m: Map<Seq<char>, ValSpec>,
    t: Seq<(Seq<char>, ValSpec)>,
    i: int,
)
    requires
        0 <= i < t.len(),
        !m.contains_key(t[i].0),
        forall|j: int| 0 <= j < i ==> t[j].0 != t[i].0,
    ensures
        seed_table(m, t).contains_key(t[i].0),
        seed_table(m, t)[t[i].0] == t[i].1,
    decreases t.len(),
{
    let m1 = seed_one(m, t[0].0, t[0].1);
    if i == 0 {
        lemma_seed_table_preserves_present(m1, t.drop_first(), t[0].0);
    } else {
        assert(forall|j: int| 0 <= j < t.drop_first().len() ==> t.drop_first()[j] == t[j + 1]);
        lemma_seed_table_fills_absent(m1, t.drop_first(), i - 1);
    }
}

/// Every required key that was absent before seeding holds its canonical
/// default afterwards.
pub proof fn lemma_seed_fills_absent(m: Map<Seq<char>, ValSpec>, i: int)
    requires
        0 <= i < required_defaults_spec().len(),
        !m.contains_key(required_defaults_spec()[i].0),
    ensures
        seeded(m).contains_key(required_defaults_spec()[i].0),
        seeded(m)[required_defaults_spec()[i].0] == required_defaults_spec()[i].1,
{
    lemma_required_keys_distinct();
    lemma_seed_table_fills_absent(m, required_defaults_spec(), i);
}

/// Seeding binds no key outside the required table: the seeded mapping
/// holds exactly the old keys and the required ones.
pub proof fn lemma_seed_table_domain(
    m: Map<Seq<char>, ValSpec>,
    t: Seq<(Seq<char>, ValSpec)>,
    k: Seq<char>,
)
    ensures
        seed_table(m, t).contains_key(k)
            <==> m.contains_key(k) || (exists|i: int| 0 <= i < t.len() && t[i].0 == k),
    decreases t.len(),
{
    if t.len() > 0 {
        let m1 = seed_one(m, t[0].0, t[0].1);
        lemma_seed_table_domain(m1, t.drop_first(), k);
        assert(forall|i: int| 0 <= i < t.drop_first().len() ==> t.drop_first()[i] == t[i + 1]);
        if exists|i: int| 1 <= i < t.len() && t[i].0 == k {
            let i = choose|i: int| 1 <= i < t.len() && t[i].0 == k;
            assert(t.drop_first()[i - 1] == t[i]);
        }
    }
}

/// Running the seeder again changes nothing: seeding converges after one
/// pass.
pub proof fn lemma_seed_idempotent(m: Map<Seq<char>, ValSpec>)
    ensures
        seeded(seeded(m)) =~= seeded(m),
{
    let t = required_defaults_spec();
    assert forall|i: int| 0 <= i < t.len() implies seeded(m).contains_key(t[i].0) by {
        if m.contains_key(t[i].0) {
            lemma_seed_preserves_present(m, t[i].0);
        } else {
            lemma_required_keys_distinct();
            lemma_seed_table_fills_absent(m, t, i);
        }
    }
    lemma_seed_all_present(seeded(m), t);
}

/// Seeding a table whose keys are all present changes nothing.
proof fn lemma_seed_all_present(m: Map<Seq<char>, ValSpec>, t: Seq<(Seq<char>, ValSpec)>)
    requires
        forall|i: int| 0 <= i < t.len() ==> m.contains_key(t[i].0),
    ensures
        seed_table(m, t) == m,
    decreases t.len(),
{
    if t.len() > 0 {
        assert(seed_one(m, t[0].0, t[0].1) == m);
        assert(forall|i: int| 0 <= i < t.drop_first().len() ==> t.drop_first()[i] == t[i + 1]);
        lemma_seed_all_present(m, t.drop_first());
    }
}

/// Seeds every absent required key in memory, in table order, and touches
/// nothing else. Used where the shell persists the document once, after
/// the pass; the stepwise interface below persists after each write.
pub fn seed_defaults(store: &mut PrefStore)
    requires
        old(store).wf(),
    ensures
        final(store).wf(),
        final(store)@ == seeded(old(store)@),
{
    let table = required_defaults();
    let n = table.len();
    let mut i: usize = 0;
    while i < n
        invariant
            i <= n,
            n == required_defaults_spec().len(),
            table@.len() == n,
            forall|j: int|
                0 <= j < n
                    ==> table@[j].key@ == required_defaults_spec()[j].0 && table@[j].value@
                    == required_defaults_spec()[j].1,
            store.wf(),
            store@ == seed_table(old(store)@, required_defaults_spec().take(i as int)),
        decreases n - i,
    {
        let ghost t = required_defaults_spec();
        let e = table[i].clone();
        proof {
            lemma_seed_table_snoc(old(store)@, t, i as int);
        }
        if store.get(&e.key).is_none() {
            store.set(e.key, e.value);
        }
        i = i + 1;
    }
    proof {
        assert(required_defaults_spec().take(n as int) =~= required_defaults_spec());
    }
}

/// Seeding one more table entry seeds it after the entries before it.
proof fn lemma_seed_table_snoc(m: Map<Seq<char>, ValSpec>, t: Seq<(Seq<char>, ValSpec)>, i: int)
    requires
        0 <= i < t.len(),
    ensures
        seed_table(m, t.take(i + 1)) == seed_one(seed_table(m, t.take(i)), t[i].0, t[i].1),
    decreases i,
{
    if i == 0 {
        let m1 = seed_one(m, t[0].0, t[0].1);
        assert(t.take(1)[0] == t[0]);
        assert(t.take(1).drop_first() =~= Seq::<(Seq<char>, ValSpec)>::empty());
        assert(t.take(0) =~= Seq::<(Seq<char>, ValSpec)>::empty());
        assert(seed_table(m1, Seq::<(Seq<char>, ValSpec)>::empty()) == m1);
        assert(seed_table(m, Seq::<(Seq<char>, ValSpec)>::empty()) == m);
    } else {
        let m1 = seed_one(m, t[0].0, t[0].1);
        assert(t.take(i + 1)[0] == t[0]);
        assert(t.take(i)[0] == t[0]);
        assert(t.take(i + 1).drop_first() =~= t.drop_first().take(i));
        assert(t.take(i).drop_first() =~= t.drop_first().take(i - 1));
        assert(t.drop_first()[i - 1] == t[i]);
        lemma_seed_table_snoc(m1, t.drop_first(), i - 1);
    }
}

/// What the shell reports of its attempt to persist the document after a
/// staged write.
#[derive(Clone, Copy, Debug, PartialEq, Eq)]
pub enum PersistOutcome {
    Saved,
    WriteFailed,
}

/// The first required key at table position `from` or later that is absent
/// from the store, as the next key the seeder must stage.
pub fn next_missing_default(store: &PrefStore, from: usize) -> (r: Option<usize>)
    requires
        store.wf(),
    ensures
        match r {
            Option::Some(i) => {
                &&& from <= i < required_defaults_spec().len()
                &&& !store@.contains_key(required_defaults_spec()[i as int].0)
                &&& forall|j: int|
                    from <= j < i ==> store@.contains_key(required_defaults_spec()[j].0)
            },
            Option::None => forall|j: int|
                from <= j < required_defaults_spec().len()
                    ==> store@.contains_key(required_defaults_spec()[j].0),
        },
{
    let table = required_defaults();
    let n = table.len();
    if from >= n {
        return Option::None;
    }
    let mut i: usize = from;
    while i < n
        invariant
            from <= i <= n,
            n == required_defaults_spec().len(),
            table@.len() == n,
            forall|j: int| 0 <= j < n ==> table@[j].key@ == required_defaults_spec()[j].0,
            store.wf(),
            forall|j: int| from <= j < i ==> store@.contains_key(required_defaults_spec()[j].0),
        decreases n - i,
    {
        if store.get(&table[i].key).is_none() {
            return Option::Some(i);
        }
        i = i + 1;
    }
    Option::None
}

/// Stages the required default at table position `i`: binds the key to its
/// canonical default in memory. The shell must persist the document before
/// seeding goes on.
pub fn stage_default(store: &mut PrefStore, i: usize)
    requires
        old(store).wf(),
        i < required_defaults_spec().len(),
        !old(store)@.contains_key(required_defaults_spec()[i as int].0),
    ensures
        final(store).wf(),
        final(store)@ == seed_one(
            old(store)@,
            required_defaults_spec()[i as int].0,
            required_defaults_spec()[i as int].1,
        ),
{
    let mut table = required_defaults();
    let e = table.remove(i);
    store.set(e.key, e.value);
}

/// Decides how seeding goes on after the shell persisted a staged write:
/// a failed write is fatal and carries the key that could not be saved; a
/// saved write lets seeding continue.
pub fn after_persist(outcome: PersistOutcome, key: &String) -> (r: Result<(), StartupError>)
    ensures
        r is Err <==> outcome is WriteFailed,
        r matches Err(e) ==> e == (StartupError::PersistenceWrite { key: *key }),
{
    match outcome {
        PersistOutcome::Saved => Result::Ok(()),
        PersistOutcome::WriteFailed => Result::Err(StartupError::PersistenceWrite {
            key: key.clone(),
        }),
    }
}

} // verus!
