//! A map model of the host credential store.
//!
//! A credential entry is identified by its (service, key) pair and holds
//! exactly one value, or does not exist. The store as a whole is therefore a
//! map from pairs to values; the three operations are insertion, lookup and
//! removal on that map. The spec functions here say so, and the lemmas state
//! the laws of the store that the rest of the crate and its callers rely on.

use vstd::prelude::*;

verus! {

/// The identifier of a credential entry: its (service, key) pair.
pub type EntryId = (Seq<char>, Seq<char>);

/// The contents of a credential store: each existing entry's value, keyed by
/// its (service, key) pair. At most one value per pair, by construction.
pub type StoreContents = Map<EntryId, Seq<char>>;

/// Storing a value creates the entry or overwrites the value it held.
pub open spec fn store_set(
    m: StoreContents,
    service: Seq<char>,
    key: Seq<char>,
    value: Seq<char>,
) -> StoreContents {
    m.insert((service, key), value)
}

/// Reading an entry yields its value, or `None` when no entry exists for the
/// pair; absence is an ordinary result, not a failure.
pub open spec fn store_get(m: StoreContents, service: Seq<char>, key: Seq<char>) -> Option<
    Seq<char>,
> {
    if m.contains_key((service, key)) {
        Some(m[(service, key)])
    } else {
        None
    }
}

/// Deleting an entry removes it; deleting a pair with no entry changes
/// nothing.
pub open spec fn store_delete(m: StoreContents, service: Seq<char>, key: Seq<char>) -> StoreContents {
    m.remove((service, key))
}

/// Setting a value and then reading the same pair yields exactly that value.
pub proof fn lemma_get_after_set(
    m: StoreContents,
    service: Seq<char>,
    key: Seq<char>,
    value: Seq<char>,
)
    ensures
        store_get(store_set(m, service, key, value), service, key) == Some(value),
{
}

/// Setting a pair twice keeps only the second value: a set overwrites.
pub proof fn lemma_set_overwrites(
    m: StoreContents,
    service: Seq<char>,
    key: Seq<char>,
    v1: Seq<char>,
    v2: Seq<char>,
)
    ensures
        store_get(store_set(store_set(m, service, key, v1), service, key, v2), service, key)
            == Some(v2),
{
}

/// A pair that holds no entry reads as `None`.
pub proof fn lemma_get_absent(m: StoreContents, service: Seq<char>, key: Seq<char>)
    requires
        !m.contains_key((service, key)),
    ensures
        store_get(m, service, key) is None,
{
}

/// Deleting a pair that holds no entry leaves the store exactly as it was.
pub proof fn lemma_delete_absent(m: StoreContents, service: Seq<char>, key: Seq<char>)
    requires
        !m.contains_key((service, key)),
    ensures
        store_delete(m, service, key) == m,
{
    assert(store_delete(m, service, key) =~= m);
}

/// After a set and a delete of the same pair, the pair reads as `None` again.
pub proof fn lemma_get_after_delete(
    m: StoreContents,
    service: Seq<char>,
    key: Seq<char>,
    value: Seq<char>,
)
    ensures
        store_get(store_delete(store_set(m, service, key, value), service, key), service, key)
            is None,
{
}

/// One credential entry as the in-memory store holds it: the identifying
/// (service, key) pair and the one value stored under it.
pub struct StoredEntry {
    pub service: String,
    pub key: String,
    pub value: String,
}

/// The pair that identifies an entry.
pub open spec fn entry_id(e: StoredEntry) -> EntryId {
    (e.service@, e.key@)
}

/// The contents that a sequence of entries spells out; a later entry for the
/// same pair wins.
pub open spec fn entries_map(s: Seq<StoredEntry>) -> StoreContents
    decreases s.len(),
{
    if s.len() == 0 {
        Map::empty()
    } else {
        entries_map(s.drop_last()).insert(entry_id(s.last()), s.last().value@)
    }
}

/// No two entries of the sequence share a (service, key) pair.
pub open spec fn distinct_ids(s: Seq<StoredEntry>) -> bool {
    forall|i: int, j: int| 0 <= i < j < s.len() ==> entry_id(s[i]) != entry_id(s[j])
}

proof fn lemma_distinct_drop_last(s: Seq<StoredEntry>)
    requires
        distinct_ids(s),
        s.len() > 0,
    ensures
        distinct_ids(s.drop_last()),
{
    assert forall|a: int, b: int|
        0 <= a < b < s.drop_last().len() implies entry_id(s.drop_last()[a]) != entry_id(
        s.drop_last()[b],
    ) by {
        assert(s.drop_last()[a] == s[a]);
        assert(s.drop_last()[b] == s[b]);
    }
}

proof fn lemma_distinct_remove(s: Seq<StoredEntry>, i: int)
    requires
        distinct_ids(s),
        0 <= i < s.len(),
    ensures
        distinct_ids(s.remove(i)),
{
    assert forall|a: int, b: int|
        0 <= a < b < s.remove(i).len() implies entry_id(s.remove(i)[a]) != entry_id(
        s.remove(i)[b],
    ) by {
        let a0 = if a < i {
            a
        } else {
            a + 1
        };
        let b0 = if b < i {
            b
        } else {
            b + 1
        };
        assert(s.remove(i)[a] == s[a0]);
        assert(s.remove(i)[b] == s[b0]);
    }
}

/// A pair occurs in the contents exactly when some entry of the sequence
/// carries it.
proof fn lemma_entries_map_contains(s: Seq<StoredEntry>, p: EntryId)
    ensures
        entries_map(s).contains_key(p) <==> exists|i: int|
            0 <= i < s.len() && entry_id(s[i]) == p,
    decreases s.len(),
{
    if s.len() == 0 {
    } else {
        lemma_entries_map_contains(s.drop_last(), p);
        if entry_id(s.last()) == p {
            assert(entry_id(s[s.len() - 1]) == p);
        } else {
            if exists|i: int| 0 <= i < s.len() && entry_id(s[i]) == p {
                let i = choose|i: int| 0 <= i < s.len() && entry_id(s[i]) == p;
                assert(entry_id(s.drop_last()[i]) == p);
            }
            if exists|i: int| 0 <= i < s.drop_last().len() && entry_id(s.drop_last()[i]) == p {
                let i = choose|i: int| 0 <= i < s.drop_last().len() && entry_id(s.drop_last()[i])
                    == p;
                assert(entry_id(s[i]) == p);
            }
        }
    }
}

/// Under distinct pairs, the contents map each entry's pair to that entry's
/// value.
proof fn lemma_entries_map_value(s: Seq<StoredEntry>, i: int)
    requires
        distinct_ids(s),
        0 <= i < s.len(),
    ensures
        entries_map(s).contains_key(entry_id(s[i])),
        entries_map(s)[entry_id(s[i])] == s[i].value@,
    decreases s.len(),
{
    if i == s.len() - 1 {
    } else {
        lemma_distinct_drop_last(s);
        assert(s.drop_last()[i] == s[i]);
        lemma_entries_map_value(s.drop_last(), i);
        assert(entry_id(s[i]) != entry_id(s[s.len() - 1]));
    }
}

/// Appending an entry inserts its pair into the contents.
proof fn lemma_entries_map_push(s: Seq<StoredEntry>, e: StoredEntry)
    ensures
        entries_map(s.push(e)) == entries_map(s).insert(entry_id(e), e.value@),
{
    assert(s.push(e).drop_last() =~= s);
    assert(s.push(e).last() == e);
}

/// Under distinct pairs, taking an entry out removes exactly its pair from
/// the contents.
proof fn lemma_entries_map_remove(s: Seq<StoredEntry>, i: int)
    requires
        distinct_ids(s),
        0 <= i < s.len(),
    ensures
        entries_map(s.remove(i)) == entries_map(s).remove(entry_id(s[i])),
    decreases s.len(),
{
    let p = entry_id(s[i]);
    if i == s.len() - 1 {
        assert(s.remove(i) =~= s.drop_last());
        lemma_entries_map_contains(s.drop_last(), p);
        assert forall|j: int| 0 <= j < s.drop_last().len() implies entry_id(s.drop_last()[j]) != p by {
            assert(s.drop_last()[j] == s[j]);
        }
        assert(!entries_map(s.drop_last()).contains_key(p));
        assert(entries_map(s.remove(i)) =~= entries_map(s).remove(p));
    } else {
        let prefix = s.drop_last();
        lemma_distinct_drop_last(s);
        assert(prefix[i] == s[i]);
        lemma_entries_map_remove(prefix, i);
        assert(s.remove(i).drop_last() =~= prefix.remove(i));
        assert(s.remove(i).last() == s.last());
        assert(entry_id(s[i]) != entry_id(s[s.len() - 1]));
        assert(entries_map(prefix).remove(p).insert(entry_id(s.last()), s.last().value@)
            =~= entries_map(prefix).insert(entry_id(s.last()), s.last().value@).remove(p));
    }
}

/// An in-memory credential store with the exact semantics the adapter relies
/// on from the host credential manager: its operations realise `store_set`,
/// `store_get` and `store_delete` over its contents, entry by entry, so the
/// store's laws can be exercised on concrete values as well as proved.
pub struct MemoryStore {
    entries: Vec<StoredEntry>,
}

impl View for MemoryStore {
    type V = StoreContents;

    closed spec fn view(&self) -> StoreContents {
        entries_map(self.entries@)
    }
}

impl MemoryStore {
    /// Internal well-formedness: at most one entry per (service, key) pair.
    pub closed spec fn wf(&self) -> bool {
        distinct_ids(self.entries@)
    }

    /// An empty store: no pair holds an entry.
    pub fn new() -> (r: MemoryStore)
        ensures
            r.wf(),
            r@ == Map::<EntryId, Seq<char>>::empty(),
    {
        let r = MemoryStore { entries: Vec::new() };
        proof {
            assert(r@ =~= Map::<EntryId, Seq<char>>::empty());
        }
        r
    }

    /// The index of the entry for the pair, if one exists.
    fn find_index(&self, service: &String, key: &String) -> (r: Option<usize>)
        ensures
            (match r {
                Some(i) => i < self.entries@.len() && entry_id(self.entries@[i as int]) == (
                    service@,
                    key@,
                ),
                None => forall|j: int|
                    0 <= j < self.entries@.len() ==> entry_id(self.entries@[j]) != (
                        service@,
                        key@,
                    ),
            }),
    {
        let n = self.entries.len();
        let mut i: usize = 0;
        while i < n
            invariant
                n == self.entries@.len(),
                i <= n,
                forall|j: int|
                    0 <= j < i ==> entry_id(self.entries@[j]) != (service@, key@),
            decreases n - i,
        {
            let e = &self.entries[i];
            if e.service == *service && e.key == *key {
                return Some(i);
            }
            i = i + 1;
        }
        None
    }

    /// Take out the entry for the pair, if one exists; afterwards the pair
    /// holds none, and nothing else has changed.
    fn purge(&mut self, service: &String, key: &String)
        requires
            old(self).wf(),
        ensures
            final(self).wf(),
            final(self)@ == store_delete(old(self)@, service@, key@),
    {
        let found = self.find_index(service, key);
        match found {
            Some(i) => {
                proof {
                    lemma_entries_map_remove(self.entries@, i as int);
                    lemma_distinct_remove(self.entries@, i as int);
                }
                self.entries.remove(i);
            },
            None => {
                proof {
                    lemma_entries_map_contains(self.entries@, (service@, key@));
                    assert(self@ =~= store_delete(self@, service@, key@));
                }
            },
        }
    }

    /// Store `value` under the pair, creating the entry or overwriting the
    /// value it held. Mirrors the adapter's command surface: the result
    /// carries no payload, and here success is unconditional.
    pub fn set_secret(&mut self, service: String, key: String, value: String) -> (r: Result<
        (),
        String,
    >)
        requires
            old(self).wf(),
        ensures
            final(self).wf(),
            final(self)@ == store_set(old(self)@, service@, key@, value@),
            r == Ok::<(), String>(()),
    {
        let ghost sv: Seq<char> = service@;
        let ghost kv: Seq<char> = key@;
        let ghost vv: Seq<char> = value@;
        self.purge(&service, &key);
        let ghost purged: Seq<StoredEntry> = self.entries@;
        proof {
            lemma_entries_map_contains(purged, (sv, kv));
        }
        let e = StoredEntry { service, key, value };
        proof {
            lemma_entries_map_push(purged, e);
            assert forall|a: int, b: int|
                0 <= a < b < purged.push(e).len() implies entry_id(purged.push(e)[a]) != entry_id(
                purged.push(e)[b],
            ) by {
                if b == purged.len() {
                    assert(purged.push(e)[a] == purged[a]);
                    assert(entry_id(purged[a]) != (sv, kv));
                } else {
                    assert(purged.push(e)[a] == purged[a]);
                    assert(purged.push(e)[b] == purged[b]);
                }
            }
            assert(entries_map(purged).insert((sv, kv), vv) =~= store_set(
                old(self)@,
                sv,
                kv,
                vv,
            ));
        }
        self.entries.push(e);
        Ok(())
    }

    /// Read the value stored under the pair: `Some` of it when the entry
    /// exists, `None` when it does not — absence is an ordinary result.
    /// Mirrors the adapter's command surface; here success is unconditional.
    pub fn get_secret(&self, service: String, key: String) -> (r: Result<Option<String>, String>)
        requires
            self.wf(),
        ensures
            (match r {
                Ok(Some(v)) => store_get(self@, service@, key@) == Some(v@),
                Ok(None) => store_get(self@, service@, key@) is None,
                Err(_) => false,
            }),
    {
        let found = self.find_index(&service, &key);
        match found {
            Some(i) => {
                proof {
                    lemma_entries_map_value(self.entries@, i as int);
                }
                Ok(Some(self.entries[i].value.clone()))
            },
            None => {
                proof {
                    lemma_entries_map_contains(self.entries@, (service@, key@));
                }
                Ok(None)
            },
        }
    }

    /// Remove the entry for the pair. Success covers both outcomes: the entry
    /// existed and is gone, or no entry existed and nothing changed — absence
    /// is a no-op, not a failure.
    pub fn delete_secret(&mut self, service: String, key: String) -> (r: Result<(), String>)
        requires
            old(self).wf(),
        ensures
            final(self).wf(),
            final(self)@ == store_delete(old(self)@, service@, key@),
            r == Ok::<(), String>(()),
    {
        self.purge(&service, &key);
        Ok(())
    }
}

} // verus!
