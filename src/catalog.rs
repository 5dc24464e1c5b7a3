//! A keyed catalog of decoded records: insert under a key policy, lookup,
//! removal, clearing, counting and ordered key listings.
//!
//! Keys are handed out in increasing order and never reused, and entries are
//! kept in the order they were loaded, so the load order is also the
//! ascending order of keys.

use vstd::prelude::*;

use crate::enums::{DuplicateKeyMode, KeyMode, KeyOrder};

verus! {

/// What identifies a record for duplicate detection: an object number and a
/// fingerprint of the rest of its identity (an epoch, a sensor's data).
#[derive(Debug, Clone, Copy, PartialEq, Eq, Structural)]
pub struct Ident {
    pub id: u64,
    pub fingerprint: u64,
}

/// One stored record with its key.
#[derive(Debug, Clone)]
pub struct Entry<R> {
    pub key: i64,
    pub ident: Ident,
    pub record: R,
}

/// Why a catalog operation failed.
#[derive(Debug, Clone, Copy, PartialEq, Eq, Structural)]
pub enum CatalogError {
    /// The record maps to a live key and duplicates are refused.
    DuplicateKey,
    /// No live record has the key.
    NotFound,
    /// Every key has been handed out.
    KeysExhausted,
}

pub struct Catalog<R> {
    entries: Vec<Entry<R>>,
    next_key: i64,
}

/// What an insert returns, and the entries and next key it leaves.
pub struct InsertOutcome<R> {
    pub result: Result<i64, CatalogError>,
    pub entries: Seq<Entry<R>>,
    pub next_key: i64,
}

/// The outcome of inserting `record` with identity `ident` into entries `s`
/// whose next fresh key is `next`. Under `NoDuplicates`, a record whose
/// identity matches a live record (the latest such, if several) maps to that
/// record's key: `ReturnZero` then refuses the insert and changes nothing,
/// `ReturnKey` replaces the record in place and returns the key. Otherwise
/// the record is appended under the next fresh key.
pub open spec fn spec_insert<R>(
    s: Seq<Entry<R>>,
    next: i64,
    ident: Ident,
    record: R,
    key_mode: KeyMode,
    dup: DuplicateKeyMode,
) -> InsertOutcome<R> {
    let i = find_ident(s, ident);
    if key_mode == KeyMode::NoDuplicates && i >= 0 {
        if dup == DuplicateKeyMode::ReturnZero {
            InsertOutcome { result: Err(CatalogError::DuplicateKey), entries: s, next_key: next }
        } else {
            InsertOutcome {
                result: Ok(s[i].key),
                entries: s.update(i, Entry { key: s[i].key, ident, record }),
                next_key: next,
            }
        }
    } else if next < i64::MAX {
        InsertOutcome {
            result: Ok(next),
            entries: s.push(Entry { key: next, ident, record }),
            next_key: (next + 1) as i64,
        }
    } else {
        InsertOutcome { result: Err(CatalogError::KeysExhausted), entries: s, next_key: next }
    }
}

/// The keys of `s`, in order.
pub open spec fn keys_of<R>(s: Seq<Entry<R>>) -> Seq<i64> {
    s.map_values(|e: Entry<R>| e.key)
}

/// The index of the last entry of `s` with identity `id`, or -1.
pub open spec fn find_ident<R>(s: Seq<Entry<R>>, id: Ident) -> int
    decreases s.len(),
{
    if s.len() == 0 {
        -1
    } else if s.last().ident == id {
        s.len() - 1
    } else {
        find_ident(s.drop_last(), id)
    }
}

/// The index of the last entry of `s` with key `k`, or -1.
pub open spec fn find_key<R>(s: Seq<Entry<R>>, k: i64) -> int
    decreases s.len(),
{
    if s.len() == 0 {
        -1
    } else if s.last().key == k {
        s.len() - 1
    } else {
        find_key(s.drop_last(), k)
    }
}

/// `s` without the entry keyed `k`, if there is one.
pub open spec fn without_key<R>(s: Seq<Entry<R>>, k: i64) -> Seq<Entry<R>> {
    if find_key(s, k) >= 0 {
        s.remove(find_key(s, k))
    } else {
        s
    }
}

/// `s` read backwards.
pub open spec fn reversed<T>(s: Seq<T>) -> Seq<T> {
    Seq::new(s.len(), |i: int| s[s.len() - 1 - i])
}

/// Keys that increase strictly along the sequence.
pub open spec fn strictly_increasing(k: Seq<i64>) -> bool {
    forall|i: int, j: int| 0 <= i < j < k.len() ==> k[i] < k[j]
}

/// The keys a listing in order `o` gives for entries `s`.
pub open spec fn listing<R>(s: Seq<Entry<R>>, o: KeyOrder) -> Seq<i64> {
    match o {
        KeyOrder::Descending => reversed(keys_of(s)),
        _ => keys_of(s),
    }
}

pub proof fn lemma_find_ident_range<R>(s: Seq<Entry<R>>, id: Ident)
    ensures
        -1 <= find_ident(s, id) < s.len(),
        find_ident(s, id) >= 0 ==> s[find_ident(s, id)].ident == id,
        find_ident(s, id) < 0 ==> forall|i: int| 0 <= i < s.len() ==> s[i].ident != id,
    decreases s.len(),
{
    if s.len() > 0 {
        lemma_find_ident_range(s.drop_last(), id);
        if s.last().ident != id {
            assert forall|i: int| 0 <= i < s.len() && find_ident(s, id) < 0 implies s[i].ident != id by {
                if i < s.len() - 1 {
                    assert(s[i] == s.drop_last()[i]);
                }
            }
        }
    }
}

pub proof fn lemma_find_key_range<R>(s: Seq<Entry<R>>, k: i64)
    ensures
        -1 <= find_key(s, k) < s.len(),
        find_key(s, k) >= 0 ==> s[find_key(s, k)].key == k,
        find_key(s, k) < 0 ==> forall|i: int| 0 <= i < s.len() ==> s[i].key != k,
        find_key(s, k) < 0 <==> !keys_of(s).contains(k),
    decreases s.len(),
{
    if s.len() > 0 {
        lemma_find_key_range(s.drop_last(), k);
        if s.last().key != k {
            assert forall|i: int| 0 <= i < s.len() && find_key(s, k) < 0 implies s[i].key != k by {
                if i < s.len() - 1 {
                    assert(s[i] == s.drop_last()[i]);
                }
            }
        }
    }
    if find_key(s, k) >= 0 {
        assert(keys_of(s)[find_key(s, k)] == k);
    }
}

impl<R> Catalog<R> {
    /// The live entries, in load order.
    pub closed spec fn view(&self) -> Seq<Entry<R>> {
        self.entries@
    }

    /// The key the next fresh insert takes.
    pub closed spec fn spec_next_key(&self) -> i64 {
        self.next_key
    }

    /// Keys are positive, increase in load order and stay below the next key.
    pub closed spec fn wf(&self) -> bool {
        &&& self.next_key >= 1
        &&& strictly_increasing(keys_of(self.entries@))
        &&& forall|i: int|
            0 <= i < self.entries@.len() ==> 1 <= #[trigger] self.entries@[i].key < self.next_key
    }

    /// An empty catalog whose first key is 1.
    pub fn new() -> (c: Catalog<R>)
        ensures
            c.wf(),
            c@ == Seq::<Entry<R>>::empty(),
            c.spec_next_key() == 1,
    {
        let c = Catalog { entries: Vec::new(), next_key: 1 };
        assert(keys_of(c.entries@) =~= Seq::<i64>::empty());
        c
    }

    /// How many records are live.
    pub fn count(&self) -> (n: usize)
        ensures
            n == self@.len(),
    {
        self.entries.len()
    }

    fn index_of_ident(&self, id: Ident) -> (r: Option<usize>)
        ensures
            r is Some <==> find_ident(self@, id) >= 0,
            r matches Some(i) ==> i == find_ident(self@, id),
    {
        let mut i: usize = self.entries.len();
        assert(self@.subrange(0, i as int) =~= self@);
        while i > 0
            invariant
                i <= self@.len(),
                find_ident(self@, id) == find_ident(self@.subrange(0, i as int), id),
            decreases i,
        {
            let ghost pre = self@.subrange(0, i as int);
            assert(pre.drop_last() =~= self@.subrange(0, i - 1));
            if self.entries[i - 1].ident == id {
                return Some(i - 1);
            }
            i = i - 1;
        }
        assert(self@.subrange(0, 0) =~= Seq::<Entry<R>>::empty());
        None
    }

    fn index_of_key(&self, key: i64) -> (r: Option<usize>)
        ensures
            r is Some <==> find_key(self@, key) >= 0,
            r matches Some(i) ==> i == find_key(self@, key),
    {
        let mut i: usize = self.entries.len();
        assert(self@.subrange(0, i as int) =~= self@);
        while i > 0
            invariant
                i <= self@.len(),
                find_key(self@, key) == find_key(self@.subrange(0, i as int), key),
            decreases i,
        {
            let ghost pre = self@.subrange(0, i as int);
            assert(pre.drop_last() =~= self@.subrange(0, i - 1));
            if self.entries[i - 1].key == key {
                return Some(i - 1);
            }
            i = i - 1;
        }
        assert(self@.subrange(0, 0) =~= Seq::<Entry<R>>::empty());
        None
    }

    /// Inserts a record under the key policy given, as `spec_insert` says.
    pub fn insert(&mut self, ident: Ident, record: R, key_mode: KeyMode, dup: DuplicateKeyMode) -> (r:
        Result<i64, CatalogError>)
        requires
            old(self).wf(),
        ensures
            final(self).wf(),
            spec_insert(old(self)@, old(self).spec_next_key(), ident, record, key_mode, dup) == (
            InsertOutcome { result: r, entries: final(self)@, next_key: final(self).spec_next_key() }),
    {
        proof {
            lemma_find_ident_range(self@, ident);
        }
        if key_mode == KeyMode::NoDuplicates {
            if let Some(i) = self.index_of_ident(ident) {
                match dup {
                    DuplicateKeyMode::ReturnZero => {
                        return Err(CatalogError::DuplicateKey);
                    },
                    DuplicateKeyMode::ReturnKey => {
                        let key = self.entries[i].key;
                        let ghost s = self.entries@;
                        self.entries.set(i, Entry { key, ident, record });
                        assert(keys_of(self.entries@) =~= keys_of(s));
                        assert forall|j: int| 0 <= j < self.entries@.len() implies 1
                            <= #[trigger] self.entries@[j].key < self.next_key by {
                            assert(keys_of(self.entries@)[j] == keys_of(s)[j]);
                        }
                        return Ok(key);
                    },
                }
            }
        }
        if self.next_key == i64::MAX {
            return Err(CatalogError::KeysExhausted);
        }
        let key = self.next_key;
        let ghost s = self.entries@;
        self.entries.push(Entry { key, ident, record });
        self.next_key = key + 1;
        assert(keys_of(self.entries@) =~= keys_of(s).push(key));
        assert forall|a: int, b: int|
            0 <= a < b < keys_of(self.entries@).len() implies keys_of(self.entries@)[a] < keys_of(
            self.entries@,
        )[b] by {
            if b < s.len() {
                assert(keys_of(s)[a] < keys_of(s)[b]);
            } else {
                assert(keys_of(s)[a] == s[a].key);
            }
        }
        Ok(key)
    }

    /// The record under `key`.
    pub fn get(&self, key: i64) -> (r: Result<&R, CatalogError>)
        ensures
            r is Err <==> !keys_of(self@).contains(key),
            r is Err ==> r == Err::<&R, CatalogError>(CatalogError::NotFound),
            r matches Ok(x) ==> *x == self@[find_key(self@, key)].record,
    {
        proof {
            lemma_find_key_range(self@, key);
        }
        match self.index_of_key(key) {
            Some(i) => Ok(&self.entries[i].record),
            None => Err(CatalogError::NotFound),
        }
    }

    /// Whether a record is live under `key`.
    pub fn contains(&self, key: i64) -> (r: bool)
        ensures
            r == keys_of(self@).contains(key),
    {
        proof {
            lemma_find_key_range(self@, key);
        }
        self.index_of_key(key).is_some()
    }

    /// Removes the record under `key`; without one, nothing changes.
    pub fn remove(&mut self, key: i64)
        requires
            old(self).wf(),
        ensures
            final(self).wf(),
            final(self)@ == without_key(old(self)@, key),
            final(self).spec_next_key() == old(self).spec_next_key(),
    {
        proof {
            lemma_find_key_range(self@, key);
        }
        if let Some(i) = self.index_of_key(key) {
            let ghost s = self.entries@;
            self.entries.remove(i);
            assert(keys_of(self.entries@) =~= keys_of(s).remove(i as int));
            assert forall|a: int, b: int|
                0 <= a < b < keys_of(self.entries@).len() implies keys_of(self.entries@)[a]
                < keys_of(self.entries@)[b] by {
                let a2 = if a < i {
                    a
                } else {
                    a + 1
                };
                let b2 = if b < i {
                    b
                } else {
                    b + 1
                };
                assert(keys_of(s)[a2] < keys_of(s)[b2]);
            }
            assert forall|j: int| 0 <= j < self.entries@.len() implies 1
                <= #[trigger] self.entries@[j].key < self.next_key by {
                if j < i {
                    assert(self.entries@[j] == s[j]);
                } else {
                    assert(self.entries@[j] == s[j + 1]);
                }
            }
        }
    }

    /// Removes every record. Keys handed out stay used.
    pub fn clear(&mut self)
        requires
            old(self).wf(),
        ensures
            final(self).wf(),
            final(self)@ == Seq::<Entry<R>>::empty(),
            final(self).spec_next_key() == old(self).spec_next_key(),
    {
        self.entries.clear();
        assert(keys_of(self.entries@) =~= Seq::<i64>::empty());
    }

    /// The live keys in order `order`: ascending, load time and fastest all
    /// give load order, which is ascending; descending gives it reversed.
    pub fn keys(&self, order: KeyOrder) -> (r: Vec<i64>)
        requires
            self.wf(),
        ensures
            r@ == listing(self@, order),
    {
        let n = self.entries.len();
        let mut r: Vec<i64> = Vec::new();
        let mut i: usize = 0;
        while i < n
            invariant
                n == self@.len(),
                i <= n,
                r@ == listing(self@, order).subrange(0, i as int),
            decreases n - i,
        {
            let j = match order {
                KeyOrder::Descending => n - 1 - i,
                _ => i,
            };
            r.push(self.entries[j].key);
            i = i + 1;
            assert(r@ =~= listing(self@, order).subrange(0, i as int));
        }
        assert(r@ =~= listing(self@, order));
        r
    }
}

/// Ascending and descending listings hold the same keys in reverse order,
/// each key once, and ascending order is the order of increasing keys.
pub proof fn lemma_key_orders<R>(c: &Catalog<R>)
    requires
        c.wf(),
    ensures
        listing(c@, KeyOrder::Ascending) == reversed(listing(c@, KeyOrder::Descending)),
        listing(c@, KeyOrder::Ascending).to_set() == listing(c@, KeyOrder::Descending).to_set(),
        strictly_increasing(listing(c@, KeyOrder::Ascending)),
        listing(c@, KeyOrder::Ascending).no_duplicates(),
        listing(c@, KeyOrder::Descending).no_duplicates(),
{
    reveal(Catalog::wf);
    let a = listing(c@, KeyOrder::Ascending);
    let d = listing(c@, KeyOrder::Descending);
    assert(a =~= reversed(d));
    assert(a.to_set() =~= d.to_set()) by {
        assert forall|k: i64| a.to_set().contains(k) implies d.to_set().contains(k) by {
            let i = choose|i: int| 0 <= i < a.len() && a[i] == k;
            assert(d[a.len() - 1 - i] == k);
        }
        assert forall|k: i64| d.to_set().contains(k) implies a.to_set().contains(k) by {
            let i = choose|i: int| 0 <= i < d.len() && d[i] == k;
            assert(a[a.len() - 1 - i] == k);
        }
    }
    assert forall|i: int, j: int| 0 <= i < d.len() && 0 <= j < d.len() && i != j implies d[i]
        != d[j] by {
        assert(d[i] == a[a.len() - 1 - i]);
        assert(d[j] == a[a.len() - 1 - j]);
    }
}

/// Load order is kept: a fresh insert appends its key, and a removal drops
/// exactly the removed key, the others keeping their order.
pub proof fn lemma_load_order<R>(s: Seq<Entry<R>>, e: Entry<R>, k: i64)
    ensures
        keys_of(s.push(e)) == keys_of(s).push(e.key),
        find_key(s, k) >= 0 ==> keys_of(without_key(s, k)) == keys_of(s).remove(find_key(s, k)),
        find_key(s, k) < 0 ==> keys_of(without_key(s, k)) == keys_of(s),
{
    assert(keys_of(s.push(e)) =~= keys_of(s).push(e.key));
    lemma_find_key_range(s, k);
    if find_key(s, k) >= 0 {
        assert(keys_of(without_key(s, k)) =~= keys_of(s).remove(find_key(s, k)));
    }
}

/// Removing a key that is not live changes nothing, so the count stays.
pub proof fn lemma_remove_absent<R>(s: Seq<Entry<R>>, k: i64)
    requires
        !keys_of(s).contains(k),
    ensures
        without_key(s, k) == s,
        without_key(s, k).len() == s.len(),
{
    lemma_find_key_range(s, k);
}

/// Whatever a catalog held, once cleared it counts no records and lists no
/// keys in any order.
pub proof fn lemma_cleared_is_empty<R>(after: Seq<Entry<R>>, o: KeyOrder)
    requires
        after == Seq::<Entry<R>>::empty(),
    ensures
        after.len() == 0,
        listing(after, o).len() == 0,
{
}

} // verus!
