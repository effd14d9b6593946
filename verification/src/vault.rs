//! The local vault: an ordered map from variable names to the values that
//! a sync pushes to Posit Connect, kept in case-insensitive key order.
use vstd::prelude::*;
use indexmap::IndexMap;
use crate::order::{as_ints, is_stable_order, stable_order};
use crate::text::{chars_of, lowercase, owned, to_lower, trim_str, trimmed};

verus! {

/// Lets `indexmap::IndexMap` stand in verified signatures and fields; what
/// a map holds is seen only through `map_entries` and the wrappers below.
#[verifier::external_type_specification]
#[verifier::external_body]
#[verifier::reject_recursive_types(K)]
#[verifier::reject_recursive_types(V)]
#[verifier::reject_recursive_types(S)]
pub struct ExIndexMap<K, V, S>(IndexMap<K, V, S>);

/// The key-value pairs of an `IndexMap<String, String>`, in the map's order.
pub uninterp spec fn map_entries(m: IndexMap<String, String>) -> Seq<(Seq<char>, Seq<char>)>;

/// An ordered list of pairs, keyed by the first component.
pub type Entries = Seq<(Seq<char>, Seq<char>)>;

/// The position of the first pair whose key is `k`, or -1.
pub open spec fn key_pos(e: Entries, k: Seq<char>) -> int
    decreases e.len(),
{
    if e.len() == 0 {
        -1
    } else if e[0].0 == k {
        0
    } else {
        let r = key_pos(e.drop_first(), k);
        if r < 0 {
            -1
        } else {
            r + 1
        }
    }
}

/// The value stored under `k`, if any.
pub open spec fn lookup(e: Entries, k: Seq<char>) -> Option<Seq<char>> {
    if key_pos(e, k) >= 0 {
        Some(e[key_pos(e, k)].1)
    } else {
        None
    }
}

/// No key occurs twice.
pub open spec fn keys_unique(e: Entries) -> bool {
    forall|i: int, j: int| 0 <= i < e.len() && 0 <= j < e.len() && i != j ==> e[i].0 != e[j].0
}

/// What `IndexMap::insert` makes of `e`: an existing key keeps its place and
/// takes the new value; a new key is appended.
pub open spec fn insert_entry(e: Entries, k: Seq<char>, v: Seq<char>) -> Entries {
    if key_pos(e, k) >= 0 {
        e.update(key_pos(e, k), (k, v))
    } else {
        e.push((k, v))
    }
}

/// What `IndexMap::shift_remove` makes of `e`.
pub open spec fn remove_entry(e: Entries, k: Seq<char>) -> Entries {
    if key_pos(e, k) >= 0 {
        e.remove(key_pos(e, k))
    } else {
        e
    }
}

/// The map that inserting the pairs of `pairs` one after another into `e`
/// leaves.
pub open spec fn insert_all(e: Entries, pairs: Entries) -> Entries
    decreases pairs.len(),
{
    if pairs.len() == 0 {
        e
    } else {
        insert_all(insert_entry(e, pairs[0].0, pairs[0].1), pairs.drop_first())
    }
}

pub proof fn lemma_key_pos(e: Entries, k: Seq<char>)
    ensures
        -1 <= key_pos(e, k) < e.len(),
        key_pos(e, k) >= 0 ==> e[key_pos(e, k)].0 == k,
        key_pos(e, k) >= 0 ==> forall|i: int| 0 <= i < key_pos(e, k) ==> e[i].0 != k,
        key_pos(e, k) < 0 ==> forall|i: int| 0 <= i < e.len() ==> e[i].0 != k,
    decreases e.len(),
{
    if e.len() > 0 && e[0].0 != k {
        lemma_key_pos(e.drop_first(), k);
        assert forall|i: int| 1 <= i < e.len() implies e[i].0 == e.drop_first()[i - 1].0 by {}
    }
}

pub proof fn lemma_insert_keeps_unique(e: Entries, k: Seq<char>, v: Seq<char>)
    requires
        keys_unique(e),
    ensures
        keys_unique(insert_entry(e, k, v)),
{
    lemma_key_pos(e, k);
}

pub proof fn lemma_remove_keeps_unique(e: Entries, k: Seq<char>)
    requires
        keys_unique(e),
    ensures
        keys_unique(remove_entry(e, k)),
{
    lemma_key_pos(e, k);
    if key_pos(e, k) >= 0 {
        let p = key_pos(e, k);
        let r = e.remove(p);
        assert forall|i: int, j: int| 0 <= i < r.len() && 0 <= j < r.len() && i != j implies r[i].0
            != r[j].0 by {
            let oi = if i < p { i } else { i + 1 };
            let oj = if j < p { j } else { j + 1 };
            assert(r[i] == e[oi]);
            assert(r[j] == e[oj]);
        }
    }
}

/// `key_pos` finds `i` when `i` holds `k` and no earlier pair does.
pub proof fn lemma_key_pos_at(e: Entries, k: Seq<char>, i: int)
    requires
        0 <= i < e.len(),
        e[i].0 == k,
        forall|j: int| 0 <= j < i ==> e[j].0 != k,
    ensures
        key_pos(e, k) == i,
{
    lemma_key_pos(e, k);
}

/// Two entry lists with the same keys at the same places find every key at
/// the same place.
pub proof fn lemma_key_pos_same_keys(e: Entries, f: Entries, k: Seq<char>)
    requires
        e.len() == f.len(),
        forall|j: int| 0 <= j < e.len() ==> #[trigger] e[j].0 == f[j].0,
    ensures
        key_pos(e, k) == key_pos(f, k),
{
    lemma_key_pos(e, k);
    lemma_key_pos(f, k);
    if key_pos(e, k) >= 0 {
        assert forall|j: int| 0 <= j < key_pos(e, k) implies f[j].0 != k by {
            assert(e[j].0 == f[j].0);
        }
        assert(e[key_pos(e, k)].0 == f[key_pos(e, k)].0);
        lemma_key_pos_at(f, k, key_pos(e, k));
    } else if key_pos(f, k) >= 0 {
        assert(e[key_pos(f, k)].0 == f[key_pos(f, k)].0);
    }
}

/// What is written can be read back: after `k` is set to `v` the entries
/// hold `v` under `k`, and every other key keeps its value.
pub proof fn law_read_after_write(e: Entries, k: Seq<char>, v: Seq<char>, other: Seq<char>)
    requires
        other != k,
    ensures
        lookup(insert_entry(e, k, v), k) == Some(v),
        lookup(insert_entry(e, k, v), other) == lookup(e, other),
{
    lemma_key_pos(e, k);
    lemma_key_pos(e, other);
    let f = insert_entry(e, k, v);
    if key_pos(e, k) >= 0 {
        assert forall|j: int| 0 <= j < e.len() implies #[trigger] e[j].0 == f[j].0 by {}
        lemma_key_pos_same_keys(e, f, k);
        lemma_key_pos_same_keys(e, f, other);
    } else {
        lemma_key_pos_at(f, k, e.len() as int);
        lemma_key_pos(f, other);
        if key_pos(e, other) >= 0 {
            lemma_key_pos_at(f, other, key_pos(e, other));
        } else {
            assert forall|j: int| 0 <= j < f.len() implies f[j].0 != other by {
                if j < e.len() {
                    assert(f[j] == e[j]);
                }
            }
        }
    }
}

/// A removed key is gone (keys being distinct, as in every vault), and
/// every other key keeps its value.
pub proof fn law_remove_then_read(e: Entries, k: Seq<char>, other: Seq<char>)
    requires
        keys_unique(e),
        other != k,
    ensures
        lookup(remove_entry(e, k), k) is None,
        lookup(remove_entry(e, k), other) == lookup(e, other),
{
    lemma_key_pos(e, k);
    lemma_key_pos(e, other);
    let f = remove_entry(e, k);
    lemma_key_pos(f, k);
    lemma_key_pos(f, other);
    if key_pos(e, k) >= 0 {
        let p = key_pos(e, k);
        assert forall|j: int| 0 <= j < f.len() implies f[j].0 != k by {
            let o = if j < p { j } else { j + 1 };
            assert(f[j] == e[o]);
        }
        if key_pos(e, other) >= 0 {
            let q = key_pos(e, other);
            let fq = if q < p { q } else { q - 1 };
            assert(f[fq] == e[q]);
            assert forall|j: int| 0 <= j < fq implies f[j].0 != other by {
                let o = if j < p { j } else { j + 1 };
                assert(f[j] == e[o]);
            }
            lemma_key_pos_at(f, other, fq);
        } else {
            assert forall|j: int| 0 <= j < f.len() implies f[j].0 != other by {
                let o = if j < p { j } else { j + 1 };
                assert(f[j] == e[o]);
            }
        }
    }
}

/// Inserting pairs whose keys are new and distinct appends them in order.
pub proof fn lemma_insert_all_fresh(e: Entries, pairs: Entries)
    requires
        keys_unique(e + pairs),
    ensures
        insert_all(e, pairs) == e + pairs,
    decreases pairs.len(),
{
    if pairs.len() > 0 {
        let k = pairs[0].0;
        lemma_key_pos(e, k);
        assert forall|i: int| 0 <= i < e.len() implies e[i].0 != k by {
            assert((e + pairs)[i] == e[i]);
            assert((e + pairs)[e.len() as int] == pairs[0]);
        }
        let e2 = insert_entry(e, k, pairs[0].1);
        assert(e2 == e.push(pairs[0]));
        assert(e2 + pairs.drop_first() =~= e + pairs);
        lemma_insert_all_fresh(e2, pairs.drop_first());
    } else {
        assert(e + pairs =~= e);
    }
}

/// The pairs of `text` read as a JSON object whose values are all strings,
/// as `serde_json::from_str::<IndexMap<String, String>>` reads it; `None`
/// when `text` is not such an object.
pub uninterp spec fn json_string_object(text: Seq<char>) -> Option<Entries>;

/// Reads `text` with `serde_json::from_str` into an
/// `IndexMap<String, String>`: `None` exactly when serde_json refuses it,
/// else the map, whose pairs are named by `json_string_object`.
#[verifier::external_body]
pub(crate) fn parse_string_object(text: &str) -> (r: Option<IndexMap<String, String>>)
    ensures
        r is Some <==> json_string_object(text@) is Some,
        r matches Some(m) ==> map_entries(m) == json_string_object(text@)->0,
{
    serde_json::from_str::<IndexMap<String, String>>(text).ok()
}

/// Builds an empty map with `IndexMap::new`.
#[verifier::external_body]
pub(crate) fn new_map() -> (m: IndexMap<String, String>)
    ensures
        map_entries(m) == Seq::<(Seq<char>, Seq<char>)>::empty(),
{
    IndexMap::new()
}

/// The number of pairs, from `IndexMap::len`.
#[verifier::external_body]
pub(crate) fn map_len(m: &IndexMap<String, String>) -> (n: usize)
    ensures
        n == map_entries(*m).len(),
{
    m.len()
}

/// The value under `key`, from `IndexMap::get`.
#[verifier::external_body]
pub(crate) fn map_get<'a>(m: &'a IndexMap<String, String>, key: &str) -> (r: Option<&'a String>)
    ensures
        r is Some <==> key_pos(map_entries(*m), key@) >= 0,
        r matches Some(v) ==> v@ == lookup(map_entries(*m), key@)->0,
{
    m.get(key)
}

/// The position of `key`, from `IndexMap::get_index_of`.
#[verifier::external_body]
pub(crate) fn map_get_index_of(m: &IndexMap<String, String>, key: &str) -> (r: Option<usize>)
    ensures
        r is Some <==> key_pos(map_entries(*m), key@) >= 0,
        r matches Some(i) ==> i == key_pos(map_entries(*m), key@),
{
    m.get_index_of(key)
}

/// The pair at position `i`, from `IndexMap::get_index`.
#[verifier::external_body]
pub(crate) fn map_get_index<'a>(m: &'a IndexMap<String, String>, i: usize) -> (r: Option<(&'a String, &'a String)>)
    ensures
        r is Some <==> i < map_entries(*m).len(),
        r matches Some(p) ==> (p.0@, p.1@) == map_entries(*m)[i as int],
{
    m.get_index(i)
}

/// Inserts or updates a pair with `IndexMap::insert`.
#[verifier::external_body]
pub(crate) fn map_insert(m: &mut IndexMap<String, String>, key: String, value: String) -> (r: Option<String>)
    ensures
        map_entries(*final(m)) == insert_entry(map_entries(*old(m)), key@, value@),
        r is Some <==> key_pos(map_entries(*old(m)), key@) >= 0,
        r matches Some(v) ==> v@ == lookup(map_entries(*old(m)), key@)->0,
{
    m.insert(key, value)
}

/// Removes a pair, keeping the order of the others, with `IndexMap::shift_remove`.
#[verifier::external_body]
pub(crate) fn map_shift_remove(m: &mut IndexMap<String, String>, key: &str) -> (r: Option<String>)
    ensures
        map_entries(*final(m)) == remove_entry(map_entries(*old(m)), key@),
        r is Some <==> key_pos(map_entries(*old(m)), key@) >= 0,
        r matches Some(v) ==> v@ == lookup(map_entries(*old(m)), key@)->0,
{
    m.shift_remove(key)
}

/// Removes every pair with `IndexMap::clear`.
#[verifier::external_body]
pub(crate) fn map_clear(m: &mut IndexMap<String, String>)
    ensures
        map_entries(*final(m)) == Seq::<(Seq<char>, Seq<char>)>::empty(),
{
    m.clear()
}

/// The order `Vault::sort` leaves `e` in: a stable sort by lower-cased key.
pub open spec fn sorted_entries(e: Entries, perm: Seq<int>) -> bool {
    is_stable_order(e.map_values(|p: (Seq<char>, Seq<char>)| lowercase(p.0)), perm)
}

/// The pairs of `e` in the order `perm` gives.
pub open spec fn permute(e: Entries, perm: Seq<int>) -> Entries {
    perm.map_values(|j: int| e[j])
}

/// The map that inserting the loaded pairs in file order builds.
pub open spec fn loaded_entries(pairs: Seq<(String, String)>) -> Entries {
    insert_all(Seq::empty(), pairs.map_values(|p: (String, String)| (p.0@, p.1@)))
}

/// The vault file's contents in memory.
pub struct Vault {
    /// Where the vault is stored; empty for a vault that is never written.
    pub path: String,
    pub entries: IndexMap<String, String>,
    /// Changed since it was last written.
    pub dirty: bool,
}

impl Vault {
    pub open spec fn entries_view(&self) -> Entries {
        map_entries(self.entries)
    }

    /// The vault's keys are distinct (as they always are in an `IndexMap`).
    pub open spec fn wf(&self) -> bool {
        keys_unique(self.entries_view())
    }

    /// The value stored under `key`.
    pub open spec fn value_of(&self, key: Seq<char>) -> Option<Seq<char>> {
        lookup(self.entries_view(), key)
    }

    /// A vault that is not backed by a file.
    pub fn load_empty() -> (v: Vault)
        ensures
            v.path@ == Seq::<char>::empty(),
            v.entries_view() == Seq::<(Seq<char>, Seq<char>)>::empty(),
            !v.dirty,
            v.wf(),
    {
        Vault { path: String::new(), entries: new_map(), dirty: false }
    }

    /// The vault read from `path`, given the pairs of the file in file order:
    /// they are inserted in that order and the result sorted.
    pub fn from_loaded(path: String, pairs: Vec<(String, String)>) -> (v: Vault)
        ensures
            v.path@ == path@,
            !v.dirty,
            v.wf(),
            exists|perm: Seq<int>|
                #[trigger] sorted_entries(loaded_entries(pairs@), perm) && v.entries_view()
                    == permute(loaded_entries(pairs@), perm),
    {
        let ghost pv = pairs@.map_values(|p: (String, String)| (p.0@, p.1@));
        let mut m = new_map();
        let mut i: usize = 0;
        assert(pv.skip(0) == pv);
        while i < pairs.len()
            invariant
                i <= pairs.len(),
                pv == pairs@.map_values(|p: (String, String)| (p.0@, p.1@)),
                insert_all(map_entries(m), pv.skip(i as int)) == insert_all(Seq::empty(), pv),
                keys_unique(map_entries(m)),
            decreases pairs.len() - i,
        {
            let k = pairs[i].0.clone();
            let v = pairs[i].1.clone();
            proof {
                assert(pv.skip(i as int)[0] == pv[i as int]);
                assert(pv.skip(i as int).drop_first() == pv.skip(i + 1));
                lemma_insert_keeps_unique(map_entries(m), k@, v@);
            }
            let _ = map_insert(&mut m, k, v);
            i += 1;
        }
        proof {
            assert(pv.skip(pairs.len() as int).len() == 0);
        }
        let mut vault = Vault { path, entries: m, dirty: false };
        vault.sort();
        proof {
            assert(map_entries(m) == loaded_entries(pairs@));
        }
        vault
    }

    /// Whether the vault has a file to be written to; a vault without a
    /// path is never saved.
    pub fn has_file(&self) -> (r: bool)
        ensures
            r == (self.path@.len() > 0),
    {
        !self.path.as_str().is_empty()
    }

    /// Records that the entries were written to the file.
    pub fn mark_saved(&mut self)
        ensures
            *final(self) == (Vault { dirty: false, ..*old(self) }),
    {
        self.dirty = false;
    }

    /// The vault kept at `path`, from the text of its file (`None` when there
    /// is no file): no file or a blank one is an empty vault; otherwise the
    /// text must be a JSON object of strings, whose pairs are inserted in
    /// order and sorted as `from_loaded` does; `None` when it is not.
    pub fn from_text(path: String, text: Option<String>) -> (r: Option<Vault>)
        ensures
            (text is None || trimmed(text->0@).len() == 0) ==> (r matches Some(v) && v.path@ == path@
                && v.entries_view().len() == 0 && !v.dirty && v.wf()),
            text matches Some(t) ==> (trimmed(t@).len() > 0 ==> (r is Some <==> json_string_object(t@) is Some)),
            text matches Some(t) ==> (trimmed(t@).len() > 0 && json_string_object(t@) is Some ==> (r matches Some(v)
                && v.path@ == path@ && !v.dirty && v.wf() && exists|perm: Seq<int>|
                #[trigger] sorted_entries(insert_all(Seq::empty(), json_string_object(t@)->0), perm)
                    && v.entries_view() == permute(insert_all(Seq::empty(), json_string_object(t@)->0), perm))),
    {
        let t = match text {
            None => return Some(Vault::from_loaded(path, Vec::new())),
            Some(t) => t,
        };
        if trim_str(t.as_str()).is_empty() {
            return Some(Vault::from_loaded(path, Vec::new()));
        }
        let m = match parse_string_object(t.as_str()) {
            None => return None,
            Some(m) => m,
        };
        let n = map_len(&m);
        let mut pairs: Vec<(String, String)> = Vec::new();
        let mut i: usize = 0;
        while i < n
            invariant
                i <= n,
                n == map_entries(m).len(),
                pairs@.len() == i,
                forall|j: int| 0 <= j < i ==> ((#[trigger] pairs@[j]).0@, pairs@[j].1@) == map_entries(m)[j],
            decreases n - i,
        {
            let (k, v) = map_get_index(&m, i).unwrap();
            pairs.push((k.clone(), v.clone()));
            i += 1;
        }
        let ghost pv = pairs@.map_values(|p: (String, String)| (p.0@, p.1@));
        assert(pv =~= map_entries(m));
        Some(Vault::from_loaded(path, pairs))
    }

    /// The value stored under `key`.
    pub fn get(&self, key: &str) -> (r: Option<&str>)
        ensures
            r is Some <==> self.value_of(key@) is Some,
            r matches Some(v) ==> v@ == self.value_of(key@)->0,
    {
        match map_get(&self.entries, key) {
            Some(v) => Some(v.as_str()),
            None => None,
        }
    }

    /// Number of entries.
    pub fn len(&self) -> (n: usize)
        ensures
            n == self.entries_view().len(),
    {
        map_len(&self.entries)
    }

    /// The key at position `idx`.
    pub fn key_at(&self, idx: usize) -> (r: Option<String>)
        ensures
            r is Some <==> idx < self.entries_view().len(),
            r matches Some(k) ==> k@ == self.entries_view()[idx as int].0,
    {
        match map_get_index(&self.entries, idx) {
            Some(p) => Some(p.0.clone()),
            None => None,
        }
    }

    /// The value at position `idx`.
    pub fn value_at(&self, idx: usize) -> (r: Option<String>)
        ensures
            r is Some <==> idx < self.entries_view().len(),
            r matches Some(v) ==> v@ == self.entries_view()[idx as int].1,
    {
        match map_get_index(&self.entries, idx) {
            Some(p) => Some(p.1.clone()),
            None => None,
        }
    }

    /// Removes the entry at position `idx`, if there is one.
    pub fn remove_at(&mut self, idx: usize)
        ensures
            final(self).path == old(self).path,
            idx < old(self).entries_view().len() ==> final(self).dirty && final(self).entries_view() == remove_entry(
                old(self).entries_view(),
                old(self).entries_view()[idx as int].0,
            ),
            idx >= old(self).entries_view().len() ==> final(self).dirty == old(self).dirty
                && final(self).entries_view() == old(self).entries_view(),
            old(self).wf() ==> final(self).wf(),
    {
        if let Some(key) = self.key_at(idx) {
            proof {
                if self.wf() {
                    lemma_remove_keeps_unique(self.entries_view(), key@);
                }
            }
            let _ = map_shift_remove(&mut self.entries, key.as_str());
            self.dirty = true;
        }
    }

    /// Sets `key` to `value` (an existing key keeps its place).
    pub fn set(&mut self, key: String, value: String)
        ensures
            final(self).path == old(self).path,
            final(self).dirty == old(self).dirty,
            final(self).entries_view() == insert_entry(old(self).entries_view(), key@, value@),
            old(self).wf() ==> final(self).wf(),
    {
        proof {
            if self.wf() {
                lemma_insert_keeps_unique(self.entries_view(), key@, value@);
            }
        }
        let _ = map_insert(&mut self.entries, key, value);
    }

    /// Removes `key`, keeping the order of the other entries.
    pub fn remove_key(&mut self, key: &str)
        ensures
            final(self).path == old(self).path,
            final(self).dirty == old(self).dirty,
            final(self).entries_view() == remove_entry(old(self).entries_view(), key@),
            old(self).wf() ==> final(self).wf(),
    {
        proof {
            if self.wf() {
                lemma_remove_keeps_unique(self.entries_view(), key@);
            }
        }
        let _ = map_shift_remove(&mut self.entries, key);
    }

    /// The position of `key`, if present.
    pub fn position(&self, key: &str) -> (r: Option<usize>)
        ensures
            r is Some <==> key_pos(self.entries_view(), key@) >= 0,
            r matches Some(i) ==> i == key_pos(self.entries_view(), key@),
    {
        map_get_index_of(&self.entries, key)
    }

    /// Puts the entries in case-insensitive key order, keeping the relative
    /// order of keys that lower-case alike.
    pub fn sort(&mut self)
        ensures
            final(self).path == old(self).path,
            final(self).dirty == old(self).dirty,
            exists|perm: Seq<int>|
                #[trigger] sorted_entries(old(self).entries_view(), perm) && final(self).entries_view()
                    == insert_all(Seq::empty(), permute(old(self).entries_view(), perm)),
            old(self).wf() ==> final(self).wf() && exists|perm: Seq<int>|
                #[trigger] sorted_entries(old(self).entries_view(), perm) && final(self).entries_view()
                    == permute(old(self).entries_view(), perm),
    {
        let ghost e = self.entries_view();
        let n = map_len(&self.entries);
        let mut pairs: Vec<(String, String)> = Vec::new();
        let mut keys: Vec<Vec<char>> = Vec::new();
        let mut i: usize = 0;
        while i < n
            invariant
                i <= n,
                n == e.len(),
                e == self.entries_view(),
                pairs@.len() == i,
                keys@.len() == i,
                forall|j: int| 0 <= j < i ==> (#[trigger] pairs@[j]).0@ == e[j].0 && pairs@[j].1@ == e[j].1,
                forall|j: int| 0 <= j < i ==> (#[trigger] keys@[j])@ == lowercase(e[j].0),
            decreases n - i,
        {
            let (k, v) = match map_get_index(&self.entries, i) {
                Some(p) => (p.0.clone(), p.1.clone()),
                None => {
                    assert(false);
                    (String::new(), String::new())
                },
            };
            let lk = to_lower(k.as_str());
            keys.push(chars_of(lk.as_str()));
            pairs.push((k, v));
            i += 1;
        }
        let perm = stable_order(&keys);
        let ghost lk = e.map_values(|p: (Seq<char>, Seq<char>)| lowercase(p.0));
        assert(keys@.map_values(|k: Vec<char>| k@) =~= lk);
        let ghost pi = as_ints(perm@);
        map_clear(&mut self.entries);
        let mut t: usize = 0;
        assert(permute(e, pi).skip(0) == permute(e, pi));
        while t < perm.len()
            invariant
                t <= perm.len(),
                perm@.len() == n,
                n == e.len(),
                pairs@.len() == n,
                pi == as_ints(perm@),
                is_stable_order(lk, pi),
                forall|j: int| 0 <= j < n ==> (#[trigger] pairs@[j]).0@ == e[j].0 && pairs@[j].1@ == e[j].1,
                insert_all(self.entries_view(), permute(e, pi).skip(t as int)) == insert_all(
                    Seq::empty(),
                    permute(e, pi),
                ),
                self.path == old(self).path,
                self.dirty == old(self).dirty,
            decreases perm.len() - t,
        {
            let j = perm[t];
            assert(pi[t as int] == j as int);
            let k = pairs[j].0.clone();
            let v = pairs[j].1.clone();
            proof {
                assert(permute(e, pi).skip(t as int)[0] == e[j as int]);
                assert(permute(e, pi).skip(t as int).drop_first() == permute(e, pi).skip(t + 1));
            }
            let _ = map_insert(&mut self.entries, k, v);
            t += 1;
        }
        proof {
            assert(permute(e, pi).skip(n as int).len() == 0);
            assert(sorted_entries(e, pi));
            if keys_unique(e) {
                lemma_permute_unique(e, pi);
                lemma_insert_all_fresh(Seq::empty(), permute(e, pi));
                assert(Seq::<(Seq<char>, Seq<char>)>::empty() + permute(e, pi) == permute(e, pi));
            }
        }
    }
}

/// Stable-sorting distinct keys keeps them distinct.
pub proof fn lemma_permute_unique(e: Entries, perm: Seq<int>)
    requires
        keys_unique(e),
        sorted_entries(e, perm),
    ensures
        keys_unique(permute(e, perm)),
{
    let lk = e.map_values(|p: (Seq<char>, Seq<char>)| lowercase(p.0));
    crate::order::lemma_stable_order_is_permutation(lk, perm);
    let r = permute(e, perm);
    assert forall|i: int, j: int| 0 <= i < r.len() && 0 <= j < r.len() && i != j implies r[i].0
        != r[j].0 by {
        assert(r[i] == e[perm[i]]);
        assert(r[j] == e[perm[j]]);
        assert(perm[i] != perm[j]);
    }
}

} // verus!
