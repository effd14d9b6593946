//! The saved settings: server, API key, vault location, the sync whitelist of
//! projects and the per-project blacklist of variables.
use vstd::prelude::*;
use crate::model::{clone_strings, position_of, strs_view};
use crate::theme::ThemeVariant;

verus! {

// ---------------------------------------------------------------------------
// Lists of strings treated as toggles
// ---------------------------------------------------------------------------

/// The position of the first occurrence of `x` in `s`, or -1.
pub open spec fn first_index(s: Seq<Seq<char>>, x: Seq<char>) -> int
    decreases s.len(),
{
    if s.len() == 0 {
        -1
    } else if s[0] == x {
        0
    } else {
        let r = first_index(s.drop_first(), x);
        if r < 0 {
            -1
        } else {
            r + 1
        }
    }
}

pub proof fn lemma_first_index(s: Seq<Seq<char>>, x: Seq<char>)
    ensures
        -1 <= first_index(s, x) < s.len(),
        first_index(s, x) >= 0 ==> s[first_index(s, x)] == x,
        first_index(s, x) >= 0 ==> forall|i: int| 0 <= i < first_index(s, x) ==> s[i] != x,
        first_index(s, x) < 0 <==> !s.contains(x),
    decreases s.len(),
{
    if s.len() > 0 && s[0] != x {
        lemma_first_index(s.drop_first(), x);
        assert forall|i: int| 1 <= i < s.len() implies s[i] == s.drop_first()[i - 1] by {}
        if s.contains(x) {
            let i = choose|i: int| 0 <= i < s.len() && s[i] == x;
            assert(s.drop_first()[i - 1] == x);
        }
        if s.drop_first().contains(x) {
            let i = choose|i: int| 0 <= i < s.drop_first().len() && s.drop_first()[i] == x;
            assert(s[i + 1] == x);
        }
    } else if s.len() > 0 {
        assert(s[0] == x);
    }
}

/// `x` removed from `s` if it occurs there (its first occurrence), else added
/// at the end.
pub open spec fn toggled(s: Seq<Seq<char>>, x: Seq<char>) -> Seq<Seq<char>> {
    if first_index(s, x) >= 0 {
        s.remove(first_index(s, x))
    } else {
        s.push(x)
    }
}

/// Toggling twice gives the list back: exactly when `x` was absent, and
/// as a set of members when no entry repeats.
pub proof fn law_toggle_twice(s: Seq<Seq<char>>, x: Seq<char>, y: Seq<char>)
    ensures
        !s.contains(x) ==> toggled(toggled(s, x), x) == s,
        s.no_duplicates() ==> (toggled(toggled(s, x), x).contains(y) <==> s.contains(y)),
{
    lemma_first_index(s, x);
    if !s.contains(x) {
        let t = s.push(x);
        lemma_first_index(t, x);
        assert forall|i: int| 0 <= i < s.len() implies t[i] != x by {
            assert(t[i] == s[i]);
        }
        assert(t[s.len() as int] == x);
        assert(first_index(t, x) == s.len());
        assert(t.remove(s.len() as int) =~= s);
    } else if s.no_duplicates() {
        let p = first_index(s, x);
        let t = s.remove(p);
        lemma_first_index(t, x);
        assert forall|i: int| 0 <= i < t.len() implies t[i] != x by {
            let o = if i < p { i } else { i + 1 };
            assert(t[i] == s[o]);
        }
        assert(toggled(t, x) == t.push(x));
        let u = t.push(x);
        if s.contains(y) {
            let i = choose|i: int| 0 <= i < s.len() && s[i] == y;
            if i == p {
                assert(u[t.len() as int] == y);
            } else {
                let ti = if i < p { i } else { i - 1 };
                assert(t[ti] == s[i]);
                assert(u[ti] == y);
            }
        }
        if u.contains(y) {
            let i = choose|i: int| 0 <= i < u.len() && u[i] == y;
            if i < t.len() {
                let o = if i < p { i } else { i + 1 };
                assert(t[i] == s[o]);
            } else {
                assert(s[p] == y);
            }
        }
    }
}

/// Flips the membership of `x` in `v`, as the `x` key does for the whitelist
/// and the blacklist.
pub fn toggle_string(v: &mut Vec<String>, x: String)
    ensures
        strs_view(final(v)@) == toggled(strs_view(old(v)@), x@),
{
    proof {
        lemma_first_index(strs_view(v@), x@);
    }
    match position_of(v, &x) {
        Some(pos) => {
            proof {
                assert(first_index(strs_view(v@), x@) == pos) by {
                    let s = strs_view(v@);
                    let f = first_index(s, x@);
                    if f < 0 {
                        assert(s[pos as int] == x@);
                        assert(s.contains(x@));
                    } else if f < pos {
                        assert(s[f] == v@[f]@);
                    } else if f > pos {
                        assert(s[pos as int] == x@);
                    }
                }
            }
            let ghost old_v = v@;
            v.remove(pos);
            assert(strs_view(v@) =~= strs_view(old_v).remove(pos as int));
        },
        None => {
            let ghost old_v = v@;
            v.push(x);
            assert(strs_view(v@) =~= strs_view(old_v).push(x@));
        },
    }
}

// ---------------------------------------------------------------------------
// Per-project lists of excluded variables
// ---------------------------------------------------------------------------

pub type ExclusionPairs = Seq<(Seq<char>, Seq<Seq<char>>)>;

/// The map that a list of pairs stands for; a later pair for the same key wins.
pub open spec fn pairs_to_map(s: ExclusionPairs) -> Map<Seq<char>, Seq<Seq<char>>>
    decreases s.len(),
{
    if s.len() == 0 {
        Map::empty()
    } else {
        pairs_to_map(s.drop_last()).insert(s.last().0, s.last().1)
    }
}

proof fn lemma_pairs_to_map_absent(s: ExclusionPairs, k: Seq<char>)
    requires
        forall|i: int| 0 <= i < s.len() ==> s[i].0 != k,
    ensures
        !pairs_to_map(s).contains_key(k),
    decreases s.len(),
{
    if s.len() > 0 {
        lemma_pairs_to_map_absent(s.drop_last(), k);
    }
}

proof fn lemma_pairs_to_map_last(s: ExclusionPairs, k: Seq<char>, i: int)
    requires
        0 <= i < s.len(),
        s[i].0 == k,
        forall|j: int| i < j < s.len() ==> s[j].0 != k,
    ensures
        pairs_to_map(s).contains_key(k),
        pairs_to_map(s)[k] == s[i].1,
    decreases s.len(),
{
    if i < s.len() - 1 {
        lemma_pairs_to_map_last(s.drop_last(), k, i);
    }
}

proof fn lemma_pairs_to_map_update(s: ExclusionPairs, k: Seq<char>, v: Seq<Seq<char>>, i: int)
    requires
        0 <= i < s.len(),
        s[i].0 == k,
        forall|j: int| i < j < s.len() ==> s[j].0 != k,
    ensures
        pairs_to_map(s.update(i, (k, v))) == pairs_to_map(s).insert(k, v),
    decreases s.len(),
{
    if i == s.len() - 1 {
        assert(s.update(i, (k, v)).drop_last() == s.drop_last());
        assert(pairs_to_map(s.update(i, (k, v))) =~= pairs_to_map(s).insert(k, v));
    } else {
        lemma_pairs_to_map_update(s.drop_last(), k, v, i);
        assert(s.update(i, (k, v)).drop_last() == s.drop_last().update(i, (k, v)));
        assert(pairs_to_map(s.update(i, (k, v))) =~= pairs_to_map(s).insert(k, v));
    }
}

/// The per-project variable blacklist: project GUID to the names of the
/// variables that a sync leaves out for that project.
pub struct ExclusionMap {
    pairs: Vec<(String, Vec<String>)>,
}

pub open spec fn pair_view(p: (String, Vec<String>)) -> (Seq<char>, Seq<Seq<char>>) {
    (p.0@, strs_view(p.1@))
}

impl View for ExclusionMap {
    type V = Map<Seq<char>, Seq<Seq<char>>>;

    closed spec fn view(&self) -> Map<Seq<char>, Seq<Seq<char>>> {
        pairs_to_map(self.pairs@.map_values(|p: (String, Vec<String>)| pair_view(p)))
    }
}

impl ExclusionMap {
    closed spec fn pv(&self) -> ExclusionPairs {
        self.pairs@.map_values(|p: (String, Vec<String>)| pair_view(p))
    }

    /// An empty blacklist.
    pub fn new() -> (m: Self)
        ensures
            m@ == Map::<Seq<char>, Seq<Seq<char>>>::empty(),
    {
        let m = ExclusionMap { pairs: Vec::new() };
        assert(m.pv() =~= Seq::<(Seq<char>, Seq<Seq<char>>)>::empty());
        m
    }

    /// The position of the last pair for `key`.
    fn last_index(&self, key: &str) -> (r: Option<usize>)
        ensures
            r matches Some(i) ==> i < self.pairs@.len() && self.pv()[i as int].0 == key@ && forall|
                j: int,
            | i < j < self.pairs@.len() ==> (#[trigger] self.pv()[j]).0 != key@,
            r is None ==> forall|j: int| 0 <= j < self.pairs@.len() ==> (#[trigger] self.pv()[j]).0 != key@,
    {
        let mut i: usize = self.pairs.len();
        while i > 0
            invariant
                i <= self.pairs@.len(),
                forall|j: int| i <= j < self.pairs@.len() ==> (#[trigger] self.pv()[j]).0 != key@,
            decreases i,
        {
            if crate::text::str_eq(self.pairs[i - 1].0.as_str(), key) {
                assert(self.pv()[i - 1].0 == self.pairs@[i - 1].0@);
                return Some(i - 1);
            }
            assert(self.pv()[i - 1].0 == self.pairs@[i - 1].0@);
            i -= 1;
        }
        None
    }

    /// Whether `key` has a list.
    pub fn contains_key(&self, key: &str) -> (r: bool)
        ensures
            r == self@.contains_key(key@),
    {
        match self.last_index(key) {
            Some(i) => {
                proof {
                    lemma_pairs_to_map_last(self.pv(), key@, i as int);
                }
                true
            },
            None => {
                proof {
                    lemma_pairs_to_map_absent(self.pv(), key@);
                }
                false
            },
        }
    }

    /// The list for `key`, if it has one.
    pub fn get(&self, key: &str) -> (r: Option<&Vec<String>>)
        ensures
            r is Some <==> self@.contains_key(key@),
            r matches Some(v) ==> strs_view(v@) == self@[key@],
    {
        match self.last_index(key) {
            Some(i) => {
                proof {
                    lemma_pairs_to_map_last(self.pv(), key@, i as int);
                }
                Some(&self.pairs[i].1)
            },
            None => {
                proof {
                    lemma_pairs_to_map_absent(self.pv(), key@);
                }
                None
            },
        }
    }

    /// Whether there is no list at all.
    pub fn is_empty(&self) -> (r: bool)
        ensures
            r == (self@ == Map::<Seq<char>, Seq<Seq<char>>>::empty()),
    {
        if self.pairs.len() == 0 {
            assert(self.pv() =~= Seq::<(Seq<char>, Seq<Seq<char>>)>::empty());
            true
        } else {
            let ghost last = self.pv().last();
            assert(self@.contains_key(last.0)) by {
                lemma_pairs_to_map_last(self.pv(), last.0, self.pv().len() - 1);
            }
            false
        }
    }

    /// Sets the list for `key`, returning the list it replaces.
    pub fn insert(&mut self, key: String, value: Vec<String>) -> (r: Option<Vec<String>>)
        ensures
            final(self)@ == old(self)@.insert(key@, strs_view(value@)),
            r is Some <==> old(self)@.contains_key(key@),
            r matches Some(v) ==> strs_view(v@) == old(self)@[key@],
    {
        let ghost before = self.pv();
        match self.last_index(key.as_str()) {
            Some(i) => {
                proof {
                    lemma_pairs_to_map_last(before, key@, i as int);
                    lemma_pairs_to_map_update(before, key@, strs_view(value@), i as int);
                }
                let ghost kv = key@;
                let ghost vv = strs_view(value@);
                let ghost raw = self.pairs@;
                let old_pair = self.pairs.remove(i);
                self.pairs.insert(i, (key, value));
                assert(self.pairs@ =~= raw.update(i as int, self.pairs@[i as int]));
                assert(self.pv() =~= before.update(i as int, (kv, vv)));
                assert(strs_view(old_pair.1@) == before[i as int].1);
                Some(old_pair.1)
            },
            None => {
                proof {
                    lemma_pairs_to_map_absent(before, key@);
                }
                let ghost kv = key@;
                let ghost vv = strs_view(value@);
                self.pairs.push((key, value));
                assert(self.pv() =~= before.push((kv, vv)));
                assert(self.pv().drop_last() =~= before);
                None
            },
        }
    }

    /// The excluded variables of `key`; none when it has no list.
    pub open spec fn list_of(&self, key: Seq<char>) -> Seq<Seq<char>> {
        if self@.contains_key(key) {
            self@[key]
        } else {
            Seq::empty()
        }
    }

    /// A copy of the list for `key` (empty when it has none).
    pub fn list_for(&self, key: &str) -> (r: Vec<String>)
        ensures
            strs_view(r@) == self.list_of(key@),
    {
        match self.get(key) {
            Some(v) => clone_strings(v),
            None => {
                let r: Vec<String> = Vec::new();
                assert(strs_view(r@) =~= Seq::<Seq<char>>::empty());
                r
            },
        }
    }

    /// Flips `name` in the list for `key`, creating the list when missing.
    pub fn toggle(&mut self, key: String, name: String)
        ensures
            final(self)@ == old(self)@.insert(key@, toggled(old(self).list_of(key@), name@)),
    {
        let mut list = self.list_for(key.as_str());
        toggle_string(&mut list, name);
        let _ = self.insert(key, list);
    }

    /// The pairs, for writing the blacklist out.
    pub fn pairs(&self) -> (r: &Vec<(String, Vec<String>)>)
        ensures
            pairs_to_map(r@.map_values(|p: (String, Vec<String>)| pair_view(p))) == self@,
    {
        &self.pairs
    }
}

// ---------------------------------------------------------------------------
// A set of strings
// ---------------------------------------------------------------------------

/// A set of strings (the GUIDs of expanded projects).
pub struct StringSet {
    items: Vec<String>,
}

impl View for StringSet {
    type V = Set<Seq<char>>;

    closed spec fn view(&self) -> Set<Seq<char>> {
        strs_view(self.items@).to_set()
    }
}

impl StringSet {
    pub fn new() -> (s: Self)
        ensures
            s@ == Set::<Seq<char>>::empty(),
    {
        let s = StringSet { items: Vec::new() };
        assert(strs_view(s.items@) =~= Seq::<Seq<char>>::empty());
        assert(s@ =~= Set::<Seq<char>>::empty());
        s
    }

    pub fn contains(&self, x: &String) -> (r: bool)
        ensures
            r == self@.contains(x@),
    {
        crate::model::contains_string(&self.items, x)
    }

    /// Adds `x`; true when it was not there before.
    pub fn insert(&mut self, x: String) -> (r: bool)
        ensures
            final(self)@ == old(self)@.insert(x@),
            r == !old(self)@.contains(x@),
    {
        if self.contains(&x) {
            assert(self@.insert(x@) =~= self@);
            false
        } else {
            let ghost before = strs_view(self.items@);
            let ghost xv = x@;
            self.items.push(x);
            assert(strs_view(self.items@) =~= before.push(xv));
            proof {
                before.lemma_push_to_set_commute(xv);
            }
            true
        }
    }

    /// Removes `x`; true when it was there.
    pub fn remove(&mut self, x: &String) -> (r: bool)
        ensures
            final(self)@ == old(self)@.remove(x@),
            r == old(self)@.contains(x@),
    {
        let was = self.contains(x);
        let ghost before = strs_view(self.items@);
        let mut kept: Vec<String> = Vec::new();
        let mut i: usize = 0;
        assert(before.take(0).to_set() =~= Set::<Seq<char>>::empty());
        assert(strs_view(kept@).to_set() =~= Set::<Seq<char>>::empty());
        while i < self.items.len()
            invariant
                i <= self.items@.len(),
                before == strs_view(self.items@),
                strs_view(kept@).to_set() =~= before.take(i as int).to_set().remove(x@),
            decreases self.items@.len() - i,
        {
            let ghost kv = strs_view(kept@);
            proof {
                assert(before.take(i + 1) =~= before.take(i as int).push(before[i as int]));
                before.take(i as int).lemma_push_to_set_commute(before[i as int]);
            }
            if self.items[i] != *x {
                let c = self.items[i].clone();
                kept.push(c);
                assert(strs_view(kept@) =~= kv.push(c@));
                proof {
                    kv.lemma_push_to_set_commute(c@);
                }
                assert(strs_view(kept@).to_set() =~= before.take(i + 1).to_set().remove(x@));
            } else {
                assert(strs_view(kept@).to_set() =~= before.take(i + 1).to_set().remove(x@));
            }
            i += 1;
        }
        self.items = kept;
        assert(before.take(before.len() as int) == before);
        assert(self@ =~= old(self)@.remove(x@));
        was
    }
}

// ---------------------------------------------------------------------------
// The configuration
// ---------------------------------------------------------------------------

/// The settings stored in the configuration file.
pub struct Config {
    pub server_url: String,
    pub api_key: String,
    pub vault_path: String,
    /// RFC 3339 time of the last successful project refresh.
    pub last_refresh: Option<String>,
    /// Whitelist: GUIDs of the projects a sync includes. Empty means nothing syncs.
    pub included_projects: Vec<String>,
    /// Blacklist: per project GUID, the variable names a sync leaves out.
    pub excluded_vars: ExclusionMap,
    pub theme: ThemeVariant,
}

impl Default for Config {
    fn default() -> (c: Self)
        ensures
            c.server_url@ == Seq::<char>::empty(),
            c.api_key@ == Seq::<char>::empty(),
            c.vault_path@ == Seq::<char>::empty(),
            c.last_refresh is None,
            c.included_projects@ == Seq::<String>::empty(),
            c.excluded_vars@ == Map::<Seq<char>, Seq<Seq<char>>>::empty(),
            c.theme == ThemeVariant::Inherit,
    {
        Config {
            server_url: String::new(),
            api_key: String::new(),
            vault_path: String::new(),
            last_refresh: None,
            included_projects: Vec::new(),
            excluded_vars: ExclusionMap::new(),
            theme: ThemeVariant::Inherit,
        }
    }
}

impl Config {
    /// Both the server URL and the API key are set.
    pub open spec fn configured(&self) -> bool {
        self.server_url@.len() > 0 && self.api_key@.len() > 0
    }

    pub fn is_configured(&self) -> (r: bool)
        ensures
            r == self.configured(),
    {
        !self.server_url.as_str().is_empty() && !self.api_key.as_str().is_empty()
    }

    /// The whitelist as strings.
    pub open spec fn included(&self) -> Seq<Seq<char>> {
        strs_view(self.included_projects@)
    }

    /// `guid` is on the whitelist.
    pub fn includes(&self, guid: &String) -> (r: bool)
        ensures
            r == self.included().contains(guid@),
    {
        crate::model::contains_string(&self.included_projects, guid)
    }

    /// Adds `guid` to the whitelist, or removes it if it is there.
    pub fn toggle_included(&mut self, guid: String)
        ensures
            final(self).included() == toggled(old(self).included(), guid@),
            *final(self) == (Config { included_projects: final(self).included_projects, ..*old(self) }),
    {
        toggle_string(&mut self.included_projects, guid);
    }
}

} // verus!
