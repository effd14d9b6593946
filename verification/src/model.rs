//! The values exchanged with Posit Connect: content items and their
//! environment variables.
use vstd::prelude::*;

verus! {

/// A content item as Posit Connect lists it.
#[derive(Debug, Clone)]
pub struct ContentItem {
    pub guid: String,
    pub name: String,
    pub title: Option<String>,
    /// The caller's role on the item ("owner", "editor", "viewer", ...).
    pub app_role: Option<String>,
}

/// One environment variable of a content item. Connect lists names only;
/// a value is present when the library sends one.
#[derive(Debug, Clone)]
pub struct EnvVar {
    pub name: String,
    pub value: Option<String>,
}

/// The view of an optional string.
pub open spec fn opt_view(o: Option<String>) -> Option<Seq<char>> {
    match o {
        Some(s) => Some(s@),
        None => None,
    }
}

/// The views of a sequence of strings.
pub open spec fn strs_view(v: Seq<String>) -> Seq<Seq<char>> {
    v.map_values(|s: String| s@)
}

/// The names of a sequence of environment variables.
pub open spec fn var_names(v: Seq<EnvVar>) -> Seq<Seq<char>> {
    v.map_values(|e: EnvVar| e.name@)
}

/// A copy of an optional string.
pub fn clone_opt(o: &Option<String>) -> (r: Option<String>)
    ensures
        opt_view(r) == opt_view(*o),
{
    match o {
        Some(s) => Some(s.clone()),
        None => None,
    }
}

impl EnvVar {
    /// A copy of the variable.
    pub fn duplicate(&self) -> (r: EnvVar)
        ensures
            r.name@ == self.name@,
            opt_view(r.value) == opt_view(self.value),
    {
        EnvVar { name: self.name.clone(), value: clone_opt(&self.value) }
    }
}

/// Whether `s` occurs in `v`.
pub fn contains_string(v: &Vec<String>, s: &String) -> (r: bool)
    ensures
        r == strs_view(v@).contains(s@),
{
    let mut i: usize = 0;
    while i < v.len()
        invariant
            i <= v.len(),
            forall|j: int| 0 <= j < i ==> (#[trigger] v@[j])@ != s@,
        decreases v.len() - i,
    {
        if v[i] == *s {
            assert(strs_view(v@)[i as int] == s@);
            return true;
        }
        i += 1;
    }
    assert forall|j: int| 0 <= j < strs_view(v@).len() implies strs_view(v@)[j] != s@ by {
        assert(strs_view(v@)[j] == v@[j]@);
    }
    false
}

/// The first position of `s` in `v`, if it occurs.
pub fn position_of(v: &Vec<String>, s: &String) -> (r: Option<usize>)
    ensures
        r matches Some(i) ==> i < v.len() && v@[i as int]@ == s@ && forall|j: int|
            0 <= j < i ==> (#[trigger] v@[j])@ != s@,
        r is None ==> !strs_view(v@).contains(s@),
{
    let mut i: usize = 0;
    while i < v.len()
        invariant
            i <= v.len(),
            forall|j: int| 0 <= j < i ==> (#[trigger] v@[j])@ != s@,
        decreases v.len() - i,
    {
        if v[i] == *s {
            return Some(i);
        }
        i += 1;
    }
    assert forall|j: int| 0 <= j < strs_view(v@).len() implies strs_view(v@)[j] != s@ by {
        assert(strs_view(v@)[j] == v@[j]@);
    }
    None
}

/// A copy of a list of strings.
pub fn clone_strings(v: &Vec<String>) -> (r: Vec<String>)
    ensures
        strs_view(r@) == strs_view(v@),
{
    let mut r: Vec<String> = Vec::new();
    let mut i: usize = 0;
    while i < v.len()
        invariant
            i <= v.len(),
            strs_view(r@) == strs_view(v@).take(i as int),
        decreases v.len() - i,
    {
        let c = v[i].clone();
        let ghost prev = r@;
        r.push(c);
        assert(r@ == prev.push(c));
        assert(strs_view(r@) =~= strs_view(prev).push(c@));
        i += 1;
        assert(strs_view(v@).take(i as int) =~= strs_view(v@).take(i - 1).push(v@[i - 1]@));
    }
    assert(strs_view(v@).take(v.len() as int) == strs_view(v@));
    r
}

} // verus!
