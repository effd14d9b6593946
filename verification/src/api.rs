//! The Posit Connect endpoints: the server address and key a client talks
//! to, and the URLs and the header it sends. The requests themselves are
//! made by the program around the library.
use vstd::prelude::*;
use crate::app::{var_view, vars_view};
use crate::model::EnvVar;
use crate::text::{clip_bytes, clip_to_bytes, concat2, concat3, owned, push_str, trim_trailing_slashes, without_trailing_slashes};
use std::collections::HashMap;

verus! {

/// A client of one Connect server, by its address and API key.
pub struct ConnectClient {
    base_url: String,
    api_key: String,
}

impl ConnectClient {
    /// The address without its trailing slashes.
    pub closed spec fn base(&self) -> Seq<char> {
        self.base_url@
    }

    pub closed spec fn key(&self) -> Seq<char> {
        self.api_key@
    }

    /// A client for the server at `base_url` (trailing slashes dropped).
    pub fn new(base_url: &str, api_key: &str) -> (c: ConnectClient)
        ensures
            c.base() == trim_trailing_slashes(base_url@),
            c.key() == api_key@,
    {
        ConnectClient { base_url: without_trailing_slashes(base_url), api_key: owned(api_key) }
    }

    pub fn base_url(&self) -> (r: &str)
        ensures
            r@ == self.base(),
    {
        self.base_url.as_str()
    }

    /// The value of the `Authorization` header: `Key` and the API key.
    pub fn auth_header(&self) -> (r: String)
        ensures
            r@ == "Key "@ + self.key(),
    {
        concat2("Key ", self.api_key.as_str())
    }

    /// The URL that lists the content items.
    pub fn content_url(&self) -> (r: String)
        ensures
            r@ == self.base() + "/__api__/v1/content"@,
    {
        concat2(self.base_url.as_str(), "/__api__/v1/content")
    }

    /// The URL of the environment of content item `guid`.
    pub fn environment_url(&self, guid: &str) -> (r: String)
        ensures
            r@ == self.base() + "/__api__/v1/content/"@ + guid@ + "/environment"@,
    {
        let mut r = concat3(self.base_url.as_str(), "/__api__/v1/content/", guid);
        push_str(&mut r, "/environment");
        r
    }
}

/// `text` read as a JSON array of strings, as
/// `serde_json::from_str::<Vec<String>>` reads it; `None` when it is not one.
pub uninterp spec fn json_string_array(text: Seq<char>) -> Option<Seq<Seq<char>>>;

/// `text` read as a JSON object whose values are strings or null, as
/// `serde_json::from_str::<HashMap<String, Option<String>>>` reads it;
/// `None` when it is not one.
pub uninterp spec fn json_var_object(text: Seq<char>) -> Option<Map<Seq<char>, Option<Seq<char>>>>;

/// Reads `text` with `serde_json::from_str::<Vec<String>>`.
#[verifier::external_body]
fn parse_string_array(text: &str) -> (r: Option<Vec<String>>)
    ensures
        r is Some <==> json_string_array(text@) is Some,
        r matches Some(v) ==> crate::model::strs_view(v@) == json_string_array(text@)->0,
{
    serde_json::from_str::<Vec<String>>(text).ok()
}

/// Reads `text` with `serde_json::from_str::<HashMap<String, Option<String>>>`
/// and lists the map's pairs. The order of the list is the hash map's, which
/// is not fixed; what holds of every order: each key of the object once,
/// with its value.
#[verifier::external_body]
fn parse_var_object(text: &str) -> (r: Option<Vec<(String, Option<String>)>>)
    ensures
        r is Some <==> json_var_object(text@) is Some,
        r matches Some(v) ==> object_listed(pairs_view(v@), json_var_object(text@)->0),
{
    match serde_json::from_str::<HashMap<String, Option<String>>>(text) {
        Ok(m) => Some(m.into_iter().collect()),
        Err(_) => None,
    }
}

pub open spec fn pairs_view(v: Seq<(String, Option<String>)>) -> Seq<(Seq<char>, Option<Seq<char>>)> {
    v.map_values(|p: (String, Option<String>)| (p.0@, crate::model::opt_view(p.1)))
}

/// `vars` lists each key of `obj` exactly once, with its value.
pub open spec fn object_listed(vars: Seq<(Seq<char>, Option<Seq<char>>)>, obj: Map<Seq<char>, Option<Seq<char>>>) -> bool {
    &&& forall|i: int, j: int| 0 <= i < j < vars.len() ==> #[trigger] vars[i].0 != #[trigger] vars[j].0
    &&& forall|i: int| 0 <= i < vars.len() ==> obj.contains_key(#[trigger] vars[i].0) && obj[vars[i].0] == vars[i].1
    &&& forall|k: Seq<char>| #[trigger] obj.contains_key(k) ==> exists|i: int| 0 <= i < vars.len() && vars[i].0 == k
}

/// Variables with these names and no values.
pub open spec fn names_only(names: Seq<Seq<char>>) -> Seq<(Seq<char>, Option<Seq<char>>)> {
    names.map_values(|n: Seq<char>| (n, None::<Seq<char>>))
}

/// The error text for a response that is none of the known forms: the GUID
/// and at most the first 200 bytes of the body.
pub open spec fn unexpected_vars_text(guid: Seq<char>, body: Seq<char>) -> Seq<char> {
    "Unexpected env var response for "@ + guid + ": "@ + clip_bytes(body, 200)
}

/// The variables of content item `guid` from the server's answer, as the
/// server may send them: `status_ok` and `status` are the HTTP status, `body`
/// the text, and `as_objects` the body read as a list of `{name, value}`
/// objects (`None` when it is not one). Tried in order: a failed status; a
/// list of names (no values); a list of objects; an object from name to
/// value; else an error quoting the start of the body.
pub fn decode_env_vars(guid: &str, status_ok: bool, status: &str, body: &str, as_objects: Option<Vec<EnvVar>>) -> (r: Result<Vec<EnvVar>, String>)
    ensures
        !status_ok ==> (r matches Err(e) && e@ == "HTTP "@ + status@ + " fetching env vars for "@ + guid@),
        status_ok && json_string_array(body@) is Some ==> (r matches Ok(v) && vars_view(v@) == names_only(
            json_string_array(body@)->0,
        )),
        status_ok && json_string_array(body@) is None && as_objects is Some ==> (r matches Ok(v) && vars_view(v@)
            == vars_view(as_objects->0@)),
        status_ok && json_string_array(body@) is None && as_objects is None && json_var_object(body@) is Some ==> (r matches Ok(v)
            && object_listed(vars_view(v@), json_var_object(body@)->0)),
        status_ok && json_string_array(body@) is None && as_objects is None && json_var_object(body@) is None ==> (r matches Err(e)
            && e@ == unexpected_vars_text(guid@, body@)),
{
    if !status_ok {
        let mut e = concat3("HTTP ", status, " fetching env vars for ");
        push_str(&mut e, guid);
        return Err(e);
    }
    if let Some(names) = parse_string_array(body) {
        let ghost ns = crate::model::strs_view(names@);
        let vars = vars_from_names(names);
        assert(vars_view(vars@) =~= names_only(ns));
        return Ok(vars);
    }
    if let Some(v) = as_objects {
        return Ok(v);
    }
    match parse_var_object(body) {
        Some(pairs) => {
            let mut vars: Vec<EnvVar> = Vec::new();
            let mut i: usize = 0;
            while i < pairs.len()
                invariant
                    i <= pairs@.len(),
                    vars_view(vars@) == pairs_view(pairs@).take(i as int),
                decreases pairs@.len() - i,
            {
                let (n, val) = &pairs[i];
                let e = EnvVar { name: n.clone(), value: crate::model::clone_opt(val) };
                let ghost prev = vars@;
                vars.push(e);
                assert(vars_view(vars@) =~= vars_view(prev).push(var_view(e)));
                i += 1;
                assert(pairs_view(pairs@).take(i as int) =~= pairs_view(pairs@).take(i - 1).push(pairs_view(pairs@)[i - 1]));
            }
            assert(pairs_view(pairs@).take(pairs@.len() as int) =~= pairs_view(pairs@));
            Ok(vars)
        },
        None => {
            let mut e = concat3("Unexpected env var response for ", guid, ": ");
            let cut = clip_to_bytes(body, 200);
            push_str(&mut e, cut.as_str());
            Err(e)
        },
    }
}

/// Variables known by name only, as the server lists them: no values.
pub fn vars_from_names(names: Vec<String>) -> (r: Vec<EnvVar>)
    ensures
        r@.len() == names@.len(),
        forall|i: int| 0 <= i < names@.len() ==> (#[trigger] r@[i]).name@ == names@[i]@ && r@[i].value is None,
{
    let mut r: Vec<EnvVar> = Vec::new();
    let mut i: usize = 0;
    while i < names.len()
        invariant
            i <= names@.len(),
            r@.len() == i,
            forall|j: int| 0 <= j < i ==> (#[trigger] r@[j]).name@ == names@[j]@ && r@[j].value is None,
        decreases names@.len() - i,
    {
        r.push(EnvVar { name: owned(names[i].as_str()), value: None });
        i += 1;
    }
    r
}

} // verus!
