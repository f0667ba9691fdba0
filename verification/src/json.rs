//! Reading JSON documents: the string, integer and boolean found at given
//! paths of a document, and the entries of a document that is an object.

use vstd::prelude::*;
use crate::text::to_owned_string;

verus! {

/// One step into a JSON value: a key of an object, or a position in an
/// array.
#[derive(Debug, Clone, PartialEq, Eq)]
pub enum JsonStep {
    Key(String),
    Index(usize),
}

/// A step as plain values: the key, or `None` and the position.
pub open spec fn step_view(s: JsonStep) -> (Option<Seq<char>>, usize) {
    match s {
        JsonStep::Key(k) => (Some(k@), 0usize),
        JsonStep::Index(i) => (None, i),
    }
}

/// A path as plain values.
pub open spec fn path_view(p: Vec<JsonStep>) -> Seq<(Option<Seq<char>>, usize)> {
    p@.map_values(|s: JsonStep| step_view(s))
}

/// The step into key `k`.
pub open spec fn key_step(k: Seq<char>) -> (Option<Seq<char>>, usize) {
    (Some(k), 0usize)
}

/// What is read at a path: the value as a string, as an `i64` and as a
/// boolean, each `None` when the value is not one (or nothing is there).
#[derive(Debug, Clone, PartialEq, Eq)]
pub struct JsonLeaf {
    pub text: Option<String>,
    pub int: Option<i64>,
    pub flag: Option<bool>,
}

/// A leaf as plain values.
pub open spec fn leaf_view(l: JsonLeaf) -> (Option<Seq<char>>, Option<i64>, Option<bool>) {
    (crate::login::opt_string(l.text), l.int, l.flag)
}

/// What `serde_json` gives for a document and a path: the parse error's
/// text when the bytes are not JSON, else the leaf that indexing the value
/// step by step reaches (`value[key]`, `value[position]`, which give `null`
/// where nothing is) read with `as_str`, `as_i64` and `as_bool`.
pub uninterp spec fn json_lookup_spec(body: Seq<u8>, path: Seq<(Option<Seq<char>>, usize)>) -> Result<
    (Option<Seq<char>>, Option<i64>, Option<bool>),
    Seq<char>,
>;

/// `serde_json::from_slice::<serde_json::Value>(body)`, then for each path
/// the value reached by indexing step by step, read with `as_str`,
/// `as_i64` and `as_bool`; on a parse error, the error's display text.
/// Indexing a value that lacks the key or position gives `null`, so it
/// never fails.
#[verifier::external_body]
pub(crate) fn json_lookup(body: &[u8], paths: &[Vec<JsonStep>]) -> (r: Result<Vec<JsonLeaf>, String>)
    ensures
        match r {
            Ok(v) => v@.len() == paths@.len() && forall|i: int|
                0 <= i < paths@.len() ==> json_lookup_spec(body@, #[trigger] path_view(paths@[i])) == Ok::<
                    (Option<Seq<char>>, Option<i64>, Option<bool>),
                    Seq<char>,
                >(leaf_view(v@[i])),
            Err(e) => forall|i: int|
                0 <= i < paths@.len() ==> json_lookup_spec(body@, #[trigger] path_view(paths@[i])) == Err::<
                    (Option<Seq<char>>, Option<i64>, Option<bool>),
                    Seq<char>,
                >(e@),
        },
{
    let v: serde_json::Value = serde_json::from_slice(body).map_err(|e| e.to_string())?;
    Ok(paths.iter().map(|p| {
        let x = p.iter().fold(&v, |x, s| match s {
            JsonStep::Key(k) => &x[k.as_str()],
            JsonStep::Index(i) => &x[*i],
        });
        JsonLeaf { text: x.as_str().map(String::from), int: x.as_i64(), flag: x.as_bool() }
    }).collect())
}

/// The entries of a JSON document that is an object, each value in its
/// compact JSON text, in the order `serde_json`'s map keeps them; `None`
/// when the bytes are not JSON or not an object.
pub uninterp spec fn json_object_entries_spec(body: Seq<u8>) -> Option<Seq<(Seq<char>, Seq<char>)>>;

/// The views of entries.
pub open spec fn entry_views(v: Seq<(String, String)>) -> Seq<(Seq<char>, Seq<char>)> {
    v.map_values(|e: (String, String)| (e.0@, e.1@))
}

/// `serde_json::from_slice::<serde_json::Value>(body)`; when it is an
/// object, its entries with each value written back by `to_string`.
#[verifier::external_body]
pub(crate) fn json_object_entries(body: &[u8]) -> (r: Option<Vec<(String, String)>>)
    ensures
        match json_object_entries_spec(body@) {
            Some(es) => r matches Some(v) && entry_views(v@) == es,
            None => r is None,
        },
{
    match serde_json::from_slice::<serde_json::Value>(body) {
        Ok(serde_json::Value::Object(m)) => Some(m.into_iter().map(|(k, v)| (k, v.to_string())).collect()),
        _ => None,
    }
}

/// The path made of one key.
pub(crate) fn key_path(k: &str) -> (p: Vec<JsonStep>)
    ensures
        path_view(p) == seq![key_step(k@)],
{
    let mut p: Vec<JsonStep> = Vec::new();
    p.push(JsonStep::Key(to_owned_string(k)));
    proof {
        assert(path_view(p) =~= seq![key_step(k@)]);
    }
    p
}

fn copy_path(prefix: &Vec<JsonStep>) -> (p: Vec<JsonStep>)
    ensures
        path_view(p) == path_view(*prefix),
{
    let mut p: Vec<JsonStep> = Vec::new();
    let mut i: usize = 0;
    while i < prefix.len()
        invariant
            i <= prefix@.len(),
            path_view(p) == path_view(*prefix).take(i as int),
        decreases prefix@.len() - i,
    {
        let s = match &prefix[i] {
            JsonStep::Key(k) => JsonStep::Key(to_owned_string(k.as_str())),
            JsonStep::Index(j) => JsonStep::Index(*j),
        };
        let ghost before = path_view(p);
        p.push(s);
        proof {
            assert(step_view(s) == step_view(prefix@[i as int]));
            assert(path_view(p) =~= before.push(step_view(s)));
            assert(path_view(*prefix).take(i + 1) =~= path_view(*prefix).take(i as int).push(
                step_view(prefix@[i as int]),
            ));
        }
        i = i + 1;
    }
    proof {
        assert(path_view(*prefix).take(prefix@.len() as int) =~= path_view(*prefix));
    }
    p
}

/// `prefix`, then the key `k`.
pub(crate) fn push_key(prefix: &Vec<JsonStep>, k: &str) -> (p: Vec<JsonStep>)
    ensures
        path_view(p) == path_view(*prefix).push(key_step(k@)),
{
    let mut p = copy_path(prefix);
    let ghost before = path_view(p);
    p.push(JsonStep::Key(to_owned_string(k)));
    proof {
        assert(path_view(p) =~= before.push(key_step(k@)));
    }
    p
}

/// `prefix`, then the position `i`.
pub(crate) fn push_index(prefix: &Vec<JsonStep>, i: usize) -> (p: Vec<JsonStep>)
    ensures
        path_view(p) == path_view(*prefix).push((None::<Seq<char>>, i)),
{
    let mut p = copy_path(prefix);
    let ghost before = path_view(p);
    p.push(JsonStep::Index(i));
    proof {
        assert(path_view(p) =~= before.push((None::<Seq<char>>, i)));
    }
    p
}

} // verus!
