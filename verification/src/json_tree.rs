//! A JSON tree the library can reason about, and the structural search
//! for a tunnel address inside it.
//!
//! Configuration files are parsed by serde_json; the parsed value is
//! opaque to verification, so it is rebuilt as the library's own tree
//! holding exactly what the search reads: strings, and the nesting of
//! arrays and objects.  The recursive search over that tree is verified
//! for every tree, whatever the parser produced.

use vstd::prelude::*;
use crate::tunnel::{detect_in_text, is_text_capture, text_matches};

verus! {

/// A JSON document as the library sees it.  Numbers carry no payload:
/// the search reads strings only.
pub enum JsonTree {
    Null,
    Bool(bool),
    Num,
    Str(String),
    Arr(Vec<JsonTree>),
    Obj(Vec<(String, JsonTree)>),
}

/// Some string in the tree holds an address in some recognised form.
/// Object keys are not searched, matching the log-oriented heuristic.
pub open spec fn tree_matches(t: JsonTree) -> bool
    decreases t,
{
    match t {
        JsonTree::Str(s) => text_matches(s@),
        JsonTree::Arr(items) => exists|i: int|
            0 <= i < items@.len() && tree_matches(#[trigger] items@[i]),
        JsonTree::Obj(fields) => exists|i: int|
            0 <= i < fields@.len() && tree_matches(#[trigger] fields@[i].1),
        _ => false,
    }
}

/// `u` is the capture of the first matching string of the tree, in
/// depth-first order, children of arrays and objects left to right.
pub open spec fn is_tree_capture(t: JsonTree, u: Seq<char>) -> bool
    decreases t,
{
    match t {
        JsonTree::Str(s) => text_matches(s@) && is_text_capture(s@, u),
        JsonTree::Arr(items) => exists|i: int|
            {
                &&& 0 <= i < items@.len()
                &&& is_tree_capture(#[trigger] items@[i], u)
                &&& forall|j: int| 0 <= j < i ==> !tree_matches(items@[j])
            },
        JsonTree::Obj(fields) => exists|i: int|
            {
                &&& 0 <= i < fields@.len()
                &&& is_tree_capture(#[trigger] fields@[i].1, u)
                &&& forall|j: int| 0 <= j < i ==> !tree_matches(fields@[j].1)
            },
        _ => false,
    }
}

/// Depth-first search for the first string holding an address.
#[verifier::loop_isolation(false)]
pub fn search_json_tree(t: &JsonTree) -> (r: Option<String>)
    ensures
        r is Some <==> tree_matches(*t),
        r matches Some(u) ==> is_tree_capture(*t, u@),
    decreases *t,
{
    match t {
        JsonTree::Str(s) => detect_in_text(s.as_str()),
        JsonTree::Arr(items) => {
            let mut i: usize = 0;
            while i < items.len()
                invariant
                    i <= items@.len(),
                    forall|j: int| 0 <= j < i ==> !tree_matches(#[trigger] items@[j]),
                decreases items@.len() - i,
            {
                proof {
                    assert(decreases_to!(*t => items@[i as int]));
                }
                match search_json_tree(&items[i]) {
                    Some(u) => {
                        proof {
                            assert(tree_matches(items@[i as int]));
                            assert(tree_matches(*t));
                            assert(is_tree_capture(*t, u@));
                        }
                        return Some(u);
                    },
                    None => {},
                }
                i = i + 1;
            }
            proof {
                assert(!tree_matches(*t));
            }
            None
        },
        JsonTree::Obj(fields) => {
            let mut i: usize = 0;
            while i < fields.len()
                invariant
                    i <= fields@.len(),
                    forall|j: int| 0 <= j < i ==> !tree_matches(#[trigger] fields@[j].1),
                decreases fields@.len() - i,
            {
                proof {
                    assert(decreases_to!(*t => fields@[i as int].1));
                }
                match search_json_tree(&fields[i].1) {
                    Some(u) => {
                        proof {
                            assert(tree_matches(fields@[i as int].1));
                            assert(tree_matches(*t));
                            assert(is_tree_capture(*t, u@));
                        }
                        return Some(u);
                    },
                    None => {},
                }
                i = i + 1;
            }
            proof {
                assert(!tree_matches(*t));
            }
            None
        },
        _ => {
            proof {
                assert(!tree_matches(*t));
            }
            None
        },
    }
}

#[verifier::external_type_specification]
#[verifier::external_body]
pub struct ExJsonValue(serde_json::Value);

/// Whether a text parses as JSON: a function of the text alone.
pub uninterp spec fn json_parses(s: Seq<char>) -> bool;

/// The library's tree for a JSON text that parses: a function of the
/// text alone, since the parse and the fixed variant-by-variant
/// rebuilding below depend on nothing else.
pub uninterp spec fn json_tree_of(s: Seq<char>) -> JsonTree;

/// Relies on serde_json::from_str::<Value>: it returns Ok exactly on
/// well-formed JSON text, a function of the text alone; the rebuilt tree
/// is then a function of the text as well.
#[verifier::external_body]
fn parse_json_tree(s: &str) -> (r: Option<JsonTree>)
    ensures
        r is Some <==> json_parses(s@),
        r matches Some(t) ==> t == json_tree_of(s@),
{
    serde_json::from_str::<serde_json::Value>(s).ok().map(|v| value_to_tree(&v))
}

/// Relies on serde_json::Value's six public variants: rebuilds the value
/// as the library's own tree, one arm per variant, keeping strings and
/// structure and dropping number payloads.
#[verifier::external_body]
fn value_to_tree(v: &serde_json::Value) -> JsonTree {
    match v {
        serde_json::Value::Null => JsonTree::Null,
        serde_json::Value::Bool(b) => JsonTree::Bool(*b),
        serde_json::Value::Number(_) => JsonTree::Num,
        serde_json::Value::String(s) => JsonTree::Str(s.clone()),
        serde_json::Value::Array(items) => JsonTree::Arr(
            items.iter().map(value_to_tree).collect(),
        ),
        serde_json::Value::Object(fields) => JsonTree::Obj(
            fields.iter().map(|f: (&String, &serde_json::Value)| (f.0.clone(), value_to_tree(f.1))).collect(),
        ),
    }
}

/// Scan JSON configuration text: first the raw text, then, when the text
/// parses, the strings of the parsed document.  A text that neither
/// matches raw nor parses yields nothing; parse failures are no error.
pub fn search_tunnel_url_in_json(content: &str) -> (r: Option<String>)
    ensures
        text_matches(content@) ==> (r matches Some(u) && is_text_capture(content@, u@)),
        !text_matches(content@) && json_parses(content@) ==> {
            &&& (r is Some <==> tree_matches(json_tree_of(content@)))
            &&& (r matches Some(u) ==> is_tree_capture(json_tree_of(content@), u@))
        },
        !text_matches(content@) && !json_parses(content@) ==> r is None,
{
    match detect_in_text(content) {
        Some(u) => Some(u),
        None => {
            match parse_json_tree(content) {
                Some(tree) => search_json_tree(&tree),
                None => None,
            }
        },
    }
}

} // verus!
