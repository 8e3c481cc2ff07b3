//! The serialized form of the store: trusted bindings to `serde_json`,
//! shared by the store's load and save paths.

use vstd::prelude::*;

use crate::store::{as_map, keys_distinct};

verus! {

/// What serializing a store with mapping `m` produces: the text written to
/// the store file.
pub uninterp spec fn json_of(m: Map<Seq<char>, Seq<char>>) -> Seq<char>;

/// What a store file's text deserializes to: the mapping it holds, or
/// nothing when the text is not a valid serialized store.
pub uninterp spec fn marks_of_json(s: Seq<char>) -> Option<Map<Seq<char>, Seq<char>>>;

#[verifier::external_type_specification]
#[verifier::external_body]
pub struct ExSerdeJsonError(serde_json::Error);

/// Relies on `serde_json::to_string` over an ordered map of strings: the
/// text depends only on the name-to-path mapping the entries denote (on a
/// duplicated name the later entry wins, as in `as_map`), serializing a map
/// of strings into a `String` cannot fail, and deserializing the text it
/// produces yields that mapping back (string escaping round-trips).
#[verifier::external_body]
pub(crate) fn entries_to_json(entries: &Vec<(String, String)>) -> (r: String)
    ensures
        r@ == json_of(as_map(entries@)),
        marks_of_json(r@) == Some(as_map(entries@)),
{
    let map: std::collections::BTreeMap<&str, &str> = entries.iter().map(
        |e| (e.0.as_str(), e.1.as_str()),
    ).collect();
    serde_json::to_string(&map).expect("a map of strings serializes without error")
}

/// Relies on `serde_json::from_str::<BTreeMap<String, String>>`: it succeeds
/// exactly on the texts that hold a JSON object whose values are strings,
/// the mapping it returns depends on the text alone, and the entries it
/// hands back carry pairwise distinct names.
#[verifier::external_body]
pub(crate) fn entries_from_json(s: &str) -> (r: Result<
    Vec<(String, String)>,
    serde_json::Error,
>)
    ensures
        r is Ok <==> marks_of_json(s@) is Some,
        r matches Ok(v) ==> keys_distinct(v@) && Some(as_map(v@)) == marks_of_json(s@),
{
    serde_json::from_str::<std::collections::BTreeMap<String, String>>(s).map(
        |m| m.into_iter().collect(),
    )
}

} // verus!
