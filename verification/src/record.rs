//! The records of content hashes that builds and syncs keep between runs
//! (`target/deps.json`, `target/deps-sync.json`): a JSON object from paths
//! or dependency names to hashes.
use vstd::prelude::*;
use std::collections::HashMap;
use crate::table::{pairs_map, unique_keys, StrMap};

verus! {

#[verifier::external_type_specification]
#[verifier::external_body]
pub struct ExJsonError(serde_json::Error);

/// The entries of `text` read as a JSON object whose values are all
/// strings, as `serde_json` reads it into a `HashMap<String, String>`;
/// `None` where it is not such an object.
pub uninterp spec fn json_string_map(text: Seq<char>) -> Option<Map<Seq<char>, Seq<char>>>;

/// The texts of a map's string values.
pub open spec fn value_texts(m: Map<Seq<char>, String>) -> Map<Seq<char>, Seq<char>> {
    m.map_values(|s: String| s@)
}

/// Calls `serde_json::from_str::<HashMap<String, String>>` and hands out the
/// entries of the map. Trusted: it succeeds exactly where `text` is such an
/// object, its entries (each key once) are those of the object (named
/// `json_string_map`), and the error is serde_json's own. The order of the
/// entries is the map's, which the contract leaves open.
#[verifier::external_body]
fn json_string_pairs(text: &str) -> (r: Result<Vec<(String, String)>, serde_json::Error>)
    ensures
        r is Ok <==> json_string_map(text@) is Some,
        r matches Ok(v) ==> unique_keys(v@) && value_texts(pairs_map(v@)) == json_string_map(
            text@,
        )->Some_0,
{
    match serde_json::from_str::<HashMap<String, String>>(text) {
        Ok(m) => Ok(m.into_iter().collect()),
        Err(e) => Err(e),
    }
}

/// Why a record of hashes could not be read.
pub enum RecordError {
    /// The text is not a JSON object of strings.
    Malformed(serde_json::Error),
}

/// Reads a record of hashes from its JSON text.
pub fn parse_hash_record(text: &str) -> (r: Result<StrMap<String>, RecordError>)
    ensures
        r is Ok <==> json_string_map(text@) is Some,
        r matches Ok(m) ==> value_texts(m@) == json_string_map(text@)->Some_0,
{
    match json_string_pairs(text) {
        Ok(pairs) => {
            let ghost pv = pairs@;
            match StrMap::from_pairs(pairs) {
                Some(m) => Ok(m),
                None => {
                    assert(unique_keys(pv));
                    Ok(StrMap::new())
                },
            }
        },
        Err(e) => Err(RecordError::Malformed(e)),
    }
}

} // verus!
