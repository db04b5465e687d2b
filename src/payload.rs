//! Reading the configuration payload: a JSON object whose keys are signal
//! numbers written as strings, and whose values map module names to arrays
//! of keywords.

use std::collections::{BTreeMap, BTreeSet};

use vstd::prelude::*;

use crate::policy::{setConfig, NativeAirBagConfig};
use crate::state::AirbagError;

verus! {

/// The entries that the JSON text `text` describes, in ascending signal
/// order with modules and keywords in ascending order, or `None` when the
/// text is not such an object.
pub uninterp spec fn json_signal_config(text: Seq<char>) -> Option<
    Seq<(i32, Seq<(Seq<char>, Seq<Seq<char>>)>)>,
>;

/// Relies on serde_json::from_str, into ordered maps and sets: it reads the
/// payload, or fails on text that is not such an object. Ordered collections
/// make the entries, and so the result, depend on the text alone.
#[verifier::external_body]
fn read_signal_config(text: &str) -> (r: Option<Vec<(i32, Vec<(String, Vec<String>)>)>>)
    ensures
        match r {
            Some(v) => json_signal_config(text@) == Some(v.deep_view()),
            None => json_signal_config(text@) is None,
        },
{
    let m: Option<BTreeMap<i32, BTreeMap<String, BTreeSet<String>>>> = serde_json::from_str(
        text,
    ).ok();
    m.map(|m| m.into_iter().map(|(s, e)| (s, e.into_iter().map(|(n, k)| (n, k.into_iter().collect())).collect())).collect())
}

/// Reads a configuration payload; text that does not describe one is
/// reported as malformed.
pub fn parse_config(text: &str) -> (r: Result<NativeAirBagConfig, AirbagError>)
    ensures
        match json_signal_config(text@) {
            Some(entries) => r matches Ok(c) && c@ == entries,
            None => r matches Err(AirbagError::ConfigurationMalformed),
        },
{
    match read_signal_config(text) {
        Some(entries) => Ok(setConfig(entries)),
        None => Err(AirbagError::ConfigurationMalformed),
    }
}

} // verus!
