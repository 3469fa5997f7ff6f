//! Service probe: liveness and model enumeration, every failure path
//! folded into the returned status rather than raised.

use vstd::prelude::*;
use crate::http_success;

verus! {

/// What one probe round reports.  Produced fresh by each call and never
/// persisted.
pub struct OllamaStatus {
    pub running: bool,
    pub models_available: bool,
    pub models: Vec<String>,
}

/// The outcome of one HTTP call at the transport level: the status code,
/// or nothing when the transport itself failed.
pub type HttpOutcome = Option<u16>;

/// A reachable server answered with a success status.
pub open spec fn probe_ok(version: HttpOutcome) -> bool {
    version matches Some(s) && http_success(s)
}

/// Names what serde_json's `from_slice` yields for a model-list body: the
/// `name` string of every entry of its `models` array, in order, or
/// nothing when the body is not JSON.  A body whose `models` field is
/// missing or not an array yields the empty sequence.
pub uninterp spec fn models_of(body: Seq<u8>) -> Option<Seq<Seq<char>>>;

pub open spec fn string_views(v: Seq<String>) -> Seq<Seq<char>> {
    v.map_values(|s: String| s@)
}

/// Relies on serde_json::from_slice on a Value, Value::get, Value::as_array
/// and Value::as_str: reads the `name` field of each `models` entry.
#[verifier::external_body]
fn parse_models(body: &[u8]) -> (r: Option<Vec<String>>)
    ensures
        r is Some <==> models_of(body@) is Some,
        r matches Some(v) ==> models_of(body@) == Some(string_views(v@)),
{
    match serde_json::from_slice::<serde_json::Value>(body) {
        Ok(data) => Some(match data.get("models").and_then(|m| m.as_array()) {
            Some(arr) => arr
                .iter()
                .filter_map(|m| m.get("name").and_then(|n| n.as_str()).map(String::from))
                .collect(),
            None => Vec::new(),
        }),
        Err(_) => None,
    }
}

/// The liveness answer: `true` exactly when the server both answered and
/// answered with success.  Never an error.
pub fn ping_result(version: HttpOutcome) -> (r: bool)
    ensures
        r == probe_ok(version),
{
    match version {
        Some(s) => 200 <= s && s < 300,
        None => false,
    }
}

/// Build the status a probe round reports.
///
/// Liveness and model enumeration are decoupled: a failed or unreachable
/// version check reports a stopped server with no models; a live server
/// whose model-list call failed, answered with a non-success status or
/// sent a body that is not JSON still reports `running`, with
/// `models_available` false and no models.  `models_available` holds
/// exactly when the parsed model list is non-empty.
pub fn status_from(version: HttpOutcome, tags: HttpOutcome, tags_body: &[u8]) -> (r: OllamaStatus)
    ensures
        r.running == probe_ok(version),
        !probe_ok(version) ==> !r.models_available && r.models@.len() == 0,
        probe_ok(version) && !probe_ok(tags) ==> !r.models_available && r.models@.len() == 0,
        probe_ok(version) && probe_ok(tags) ==> match models_of(tags_body@) {
            None => !r.models_available && r.models@.len() == 0,
            Some(m) => string_views(r.models@) == m && r.models_available == (m.len() > 0),
        },
{
    if !ping_result(version) {
        return OllamaStatus { running: false, models_available: false, models: Vec::new() };
    }
    if !ping_result(tags) {
        return OllamaStatus { running: true, models_available: false, models: Vec::new() };
    }
    match parse_models(tags_body) {
        None => OllamaStatus { running: true, models_available: false, models: Vec::new() },
        Some(models) => {
            let available = models.len() > 0;
            OllamaStatus { running: true, models_available: available, models }
        },
    }
}

} // verus!
