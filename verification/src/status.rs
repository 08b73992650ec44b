use vstd::prelude::*;
use crate::error::ScanError;
use crate::metrics::{format_metrics, format_spec};

verus! {

/// The fields of a decoded status response that the metrics need.
#[derive(Clone, Copy, Debug, PartialEq, Eq, Structural)]
pub struct ServerStatus {
    /// `players.online` of the response document.
    pub online: u64,
    /// `players.max` of the response document.
    pub max: u64,
    /// How many entries `modinfo.modList` has.
    pub mod_count: u64,
}

/// The projection the external JSON decoder computes from a payload: `None`
/// exactly when the bytes are not a JSON document carrying a string
/// `description.text`, non-negative integers `players.online` and
/// `players.max`, and a list `modinfo.modList` (only its length is kept).
pub uninterp spec fn status_of(payload: Seq<u8>) -> Option<ServerStatus>;

/// Relies on serde_json — `from_slice` to a `Value`, indexing (which yields
/// `Null` for an absent or mismatched path, never panics), `as_str`,
/// `as_u64` and `as_array` — whose result depends on the payload bytes
/// alone.
#[verifier::external_body]
fn parse_status(payload: &[u8]) -> (r: Result<ServerStatus, String>)
    ensures
        r is Ok <==> status_of(payload@) is Some,
        r matches Ok(st) ==> status_of(payload@) == Some(st),
{
    let v: serde_json::Value = match serde_json::from_slice(payload) {
        Ok(v) => v,
        Err(e) => return Err(e.to_string()),
    };
    if v["description"]["text"].as_str().is_none() { return Err(String::from("description.text: not a string")) };
    let online = match v["players"]["online"].as_u64() { Some(x) => x, None => return Err(String::from("players.online: not a non-negative integer")) };
    let max = match v["players"]["max"].as_u64() { Some(x) => x, None => return Err(String::from("players.max: not a non-negative integer")) };
    let mods = match v["modinfo"]["modList"].as_array() { Some(l) => l, None => return Err(String::from("modinfo.modList: not a list")) };
    Ok(ServerStatus { online, max, mod_count: mods.len() as u64 })
}

/// Decode a payload, mapping a decoder failure to the scan's error kind.
pub fn decode_status(payload: &[u8]) -> (r: Result<ServerStatus, ScanError>)
    ensures
        r is Ok <==> status_of(payload@) is Some,
        r matches Ok(st) ==> status_of(payload@) == Some(st),
        r matches Err(e) ==> e is JsonParseError,
{
    match parse_status(payload) {
        Ok(st) => Ok(st),
        Err(msg) => Err(ScanError::JsonParseError(msg)),
    }
}

/// Decode a payload and render its metrics text: the pure tail of a scan.
pub fn process_payload(payload: &[u8]) -> (r: Result<String, ScanError>)
    ensures
        r is Ok <==> status_of(payload@) is Some,
        r matches Ok(text) ==> text@ == format_spec(status_of(payload@)->Some_0),
        r matches Err(e) ==> e is JsonParseError,
{
    match decode_status(payload) {
        Ok(st) => Ok(format_metrics(&st)),
        Err(e) => Err(e),
    }
}

} // verus!
