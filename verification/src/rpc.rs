//! The JSON-RPC request texts and the contract-presence decision.
//!
//! The library never talks to the network itself: it hands the
//! caller the exact request body to POST and judges the response
//! values the caller brings back.
use vstd::prelude::*;
use vstd::string::StringExecFns;

verus! {

/// The `eth_getCode` request body for one address.
pub open spec fn spec_get_code_body(address: Seq<char>) -> Seq<char> {
    "{\"jsonrpc\":\"2.0\",\"method\":\"eth_getCode\",\"params\":[\""@ + address
        + "\",\"latest\"],\"id\":1}"@
}

/// The `eth_getLogs` request body for one address, always the full
/// range from genesis to the latest block: every cycle re-scans, no
/// cursor is kept.
pub open spec fn spec_get_logs_body(address: Seq<char>) -> Seq<char> {
    "{\"jsonrpc\":\"2.0\",\"method\":\"eth_getLogs\",\"params\":[{\"address\":\""@ + address
        + "\",\"fromBlock\":\"0x0\",\"toBlock\":\"latest\"}],\"id\":1}"@
}

/// Whether a returned code string means a deployed contract: any
/// code other than the empty-code sentinels `0x` and `0x0` and the
/// empty string.
pub open spec fn spec_deployed(code: Seq<char>) -> bool {
    code != "0x"@ && code != "0x0"@ && code.len() != 0
}

/// Builds the `eth_getCode` request body, [`spec_get_code_body`]
/// exactly.
pub fn get_code_request(address: &str) -> (r: String)
    ensures
        r@ == spec_get_code_body(address@),
{
    let mut body = String::new();
    body.append("{\"jsonrpc\":\"2.0\",\"method\":\"eth_getCode\",\"params\":[\"");
    body.append(address);
    body.append("\",\"latest\"],\"id\":1}");
    body
}

/// Builds the `eth_getLogs` request body, [`spec_get_logs_body`]
/// exactly.
pub fn get_logs_request(address: &str) -> (r: String)
    ensures
        r@ == spec_get_logs_body(address@),
{
    let mut body = String::new();
    body.append("{\"jsonrpc\":\"2.0\",\"method\":\"eth_getLogs\",\"params\":[{\"address\":\"");
    body.append(address);
    body.append("\",\"fromBlock\":\"0x0\",\"toBlock\":\"latest\"}],\"id\":1}");
    body
}

/// Judges the code string an `eth_getCode` call returned,
/// [`spec_deployed`] exactly.
pub fn code_indicates_deployment(code: &str) -> (r: bool)
    ensures
        r == spec_deployed(code@),
{
    let c = code.to_owned();
    let empty_sentinel = c == "0x".to_owned();
    let zero_sentinel = c == "0x0".to_owned();
    !empty_sentinel && !zero_sentinel && !code.is_empty()
}

} // verus!
