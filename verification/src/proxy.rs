//! The relay proxy's decisions. One method is taken out of the traffic and
//! turned into a call that the relayer's account submits; every other request
//! goes to the upstream endpoint as it came.

use crate::felt::{selector_of_name, Felt};
use crate::json::{json_value, Json};
use crate::outside_execution::{relay_call, relay_calldata};
use crate::session::{Call, CallView};
use crate::wire::{
    felt_json, is_felt_json, member_of, parse_execute_outside_transaction_params, parsed_params,
    text_of_json, ParamsError,
};
use vstd::prelude::*;
use vstd::string::StringExecFns;

verus! {

/// The code of the error that reports a failed execution.
pub const EXECUTION_ERROR: i64 = -32000;

/// The code of the error that reports malformed parameters.
pub const INVALID_PARAMS: i64 = -32602;

/// What the proxy does with a request.
#[derive(Debug, PartialEq, Eq)]
pub enum ProxyAction {
    /// Send these bytes, the request as it came, to the upstream endpoint and
    /// hand its response back as it comes.
    Forward(Vec<u8>),
    /// Submit the call through the relayer's account, then answer the
    /// request of this id with the outcome.
    Relay { call: Call, id: Json },
    /// Answer at once with this value.
    Reply(Json),
}

/// Whether a request asks for the relay of an outside execution: it is JSON
/// whose `method` is the string `cartridge_addExecuteOutsideTransaction`.
pub open spec fn is_relay_request(body: Option<Json>) -> bool {
    text_of_json(member_of(body, "method"@)) == Some("cartridge_addExecuteOutsideTransaction"@)
}

/// A member that may be absent, with `null` in its place.
pub open spec fn or_null(value: Option<Json>) -> Json {
    match value {
        Some(v) => v,
        None => Json::Null,
    }
}

/// Whether a JSON value is the string of a text.
pub open spec fn is_text_json(value: Json, text: Seq<char>) -> bool {
    text_of_json(Some(value)) == Some(text)
}

/// Whether a JSON value is the answer to a relayed request: version, the id
/// of the request, and the transaction hash as result.
pub open spec fn is_success_response(value: Json, id: Json, transaction_hash: Felt) -> bool {
    &&& value matches Json::Object(members)
    &&& members@.len() == 3
    &&& members@[0].0@ == "jsonrpc"@
    &&& is_text_json(members@[0].1, "2.0"@)
    &&& members@[1].0@ == "id"@
    &&& members@[1].1 == id
    &&& members@[2].0@ == "result"@
    &&& is_felt_json(members@[2].1, transaction_hash)
}

/// Whether a JSON value reports a failed execution: version and an error of
/// code -32000 with the cause as data. It carries no id.
pub open spec fn is_execution_error_response(value: Json, cause: Seq<char>) -> bool {
    &&& value matches Json::Object(members)
    &&& members@.len() == 2
    &&& members@[0].0@ == "jsonrpc"@
    &&& is_text_json(members@[0].1, "2.0"@)
    &&& members@[1].0@ == "error"@
    &&& members@[1].1 matches Json::Object(error)
    &&& error@.len() == 3
    &&& error@[0].0@ == "code"@
    &&& error@[0].1 == Json::Signed(EXECUTION_ERROR)
    &&& error@[1].0@ == "message"@
    &&& is_text_json(error@[1].1, "Execution error"@)
    &&& error@[2].0@ == "data"@
    &&& is_text_json(error@[2].1, cause)
}

/// Whether a JSON value reports malformed parameters: version, the id of the
/// request, and an error of code -32602 with a message.
pub open spec fn is_params_error_response(value: Json, id: Json, message: Seq<char>) -> bool {
    &&& value matches Json::Object(members)
    &&& members@.len() == 3
    &&& members@[0].0@ == "jsonrpc"@
    &&& is_text_json(members@[0].1, "2.0"@)
    &&& members@[1].0@ == "id"@
    &&& members@[1].1 == id
    &&& members@[2].0@ == "error"@
    &&& members@[2].1 matches Json::Object(error)
    &&& error@.len() == 2
    &&& error@[0].0@ == "code"@
    &&& error@[0].1 == Json::Signed(INVALID_PARAMS)
    &&& error@[1].0@ == "message"@
    &&& is_text_json(error@[1].1, message)
}

/// The answer to a relayed request whose transaction was accepted.
pub fn success_response(id: Json, transaction_hash: &Felt) -> (r: Json)
    ensures
        is_success_response(r, id, *transaction_hash),
{
    let mut members: Vec<(String, Json)> = Vec::new();
    members.push((String::from_str("jsonrpc"), Json::String(String::from_str("2.0"))));
    members.push((String::from_str("id"), id));
    members.push((String::from_str("result"), felt_json(transaction_hash)));
    Json::Object(members)
}

/// The answer to a relayed request whose execution failed.
pub fn execution_error_response(cause: &str) -> (r: Json)
    ensures
        is_execution_error_response(r, cause@),
{
    let mut error: Vec<(String, Json)> = Vec::new();
    error.push((String::from_str("code"), Json::Signed(EXECUTION_ERROR)));
    error.push((String::from_str("message"), Json::String(String::from_str("Execution error"))));
    error.push((String::from_str("data"), Json::String(String::from_str(cause))));
    let mut members: Vec<(String, Json)> = Vec::new();
    members.push((String::from_str("jsonrpc"), Json::String(String::from_str("2.0"))));
    members.push((String::from_str("error"), Json::Object(error)));
    Json::Object(members)
}

/// The answer to a request whose parameters are malformed.
pub fn params_error_response(id: Json, error: &ParamsError) -> (r: Json)
    ensures
        is_params_error_response(r, id, error.text()),
{
    let mut inner: Vec<(String, Json)> = Vec::new();
    inner.push((String::from_str("code"), Json::Signed(INVALID_PARAMS)));
    inner.push((String::from_str("message"), Json::String(error.message())));
    let mut members: Vec<(String, Json)> = Vec::new();
    members.push((String::from_str("jsonrpc"), Json::String(String::from_str("2.0"))));
    members.push((String::from_str("id"), id));
    members.push((String::from_str("error"), Json::Object(inner)));
    Json::Object(members)
}

/// The answer to a relayed request, once the relayer's account has submitted
/// the call: the transaction hash, or the cause of the failure.
pub fn relay_response(id: Json, outcome: Result<Felt, String>) -> (r: Json)
    ensures
        outcome is Ok ==> is_success_response(r, id, outcome->Ok_0),
        outcome is Err ==> is_execution_error_response(r, outcome->Err_0@),
{
    match outcome {
        Ok(transaction_hash) => success_response(id, &transaction_hash),
        Err(cause) => execution_error_response(cause.as_str()),
    }
}

/// Whether a parsed request asks for the relay of an outside execution.
fn asks_for_relay(body: &Option<Json>) -> (r: bool)
    ensures
        r == is_relay_request(*body),
{
    match body {
        Some(json) => match json.get("method") {
            Some(Json::String(method)) => {
                *method == String::from_str("cartridge_addExecuteOutsideTransaction")
            },
            _ => false,
        },
        None => false,
    }
}

/// Whether an action is the one that a request calls for. A request that asks
/// for no relay is forwarded as it came. One that asks for a relay is
/// answered at once where its parameters are malformed, with the id of the
/// request; else the call is relayed that its parameters stand for.
pub open spec fn follows_request(action: ProxyAction, body: Vec<u8>, parsed: Option<Json>) -> bool {
    if !is_relay_request(parsed) {
        action == ProxyAction::Forward(body)
    } else {
        let id = or_null(member_of(parsed, "id"@));
        match parsed_params(or_null(member_of(parsed, "params"@))) {
            Ok((address, execution, signature)) => {
                &&& action matches ProxyAction::Relay { call, id: sent }
                &&& sent == id
                &&& call@ == (CallView {
                    to: address,
                    selector: selector_of_name("execute_from_outside_v2"@),
                    calldata: relay_calldata(execution, signature),
                })
            },
            Err(e) => {
                &&& action matches ProxyAction::Reply(answer)
                &&& is_params_error_response(answer, id, e.text())
            },
        }
    }
}

/// Decides what to do with a request that was parsed.
pub fn route_parsed(body: Vec<u8>, parsed: Option<Json>) -> (r: ProxyAction)
    ensures
        follows_request(r, body, parsed),
{
    if !asks_for_relay(&parsed) {
        return ProxyAction::Forward(body);
    }
    match parsed {
        Some(json) => {
            let null = Json::Null;
            let outcome = match json.get("params") {
                Some(params) => parse_execute_outside_transaction_params(params),
                None => parse_execute_outside_transaction_params(&null),
            };
            let id = match json.take("id") {
                Some(id) => id,
                None => Json::Null,
            };
            match outcome {
                Ok((address, execution, signature)) => ProxyAction::Relay {
                    call: relay_call(address, &execution, &signature),
                    id,
                },
                Err(e) => ProxyAction::Reply(params_error_response(id, &e)),
            }
        },
        None => ProxyAction::Forward(body),
    }
}

/// Decides what to do with a request. A body that is no JSON, or whose method
/// is any other, is forwarded as it came.
pub fn route_request(body: Vec<u8>) -> (r: ProxyAction)
    ensures
        follows_request(r, body, json_value(body@)),
{
    let parsed = Json::parse(body.as_slice());
    route_parsed(body, parsed)
}

} // verus!
