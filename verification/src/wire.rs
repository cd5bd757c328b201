//! The parameters of `cartridge_addExecuteOutsideTransaction` as they travel
//! in JSON: elements as `0x` texts, the two times as numbers, and each call
//! with the name of its entry point.

use crate::felt::{
    all_canonical, felt_of_hex, get_selector_from_name, lemma_hex_round_trip, selector_of_name,
    Felt,
};
use crate::hex::hex_text;
use crate::json::{last_with_name, Json};
use crate::outside_execution::{OutsideExecution, OutsideExecutionCaller, OutsideExecutionView};
use crate::session::{copy_felts, Call, CallView};
use vstd::prelude::*;
use vstd::string::StringExecFns;
use vstd::utf8::is_ascii_chars;

verus! {

/// Which part of the parameters is missing or malformed. The parts are read
/// in the order of the variants, and the first that fails is reported.
#[derive(Clone, Copy, Debug, PartialEq, Eq, Structural)]
pub enum ParamsError {
    Address,
    Signature,
    Caller,
    Nonce,
    ExecuteAfter,
    ExecuteBefore,
    Calls,
    Entrypoint,
}

impl ParamsError {
    /// The message of the error.
    pub open spec fn text(self) -> Seq<char> {
        match self {
            ParamsError::Address => "invalid params: address"@,
            ParamsError::Signature => "invalid params: signature"@,
            ParamsError::Caller => "invalid params: outside_execution.caller"@,
            ParamsError::Nonce => "invalid params: outside_execution.nonce"@,
            ParamsError::ExecuteAfter => "invalid params: outside_execution.execute_after"@,
            ParamsError::ExecuteBefore => "invalid params: outside_execution.execute_before"@,
            ParamsError::Calls => "invalid params: outside_execution.calls"@,
            ParamsError::Entrypoint => "invalid params: entrypoint is not ASCII"@,
        }
    }

    /// The message of the error.
    pub fn message(&self) -> (r: String)
        ensures
            r@ == self.text(),
    {
        match self {
            ParamsError::Address => String::from_str("invalid params: address"),
            ParamsError::Signature => String::from_str("invalid params: signature"),
            ParamsError::Caller => String::from_str("invalid params: outside_execution.caller"),
            ParamsError::Nonce => String::from_str("invalid params: outside_execution.nonce"),
            ParamsError::ExecuteAfter => String::from_str(
                "invalid params: outside_execution.execute_after",
            ),
            ParamsError::ExecuteBefore => String::from_str(
                "invalid params: outside_execution.execute_before",
            ),
            ParamsError::Calls => String::from_str("invalid params: outside_execution.calls"),
            ParamsError::Entrypoint => String::from_str("invalid params: entrypoint is not ASCII"),
        }
    }
}

/// A call as it travels: the entry point is a name.
#[derive(Debug, PartialEq, Eq)]
pub struct CallParams {
    pub contract_address: Felt,
    pub entrypoint: String,
    pub calldata: Vec<Felt>,
}

/// A travelling call as a mathematical value.
pub struct CallParamsView {
    pub contract_address: Felt,
    pub entrypoint: Seq<char>,
    pub calldata: Seq<Felt>,
}

impl View for CallParams {
    type V = CallParamsView;

    open spec fn view(&self) -> CallParamsView {
        CallParamsView {
            contract_address: self.contract_address,
            entrypoint: self.entrypoint@,
            calldata: self.calldata@,
        }
    }
}

/// The parameters as they travel.
#[derive(Debug, PartialEq, Eq)]
pub struct OutsideExecutionParams {
    pub address: Felt,
    pub caller: Felt,
    pub nonce: Felt,
    pub execute_after: u64,
    pub execute_before: u64,
    pub calls: Vec<CallParams>,
    pub signature: Vec<Felt>,
}

/// The travelling parameters as a mathematical value.
pub struct OutsideExecutionParamsView {
    pub address: Felt,
    pub caller: Felt,
    pub nonce: Felt,
    pub execute_after: u64,
    pub execute_before: u64,
    pub calls: Seq<CallParamsView>,
    pub signature: Seq<Felt>,
}

/// Travelling calls as mathematical values, in order.
pub open spec fn call_params_view(calls: Seq<CallParams>) -> Seq<CallParamsView> {
    calls.map_values(|c: CallParams| c@)
}

impl View for OutsideExecutionParams {
    type V = OutsideExecutionParamsView;

    open spec fn view(&self) -> OutsideExecutionParamsView {
        OutsideExecutionParamsView {
            address: self.address,
            caller: self.caller,
            nonce: self.nonce,
            execute_after: self.execute_after,
            execute_before: self.execute_before,
            calls: call_params_view(self.calls@),
            signature: self.signature@,
        }
    }
}

/// What a borrowed option holds.
pub open spec fn held(value: Option<&Json>) -> Option<Json> {
    match value {
        Some(v) => Some(*v),
        None => None,
    }
}

/// The member of a value that may be absent.
pub open spec fn member_of(value: Option<Json>, name: Seq<char>) -> Option<Json> {
    match value {
        Some(v) => v.field(name),
        None => None,
    }
}

/// The element that a JSON value stands for: a string that reads as one.
pub open spec fn felt_of_json(value: Option<Json>) -> Option<Felt> {
    match value {
        Some(Json::String(s)) => felt_of_hex(s@),
        _ => None,
    }
}

/// The 64-bit number that a JSON value stands for.
pub open spec fn u64_of_json(value: Option<Json>) -> Option<u64> {
    match value {
        Some(Json::Unsigned(u)) => Some(u),
        _ => None,
    }
}

/// The text that a JSON value stands for.
pub open spec fn text_of_json(value: Option<Json>) -> Option<Seq<char>> {
    match value {
        Some(Json::String(s)) => Some(s@),
        _ => None,
    }
}

/// The elements that a JSON value stands for: an array of strings that each
/// read as one.
pub open spec fn felts_of_json(value: Option<Json>) -> Option<Seq<Felt>> {
    match value {
        Some(Json::Array(items)) => if forall|i: int|
            0 <= i < items@.len() ==> felt_of_json(Some(#[trigger] items@[i])) is Some {
            Some(Seq::new(items@.len(), |i: int| felt_of_json(Some(items@[i]))->0))
        } else {
            None
        },
        _ => None,
    }
}

/// The travelling call that a JSON value stands for.
pub open spec fn call_of_json(value: Json) -> Option<CallParamsView> {
    if felt_of_json(value.field("contract_address"@)) is Some && text_of_json(
        value.field("entrypoint"@),
    ) is Some && felts_of_json(value.field("calldata"@)) is Some {
        Some(
            CallParamsView {
                contract_address: felt_of_json(value.field("contract_address"@))->0,
                entrypoint: text_of_json(value.field("entrypoint"@))->0,
                calldata: felts_of_json(value.field("calldata"@))->0,
            },
        )
    } else {
        None
    }
}

/// The travelling calls that a JSON value stands for: an array of calls.
pub open spec fn calls_of_json(value: Option<Json>) -> Option<Seq<CallParamsView>> {
    match value {
        Some(Json::Array(items)) => if forall|i: int|
            0 <= i < items@.len() ==> call_of_json(#[trigger] items@[i]) is Some {
            Some(Seq::new(items@.len(), |i: int| call_of_json(items@[i])->0))
        } else {
            None
        },
        _ => None,
    }
}

/// The parameters that a JSON value stands for, or the first part that is
/// missing or malformed.
pub open spec fn params_of_json(params: Json) -> Result<OutsideExecutionParamsView, ParamsError> {
    let execution = params.field("outside_execution"@);
    if felt_of_json(params.field("address"@)) is None {
        Err(ParamsError::Address)
    } else if felts_of_json(params.field("signature"@)) is None {
        Err(ParamsError::Signature)
    } else if felt_of_json(member_of(execution, "caller"@)) is None {
        Err(ParamsError::Caller)
    } else if felt_of_json(member_of(execution, "nonce"@)) is None {
        Err(ParamsError::Nonce)
    } else if u64_of_json(member_of(execution, "execute_after"@)) is None {
        Err(ParamsError::ExecuteAfter)
    } else if u64_of_json(member_of(execution, "execute_before"@)) is None {
        Err(ParamsError::ExecuteBefore)
    } else if calls_of_json(member_of(execution, "calls"@)) is None {
        Err(ParamsError::Calls)
    } else {
        Ok(
            OutsideExecutionParamsView {
                address: felt_of_json(params.field("address"@))->0,
                caller: felt_of_json(member_of(execution, "caller"@))->0,
                nonce: felt_of_json(member_of(execution, "nonce"@))->0,
                execute_after: u64_of_json(member_of(execution, "execute_after"@))->0,
                execute_before: u64_of_json(member_of(execution, "execute_before"@))->0,
                calls: calls_of_json(member_of(execution, "calls"@))->0,
                signature: felts_of_json(params.field("signature"@))->0,
            },
        )
    }
}

/// The call that a travelling call stands for: the name of the entry point
/// gives way to its selector.
pub open spec fn resolved_call(call: CallParamsView) -> CallView {
    CallView {
        to: call.contract_address,
        selector: selector_of_name(call.entrypoint),
        calldata: call.calldata,
    }
}

/// The account, the outside execution and the signature that travelling
/// parameters stand for. An entry point whose name is not ASCII has no
/// selector.
pub open spec fn resolved(params: OutsideExecutionParamsView) -> Result<
    (Felt, OutsideExecutionView, Seq<Felt>),
    ParamsError,
> {
    if forall|i: int|
        0 <= i < params.calls.len() ==> is_ascii_chars((#[trigger] params.calls[i]).entrypoint) {
        Ok(
            (
                params.address,
                OutsideExecutionView {
                    caller: OutsideExecutionCaller::of_felt(params.caller),
                    nonce: params.nonce,
                    execute_after: params.execute_after,
                    execute_before: params.execute_before,
                    calls: Seq::new(params.calls.len(), |i: int| resolved_call(params.calls[i])),
                },
                params.signature,
            ),
        )
    } else {
        Err(ParamsError::Entrypoint)
    }
}

/// What the relay reads out of the parameters of a request.
pub open spec fn parsed_params(params: Json) -> Result<
    (Felt, OutsideExecutionView, Seq<Felt>),
    ParamsError,
> {
    match params_of_json(params) {
        Ok(p) => resolved(p),
        Err(e) => Err(e),
    }
}

/// Reads an element.
pub fn read_felt(value: Option<&Json>) -> (r: Option<Felt>)
    ensures
        r == felt_of_json(held(value)),
{
    match value {
        Some(Json::String(s)) => Felt::from_hex(s.as_str()),
        _ => None,
    }
}

/// Reads a 64-bit number.
pub fn read_u64(value: Option<&Json>) -> (r: Option<u64>)
    ensures
        r == u64_of_json(held(value)),
{
    match value {
        Some(Json::Unsigned(u)) => Some(*u),
        _ => None,
    }
}

/// Reads an array of elements.
pub fn read_felts(value: Option<&Json>) -> (r: Option<Vec<Felt>>)
    ensures
        r is Some <==> felts_of_json(held(value)) is Some,
        r is Some ==> r->0@ == felts_of_json(held(value))->0,
{
    match value {
        Some(Json::Array(items)) => {
            let mut out: Vec<Felt> = Vec::new();
            let mut i: usize = 0;
            while i < items.len()
                invariant
                    i <= items.len(),
                    out@.len() == i,
                    held(value) == Some(Json::Array(*items)),
                    forall|j: int|
                        0 <= j < i ==> felt_of_json(Some(#[trigger] items@[j])) == Some(out@[j]),
                decreases items.len() - i,
            {
                match read_felt(Some(&items[i])) {
                    Some(f) => {
                        out.push(f);
                    },
                    None => {
                        assert(felt_of_json(Some(items@[i as int])) is None);
                        return None;
                    },
                }
                i = i + 1;
            }
            assert(out@ =~= felts_of_json(held(value))->0);
            Some(out)
        },
        _ => None,
    }
}

/// Reads a travelling call.
pub fn read_call(value: &Json) -> (r: Option<CallParams>)
    ensures
        r is Some <==> call_of_json(*value) is Some,
        r is Some ==> r->0@ == call_of_json(*value)->0,
{
    let contract_address = match read_felt(value.get("contract_address")) {
        Some(f) => f,
        None => {
            return None;
        },
    };
    let entrypoint = match value.get("entrypoint") {
        Some(Json::String(s)) => s.clone(),
        _ => {
            return None;
        },
    };
    let calldata = match read_felts(value.get("calldata")) {
        Some(c) => c,
        None => {
            return None;
        },
    };
    Some(CallParams { contract_address, entrypoint, calldata })
}

/// Reads an array of travelling calls.
pub fn read_calls(value: Option<&Json>) -> (r: Option<Vec<CallParams>>)
    ensures
        r is Some <==> calls_of_json(held(value)) is Some,
        r is Some ==> call_params_view(r->0@) == calls_of_json(held(value))->0,
{
    match value {
        Some(Json::Array(items)) => {
            let mut out: Vec<CallParams> = Vec::new();
            let mut i: usize = 0;
            while i < items.len()
                invariant
                    i <= items.len(),
                    out@.len() == i,
                    held(value) == Some(Json::Array(*items)),
                    forall|j: int|
                        0 <= j < i ==> call_of_json(#[trigger] items@[j]) == Some(out@[j]@),
                decreases items.len() - i,
            {
                match read_call(&items[i]) {
                    Some(c) => {
                        out.push(c);
                    },
                    None => {
                        assert(call_of_json(items@[i as int]) is None);
                        return None;
                    },
                }
                i = i + 1;
            }
            assert(call_params_view(out@) =~= calls_of_json(held(value))->0);
            Some(out)
        },
        _ => None,
    }
}

/// The member of a value that may be absent.
fn member<'a>(value: Option<&'a Json>, name: &str) -> (r: Option<&'a Json>)
    ensures
        held(r) == member_of(held(value), name@),
{
    match value {
        Some(v) => v.get(name),
        None => None,
    }
}

/// Reads the parameters as they travel, names and all.
pub fn decode_params(params: &Json) -> (r: Result<OutsideExecutionParams, ParamsError>)
    ensures
        r is Ok <==> params_of_json(*params) is Ok,
        r is Ok ==> r->Ok_0@ == params_of_json(*params)->Ok_0,
        r is Err ==> r->Err_0 == params_of_json(*params)->Err_0,
{
    let address = match read_felt(params.get("address")) {
        Some(f) => f,
        None => {
            return Err(ParamsError::Address);
        },
    };
    let signature = match read_felts(params.get("signature")) {
        Some(s) => s,
        None => {
            return Err(ParamsError::Signature);
        },
    };
    let execution = params.get("outside_execution");
    let caller = match read_felt(member(execution, "caller")) {
        Some(f) => f,
        None => {
            return Err(ParamsError::Caller);
        },
    };
    let nonce = match read_felt(member(execution, "nonce")) {
        Some(f) => f,
        None => {
            return Err(ParamsError::Nonce);
        },
    };
    let execute_after = match read_u64(member(execution, "execute_after")) {
        Some(t) => t,
        None => {
            return Err(ParamsError::ExecuteAfter);
        },
    };
    let execute_before = match read_u64(member(execution, "execute_before")) {
        Some(t) => t,
        None => {
            return Err(ParamsError::ExecuteBefore);
        },
    };
    let calls = match read_calls(member(execution, "calls")) {
        Some(c) => c,
        None => {
            return Err(ParamsError::Calls);
        },
    };
    Ok(
        OutsideExecutionParams {
            address,
            caller,
            nonce,
            execute_after,
            execute_before,
            calls,
            signature,
        },
    )
}

impl OutsideExecutionParams {
    /// The account, the outside execution and the signature that the
    /// parameters stand for: each entry point's name gives way to its
    /// selector.
    pub fn resolve(&self) -> (r: Result<(Felt, OutsideExecution, Vec<Felt>), ParamsError>)
        ensures
            r is Ok <==> resolved(self@) is Ok,
            r is Ok ==> r->Ok_0.0 == resolved(self@)->Ok_0.0 && r->Ok_0.1@ == resolved(
                self@,
            )->Ok_0.1 && r->Ok_0.2@ == resolved(self@)->Ok_0.2,
            r is Err ==> r->Err_0 == ParamsError::Entrypoint,
    {
        let mut calls: Vec<Call> = Vec::new();
        let mut i: usize = 0;
        while i < self.calls.len()
            invariant
                i <= self.calls.len(),
                calls@.len() == i,
                forall|j: int|
                    0 <= j < i ==> is_ascii_chars((#[trigger] self.calls@[j]).entrypoint@),
                forall|j: int| 0 <= j < i ==> (#[trigger] calls@[j])@ == resolved_call(self.calls@[j]@),
            decreases self.calls.len() - i,
        {
            let call = &self.calls[i];
            match get_selector_from_name(call.entrypoint.as_str()) {
                Ok(selector) => {
                    calls.push(
                        Call {
                            to: call.contract_address,
                            selector,
                            calldata: copy_felts(&call.calldata),
                        },
                    );
                },
                Err(_) => {
                    assert(!is_ascii_chars(call_params_view(self.calls@)[i as int].entrypoint));
                    return Err(ParamsError::Entrypoint);
                },
            }
            i = i + 1;
        }
        assert forall|j: int| 0 <= j < self@.calls.len() implies is_ascii_chars(
            (#[trigger] self@.calls[j]).entrypoint,
        ) by {
            assert(is_ascii_chars(self.calls@[j].entrypoint@));
        }
        let execution = OutsideExecution {
            caller: OutsideExecutionCaller::from_felt(self.caller),
            nonce: self.nonce,
            execute_after: self.execute_after,
            execute_before: self.execute_before,
            calls,
        };
        assert(execution@.calls =~= resolved(self@)->Ok_0.1.calls);
        Ok((self.address, execution, copy_felts(&self.signature)))
    }
}

/// Reads the parameters of a request: the account, the outside execution with
/// each entry point resolved to its selector, and the signature.
pub fn parse_execute_outside_transaction_params(params: &Json) -> (r: Result<
    (Felt, OutsideExecution, Vec<Felt>),
    ParamsError,
>)
    ensures
        r is Ok <==> parsed_params(*params) is Ok,
        r is Ok ==> r->Ok_0.0 == parsed_params(*params)->Ok_0.0 && r->Ok_0.1@ == parsed_params(
            *params,
        )->Ok_0.1 && r->Ok_0.2@ == parsed_params(*params)->Ok_0.2,
        r is Err ==> r->Err_0 == parsed_params(*params)->Err_0,
{
    match decode_params(params) {
        Ok(travelling) => travelling.resolve(),
        Err(e) => Err(e),
    }
}

/// Whether a JSON value is the string of an element.
pub open spec fn is_felt_json(value: Json, f: Felt) -> bool {
    text_of_json(Some(value)) == Some(hex_text(f.value()))
}

/// Whether a JSON value is the array of the strings of elements.
pub open spec fn is_felts_json(value: Json, felts: Seq<Felt>) -> bool {
    &&& value matches Json::Array(items)
    &&& items@.len() == felts.len()
    &&& forall|i: int| 0 <= i < felts.len() ==> is_felt_json(#[trigger] items@[i], felts[i])
}

/// Whether a JSON value is the object of a travelling call: its members are
/// `contract_address`, `entrypoint` and `calldata`.
pub open spec fn is_call_json(value: Json, call: CallParamsView) -> bool {
    &&& value matches Json::Object(members)
    &&& members@.len() == 3
    &&& members@[0].0@ == "contract_address"@
    &&& is_felt_json(members@[0].1, call.contract_address)
    &&& members@[1].0@ == "entrypoint"@
    &&& text_of_json(Some(members@[1].1)) == Some(call.entrypoint)
    &&& members@[2].0@ == "calldata"@
    &&& is_felts_json(members@[2].1, call.calldata)
}

/// Whether a JSON value is the array of the objects of travelling calls.
pub open spec fn is_calls_json(value: Json, calls: Seq<CallParamsView>) -> bool {
    &&& value matches Json::Array(items)
    &&& items@.len() == calls.len()
    &&& forall|i: int| 0 <= i < calls.len() ==> is_call_json(#[trigger] items@[i], calls[i])
}

/// Whether a JSON value is the object of the execution within travelling
/// parameters: its members are `caller`, `nonce`, `execute_after`,
/// `execute_before` and `calls`.
pub open spec fn is_execution_json(value: Json, params: OutsideExecutionParamsView) -> bool {
    &&& value matches Json::Object(members)
    &&& members@.len() == 5
    &&& members@[0].0@ == "caller"@
    &&& is_felt_json(members@[0].1, params.caller)
    &&& members@[1].0@ == "nonce"@
    &&& is_felt_json(members@[1].1, params.nonce)
    &&& members@[2].0@ == "execute_after"@
    &&& members@[2].1 == Json::Unsigned(params.execute_after)
    &&& members@[3].0@ == "execute_before"@
    &&& members@[3].1 == Json::Unsigned(params.execute_before)
    &&& members@[4].0@ == "calls"@
    &&& is_calls_json(members@[4].1, params.calls)
}

/// Whether a JSON value is the object of travelling parameters: its members
/// are `address`, `outside_execution` and `signature`.
pub open spec fn is_params_json(value: Json, params: OutsideExecutionParamsView) -> bool {
    &&& value matches Json::Object(members)
    &&& members@.len() == 3
    &&& members@[0].0@ == "address"@
    &&& is_felt_json(members@[0].1, params.address)
    &&& members@[1].0@ == "outside_execution"@
    &&& is_execution_json(members@[1].1, params)
    &&& members@[2].0@ == "signature"@
    &&& is_felts_json(members@[2].1, params.signature)
}

/// Whether every element within travelling parameters is canonical.
pub open spec fn params_canonical(params: OutsideExecutionParamsView) -> bool {
    &&& params.address.is_canonical()
    &&& params.caller.is_canonical()
    &&& params.nonce.is_canonical()
    &&& all_canonical(params.signature)
    &&& forall|i: int|
        0 <= i < params.calls.len() ==> (#[trigger] params.calls[i]).contract_address.is_canonical()
            && all_canonical(params.calls[i].calldata)
}

/// The JSON string of an element.
pub fn felt_json(f: &Felt) -> (r: Json)
    ensures
        is_felt_json(r, *f),
{
    Json::String(f.to_hex_string())
}

/// The JSON array of the strings of elements.
pub fn felts_json(felts: &Vec<Felt>) -> (r: Json)
    ensures
        is_felts_json(r, felts@),
{
    let mut items: Vec<Json> = Vec::new();
    let mut i: usize = 0;
    while i < felts.len()
        invariant
            i <= felts.len(),
            items@.len() == i,
            forall|j: int| 0 <= j < i ==> is_felt_json(#[trigger] items@[j], felts@[j]),
        decreases felts.len() - i,
    {
        items.push(felt_json(&felts[i]));
        i = i + 1;
    }
    Json::Array(items)
}

impl CallParams {
    /// The JSON object of the call.
    pub fn to_json(&self) -> (r: Json)
        ensures
            is_call_json(r, self@),
    {
        let mut members: Vec<(String, Json)> = Vec::new();
        members.push((String::from_str("contract_address"), felt_json(&self.contract_address)));
        members.push((String::from_str("entrypoint"), Json::String(self.entrypoint.clone())));
        members.push((String::from_str("calldata"), felts_json(&self.calldata)));
        Json::Object(members)
    }
}

impl OutsideExecutionParams {
    /// The JSON object of the parameters.
    pub fn to_json(&self) -> (r: Json)
        ensures
            is_params_json(r, self@),
    {
        let mut calls: Vec<Json> = Vec::new();
        let mut i: usize = 0;
        while i < self.calls.len()
            invariant
                i <= self.calls.len(),
                calls@.len() == i,
                forall|j: int| 0 <= j < i ==> is_call_json(#[trigger] calls@[j], self.calls@[j]@),
            decreases self.calls.len() - i,
        {
            calls.push(self.calls[i].to_json());
            i = i + 1;
        }
        let calls_json = Json::Array(calls);
        assert(is_calls_json(calls_json, self@.calls)) by {
            assert forall|j: int| 0 <= j < self@.calls.len() implies is_call_json(
                #[trigger] calls@[j],
                self@.calls[j],
            ) by {
                assert(self@.calls[j] == self.calls@[j]@);
            }
        }
        let mut execution: Vec<(String, Json)> = Vec::new();
        execution.push((String::from_str("caller"), felt_json(&self.caller)));
        execution.push((String::from_str("nonce"), felt_json(&self.nonce)));
        execution.push((String::from_str("execute_after"), Json::Unsigned(self.execute_after)));
        execution.push((String::from_str("execute_before"), Json::Unsigned(self.execute_before)));
        execution.push((String::from_str("calls"), calls_json));
        let execution_json = Json::Object(execution);
        assert(is_execution_json(execution_json, self@));
        let mut members: Vec<(String, Json)> = Vec::new();
        members.push((String::from_str("address"), felt_json(&self.address)));
        members.push((String::from_str("outside_execution"), execution_json));
        members.push((String::from_str("signature"), felts_json(&self.signature)));
        Json::Object(members)
    }
}

/// The member that a name finds is the last member with that name.
pub proof fn lemma_member_found(members: Seq<(String, Json)>, i: int, name: Seq<char>)
    requires
        0 <= i < members.len(),
        members[i].0@ == name,
        forall|j: int| i < j < members.len() ==> (#[trigger] members[j]).0@ != name,
    ensures
        last_with_name(members, name) == Some(members[i].1),
    decreases members.len(),
{
    if i < members.len() - 1 {
        let rest = members.drop_last();
        assert(members.last() == members[members.len() - 1]);
        assert forall|j: int| i < j < rest.len() implies (#[trigger] rest[j]).0@ != name by {
            assert(rest[j] == members[j]);
        }
        assert(rest[i] == members[i]);
        lemma_member_found(rest, i, name);
    }
}

/// The names of the members differ from one another.
proof fn lemma_names_differ()
    ensures
        "address"@ != "outside_execution"@,
        "address"@ != "signature"@,
        "outside_execution"@ != "signature"@,
        "caller"@ != "nonce"@,
        "caller"@ != "execute_after"@,
        "caller"@ != "execute_before"@,
        "caller"@ != "calls"@,
        "nonce"@ != "execute_after"@,
        "nonce"@ != "execute_before"@,
        "nonce"@ != "calls"@,
        "execute_after"@ != "execute_before"@,
        "execute_after"@ != "calls"@,
        "execute_before"@ != "calls"@,
        "contract_address"@ != "entrypoint"@,
        "contract_address"@ != "calldata"@,
        "entrypoint"@ != "calldata"@,
{
    reveal_strlit("address");
    reveal_strlit("outside_execution");
    reveal_strlit("signature");
    reveal_strlit("caller");
    reveal_strlit("nonce");
    reveal_strlit("execute_after");
    reveal_strlit("execute_before");
    reveal_strlit("calls");
    reveal_strlit("contract_address");
    reveal_strlit("entrypoint");
    reveal_strlit("calldata");
    assert("address"@.len() == 7);
    assert("outside_execution"@.len() == 17);
    assert("signature"@.len() == 9);
    assert("caller"@.len() == 6);
    assert("nonce"@.len() == 5);
    assert("execute_after"@.len() == 13);
    assert("execute_before"@.len() == 14);
    assert("calls"@.len() == 5);
    assert("contract_address"@.len() == 16);
    assert("entrypoint"@.len() == 10);
    assert("calldata"@.len() == 8);
    assert("nonce"@[0] == 'n' && "calls"@[0] == 'c');
}

/// The string of a canonical element reads as that element.
pub proof fn lemma_felt_json_reads_back(value: Json, f: Felt)
    requires
        is_felt_json(value, f),
        f.is_canonical(),
    ensures
        felt_of_json(Some(value)) == Some(f),
{
    lemma_hex_round_trip(f);
}

/// The array of the strings of canonical elements reads as those elements.
pub proof fn lemma_felts_json_reads_back(value: Json, felts: Seq<Felt>)
    requires
        is_felts_json(value, felts),
        all_canonical(felts),
    ensures
        felts_of_json(Some(value)) == Some(felts),
{
    let items = value->Array_0;
    assert forall|i: int| 0 <= i < items@.len() implies felt_of_json(Some(#[trigger] items@[i]))
        == Some(felts[i]) by {
        lemma_felt_json_reads_back(items@[i], felts[i]);
    }
    assert(felts_of_json(Some(value))->0 =~= felts);
}

/// The object of a travelling call with canonical elements reads as that
/// call.
pub proof fn lemma_call_json_reads_back(value: Json, call: CallParamsView)
    requires
        is_call_json(value, call),
        call.contract_address.is_canonical(),
        all_canonical(call.calldata),
    ensures
        call_of_json(value) == Some(call),
{
    let members = value->Object_0@;
    lemma_names_differ();
    lemma_member_found(members, 0, "contract_address"@);
    lemma_member_found(members, 1, "entrypoint"@);
    lemma_member_found(members, 2, "calldata"@);
    lemma_felt_json_reads_back(members[0].1, call.contract_address);
    lemma_felts_json_reads_back(members[2].1, call.calldata);
}

/// Writing travelling parameters as JSON and reading the JSON gives the same
/// parameters back, and so the same account, outside execution and signature,
/// with every entry point's name resolved to its selector.
pub proof fn lemma_params_round_trip(value: Json, params: OutsideExecutionParamsView)
    requires
        is_params_json(value, params),
        params_canonical(params),
    ensures
        params_of_json(value) is Ok,
        params_of_json(value)->Ok_0 == params,
        parsed_params(value) == resolved(params),
{
    let members = value->Object_0@;
    lemma_names_differ();
    lemma_member_found(members, 0, "address"@);
    lemma_member_found(members, 1, "outside_execution"@);
    lemma_member_found(members, 2, "signature"@);
    lemma_felt_json_reads_back(members[0].1, params.address);
    lemma_felts_json_reads_back(members[2].1, params.signature);
    let execution = members[1].1;
    let inner = execution->Object_0@;
    lemma_member_found(inner, 0, "caller"@);
    lemma_member_found(inner, 1, "nonce"@);
    lemma_member_found(inner, 2, "execute_after"@);
    lemma_member_found(inner, 3, "execute_before"@);
    lemma_member_found(inner, 4, "calls"@);
    lemma_felt_json_reads_back(inner[0].1, params.caller);
    lemma_felt_json_reads_back(inner[1].1, params.nonce);
    let items = inner[4].1->Array_0;
    assert forall|i: int| 0 <= i < items@.len() implies call_of_json(#[trigger] items@[i])
        == Some(params.calls[i]) by {
        lemma_call_json_reads_back(items@[i], params.calls[i]);
    }
    assert(calls_of_json(Some(inner[4].1))->0 =~= params.calls);
    assert(params_of_json(value)->Ok_0 == params);
}

} // verus!
