//! Outside executions: a bundle of calls with a validity window that anyone
//! who pays for it may submit, once the account's signer has signed it.

use crate::felt::{
    all_canonical, felt_of_short_string, get_selector_from_name, selector_of_name,
    short_string_value, Felt,
};
use crate::session::{calls_view, copy_calls, Call, CallView};
use vstd::prelude::*;
use vstd::utf8::is_ascii_chars;

verus! {

/// The element that stands for "any caller": the short string `ANY_CALLER`.
pub open spec fn any_caller() -> Felt {
    Felt::with_value(0x414e_595f_4341_4c4c_4552)
}

/// The element that stands for a length or a 64-bit number.
pub open spec fn felt_of_u64(x: u64) -> Felt {
    Felt::with_value(x as nat)
}

/// Who may submit an outside execution.
#[derive(Clone, Copy, Debug, PartialEq, Eq, Structural)]
pub enum OutsideExecutionCaller {
    /// Anyone.
    Any,
    /// Only the account at this address.
    Specific(Felt),
}

impl OutsideExecutionCaller {
    /// The element that the caller restriction is written as.
    pub open spec fn as_felt(self) -> Felt {
        match self {
            OutsideExecutionCaller::Any => any_caller(),
            OutsideExecutionCaller::Specific(address) => address,
        }
    }

    /// The caller restriction that an element is read as.
    pub open spec fn of_felt(f: Felt) -> OutsideExecutionCaller {
        if f == any_caller() {
            OutsideExecutionCaller::Any
        } else {
            OutsideExecutionCaller::Specific(f)
        }
    }

    /// The element that stands for "any caller".
    pub fn any_caller_felt() -> (r: Felt)
        ensures
            r == any_caller(),
            r.is_canonical(),
            r.value() == 0x414e_595f_4341_4c4c_4552,
    {
        match Felt::from_be_digits([0, 0, 0x414e, 0x595f_4341_4c4c_4552]) {
            Some(f) => {
                assert(f.digits()[2] == 0x414e && f.digits()[3] == 0x595f_4341_4c4c_4552);
                f
            },
            None => Felt::zero(),
        }
    }

    /// The element that the caller restriction is written as.
    pub fn to_felt(&self) -> (r: Felt)
        ensures
            r == self.as_felt(),
    {
        match self {
            OutsideExecutionCaller::Any => OutsideExecutionCaller::any_caller_felt(),
            OutsideExecutionCaller::Specific(address) => *address,
        }
    }

    /// The caller restriction that an element is read as.
    pub fn from_felt(f: Felt) -> (r: OutsideExecutionCaller)
        ensures
            r == OutsideExecutionCaller::of_felt(f),
    {
        if f == OutsideExecutionCaller::any_caller_felt() {
            OutsideExecutionCaller::Any
        } else {
            OutsideExecutionCaller::Specific(f)
        }
    }
}

/// The element for "any caller" is the short string `ANY_CALLER`.
pub proof fn lemma_any_caller_is_a_short_string()
    ensures
        felt_of_short_string("ANY_CALLER"@) is Ok,
        felt_of_short_string("ANY_CALLER"@)->Ok_0 == any_caller(),
        any_caller().is_canonical(),
        any_caller().value() == short_string_value("ANY_CALLER"@),
{
    crate::felt::lemma_value_of_with_value(0x414e_595f_4341_4c4c_4552);
    reveal_strlit("ANY_CALLER");
    let text = "ANY_CALLER"@;
    assert(text.len() == 10);
    assert(text[0] == 'A' && text[1] == 'N' && text[2] == 'Y' && text[3] == '_' && text[4] == 'C'
        && text[5] == 'A' && text[6] == 'L' && text[7] == 'L' && text[8] == 'E' && text[9] == 'R');
    assert(is_ascii_chars(text));
    lemma_short_string_prefix(text, 1);
    lemma_short_string_prefix(text, 2);
    lemma_short_string_prefix(text, 3);
    lemma_short_string_prefix(text, 4);
    lemma_short_string_prefix(text, 5);
    lemma_short_string_prefix(text, 6);
    lemma_short_string_prefix(text, 7);
    lemma_short_string_prefix(text, 8);
    lemma_short_string_prefix(text, 9);
    lemma_short_string_prefix(text, 10);
    assert(text.subrange(0, 0).len() == 0);
    assert(short_string_value(text.subrange(0, 0)) == 0);
    assert(text.subrange(0, 10) =~= text);
    assert(short_string_value(text) == 0x414e_595f_4341_4c4c_4552);
}

/// The value of a prefix of a text grows by its last character.
proof fn lemma_short_string_prefix(text: Seq<char>, n: int)
    requires
        1 <= n <= text.len(),
    ensures
        short_string_value(text.subrange(0, n)) == short_string_value(text.subrange(0, n - 1)) * 256
            + text[n - 1] as nat,
{
    let prefix = text.subrange(0, n);
    assert(prefix.drop_last() =~= text.subrange(0, n - 1));
    assert(prefix.last() == text[n - 1]);
}

/// A bundle of calls that may be executed for the account between two times
/// by the caller it names, once, under its nonce.
#[derive(Debug, PartialEq, Eq)]
pub struct OutsideExecution {
    pub caller: OutsideExecutionCaller,
    pub nonce: Felt,
    pub execute_after: u64,
    pub execute_before: u64,
    pub calls: Vec<Call>,
}

/// An outside execution as a mathematical value.
pub struct OutsideExecutionView {
    pub caller: OutsideExecutionCaller,
    pub nonce: Felt,
    pub execute_after: u64,
    pub execute_before: u64,
    pub calls: Seq<CallView>,
}

impl View for OutsideExecution {
    type V = OutsideExecutionView;

    open spec fn view(&self) -> OutsideExecutionView {
        OutsideExecutionView {
            caller: self.caller,
            nonce: self.nonce,
            execute_after: self.execute_after,
            execute_before: self.execute_before,
            calls: calls_view(self.calls@),
        }
    }
}

/// An outside execution with the signature of the signer that was chosen for
/// its calls.
#[derive(Debug, PartialEq, Eq)]
pub struct SignedOutsideExecution {
    pub outside_execution: OutsideExecution,
    pub signature: Vec<Felt>,
}

/// An array of elements as contract arguments: its length, then its items.
pub open spec fn serialized_felts(felts: Seq<Felt>) -> Seq<Felt> {
    seq![felt_of_u64(felts.len() as u64)] + felts
}

/// A call as contract arguments: contract, entry point, then its arguments as
/// an array.
pub open spec fn serialized_call(call: CallView) -> Seq<Felt> {
    seq![call.to, call.selector] + serialized_felts(call.calldata)
}

/// Calls as contract arguments, one after the other, without their number.
pub open spec fn serialized_call_run(calls: Seq<CallView>) -> Seq<Felt>
    decreases calls.len(),
{
    if calls.len() == 0 {
        Seq::<Felt>::empty()
    } else {
        serialized_call_run(calls.drop_last()) + serialized_call(calls.last())
    }
}

/// A batch of calls as contract arguments: the number of calls, then each
/// call with its own arguments.
pub open spec fn serialized_calls(calls: Seq<CallView>) -> Seq<Felt> {
    seq![felt_of_u64(calls.len() as u64)] + serialized_call_run(calls)
}

/// An outside execution as contract arguments: caller, nonce, the two times,
/// then the calls.
pub open spec fn serialized_outside_execution(execution: OutsideExecutionView) -> Seq<Felt> {
    seq![
        execution.caller.as_felt(),
        execution.nonce,
        felt_of_u64(execution.execute_after),
        felt_of_u64(execution.execute_before),
    ] + serialized_calls(execution.calls)
}

/// The arguments of the account's entry point for outside executions: the
/// execution, then the signature as an array.
pub open spec fn relay_calldata(execution: OutsideExecutionView, signature: Seq<Felt>) -> Seq<
    Felt,
> {
    serialized_outside_execution(execution) + serialized_felts(signature)
}

/// Appends an array of elements, as contract arguments, to a buffer.
pub fn append_felt_array(out: &mut Vec<Felt>, felts: &Vec<Felt>)
    ensures
        final(out)@ == old(out)@ + serialized_felts(felts@),
{
    let ghost start = out@;
    out.push(Felt::from_usize(felts.len()));
    let mut i: usize = 0;
    while i < felts.len()
        invariant
            i <= felts.len(),
            out@ == start + seq![felt_of_u64(felts@.len() as u64)] + felts@.subrange(0, i as int),
        decreases felts.len() - i,
    {
        out.push(felts[i]);
        assert(out@ =~= start + seq![felt_of_u64(felts@.len() as u64)] + felts@.subrange(
            0,
            i + 1,
        ));
        i = i + 1;
    }
    assert(felts@.subrange(0, felts@.len() as int) =~= felts@);
    assert(out@ =~= start + serialized_felts(felts@));
}

/// Calls `cairo_serialize` of cainome's `CairoSerde` for `Vec<Felt>`. Trusted:
/// the result is the length of the array as an element, then its items.
#[verifier::external_body]
fn cainome_serialize_felts(felts: &Vec<Felt>) -> (r: Vec<Felt>)
    requires
        all_canonical(felts@),
    ensures
        r@ == serialized_felts(felts@),
{
    let items: Vec<starknet::core::types::Felt> = felts.iter().map(
        |f| starknet::core::types::Felt::from_bytes_be(&f.to_bytes_be()),
    ).collect();
    <Vec<starknet::core::types::Felt> as cainome::cairo_serde::CairoSerde>::cairo_serialize(
        &items,
    ).iter().map(
        |f| {
            let d = f.to_be_digits();
            Felt { hi: d[0], mid_hi: d[1], mid_lo: d[2], lo: d[3] }
        },
    ).collect()
}

/// An array of elements as contract arguments.
pub fn serialize_felts(felts: &Vec<Felt>) -> (r: Vec<Felt>)
    ensures
        r@ == serialized_felts(felts@),
{
    let mut i: usize = 0;
    while i < felts.len()
        invariant
            i <= felts.len(),
            forall|j: int| 0 <= j < i ==> (#[trigger] felts@[j]).is_canonical(),
        decreases felts.len() - i,
    {
        let item = &felts[i];
        proof {
            use_type_invariant(item);
        }
        i = i + 1;
    }
    cainome_serialize_felts(felts)
}

impl OutsideExecution {
    /// A copy of the execution.
    pub fn duplicate(&self) -> (r: OutsideExecution)
        ensures
            r@ == self@,
    {
        OutsideExecution {
            caller: self.caller,
            nonce: self.nonce,
            execute_after: self.execute_after,
            execute_before: self.execute_before,
            calls: copy_calls(&self.calls),
        }
    }

    /// The execution as contract arguments.
    pub fn cairo_serialize(&self) -> (r: Vec<Felt>)
        ensures
            r@ == serialized_outside_execution(self@),
    {
        let mut out: Vec<Felt> = Vec::new();
        out.push(self.caller.to_felt());
        out.push(self.nonce);
        out.push(Felt::from_u64(self.execute_after));
        out.push(Felt::from_u64(self.execute_before));
        let mut calls = serialize_calls(self.calls.as_slice());
        out.append(&mut calls);
        assert(out@ =~= serialized_outside_execution(self@));
        out
    }
}

/// A batch of calls as contract arguments, as an account's entry point for
/// execution takes them.
pub fn serialize_calls(calls: &[Call]) -> (r: Vec<Felt>)
    ensures
        r@ == serialized_calls(calls_view(calls@)),
{
    let mut out: Vec<Felt> = Vec::new();
    out.push(Felt::from_usize(calls.len()));
    let ghost head = out@;
    let mut i: usize = 0;
    assert(calls_view(calls@).subrange(0, 0) =~= Seq::<CallView>::empty());
    while i < calls.len()
        invariant
            i <= calls.len(),
            out@ == head + serialized_call_run(calls_view(calls@).subrange(0, i as int)),
        decreases calls.len() - i,
    {
        let ghost before = out@;
        let call = &calls[i];
        out.push(call.to);
        out.push(call.selector);
        append_felt_array(&mut out, &call.calldata);
        proof {
            let views = calls_view(calls@);
            let next = views.subrange(0, i + 1);
            assert(next.drop_last() =~= views.subrange(0, i as int));
            assert(next.last() == call@);
            assert(out@ =~= before + serialized_call(call@));
            assert(out@ =~= head + serialized_call_run(next));
        }
        i = i + 1;
    }
    assert(calls_view(calls@).subrange(0, calls@.len() as int) =~= calls_view(calls@));
    out
}

/// The call that a relayer submits for a signed outside execution: the
/// account's entry point `execute_from_outside_v2` with the execution and the
/// signature as arguments.
pub fn relay_call(
    contract_address: Felt,
    outside_execution: &OutsideExecution,
    signature: &Vec<Felt>,
) -> (r: Call)
    ensures
        r@ == (CallView {
            to: contract_address,
            selector: selector_of_name("execute_from_outside_v2"@),
            calldata: relay_calldata(outside_execution@, signature@),
        }),
{
    proof {
        reveal_strlit("execute_from_outside_v2");
    }
    let selector = match get_selector_from_name("execute_from_outside_v2") {
        Ok(selector) => selector,
        Err(_) => Felt::zero(),
    };
    let mut calldata = outside_execution.cairo_serialize();
    let mut signed = serialize_felts(signature);
    calldata.append(&mut signed);
    Call { to: contract_address, selector, calldata }
}

} // verus!
