//! Sessions: a short-lived key together with the calls it may make and the
//! time at which it lapses.

use crate::felt::Felt;
use crate::signers::SignError;
use vstd::prelude::*;

verus! {

/// A contract call: the contract, the entry point and its arguments.
#[derive(Debug, PartialEq, Eq)]
pub struct Call {
    pub to: Felt,
    pub selector: Felt,
    pub calldata: Vec<Felt>,
}

/// A call as a mathematical value.
pub struct CallView {
    pub to: Felt,
    pub selector: Felt,
    pub calldata: Seq<Felt>,
}

impl View for Call {
    type V = CallView;

    open spec fn view(&self) -> CallView {
        CallView { to: self.to, selector: self.selector, calldata: self.calldata@ }
    }
}

/// The calls of a batch as mathematical values, in order.
pub open spec fn calls_view(calls: Seq<Call>) -> Seq<CallView> {
    calls.map_values(|c: Call| c@)
}

impl Call {
    /// A copy of the call.
    pub fn duplicate(&self) -> (r: Call)
        ensures
            r@ == self@,
    {
        Call { to: self.to, selector: self.selector, calldata: copy_felts(&self.calldata) }
    }
}

/// A copy of a run of field elements.
pub fn copy_felts(felts: &Vec<Felt>) -> (r: Vec<Felt>)
    ensures
        r@ == felts@,
{
    let mut out: Vec<Felt> = Vec::new();
    let mut i: usize = 0;
    while i < felts.len()
        invariant
            i <= felts.len(),
            out@ == felts@.subrange(0, i as int),
        decreases felts.len() - i,
    {
        out.push(felts[i]);
        assert(out@ =~= felts@.subrange(0, i + 1));
        i = i + 1;
    }
    assert(felts@.subrange(0, felts.len() as int) =~= felts@);
    out
}

/// A copy of a batch of calls.
pub fn copy_calls(calls: &Vec<Call>) -> (r: Vec<Call>)
    ensures
        calls_view(r@) == calls_view(calls@),
{
    let mut out: Vec<Call> = Vec::new();
    let mut i: usize = 0;
    while i < calls.len()
        invariant
            i <= calls.len(),
            out@.len() == i,
            forall|j: int| 0 <= j < i ==> out@[j]@ == calls@[j]@,
        decreases calls.len() - i,
    {
        out.push(calls[i].duplicate());
        i = i + 1;
    }
    assert(calls_view(out@) =~= calls_view(calls@));
    out
}

/// One entry of a session's allowlist. A call matches it only where both the
/// contract and the entry point are the same: there are no wildcards.
#[derive(Clone, Copy, Debug, PartialEq, Eq, Structural)]
pub struct AllowedMethod {
    pub contract_address: Felt,
    pub selector: Felt,
}

/// Whether an allowlist holds the pair of a contract and an entry point.
pub open spec fn allowlist_holds(methods: Seq<AllowedMethod>, to: Felt, selector: Felt) -> bool {
    exists|i: int|
        0 <= i < methods.len() && (#[trigger] methods[i]).contract_address == to
            && methods[i].selector == selector
}

/// Whether every call of a batch is on an allowlist.
pub open spec fn allowlist_covers(methods: Seq<AllowedMethod>, calls: Seq<CallView>) -> bool {
    forall|k: int|
        0 <= k < calls.len() ==> allowlist_holds(
            methods,
            (#[trigger] calls[k]).to,
            calls[k].selector,
        )
}

/// A session as a mathematical value.
pub struct SessionView {
    pub allowed_methods: Seq<AllowedMethod>,
    pub expires_at: u64,
    pub session_key: Felt,
}

impl SessionView {
    /// Whether the session allows a call.
    pub open spec fn allows(self, call: CallView) -> bool {
        allowlist_holds(self.allowed_methods, call.to, call.selector)
    }

    /// Whether the session allows every call of a batch.
    pub open spec fn allows_all(self, calls: Seq<CallView>) -> bool {
        allowlist_covers(self.allowed_methods, calls)
    }

    /// Whether the session has lapsed at a time in Unix seconds.
    pub open spec fn expired_at(self, now: u64) -> bool {
        now >= self.expires_at
    }

    /// Whether a batch may be signed with the session at a time: every call is
    /// allowed and the session has not lapsed.
    pub open spec fn eligible(self, calls: Seq<CallView>, now: u64) -> bool {
        self.allows_all(calls) && !self.expired_at(now)
    }
}

/// A scoped credential: the allowlist in the order it was given, the time of
/// expiry in Unix seconds, and the public key of the session.
#[derive(Debug, PartialEq, Eq)]
pub struct Session {
    allowed_methods: Vec<AllowedMethod>,
    expires_at: u64,
    session_key: Felt,
}

impl View for Session {
    type V = SessionView;

    closed spec fn view(&self) -> SessionView {
        SessionView {
            allowed_methods: self.allowed_methods@,
            expires_at: self.expires_at,
            session_key: self.session_key,
        }
    }
}

impl Session {
    /// The allowlist of a session is never empty.
    #[verifier::type_invariant]
    pub closed spec fn well_formed(&self) -> bool {
        self.allowed_methods@.len() > 0
    }

    /// Makes a session. An empty allowlist is refused.
    pub fn new(allowed_methods: Vec<AllowedMethod>, expires_at: u64, session_key: Felt) -> (r:
        Result<Session, SignError>)
        ensures
            allowed_methods@.len() == 0 ==> r matches Err(SignError::NoAllowedSessionMethods),
            allowed_methods@.len() > 0 ==> (r matches Ok(s) && s.well_formed() && s@ == (SessionView {
                allowed_methods: allowed_methods@,
                expires_at,
                session_key,
            })),
    {
        if allowed_methods.len() == 0 {
            Err(SignError::NoAllowedSessionMethods)
        } else {
            Ok(Session { allowed_methods, expires_at, session_key })
        }
    }

    /// The allowlist, in the order it was given.
    pub fn allowed_methods(&self) -> (r: &Vec<AllowedMethod>)
        ensures
            r@ == self@.allowed_methods,
            r@.len() > 0,
    {
        proof {
            use_type_invariant(self);
        }
        &self.allowed_methods
    }

    /// The time of expiry in Unix seconds.
    pub fn expires_at(&self) -> (r: u64)
        ensures
            r == self@.expires_at,
    {
        self.expires_at
    }

    /// The public key of the session.
    pub fn session_key(&self) -> (r: Felt)
        ensures
            r == self@.session_key,
    {
        self.session_key
    }

    /// Whether the allowlist holds the call's contract and entry point.
    pub fn is_call_allowed(&self, call: &Call) -> (r: bool)
        ensures
            r == self@.allows(call@),
    {
        let mut i: usize = 0;
        while i < self.allowed_methods.len()
            invariant
                i <= self.allowed_methods.len(),
                forall|j: int|
                    0 <= j < i ==> !((#[trigger] self.allowed_methods@[j]).contract_address
                        == call.to && self.allowed_methods@[j].selector == call.selector),
            decreases self.allowed_methods.len() - i,
        {
            let method = self.allowed_methods[i];
            if method.contract_address == call.to && method.selector == call.selector {
                return true;
            }
            i = i + 1;
        }
        false
    }

    /// Whether the session allows every call of a batch. The empty batch is
    /// allowed.
    pub fn are_calls_allowed(&self, calls: &[Call]) -> (r: bool)
        ensures
            r == self@.allows_all(calls_view(calls@)),
    {
        let mut k: usize = 0;
        while k < calls.len()
            invariant
                k <= calls.len(),
                forall|j: int| 0 <= j < k ==> self@.allows(#[trigger] calls@[j]@),
            decreases calls.len() - k,
        {
            if !self.is_call_allowed(&calls[k]) {
                assert(calls_view(calls@)[k as int] == calls@[k as int]@);
                return false;
            }
            k = k + 1;
        }
        assert forall|j: int| 0 <= j < calls_view(calls@).len() implies allowlist_holds(
            self@.allowed_methods,
            (#[trigger] calls_view(calls@)[j]).to,
            calls_view(calls@)[j].selector,
        ) by {
            assert(self@.allows(calls@[j]@));
        }
        true
    }

    /// Whether the session has lapsed at a time in Unix seconds.
    pub fn is_expired_at(&self, now: u64) -> (r: bool)
        ensures
            r == self@.expired_at(now),
    {
        now >= self.expires_at
    }

    /// Whether a batch may be signed with the session at a time.
    pub fn is_batch_eligible(&self, calls: &[Call], now: u64) -> (r: bool)
        ensures
            r == self@.eligible(calls_view(calls@), now),
    {
        self.are_calls_allowed(calls) && !self.is_expired_at(now)
    }

    /// A copy of the session.
    pub fn duplicate(&self) -> (r: Session)
        ensures
            r@ == self@,
            r.well_formed(),
    {
        proof {
            use_type_invariant(self);
        }
        let mut methods: Vec<AllowedMethod> = Vec::new();
        let mut i: usize = 0;
        while i < self.allowed_methods.len()
            invariant
                i <= self.allowed_methods.len(),
                methods@ == self.allowed_methods@.subrange(0, i as int),
            decreases self.allowed_methods.len() - i,
        {
            methods.push(self.allowed_methods[i]);
            assert(methods@ =~= self.allowed_methods@.subrange(0, i + 1));
            i = i + 1;
        }
        assert(self.allowed_methods@.subrange(0, self.allowed_methods@.len() as int)
            =~= self.allowed_methods@);
        Session { allowed_methods: methods, expires_at: self.expires_at, session_key: self.session_key }
    }
}

/// A call that is not on the allowlist makes its whole batch ineligible,
/// whatever the other calls are and whatever the time is.
pub proof fn lemma_one_call_off_the_list_bars_the_batch(
    session: SessionView,
    calls: Seq<CallView>,
    k: int,
    now: u64,
)
    requires
        0 <= k < calls.len(),
        !session.allows(calls[k]),
    ensures
        !session.allows_all(calls),
        !session.eligible(calls, now),
{
}

/// A call is allowed exactly where its contract and entry point were among
/// the methods that the session was made with.
pub proof fn lemma_allowed_is_membership(session: SessionView, call: CallView)
    ensures
        session.allows(call) <==> session.allowed_methods.contains(
            AllowedMethod { contract_address: call.to, selector: call.selector },
        ),
{
    let wanted = AllowedMethod { contract_address: call.to, selector: call.selector };
    if session.allows(call) {
        let i = choose|i: int|
            0 <= i < session.allowed_methods.len() && (
            #[trigger] session.allowed_methods[i]).contract_address == call.to
                && session.allowed_methods[i].selector == call.selector;
        assert(session.allowed_methods[i] == wanted);
    }
    if session.allowed_methods.contains(wanted) {
        let i = choose|i: int|
            0 <= i < session.allowed_methods.len() && session.allowed_methods[i] == wanted;
        assert(session.allowed_methods[i].contract_address == call.to);
    }
}

/// Appending a call to a batch keeps it allowed exactly where the batch was
/// allowed and the new call is.
pub proof fn lemma_batch_grows(session: SessionView, calls: Seq<CallView>, call: CallView)
    ensures
        session.allows_all(calls.push(call)) <==> session.allows_all(calls) && session.allows(call),
{
    let grown = calls.push(call);
    if session.allows_all(grown) {
        assert forall|k: int| 0 <= k < calls.len() implies allowlist_holds(
            session.allowed_methods,
            (#[trigger] calls[k]).to,
            calls[k].selector,
        ) by {
            assert(grown[k] == calls[k]);
        }
        assert(grown[calls.len() as int] == call);
    }
    if session.allows_all(calls) && session.allows(call) {
        assert forall|k: int| 0 <= k < grown.len() implies allowlist_holds(
            session.allowed_methods,
            (#[trigger] grown[k]).to,
            grown[k].selector,
        ) by {
            if k < calls.len() {
                assert(grown[k] == calls[k]);
            }
        }
    }
}

} // verus!
