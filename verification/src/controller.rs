//! The controller of an account: for each batch of calls it decides whether a
//! stored session signs or the owner with the guardian, and it prepares what
//! is sent for deployment, sessions and the delegate slot.

use crate::felt::{
    felt_of_short_string, get_selector_from_name, selector_of_name, short_string_value, Felt,
    ShortStringError,
};
use crate::outside_execution::{OutsideExecution, SignedOutsideExecution};
use crate::session::{
    calls_view, copy_felts, AllowedMethod, Call, CallView, Session, SessionView,
};
use crate::signers::{
    is_signing_scalar, public_key_of, sign_hash, signed, DeviceError, KeyPair, SignError,
};
use crate::storage::{
    Credentials, InMemoryStorage, OriginProvider, Selectors, SessionMetadata, SessionMetadataView,
    StorageBackend, StorageError, StorageValue, StorageValueView,
};
use vstd::prelude::*;

verus! {

/// What a controller needs around it: a store, and the origin that asks.
pub trait Backend: StorageBackend + OriginProvider {

}

impl Backend for InMemoryStorage {

}

/// Calls `cairo_deserialize` of `cainome::cairo_serde::ContractAddress` at the
/// start of a buffer. Trusted: an empty buffer is refused with a message, and
/// of any other the first element is returned.
#[verifier::external_body]
fn deserialize_address(felts: &Vec<Felt>) -> (r: Result<Felt, String>)
    requires
        felts@.len() > 0 ==> felts@[0].is_canonical(),
    ensures
        r is Ok <==> felts@.len() > 0,
        r is Ok ==> r->Ok_0 == felts@[0],
{
    let buffer: Vec<starknet::core::types::Felt> = felts.iter().map(
        |f| starknet::core::types::Felt::from_bytes_be(&f.to_bytes_be()),
    ).collect();
    match <cainome::cairo_serde::ContractAddress as cainome::cairo_serde::CairoSerde>::cairo_deserialize(
        &buffer,
        0,
    ) {
        Ok(address) => {
            let d = address.0.to_be_digits();
            Ok(Felt { hi: d[0], mid_hi: d[1], mid_lo: d[2], lo: d[3] })
        },
        Err(e) => Err(e.to_string()),
    }
}

/// Every way in which an operation of the controller fails. The cause is
/// passed on as it came; nothing is tried again.
#[derive(Debug, PartialEq, Eq)]
pub enum ControllerError {
    DeviceError(DeviceError),
    SignError(SignError),
    StorageError(StorageError),
    ProviderError(String),
    AccountError(String),
    AccountFactoryError(String),
    CartridgeProviderError(String),
    OriginError(String),
    CairoSerde(String),
    CairoShortStringToFeltEror(ShortStringError),
}

/// What signs for the account in place of owner and guardian: the session,
/// its private scalar and the authorization that binds it to the account.
#[derive(Debug, PartialEq, Eq)]
pub struct SessionAccount {
    pub address: Felt,
    pub chain_id: Felt,
    pub private_key: Felt,
    pub authorization: Vec<Felt>,
    pub session: Session,
}

/// A session account as a mathematical value.
pub struct SessionAccountView {
    pub address: Felt,
    pub chain_id: Felt,
    pub private_key: Felt,
    pub authorization: Seq<Felt>,
    pub session: SessionView,
}

impl View for SessionAccount {
    type V = SessionAccountView;

    open spec fn view(&self) -> SessionAccountView {
        SessionAccountView {
            address: self.address,
            chain_id: self.chain_id,
            private_key: self.private_key,
            authorization: self.authorization@,
            session: self.session@,
        }
    }
}

impl SessionAccount {
    /// Signs a hash with the key of the session.
    pub fn sign_hash(&self, hash: &Felt) -> (r: Result<Vec<Felt>, SignError>)
        ensures
            r is Ok <==> signed(self.private_key, *hash) is Ok,
            r is Ok ==> r->Ok_0@ == signed(self.private_key, *hash)->Ok_0,
            r is Err ==> r->Err_0 == signed(self.private_key, *hash)->Err_0,
    {
        sign_hash(&self.private_key, hash)
    }
}

/// Who signs a batch. The choice is made anew for every batch.
#[derive(Debug, PartialEq, Eq)]
pub enum Routing {
    /// A stored session covers every call: its key signs.
    SessionRouted(SessionAccount),
    /// The owner and the guardian sign.
    OwnerRouted,
}

/// A routing as a mathematical value.
pub enum RoutingView {
    SessionRouted(SessionAccountView),
    OwnerRouted,
}

impl View for Routing {
    type V = RoutingView;

    open spec fn view(&self) -> RoutingView {
        match self {
            Routing::SessionRouted(account) => RoutingView::SessionRouted(account@),
            Routing::OwnerRouted => RoutingView::OwnerRouted,
        }
    }
}

/// The session account that a stored value gives for a batch: the value must
/// be session metadata whose allowlist holds every call. Whether the session
/// has lapsed is not asked here: the chain refuses a lapsed session.
pub open spec fn session_account_of(
    stored: Option<StorageValueView>,
    calls: Seq<CallView>,
    address: Felt,
    chain_id: Felt,
) -> Option<SessionAccountView> {
    match stored {
        Some(StorageValueView::Session(metadata)) => if metadata.session.allows_all(calls) {
            Some(
                SessionAccountView {
                    address,
                    chain_id,
                    private_key: metadata.credentials.private_key,
                    authorization: metadata.credentials.authorization,
                    session: metadata.session,
                },
            )
        } else {
            None
        },
        None => None,
    }
}

/// Who signs, given the session account that was found or not.
pub open spec fn routing_with(account: Option<SessionAccountView>) -> RoutingView {
    match account {
        Some(account) => RoutingView::SessionRouted(account),
        None => RoutingView::OwnerRouted,
    }
}

/// Who signs a batch, given what the store holds for the account.
pub open spec fn routing_of(
    stored: Option<StorageValueView>,
    calls: Seq<CallView>,
    address: Felt,
    chain_id: Felt,
) -> RoutingView {
    routing_with(session_account_of(stored, calls, address, chain_id))
}

/// Whether a private key is the key of a session: it can be a private key,
/// and the session holds the public key that belongs to it.
pub open spec fn session_key_fits(session: SessionView, private_key: Felt) -> bool {
    is_signing_scalar(private_key) && session.session_key == public_key_of(private_key)
}

/// Decides from what the store returned whether a session can sign a batch.
pub fn select_session_account(
    stored: Option<StorageValue>,
    calls: &[Call],
    address: Felt,
    chain_id: Felt,
) -> (r: Option<SessionAccount>)
    ensures
        r is Some <==> session_account_of(
            value_view(stored),
            calls_view(calls@),
            address,
            chain_id,
        ) is Some,
        r is Some ==> r->0@ == session_account_of(
            value_view(stored),
            calls_view(calls@),
            address,
            chain_id,
        )->0,
{
    match stored {
        Some(StorageValue::Session(metadata)) => {
            if metadata.session.are_calls_allowed(calls) {
                Some(
                    SessionAccount {
                        address,
                        chain_id,
                        private_key: metadata.credentials.private_key,
                        authorization: metadata.credentials.authorization,
                        session: metadata.session,
                    },
                )
            } else {
                None
            }
        },
        None => None,
    }
}

/// The routing that belongs to a choice of session account.
pub fn routing_for(account: Option<SessionAccount>) -> (r: Routing)
    ensures
        r@ == routing_with(option_view(account)),
{
    match account {
        Some(account) => Routing::SessionRouted(account),
        None => Routing::OwnerRouted,
    }
}

/// Decides from the store's answer whether a session can sign a batch. A
/// failure of the store is passed on as it came: it is no reason to fall back
/// on the owner.
pub fn session_account_from(
    stored: Result<Option<StorageValue>, StorageError>,
    calls: &[Call],
    address: Felt,
    chain_id: Felt,
) -> (r: Result<Option<SessionAccount>, ControllerError>)
    ensures
        stored is Err ==> r is Err && r->Err_0 == ControllerError::StorageError(stored->Err_0),
        stored is Ok ==> r is Ok && option_view(r->Ok_0) == session_account_of(
            value_view(stored->Ok_0),
            calls_view(calls@),
            address,
            chain_id,
        ),
{
    match stored {
        Err(e) => Err(ControllerError::StorageError(e)),
        Ok(stored) => Ok(select_session_account(stored, calls, address, chain_id)),
    }
}

/// What storing a session returns, given the store's answer: the
/// authorization and the private key, or the store's failure as it came.
pub fn stored_session_outcome(
    answer: Result<(), StorageError>,
    authorization: Vec<Felt>,
    private_key: Felt,
) -> (r: Result<(Vec<Felt>, Felt), ControllerError>)
    ensures
        answer is Err ==> r is Err && r->Err_0 == ControllerError::StorageError(answer->Err_0),
        answer is Ok ==> r is Ok && r->Ok_0.0 == authorization && r->Ok_0.1 == private_key,
{
    match answer {
        Ok(()) => Ok((authorization, private_key)),
        Err(e) => Err(ControllerError::StorageError(e)),
    }
}

/// The batch with who signs it, given the outcome of the search for a
/// session. A failure of the search is passed on as it came.
pub fn routed_invocation(
    account: Result<Option<SessionAccount>, ControllerError>,
    calls: Vec<Call>,
    nonce: Option<Felt>,
    max_fee: Option<Felt>,
) -> (r: Result<Invocation, ControllerError>)
    ensures
        account is Err ==> r is Err && r->Err_0 == account->Err_0,
        account is Ok ==> r is Ok && r->Ok_0.calls == calls && r->Ok_0.nonce == nonce
            && r->Ok_0.max_fee == max_fee && r->Ok_0.routing@ == routing_with(
            option_view(account->Ok_0),
        ),
{
    match account {
        Ok(account) => Ok(Invocation { routing: routing_for(account), calls, nonce, max_fee }),
        Err(e) => Err(e),
    }
}

/// The outside execution with who signs it, given the outcome of the search
/// for a session. A failure of the search is passed on as it came.
pub fn routed_outside_invocation(
    account: Result<Option<SessionAccount>, ControllerError>,
    outside_execution: OutsideExecution,
) -> (r: Result<OutsideInvocation, ControllerError>)
    ensures
        account is Err ==> r is Err && r->Err_0 == account->Err_0,
        account is Ok ==> r is Ok && r->Ok_0.outside_execution == outside_execution
            && r->Ok_0.routing@ == routing_with(option_view(account->Ok_0)),
{
    match account {
        Ok(account) => Ok(OutsideInvocation { routing: routing_for(account), outside_execution }),
        Err(e) => Err(e),
    }
}

/// A batch that is ready to be signed and sent. `nonce` and `max_fee` are
/// `None` where the provider chooses them.
#[derive(Debug, PartialEq, Eq)]
pub struct Invocation {
    pub routing: Routing,
    pub calls: Vec<Call>,
    pub nonce: Option<Felt>,
    pub max_fee: Option<Felt>,
}

/// An outside execution that is ready to be signed.
#[derive(Debug, PartialEq, Eq)]
pub struct OutsideInvocation {
    pub routing: Routing,
    pub outside_execution: OutsideExecution,
}

/// A signed outside execution as the provider takes it.
#[derive(Debug, PartialEq, Eq)]
pub struct OutsideExecutionSubmission {
    pub outside_execution: OutsideExecution,
    pub address: Felt,
    pub chain_id: Felt,
    pub signature: Vec<Felt>,
}

/// What is needed to deploy the account.
#[derive(Debug, PartialEq, Eq)]
pub struct AccountDeployment {
    /// The salt of the deployment: the user name as a short string.
    pub salt: Felt,
    /// The owner's public identity, then `1` for "no guardian".
    pub constructor_calldata: Vec<Felt>,
    pub max_fee: Felt,
}

/// The constructor arguments of an account without a guardian.
pub open spec fn deployment_calldata(owner_signer: Seq<Felt>) -> Seq<Felt> {
    owner_signer.push(Felt::with_value(1))
}

/// A controller as a mathematical value.
pub struct ControllerView {
    pub username: Seq<char>,
    pub address: Felt,
    pub chain_id: Felt,
    pub owner_signer: Seq<Felt>,
    pub stored: Map<Seq<char>, StorageValueView>,
}

impl ControllerView {
    /// The key under which the session for an origin is stored.
    pub open spec fn session_key(self, origin: Seq<char>) -> Seq<char> {
        Selectors::session_key(self.address, origin, self.chain_id)
    }

    /// What is stored for an origin.
    pub open spec fn stored_for(self, origin: Seq<char>) -> Option<StorageValueView> {
        if self.stored.contains_key(self.session_key(origin)) {
            Some(self.stored[self.session_key(origin)])
        } else {
            None
        }
    }

    /// Who signs a batch that an origin asks for.
    pub open spec fn routing(self, origin: Seq<char>, calls: Seq<CallView>) -> RoutingView {
        routing_of(self.stored_for(origin), calls, self.address, self.chain_id)
    }
}

/// The controller of one account on one chain. It holds the user name, the
/// account's address, the chain, the owner's public identity as constructor
/// arguments, and the store.
pub struct Controller<B: Backend> {
    username: String,
    address: Felt,
    chain_id: Felt,
    owner_signer: Vec<Felt>,
    backend: B,
}

impl<B: Backend> View for Controller<B> {
    type V = ControllerView;

    closed spec fn view(&self) -> ControllerView {
        ControllerView {
            username: self.username@,
            address: self.address,
            chain_id: self.chain_id,
            owner_signer: self.owner_signer@,
            stored: self.backend.entries(),
        }
    }
}

impl<B: Backend> Controller<B> {
    /// Whether the controller's store is fit for use.
    pub closed spec fn valid(&self) -> bool {
        self.backend.valid()
    }

    /// A controller for an account.
    pub fn new(
        username: String,
        owner_signer: Vec<Felt>,
        address: Felt,
        chain_id: Felt,
        backend: B,
    ) -> (r: Self)
        requires
            backend.valid(),
        ensures
            r.valid(),
            r@ == (ControllerView {
                username: username@,
                address,
                chain_id,
                owner_signer: owner_signer@,
                stored: backend.entries(),
            }),
    {
        Controller { username, address, chain_id, owner_signer, backend }
    }

    /// The address of the account.
    pub fn address(&self) -> (r: Felt)
        ensures
            r == self@.address,
    {
        self.address
    }

    /// The chain of the account.
    pub fn chain_id(&self) -> (r: Felt)
        ensures
            r == self@.chain_id,
    {
        self.chain_id
    }

    /// The store.
    pub fn backend(&self) -> (r: &B)
        ensures
            r.entries() == self@.stored,
            self.valid() ==> r.valid(),
    {
        &self.backend
    }

    /// What is needed to deploy the account: the salt is the user name as a
    /// short string, and the constructor gets the owner and no guardian.
    pub fn deploy(&self, max_fee: Felt) -> (r: Result<AccountDeployment, ControllerError>)
        ensures
            felt_of_short_string(self@.username) is Err ==> r is Err && r->Err_0
                == ControllerError::CairoShortStringToFeltEror(
                felt_of_short_string(self@.username)->Err_0,
            ),
            felt_of_short_string(self@.username) is Ok ==> r is Ok && r->Ok_0.salt
                == felt_of_short_string(self@.username)->Ok_0 && r->Ok_0.salt.value()
                == short_string_value(self@.username) && r->Ok_0.constructor_calldata@
                == deployment_calldata(self@.owner_signer) && r->Ok_0.max_fee == max_fee,
    {
        let mut calldata = copy_felts(&self.owner_signer);
        calldata.push(Felt::one());
        match Felt::from_short_string(self.username.as_str()) {
            Ok(salt) => Ok(AccountDeployment { salt, constructor_calldata: calldata, max_fee }),
            Err(e) => Err(ControllerError::CairoShortStringToFeltEror(e)),
        }
    }

    /// A session for this account with a key of its own, ready to be
    /// authorized by owner and guardian. An empty allowlist is refused.
    pub fn new_session_with_key(
        &self,
        methods: Vec<AllowedMethod>,
        expires_at: u64,
        key: &KeyPair,
    ) -> (r: Result<Session, ControllerError>)
        ensures
            methods@.len() == 0 ==> r matches Err(
                ControllerError::SignError(SignError::NoAllowedSessionMethods),
            ),
            methods@.len() > 0 ==> (r matches Ok(s) && s.well_formed() && s@ == (SessionView {
                allowed_methods: methods@,
                expires_at,
                session_key: key.public_key,
            })),
    {
        match Session::new(methods, expires_at, key.public_key) {
            Ok(session) => Ok(session),
            Err(e) => Err(ControllerError::SignError(e)),
        }
    }

    /// A session for this account with a fresh key, ready to be authorized by
    /// owner and guardian, and the key. An empty allowlist is refused.
    pub fn new_session(&self, methods: Vec<AllowedMethod>, expires_at: u64) -> (r: Result<
        (Session, KeyPair),
        ControllerError,
    >)
        ensures
            methods@.len() == 0 ==> r is Err,
            r is Err ==> r->Err_0 == ControllerError::SignError(
                if methods@.len() == 0 {
                    SignError::NoAllowedSessionMethods
                } else {
                    SignError::BadKey
                },
            ),
            r is Ok ==> r->Ok_0.1.well_formed() && r->Ok_0.0.well_formed() && r->Ok_0.0@
                == (SessionView {
                allowed_methods: methods@,
                expires_at,
                session_key: r->Ok_0.1.public_key,
            }),
    {
        let drawn = KeyPair::random();
        if methods.len() == 0 {
            return Err(ControllerError::SignError(SignError::NoAllowedSessionMethods));
        }
        match drawn {
            Some(key) => match self.new_session_with_key(methods, expires_at, &key) {
                Ok(session) => Ok((session, key)),
                Err(e) => Err(e),
            },
            None => Err(ControllerError::SignError(SignError::BadKey)),
        }
    }

    /// Stores an authorized session under the key of an origin, and returns the
    /// authorization and the session's private scalar. A private key that is
    /// not the session's own is refused first, then an origin that could not
    /// be determined; the store is asked only after both.
    pub fn store_session(
        &mut self,
        origin: Result<String, DeviceError>,
        session: Session,
        authorization: Vec<Felt>,
        private_key: Felt,
    ) -> (r: Result<(Vec<Felt>, Felt), ControllerError>)
        requires
            old(self).valid(),
        ensures
            final(self).valid(),
            final(self)@.username == old(self)@.username,
            final(self)@.address == old(self)@.address,
            final(self)@.chain_id == old(self)@.chain_id,
            final(self)@.owner_signer == old(self)@.owner_signer,
            r is Err ==> final(self)@ == old(self)@,
            !session_key_fits(session@, private_key) ==> r is Err && r->Err_0
                == ControllerError::SignError(SignError::BadKey),
            session_key_fits(session@, private_key) && origin is Err ==> r is Err && r->Err_0
                == ControllerError::OriginError(origin->Err_0.reason()),
            session_key_fits(session@, private_key) && origin is Ok && r is Err ==> r->Err_0
                is StorageError,
            r is Ok ==> r->Ok_0.0@ == authorization@ && r->Ok_0.1 == private_key
                && final(self)@.stored == old(self)@.stored.insert(
                old(self)@.session_key(origin->Ok_0@),
                session_record(session@, authorization@, private_key),
            ),
    {
        let fits = match KeyPair::from_private_key(private_key) {
            Some(pair) => pair.public_key == session.session_key(),
            None => false,
        };
        if !fits {
            return Err(ControllerError::SignError(SignError::BadKey));
        }
        match origin {
            Err(e) => Err(ControllerError::OriginError(e.into_reason())),
            Ok(origin) => {
                let key = Selectors::session(&self.address, origin.as_str(), &self.chain_id);
                let value = StorageValue::Session(
                    SessionMetadata {
                        session,
                        max_fee: None,
                        credentials: Credentials {
                            authorization: copy_felts(&authorization),
                            private_key,
                        },
                    },
                );
                let answer = self.backend.set(key.as_str(), &value);
                stored_session_outcome(answer, authorization, private_key)
            },
        }
    }

    /// Stores an authorized session for the origin that asks, and returns the
    /// authorization and the session's private scalar. A new session takes
    /// the place of the one that was stored for the origin.
    pub fn create_session(
        &mut self,
        session: Session,
        authorization: Vec<Felt>,
        private_key: Felt,
    ) -> (r: Result<(Vec<Felt>, Felt), ControllerError>)
        requires
            old(self).valid(),
        ensures
            final(self).valid(),
            final(self)@.username == old(self)@.username,
            final(self)@.address == old(self)@.address,
            final(self)@.chain_id == old(self)@.chain_id,
            final(self)@.owner_signer == old(self)@.owner_signer,
            r is Err ==> final(self)@ == old(self)@,
            !session_key_fits(session@, private_key) ==> r is Err && r->Err_0
                == ControllerError::SignError(SignError::BadKey),
            session_key_fits(session@, private_key) && r is Err ==> r->Err_0 is OriginError
                || r->Err_0 is StorageError,
            r is Ok ==> r->Ok_0.0@ == authorization@ && r->Ok_0.1 == private_key && exists|
                origin: Seq<char>,
            |
                final(self)@.stored == old(self)@.stored.insert(
                    #[trigger] old(self)@.session_key(origin),
                    session_record(session@, authorization@, private_key),
                ),
    {
        let origin = B::origin();
        self.store_session(origin, session, authorization, private_key)
    }

    /// The session account for a batch that an origin asks for, if the store
    /// holds a session for the origin that allows every call. Where the
    /// origin could not be determined the store is not asked.
    pub fn session_account_for(&self, origin: Result<String, DeviceError>, calls: &[Call]) -> (r:
        Result<Option<SessionAccount>, ControllerError>)
        requires
            self.valid(),
        ensures
            origin is Err ==> r is Err && r->Err_0 == ControllerError::OriginError(
                origin->Err_0.reason(),
            ),
            origin is Ok && r is Err ==> r->Err_0 is StorageError,
            origin is Ok && r is Ok ==> option_view(r->Ok_0) == session_account_of(
                self@.stored_for(origin->Ok_0@),
                calls_view(calls@),
                self@.address,
                self@.chain_id,
            ),
    {
        match origin {
            Err(e) => Err(ControllerError::OriginError(e.into_reason())),
            Ok(origin) => {
                let key = Selectors::session(&self.address, origin.as_str(), &self.chain_id);
                let stored = self.backend.get(key.as_str());
                proof {
                    if stored is Ok {
                        assert(value_view(stored->Ok_0) == self@.stored_for(origin@));
                    }
                }
                session_account_from(stored, calls, self.address, self.chain_id)
            },
        }
    }

    /// Whether the store holds a session for an origin that allows every call
    /// of a batch. A lapsed session still counts: the chain refuses it.
    pub fn is_session_valid_for_origin(
        &self,
        origin: Result<String, DeviceError>,
        calls: &[Call],
    ) -> (r: Result<bool, ControllerError>)
        requires
            self.valid(),
        ensures
            origin is Err ==> r is Err && r->Err_0 == ControllerError::OriginError(
                origin->Err_0.reason(),
            ),
            origin is Ok && r is Err ==> r->Err_0 is StorageError,
            origin is Ok && r is Ok ==> r->Ok_0 == (self@.routing(
                origin->Ok_0@,
                calls_view(calls@),
            ) is SessionRouted),
    {
        match self.session_account_for(origin, calls) {
            Ok(account) => Ok(account.is_some()),
            Err(e) => Err(e),
        }
    }

    /// The batch that an origin asks for, with who signs it and the nonce and
    /// the fee cap it is sent with.
    pub fn execute_for(
        &self,
        origin: Result<String, DeviceError>,
        calls: Vec<Call>,
        nonce: Felt,
        max_fee: Felt,
    ) -> (r: Result<Invocation, ControllerError>)
        requires
            self.valid(),
        ensures
            origin is Err ==> r is Err && r->Err_0 == ControllerError::OriginError(
                origin->Err_0.reason(),
            ),
            origin is Ok && r is Err ==> r->Err_0 is StorageError,
            origin is Ok && r is Ok ==> r->Ok_0.calls == calls && r->Ok_0.nonce == Some(nonce)
                && r->Ok_0.max_fee == Some(max_fee) && r->Ok_0.routing@ == self@.routing(
                origin->Ok_0@,
                calls_view(calls@),
            ),
    {
        let account = self.session_account_for(origin, calls.as_slice());
        routed_invocation(account, calls, Some(nonce), Some(max_fee))
    }

    /// The batch that an origin asks for, with who signs it, for an estimate
    /// of the fee.
    pub fn estimate_invoke_fee_for(&self, origin: Result<String, DeviceError>, calls: Vec<Call>) -> (r:
        Result<Invocation, ControllerError>)
        requires
            self.valid(),
        ensures
            origin is Err ==> r is Err && r->Err_0 == ControllerError::OriginError(
                origin->Err_0.reason(),
            ),
            origin is Ok && r is Err ==> r->Err_0 is StorageError,
            origin is Ok && r is Ok ==> r->Ok_0.calls == calls && r->Ok_0.nonce is None
                && r->Ok_0.max_fee is None && r->Ok_0.routing@ == self@.routing(
                origin->Ok_0@,
                calls_view(calls@),
            ),
    {
        let account = self.session_account_for(origin, calls.as_slice());
        routed_invocation(account, calls, None, None)
    }

    /// The outside execution that an origin asks for, with who signs it: the
    /// routing goes by its calls, as for any batch.
    pub fn execute_from_outside_for(
        &self,
        origin: Result<String, DeviceError>,
        outside_execution: OutsideExecution,
    ) -> (r: Result<OutsideInvocation, ControllerError>)
        requires
            self.valid(),
        ensures
            origin is Err ==> r is Err && r->Err_0 == ControllerError::OriginError(
                origin->Err_0.reason(),
            ),
            origin is Ok && r is Err ==> r->Err_0 is StorageError,
            origin is Ok && r is Ok ==> r->Ok_0.outside_execution == outside_execution
                && r->Ok_0.routing@ == self@.routing(origin->Ok_0@, outside_execution@.calls),
    {
        let account = self.session_account_for(origin, outside_execution.calls.as_slice());
        routed_outside_invocation(account, outside_execution)
    }

    /// The session account for a batch, for the origin that asks.
    pub fn session_account(&self, calls: &[Call]) -> (r: Result<
        Option<SessionAccount>,
        ControllerError,
    >)
        requires
            self.valid(),
        ensures
            r is Err ==> r->Err_0 is OriginError || r->Err_0 is StorageError,
            r is Ok ==> exists|origin: Seq<char>|
                option_view(r->Ok_0) == session_account_of(
                    #[trigger] self@.stored_for(origin),
                    calls_view(calls@),
                    self@.address,
                    self@.chain_id,
                ),
    {
        let origin = B::origin();
        let ghost asked = origin;
        let r = self.session_account_for(origin, calls);
        proof {
            if r is Ok {
                assert(option_view(r->Ok_0) == session_account_of(
                    self@.stored_for(asked->Ok_0@),
                    calls_view(calls@),
                    self@.address,
                    self@.chain_id,
                ));
            }
        }
        r
    }

    /// Whether the store holds a session for the asking origin that allows
    /// every call of the batch. A lapsed session still counts: the chain
    /// refuses it.
    pub fn is_session_valid_for(&self, calls: &[Call]) -> (r: Result<bool, ControllerError>)
        requires
            self.valid(),
        ensures
            r is Err ==> r->Err_0 is OriginError || r->Err_0 is StorageError,
            r is Ok ==> exists|origin: Seq<char>|
                r->Ok_0 == (#[trigger] self@.routing(origin, calls_view(calls@)) is SessionRouted),
    {
        let origin = B::origin();
        let ghost asked = origin;
        let r = self.is_session_valid_for_origin(origin, calls);
        proof {
            if r is Ok {
                assert(r->Ok_0 == (self@.routing(asked->Ok_0@, calls_view(calls@))
                    is SessionRouted));
            }
        }
        r
    }

    /// The batch with who signs it and the nonce and the fee cap it is sent
    /// with, for the origin that asks.
    pub fn execute(&self, calls: Vec<Call>, nonce: Felt, max_fee: Felt) -> (r: Result<
        Invocation,
        ControllerError,
    >)
        requires
            self.valid(),
        ensures
            r is Err ==> r->Err_0 is OriginError || r->Err_0 is StorageError,
            r is Ok ==> r->Ok_0.calls == calls && r->Ok_0.nonce == Some(nonce) && r->Ok_0.max_fee
                == Some(max_fee) && exists|origin: Seq<char>|
                r->Ok_0.routing@ == #[trigger] self@.routing(origin, calls_view(calls@)),
    {
        let origin = B::origin();
        let ghost asked = origin;
        let r = self.execute_for(origin, calls, nonce, max_fee);
        proof {
            if r is Ok {
                assert(r->Ok_0.routing@ == self@.routing(asked->Ok_0@, calls_view(calls@)));
            }
        }
        r
    }

    /// The batch with who signs it, for an estimate of the fee, for the origin
    /// that asks.
    pub fn estimate_invoke_fee(&self, calls: Vec<Call>) -> (r: Result<Invocation, ControllerError>)
        requires
            self.valid(),
        ensures
            r is Err ==> r->Err_0 is OriginError || r->Err_0 is StorageError,
            r is Ok ==> r->Ok_0.calls == calls && r->Ok_0.nonce is None && r->Ok_0.max_fee is None
                && exists|origin: Seq<char>|
                r->Ok_0.routing@ == #[trigger] self@.routing(origin, calls_view(calls@)),
    {
        let origin = B::origin();
        let ghost asked = origin;
        let r = self.estimate_invoke_fee_for(origin, calls);
        proof {
            if r is Ok {
                assert(r->Ok_0.routing@ == self@.routing(asked->Ok_0@, calls_view(calls@)));
            }
        }
        r
    }

    /// The outside execution with who signs it, for the origin that asks: the
    /// routing goes by its calls, as for any batch.
    pub fn execute_from_outside(&self, outside_execution: OutsideExecution) -> (r: Result<
        OutsideInvocation,
        ControllerError,
    >)
        requires
            self.valid(),
        ensures
            r is Err ==> r->Err_0 is OriginError || r->Err_0 is StorageError,
            r is Ok ==> r->Ok_0.outside_execution == outside_execution && exists|
                origin: Seq<char>,
            |
                r->Ok_0.routing@ == #[trigger] self@.routing(origin, outside_execution@.calls),
    {
        let origin = B::origin();
        let ghost asked = origin;
        let r = self.execute_from_outside_for(origin, outside_execution);
        proof {
            if r is Ok {
                assert(r->Ok_0.routing@ == self@.routing(asked->Ok_0@, outside_execution@.calls));
            }
        }
        r
    }

    /// What is handed to the provider for a signed outside execution: the
    /// execution, the account, the chain and the signature.
    pub fn outside_execution_submission(&self, signed: SignedOutsideExecution) -> (r:
        OutsideExecutionSubmission)
        ensures
            r.outside_execution == signed.outside_execution,
            r.signature == signed.signature,
            r.address == self@.address,
            r.chain_id == self@.chain_id,
    {
        OutsideExecutionSubmission {
            outside_execution: signed.outside_execution,
            address: self.address,
            chain_id: self.chain_id,
            signature: signed.signature,
        }
    }

    /// The call that reads the account's delegate.
    pub fn delegate_account(&self) -> (r: Call)
        ensures
            r@ == (CallView {
                to: self@.address,
                selector: selector_of_name("delegate_account"@),
                calldata: Seq::<Felt>::empty(),
            }),
    {
        proof {
            reveal_strlit("delegate_account");
        }
        let selector = match get_selector_from_name("delegate_account") {
            Ok(selector) => selector,
            Err(_) => Felt::zero(),
        };
        Call { to: self.address, selector, calldata: Vec::new() }
    }

    /// The delegate that the account's contract answered with: the first
    /// element of the answer, read as an address.
    pub fn delegate_account_from(&self, answer: &Vec<Felt>) -> (r: Result<Felt, ControllerError>)
        ensures
            answer@.len() > 0 ==> r is Ok && r->Ok_0 == answer@[0],
            answer@.len() == 0 ==> r is Err && r->Err_0 is CairoSerde,
    {
        if answer.len() > 0 {
            let first = &answer[0];
            proof {
                use_type_invariant(first);
            }
        }
        match deserialize_address(answer) {
            Ok(address) => Ok(address),
            Err(text) => Err(ControllerError::CairoSerde(text)),
        }
    }

    /// The call that sets the account's delegate. Owner and guardian sign it,
    /// never a session: the delegate changes who controls the account.
    pub fn set_delegate_account(&self, delegate_address: Felt) -> (r: Invocation)
        ensures
            r.routing@ == RoutingView::OwnerRouted,
            r.nonce is None,
            r.max_fee is None,
            r.calls@.len() == 1,
            r.calls@[0]@ == (CallView {
                to: self@.address,
                selector: selector_of_name("set_delegate_account"@),
                calldata: seq![delegate_address],
            }),
    {
        proof {
            reveal_strlit("set_delegate_account");
        }
        let selector = match get_selector_from_name("set_delegate_account") {
            Ok(selector) => selector,
            Err(_) => Felt::zero(),
        };
        let mut calldata: Vec<Felt> = Vec::new();
        calldata.push(delegate_address);
        let mut calls: Vec<Call> = Vec::new();
        calls.push(Call { to: self.address, selector, calldata });
        Invocation { routing: Routing::OwnerRouted, calls, nonce: None, max_fee: None }
    }
}

/// What the store returned, as a mathematical value.
pub open spec fn value_view(stored: Option<StorageValue>) -> Option<StorageValueView> {
    match stored {
        Some(v) => Some(v@),
        None => None,
    }
}

/// The session account of an option, as a mathematical value.
pub open spec fn option_view(account: Option<SessionAccount>) -> Option<SessionAccountView> {
    match account {
        Some(a) => Some(a@),
        None => None,
    }
}

/// What is stored for a session: the session, no fee cap, its credentials.
pub open spec fn session_record(
    session: SessionView,
    authorization: Seq<Felt>,
    private_key: Felt,
) -> StorageValueView {
    StorageValueView::Session(
        SessionMetadataView {
            session,
            max_fee: None,
            credentials: crate::storage::CredentialsView { authorization, private_key },
        },
    )
}

/// With the same stored session, a batch that the session covers is signed by
/// the session, and the same batch with one more call that the session does
/// not allow is signed by owner and guardian.
pub proof fn lemma_routing_follows_the_batch(
    controller: ControllerView,
    origin: Seq<char>,
    metadata: SessionMetadataView,
    covered: Seq<CallView>,
    other: CallView,
)
    requires
        controller.stored_for(origin) == Some(StorageValueView::Session(metadata)),
        metadata.session.allows_all(covered),
        !metadata.session.allows(other),
    ensures
        controller.routing(origin, covered) is SessionRouted,
        controller.routing(origin, covered.push(other)) is OwnerRouted,
{
    crate::session::lemma_batch_grows(metadata.session, covered, other);
}

/// A session that was stored for an origin is what the store then holds for
/// that origin, and it is not what it holds for another origin unless it was
/// there before; after the store is emptied nothing is held for any origin.
pub proof fn lemma_stored_session_round_trip(
    before: ControllerView,
    origin: Seq<char>,
    other_origin: Seq<char>,
    session: SessionView,
    authorization: Seq<Felt>,
    private_key: Felt,
)
    requires
        origin != other_origin,
    ensures
        ({
            let record = session_record(session, authorization, private_key);
            let after = ControllerView {
                stored: before.stored.insert(before.session_key(origin), record),
                ..before
            };
            let emptied = ControllerView {
                stored: Map::<Seq<char>, StorageValueView>::empty(),
                ..before
            };
            &&& after.stored_for(origin) == Some(record)
            &&& after.stored_for(other_origin) == before.stored_for(
                other_origin,
            )
            &&& emptied.stored_for(origin) is None
        }),
{
    crate::storage::lemma_session_keys_differ_by_origin(
        before.address,
        before.chain_id,
        origin,
        other_origin,
    );
}

} // verus!
