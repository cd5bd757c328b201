use account_sdk::controller::{
    routed_invocation, routed_outside_invocation, routing_for, select_session_account,
    session_account_from, stored_session_outcome, Backend, Controller, ControllerError, Routing,
    SessionAccount,
};
use account_sdk::felt::{get_selector_from_name, Felt, ShortStringError};
use account_sdk::outside_execution::{
    OutsideExecution, OutsideExecutionCaller, SignedOutsideExecution,
};
use account_sdk::session::{AllowedMethod, Call, Session};
use account_sdk::signers::{dual_signature, sign_hash, DeviceError, KeyPair, SignError};
use account_sdk::storage::{
    Credentials, InMemoryStorage, OriginProvider, Selectors, SessionMetadata, StorageBackend,
    StorageError, StorageValue,
};

/// A store whose every operation fails.
struct Broken;

impl StorageBackend for Broken {
    fn set(&mut self, _key: &str, _value: &StorageValue) -> Result<(), StorageError> {
        Err(StorageError::OperationFailed("setting item".to_string()))
    }
    fn get(&self, _key: &str) -> Result<Option<StorageValue>, StorageError> {
        Err(StorageError::OperationFailed("getting item".to_string()))
    }
    fn remove(&mut self, _key: &str) -> Result<(), StorageError> {
        Err(StorageError::OperationFailed("removing item".to_string()))
    }
    fn clear(&mut self) -> Result<(), StorageError> {
        Err(StorageError::OperationFailed("clearing".to_string()))
    }
    fn keys(&self) -> Result<Vec<String>, StorageError> {
        Err(StorageError::OperationFailed("listing".to_string()))
    }
}

impl OriginProvider for Broken {
    fn origin() -> Result<String, DeviceError> {
        Ok("https://broken.example".to_string())
    }
}

impl Backend for Broken {}

/// A store in memory that cannot tell its origin.
struct NoOrigin(InMemoryStorage);

impl StorageBackend for NoOrigin {
    fn set(&mut self, key: &str, value: &StorageValue) -> Result<(), StorageError> {
        self.0.set(key, value)
    }
    fn get(&self, key: &str) -> Result<Option<StorageValue>, StorageError> {
        self.0.get(key)
    }
    fn remove(&mut self, key: &str) -> Result<(), StorageError> {
        self.0.remove(key)
    }
    fn clear(&mut self) -> Result<(), StorageError> {
        self.0.clear()
    }
    fn keys(&self) -> Result<Vec<String>, StorageError> {
        self.0.keys()
    }
}

impl OriginProvider for NoOrigin {
    fn origin() -> Result<String, DeviceError> {
        Err(DeviceError::Origin("no window".to_string()))
    }
}

impl Backend for NoOrigin {}

fn key_pair(private_key: u64) -> KeyPair {
    KeyPair::from_private_key(Felt::from_u64(private_key)).unwrap()
}

fn transfer() -> Felt {
    get_selector_from_name("transfer").unwrap()
}

fn transfer_to(address: u64) -> Call {
    Call {
        to: Felt::from_u64(address),
        selector: transfer(),
        calldata: vec![Felt::from_u64(0x18301129), Felt::from_u64(0x10), Felt::zero()],
    }
}

fn controller() -> Controller<InMemoryStorage> {
    Controller::new(
        "testuser".to_string(),
        vec![Felt::zero(), Felt::from_u64(0xabc)],
        Felt::from_u64(0x1234),
        Felt::from_short_string("SN_SEPOLIA").unwrap(),
        InMemoryStorage::default(),
    )
}

fn with_session(methods: Vec<AllowedMethod>) -> Controller<InMemoryStorage> {
    let mut c = controller();
    let session = c.new_session_with_key(methods, u64::MAX, &key_pair(0x5ec2e7)).unwrap();
    c.create_session(
        session,
        vec![Felt::from_u64(1), Felt::from_u64(2), Felt::from_u64(3), Felt::from_u64(4)],
        Felt::from_u64(0x5ec2e7),
    )
    .unwrap();
    c
}

#[test]
fn test_deploy_controller() {
    let username = "testuser".to_string();
    let address = Felt::from_hex("0x1234").unwrap();
    let chain_id = Felt::from_short_string("KATANA").unwrap();
    let owner = vec![Felt::zero(), Felt::from_u64(0xabc)];
    let controller = Controller::new(
        username.clone(),
        owner.clone(),
        address,
        chain_id,
        InMemoryStorage::default(),
    );

    let max_fee = Felt::from_hex("0x1000000000000000").unwrap();
    let deployment = controller.deploy(max_fee).unwrap();

    let deployed_address = controller.address();
    assert_eq!(
        deployed_address, address,
        "Deployed address doesn't match expected address"
    );
    assert_eq!(deployment.salt, Felt::from_u64(0x7465_7374_7573_6572));
    assert_eq!(
        deployment.constructor_calldata,
        vec![Felt::zero(), Felt::from_u64(0xabc), Felt::one()]
    );
    assert_eq!(deployment.max_fee, max_fee);
    println!(
        "Controller deployed successfully at address: {}",
        deployed_address.to_hex_string()
    );
}

#[test]
fn deploy_refuses_a_user_name_that_is_no_short_string() {
    let long = Controller::new(
        "a-user-name-that-is-much-too-long-for-a-felt".to_string(),
        vec![],
        Felt::one(),
        Felt::one(),
        InMemoryStorage::new(),
    );
    assert_eq!(
        long.deploy(Felt::one()),
        Err(ControllerError::CairoShortStringToFeltEror(ShortStringError::StringTooLong))
    );
    let accent = Controller::new(
        "ren\u{e9}e".to_string(),
        vec![],
        Felt::one(),
        Felt::one(),
        InMemoryStorage::new(),
    );
    assert_eq!(
        accent.deploy(Felt::one()),
        Err(ControllerError::CairoShortStringToFeltEror(ShortStringError::NonAsciiCharacter))
    );
}

#[test]
fn new_session_refuses_an_empty_allowlist() {
    let c = controller();
    assert_eq!(
        c.new_session_with_key(vec![], 10, &key_pair(1)),
        Err(ControllerError::SignError(SignError::NoAllowedSessionMethods))
    );
}

#[test]
fn create_session_returns_authorization_and_private_key() {
    let mut c = controller();
    let session = c
        .new_session_with_key(
            vec![AllowedMethod { contract_address: Felt::from_u64(0xaa), selector: transfer() }],
            2_000_000_000, &key_pair(0x5ec2e7))
        .unwrap();
    let authorization = vec![Felt::from_u64(11), Felt::from_u64(12)];
    let out = c.create_session(session, authorization.clone(), Felt::from_u64(0x5ec2e7)).unwrap();
    assert_eq!(out, (authorization, Felt::from_u64(0x5ec2e7)));
}

#[test]
fn stored_session_round_trip() {
    let mut c = controller();
    let methods = vec![
        AllowedMethod { contract_address: Felt::from_u64(0xaa), selector: transfer() },
        AllowedMethod { contract_address: Felt::from_u64(0xbb), selector: Felt::from_u64(9) },
    ];
    let session = c.new_session_with_key(methods.clone(), 2_000_000_000, &key_pair(0x5ec2e7)).unwrap();
    let authorization = vec![Felt::from_u64(11), Felt::from_u64(12)];
    c.create_session(session, authorization.clone(), Felt::from_u64(0x5ec2e7)).unwrap();

    let key = Selectors::session(
        &c.address(),
        &InMemoryStorage::origin().unwrap(),
        &c.chain_id(),
    );
    let expected = StorageValue::Session(SessionMetadata {
        session: Session::new(methods, 2_000_000_000, key_pair(0x5ec2e7).public_key).unwrap(),
        max_fee: None,
        credentials: Credentials { authorization, private_key: Felt::from_u64(0x5ec2e7) },
    });
    assert_eq!(c.backend().get(&key).unwrap(), Some(expected));
    assert_eq!(c.backend().keys().unwrap(), vec![key]);
}

#[test]
fn clear_then_get_returns_none() {
    let mut store = InMemoryStorage::new();
    let mut c = Controller::new("u".to_string(), vec![], Felt::one(), Felt::one(), InMemoryStorage::new());
    let session = c
        .new_session_with_key(vec![AllowedMethod { contract_address: Felt::one(), selector: Felt::one() }], 5, &key_pair(1))
        .unwrap();
    c.create_session(session.duplicate(), vec![], Felt::one()).unwrap();
    let key = Selectors::session(&Felt::one(), "https://cartridge.gg", &Felt::one());
    assert!(c.backend().get(&key).unwrap().is_some());
    // the same on a bare store
    store
        .set(
            &key,
            &StorageValue::Session(SessionMetadata {
                session,
                max_fee: None,
                credentials: Credentials { authorization: vec![], private_key: Felt::one() },
            }),
        )
        .unwrap();
    assert!(store.get(&key).unwrap().is_some());
    store.clear().unwrap();
    assert_eq!(store.get(&key).unwrap(), None);
}

#[test]
fn a_new_session_takes_the_place_of_the_old_one() {
    let mut c = with_session(vec![AllowedMethod {
        contract_address: Felt::from_u64(0xaa),
        selector: transfer(),
    }]);
    let next = c
        .new_session_with_key(
            vec![AllowedMethod { contract_address: Felt::from_u64(0xbb), selector: transfer() }],
            77, &key_pair(8))
        .unwrap();
    c.create_session(next, vec![Felt::from_u64(9)], Felt::from_u64(8)).unwrap();
    assert_eq!(c.backend().keys().unwrap().len(), 1);
    assert_eq!(c.session_account(&[transfer_to(0xaa)]).unwrap(), None);
    let account = c.session_account(&[transfer_to(0xbb)]).unwrap().unwrap();
    assert_eq!(account.private_key, Felt::from_u64(8));
    assert_eq!(account.authorization, vec![Felt::from_u64(9)]);
    assert_eq!(account.session.expires_at(), 77);
}

#[test]
fn session_of_one_origin_is_not_found_under_another() {
    let mut c = controller();
    let session = c
        .new_session_with_key(
            vec![AllowedMethod { contract_address: Felt::from_u64(0xaa), selector: transfer() }],
            u64::MAX, &key_pair(1))
        .unwrap();
    c.store_session(Ok("https://a.example".to_string()), session, vec![Felt::one()], Felt::one())
        .unwrap();
    let calls = [transfer_to(0xaa)];
    assert!(c
        .session_account_for(Ok("https://a.example".to_string()), &calls)
        .unwrap()
        .is_some());
    assert!(c
        .session_account_for(Ok("https://b.example".to_string()), &calls)
        .unwrap()
        .is_none());
    // the origin that the store itself tells is a third one
    assert!(c.session_account(&calls).unwrap().is_none());
}

#[test]
fn routing_follows_the_batch() {
    let c = with_session(vec![
        AllowedMethod { contract_address: Felt::from_u64(0xc1), selector: transfer() },
        AllowedMethod { contract_address: Felt::from_u64(0xc2), selector: transfer() },
    ]);
    let c1 = || transfer_to(0xc1);
    let c2 = || transfer_to(0xc2);
    let c3 = || transfer_to(0xc3);
    let covered = c.execute(vec![c1(), c2()], Felt::zero(), Felt::one()).unwrap();
    assert!(matches!(covered.routing, Routing::SessionRouted(_)));
    let mixed = c.execute(vec![c1(), c2(), c3()], Felt::zero(), Felt::one()).unwrap();
    assert_eq!(mixed.routing, Routing::OwnerRouted);
    // and again: nothing was cached
    let again = c.execute(vec![c1(), c2()], Felt::zero(), Felt::one()).unwrap();
    assert!(matches!(again.routing, Routing::SessionRouted(_)));
}

#[test]
fn session_for_one_method_signs_only_that_method() {
    // the token at 0xAA may be asked to transfer; nothing else
    let c = with_session(vec![AllowedMethod {
        contract_address: Felt::from_hex("0xAA").unwrap(),
        selector: transfer(),
    }]);
    let to_aa = c.execute(vec![transfer_to(0xaa)], Felt::from_u64(3), Felt::from_u64(1000)).unwrap();
    assert_eq!(to_aa.calls, vec![transfer_to(0xaa)]);
    assert_eq!(to_aa.nonce, Some(Felt::from_u64(3)));
    assert_eq!(to_aa.max_fee, Some(Felt::from_u64(1000)));
    let hash = Felt::from_u64(0x7a5);
    let session_signature = match to_aa.routing {
        Routing::SessionRouted(account) => {
            assert_eq!(account.address, Felt::from_u64(0x1234));
            assert_eq!(account.private_key, Felt::from_u64(0x5ec2e7));
            assert_eq!(account.authorization.len(), 4);
            // one key signs
            account.sign_hash(&hash).unwrap()
        }
        Routing::OwnerRouted => panic!("the session covers this call"),
    };
    assert_eq!(session_signature.len(), 2);

    let to_bb = c.execute(vec![transfer_to(0xbb)], Felt::from_u64(4), Felt::from_u64(1000)).unwrap();
    assert_eq!(to_bb.routing, Routing::OwnerRouted);
    // owner and guardian sign: two signatures, the owner's first
    let owner = sign_hash(&Felt::from_u64(0xa11ce), &hash);
    let guardian = sign_hash(&Felt::from_u64(0xb0b), &hash);
    let dual = dual_signature(owner, guardian).unwrap();
    assert_eq!(dual.len(), 2 * session_signature.len());
    assert_eq!(dual[..2], sign_hash(&Felt::from_u64(0xa11ce), &hash).unwrap());
    assert_eq!(dual[2..], sign_hash(&Felt::from_u64(0xb0b), &hash).unwrap());
}

#[test]
fn a_lapsed_session_is_still_used() {
    let mut c = controller();
    let session = c
        .new_session_with_key(
            vec![AllowedMethod { contract_address: Felt::from_u64(0xaa), selector: transfer() }],
            1, &key_pair(1))
        .unwrap();
    assert!(session.is_expired_at(1_700_000_000));
    c.create_session(session, vec![], Felt::one()).unwrap();
    assert_eq!(c.is_session_valid_for(&[transfer_to(0xaa)]), Ok(true));
    assert_eq!(c.is_session_valid_for(&[transfer_to(0xbb)]), Ok(false));
}

#[test]
fn without_a_session_the_owner_signs() {
    let c = controller();
    assert_eq!(c.session_account(&[transfer_to(0xaa)]), Ok(None));
    assert_eq!(c.is_session_valid_for(&[transfer_to(0xaa)]), Ok(false));
    let invocation = c.execute(vec![transfer_to(0xaa)], Felt::zero(), Felt::zero()).unwrap();
    assert_eq!(invocation.routing, Routing::OwnerRouted);
}

#[test]
fn estimate_routes_like_execute() {
    let c = with_session(vec![AllowedMethod {
        contract_address: Felt::from_u64(0xaa),
        selector: transfer(),
    }]);
    let covered = c.estimate_invoke_fee(vec![transfer_to(0xaa)]).unwrap();
    assert!(matches!(covered.routing, Routing::SessionRouted(_)));
    assert_eq!(covered.nonce, None);
    assert_eq!(covered.max_fee, None);
    let other = c.estimate_invoke_fee(vec![transfer_to(0xbb)]).unwrap();
    assert_eq!(other.routing, Routing::OwnerRouted);
}

#[test]
fn outside_execution_routes_by_its_calls() {
    let c = with_session(vec![AllowedMethod {
        contract_address: Felt::from_u64(0xaa),
        selector: transfer(),
    }]);
    let execution = |address: u64| OutsideExecution {
        caller: OutsideExecutionCaller::Any,
        nonce: Felt::from_u64(5),
        execute_after: 0,
        execute_before: 3_000_000_000,
        calls: vec![transfer_to(address)],
    };
    let covered = c.execute_from_outside(execution(0xaa)).unwrap();
    assert!(matches!(covered.routing, Routing::SessionRouted(_)));
    assert_eq!(covered.outside_execution, execution(0xaa));
    let other = c.execute_from_outside(execution(0xbb)).unwrap();
    assert_eq!(other.routing, Routing::OwnerRouted);

    let submission = c.outside_execution_submission(SignedOutsideExecution {
        outside_execution: execution(0xbb),
        signature: vec![Felt::from_u64(1), Felt::from_u64(2)],
    });
    assert_eq!(submission.outside_execution, execution(0xbb));
    assert_eq!(submission.address, Felt::from_u64(0x1234));
    assert_eq!(submission.chain_id, Felt::from_short_string("SN_SEPOLIA").unwrap());
    assert_eq!(submission.signature, vec![Felt::from_u64(1), Felt::from_u64(2)]);
}

#[test]
fn delegate_calls_go_to_the_account() {
    let c = with_session(vec![AllowedMethod {
        contract_address: Felt::from_u64(0x1234),
        selector: get_selector_from_name("set_delegate_account").unwrap(),
    }]);
    let read = c.delegate_account();
    assert_eq!(
        read,
        Call {
            to: Felt::from_u64(0x1234),
            selector: get_selector_from_name("delegate_account").unwrap(),
            calldata: vec![],
        }
    );
    // a session that allows the call is still passed over
    let write = c.set_delegate_account(Felt::from_u64(0xde1));
    assert_eq!(write.routing, Routing::OwnerRouted);
    assert_eq!(
        write.calls,
        vec![Call {
            to: Felt::from_u64(0x1234),
            selector: get_selector_from_name("set_delegate_account").unwrap(),
            calldata: vec![Felt::from_u64(0xde1)],
        }]
    );
    assert_eq!(write.nonce, None);
    assert_eq!(write.max_fee, None);
}

#[test]
fn storage_failure_is_passed_on() {
    let mut c = Controller::new("u".to_string(), vec![], Felt::one(), Felt::one(), Broken);
    assert_eq!(
        c.session_account(&[transfer_to(1)]),
        Err(ControllerError::StorageError(StorageError::OperationFailed("getting item".to_string())))
    );
    assert!(matches!(
        c.execute(vec![transfer_to(1)], Felt::one(), Felt::one()),
        Err(ControllerError::StorageError(_))
    ));
    let session = c
        .new_session_with_key(vec![AllowedMethod { contract_address: Felt::one(), selector: Felt::one() }], 5, &key_pair(1))
        .unwrap();
    assert_eq!(
        c.create_session(session, vec![], Felt::one()),
        Err(ControllerError::StorageError(StorageError::OperationFailed("setting item".to_string())))
    );
}

#[test]
fn unknown_origin_is_an_origin_error() {
    let mut c = Controller::new(
        "u".to_string(),
        vec![],
        Felt::one(),
        Felt::one(),
        NoOrigin(InMemoryStorage::new()),
    );
    let expected = || ControllerError::OriginError("no window".to_string());
    assert_eq!(c.session_account(&[transfer_to(1)]), Err(expected()));
    assert_eq!(c.is_session_valid_for(&[]), Err(expected()));
    assert_eq!(c.estimate_invoke_fee(vec![]).map(|i| i.calls), Err(expected()));
    let session = c
        .new_session_with_key(vec![AllowedMethod { contract_address: Felt::one(), selector: Felt::one() }], 5, &key_pair(1))
        .unwrap();
    assert_eq!(c.create_session(session, vec![], Felt::one()), Err(expected()));
    assert!(c.backend().keys().unwrap().is_empty());
}

#[test]
fn select_session_account_reads_the_stored_value() {
    let session = Session::new(
        vec![AllowedMethod { contract_address: Felt::from_u64(0xaa), selector: transfer() }],
        9,
        Felt::from_u64(7),
    )
    .unwrap();
    let stored = || {
        Some(StorageValue::Session(SessionMetadata {
            session: session.duplicate(),
            max_fee: Some(Felt::from_u64(1)),
            credentials: Credentials {
                authorization: vec![Felt::from_u64(4)],
                private_key: Felt::from_u64(5),
            },
        }))
    };
    let address = Felt::from_u64(0x1234);
    let chain_id = Felt::from_u64(2);
    assert_eq!(
        select_session_account(stored(), &[transfer_to(0xaa)], address, chain_id),
        Some(SessionAccount {
            address,
            chain_id,
            private_key: Felt::from_u64(5),
            authorization: vec![Felt::from_u64(4)],
            session: session.duplicate(),
        })
    );
    assert_eq!(select_session_account(stored(), &[transfer_to(0xbb)], address, chain_id), None);
    assert_eq!(select_session_account(None, &[transfer_to(0xaa)], address, chain_id), None);
    assert_eq!(routing_for(None), Routing::OwnerRouted);
}

#[test]
fn new_session_draws_a_fresh_key() {
    let c = controller();
    let methods = vec![AllowedMethod { contract_address: Felt::from_u64(0xaa), selector: transfer() }];
    let (session, key) = c.new_session(methods.clone(), 123).unwrap();
    assert_eq!(session.allowed_methods(), &methods);
    assert_eq!(session.expires_at(), 123);
    assert_eq!(session.session_key(), key.public_key);
    assert_eq!(KeyPair::from_private_key(key.private_key), Some(key));
    let (_, other) = c.new_session(methods, 123).unwrap();
    assert_ne!(other.private_key, key.private_key);
    assert_eq!(
        c.new_session(vec![], 123),
        Err(ControllerError::SignError(SignError::NoAllowedSessionMethods))
    );
}

#[test]
fn delegate_is_the_first_element_of_the_answer() {
    let c = controller();
    assert_eq!(c.delegate_account_from(&vec![Felt::from_u64(0xde1)]), Ok(Felt::from_u64(0xde1)));
    assert_eq!(
        c.delegate_account_from(&vec![Felt::from_u64(7), Felt::from_u64(8)]),
        Ok(Felt::from_u64(7))
    );
    assert!(matches!(
        c.delegate_account_from(&vec![]),
        Err(ControllerError::CairoSerde(text)) if text.contains("ContractAddress")
    ));
}

#[test]
fn a_private_key_that_is_not_the_sessions_own_is_refused() {
    let mut c = controller();
    let methods = vec![AllowedMethod { contract_address: Felt::from_u64(0xaa), selector: transfer() }];
    let bad = || Err(ControllerError::SignError(SignError::BadKey));
    // another key
    let session = c.new_session_with_key(methods.clone(), 10, &key_pair(7)).unwrap();
    assert_eq!(c.create_session(session, vec![Felt::one()], Felt::from_u64(8)), bad());
    // no key at all
    let session = c.new_session_with_key(methods.clone(), 10, &key_pair(7)).unwrap();
    assert_eq!(c.create_session(session, vec![Felt::one()], Felt::zero()), bad());
    // a public key that belongs to no one
    let session = Session::new(methods.clone(), 10, Felt::from_u64(0x5e55)).unwrap();
    assert_eq!(
        c.store_session(Ok("https://a.example".to_string()), session, vec![], Felt::from_u64(7)),
        bad()
    );
    // the key is looked at before the origin
    let session = Session::new(methods.clone(), 10, Felt::from_u64(0x5e55)).unwrap();
    assert_eq!(
        c.store_session(Err(DeviceError::Origin("gone".to_string())), session, vec![], Felt::from_u64(7)),
        bad()
    );
    assert!(c.backend().keys().unwrap().is_empty());
    // the right key is taken
    let session = c.new_session_with_key(methods, 10, &key_pair(7)).unwrap();
    assert_eq!(
        c.create_session(session, vec![Felt::one()], Felt::from_u64(7)),
        Ok((vec![Felt::one()], Felt::from_u64(7)))
    );
}

#[test]
fn a_failed_origin_carries_the_text_of_its_cause() {
    let mut c = controller();
    let causes = [
        DeviceError::Origin("no window".to_string()),
        DeviceError::GetAssertion("cancelled".to_string()),
        DeviceError::CreateCredential("busy".to_string()),
        DeviceError::BadAssertion("forged".to_string()),
    ];
    let texts = ["no window", "cancelled", "busy", "forged"];
    for (cause, text) in causes.into_iter().zip(texts) {
        let expected = || ControllerError::OriginError(text.to_string());
        let again = || match &cause {
            DeviceError::Origin(t) => DeviceError::Origin(t.clone()),
            DeviceError::GetAssertion(t) => DeviceError::GetAssertion(t.clone()),
            DeviceError::CreateCredential(t) => DeviceError::CreateCredential(t.clone()),
            DeviceError::BadAssertion(t) => DeviceError::BadAssertion(t.clone()),
        };
        assert_eq!(c.session_account_for(Err(again()), &[transfer_to(1)]), Err(expected()));
        assert_eq!(c.is_session_valid_for_origin(Err(again()), &[]), Err(expected()));
        assert_eq!(
            c.execute_for(Err(again()), vec![transfer_to(1)], Felt::one(), Felt::one()),
            Err(expected())
        );
        assert_eq!(c.estimate_invoke_fee_for(Err(again()), vec![]), Err(expected()));
        let session = c
            .new_session_with_key(
                vec![AllowedMethod { contract_address: Felt::one(), selector: Felt::one() }],
                5,
                &key_pair(1),
            )
            .unwrap();
        assert_eq!(c.store_session(Err(again()), session, vec![], Felt::one()), Err(expected()));
        assert_eq!(again().into_reason(), text);
    }
    assert!(c.backend().keys().unwrap().is_empty());
}

#[test]
fn a_broken_store_is_not_asked_where_the_origin_is_unknown() {
    let c = Controller::new("u".to_string(), vec![], Felt::one(), Felt::one(), Broken);
    assert_eq!(
        c.session_account_for(Err(DeviceError::Origin("gone".to_string())), &[transfer_to(1)]),
        Err(ControllerError::OriginError("gone".to_string()))
    );
    assert_eq!(
        c.session_account_for(Ok("https://a.example".to_string()), &[transfer_to(1)]),
        Err(ControllerError::StorageError(StorageError::OperationFailed("getting item".to_string())))
    );
}

#[test]
fn the_stores_failure_is_passed_on_as_it_came() {
    let failure = || StorageError::Serialization("bad text".to_string());
    assert_eq!(
        session_account_from(Err(failure()), &[transfer_to(1)], Felt::one(), Felt::one()),
        Err(ControllerError::StorageError(failure()))
    );
    assert_eq!(
        session_account_from(Ok(None), &[transfer_to(1)], Felt::one(), Felt::one()),
        Ok(None)
    );
    assert_eq!(
        stored_session_outcome(Err(failure()), vec![Felt::one()], Felt::one()),
        Err(ControllerError::StorageError(failure()))
    );
    assert_eq!(
        stored_session_outcome(Ok(()), vec![Felt::from_u64(3)], Felt::from_u64(4)),
        Ok((vec![Felt::from_u64(3)], Felt::from_u64(4)))
    );
    let error = || ControllerError::StorageError(failure());
    assert_eq!(
        routed_invocation(Err(error()), vec![transfer_to(1)], None, None),
        Err(error())
    );
    let invocation =
        routed_invocation(Ok(None), vec![transfer_to(1)], Some(Felt::one()), None).unwrap();
    assert_eq!(invocation.routing, Routing::OwnerRouted);
    assert_eq!(invocation.calls, vec![transfer_to(1)]);
    assert_eq!(invocation.nonce, Some(Felt::one()));
    assert_eq!(invocation.max_fee, None);
    let execution = || OutsideExecution {
        caller: OutsideExecutionCaller::Any,
        nonce: Felt::one(),
        execute_after: 0,
        execute_before: 1,
        calls: vec![transfer_to(1)],
    };
    assert_eq!(routed_outside_invocation(Err(error()), execution()), Err(error()));
    let routed = routed_outside_invocation(Ok(None), execution()).unwrap();
    assert_eq!(routed.routing, Routing::OwnerRouted);
    assert_eq!(routed.outside_execution, execution());
    // through the controller: the store's own error comes out
    let c = Controller::new("u".to_string(), vec![], Felt::one(), Felt::one(), Broken);
    let own = || {
        ControllerError::StorageError(StorageError::OperationFailed("getting item".to_string()))
    };
    assert_eq!(c.execute(vec![transfer_to(1)], Felt::one(), Felt::one()), Err(own()));
    assert_eq!(c.estimate_invoke_fee(vec![transfer_to(1)]), Err(own()));
    assert_eq!(c.execute_from_outside(execution()), Err(own()));
    assert_eq!(c.is_session_valid_for(&[transfer_to(1)]), Err(own()));
}

#[test]
fn routing_for_a_given_origin() {
    let mut c = controller();
    let session = c
        .new_session_with_key(
            vec![AllowedMethod { contract_address: Felt::from_u64(0xaa), selector: transfer() }],
            u64::MAX,
            &key_pair(5),
        )
        .unwrap();
    c.store_session(Ok("https://a.example".to_string()), session, vec![], Felt::from_u64(5))
        .unwrap();
    let a = || Ok("https://a.example".to_string());
    let b = || Ok("https://b.example".to_string());
    assert_eq!(c.is_session_valid_for_origin(a(), &[transfer_to(0xaa)]), Ok(true));
    assert_eq!(c.is_session_valid_for_origin(a(), &[transfer_to(0xbb)]), Ok(false));
    assert_eq!(c.is_session_valid_for_origin(b(), &[transfer_to(0xaa)]), Ok(false));
    let routed = c.execute_for(a(), vec![transfer_to(0xaa)], Felt::one(), Felt::one()).unwrap();
    assert!(matches!(routed.routing, Routing::SessionRouted(_)));
    let routed = c.execute_for(b(), vec![transfer_to(0xaa)], Felt::one(), Felt::one()).unwrap();
    assert_eq!(routed.routing, Routing::OwnerRouted);
    let routed = c.estimate_invoke_fee_for(a(), vec![transfer_to(0xaa)]).unwrap();
    assert!(matches!(routed.routing, Routing::SessionRouted(_)));
    let execution = |address: u64| OutsideExecution {
        caller: OutsideExecutionCaller::Any,
        nonce: Felt::one(),
        execute_after: 0,
        execute_before: 1,
        calls: vec![transfer_to(address)],
    };
    let routed = c.execute_from_outside_for(a(), execution(0xaa)).unwrap();
    assert!(matches!(routed.routing, Routing::SessionRouted(_)));
    let routed = c.execute_from_outside_for(a(), execution(0xbb)).unwrap();
    assert_eq!(routed.routing, Routing::OwnerRouted);
    let routed = c.execute_from_outside_for(b(), execution(0xaa)).unwrap();
    assert_eq!(routed.routing, Routing::OwnerRouted);
}
