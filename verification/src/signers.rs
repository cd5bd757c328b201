//! Keys and signatures: key pairs on the Stark curve, signatures as runs of
//! field elements, and the errors of signing and of the device that holds a
//! key.

use crate::felt::{lemma_with_value, Felt};
use vstd::prelude::*;

verus! {

/// Why a signature or a session could not be made.
#[derive(Debug, PartialEq, Eq)]
pub enum SignError {
    /// A session needs at least one allowed method.
    NoAllowedSessionMethods,
    /// The key material is no private key of the curve.
    BadKey,
    /// The hash to sign is not below 2^251.
    MessageHashOutOfRange,
    /// The signer refused or failed; the text is its reason.
    Signer(String),
    /// The device that holds the key failed.
    Device(DeviceError),
}

/// Why a hardware key or its surroundings failed.
#[derive(Debug, PartialEq, Eq)]
pub enum DeviceError {
    /// No credential could be created on the authenticator.
    CreateCredential(String),
    /// The authenticator gave no assertion, or the user cancelled.
    GetAssertion(String),
    /// The assertion did not verify.
    BadAssertion(String),
    /// The requesting origin could not be determined.
    Origin(String),
}

impl DeviceError {
    /// The text of the cause.
    pub open spec fn reason(self) -> String {
        match self {
            DeviceError::CreateCredential(text) => text,
            DeviceError::GetAssertion(text) => text,
            DeviceError::BadAssertion(text) => text,
            DeviceError::Origin(text) => text,
        }
    }

    /// The text of the cause.
    pub fn into_reason(self) -> (r: String)
        ensures
            r == self.reason(),
    {
        match self {
            DeviceError::CreateCredential(text) => text,
            DeviceError::GetAssertion(text) => text,
            DeviceError::BadAssertion(text) => text,
            DeviceError::Origin(text) => text,
        }
    }
}

/// The order of the group of the Stark curve.
pub open spec fn curve_order() -> nat {
    0x0800000000000010ffffffffffffffffb781126dcae7b2321e66a241adc64d2fnat
}

/// Whether an element can be a private key: it is no multiple of the order of
/// the curve, so it has a public key.
pub open spec fn is_signing_scalar(secret: Felt) -> bool {
    secret.value() != 0 && secret.value() != curve_order()
}

/// The public key of a private key: the result of
/// `starknet::signers::SigningKey::verifying_key` for that secret scalar.
pub uninterp spec fn stark_public_key(secret: nat) -> nat;

/// The public key of a private key, as an element.
pub open spec fn public_key_of(secret: Felt) -> Felt {
    Felt::with_value(stark_public_key(secret.value()))
}

/// Calls `starknet::signers::SigningKey::from_random` and takes the secret
/// scalar. Trusted: the result is an element; which one is left open.
#[verifier::external_body]
fn random_scalar() -> (r: Felt)
    ensures
        r.is_canonical(),
{
    let d = starknet::signers::SigningKey::from_random().secret_scalar().to_be_digits();
    Felt { hi: d[0], mid_hi: d[1], mid_lo: d[2], lo: d[3] }
}

/// Calls `starknet::signers::SigningKey::verifying_key` on the key made by
/// `from_secret_scalar`. Trusted: for a scalar that is no multiple of the
/// order of the curve the call returns, and its result depends on the scalar
/// alone.
#[verifier::external_body]
fn derive_public_key(secret: &Felt) -> (r: Felt)
    requires
        secret.is_canonical(),
        is_signing_scalar(*secret),
    ensures
        r.is_canonical(),
        r.value() == stark_public_key(secret.value()),
{
    let scalar = starknet::core::types::Felt::from_bytes_be(&secret.to_bytes_be());
    let key = starknet::signers::SigningKey::from_secret_scalar(scalar);
    let d = key.verifying_key().scalar().to_be_digits();
    Felt { hi: d[0], mid_hi: d[1], mid_lo: d[2], lo: d[3] }
}

/// The bound that a hash must be below to be signed: 2^251.
pub open spec fn hash_bound() -> nat {
    0x0800000000000000000000000000000000000000000000000000000000000000nat
}

/// The two numbers of the signature of a private key over a hash: the result
/// of `starknet::signers::SigningKey::sign` for that secret scalar.
pub uninterp spec fn stark_signature(secret: nat, hash: nat) -> (nat, nat);

/// The signature of a private key over a hash as a run of two elements.
pub open spec fn signature_of(secret: Felt, hash: Felt) -> Seq<Felt> {
    seq![
        Felt::with_value(stark_signature(secret.value(), hash.value()).0),
        Felt::with_value(stark_signature(secret.value(), hash.value()).1),
    ]
}

/// What signing a hash with an element as private key gives: the signature,
/// or why there is none.
pub open spec fn signed(secret: Felt, hash: Felt) -> Result<Seq<Felt>, SignError> {
    if !is_signing_scalar(secret) {
        Err(SignError::BadKey)
    } else if hash.value() >= hash_bound() {
        Err(SignError::MessageHashOutOfRange)
    } else {
        Ok(signature_of(secret, hash))
    }
}

/// Calls `starknet::signers::SigningKey::sign` on the key made by
/// `from_secret_scalar`. Trusted: for a scalar that is no multiple of the
/// order of the curve the call returns; it refuses exactly the hashes that
/// are not below 2^251, and its result depends on scalar and hash alone.
#[verifier::external_body]
fn ecdsa_sign(secret: &Felt, hash: &Felt) -> (r: Option<Vec<Felt>>)
    requires
        secret.is_canonical(),
        hash.is_canonical(),
        is_signing_scalar(*secret),
    ensures
        r is Some <==> hash.value() < hash_bound(),
        r is Some ==> r.unwrap()@.len() == 2,
        r is Some ==> r.unwrap()@[0].is_canonical() && r.unwrap()@[0].value() == stark_signature(
            secret.value(),
            hash.value(),
        ).0,
        r is Some ==> r.unwrap()@[1].is_canonical() && r.unwrap()@[1].value() == stark_signature(
            secret.value(),
            hash.value(),
        ).1,
{
    let scalar = starknet::core::types::Felt::from_bytes_be(&secret.to_bytes_be());
    let key = starknet::signers::SigningKey::from_secret_scalar(scalar);
    let message = starknet::core::types::Felt::from_bytes_be(&hash.to_bytes_be());
    let signature = key.sign(&message).ok()?;
    let (r, s) = (signature.r.to_be_digits(), signature.s.to_be_digits());
    Some(
        vec![
            Felt { hi: r[0], mid_hi: r[1], mid_lo: r[2], lo: r[3] },
            Felt { hi: s[0], mid_hi: s[1], mid_lo: s[2], lo: s[3] },
        ],
    )
}

/// Whether an element can be a private key.
pub fn is_signing_key(secret: &Felt) -> (r: bool)
    ensures
        r == is_signing_scalar(*secret),
{
    proof {
        use_type_invariant(secret);
    }
    let order = match Felt::from_be_digits(
        [0x0800_0000_0000_0010, 0xffff_ffff_ffff_ffff, 0xb781_126d_cae7_b232, 0x1e66_a241_adc6_4d2f],
    ) {
        Some(order) => order,
        None => Felt::zero(),
    };
    let zero = Felt::zero();
    proof {
        assert(order.digits()[0] == 0x0800_0000_0000_0010 && order.digits()[1]
            == 0xffff_ffff_ffff_ffff && order.digits()[2] == 0xb781_126d_cae7_b232
            && order.digits()[3] == 0x1e66_a241_adc6_4d2f);
        assert(order.value() == curve_order());
        crate::felt::lemma_value_is_injective(*secret, order);
        crate::felt::lemma_value_is_injective(*secret, zero);
    }
    !(*secret == zero || *secret == order)
}

/// Signs a hash with a private key: the signature is a run of two elements.
/// An element that can be no private key is refused, then a hash that is not
/// below 2^251.
pub fn sign_hash(secret: &Felt, hash: &Felt) -> (r: Result<Vec<Felt>, SignError>)
    ensures
        r is Ok <==> signed(*secret, *hash) is Ok,
        r is Ok ==> r->Ok_0@ == signed(*secret, *hash)->Ok_0,
        r is Err ==> r->Err_0 == signed(*secret, *hash)->Err_0,
{
    if !is_signing_key(secret) {
        return Err(SignError::BadKey);
    }
    proof {
        use_type_invariant(secret);
        use_type_invariant(hash);
    }
    match ecdsa_sign(secret, hash) {
        Some(signature) => {
            proof {
                lemma_with_value(signature@[0]);
                lemma_with_value(signature@[1]);
                assert(signature@ =~= signature_of(*secret, *hash));
            }
            Ok(signature)
        },
        None => Err(SignError::MessageHashOutOfRange),
    }
}

/// Signs a hash with the keys of owner and guardian, the owner first.
pub fn dual_sign(owner: &Felt, guardian: &Felt, hash: &Felt) -> (r: Result<Vec<Felt>, SignError>)
    ensures
        signed(*owner, *hash) is Err ==> r is Err && r->Err_0 == signed(*owner, *hash)->Err_0,
        signed(*owner, *hash) is Ok && signed(*guardian, *hash) is Err ==> r is Err && r->Err_0
            == signed(*guardian, *hash)->Err_0,
        signed(*owner, *hash) is Ok && signed(*guardian, *hash) is Ok ==> r is Ok && r->Ok_0@
            == dual_signature_of(signed(*owner, *hash)->Ok_0, signed(*guardian, *hash)->Ok_0),
{
    dual_signature(sign_hash(owner, hash), sign_hash(guardian, hash))
}

/// A private key on the Stark curve with its public key.
#[derive(Clone, Copy, Debug, PartialEq, Eq, Structural)]
pub struct KeyPair {
    pub private_key: Felt,
    pub public_key: Felt,
}

impl KeyPair {
    /// Whether the pair is a private key with the public key that belongs to
    /// it.
    pub open spec fn well_formed(self) -> bool {
        is_signing_scalar(self.private_key) && self.public_key == public_key_of(self.private_key)
    }

    /// The key pair of a private key, or `None` for an element that can be
    /// none: zero and the order of the curve.
    pub fn from_private_key(private_key: Felt) -> (r: Option<KeyPair>)
        ensures
            r is Some <==> is_signing_scalar(private_key),
            r is Some ==> r->0.private_key == private_key && r->0.well_formed(),
    {
        if is_signing_key(&private_key) {
            proof {
                use_type_invariant(&private_key);
            }
            let public_key = derive_public_key(&private_key);
            proof {
                lemma_with_value(public_key);
            }
            Some(KeyPair { private_key, public_key })
        } else {
            None
        }
    }

    /// Signs a hash with the private key of the pair.
    pub fn sign(&self, hash: &Felt) -> (r: Result<Vec<Felt>, SignError>)
        ensures
            r is Ok <==> signed(self.private_key, *hash) is Ok,
            r is Ok ==> r->Ok_0@ == signed(self.private_key, *hash)->Ok_0,
            r is Err ==> r->Err_0 == signed(self.private_key, *hash)->Err_0,
    {
        sign_hash(&self.private_key, hash)
    }

    /// A fresh key pair from the system's source of randomness. `None` in the
    /// all but impossible case that the draw can be no private key.
    pub fn random() -> (r: Option<KeyPair>)
        ensures
            r is Some ==> r->0.well_formed(),
    {
        KeyPair::from_private_key(random_scalar())
    }
}

/// The signature of an account with a guardian over one hash: the owner's
/// signature followed by the guardian's.
pub open spec fn dual_signature_of(owner: Seq<Felt>, guardian: Seq<Felt>) -> Seq<Felt> {
    owner + guardian
}

/// Joins what the owner and the guardian signed over the same hash, the owner
/// first. Where the owner failed its error is returned, else the guardian's.
pub fn dual_signature(
    owner: Result<Vec<Felt>, SignError>,
    guardian: Result<Vec<Felt>, SignError>,
) -> (r: Result<Vec<Felt>, SignError>)
    ensures
        owner is Err ==> r is Err && r->Err_0 == owner->Err_0,
        owner is Ok && guardian is Err ==> r is Err && r->Err_0 == guardian->Err_0,
        owner is Ok && guardian is Ok ==> r is Ok && r->Ok_0@ == dual_signature_of(
            owner->Ok_0@,
            guardian->Ok_0@,
        ),
{
    match owner {
        Err(e) => Err(e),
        Ok(first) => match guardian {
            Err(e) => Err(e),
            Ok(second) => {
                let ghost head = first@;
                let mut joined = first;
                let mut i: usize = 0;
                while i < second.len()
                    invariant
                        i <= second.len(),
                        joined@ == head + second@.subrange(0, i as int),
                    decreases second.len() - i,
                {
                    joined.push(second[i]);
                    assert(joined@ =~= head + second@.subrange(0, i + 1));
                    i = i + 1;
                }
                assert(second@.subrange(0, second.len() as int) =~= second@);
                Ok(joined)
            },
        },
    }
}

} // verus!
