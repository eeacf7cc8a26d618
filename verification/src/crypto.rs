//! Cryptographic primitives, consumed from `sp_core` / `sp_runtime` behind
//! trusted declarations: sr25519 key pairs, signing, signature verification,
//! and Blake2b-256 hashing.

use vstd::prelude::*;

use crate::Error;
use sp_core::crypto::ByteArray;
use sp_core::crypto::Pair as PairTrait;

verus! {

/// Outcome of sp_core sr25519 verification of a raw signature against a raw
/// message and raw public-key bytes; a pure function of the three byte
/// strings.
pub uninterp spec fn sr25519_verifies(sig: Seq<u8>, msg: Seq<u8>, pk: Seq<u8>) -> bool;

/// Raw public key of the sr25519 pair that sp_core derives from a seed; a
/// pure function of the seed bytes.
pub uninterp spec fn sr25519_public_of_seed(seed: Seq<u8>) -> Seq<u8>;

/// Blake2b-256 digest of a byte string.
pub uninterp spec fn blake2_256_of(data: Seq<u8>) -> Seq<u8>;

#[verifier::external_type_specification]
#[verifier::external_body]
pub struct ExSr25519Pair(sp_core::sr25519::Pair);

#[verifier::external_type_specification]
#[verifier::external_body]
pub struct ExSecretStringError(sp_core::crypto::SecretStringError);

/// The local node's signing identity: an sr25519 key pair together with the
/// raw bytes of its public key. Values exist only through the constructors
/// below, which record the pair's own public key, so a signature produced
/// with the pair verifies against `pk()`.
pub struct KeyPair {
    pair: sp_core::sr25519::Pair,
    public_bytes: Vec<u8>,
}

impl KeyPair {
    /// The raw public-key bytes (also the node's account identity).
    pub closed spec fn pk(self) -> Seq<u8> {
        self.public_bytes@
    }

    /// Every key pair the library hands out carries a 32-byte public key.
    pub closed spec fn wf(self) -> bool {
        self.public_bytes@.len() == 32
    }

    /// The raw bytes of the public key.
    pub fn public_key(&self) -> (r: &Vec<u8>)
        ensures
            r@ == self.pk(),
    {
        &self.public_bytes
    }
}

/// Relies on sp_core::sr25519::Pair::generate (a fresh random key pair) and
/// Pair::public / to_raw_vec for the raw key bytes; nothing is promised of
/// which key comes back.
#[verifier::external_body]
pub fn generate_keypair() -> (r: KeyPair)
    ensures
        r.wf(),
{
    let (pair, _seed) = sp_core::sr25519::Pair::generate();
    let public_bytes = pair.public().to_raw_vec();
    KeyPair { pair, public_bytes }
}

/// Relies on sp_core::sr25519::Pair::from_seed_slice: a 32-byte seed always
/// yields a pair, a length other than 32 or 64 is always rejected, and the
/// pair — hence its public key — is a function of the seed alone.
#[verifier::external_body]
fn keypair_from_seed_raw(seed: &[u8]) -> (r: Result<KeyPair, sp_core::crypto::SecretStringError>)
    ensures
        seed@.len() == 32 ==> r is Ok,
        seed@.len() != 32 && seed@.len() != 64 ==> r is Err,
        r matches Ok(kp) ==> kp.wf() && kp.pk() == sr25519_public_of_seed(seed@),
{
    match sp_core::sr25519::Pair::from_seed_slice(seed) {
        Ok(pair) => {
            let public_bytes = pair.public().to_raw_vec();
            Ok(KeyPair { pair, public_bytes })
        },
        Err(e) => Err(e),
    }
}

/// Derive a key pair from raw seed bytes. A 32-byte seed always succeeds; a
/// seed of any length other than 32 or 64 bytes is rejected.
pub fn keypair_from_seed(seed: &[u8]) -> (r: Result<KeyPair, Error>)
    ensures
        seed@.len() == 32 ==> r is Ok,
        seed@.len() != 32 && seed@.len() != 64 ==> r == Err::<KeyPair, Error>(Error::Crypto),
        r matches Ok(kp) ==> kp.wf() && kp.pk() == sr25519_public_of_seed(seed@),
{
    match keypair_from_seed_raw(seed) {
        Ok(kp) => Ok(kp),
        Err(_) => Err(Error::Crypto),
    }
}

/// Relies on sp_core::sr25519::Pair::sign: the signature it produces is 64
/// bytes and verifies, under sp_core sr25519 verification, against the
/// signing pair's public key and the signed message.
#[verifier::external_body]
pub fn sign(keypair: &KeyPair, message: &[u8]) -> (r: Vec<u8>)
    ensures
        r@.len() == 64,
        sr25519_verifies(r@, message@, keypair.pk()),
{
    keypair.pair.sign(message).to_raw_vec()
}

/// Relies on sp_core::sr25519::Pair::verify (with Signature/Public::from_slice
/// converting the raw arguments): the outcome is a function of signature,
/// message and public-key bytes alone, and bytes that are not a well-formed
/// 64-byte signature or 32-byte key never verify.
#[verifier::external_body]
pub fn verify(signature: &Vec<u8>, message: &[u8], public: &Vec<u8>) -> (r: bool)
    ensures
        r == sr25519_verifies(signature@, message@, public@),
        signature@.len() != 64 ==> !r,
        public@.len() != 32 ==> !r,
{
    let sig = match sp_core::sr25519::Signature::from_slice(signature) {
        Ok(s) => s,
        Err(()) => return false,
    };
    let pk = match sp_core::sr25519::Public::from_slice(public) {
        Ok(p) => p,
        Err(()) => return false,
    };
    sp_core::sr25519::Pair::verify(&sig, message, &pk)
}

/// Relies on sp_runtime::traits::BlakeTwo256 (Blake2b-256): the digest is 32
/// bytes and a function of the input bytes alone.
#[verifier::external_body]
pub fn hash(data: &[u8]) -> (r: Vec<u8>)
    ensures
        r@.len() == 32,
        r@ == blake2_256_of(data@),
{
    let h = <sp_runtime::traits::BlakeTwo256 as sp_runtime::traits::Hash>::hash(data);
    h.as_bytes().to_vec()
}

} // verus!
