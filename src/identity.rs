//! Node identity: an Ed25519 key pair, and the node id, the BLAKE3 digest of
//! the public key.
use vstd::prelude::*;

use crate::digest::{blake3_hash, blake3_of, hex_of, to_hex_string};

verus! {

/// A node's identifier: the BLAKE3 digest of its public key.
#[derive(Debug, Clone, Copy, PartialEq, Eq, Hash)]
pub struct NodeId(pub [u8; 32]);

impl NodeId {
    /// The identifier of the node with the given 32-byte Ed25519 public key.
    pub fn from_pubkey(pubkey: &[u8; 32]) -> (r: NodeId)
        ensures
            r.0@ == blake3_of(pubkey@),
    {
        NodeId(blake3_hash(pubkey.as_slice()))
    }

    pub fn as_bytes(&self) -> (r: &[u8; 32])
        ensures
            r@ == self.0@,
    {
        &self.0
    }

    /// The identifier in lower-case hexadecimal.
    pub fn to_hex(&self) -> (r: String)
        ensures
            r@ == hex_of(self.0@),
    {
        to_hex_string(self.0.as_slice())
    }
}

/// The Ed25519 public key of a 32-byte secret key.
pub uninterp spec fn ed25519_public_of(secret: Seq<u8>) -> Seq<u8>;

/// The Ed25519 signature of `message` under a 32-byte secret key.
pub uninterp spec fn ed25519_signature_of(secret: Seq<u8>, message: Seq<u8>) -> Seq<u8>;

/// Whether `signature` is a valid Ed25519 signature of `message` under the
/// public key `public`.
pub uninterp spec fn ed25519_verifies(public: Seq<u8>, message: Seq<u8>, signature: Seq<u8>) -> bool;

/// Relies on ed25519-dalek's `SigningKey::from_bytes` and `verifying_key`:
/// the public key of the secret key, a function of its bytes alone.
#[verifier::external_body]
fn ed25519_public_key(secret: &[u8; 32]) -> (r: [u8; 32])
    ensures
        r@ == ed25519_public_of(secret@),
{
    ed25519_dalek::SigningKey::from_bytes(secret).verifying_key().to_bytes()
}

/// Relies on ed25519-dalek's `Signer::sign` for `SigningKey`: deterministic
/// RFC 8032 signing, a function of the secret key and message alone.
#[verifier::external_body]
fn ed25519_sign(secret: &[u8; 32], message: &[u8]) -> (r: [u8; 64])
    ensures
        r@ == ed25519_signature_of(secret@, message@),
{
    let key = ed25519_dalek::SigningKey::from_bytes(secret);
    ed25519_dalek::Signer::sign(&key, message).to_bytes()
}

/// Relies on ed25519-dalek's `Verifier::verify` for `VerifyingKey`: whether
/// the signature checks; bytes that are no public key check nothing.
#[verifier::external_body]
fn ed25519_verify(public: &[u8; 32], message: &[u8], signature: &[u8; 64]) -> (r: bool)
    ensures
        r == ed25519_verifies(public@, message@, signature@),
{
    match ed25519_dalek::VerifyingKey::from_bytes(public) {
        Ok(key) => ed25519_dalek::Verifier::verify(
            &key,
            message,
            &ed25519_dalek::Signature::from_bytes(signature),
        ).is_ok(),
        Err(_) => false,
    }
}

/// Relies on rand's `thread_rng`: 32 bytes from a cryptographically secure
/// generator; nothing is known of their value.
#[verifier::external_body]
fn random_secret() -> (r: [u8; 32]) {
    let mut bytes = [0u8; 32];
    rand::RngCore::fill_bytes(&mut rand::thread_rng(), &mut bytes);
    bytes
}

/// A node's key pair and the id derived from it.
pub struct Identity {
    secret: [u8; 32],
    public: [u8; 32],
    node_id: NodeId,
}

impl Identity {
    /// The secret key bytes.
    pub closed spec fn secret_key(&self) -> Seq<u8> {
        self.secret@
    }

    /// The key pair is consistent and the id is the digest of its public key.
    pub closed spec fn wf(&self) -> bool {
        &&& self.public@ == ed25519_public_of(self.secret@)
        &&& self.node_id.0@ == blake3_of(self.public@)
    }

    /// The identity with the given secret key.
    pub fn from_secret(secret: [u8; 32]) -> (r: Identity)
        ensures
            r.wf(),
            r.secret_key() == secret@,
    {
        let public = ed25519_public_key(&secret);
        let node_id = NodeId::from_pubkey(&public);
        Identity { secret, public, node_id }
    }

    /// A fresh identity with a random secret key.
    pub fn generate() -> (r: Identity)
        ensures
            r.wf(),
    {
        Identity::from_secret(random_secret())
    }

    /// The node id: the BLAKE3 digest of the public key.
    pub fn node_id(&self) -> (r: NodeId)
        requires
            self.wf(),
        ensures
            r.0@ == blake3_of(ed25519_public_of(self.secret_key())),
    {
        self.node_id
    }

    /// The public key.
    pub fn public_key(&self) -> (r: [u8; 32])
        requires
            self.wf(),
        ensures
            r@ == ed25519_public_of(self.secret_key()),
    {
        self.public
    }

    /// The 64-byte signature of `data` under this identity's key.
    pub fn sign(&self, data: &[u8]) -> (r: [u8; 64])
        ensures
            r@ == ed25519_signature_of(self.secret_key(), data@),
    {
        ed25519_sign(&self.secret, data)
    }

    /// Whether `signature` is a valid signature of `data` under `pubkey`.
    pub fn verify(&self, data: &[u8], signature: &[u8; 64], pubkey: &[u8; 32]) -> (r: bool)
        ensures
            r == ed25519_verifies(pubkey@, data@, signature@),
    {
        ed25519_verify(pubkey, data, signature)
    }
}

} // verus!
