//! Cryptographic primitives: opaque fixed-length byte identifiers for public
//! keys, signatures and hashes, and a key pair that signs byte sequences.
//!
//! The signature scheme itself (Ed25519) is an external collaborator: its
//! calls stand behind trusted wrappers, and what they return is named by
//! uninterpreted spec functions. Everything else here is verified.

use vstd::prelude::*;
use ed25519_dalek::Signer;
use ed25519_dalek::Verifier;

verus! {

/// The Ed25519 public key derived from 32 bytes of secret key material.
pub uninterp spec fn pk_of(secret: Seq<u8>) -> Seq<u8>;

/// The (deterministic) Ed25519 signature by a secret key over a message.
pub uninterp spec fn sig_of(secret: Seq<u8>, msg: Seq<u8>) -> Seq<u8>;

/// Whether Ed25519 verification accepts `sig` as a signature by `pk` over `msg`.
pub uninterp spec fn sig_ok(pk: Seq<u8>, msg: Seq<u8>, sig: Seq<u8>) -> bool;

/// A sequence of `n` zero bytes: the deterministic default value of the
/// fixed-length identifier types.
pub open spec fn zero_bytes(n: nat) -> Seq<u8> {
    Seq::new(n, |i: int| 0u8)
}

/// An opaque 32-byte public key identifying an account.
#[derive(Debug)]
pub struct PublicKey {
    bytes: Vec<u8>,
}

/// An opaque 64-byte signature.
#[derive(Debug)]
pub struct Signature {
    bytes: Vec<u8>,
}

/// An opaque 32-byte hash, used as a freshness (anti-replay) marker.
#[derive(Debug)]
pub struct Hash {
    bytes: Vec<u8>,
}

/// Signing material: 32 bytes of Ed25519 secret key.
pub struct KeyPair {
    secret: Vec<u8>,
}

impl View for PublicKey {
    type V = Seq<u8>;

    closed spec fn view(&self) -> Seq<u8> {
        self.bytes@
    }
}

impl View for Signature {
    type V = Seq<u8>;

    closed spec fn view(&self) -> Seq<u8> {
        self.bytes@
    }
}

impl View for Hash {
    type V = Seq<u8>;

    closed spec fn view(&self) -> Seq<u8> {
        self.bytes@
    }
}

impl View for KeyPair {
    type V = Seq<u8>;

    closed spec fn view(&self) -> Seq<u8> {
        self.secret@
    }
}

/// Compare two byte vectors for element-wise equality.
fn bytes_eq(a: &Vec<u8>, b: &Vec<u8>) -> (r: bool)
    ensures
        r == (a@ == b@),
{
    if a.len() != b.len() {
        return false;
    }
    let mut i: usize = 0;
    while i < a.len()
        invariant
            i <= a.len(),
            a@.len() == b@.len(),
            forall|j: int| 0 <= j < i ==> a@[j] == b@[j],
        decreases a.len() - i,
    {
        if a[i] != b[i] {
            return false;
        }
        i += 1;
    }
    proof {
        assert(a@ =~= b@);
    }
    true
}

/// Copy a byte vector.
pub(crate) fn copy_bytes(src: &Vec<u8>) -> (r: Vec<u8>)
    ensures
        r@ == src@,
{
    let mut out: Vec<u8> = Vec::new();
    let mut i: usize = 0;
    while i < src.len()
        invariant
            i <= src.len(),
            out@ =~= src@.subrange(0, i as int),
        decreases src.len() - i,
    {
        out.push(src[i]);
        i += 1;
    }
    proof {
        assert(out@ =~= src@);
    }
    out
}

/// A vector of `n` zero bytes.
fn zero_vec(n: usize) -> (r: Vec<u8>)
    ensures
        r@ == zero_bytes(n as nat),
{
    let mut out: Vec<u8> = Vec::new();
    let mut i: usize = 0;
    while i < n
        invariant
            i <= n,
            out@ =~= zero_bytes(n as nat).subrange(0, i as int),
        decreases n - i,
    {
        out.push(0u8);
        i += 1;
    }
    proof {
        assert(out@ =~= zero_bytes(n as nat));
    }
    out
}

impl PublicKey {
    /// A public key is well-formed when it holds exactly 32 bytes.
    pub open spec fn wf(&self) -> bool {
        self@.len() == 32
    }

    /// Wrap 32 raw bytes as a public key; any other length is rejected.
    pub fn from_bytes(bytes: Vec<u8>) -> (r: Option<PublicKey>)
        ensures
            (r is Some) == (bytes@.len() == 32),
            r matches Some(pk) ==> pk@ == bytes@ && pk.wf(),
    {
        if bytes.len() == 32 {
            Some(PublicKey { bytes })
        } else {
            None
        }
    }

    /// The raw bytes of this key.
    pub fn bytes(&self) -> (r: &Vec<u8>)
        ensures
            r@ == self@,
    {
        &self.bytes
    }
}

impl Signature {
    /// A signature is well-formed when it holds exactly 64 bytes.
    pub open spec fn wf(&self) -> bool {
        self@.len() == 64
    }

    /// Wrap 64 raw bytes as a signature; any other length is rejected.
    pub fn from_bytes(bytes: Vec<u8>) -> (r: Option<Signature>)
        ensures
            (r is Some) == (bytes@.len() == 64),
            r matches Some(s) ==> s@ == bytes@ && s.wf(),
    {
        if bytes.len() == 64 {
            Some(Signature { bytes })
        } else {
            None
        }
    }

    /// The raw bytes of this signature.
    pub fn bytes(&self) -> (r: &Vec<u8>)
        ensures
            r@ == self@,
    {
        &self.bytes
    }

    /// Check this signature against a public key and a message.
    ///
    /// Relies on `ed25519_dalek::VerifyingKey::verify` (and
    /// `VerifyingKey::from_bytes`, whose rejection of bytes that are no valid
    /// key is folded into `sig_ok`): the outcome is a deterministic function
    /// of the key bytes, the message and the signature bytes alone.
    #[verifier::external_body]
    pub fn verify(&self, pk: &PublicKey, msg: &Vec<u8>) -> (r: bool)
        requires
            self.wf(),
            pk.wf(),
        ensures
            r == sig_ok(pk@, msg@, self@),
    {
        let pk_arr: [u8; 32] = pk.bytes.as_slice().try_into().unwrap();
        let sig_arr: [u8; 64] = self.bytes.as_slice().try_into().unwrap();
        let vk = match ed25519_dalek::VerifyingKey::from_bytes(&pk_arr) {
            Ok(k) => k,
            Err(_) => return false,
        };
        let sig = ed25519_dalek::Signature::from_bytes(&sig_arr);
        vk.verify(msg.as_slice(), &sig).is_ok()
    }
}

impl Hash {
    /// A hash is well-formed when it holds exactly 32 bytes.
    pub open spec fn wf(&self) -> bool {
        self@.len() == 32
    }

    /// Wrap 32 raw bytes as a hash; any other length is rejected.
    pub fn from_bytes(bytes: Vec<u8>) -> (r: Option<Hash>)
        ensures
            (r is Some) == (bytes@.len() == 32),
            r matches Some(h) ==> h@ == bytes@ && h.wf(),
    {
        if bytes.len() == 32 {
            Some(Hash { bytes })
        } else {
            None
        }
    }

    /// The raw bytes of this hash.
    pub fn bytes(&self) -> (r: &Vec<u8>)
        ensures
            r@ == self@,
    {
        &self.bytes
    }
}

impl KeyPair {
    /// Generate a fresh key pair.
    ///
    /// Relies on `rand::random` for the secret bytes; nothing is promised of
    /// their value, only that 32 of them come back.
    #[verifier::external_body]
    pub fn new() -> (r: KeyPair)
        ensures
            r.wf(),
    {
        let secret: [u8; 32] = rand::random();
        KeyPair { secret: secret.to_vec() }
    }

    /// A key pair is well-formed when it holds exactly 32 secret bytes.
    pub open spec fn wf(&self) -> bool {
        self@.len() == 32
    }

    /// The public key of this key pair.
    ///
    /// Relies on `ed25519_dalek::SigningKey::verifying_key` (reached through
    /// `SigningKey::from_bytes`): the public key is a deterministic function
    /// of the secret bytes, and is 32 bytes long.
    #[verifier::external_body]
    pub fn pubkey(&self) -> (r: PublicKey)
        requires
            self.wf(),
        ensures
            r@ == pk_of(self@),
            r.wf(),
    {
        let arr: [u8; 32] = self.secret.as_slice().try_into().unwrap();
        let sk = ed25519_dalek::SigningKey::from_bytes(&arr);
        PublicKey { bytes: sk.verifying_key().to_bytes().to_vec() }
    }

    /// Sign a byte sequence with this key pair's secret key.
    ///
    /// Relies on `ed25519_dalek::SigningKey`'s `Signer::sign`: Ed25519 signing
    /// is deterministic in the secret key and the message, produces 64 bytes,
    /// and what it produces is accepted by verification under the matching
    /// public key.
    #[verifier::external_body]
    pub fn sign(&self, msg: &Vec<u8>) -> (r: Signature)
        requires
            self.wf(),
        ensures
            r@ == sig_of(self@, msg@),
            r.wf(),
            sig_ok(pk_of(self@), msg@, r@),
    {
        let arr: [u8; 32] = self.secret.as_slice().try_into().unwrap();
        let sk = ed25519_dalek::SigningKey::from_bytes(&arr);
        Signature { bytes: sk.sign(msg.as_slice()).to_bytes().to_vec() }
    }
}

impl Clone for PublicKey {
    /// Cloning a public key keeps its bytes.
    fn clone(&self) -> (r: Self)
        ensures
            r@ == self@,
    {
        PublicKey { bytes: copy_bytes(&self.bytes) }
    }
}

impl Clone for Signature {
    /// Cloning a signature keeps its bytes.
    fn clone(&self) -> (r: Self)
        ensures
            r@ == self@,
    {
        Signature { bytes: copy_bytes(&self.bytes) }
    }
}

impl Clone for Hash {
    /// Cloning a hash keeps its bytes.
    fn clone(&self) -> (r: Self)
        ensures
            r@ == self@,
    {
        Hash { bytes: copy_bytes(&self.bytes) }
    }
}

impl PartialEq for PublicKey {
    fn eq(&self, other: &Self) -> (r: bool) {
        bytes_eq(&self.bytes, &other.bytes)
    }
}

impl vstd::std_specs::cmp::PartialEqSpecImpl for PublicKey {
    open spec fn obeys_eq_spec() -> bool {
        true
    }

    open spec fn eq_spec(&self, other: &Self) -> bool {
        self@ == other@
    }
}

impl PartialEq for Signature {
    fn eq(&self, other: &Self) -> (r: bool) {
        bytes_eq(&self.bytes, &other.bytes)
    }
}

impl vstd::std_specs::cmp::PartialEqSpecImpl for Signature {
    open spec fn obeys_eq_spec() -> bool {
        true
    }

    open spec fn eq_spec(&self, other: &Self) -> bool {
        self@ == other@
    }
}

impl PartialEq for Hash {
    fn eq(&self, other: &Self) -> (r: bool) {
        bytes_eq(&self.bytes, &other.bytes)
    }
}

impl vstd::std_specs::cmp::PartialEqSpecImpl for Hash {
    open spec fn obeys_eq_spec() -> bool {
        true
    }

    open spec fn eq_spec(&self, other: &Self) -> bool {
        self@ == other@
    }
}

impl Default for PublicKey {
    /// The deterministic zero public key.
    fn default() -> (r: Self)
        ensures
            r@ == zero_bytes(32),
            r.wf(),
    {
        PublicKey { bytes: zero_vec(32) }
    }
}

impl Default for Signature {
    /// The deterministic zero signature.
    fn default() -> (r: Self)
        ensures
            r@ == zero_bytes(64),
            r.wf(),
    {
        Signature { bytes: zero_vec(64) }
    }
}

impl Default for Hash {
    /// The deterministic zero hash.
    fn default() -> (r: Self)
        ensures
            r@ == zero_bytes(32),
            r.wf(),
    {
        Hash { bytes: zero_vec(32) }
    }
}

} // verus!
