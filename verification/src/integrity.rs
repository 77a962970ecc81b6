//! Ed25519 checkpoint integrity: a blob is sealed with an agent-held key;
//! on load the seal is verified, and a mismatch means the blob was tampered
//! with or corrupted.

use vstd::prelude::*;
use crate::error::Error;
use crate::text::join;
use crate::wire::{byte_seq, lemma_varint_widths};
use ring::signature::KeyPair as _;

verus! {

#[verifier::external_type_specification]
#[verifier::external_body]
pub struct ExEd25519KeyPair(ring::signature::Ed25519KeyPair);

#[verifier::external_type_specification]
#[verifier::external_body]
pub struct ExSystemRandom(ring::rand::SystemRandom);

/// Whether `signature` is a valid Ed25519 signature of `message` under the
/// encoded public key `public_key`.
pub uninterp spec fn ed25519_valid(public_key: Seq<u8>, message: Seq<u8>, signature: Seq<u8>) -> bool;

/// `ring::rand::SystemRandom::new()`: the operating system's generator.
#[verifier::external_body]
fn system_random() -> ring::rand::SystemRandom {
    ring::rand::SystemRandom::new()
}

/// `Ed25519KeyPair::generate_pkcs8`: a fresh key pair as a PKCS#8 document,
/// or ring's error text. Random, so nothing is stated of it.
#[verifier::external_body]
fn generate_pkcs8(rng: &ring::rand::SystemRandom) -> Result<Vec<u8>, String> {
    ring::signature::Ed25519KeyPair::generate_pkcs8(rng).map(|d| d.as_ref().to_vec()).map_err(
        |e| e.to_string(),
    )
}

/// `Ed25519KeyPair::from_pkcs8`: parse a PKCS#8 v2 document, or ring's
/// error text.
#[verifier::external_body]
fn key_pair_from_pkcs8(pkcs8: &[u8]) -> Result<ring::signature::Ed25519KeyPair, String> {
    ring::signature::Ed25519KeyPair::from_pkcs8(pkcs8).map_err(|e| e.to_string())
}

/// `Ed25519KeyPair::public_key`: the encoded public key of the pair, which
/// ring holds as 32 bytes (`ED25519_PUBLIC_KEY_LEN`).
#[verifier::external_body]
fn public_key_of(inner: &ring::signature::Ed25519KeyPair) -> (k: Vec<u8>)
    ensures
        k@.len() == 32,
{
    inner.public_key().as_ref().to_vec()
}

/// `Ed25519KeyPair::sign`. Claims: the signature is valid for `data` under
/// the pair's public key, which [`KeyPair`] captured from the same ring key
/// pair when it was made (its fields are private and set only there); ring
/// writes Ed25519 signatures of 64 bytes (`SIGNATURE_LEN`).
#[verifier::external_body]
fn sign_with(kp: &KeyPair, data: &[u8]) -> (sig: Vec<u8>)
    ensures
        ed25519_valid(kp.public_spec(), data@, sig@),
        sig@.len() == 64,
{
    kp.inner.sign(data).as_ref().to_vec()
}

/// `UnparsedPublicKey::new(&ED25519, key).verify(message, signature)`.
/// Claims: accepted exactly when the signature is valid.
#[verifier::external_body]
fn ed25519_verify(public_key: &[u8], message: &[u8], signature: &[u8]) -> (ok: bool)
    ensures
        ok == ed25519_valid(public_key@, message@, signature@),
{
    ring::signature::UnparsedPublicKey::new(&ring::signature::ED25519, public_key).verify(
        message,
        signature,
    ).is_ok()
}

/// A signing/verification key pair.
pub struct KeyPair {
    inner: ring::signature::Ed25519KeyPair,
    public: Vec<u8>,
}

impl KeyPair {
    pub closed spec fn public_spec(&self) -> Seq<u8> {
        self.public@
    }

    /// Generate a fresh Ed25519 key pair.
    pub fn generate() -> (r: Result<Self, Error>)
        ensures
            r matches Ok(k) ==> k.public_spec().len() == 32,
            r matches Err(e) ==> (e matches Error::Integrity(m) && ("keygen failed: "@.is_prefix_of(m@)
                || "key parse failed: "@.is_prefix_of(m@))),
    {
        Self::generate_labelled("keygen failed: ", "key parse failed: ")
    }

    /// Generate a fresh key pair; a failure is an integrity error whose text
    /// starts with `keygen` (making the document) or `parse` (reading it).
    pub(crate) fn generate_labelled(keygen: &str, parse: &str) -> (r: Result<Self, Error>)
        ensures
            r matches Ok(k) ==> k.public_spec().len() == 32,
            r matches Err(e) ==> (e matches Error::Integrity(m) && (keygen@.is_prefix_of(m@)
                || parse@.is_prefix_of(m@))),
    {
        let rng = system_random();
        let pkcs8 = match generate_pkcs8(&rng) {
            Ok(d) => d,
            Err(m) => {
                let t = join(keygen, m.as_str());
                proof {
                    assert(keygen@.is_prefix_of(t@)) by {
                        assert(t@.take(keygen@.len() as int) =~= keygen@);
                    }
                }
                return Err(Error::Integrity(t));
            },
        };
        let inner = match key_pair_from_pkcs8(pkcs8.as_slice()) {
            Ok(k) => k,
            Err(m) => {
                let t = join(parse, m.as_str());
                proof {
                    assert(parse@.is_prefix_of(t@)) by {
                        assert(t@.take(parse@.len() as int) =~= parse@);
                    }
                }
                return Err(Error::Integrity(t));
            },
        };
        let public = public_key_of(&inner);
        Ok(KeyPair { inner, public })
    }

    /// The public key bytes (for verification by peers / on restore).
    pub fn public_key(&self) -> (k: Vec<u8>)
        ensures
            k@ == self.public_spec(),
    {
        vstd::slice::slice_to_vec(self.public.as_slice())
    }

    /// Sign `data`: the seal carries the signature and the public key, and
    /// always verifies over `data`.
    pub fn seal(&self, data: &[u8]) -> (s: CheckpointSeal)
        ensures
            s.public_key@ == self.public_spec(),
            ed25519_valid(s.public_key@, data@, s.signature@),
    {
        let signature = sign_with(self, data);
        CheckpointSeal { signature, public_key: self.public_key() }
    }

    /// Sign `data`, returning the raw signature.
    pub fn sign(&self, data: &[u8]) -> (sig: Vec<u8>)
        ensures
            ed25519_valid(self.public_spec(), data@, sig@),
            sig@.len() == 64,
    {
        sign_with(self, data)
    }
}

/// A signature together with the public key it was made with.
#[derive(Debug, Clone, PartialEq)]
pub struct CheckpointSeal {
    pub signature: Vec<u8>,
    pub public_key: Vec<u8>,
}

/// Verify a seal over `data`: true exactly when its signature is valid
/// under its own public key.
pub fn verify_checkpoint(seal: &CheckpointSeal, data: &[u8]) -> (ok: bool)
    ensures
        ok == ed25519_valid(seal.public_key@, data@, seal.signature@),
{
    ed25519_verify(seal.public_key.as_slice(), data, seal.signature.as_slice())
}

/// Verify a raw signature over `data` with `public_key`.
pub fn verify(public_key: &[u8], data: &[u8], signature: &[u8]) -> (ok: bool)
    ensures
        ok == ed25519_valid(public_key@, data@, signature@),
{
    ed25519_verify(public_key, data, signature)
}

/// The postcard encoding of a seal: its signature, then its public key,
/// each with its length.
pub open spec fn postcard_seal(signature: Seq<u8>, public_key: Seq<u8>) -> Seq<u8> {
    byte_seq(signature) + byte_seq(public_key)
}

/// What postcard decodes seal bytes into, if anything.
pub uninterp spec fn postcard_seal_decode(bytes: Seq<u8>) -> Option<(Seq<u8>, Seq<u8>)>;

/// `postcard::to_stdvec` of the seal's fields (the same bytes as the seal
/// record). Claims: it succeeds (postcard's growable-vector output never
/// runs out of room and both byte sequences have a known length), giving
/// postcard's encoding of the fields, which decodes back to them.
#[verifier::external_body]
fn encode_seal_fields(signature: &[u8], public_key: &[u8]) -> (r: Result<Vec<u8>, String>)
    ensures
        r is Ok,
        r matches Ok(b) ==> b@ == postcard_seal(signature@, public_key@) && postcard_seal_decode(b@)
            == Some((signature@, public_key@)),
{
    postcard::to_stdvec(&(signature, public_key)).map_err(|e| e.to_string())
}

/// `postcard::from_bytes` into a seal's fields. Claims: the named decoding.
#[verifier::external_body]
fn decode_seal_fields(bytes: &[u8]) -> (r: Result<(Vec<u8>, Vec<u8>), String>)
    ensures
        match postcard_seal_decode(bytes@) {
            Some(t) => r matches Ok(v) && v.0@ == t.0 && v.1@ == t.1,
            None => r is Err,
        },
{
    postcard::from_bytes::<(Vec<u8>, Vec<u8>)>(bytes).map_err(|e| e.to_string())
}

impl CheckpointSeal {
    /// The seal as opaque bytes: its postcard encoding, which decodes back
    /// to the same seal.
    pub fn to_bytes(&self) -> (b: Vec<u8>)
        ensures
            b@ == postcard_seal(self.signature@, self.public_key@),
            postcard_seal_decode(b@) == Some((self.signature@, self.public_key@)),
            b@.len() <= self.signature@.len() + self.public_key@.len() + 20,
    {
        proof {
            assert(self.signature@.len() == self.signature.len());
            assert(self.public_key@.len() == self.public_key.len());
            lemma_varint_widths(self.signature@.len());
            lemma_varint_widths(self.public_key@.len());
        }
        match encode_seal_fields(self.signature.as_slice(), self.public_key.as_slice()) {
            Ok(b) => b,
            Err(_) => Vec::new(),
        }
    }

    /// Parse opaque seal bytes.
    pub fn from_bytes(bytes: &[u8]) -> (r: Option<Self>)
        ensures
            match postcard_seal_decode(bytes@) {
                Some(t) => r matches Some(s) && s.signature@ == t.0 && s.public_key@ == t.1,
                None => r is None,
            },
    {
        match decode_seal_fields(bytes) {
            Ok((signature, public_key)) => Some(CheckpointSeal { signature, public_key }),
            Err(_) => None,
        }
    }
}

} // verus!
