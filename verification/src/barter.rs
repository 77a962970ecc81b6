//! Signed barter messages and the rules for trusting them.
//!
//! Every message carries its sender's identity, the sender's Ed25519 public
//! key, the encoded payload and the signature over it. A receiver accepts a
//! message only if the signature is valid and the key is the one it pinned
//! for that identity (trust on first use). Reputation gossip travels a
//! bounded number of hops, and a relayed claim is trusted only through the
//! original witness's own signature.

use vstd::prelude::*;
use crate::error::Error;
use crate::types::AgentId;
use crate::integrity::{KeyPair, ed25519_valid, verify};
use crate::pins::{PinStore, bytes_eq};
use crate::text::{decimal, decimal_string, join3};

verus! {

/// Hard ceiling on a signed message's payload, checked before decoding so a
/// hostile peer cannot force an unbounded allocation.
pub const MAX_MESSAGE_BYTES: usize = 64 * 1024;

/// The furthest a relayed reputation claim is trusted to have travelled
/// from its original witness.
pub const MAX_HOPS: u32 = 3;

/// A gossiped report older than this many cycles is stale and ignored.
pub const MAX_REPORT_AGE_CYCLES: u64 = 100;

/// A barter payload with its sender's identity, public key and signature.
#[derive(Debug, Clone)]
pub struct SignedMessage {
    pub signer: AgentId,
    pub public_key: Vec<u8>,
    pub payload: Vec<u8>,
    pub signature: Vec<u8>,
}

/// The text of a refused oversize payload.
pub open spec fn oversize_text(n: nat) -> Seq<char> {
    "message payload of "@ + decimal(n) + " bytes exceeds the 65536-byte limit"@
}

impl SignedMessage {
    /// Check the payload's size before it is decoded.
    pub fn check_payload(&self) -> (r: Result<(), Error>)
        ensures
            r is Ok <==> self.payload@.len() <= MAX_MESSAGE_BYTES,
            r matches Err(e) ==> (e matches Error::Invalid(m) && m@ == oversize_text(
                self.payload@.len(),
            )),
    {
        if self.payload.len() > MAX_MESSAGE_BYTES {
            let n = decimal_string(self.payload.len() as u64);
            return Err(
                Error::Invalid(
                    join3("message payload of ", n.as_str(), " bytes exceeds the 65536-byte limit"),
                ),
            );
        }
        Ok(())
    }
}

/// An Ed25519 signing identity for barter messages.
pub struct Signer {
    keys: KeyPair,
}

impl Signer {
    /// The public key this signer signs under.
    pub closed spec fn public_spec(&self) -> Seq<u8> {
        self.keys.public_spec()
    }

    /// Generate a fresh signing identity.
    pub fn generate() -> (r: Result<Self, Error>)
        ensures
            r matches Ok(k) ==> k.public_spec().len() == 32,
            r matches Err(e) ==> (e matches Error::Integrity(m) && ("negotiate keygen: "@.is_prefix_of(
                m@,
            ) || "negotiate key parse: "@.is_prefix_of(m@))),
    {
        match KeyPair::generate_labelled("negotiate keygen: ", "negotiate key parse: ") {
            Ok(keys) => Ok(Signer { keys }),
            Err(e) => Err(e),
        }
    }

    /// The public key bytes sent with each signed message.
    pub fn public_key(&self) -> (k: Vec<u8>)
        ensures
            k@ == self.public_spec(),
    {
        self.keys.public_key()
    }

    /// Sign `data`, returning the raw signature.
    pub fn sign(&self, data: &[u8]) -> (sig: Vec<u8>)
        ensures
            ed25519_valid(self.public_spec(), data@, sig@),
            sig@.len() == 64,
    {
        self.keys.sign(data)
    }

    /// Package an encoded payload as a message from `signer`, signed under
    /// this identity's key.
    pub fn sign_message(&self, signer: AgentId, payload: Vec<u8>) -> (m: SignedMessage)
        ensures
            m.signer == signer,
            m.payload@ == payload@,
            m.public_key@ == self.public_spec(),
            ed25519_valid(m.public_key@, m.payload@, m.signature@),
    {
        let signature = self.sign(payload.as_slice());
        SignedMessage { signer, public_key: self.public_key(), payload, signature }
    }
}

/// Whether a message from `signer` under `public_key`, whose signature
/// check came out `valid`, is accepted against the pins `pins`.
pub open spec fn binding_accepts(
    pins: Map<Seq<u8>, Seq<u8>>,
    signer: Seq<u8>,
    public_key: Seq<u8>,
    valid: bool,
) -> bool {
    valid && (!pins.contains_key(signer) || pins[signer] == public_key)
}

/// The pins after that check: an accepted first sighting pins the key.
pub open spec fn pins_after(
    pins: Map<Seq<u8>, Seq<u8>>,
    signer: Seq<u8>,
    public_key: Seq<u8>,
    valid: bool,
) -> Map<Seq<u8>, Seq<u8>> {
    if binding_accepts(pins, signer, public_key, valid) && !pins.contains_key(signer) {
        pins.insert(signer, public_key)
    } else {
        pins
    }
}

/// Verify a signed payload and bind its signer's identity to the key:
/// accepted when the signature is valid and the key is the one pinned for
/// `signer`, or pinned now when `signer` is seen for the first time.
pub fn verify_binding(
    pins: &mut PinStore,
    signer: AgentId,
    public_key: &[u8],
    payload: &[u8],
    signature: &[u8],
) -> (ok: bool)
    ensures
        ok == binding_accepts(
            old(pins)@,
            signer@,
            public_key@,
            ed25519_valid(public_key@, payload@, signature@),
        ),
        final(pins)@ == pins_after(
            old(pins)@,
            signer@,
            public_key@,
            ed25519_valid(public_key@, payload@, signature@),
        ),
{
    if !verify(public_key, payload, signature) {
        return false;
    }
    match pins.lookup(&signer) {
        Some(pinned) => bytes_eq(pinned.as_slice(), public_key),
        None => {
            pins.pin(signer, public_key);
            true
        },
    }
}

/// Trust on first use: once a key has been accepted for an identity, a
/// message claiming that identity under any other key is refused, whatever
/// its signature.
pub proof fn lemma_pinned_key_excludes_others(
    pins: Map<Seq<u8>, Seq<u8>>,
    signer: Seq<u8>,
    first_key: Seq<u8>,
    first_valid: bool,
    other_key: Seq<u8>,
    other_valid: bool,
)
    requires
        binding_accepts(pins, signer, first_key, first_valid),
        other_key != first_key,
    ensures
        !binding_accepts(pins_after(pins, signer, first_key, first_valid), signer, other_key, other_valid),
        pins_after(pins, signer, first_key, first_valid)[signer] == first_key,
{
}

/// A message this agent signed is accepted by any receiver that has not
/// pinned another key for the sender.
pub proof fn lemma_signed_message_accepted(pins: Map<Seq<u8>, Seq<u8>>, m: SignedMessage)
    requires
        ed25519_valid(m.public_key@, m.payload@, m.signature@),
        !pins.contains_key(m.signer@) || pins[m.signer@] == m.public_key@,
    ensures
        binding_accepts(
            pins,
            m.signer@,
            m.public_key@,
            ed25519_valid(m.public_key@, m.payload@, m.signature@),
        ),
{
}

/// The hop count carried by a relayed copy of a claim that has travelled
/// `hops` hops, or `None` when relaying it would exceed [`MAX_HOPS`].
pub fn next_relay_hops(hops: u32) -> (r: Option<u32>)
    ensures
        r == if hops >= MAX_HOPS { None::<u32> } else { Some((hops + 1) as u32) },
        r matches Some(h) ==> 1 <= h <= MAX_HOPS,
{
    if hops >= MAX_HOPS {
        None
    } else {
        Some(hops + 1)
    }
}

/// Whether a relayed claim's hop count is one a receiver trusts.
pub fn relayed_hops_acceptable(hops: u32) -> (ok: bool)
    ensures
        ok == (1 <= hops <= MAX_HOPS),
{
    1 <= hops && hops <= MAX_HOPS
}

/// Whether a relayed reputation report is folded into the hearsay book: its
/// relayer is not blacklisted, its hop count is trusted, its provenance
/// checks out, and the original it embeds is about the same subject.
pub fn relayed_report_folds(relayer_blacklisted: bool, hops: u32, provenance_accepted: bool, same_subject: bool) -> (fold: bool)
    ensures
        fold == (!relayer_blacklisted && 1 <= hops <= MAX_HOPS && provenance_accepted && same_subject),
{
    !relayer_blacklisted && relayed_hops_acceptable(hops) && provenance_accepted && same_subject
}

/// Check a relayed report's provenance: its hop count is trusted, the
/// embedded original was signed by the claimed `origin`, and that
/// signature binds to the key pinned for `origin`.
pub fn provenance_ok(pins: &mut PinStore, origin: AgentId, hops: u32, inner: &SignedMessage) -> (ok: bool)
    ensures
        ok == (1 <= hops <= MAX_HOPS && inner.signer@ == origin@ && binding_accepts(
            old(pins)@,
            inner.signer@,
            inner.public_key@,
            ed25519_valid(inner.public_key@, inner.payload@, inner.signature@),
        )),
        final(pins)@ == if 1 <= hops <= MAX_HOPS && inner.signer@ == origin@ {
            pins_after(
                old(pins)@,
                inner.signer@,
                inner.public_key@,
                ed25519_valid(inner.public_key@, inner.payload@, inner.signature@),
            )
        } else {
            old(pins)@
        },
{
    if !relayed_hops_acceptable(hops) {
        return false;
    }
    if !(inner.signer == origin) {
        return false;
    }
    verify_binding(
        pins,
        inner.signer,
        inner.public_key.as_slice(),
        inner.payload.as_slice(),
        inner.signature.as_slice(),
    )
}

} // verus!
