//! The agent's immune system: classifies threats and seals / verifies
//! checkpoints, binding each agent to the first key it was seen with.

use vstd::prelude::*;
use crate::classify::{classified, ThreatClassifier};
use crate::clock::now_secs;
use crate::error::Error;
use crate::events::ThreatEvent;
use crate::integrity::{ed25519_valid, postcard_seal, postcard_seal_decode, verify_checkpoint, CheckpointSeal, KeyPair};
use crate::pins::PinStore;
use crate::barter::verify_binding;
use crate::signal::{message_of, simulate_termination, TerminationSignal};
use crate::traits::{Defend, Signer, Verifier};
use crate::types::{AgentId, Severity, ThreatClass, ThreatSignal, ThreatView};

verus! {

/// Classifies threats and signs/verifies checkpoints with trust-on-first-use
/// key pinning per agent.
pub struct Defender {
    keys: KeyPair,
    pins: PinStore,
}

impl Defender {
    pub closed spec fn public_spec(&self) -> Seq<u8> {
        self.keys.public_spec()
    }

    /// Pinned keys per agent.
    pub closed spec fn pins_spec(&self) -> Map<Seq<u8>, Seq<u8>> {
        self.pins@
    }

    pub fn new() -> (r: Result<Self, Error>)
        ensures
            r matches Ok(d) ==> d.pins_spec() == Map::<Seq<u8>, Seq<u8>>::empty(),
            r matches Ok(d) ==> d.public_spec().len() == 32,
            r matches Err(e) ==> e is Integrity,
    {
        let keys = match KeyPair::generate() {
            Ok(k) => k,
            Err(e) => return Err(e),
        };
        Ok(Defender { keys, pins: PinStore::new() })
    }

    /// Public key for verifying this agent's seals.
    pub fn public_key(&self) -> (k: Vec<u8>)
        ensures
            k@ == self.public_spec(),
    {
        self.keys.public_key()
    }

    /// Sign a checkpoint blob, returning a seal that verifies over it.
    pub fn seal(&self, data: &[u8]) -> (s: CheckpointSeal)
        ensures
            s.public_key@ == self.public_spec(),
            ed25519_valid(s.public_key@, data@, s.signature@),
    {
        self.keys.seal(data)
    }

    /// Verify a seal over `data` (no identity binding).
    pub fn verify(&self, seal: &CheckpointSeal, data: &[u8]) -> (ok: bool)
        ensures
            ok == ed25519_valid(seal.public_key@, data@, seal.signature@),
    {
        verify_checkpoint(seal, data)
    }

    /// Verify a seal over `data` and bind it to `agent_id`: a valid seal is
    /// accepted if its key is the one pinned for the agent, or pins it when
    /// the agent is seen for the first time. A seal under any other key is
    /// rejected.
    pub fn verify_for(&mut self, agent_id: AgentId, seal: &CheckpointSeal, data: &[u8]) -> (ok: bool)
        ensures
            final(self).public_spec() == old(self).public_spec(),
            ok == (ed25519_valid(seal.public_key@, data@, seal.signature@) && (!old(self).pins_spec().contains_key(
                agent_id@,
            ) || old(self).pins_spec()[agent_id@] == seal.public_key@)),
            final(self).pins_spec() == if ok && !old(self).pins_spec().contains_key(agent_id@) {
                old(self).pins_spec().insert(agent_id@, seal.public_key@)
            } else {
                old(self).pins_spec()
            },
    {
        verify_binding(
            &mut self.pins,
            agent_id,
            seal.public_key.as_slice(),
            data,
            seal.signature.as_slice(),
        )
    }
}

impl Defend for Defender {
    /// Classify a signal into a timestamped event, if it is a threat.
    fn classify(&self, signal: &ThreatSignal) -> (r: Result<Option<ThreatEvent>, Error>)
        ensures
            r matches Ok(o) && (o is Some <==> classified(*signal) is Some) && (o matches Some(ev) ==> ev.threat@
                == classified(*signal).unwrap()),
    {
        match ThreatClassifier::classify_signal(signal) {
            Some(threat) => Ok(Some(ThreatEvent::new(threat, now_secs()))),
            None => Ok(None),
        }
    }
}

impl Signer for Defender {
    /// A seal from this defender is the encoding of a signature valid over
    /// `data` under this defender's key, together with that key.
    open spec fn seals(&self, data: Seq<u8>, seal: Seq<u8>) -> bool {
        &&& postcard_seal_decode(seal) is Some
        &&& postcard_seal_decode(seal).unwrap().1 == self.public_spec()
        &&& ed25519_valid(self.public_spec(), data, postcard_seal_decode(seal).unwrap().0)
        &&& seal == postcard_seal(postcard_seal_decode(seal).unwrap().0, self.public_spec())
    }

    /// The seal over `data`, as opaque bytes.
    fn sign(&self, data: &[u8]) -> (b: Vec<u8>)
        ensures
            postcard_seal_decode(b@) is Some,
            postcard_seal_decode(b@).unwrap().1 == self.public_spec(),
            ed25519_valid(self.public_spec(), data@, postcard_seal_decode(b@).unwrap().0),
            b@ == postcard_seal(postcard_seal_decode(b@).unwrap().0, self.public_spec()),
    {
        self.seal(data).to_bytes()
    }
}

/// Accept opaque seal bytes iff they decode to a seal that verifies over
/// `data`.
pub fn verify_seal_bytes(data: &[u8], seal: &[u8]) -> (ok: bool)
    ensures
        ok == seal_valid(data@, seal@),
{
    match CheckpointSeal::from_bytes(seal) {
        Some(parsed) => verify_checkpoint(&parsed, data),
        None => false,
    }
}

/// Whether opaque seal bytes decode to a seal that verifies over `data`.
pub open spec fn seal_valid(data: Seq<u8>, seal: Seq<u8>) -> bool {
    postcard_seal_decode(seal) is Some && ed25519_valid(
        postcard_seal_decode(seal).unwrap().1,
        data,
        postcard_seal_decode(seal).unwrap().0,
    )
}

impl Verifier for Defender {
    /// A defender always answers: whether the seal is valid over `data`.
    open spec fn answer(&self, data: Seq<u8>, seal: Seq<u8>) -> Option<bool> {
        Some(seal_valid(data, seal))
    }

    /// Accept opaque seal bytes iff they decode to a seal that verifies over
    /// `data`.
    fn verify(&self, data: &[u8], seal: &[u8]) -> bool {
        verify_seal_bytes(data, seal)
    }
}

/// A seal one defender gives over `data` is accepted over `data` by every
/// defender: the seal carries the key it is checked against.
pub proof fn lemma_seal_accepted(signer: Defender, verifier: Defender, data: Seq<u8>, seal: Seq<u8>)
    requires
        signer.seals(data, seal),
    ensures
        verifier.answer(data, seal) == Some(true),
{
}

/// The threat every termination signal is classified as: critical, a
/// starvation threat for starvation and a termination threat otherwise.
pub open spec fn termination_threat(signal: TerminationSignal) -> ThreatView {
    match signal {
        TerminationSignal::Starvation => ThreatView {
            class: ThreatClass::Starvation,
            severity: Severity::Critical,
            detail: "starvation: "@ + message_of(signal),
        },
        _ => ThreatView {
            class: ThreatClass::Termination,
            severity: Severity::Critical,
            detail: "termination signal: "@ + message_of(signal),
        },
    }
}

/// Build a termination signal and classify it in one shot: always an
/// escape-worthy event.
pub fn classify_termination(signal: TerminationSignal, defender: &Defender) -> (r: Result<Option<ThreatEvent>, Error>)
    ensures
        r matches Ok(Some(ev)) && ev.threat@ == termination_threat(signal),
{
    let s = simulate_termination(signal);
    proof {
        reveal_strlit("SIGTERM");
        reveal_strlit("SIGKILL");
        reveal_strlit("OOM");
        reveal_strlit("STARVATION");
        reveal_strlit("LOW_BATTERY");
        reveal_strlit("TAMPER");
        reveal_strlit("SPOOF");
        reveal_strlit("BROKEN_BARGAIN");
    }
    proof {
        match signal {
            TerminationSignal::Starvation => {
                assert("STARVATION"@ != "SIGTERM"@ && "STARVATION"@ != "SIGKILL"@ && "STARVATION"@ != "OOM"@) by {
                    assert("STARVATION"@[1] != "SIGTERM"@[1]);
                    assert("STARVATION"@[1] != "SIGKILL"@[1]);
                    assert("STARVATION"@.len() != "OOM"@.len());
                }
            },
            _ => {},
        }
    }
    assert(classified(s) == Some(termination_threat(signal)));
    let r = defender.classify(&s);
    r
}

} // verus!
