//! The versioned, magic-prefixed checkpoint envelope: the agent's state plus
//! identity and metadata, portable to a fresh node.

use vstd::prelude::*;
use crate::error::Error;
use vstd::slice::slice_to_vec;
use crate::text::{decimal, decimal_string, join3};
use crate::types::{AgentId, AGENT_ID_LEN};
use crate::wire::{byte_seq, lemma_varint_prefix, lemma_varint_widths, opt_byte_seq, varint};

verus! {

/// Magic prefix identifying a checkpoint blob: the ASCII bytes `VCP1`.
pub const CHECKPOINT_MAGIC: [u8; 4] = [86u8, 67u8, 80u8, 49u8];

/// Current on-disk checkpoint schema version.
pub const CHECKPOINT_VERSION: u32 = 1;

/// Hard ceiling on a single checkpoint blob, checked before decoding.
pub const MAX_CHECKPOINT_BYTES: usize = 64 * 1024 * 1024;

pub open spec fn magic() -> Seq<u8> {
    seq![86u8, 67u8, 80u8, 49u8]
}

/// The postcard encoding of a checkpoint's fields, in declaration order:
/// the version varint, the id's 32 bytes as they are, the payload with its
/// length, the creation-time varint, and the optional seal.
pub open spec fn postcard_checkpoint(
    version: u32,
    agent: Seq<u8>,
    payload: Seq<u8>,
    created: u64,
    seal: Option<Seq<u8>>,
) -> Seq<u8> {
    varint(version as nat) + agent + byte_seq(payload) + varint(created as nat) + opt_byte_seq(seal)
}

/// What postcard decodes a checkpoint body into, if it decodes at all.
pub uninterp spec fn postcard_checkpoint_decode(body: Seq<u8>) -> Option<
    (u32, Seq<u8>, Seq<u8>, u64, Option<Seq<u8>>),
>;

pub open spec fn seal_view(s: Option<Vec<u8>>) -> Option<Seq<u8>> {
    match s {
        Some(v) => Some(v@),
        None => None,
    }
}

/// The most bytes postcard writes for a checkpoint's fields: the version as
/// a varint of at most 5 bytes, the 32 id bytes, the payload behind a length
/// varint of at most 10 bytes, the time as a varint of at most 10 bytes, and
/// the seal's 1-byte tag, followed for a present seal by its length varint
/// and its bytes.
pub open spec fn fields_len_bound(payload_len: nat, seal: Option<Seq<u8>>) -> nat {
    58 + payload_len + match seal {
        Some(s) => 10 + s.len(),
        None => 0,
    }
}

/// A checkpoint's encoding is no longer than `4 + fields_len_bound`: the
/// magic, then fields whose varints take at most their widest size.
pub proof fn lemma_encoded_len(c: CheckpointView)
    requires
        c.agent.len() == 32,
        c.payload.len() <= u64::MAX,
        c.seal matches Some(s) ==> s.len() <= u64::MAX,
    ensures
        encoded(c).len() <= 4 + fields_len_bound(c.payload.len(), c.seal),
        postcard_checkpoint(c.version, c.agent, c.payload, c.created, c.seal).len() <= fields_len_bound(
            c.payload.len(),
            c.seal,
        ),
{
    lemma_varint_widths(c.version as nat);
    lemma_varint_widths(c.payload.len());
    lemma_varint_widths(c.created as nat);
    if let Some(s) = c.seal {
        lemma_varint_widths(s.len());
    }
}

/// `postcard::to_stdvec` of the checkpoint fields. The tuple serializes to
/// the same bytes as the checkpoint record itself. Claims: it succeeds
/// (postcard's growable-vector output never runs out of room and every
/// sequence here has a known length); the bytes are postcard's encoding of
/// the fields, and decoding them gives the same fields back (postcard
/// round-trips every value it encodes).
#[verifier::external_body]
fn encode_fields(
    version: u32,
    agent: &[u8; 32],
    payload: &[u8],
    created: u64,
    seal: &Option<Vec<u8>>,
) -> (r: Result<Vec<u8>, String>)
    ensures
        r is Ok,
        r matches Ok(b) ==> b@ == postcard_checkpoint(version, agent@, payload@, created, seal_view(*seal))
            && postcard_checkpoint_decode(b@) == Some(
            (version, agent@, payload@, created, seal_view(*seal)),
        ),
{
    postcard::to_stdvec(&(version, agent, payload, created, seal)).map_err(|e| e.to_string())
}

/// `postcard::from_bytes` of a checkpoint body into its fields. Claims: the
/// result is the named decoding.
#[verifier::external_body]
fn decode_fields(body: &[u8]) -> (r: Result<(u32, [u8; 32], Vec<u8>, u64, Option<Vec<u8>>), String>)
    ensures
        match postcard_checkpoint_decode(body@) {
            Some(t) => r matches Ok(v) && v.0 == t.0 && v.1@ == t.1 && v.2@ == t.2 && v.3 == t.3
                && seal_view(v.4) == t.4,
            None => r is Err,
        },
{
    postcard::from_bytes::<(u32, [u8; 32], Vec<u8>, u64, Option<Vec<u8>>)>(body).map_err(
        |e| e.to_string(),
    )
}

/// A portable agent checkpoint.
#[derive(Debug, Clone, PartialEq)]
pub struct Checkpoint {
    pub version: u32,
    pub agent_id: AgentId,
    pub payload: Vec<u8>,
    pub created_secs: u64,
    /// Opaque signature blob over [`Checkpoint::signable_bytes`]; `None`
    /// means unsigned.
    pub seal: Option<Vec<u8>>,
}

/// The plain content of a [`Checkpoint`].
pub ghost struct CheckpointView {
    pub version: u32,
    pub agent: Seq<u8>,
    pub payload: Seq<u8>,
    pub created: u64,
    pub seal: Option<Seq<u8>>,
}

impl View for Checkpoint {
    type V = CheckpointView;

    open spec fn view(&self) -> CheckpointView {
        CheckpointView {
            version: self.version,
            agent: self.agent_id@,
            payload: self.payload@,
            created: self.created_secs,
            seal: seal_view(self.seal),
        }
    }
}

/// The bytes a checkpoint is signed over: every field, with no seal.
pub open spec fn signable(c: CheckpointView) -> Seq<u8> {
    postcard_checkpoint(c.version, c.agent, c.payload, c.created, None)
}

/// Two byte strings that start with equally long parts, and are equal,
/// have equal parts and equal rests.
proof fn lemma_split_equal(a: Seq<u8>, ra: Seq<u8>, b: Seq<u8>, rb: Seq<u8>)
    requires
        a.len() == b.len(),
        a + ra == b + rb,
    ensures
        a == b,
        ra == rb,
{
    assert(a =~= (a + ra).take(a.len() as int));
    assert(b =~= (b + rb).take(b.len() as int));
    assert(ra =~= (a + ra).skip(a.len() as int));
    assert(rb =~= (b + rb).skip(b.len() as int));
}

/// The signable bytes, grouped from the front.
proof fn lemma_signable_layout(c: CheckpointView)
    ensures
        signable(c) == varint(c.version as nat) + (c.agent + (varint(c.payload.len()) + (c.payload + (varint(
            c.created as nat,
        ) + seq![0u8])))),
{
    let v = varint(c.version as nat);
    let p = varint(c.payload.len());
    let t = varint(c.created as nat);
    assert(signable(c) == v + c.agent + (p + c.payload) + t + seq![0u8]);
    assert(v + c.agent + (p + c.payload) + t + seq![0u8] =~= v + (c.agent + (p + (c.payload + (t + seq![0u8])))));
}

/// The seal covers every field but itself: two checkpoints (with ids of
/// the usual 32 bytes) whose signable bytes agree agree in version, id,
/// payload and creation time, so changing any of them after sealing
/// changes what the seal must verify over.
pub proof fn lemma_signable_determines_fields(c1: CheckpointView, c2: CheckpointView)
    requires
        c1.agent.len() == 32,
        c2.agent.len() == 32,
        signable(c1) == signable(c2),
    ensures
        c1.version == c2.version,
        c1.agent == c2.agent,
        c1.payload == c2.payload,
        c1.created == c2.created,
{
    lemma_signable_layout(c1);
    lemma_signable_layout(c2);
    let w1 = varint(c1.created as nat) + seq![0u8];
    let w2 = varint(c2.created as nat) + seq![0u8];
    let u1 = c1.payload + w1;
    let u2 = c2.payload + w2;
    let t1 = varint(c1.payload.len()) + u1;
    let t2 = varint(c2.payload.len()) + u2;
    lemma_varint_prefix(c1.version as nat, c2.version as nat, c1.agent + t1, c2.agent + t2);
    lemma_split_equal(c1.agent, t1, c2.agent, t2);
    lemma_varint_prefix(c1.payload.len(), c2.payload.len(), u1, u2);
    lemma_split_equal(c1.payload, w1, c2.payload, w2);
    lemma_varint_prefix(c1.created as nat, c2.created as nat, seq![0u8], seq![0u8]);
}

/// The serialized form: magic prefix, then the encoded fields.
pub open spec fn encoded(c: CheckpointView) -> Seq<u8> {
    magic() + postcard_checkpoint(c.version, c.agent, c.payload, c.created, c.seal)
}

/// What a blob parses into: `None` if it is too large, too short, lacks the
/// magic, does not decode, or carries a newer version.
pub open spec fn parsed(bytes: Seq<u8>) -> Option<CheckpointView> {
    if bytes.len() > MAX_CHECKPOINT_BYTES || bytes.len() < 4 || bytes.take(4) != magic() {
        None
    } else {
        match postcard_checkpoint_decode(bytes.skip(4)) {
            Some(t) => if t.0 > CHECKPOINT_VERSION {
                None
            } else {
                Some(CheckpointView { version: t.0, agent: t.1, payload: t.2, created: t.3, seal: t.4 })
            },
            None => None,
        }
    }
}

fn copy_vec(v: &Vec<u8>) -> (r: Vec<u8>)
    ensures
        r@ == v@,
{
    slice_to_vec(v.as_slice())
}

fn copy_seal(s: &Option<Vec<u8>>) -> (r: Option<Vec<u8>>)
    ensures
        seal_view(r) == seal_view(*s),
{
    match s {
        Some(v) => Some(copy_vec(v)),
        None => None,
    }
}

impl Checkpoint {
    pub fn new(agent_id: AgentId, payload: Vec<u8>, created_secs: u64) -> (c: Self)
        ensures
            c@ == (CheckpointView {
                version: CHECKPOINT_VERSION,
                agent: agent_id@,
                payload: payload@,
                created: created_secs,
                seal: None,
            }),
    {
        Checkpoint { version: CHECKPOINT_VERSION, agent_id, payload, created_secs, seal: None }
    }

    /// A field-by-field copy.
    pub fn duplicate(&self) -> (c: Self)
        ensures
            c@ == self@,
    {
        Checkpoint {
            version: self.version,
            agent_id: self.agent_id,
            payload: copy_vec(&self.payload),
            created_secs: self.created_secs,
            seal: copy_seal(&self.seal),
        }
    }

    /// The canonical bytes a signer signs and a verifier checks: every field
    /// except the seal itself.
    pub fn signable_bytes(&self) -> (r: Result<Vec<u8>, Error>)
        ensures
            r is Ok,
            r matches Ok(b) ==> b@ == signable(self@),
    {
        let none: Option<Vec<u8>> = None;
        match encode_fields(self.version, self.agent_id.as_bytes(), self.payload.as_slice(), self.created_secs, &none) {
            Ok(b) => Ok(b),
            Err(m) => Err(Error::Encode(m)),
        }
    }

    /// Serialize to a magic-prefixed byte blob. Whatever is produced parses
    /// back into this very checkpoint (when its version is current and it is
    /// within the size limit).
    pub fn to_bytes(&self) -> (r: Result<Vec<u8>, Error>)
        ensures
            r is Ok,
            r matches Ok(b) ==> b@ == encoded(self@),
            r matches Ok(b) ==> (self@.version <= CHECKPOINT_VERSION && b@.len() <= MAX_CHECKPOINT_BYTES
                ==> parsed(b@) == Some(self@)),
            r matches Ok(b) ==> b@.len() <= 4 + fields_len_bound(self@.payload.len(), self@.seal),
    {
        match encode_fields(self.version, self.agent_id.as_bytes(), self.payload.as_slice(), self.created_secs, &self.seal) {
            Ok(body) => {
                let mut out: Vec<u8> = Vec::new();
                out.push(CHECKPOINT_MAGIC[0]);
                out.push(CHECKPOINT_MAGIC[1]);
                out.push(CHECKPOINT_MAGIC[2]);
                out.push(CHECKPOINT_MAGIC[3]);
                let ghost prefix = out@;
                out.extend_from_slice(body.as_slice());
                proof {
                    assert(prefix =~= magic());
                    assert(out@ =~= magic() + body@);
                    assert(out@.take(4) =~= magic());
                    assert(out@.skip(4) =~= body@);
                    self.agent_id.lemma_view_len();
                    assert(self.payload@.len() == self.payload.len());
                    if let Some(v) = &self.seal {
                        assert(v@.len() == v.len());
                    }
                    lemma_encoded_len(self@);
                }
                Ok(out)
            },
            Err(m) => Err(Error::Encode(m)),
        }
    }

    /// Parse a magic-prefixed checkpoint blob, validating size, magic and
    /// version. The seal is not verified here.
    pub fn from_bytes(bytes: &[u8]) -> (r: Result<Self, Error>)
        ensures
            r is Ok <==> parsed(bytes@) is Some,
            r matches Ok(c) ==> c@ == parsed(bytes@).unwrap(),
            r matches Err(e) ==> (e is Encode <==> (bytes@.len() <= MAX_CHECKPOINT_BYTES
                && bytes@.len() >= 4 && bytes@.take(4) == magic()
                && postcard_checkpoint_decode(bytes@.skip(4)) is None)),
            bytes@.len() > MAX_CHECKPOINT_BYTES || bytes@.len() < 4 || bytes@.take(4) != magic() ==> r matches Err(
                Error::Invalid(_),
            ),
            r is Err && !(postcard_checkpoint_decode(bytes@.skip(4)) is None) ==> r matches Err(Error::Invalid(_)),
    {
        if bytes.len() > MAX_CHECKPOINT_BYTES {
            let n = decimal_string(bytes.len() as u64);
            return Err(Error::Invalid(join3("checkpoint of ", n.as_str(), " bytes exceeds the 67108864-byte limit")));
        }
        if bytes.len() < 4 {
            return Err(Error::Invalid(String::from_str("checkpoint too short")));
        }
        let (head, body) = bytes.split_at(4);
        if head[0] != CHECKPOINT_MAGIC[0] || head[1] != CHECKPOINT_MAGIC[1] || head[2] != CHECKPOINT_MAGIC[2]
            || head[3] != CHECKPOINT_MAGIC[3] {
            proof {
                assert(bytes@.take(4) != magic()) by {
                    if bytes@.take(4) == magic() {
                        assert(head@ =~= bytes@.take(4));
                    }
                }
            }
            return Err(Error::Invalid(String::from_str("bad checkpoint magic")));
        }
        proof {
            assert(head@ =~= bytes@.take(4));
            assert(head@ =~= magic());
            assert(body@ =~= bytes@.skip(4));
        }
        let fields = match decode_fields(body) {
            Ok(f) => f,
            Err(m) => return Err(Error::Encode(m)),
        };
        let (version, agent, payload, created_secs, seal) = fields;
        if version > CHECKPOINT_VERSION {
            let v = decimal_string(version as u64);
            return Err(Error::Invalid(join3("unsupported checkpoint version ", v.as_str(), "")));
        }
        let agent_id = match AgentId::from_bytes(agent.as_slice()) {
            Ok(a) => a,
            Err(e) => return Err(e),
        };
        Ok(Checkpoint { version, agent_id, payload, created_secs, seal })
    }
}

} // verus!
