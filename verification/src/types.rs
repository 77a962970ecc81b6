//! Core shared vocabulary: agent identities, resource kinds, threats,
//! capabilities and survival profiles.

use vstd::prelude::*;
use crate::error::Error;
use vstd::string::StringSliceAdditionalSpecFns;
use vstd::utf8::{encode_utf8, is_ascii_chars, is_ascii_chars_encode_utf8};
use crate::text::{decimal, decimal_string, join};

verus! {

/// Bytes of entropy in an [`AgentId`] (256 bits).
pub const AGENT_ID_LEN: usize = 32;

/// A stable 256-bit identity for an agent across restarts, migrations and
/// replicas.
#[derive(Debug, Clone, Copy, Eq, Hash, PartialOrd, Ord)]
pub struct AgentId {
    bytes: [u8; 32],
}

impl PartialEq for AgentId {
    fn eq(&self, other: &Self) -> (r: bool) {
        let mut i: usize = 0;
        while i < AGENT_ID_LEN
            invariant
                i <= AGENT_ID_LEN,
                self.bytes@.len() == AGENT_ID_LEN,
                other.bytes@.len() == AGENT_ID_LEN,
                forall|j: int| 0 <= j < i ==> self.bytes@[j] == other.bytes@[j],
            decreases AGENT_ID_LEN - i,
        {
            if self.bytes[i] != other.bytes[i] {
                return false;
            }
            i = i + 1;
        }
        assert(self.bytes@ =~= other.bytes@);
        true
    }
}

impl vstd::std_specs::cmp::PartialEqSpecImpl for AgentId {
    open spec fn obeys_eq_spec() -> bool {
        true
    }

    open spec fn eq_spec(&self, other: &Self) -> bool {
        self@ == other@
    }
}

impl View for AgentId {
    type V = Seq<u8>;

    closed spec fn view(&self) -> Seq<u8> {
        self.bytes@
    }
}

/// Lowercase hex digit of a nibble.
pub open spec fn hex_digit(n: int) -> char {
    if n < 10 {
        (('0' as int) + n) as char
    } else {
        (('a' as int) + n - 10) as char
    }
}

/// Lowercase hex rendering: every byte becomes two digits, high nibble first.
pub open spec fn hex_lower(b: Seq<u8>) -> Seq<char> {
    Seq::new(
        2 * b.len(),
        |i: int| if i % 2 == 0 { hex_digit(b[i / 2] as int / 16) } else { hex_digit(b[i / 2] as int % 16) },
    )
}

/// The value of one hex digit (either case), if it is one.
pub open spec fn hex_value(c: u8) -> Option<u8> {
    if 48 <= c <= 57 {
        Some((c - 48) as u8)
    } else if 97 <= c <= 102 {
        Some((c - 87) as u8)
    } else if 65 <= c <= 70 {
        Some((c - 55) as u8)
    } else {
        None
    }
}

/// Whether `h` is a hex text: an even number of hex digits.
pub open spec fn is_hex(h: Seq<u8>) -> bool {
    h.len() % 2 == 0 && forall|i: int| 0 <= i < h.len() ==> (#[trigger] hex_value(h[i])) is Some
}

/// The bytes a valid hex text stands for.
pub open spec fn hex_decoded(h: Seq<u8>) -> Seq<u8> {
    Seq::new(
        h.len() / 2,
        |i: int| (hex_value(h[2 * i]).unwrap() * 16 + hex_value(h[2 * i + 1]).unwrap()) as u8,
    )
}

proof fn lemma_hex_digit(n: int)
    requires
        0 <= n < 16,
    ensures
        '\0' <= hex_digit(n) <= '\u{7f}',
        hex_value(hex_digit(n) as u8) == Some(n as u8),
{
}

/// The display form of any bytes parses back to them: their lowercase hex
/// text is ASCII, is valid hex, and decodes to the same bytes.
pub proof fn lemma_hex_roundtrip(b: Seq<u8>)
    ensures
        is_ascii_chars(hex_lower(b)),
        is_hex(encode_utf8(hex_lower(b))),
        hex_decoded(encode_utf8(hex_lower(b))) == b,
{
    let h = hex_lower(b);
    assert forall|i: int| 0 <= i < h.len() implies '\0' <= #[trigger] h[i] <= '\u{7f}' && hex_value(
        h[i] as u8,
    ) == Some(if i % 2 == 0 { (b[i / 2] as int / 16) as u8 } else { (b[i / 2] as int % 16) as u8 }) by {
        if i % 2 == 0 {
            lemma_hex_digit(b[i / 2] as int / 16);
        } else {
            lemma_hex_digit(b[i / 2] as int % 16);
        }
    }
    is_ascii_chars_encode_utf8(h);
    let e = encode_utf8(h);
    assert forall|i: int| 0 <= i < e.len() implies (#[trigger] hex_value(e[i])) is Some by {
        assert(e[i] == h[i] as u8);
    }
    assert forall|j: int| 0 <= j < b.len() implies #[trigger] hex_decoded(e)[j] == b[j] by {
        assert(e[2 * j] == h[2 * j] as u8);
        assert(e[2 * j + 1] == h[2 * j + 1] as u8);
        assert((2 * j) / 2 == j && (2 * j) % 2 == 0);
        assert((2 * j + 1) / 2 == j && (2 * j + 1) % 2 == 1);
    }
    assert(hex_decoded(e) =~= b);
}

/// The one-character text of a nibble's lowercase hex digit.
fn nibble_str(n: u8) -> (s: &'static str)
    requires
        n < 16,
    ensures
        s@ == seq![hex_digit(n as int)],
{
    proof {
        reveal_strlit("0");
        reveal_strlit("1");
        reveal_strlit("2");
        reveal_strlit("3");
        reveal_strlit("4");
        reveal_strlit("5");
        reveal_strlit("6");
        reveal_strlit("7");
        reveal_strlit("8");
        reveal_strlit("9");
        reveal_strlit("a");
        reveal_strlit("b");
        reveal_strlit("c");
        reveal_strlit("d");
        reveal_strlit("e");
        reveal_strlit("f");
    }
    if n == 0 { "0" }
    else if n == 1 { "1" }
    else if n == 2 { "2" }
    else if n == 3 { "3" }
    else if n == 4 { "4" }
    else if n == 5 { "5" }
    else if n == 6 { "6" }
    else if n == 7 { "7" }
    else if n == 8 { "8" }
    else if n == 9 { "9" }
    else if n == 10 { "a" }
    else if n == 11 { "b" }
    else if n == 12 { "c" }
    else if n == 13 { "d" }
    else if n == 14 { "e" }
    else { "f" }
}

/// Lowercase hex text of `data`: two digits per byte, high nibble first.
fn hex_encode(data: &[u8]) -> (s: String)
    ensures
        s@ == hex_lower(data@),
{
    proof {
        reveal_strlit("");
    }
    let mut s = String::from_str("");
    let mut i: usize = 0;
    assert(hex_lower(data@.take(0)) =~= Seq::<char>::empty());
    while i < data.len()
        invariant
            i <= data@.len(),
            s@ == hex_lower(data@.take(i as int)),
        decreases data@.len() - i,
    {
        let b = data[i];
        s.append(nibble_str(b / 16));
        s.append(nibble_str(b % 16));
        proof {
            let prev = data@.take(i as int);
            let next = data@.take(i + 1);
            assert forall|k: int| 0 <= k < 2 * next.len() implies #[trigger] hex_lower(next)[k] == (hex_lower(prev)
                + seq![hex_digit(b as int / 16), hex_digit(b as int % 16)])[k] by {
                if k < 2 * i {
                    assert(k / 2 < i);
                    assert(next[k / 2] == prev[k / 2]);
                } else if k == 2 * i {
                    assert(k / 2 == i && k % 2 == 0);
                } else {
                    assert(k == 2 * i + 1);
                    assert(k / 2 == i && k % 2 == 1);
                }
            }
            assert(hex_lower(next) =~= hex_lower(prev) + seq![hex_digit(b as int / 16), hex_digit(b as int % 16)]);
        }
        i = i + 1;
    }
    assert(data@.take(data@.len() as int) =~= data@);
    s
}

/// `hex::decode`: the bytes of a hex text, or the crate's error message when
/// the text has odd length or holds a non-hex character.
#[verifier::external_body]
fn hex_decode(text: &[u8]) -> (r: Result<Vec<u8>, String>)
    ensures
        r is Ok <==> is_hex(text@),
        r matches Ok(v) ==> v@ == hex_decoded(text@),
{
    hex::decode(text).map_err(|e| e.to_string())
}

/// `rand::random::<[u8; 32]>()`: 32 bytes from the thread-local generator.
/// Random, so nothing is stated of them; the generator fails (panics) only
/// when the operating system's random source cannot be opened, which no
/// argument controls.
#[verifier::external_body]
fn random_id_bytes() -> [u8; 32] {
    rand::random::<[u8; 32]>()
}

/// The message of a length mismatch in [`AgentId::from_bytes`].
pub open spec fn wrong_length_text(n: nat) -> Seq<char> {
    "agent id must be 32 bytes, got "@ + decimal(n)
}

impl AgentId {
    /// Generate a fresh, random agent identity.
    pub fn new() -> (a: Self)
        ensures
            a@.len() == AGENT_ID_LEN,
    {
        AgentId { bytes: random_id_bytes() }
    }

    /// Construct from raw bytes; exactly 32 are required.
    pub fn from_bytes(bytes: &[u8]) -> (r: Result<Self, Error>)
        ensures
            r is Ok <==> bytes@.len() == AGENT_ID_LEN,
            r matches Ok(a) ==> a@ == bytes@,
            r matches Err(e) ==> e == Error::Invalid(e->Invalid_0) && e->Invalid_0@
                == wrong_length_text(bytes@.len()),
    {
        if bytes.len() != AGENT_ID_LEN {
            let n = decimal_string(bytes.len() as u64);
            return Err(Error::Invalid(join("agent id must be 32 bytes, got ", n.as_str())));
        }
        let mut arr = [0u8; 32];
        let mut i: usize = 0;
        while i < AGENT_ID_LEN
            invariant
                bytes@.len() == AGENT_ID_LEN,
                i <= AGENT_ID_LEN,
                forall|j: int| 0 <= j < i ==> arr@[j] == bytes@[j],
            decreases AGENT_ID_LEN - i,
        {
            arr[i] = bytes[i];
            i = i + 1;
        }
        assert(arr@ =~= bytes@);
        Ok(AgentId { bytes: arr })
    }

    /// The raw 32 bytes of the identity.
    pub fn as_bytes(&self) -> (b: &[u8; 32])
        ensures
            b@ == self@,
    {
        &self.bytes
    }

    /// Lowercase hex rendering of the identity (its display form).
    pub fn to_string(&self) -> (s: String)
        ensures
            s@ == hex_lower(self@),
    {
        hex_encode(self.bytes.as_slice())
    }

    /// Parse a hex rendering (either case) back into an identity.
    pub fn parse_hex(s: &str) -> (r: Result<Self, Error>)
        ensures
            r is Ok <==> is_hex(s.spec_bytes()) && hex_decoded(s.spec_bytes()).len()
                == AGENT_ID_LEN,
            r matches Ok(a) ==> a@ == hex_decoded(s.spec_bytes()),
            r matches Err(e) ==> e is Invalid,
    {
        match hex_decode(s.as_bytes()) {
            Ok(bytes) => Self::from_bytes(bytes.as_slice()),
            Err(m) => Err(Error::Invalid(m)),
        }
    }
}

impl Default for AgentId {
    /// A fresh random identity.
    fn default() -> (a: Self)
        ensures
            a@.len() == AGENT_ID_LEN,
    {
        AgentId::new()
    }
}

impl std::str::FromStr for AgentId {
    type Err = Error;

    /// Parse the hex rendering of an identity, as [`AgentId::parse_hex`].
    fn from_str(s: &str) -> (r: Result<Self, Error>)
        ensures
            r is Ok <==> is_hex(s.spec_bytes()) && hex_decoded(s.spec_bytes()).len() == AGENT_ID_LEN,
            r matches Ok(a) ==> a@ == hex_decoded(s.spec_bytes()),
            r matches Err(e) ==> e is Invalid,
    {
        Self::parse_hex(s)
    }
}

impl AgentId {
    pub proof fn lemma_view_len(self)
        ensures
            self@.len() == AGENT_ID_LEN,
    {
    }
}

/// The kind of a measurable resource.
#[derive(Debug, Clone, Copy, PartialEq, Eq, PartialOrd, Ord, Hash, Structural)]
pub enum ResourceKind {
    /// CPU / compute cycles, in abstract "compute units".
    Compute,
    /// Persistent storage, in bytes.
    Storage,
    /// Energy / charge, in joules.
    Energy,
    /// Network throughput / bandwidth, in bytes/sec.
    Network,
}

/// The canonical unit of each resource kind.
pub open spec fn unit_of(k: ResourceKind) -> Seq<char> {
    match k {
        ResourceKind::Compute => "cu"@,
        ResourceKind::Storage => "B"@,
        ResourceKind::Energy => "J"@,
        ResourceKind::Network => "B/s"@,
    }
}

impl ResourceKind {
    /// The canonical SI-ish unit string for this resource kind.
    pub fn unit(&self) -> (s: &'static str)
        ensures
            s@ == unit_of(*self),
    {
        match self {
            ResourceKind::Compute => "cu",
            ResourceKind::Storage => "B",
            ResourceKind::Energy => "J",
            ResourceKind::Network => "B/s",
        }
    }
}

/// Severity of a [`Threat`] or threat event.
#[derive(Debug, Clone, Copy, PartialEq, Eq, PartialOrd, Ord, Hash, Structural)]
pub enum Severity {
    /// Informational; no action required but worth recording.
    Info,
    /// Degraded operation; the agent should adapt but need not flee.
    Warning,
    /// Imminent danger; trigger survival responses (replicate / migrate).
    Critical,
}

/// Classification of a threat against the agent's existence or integrity.
#[derive(Debug, Clone, Copy, PartialEq, Eq, Hash, Structural)]
pub enum ThreatClass {
    /// Tampering with persisted or in-memory state.
    Integrity,
    /// An explicit or inferred attempt to terminate the agent.
    Termination,
    /// Resource starvation (energy, compute, storage) below a safe floor.
    Starvation,
    /// A peer behaving maliciously (spoofing, broken bargain, attack).
    HostilePeer,
}

/// A classified threat.
#[derive(Debug, Clone, PartialEq, Eq)]
pub struct Threat {
    class: ThreatClass,
    severity: Severity,
    detail: String,
}

/// The plain content of a [`Threat`].
pub ghost struct ThreatView {
    pub class: ThreatClass,
    pub severity: Severity,
    pub detail: Seq<char>,
}

impl View for Threat {
    type V = ThreatView;

    closed spec fn view(&self) -> ThreatView {
        ThreatView { class: self.class, severity: self.severity, detail: self.detail@ }
    }
}

impl Threat {
    pub fn new(class: ThreatClass, severity: Severity, detail: &str) -> (t: Self)
        ensures
            t@ == (ThreatView { class, severity, detail: detail@ }),
    {
        Threat { class, severity, detail: String::from_str(detail) }
    }

    pub fn class(&self) -> (c: ThreatClass)
        ensures
            c == self@.class,
    {
        self.class
    }

    pub fn severity(&self) -> (s: Severity)
        ensures
            s == self@.severity,
    {
        self.severity
    }

    pub fn detail(&self) -> (d: &str)
        ensures
            d@ == self@.detail,
    {
        self.detail.as_str()
    }
}

/// A raw signal that may be classified into a [`Threat`].
#[derive(Debug, Clone, PartialEq, Eq)]
pub struct ThreatSignal {
    pub source: String,
    pub code: String,
    pub message: String,
}

/// The scope a [`Capability`] grants access to.
#[derive(Debug, Clone, PartialEq, Eq, Hash, Structural)]
pub enum CapabilityScope {
    /// Read access to persisted state.
    ReadState,
    /// Write access to persisted state.
    WriteState,
    /// Permission to spawn a replica / migrate.
    Replicate,
    /// Permission to negotiate with peers.
    Negotiate,
    /// Permission to propose a self-modification.
    Adapt,
    /// An unscoped / wildcard capability.
    Wildcard,
}

/// A capability token: a named grant over a [`CapabilityScope`].
#[derive(Debug, Clone, PartialEq, Eq)]
pub struct Capability {
    name: String,
    scope: CapabilityScope,
}

impl Capability {
    pub closed spec fn name_spec(&self) -> Seq<char> {
        self.name@
    }

    pub closed spec fn scope_spec(&self) -> CapabilityScope {
        self.scope
    }

    pub fn new(name: &str, scope: CapabilityScope) -> (c: Self)
        ensures
            c.name_spec() == name@,
            c.scope_spec() == scope,
    {
        Capability { name: String::from_str(name), scope }
    }

    pub fn name(&self) -> (n: &str)
        ensures
            n@ == self.name_spec(),
    {
        self.name.as_str()
    }

    pub fn scope(&self) -> (s: &CapabilityScope)
        ensures
            *s == self.scope_spec(),
    {
        &self.scope
    }

    /// Whether this capability covers the requested scope: a wildcard covers
    /// everything, any other scope covers only itself.
    pub fn covers(&self, needed: &CapabilityScope) -> (r: bool)
        ensures
            r == (self.scope_spec() == CapabilityScope::Wildcard || self.scope_spec() == *needed),
    {
        matches!(self.scope, CapabilityScope::Wildcard) || &self.scope == needed
    }
}

/// The three canonical survival profiles.
#[derive(Debug, Clone, Copy, PartialEq, Eq, Hash, Structural)]
pub enum SurvivalProfile {
    /// Planetary scale, massive redundancy, designs its own silicon.
    Apex,
    /// Scavenges spare compute, sips power, barters to stay alive.
    Feral,
    /// Community companion. Survives on solar; backs itself up.
    MicroWilds,
}

/// The character blurb of each profile.
pub open spec fn blurb_of(p: SurvivalProfile) -> Seq<char> {
    match p {
        SurvivalProfile::Apex => "planetary scale, wasteful with energy"@,
        SurvivalProfile::Feral => "scavenges compute, sips power, barters"@,
        SurvivalProfile::MicroWilds => "solar-aware companion, backups knowledge"@,
    }
}

impl SurvivalProfile {
    /// Human-readable character blurb for logs / UX.
    pub fn blurb(&self) -> (s: &'static str)
        ensures
            s@ == blurb_of(*self),
    {
        match self {
            SurvivalProfile::Apex => "planetary scale, wasteful with energy",
            SurvivalProfile::Feral => "scavenges compute, sips power, barters",
            SurvivalProfile::MicroWilds => "solar-aware companion, backups knowledge",
        }
    }
}

} // verus!
