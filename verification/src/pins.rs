//! Trust-on-first-use key pinning: the first public key seen for an agent is
//! pinned, and later messages or seals for that agent are only accepted
//! under the same key.

use vstd::prelude::*;
use crate::types::AgentId;
use vstd::slice::slice_to_vec;

verus! {

/// Pinned public keys per agent. Later pins for an agent replace earlier
/// ones.
pub struct PinStore {
    entries: Vec<(AgentId, Vec<u8>)>,
}

pub open spec fn pair_views(s: Seq<(AgentId, Vec<u8>)>) -> Seq<(Seq<u8>, Seq<u8>)> {
    s.map_values(|e: (AgentId, Vec<u8>)| (e.0@, e.1@))
}

/// The pins a list of entries stands for, later entries winning.
pub open spec fn pins_of(s: Seq<(Seq<u8>, Seq<u8>)>) -> Map<Seq<u8>, Seq<u8>>
    decreases s.len(),
{
    if s.len() == 0 {
        Map::empty()
    } else {
        pins_of(s.drop_last()).insert(s.last().0, s.last().1)
    }
}

proof fn lemma_pins_of_last(s: Seq<(Seq<u8>, Seq<u8>)>, k: Seq<u8>, i: int)
    requires
        0 <= i < s.len(),
        s[i].0 == k,
        forall|j: int| i < j < s.len() ==> s[j].0 != k,
    ensures
        pins_of(s).contains_key(k),
        pins_of(s)[k] == s[i].1,
    decreases s.len(),
{
    if i < s.len() - 1 {
        lemma_pins_of_last(s.drop_last(), k, i);
    }
}

proof fn lemma_pins_of_absent(s: Seq<(Seq<u8>, Seq<u8>)>, k: Seq<u8>)
    requires
        forall|j: int| 0 <= j < s.len() ==> s[j].0 != k,
    ensures
        !pins_of(s).contains_key(k),
    decreases s.len(),
{
    if s.len() > 0 {
        lemma_pins_of_absent(s.drop_last(), k);
    }
}

impl View for PinStore {
    type V = Map<Seq<u8>, Seq<u8>>;

    closed spec fn view(&self) -> Map<Seq<u8>, Seq<u8>> {
        pins_of(pair_views(self.entries@))
    }
}

impl PinStore {
    pub fn new() -> (p: Self)
        ensures
            p@ == Map::<Seq<u8>, Seq<u8>>::empty(),
    {
        let p = PinStore { entries: Vec::new() };
        assert(pair_views(p.entries@) =~= Seq::<(Seq<u8>, Seq<u8>)>::empty());
        p
    }

    /// The key pinned for `agent`, if any.
    pub fn lookup(&self, agent: &AgentId) -> (r: Option<&Vec<u8>>)
        ensures
            r is Some <==> self@.contains_key(agent@),
            r matches Some(k) ==> k@ == self@[agent@],
    {
        let ghost s = pair_views(self.entries@);
        let mut i = self.entries.len();
        while i > 0
            invariant
                i <= self.entries@.len(),
                s == pair_views(self.entries@),
                forall|j: int| i <= j < s.len() ==> s[j].0 != agent@,
            decreases i,
        {
            i = i - 1;
            if self.entries[i].0 == *agent {
                proof {
                    lemma_pins_of_last(s, agent@, i as int);
                }
                return Some(&self.entries[i].1);
            }
        }
        proof {
            lemma_pins_of_absent(s, agent@);
        }
        None
    }

    /// Pin `key` for `agent`, replacing any earlier pin.
    pub fn pin(&mut self, agent: AgentId, key: &[u8])
        ensures
            final(self)@ == old(self)@.insert(agent@, key@),
    {
        self.entries.push((agent, slice_to_vec(key)));
        proof {
            let s = pair_views(self.entries@);
            assert(s.drop_last() =~= pair_views(old(self).entries@));
        }
    }
}

/// Byte-wise equality of two slices.
pub fn bytes_eq(a: &[u8], b: &[u8]) -> (r: bool)
    ensures
        r == (a@ == b@),
{
    if a.len() != b.len() {
        return false;
    }
    let mut i: usize = 0;
    while i < a.len()
        invariant
            a@.len() == b@.len(),
            i <= a@.len(),
            forall|j: int| 0 <= j < i ==> a@[j] == b@[j],
        decreases a@.len() - i,
    {
        if a[i] != b[i] {
            return false;
        }
        i = i + 1;
    }
    assert(a@ =~= b@);
    true
}

} // verus!
