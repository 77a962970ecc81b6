//! The trade book of the barter protocol: which nonces this agent has
//! accepted from peers (offeree side) and which it has proposed itself
//! (proposer side), who each trade is bound to, and when it opened.
//!
//! A settlement is honoured only for a nonce this agent is a party to and
//! only from the peer recorded for that trade; a settled trade leaves the
//! book, so replaying its settlement is refused. Offers accepted from any
//! one peer are capped, and trades that never settle expire.

use vstd::prelude::*;
use crate::error::Error;
use crate::types::{AgentId, hex_lower};
use crate::text::{decimal, decimal_string, join, join3};

verus! {

/// A trade this agent is a party to, awaiting completion.
#[derive(Debug)]
pub struct PendingTrade<E> {
    /// The counterparty, once known: always set on the offeree side; on the
    /// proposer side it is bound when the accepter answers.
    pub counterparty: Option<AgentId>,
    /// What the counterparty promised to deliver.
    pub expect: E,
    /// The cycle the trade opened.
    pub opened_at: u64,
}

/// The identity view of an optional counterparty.
pub open spec fn party_of(c: Option<AgentId>) -> Option<Seq<u8>> {
    match c {
        Some(a) => Some(a@),
        None => None,
    }
}

/// The first trade recorded under `nonce`, if any.
pub open spec fn find_trade<E>(s: Seq<(u64, PendingTrade<E>)>, nonce: u64) -> Option<PendingTrade<E>>
    decreases s.len(),
{
    if s.len() == 0 {
        None
    } else if s[0].0 == nonce {
        Some(s[0].1)
    } else {
        find_trade(s.drop_first(), nonce)
    }
}

/// The trades with every entry under `nonce` removed, order kept.
pub open spec fn without_nonce<E>(s: Seq<(u64, PendingTrade<E>)>, nonce: u64) -> Seq<(u64, PendingTrade<E>)>
    decreases s.len(),
{
    if s.len() == 0 {
        s
    } else if s[0].0 == nonce {
        without_nonce(s.drop_first(), nonce)
    } else {
        seq![s[0]] + without_nonce(s.drop_first(), nonce)
    }
}

/// How many of the trades are bound to `peer`.
pub open spec fn count_for_peer<E>(s: Seq<(u64, PendingTrade<E>)>, peer: Seq<u8>) -> nat
    decreases s.len(),
{
    if s.len() == 0 {
        0
    } else {
        (if party_of(s[0].1.counterparty) == Some(peer) { 1nat } else { 0nat })
            + count_for_peer(s.drop_first(), peer)
    }
}

/// Whether every trade has a counterparty.
pub open spec fn all_bound<E>(s: Seq<(u64, PendingTrade<E>)>) -> bool {
    forall|i: int| 0 <= i < s.len() ==> (#[trigger] s[i]).1.counterparty is Some
}

/// Cycles elapsed from `since` to `now`, zero if `since` lies ahead.
pub open spec fn age(now: u64, since: u64) -> nat {
    if now >= since {
        (now - since) as nat
    } else {
        0
    }
}

/// Whether a trade opened at `opened_at` has run out of time at `now`.
pub open spec fn is_expired(opened_at: u64, now: u64, timeout: u64) -> bool {
    age(now, opened_at) >= timeout
}

/// The trades that have not run out of time, order kept.
pub open spec fn unexpired<E>(s: Seq<(u64, PendingTrade<E>)>, now: u64, timeout: u64) -> Seq<(u64, PendingTrade<E>)>
    decreases s.len(),
{
    if s.len() == 0 {
        s
    } else if is_expired(s[0].1.opened_at, now, timeout) {
        unexpired(s.drop_first(), now, timeout)
    } else {
        seq![s[0]] + unexpired(s.drop_first(), now, timeout)
    }
}

/// The counterparties of the trades that ran out of time, in order; a trade
/// nobody accepted has no one to blame and contributes nothing.
pub open spec fn expired_parties<E>(s: Seq<(u64, PendingTrade<E>)>, now: u64, timeout: u64) -> Seq<Seq<u8>>
    decreases s.len(),
{
    if s.len() == 0 {
        Seq::empty()
    } else if is_expired(s[0].1.opened_at, now, timeout) {
        match s[0].1.counterparty {
            Some(a) => seq![a@] + expired_parties(s.drop_first(), now, timeout),
            None => expired_parties(s.drop_first(), now, timeout),
        }
    } else {
        expired_parties(s.drop_first(), now, timeout)
    }
}

pub open spec fn agent_views(s: Seq<AgentId>) -> Seq<Seq<u8>> {
    s.map_values(|a: AgentId| a@)
}

/// Text of a refused accept for an unknown nonce.
pub open spec fn no_proposal_text(nonce: u64) -> Seq<char> {
    "no proposed trade for nonce "@ + decimal(nonce as nat)
}

/// Text of an accept for a nonce another peer already accepted.
pub open spec fn taken_text(nonce: u64) -> Seq<char> {
    "nonce "@ + decimal(nonce as nat) + " already accepted by a different peer"@
}

/// Text of an offer refused because its peer has reached the cap.
pub open spec fn cap_text(peer: Seq<u8>, pending: nat, cap: nat) -> Seq<char> {
    "peer "@ + hex_lower(peer) + " has "@ + decimal(pending) + " pending offers (cap "@ + decimal(cap)
        + ")"@
}

pub open spec fn wrong_peer_text(nonce: u64) -> Seq<char> {
    "settle nonce "@ + decimal(nonce as nat) + " signed by wrong peer"@
}

pub open spec fn unbound_text(nonce: u64) -> Seq<char> {
    "settle nonce "@ + decimal(nonce as nat) + " has no bound accepter (call receive_accept first)"@
}

pub open spec fn unknown_text(nonce: u64) -> Seq<char> {
    "settle nonce "@ + decimal(nonce as nat) + " not recognized as an active trade"@
}

/// What a settlement of `nonce` signed by `signer` is answered: the trade it
/// completes (and whether it was one this agent accepted), or the text of
/// the refusal. A trade this agent accepted takes precedence over one it
/// proposed under the same nonce.
pub open spec fn settle_decision<E>(
    accepted: Seq<(u64, PendingTrade<E>)>,
    proposed: Seq<(u64, PendingTrade<E>)>,
    nonce: u64,
    signer: Seq<u8>,
) -> Result<(bool, PendingTrade<E>), Seq<char>> {
    match find_trade(accepted, nonce) {
        Some(t) => if party_of(t.counterparty) == Some(signer) {
            Ok((true, t))
        } else {
            Err(wrong_peer_text(nonce))
        },
        None => match find_trade(proposed, nonce) {
            Some(t) => match party_of(t.counterparty) {
                Some(p) => if p == signer {
                    Ok((false, t))
                } else {
                    Err(wrong_peer_text(nonce))
                },
                None => Err(unbound_text(nonce)),
            },
            None => Err(unknown_text(nonce)),
        },
    }
}

/// The accepted and proposed trades after that settlement.
pub open spec fn settle_after<E>(
    accepted: Seq<(u64, PendingTrade<E>)>,
    proposed: Seq<(u64, PendingTrade<E>)>,
    nonce: u64,
    signer: Seq<u8>,
) -> (Seq<(u64, PendingTrade<E>)>, Seq<(u64, PendingTrade<E>)>) {
    match settle_decision(accepted, proposed, nonce, signer) {
        Ok((true, _)) => (without_nonce(accepted, nonce), proposed),
        Ok((false, _)) => (accepted, without_nonce(proposed, nonce)),
        Err(_) => (accepted, proposed),
    }
}

proof fn lemma_find_without<E>(s: Seq<(u64, PendingTrade<E>)>, n: u64, m: u64)
    ensures
        find_trade(without_nonce(s, n), m) == if m == n { None } else { find_trade(s, m) },
    decreases s.len(),
{
    if s.len() > 0 {
        lemma_find_without(s.drop_first(), n, m);
        let w = without_nonce(s.drop_first(), n);
        if s[0].0 != n {
            assert((seq![s[0]] + w).drop_first() =~= w);
        }
    }
}

proof fn lemma_count_without<E>(s: Seq<(u64, PendingTrade<E>)>, n: u64, p: Seq<u8>)
    ensures
        count_for_peer(without_nonce(s, n), p) <= count_for_peer(s, p),
    decreases s.len(),
{
    if s.len() > 0 {
        lemma_count_without(s.drop_first(), n, p);
        let w = without_nonce(s.drop_first(), n);
        if s[0].0 != n {
            assert((seq![s[0]] + w).drop_first() =~= w);
        }
    }
}

proof fn lemma_count_push<E>(s: Seq<(u64, PendingTrade<E>)>, e: (u64, PendingTrade<E>), p: Seq<u8>)
    ensures
        count_for_peer(s.push(e), p) == count_for_peer(s, p) + (if party_of(e.1.counterparty) == Some(
            p,
        ) { 1nat } else { 0nat }),
    decreases s.len(),
{
    if s.len() > 0 {
        assert(s.push(e).drop_first() =~= s.drop_first().push(e));
        assert(s.push(e)[0] == s[0]);
        lemma_count_push(s.drop_first(), e, p);
    } else {
        assert(s.push(e).drop_first() =~= Seq::<(u64, PendingTrade<E>)>::empty());
        reveal_with_fuel(count_for_peer, 2);
    }
}

proof fn lemma_count_unexpired<E>(s: Seq<(u64, PendingTrade<E>)>, now: u64, timeout: u64, p: Seq<u8>)
    ensures
        count_for_peer(unexpired(s, now, timeout), p) <= count_for_peer(s, p),
    decreases s.len(),
{
    if s.len() > 0 {
        lemma_count_unexpired(s.drop_first(), now, timeout, p);
        let w = unexpired(s.drop_first(), now, timeout);
        if !is_expired(s[0].1.opened_at, now, timeout) {
            assert((seq![s[0]] + w).drop_first() =~= w);
        }
    }
}

proof fn lemma_bound_without<E>(s: Seq<(u64, PendingTrade<E>)>, n: u64)
    requires
        all_bound(s),
    ensures
        all_bound(without_nonce(s, n)),
    decreases s.len(),
{
    if s.len() > 0 {
        assert(all_bound(s.drop_first())) by {
            assert forall|i: int| 0 <= i < s.drop_first().len() implies (
            #[trigger] s.drop_first()[i]).1.counterparty is Some by {
                assert(s.drop_first()[i] == s[i + 1]);
            }
        }
        lemma_bound_without(s.drop_first(), n);
        let w = without_nonce(s.drop_first(), n);
        if s[0].0 != n {
            assert forall|i: int| 0 <= i < (seq![s[0]] + w).len() implies (#[trigger] (seq![s[0]]
                + w)[i]).1.counterparty is Some by {
                if i > 0 {
                    assert((seq![s[0]] + w)[i] == w[i - 1]);
                }
            }
        }
    }
}

proof fn lemma_bound_unexpired<E>(s: Seq<(u64, PendingTrade<E>)>, now: u64, timeout: u64)
    requires
        all_bound(s),
    ensures
        all_bound(unexpired(s, now, timeout)),
    decreases s.len(),
{
    if s.len() > 0 {
        assert(all_bound(s.drop_first())) by {
            assert forall|i: int| 0 <= i < s.drop_first().len() implies (
            #[trigger] s.drop_first()[i]).1.counterparty is Some by {
                assert(s.drop_first()[i] == s[i + 1]);
            }
        }
        lemma_bound_unexpired(s.drop_first(), now, timeout);
        let w = unexpired(s.drop_first(), now, timeout);
        if !is_expired(s[0].1.opened_at, now, timeout) {
            assert forall|i: int| 0 <= i < (seq![s[0]] + w).len() implies (#[trigger] (seq![s[0]]
                + w)[i]).1.counterparty is Some by {
                if i > 0 {
                    assert((seq![s[0]] + w)[i] == w[i - 1]);
                }
            }
        }
    }
}

/// No trade left after expiry has run out of time.
pub proof fn lemma_unexpired_are_fresh<E>(s: Seq<(u64, PendingTrade<E>)>, now: u64, timeout: u64)
    ensures
        forall|i: int|
            0 <= i < unexpired(s, now, timeout).len() ==> !is_expired(
                (#[trigger] unexpired(s, now, timeout)[i]).1.opened_at,
                now,
                timeout,
            ),
    decreases s.len(),
{
    if s.len() > 0 {
        lemma_unexpired_are_fresh(s.drop_first(), now, timeout);
        let w = unexpired(s.drop_first(), now, timeout);
        if !is_expired(s[0].1.opened_at, now, timeout) {
            assert forall|i: int| 0 <= i < (seq![s[0]] + w).len() implies !is_expired(
                (#[trigger] (seq![s[0]] + w)[i]).1.opened_at,
                now,
                timeout,
            ) by {
                if i > 0 {
                    assert((seq![s[0]] + w)[i] == w[i - 1]);
                }
            }
        }
    }
}

/// Sweeping keeps exactly the trades still within their time, whoever their
/// counterparty (bound or not), in order: those fewer than `timeout` cycles
/// old at `now` (a trade opened after `now` counts as zero cycles old).
pub proof fn lemma_sweep_keeps_exactly_the_fresh<E>(s: Seq<(u64, PendingTrade<E>)>, now: u64, timeout: u64)
    ensures
        unexpired(s, now, timeout) == s.filter(
            |e: (u64, PendingTrade<E>)|
                (if now >= e.1.opened_at { now - e.1.opened_at } else { 0 }) < timeout,
        ),
    decreases s.len(),
{
    let pred = |e: (u64, PendingTrade<E>)|
        (if now >= e.1.opened_at { now - e.1.opened_at } else { 0 }) < timeout;
    reveal(Seq::filter);
    if s.len() > 0 {
        lemma_sweep_keeps_exactly_the_fresh(s.drop_first(), now, timeout);
        let head = seq![s[0]];
        assert(s =~= head + s.drop_first());
        Seq::filter_distributes_over_add(head, s.drop_first(), pred);
        assert(head.drop_last() =~= Seq::<(u64, PendingTrade<E>)>::empty());
        assert(head.last() == s[0]);
        if pred(s[0]) {
            assert(head.filter(pred) =~= head);
        } else {
            assert(head.drop_last().filter(pred) == head.drop_last());
            assert(head.filter(pred) == head.drop_last());
            assert(head.filter(pred) =~= Seq::<(u64, PendingTrade<E>)>::empty());
            assert(Seq::<(u64, PendingTrade<E>)>::empty() + s.drop_first().filter(pred) =~= s.drop_first().filter(pred));
        }
    }
}

/// Sweeping blames exactly the counterparties of the trades that ran out of
/// time (at least `timeout` cycles old at `now`), in order; an expired trade
/// nobody accepted blames no one.
pub proof fn lemma_sweep_blames_exactly_the_expired<E>(s: Seq<(u64, PendingTrade<E>)>, now: u64, timeout: u64)
    ensures
        expired_parties(s, now, timeout) == s.filter(
            |e: (u64, PendingTrade<E>)|
                (if now >= e.1.opened_at { now - e.1.opened_at } else { 0 }) >= timeout
                    && e.1.counterparty is Some,
        ).map_values(|e: (u64, PendingTrade<E>)| e.1.counterparty.unwrap()@),
    decreases s.len(),
{
    let pred = |e: (u64, PendingTrade<E>)|
        (if now >= e.1.opened_at { now - e.1.opened_at } else { 0 }) >= timeout && e.1.counterparty is Some;
    let f = |e: (u64, PendingTrade<E>)| e.1.counterparty.unwrap()@;
    reveal(Seq::filter);
    if s.len() > 0 {
        lemma_sweep_blames_exactly_the_expired(s.drop_first(), now, timeout);
        let head = seq![s[0]];
        assert(s =~= head + s.drop_first());
        Seq::filter_distributes_over_add(head, s.drop_first(), pred);
        assert(head.drop_last() =~= Seq::<(u64, PendingTrade<E>)>::empty());
        assert(head.last() == s[0]);
        let rest = s.drop_first().filter(pred);
        if pred(s[0]) {
            assert(head.filter(pred) =~= head);
            assert((head + rest).map_values(f) =~= seq![f(s[0])] + rest.map_values(f));
        } else {
            assert(head.drop_last().filter(pred) == head.drop_last());
            assert(head.filter(pred) == head.drop_last());
            assert(head.filter(pred) =~= Seq::<(u64, PendingTrade<E>)>::empty());
            assert(Seq::<(u64, PendingTrade<E>)>::empty() + rest =~= rest);
        }
    }
}

/// A settled trade is spent: settling the same nonce again with the same
/// signature is refused as unknown, unless both sides of the book held
/// that nonce.
pub proof fn lemma_settle_once<E>(
    accepted: Seq<(u64, PendingTrade<E>)>,
    proposed: Seq<(u64, PendingTrade<E>)>,
    nonce: u64,
    signer: Seq<u8>,
)
    requires
        settle_decision(accepted, proposed, nonce, signer) is Ok,
        find_trade(accepted, nonce) is None || find_trade(proposed, nonce) is None,
    ensures
        settle_decision(
            settle_after(accepted, proposed, nonce, signer).0,
            settle_after(accepted, proposed, nonce, signer).1,
            nonce,
            signer,
        ) == Err::<(bool, PendingTrade<E>), Seq<char>>(unknown_text(nonce)),
{
    lemma_find_without(accepted, nonce, nonce);
    lemma_find_without(proposed, nonce, nonce);
}

/// A settlement is only ever honoured from the peer recorded for its trade.
pub proof fn lemma_settle_binds_signer<E>(
    accepted: Seq<(u64, PendingTrade<E>)>,
    proposed: Seq<(u64, PendingTrade<E>)>,
    nonce: u64,
    signer: Seq<u8>,
)
    requires
        settle_decision(accepted, proposed, nonce, signer) is Ok,
    ensures
        party_of(settle_decision(accepted, proposed, nonce, signer)->Ok_0.1.counterparty) == Some(
            signer,
        ),
        find_trade(accepted, nonce) == Some(settle_decision(accepted, proposed, nonce, signer)->Ok_0.1)
            || find_trade(proposed, nonce) == Some(
            settle_decision(accepted, proposed, nonce, signer)->Ok_0.1,
        ),
{
}

/// The first trade under `nonce`, by reference.
fn trade_ref<E>(v: &Vec<(u64, PendingTrade<E>)>, nonce: u64) -> (r: Option<&PendingTrade<E>>)
    ensures
        match r {
            Some(t) => find_trade(v@, nonce) == Some(*t),
            None => find_trade(v@, nonce) is None,
        },
{
    let mut i: usize = 0;
    assert(v@.skip(0) =~= v@);
    while i < v.len()
        invariant
            i <= v@.len(),
            find_trade(v@, nonce) == find_trade(v@.skip(i as int), nonce),
        decreases v@.len() - i,
    {
        assert(v@.skip(i as int).drop_first() =~= v@.skip(i as int + 1));
        if v[i].0 == nonce {
            return Some(&v[i].1);
        }
        i = i + 1;
    }
    None
}

/// Remove every entry under `nonce`, returning the first such trade.
fn take_trade<E>(v: &mut Vec<(u64, PendingTrade<E>)>, nonce: u64) -> (r: Option<PendingTrade<E>>)
    ensures
        r == find_trade(old(v)@, nonce),
        final(v)@ == without_nonce(old(v)@, nonce),
{
    let mut rest: Vec<(u64, PendingTrade<E>)> = Vec::new();
    std::mem::swap(&mut rest, v);
    let ghost orig = rest@;
    let mut kept: Vec<(u64, PendingTrade<E>)> = Vec::new();
    let mut found: Option<PendingTrade<E>> = None;
    while rest.len() > 0
        invariant
            kept@ + without_nonce(rest@, nonce) == without_nonce(orig, nonce),
            match found {
                Some(t) => find_trade(orig, nonce) == Some(t),
                None => find_trade(orig, nonce) == find_trade(rest@, nonce),
            },
        decreases rest@.len(),
    {
        let ghost before = rest@;
        let e = rest.remove(0);
        assert(rest@ =~= before.drop_first());
        let (k, t) = e;
        if k == nonce {
            if found.is_none() {
                found = Some(t);
            }
        } else {
            proof {
                assert(kept@.push((k, t)) + without_nonce(rest@, nonce) =~= kept@ + (seq![(k, t)]
                    + without_nonce(rest@, nonce)));
            }
            kept.push((k, t));
        }
    }
    assert(kept@ =~= without_nonce(orig, nonce));
    *v = kept;
    found
}

/// Record `t` under `nonce`, replacing any trade under the same nonce.
fn put_trade<E>(v: &mut Vec<(u64, PendingTrade<E>)>, nonce: u64, t: PendingTrade<E>)
    ensures
        final(v)@ == without_nonce(old(v)@, nonce).push((nonce, t)),
{
    let _ = take_trade(v, nonce);
    v.push((nonce, t));
}

/// How many trades are bound to `peer`.
fn count_trades<E>(v: &Vec<(u64, PendingTrade<E>)>, peer: &AgentId) -> (c: usize)
    ensures
        c == count_for_peer(v@, peer@),
{
    let mut c: usize = 0;
    let mut i: usize = 0;
    assert(v@.skip(0) =~= v@);
    while i < v.len()
        invariant
            i <= v@.len(),
            c <= i,
            c + count_for_peer(v@.skip(i as int), peer@) == count_for_peer(v@, peer@),
        decreases v@.len() - i,
    {
        assert(v@.skip(i as int).drop_first() =~= v@.skip(i as int + 1));
        let hit = match &v[i].1.counterparty {
            Some(a) => *a == *peer,
            None => false,
        };
        if hit {
            c = c + 1;
        }
        i = i + 1;
    }
    assert(v@.skip(i as int) =~= Seq::<(u64, PendingTrade<E>)>::empty());
    c
}

/// Drop the trades that have run out of time, appending their
/// counterparties to `out`.
fn drain_expired<E>(v: &mut Vec<(u64, PendingTrade<E>)>, now: u64, timeout: u64, out: &mut Vec<AgentId>)
    ensures
        final(v)@ == unexpired(old(v)@, now, timeout),
        agent_views(final(out)@) == agent_views(old(out)@) + expired_parties(old(v)@, now, timeout),
{
    let mut rest: Vec<(u64, PendingTrade<E>)> = Vec::new();
    std::mem::swap(&mut rest, v);
    let ghost orig = rest@;
    let ghost out0 = agent_views(out@);
    let mut kept: Vec<(u64, PendingTrade<E>)> = Vec::new();
    while rest.len() > 0
        invariant
            kept@ + unexpired(rest@, now, timeout) == unexpired(orig, now, timeout),
            agent_views(out@) + expired_parties(rest@, now, timeout) == out0 + expired_parties(
                orig,
                now,
                timeout,
            ),
        decreases rest@.len(),
    {
        let ghost before = rest@;
        let e = rest.remove(0);
        assert(rest@ =~= before.drop_first());
        let (k, t) = e;
        let elapsed: u64 = if now >= t.opened_at {
            now - t.opened_at
        } else {
            0
        };
        if elapsed >= timeout {
            match t.counterparty {
                Some(a) => {
                    proof {
                        assert(agent_views(out@.push(a)) =~= agent_views(out@).push(a@));
                        assert(agent_views(out@).push(a@) + expired_parties(rest@, now, timeout)
                            =~= agent_views(out@) + (seq![a@] + expired_parties(
                            rest@,
                            now,
                            timeout,
                        )));
                    }
                    out.push(a);
                },
                None => {},
            }
        } else {
            proof {
                assert(kept@.push((k, t)) + unexpired(rest@, now, timeout) =~= kept@ + (seq![(k, t)]
                    + unexpired(rest@, now, timeout)));
            }
            kept.push((k, t));
        }
    }
    assert(kept@ =~= unexpired(orig, now, timeout));
    assert(agent_views(out@) =~= out0 + expired_parties(orig, now, timeout));
    *v = kept;
}

/// `prefix`, the decimal nonce, `suffix`.
fn nonce_text(prefix: &str, nonce: u64, suffix: &str) -> (s: String)
    ensures
        s@ == prefix@ + decimal(nonce as nat) + suffix@,
{
    let d = decimal_string(nonce);
    join3(prefix, d.as_str(), suffix)
}

/// `rand::random::<u64>()`: a nonce from the thread-local generator.
/// Random, so nothing is stated of it; the generator fails (panics) only
/// when the operating system's random source cannot be opened, which no
/// argument controls.
#[verifier::external_body]
fn random_nonce() -> u64 {
    rand::random::<u64>()
}

/// Both sides of this agent's open trades, and the cap on offers it holds
/// from any one peer.
#[derive(Debug)]
pub struct TradeBook<E> {
    accepted: Vec<(u64, PendingTrade<E>)>,
    proposed: Vec<(u64, PendingTrade<E>)>,
    max_pending_per_peer: usize,
}

impl<E> TradeBook<E> {
    /// Trades accepted from peers (offeree side), awaiting their settlement.
    pub closed spec fn accepted(&self) -> Seq<(u64, PendingTrade<E>)> {
        self.accepted@
    }

    /// Trades this agent proposed, awaiting an accepter and its settlement.
    pub closed spec fn proposed(&self) -> Seq<(u64, PendingTrade<E>)> {
        self.proposed@
    }

    /// The most offers held from any one peer.
    pub closed spec fn cap(&self) -> nat {
        self.max_pending_per_peer as nat
    }

    /// Every accepted trade knows its proposer, and no peer holds more
    /// accepted offers than the cap.
    pub open spec fn well_formed(&self) -> bool {
        &&& all_bound(self.accepted())
        &&& forall|p: Seq<u8>| #[trigger] count_for_peer(self.accepted(), p) <= self.cap()
    }

    /// An empty book holding at most `max_pending_per_peer` offers per peer.
    pub fn new(max_pending_per_peer: usize) -> (b: Self)
        ensures
            b.well_formed(),
            b.accepted() == Seq::<(u64, PendingTrade<E>)>::empty(),
            b.proposed() == Seq::<(u64, PendingTrade<E>)>::empty(),
            b.cap() == max_pending_per_peer,
    {
        TradeBook { accepted: Vec::new(), proposed: Vec::new(), max_pending_per_peer }
    }

    pub fn max_pending_per_peer(&self) -> (n: usize)
        ensures
            n == self.cap(),
    {
        self.max_pending_per_peer
    }

    /// Open a trade of our own under a fresh random nonce, expecting
    /// `expect` from whoever accepts it; returns the nonce.
    pub fn propose(&mut self, expect: E, now: u64) -> (nonce: u64)
        requires
            old(self).well_formed(),
        ensures
            final(self).well_formed(),
            final(self).cap() == old(self).cap(),
            final(self).accepted() == old(self).accepted(),
            final(self).proposed() == without_nonce(old(self).proposed(), nonce).push(
                (nonce, PendingTrade { counterparty: None, expect, opened_at: now }),
            ),
    {
        let nonce = random_nonce();
        put_trade(&mut self.proposed, nonce, PendingTrade { counterparty: None, expect, opened_at: now });
        nonce
    }

    /// Bind whoever accepted our trade `nonce`: the first accepter is
    /// recorded; the same accepter again is fine; anyone else is refused.
    pub fn bind_accepter(&mut self, nonce: u64, signer: AgentId) -> (r: Result<(), Error>)
        requires
            old(self).well_formed(),
        ensures
            final(self).well_formed(),
            final(self).cap() == old(self).cap(),
            final(self).accepted() == old(self).accepted(),
            match find_trade(old(self).proposed(), nonce) {
                None => (r matches Err(Error::Invalid(m)) && m@ == no_proposal_text(nonce))
                    && final(self).proposed() == old(self).proposed(),
                Some(t) => match t.counterparty {
                    None => r is Ok && final(self).proposed() == without_nonce(
                        old(self).proposed(),
                        nonce,
                    ).push(
                        (
                            nonce,
                            PendingTrade {
                                counterparty: Some(signer),
                                expect: t.expect,
                                opened_at: t.opened_at,
                            },
                        ),
                    ),
                    Some(a) => if a@ == signer@ {
                        r is Ok && final(self).proposed() == old(self).proposed()
                    } else {
                        (r matches Err(Error::Integrity(m)) && m@ == taken_text(nonce))
                            && final(self).proposed() == old(self).proposed()
                    },
                },
            },
    {
        let bound = match trade_ref(&self.proposed, nonce) {
            None => {
                let d = decimal_string(nonce);
                return Err(Error::Invalid(join("no proposed trade for nonce ", d.as_str())));
            },
            Some(t) => match &t.counterparty {
                None => None,
                Some(a) => Some(*a == signer),
            },
        };
        match bound {
            Some(true) => Ok(()),
            Some(false) => Err(
                Error::Integrity(nonce_text("nonce ", nonce, " already accepted by a different peer")),
            ),
            None => {
                match take_trade(&mut self.proposed, nonce) {
                    Some(t) => {
                        self.proposed.push(
                            (
                                nonce,
                                PendingTrade {
                                    counterparty: Some(signer),
                                    expect: t.expect,
                                    opened_at: t.opened_at,
                                },
                            ),
                        );
                        Ok(())
                    },
                    None => Ok(()),
                }
            },
        }
    }

    /// Admit a peer's offer `nonce` (expecting `expect` from it): refused
    /// quietly (`Ok(false)`) when the peer is blacklisted or we cannot
    /// afford our side, refused with an error when the peer already holds
    /// the cap of pending offers, recorded (`Ok(true)`) otherwise.
    pub fn admit_offer(
        &mut self,
        peer: AgentId,
        nonce: u64,
        expect: E,
        now: u64,
        blacklisted: bool,
        affordable: bool,
    ) -> (r: Result<bool, Error>)
        requires
            old(self).well_formed(),
        ensures
            final(self).well_formed(),
            final(self).cap() == old(self).cap(),
            final(self).proposed() == old(self).proposed(),
            blacklisted ==> r == Ok::<bool, Error>(false) && final(self).accepted() == old(
                self,
            ).accepted(),
            !blacklisted && count_for_peer(old(self).accepted(), peer@) >= old(self).cap() ==> (
            r matches Err(Error::Resource(m)) && m@ == cap_text(
                peer@,
                count_for_peer(old(self).accepted(), peer@),
                old(self).cap(),
            )) && final(self).accepted() == old(self).accepted(),
            !blacklisted && count_for_peer(old(self).accepted(), peer@) < old(self).cap()
                && !affordable ==> r == Ok::<bool, Error>(false) && final(self).accepted() == old(
                self,
            ).accepted(),
            !blacklisted && count_for_peer(old(self).accepted(), peer@) < old(self).cap()
                && affordable ==> r == Ok::<bool, Error>(true) && final(self).accepted()
                == without_nonce(old(self).accepted(), nonce).push(
                (nonce, PendingTrade { counterparty: Some(peer), expect, opened_at: now }),
            ),
    {
        if blacklisted {
            return Ok(false);
        }
        let pending = count_trades(&self.accepted, &peer);
        if pending >= self.max_pending_per_peer {
            let hex = peer.to_string();
            let n = decimal_string(pending as u64);
            let c = decimal_string(self.max_pending_per_peer as u64);
            let mut m = String::from_str("peer ");
            m.append(hex.as_str());
            m.append(" has ");
            m.append(n.as_str());
            m.append(" pending offers (cap ");
            m.append(c.as_str());
            m.append(")");
            return Err(Error::Resource(m));
        }
        if !affordable {
            return Ok(false);
        }
        let ghost old_acc = self.accepted@;
        let e = (nonce, PendingTrade { counterparty: Some(peer), expect, opened_at: now });
        let ghost ge = e;
        put_trade(&mut self.accepted, nonce, e.1);
        proof {
            let w = without_nonce(old_acc, nonce);
            assert(self.accepted@ == w.push(ge));
            lemma_bound_without(old_acc, nonce);
            assert forall|i: int| 0 <= i < self.accepted@.len() implies (
            #[trigger] self.accepted@[i]).1.counterparty is Some by {
                if i < w.len() {
                    assert(self.accepted@[i] == w[i]);
                }
            }
            assert forall|p: Seq<u8>| #[trigger] count_for_peer(self.accepted@, p) <= self.cap() by {
                lemma_count_push(w, ge, p);
                lemma_count_without(old_acc, nonce, p);
            }
        }
        Ok(true)
    }

    /// Settle trade `nonce` for a settlement signed by `signer`: the trade
    /// it completes leaves the book and is returned; anything else is
    /// refused with an integrity error and the book is unchanged.
    pub fn settle(&mut self, nonce: u64, signer: AgentId) -> (r: Result<PendingTrade<E>, Error>)
        requires
            old(self).well_formed(),
        ensures
            final(self).well_formed(),
            final(self).cap() == old(self).cap(),
            match settle_decision(old(self).accepted(), old(self).proposed(), nonce, signer@) {
                Ok((_, t)) => r == Ok::<PendingTrade<E>, Error>(t),
                Err(msg) => r matches Err(Error::Integrity(m)) && m@ == msg,
            },
            (final(self).accepted(), final(self).proposed()) == settle_after(
                old(self).accepted(),
                old(self).proposed(),
                nonce,
                signer@,
            ),
    {
        let on_accepted = match trade_ref(&self.accepted, nonce) {
            Some(t) => Some(
                match &t.counterparty {
                    Some(a) => *a == signer,
                    None => false,
                },
            ),
            None => None,
        };
        match on_accepted {
            Some(false) => {
                return Err(Error::Integrity(nonce_text("settle nonce ", nonce, " signed by wrong peer")));
            },
            Some(true) => {
                let ghost old_acc = self.accepted@;
                let taken = take_trade(&mut self.accepted, nonce);
                proof {
                    lemma_bound_without(old_acc, nonce);
                    assert forall|p: Seq<u8>| #[trigger]
                        count_for_peer(self.accepted@, p) <= self.cap() by {
                        lemma_count_without(old_acc, nonce, p);
                    }
                }
                return match taken {
                    Some(t) => Ok(t),
                    None => Err(Error::Integrity(nonce_text("settle nonce ", nonce, " signed by wrong peer"))),
                };
            },
            None => {},
        }
        let on_proposed = match trade_ref(&self.proposed, nonce) {
            Some(t) => Some(
                match &t.counterparty {
                    Some(a) => Some(*a == signer),
                    None => None,
                },
            ),
            None => None,
        };
        match on_proposed {
            Some(Some(true)) => match take_trade(&mut self.proposed, nonce) {
                Some(t) => Ok(t),
                None => Err(Error::Integrity(nonce_text("settle nonce ", nonce, " signed by wrong peer"))),
            },
            Some(Some(false)) => Err(
                Error::Integrity(nonce_text("settle nonce ", nonce, " signed by wrong peer")),
            ),
            Some(None) => Err(
                Error::Integrity(
                    nonce_text(
                        "settle nonce ",
                        nonce,
                        " has no bound accepter (call receive_accept first)",
                    ),
                ),
            ),
            None => Err(
                Error::Integrity(nonce_text("settle nonce ", nonce, " not recognized as an active trade")),
            ),
        }
    }

    /// Drop every trade, on either side, that has been open for at least
    /// `timeout` cycles at `now`; returns the counterparties of the dropped
    /// trades (accepted side first), each a broken bargain to answer for.
    pub fn sweep(&mut self, now: u64, timeout: u64) -> (r: Vec<AgentId>)
        requires
            old(self).well_formed(),
        ensures
            final(self).well_formed(),
            final(self).cap() == old(self).cap(),
            final(self).accepted() == unexpired(old(self).accepted(), now, timeout),
            final(self).proposed() == unexpired(old(self).proposed(), now, timeout),
            agent_views(r@) == expired_parties(old(self).accepted(), now, timeout) + expired_parties(
                old(self).proposed(),
                now,
                timeout,
            ),
    {
        let ghost old_acc = self.accepted@;
        let mut out: Vec<AgentId> = Vec::new();
        assert(agent_views(out@) =~= Seq::<Seq<u8>>::empty());
        drain_expired(&mut self.accepted, now, timeout, &mut out);
        drain_expired(&mut self.proposed, now, timeout, &mut out);
        proof {
            lemma_bound_unexpired(old_acc, now, timeout);
            assert forall|p: Seq<u8>| #[trigger] count_for_peer(self.accepted@, p) <= self.cap() by {
                lemma_count_unexpired(old_acc, now, timeout, p);
            }
        }
        out
    }

    /// Offers accepted but not yet settled.
    pub fn pending_count(&self) -> (n: usize)
        ensures
            n == self.accepted().len(),
    {
        self.accepted.len()
    }

    /// Trades proposed but not yet settled.
    pub fn proposed_pending_count(&self) -> (n: usize)
        ensures
            n == self.proposed().len(),
    {
        self.proposed.len()
    }

    /// Offers accepted from `peer` and not yet settled; never above the cap.
    pub fn pending_for(&self, peer: &AgentId) -> (n: usize)
        requires
            self.well_formed(),
        ensures
            n == count_for_peer(self.accepted(), peer@),
            n <= self.cap(),
    {
        count_trades(&self.accepted, peer)
    }
}

} // verus!
