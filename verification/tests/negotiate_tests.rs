use vitalis::barter::{
    next_relay_hops, provenance_ok, relayed_hops_acceptable, relayed_report_folds, verify_binding, SignedMessage, Signer,
    MAX_HOPS, MAX_MESSAGE_BYTES,
};
use vitalis::error::Error;
use vitalis::hearsay::{Hearsay, HearsayBook};
use vitalis::pins::PinStore;
use vitalis::trades::TradeBook;
use vitalis::types::AgentId;

fn signed(signer: &Signer, id: AgentId, payload: &[u8]) -> SignedMessage {
    signer.sign_message(id, payload.to_vec())
}

fn check(pins: &mut PinStore, m: &SignedMessage) -> bool {
    verify_binding(pins, m.signer, &m.public_key, &m.payload, &m.signature)
}

#[test]
fn signed_message_verifies_and_pins_first_key() {
    let signer = Signer::generate().unwrap();
    let id = AgentId::new();
    let m = signed(&signer, id, b"offer 2cu for 500J");
    assert_eq!(m.signer, id);
    assert_eq!(m.public_key, signer.public_key());
    let mut pins = PinStore::new();
    assert!(check(&mut pins, &m));
    assert_eq!(pins.lookup(&id), Some(&signer.public_key()));
    // The same identity under the same key keeps verifying.
    let m2 = signed(&signer, id, b"settle");
    assert!(check(&mut pins, &m2));
}

#[test]
fn tampered_barter_payload_is_rejected() {
    let signer = Signer::generate().unwrap();
    let id = AgentId::new();
    let mut m = signed(&signer, id, b"offer 2cu for 500J");
    m.payload[0] ^= 0xff;
    let mut pins = PinStore::new();
    assert!(!check(&mut pins, &m));
    // A refused message pins nothing.
    assert_eq!(pins.lookup(&id), None);
}

#[test]
fn swapped_key_for_pinned_identity_is_rejected() {
    let honest = Signer::generate().unwrap();
    let forger = Signer::generate().unwrap();
    let id = AgentId::new();
    let mut pins = PinStore::new();
    assert!(check(&mut pins, &signed(&honest, id, b"hello")));
    // A validly signed message claiming the same identity under another key.
    let spoof = signed(&forger, id, b"hello");
    assert!(!check(&mut pins, &spoof));
    assert_eq!(pins.lookup(&id), Some(&honest.public_key()));
}

#[test]
fn oversize_payload_is_refused_before_decoding() {
    let signer = Signer::generate().unwrap();
    let ok = signed(&signer, AgentId::new(), &vec![0u8; MAX_MESSAGE_BYTES]);
    assert!(ok.check_payload().is_ok());
    let big = signed(&signer, AgentId::new(), &vec![0u8; MAX_MESSAGE_BYTES + 1]);
    assert_eq!(
        big.check_payload(),
        Err(Error::Invalid(
            "message payload of 65537 bytes exceeds the 65536-byte limit".to_string()
        ))
    );
}

#[test]
fn relayed_claims_travel_a_bounded_number_of_hops() {
    assert_eq!(MAX_HOPS, 3);
    assert_eq!(next_relay_hops(1), Some(2));
    assert_eq!(next_relay_hops(2), Some(3));
    assert_eq!(next_relay_hops(3), None);
    assert_eq!(next_relay_hops(7), None);
    assert!(!relayed_hops_acceptable(0));
    assert!(relayed_hops_acceptable(1));
    assert!(relayed_hops_acceptable(3));
    assert!(!relayed_hops_acceptable(4));
}

#[test]
fn provenance_binds_to_the_original_witness() {
    let witness = Signer::generate().unwrap();
    let origin = AgentId::new();
    let inner = signed(&witness, origin, b"report");
    let mut pins = PinStore::new();
    assert!(provenance_ok(&mut pins, origin, 2, &inner));
    // Claimed to come from someone else.
    assert!(!provenance_ok(&mut pins, AgentId::new(), 2, &inner));
    // Travelled too far.
    assert!(!provenance_ok(&mut pins, origin, 4, &inner));
    // Tampered original.
    let mut bad = inner.clone();
    bad.payload.push(1);
    assert!(!provenance_ok(&mut pins, origin, 1, &bad));
}

#[test]
fn honest_settle_completes_an_accepted_trade() {
    let peer = AgentId::new();
    let mut book: TradeBook<&str> = TradeBook::new(16);
    assert_eq!(book.admit_offer(peer, 7, "2cu", 0, false, true), Ok(true));
    assert_eq!(book.pending_count(), 1);
    assert_eq!(book.pending_for(&peer), 1);
    let trade = book.settle(7, peer).unwrap();
    assert_eq!(trade.expect, "2cu");
    assert_eq!(trade.counterparty, Some(peer));
    assert_eq!(trade.opened_at, 0);
    assert_eq!(book.pending_count(), 0);
}

#[test]
fn replayed_settlement_is_refused() {
    let peer = AgentId::new();
    let mut book: TradeBook<u32> = TradeBook::new(16);
    book.admit_offer(peer, 7, 500, 0, false, true).unwrap();
    assert!(book.settle(7, peer).is_ok());
    assert_eq!(
        book.settle(7, peer).map(|t| t.expect),
        Err(Error::Integrity(
            "settle nonce 7 not recognized as an active trade".to_string()
        ))
    );
}

#[test]
fn settlement_from_another_peer_is_refused() {
    let peer = AgentId::new();
    let thief = AgentId::new();
    let mut book: TradeBook<u32> = TradeBook::new(16);
    book.admit_offer(peer, 9, 500, 0, false, true).unwrap();
    assert_eq!(
        book.settle(9, thief).map(|t| t.expect),
        Err(Error::Integrity("settle nonce 9 signed by wrong peer".to_string()))
    );
    assert_eq!(book.pending_count(), 1);
    assert_eq!(book.settle(9, peer).map(|t| t.expect), Ok(500));
}

#[test]
fn proposer_settlement_needs_the_bound_accepter() {
    let accepter = AgentId::new();
    let other = AgentId::new();
    let mut book: TradeBook<u32> = TradeBook::new(16);
    let n = book.propose(500, 3);
    assert_eq!(book.proposed_pending_count(), 1);
    assert_eq!(
        book.settle(n, accepter).map(|t| t.expect),
        Err(Error::Integrity(format!(
            "settle nonce {n} has no bound accepter (call receive_accept first)"
        )))
    );
    assert_eq!(book.bind_accepter(n, accepter), Ok(()));
    assert_eq!(book.bind_accepter(n, accepter), Ok(()));
    assert_eq!(
        book.bind_accepter(n, other),
        Err(Error::Integrity(format!(
            "nonce {n} already accepted by a different peer"
        )))
    );
    assert_eq!(
        book.settle(n, other).map(|t| t.expect),
        Err(Error::Integrity(format!("settle nonce {n} signed by wrong peer")))
    );
    let t = book.settle(n, accepter).unwrap();
    assert_eq!((t.expect, t.opened_at, t.counterparty), (500, 3, Some(accepter)));
    assert_eq!(book.proposed_pending_count(), 0);
}

#[test]
fn accept_for_an_unknown_nonce_is_invalid() {
    let mut book: TradeBook<u32> = TradeBook::new(16);
    assert_eq!(
        book.bind_accepter(42, AgentId::new()),
        Err(Error::Invalid("no proposed trade for nonce 42".to_string()))
    );
}

#[test]
fn pending_offers_are_capped_per_peer() {
    let spammer = AgentId::new();
    let other = AgentId::new();
    let mut book: TradeBook<u32> = TradeBook::new(2);
    assert_eq!(book.max_pending_per_peer(), 2);
    assert_eq!(book.admit_offer(spammer, 1, 1, 0, false, true), Ok(true));
    assert_eq!(book.admit_offer(spammer, 2, 1, 0, false, true), Ok(true));
    assert_eq!(
        book.admit_offer(spammer, 3, 1, 0, false, true),
        Err(Error::Resource(format!(
            "peer {} has 2 pending offers (cap 2)",
            spammer.to_string()
        )))
    );
    assert_eq!(book.pending_for(&spammer), 2);
    assert_eq!(book.admit_offer(other, 4, 1, 0, false, true), Ok(true));
    assert_eq!(book.pending_count(), 3);
}

#[test]
fn blacklisted_or_unaffordable_offers_are_declined() {
    let peer = AgentId::new();
    let mut book: TradeBook<u32> = TradeBook::new(0);
    // Blacklisting is checked before the cap.
    assert_eq!(book.admit_offer(peer, 1, 1, 0, true, true), Ok(false));
    let mut book: TradeBook<u32> = TradeBook::new(4);
    assert_eq!(book.admit_offer(peer, 1, 1, 0, false, false), Ok(false));
    assert_eq!(book.pending_count(), 0);
}

#[test]
fn expired_trades_are_swept_and_blamed() {
    let late = AgentId::new();
    let bound = AgentId::new();
    let fresh = AgentId::new();
    let mut book: TradeBook<u32> = TradeBook::new(16);
    book.admit_offer(late, 1, 10, 0, false, true).unwrap();
    book.admit_offer(fresh, 2, 10, 3, false, true).unwrap();
    let unbound = book.propose(20, 0);
    let n = book.propose(30, 0);
    book.bind_accepter(n, bound).unwrap();
    let broken = book.sweep(5, 5);
    assert_eq!(broken, vec![late, bound]);
    assert_eq!(book.pending_count(), 1);
    assert_eq!(book.pending_for(&fresh), 1);
    assert_eq!(book.proposed_pending_count(), 0);
    // The unbound proposal expired quietly.
    assert!(book.bind_accepter(unbound, bound).is_err());
}

fn claim(subject: AgentId, origin: AgentId, trust: u32, as_of: u64, hops: u32) -> Hearsay<u32> {
    Hearsay { subject, origin, trust, as_of_cycle: as_of, hops }
}

#[test]
fn hearsay_is_kept_once_per_witness() {
    let me = AgentId::new();
    let subject = AgentId::new();
    let witness = AgentId::new();
    let mut book: HearsayBook<u32> = HearsayBook::new();
    assert!(book.fold(&me, claim(subject, witness, 80, 10, 1), 10));
    // The same witness's claim relayed over another path, newer: replaces.
    assert!(book.fold(&me, claim(subject, witness, 60, 12, 3), 12));
    // Older than what is held: ignored.
    assert!(!book.fold(&me, claim(subject, witness, 10, 11, 2), 12));
    let held = book.current(&subject, 12);
    assert_eq!(held.len(), 1);
    assert_eq!((held[0].trust, held[0].as_of_cycle, held[0].hops), (60, 12, 3));
    assert_eq!(book.origins(&subject, 12), vec![witness]);
}

#[test]
fn inadmissible_hearsay_is_ignored() {
    let me = AgentId::new();
    let subject = AgentId::new();
    let witness = AgentId::new();
    let mut book: HearsayBook<u32> = HearsayBook::new();
    // About this agent itself.
    assert!(!book.fold(&me, claim(me, witness, 0, 5, 1), 5));
    // Self-vouching.
    assert!(!book.fold(&me, claim(subject, subject, 100, 5, 1), 5));
    // Future-dated.
    assert!(!book.fold(&me, claim(subject, witness, 50, 6, 1), 5));
    // Stale: older than the report age limit.
    assert!(!book.fold(&me, claim(subject, witness, 50, 0, 1), 101));
    // Travelled too far, or not at all.
    assert!(!book.fold(&me, claim(subject, witness, 50, 5, 4), 5));
    assert!(!book.fold(&me, claim(subject, witness, 50, 5, 0), 5));
    assert!(book.current(&subject, 5).is_empty());
    // Exactly at the age limit it is still current.
    assert!(book.fold(&me, claim(subject, witness, 50, 0, 1), 100));
    assert_eq!(book.origins(&subject, 100), vec![witness]);
    // One cycle later it no longer backs the subject.
    assert!(book.origins(&subject, 101).is_empty());
}

#[test]
fn witnesses_are_listed_per_subject() {
    let me = AgentId::new();
    let a = AgentId::new();
    let b = AgentId::new();
    let w1 = AgentId::new();
    let w2 = AgentId::new();
    let mut book: HearsayBook<u32> = HearsayBook::new();
    assert!(book.fold(&me, claim(a, w1, 1, 1, 1), 1));
    assert!(book.fold(&me, claim(b, w1, 2, 1, 1), 1));
    assert!(book.fold(&me, claim(a, w2, 3, 1, 2), 1));
    assert_eq!(book.origins(&a, 1), vec![w1, w2]);
    assert_eq!(book.origins(&b, 1), vec![w1]);
}

#[test]
fn proposals_get_fresh_nonces() {
    let mut book: TradeBook<u32> = TradeBook::new(16);
    let a = book.propose(1, 0);
    let b = book.propose(2, 0);
    assert_ne!(a, b);
    assert_eq!(book.proposed_pending_count(), 2);
}

#[test]
fn relayed_reports_fold_only_when_every_check_passes() {
    assert!(relayed_report_folds(false, 1, true, true));
    assert!(relayed_report_folds(false, 3, true, true));
    assert!(!relayed_report_folds(true, 1, true, true));
    assert!(!relayed_report_folds(false, 0, true, true));
    assert!(!relayed_report_folds(false, 4, true, true));
    assert!(!relayed_report_folds(false, 2, false, true));
    assert!(!relayed_report_folds(false, 2, true, false));
}
