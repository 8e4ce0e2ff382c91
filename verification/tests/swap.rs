use suture::curve::Scalar;
use suture::swap::{Action, Event, Phase, Role, Swap, ABORT_MARGIN};

const T0: i64 = 10_000;
const T1: i64 = 20_000;

fn scalar(n: u64) -> Scalar {
    let mut b = [0u8; 32];
    b[..8].copy_from_slice(&n.to_le_bytes());
    Scalar::from_canonical_bytes(b).expect("small scalar")
}

#[test]
fn maker_happy_path() {
    let s_b = scalar(7);
    let s_a = scalar(11);
    let (mut bob, start) = Swap::start_maker(T0, T1, s_b);
    assert_eq!(start, vec![Action::LockSol]);

    assert_eq!(bob.on(Event::SolLocked), vec![]);
    assert_eq!(bob.on(Event::XmrLocked), vec![Action::SetReady]);
    assert_eq!(bob.on(Event::Ready), vec![]);
    // Alice claims, revealing s_a; Bob sweeps with s_a + s_b.
    assert_eq!(
        bob.on(Event::SolClaimed { s_a }),
        vec![Action::SweepXmr { spend_key: s_a.plus(&s_b) }]
    );
    assert_eq!(bob.on(Event::XmrSwept), vec![Action::Done]);
    assert_eq!(bob.phase(), Phase::Done);
}

#[test]
fn maker_can_sweep_even_if_taker_claims_before_set_ready_confirms() {
    let s_b = scalar(3);
    let s_a = scalar(5);
    let (mut bob, _) = Swap::start_maker(T0, T1, s_b);
    bob.on(Event::SolLocked);
    bob.on(Event::XmrLocked); // emitted SetReady, phase XmrLocked
    // Claim arrives before our Ready confirmation: still sweep.
    assert_eq!(
        bob.on(Event::SolClaimed { s_a }),
        vec![Action::SweepXmr { spend_key: s_a.plus(&s_b) }]
    );
}

#[test]
fn maker_aborts_before_t0_if_taker_never_locks() {
    let (mut bob, _) = Swap::start_maker(T0, T1, scalar(7));
    bob.on(Event::SolLocked);
    // Well before the abort point: keep waiting.
    assert_eq!(bob.on(Event::Tick { now: T0 - ABORT_MARGIN - 1 }), vec![]);
    // At the abort point (still before t0): refund to deny a lock-free claim.
    assert_eq!(bob.on(Event::Tick { now: T0 - ABORT_MARGIN }), vec![Action::RefundSol]);
    assert!(T0 - ABORT_MARGIN < T0, "abort must land while the early-refund window is open");
    assert_eq!(bob.on(Event::SolRefunded { s_b: scalar(7) }), vec![Action::Done]);
    assert_eq!(bob.phase(), Phase::Done);
}

#[test]
fn maker_late_refunds_if_taker_locks_but_never_claims() {
    let (mut bob, _) = Swap::start_maker(T0, T1, scalar(7));
    bob.on(Event::SolLocked);
    bob.on(Event::XmrLocked);
    bob.on(Event::Ready);
    // Before t1: nothing.
    assert_eq!(bob.on(Event::Tick { now: T1 - 1 }), vec![]);
    // At t1: reclaim the SOL (reveals s_b so Alice can recover her XMR).
    assert_eq!(bob.on(Event::Tick { now: T1 }), vec![Action::RefundSol]);
}

#[test]
fn taker_happy_path() {
    let s_a = scalar(11);
    let (mut alice, start) = Swap::start_taker(T0, T1, s_a);
    assert_eq!(start, vec![]);

    assert_eq!(alice.on(Event::SolLocked), vec![Action::LockXmr]);
    assert_eq!(alice.on(Event::XmrLocked), vec![]);
    assert_eq!(alice.on(Event::Ready), vec![Action::ClaimSol]);
    // Our own claim confirms: we have the SOL.
    assert_eq!(alice.on(Event::SolClaimed { s_a }), vec![Action::Done]);
    assert_eq!(alice.phase(), Phase::Done);
}

#[test]
fn taker_claims_at_t0_even_without_set_ready() {
    let s_a = scalar(11);
    let (mut alice, _) = Swap::start_taker(T0, T1, s_a);
    alice.on(Event::SolLocked);
    alice.on(Event::XmrLocked);
    // Maker never set ready, but t0 opened the window.
    assert_eq!(alice.on(Event::Tick { now: T0 }), vec![Action::ClaimSol]);
    assert_eq!(alice.on(Event::SolClaimed { s_a }), vec![Action::Done]);
}

#[test]
fn taker_recovers_xmr_if_maker_refunds() {
    let s_a = scalar(11);
    let s_b = scalar(7);
    let (mut alice, _) = Swap::start_taker(T0, T1, s_a);
    alice.on(Event::SolLocked);
    alice.on(Event::XmrLocked);
    // Maker aborts/refunds, revealing s_b: recover with s_a + s_b.
    assert_eq!(
        alice.on(Event::SolRefunded { s_b }),
        vec![Action::SweepXmr { spend_key: s_a.plus(&s_b) }]
    );
    assert_eq!(alice.on(Event::XmrSwept), vec![Action::Done]);
    assert_eq!(alice.phase(), Phase::Done);
}

#[test]
fn taker_recovers_even_if_maker_refunds_right_after_xmr_lock() {
    // The griefing case: maker watches the XMR lock then early-refunds before t0.
    let s_a = scalar(11);
    let s_b = scalar(7);
    let (mut alice, _) = Swap::start_taker(T0, T1, s_a);
    alice.on(Event::SolLocked);
    alice.on(Event::XmrLocked);
    assert_eq!(
        alice.on(Event::SolRefunded { s_b }),
        vec![Action::SweepXmr { spend_key: s_a.plus(&s_b) }]
    );
}

#[test]
fn the_reconstructed_key_is_the_same_for_both_sides() {
    // Whichever way it settles, both sides compute the same 2-of-2 spend key.
    let s_a = scalar(11);
    let s_b = scalar(7);
    assert_eq!(s_a.plus(&s_b), s_b.plus(&s_a));
}

#[test]
fn terminal_states_ignore_further_events() {
    let s_a = scalar(11);
    let (mut alice, _) = Swap::start_taker(T0, T1, s_a);
    alice.on(Event::SolLocked);
    alice.on(Event::XmrLocked);
    alice.on(Event::Ready);
    alice.on(Event::SolClaimed { s_a }); // Done
    assert_eq!(alice.phase(), Phase::Done);
    assert_eq!(alice.on(Event::SolRefunded { s_b: scalar(7) }), vec![]);
    assert_eq!(alice.on(Event::Tick { now: T1 + 1 }), vec![]);
}

#[test]
fn the_taker_waits_for_its_own_lock_before_claiming() {
    let (mut alice, _) = Swap::start_taker(T0, T1, scalar(11));
    assert_eq!(alice.role(), Role::Taker);
    assert_eq!(alice.on(Event::Ready), vec![]);
    assert_eq!(alice.phase(), Phase::Start);
    alice.on(Event::SolLocked);
    assert_eq!(alice.on(Event::Ready), vec![]);
    assert_eq!(alice.on(Event::Tick { now: T0 + 1 }), vec![]);
    assert_eq!(alice.phase(), Phase::SolLocked);
}

#[test]
fn the_maker_keeps_waiting_once_the_xmr_is_locked() {
    let (mut bob, _) = Swap::start_maker(T0, T1, scalar(7));
    bob.on(Event::SolLocked);
    bob.on(Event::XmrLocked);
    assert_eq!(bob.on(Event::Tick { now: T0 }), vec![]);
    assert_eq!(bob.phase(), Phase::XmrLocked);
}

#[test]
fn the_abort_point_is_computed_without_overflow() {
    let (mut bob, _) = Swap::start_maker(i64::MIN, T1, scalar(7));
    bob.on(Event::SolLocked);
    assert_eq!(bob.on(Event::Tick { now: i64::MIN }), vec![Action::RefundSol]);
}

#[test]
fn a_maker_that_missed_the_xmr_lock_still_sweeps_after_a_claim() {
    let (mut bob, _) = Swap::start_maker(T0, T1, scalar(7));
    bob.on(Event::SolLocked);
    assert_eq!(
        bob.on(Event::SolClaimed { s_a: scalar(11) }),
        vec![Action::SweepXmr { spend_key: scalar(18) }]
    );
    assert_eq!(bob.phase(), Phase::Settled);
    // The clock no longer makes him refund, and the claim is acted on once.
    assert_eq!(bob.on(Event::Tick { now: T1 }), vec![]);
    assert_eq!(bob.on(Event::SolClaimed { s_a: scalar(11) }), vec![]);
    assert_eq!(bob.on(Event::XmrSwept), vec![Action::Done]);
    assert_eq!(bob.phase(), Phase::Done);
}

#[test]
fn a_maker_whose_refund_lost_to_a_claim_sweeps_once() {
    let (mut bob, _) = Swap::start_maker(T0, T1, scalar(7));
    bob.on(Event::SolLocked);
    assert_eq!(bob.on(Event::Tick { now: T0 - ABORT_MARGIN }), vec![Action::RefundSol]);
    assert_eq!(bob.on(Event::Tick { now: T1 }), vec![]);
    assert_eq!(
        bob.on(Event::SolClaimed { s_a: scalar(11) }),
        vec![Action::SweepXmr { spend_key: scalar(18) }]
    );
    assert_eq!(bob.on(Event::SolClaimed { s_a: scalar(11) }), vec![]);
    assert_eq!(bob.on(Event::XmrSwept), vec![Action::Done]);
    assert_eq!(bob.phase(), Phase::Done);
}

#[test]
fn a_claim_before_the_sol_lock_is_ignored() {
    let (mut bob, _) = Swap::start_maker(T0, T1, scalar(7));
    assert_eq!(bob.on(Event::SolClaimed { s_a: scalar(11) }), vec![]);
    assert_eq!(bob.phase(), Phase::Start);
}

#[test]
fn a_taker_recovers_from_every_phase_after_her_lock() {
    for seen in 0..3 {
        let (mut alice, _) = Swap::start_taker(T0, T1, scalar(11));
        let path = [Event::SolLocked, Event::XmrLocked, Event::Ready];
        for event in &path[..=seen] {
            alice.on(*event);
        }
        assert_eq!(
            alice.on(Event::SolRefunded { s_b: scalar(7) }),
            vec![Action::SweepXmr { spend_key: scalar(18) }]
        );
        assert_eq!(alice.phase(), Phase::Settled);
        assert_eq!(alice.on(Event::XmrSwept), vec![Action::Done]);
        assert_eq!(alice.phase(), Phase::Done);
    }
}
