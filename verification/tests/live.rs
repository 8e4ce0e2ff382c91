use std::cell::RefCell;
use std::rc::Rc;
use suture::codec::Escrow;
use suture::curve::{Point, Scalar};
use suture::executor::execute;
use suture::live::{
    escrow_view, round, AgreedTerms, EscrowView, LiveChains, Reading, Round, SolBackend, XmrBackend,
};
use suture::swap::{Action, Event, Phase, Role, Swap, ABORT_MARGIN};

const T0: i64 = 10_000;
const T1: i64 = 20_000;

fn scalar(n: u64) -> Scalar {
    let mut b = [0u8; 32];
    b[..8].copy_from_slice(&n.to_le_bytes());
    Scalar::from_canonical_bytes(b).expect("small scalar")
}

/// One world that both parties' backends read and write, with the windows and the key check of
/// the real chains.
struct World {
    exists: bool,
    ready: bool,
    settled: bool,
    revealed: [u8; 32],
    /// The points and terms as committed on chain; a lying maker commits others.
    claim_point: [u8; 32],
    refund_point: [u8; 32],
    claimer: [u8; 32],
    fee_recipient: [u8; 32],
    amount: u64,
    t0: i64,
    t1: i64,
    xmr_locked: bool,
    /// Total balance covers `amount` (output seen, possibly unconfirmed).
    xmr_locked_total: bool,
    /// Unlocked balance covers `amount` (output confirmed and spendable).
    xmr_unlocked: bool,
    xmr_swept: bool,
    now: i64,
    s_a: Scalar,
    s_b: Scalar,
}

type Shared = Rc<RefCell<World>>;

fn world(s_a: Scalar, s_b: Scalar) -> Shared {
    let claim_point = Point::mul_base(&s_a).to_bytes();
    let refund_point = Point::mul_base(&s_b).to_bytes();
    Rc::new(RefCell::new(World {
        exists: false,
        ready: false,
        settled: false,
        revealed: [0u8; 32],
        claim_point,
        refund_point,
        claimer: [1u8; 32],
        fee_recipient: [2u8; 32],
        amount: 50_000_000,
        t0: T0,
        t1: T1,
        xmr_locked: false,
        xmr_locked_total: true,
        xmr_unlocked: true,
        xmr_swept: false,
        now: 0,
        s_a,
        s_b,
    }))
}

/// The agreed terms that match an honest `world`.
fn agreed(w: &Shared) -> AgreedTerms {
    let wb = w.borrow();
    AgreedTerms {
        refund_point: Point::mul_base(&wb.s_b).to_bytes(),
        claimer: wb.claimer,
        fee_recipient: wb.fee_recipient,
        amount: wb.amount,
        t0: wb.t0,
        t1: wb.t1,
    }
}

struct SimSol {
    w: Shared,
    reveal: [u8; 32],
}

impl SolBackend for SimSol {
    fn lock(&mut self) -> Result<(), String> {
        self.w.borrow_mut().exists = true;

        Ok(())
    }
    fn set_ready(&mut self) -> Result<(), String> {
        let mut w = self.w.borrow_mut();
        if w.now >= T1 {
            return Err("set_ready after the window closed".into());
        }
        w.ready = true;

        Ok(())
    }
    fn claim(&mut self) -> Result<(), String> {
        let mut w = self.w.borrow_mut();
        if w.settled {
            return Err("double settle".into());
        }

        let open = w.ready || w.now >= T0;
        if !(open && w.now < T1) {
            return Err("claim outside the window".into());
        }

        w.settled = true;
        w.revealed = self.reveal;

        Ok(())
    }
    fn refund(&mut self) -> Result<(), String> {
        let mut w = self.w.borrow_mut();
        if w.settled {
            return Err("double settle".into());
        }

        let early = w.now < T0 && !w.ready;
        let late = w.now >= T1;
        if !(early || late) {
            return Err("refund outside the window".into());
        }

        w.settled = true;
        w.revealed = self.reveal;

        Ok(())
    }
    fn read_escrow(&mut self) -> Result<Option<EscrowView>, String> {
        let w = self.w.borrow();
        if !w.exists {
            return Ok(None);
        }

        Ok(Some(EscrowView {
            ready: w.ready,
            settled: w.settled,
            revealed: w.revealed,
            claim_point: w.claim_point,
            refund_point: w.refund_point,
            claimer: w.claimer,
            fee_recipient: w.fee_recipient,
            amount: w.amount,
            t0: w.t0,
            t1: w.t1,
        }))
    }
}

struct SimXmr {
    w: Shared,
    /// Has not observed the lock yet.
    blind: bool,
}

impl XmrBackend for SimXmr {
    fn lock(&mut self) -> Result<(), String> {
        self.w.borrow_mut().xmr_locked = true;

        Ok(())
    }
    fn locked(&mut self) -> Result<bool, String> {
        if self.blind {
            return Ok(false);
        }

        let w = self.w.borrow();
        Ok(w.xmr_locked && w.xmr_locked_total && w.xmr_unlocked)
    }
    fn sweep(&mut self, spend_key: Scalar) -> Result<(), String> {
        let mut w = self.w.borrow_mut();
        if !w.xmr_locked {
            return Err("nothing to sweep".into());
        }
        if w.xmr_swept {
            return Err("double sweep".into());
        }

        let shared = Point::mul_base(&w.s_a.plus(&w.s_b));
        if Point::mul_base(&spend_key) != shared {
            return Err("sweep key does not open the 2-of-2".into());
        }

        w.xmr_swept = true;

        Ok(())
    }
}

fn chains(
    role: Role,
    own: Scalar,
    w: &Shared,
    reveal: Scalar,
    blind: bool,
) -> LiveChains<SimSol, SimXmr> {
    LiveChains::new(
        role,
        own,
        agreed(w),
        SimSol { w: w.clone(), reveal: reveal.to_bytes() },
        SimXmr { w: w.clone(), blind },
    )
}

/// Drive one poll -> state machine -> execute cycle for a party, asserting no fault.
fn step(swap: &mut Swap, lc: &mut LiveChains<SimSol, SimXmr>, now: i64) {
    for event in lc.poll(now) {
        for action in swap.on(event) {
            execute(action, lc);
            assert!(lc.take_fault().is_none(), "unexpected fault driving {:?}", lc.role());
        }
    }
}

fn keys() -> (Scalar, Scalar) {
    (scalar(11), scalar(7)) // s_a, s_b
}

#[test]
fn happy_path_drives_both_parties_to_done() {
    let (s_a, s_b) = keys();
    let w = world(s_a, s_b);
    let (mut maker, m_init) = Swap::start_maker(T0, T1, s_b);
    let (mut taker, _t_init) = Swap::start_taker(T0, T1, s_a);
    let mut mc = chains(Role::Maker, s_b, &w, s_b, false);
    let mut tc = chains(Role::Taker, s_a, &w, s_a, false);

    for a in m_init {
        execute(a, &mut mc); // LockSol
    }
    assert!(w.borrow().exists);

    // A handful of poll cycles is plenty for the whole handshake to settle.
    for _ in 0..12 {
        step(&mut maker, &mut mc, 0);
        step(&mut taker, &mut tc, 0);
        if maker.phase() == Phase::Done && taker.phase() == Phase::Done {
            break;
        }
    }

    assert_eq!(maker.phase(), Phase::Done);
    assert_eq!(taker.phase(), Phase::Done);
    let wb = w.borrow();
    assert!(wb.settled, "escrow settled");
    assert_eq!(wb.revealed, s_a.to_bytes(), "claim published s_a");
    assert!(wb.xmr_swept, "maker swept the XMR");
}

#[test]
fn maker_aborts_and_recovers_when_taker_never_locks() {
    let (s_a, s_b) = keys();
    let w = world(s_a, s_b);
    let (mut maker, m_init) = Swap::start_maker(T0, T1, s_b);
    let mut mc = chains(Role::Maker, s_b, &w, s_b, false);

    for a in m_init {
        execute(a, &mut mc);
    }

    // No taker. Advance to the abort point (still before t0).
    let now = T0 - ABORT_MARGIN;
    w.borrow_mut().now = now;
    for _ in 0..6 {
        step(&mut maker, &mut mc, now);
        if maker.phase() == Phase::Done {
            break;
        }
    }

    assert_eq!(maker.phase(), Phase::Done);
    let wb = w.borrow();
    assert!(wb.settled);
    assert_eq!(wb.revealed, s_b.to_bytes(), "refund published s_b");
    assert!(!wb.xmr_locked, "no XMR was ever at risk");
}

#[test]
fn taker_recovers_when_maker_aborts_after_the_xmr_lock() {
    // The griefing race: the taker locks XMR, but the maker (not yet seeing it) aborts before
    // t0. The abort reveals s_b, so the taker rebuilds s_a + s_b and recovers.
    let (s_a, s_b) = keys();
    let w = world(s_a, s_b);
    let (mut maker, m_init) = Swap::start_maker(T0, T1, s_b);
    let (mut taker, _t) = Swap::start_taker(T0, T1, s_a);
    let mut mc = chains(Role::Maker, s_b, &w, s_b, true); // maker is blind to the lock
    let mut tc = chains(Role::Taker, s_a, &w, s_a, false);

    for a in m_init {
        execute(a, &mut mc);
    }

    // Taker sees the SOL lock and locks XMR.
    step(&mut taker, &mut tc, 0);
    assert!(w.borrow().xmr_locked);

    // Maker reaches the abort point without having observed the lock -> refunds.
    let now = T0 - ABORT_MARGIN;
    w.borrow_mut().now = now;
    for _ in 0..6 {
        step(&mut maker, &mut mc, now);
        if maker.phase() == Phase::Done {
            break;
        }
    }
    assert!(w.borrow().settled);
    assert_eq!(w.borrow().revealed, s_b.to_bytes());

    // Taker observes the refund and recovers the XMR.
    for _ in 0..6 {
        step(&mut taker, &mut tc, now);
        if taker.phase() == Phase::Done {
            break;
        }
    }
    assert_eq!(taker.phase(), Phase::Done);
    assert!(w.borrow().xmr_swept, "taker recovered the XMR");
}

#[test]
fn live_taker_recovers_when_it_locks_but_misses_the_claim_window() {
    let (s_a, s_b) = keys();
    let w = world(s_a, s_b);
    let (mut maker, m_init) = Swap::start_maker(T0, T1, s_b);
    let (mut taker, _t) = Swap::start_taker(T0, T1, s_a);
    let mut mc = chains(Role::Maker, s_b, &w, s_b, false);
    let mut tc = chains(Role::Taker, s_a, &w, s_a, false);

    for a in m_init {
        execute(a, &mut mc);
    }

    // The taker comes online once, locks XMR, then goes offline before claiming.
    step(&mut taker, &mut tc, 0);
    assert!(w.borrow().xmr_locked);

    // The maker observes the lock and arms the claim window, but the taker, now offline, never
    // claims.
    for _ in 0..4 {
        step(&mut maker, &mut mc, 0);
    }
    assert!(w.borrow().ready);
    assert!(!w.borrow().settled, "the taker never claimed");

    // t1 passes and the maker reclaims the SOL.
    let now = T1;
    w.borrow_mut().now = now;
    for _ in 0..6 {
        step(&mut maker, &mut mc, now);
        if maker.phase() == Phase::Done {
            break;
        }
    }
    assert!(w.borrow().settled);
    assert_eq!(w.borrow().revealed, s_b.to_bytes(), "late refund revealed s_b");

    // The taker comes back, sees the refund, and recovers the XMR with s_a + s_b.
    for _ in 0..6 {
        step(&mut taker, &mut tc, now);
        if taker.phase() == Phase::Done {
            break;
        }
    }
    assert_eq!(taker.phase(), Phase::Done);
    assert!(w.borrow().xmr_swept, "taker recovered the XMR after t1");
}

#[test]
fn refusing_to_lock_xmr_on_a_mismatched_commitment_is_a_fault() {
    // A lying maker commits a claim_point that isn't the taker's s_a·G. The check reads the
    // escrow fresh, so the mismatch on chain must fault.
    let (s_a, s_b) = keys();
    let w = world(s_a, s_b);
    {
        let mut wb = w.borrow_mut();
        wb.exists = true;
        wb.claim_point = Point::mul_base(&scalar(999)).to_bytes();
    }
    let mut tc = chains(Role::Taker, s_a, &w, s_a, false);

    execute(Action::LockXmr, &mut tc);
    assert!(tc.take_fault().is_some(), "a mismatched commitment must fault, not lock");
    assert!(!w.borrow().xmr_locked, "no XMR locked against a bad commitment");
}

#[test]
fn refusing_to_lock_xmr_when_on_chain_terms_disagree_is_a_fault() {
    // The maker commits the right claim_point but a different amount than agreed; the taker
    // must refuse, since a maker who can lie about one term can lie about any.
    let (s_a, s_b) = keys();
    let w = world(s_a, s_b);
    let mut tc = chains(Role::Taker, s_a, &w, s_a, false);
    {
        let mut wb = w.borrow_mut();
        wb.exists = true;
        wb.amount += 1; // on-chain amount now disagrees with the agreed terms
    }

    execute(Action::LockXmr, &mut tc);
    let fault = tc.take_fault();
    assert!(fault.is_some(), "disagreeing on-chain terms must fault");
    assert!(fault.unwrap().contains("amount"), "the fault should name the bad field");
    assert!(!w.borrow().xmr_locked, "no XMR locked against disagreeing terms");
}

#[test]
fn maker_lock_xmr_skips_the_commit_check_and_surfaces_the_no_funder_error() {
    // The maker never locks XMR (no funder), and its own half never equals the claim point:
    // its lock must reach the wallet without the taker's check.
    let (s_a, s_b) = keys();
    let w = world(s_a, s_b);
    w.borrow_mut().exists = true;
    let mut mc = chains(Role::Maker, s_b, &w, s_b, false);

    execute(Action::LockXmr, &mut mc);
    assert!(
        mc.take_fault().is_none(),
        "the maker must not fault on a claim_point mismatch it was never meant to check"
    );
}

#[test]
fn settle_event_faults_on_a_garbage_reveal_and_does_not_latch() {
    // A settled escrow whose reveal matches neither committed point must fault and stay
    // unreported, so that a later good read is retried.
    let (s_a, s_b) = keys();
    let w = world(s_a, s_b);
    {
        let mut wb = w.borrow_mut();
        wb.exists = true;
        wb.settled = true;
        wb.revealed = scalar(424242).to_bytes(); // not s_a, not s_b
    }
    let mut tc = chains(Role::Taker, s_a, &w, s_a, false);

    let events = tc.poll(0);
    assert!(tc.take_fault().is_some(), "a garbage reveal on a settled escrow must fault");
    assert!(
        !events.iter().any(|e| matches!(e, Event::SolClaimed { .. } | Event::SolRefunded { .. })),
        "no settle event for an unrecognized reveal"
    );

    // The next poll, now with the real reveal, must classify it.
    w.borrow_mut().revealed = s_a.to_bytes();
    let events = tc.poll(0);
    assert!(tc.take_fault().is_none(), "a good reveal on retry must not fault");
    assert!(
        events.iter().any(|e| matches!(e, Event::SolClaimed { .. })),
        "the real claim reveal is classified on retry"
    );
}

#[test]
fn locked_respects_unlocked_balance_not_just_total() {
    // The maker must arm set_ready only against confirmed XMR. An unconfirmed output (total
    // balance covers the amount, but unlocked does not) is not "locked".
    let (s_a, s_b) = keys();
    let w = world(s_a, s_b);
    w.borrow_mut().exists = true;
    let mut tc = chains(Role::Taker, s_a, &w, s_a, false);

    {
        let mut wb = w.borrow_mut();
        wb.xmr_locked = true;
        wb.xmr_locked_total = true;
        wb.xmr_unlocked = false;
    }
    let events = tc.poll(0);
    assert!(
        !events.iter().any(|e| matches!(e, Event::XmrLocked)),
        "a 0-conf output must not count as locked"
    );

    // Once it confirms (unlocked covers the amount), it counts.
    w.borrow_mut().xmr_unlocked = true;
    let events = tc.poll(0);
    assert!(
        events.iter().any(|e| matches!(e, Event::XmrLocked)),
        "a confirmed output counts as locked"
    );
}

fn shown(w: &Shared) -> EscrowView {
    let mut sol = SimSol { w: w.clone(), reveal: [0u8; 32] };
    w.borrow_mut().exists = true;
    sol.read_escrow().unwrap().unwrap()
}

#[test]
fn readings_become_events_in_causal_order() {
    let (s_a, s_b) = keys();
    let w = world(s_a, s_b);
    let mut lc = chains(Role::Maker, s_b, &w, s_b, false);
    let mut e = shown(&w);
    let none = Reading { confirmed: None, finalized: None, xmr_locked: false };
    assert_eq!(lc.digest(&none, 5), vec![Event::Tick { now: 5 }]);

    e.ready = true;
    let open = Reading { confirmed: Some(e), finalized: None, xmr_locked: true };
    assert_eq!(
        lc.digest(&open, 6),
        vec![Event::SolLocked, Event::XmrLocked, Event::Ready, Event::Tick { now: 6 }]
    );
    // Each transition is reported once.
    assert_eq!(lc.digest(&open, 7), vec![Event::Tick { now: 7 }]);

    // A settlement counts only once it is final.
    e.settled = true;
    e.revealed = s_b.to_bytes();
    let early = Reading { confirmed: Some(e), finalized: None, xmr_locked: false };
    assert_eq!(lc.digest(&early, 8), vec![Event::Tick { now: 8 }]);
    let fin = Reading { confirmed: Some(e), finalized: Some(e), xmr_locked: false };
    assert_eq!(
        lc.digest(&fin, 9),
        vec![Event::SolRefunded { s_b }, Event::Tick { now: 9 }]
    );
    assert_eq!(lc.digest(&fin, 10), vec![Event::Tick { now: 10 }]);
}

#[test]
fn a_settled_escrow_suppresses_stale_events() {
    let (s_a, s_b) = keys();
    let w = world(s_a, s_b);
    let mut lc = chains(Role::Taker, s_a, &w, s_a, false);
    let mut e = shown(&w);
    e.ready = true;
    e.settled = true;
    e.revealed = s_b.to_bytes();
    let fin = Reading { confirmed: Some(e), finalized: Some(e), xmr_locked: true };
    assert_eq!(
        lc.digest(&fin, 1),
        vec![Event::SolLocked, Event::SolRefunded { s_b }, Event::Tick { now: 1 }]
    );
    // A reveal that is no canonical scalar is no settlement.
    e.revealed = [0xff; 32];
    assert_eq!(lc.settle_event(&e), None);
}

#[test]
fn every_agreed_term_is_compared() {
    let (s_a, s_b) = keys();
    let w = world(s_a, s_b);
    let lc = chains(Role::Taker, s_a, &w, s_a, false);
    let good = shown(&w);
    assert_eq!(lc.terms_mismatch(&good), None);
    assert_eq!(lc.refuses_to_lock(&Ok(Some(good))), None);
    let bad = EscrowView { refund_point: [9; 32], ..good };
    assert_eq!(lc.terms_mismatch(&bad), Some("refund_point"));
    let bad = EscrowView { claimer: [9; 32], ..good };
    assert_eq!(lc.terms_mismatch(&bad), Some("claimer"));
    let bad = EscrowView { fee_recipient: [9; 32], ..good };
    assert_eq!(lc.terms_mismatch(&bad), Some("fee_recipient"));
    let bad = EscrowView { amount: 1, ..good };
    assert_eq!(lc.terms_mismatch(&bad), Some("amount"));
    let bad = EscrowView { t0: 1, ..good };
    assert_eq!(lc.terms_mismatch(&bad), Some("t0"));
    let bad = EscrowView { t1: 1, ..good };
    assert_eq!(lc.terms_mismatch(&bad), Some("t1"));
    assert_eq!(
        lc.refuses_to_lock(&Ok(Some(bad))).unwrap(),
        "on-chain terms disagree with the agreed swap: t1"
    );
    let bad = EscrowView { claim_point: good.refund_point, ..good };
    assert_eq!(
        lc.refuses_to_lock(&Ok(Some(bad))).unwrap(),
        "on-chain claim_point does not equal s_a·G — refusing to lock"
    );
    assert_eq!(
        lc.refuses_to_lock(&Ok(None)).unwrap(),
        "escrow account does not exist yet — refusing to lock"
    );
    assert_eq!(
        lc.refuses_to_lock(&Err("down".to_string())).unwrap(),
        "could not read escrow before locking: down"
    );
}

#[test]
fn the_first_fault_is_kept_until_taken() {
    let (s_a, s_b) = keys();
    let w = world(s_a, s_b);
    w.borrow_mut().now = T1;
    let mut mc = chains(Role::Maker, s_b, &w, s_b, false);
    execute(Action::SetReady, &mut mc);
    execute(Action::SweepXmr { spend_key: s_a }, &mut mc);
    assert_eq!(
        mc.take_fault().unwrap(),
        "set_ready failed: set_ready after the window closed"
    );
    assert_eq!(mc.take_fault(), None);
    execute(Action::SweepXmr { spend_key: s_a }, &mut mc);
    assert_eq!(mc.take_fault().unwrap(), "sweep_xmr failed: nothing to sweep");
    execute(Action::RefundSol, &mut mc);
    execute(Action::RefundSol, &mut mc);
    assert_eq!(mc.take_fault().unwrap(), "refund_sol failed: double settle");
    execute(Action::ClaimSol, &mut mc);
    assert_eq!(mc.take_fault().unwrap(), "claim_sol failed: double settle");
    mc.sol_backend().lock().unwrap();
    assert!(w.borrow().exists);
}

#[test]
fn rounds_run_both_parties_to_the_end() {
    let (s_a, s_b) = keys();
    let w = world(s_a, s_b);
    let (mut maker, m_init) = Swap::start_maker(T0, T1, s_b);
    let (mut taker, _) = Swap::start_taker(T0, T1, s_a);
    let mut mc = chains(Role::Maker, s_b, &w, s_b, false);
    let mut tc = chains(Role::Taker, s_a, &w, s_a, false);
    for a in m_init {
        execute(a, &mut mc);
    }
    let (mut maker_done, mut taker_done) = (false, false);
    for _ in 0..12 {
        if !maker_done {
            maker_done = matches!(round(&mut maker, &mut mc, 0, T1), Round::Finished);
        }
        if !taker_done {
            taker_done = matches!(round(&mut taker, &mut tc, 0, T1), Round::Finished);
        }
    }
    assert!(maker_done && taker_done);
    assert!(w.borrow().xmr_swept);
}

#[test]
fn a_round_stops_on_a_fault_and_on_the_deadline() {
    let (s_a, s_b) = keys();
    let w = world(s_a, s_b);
    w.borrow_mut().exists = true;
    w.borrow_mut().claim_point = Point::mul_base(&s_b).to_bytes();
    let (mut taker, _) = Swap::start_taker(T0, T1, s_a);
    let mut tc = chains(Role::Taker, s_a, &w, s_a, false);
    match round(&mut taker, &mut tc, 0, T1) {
        Round::Stopped(why) => assert!(why.starts_with("lock_xmr failed: on-chain claim_point")),
        other => panic!("{other:?}"),
    }
    assert_eq!(tc.take_fault(), None);

    let (mut maker, _) = Swap::start_maker(T0, T1, s_b);
    let mut mc = chains(Role::Maker, s_b, &w, s_b, false);
    assert!(matches!(round(&mut maker, &mut mc, 5, 5), Round::Again));
    match round(&mut maker, &mut mc, 6, 5) {
        Round::Stopped(why) => {
            assert_eq!(why, "deadline 5 passed without completing the swap")
        }
        other => panic!("{other:?}"),
    }
}

#[test]
fn the_watched_part_of_an_escrow_is_taken_over() {
    let e = Escrow {
        locker: [1; 32],
        claimer: [2; 32],
        fee_recipient: [3; 32],
        claim_point: [4; 32],
        refund_point: [5; 32],
        amount: 6,
        fee_bps: 7,
        t0: 8,
        t1: 9,
        id: [10; 32],
        bump: 11,
        ready: true,
        settled: false,
        revealed: [12; 32],
    };
    let expected = EscrowView {
        ready: true,
        settled: false,
        revealed: [12; 32],
        claim_point: [4; 32],
        refund_point: [5; 32],
        claimer: [2; 32],
        fee_recipient: [3; 32],
        amount: 6,
        t0: 8,
        t1: 9,
    };
    assert_eq!(escrow_view(e), expected);
}

#[test]
fn a_maker_that_missed_a_poll_sweeps_after_the_claim() {
    let (s_a, s_b) = keys();
    for watched_before in [true, false] {
        let w = world(s_a, s_b);
        let (mut maker, m_init) = Swap::start_maker(T0, T1, s_b);
        let mut mc = chains(Role::Maker, s_b, &w, s_b, false);
        for a in m_init {
            execute(a, &mut mc);
        }
        if watched_before {
            assert!(matches!(round(&mut maker, &mut mc, 0, T1), Round::Again));
            assert_eq!(maker.phase(), Phase::SolLocked);
        }

        // The taker locks and claims at t0, all before the maker looks again.
        {
            let mut wb = w.borrow_mut();
            wb.xmr_locked = true;
            wb.settled = true;
            wb.revealed = s_a.to_bytes();
            wb.now = T0;
        }
        assert!(matches!(round(&mut maker, &mut mc, T0, T1), Round::Again));
        assert!(w.borrow().xmr_swept);
        assert!(matches!(round(&mut maker, &mut mc, T0, T1), Round::Finished));
        assert_eq!(mc.take_fault(), None);
    }
}

#[test]
fn success_is_never_reported_over_a_fault() {
    let (s_a, s_b) = keys();
    let w = world(s_a, s_b);
    {
        let mut wb = w.borrow_mut();
        wb.exists = true;
        wb.xmr_locked = true;
        wb.settled = true;
        wb.revealed = scalar(424242).to_bytes();
    }
    let (mut maker, _) = Swap::start_maker(T0, T1, s_b);
    let mut mc = chains(Role::Maker, s_b, &w, s_b, false);
    // The unknown reveal is a fault that no action follows, so it stays pending.
    assert!(matches!(round(&mut maker, &mut mc, 0, T1), Round::Again));
    // The good reveal makes the maker sweep, and the pending fault stops the swap.
    w.borrow_mut().revealed = s_a.to_bytes();
    match round(&mut maker, &mut mc, 0, T1) {
        Round::Stopped(why) => assert!(why.starts_with("settle failed: ")),
        other => panic!("{other:?}"),
    }
    assert_ne!(maker.phase(), Phase::Done);
}

#[test]
fn a_taker_that_starts_after_the_refund_sweeps() {
    let (s_a, s_b) = keys();
    let w = world(s_a, s_b);
    {
        let mut wb = w.borrow_mut();
        wb.exists = true;
        wb.xmr_locked = true;
        wb.settled = true;
        wb.revealed = s_b.to_bytes();
    }
    let (mut taker, _) = Swap::start_taker(T0, T1, s_a);
    let mut tc = chains(Role::Taker, s_a, &w, s_a, false);
    assert!(matches!(round(&mut taker, &mut tc, T1, T1), Round::Again));
    assert!(w.borrow().xmr_swept);
    assert!(matches!(round(&mut taker, &mut tc, T1, T1), Round::Finished));
    assert_eq!(tc.take_fault(), None);
}
