use suture::curve::{Point, Scalar};
use suture::executor::{execute, SwapChains};
use suture::swap::{Action, Event, Phase, Swap, ABORT_MARGIN};

const T0: i64 = 10_000;
const T1: i64 = 20_000;

fn scalar(n: u64) -> Scalar {
    let mut b = [0u8; 32];
    b[..8].copy_from_slice(&n.to_le_bytes());
    Scalar::from_canonical_bytes(b).expect("small scalar")
}

#[derive(Debug, Clone, Copy, PartialEq, Eq)]
enum Party {
    Maker,
    Taker,
}

/// Both chains in memory: the two-timelock escrow and the shared vault, with the windows and
/// the key checks that the real chains enforce.
struct SimChains {
    t0: i64,
    t1: i64,
    s_a: Scalar,
    s_b: Scalar,
    now: i64,
    actor: Party,

    sol_locked: bool,
    ready: bool,
    sol_settled: bool,
    sol_revealed: Option<Scalar>,
    sol_to: Option<Party>,

    xmr_locked: bool,
    xmr_swept_by: Option<Party>,
}

impl SimChains {
    fn new(s_a: Scalar, s_b: Scalar) -> Self {
        Self {
            t0: T0,
            t1: T1,
            s_a,
            s_b,
            now: 0,
            actor: Party::Maker,
            sol_locked: false,
            ready: false,
            sol_settled: false,
            sol_revealed: None,
            sol_to: None,
            xmr_locked: false,
            xmr_swept_by: None,
        }
    }

    fn shared_pub(&self) -> Point {
        Point::mul_base(&self.s_a.plus(&self.s_b))
    }

    /// Run a party's state machine on an event and carry out what it returns.
    fn drive(&mut self, party: Party, swap: &mut Swap, event: Event) {
        self.actor = party;

        for action in swap.on(event) {
            execute(action, self);
        }
    }
}

impl SwapChains for SimChains {
    fn lock_sol(&mut self) {
        assert_eq!(self.actor, Party::Maker);
        self.sol_locked = true;
    }
    fn set_ready(&mut self) {
        assert_eq!(self.actor, Party::Maker);
        assert!(self.now < self.t1, "set_ready after the window closed");
        self.ready = true;
    }
    fn lock_xmr(&mut self) {
        assert_eq!(self.actor, Party::Taker);
        self.xmr_locked = true;
    }
    fn claim_sol(&mut self) {
        assert_eq!(self.actor, Party::Taker);
        assert!(!self.sol_settled, "double settle");
        assert!(
            (self.ready || self.now >= self.t0) && self.now < self.t1,
            "claim outside the window",
        );
        self.sol_settled = true;
        self.sol_revealed = Some(self.s_a); // claiming publishes s_a
        self.sol_to = Some(Party::Taker);
    }
    fn refund_sol(&mut self) {
        assert_eq!(self.actor, Party::Maker);
        assert!(!self.sol_settled, "double settle");
        assert!(
            (self.now < self.t0 && !self.ready) || self.now >= self.t1,
            "refund outside the window",
        );
        self.sol_settled = true;
        self.sol_revealed = Some(self.s_b); // refunding publishes s_b
        self.sol_to = Some(Party::Maker);
    }
    fn sweep_xmr(&mut self, spend_key: Scalar) {
        assert!(self.xmr_locked, "nothing to sweep");
        assert!(self.xmr_swept_by.is_none(), "double sweep");
        assert_eq!(
            Point::mul_base(&spend_key),
            self.shared_pub(),
            "sweep key doesn't open the 2-of-2",
        );
        self.xmr_swept_by = Some(self.actor);
    }
}

fn keys() -> (Scalar, Scalar) {
    (scalar(11), scalar(7)) // s_a, s_b
}

#[test]
fn happy_path_settles_sol_to_taker_and_xmr_to_maker() {
    let (s_a, s_b) = keys();
    let mut w = SimChains::new(s_a, s_b);
    let (mut maker, init) = Swap::start_maker(T0, T1, s_b);
    let (mut taker, _) = Swap::start_taker(T0, T1, s_a);

    // Maker's first action.
    w.actor = Party::Maker;
    for a in init {
        execute(a, &mut w);
    }
    assert!(w.sol_locked);
    w.drive(Party::Maker, &mut maker, Event::SolLocked); // maker observes its own lock

    w.drive(Party::Taker, &mut taker, Event::SolLocked); // -> lock XMR
    assert!(w.xmr_locked);
    w.drive(Party::Maker, &mut maker, Event::XmrLocked); // -> set_ready
    w.drive(Party::Taker, &mut taker, Event::XmrLocked); // taker observes its own lock
    assert!(w.ready);
    w.drive(Party::Taker, &mut taker, Event::Ready); // -> claim SOL (reveals s_a)
    assert_eq!(w.sol_to, Some(Party::Taker));

    let s_a_rev = w.sol_revealed.expect("claim revealed s_a");
    w.drive(Party::Maker, &mut maker, Event::SolClaimed { s_a: s_a_rev }); // -> sweep XMR
    w.drive(Party::Maker, &mut maker, Event::XmrSwept); // -> done
    w.drive(Party::Taker, &mut taker, Event::SolClaimed { s_a: s_a_rev }); // taker done

    assert_eq!(w.sol_to, Some(Party::Taker), "taker got the SOL");
    assert_eq!(w.xmr_swept_by, Some(Party::Maker), "maker got the XMR");
    assert_eq!(maker.phase(), Phase::Done);
    assert_eq!(taker.phase(), Phase::Done);
}

#[test]
fn maker_aborts_and_recovers_sol_when_taker_never_locks() {
    let (s_a, s_b) = keys();
    let mut w = SimChains::new(s_a, s_b);
    let (mut maker, init) = Swap::start_maker(T0, T1, s_b);

    w.actor = Party::Maker;
    for a in init {
        execute(a, &mut w);
    }
    w.drive(Party::Maker, &mut maker, Event::SolLocked);

    // Taker never locks. Clock reaches the abort point (still before t0).
    w.now = T0 - ABORT_MARGIN;
    let now = w.now;
    w.drive(Party::Maker, &mut maker, Event::Tick { now }); // -> early refund
    w.drive(Party::Maker, &mut maker, Event::SolRefunded { s_b });

    assert_eq!(w.sol_to, Some(Party::Maker), "maker got the SOL back");
    assert!(!w.xmr_locked, "no XMR was ever at risk");
    assert_eq!(maker.phase(), Phase::Done);
}

#[test]
fn taker_recovers_xmr_when_maker_griefs_after_the_lock() {
    // Adversarial maker: it locks SOL, lets the taker lock XMR, then early-refunds instead of
    // cooperating. The taker's state machine must recover the XMR.
    let (s_a, s_b) = keys();
    let mut w = SimChains::new(s_a, s_b);
    let (mut taker, _) = Swap::start_taker(T0, T1, s_a);

    // Honest start: maker locks SOL.
    w.actor = Party::Maker;
    w.lock_sol();
    w.drive(Party::Taker, &mut taker, Event::SolLocked); // taker locks XMR
    assert!(w.xmr_locked);

    // Griefing maker refunds early (now < t0, not ready): reveals s_b.
    w.actor = Party::Maker;
    w.refund_sol();
    assert_eq!(w.sol_to, Some(Party::Maker));

    let s_b_rev = w.sol_revealed.expect("refund revealed s_b");
    w.drive(Party::Taker, &mut taker, Event::SolRefunded { s_b: s_b_rev }); // -> sweep (recover)
    w.drive(Party::Taker, &mut taker, Event::XmrSwept);

    assert_eq!(w.xmr_swept_by, Some(Party::Taker), "taker recovered the XMR");
    assert_eq!(taker.phase(), Phase::Done);
}

#[test]
fn executor_taker_recovers_when_it_locks_but_misses_the_claim_window() {
    let (s_a, s_b) = keys();
    let mut w = SimChains::new(s_a, s_b);
    let (mut maker, init) = Swap::start_maker(T0, T1, s_b);
    let (mut taker, _) = Swap::start_taker(T0, T1, s_a);

    w.actor = Party::Maker;
    for a in init {
        execute(a, &mut w);
    }
    w.drive(Party::Maker, &mut maker, Event::SolLocked); // maker observes its own lock
    w.drive(Party::Taker, &mut taker, Event::SolLocked); // taker locks XMR
    w.drive(Party::Maker, &mut maker, Event::XmrLocked); // maker set_ready
    // The taker goes offline and never claims; t1 passes.
    w.now = T1;
    let now = w.now;
    w.drive(Party::Maker, &mut maker, Event::Tick { now }); // -> late refund
    assert_eq!(w.sol_to, Some(Party::Maker));

    let s_b_rev = w.sol_revealed.expect("late refund revealed s_b");
    w.drive(Party::Taker, &mut taker, Event::SolRefunded { s_b: s_b_rev });
    w.drive(Party::Taker, &mut taker, Event::XmrSwept);
    assert_eq!(w.xmr_swept_by, Some(Party::Taker), "taker recovered the XMR after t1");
}

/// Counts the calls and keeps the last spend key.
struct Counter {
    calls: Vec<&'static str>,
    key: Option<Scalar>,
}

impl SwapChains for Counter {
    fn lock_sol(&mut self) {
        self.calls.push("lock_sol");
    }
    fn set_ready(&mut self) {
        self.calls.push("set_ready");
    }
    fn lock_xmr(&mut self) {
        self.calls.push("lock_xmr");
    }
    fn claim_sol(&mut self) {
        self.calls.push("claim_sol");
    }
    fn refund_sol(&mut self) {
        self.calls.push("refund_sol");
    }
    fn sweep_xmr(&mut self, spend_key: Scalar) {
        self.calls.push("sweep_xmr");
        self.key = Some(spend_key);
    }
}

#[test]
fn each_action_is_one_call() {
    let mut c = Counter { calls: vec![], key: None };
    for action in [
        Action::LockSol,
        Action::LockXmr,
        Action::SetReady,
        Action::ClaimSol,
        Action::RefundSol,
        Action::SweepXmr { spend_key: scalar(18) },
        Action::Done,
    ] {
        execute(action, &mut c);
    }
    assert_eq!(
        c.calls,
        vec!["lock_sol", "lock_xmr", "set_ready", "claim_sol", "refund_sol", "sweep_xmr"]
    );
    assert_eq!(c.key, Some(scalar(18)));
}
