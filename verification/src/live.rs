//! The live executor: the [`SwapChains`] seam over two chain backends, and the watcher that
//! turns what the chains show into the state machine's events.
//!
//! Backends do the talking; nothing is asked of what they answer. A chain call that fails is
//! recorded as a fault, which the run loop takes up and stops on. Every event is derived from
//! what is on chain, so a stopped daemon can be started again.
use vstd::prelude::*;

use crate::bytes;
use crate::codec::Escrow;
use crate::curve;
use crate::curve::{Point, Scalar};
use crate::executor::{execute, SwapChains};
use crate::swap;
use crate::swap::{Action, Event, EventView, Phase, Role, Swap, SwapView};
use crate::text;
use crate::xmr::commit_matches;

verus! {

/// The slice of an escrow that the watcher needs, as it stands on chain.
#[derive(Debug, Clone, Copy, PartialEq, Eq)]
pub struct EscrowView {
    pub ready: bool,
    pub settled: bool,
    /// The scalar published when the escrow settled.
    pub revealed: [u8; 32],
    /// The committed point of a claim, `s_a·G`.
    pub claim_point: [u8; 32],
    /// The committed point of a refund, `s_b·G`.
    pub refund_point: [u8; 32],
    pub claimer: [u8; 32],
    pub fee_recipient: [u8; 32],
    pub amount: u64,
    pub t0: i64,
    pub t1: i64,
}

/// The terms a party agreed to off chain. The taker compares the escrow with them before it
/// commits any XMR.
#[derive(Debug, Clone, Copy, PartialEq, Eq)]
pub struct AgreedTerms {
    /// The maker's point, `s_b·G`.
    pub refund_point: [u8; 32],
    pub claimer: [u8; 32],
    pub fee_recipient: [u8; 32],
    pub amount: u64,
    pub t0: i64,
    pub t1: i64,
}

/// The Solana operations that the executor and the watcher need. Failures are texts.
pub trait SolBackend {
    fn lock(&mut self) -> Result<(), String>;

    fn set_ready(&mut self) -> Result<(), String>;

    fn claim(&mut self) -> Result<(), String>;

    fn refund(&mut self) -> Result<(), String>;

    /// The escrow at a commitment that a reorganisation can still undo, `None` before it is
    /// created.
    fn read_escrow(&mut self) -> Result<Option<EscrowView>, String>;

    /// The escrow at a commitment that is final. It gates the settlement, which moves funds and
    /// is acted on once. A backend that knows no difference reads as usual.
    fn read_escrow_finalized(&mut self) -> (r: Result<Option<EscrowView>, String>)
        default_ensures
            exists|m: &mut Self|
                {
                    &&& &*m == &*old(self)
                    &&& &*final(m) == &*final(self)
                    &&& #[trigger] call_ensures(Self::read_escrow, (m,), r)
                },
    {
        self.read_escrow()
    }
}

/// The Monero operations that the executor and the watcher need. Failures are texts.
pub trait XmrBackend {
    fn lock(&mut self) -> Result<(), String>;

    /// Is the locked output spendable in the shared address?
    fn locked(&mut self) -> Result<bool, String>;

    fn sweep(&mut self, spend_key: Scalar) -> Result<(), String>;
}

/// One party's live view of a swap.
pub struct LiveChains<S, X> {
    role: Role,
    /// This party's own spend half.
    own_spend: Scalar,
    terms: AgreedTerms,
    sol: S,
    xmr: X,
    fault: Option<String>,
    /// Has this party's own sweep landed?
    swept: bool,
    // The watcher emits each transition once.
    seen_sol_locked: bool,
    seen_xmr_locked: bool,
    seen_ready: bool,
    seen_settled: bool,
    seen_xmr_swept: bool,
}

/// Which transitions the watcher has emitted.
pub struct Seen {
    pub sol_locked: bool,
    pub xmr_locked: bool,
    pub ready: bool,
    pub settled: bool,
    pub xmr_swept: bool,
}

/// The state of [`LiveChains`].
pub struct LiveView<S, X> {
    pub role: Role,
    pub own_spend: nat,
    pub terms: AgreedTerms,
    pub sol: S,
    pub xmr: X,
    pub fault: Option<Seq<char>>,
    pub swept: bool,
    pub seen: Seen,
}

/// The content of an optional text.
pub open spec fn text_view(t: Option<String>) -> Option<Seq<char>> {
    match t {
        Some(s) => Some(s@),
        None => None,
    }
}

impl<S, X> View for LiveChains<S, X> {
    type V = LiveView<S, X>;

    closed spec fn view(&self) -> LiveView<S, X> {
        LiveView {
            role: self.role,
            own_spend: self.own_spend@,
            terms: self.terms,
            sol: self.sol,
            xmr: self.xmr,
            fault: text_view(self.fault),
            swept: self.swept,
            seen: Seen {
                sol_locked: self.seen_sol_locked,
                xmr_locked: self.seen_xmr_locked,
                ready: self.seen_ready,
                settled: self.seen_settled,
                xmr_swept: self.seen_xmr_swept,
            },
        }
    }
}

impl<S, X> LiveView<S, X> {
    /// The state after a failure was noted: the first failure stays.
    pub open spec fn faulted(self, what: Seq<char>, e: Seq<char>) -> LiveView<S, X> {
        LiveView {
            fault: match self.fault {
                Some(fault) => Some(fault),
                None => Some(what + " failed: "@ + e),
            },
            ..self
        }
    }

    /// The state after a chain call: a failure is noted.
    pub open spec fn noted(self, what: Seq<char>, r: Result<(), String>) -> LiveView<S, X> {
        match r {
            Ok(_) => self,
            Err(e) => self.faulted(what, e@),
        }
    }
}

/// What a settled escrow tells: a reveal that is the scalar of the committed claim point was a
/// claim, one of the refund point was a refund. Anything else tells nothing.
pub open spec fn settlement(escrow: EscrowView) -> Option<EventView> {
    let s = bytes::le_nat(escrow.revealed@);
    if !curve::canonical_scalar(escrow.revealed@) {
        None
    } else if curve::base_point(s) == escrow.claim_point@ {
        Some(EventView::SolClaimed { s_a: s })
    } else if curve::base_point(s) == escrow.refund_point@ {
        Some(EventView::SolRefunded { s_b: s })
    } else {
        None
    }
}

/// The name of the first term in which the escrow disagrees with the agreement.
pub open spec fn mismatch(terms: AgreedTerms, escrow: EscrowView) -> Option<Seq<char>> {
    if escrow.refund_point != terms.refund_point {
        Some("refund_point"@)
    } else if escrow.claimer != terms.claimer {
        Some("claimer"@)
    } else if escrow.fee_recipient != terms.fee_recipient {
        Some("fee_recipient"@)
    } else if escrow.amount != terms.amount {
        Some("amount"@)
    } else if escrow.t0 != terms.t0 {
        Some("t0"@)
    } else if escrow.t1 != terms.t1 {
        Some("t1"@)
    } else {
        None
    }
}

/// What one look at the chains showed. A read that failed shows nothing.
#[derive(Debug, Clone, Copy)]
pub struct Reading {
    /// The escrow, as far as it is confirmed.
    pub confirmed: Option<EscrowView>,
    /// The escrow, as far as it is final.
    pub finalized: Option<EscrowView>,
    /// Whether the XMR was seen locked.
    pub xmr_locked: bool,
}

/// What a read of the escrow shows. One that failed shows nothing.
pub open spec fn shown(r: Result<Option<EscrowView>, String>) -> Option<EscrowView> {
    match r {
        Ok(escrow) => escrow,
        Err(_) => None,
    }
}

fn show(r: Result<Option<EscrowView>, String>) -> (escrow: Option<EscrowView>)
    ensures
        escrow == shown(r),
{
    match r {
        Ok(escrow) => escrow,
        Err(_) => None,
    }
}

/// An event that comes up only under a condition.
pub open spec fn when(due: bool, event: EventView) -> Seq<EventView> {
    if due {
        seq![event]
    } else {
        Seq::empty()
    }
}

impl<S, X> LiveView<S, X> {
    /// Has the escrow settled, and was the settlement not emitted yet?
    pub open spec fn awaits_settlement(self, reading: Reading) -> bool {
        reading.confirmed matches Some(escrow) && escrow.settled && !self.seen.settled
    }

    /// Is the escrow still open, as far as it is confirmed?
    pub open spec fn escrow_open(self, reading: Reading) -> bool {
        reading.confirmed matches Some(escrow) && !escrow.settled
    }

    /// The settlement to report, if it is final and recognised.
    pub open spec fn new_settlement(self, reading: Reading) -> Option<EventView> {
        match reading.finalized {
            Some(escrow) if self.awaits_settlement(reading) && escrow.settled => settlement(escrow),
            _ => None,
        }
    }

    /// Is the settlement final but its reveal unknown?
    pub open spec fn garbage_reveal(self, reading: Reading) -> bool {
        &&& self.awaits_settlement(reading)
        &&& reading.finalized matches Some(escrow) && escrow.settled && settlement(escrow) is None
    }

    /// Is the SOL lock news?
    pub open spec fn new_sol_lock(self, reading: Reading) -> bool {
        reading.confirmed is Some && !self.seen.sol_locked
    }

    /// Is the XMR lock news?
    pub open spec fn new_xmr_lock(self, reading: Reading) -> bool {
        self.escrow_open(reading) && !self.seen.xmr_locked && reading.xmr_locked
    }

    /// Is the armed claim window news?
    pub open spec fn new_ready(self, reading: Reading) -> bool {
        self.escrow_open(reading) && reading.confirmed->Some_0.ready && !self.seen.ready
    }

    /// Is this party's own sweep news?
    pub open spec fn new_sweep(self) -> bool {
        self.swept && !self.seen.xmr_swept
    }

    /// The events that a reading brings up, in causal order, with the clock last.
    pub open spec fn events(self, reading: Reading, now: int) -> Seq<EventView> {
        when(self.new_sol_lock(reading), EventView::SolLocked) + when(
            self.new_settlement(reading) is Some,
            self.new_settlement(reading)->Some_0,
        ) + when(self.new_xmr_lock(reading), EventView::XmrLocked) + when(
            self.new_ready(reading),
            EventView::Ready,
        ) + when(self.new_sweep(), EventView::XmrSwept) + seq![EventView::Tick { now }]
    }

    /// The state after a reading.
    pub open spec fn digested(self, reading: Reading) -> LiveView<S, X> {
        let after = LiveView {
            seen: Seen {
                sol_locked: self.seen.sol_locked || self.new_sol_lock(reading),
                xmr_locked: self.seen.xmr_locked || self.new_xmr_lock(reading),
                ready: self.seen.ready || self.new_ready(reading),
                settled: self.seen.settled || self.new_settlement(reading) is Some,
                xmr_swept: self.seen.xmr_swept || self.new_sweep(),
            },
            ..self
        };
        if self.garbage_reveal(reading) {
            after.faulted(
                "settle"@,
                "escrow settled but the revealed scalar matches neither committed point"@,
            )
        } else {
            after
        }
    }
}

/// Why the taker refuses to lock XMR, given what a fresh read of the escrow returned: `None`
/// only where the escrow is there, commits to the taker's own spend half as the claim point, and
/// agrees with every term.
pub open spec fn lock_refusal(
    own_spend: nat,
    terms: AgreedTerms,
    r: Result<Option<EscrowView>, String>,
) -> Option<Seq<char>> {
    match r {
        Ok(Some(escrow)) => if curve::base_point(own_spend) != escrow.claim_point@ {
            Some("on-chain claim_point does not equal s_a·G — refusing to lock"@)
        } else {
            match mismatch(terms, escrow) {
                Some(field) => Some("on-chain terms disagree with the agreed swap: "@ + field),
                None => None,
            }
        },
        Ok(None) => Some("escrow account does not exist yet — refusing to lock"@),
        Err(e) => Some("could not read escrow before locking: "@ + e@),
    }
}

/// The events of a list, each as an [`EventView`].
pub open spec fn event_views(events: Seq<Event>) -> Seq<EventView> {
    events.map_values(|e: Event| e@)
}

impl<S: SolBackend, X: XmrBackend> LiveChains<S, X> {
    pub fn new(role: Role, own_spend: Scalar, terms: AgreedTerms, sol: S, xmr: X) -> (r: Self)
        ensures
            r@ == (LiveView {
                role,
                own_spend: own_spend@,
                terms,
                sol,
                xmr,
                fault: None,
                swept: false,
                seen: Seen {
                    sol_locked: false,
                    xmr_locked: false,
                    ready: false,
                    settled: false,
                    xmr_swept: false,
                },
            }),
    {
        LiveChains {
            role,
            own_spend,
            terms,
            sol,
            xmr,
            fault: None,
            swept: false,
            seen_sol_locked: false,
            seen_xmr_locked: false,
            seen_ready: false,
            seen_settled: false,
            seen_xmr_swept: false,
        }
    }

    pub fn role(&self) -> (r: Role)
        ensures
            r == self@.role,
    {
        self.role
    }

    /// The Solana backend, for what lies outside the state machine, such as closing a settled
    /// escrow.
    pub fn sol_backend(&mut self) -> (r: &mut S)
        ensures
            *r == old(self)@.sol,
            final(self)@ == (LiveView { sol: *final(r), ..old(self)@ }),
    {
        &mut self.sol
    }

    /// Take the recorded fault, if a chain call has failed.
    pub fn take_fault(&mut self) -> (r: Option<String>)
        ensures
            text_view(r) == old(self)@.fault,
            final(self)@ == (LiveView { fault: None, ..old(self)@ }),
            r is None ==> *final(self) == *old(self),
    {
        self.fault.take()
    }

    fn fail(&mut self, what: &str, e: &str)
        ensures
            final(self)@ == old(self)@.faulted(what@, e@),
    {
        if self.fault.is_none() {
            let mut line = what.to_owned();
            line.append(" failed: ");
            line.append(e);
            self.fault = Some(line);
        }
    }

    /// The name of the first agreed term that the escrow on chain disagrees with. The claim
    /// point is not among them: it is compared with this party's own spend half.
    pub fn terms_mismatch(&self, escrow: &EscrowView) -> (r: Option<&'static str>)
        ensures
            match r {
                Some(field) => mismatch(self@.terms, *escrow) == Some(field@),
                None => mismatch(self@.terms, *escrow) is None,
            },
    {
        let t = &self.terms;
        if !bytes::same32(&escrow.refund_point, &t.refund_point) {
            Some("refund_point")
        } else if !bytes::same32(&escrow.claimer, &t.claimer) {
            Some("claimer")
        } else if !bytes::same32(&escrow.fee_recipient, &t.fee_recipient) {
            Some("fee_recipient")
        } else if escrow.amount != t.amount {
            Some("amount")
        } else if escrow.t0 != t.t0 {
            Some("t0")
        } else if escrow.t1 != t.t1 {
            Some("t1")
        } else {
            None
        }
    }

    /// Why the taker must not lock XMR after this fresh read of the escrow, `None` where it may.
    pub fn refuses_to_lock(&self, read: &Result<Option<EscrowView>, String>) -> (r: Option<String>)
        ensures
            text_view(r) == lock_refusal(self@.own_spend, self@.terms, *read),
    {
        match read {
            Ok(Some(escrow)) => {
                if !commit_matches(&self.own_spend, &escrow.claim_point) {
                    return Some(
                        "on-chain claim_point does not equal s_a·G — refusing to lock".to_owned(),
                    );
                }
                match self.terms_mismatch(escrow) {
                    Some(field) => Some(
                        text::concat("on-chain terms disagree with the agreed swap: ", field),
                    ),
                    None => None,
                }
            },
            Ok(None) => Some("escrow account does not exist yet — refusing to lock".to_owned()),
            Err(e) => Some(text::concat("could not read escrow before locking: ", e.as_str())),
        }
    }

    /// Note a chain call that failed.
    fn note(&mut self, what: &str, r: Result<(), String>)
        ensures
            final(self)@ == old(self)@.noted(what@, r),
    {
        match r {
            Ok(()) => {},
            Err(e) => self.fail(what, e.as_str()),
        }
    }

    /// Classify the scalar that an escrow revealed, against the points it committed on chain.
    pub fn settle_event(&self, escrow: &EscrowView) -> (r: Option<Event>)
        ensures
            match r {
                Some(event) => settlement(*escrow) == Some(event@),
                None => settlement(*escrow) is None,
            },
    {
        let scalar = match Scalar::from_canonical_bytes(escrow.revealed) {
            Some(scalar) => scalar,
            None => return None,
        };
        let point = Point::mul_base(&scalar).to_bytes();
        if bytes::same32(&point, &escrow.claim_point) {
            Some(Event::SolClaimed { s_a: scalar })
        } else if bytes::same32(&point, &escrow.refund_point) {
            Some(Event::SolRefunded { s_b: scalar })
        } else {
            None
        }
    }

    /// Look at the chains: at the escrow first; then, if it has settled and the settlement is
    /// still to be reported, at its final state; and if it is open and the XMR lock is still to
    /// be reported, at the shared address.
    pub fn observe(&mut self) -> (reading: Reading)
        ensures
            exists|m: &mut S, r: Result<Option<EscrowView>, String>|
                {
                    &&& *m == old(self)@.sol
                    &&& #[trigger] call_ensures(S::read_escrow, (m,), r)
                    &&& reading.confirmed == shown(r)
                    &&& if old(self)@.awaits_settlement(reading) {
                        exists|n: &mut S, f: Result<Option<EscrowView>, String>|
                            {
                                &&& *n == *final(m)
                                &&& *final(n) == final(self)@.sol
                                &&& #[trigger] call_ensures(S::read_escrow_finalized, (n,), f)
                                &&& reading.finalized == shown(f)
                            }
                    } else {
                        *final(m) == final(self)@.sol && reading.finalized is None
                    }
                },
            if old(self)@.escrow_open(reading) && !old(self)@.seen.xmr_locked {
                exists|m: &mut X, r: Result<bool, String>|
                    {
                        &&& *m == old(self)@.xmr
                        &&& *final(m) == final(self)@.xmr
                        &&& #[trigger] call_ensures(X::locked, (m,), r)
                        &&& reading.xmr_locked == (r matches Ok(seen) && seen)
                    }
            } else {
                final(self)@.xmr == old(self)@.xmr && !reading.xmr_locked
            },
            final(self)@ == (LiveView {
                sol: final(self)@.sol,
                xmr: final(self)@.xmr,
                ..old(self)@
            }),
    {
        let confirmed = show(self.sol.read_escrow());
        let mut finalized: Option<EscrowView> = None;
        let mut xmr_locked = false;
        if let Some(escrow) = confirmed {
            if escrow.settled {
                if !self.seen_settled {
                    finalized = show(self.sol.read_escrow_finalized());
                }
            } else if !self.seen_xmr_locked {
                xmr_locked = match self.xmr.locked() {
                    Ok(seen) => seen,
                    Err(_) => false,
                };
            }
        }
        Reading { confirmed, finalized, xmr_locked }
    }

    /// Read the chains and the clock; emit the events that the state machine has not seen yet,
    /// in causal order, with a `Tick` last. Reads that fail are skipped: the next poll retries.
    pub fn poll(&mut self, now: i64) -> (events: Vec<Event>)
        ensures
            exists|m: &mut Self, reading: Reading|
                {
                    &&& *m == *old(self)
                    &&& #[trigger] call_ensures(Self::observe, (m,), reading)
                    &&& event_views(events@) == final(m)@.events(reading, now as int)
                    &&& final(self)@ == final(m)@.digested(reading)
                },
    {
        let reading = self.observe();
        self.digest(&reading, now)
    }

    /// Turn a reading into the events that the state machine has not seen yet.
    ///
    /// Once the escrow has settled, the settlement is the only thing that counts: a stale
    /// `Ready` would drive a taker who fell behind into a claim that is closed off. It is
    /// reported only when it is final, because what follows moves funds. A final settlement
    /// with an unknown reveal is a fault and stays unreported, so that a later reading can
    /// still bring it up.
    pub fn digest(&mut self, reading: &Reading, now: i64) -> (events: Vec<Event>)
        ensures
            event_views(events@) == old(self)@.events(*reading, now as int),
            final(self)@ == old(self)@.digested(*reading),
    {
        let ghost start = self@;
        let (exists, open, ready, settled) = match reading.confirmed {
            Some(escrow) => (true, !escrow.settled, escrow.ready, escrow.settled),
            None => (false, false, false, false),
        };
        let sol_lock = exists && !self.seen_sol_locked;
        let xmr_lock = open && !self.seen_xmr_locked && reading.xmr_locked;
        let armed = open && ready && !self.seen_ready;
        let sweep = self.swept && !self.seen_xmr_swept;
        let mut settlement_event: Option<Event> = None;
        if settled && !self.seen_settled {
            if let Some(escrow) = reading.finalized {
                if escrow.settled {
                    settlement_event = self.settle_event(&escrow);
                    if settlement_event.is_none() {
                        self.fail(
                            "settle",
                            "escrow settled but the revealed scalar matches neither committed point",
                        );
                    }
                }
            }
        }
        self.seen_sol_locked = self.seen_sol_locked || sol_lock;
        self.seen_settled = self.seen_settled || settlement_event.is_some();
        self.seen_xmr_locked = self.seen_xmr_locked || xmr_lock;
        self.seen_ready = self.seen_ready || armed;
        self.seen_xmr_swept = self.seen_xmr_swept || sweep;
        let mut events: Vec<Event> = Vec::new();
        push_when(&mut events, sol_lock, Event::SolLocked);
        match settlement_event {
            Some(event) => push_when(&mut events, true, event),
            None => {},
        }
        push_when(&mut events, xmr_lock, Event::XmrLocked);
        push_when(&mut events, armed, Event::Ready);
        push_when(&mut events, sweep, Event::XmrSwept);
        push_when(&mut events, true, Event::Tick { now });
        assert(event_views(events@) =~= start.events(*reading, now as int));
        events
    }
}

fn push_when(events: &mut Vec<Event>, due: bool, event: Event)
    ensures
        event_views(final(events)@) == event_views(old(events)@) + when(due, event@),
{
    if due {
        events.push(event);
    }
    assert(event_views(events@) =~= event_views(old(events)@) + when(due, event@));
}

impl<S: SolBackend, X: XmrBackend> SwapChains for LiveChains<S, X> {
    fn lock_sol(&mut self)
        ensures
            exists|m: &mut S, r: Result<(), String>|
                {
                    &&& *m == old(self)@.sol
                    &&& #[trigger] call_ensures(S::lock, (m,), r)
                    &&& final(self)@ == (LiveView { sol: *final(m), ..old(self)@ }).noted(
                        "lock_sol"@,
                        r,
                    )
                },
    {
        let r = self.sol.lock();
        self.note("lock_sol", r);
    }

    fn set_ready(&mut self)
        ensures
            exists|m: &mut S, r: Result<(), String>|
                {
                    &&& *m == old(self)@.sol
                    &&& #[trigger] call_ensures(S::set_ready, (m,), r)
                    &&& final(self)@ == (LiveView { sol: *final(m), ..old(self)@ }).noted(
                        "set_ready"@,
                        r,
                    )
                },
    {
        let r = self.sol.set_ready();
        self.note("set_ready", r);
    }

    /// The taker locks XMR only after a fresh read of the escrow shows its own spend half as the
    /// claim point and every agreed term. The maker has nothing to compare: its lock goes to the
    /// wallet, which refuses it for want of a funder.
    fn lock_xmr(&mut self)
        ensures
            if old(self)@.role is Maker {
                exists|m: &mut X, r: Result<(), String>|
                    {
                        &&& *m == old(self)@.xmr
                        &&& #[trigger] call_ensures(X::lock, (m,), r)
                        &&& final(self)@ == (LiveView { xmr: *final(m), ..old(self)@ }).noted(
                            "lock_xmr"@,
                            r,
                        )
                    }
            } else {
                exists|n: &mut S, escrow: Result<Option<EscrowView>, String>|
                    {
                        &&& *n == old(self)@.sol
                        &&& #[trigger] call_ensures(S::read_escrow, (n,), escrow)
                        &&& match lock_refusal(old(self)@.own_spend, old(self)@.terms, escrow) {
                            Some(why) => final(self)@ == (LiveView {
                                sol: *final(n),
                                ..old(self)@
                            }).faulted("lock_xmr"@, why),
                            None => exists|m: &mut X, r: Result<(), String>|
                                {
                                    &&& *m == old(self)@.xmr
                                    &&& #[trigger] call_ensures(X::lock, (m,), r)
                                    &&& final(self)@ == (LiveView {
                                        sol: *final(n),
                                        xmr: *final(m),
                                        ..old(self)@
                                    }).noted("lock_xmr"@, r)
                                },
                        }
                    }
            },
    {
        if self.role == Role::Maker {
            let r = self.xmr.lock();
            self.note("lock_xmr", r);
            return;
        }
        let read = self.sol.read_escrow();
        match self.refuses_to_lock(&read) {
            Some(why) => self.fail("lock_xmr", why.as_str()),
            None => {
                let r = self.xmr.lock();
                self.note("lock_xmr", r);
            },
        }
    }

    fn claim_sol(&mut self)
        ensures
            exists|m: &mut S, r: Result<(), String>|
                {
                    &&& *m == old(self)@.sol
                    &&& #[trigger] call_ensures(S::claim, (m,), r)
                    &&& final(self)@ == (LiveView { sol: *final(m), ..old(self)@ }).noted(
                        "claim_sol"@,
                        r,
                    )
                },
    {
        let r = self.sol.claim();
        self.note("claim_sol", r);
    }

    fn refund_sol(&mut self)
        ensures
            exists|m: &mut S, r: Result<(), String>|
                {
                    &&& *m == old(self)@.sol
                    &&& #[trigger] call_ensures(S::refund, (m,), r)
                    &&& final(self)@ == (LiveView { sol: *final(m), ..old(self)@ }).noted(
                        "refund_sol"@,
                        r,
                    )
                },
    {
        let r = self.sol.refund();
        self.note("refund_sol", r);
    }

    fn sweep_xmr(&mut self, spend_key: Scalar)
        ensures
            exists|m: &mut X, r: Result<(), String>|
                {
                    &&& *m == old(self)@.xmr
                    &&& #[trigger] call_ensures(X::sweep, (m, spend_key), r)
                    &&& final(self)@ == (LiveView {
                        xmr: *final(m),
                        swept: old(self)@.swept || r is Ok,
                        ..old(self)@
                    }).noted("sweep_xmr"@, r)
                },
    {
        match self.xmr.sweep(spend_key) {
            Ok(()) => {
                self.swept = true;
            },
            Err(e) => self.fail("sweep_xmr", e.as_str()),
        }
    }
}

/// The part of an escrow account that the watcher looks at.
pub open spec fn watched(e: Escrow) -> EscrowView {
    EscrowView {
        ready: e.ready,
        settled: e.settled,
        revealed: e.revealed,
        claim_point: e.claim_point,
        refund_point: e.refund_point,
        claimer: e.claimer,
        fee_recipient: e.fee_recipient,
        amount: e.amount,
        t0: e.t0,
        t1: e.t1,
    }
}

/// Project the decoded account onto what the watcher looks at.
pub fn escrow_view(e: Escrow) -> (r: EscrowView)
    ensures
        r == watched(e),
{
    EscrowView {
        ready: e.ready,
        settled: e.settled,
        revealed: e.revealed,
        claim_point: e.claim_point,
        refund_point: e.refund_point,
        claimer: e.claimer,
        fee_recipient: e.fee_recipient,
        amount: e.amount,
        t0: e.t0,
        t1: e.t1,
    }
}

/// What the watcher may report at most once.
pub open spec fn reported(seen: Seen, event: EventView) -> bool {
    match event {
        EventView::SolLocked => seen.sol_locked,
        EventView::XmrLocked => seen.xmr_locked,
        EventView::Ready => seen.ready,
        EventView::SolClaimed { .. } => seen.settled,
        EventView::SolRefunded { .. } => seen.settled,
        EventView::XmrSwept => seen.xmr_swept,
        EventView::Tick { .. } => false,
    }
}

/// The watcher reports each transition once: what it reports it had not reported before, it
/// remembers having reported it, and it never forgets. The clock comes with every reading, last.
pub proof fn law_transitions_are_reported_once<S, X>(
    chains: LiveView<S, X>,
    reading: Reading,
    now: int,
    event: EventView,
)
    ensures
        chains.events(reading, now).contains(event) && !(event is Tick) ==> !reported(
            chains.seen,
            event,
        ) && reported(chains.digested(reading).seen, event),
        reported(chains.seen, event) ==> reported(chains.digested(reading).seen, event),
        chains.events(reading, now).last() == (EventView::Tick { now }),
{
}

/// Do these states follow each other, as far as the watcher's memory goes? Between two readings
/// anything else may change.
pub open spec fn remembers<S, X>(states: Seq<LiveView<S, X>>, readings: Seq<Reading>) -> bool {
    &&& states.len() == readings.len()
    &&& forall|i: int|
        0 <= i < states.len() - 1 ==> #[trigger] states[i + 1].seen == states[i].digested(
            readings[i],
        ).seen
}

/// Over any sequence of readings, no transition is reported twice, and a swap is reported to have
/// settled at most once: a claim and a refund never both come up.
pub proof fn law_no_transition_is_reported_twice<S, X>(
    states: Seq<LiveView<S, X>>,
    readings: Seq<Reading>,
    i: int,
    j: int,
    now: int,
    later: int,
    event: EventView,
    other: EventView,
)
    requires
        remembers(states, readings),
        0 <= i < j < states.len(),
        !(event is Tick),
        states[i].events(readings[i], now).contains(event),
        other == event || ((event is SolClaimed || event is SolRefunded) && (other is SolClaimed
            || other is SolRefunded)),
    ensures
        !states[j].events(readings[j], later).contains(other),
{
    law_transitions_are_reported_once(states[i], readings[i], now, event);
    assert(states[i + 1].seen == states[i].digested(readings[i]).seen);
    lemma_memory_lasts(states, readings, i + 1, j, event);
    law_transitions_are_reported_once(states[j], readings[j], later, other);
}

proof fn lemma_memory_lasts<S, X>(
    states: Seq<LiveView<S, X>>,
    readings: Seq<Reading>,
    i: int,
    j: int,
    event: EventView,
)
    requires
        remembers(states, readings),
        0 <= i <= j < states.len(),
        reported(states[i].seen, event),
    ensures
        reported(states[j].seen, event),
    decreases j - i,
{
    if i < j {
        law_transitions_are_reported_once(states[i], readings[i], 0, event);
        assert(states[i + 1].seen == states[i].digested(readings[i]).seen);
        lemma_memory_lasts(states, readings, i + 1, j, event);
    }
}

/// A settled escrow suppresses the earlier transitions: no `XmrLocked` and no `Ready` come up
/// from a reading that shows one.
pub proof fn law_settlement_suppresses_stale_events<S, X>(
    chains: LiveView<S, X>,
    reading: Reading,
    now: int,
)
    requires
        reading.confirmed matches Some(escrow) && escrow.settled,
    ensures
        !chains.events(reading, now).contains(EventView::XmrLocked),
        !chains.events(reading, now).contains(EventView::Ready),
{
}

/// A settlement is reported only from the final state of the escrow, with the scalar that it
/// revealed: the scalar of the committed claim point for a claim, and of the committed refund
/// point for a refund.
pub proof fn law_settlements_are_final<S, X>(
    chains: LiveView<S, X>,
    reading: Reading,
    now: int,
    s: nat,
)
    ensures
        chains.events(reading, now).contains(EventView::SolClaimed { s_a: s }) ==> {
            &&& reading.finalized matches Some(escrow) && escrow.settled && bytes::le_nat(
                escrow.revealed@,
            ) == s && curve::base_point(s) == escrow.claim_point@
            &&& s < curve::group_order()
        },
        chains.events(reading, now).contains(EventView::SolRefunded { s_b: s }) ==> {
            &&& reading.finalized matches Some(escrow) && escrow.settled && bytes::le_nat(
                escrow.revealed@,
            ) == s && curve::base_point(s) == escrow.refund_point@
            &&& s < curve::group_order()
        },
{
}

/// A final settlement whose reveal is unknown is a fault, and is not taken as reported: a later
/// reading that shows a known reveal still reports it.
pub proof fn law_garbage_reveals_do_not_latch<S, X>(
    chains: LiveView<S, X>,
    bad: Reading,
    good: Reading,
    now: int,
)
    requires
        chains.garbage_reveal(bad),
        good.confirmed matches Some(escrow) && escrow.settled,
        good.finalized matches Some(escrow) && escrow.settled && settlement(escrow) is Some,
    ensures
        chains.digested(bad).fault is Some,
        !chains.digested(bad).seen.settled,
        chains.digested(bad).events(good, now).contains(
            settlement(good.finalized->Some_0)->Some_0,
        ),
        chains.digested(bad).digested(good).seen.settled,
{
    let after = chains.digested(bad);
    let event = settlement(good.finalized->Some_0)->Some_0;
    let first = when(after.new_sol_lock(good), EventView::SolLocked);
    assert(after.new_settlement(good) == Some(event));
    assert(after.events(good, now)[first.len() as int] == event);
}

/// The taker goes on to lock XMR only where the escrow that was just read commits to its own
/// spend half as the claim point, and to every agreed term.
pub proof fn law_taker_locks_only_against_its_own_commitment(
    own_spend: nat,
    terms: AgreedTerms,
    read: Result<Option<EscrowView>, String>,
)
    ensures
        lock_refusal(own_spend, terms, read) is None <==> {
            &&& read matches Ok(Some(escrow)) && escrow.claim_point@ == curve::base_point(own_spend)
                && escrow.refund_point == terms.refund_point && escrow.claimer == terms.claimer
                && escrow.fee_recipient == terms.fee_recipient && escrow.amount == terms.amount
                && escrow.t0 == terms.t0 && escrow.t1 == terms.t1
        },
{
}

/// An escrow that the taker agreed to lock against, and that later settles by a claim, settles
/// by the taker's own secret; with the maker's half it is the key of the shared address.
pub proof fn law_claim_reveals_the_takers_half(
    s_a: nat,
    s_b: nat,
    terms: AgreedTerms,
    locked_against: EscrowView,
    settled: EscrowView,
    s: nat,
)
    requires
        lock_refusal(s_a, terms, Ok(Some(locked_against))) is None,
        curve::opens(s_a, locked_against.claim_point@),
        settled.claim_point == locked_against.claim_point,
        settlement(settled) == Some(EventView::SolClaimed { s_a: s }),
    ensures
        s == s_a,
        curve::joint_key(s, s_b) == curve::joint_key(s_a, s_b),
{
}

/// The first fault stays until it is taken.
pub proof fn law_first_fault_stays<S, X>(
    chains: LiveView<S, X>,
    reading: Reading,
    what: Seq<char>,
    r: Result<(), String>,
)
    requires
        chains.fault is Some,
    ensures
        chains.noted(what, r).fault == chains.fault,
        chains.digested(reading).fault == chains.fault,
{
}

/// How a round of the run loop ended.
#[derive(Debug)]
pub enum Round {
    /// Wait, then go round again.
    Again,
    /// The swap is done.
    Finished,
    /// A fault or the deadline stopped the swap.
    Stopped(String),
}

/// Why the swap stopped at its deadline.
pub open spec fn deadline_text(deadline: int) -> Seq<char> {
    "deadline "@ + text::signed_decimal(deadline) + " passed without completing the swap"@
}

/// The course of a round that took up the first `n` of its events: `states[k]` is what action
/// `done[k]` found, and `states[k + 1]` what it left.
pub open spec fn is_course<C>(
    n: int,
    events: Seq<EventView>,
    done: Seq<Action>,
    states: Seq<C>,
) -> bool {
    0 <= n <= events.len() && states.len() == done.len() + 1
}

/// Is this the index of an action that was carried out?
pub open spec fn is_step(done: Seq<Action>, k: int) -> bool {
    0 <= k < done.len()
}

/// Is this list of actions the beginning of those that the state machine emitted?
pub open spec fn carries_out(done: Seq<Action>, emitted: Seq<swap::ActionView>) -> bool {
    done.len() <= emitted.len() && swap::action_views(done) == emitted.take(done.len() as int)
}

/// Where a party stands between two rounds: the phase of its swap, and the pending fault.
pub struct Standing {
    pub phase: Phase,
    pub fault: Option<Seq<char>>,
}

/// How a round takes a party from one standing to the next. Unless the round is stopped, a fault
/// that was pending stays; and no fault is pending as the swap finishes.
pub open spec fn round_leads(before: Standing, r: Round, after: Standing) -> bool {
    &&& !(r is Stopped) && before.fault is Some ==> after.fault == before.fault
    &&& r is Finished ==> after.phase is Done
    &&& r is Finished && !(before.phase is Done) ==> after.fault is None
    &&& r is Again ==> !(after.phase is Done)
}

/// One round of a party's run loop: poll, drive the state machine, carry out its actions. Each
/// event goes to the state machine in turn and each of its actions is carried out in turn; the
/// first fault after an action ends the round, and the swap with it.
pub fn round<S: SolBackend, X: XmrBackend>(
    swap: &mut Swap,
    chains: &mut LiveChains<S, X>,
    now: i64,
    deadline: i64,
) -> (r: Round)
    ensures
        round_leads(
            Standing { phase: old(swap)@.phase, fault: old(chains)@.fault },
            r,
            Standing { phase: final(swap)@.phase, fault: final(chains)@.fault },
        ),
        exists|
            m: &mut LiveChains<S, X>,
            events: Vec<Event>,
            n: int,
            done: Seq<Action>,
            states: Seq<LiveChains<S, X>>,
        |
            {
                let seen = event_views(events@);
                let emitted = old(swap)@.emitted(seen.take(n));
                &&& *m == *old(chains)
                &&& *final(m) == states[0]
                &&& #[trigger] call_ensures(LiveChains::<S, X>::poll, (m, now), events)
                &&& #[trigger] is_course(n, event_views(events@), done, states)
                &&& final(swap)@ == old(swap)@.run(seen.take(n))
                &&& carries_out(done, emitted)
                &&& forall|k: int|
                    #[trigger] is_step(done, k) ==> exists|c: &mut LiveChains<S, X>|
                        {
                            &&& *c == states[k]
                            &&& *final(c) == states[k + 1]
                            &&& #[trigger] call_ensures(
                                execute::<LiveChains<S, X>>,
                                (done[k], c),
                                (),
                            )
                        }
                &&& forall|k: int|
                    0 < k < done.len() ==> (#[trigger] states[k])@.fault is None
                &&& !(r is Stopped) && final(chains)@.fault is None ==> forall|k: int|
                    0 <= k < states.len() ==> (#[trigger] states[k])@.fault is None
                &&& if done.len() > 0 && states.last()@.fault is Some {
                    &&& r matches Round::Stopped(why) && states.last()@.fault == Some(why@)
                    &&& final(chains)@ == (LiveView { fault: None, ..states.last()@ })
                } else {
                    &&& n == seen.len()
                    &&& done.len() == emitted.len()
                    &&& *final(chains) == states.last()
                    &&& match r {
                        Round::Finished => final(swap)@.phase is Done,
                        Round::Stopped(why) => !(final(swap)@.phase is Done) && now > deadline
                            && why@ == deadline_text(deadline as int),
                        Round::Again => !(final(swap)@.phase is Done) && now <= deadline,
                    }
                }
            },
{
    let events = chains.poll(now);
    assert(old(chains)@.fault is Some ==> chains@.fault == old(chains)@.fault);
    let ghost seen = event_views(events@);
    let ghost mut done: Seq<Action> = Seq::empty();
    let ghost mut states: Seq<LiveChains<S, X>> = seq![*chains];
    let mut i: usize = 0;
    assert(seen.take(0) =~= Seq::<EventView>::empty());
    while i < events.len()
        invariant
            0 <= i <= events@.len(),
            seen == event_views(events@),
            exists|m: &mut LiveChains<S, X>|
                {
                    &&& *m == *old(chains)
                    &&& *final(m) == states[0]
                    &&& #[trigger] call_ensures(LiveChains::<S, X>::poll, (m, now), events)
                },
            states.len() == done.len() + 1,
            *chains == states.last(),
            swap@ == old(swap)@.run(seen.take(i as int)),
            swap::action_views(done) == old(swap)@.emitted(seen.take(i as int)),
            forall|k: int|
                #[trigger] is_step(done, k) ==> exists|c: &mut LiveChains<S, X>|
                    {
                        &&& *c == states[k]
                        &&& *final(c) == states[k + 1]
                        &&& #[trigger] call_ensures(
                            execute::<LiveChains<S, X>>,
                            (done[k], c),
                            (),
                        )
                    },
            forall|k: int| 0 < k <= done.len() ==> (#[trigger] states[k])@.fault is None,
            done.len() > 0 ==> states[0]@.fault is None,
            old(chains)@.fault is Some ==> states[0]@.fault == old(chains)@.fault,
        decreases events@.len() - i,
    {
        let ghost before = swap@;
        let ghost earlier = swap::action_views(done);
        let actions = swap.on(events[i]);
        let ghost next = seen.take(i + 1);
        proof {
            assert(next.drop_last() =~= seen.take(i as int));
            assert(next.last() == events@[i as int]@);
            assert(old(swap)@.emitted(next) == earlier + swap::action_views(actions@));
            assert(swap::action_views(done) =~= earlier + swap::action_views(actions@).take(0));
        }
        let mut j: usize = 0;
        while j < actions.len()
            invariant
                0 <= j <= actions@.len(),
                i < events@.len(),
                seen == event_views(events@),
                next == seen.take(i + 1),
                exists|m: &mut LiveChains<S, X>|
                    {
                        &&& *m == *old(chains)
                        &&& *final(m) == states[0]
                        &&& #[trigger] call_ensures(LiveChains::<S, X>::poll, (m, now), events)
                    },
                states.len() == done.len() + 1,
                *chains == states.last(),
                swap@ == old(swap)@.run(next),
                old(swap)@.emitted(next) == earlier + swap::action_views(actions@),
                swap::action_views(done) == earlier + swap::action_views(actions@).take(j as int),
                forall|k: int|
                    #[trigger] is_step(done, k) ==> exists|c: &mut LiveChains<S, X>|
                        {
                            &&& *c == states[k]
                            &&& *final(c) == states[k + 1]
                            &&& #[trigger] call_ensures(
                                execute::<LiveChains<S, X>>,
                                (done[k], c),
                                (),
                            )
                        },
                forall|k: int| 0 < k <= done.len() ==> (#[trigger] states[k])@.fault is None,
                done.len() > 0 ==> states[0]@.fault is None,
                old(chains)@.fault is Some ==> states[0]@.fault == old(chains)@.fault,
            decreases actions@.len() - j,
        {
            let action = actions[j];
            let ghost pending = chains@.fault;
            execute(action, chains);
            assert(pending is Some ==> chains@.fault == pending);
            proof {
                let old_states = states;
                let old_done = done;
                states = states.push(*chains);
                done = done.push(action);
                assert(exists|c: &mut LiveChains<S, X>|
                    {
                        &&& *c == old_states.last()
                        &&& *final(c) == *chains
                        &&& #[trigger] call_ensures(
                            execute::<LiveChains<S, X>>,
                            (action, c),
                            (),
                        )
                    });
                assert forall|k: int| #[trigger] is_step(done, k) implies exists|
                    c: &mut LiveChains<S, X>,
                |
                    {
                        &&& *c == states[k]
                        &&& *final(c) == states[k + 1]
                        &&& #[trigger] call_ensures(
                            execute::<LiveChains<S, X>>,
                            (done[k], c),
                            (),
                        )
                    } by {
                    assert(states[k] == old_states[k]);
                    if k < old_done.len() {
                        assert(is_step(old_done, k));
                        assert(done[k] == old_done[k]);
                        assert(states[k + 1] == old_states[k + 1]);
                    } else {
                        assert(done[k] == action);
                        assert(states[k + 1] == *chains);
                    }
                }
                let all = swap::action_views(actions@);
                assert(all.take(j + 1) =~= all.take(j as int).push(action@));
                assert(swap::action_views(done) =~= swap::action_views(old_done).push(action@));
                assert(swap::action_views(done) =~= earlier + all.take(j + 1));
            }
            j += 1;
            if let Some(fault) = chains.take_fault() {
                proof {
                    assert(is_course(i + 1, seen, done, states));
                    assert(swap::action_views(done) =~= old(swap)@.emitted(next).take(
                        done.len() as int,
                    ));
                }
                return Round::Stopped(fault);
            }
        }
        proof {
            assert(swap::action_views(actions@).take(j as int) =~= swap::action_views(actions@));
        }
        i += 1;
    }
    proof {
        assert(seen.take(i as int) =~= seen);
        assert(is_course(i as int, seen, done, states));
        assert(swap::action_views(done).len() == done.len());
        assert(swap::action_views(done) =~= old(swap)@.emitted(seen).take(done.len() as int));
    }
    if swap.phase() == Phase::Done {
        proof {
            if !(old(swap)@.phase is Done) {
                swap::lemma_finishing_emits(old(swap)@, seen);
                assert(states[done.len() as int]@.fault is None);
            }
        }
        return Round::Finished;
    }
    if now > deadline {
        let mut why = "deadline ".to_owned();
        text::push_signed(&mut why, deadline);
        why.append(" passed without completing the swap");
        return Round::Stopped(why);
    }
    Round::Again
}

/// Is this a run that ended well: rounds that each start where the one before ended, up to the
/// first that is not to be followed by another, which finished the swap?
pub open spec fn ends_well(standings: Seq<Standing>, rounds: Seq<Round>) -> bool {
    &&& standings.len() == rounds.len() + 1
    &&& rounds.len() > 0
    &&& rounds.last() is Finished
    &&& forall|i: int| 0 <= i < rounds.len() - 1 ==> #[trigger] rounds[i] is Again
    &&& forall|i: int|
        0 <= i < rounds.len() ==> round_leads(
            standings[i],
            #[trigger] rounds[i],
            standings[i + 1],
        )
}

/// Success is never reported over a failed chain call: in a run that starts unfinished and ends
/// well, no fault was pending when it started, none between two rounds, and none is at its end,
/// where the swap is done.
pub proof fn law_success_means_no_fault(standings: Seq<Standing>, rounds: Seq<Round>, i: int)
    requires
        ends_well(standings, rounds),
        !(standings[0].phase is Done),
        0 <= i < standings.len(),
    ensures
        standings[i].fault is None,
        standings.last().phase is Done,
    decreases standings.len() - i,
{
    let n = rounds.len() as int;
    assert(round_leads(standings[n - 1], rounds[n - 1], standings[n]));
    if n > 1 {
        assert(rounds[n - 2] is Again);
        assert(round_leads(standings[n - 2], rounds[n - 2], standings[n - 1]));
    }
    if i < n {
        law_success_means_no_fault(standings, rounds, i + 1);
        assert(round_leads(standings[i], rounds[i], standings[i + 1]));
        if i < n - 1 {
            assert(rounds[i] is Again);
        }
    }
}

/// A maker never misses a claim for want of earlier transitions: a reading that shows the final
/// claim makes him sweep with the sum of the halves, also where he has only just started to
/// watch.
pub proof fn law_late_maker_still_sweeps<S, X>(
    chains: LiveView<S, X>,
    reading: Reading,
    now: int,
    maker: SwapView,
    s_a: nat,
)
    requires
        maker.role is Maker,
        maker.sweep_due() || (maker.phase is Start && !chains.seen.sol_locked),
        chains.new_settlement(reading) == Some(EventView::SolClaimed { s_a }),
    ensures
        maker.emitted(chains.events(reading, now)).contains(
            swap::ActionView::SweepXmr { spend_key: curve::joint_key(s_a, maker.own_spend) },
        ),
{
    let events = chains.events(reading, now);
    let claim = EventView::SolClaimed { s_a };
    let first = when(chains.new_sol_lock(reading), EventView::SolLocked);
    let at = first.len() as int;
    assert(events.take(at) =~= first);
    assert(events[at] == claim);
    if at > 0 {
        assert(first.drop_last() =~= Seq::empty());
        assert(maker.run(first) == maker.run(first.drop_last()).after(first.last()));
    }
    swap::lemma_emitted_at(maker, events, at, 0);
}

/// A taker never misses a refund: a reading that shows the final refund makes her sweep the XMR
/// back with the sum of the halves, also where a claim was tried, and where she has only just
/// started to watch.
pub proof fn law_late_taker_still_sweeps<S, X>(
    chains: LiveView<S, X>,
    reading: Reading,
    now: int,
    taker: SwapView,
    s_b: nat,
)
    requires
        taker.role is Taker,
        taker.phase is SolLocked || taker.phase is XmrLocked || taker.phase is Ready || (
        taker.phase is Start && !chains.seen.sol_locked),
        chains.new_settlement(reading) == Some(EventView::SolRefunded { s_b }),
    ensures
        taker.emitted(chains.events(reading, now)).contains(
            swap::ActionView::SweepXmr { spend_key: curve::joint_key(taker.own_spend, s_b) },
        ),
{
    let events = chains.events(reading, now);
    let refund = EventView::SolRefunded { s_b };
    let first = when(chains.new_sol_lock(reading), EventView::SolLocked);
    let at = first.len() as int;
    assert(events.take(at) =~= first);
    assert(events[at] == refund);
    if at > 0 {
        assert(first.drop_last() =~= Seq::empty());
        assert(taker.run(first) == taker.run(first.drop_last()).after(first.last()));
    }
    swap::lemma_emitted_at(taker, events, at, 0);
}

proof fn lemma_when_contains(due: bool, event: EventView, x: EventView)
    ensures
        due && x == event <==> when(due, event).contains(x),
{
    if due {
        assert(when(due, event)[0] == event);
    }
}

/// Which events a reading reports, each for its own reason and for no other: the SOL lock once an
/// escrow is there; the XMR lock and the armed window while it is open; the settlement once the
/// final state shows the secret behind one of its points, a claim where it is the claim point's
/// and otherwise a refund; the party's own sweep; each only if it was not reported before; and
/// always the clock.
pub proof fn law_what_a_reading_reports<S, X>(
    chains: LiveView<S, X>,
    reading: Reading,
    now: int,
    s: nat,
    t: int,
)
    ensures
        ({
            let events = chains.events(reading, now);
            let settled = (reading.confirmed matches Some(e) && e.settled) && !chains.seen.settled
                && (reading.finalized matches Some(f) && f.settled && bytes::le_nat(f.revealed@)
                == s && s < curve::group_order());
            &&& events.contains(EventView::SolLocked) <==> reading.confirmed is Some
                && !chains.seen.sol_locked
            &&& events.contains(EventView::XmrLocked) <==> (reading.confirmed matches Some(e)
                && !e.settled) && reading.xmr_locked && !chains.seen.xmr_locked
            &&& events.contains(EventView::Ready) <==> (reading.confirmed matches Some(e)
                && !e.settled && e.ready) && !chains.seen.ready
            &&& events.contains(EventView::SolClaimed { s_a: s }) <==> settled
                && curve::base_point(s) == reading.finalized->Some_0.claim_point@
            &&& events.contains(EventView::SolRefunded { s_b: s }) <==> settled
                && curve::base_point(s) != reading.finalized->Some_0.claim_point@
                && curve::base_point(s) == reading.finalized->Some_0.refund_point@
            &&& events.contains(EventView::XmrSwept) <==> chains.swept && !chains.seen.xmr_swept
            &&& events.contains(EventView::Tick { now: t }) <==> t == now
        }),
{
    let locked = when(chains.new_sol_lock(reading), EventView::SolLocked);
    let settlement = when(
        chains.new_settlement(reading) is Some,
        chains.new_settlement(reading)->Some_0,
    );
    let xmr = when(chains.new_xmr_lock(reading), EventView::XmrLocked);
    let ready = when(chains.new_ready(reading), EventView::Ready);
    let swept = when(chains.new_sweep(), EventView::XmrSwept);
    let clock = seq![EventView::Tick { now }];
    let all = chains.events(reading, now);
    assert forall|x: EventView| all.contains(x) <==> {
        ||| chains.new_sol_lock(reading) && x == EventView::SolLocked
        ||| chains.new_settlement(reading) == Some(x)
        ||| chains.new_xmr_lock(reading) && x == EventView::XmrLocked
        ||| chains.new_ready(reading) && x == EventView::Ready
        ||| chains.new_sweep() && x == EventView::XmrSwept
        ||| x == (EventView::Tick { now })
    } by {
        vstd::seq_lib::lemma_seq_concat_contains_all_elements(locked, settlement, x);
        vstd::seq_lib::lemma_seq_concat_contains_all_elements(locked + settlement, xmr, x);
        vstd::seq_lib::lemma_seq_concat_contains_all_elements(
            locked + settlement + xmr,
            ready,
            x,
        );
        vstd::seq_lib::lemma_seq_concat_contains_all_elements(
            locked + settlement + xmr + ready,
            swept,
            x,
        );
        vstd::seq_lib::lemma_seq_concat_contains_all_elements(
            locked + settlement + xmr + ready + swept,
            clock,
            x,
        );
        lemma_when_contains(chains.new_sol_lock(reading), EventView::SolLocked, x);
        lemma_when_contains(
            chains.new_settlement(reading) is Some,
            chains.new_settlement(reading)->Some_0,
            x,
        );
        lemma_when_contains(chains.new_xmr_lock(reading), EventView::XmrLocked, x);
        lemma_when_contains(chains.new_ready(reading), EventView::Ready, x);
        lemma_when_contains(chains.new_sweep(), EventView::XmrSwept, x);
        assert(clock[0] == (EventView::Tick { now }));
    }
}

/// The place of an event in the causal order: lock, settlement, XMR lock, armed window, sweep,
/// clock.
pub open spec fn place(event: EventView) -> int {
    match event {
        EventView::SolLocked => 0,
        EventView::SolClaimed { .. } => 1,
        EventView::SolRefunded { .. } => 1,
        EventView::XmrLocked => 2,
        EventView::Ready => 3,
        EventView::XmrSwept => 4,
        EventView::Tick { .. } => 5,
    }
}

/// A reading's events come in causal order, none of them twice.
pub proof fn law_events_come_in_causal_order<S, X>(
    chains: LiveView<S, X>,
    reading: Reading,
    now: int,
    i: int,
    j: int,
)
    requires
        0 <= i < j < chains.events(reading, now).len(),
    ensures
        place(chains.events(reading, now)[i]) < place(chains.events(reading, now)[j]),
{
}

/// What a reading leaves behind: the watcher remembers what was reported, and nothing else
/// changes, but that a final settlement with an unknown secret is noted as a fault, unless one is
/// pending already.
pub proof fn law_what_a_reading_leaves<S, X>(chains: LiveView<S, X>, reading: Reading)
    ensures
        ({
            let after = chains.digested(reading);
            let open = reading.confirmed matches Some(e) && !e.settled;
            let garbage = (reading.confirmed matches Some(e) && e.settled) && !chains.seen.settled
                && (reading.finalized matches Some(f) && f.settled && !(bytes::le_nat(f.revealed@)
                < curve::group_order() && (curve::base_point(bytes::le_nat(f.revealed@))
                == f.claim_point@ || curve::base_point(bytes::le_nat(f.revealed@))
                == f.refund_point@)));
            let known = (reading.confirmed matches Some(e) && e.settled) && (
            reading.finalized matches Some(f) && f.settled) && !garbage;
            &&& after.role == chains.role && after.own_spend == chains.own_spend && after.terms
                == chains.terms && after.sol == chains.sol && after.xmr == chains.xmr
                && after.swept == chains.swept
            &&& after.seen.sol_locked <==> chains.seen.sol_locked || reading.confirmed is Some
            &&& after.seen.xmr_locked <==> chains.seen.xmr_locked || (open && reading.xmr_locked)
            &&& after.seen.ready <==> chains.seen.ready || (open && reading.confirmed->Some_0.ready)
            &&& after.seen.settled <==> chains.seen.settled || known
            &&& after.seen.xmr_swept <==> chains.seen.xmr_swept || chains.swept
            &&& chains.fault is Some || !garbage ==> after.fault == chains.fault
            &&& chains.fault is None && garbage ==> after.fault == Some(
                "settle"@ + " failed: "@
                    + "escrow settled but the revealed scalar matches neither committed point"@,
            )
        }),
{
}

/// A chain call that succeeds is not noted; one that fails is noted as what failed and why, unless
/// a fault is pending already. Nothing else changes.
pub proof fn law_failures_are_noted<S, X>(
    chains: LiveView<S, X>,
    what: Seq<char>,
    r: Result<(), String>,
)
    ensures
        r is Ok ==> chains.noted(what, r) == chains,
        r matches Err(e) ==> {
            let after = chains.noted(what, r);
            &&& after == LiveView { fault: after.fault, ..chains }
            &&& chains.fault is Some ==> after.fault == chains.fault
            &&& chains.fault is None ==> after.fault == Some(what + " failed: "@ + e@)
        },
{
}

/// Why a taker refuses to lock, in words: there is no escrow, it could not be read, its claim
/// point is not the taker's own, or a term disagrees, the first one being named.
pub proof fn law_refusals_to_lock_say_why(
    own_spend: nat,
    terms: AgreedTerms,
    read: Result<Option<EscrowView>, String>,
)
    ensures
        read matches Ok(None) ==> lock_refusal(own_spend, terms, read) == Some(
            "escrow account does not exist yet — refusing to lock"@,
        ),
        read matches Err(e) ==> lock_refusal(own_spend, terms, read) == Some(
            "could not read escrow before locking: "@ + e@,
        ),
        read matches Ok(Some(escrow)) ==> {
            let why = lock_refusal(own_spend, terms, read);
            let own = curve::base_point(own_spend) == escrow.claim_point@;
            let disagrees = |field: Seq<char>|
                why == Some("on-chain terms disagree with the agreed swap: "@ + field);
            let point = escrow.refund_point == terms.refund_point;
            let claimer = escrow.claimer == terms.claimer;
            let recipient = escrow.fee_recipient == terms.fee_recipient;
            let amount = escrow.amount == terms.amount;
            &&& !own ==> why == Some(
                "on-chain claim_point does not equal s_a·G — refusing to lock"@,
            )
            &&& own && !point ==> disagrees("refund_point"@)
            &&& own && point && !claimer ==> disagrees("claimer"@)
            &&& own && point && claimer && !recipient ==> disagrees("fee_recipient"@)
            &&& own && point && claimer && recipient && !amount ==> disagrees("amount"@)
            &&& own && point && claimer && recipient && amount && escrow.t0 != terms.t0
                ==> disagrees("t0"@)
            &&& own && point && claimer && recipient && amount && escrow.t0 == terms.t0
                && escrow.t1 != terms.t1 ==> disagrees("t1"@)
            &&& own && point && claimer && recipient && amount && escrow.t0 == terms.t0
                && escrow.t1 == terms.t1 ==> why is None
        },
{
}

/// The watcher looks at the escrow as it stands in the account, field by field.
pub proof fn law_the_watcher_sees_the_account(e: Escrow)
    ensures
        watched(e).ready == e.ready,
        watched(e).settled == e.settled,
        watched(e).revealed == e.revealed,
        watched(e).claim_point == e.claim_point,
        watched(e).refund_point == e.refund_point,
        watched(e).claimer == e.claimer,
        watched(e).fee_recipient == e.fee_recipient,
        watched(e).amount == e.amount,
        watched(e).t0 == e.t0,
        watched(e).t1 == e.t1,
{
}

/// A swap that its deadline stops says which deadline that was.
pub proof fn law_the_deadline_is_named(deadline: int)
    ensures
        deadline_text(deadline) == "deadline "@ + text::signed_decimal(deadline)
            + " passed without completing the swap"@,
{
}

/// A read that failed shows no escrow, and one that did not shows what it read; an event list is
/// handed on in its order, none left out.
pub proof fn law_reads_show_what_was_read(
    read: Result<Option<EscrowView>, String>,
    events: Seq<Event>,
    i: int,
)
    ensures
        read is Err ==> shown(read) is None,
        read matches Ok(escrow) ==> shown(read) == escrow,
        event_views(events).len() == events.len(),
        0 <= i < events.len() ==> event_views(events)[i] == events[i]@,
{
}

/// The actions that a round carries out are those that the state machine emitted, one for one and
/// from the first on; it passes over none before the last that it carries out, and every one of
/// them is a step of its course, between the state it found and the one it left.
pub proof fn law_actions_are_carried_out_in_order<C>(
    done: Seq<Action>,
    emitted: Seq<swap::ActionView>,
    n: int,
    events: Seq<EventView>,
    states: Seq<C>,
    k: int,
)
    ensures
        is_step(done, k) <==> 0 <= k < done.len(),
        carries_out(done, emitted) && is_step(done, k) ==> k < emitted.len() && done[k]@
            == emitted[k],
        is_course(n, events, done, states) ==> 0 <= n <= events.len(),
        is_course(n, events, done, states) && is_step(done, k) ==> k + 1 < states.len(),
        is_course(n, events, done, states) ==> states.len() == done.len() + 1,
{
    if carries_out(done, emitted) && is_step(done, k) {
        assert(swap::action_views(done)[k] == done[k]@);
        assert(emitted.take(done.len() as int)[k] == emitted[k]);
    }
}

/// A party that finished a round is done, with no fault pending unless it was done before; one
/// that goes on is not; and a pending fault is dropped only by the round that it stops.
pub proof fn law_how_a_round_leaves_a_party(before: Standing, r: Round, after: Standing)
    requires
        round_leads(before, r, after),
    ensures
        r is Finished ==> after.phase is Done,
        r is Again ==> !(after.phase is Done),
        r is Finished && !(before.phase is Done) ==> after.fault is None && before.fault is None,
        before.fault is Some && after.fault != before.fault ==> r is Stopped,
{
}

/// An optional text is there where it is given, and reads as it was given.
pub proof fn law_texts_are_kept_as_given(t: Option<String>)
    ensures
        t is None ==> text_view(t) is None,
        t matches Some(s) ==> text_view(t) == Some(s@),
{
}

} // verus!
