//! One party's view of a swap, as a pure state machine: feed it what was observed, and it
//! returns what to do.
//!
//! - [`Role::Maker`] is Bob: he locks SOL and sweeps the XMR once the taker reveals her half.
//! - [`Role::Taker`] is Alice: she locks XMR and claims the SOL, which reveals her half.
//!
//! The escrow's claim window opens at `t0` whether or not the maker armed it, and a claim needs
//! only the taker's own half. A maker who just waited could lose his SOL to a taker who never
//! locked any XMR, so he refunds [`ABORT_MARGIN`] before `t0` unless her lock is confirmed.
//!
//! Recovery keys off the settlement, whichever transitions were observed before it: once the SOL
//! is in the escrow, a claim makes the maker sweep, and a refund makes the taker sweep.
use vstd::prelude::*;

use crate::curve;
use crate::curve::Scalar;

verus! {

/// How long before `t0` the maker bails out if the taker has not locked, in seconds.
pub const ABORT_MARGIN: i64 = 600;

#[derive(Debug, Clone, Copy, PartialEq, Eq, Structural)]
pub enum Role {
    /// Bob: locks SOL, wants XMR.
    Maker,
    /// Alice: locks XMR, wants SOL.
    Taker,
}

#[derive(Debug, Clone, Copy, PartialEq, Eq, Structural)]
pub enum Phase {
    /// Nothing committed yet.
    Start,
    /// The SOL escrow is locked and confirmed.
    SolLocked,
    /// The XMR is locked in the shared address and confirmed.
    XmrLocked,
    /// The escrow's claim window is armed.
    Ready,
    /// The escrow has settled; the XMR move may still be pending.
    Settled,
    /// The swap finished, completed or recovered.
    Done,
}

/// Something this party observed on-chain, or a clock tick.
#[derive(Debug, Clone, Copy, PartialEq, Eq)]
pub enum Event {
    /// The maker's SOL escrow is confirmed.
    SolLocked,
    /// The taker's XMR is confirmed in the shared address.
    XmrLocked,
    /// The maker armed the claim window.
    Ready,
    /// The SOL was claimed, which published the taker's half.
    SolClaimed { s_a: Scalar },
    /// The SOL was refunded, which published the maker's half.
    SolRefunded { s_b: Scalar },
    /// The XMR was swept out of the shared address.
    XmrSwept,
    /// The clock advanced to `now` (unix seconds).
    Tick { now: i64 },
}

/// What this party should do now.
#[derive(Debug, Clone, Copy, PartialEq, Eq)]
pub enum Action {
    /// Maker: lock the SOL into the escrow.
    LockSol,
    /// Taker: lock the XMR into the shared address.
    LockXmr,
    /// Maker: open the taker's claim window.
    SetReady,
    /// Taker: claim the SOL, revealing her half.
    ClaimSol,
    /// Maker: refund the SOL, revealing his half.
    RefundSol,
    /// Sweep the shared address with the reconstructed spend key.
    SweepXmr { spend_key: Scalar },
    /// This party is done and made whole.
    Done,
}

/// An [`Event`] with its scalars as numbers.
pub enum EventView {
    SolLocked,
    XmrLocked,
    Ready,
    SolClaimed { s_a: nat },
    SolRefunded { s_b: nat },
    XmrSwept,
    Tick { now: int },
}

impl View for Event {
    type V = EventView;

    open spec fn view(&self) -> EventView {
        match *self {
            Event::SolLocked => EventView::SolLocked,
            Event::XmrLocked => EventView::XmrLocked,
            Event::Ready => EventView::Ready,
            Event::SolClaimed { s_a } => EventView::SolClaimed { s_a: s_a@ },
            Event::SolRefunded { s_b } => EventView::SolRefunded { s_b: s_b@ },
            Event::XmrSwept => EventView::XmrSwept,
            Event::Tick { now } => EventView::Tick { now: now as int },
        }
    }
}

/// An [`Action`] with its spend key as a number.
pub enum ActionView {
    LockSol,
    LockXmr,
    SetReady,
    ClaimSol,
    RefundSol,
    SweepXmr { spend_key: nat },
    Done,
}

impl View for Action {
    type V = ActionView;

    open spec fn view(&self) -> ActionView {
        match *self {
            Action::LockSol => ActionView::LockSol,
            Action::LockXmr => ActionView::LockXmr,
            Action::SetReady => ActionView::SetReady,
            Action::ClaimSol => ActionView::ClaimSol,
            Action::RefundSol => ActionView::RefundSol,
            Action::SweepXmr { spend_key } => ActionView::SweepXmr { spend_key: spend_key@ },
            Action::Done => ActionView::Done,
        }
    }
}

/// The actions of a list, each as an [`ActionView`].
pub open spec fn action_views(actions: Seq<Action>) -> Seq<ActionView> {
    actions.map_values(|a: Action| a@)
}

/// The state of a [`Swap`].
pub struct SwapView {
    pub role: Role,
    pub phase: Phase,
    pub t0: int,
    pub t1: int,
    pub own_spend: nat,
    /// Is a refund the last thing this party did?
    pub refunding: bool,
}

/// What one event makes a party do.
pub struct Step {
    pub phase: Phase,
    pub refunding: bool,
    pub actions: Seq<ActionView>,
}

impl SwapView {
    /// Nothing happens.
    pub open spec fn stay(self) -> Step {
        self.move_to(self.phase)
    }

    pub open spec fn move_to(self, phase: Phase) -> Step {
        Step { phase, refunding: self.refunding, actions: Seq::empty() }
    }

    pub open spec fn act(self, phase: Phase, action: ActionView) -> Step {
        Step { phase, refunding: action is RefundSol, actions: seq![action] }
    }

    /// How the maker answers an event.
    pub open spec fn maker_step(self, event: EventView) -> Step {
        match event {
            EventView::SolLocked if self.phase is Start => self.move_to(Phase::SolLocked),
            // The taker locked her XMR: arm her claim window.
            EventView::XmrLocked if self.phase is SolLocked => self.act(
                Phase::XmrLocked,
                ActionView::SetReady,
            ),
            EventView::Ready if self.phase is XmrLocked => self.move_to(Phase::Ready),
            // The taker revealed her half: sweep the XMR, whichever transitions were missed.
            EventView::SolClaimed { s_a } if self.sweep_due() => self.act(
                Phase::Settled,
                ActionView::SweepXmr { spend_key: curve::joint_key(s_a, self.own_spend) },
            ),
            EventView::XmrSwept if self.phase is Settled => self.act(Phase::Done, ActionView::Done),
            // No lock in sight and t0 is near, or the claim window closed unused.
            EventView::Tick { now } if self.refund_due(now) => self.act(
                Phase::Settled,
                ActionView::RefundSol,
            ),
            EventView::SolRefunded { s_b: _ } if self.phase is Settled => self.act(
                Phase::Done,
                ActionView::Done,
            ),
            _ => self.stay(),
        }
    }

    /// Is a claim the maker's cue to sweep? It is from the SOL lock on, and even after a refund,
    /// which has then lost the race against the claim; only a sweep is not repeated.
    pub open spec fn sweep_due(self) -> bool {
        ||| self.phase is SolLocked || self.phase is XmrLocked || self.phase is Ready
        ||| self.phase is Settled && self.refunding
    }

    /// Must the maker take his SOL back at time `now`?
    pub open spec fn refund_due(self, now: int) -> bool {
        ||| self.phase is SolLocked && now >= self.t0 - ABORT_MARGIN
        ||| (self.phase is XmrLocked || self.phase is Ready) && now >= self.t1
    }

    /// How the taker answers an event.
    pub open spec fn taker_step(self, event: EventView) -> Step {
        match event {
            EventView::SolLocked if self.phase is Start => self.act(
                Phase::SolLocked,
                ActionView::LockXmr,
            ),
            EventView::XmrLocked if self.phase is SolLocked => self.move_to(Phase::XmrLocked),
            // The window is open, armed by the maker or by t0.
            EventView::Ready if self.phase is XmrLocked => self.act(
                Phase::Ready,
                ActionView::ClaimSol,
            ),
            EventView::Tick { now } if self.phase is XmrLocked && now >= self.t0 => self.act(
                Phase::Ready,
                ActionView::ClaimSol,
            ),
            EventView::SolClaimed { s_a: _ } if self.phase is Ready => self.act(
                Phase::Done,
                ActionView::Done,
            ),
            // The maker revealed his half: recover the XMR.
            EventView::SolRefunded { s_b } if self.phase is SolLocked || self.phase is XmrLocked
                || self.phase is Ready => self.act(
                Phase::Settled,
                ActionView::SweepXmr { spend_key: curve::joint_key(self.own_spend, s_b) },
            ),
            EventView::XmrSwept if self.phase is Settled => self.act(Phase::Done, ActionView::Done),
            _ => self.stay(),
        }
    }

    /// How the party answers an event. A finished party ignores everything.
    pub open spec fn step(self, event: EventView) -> Step {
        if self.phase is Done {
            self.stay()
        } else if self.role is Maker {
            self.maker_step(event)
        } else {
            self.taker_step(event)
        }
    }

    /// The state after an event.
    pub open spec fn after(self, event: EventView) -> SwapView {
        SwapView {
            phase: self.step(event).phase,
            refunding: self.step(event).refunding,
            ..self
        }
    }
}

/// One party's view of a single swap.
pub struct Swap {
    role: Role,
    phase: Phase,
    /// On-chain timelocks (unix seconds): `t0` opens the claim window, `t1` closes it.
    t0: i64,
    t1: i64,
    /// This party's own spend half.
    own_spend: Scalar,
    /// Is a refund the last thing this party did?
    refunding: bool,
}

impl View for Swap {
    type V = SwapView;

    closed spec fn view(&self) -> SwapView {
        SwapView {
            role: self.role,
            phase: self.phase,
            t0: self.t0 as int,
            t1: self.t1 as int,
            own_spend: self.own_spend@,
            refunding: self.refunding,
        }
    }
}

impl Swap {
    /// Start a maker. The first thing to do is lock the SOL.
    pub fn start_maker(t0: i64, t1: i64, own_spend: Scalar) -> (r: (Swap, Vec<Action>))
        ensures
            r.0@ == (SwapView {
                role: Role::Maker,
                phase: Phase::Start,
                t0: t0 as int,
                t1: t1 as int,
                own_spend: own_spend@,
                refunding: false,
            }),
            action_views(r.1@) == seq![ActionView::LockSol],
    {
        let swap = Swap {
            role: Role::Maker,
            phase: Phase::Start,
            t0,
            t1,
            own_spend,
            refunding: false,
        };
        let actions = vec![Action::LockSol];
        assert(action_views(actions@) =~= seq![ActionView::LockSol]);
        (swap, actions)
    }

    /// Start a taker. Nothing to do until the maker's SOL lock is seen.
    ///
    /// Locking XMR is safe only where the point that the maker committed is the taker's own
    /// half's.
    pub fn start_taker(t0: i64, t1: i64, own_spend: Scalar) -> (r: (Swap, Vec<Action>))
        ensures
            r.0@ == (SwapView {
                role: Role::Taker,
                phase: Phase::Start,
                t0: t0 as int,
                t1: t1 as int,
                own_spend: own_spend@,
                refunding: false,
            }),
            r.1@ == Seq::<Action>::empty(),
    {
        let swap = Swap {
            role: Role::Taker,
            phase: Phase::Start,
            t0,
            t1,
            own_spend,
            refunding: false,
        };
        (swap, vec![])
    }

    pub fn role(&self) -> (r: Role)
        ensures
            r == self@.role,
    {
        self.role
    }

    pub fn phase(&self) -> (r: Phase)
        ensures
            r == self@.phase,
    {
        self.phase
    }

    /// Feed in an event; get back the actions to perform. A finished swap ignores events.
    pub fn on(&mut self, event: Event) -> (actions: Vec<Action>)
        ensures
            final(self)@ == old(self)@.after(event@),
            action_views(actions@) == old(self)@.step(event@).actions,
    {
        if self.phase == Phase::Done {
            return vec![];
        }
        match self.role {
            Role::Maker => self.maker(event),
            Role::Taker => self.taker(event),
        }
    }

    /// Enter a phase, with at most one action.
    fn enter(&mut self, phase: Phase, action: Option<Action>) -> (actions: Vec<Action>)
        ensures
            final(self)@ == (SwapView {
                phase,
                refunding: match action {
                    Some(action) => action is RefundSol,
                    None => old(self)@.refunding,
                },
                ..old(self)@
            }),
            action_views(actions@) == (match action {
                Some(action) => seq![action@],
                None => Seq::empty(),
            }),
    {
        self.phase = phase;
        match action {
            Some(action) => {
                self.refunding = match action {
                    Action::RefundSol => true,
                    _ => false,
                };
                let actions = vec![action];
                assert(action_views(actions@) =~= seq![action@]);
                actions
            },
            None => {
                let actions: Vec<Action> = vec![];
                assert(action_views(actions@) =~= Seq::empty());
                actions
            },
        }
    }

    fn maker(&mut self, event: Event) -> (actions: Vec<Action>)
        requires
            old(self)@.role is Maker,
            !(old(self)@.phase is Done),
        ensures
            final(self)@ == old(self)@.after(event@),
            action_views(actions@) == old(self)@.step(event@).actions,
    {
        match (self.phase, event) {
            (Phase::Start, Event::SolLocked) => self.enter(Phase::SolLocked, None),
            (Phase::SolLocked, Event::XmrLocked) => self.enter(
                Phase::XmrLocked,
                Some(Action::SetReady),
            ),
            (Phase::XmrLocked, Event::Ready) => self.enter(Phase::Ready, None),
            (Phase::SolLocked | Phase::XmrLocked | Phase::Ready, Event::SolClaimed { s_a }) => {
                let spend_key = s_a.plus(&self.own_spend);
                self.enter(Phase::Settled, Some(Action::SweepXmr { spend_key }))
            },
            // The claim beat our refund.
            (Phase::Settled, Event::SolClaimed { s_a }) if self.refunding => {
                let spend_key = s_a.plus(&self.own_spend);
                self.enter(Phase::Settled, Some(Action::SweepXmr { spend_key }))
            },
            (Phase::Settled, Event::XmrSwept) => self.enter(Phase::Done, Some(Action::Done)),
            (Phase::SolLocked, Event::Tick { now }) if now as i128 >= self.t0 as i128
                - ABORT_MARGIN as i128 => self.enter(Phase::Settled, Some(Action::RefundSol)),
            (Phase::XmrLocked, Event::Tick { now }) if now >= self.t1 => self.enter(
                Phase::Settled,
                Some(Action::RefundSol),
            ),
            (Phase::Ready, Event::Tick { now }) if now >= self.t1 => self.enter(
                Phase::Settled,
                Some(Action::RefundSol),
            ),
            (Phase::Settled, Event::SolRefunded { .. }) => self.enter(
                Phase::Done,
                Some(Action::Done),
            ),
            (unchanged, _) => self.enter(unchanged, None),
        }
    }

    fn taker(&mut self, event: Event) -> (actions: Vec<Action>)
        requires
            old(self)@.role is Taker,
            !(old(self)@.phase is Done),
        ensures
            final(self)@ == old(self)@.after(event@),
            action_views(actions@) == old(self)@.step(event@).actions,
    {
        match (self.phase, event) {
            (Phase::Start, Event::SolLocked) => self.enter(
                Phase::SolLocked,
                Some(Action::LockXmr),
            ),
            (Phase::SolLocked, Event::XmrLocked) => self.enter(Phase::XmrLocked, None),
            (Phase::XmrLocked, Event::Ready) => self.enter(Phase::Ready, Some(Action::ClaimSol)),
            (Phase::XmrLocked, Event::Tick { now }) if now >= self.t0 => self.enter(
                Phase::Ready,
                Some(Action::ClaimSol),
            ),
            (Phase::Ready, Event::SolClaimed { .. }) => self.enter(Phase::Done, Some(Action::Done)),
            (Phase::SolLocked | Phase::XmrLocked | Phase::Ready, Event::SolRefunded { s_b }) => {
                let spend_key = self.own_spend.plus(&s_b);
                self.enter(Phase::Settled, Some(Action::SweepXmr { spend_key }))
            },
            (Phase::Settled, Event::XmrSwept) => self.enter(Phase::Done, Some(Action::Done)),
            (unchanged, _) => self.enter(unchanged, None),
        }
    }
}

/// The progress of a party as it emits an action.
pub open spec fn level(action: ActionView) -> int {
    match action {
        ActionView::LockSol => 0,
        ActionView::LockXmr => 1,
        ActionView::SetReady => 2,
        ActionView::ClaimSol => 3,
        ActionView::RefundSol => 4,
        ActionView::SweepXmr { spend_key: _ } => 5,
        ActionView::Done => 6,
    }
}

impl SwapView {
    /// How far along the party is: its phase, and a refund comes before a sweep.
    pub open spec fn progress(self) -> int {
        match self.phase {
            Phase::Start => 0,
            Phase::SolLocked => 1,
            Phase::XmrLocked => 2,
            Phase::Ready => 3,
            Phase::Settled => if self.refunding {
                4
            } else {
                5
            },
            Phase::Done => 6,
        }
    }

    /// The state after a sequence of events.
    pub open spec fn run(self, events: Seq<EventView>) -> SwapView
        decreases events.len(),
    {
        if events.len() == 0 {
            self
        } else {
            self.run(events.drop_last()).after(events.last())
        }
    }

    /// Every action emitted on the way through a sequence of events.
    pub open spec fn emitted(self, events: Seq<EventView>) -> Seq<ActionView>
        decreases events.len(),
    {
        if events.len() == 0 {
            Seq::empty()
        } else {
            self.emitted(events.drop_last()) + self.run(events.drop_last()).step(
                events.last(),
            ).actions
        }
    }
}

/// A finished party ignores every event.
pub proof fn law_done_is_terminal(s: SwapView, event: EventView)
    requires
        s.phase is Done,
    ensures
        s.after(event) == s,
        s.step(event).actions.len() == 0,
{
}

/// An event never moves a party back, emits at most one action, and every action comes with an
/// advance to the point that belongs to it.
pub proof fn law_phases_only_advance(s: SwapView, event: EventView)
    ensures
        s.after(event).progress() >= s.progress(),
        s.step(event).actions.len() <= 1,
        s.step(event).actions.len() == 1 ==> s.progress() < s.after(event).progress() && level(
            s.step(event).actions[0],
        ) == s.after(event).progress(),
{
}

/// A party that finishes says so: `Done` is emitted as the phase is entered.
pub proof fn law_finishing_is_announced(s: SwapView, event: EventView)
    requires
        !(s.phase is Done),
        s.after(event).phase is Done,
    ensures
        s.step(event).actions == seq![ActionView::Done],
{
}

/// Every action that an event of a sequence makes a party emit is among those of the sequence.
pub proof fn lemma_emitted_at(s: SwapView, events: Seq<EventView>, i: int, j: int)
    requires
        0 <= i < events.len(),
        0 <= j < s.run(events.take(i)).step(events[i]).actions.len(),
    ensures
        s.emitted(events).contains(s.run(events.take(i)).step(events[i]).actions[j]),
    decreases events.len(),
{
    let before = events.drop_last();
    let action = s.run(events.take(i)).step(events[i]).actions[j];
    let last = s.run(before).step(events.last()).actions;
    if i < before.len() {
        assert(before.take(i) =~= events.take(i));
        lemma_emitted_at(s, before, i, j);
        let k = choose|k: int| 0 <= k < s.emitted(before).len() && s.emitted(before)[k] == action;
        assert(s.emitted(events)[k] == action);
    } else {
        assert(before =~= events.take(i));
        assert(s.emitted(events)[s.emitted(before).len() + j] == action);
    }
}

/// A party that finishes over a sequence of events emits something on the way.
pub proof fn lemma_finishing_emits(s: SwapView, events: Seq<EventView>)
    requires
        !(s.phase is Done),
        s.run(events).phase is Done,
    ensures
        s.emitted(events).len() > 0,
    decreases events.len(),
{
    if events.len() > 0 {
        let before = s.run(events.drop_last());
        if before.phase is Done {
            lemma_finishing_emits(s, events.drop_last());
        } else {
            law_finishing_is_announced(before, events.last());
        }
    }
}

proof fn lemma_run_levels(s: SwapView, events: Seq<EventView>)
    requires
        s.phase is Start,
    ensures
        s.run(events).role == s.role,
        forall|i: int|
            0 <= i < s.emitted(events).len() ==> {
                &&& 0 < level(#[trigger] s.emitted(events)[i])
                &&& level(s.emitted(events)[i]) <= s.run(events).progress()
            },
        forall|i: int, j: int|
            0 <= i < j < s.emitted(events).len() ==> level(#[trigger] s.emitted(events)[i]) < level(
                #[trigger] s.emitted(events)[j],
            ),
    decreases events.len(),
{
    if events.len() > 0 {
        let prefix = events.drop_last();
        lemma_run_levels(s, prefix);
        law_phases_only_advance(s.run(prefix), events.last());
        let before = s.emitted(prefix);
        let all = s.emitted(events);
        assert forall|i: int| 0 <= i < before.len() implies #[trigger] all[i] == before[i] by {}
        assert forall|i: int| 0 <= i < all.len() implies 0 < level(#[trigger] all[i]) <= s.run(
            events,
        ).progress() by {
            if i < before.len() {
                assert(all[i] == before[i]);
            }
        }
        assert forall|i: int, j: int| 0 <= i < j < all.len() implies level(#[trigger] all[i])
            < level(#[trigger] all[j]) by {
            assert(all[i] == before[i]);
            if j < before.len() {
                assert(all[j] == before[j]);
            }
        }
    }
}

/// Whatever happens, in whatever order, a party emits its actions in the order of the protocol
/// and each at most once. In particular nobody sweeps twice, a maker refunds at most once and
/// never after a sweep, and a taker who sweeps her XMR back never claims afterwards.
pub proof fn law_actions_come_in_order(s: SwapView, events: Seq<EventView>, i: int, j: int)
    requires
        s.phase is Start,
        0 <= i < j < s.emitted(events).len(),
    ensures
        level(s.emitted(events)[i]) < level(s.emitted(events)[j]),
        !(s.emitted(events)[i] is RefundSol && s.emitted(events)[j] is RefundSol),
        !(s.emitted(events)[i] is SweepXmr && s.emitted(events)[j] is RefundSol),
        !(s.emitted(events)[i] is SweepXmr && s.emitted(events)[j] is ClaimSol),
        !(s.emitted(events)[i] is SweepXmr && s.emitted(events)[j] is SweepXmr),
{
    lemma_run_levels(s, events);
}

/// A maker never claims and never locks XMR; a taker never locks SOL, arms the window or
/// refunds.
pub proof fn law_roles_keep_to_their_actions(s: SwapView, event: EventView, i: int)
    requires
        0 <= i < s.step(event).actions.len(),
    ensures
        s.role is Maker ==> !(s.step(event).actions[i] is ClaimSol)
            && !(s.step(event).actions[i] is LockXmr),
        s.role is Taker ==> !(s.step(event).actions[i] is LockSol)
            && !(s.step(event).actions[i] is SetReady) && !(s.step(event).actions[i] is RefundSol),
{
}

/// Whoever sweeps does so with the sum of its own half and the half that was just revealed.
pub proof fn law_sweep_uses_the_joint_key(s: SwapView, event: EventView, key: nat)
    requires
        s.step(event).actions.contains(ActionView::SweepXmr { spend_key: key }),
    ensures
        s.role is Maker ==> (event matches EventView::SolClaimed { s_a } && key == curve::joint_key(
            s_a,
            s.own_spend,
        )),
        s.role is Taker ==> (event matches EventView::SolRefunded { s_b } && key
            == curve::joint_key(
            s.own_spend,
            s_b,
        )),
{
}

/// A maker arms the claim window only after the taker's XMR lock is confirmed.
pub proof fn law_ready_needs_the_xmr_lock(s: SwapView, event: EventView)
    requires
        s.step(event).actions.contains(ActionView::SetReady),
    ensures
        s.role is Maker,
        s.phase is SolLocked,
        event is XmrLocked,
{
}

/// A maker who has seen no XMR lock takes his SOL back as soon as the clock reaches the abort
/// point, which lies before `t0`.
pub proof fn law_maker_denies_a_lock_free_claim(s: SwapView, now: int)
    requires
        s.role is Maker,
        s.phase is SolLocked,
    ensures
        now >= s.t0 - ABORT_MARGIN ==> s.step(EventView::Tick { now }).actions == seq![
            ActionView::RefundSol,
        ],
        now < s.t0 - ABORT_MARGIN ==> s.after(EventView::Tick { now }) == s,
        s.t0 - ABORT_MARGIN < s.t0,
{
}

/// A maker with SOL in the escrow always has a way out, whichever transitions he observed: a
/// claim makes him sweep the XMR, and once the clock has passed both the abort point and `t1` he
/// refunds.
pub proof fn law_maker_completes_or_recovers(s: SwapView, now: int, s_a: nat, s_b: nat)
    requires
        s.role is Maker,
        s.phase is SolLocked || s.phase is XmrLocked || s.phase is Ready,
    ensures
        ({
            let claimed = s.after(EventView::SolClaimed { s_a });
            &&& s.step(EventView::SolClaimed { s_a }).actions == seq![
                ActionView::SweepXmr { spend_key: curve::joint_key(s_a, s.own_spend) },
            ]
            &&& claimed.phase is Settled
            &&& claimed.step(EventView::XmrSwept).actions == seq![ActionView::Done]
            &&& claimed.after(EventView::XmrSwept).phase is Done
        }),
        now >= s.t0 - ABORT_MARGIN && now >= s.t1 ==> {
            let refunding = s.after(EventView::Tick { now });
            &&& s.step(EventView::Tick { now }).actions == seq![ActionView::RefundSol]
            &&& refunding.phase is Settled && refunding.refunding
            &&& refunding.step(EventView::SolRefunded { s_b }).actions == seq![ActionView::Done]
            &&& refunding.after(EventView::SolRefunded { s_b }).phase is Done
        },
{
}

/// A maker whose refund loses the race against a claim still recovers: he sweeps the XMR. Once he
/// has swept, a further claim makes him do nothing.
pub proof fn law_maker_sweeps_after_a_lost_refund(s: SwapView, s_a: nat, other: nat)
    requires
        s.role is Maker,
        s.phase is Settled,
    ensures
        s.refunding ==> {
            let claimed = s.after(EventView::SolClaimed { s_a });
            &&& s.step(EventView::SolClaimed { s_a }).actions == seq![
                ActionView::SweepXmr { spend_key: curve::joint_key(s_a, s.own_spend) },
            ]
            &&& claimed == SwapView { refunding: false, ..s }
            &&& claimed.after(EventView::SolClaimed { s_a: other }) == claimed
            &&& claimed.step(EventView::XmrSwept).actions == seq![ActionView::Done]
            &&& claimed.after(EventView::XmrSwept).phase is Done
        },
        !s.refunding ==> s.after(EventView::SolClaimed { s_a }) == s && s.step(
            EventView::SolClaimed { s_a },
        ).actions.len() == 0,
{
}

/// A taker whose XMR may be locked always has a way out: she claims as soon as the window is
/// open, and any refund by the maker lets her sweep the XMR back, even after a claim was tried.
pub proof fn law_taker_completes_or_recovers(s: SwapView, now: int, s_b: nat)
    requires
        s.role is Taker,
        s.phase is SolLocked || s.phase is XmrLocked || s.phase is Ready,
    ensures
        ({
            let refunded = s.after(EventView::SolRefunded { s_b });
            &&& s.step(EventView::SolRefunded { s_b }).actions == seq![
                ActionView::SweepXmr { spend_key: curve::joint_key(s.own_spend, s_b) },
            ]
            &&& refunded.phase is Settled
            &&& refunded.step(EventView::XmrSwept).actions == seq![ActionView::Done]
            &&& refunded.after(EventView::XmrSwept).phase is Done
        }),
        s.phase is XmrLocked ==> s.step(EventView::Ready).actions == seq![ActionView::ClaimSol],
        s.phase is XmrLocked && now >= s.t0 ==> s.step(EventView::Tick { now }).actions == seq![
            ActionView::ClaimSol,
        ],
        s.phase is Ready ==> s.after(EventView::SolClaimed { s_a: s.own_spend }).phase is Done,
{
}

/// A taker never claims before her own XMR lock is confirmed, nor while the window is neither
/// armed nor opened by `t0`.
pub proof fn law_taker_claims_only_in_turn(s: SwapView, event: EventView)
    requires
        s.step(event).actions.contains(ActionView::ClaimSol),
    ensures
        s.role is Taker,
        s.phase is XmrLocked,
        event is Ready || (event matches EventView::Tick { now } && now >= s.t0),
{
}

/// Each action has its own cause, and nothing else brings it up. A party emits at most one action
/// at a time; the SOL is locked at the start and never again; and a clock tick brings up a refund
/// or a claim, never anything else.
pub proof fn law_each_action_has_its_cause(s: SwapView, event: EventView)
    requires
        !(s.phase is Done),
    ensures
        ({
            let actions = s.step(event).actions;
            let open = s.phase is SolLocked || s.phase is XmrLocked || s.phase is Ready;
            &&& actions.len() <= 1
            &&& actions != seq![ActionView::LockSol]
            &&& actions == seq![ActionView::LockXmr] <==> s.role is Taker && s.phase is Start
                && event is SolLocked
            &&& actions == seq![ActionView::SetReady] <==> s.role is Maker && s.phase is SolLocked
                && event is XmrLocked
            &&& actions == seq![ActionView::ClaimSol] <==> s.role is Taker && s.phase is XmrLocked
                && (event is Ready || (event matches EventView::Tick { now } && now >= s.t0))
            &&& actions == seq![ActionView::RefundSol] <==> s.role is Maker && (
            event matches EventView::Tick { now } && ((s.phase is SolLocked && now >= s.t0 - 600)
                || ((s.phase is XmrLocked || s.phase is Ready) && now >= s.t1)))
            &&& actions == seq![ActionView::Done] <==> (s.role is Maker && s.phase is Settled && (
            event is XmrSwept || event is SolRefunded)) || (s.role is Taker && ((s.phase is Ready
                && event is SolClaimed) || (s.phase is Settled && event is XmrSwept)))
            &&& actions.len() == 1 && actions[0] is SweepXmr <==> (s.role is Maker
                && event is SolClaimed && (open || (s.phase is Settled && s.refunding))) || (
            s.role is Taker && event is SolRefunded && open)
        }),
{
    let actions = s.step(event).actions;
    if actions.len() == 1 {
        assert(actions =~= seq![actions[0]]);
    }
}

/// The key of a sweep is the sum of the two halves modulo the group order, and both parties form
/// the same one: what the maker sweeps with after a claim that revealed `s_a` is what the taker
/// sweeps with after a refund that revealed `s_b`.
pub proof fn law_both_parties_sweep_with_the_same_key(
    maker: SwapView,
    taker: SwapView,
    s_a: nat,
    s_b: nat,
)
    requires
        maker.role is Maker,
        taker.role is Taker,
        maker.own_spend == s_b,
        taker.own_spend == s_a,
        maker.phase is SolLocked || maker.phase is XmrLocked || maker.phase is Ready,
        taker.phase is SolLocked || taker.phase is XmrLocked || taker.phase is Ready,
    ensures
        maker.step(EventView::SolClaimed { s_a }).actions == seq![
            ActionView::SweepXmr { spend_key: (s_a + s_b) % curve::group_order() },
        ],
        taker.step(EventView::SolRefunded { s_b }).actions == maker.step(
            EventView::SolClaimed { s_a },
        ).actions,
{
}

/// Each phase is entered from its own cause, and nothing else moves a party on. What a party is,
/// its timelocks and its key half never change, and that a refund was the last thing it did is
/// remembered until it does something else.
pub proof fn law_each_phase_has_its_cause(s: SwapView, event: EventView)
    requires
        !(s.phase is Done),
    ensures
        ({
            let t = s.after(event);
            let entered = t.phase != s.phase;
            let open = s.phase is SolLocked || s.phase is XmrLocked || s.phase is Ready;
            &&& t.role == s.role && t.t0 == s.t0 && t.t1 == s.t1 && t.own_spend == s.own_spend
            &&& !(entered && t.phase is Start)
            &&& entered && t.phase is SolLocked <==> s.phase is Start && event is SolLocked
            &&& entered && t.phase is XmrLocked <==> s.phase is SolLocked && event is XmrLocked
            &&& entered && t.phase is Ready <==> s.phase is XmrLocked && (event is Ready || (
            s.role is Taker && (event matches EventView::Tick { now } && now >= s.t0)))
            &&& entered && t.phase is Settled <==> open && ((s.role is Maker && (
            event is SolClaimed || s.step(event).actions == seq![ActionView::RefundSol])) || (
            s.role is Taker && event is SolRefunded))
            &&& entered && t.phase is Done <==> s.step(event).actions == seq![ActionView::Done]
            &&& t.refunding <==> s.step(event).actions == seq![ActionView::RefundSol] || (
            s.step(event).actions.len() == 0 && s.refunding)
        }),
{
    law_each_action_has_its_cause(s, event);
}

/// A clock tick never finishes a party. A taker who has claimed waits for the claim to be
/// confirmed, whatever the clock shows: only the settlement moves her on.
pub proof fn law_the_clock_finishes_nobody(s: SwapView, now: int)
    requires
        !(s.phase is Done),
    ensures
        !(s.after(EventView::Tick { now }).phase is Done),
        s.role is Taker && !(s.phase is XmrLocked) ==> s.after(EventView::Tick { now }) == s
            && s.step(EventView::Tick { now }).actions.len() == 0,
        s.phase is Start || s.phase is Settled ==> s.after(EventView::Tick { now }) == s,
{
}

/// What a party has done, as far as its phase tells.
proof fn lemma_phase_tells(s: SwapView, events: Seq<EventView>)
    requires
        s.phase is Start,
    ensures
        s.run(events).role == s.role,
        s.role is Taker && s.run(events).phase is Ready ==> s.emitted(events).contains(
            ActionView::ClaimSol,
        ),
        s.run(events).phase is Settled && s.role is Taker ==> exists|key: nat|
            s.emitted(events).contains(ActionView::SweepXmr { spend_key: key }),
        s.run(events).phase is Settled && s.role is Maker ==> s.emitted(events).contains(
            ActionView::RefundSol,
        ) || exists|key: nat| s.emitted(events).contains(ActionView::SweepXmr { spend_key: key }),
    decreases events.len(),
{
    if events.len() > 0 {
        let before = events.drop_last();
        lemma_phase_tells(s, before);
        let last = s.run(before).step(events.last()).actions;
        let all = s.emitted(events);
        assert forall|action: ActionView| s.emitted(before).contains(action) implies all.contains(
            action,
        ) by {
            let k = choose|k: int|
                0 <= k < s.emitted(before).len() && s.emitted(before)[k] == action;
            assert(all[k] == action);
        }
        if last.len() == 1 {
            assert(all[s.emitted(before).len() as int] == last[0]);
            assert(all.contains(last[0]));
        }
        if s.run(before).phase is Settled {
            if exists|key: nat|
                s.emitted(before).contains(ActionView::SweepXmr { spend_key: key }) {
                let key = choose|key: nat|
                    s.emitted(before).contains(ActionView::SweepXmr { spend_key: key });
                assert(all.contains(ActionView::SweepXmr { spend_key: key }));
            }
        }
    }
}

/// Nobody is done before being made whole. Over any course of events, a taker is done only after
/// a claim of hers was confirmed, or after the sweep that she asked for was; and a maker only
/// after he asked for a sweep or a refund, and a sweep or a refund was confirmed.
pub proof fn law_done_means_made_whole(s: SwapView, events: Seq<EventView>)
    requires
        s.phase is Start,
        s.run(events).phase is Done,
    ensures
        s.role is Taker ==> {
            ||| s.emitted(events).contains(ActionView::ClaimSol) && exists|i: int|
                0 <= i < events.len() && #[trigger] events[i] is SolClaimed
            ||| events.contains(EventView::XmrSwept) && exists|key: nat|
                s.emitted(events).contains(ActionView::SweepXmr { spend_key: key })
        },
        s.role is Maker ==> {
            &&& exists|i: int|
                0 <= i < events.len() && (#[trigger] events[i] is XmrSwept
                    || events[i] is SolRefunded)
            &&& s.emitted(events).contains(ActionView::RefundSol) || exists|key: nat|
                s.emitted(events).contains(ActionView::SweepXmr { spend_key: key })
        },
    decreases events.len(),
{
    let before = events.drop_last();
    let found = s.run(before);
    let last = events.len() - 1;
    let all = s.emitted(events);
    lemma_phase_tells(s, before);
    assert forall|action: ActionView| s.emitted(before).contains(action) implies all.contains(
        action,
    ) by {
        let k = choose|k: int| 0 <= k < s.emitted(before).len() && s.emitted(before)[k] == action;
        assert(all[k] == action);
    }
    if exists|key: nat| s.emitted(before).contains(ActionView::SweepXmr { spend_key: key }) {
        let key = choose|key: nat|
            s.emitted(before).contains(ActionView::SweepXmr { spend_key: key });
        assert(all.contains(ActionView::SweepXmr { spend_key: key }));
    }
    assert(events[last] == events.last());
    if found.phase is Done {
        law_done_means_made_whole(s, before);
        assert forall|i: int| 0 <= i < before.len() implies #[trigger] events[i] == before[i] by {}
        if s.role is Taker && before.contains(EventView::XmrSwept) {
            let i = choose|i: int| 0 <= i < before.len() && before[i] == EventView::XmrSwept;
            assert(events[i] == EventView::XmrSwept);
        }
        if exists|i: int| 0 <= i < before.len() && #[trigger] before[i] is SolClaimed {
            let i = choose|i: int| 0 <= i < before.len() && #[trigger] before[i] is SolClaimed;
            assert(events[i] is SolClaimed);
        }
        if exists|i: int|
            0 <= i < before.len() && (#[trigger] before[i] is XmrSwept || before[i] is SolRefunded) {
            let i = choose|i: int|
                0 <= i < before.len() && (#[trigger] before[i] is XmrSwept
                    || before[i] is SolRefunded);
            assert(events[i] is XmrSwept || events[i] is SolRefunded);
        }
    }
}

/// The state machine is told and tells exactly what the values say: an event of one kind is never
/// taken for another, scalars and times are those carried, and a list of actions keeps its order
/// and leaves nothing out.
pub proof fn law_events_and_actions_are_taken_as_they_are(
    event: Event,
    action: Action,
    actions: Seq<Action>,
    i: int,
)
    ensures
        event is SolLocked <==> event@ is SolLocked,
        event is XmrLocked <==> event@ is XmrLocked,
        event is Ready <==> event@ is Ready,
        event is XmrSwept <==> event@ is XmrSwept,
        event matches Event::SolClaimed { s_a } ==> event@ == (EventView::SolClaimed { s_a: s_a@ }),
        event matches Event::SolRefunded { s_b } ==> event@ == (EventView::SolRefunded {
            s_b: s_b@,
        }),
        event matches Event::Tick { now } ==> event@ == (EventView::Tick { now: now as int }),
        action is LockSol <==> action@ is LockSol,
        action is LockXmr <==> action@ is LockXmr,
        action is SetReady <==> action@ is SetReady,
        action is ClaimSol <==> action@ is ClaimSol,
        action is RefundSol <==> action@ is RefundSol,
        action is Done <==> action@ is Done,
        action matches Action::SweepXmr { spend_key } ==> action@ == (ActionView::SweepXmr {
            spend_key: spend_key@,
        }),
        action_views(actions).len() == actions.len(),
        0 <= i < actions.len() ==> action_views(actions)[i] == actions[i]@,
{
}

} // verus!
