//! What the escrow program guarantees to the two parties, over whole instructions.
use vstd::prelude::*;

use crate::address;
use crate::bytes;
use crate::codec;
use crate::codec::{Escrow, SwapInstruction};
use crate::curve;
use crate::curve::ED25519_IDENTITY;
use crate::live;
use crate::program;
use crate::program::{
    AccountView, AccountsView, CreateEscrow, EscrowError, LockTerms, ProgramError, Sysvars,
};
use crate::swap;
use crate::swap::SwapView;

verus! {

/// At any instant an escrow is open to exactly one of the two: to Alice's claim or to Bob's
/// refund.
pub proof fn law_windows_never_overlap(e: Escrow, now: i64)
    ensures
        program::claim_window(e, now) != program::refund_window(e, now),
{
}

/// Of one escrow account at one instant, never both a claim and a refund go through, whatever
/// secrets are revealed and whatever other accounts are named.
pub proof fn law_claim_and_refund_exclude_each_other(
    program_id: Seq<u8>,
    a: AccountsView,
    b: AccountsView,
    s_a: [u8; 32],
    s_b: [u8; 32],
    sysvars: Sysvars,
)
    requires
        a.account(0) == b.account(0),
    ensures
        !(program::claim_outcome(program_id, a, s_a, sysvars).result is Ok
            && program::refund_outcome(program_id, b, s_b, sysvars).result is Ok),
{
}

/// Is this the account of a settled escrow of the program?
pub open spec fn is_settled(program_id: Seq<u8>, account: AccountView) -> bool {
    program::load_error(program_id, account) is None && codec::escrow_of(account.data).settled
}

/// Storing other flags or another revealed scalar keeps the account an escrow of the program.
proof fn lemma_reload(program_id: Seq<u8>, account: AccountView, e: Escrow, lamports: u64)
    requires
        program::load_error(program_id, account) is None,
        e.locker == codec::escrow_of(account.data).locker,
        e.id == codec::escrow_of(account.data).id,
        e.bump == codec::escrow_of(account.data).bump,
    ensures
        program::load_error(program_id, AccountView { data: e.bytes(), lamports, ..account })
            is None,
        codec::escrow_of(e.bytes()) == e,
{
    codec::law_escrow_round_trips(e, e);
}

/// A successful claim or refund leaves a settled escrow behind, and a settled escrow answers
/// every further claim, refund and `set_ready` with `AlreadySettled`, changing nothing.
pub proof fn law_settles_exactly_once(
    program_id: Seq<u8>,
    a: AccountsView,
    reveal: [u8; 32],
    sysvars: Sysvars,
    later: AccountsView,
    other: [u8; 32],
    then: Sysvars,
)
    requires
        a.wf(),
    ensures
        ({
            let claimed = program::claim_outcome(program_id, a, reveal, sysvars);
            claimed.result is Ok ==> is_settled(program_id, claimed.accounts.account(0))
        }),
        ({
            let refunded = program::refund_outcome(program_id, a, reveal, sysvars);
            refunded.result is Ok ==> is_settled(program_id, refunded.accounts.account(0))
        }),
        later.order.len() >= 3 && is_settled(program_id, later.account(0)) ==> {
            let refused = Err::<(), ProgramError>(program::refusal(EscrowError::AlreadySettled));
            &&& program::claim_outcome(program_id, later, other, then).result == refused
            &&& program::claim_outcome(program_id, later, other, then).accounts == later
            &&& program::refund_outcome(program_id, later, other, then).result == refused
            &&& program::refund_outcome(program_id, later, other, then).accounts == later
            &&& program::set_ready_outcome(program_id, later, then).result == refused
            &&& program::set_ready_outcome(program_id, later, then).accounts == later
        },
{
    let e = codec::escrow_of(a.account(0).data);
    let settled = program::settled_by(e, reveal);
    let claimed = program::claim_outcome(program_id, a, reveal, sysvars);
    if claimed.result is Ok {
        lemma_reload(program_id, a.account(0), settled, claimed.accounts.account(0).lamports);
    }
    let refunded = program::refund_outcome(program_id, a, reveal, sysvars);
    if refunded.result is Ok {
        lemma_reload(program_id, a.account(0), settled, refunded.accounts.account(0).lamports);
    }
}

/// Settling publishes the committed secret itself: what the escrow stores is a canonical scalar
/// and, where the committed point is the public half of `s`, it is `s`. A scalar outside the
/// group order never settles.
pub proof fn law_settling_publishes_the_secret(
    program_id: Seq<u8>,
    a: AccountsView,
    reveal: [u8; 32],
    sysvars: Sysvars,
    s: nat,
)
    requires
        a.wf(),
    ensures
        ({
            let e = codec::escrow_of(a.account(0).data);
            let claimed = program::claim_outcome(program_id, a, reveal, sysvars);
            claimed.result is Ok ==> {
                &&& codec::escrow_of(claimed.accounts.account(0).data).revealed == reveal
                &&& curve::canonical_scalar(reveal@)
                &&& curve::opens(s, e.claim_point@) ==> bytes::le_nat(reveal@) == s
            }
        }),
        ({
            let e = codec::escrow_of(a.account(0).data);
            let refunded = program::refund_outcome(program_id, a, reveal, sysvars);
            refunded.result is Ok ==> {
                &&& codec::escrow_of(refunded.accounts.account(0).data).revealed == reveal
                &&& curve::canonical_scalar(reveal@)
                &&& curve::opens(s, e.refund_point@) ==> bytes::le_nat(reveal@) == s
            }
        }),
{
    let e = codec::escrow_of(a.account(0).data);
    codec::law_escrow_round_trips(program::settled_by(e, reveal), e);
}

/// A committed point that no scalar opens, such as one outside the prime-order subgroup, never
/// settles: it can only block its own swap.
pub proof fn law_unopened_points_never_settle(
    program_id: Seq<u8>,
    a: AccountsView,
    reveal: [u8; 32],
    sysvars: Sysvars,
)
    ensures
        ({
            let point = codec::escrow_of(a.account(0).data).claim_point@;
            (forall|n: nat| n < curve::group_order() ==> #[trigger] curve::base_point(n) != point)
                ==> program::claim_outcome(program_id, a, reveal, sysvars).result is Err
        }),
        ({
            let point = codec::escrow_of(a.account(0).data).refund_point@;
            (forall|n: nat| n < curve::group_order() ==> #[trigger] curve::base_point(n) != point)
                ==> program::refund_outcome(program_id, a, reveal, sysvars).result is Err
        }),
{
}

/// Every path that touches an escrow refuses a look-alike, and leaves every account as it was:
/// an account that the program does not own, that has another size, or that does not sit at the
/// address of its own locker, id and bump.
pub proof fn law_look_alikes_are_refused(
    program_id: Seq<u8>,
    a: AccountsView,
    reveal: [u8; 32],
    sysvars: Sysvars,
)
    requires
        ({
            let account = a.account(0);
            let e = codec::escrow_of(account.data);
            ||| account.owner@ != program_id
            ||| account.data.len() != Escrow::LEN
            ||| address::escrow_address_at(e.locker@, e.id@, e.bump, program_id) != Some(
                account.key@,
            )
        }),
    ensures
        program::claim_outcome(program_id, a, reveal, sysvars).result is Err,
        program::claim_outcome(program_id, a, reveal, sysvars).accounts == a,
        program::refund_outcome(program_id, a, reveal, sysvars).result is Err,
        program::refund_outcome(program_id, a, reveal, sysvars).accounts == a,
        program::set_ready_outcome(program_id, a, sysvars).result is Err,
        program::set_ready_outcome(program_id, a, sysvars).accounts == a,
        program::close_outcome(program_id, a).result is Err,
        program::close_outcome(program_id, a).accounts == a,
{
}

/// How much an amount adds to a slot, if it goes to that slot.
pub open spec fn share(here: bool, amount: int) -> int {
    if here {
        amount
    } else {
        0
    }
}

/// A successful claim pays the committed parties and nobody else: the escrow gives up exactly
/// the locked amount, the claimer gets it less the fee, the fee recipient gets the fee, and no
/// other account changes.
pub proof fn law_claim_pays_the_committed_parties(
    program_id: Seq<u8>,
    a: AccountsView,
    reveal: [u8; 32],
    sysvars: Sysvars,
    i: int,
)
    requires
        a.wf(),
        program::claim_outcome(program_id, a, reveal, sysvars).result is Ok,
        0 <= i < a.slots.len(),
    ensures
        ({
            let e = codec::escrow_of(a.account(0).data);
            let fee = program::claim_fee(e.amount, e.fee_bps) as int;
            let after = program::claim_outcome(program_id, a, reveal, sysvars).accounts;
            &&& a.account(1).key == e.claimer
            &&& a.account(2).key == e.fee_recipient
            &&& after.slots.len() == a.slots.len()
            &&& after.slots[i].lamports == a.slots[i].lamports - share(
                i == a.order[0],
                e.amount as int,
            ) + share(i == a.order[1], e.amount - fee) + share(i == a.order[2], fee)
            &&& after.slots[i] == AccountView {
                lamports: after.slots[i].lamports,
                data: after.slots[i].data,
                ..a.slots[i]
            }
            &&& i != a.order[0] ==> after.slots[i].data == a.slots[i].data
        }),
{
}

/// A successful refund returns exactly the locked amount to the locker, and no other account
/// changes.
pub proof fn law_refund_pays_the_locker(
    program_id: Seq<u8>,
    a: AccountsView,
    reveal: [u8; 32],
    sysvars: Sysvars,
    i: int,
)
    requires
        a.wf(),
        program::refund_outcome(program_id, a, reveal, sysvars).result is Ok,
        0 <= i < a.slots.len(),
    ensures
        ({
            let e = codec::escrow_of(a.account(0).data);
            let after = program::refund_outcome(program_id, a, reveal, sysvars).accounts;
            &&& a.account(1).key == e.locker
            &&& after.slots.len() == a.slots.len()
            &&& after.slots[i].lamports == a.slots[i].lamports - share(
                i == a.order[0],
                e.amount as int,
            ) + share(i == a.order[1], e.amount as int)
            &&& after.slots[i] == AccountView {
                lamports: after.slots[i].lamports,
                data: after.slots[i].data,
                ..a.slots[i]
            }
            &&& i != a.order[0] ==> after.slots[i].data == a.slots[i].data
        }),
{
}

/// A successful `close` empties the escrow into its locker, who signed for it.
pub proof fn law_close_returns_everything(program_id: Seq<u8>, a: AccountsView)
    requires
        a.wf(),
        program::close_outcome(program_id, a).result is Ok,
    ensures
        is_settled(program_id, a.account(0)),
        a.account(1).is_signer,
        a.account(1).key == codec::escrow_of(a.account(0).data).locker,
        program::close_outcome(program_id, a).accounts.account(0).lamports == 0,
        program::close_outcome(program_id, a).accounts.account(1).lamports
            == a.account(1).lamports + a.account(0).lamports,
{
}

/// All lamports of the accounts together.
pub open spec fn total(slots: Seq<AccountView>) -> int
    decreases slots.len(),
{
    if slots.len() == 0 {
        0
    } else {
        total(slots.drop_last()) + slots.last().lamports
    }
}

proof fn lemma_total_update(slots: Seq<AccountView>, i: int, account: AccountView)
    requires
        0 <= i < slots.len(),
    ensures
        total(slots.update(i, account)) == total(slots) - slots[i].lamports + account.lamports,
    decreases slots.len(),
{
    let updated = slots.update(i, account);
    if i == slots.len() - 1 {
        assert(updated.drop_last() =~= slots.drop_last());
    } else {
        assert(updated.drop_last() =~= slots.drop_last().update(i, account));
        lemma_total_update(slots.drop_last(), i, account);
    }
}

proof fn lemma_transfer_conserves(a: AccountsView, from: int, to: int, amount: u64)
    requires
        0 <= from < a.slots.len(),
        0 <= to < a.slots.len(),
        program::transfer(a, from, to, amount).result is Ok,
    ensures
        total(program::transfer(a, from, to, amount).accounts.slots) == total(a.slots),
{
    let debited = a.with_lamports(from, a.slots[from].lamports - amount);
    lemma_total_update(a.slots, from, debited.slots[from]);
    let credited = debited.with_lamports(to, a.slots[to].lamports + amount);
    lemma_total_update(debited.slots, to, credited.slots[to]);
}

/// No instruction that succeeds makes or destroys lamports.
pub proof fn law_lamports_are_conserved(
    program_id: Seq<u8>,
    a: AccountsView,
    data: Seq<u8>,
    sysvars: Sysvars,
)
    requires
        a.wf(),
        program::process_outcome(program_id, a, data, sysvars).result is Ok,
    ensures
        total(program::process_outcome(program_id, a, data, sysvars).accounts.slots) == total(
            a.slots,
        ),
{
    let ix = codec::instruction_of(data);
    let e = codec::escrow_of(a.account(0).data);
    match ix {
        SwapInstruction::SetReady => {
            let stored = a.with_data(a.order[0] as int, (Escrow { ready: true, ..e }).bytes());
            lemma_total_update(a.slots, a.order[0] as int, stored.slots[a.order[0] as int]);
        },
        SwapInstruction::Claim { reveal } => {
            let fee = program::claim_fee(e.amount, e.fee_bps) as u64;
            let first = program::transfer(
                a,
                a.order[0] as int,
                a.order[1] as int,
                (e.amount - fee) as u64,
            );
            lemma_transfer_conserves(
                a,
                a.order[0] as int,
                a.order[1] as int,
                (e.amount - fee) as u64,
            );
            if fee > 0 {
                lemma_transfer_conserves(
                    first.accounts,
                    a.order[0] as int,
                    a.order[2] as int,
                    fee,
                );
            }
            let paid = program::claim_payout(a, e.amount, fee).accounts;
            let stored = paid.with_data(
                a.order[0] as int,
                program::settled_by(e, reveal).bytes(),
            );
            lemma_total_update(paid.slots, a.order[0] as int, stored.slots[a.order[0] as int]);
        },
        SwapInstruction::Refund { reveal } => {
            lemma_transfer_conserves(a, a.order[0] as int, a.order[1] as int, e.amount);
            let paid = program::transfer(
                a,
                a.order[0] as int,
                a.order[1] as int,
                e.amount,
            ).accounts;
            let stored = paid.with_data(
                a.order[0] as int,
                program::settled_by(e, reveal).bytes(),
            );
            lemma_total_update(paid.slots, a.order[0] as int, stored.slots[a.order[0] as int]);
        },
        SwapInstruction::Close => {
            lemma_transfer_conserves(
                a,
                a.order[0] as int,
                a.order[1] as int,
                a.account(0).lamports,
            );
        },
        _ => {},
    }
}

/// An account as the System Program creates it for a plan.
pub open spec fn created(program_id: Seq<u8>, plan: CreateEscrow, account: AccountView) -> bool {
    &&& account.owner@ == program_id
    &&& account.data.len() == Escrow::LEN
    &&& account.lamports >= plan.lamports
    &&& address::escrow_address_at(
        plan.escrow.locker@,
        plan.escrow.id@,
        plan.escrow.bump,
        program_id,
    ) == Some(account.key@)
}

/// A lock that goes ahead plans an account at the address that the instruction named. Once that
/// account is created and completed, it loads as exactly the planned escrow: fresh, with the
/// agreed terms, ordered windows and a fee within the cap.
pub proof fn law_lock_stores_a_loadable_escrow(
    program_id: Seq<u8>,
    a: AccountsView,
    terms: LockTerms,
    sysvars: Sysvars,
    account: AccountView,
)
    requires
        program::lock_error(program_id, a, terms, sysvars) is None,
        created(program_id, program::lock_plan(program_id, a, terms, sysvars), account),
    ensures
        ({
            let plan = program::lock_plan(program_id, a, terms, sysvars);
            let e = plan.escrow;
            let stored = AccountView {
                data: program::overwritten(account.data, e),
                ..account
            };
            &&& account.key@ == a.account(1).key@
            &&& program::load_error(program_id, stored) is None
            &&& codec::escrow_of(stored.data) == e
            &&& e == program::fresh_escrow(a.account(0).key, terms, e.bump)
            &&& e.t0 + program::MIN_WINDOW_SECS <= e.t1
            &&& e.fee_bps <= program::MAX_FEE_BPS
        }),
{
    let e = program::lock_plan(program_id, a, terms, sysvars).escrow;
    codec::law_escrow_round_trips(e, e);
    assert(program::overwritten(account.data, e) =~= e.bytes());
}

/// The fee never exceeds three per cent of what a lock put in, and fee and payout make up the
/// whole amount.
pub proof fn law_fee_is_capped(
    program_id: Seq<u8>,
    a: AccountsView,
    terms: LockTerms,
    sysvars: Sysvars,
)
    requires
        program::lock_error(program_id, a, terms, sysvars) is None,
    ensures
        ({
            let fee = program::claim_fee(terms.amount, terms.fee_bps);
            &&& fee == program::fee_part(terms.amount, terms.fee_bps)
            &&& 100 * fee <= 3 * terms.amount
            &&& fee <= terms.amount
        }),
{
    program::lemma_fee_part(terms.amount, terms.fee_bps);
}

/// A lock is refused for its fee exactly where the fee is over the cap, whatever else is wrong
/// with it and whatever the runtime reports.
pub proof fn law_only_a_high_fee_is_too_high(
    program_id: Seq<u8>,
    a: AccountsView,
    terms: LockTerms,
    sysvars: Sysvars,
)
    ensures
        program::lock_error(program_id, a, terms, sysvars) == Some(
            program::refusal(EscrowError::FeeTooHigh),
        ) <==> terms.fee_bps > program::MAX_FEE_BPS,
{
}

/// The escrow that a lock creates can pay either way out, and what Alice is paid clears the rent
/// floor of a fresh account: neither a claim nor a refund ever lacks the funds.
pub proof fn law_locked_funds_cover_the_payout(
    program_id: Seq<u8>,
    a: AccountsView,
    terms: LockTerms,
    sysvars: Sysvars,
    account: AccountView,
)
    requires
        program::lock_error(program_id, a, terms, sysvars) is None,
        created(program_id, program::lock_plan(program_id, a, terms, sysvars), account),
    ensures
        account.lamports - terms.amount >= sysvars.rent->Ok_0.escrow,
        terms.amount - program::claim_fee(terms.amount, terms.fee_bps)
            >= sysvars.rent->Ok_0.empty,
{
    program::lemma_fee_part(terms.amount, terms.fee_bps);
    program::lemma_fee_part(terms.amount, program::MAX_FEE_BPS);
    let amount = terms.amount as int;
    let bps = terms.fee_bps as int;
    assert(amount * bps <= amount * 300) by (nonlinear_arith)
        requires
            amount >= 0,
            bps <= 300,
    ;
    vstd::arithmetic::div_mod::lemma_div_is_ordered(amount * bps, amount * 300, 10_000);
}

/// With the committed secret, in the right window and naming the committed accounts, a claim of
/// an escrow that holds its amount succeeds, unless a credited balance would overflow.
pub proof fn law_claimer_can_always_claim(
    program_id: Seq<u8>,
    a: AccountsView,
    reveal: [u8; 32],
    sysvars: Sysvars,
)
    requires
        a.wf(),
        a.order.len() >= 3,
        program::load_error(program_id, a.account(0)) is None,
        ({
            let e = codec::escrow_of(a.account(0).data);
            &&& !e.settled
            &&& e.fee_bps <= program::MAX_FEE_BPS
            &&& sysvars.now is Ok
            &&& program::claim_window(e, sysvars.now->Ok_0)
            &&& program::settles(reveal@, e.claim_point@)
            &&& a.account(1).key == e.claimer
            &&& a.account(2).key == e.fee_recipient
            &&& e.claimer != a.account(0).key
            &&& e.fee_recipient != a.account(0).key
            &&& a.account(0).lamports >= e.amount
            &&& a.account(1).lamports + e.amount <= u64::MAX
            &&& a.account(2).lamports + e.amount <= u64::MAX
        }),
    ensures
        program::claim_outcome(program_id, a, reveal, sysvars).result is Ok,
{
    let e = codec::escrow_of(a.account(0).data);
    program::lemma_fee_part(e.amount, e.fee_bps);
}

/// With the committed secret and in the right window, a refund of an escrow that holds its
/// amount succeeds, unless the locker's balance would overflow.
pub proof fn law_locker_can_always_refund(
    program_id: Seq<u8>,
    a: AccountsView,
    reveal: [u8; 32],
    sysvars: Sysvars,
)
    requires
        a.wf(),
        a.order.len() >= 2,
        program::load_error(program_id, a.account(0)) is None,
        ({
            let e = codec::escrow_of(a.account(0).data);
            &&& !e.settled
            &&& sysvars.now is Ok
            &&& program::refund_window(e, sysvars.now->Ok_0)
            &&& program::settles(reveal@, e.refund_point@)
            &&& a.account(1).key == e.locker
            &&& e.locker != a.account(0).key
            &&& a.account(0).lamports >= e.amount
            &&& a.account(1).lamports + e.amount <= u64::MAX
        }),
    ensures
        program::refund_outcome(program_id, a, reveal, sysvars).result is Ok,
{
}

/// `set_ready` is the locker's alone, changes nothing but the flag, and from then on only Alice
/// can settle until `t1`.
pub proof fn law_ready_commits_the_locker(
    program_id: Seq<u8>,
    a: AccountsView,
    sysvars: Sysvars,
    now: i64,
)
    requires
        a.wf(),
        program::set_ready_outcome(program_id, a, sysvars).result is Ok,
    ensures
        ({
            let e = codec::escrow_of(a.account(0).data);
            let after = program::set_ready_outcome(program_id, a, sysvars).accounts;
            let armed = codec::escrow_of(after.account(0).data);
            &&& a.account(1).is_signer && a.account(1).key == e.locker
            &&& armed == Escrow { ready: true, ..e }
            &&& program::load_error(program_id, after.account(0)) is None
            &&& now < e.t1 ==> program::claim_window(armed, now)
            &&& now < e.t1 ==> !program::refund_window(armed, now)
        }),
{
    let e = codec::escrow_of(a.account(0).data);
    lemma_reload(
        program_id,
        a.account(0),
        Escrow { ready: true, ..e },
        a.account(0).lamports,
    );
}

/// The public point of an honest key half passes the vetting of a lock.
pub proof fn law_honest_points_are_committable(point: Seq<u8>)
    requires
        curve::is_point(point),
        curve::canonical_point(point),
        point != ED25519_IDENTITY@,
    ensures
        program::committable(point),
{
}

/// Where the maker's state machine gives up because no XMR was locked, and `t0` has not passed,
/// the program takes the refund; where it gives up after `t1`, the program takes it too.
pub proof fn law_maker_refunds_inside_a_window(s: SwapView, e: Escrow, now: i64)
    requires
        s.t0 == e.t0,
        s.t1 == e.t1,
        s.refund_due(now as int),
        s.phase is SolLocked ==> !e.ready && now < e.t0,
    ensures
        program::refund_window(e, now),
{
}

/// Where the taker's state machine claims, told by the maker's flag or by its own clock, and
/// `t1` has not passed, the program takes the claim.
pub proof fn law_taker_claims_inside_the_window(
    s: SwapView,
    event: swap::EventView,
    e: Escrow,
    now: i64,
)
    requires
        s.role is Taker,
        s.t0 == e.t0,
        s.step(event).actions.contains(swap::ActionView::ClaimSol),
        event is Ready ==> e.ready || now >= e.t0,
        event matches swap::EventView::Tick { now: tick } ==> tick <= now,
        now < e.t1,
    ensures
        program::claim_window(e, now),
{
}

/// The watcher recognises what the program stores: after a claim it reports the claim with the
/// revealed scalar, and after a refund the refund, as long as the two committed points differ.
pub proof fn law_watcher_recognises_settlements(
    program_id: Seq<u8>,
    a: AccountsView,
    reveal: [u8; 32],
    sysvars: Sysvars,
)
    requires
        a.wf(),
    ensures
        ({
            let claimed = program::claim_outcome(program_id, a, reveal, sysvars);
            let stored = codec::escrow_of(claimed.accounts.account(0).data);
            claimed.result is Ok ==> live::settlement(live::watched(stored)) == Some(
                swap::EventView::SolClaimed { s_a: bytes::le_nat(reveal@) },
            )
        }),
        ({
            let e = codec::escrow_of(a.account(0).data);
            let refunded = program::refund_outcome(program_id, a, reveal, sysvars);
            let stored = codec::escrow_of(refunded.accounts.account(0).data);
            refunded.result is Ok && e.claim_point@ != e.refund_point@ ==> live::settlement(
                live::watched(stored),
            ) == Some(swap::EventView::SolRefunded { s_b: bytes::le_nat(reveal@) })
        }),
{
    let e = codec::escrow_of(a.account(0).data);
    codec::law_escrow_round_trips(program::settled_by(e, reveal), e);
}

/// What a maker's sweep key comes to, once the taker has claimed: the claim on chain, seen by
/// the watcher, makes a maker who is still in the swap sweep with the sum of both secrets,
/// whichever transitions it saw before.
pub proof fn law_claim_hands_the_maker_the_key(
    program_id: Seq<u8>,
    a: AccountsView,
    reveal: [u8; 32],
    sysvars: Sysvars,
    maker: SwapView,
    s_a: nat,
)
    requires
        a.wf(),
        program::claim_outcome(program_id, a, reveal, sysvars).result is Ok,
        curve::opens(s_a, codec::escrow_of(a.account(0).data).claim_point@),
        maker.role is Maker,
        maker.sweep_due(),
    ensures
        ({
            let after = program::claim_outcome(program_id, a, reveal, sysvars).accounts;
            let stored = codec::escrow_of(after.account(0).data);
            let event = live::settlement(live::watched(stored)).unwrap();
            maker.step(event).actions == seq![
                swap::ActionView::SweepXmr { spend_key: curve::joint_key(s_a, maker.own_spend) },
            ]
        }),
{
    law_watcher_recognises_settlements(program_id, a, reveal, sysvars);
    law_settling_publishes_the_secret(program_id, a, reveal, sysvars, s_a);
}

/// What a taker's sweep key comes to, once the maker has refunded: the refund on chain, seen by
/// the watcher, makes a taker who is still in the swap sweep with the sum of both secrets.
pub proof fn law_refund_hands_the_taker_the_key(
    program_id: Seq<u8>,
    a: AccountsView,
    reveal: [u8; 32],
    sysvars: Sysvars,
    taker: SwapView,
    s_b: nat,
)
    requires
        a.wf(),
        program::refund_outcome(program_id, a, reveal, sysvars).result is Ok,
        curve::opens(s_b, codec::escrow_of(a.account(0).data).refund_point@),
        codec::escrow_of(a.account(0).data).claim_point@ != codec::escrow_of(
            a.account(0).data,
        ).refund_point@,
        taker.role is Taker,
        taker.phase is SolLocked || taker.phase is XmrLocked || taker.phase is Ready,
    ensures
        ({
            let after = program::refund_outcome(program_id, a, reveal, sysvars).accounts;
            let stored = codec::escrow_of(after.account(0).data);
            let event = live::settlement(live::watched(stored)).unwrap();
            taker.step(event).actions == seq![
                swap::ActionView::SweepXmr { spend_key: curve::joint_key(taker.own_spend, s_b) },
            ]
        }),
{
    law_watcher_recognises_settlements(program_id, a, reveal, sysvars);
    law_settling_publishes_the_secret(program_id, a, reveal, sysvars, s_b);
}

/// An instruction as the runtime hands it to the program: its bytes, the accounts it names, and
/// what the program reads from the runtime.
pub struct Call {
    pub data: Seq<u8>,
    pub order: Seq<usize>,
    pub sysvars: Sysvars,
}

/// The accounts after an instruction. One that fails is rolled back, and an account that exists
/// is not created again.
pub open spec fn after_call(program_id: Seq<u8>, slots: Seq<AccountView>, call: Call) -> Seq<
    AccountView,
> {
    let outcome = program::process_outcome(
        program_id,
        AccountsView { slots, order: call.order },
        call.data,
        call.sysvars,
    );
    if outcome.result is Ok {
        outcome.accounts.slots
    } else {
        slots
    }
}

/// The accounts after a sequence of instructions.
pub open spec fn after_calls(program_id: Seq<u8>, slots: Seq<AccountView>, calls: Seq<Call>) -> Seq<
    AccountView,
>
    decreases calls.len(),
{
    if calls.len() == 0 {
        slots
    } else {
        after_call(program_id, after_calls(program_id, slots, calls.drop_last()), calls.last())
    }
}

/// Does every instruction name slots that exist?
pub open spec fn calls_fit(calls: Seq<Call>, slots: nat) -> bool {
    forall|i: int, n: int|
        0 <= i < calls.len() && 0 <= n < calls[i].order.len() ==> #[trigger] calls[i].order[n]
            < slots
}

/// Can the escrow `e` have become `later`? The terms stay, flags are only ever set, what was
/// revealed stays revealed, and a settlement reveals the secret of a committed point.
pub open spec fn grew_into(e: Escrow, later: Escrow) -> bool {
    &&& later == Escrow {
        ready: later.ready,
        settled: later.settled,
        revealed: later.revealed,
        ..e
    }
    &&& e.ready ==> later.ready
    &&& e.settled ==> later.settled && later.revealed == e.revealed
    &&& !later.settled ==> later.revealed == e.revealed
    &&& !e.settled && later.settled ==> program::settles(later.revealed@, e.claim_point@)
        || program::settles(later.revealed@, e.refund_point@)
}

proof fn lemma_call_keeps_escrows(
    program_id: Seq<u8>,
    slots: Seq<AccountView>,
    call: Call,
    k: int,
)
    requires
        0 <= k < slots.len(),
        forall|n: int| 0 <= n < call.order.len() ==> #[trigger] call.order[n] < slots.len(),
        program::load_error(program_id, slots[k]) is None,
    ensures
        ({
            let after = after_call(program_id, slots, call);
            &&& after.len() == slots.len()
            &&& total(after) == total(slots)
            &&& program::load_error(program_id, after[k]) is None
            &&& grew_into(codec::escrow_of(slots[k].data), codec::escrow_of(after[k].data))
        }),
{
    let a = AccountsView { slots, order: call.order };
    let o = program::process_outcome(program_id, a, call.data, call.sysvars);
    if o.result is Ok {
        law_lamports_are_conserved(program_id, a, call.data, call.sysvars);
        let e = codec::escrow_of(a.account(0).data);
        let lamports = o.accounts.slots[k].lamports;
        lemma_reload(program_id, slots[k], codec::escrow_of(slots[k].data), lamports);
        match codec::instruction_of(call.data) {
            SwapInstruction::SetReady => {
                lemma_reload(program_id, a.account(0), Escrow { ready: true, ..e }, lamports);
            },
            SwapInstruction::Claim { reveal } => {
                lemma_reload(
                    program_id,
                    a.account(0),
                    program::settled_by(e, reveal),
                    lamports,
                );
            },
            SwapInstruction::Refund { reveal } => {
                lemma_reload(
                    program_id,
                    a.account(0),
                    program::settled_by(e, reveal),
                    lamports,
                );
            },
            _ => {},
        }
    }
}

/// Over any sequence of instructions, with any accounts and at any times, an escrow stays one:
/// its terms never change, its flags are only ever set, and once it has settled the revealed
/// scalar never changes again. And no sequence makes or destroys lamports.
pub proof fn law_an_escrow_keeps_its_terms(
    program_id: Seq<u8>,
    slots: Seq<AccountView>,
    calls: Seq<Call>,
    k: int,
)
    requires
        0 <= k < slots.len(),
        calls_fit(calls, slots.len()),
        program::load_error(program_id, slots[k]) is None,
    ensures
        ({
            let after = after_calls(program_id, slots, calls);
            &&& after.len() == slots.len()
            &&& total(after) == total(slots)
            &&& program::load_error(program_id, after[k]) is None
            &&& grew_into(codec::escrow_of(slots[k].data), codec::escrow_of(after[k].data))
        }),
    decreases calls.len(),
{
    if calls.len() > 0 {
        let before = calls.drop_last();
        lemma_fits_part(calls, slots.len(), 0, calls.len() - 1);
        law_an_escrow_keeps_its_terms(program_id, slots, before, k);
        let last = calls.last();
        assert forall|n: int| 0 <= n < last.order.len() implies #[trigger] last.order[n]
            < slots.len() by {
            assert(calls[calls.len() - 1].order[n] < slots.len());
        }
        lemma_call_keeps_escrows(
            program_id,
            after_calls(program_id, slots, before),
            calls.last(),
            k,
        );
    }
}

/// From its lock on, over any sequence of instructions, with any accounts and at any times, an
/// escrow that has settled shows a canonical scalar of one of its committed points, and one that
/// has not shows none. No lock commits to the identity: where that is zero's point, which every
/// call of [`curve::Point::mul_base`] confirms, the scalar is not zero.
pub proof fn law_settled_escrows_show_a_committed_secret(
    program_id: Seq<u8>,
    a: AccountsView,
    terms: LockTerms,
    sysvars: Sysvars,
    slots: Seq<AccountView>,
    calls: Seq<Call>,
    k: int,
)
    requires
        program::lock_error(program_id, a, terms, sysvars) is None,
        0 <= k < slots.len(),
        program::load_error(program_id, slots[k]) is None,
        codec::escrow_of(slots[k].data) == program::lock_plan(
            program_id,
            a,
            terms,
            sysvars,
        ).escrow,
        calls_fit(calls, slots.len()),
    ensures
        ({
            let e = codec::escrow_of(after_calls(program_id, slots, calls)[k].data);
            let s = bytes::le_nat(e.revealed@);
            &&& e.settled ==> {
                &&& curve::canonical_scalar(e.revealed@)
                &&& curve::base_point(s) == terms.claim_point@ || curve::base_point(s)
                    == terms.refund_point@
                &&& curve::base_point(0) == ED25519_IDENTITY@ ==> s != 0
            }
            &&& !e.settled ==> e.revealed@ == codec::NO_BYTES@
        }),
{
    law_an_escrow_keeps_its_terms(program_id, slots, calls, k);
}

/// Does the instruction at index `i` of a sequence settle the escrow in slot `k`: a claim or a
/// refund of it that goes through?
pub open spec fn settles_at(
    program_id: Seq<u8>,
    slots: Seq<AccountView>,
    calls: Seq<Call>,
    i: int,
    k: int,
) -> bool {
    let call = calls[i];
    let a = AccountsView {
        slots: after_calls(program_id, slots, calls.take(i)),
        order: call.order,
    };
    &&& 0 <= i < calls.len()
    &&& codec::instruction_error(call.data) is None
    &&& codec::instruction_of(call.data) is Claim || codec::instruction_of(call.data) is Refund
    &&& call.order[0] == k
    &&& program::process_outcome(program_id, a, call.data, call.sysvars).result is Ok
}

proof fn lemma_after_calls_split(
    program_id: Seq<u8>,
    slots: Seq<AccountView>,
    calls: Seq<Call>,
    m: int,
)
    requires
        0 <= m <= calls.len(),
    ensures
        after_calls(program_id, slots, calls) == after_calls(
            program_id,
            after_calls(program_id, slots, calls.take(m)),
            calls.skip(m),
        ),
    decreases calls.len() - m,
{
    if m == calls.len() {
        assert(calls.take(m) =~= calls);
    } else {
        let before = calls.drop_last();
        lemma_after_calls_split(program_id, slots, before, m);
        assert(before.take(m) =~= calls.take(m));
        assert(before.skip(m) =~= calls.skip(m).drop_last());
        assert(calls.skip(m).last() == calls.last());
    }
}

/// Over any sequence of instructions, with any accounts and at any times, an escrow settles at
/// most once.
pub proof fn law_at_most_one_settlement(
    program_id: Seq<u8>,
    slots: Seq<AccountView>,
    calls: Seq<Call>,
    k: int,
    i: int,
    j: int,
)
    requires
        0 <= k < slots.len(),
        calls_fit(calls, slots.len()),
        program::load_error(program_id, slots[k]) is None,
        0 <= i < j < calls.len(),
        settles_at(program_id, slots, calls, i, k),
    ensures
        !settles_at(program_id, slots, calls, j, k),
{
    let upto = calls.take(i);
    lemma_fits_part(calls, slots.len(), 0, i);
    assert(calls.subrange(0, i) =~= upto);
    law_an_escrow_keeps_its_terms(program_id, slots, upto, k);
    let found = after_calls(program_id, slots, upto);

    // The settlement leaves a settled escrow.
    let through = calls.take(i + 1);
    assert(through.drop_last() =~= upto);
    assert(through.last() == calls[i]);
    let settled = after_calls(program_id, slots, through);
    let a = AccountsView { slots: found, order: calls[i].order };
    let sysvars = calls[i].sysvars;
    assert forall|n: int| 0 <= n < a.order.len() implies #[trigger] a.order[n] < a.slots.len() by {
        assert(calls[i].order[n] < slots.len());
    }
    match codec::instruction_of(calls[i].data) {
        SwapInstruction::Claim { reveal } => {
            law_settles_exactly_once(program_id, a, reveal, sysvars, a, reveal, sysvars);
        },
        SwapInstruction::Refund { reveal } => {
            law_settles_exactly_once(program_id, a, reveal, sysvars, a, reveal, sysvars);
        },
        _ => {},
    }
    assert(is_settled(program_id, settled[k]));
    assert(settled.len() == slots.len());

    // What follows keeps it settled.
    let rest = calls.take(j).skip(i + 1);
    lemma_after_calls_split(program_id, slots, calls.take(j), i + 1);
    assert(calls.take(j).take(i + 1) =~= through);
    lemma_fits_part(calls, slots.len(), i + 1, j);
    assert(calls.subrange(i + 1, j) =~= rest);
    law_an_escrow_keeps_its_terms(program_id, settled, rest, k);
    assert(is_settled(program_id, after_calls(program_id, slots, calls.take(j))[k]));
}

proof fn lemma_fits_part(calls: Seq<Call>, slots: nat, from: int, to: int)
    requires
        calls_fit(calls, slots),
        0 <= from <= to <= calls.len(),
    ensures
        calls_fit(calls.subrange(from, to), slots),
{
    let part = calls.subrange(from, to);
    assert forall|i: int, n: int|
        0 <= i < part.len() && 0 <= n < part[i].order.len() implies #[trigger] part[i].order[n]
        < slots by {
        assert(part[i] == calls[from + i]);
        assert(calls[from + i].order[n] < slots);
    }
}

} // verus!
