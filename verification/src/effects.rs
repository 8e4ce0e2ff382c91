//! What each instruction of the escrow program does, from its bytes to the accounts: when it goes
//! through, what it changes then, and what it is refused for.
use vstd::prelude::*;

use crate::address;
use crate::bytes;
use crate::codec;
use crate::codec::{DecodeError, Escrow, SwapInstruction};
use crate::curve;
use crate::program;
use crate::program::{
    AccountView, AccountsView, LockTerms, Outcome, ProgramError, ProgressView, Sysvars,
};
use crate::text;

verus! {

/// What an instruction comes to, given by its bytes.
pub open spec fn run(
    program_id: Seq<u8>,
    a: AccountsView,
    ix: SwapInstruction,
    sysvars: Sysvars,
) -> Outcome<ProgressView> {
    program::process_outcome(program_id, a, ix.bytes(), sysvars)
}

/// The address that the program derives for an escrow: from the word `escrow`, the locker, the
/// swap id and the bump.
pub open spec fn derived(locker: Seq<u8>, id: Seq<u8>, bump: u8, program_id: Seq<u8>) -> Option<
    Seq<u8>,
> {
    address::program_address(
        seq![seq![101u8, 115, 99, 114, 111, 119], locker, id, seq![bump]],
        program_id,
    )
}

/// That is the address of an escrow with that bump.
pub proof fn law_derived_address(locker: Seq<u8>, id: Seq<u8>, bump: u8, program_id: Seq<u8>)
    ensures
        address::escrow_address_at(locker, id, bump, program_id) == derived(
            locker,
            id,
            bump,
            program_id,
        ),
{
    assert(address::ESCROW_SEED@ =~= seq![101u8, 115, 99, 114, 111, 119]);
    assert(address::escrow_seeds(locker, id).push(seq![bump]) =~= seq![
        seq![101u8, 115, 99, 114, 111, 119],
        locker,
        id,
        seq![bump],
    ]);
}

/// Does this account hold the escrow `e`: owned by the program, filled by the escrow's bytes, and
/// at the address that the program derives for it?
pub open spec fn holds(program_id: Seq<u8>, account: AccountView, e: Escrow) -> bool {
    &&& account.owner@ == program_id
    &&& account.data == e.bytes()
    &&& derived(e.locker@, e.id@, e.bump, program_id) == Some(account.key@)
}

/// An account is accepted as an escrow exactly where it holds one, and then it is that one. An
/// account of another owner or size, or at another address, is refused as a bad account; one whose
/// flags are no booleans as malformed.
pub proof fn law_accepted_accounts_hold_an_escrow(
    program_id: Seq<u8>,
    account: AccountView,
    e: Escrow,
)
    ensures
        holds(program_id, account, e) ==> program::load_error(program_id, account) is None
            && codec::escrow_of(account.data) == e,
        program::load_error(program_id, account) is None ==> holds(
            program_id,
            account,
            codec::escrow_of(account.data),
        ),
        account.owner@ != program_id || account.data.len() != 253 ==> program::load_error(
            program_id,
            account,
        ) == Some(ProgramError::Custom(5)),
        account.data == e.bytes() && account.owner@ == program_id && !holds(program_id, account, e)
            ==> program::load_error(program_id, account) == Some(ProgramError::Custom(5)),
        account.owner@ == program_id && account.data.len() == 253 && account.data[219] > 1
            ==> program::load_error(program_id, account) == Some(
            ProgramError::Malformed(DecodeError::BadBool(account.data[219])),
        ),
        account.owner@ == program_id && account.data.len() == 253 && account.data[219] <= 1
            && account.data[220] > 1 ==> program::load_error(program_id, account) == Some(
            ProgramError::Malformed(DecodeError::BadBool(account.data[220])),
        ),
{
    codec::law_escrow_round_trips(e, e);
    law_derived_address(e.locker@, e.id@, e.bump, program_id);
    let found = codec::escrow_of(account.data);
    law_derived_address(found.locker@, found.id@, found.bump, program_id);
    if program::load_error(program_id, account) is None {
        codec::law_escrow_bytes_are_escrows(account.data);
    }
}

/// A transfer goes through exactly where the two accounts have different addresses, the payer has
/// the amount and the payee's balance can take it. Then the amount moves, and nothing else
/// changes. A refused transfer changes nothing, apart from one that the payee's balance cannot
/// take, which the payer has already been debited for.
pub proof fn law_a_transfer_moves_the_amount(
    a: AccountsView,
    from: int,
    to: int,
    amount: u64,
    i: int,
)
    requires
        0 <= from < a.slots.len(),
        0 <= to < a.slots.len(),
        0 <= i < a.slots.len(),
    ensures
        ({
            let o = program::transfer(a, from, to, amount);
            let same = a.slots[from].key == a.slots[to].key;
            let short = a.slots[from].lamports < amount;
            let full = a.slots[to].lamports + amount > u64::MAX;
            &&& o.accounts.order == a.order && o.accounts.slots.len() == a.slots.len()
            &&& o.result is Ok <==> !same && !short && !full
            &&& same ==> o.result == Err::<(), ProgramError>(ProgramError::Custom(5))
            &&& !same && short ==> o.result == Err::<(), ProgramError>(
                ProgramError::InsufficientFunds,
            )
            &&& !same && !short && full ==> o.result == Err::<(), ProgramError>(
                ProgramError::ArithmeticOverflow,
            )
            &&& same || short ==> o.accounts == a
            &&& !same && !short ==> {
                let after = o.accounts.slots[i];
                &&& after == AccountView { lamports: after.lamports, ..a.slots[i] }
                &&& i == from ==> after.lamports == a.slots[i].lamports - amount
                &&& i == to ==> after.lamports == a.slots[i].lamports + (if full {
                    0int
                } else {
                    amount as int
                })
                &&& i != from && i != to ==> after.lamports == a.slots[i].lamports
            }
        }),
{
}

/// Writing an escrow fills the first bytes of the data with it and leaves the rest, and the size,
/// as they were.
pub proof fn law_writing_fills_the_start(data: Seq<u8>, e: Escrow, i: int)
    requires
        0 <= i < data.len(),
    ensures
        program::overwritten(data, e).len() == data.len(),
        i < 253 ==> program::overwritten(data, e)[i] == e.bytes()[i],
        i >= 253 ==> program::overwritten(data, e)[i] == data[i],
{
}

/// Can this point be committed to? Its bytes decode to a point, its `y` is below the field prime
/// `2^255 - 19`, and it is not the identity, whose bytes are one and then zeroes.
pub open spec fn vetted(point: Seq<u8>) -> bool {
    &&& curve::decoded_point(point) is Some
    &&& bytes::le_nat(point.update(31, point[31] & 0x7f))
        < 0x7fffffffffffffffffffffffffffffffffffffffffffffffffffffffffffffednat
    &&& !(point[0] == 1 && forall|i: int| 1 <= i < 32 ==> point[i] == 0)
}

proof fn lemma_vetted(point: [u8; 32])
    ensures
        program::committable(point@) <==> vetted(point@),
{
    let one = curve::ED25519_IDENTITY@;
    if point@[0] == 1 && forall|i: int| 1 <= i < 32 ==> point@[i] == 0 {
        assert(point@ =~= one);
    } else if point@ == one {
        assert(one[0] == 1);
        assert(forall|i: int| 1 <= i < 32 ==> one[i] == 0);
    }
}

/// What a lock that goes ahead stores is what its instruction says, field by field: the amount,
/// the fee, both timelocks, both points, both recipients and the id, with the account that signed
/// as the locker, and nothing armed, settled or revealed yet. The account to create gets the rent
/// and the amount, at the derived address that the instruction named, whose bump no larger one
/// could take the place of. No balance moves yet.
pub proof fn law_a_lock_pins_its_terms(
    program_id: Seq<u8>,
    a: AccountsView,
    ix: SwapInstruction,
    sysvars: Sysvars,
    larger: u8,
)
    requires
        ix is Lock,
    ensures
        run(program_id, a, ix, sysvars).accounts == a,
        run(program_id, a, ix, sysvars).result matches Ok(progress) ==> (
        progress matches ProgressView::Create(plan) && {
            &&& plan.escrow.amount == ix->amount
            &&& plan.escrow.fee_bps == ix->fee_bps
            &&& plan.escrow.t0 == ix->t0
            &&& plan.escrow.t1 == ix->t1
            &&& plan.escrow.claim_point == ix->claim_point
            &&& plan.escrow.refund_point == ix->refund_point
            &&& plan.escrow.claimer == ix->claimer
            &&& plan.escrow.fee_recipient == ix->fee_recipient
            &&& plan.escrow.id == ix->id
            &&& plan.escrow.locker == a.account(0).key
            &&& !plan.escrow.ready
            &&& !plan.escrow.settled
            &&& forall|i: int| 0 <= i < 32 ==> plan.escrow.revealed@[i] == 0
            &&& sysvars.rent matches Ok(rent) && plan.lamports == rent.escrow + ix->amount
            &&& derived(a.account(0).key@, ix->id@, plan.escrow.bump, program_id) == Some(
                a.account(1).key@,
            )
            &&& plan.escrow.bump >= 1
            &&& larger > plan.escrow.bump ==> derived(
                a.account(0).key@,
                ix->id@,
                larger,
                program_id,
            ) is None
        }),
{
    codec::law_instruction_round_trips(ix, ix);
    let locker = a.account(0).key@;
    let seeds = address::escrow_seeds(locker, ix->id@);
    if larger >= 1 && address::program_address(seeds.push(seq![larger]), program_id) is Some {
        address::law_search_bump_is_the_largest(seeds, program_id, larger);
    }
    address::law_search_bump_derives(seeds, program_id);
    if let Some(bump) = address::search_bump(seeds, program_id) {
        law_derived_address(locker, ix->id@, bump, program_id);
    }
    law_derived_address(locker, ix->id@, larger, program_id);
}

/// The same of the terms as the program holds them: what a lock plans carries each of them.
pub proof fn law_a_plan_carries_the_terms(
    program_id: Seq<u8>,
    a: AccountsView,
    terms: LockTerms,
    sysvars: Sysvars,
)
    requires
        program::lock_error(program_id, a, terms, sysvars) is None,
    ensures
        ({
            let plan = program::lock_plan(program_id, a, terms, sysvars);
            &&& plan.escrow.amount == terms.amount
            &&& plan.escrow.fee_bps == terms.fee_bps
            &&& plan.escrow.t0 == terms.t0
            &&& plan.escrow.t1 == terms.t1
            &&& plan.escrow.claim_point == terms.claim_point
            &&& plan.escrow.refund_point == terms.refund_point
            &&& plan.escrow.claimer == terms.claimer
            &&& plan.escrow.fee_recipient == terms.fee_recipient
            &&& plan.escrow.id == terms.id
            &&& plan.escrow.locker == a.account(0).key
            &&& !plan.escrow.ready && !plan.escrow.settled
            &&& forall|i: int| 0 <= i < 32 ==> plan.escrow.revealed@[i] == 0
            &&& plan.lamports == sysvars.rent->Ok_0.escrow + plan.escrow.amount
        }),
{
}

/// When a lock goes ahead, and what it is refused for. The terms are looked at first: a fee over
/// 300 basis points, windows less than 600 seconds apart or further than 64 bits can tell, points
/// that cannot be committed to. Then the accounts: three of them, the locker signing, the System
/// Program third. Then the clock, which must not have passed `t0`, the address of the escrow, and
/// the rent: what is left of the amount after the highest fee must keep an empty account alive,
/// and amount and rent must fit together.
pub proof fn law_when_a_lock_goes_ahead(
    program_id: Seq<u8>,
    a: AccountsView,
    ix: SwapInstruction,
    sysvars: Sysvars,
)
    requires
        a.wf(),
        ix is Lock,
    ensures
        ({
            let r = run(program_id, a, ix, sysvars).result;
            let window = ix->t1 - ix->t0;
            let fee = ix->fee_bps <= 300;
            let windows = 600 <= window <= 0x7fff_ffff_ffff_ffff;
            let points = vetted(ix->claim_point@) && vetted(ix->refund_point@);
            let three = a.order.len() >= 3;
            let signed = a.account(0).is_signer;
            let system = forall|i: int| 0 <= i < 32 ==> a.account(2).key@[i] == 0;
            let terms = fee && windows && points;
            let named = three && signed && system;
            let ahead = sysvars.now matches Ok(now) && ix->t0 >= now;
            &&& !fee ==> r == Err::<ProgressView, ProgramError>(ProgramError::Custom(6))
            &&& fee && !windows ==> r == Err::<ProgressView, ProgramError>(ProgramError::Custom(7))
            &&& fee && windows && !points ==> r == Err::<ProgressView, ProgramError>(
                ProgramError::Custom(8),
            )
            &&& terms && !three ==> r == Err::<ProgressView, ProgramError>(
                ProgramError::NotEnoughAccountKeys,
            )
            &&& terms && three && !signed ==> r == Err::<ProgressView, ProgramError>(
                ProgramError::Custom(4),
            )
            &&& terms && three && signed && !system ==> r == Err::<ProgressView, ProgramError>(
                ProgramError::Custom(5),
            )
            &&& terms && named ==> (sysvars.now matches Err(code) ==> r == Err::<
                ProgressView,
                ProgramError,
            >(ProgramError::Sysvar(code)))
            &&& terms && named ==> (sysvars.now matches Ok(now) ==> (ix->t0 < now ==> r == Err::<
                ProgressView,
                ProgramError,
            >(ProgramError::Custom(7))))
            &&& terms && named && ahead && (forall|bump: u8|
                bump >= 1 ==> #[trigger] derived(a.account(0).key@, ix->id@, bump, program_id)
                    is None) ==> r == Err::<ProgressView, ProgramError>(ProgramError::NoViableBump)
            &&& r is Ok ==> terms && named && ahead
        }),
{
    codec::law_instruction_round_trips(ix, ix);
    lemma_vetted(ix->claim_point);
    lemma_vetted(ix->refund_point);
    let third = a.account(2).key@;
    if forall|i: int| 0 <= i < 32 ==> third[i] == 0 {
        assert(third =~= program::SYSTEM_PROGRAM_ID@);
    } else if third == program::SYSTEM_PROGRAM_ID@ {
        assert(forall|i: int| 0 <= i < 32 ==> third[i] == 0);
    }
    let locker = a.account(0).key@;
    let seeds = address::escrow_seeds(locker, ix->id@);
    address::law_search_bump_derives(seeds, program_id);
    if let Some(bump) = address::search_bump(seeds, program_id) {
        law_derived_address(locker, ix->id@, bump, program_id);
        assert(derived(locker, ix->id@, bump, program_id) is Some);
    }
}

/// A lock whose terms and accounts pass, before `t0`, is refused as a bad account where the escrow
/// account is not at the derived address of the largest viable bump, and otherwise for what the
/// rent asks: for an amount that is too small, or one that does not fit.
pub proof fn law_when_a_lock_can_be_paid_for(
    program_id: Seq<u8>,
    a: AccountsView,
    ix: SwapInstruction,
    sysvars: Sysvars,
    bump: u8,
)
    requires
        a.wf(),
        ix is Lock,
        ix->fee_bps <= 300,
        600 <= ix->t1 - ix->t0 <= 0x7fff_ffff_ffff_ffff,
        vetted(ix->claim_point@),
        vetted(ix->refund_point@),
        a.order.len() >= 3,
        a.account(0).is_signer,
        forall|i: int| 0 <= i < 32 ==> a.account(2).key@[i] == 0,
        sysvars.now is Ok,
        ix->t0 >= sysvars.now->Ok_0,
        bump >= 1,
        derived(a.account(0).key@, ix->id@, bump, program_id) is Some,
        forall|larger: u8|
            larger > bump ==> #[trigger] derived(a.account(0).key@, ix->id@, larger, program_id)
                is None,
    ensures
        ({
            let r = run(program_id, a, ix, sysvars).result;
            let placed = derived(a.account(0).key@, ix->id@, bump, program_id) == Some(
                a.account(1).key@,
            );
            let worst = ix->amount as int * 300 / 10_000;
            &&& !placed ==> r == Err::<ProgressView, ProgramError>(ProgramError::Custom(5))
            &&& placed ==> (sysvars.rent matches Err(code) ==> r == Err::<
                ProgressView,
                ProgramError,
            >(ProgramError::Sysvar(code)))
            &&& placed ==> (sysvars.rent matches Ok(rent) ==> {
                let small = ix->amount - worst < rent.empty;
                let large = rent.escrow + ix->amount > 0xffff_ffff_ffff_ffff;
                &&& small ==> r == Err::<ProgressView, ProgramError>(ProgramError::Custom(9))
                &&& !small && large ==> r == Err::<ProgressView, ProgramError>(
                    ProgramError::ArithmeticOverflow,
                )
                &&& !small && !large <==> r is Ok
            })
        }),
{
    codec::law_instruction_round_trips(ix, ix);
    lemma_vetted(ix->claim_point);
    lemma_vetted(ix->refund_point);
    let third = a.account(2).key@;
    assert(third =~= program::SYSTEM_PROGRAM_ID@);
    let locker = a.account(0).key@;
    let seeds = address::escrow_seeds(locker, ix->id@);
    law_derived_address(locker, ix->id@, bump, program_id);
    address::law_search_bump_is_the_largest(seeds, program_id, bump);
    address::law_search_bump_derives(seeds, program_id);
    if let Some(found) = address::search_bump(seeds, program_id) {
        law_derived_address(locker, ix->id@, found, program_id);
        assert(derived(locker, ix->id@, found, program_id) is Some);
    }
}

/// A refusal, as the instruction answers it.
pub open spec fn refused(e: ProgramError) -> Result<ProgressView, ProgramError> {
    Err(e)
}

/// Is this the secret behind a point: a number below the group order, whose multiple of the
/// basepoint is the point?
pub open spec fn secret_of(reveal: Seq<u8>, point: Seq<u8>) -> bool {
    &&& bytes::le_nat(reveal)
        < 0x1000000000000000000000000000000014def9dea2f79cd65812631a5cf5d3ednat
    &&& curve::base_point(bytes::le_nat(reveal)) == point
}

/// The fee of a claim: the amount times the basis points over ten thousand, rounded down, in 64
/// bits.
pub open spec fn fee(e: Escrow) -> int {
    (e.amount as int * e.fee_bps as int / 10_000) % 0x1_0000_0000_0000_0000
}

proof fn lemma_fee(e: Escrow)
    ensures
        program::claim_fee(e.amount, e.fee_bps) == fee(e),
        e.fee_bps <= 300 ==> fee(e) == e.amount as int * e.fee_bps as int / 10_000 && 100 * fee(e)
            <= 3 * e.amount,
{
    assert(e.amount as int * e.fee_bps as int >= 0) by (nonlinear_arith)
        requires
            e.amount as int >= 0,
            e.fee_bps as int >= 0,
    ;
    if e.fee_bps <= 300 {
        program::lemma_fee_part(e.amount, e.fee_bps);
    }
}

/// Instructions that touch an escrow need their accounts, and an escrow in the first of them:
/// three accounts for a claim, two for the others. Where that is missing, or the first account is
/// no escrow, nothing changes.
pub proof fn law_instructions_need_their_accounts(
    program_id: Seq<u8>,
    a: AccountsView,
    ix: SwapInstruction,
    sysvars: Sysvars,
)
    requires
        !(ix is Lock),
    ensures
        ({
            let o = run(program_id, a, ix, sysvars);
            let need: int = if ix is Claim {
                3
            } else {
                2
            };
            &&& a.order.len() < need ==> o.result == refused(ProgramError::NotEnoughAccountKeys)
                && o.accounts == a
            &&& a.order.len() >= need ==> (program::load_error(
                program_id,
                a.account(0),
            ) matches Some(e) ==> o.result == refused(e) && o.accounts == a)
        }),
{
    codec::law_instruction_round_trips(ix, ix);
}

/// When a claim goes through, and what it is refused for: only once, only in the window that is
/// open from `t0` or once armed and closes at `t1`, only with the secret behind the claim point,
/// and only to the committed accounts. Then the payouts have to be covered by the escrow and to
/// fit into the two balances.
pub proof fn law_when_a_claim_goes_through(
    program_id: Seq<u8>,
    a: AccountsView,
    reveal: [u8; 32],
    sysvars: Sysvars,
    e: Escrow,
)
    requires
        a.wf(),
        a.order.len() >= 3,
        holds(program_id, a.account(0), e),
    ensures
        ({
            let o = run(program_id, a, SwapInstruction::Claim { reveal }, sysvars);
            let open = sysvars.now matches Ok(now) && (e.ready || e.t0 <= now) && now < e.t1;
            let secret = secret_of(reveal@, e.claim_point@);
            let named = a.account(1).key == e.claimer && a.account(2).key == e.fee_recipient
                && e.claimer != a.account(0).key && e.fee_recipient != a.account(0).key;
            let pay = e.amount - fee(e);
            let passes = !e.settled && open && secret && named && pay >= 0;
            let to_claimer = a.account(0).lamports >= pay && a.account(1).lamports + pay
                <= 0xffff_ffff_ffff_ffff;
            let recipient = a.account(2).lamports + (if a.order[2] == a.order[1] {
                pay
            } else {
                0
            });
            let to_recipient = fee(e) == 0 || (a.account(0).lamports >= e.amount && recipient + fee(
                e,
            ) <= 0xffff_ffff_ffff_ffff);
            &&& e.settled ==> o.result == refused(ProgramError::Custom(1))
            &&& !e.settled ==> (sysvars.now matches Err(code) ==> o.result == refused(
                ProgramError::Sysvar(code),
            ))
            &&& !e.settled && sysvars.now is Ok && !open ==> o.result == refused(
                ProgramError::Custom(2),
            )
            &&& !e.settled && open && !secret ==> o.result == refused(ProgramError::Custom(0))
            &&& !e.settled && open && secret && !named ==> o.result == refused(
                ProgramError::Custom(5),
            )
            &&& !e.settled && open && secret && named && pay < 0 ==> o.result == refused(
                ProgramError::ArithmeticOverflow,
            )
            &&& !passes ==> o.accounts == a
            &&& o.result is Ok <==> passes && to_claimer && to_recipient
            &&& passes && a.account(0).lamports < pay ==> o.result == refused(
                ProgramError::InsufficientFunds,
            ) && o.accounts == a
            &&& passes && a.account(0).lamports >= pay && !to_claimer ==> o.result == refused(
                ProgramError::ArithmeticOverflow,
            )
            &&& passes && to_claimer && !to_recipient ==> o.result == refused(
                if a.account(0).lamports < e.amount {
                    ProgramError::InsufficientFunds
                } else {
                    ProgramError::ArithmeticOverflow
                },
            )
        }),
{
    let ix = SwapInstruction::Claim { reveal };
    codec::law_instruction_round_trips(ix, ix);
    law_accepted_accounts_hold_an_escrow(program_id, a.account(0), e);
    lemma_fee(e);
}

/// What a claim that goes through does: the escrow pays the amount, the fee of it to the fee
/// recipient and the rest to the claimer; the escrow is marked as settled and shows the revealed
/// secret, and is otherwise as before; and nothing else changes. It logs what was revealed.
pub proof fn law_what_a_claim_does(
    program_id: Seq<u8>,
    a: AccountsView,
    reveal: [u8; 32],
    sysvars: Sysvars,
    e: Escrow,
    i: int,
)
    requires
        a.wf(),
        holds(program_id, a.account(0), e),
        run(program_id, a, SwapInstruction::Claim { reveal }, sysvars).result is Ok,
        0 <= i < a.slots.len(),
    ensures
        ({
            let o = run(program_id, a, SwapInstruction::Claim { reveal }, sysvars);
            let before = a.slots[i];
            let after = o.accounts.slots[i];
            let paid_out = if i == a.order[0] {
                e.amount as int
            } else {
                0
            };
            let claimed = if i == a.order[1] {
                e.amount - fee(e)
            } else {
                0
            };
            let charged = if i == a.order[2] {
                fee(e)
            } else {
                0
            };
            &&& o.result == Ok::<ProgressView, ProgramError>(
                ProgressView::Done(Some("claimed; revealed "@ + text::hex_text(reveal@))),
            )
            &&& o.accounts.order == a.order && o.accounts.slots.len() == a.slots.len()
            &&& after.lamports == before.lamports - paid_out + claimed + charged
            &&& after.key == before.key && after.owner == before.owner && after.is_signer
                == before.is_signer
            &&& i != a.order[0] ==> after.data == before.data
            &&& i == a.order[0] ==> holds(
                program_id,
                after,
                Escrow { settled: true, revealed: reveal, ..e },
            )
        }),
{
    let ix = SwapInstruction::Claim { reveal };
    codec::law_instruction_round_trips(ix, ix);
    law_accepted_accounts_hold_an_escrow(program_id, a.account(0), e);
    lemma_fee(e);
}

/// When a refund goes through, and what it is refused for: only once, only before `t0` while the
/// window is not armed, or from `t1` on, only with the secret behind the refund point, and only
/// to the locker. Then the amount has to be covered and to fit into the locker's balance.
pub proof fn law_when_a_refund_goes_through(
    program_id: Seq<u8>,
    a: AccountsView,
    reveal: [u8; 32],
    sysvars: Sysvars,
    e: Escrow,
)
    requires
        a.wf(),
        a.order.len() >= 2,
        holds(program_id, a.account(0), e),
    ensures
        ({
            let o = run(program_id, a, SwapInstruction::Refund { reveal }, sysvars);
            let open = sysvars.now matches Ok(now) && ((now < e.t0 && !e.ready) || now >= e.t1);
            let secret = secret_of(reveal@, e.refund_point@);
            let named = a.account(1).key == e.locker;
            let apart = e.locker != a.account(0).key;
            let passes = !e.settled && open && secret && named;
            let covered = a.account(0).lamports >= e.amount;
            let fits = a.account(1).lamports + e.amount <= 0xffff_ffff_ffff_ffff;
            &&& e.settled ==> o.result == refused(ProgramError::Custom(1))
            &&& !e.settled ==> (sysvars.now matches Err(code) ==> o.result == refused(
                ProgramError::Sysvar(code),
            ))
            &&& !e.settled && sysvars.now is Ok && !open ==> o.result == refused(
                ProgramError::Custom(3),
            )
            &&& !e.settled && open && !secret ==> o.result == refused(ProgramError::Custom(0))
            &&& !e.settled && open && secret && !(named && apart) ==> o.result == refused(
                ProgramError::Custom(5),
            )
            &&& !(passes && apart && covered) ==> o.accounts == a
            &&& passes && apart && !covered ==> o.result == refused(ProgramError::InsufficientFunds)
            &&& passes && apart && covered && !fits ==> o.result == refused(
                ProgramError::ArithmeticOverflow,
            )
            &&& o.result is Ok <==> passes && apart && covered && fits
        }),
{
    let ix = SwapInstruction::Refund { reveal };
    codec::law_instruction_round_trips(ix, ix);
    law_accepted_accounts_hold_an_escrow(program_id, a.account(0), e);
}

/// What a refund that goes through does: the escrow pays the whole amount to the locker, is marked
/// as settled, and shows the revealed secret; nothing else changes. It logs what was revealed.
pub proof fn law_what_a_refund_does(
    program_id: Seq<u8>,
    a: AccountsView,
    reveal: [u8; 32],
    sysvars: Sysvars,
    e: Escrow,
    i: int,
)
    requires
        a.wf(),
        holds(program_id, a.account(0), e),
        run(program_id, a, SwapInstruction::Refund { reveal }, sysvars).result is Ok,
        0 <= i < a.slots.len(),
    ensures
        ({
            let o = run(program_id, a, SwapInstruction::Refund { reveal }, sysvars);
            let before = a.slots[i];
            let after = o.accounts.slots[i];
            &&& o.result == Ok::<ProgressView, ProgramError>(
                ProgressView::Done(Some("refunded; revealed "@ + text::hex_text(reveal@))),
            )
            &&& o.accounts.order == a.order && o.accounts.slots.len() == a.slots.len()
            &&& i == a.order[0] ==> after.lamports == before.lamports - e.amount
            &&& i == a.order[1] ==> after.lamports == before.lamports + e.amount
            &&& i != a.order[0] && i != a.order[1] ==> after.lamports == before.lamports
            &&& after.key == before.key && after.owner == before.owner && after.is_signer
                == before.is_signer
            &&& i != a.order[0] ==> after.data == before.data
            &&& i == a.order[0] ==> holds(
                program_id,
                after,
                Escrow { settled: true, revealed: reveal, ..e },
            )
        }),
{
    let ix = SwapInstruction::Refund { reveal };
    codec::law_instruction_round_trips(ix, ix);
    law_accepted_accounts_hold_an_escrow(program_id, a.account(0), e);
}

/// Arming the claim window: only before the escrow settles, only by the locker's signature, and
/// only before `t1`. It sets the flag in the escrow, and changes and logs nothing else.
pub proof fn law_when_and_how_a_window_is_armed(
    program_id: Seq<u8>,
    a: AccountsView,
    sysvars: Sysvars,
    e: Escrow,
    i: int,
)
    requires
        a.wf(),
        a.order.len() >= 2,
        holds(program_id, a.account(0), e),
        0 <= i < a.slots.len(),
    ensures
        ({
            let o = run(program_id, a, SwapInstruction::SetReady, sysvars);
            let signed = a.account(1).is_signer && a.account(1).key == e.locker;
            let before_t1 = sysvars.now matches Ok(now) && now < e.t1;
            &&& e.settled ==> o.result == refused(ProgramError::Custom(1))
            &&& !e.settled && !signed ==> o.result == refused(ProgramError::Custom(4))
            &&& !e.settled && signed ==> (sysvars.now matches Err(code) ==> o.result == refused(
                ProgramError::Sysvar(code),
            ))
            &&& !e.settled && signed && sysvars.now is Ok && !before_t1 ==> o.result == refused(
                ProgramError::Custom(2),
            )
            &&& o.result is Ok <==> !e.settled && signed && before_t1
            &&& o.result is Err ==> o.accounts == a
            &&& o.result is Ok ==> {
                let after = o.accounts.slots[i];
                &&& o.result == Ok::<ProgressView, ProgramError>(ProgressView::Done(None))
                &&& o.accounts.order == a.order && o.accounts.slots.len() == a.slots.len()
                &&& i != a.order[0] ==> after == a.slots[i]
                &&& i == a.order[0] ==> after.lamports == a.slots[i].lamports && after.is_signer
                    == a.slots[i].is_signer && holds(program_id, after, Escrow { ready: true, ..e })
            }
        }),
{
    let ix = SwapInstruction::SetReady;
    codec::law_instruction_round_trips(ix, ix);
    law_accepted_accounts_hold_an_escrow(program_id, a.account(0), e);
}

/// Closing an escrow: only once it has settled, and only by the locker's signature. Everything the
/// escrow still holds goes to the locker; nothing else changes, and nothing is logged.
pub proof fn law_when_and_how_an_escrow_closes(
    program_id: Seq<u8>,
    a: AccountsView,
    sysvars: Sysvars,
    e: Escrow,
    i: int,
)
    requires
        a.wf(),
        a.order.len() >= 2,
        holds(program_id, a.account(0), e),
        0 <= i < a.slots.len(),
    ensures
        ({
            let o = run(program_id, a, SwapInstruction::Close, sysvars);
            let signed = a.account(1).is_signer && a.account(1).key == e.locker;
            let apart = e.locker != a.account(0).key;
            let fits = a.account(1).lamports + a.account(0).lamports <= 0xffff_ffff_ffff_ffff;
            &&& !e.settled ==> o.result == refused(ProgramError::Custom(10))
            &&& e.settled && !signed ==> o.result == refused(ProgramError::Custom(4))
            &&& e.settled && signed && !apart ==> o.result == refused(ProgramError::Custom(5))
            &&& e.settled && signed && apart && !fits ==> o.result == refused(
                ProgramError::ArithmeticOverflow,
            )
            &&& o.result is Ok <==> e.settled && signed && apart && fits
            &&& !(e.settled && signed && apart) ==> o.accounts == a
            &&& o.result is Ok ==> {
                let after = o.accounts.slots[i];
                &&& o.result == Ok::<ProgressView, ProgramError>(ProgressView::Done(None))
                &&& o.accounts.order == a.order && o.accounts.slots.len() == a.slots.len()
                &&& after == AccountView { lamports: after.lamports, ..a.slots[i] }
                &&& i == a.order[0] ==> after.lamports == 0
                &&& i == a.order[1] ==> after.lamports == a.slots[i].lamports
                    + a.account(0).lamports
                &&& i != a.order[0] && i != a.order[1] ==> after.lamports == a.slots[i].lamports
            }
        }),
{
    let ix = SwapInstruction::Close;
    codec::law_instruction_round_trips(ix, ix);
    law_accepted_accounts_hold_an_escrow(program_id, a.account(0), e);
}

/// Bytes that are no instruction are refused as malformed, and change nothing.
pub proof fn law_malformed_instructions_change_nothing(
    program_id: Seq<u8>,
    a: AccountsView,
    data: Seq<u8>,
    sysvars: Sysvars,
)
    requires
        forall|ix: SwapInstruction| #[trigger] ix.bytes() != data,
    ensures
        program::process_outcome(program_id, a, data, sysvars).result matches Err(
            ProgramError::Malformed(_),
        ),
        program::process_outcome(program_id, a, data, sysvars).accounts == a,
{
    codec::law_instruction_bytes_are_instructions(data);
}

/// A lock logs the amount and the timelocks that it stored.
pub proof fn law_a_lock_logs_what_it_stored(e: Escrow)
    ensures
        program::lock_log(e) == "locked "@ + text::decimal(e.amount as nat) + " lamports, t0="@
            + text::signed_decimal(e.t0 as int) + ", t1="@ + text::signed_decimal(e.t1 as int),
{
}

/// What is locked can be had back, all of it, by exactly one of the two: from the plan of a lock
/// to a claim, the claimer and the fee recipient together get what the instruction said, and with
/// no fee the claimer gets all of it.
pub proof fn law_a_claim_pays_what_was_locked(
    program_id: Seq<u8>,
    locking: AccountsView,
    ix: SwapInstruction,
    at_lock: Sysvars,
    a: AccountsView,
    reveal: [u8; 32],
    at_claim: Sysvars,
)
    requires
        ix is Lock,
        locking.wf(),
        a.wf(),
        ({
            let r = run(program_id, locking, ix, at_lock).result;
            r matches Ok(progress) && (progress matches ProgressView::Create(plan) && exists|
                ready: bool,
            |
                #[trigger] holds(program_id, a.account(0), Escrow { ready, ..plan.escrow }))
        }),
        run(program_id, a, SwapInstruction::Claim { reveal }, at_claim).result is Ok,
        a.order[1] != a.order[2],
    ensures
        ({
            let after = run(program_id, a, SwapInstruction::Claim { reveal }, at_claim).accounts;
            let claimed = after.account(1).lamports - a.account(1).lamports;
            let charged = after.account(2).lamports - a.account(2).lamports;
            &&& a.account(1).key == ix->claimer
            &&& a.account(2).key == ix->fee_recipient
            &&& claimed + charged == ix->amount
            &&& charged == ix->amount as int * ix->fee_bps as int / 10_000
            &&& 100 * charged <= 3 * ix->amount
            &&& ix->fee_bps == 0 ==> claimed == ix->amount
            &&& after.account(0).lamports == a.account(0).lamports - ix->amount
        }),
{
    law_a_lock_pins_its_terms(program_id, locking, ix, at_lock, 0);
    law_when_a_lock_goes_ahead(program_id, locking, ix, at_lock);
    let plan = run(program_id, locking, ix, at_lock).result->Ok_0->Create_0;
    let ready = choose|ready: bool| #[trigger]
        holds(program_id, a.account(0), Escrow { ready, ..plan.escrow });
    let e = Escrow { ready, ..plan.escrow };
    law_instructions_need_their_accounts(
        program_id,
        a,
        SwapInstruction::Claim { reveal },
        at_claim,
    );
    law_when_a_claim_goes_through(program_id, a, reveal, at_claim, e);
    law_what_a_claim_does(program_id, a, reveal, at_claim, e, a.order[0] as int);
    law_what_a_claim_does(program_id, a, reveal, at_claim, e, a.order[1] as int);
    law_what_a_claim_does(program_id, a, reveal, at_claim, e, a.order[2] as int);
    lemma_fee(e);
    assert(ix->amount as int * 0 / 10_000 == 0);
}

/// An instruction that fails writes nothing: every account keeps its key, owner, signature and
/// data, so an escrow that could not be paid out stays open. Only balances can have moved by then,
/// where a payment was taken and could not be credited, and none but those of the accounts named.
pub proof fn law_what_fails_writes_nothing(
    program_id: Seq<u8>,
    a: AccountsView,
    ix: SwapInstruction,
    sysvars: Sysvars,
    i: int,
)
    requires
        a.wf(),
        run(program_id, a, ix, sysvars).result is Err,
        0 <= i < a.slots.len(),
    ensures
        ({
            let o = run(program_id, a, ix, sysvars);
            let after = o.accounts.slots[i];
            &&& o.accounts.order == a.order && o.accounts.slots.len() == a.slots.len()
            &&& after == AccountView { lamports: after.lamports, ..a.slots[i] }
            &&& ix is Lock || ix is SetReady ==> o.accounts == a
            &&& after.lamports != a.slots[i].lamports ==> a.order.contains(i as usize)
        }),
{
    codec::law_instruction_round_trips(ix, ix);
    if a.order.len() >= 1 {
        assert(a.order.contains(a.order[0]));
    }
    if a.order.len() >= 2 {
        assert(a.order.contains(a.order[1]));
    }
    if a.order.len() >= 3 {
        assert(a.order.contains(a.order[2]));
    }
}

/// Where a claim passes and a credit does not fit, the payments before it stand and the ones after
/// it were not made: the claimer's part leaves the escrow first, then the fee.
pub proof fn law_how_far_a_failed_claim_came(
    program_id: Seq<u8>,
    a: AccountsView,
    reveal: [u8; 32],
    sysvars: Sysvars,
    e: Escrow,
    i: int,
)
    requires
        a.wf(),
        a.order.len() >= 3,
        holds(program_id, a.account(0), e),
        0 <= i < a.slots.len(),
        run(program_id, a, SwapInstruction::Claim { reveal }, sysvars).result is Err,
        run(program_id, a, SwapInstruction::Claim { reveal }, sysvars).accounts != a,
    ensures
        ({
            let o = run(program_id, a, SwapInstruction::Claim { reveal }, sysvars);
            let pay = e.amount - fee(e);
            let to_claimer = a.account(1).lamports + pay <= 0xffff_ffff_ffff_ffff;
            let fee_taken = to_claimer && a.account(0).lamports >= e.amount;
            &&& 0 <= pay <= a.account(0).lamports
            &&& i == a.order[0] ==> o.accounts.slots[i].lamports == a.slots[i].lamports - (
            if fee_taken {
                e.amount as int
            } else {
                pay
            })
            &&& i == a.order[1] ==> o.accounts.slots[i].lamports == a.slots[i].lamports + (
            if to_claimer {
                pay
            } else {
                0
            })
            &&& i != a.order[0] && i != a.order[1] ==> o.accounts.slots[i] == a.slots[i]
        }),
{
    let ix = SwapInstruction::Claim { reveal };
    codec::law_instruction_round_trips(ix, ix);
    law_accepted_accounts_hold_an_escrow(program_id, a.account(0), e);
    lemma_fee(e);
}

/// Where a refund or a close fails for want of room on the locker's side, the escrow was debited
/// and nothing else changed.
pub proof fn law_how_far_a_failed_return_came(
    program_id: Seq<u8>,
    a: AccountsView,
    ix: SwapInstruction,
    sysvars: Sysvars,
    e: Escrow,
    i: int,
)
    requires
        a.wf(),
        a.order.len() >= 2,
        holds(program_id, a.account(0), e),
        0 <= i < a.slots.len(),
        ix is Refund || ix is Close,
        run(program_id, a, ix, sysvars).result is Err,
        run(program_id, a, ix, sysvars).accounts != a,
    ensures
        ({
            let o = run(program_id, a, ix, sysvars);
            let taken = if ix is Refund {
                e.amount
            } else {
                a.account(0).lamports
            };
            &&& a.account(1).lamports + taken > 0xffff_ffff_ffff_ffff
            &&& i == a.order[0] ==> o.accounts.slots[i].lamports == a.slots[i].lamports - taken
            &&& i != a.order[0] ==> o.accounts.slots[i] == a.slots[i]
        }),
{
    codec::law_instruction_round_trips(ix, ix);
    law_accepted_accounts_hold_an_escrow(program_id, a.account(0), e);
}

} // verus!
