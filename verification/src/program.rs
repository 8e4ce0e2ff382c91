//! The escrow program: what it does to the accounts of an instruction.
//!
//! Bob locks SOL and commits to two points: Alice's `claim_point` and his own `refund_point`.
//! Whoever settles the escrow hands over the matching scalar, and the program publishes it.
//! Two timelocks order the endgame:
//!
//! - before `t0`, until Bob calls `set_ready`: only Bob can refund;
//! - once ready, or from `t0`, and before `t1`: only Alice can claim;
//! - from `t1`: only Bob can refund.
//!
//! The windows never overlap, and the `settled` flag lets the escrow settle once.
//!
//! The accounts are plain values here. What only the runtime can do (reading the clock and the
//! rent, creating the account, writing the log) is the caller's: sysvars come in as
//! [`Sysvars`], and [`process_instruction`] answers with a [`Progress`].
use solana_curve25519::edwards::PodEdwardsPoint;
use solana_curve25519::scalar::PodScalar;
use vstd::prelude::*;

use crate::address;
use crate::bytes;
use crate::codec;
use crate::codec::{DecodeError, Escrow, SwapInstruction, NO_BYTES};
use crate::curve;
use crate::curve::{ED25519_FIELD_PRIME, ED25519_IDENTITY, ED25519_ORDER};
use crate::text;

verus! {

/// The compressed basepoint `G`, on which Monero builds its keys too.
pub const ED25519_BASEPOINT: [u8; 32] = [
    0x58, 0x66, 0x66, 0x66, 0x66, 0x66, 0x66, 0x66, 0x66, 0x66, 0x66, 0x66, 0x66, 0x66, 0x66, 0x66,
    0x66, 0x66, 0x66, 0x66, 0x66, 0x66, 0x66, 0x66, 0x66, 0x66, 0x66, 0x66, 0x66, 0x66, 0x66, 0x66,
];

/// The System Program is the all-zero address.
pub const SYSTEM_PROGRAM_ID: [u8; 32] = NO_BYTES;

/// Cap on the fee, in basis points: 3 %.
pub const MAX_FEE_BPS: u16 = 300;

/// Least gap between the two timelocks, in seconds: ten minutes absorb validator clock drift.
pub const MIN_WINDOW_SECS: i64 = 600;

/// What the program refuses an instruction for.
#[derive(Debug, Clone, Copy, PartialEq, Eq, Structural)]
pub enum EscrowError {
    BadSecret,
    AlreadySettled,
    NotInClaimWindow,
    NotInRefundWindow,
    Unauthorized,
    BadAccount,
    FeeTooHigh,
    BadWindows,
    BadPoint,
    AmountTooSmall,
    NotSettled,
}

impl EscrowError {
    /// The number under which clients see the error.
    pub open spec fn number(self) -> u32 {
        match self {
            EscrowError::BadSecret => 0,
            EscrowError::AlreadySettled => 1,
            EscrowError::NotInClaimWindow => 2,
            EscrowError::NotInRefundWindow => 3,
            EscrowError::Unauthorized => 4,
            EscrowError::BadAccount => 5,
            EscrowError::FeeTooHigh => 6,
            EscrowError::BadWindows => 7,
            EscrowError::BadPoint => 8,
            EscrowError::AmountTooSmall => 9,
            EscrowError::NotSettled => 10,
        }
    }

    /// The number under which clients see the error.
    pub fn code(&self) -> (n: u32)
        ensures
            n == self.number(),
    {
        match *self {
            EscrowError::BadSecret => 0,
            EscrowError::AlreadySettled => 1,
            EscrowError::NotInClaimWindow => 2,
            EscrowError::NotInRefundWindow => 3,
            EscrowError::Unauthorized => 4,
            EscrowError::BadAccount => 5,
            EscrowError::FeeTooHigh => 6,
            EscrowError::BadWindows => 7,
            EscrowError::BadPoint => 8,
            EscrowError::AmountTooSmall => 9,
            EscrowError::NotSettled => 10,
        }
    }
}

/// How an instruction fails. The variants are the runtime's error kinds, apart from
/// `NoViableBump`, on which the runtime's own address search aborts.
#[derive(Debug, Clone, Copy, PartialEq, Eq, Structural)]
pub enum ProgramError {
    /// An [`EscrowError`], by its number.
    Custom(u32),
    NotEnoughAccountKeys,
    ArithmeticOverflow,
    InsufficientFunds,
    /// The instruction or the account did not decode.
    Malformed(DecodeError),
    /// The account is too small for an escrow.
    WriteZero,
    /// Reading a sysvar failed, with this runtime error code.
    Sysvar(u64),
    /// No bump derives an address from the seeds.
    NoViableBump,
}

impl From<EscrowError> for ProgramError {
    fn from(e: EscrowError) -> (r: ProgramError) {
        ProgramError::Custom(e.code())
    }
}

impl vstd::std_specs::convert::FromSpecImpl<EscrowError> for ProgramError {
    open spec fn obeys_from_spec() -> bool {
        true
    }

    open spec fn from_spec(e: EscrowError) -> ProgramError {
        ProgramError::Custom(e.number())
    }
}

/// A refusal of the program, as the runtime sees it.
pub open spec fn refusal(e: EscrowError) -> ProgramError {
    ProgramError::Custom(e.number())
}

/// An account that an instruction names.
#[derive(Debug)]
pub struct Account {
    pub key: [u8; 32],
    pub owner: [u8; 32],
    pub is_signer: bool,
    pub lamports: u64,
    pub data: Vec<u8>,
}

/// The contents of an [`Account`].
pub struct AccountView {
    pub key: [u8; 32],
    pub owner: [u8; 32],
    pub is_signer: bool,
    pub lamports: u64,
    pub data: Seq<u8>,
}

impl View for Account {
    type V = AccountView;

    open spec fn view(&self) -> AccountView {
        AccountView {
            key: self.key,
            owner: self.owner,
            is_signer: self.is_signer,
            lamports: self.lamports,
            data: self.data@,
        }
    }
}

/// The accounts of an instruction. An instruction may name one account twice, so `order` lists
/// the accounts in the instruction's order, by their index in `slots`.
#[derive(Debug)]
pub struct Accounts {
    pub slots: Vec<Account>,
    pub order: Vec<usize>,
}

/// The contents of [`Accounts`].
pub struct AccountsView {
    pub slots: Seq<AccountView>,
    pub order: Seq<usize>,
}

impl View for Accounts {
    type V = AccountsView;

    open spec fn view(&self) -> AccountsView {
        AccountsView {
            slots: self.slots@.map_values(|account: Account| account@),
            order: self.order@,
        }
    }
}

impl AccountsView {
    /// Does every entry of the instruction's list name a slot?
    pub open spec fn wf(self) -> bool {
        forall|n: int| 0 <= n < self.order.len() ==> #[trigger] self.order[n] < self.slots.len()
    }

    /// The account that the instruction names at a position.
    pub open spec fn account(self, n: int) -> AccountView {
        self.slots[self.order[n] as int]
    }

    /// The accounts with another balance in one slot.
    pub open spec fn with_lamports(self, slot: int, lamports: int) -> AccountsView {
        AccountsView {
            slots: self.slots.update(
                slot,
                AccountView { lamports: lamports as u64, ..self.slots[slot] },
            ),
            ..self
        }
    }

    /// The accounts with other data in one slot.
    pub open spec fn with_data(self, slot: int, data: Seq<u8>) -> AccountsView {
        AccountsView {
            slots: self.slots.update(slot, AccountView { data, ..self.slots[slot] }),
            ..self
        }
    }
}

impl Accounts {
    /// Does every entry of the instruction's list name a slot?
    pub fn well_formed(&self) -> (r: bool)
        ensures
            r == self@.wf(),
    {
        let mut i: usize = 0;
        while i < self.order.len()
            invariant
                i <= self.order@.len(),
                forall|n: int| 0 <= n < i ==> #[trigger] self.order@[n] < self.slots@.len(),
            decreases self.order@.len() - i,
        {
            if self.order[i] >= self.slots.len() {
                assert(!(self@.order[i as int] < self@.slots.len()));
                return false;
            }
            i += 1;
        }
        true
    }
}

/// What an instruction answers and what it leaves behind.
pub struct Outcome<T> {
    pub result: Result<T, ProgramError>,
    pub accounts: AccountsView,
}

/// Balances that keep an account rent-exempt, as the rent sysvar computes them.
#[derive(Debug, Clone, Copy)]
pub struct RentFloors {
    /// For an account without data.
    pub empty: u64,
    /// For an account of [`Escrow::LEN`] bytes.
    pub escrow: u64,
}

/// What the program reads from the runtime. Where reading fails, the runtime's code for the
/// failure is reported, as [`ProgramError::Sysvar`], only by an instruction that gets as far as
/// needing the value.
#[derive(Debug, Clone, Copy)]
pub struct Sysvars {
    /// The clock's Unix timestamp.
    pub now: Result<i64, u64>,
    pub rent: Result<RentFloors, u64>,
}

/// Is `reveal` a canonical scalar, strictly below the group order?
///
/// The curve syscall reduces its scalar instead of rejecting one that is out of range, so that
/// without this test `s` and `s + L` would both settle, and a non-canonical one is unusable as
/// a Monero key half.
pub fn is_canonical_scalar(reveal: &[u8; 32]) -> (r: bool)
    ensures
        r == curve::canonical_scalar(reveal@),
{
    proof {
        curve::lemma_order_bytes();
    }
    bytes::lt_le(reveal, &ED25519_ORDER)
}

/// Is the `y`-coordinate of `point` below the field prime? The top bit, which is the sign of
/// `x`, does not count.
pub fn is_canonical_point(point: &[u8; 32]) -> (r: bool)
    ensures
        r == curve::canonical_point(point@),
{
    proof {
        curve::lemma_prime_bytes();
    }
    let mut y: [u8; 32] = *point;
    y[31] = y[31] & 0x7f;
    assert(y@ =~= point@.update(31, point@[31] & 0x7f));
    bytes::lt_le(&y, &ED25519_FIELD_PRIME)
}

/// `validate_edwards` of `solana-curve25519`: do the bytes decompress to a curve point? Off
/// chain it asks `CompressedEdwardsY::decompress` of `curve25519-dalek`.
#[verifier::external_body]
fn validate_edwards(point: &[u8; 32]) -> (r: bool)
    ensures
        r == (curve::decoded_point(point@) is Some),
{
    solana_curve25519::edwards::validate_edwards(&PodEdwardsPoint(*point))
}

/// `multiply_edwards` of `solana-curve25519`, on a canonical scalar and the basepoint: the
/// compressed product, which is what [`curve::Point::mul_base`] gives.
#[verifier::external_body]
fn multiply_edwards(scalar: &[u8; 32], point: &[u8; 32]) -> (r: Option<[u8; 32]>)
    requires
        curve::canonical_scalar(scalar@),
        point@ == ED25519_BASEPOINT@,
    ensures
        r is Some,
        r.unwrap()@ == curve::base_point(bytes::le_nat(scalar@)),
{
    let product = solana_curve25519::edwards::multiply_edwards(
        &PodScalar(*scalar),
        &PodEdwardsPoint(*point),
    )?;
    Some(product.0)
}

/// Does `reveal·G` land on the committed point? Non-canonical scalars must have been turned
/// away before.
pub fn reveal_matches(reveal: &[u8; 32], point: &[u8; 32]) -> (r: bool)
    requires
        curve::canonical_scalar(reveal@),
    ensures
        r == (curve::base_point(bytes::le_nat(reveal@)) == point@),
{
    match multiply_edwards(reveal, &ED25519_BASEPOINT) {
        Some(product) => bytes::same32(&product, point),
        None => false,
    }
}

/// Is `reveal` the canonical scalar behind this point?
pub open spec fn settles(reveal: Seq<u8>, point: Seq<u8>) -> bool {
    curve::canonical_scalar(reveal) && curve::base_point(bytes::le_nat(reveal)) == point
}

/// May this point be committed to: a curve point, canonically encoded, not the identity?
pub open spec fn committable(point: Seq<u8>) -> bool {
    &&& curve::decoded_point(point) is Some
    &&& curve::canonical_point(point)
    &&& point != ED25519_IDENTITY@
}

/// The transfer of lamports between two slots. The debit comes first, and stands when the
/// credit overflows.
pub open spec fn transfer(a: AccountsView, from: int, to: int, amount: u64) -> Outcome<()> {
    if a.slots[from].key == a.slots[to].key {
        Outcome { result: Err(refusal(EscrowError::BadAccount)), accounts: a }
    } else if a.slots[from].lamports < amount {
        Outcome { result: Err(ProgramError::InsufficientFunds), accounts: a }
    } else {
        let debited = a.with_lamports(from, a.slots[from].lamports - amount);
        if a.slots[to].lamports + amount > u64::MAX {
            Outcome { result: Err(ProgramError::ArithmeticOverflow), accounts: debited }
        } else {
            Outcome {
                result: Ok(()),
                accounts: debited.with_lamports(to, a.slots[to].lamports + amount),
            }
        }
    }
}

/// Move lamports between two accounts. The escrow is owned by the program, so its balance can
/// be debited directly.
pub fn move_lamports(accounts: &mut Accounts, from: usize, to: usize, amount: u64) -> (r: Result<
    (),
    ProgramError,
>)
    requires
        from < old(accounts)@.slots.len(),
        to < old(accounts)@.slots.len(),
    ensures
        ({
            let t = transfer(old(accounts)@, from as int, to as int, amount);
            r == t.result && final(accounts)@ == t.accounts
        }),
{
    if bytes::same32(&accounts.slots[from].key, &accounts.slots[to].key) {
        return Err(ProgramError::from(EscrowError::BadAccount));
    }
    let ghost start = accounts@;
    let held: u64 = accounts.slots[from].lamports;
    if held < amount {
        return Err(ProgramError::InsufficientFunds);
    }
    accounts.slots[from].lamports = held - amount;
    assert(accounts@.slots =~= start.with_lamports(from as int, held - amount).slots);
    let ghost debited = accounts@;
    match accounts.slots[to].lamports.checked_add(amount) {
        Some(credited) => {
            accounts.slots[to].lamports = credited;
            assert(accounts@.slots =~= debited.with_lamports(to as int, credited as int).slots);
            Ok(())
        },
        None => Err(ProgramError::ArithmeticOverflow),
    }
}

/// Why an account is not an escrow of this program, `None` where it is. Its data names the
/// locker, the swap id and the bump that its own address must derive from.
pub open spec fn load_error(program_id: Seq<u8>, account: AccountView) -> Option<ProgramError> {
    if account.owner@ != program_id || account.data.len() != Escrow::LEN {
        Some(refusal(EscrowError::BadAccount))
    } else if codec::escrow_error(account.data) is Some {
        Some(ProgramError::Malformed(codec::escrow_error(account.data).unwrap()))
    } else {
        let e = codec::escrow_of(account.data);
        if address::escrow_address_at(e.locker@, e.id@, e.bump, program_id) == Some(account.key@) {
            None
        } else {
            Some(refusal(EscrowError::BadAccount))
        }
    }
}

/// Load and authenticate an escrow: it must be owned by the program, have the right size, and
/// sit at the address derived from its own locker, id and bump.
pub fn load(program_id: &[u8; 32], account: &Account) -> (r: Result<Escrow, ProgramError>)
    ensures
        match r {
            Ok(escrow) => load_error(program_id@, account@) is None && escrow.bytes()
                == account.data@ && escrow == codec::escrow_of(account.data@),
            Err(e) => load_error(program_id@, account@) == Some(e),
        },
{
    if !bytes::same32(&account.owner, program_id) {
        return Err(ProgramError::from(EscrowError::BadAccount));
    }
    if account.data.len() != Escrow::LEN {
        return Err(ProgramError::from(EscrowError::BadAccount));
    }
    let escrow = match Escrow::try_from_slice(account.data.as_slice()) {
        Ok(escrow) => escrow,
        Err(e) => return Err(ProgramError::Malformed(e)),
    };
    match address::escrow_address(&escrow.locker, &escrow.id, escrow.bump, program_id) {
        Some(expected) => {
            if bytes::same32(&expected, &account.key) {
                Ok(escrow)
            } else {
                Err(ProgramError::from(EscrowError::BadAccount))
            }
        },
        None => Err(ProgramError::from(EscrowError::BadAccount)),
    }
}

/// Account data after an escrow was written over its start, as far as it fits.
pub open spec fn overwritten(data: Seq<u8>, escrow: Escrow) -> Seq<u8> {
    Seq::new(
        data.len(),
        |i: int|
            if i < Escrow::LEN {
                escrow.bytes()[i]
            } else {
                data[i]
            },
    )
}

/// Write an escrow over the start of an account. A larger account keeps the rest of its data;
/// a smaller one is filled and reported.
pub fn store(escrow: &Escrow, account: &mut Account) -> (r: Result<(), ProgramError>)
    ensures
        final(account)@ == (AccountView {
            data: overwritten(old(account).data@, *escrow),
            ..old(account)@
        }),
        r == (if old(account).data@.len() >= Escrow::LEN {
            Ok(())
        } else {
            Err(ProgramError::WriteZero)
        }),
{
    let written = escrow.to_bytes();
    let ghost data = account.data@;
    let mut i: usize = 0;
    while i < account.data.len() && i < Escrow::LEN
        invariant
            i <= Escrow::LEN,
            i <= data.len(),
            written@ == escrow.bytes(),
            written@.len() == Escrow::LEN,
            account@ == (AccountView { data: account.data@, ..old(account)@ }),
            account.data@.len() == data.len(),
            forall|k: int| 0 <= k < i ==> account.data@[k] == written@[k],
            forall|k: int| i <= k < data.len() ==> account.data@[k] == data[k],
        decreases Escrow::LEN - i,
    {
        account.data.set(i, written[i]);
        i += 1;
    }
    assert(account.data@ =~= overwritten(data, *escrow));
    if i < Escrow::LEN {
        Err(ProgramError::WriteZero)
    } else {
        Ok(())
    }
}

/// The terms that a lock pins.
#[derive(Debug, Clone, Copy)]
pub struct LockTerms {
    pub id: [u8; 32],
    pub claimer: [u8; 32],
    pub fee_recipient: [u8; 32],
    pub claim_point: [u8; 32],
    pub refund_point: [u8; 32],
    pub amount: u64,
    pub fee_bps: u16,
    pub t0: i64,
    pub t1: i64,
}

/// An escrow account that the System Program has to create, at the address derived from the
/// escrow's locker, id and bump: paid for by the locker, [`Escrow::LEN`] bytes large and owned
/// by the program.
#[derive(Debug, Clone, Copy)]
pub struct CreateEscrow {
    /// Rent and locked amount together.
    pub lamports: u64,
    /// What is stored once the account exists.
    pub escrow: Escrow,
}

/// How far an instruction has come.
#[derive(Debug)]
pub enum Progress {
    /// The account has to be created, then [`complete_lock`] finishes the instruction.
    Create(CreateEscrow),
    /// The instruction is done, and writes this line to the log.
    Done(Option<String>),
}

/// The contents of a [`Progress`].
pub enum ProgressView {
    Create(CreateEscrow),
    Done(Option<Seq<char>>),
}

impl View for Progress {
    type V = ProgressView;

    open spec fn view(&self) -> ProgressView {
        match *self {
            Progress::Create(plan) => ProgressView::Create(plan),
            Progress::Done(Some(line)) => ProgressView::Done(Some(line@)),
            Progress::Done(None) => ProgressView::Done(None),
        }
    }
}

/// The index, in the slots, of the account that the instruction names at a position.
pub fn next_account_info(accounts: &Accounts, n: usize) -> (r: Result<usize, ProgramError>)
    ensures
        match r {
            Ok(slot) => n < accounts@.order.len() && slot == accounts@.order[n as int],
            Err(e) => n >= accounts@.order.len() && e == ProgramError::NotEnoughAccountKeys,
        },
{
    if n < accounts.order.len() {
        Ok(accounts.order[n])
    } else {
        Err(ProgramError::NotEnoughAccountKeys)
    }
}

/// The part of an amount that a fee in basis points takes, rounded down.
pub open spec fn fee_part(amount: u64, bps: u16) -> nat {
    (amount as nat * bps as nat) / 10_000
}

/// The fee of a claim, in a 64-bit number. No fee up to [`MAX_FEE_BPS`] wraps.
pub open spec fn claim_fee(amount: u64, bps: u16) -> nat {
    fee_part(amount, bps) % 0x1_0000_0000_0000_0000
}

fn fee_of(amount: u64, bps: u16) -> (fee: u64)
    ensures
        fee == claim_fee(amount, bps),
{
    assert(amount as int * bps as int <= u64::MAX as int * u16::MAX as int) by (nonlinear_arith)
        requires
            0 <= amount as int <= u64::MAX as int,
            0 <= bps as int <= u16::MAX as int,
    ;
    let wide: u128 = amount as u128 * bps as u128 / 10_000u128;
    assert((wide as u64) as u128 == wide % 0x1_0000_0000_0000_0000u128) by (bit_vector);
    #[verifier::truncate]
    let fee: u64 = wide as u64;
    fee
}

/// Why a lock is refused, `None` where it goes ahead.
pub open spec fn lock_error(
    program_id: Seq<u8>,
    a: AccountsView,
    terms: LockTerms,
    sysvars: Sysvars,
) -> Option<ProgramError> {
    if terms.fee_bps > MAX_FEE_BPS {
        Some(refusal(EscrowError::FeeTooHigh))
    } else if !(MIN_WINDOW_SECS <= terms.t1 - terms.t0 <= i64::MAX) {
        Some(refusal(EscrowError::BadWindows))
    } else if !committable(terms.claim_point@) || !committable(terms.refund_point@) {
        Some(refusal(EscrowError::BadPoint))
    } else if a.order.len() < 3 {
        Some(ProgramError::NotEnoughAccountKeys)
    } else if !a.account(0).is_signer {
        Some(refusal(EscrowError::Unauthorized))
    } else if a.account(2).key@ != SYSTEM_PROGRAM_ID@ {
        Some(refusal(EscrowError::BadAccount))
    } else if sysvars.now is Err {
        Some(ProgramError::Sysvar(sysvars.now->Err_0))
    } else if terms.t0 < sysvars.now->Ok_0 {
        Some(refusal(EscrowError::BadWindows))
    } else {
        let locker = a.account(0).key@;
        match address::search_bump(address::escrow_seeds(locker, terms.id@), program_id) {
            None => Some(ProgramError::NoViableBump),
            Some(bump) => if address::escrow_address_at(locker, terms.id@, bump, program_id)
                != Some(a.account(1).key@) {
                Some(refusal(EscrowError::BadAccount))
            } else if sysvars.rent is Err {
                Some(ProgramError::Sysvar(sysvars.rent->Err_0))
            } else if terms.amount - fee_part(terms.amount, MAX_FEE_BPS)
                < sysvars.rent->Ok_0.empty {
                Some(refusal(EscrowError::AmountTooSmall))
            } else if sysvars.rent->Ok_0.escrow + terms.amount > u64::MAX {
                Some(ProgramError::ArithmeticOverflow)
            } else {
                None
            },
        }
    }
}

/// The escrow that a lock stores.
pub open spec fn fresh_escrow(locker: [u8; 32], terms: LockTerms, bump: u8) -> Escrow {
    Escrow {
        locker,
        claimer: terms.claimer,
        fee_recipient: terms.fee_recipient,
        claim_point: terms.claim_point,
        refund_point: terms.refund_point,
        amount: terms.amount,
        fee_bps: terms.fee_bps,
        t0: terms.t0,
        t1: terms.t1,
        id: terms.id,
        bump,
        ready: false,
        settled: false,
        revealed: NO_BYTES,
    }
}

/// What a lock that goes ahead has the System Program create.
pub open spec fn lock_plan(
    program_id: Seq<u8>,
    a: AccountsView,
    terms: LockTerms,
    sysvars: Sysvars,
) -> CreateEscrow {
    let locker = a.account(0).key;
    let bump = address::search_bump(
        address::escrow_seeds(locker@, terms.id@),
        program_id,
    ).unwrap();
    CreateEscrow {
        lamports: (sysvars.rent->Ok_0.escrow + terms.amount) as u64,
        escrow: fresh_escrow(locker, terms, bump),
    }
}

/// Bob locks SOL: vet the terms and the accounts, and plan the escrow account.
///
/// The committed points must be curve points in canonical encoding and not the identity.
/// Membership in the prime-order subgroup is not checked: a point outside it can only brick its
/// own swap, because no scalar reveals it. The claimer's payout must clear the rent floor even
/// under the highest fee, so that it can land in a fresh account.
pub fn lock(
    program_id: &[u8; 32],
    accounts: &Accounts,
    terms: &LockTerms,
    sysvars: &Sysvars,
) -> (r: Result<CreateEscrow, ProgramError>)
    requires
        accounts@.wf(),
    ensures
        match r {
            Ok(plan) => lock_error(program_id@, accounts@, *terms, *sysvars) is None && plan
                == lock_plan(program_id@, accounts@, *terms, *sysvars),
            Err(e) => lock_error(program_id@, accounts@, *terms, *sysvars) == Some(e),
        },
{
    if terms.fee_bps > MAX_FEE_BPS {
        return Err(ProgramError::from(EscrowError::FeeTooHigh));
    }
    let window: i64 = match terms.t1.checked_sub(terms.t0) {
        Some(window) => window,
        None => 0,
    };
    if terms.t0 >= terms.t1 || window < MIN_WINDOW_SECS {
        return Err(ProgramError::from(EscrowError::BadWindows));
    }
    if !validate_edwards(&terms.claim_point) || !validate_edwards(&terms.refund_point)
        || !is_canonical_point(&terms.claim_point) || !is_canonical_point(&terms.refund_point)
        || bytes::same32(&terms.claim_point, &ED25519_IDENTITY) || bytes::same32(
        &terms.refund_point,
        &ED25519_IDENTITY,
    ) {
        return Err(ProgramError::from(EscrowError::BadPoint));
    }
    let locker: usize = match next_account_info(accounts, 0) {
        Ok(slot) => slot,
        Err(e) => return Err(e),
    };
    let escrow_slot: usize = match next_account_info(accounts, 1) {
        Ok(slot) => slot,
        Err(e) => return Err(e),
    };
    let system: usize = match next_account_info(accounts, 2) {
        Ok(slot) => slot,
        Err(e) => return Err(e),
    };
    if !accounts.slots[locker].is_signer {
        return Err(ProgramError::from(EscrowError::Unauthorized));
    }
    if !bytes::same32(&accounts.slots[system].key, &SYSTEM_PROGRAM_ID) {
        return Err(ProgramError::from(EscrowError::BadAccount));
    }
    let now: i64 = match sysvars.now {
        Ok(now) => now,
        Err(code) => return Err(ProgramError::Sysvar(code)),
    };
    if terms.t0 < now {
        return Err(ProgramError::from(EscrowError::BadWindows));
    }
    let locker_key: [u8; 32] = accounts.slots[locker].key;
    let (expected, bump) = match address::find_escrow_address(&locker_key, &terms.id, program_id) {
        Some(found) => found,
        None => return Err(ProgramError::NoViableBump),
    };
    if !bytes::same32(&expected, &accounts.slots[escrow_slot].key) {
        return Err(ProgramError::from(EscrowError::BadAccount));
    }
    let rent = match sysvars.rent {
        Ok(rent) => rent,
        Err(code) => return Err(ProgramError::Sysvar(code)),
    };
    proof {
        lemma_fee_part(terms.amount, MAX_FEE_BPS);
    }
    let worst_case_fee: u64 = fee_of(terms.amount, MAX_FEE_BPS);
    let min_payout: u64 = match terms.amount.checked_sub(worst_case_fee) {
        Some(payout) => payout,
        None => return Err(ProgramError::ArithmeticOverflow),
    };
    if min_payout < rent.empty {
        return Err(ProgramError::from(EscrowError::AmountTooSmall));
    }
    let lamports: u64 = match rent.escrow.checked_add(terms.amount) {
        Some(lamports) => lamports,
        None => return Err(ProgramError::ArithmeticOverflow),
    };
    let escrow = Escrow {
        locker: locker_key,
        claimer: terms.claimer,
        fee_recipient: terms.fee_recipient,
        claim_point: terms.claim_point,
        refund_point: terms.refund_point,
        amount: terms.amount,
        fee_bps: terms.fee_bps,
        t0: terms.t0,
        t1: terms.t1,
        id: terms.id,
        bump,
        ready: false,
        settled: false,
        revealed: NO_BYTES,
    };
    Ok(CreateEscrow { lamports, escrow })
}

/// Up to the cap, a fee takes at most three per cent, and so never more than the amount.
pub proof fn lemma_fee_part(amount: u64, bps: u16)
    requires
        bps <= MAX_FEE_BPS,
    ensures
        100 * fee_part(amount, bps) <= 3 * amount,
        claim_fee(amount, bps) == fee_part(amount, bps),
{
    let product = amount as int * bps as int;
    assert(0 <= product <= amount as int * 300) by (nonlinear_arith)
        requires
            product == amount as int * bps as int,
            0 <= bps as int <= 300,
            0 <= amount as int,
    ;
    assert(fee_part(amount, bps) == product / 10_000);
}

/// The log line of a lock.
pub open spec fn lock_log(escrow: Escrow) -> Seq<char> {
    "locked "@ + text::decimal(escrow.amount as nat) + " lamports, t0="@ + text::signed_decimal(
        escrow.t0 as int,
    ) + ", t1="@ + text::signed_decimal(escrow.t1 as int)
}

/// Finish a lock, once the planned account exists: store the escrow in it. Answers with the log
/// line.
pub fn complete_lock(plan: &CreateEscrow, account: &mut Account) -> (r: Result<
    String,
    ProgramError,
>)
    ensures
        final(account)@ == (AccountView {
            data: overwritten(old(account).data@, plan.escrow),
            ..old(account)@
        }),
        r is Ok <==> old(account).data@.len() >= Escrow::LEN,
        match r {
            Ok(line) => line@ == lock_log(plan.escrow),
            Err(e) => e == ProgramError::WriteZero,
        },
{
    match store(&plan.escrow, account) {
        Ok(()) => {
            let mut line = "locked ".to_owned();
            text::push_decimal(&mut line, plan.escrow.amount);
            line.append(" lamports, t0=");
            text::push_signed(&mut line, plan.escrow.t0);
            line.append(", t1=");
            text::push_signed(&mut line, plan.escrow.t1);
            Ok(line)
        },
        Err(e) => Err(e),
    }
}

/// Why `set_ready` is refused.
pub open spec fn set_ready_error(
    program_id: Seq<u8>,
    a: AccountsView,
    sysvars: Sysvars,
) -> Option<ProgramError> {
    if a.order.len() < 2 {
        Some(ProgramError::NotEnoughAccountKeys)
    } else if load_error(program_id, a.account(0)) is Some {
        load_error(program_id, a.account(0))
    } else {
        let e = codec::escrow_of(a.account(0).data);
        if e.settled {
            Some(refusal(EscrowError::AlreadySettled))
        } else if !a.account(1).is_signer || a.account(1).key != e.locker {
            Some(refusal(EscrowError::Unauthorized))
        } else if sysvars.now is Err {
            Some(ProgramError::Sysvar(sysvars.now->Err_0))
        } else if sysvars.now->Ok_0 >= e.t1 {
            Some(refusal(EscrowError::NotInClaimWindow))
        } else {
            None
        }
    }
}

/// What `set_ready` answers and leaves behind.
pub open spec fn set_ready_outcome(
    program_id: Seq<u8>,
    a: AccountsView,
    sysvars: Sysvars,
) -> Outcome<()> {
    match set_ready_error(program_id, a, sysvars) {
        Some(e) => Outcome { result: Err(e), accounts: a },
        None => {
            let e = codec::escrow_of(a.account(0).data);
            Outcome {
                result: Ok(()),
                accounts: a.with_data(a.order[0] as int, (Escrow { ready: true, ..e }).bytes()),
            }
        },
    }
}

/// Store an escrow in the slot it was loaded from.
fn put_back(escrow: &Escrow, accounts: &mut Accounts, slot: usize) -> (r: Result<(), ProgramError>)
    requires
        slot < old(accounts)@.slots.len(),
        old(accounts)@.slots[slot as int].data.len() == Escrow::LEN,
    ensures
        r == Ok::<(), ProgramError>(()),
        final(accounts)@ == old(accounts)@.with_data(slot as int, escrow.bytes()),
{
    let ghost start = accounts@;
    let r = store(escrow, &mut accounts.slots[slot]);
    proof {
        codec::law_escrow_round_trips(*escrow, *escrow);
        assert(overwritten(start.slots[slot as int].data, *escrow) =~= escrow.bytes());
        assert(accounts@.slots =~= start.with_data(slot as int, escrow.bytes()).slots);
    }
    r
}

/// Bob has seen Alice's XMR and opens her claim window early.
pub fn set_ready(program_id: &[u8; 32], accounts: &mut Accounts, sysvars: &Sysvars) -> (r: Result<
    (),
    ProgramError,
>)
    requires
        old(accounts)@.wf(),
    ensures
        ({
            let o = set_ready_outcome(program_id@, old(accounts)@, *sysvars);
            r == o.result && final(accounts)@ == o.accounts
        }),
{
    let slot: usize = match next_account_info(accounts, 0) {
        Ok(slot) => slot,
        Err(e) => return Err(e),
    };
    let locker: usize = match next_account_info(accounts, 1) {
        Ok(slot) => slot,
        Err(e) => return Err(e),
    };
    let mut escrow = match load(program_id, &accounts.slots[slot]) {
        Ok(escrow) => escrow,
        Err(e) => return Err(e),
    };
    if escrow.settled {
        return Err(ProgramError::from(EscrowError::AlreadySettled));
    }
    if !accounts.slots[locker].is_signer || !bytes::same32(
        &accounts.slots[locker].key,
        &escrow.locker,
    ) {
        return Err(ProgramError::from(EscrowError::Unauthorized));
    }
    let now: i64 = match sysvars.now {
        Ok(now) => now,
        Err(code) => return Err(ProgramError::Sysvar(code)),
    };
    if now >= escrow.t1 {
        return Err(ProgramError::from(EscrowError::NotInClaimWindow));
    }
    escrow.ready = true;
    put_back(&escrow, accounts, slot)
}

/// Is an unsettled escrow open to Alice: ready or from `t0`, and before `t1`?
pub open spec fn claim_window(e: Escrow, now: i64) -> bool {
    (e.ready || now >= e.t0) && now < e.t1
}

/// Is an unsettled escrow open to Bob: before `t0` while not ready, or from `t1`?
pub open spec fn refund_window(e: Escrow, now: i64) -> bool {
    (now < e.t0 && !e.ready) || now >= e.t1
}

/// The escrow once it has settled by this scalar.
pub open spec fn settled_by(e: Escrow, reveal: [u8; 32]) -> Escrow {
    Escrow { revealed: reveal, settled: true, ..e }
}

/// Why a claim is refused before any lamports move.
pub open spec fn claim_error(
    program_id: Seq<u8>,
    a: AccountsView,
    reveal: [u8; 32],
    sysvars: Sysvars,
) -> Option<ProgramError> {
    if a.order.len() < 3 {
        Some(ProgramError::NotEnoughAccountKeys)
    } else if load_error(program_id, a.account(0)) is Some {
        load_error(program_id, a.account(0))
    } else {
        let e = codec::escrow_of(a.account(0).data);
        let escrow_key = a.account(0).key;
        let claimer = a.account(1).key;
        let fee_recipient = a.account(2).key;
        if e.settled {
            Some(refusal(EscrowError::AlreadySettled))
        } else if sysvars.now is Err {
            Some(ProgramError::Sysvar(sysvars.now->Err_0))
        } else if !claim_window(e, sysvars.now->Ok_0) {
            Some(refusal(EscrowError::NotInClaimWindow))
        } else if !settles(reveal@, e.claim_point@) {
            Some(refusal(EscrowError::BadSecret))
        } else if claimer != e.claimer || fee_recipient != e.fee_recipient || claimer == escrow_key
            || fee_recipient == escrow_key {
            Some(refusal(EscrowError::BadAccount))
        } else if claim_fee(e.amount, e.fee_bps) > e.amount {
            Some(ProgramError::ArithmeticOverflow)
        } else {
            None
        }
    }
}

/// The payouts of a claim: the claimer first, then the fee recipient if there is a fee.
pub open spec fn claim_payout(a: AccountsView, amount: u64, fee: u64) -> Outcome<()> {
    let first = transfer(a, a.order[0] as int, a.order[1] as int, (amount - fee) as u64);
    if first.result is Ok && fee > 0 {
        transfer(first.accounts, a.order[0] as int, a.order[2] as int, fee)
    } else {
        first
    }
}

/// What a claim answers and leaves behind.
pub open spec fn claim_outcome(
    program_id: Seq<u8>,
    a: AccountsView,
    reveal: [u8; 32],
    sysvars: Sysvars,
) -> Outcome<()> {
    match claim_error(program_id, a, reveal, sysvars) {
        Some(e) => Outcome { result: Err(e), accounts: a },
        None => {
            let e = codec::escrow_of(a.account(0).data);
            let paid = claim_payout(a, e.amount, claim_fee(e.amount, e.fee_bps) as u64);
            if paid.result is Err {
                paid
            } else {
                Outcome {
                    result: Ok(()),
                    accounts: paid.accounts.with_data(
                        a.order[0] as int,
                        settled_by(e, reveal).bytes(),
                    ),
                }
            }
        },
    }
}

/// The log line of a claim.
pub open spec fn claim_log(reveal: Seq<u8>) -> Seq<char> {
    "claimed; revealed "@ + text::hex_text(reveal)
}

/// The log line of a refund.
pub open spec fn refund_log(reveal: Seq<u8>) -> Seq<char> {
    "refunded; revealed "@ + text::hex_text(reveal)
}

/// Alice claims the SOL by revealing her half of the Monero key. Answers with the log line.
///
/// Both payouts must leave their accounts rent-exempt, which the runtime enforces.
pub fn claim(
    program_id: &[u8; 32],
    accounts: &mut Accounts,
    reveal: [u8; 32],
    sysvars: &Sysvars,
) -> (r: Result<String, ProgramError>)
    requires
        old(accounts)@.wf(),
    ensures
        final(accounts)@ == claim_outcome(program_id@, old(accounts)@, reveal, *sysvars).accounts,
        match r {
            Ok(line) => claim_outcome(program_id@, old(accounts)@, reveal, *sysvars).result is Ok
                && line@ == claim_log(reveal@),
            Err(e) => claim_outcome(program_id@, old(accounts)@, reveal, *sysvars).result == Err::<
                (),
                ProgramError,
            >(e),
        },
{
    let slot: usize = match next_account_info(accounts, 0) {
        Ok(slot) => slot,
        Err(e) => return Err(e),
    };
    let claimer: usize = match next_account_info(accounts, 1) {
        Ok(slot) => slot,
        Err(e) => return Err(e),
    };
    let fee_recipient: usize = match next_account_info(accounts, 2) {
        Ok(slot) => slot,
        Err(e) => return Err(e),
    };
    let mut escrow = match load(program_id, &accounts.slots[slot]) {
        Ok(escrow) => escrow,
        Err(e) => return Err(e),
    };
    if escrow.settled {
        return Err(ProgramError::from(EscrowError::AlreadySettled));
    }
    let t: i64 = match sysvars.now {
        Ok(now) => now,
        Err(code) => return Err(ProgramError::Sysvar(code)),
    };
    let open = escrow.ready || t >= escrow.t0;
    if !(open && t < escrow.t1) {
        return Err(ProgramError::from(EscrowError::NotInClaimWindow));
    }
    if !is_canonical_scalar(&reveal) || !reveal_matches(&reveal, &escrow.claim_point) {
        return Err(ProgramError::from(EscrowError::BadSecret));
    }
    if !bytes::same32(&accounts.slots[claimer].key, &escrow.claimer) || !bytes::same32(
        &accounts.slots[fee_recipient].key,
        &escrow.fee_recipient,
    ) {
        return Err(ProgramError::from(EscrowError::BadAccount));
    }
    // A payout into the escrow itself would settle with the funds frozen inside.
    if bytes::same32(&accounts.slots[claimer].key, &accounts.slots[slot].key) || bytes::same32(
        &accounts.slots[fee_recipient].key,
        &accounts.slots[slot].key,
    ) {
        return Err(ProgramError::from(EscrowError::BadAccount));
    }
    let fee: u64 = fee_of(escrow.amount, escrow.fee_bps);
    let to_claimer: u64 = match escrow.amount.checked_sub(fee) {
        Some(rest) => rest,
        None => return Err(ProgramError::ArithmeticOverflow),
    };
    match move_lamports(accounts, slot, claimer, to_claimer) {
        Ok(()) => {},
        Err(e) => return Err(e),
    }
    if fee > 0 {
        match move_lamports(accounts, slot, fee_recipient, fee) {
            Ok(()) => {},
            Err(e) => return Err(e),
        }
    }
    escrow.revealed = reveal;
    escrow.settled = true;
    match put_back(&escrow, accounts, slot) {
        Ok(()) => {},
        Err(e) => return Err(e),
    }
    let revealed = text::hex32(&reveal);
    Ok(text::concat("claimed; revealed ", revealed.as_str()))
}

/// Why a refund is refused before any lamports move.
pub open spec fn refund_error(
    program_id: Seq<u8>,
    a: AccountsView,
    reveal: [u8; 32],
    sysvars: Sysvars,
) -> Option<ProgramError> {
    if a.order.len() < 2 {
        Some(ProgramError::NotEnoughAccountKeys)
    } else if load_error(program_id, a.account(0)) is Some {
        load_error(program_id, a.account(0))
    } else {
        let e = codec::escrow_of(a.account(0).data);
        if e.settled {
            Some(refusal(EscrowError::AlreadySettled))
        } else if sysvars.now is Err {
            Some(ProgramError::Sysvar(sysvars.now->Err_0))
        } else if !refund_window(e, sysvars.now->Ok_0) {
            Some(refusal(EscrowError::NotInRefundWindow))
        } else if !settles(reveal@, e.refund_point@) {
            Some(refusal(EscrowError::BadSecret))
        } else if a.account(1).key != e.locker {
            Some(refusal(EscrowError::BadAccount))
        } else {
            None
        }
    }
}

/// What a refund answers and leaves behind.
pub open spec fn refund_outcome(
    program_id: Seq<u8>,
    a: AccountsView,
    reveal: [u8; 32],
    sysvars: Sysvars,
) -> Outcome<()> {
    match refund_error(program_id, a, reveal, sysvars) {
        Some(e) => Outcome { result: Err(e), accounts: a },
        None => {
            let e = codec::escrow_of(a.account(0).data);
            let paid = transfer(a, a.order[0] as int, a.order[1] as int, e.amount);
            if paid.result is Err {
                paid
            } else {
                Outcome {
                    result: Ok(()),
                    accounts: paid.accounts.with_data(
                        a.order[0] as int,
                        settled_by(e, reveal).bytes(),
                    ),
                }
            }
        },
    }
}

/// Bob takes the SOL back by revealing his half of the Monero key. Answers with the log line.
pub fn refund(
    program_id: &[u8; 32],
    accounts: &mut Accounts,
    reveal: [u8; 32],
    sysvars: &Sysvars,
) -> (r: Result<String, ProgramError>)
    requires
        old(accounts)@.wf(),
    ensures
        final(accounts)@ == refund_outcome(program_id@, old(accounts)@, reveal, *sysvars).accounts,
        match r {
            Ok(line) => refund_outcome(program_id@, old(accounts)@, reveal, *sysvars).result is Ok
                && line@ == refund_log(reveal@),
            Err(e) => refund_outcome(program_id@, old(accounts)@, reveal, *sysvars).result == Err::<
                (),
                ProgramError,
            >(e),
        },
{
    let slot: usize = match next_account_info(accounts, 0) {
        Ok(slot) => slot,
        Err(e) => return Err(e),
    };
    let locker: usize = match next_account_info(accounts, 1) {
        Ok(slot) => slot,
        Err(e) => return Err(e),
    };
    let mut escrow = match load(program_id, &accounts.slots[slot]) {
        Ok(escrow) => escrow,
        Err(e) => return Err(e),
    };
    if escrow.settled {
        return Err(ProgramError::from(EscrowError::AlreadySettled));
    }
    let t: i64 = match sysvars.now {
        Ok(now) => now,
        Err(code) => return Err(ProgramError::Sysvar(code)),
    };
    let early = t < escrow.t0 && !escrow.ready;
    let late = t >= escrow.t1;
    if !(early || late) {
        return Err(ProgramError::from(EscrowError::NotInRefundWindow));
    }
    if !is_canonical_scalar(&reveal) || !reveal_matches(&reveal, &escrow.refund_point) {
        return Err(ProgramError::from(EscrowError::BadSecret));
    }
    if !bytes::same32(&accounts.slots[locker].key, &escrow.locker) {
        return Err(ProgramError::from(EscrowError::BadAccount));
    }
    match move_lamports(accounts, slot, locker, escrow.amount) {
        Ok(()) => {},
        Err(e) => return Err(e),
    }
    escrow.revealed = reveal;
    escrow.settled = true;
    match put_back(&escrow, accounts, slot) {
        Ok(()) => {},
        Err(e) => return Err(e),
    }
    let revealed = text::hex32(&reveal);
    Ok(text::concat("refunded; revealed ", revealed.as_str()))
}

/// Why `close` is refused before any lamports move.
pub open spec fn close_error(program_id: Seq<u8>, a: AccountsView) -> Option<ProgramError> {
    if a.order.len() < 2 {
        Some(ProgramError::NotEnoughAccountKeys)
    } else if load_error(program_id, a.account(0)) is Some {
        load_error(program_id, a.account(0))
    } else {
        let e = codec::escrow_of(a.account(0).data);
        if !e.settled {
            Some(refusal(EscrowError::NotSettled))
        } else if !a.account(1).is_signer || a.account(1).key != e.locker {
            Some(refusal(EscrowError::Unauthorized))
        } else {
            None
        }
    }
}

/// What `close` answers and leaves behind.
pub open spec fn close_outcome(program_id: Seq<u8>, a: AccountsView) -> Outcome<()> {
    match close_error(program_id, a) {
        Some(e) => Outcome { result: Err(e), accounts: a },
        None => transfer(a, a.order[0] as int, a.order[1] as int, a.account(0).lamports),
    }
}

/// Bob reclaims what a settled escrow still holds; an account without lamports is reaped by the
/// runtime.
pub fn close(program_id: &[u8; 32], accounts: &mut Accounts) -> (r: Result<(), ProgramError>)
    requires
        old(accounts)@.wf(),
    ensures
        ({
            let o = close_outcome(program_id@, old(accounts)@);
            r == o.result && final(accounts)@ == o.accounts
        }),
{
    let slot: usize = match next_account_info(accounts, 0) {
        Ok(slot) => slot,
        Err(e) => return Err(e),
    };
    let locker: usize = match next_account_info(accounts, 1) {
        Ok(slot) => slot,
        Err(e) => return Err(e),
    };
    let escrow = match load(program_id, &accounts.slots[slot]) {
        Ok(escrow) => escrow,
        Err(e) => return Err(e),
    };
    if !escrow.settled {
        return Err(ProgramError::from(EscrowError::NotSettled));
    }
    if !accounts.slots[locker].is_signer || !bytes::same32(
        &accounts.slots[locker].key,
        &escrow.locker,
    ) {
        return Err(ProgramError::from(EscrowError::Unauthorized));
    }
    let balance: u64 = accounts.slots[slot].lamports;
    move_lamports(accounts, slot, locker, balance)
}

/// What an instruction answers and leaves behind, its bytes being well-formed.
pub open spec fn instruction_outcome(
    program_id: Seq<u8>,
    a: AccountsView,
    ix: SwapInstruction,
    sysvars: Sysvars,
) -> Outcome<ProgressView> {
    match ix {
        SwapInstruction::Lock {
            id,
            claimer,
            fee_recipient,
            claim_point,
            refund_point,
            amount,
            fee_bps,
            t0,
            t1,
        } => {
            let terms = LockTerms {
                id,
                claimer,
                fee_recipient,
                claim_point,
                refund_point,
                amount,
                fee_bps,
                t0,
                t1,
            };
            Outcome {
                result: match lock_error(program_id, a, terms, sysvars) {
                    Some(e) => Err(e),
                    None => Ok(ProgressView::Create(lock_plan(program_id, a, terms, sysvars))),
                },
                accounts: a,
            }
        },
        SwapInstruction::SetReady => done(set_ready_outcome(program_id, a, sysvars), None),
        SwapInstruction::Claim { reveal } => done(
            claim_outcome(program_id, a, reveal, sysvars),
            Some(claim_log(reveal@)),
        ),
        SwapInstruction::Refund { reveal } => done(
            refund_outcome(program_id, a, reveal, sysvars),
            Some(refund_log(reveal@)),
        ),
        SwapInstruction::Close => done(close_outcome(program_id, a), None),
    }
}

/// An outcome that writes a log line if it succeeds.
pub open spec fn done(o: Outcome<()>, line: Option<Seq<char>>) -> Outcome<ProgressView> {
    Outcome {
        result: match o.result {
            Ok(_) => Ok(ProgressView::Done(line)),
            Err(e) => Err(e),
        },
        accounts: o.accounts,
    }
}

/// What the bytes of an instruction lead to.
pub open spec fn process_outcome(
    program_id: Seq<u8>,
    a: AccountsView,
    data: Seq<u8>,
    sysvars: Sysvars,
) -> Outcome<ProgressView> {
    match codec::instruction_error(data) {
        Some(e) => Outcome { result: Err(ProgramError::Malformed(e)), accounts: a },
        None => instruction_outcome(program_id, a, codec::instruction_of(data), sysvars),
    }
}

/// Run an instruction on its accounts.
pub fn process_instruction(
    program_id: &[u8; 32],
    accounts: &mut Accounts,
    data: &[u8],
    sysvars: &Sysvars,
) -> (r: Result<Progress, ProgramError>)
    requires
        old(accounts)@.wf(),
    ensures
        final(accounts)@ == process_outcome(program_id@, old(accounts)@, data@, *sysvars).accounts,
        match r {
            Ok(progress) => process_outcome(program_id@, old(accounts)@, data@, *sysvars).result
                == Ok::<ProgressView, ProgramError>(progress@),
            Err(e) => process_outcome(program_id@, old(accounts)@, data@, *sysvars).result == Err::<
                ProgressView,
                ProgramError,
            >(e),
        },
{
    let ix = match SwapInstruction::try_from_slice(data) {
        Ok(ix) => ix,
        Err(e) => return Err(ProgramError::Malformed(e)),
    };
    match ix {
        SwapInstruction::Lock {
            id,
            claimer,
            fee_recipient,
            claim_point,
            refund_point,
            amount,
            fee_bps,
            t0,
            t1,
        } => {
            let terms = LockTerms {
                id,
                claimer,
                fee_recipient,
                claim_point,
                refund_point,
                amount,
                fee_bps,
                t0,
                t1,
            };
            match lock(program_id, accounts, &terms, sysvars) {
                Ok(plan) => Ok(Progress::Create(plan)),
                Err(e) => Err(e),
            }
        },
        SwapInstruction::SetReady => match set_ready(program_id, accounts, sysvars) {
            Ok(()) => Ok(Progress::Done(None)),
            Err(e) => Err(e),
        },
        SwapInstruction::Claim { reveal } => match claim(program_id, accounts, reveal, sysvars) {
            Ok(line) => Ok(Progress::Done(Some(line))),
            Err(e) => Err(e),
        },
        SwapInstruction::Refund { reveal } => match refund(program_id, accounts, reveal, sysvars) {
            Ok(line) => Ok(Progress::Done(Some(line))),
            Err(e) => Err(e),
        },
        SwapInstruction::Close => match close(program_id, accounts) {
            Ok(()) => Ok(Progress::Done(None)),
            Err(e) => Err(e),
        },
    }
}

/// The program sees the accounts as they are: each slot with its key, owner, signature, balance
/// and data, in the same place, and the instruction's list unchanged; and the account that the
/// instruction names is the one in the slot that its list gives.
pub proof fn law_accounts_are_seen_as_they_are(accounts: Accounts, slot: int, n: int)
    ensures
        accounts@.slots.len() == accounts.slots@.len(),
        accounts@.order == accounts.order@,
        0 <= slot < accounts.slots@.len() ==> {
            &&& accounts@.slots[slot].key == accounts.slots@[slot].key
            &&& accounts@.slots[slot].owner == accounts.slots@[slot].owner
            &&& accounts@.slots[slot].is_signer == accounts.slots@[slot].is_signer
            &&& accounts@.slots[slot].lamports == accounts.slots@[slot].lamports
            &&& accounts@.slots[slot].data == accounts.slots@[slot].data@
        },
        accounts@.account(n) == accounts@.slots[accounts.order@[n] as int],
        accounts@.wf() && 0 <= n < accounts.order@.len() ==> accounts.order@[n]
            < accounts.slots@.len(),
        !accounts@.wf() ==> exists|m: int|
            0 <= m < accounts.order@.len() && #[trigger] accounts.order@[m]
                >= accounts.slots@.len(),
{
}

/// An instruction's progress is what it says: the account to create, or the line to log.
pub proof fn law_progress_says_what_is_left(progress: Progress)
    ensures
        progress matches Progress::Create(plan) ==> progress@ == ProgressView::Create(plan),
        progress matches Progress::Done(Some(line)) ==> progress@ == ProgressView::Done(
            Some(line@),
        ),
        progress matches Progress::Done(None) ==> progress@ == ProgressView::Done(None),
{
}

} // verus!
