use suture::address::find_escrow_address;
use suture::codec::{DecodeError, Escrow, SwapInstruction};
use suture::curve::{Point, Scalar, ED25519_FIELD_PRIME, ED25519_IDENTITY, ED25519_ORDER};
use suture::hex32;
use suture::keys::MoneroVault;
use suture::live::{escrow_view, AgreedTerms, EscrowView, LiveChains, SolBackend, XmrBackend};
use suture::lt_le;
use suture::program::{
    complete_lock, is_canonical_point, is_canonical_scalar, load, move_lamports,
    process_instruction, reveal_matches, store, Account, Accounts, CreateEscrow, EscrowError,
    ProgramError, Progress, RentFloors, Sysvars, ED25519_BASEPOINT,
};

use suture::swap::{Action, Event, Role, Swap};

const PROGRAM: [u8; 32] = [42u8; 32];
const LOCKER: [u8; 32] = [1u8; 32];
const CLAIMER: [u8; 32] = [2u8; 32];
const TREASURY: [u8; 32] = [3u8; 32];
const T0: i64 = 10_000;
const T1: i64 = 20_000;
const AMOUNT: u64 = 50_000_000;

fn scalar(n: u64) -> Scalar {
    let mut b = [0u8; 32];
    b[..8].copy_from_slice(&n.to_le_bytes());
    Scalar::from_canonical_bytes(b).expect("small scalar")
}

fn point(n: u64) -> [u8; 32] {
    Point::mul_base(&scalar(n)).to_bytes()
}

fn at(now: i64) -> Sysvars {
    Sysvars { now: Ok(now), rent: Ok(RentFloors { empty: 890_880, escrow: 2_651_760 }) }
}

fn account(key: [u8; 32], lamports: u64) -> Account {
    Account { key, owner: [0u8; 32], is_signer: false, lamports, data: vec![] }
}

fn escrow_key() -> [u8; 32] {
    find_escrow_address(&LOCKER, &[7u8; 32], &PROGRAM).expect("an address").0
}

/// Slots: locker, escrow, system program, claimer, treasury.
fn accounts(order: Vec<usize>) -> Accounts {
    let mut locker = account(LOCKER, 1_000_000_000);
    locker.is_signer = true;
    Accounts {
        slots: vec![
            locker,
            account(escrow_key(), 0),
            account([0u8; 32], 1),
            account(CLAIMER, 5),
            account(TREASURY, 1_000_000),
        ],
        order,
    }
}

fn lock_ix() -> SwapInstruction {
    SwapInstruction::Lock {
        id: [7u8; 32],
        claimer: CLAIMER,
        fee_recipient: TREASURY,
        claim_point: point(11),
        refund_point: point(7),
        amount: AMOUNT,
        fee_bps: 300,
        t0: T0,
        t1: T1,
    }
}

fn run(
    a: &mut Accounts,
    ix: &SwapInstruction,
    sysvars: &Sysvars,
) -> Result<Progress, ProgramError> {
    process_instruction(&PROGRAM, a, &ix.to_bytes(), sysvars)
}

fn custom(e: EscrowError) -> ProgramError {
    ProgramError::from(e)
}

fn refused(r: Result<Progress, ProgramError>) -> ProgramError {
    r.expect_err("a refusal")
}

/// The accounts of a swap whose escrow is locked.
fn locked() -> Accounts {
    let mut a = accounts(vec![0, 1, 2]);
    let plan: CreateEscrow = match run(&mut a, &lock_ix(), &at(T0)).expect("a lock") {
        Progress::Create(plan) => plan,
        other => panic!("{other:?}"),
    };
    assert_eq!(plan.lamports, 2_651_760 + AMOUNT);
    assert_eq!(plan.escrow.locker, LOCKER);
    // What the System Program does.
    a.slots[0].lamports -= plan.lamports;
    a.slots[1].lamports += plan.lamports;
    a.slots[1].owner = PROGRAM;
    a.slots[1].data = vec![0u8; Escrow::LEN];
    let line = complete_lock(&plan, &mut a.slots[1]).expect("stored");
    assert_eq!(line, "locked 50000000 lamports, t0=10000, t1=20000");
    assert_eq!(load(&PROGRAM, &a.slots[1]), Ok(plan.escrow));
    a
}

fn total(a: &Accounts) -> u64 {
    a.slots.iter().map(|s| s.lamports).sum()
}

fn logged(r: Result<Progress, ProgramError>) -> Option<String> {
    match r.expect("success") {
        Progress::Done(line) => line,
        other => panic!("{other:?}"),
    }
}

#[test]
fn a_claim_pays_the_claimer_less_the_fee() {
    let mut a = locked();
    let before = total(&a);
    a.order = vec![1, 0];
    assert_eq!(logged(run(&mut a, &SwapInstruction::SetReady, &at(0))), None);
    assert!(load(&PROGRAM, &a.slots[1]).unwrap().ready);

    a.order = vec![1, 3, 4];
    let reveal = scalar(11).to_bytes();
    let line = logged(run(&mut a, &SwapInstruction::Claim { reveal }, &at(0)));
    assert_eq!(line.unwrap(), format!("claimed; revealed {}", hex32(&reveal)));
    assert_eq!(a.slots[3].lamports, 5 + 48_500_000);
    assert_eq!(a.slots[4].lamports, 1_000_000 + 1_500_000);
    assert_eq!(a.slots[1].lamports, 2_651_760);
    assert_eq!(total(&a), before);
    let e = load(&PROGRAM, &a.slots[1]).unwrap();
    assert!(e.settled);
    assert_eq!(e.revealed, reveal);

    // It settles once.
    let again = run(&mut a, &SwapInstruction::Claim { reveal }, &at(T0));
    assert_eq!(refused(again), custom(EscrowError::AlreadySettled));
    a.order = vec![1, 0];
    let refund = SwapInstruction::Refund { reveal: scalar(7).to_bytes() };
    assert_eq!(refused(run(&mut a, &refund, &at(T1))), custom(EscrowError::AlreadySettled));
    let ready = run(&mut a, &SwapInstruction::SetReady, &at(0));
    assert_eq!(refused(ready), custom(EscrowError::AlreadySettled));

    // The rent goes back to the locker.
    let held = a.slots[0].lamports;
    assert_eq!(logged(run(&mut a, &SwapInstruction::Close, &at(0))), None);
    assert_eq!(a.slots[1].lamports, 0);
    assert_eq!(a.slots[0].lamports, held + 2_651_760);
    assert_eq!(total(&a), before);
}

#[test]
fn a_refund_returns_the_whole_amount() {
    let mut a = locked();
    let before = total(&a);
    let held = a.slots[0].lamports;
    a.order = vec![1, 0];
    let reveal = scalar(7).to_bytes();
    let line = logged(run(&mut a, &SwapInstruction::Refund { reveal }, &at(T0 - 1)));
    assert_eq!(line.unwrap(), format!("refunded; revealed {}", hex32(&reveal)));
    assert_eq!(a.slots[0].lamports, held + AMOUNT);
    assert_eq!(load(&PROGRAM, &a.slots[1]).unwrap().revealed, reveal);
    assert_eq!(total(&a), before);
}

#[test]
fn the_windows_never_overlap() {
    let claim = SwapInstruction::Claim { reveal: scalar(11).to_bytes() };
    let refund = SwapInstruction::Refund { reveal: scalar(7).to_bytes() };
    for ready in [false, true] {
        for now in [0, T0 - 1, T0, T1 - 1, T1, T1 + 1] {
            let mut a = locked();
            if ready {
                a.order = vec![1, 0];
                run(&mut a, &SwapInstruction::SetReady, &at(0)).unwrap();
            }
            let mut b = locked();
            if ready {
                b.order = vec![1, 0];
                run(&mut b, &SwapInstruction::SetReady, &at(0)).unwrap();
            }
            a.order = vec![1, 3, 4];
            b.order = vec![1, 0];
            let claimed = run(&mut a, &claim, &at(now));
            let refunded = run(&mut b, &refund, &at(now));
            assert_ne!(claimed.is_ok(), refunded.is_ok());
            let open = (ready || now >= T0) && now < T1;
            assert_eq!(claimed.is_ok(), open);
            if !open {
                assert_eq!(refused(claimed), custom(EscrowError::NotInClaimWindow));
            } else {
                assert_eq!(refused(refunded), custom(EscrowError::NotInRefundWindow));
            }
        }
    }
}

#[test]
fn only_the_committed_secret_in_canonical_form_settles() {
    let mut a = locked();
    a.order = vec![1, 3, 4];
    let wrong = SwapInstruction::Claim { reveal: scalar(7).to_bytes() };
    assert_eq!(refused(run(&mut a, &wrong, &at(T0))), custom(EscrowError::BadSecret));
    // s + L multiplies to the same point, and is refused.
    let mut alias = ED25519_ORDER;
    alias[0] += 11;
    let aliased = SwapInstruction::Claim { reveal: alias };
    assert_eq!(refused(run(&mut a, &aliased, &at(T0))), custom(EscrowError::BadSecret));
    a.order = vec![1, 0];
    let wrong = SwapInstruction::Refund { reveal: scalar(11).to_bytes() };
    assert_eq!(refused(run(&mut a, &wrong, &at(T1))), custom(EscrowError::BadSecret));
}

#[test]
fn settling_pays_only_the_committed_accounts() {
    let claim = SwapInstruction::Claim { reveal: scalar(11).to_bytes() };
    for order in [vec![1, 0, 4], vec![1, 3, 0], vec![1, 1, 4]] {
        let mut a = locked();
        a.order = order;
        assert_eq!(refused(run(&mut a, &claim, &at(T0))), custom(EscrowError::BadAccount));
    }
    let refund = SwapInstruction::Refund { reveal: scalar(7).to_bytes() };
    let mut a = locked();
    a.order = vec![1, 3];
    assert_eq!(refused(run(&mut a, &refund, &at(T1))), custom(EscrowError::BadAccount));
    a.order = vec![1];
    assert_eq!(refused(run(&mut a, &refund, &at(T1))), ProgramError::NotEnoughAccountKeys);
}

#[test]
fn a_claimer_may_also_collect_the_fee() {
    let mut a = accounts(vec![0, 1, 2]);
    let mut ix = lock_ix();
    if let SwapInstruction::Lock { fee_recipient, .. } = &mut ix {
        *fee_recipient = CLAIMER;
    }
    let plan = match run(&mut a, &ix, &at(0)).unwrap() {
        Progress::Create(plan) => plan,
        other => panic!("{other:?}"),
    };
    a.slots[1].lamports = plan.lamports;
    a.slots[1].owner = PROGRAM;
    a.slots[1].data = vec![0u8; Escrow::LEN];
    complete_lock(&plan, &mut a.slots[1]).unwrap();
    a.order = vec![1, 3, 3];
    let claim = SwapInstruction::Claim { reveal: scalar(11).to_bytes() };
    run(&mut a, &claim, &at(T0)).unwrap();
    assert_eq!(a.slots[3].lamports, 5 + AMOUNT);
}

#[test]
fn set_ready_and_close_need_the_locker() {
    let mut a = locked();
    a.order = vec![1, 3];
    let ready = run(&mut a, &SwapInstruction::SetReady, &at(0));
    assert_eq!(refused(ready), custom(EscrowError::Unauthorized));
    a.order = vec![1, 0];
    let late = run(&mut a, &SwapInstruction::SetReady, &at(T1));
    assert_eq!(refused(late), custom(EscrowError::NotInClaimWindow));
    let close = run(&mut a, &SwapInstruction::Close, &at(0));
    assert_eq!(refused(close), custom(EscrowError::NotSettled));
    let refund = SwapInstruction::Refund { reveal: scalar(7).to_bytes() };
    run(&mut a, &refund, &at(T1)).unwrap();
    a.slots[0].is_signer = false;
    let close = run(&mut a, &SwapInstruction::Close, &at(0));
    assert_eq!(refused(close), custom(EscrowError::Unauthorized));
}

fn lock_refusal(
    change: impl Fn(&mut SwapInstruction, &mut Accounts, &mut Sysvars),
) -> ProgramError {
    let (mut ix, mut a, mut s) = (lock_ix(), accounts(vec![0, 1, 2]), at(0));
    change(&mut ix, &mut a, &mut s);
    refused(run(&mut a, &ix, &s))
}

fn with(ix: &mut SwapInstruction, new_amount: u64, new_bps: u16, new_t0: i64, new_t1: i64) {
    if let SwapInstruction::Lock { amount, fee_bps, t0, t1, .. } = ix {
        *amount = new_amount;
        *fee_bps = new_bps;
        *t0 = new_t0;
        *t1 = new_t1;
    }
}

fn with_point(ix: &mut SwapInstruction, p: [u8; 32]) {
    if let SwapInstruction::Lock { claim_point, .. } = ix {
        *claim_point = p;
    }
}

#[test]
fn locks_are_vetted() {
    assert_eq!(
        lock_refusal(|ix, _, _| with(ix, AMOUNT, 301, T0, T1)),
        custom(EscrowError::FeeTooHigh)
    );
    for (t0, t1) in [(T0, T0), (T0, T0 + 599), (T1, T0), (i64::MIN, i64::MAX)] {
        assert_eq!(
            lock_refusal(|ix, _, _| with(ix, AMOUNT, 300, t0, t1)),
            custom(EscrowError::BadWindows)
        );
    }
    // y = 2 is no point, y = p + 1 is a non-canonical identity, and the identity is trivial.
    let mut nothing = [0u8; 32];
    nothing[0] = 2;
    let mut alias = ED25519_FIELD_PRIME;
    alias[0] += 1;
    for p in [nothing, alias, ED25519_IDENTITY] {
        assert_eq!(lock_refusal(|ix, _, _| with_point(ix, p)), custom(EscrowError::BadPoint));
    }
    assert_eq!(
        lock_refusal(|_, a, _| a.order = vec![0, 1]),
        ProgramError::NotEnoughAccountKeys
    );
    assert_eq!(
        lock_refusal(|_, a, _| a.slots[0].is_signer = false),
        custom(EscrowError::Unauthorized)
    );
    assert_eq!(
        lock_refusal(|_, a, _| a.order = vec![0, 1, 3]),
        custom(EscrowError::BadAccount)
    );
    assert_eq!(
        lock_refusal(|_, _, s| s.now = Err(9)),
        ProgramError::Sysvar(9)
    );
    assert_eq!(lock_refusal(|_, _, s| s.now = Ok(T0 + 1)), custom(EscrowError::BadWindows));
    assert_eq!(
        lock_refusal(|_, a, _| a.order = vec![0, 3, 2]),
        custom(EscrowError::BadAccount)
    );
    assert_eq!(
        lock_refusal(|_, _, s| s.rent = Err(8)),
        ProgramError::Sysvar(8)
    );
    // The payout under the highest fee must clear the rent floor.
    assert_eq!(
        lock_refusal(|ix, _, _| with(ix, 918_431, 0, T0, T1)),
        custom(EscrowError::AmountTooSmall)
    );
    assert_eq!(
        lock_refusal(|ix, _, _| with(ix, u64::MAX, 0, T0, T1)),
        ProgramError::ArithmeticOverflow
    );
    let mut a = accounts(vec![0, 1, 2]);
    let mut ix = lock_ix();
    with(&mut ix, 918_432, 0, T0, T1);
    assert!(run(&mut a, &ix, &at(0)).is_ok());
}

#[test]
fn look_alike_accounts_are_refused() {
    let good = locked();
    assert!(load(&PROGRAM, &good.slots[1]).is_ok());
    let mut a = locked();
    a.slots[1].owner = [9u8; 32];
    assert_eq!(load(&PROGRAM, &a.slots[1]), Err(custom(EscrowError::BadAccount)));
    let mut a = locked();
    a.slots[1].data.push(0);
    assert_eq!(load(&PROGRAM, &a.slots[1]), Err(custom(EscrowError::BadAccount)));
    let mut a = locked();
    a.slots[1].key = [9u8; 32];
    assert_eq!(load(&PROGRAM, &a.slots[1]), Err(custom(EscrowError::BadAccount)));
    let mut a = locked();
    a.slots[1].data[219] = 2;
    assert_eq!(
        load(&PROGRAM, &a.slots[1]),
        Err(ProgramError::Malformed(DecodeError::BadBool(2)))
    );
    let mut a = locked();
    a.slots[1].data[186] ^= 1;
    assert_eq!(load(&PROGRAM, &a.slots[1]), Err(custom(EscrowError::BadAccount)));
}

#[test]
fn malformed_instructions_are_refused() {
    let mut a = accounts(vec![]);
    assert_eq!(
        refused(process_instruction(&PROGRAM, &mut a, &[9], &at(0))),
        ProgramError::Malformed(DecodeError::BadTag(9))
    );
}

#[test]
fn escrows_are_stored_over_the_start_of_an_account() {
    let e = load(&PROGRAM, &locked().slots[1]).unwrap();
    let mut large = account([5u8; 32], 1);
    large.data = vec![0xaa; Escrow::LEN + 2];
    assert_eq!(store(&e, &mut large), Ok(()));
    assert_eq!(&large.data[..Escrow::LEN], &e.to_bytes()[..]);
    assert_eq!(&large.data[Escrow::LEN..], &[0xaa, 0xaa]);
    let mut small = account([5u8; 32], 1);
    small.data = vec![0xaa; 40];
    assert_eq!(store(&e, &mut small), Err(ProgramError::WriteZero));
    assert_eq!(&small.data[..], &e.to_bytes()[..40]);
}

#[test]
fn lamports_move_between_different_accounts() {
    let mut a = accounts(vec![]);
    assert_eq!(move_lamports(&mut a, 0, 3, 10), Ok(()));
    assert_eq!((a.slots[0].lamports, a.slots[3].lamports), (999_999_990, 15));
    assert_eq!(move_lamports(&mut a, 3, 3, 10), Err(custom(EscrowError::BadAccount)));
    assert_eq!(move_lamports(&mut a, 3, 0, 16), Err(ProgramError::InsufficientFunds));
    a.slots[0].lamports = u64::MAX;
    assert_eq!(move_lamports(&mut a, 3, 0, 1), Err(ProgramError::ArithmeticOverflow));
    assert_eq!(a.slots[3].lamports, 14);
}

#[test]
fn error_numbers_are_stable() {
    let all = [
        EscrowError::BadSecret,
        EscrowError::AlreadySettled,
        EscrowError::NotInClaimWindow,
        EscrowError::NotInRefundWindow,
        EscrowError::Unauthorized,
        EscrowError::BadAccount,
        EscrowError::FeeTooHigh,
        EscrowError::BadWindows,
        EscrowError::BadPoint,
        EscrowError::AmountTooSmall,
        EscrowError::NotSettled,
    ];
    for (i, e) in all.iter().enumerate() {
        assert_eq!(e.code(), i as u32);
        assert_eq!(ProgramError::from(*e), ProgramError::Custom(i as u32));
    }
}

#[test]
fn canonical_encodings_are_told_apart() {
    let mut below = ED25519_ORDER;
    below[0] -= 1;
    assert!(is_canonical_scalar(&below));
    assert!(!is_canonical_scalar(&ED25519_ORDER));
    assert!(!is_canonical_scalar(&[0xff; 32]));
    let mut signed = point(11);
    signed[31] |= 0x80;
    assert!(is_canonical_point(&signed));
    assert!(!is_canonical_point(&ED25519_FIELD_PRIME));
    assert!(!is_canonical_point(&[0xff; 32]));
    assert!(lt_le(&below, &ED25519_ORDER));
    assert!(!lt_le(&ED25519_ORDER, &ED25519_ORDER));
    assert!(!lt_le(&ED25519_ORDER, &below));
}

#[test]
fn reveals_are_checked_on_the_curve() {
    assert_eq!(ED25519_BASEPOINT, point(1));
    assert!(reveal_matches(&scalar(11).to_bytes(), &point(11)));
    assert!(!reveal_matches(&scalar(11).to_bytes(), &point(12)));
    assert!(reveal_matches(&scalar(0).to_bytes(), &ED25519_IDENTITY));
}

#[test]
fn hexadecimal_is_lower_case_and_padded() {
    let mut b = [0u8; 32];
    b[0] = 0x0a;
    b[31] = 0xf0;
    let expected = format!("0a{}f0", "00".repeat(30));
    assert_eq!(hex32(&b), expected);
}

#[test]
fn an_escrow_keeps_its_terms() {
    let mut a = locked();
    let fresh = load(&PROGRAM, &a.slots[1]).unwrap();
    let reveal = scalar(11).to_bytes();
    let script = [
        (SwapInstruction::Refund { reveal }, vec![1, 0], 0),
        (SwapInstruction::SetReady, vec![1, 0], 0),
        (SwapInstruction::Close, vec![1, 0], 0),
        (SwapInstruction::Claim { reveal: [0xff; 32] }, vec![1, 3, 4], 5),
        (SwapInstruction::Claim { reveal }, vec![1, 3, 4], 5),
        (SwapInstruction::Refund { reveal: scalar(7).to_bytes() }, vec![1, 0], T1),
        (SwapInstruction::Close, vec![1, 0], T1),
    ];
    let before = total(&a);
    let mut settled = 0;
    for (ix, order, now) in script {
        a.order = order;
        let is_settlement =
            matches!(ix, SwapInstruction::Claim { .. } | SwapInstruction::Refund { .. });
        if run(&mut a, &ix, &at(now)).is_ok() && is_settlement {
            settled += 1;
        }
        let e = load(&PROGRAM, &a.slots[1]).unwrap();
        let terms = Escrow { ready: e.ready, settled: e.settled, revealed: e.revealed, ..fresh };
        assert_eq!(e, terms);
        assert_eq!(total(&a), before);
    }
    assert_eq!(settled, 1);
    assert_eq!(load(&PROGRAM, &a.slots[1]).unwrap().revealed, reveal);
}

#[test]
fn a_torsion_point_can_be_committed_but_never_settles() {
    // y = -1 is the point of order two.
    let mut torsion = ED25519_FIELD_PRIME;
    torsion[0] -= 1;
    let mut a = accounts(vec![0, 1, 2]);
    let mut ix = lock_ix();
    with_point(&mut ix, torsion);
    let plan = match run(&mut a, &ix, &at(0)).unwrap() {
        Progress::Create(plan) => plan,
        other => panic!("{other:?}"),
    };
    a.slots[1].lamports = plan.lamports;
    a.slots[1].owner = PROGRAM;
    a.slots[1].data = vec![0u8; Escrow::LEN];
    complete_lock(&plan, &mut a.slots[1]).unwrap();
    a.order = vec![1, 3, 4];
    for n in 0..20 {
        let claim = SwapInstruction::Claim { reveal: scalar(n).to_bytes() };
        assert_eq!(refused(run(&mut a, &claim, &at(T0))), custom(EscrowError::BadSecret));
    }
}

/// Backends that are never asked.
struct Silent;

impl SolBackend for Silent {
    fn lock(&mut self) -> Result<(), String> {
        Err("silent".to_string())
    }
    fn set_ready(&mut self) -> Result<(), String> {
        Err("silent".to_string())
    }
    fn claim(&mut self) -> Result<(), String> {
        Err("silent".to_string())
    }
    fn refund(&mut self) -> Result<(), String> {
        Err("silent".to_string())
    }
    fn read_escrow(&mut self) -> Result<Option<EscrowView>, String> {
        Err("silent".to_string())
    }
}

impl XmrBackend for Silent {
    fn lock(&mut self) -> Result<(), String> {
        Err("silent".to_string())
    }
    fn locked(&mut self) -> Result<bool, String> {
        Err("silent".to_string())
    }
    fn sweep(&mut self, _spend_key: Scalar) -> Result<(), String> {
        Err("silent".to_string())
    }
}

fn watcher(role: Role, own: u64) -> LiveChains<Silent, Silent> {
    let terms = AgreedTerms {
        refund_point: point(7),
        claimer: CLAIMER,
        fee_recipient: TREASURY,
        amount: AMOUNT,
        t0: T0,
        t1: T1,
    };
    LiveChains::new(role, scalar(own), terms, Silent, Silent)
}

fn vault() -> MoneroVault {
    MoneroVault::lock(&Point::mul_base(&scalar(11)), &Point::mul_base(&scalar(7)), 1)
}

fn sweeps(actions: Vec<Action>) -> bool {
    match actions[..] {
        [Action::SweepXmr { spend_key }] => vault().try_sweep(&spend_key),
        _ => false,
    }
}

#[test]
fn a_claim_on_chain_hands_the_maker_the_key() {
    let mut a = locked();
    a.order = vec![1, 3, 4];
    let claim = SwapInstruction::Claim { reveal: scalar(11).to_bytes() };
    run(&mut a, &claim, &at(T0)).unwrap();
    let seen = escrow_view(load(&PROGRAM, &a.slots[1]).unwrap());
    let event = watcher(Role::Maker, 7).settle_event(&seen).expect("a settlement");
    assert_eq!(event, Event::SolClaimed { s_a: scalar(11) });

    let (mut maker, _) = Swap::start_maker(T0, T1, scalar(7));
    maker.on(Event::SolLocked);
    maker.on(Event::XmrLocked);
    assert!(sweeps(maker.on(event)));
}

#[test]
fn a_refund_on_chain_hands_the_taker_the_key() {
    let mut a = locked();
    a.order = vec![1, 0];
    let refund = SwapInstruction::Refund { reveal: scalar(7).to_bytes() };
    run(&mut a, &refund, &at(T1)).unwrap();
    let seen = escrow_view(load(&PROGRAM, &a.slots[1]).unwrap());
    let event = watcher(Role::Taker, 11).settle_event(&seen).expect("a settlement");
    assert_eq!(event, Event::SolRefunded { s_b: scalar(7) });

    let (mut taker, _) = Swap::start_taker(T0, T1, scalar(11));
    taker.on(Event::SolLocked);
    assert!(sweeps(taker.on(event)));
}

#[test]
fn failed_sysvar_reads_are_reported_when_the_value_is_needed() {
    // The fee is looked at first.
    assert_eq!(
        lock_refusal(|ix, _, s| {
            with(ix, AMOUNT, 301, T0, T1);
            s.now = Err(7);
        }),
        custom(EscrowError::FeeTooHigh)
    );
    let mut a = locked();
    a.order = vec![1, 3, 4];
    let claim = SwapInstruction::Claim { reveal: scalar(11).to_bytes() };
    let mut s = at(T0);
    s.now = Err(9);
    assert_eq!(refused(run(&mut a, &claim, &s)), ProgramError::Sysvar(9));
}

#[test]
fn a_settled_escrow_shows_the_secret_of_a_committed_point() {
    let mut a = locked();
    assert_eq!(load(&PROGRAM, &a.slots[1]).unwrap().revealed, [0u8; 32]);
    a.order = vec![1, 3, 4];
    let zero = SwapInstruction::Claim { reveal: [0u8; 32] };
    assert_eq!(refused(run(&mut a, &zero, &at(T0))), custom(EscrowError::BadSecret));
    let claim = SwapInstruction::Claim { reveal: scalar(11).to_bytes() };
    run(&mut a, &claim, &at(T0)).unwrap();
    let e = load(&PROGRAM, &a.slots[1]).unwrap();
    assert!(e.settled);
    assert_eq!(e.revealed, scalar(11).to_bytes());
    assert_eq!(e.claim_point, point(11));
}
