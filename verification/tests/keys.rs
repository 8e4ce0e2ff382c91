use curve25519_dalek::edwards::EdwardsPoint;
use suture::curve::{random_scalar, Point, Scalar, ED25519_IDENTITY, ED25519_ORDER};
use suture::keys::{
    shared_public, shared_secret, verify_reveal, KeyShare, MoneroVault, SettleError, SolEscrow,
};

fn share() -> KeyShare {
    KeyShare::generate().expect("entropy")
}

fn scalar(n: u64) -> Scalar {
    let mut b = [0u8; 32];
    b[..8].copy_from_slice(&n.to_le_bytes());
    Scalar::from_canonical_bytes(b).expect("small scalar")
}

fn dalek(n: u64) -> curve25519_dalek::scalar::Scalar {
    curve25519_dalek::scalar::Scalar::from(n)
}

#[test]
fn two_halves_make_a_valid_2of2_address() {
    let alice = share();
    let bob = share();
    let shared_pub = shared_public(&alice.public, &bob.public);
    let shared_sk = shared_secret(&alice.secret, &bob.secret);
    assert_eq!(Point::mul_base(&shared_sk), shared_pub);
}

#[test]
fn reveal_check_only_accepts_the_committed_secret() {
    let alice = share();
    let bob = share();
    let escrow = SolEscrow::lock(alice.public, bob.public, 5_000_000_000, 1000);
    assert!(verify_reveal(&alice.secret, &escrow.lock_point_claim));
    assert!(!verify_reveal(&bob.secret, &escrow.lock_point_claim));
    assert!(!verify_reveal(&random_scalar().expect("entropy"), &escrow.lock_point_claim));
}

#[test]
fn claiming_reveals_s_a_and_unlocks_the_monero() {
    let alice = share();
    let bob = share();
    let mut sol = SolEscrow::lock(alice.public, bob.public, 5_000_000_000, 1000);
    let xmr = MoneroVault::lock(&alice.public, &bob.public, 250_000_000_000);

    // Neither half sweeps the XMR on its own.
    assert!(!xmr.try_sweep(&alice.secret));
    assert!(!xmr.try_sweep(&bob.secret));

    let payout = sol.claim(alice.secret, 10).expect("claim");
    assert_eq!(payout, 5_000_000_000);
    let s_a = sol.revealed.expect("s_a is now public");

    // Bob combines the revealed s_a with his s_b and sweeps.
    assert!(xmr.try_sweep(&shared_secret(&s_a, &bob.secret)));
}

#[test]
fn refund_returns_sol_and_lets_alice_recover_her_xmr() {
    let alice = share();
    let bob = share();
    let mut sol = SolEscrow::lock(alice.public, bob.public, 5_000_000_000, 1000);
    let xmr = MoneroVault::lock(&alice.public, &bob.public, 250_000_000_000);

    assert_eq!(sol.refund(bob.secret, 999), Err(SettleError::RefundTooEarly));

    let payout = sol.refund(bob.secret, 1000).expect("refund");
    assert_eq!(payout, 5_000_000_000);
    let s_b = sol.revealed.expect("s_b is now public");

    assert!(xmr.try_sweep(&shared_secret(&alice.secret, &s_b)));
}

#[test]
fn the_sol_can_only_be_spent_once() {
    let alice = share();
    let bob = share();
    let mut sol = SolEscrow::lock(alice.public, bob.public, 5_000_000_000, 1000);

    sol.claim(alice.secret, 10).expect("claim");
    assert_eq!(sol.refund(bob.secret, 2000), Err(SettleError::AlreadySettled));
    assert_eq!(sol.claim(alice.secret, 11), Err(SettleError::AlreadySettled));

    let mut other = SolEscrow::lock(alice.public, bob.public, 1, 1000);
    assert_eq!(other.claim(alice.secret, 1500), Err(SettleError::ClaimWindowClosed));
}

#[test]
fn one_point_serves_both_chains() {
    // The bytes that the escrow stores as the claim point are Alice's Monero public key half.
    let alice = share();
    let solana_claim_point = alice.public.to_bytes();
    let monero_pubkey_half = alice.public.to_bytes();
    assert_eq!(solana_claim_point, monero_pubkey_half);
}

#[test]
fn the_zero_scalar_does_not_match_a_real_key_share() {
    let alice = share();
    let zero = Scalar::from_canonical_bytes([0u8; 32]).expect("zero");
    assert!(!verify_reveal(&zero, &alice.public));
}

#[test]
fn a_wrong_secret_settles_nothing() {
    let (alice, bob) = (KeyShare::from_secret(scalar(11)), KeyShare::from_secret(scalar(7)));
    let mut sol = SolEscrow::lock(alice.public, bob.public, 5, 1000);
    assert_eq!(sol.claim(bob.secret, 999), Err(SettleError::BadSecret));
    assert_eq!(sol.refund(alice.secret, 1000), Err(SettleError::BadSecret));
    assert!(sol.revealed.is_none());
    assert_eq!(sol.claim(alice.secret, 999), Ok(5));
    assert_eq!(sol.revealed, Some(scalar(11)));
    let (claim, refund, amount, t_refund, revealed) = sol.shown();
    assert_eq!((claim, refund), (&alice.public, &bob.public));
    assert_eq!((amount, t_refund, revealed), (5, 1000, Some(scalar(11))));
}

#[test]
fn scalars_add_modulo_the_group_order() {
    assert_eq!(scalar(11).plus(&scalar(7)), scalar(18));
    let mut below = ED25519_ORDER;
    below[0] -= 1;
    let last = Scalar::from_canonical_bytes(below).expect("order - 1");
    assert_eq!(last.plus(&scalar(3)), scalar(2));
    assert!(Scalar::from_canonical_bytes(ED25519_ORDER).is_none());
    assert_eq!((dalek(11) + dalek(7)).to_bytes(), scalar(18).to_bytes());
}

#[test]
fn wide_numbers_are_reduced_like_dalek() {
    let mut wide = [0u8; 64];
    for (i, b) in wide.iter_mut().enumerate() {
        *b = (i * 37 + 11) as u8;
    }
    let expected = curve25519_dalek::scalar::Scalar::from_bytes_mod_order_wide(&wide);
    assert_eq!(Scalar::from_wide(&wide).to_bytes(), expected.to_bytes());
}

#[test]
fn points_agree_with_dalek() {
    let p = Point::mul_base(&scalar(424242));
    assert_eq!(p.to_bytes(), EdwardsPoint::mul_base(&dalek(424242)).compress().to_bytes());
    let q = Point::mul_base(&scalar(1));
    assert_eq!(p.plus(&q), Point::mul_base(&scalar(424243)));
    assert_eq!(Point::decompress(&p.to_bytes()), Some(p));
    assert_eq!(Point::mul_base(&scalar(0)).to_bytes(), ED25519_IDENTITY);
    // y = 2 is on no point of the curve.
    let mut nothing = [0u8; 32];
    nothing[0] = 2;
    assert_eq!(Point::decompress(&nothing), None);
}

#[test]
fn fresh_shares_are_consistent_and_distinct() {
    let (a, b) = (share(), share());
    assert_eq!(Point::mul_base(&a.secret), a.public);
    assert_ne!(a.secret, b.secret);
}
