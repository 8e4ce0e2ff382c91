use curve25519_dalek::edwards::EdwardsPoint;
use monero::{PrivateKey, PublicKey};
use suture::curve::{Point, Scalar};
use suture::json::Json;
use suture::xmr::{
    commit_matches, FunderWallet, Task, WalletCall, XmrChain, XmrError, XmrStep, UNLOCK_POLL_SECS,
    UNLOCK_TRIES,
};

fn scalar(n: u64) -> Scalar {
    let mut b = [0u8; 32];
    b[..8].copy_from_slice(&n.to_le_bytes());
    Scalar::from_canonical_bytes(b).expect("small scalar")
}

fn dalek(n: u64) -> curve25519_dalek::scalar::Scalar {
    curve25519_dalek::scalar::Scalar::from(n)
}

#[test]
fn commit_matches_only_its_own_point() {
    let s = scalar(123456789);
    let point = EdwardsPoint::mul_base(&dalek(123456789)).compress().to_bytes();
    assert!(commit_matches(&s, &point));

    let other = EdwardsPoint::mul_base(&dalek(987654321)).compress().to_bytes();
    assert!(!commit_matches(&s, &other));
}

#[test]
fn a_dalek_scalar_and_a_monero_key_agree_on_the_point() {
    // A scalar's point must equal the same scalar's Monero public key, or the claim point and
    // the Monero key half would diverge.
    let s = scalar(424242);

    let dalek_point = Point::mul_base(&s).to_bytes();

    let priv_key = PrivateKey::from_slice(&s.to_bytes()).expect("canonical scalar");
    let monero_point = PublicKey::from_private_key(&priv_key).as_bytes().to_vec();

    assert_eq!(dalek_point.to_vec(), monero_point);
}

#[test]
fn reconstructed_spend_scalar_round_trips_to_a_private_key() {
    let s = scalar(11).plus(&scalar(7)); // s_a + s_b
    let key = PrivateKey::from_slice(&s.to_bytes()).expect("valid key");
    assert_eq!(key.as_bytes(), &s.to_bytes());
}

fn chain(funder: bool) -> XmrChain {
    let funder = if funder {
        Some(FunderWallet { filename: "funds".to_string(), password: "pw".to_string() })
    } else {
        None
    };
    XmrChain::new("5lock", [4u8; 32], 1234, 1000, "5payout", funder, "secret", "abc")
}

fn ok() -> Result<Json, String> {
    Ok(Json::object())
}

fn down() -> Result<Json, String> {
    Err("wallet down".to_string())
}

fn call(step: XmrStep) -> (Task, WalletCall) {
    match step {
        XmrStep::Call { task, call } => (task, call),
        _ => panic!("another step"),
    }
}

fn gave_up(step: XmrStep) -> String {
    match step {
        XmrStep::Failed(XmrError::Transport(e)) => e,
        _ => panic!("another step"),
    }
}

fn refused(step: XmrStep) -> String {
    match step {
        XmrStep::Failed(XmrError::Wallet(e)) => e,
        _ => panic!("another step"),
    }
}

fn balance(unlocked: u64) -> Result<Json, String> {
    Ok(Json::object()
        .field("balance", Json::Unsigned(u64::MAX))
        .field("unlocked_balance", Json::Unsigned(unlocked)))
}

#[test]
fn locking_goes_through_the_funder_wallet() {
    let mut x = chain(true);
    let (task, c) = call(x.lock());
    assert!(matches!(c, WalletCall::Open { filename, password }
        if filename == "funds" && password == "pw"));
    let (task, c) = call(x.advance(task, &ok()));
    assert!(matches!(c, WalletCall::Refresh));
    let (task, c) = call(x.advance(task, &ok()));
    assert!(matches!(c, WalletCall::Transfer { address, amount: 1000 } if address == "5lock"));
    let sent = Ok(Json::object().field("tx_hash", Json::text("f00d")));
    let (task, c) = call(x.advance(task, &sent));
    assert!(matches!(c, WalletCall::Close));
    assert!(matches!(x.advance(task, &ok()), XmrStep::Sent(tx) if tx == "f00d"));

    // No wallet is open now: the next lock opens the funder at once.
    assert!(matches!(call(x.lock()).1, WalletCall::Open { .. }));
}

#[test]
fn locking_without_a_funder_fails_at_once() {
    let x = chain(false);
    assert_eq!(gave_up(x.lock()), "no funder wallet configured to lock from");
}

#[test]
fn a_refused_call_ends_the_lock() {
    let mut x = chain(true);
    let (task, _) = call(x.lock());
    assert_eq!(refused(x.advance(task, &down())), "wallet down");
    let (task, _) = call(x.lock());
    let (task, _) = call(x.advance(task, &ok()));
    assert_eq!(refused(x.advance(task, &down())), "wallet down");
    // The funder wallet is open by now, so the next operation closes it first.
    let (task, c) = call(x.lock());
    assert!(matches!(c, WalletCall::Close));
    assert_eq!(
        gave_up(x.advance(task, &down())),
        "failed to close the Funder wallet (open state now unknown): wallet down"
    );
    // A failed close leaves it open.
    let (task, c) = call(x.locked());
    assert!(matches!(c, WalletCall::Close));
    assert!(matches!(call(x.advance(task, &ok())).1, WalletCall::OpenWatch { .. }));
}

#[test]
fn scanning_counts_only_unlocked_outputs() {
    let mut x = chain(false);
    let (task, c) = call(x.locked());
    match c {
        WalletCall::OpenWatch { filename, address, view_secret, restore_height, password } => {
            assert_eq!(filename, "suture-watch-abc");
            assert_eq!(address, "5lock");
            assert_eq!(view_secret, [4u8; 32]);
            assert_eq!(restore_height, 1234);
            assert_eq!(password, "secret");
        }
        _ => panic!("another step"),
    }
    let (task, c) = call(x.advance(task, &ok()));
    assert!(matches!(c, WalletCall::Refresh));
    // A failed refresh is no reason not to look.
    let (task, c) = call(x.advance(task, &down()));
    assert!(matches!(c, WalletCall::Balance));
    assert!(matches!(x.advance(task, &balance(999)), XmrStep::Seen(false)));

    // The watch wallet is still open.
    let (task, c) = call(x.locked());
    assert!(matches!(c, WalletCall::Refresh));
    let (task, _) = call(x.advance(task, &ok()));
    assert!(matches!(x.advance(task, &balance(1000)), XmrStep::Seen(true)));
    let (task, _) = call(x.locked());
    let (task, _) = call(x.advance(task, &ok()));
    assert!(matches!(x.advance(task, &ok()), XmrStep::Seen(false)));
    let (task, _) = call(x.locked());
    let (task, _) = call(x.advance(task, &ok()));
    assert_eq!(refused(x.advance(task, &down())), "wallet down");
}

#[test]
fn sweeping_waits_for_the_output_to_unlock() {
    let mut x = chain(false);
    let (task, _) = call(x.locked());
    let _ = x.advance(task, &ok());

    let (task, c) = call(x.sweep(scalar(18)));
    assert!(matches!(c, WalletCall::Close));
    let (task, c) = call(x.advance(task, &ok()));
    match c {
        WalletCall::OpenSweep { filename, address, spend_key, view_secret, .. } => {
            assert_eq!(filename, "suture-sweep-abc");
            assert_eq!(address, "5lock");
            assert_eq!(spend_key, scalar(18).to_bytes());
            assert_eq!(view_secret, [4u8; 32]);
        }
        _ => panic!("another step"),
    }
    let (task, c) = call(x.advance(task, &ok()));
    assert!(matches!(c, WalletCall::Refresh));
    let (task, _) = call(x.advance(task, &down()));
    let task = match x.advance(task, &balance(999)) {
        XmrStep::Pause { task } => task,
        _ => panic!("another step"),
    };
    let (task, c) = call(x.resume(task));
    assert!(matches!(c, WalletCall::Refresh));
    let (task, _) = call(x.advance(task, &ok()));
    let (task, c) = call(x.advance(task, &balance(1000)));
    assert!(matches!(c, WalletCall::SweepAll { address } if address == "5payout"));
    let list = Json::list().and(Json::text("t1")).and(Json::Null).and(Json::text("t2"));
    let (task, c) = call(x.advance(task, &Ok(Json::object().field("tx_hash_list", list))));
    assert!(matches!(c, WalletCall::Close));
    match x.advance(task, &ok()) {
        XmrStep::Swept(txs) => assert_eq!(txs, vec!["t1".to_string(), "t2".to_string()]),
        _ => panic!("another step"),
    }

    // The sweep wallet exists by now, and is opened again.
    let (_, c) = call(x.sweep(scalar(18)));
    assert!(matches!(c, WalletCall::Open { filename, password }
        if filename == "suture-sweep-abc" && password == "secret"));
}

#[test]
fn sweeping_gives_up_when_the_output_never_unlocks() {
    let mut x = chain(false);
    let (task, _) = call(x.sweep(scalar(18)));
    let (mut task, _) = call(x.advance(task, &ok()));
    let mut looks = 0u32;
    let why = loop {
        let (asked, c) = call(x.advance(task, &ok()));
        assert!(matches!(c, WalletCall::Balance));
        looks += 1;
        let paused = match x.advance(asked, &balance(0)) {
            XmrStep::Pause { task } => task,
            _ => panic!("another step"),
        };
        match x.resume(paused) {
            XmrStep::Call { task: next, .. } => task = next,
            other => break gave_up(other),
        }
    };
    assert_eq!(looks, UNLOCK_TRIES);
    assert_eq!((UNLOCK_TRIES, UNLOCK_POLL_SECS), (60, 30));
    assert_eq!(
        why,
        "sweep timed out waiting for the 2-of-2 output to unlock after 60 tries; \
         the XMR is in wallet file 'suture-sweep-abc' — open it and sweep manually"
    );
}
