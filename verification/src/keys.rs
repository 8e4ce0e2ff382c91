//! Key shares, the reveal check, and small in-memory models of the two vaults a swap touches.
//!
//! Each party owns one half of the spend key of the shared Monero address: `s_a` and `s_b`,
//! with public points `P_a = s_a·G` and `P_b = s_b·G`. The address is `P_a + P_b` and only
//! `s_a + s_b` spends from it.
use vstd::prelude::*;

use crate::curve;
use crate::curve::{random_scalar, Point, RngUnavailable, Scalar};

verus! {

/// One party's Monero key half: the secret scalar and its public point.
#[derive(Clone, Copy, Debug)]
pub struct KeyShare {
    pub secret: Scalar,
    pub public: Point,
}

impl KeyShare {
    /// The public point is the secret's, and no other scalar's.
    pub open spec fn consistent(self) -> bool {
        &&& self.secret@ < curve::group_order()
        &&& curve::opens(self.secret@, self.public@)
    }

    /// The share of a given secret.
    pub fn from_secret(secret: Scalar) -> (share: KeyShare)
        ensures
            share.consistent(),
            share.secret == secret,
            curve::is_point(share.public@),
            curve::canonical_point(share.public@),
            share.public@ == curve::ED25519_IDENTITY@ <==> secret@ == 0,
    {
        KeyShare { secret, public: Point::mul_base(&secret) }
    }

    /// A fresh random share: that of a random scalar, and a failure only where there was none.
    pub fn generate() -> (r: Result<KeyShare, RngUnavailable>)
        ensures
            exists|scalar: Result<Scalar, RngUnavailable>|
                {
                    &&& #[trigger] call_ensures(random_scalar, (), scalar)
                    &&& r is Ok <==> scalar is Ok
                    &&& r matches Ok(share) ==> share.secret == scalar->Ok_0
                },
            r matches Ok(share) ==> share.consistent() && curve::is_point(share.public@)
                && curve::canonical_point(share.public@) && (share.public@
                == curve::ED25519_IDENTITY@ <==> share.secret@ == 0),
    {
        match random_scalar() {
            Ok(secret) => Ok(KeyShare::from_secret(secret)),
            Err(e) => Err(e),
        }
    }
}

/// Public key of the shared Monero address, `P_a + P_b`. For two key halves it is the public
/// point of the sum of their secrets.
pub fn shared_public(p_a: &Point, p_b: &Point) -> (p: Point)
    ensures
        p@ == curve::point_sum(p_a@, p_b@),
        curve::is_point(p@),
        forall|a: nat, b: nat|
            a < curve::group_order() && b < curve::group_order() && p_a@
                == #[trigger] curve::base_point(a) && p_b@ == #[trigger] curve::base_point(b)
                ==> p@ == curve::base_point(curve::joint_key(a, b)),
{
    p_a.plus(p_b)
}

/// Spend key of the shared address, `s_a + s_b`.
pub fn shared_secret(s_a: &Scalar, s_b: &Scalar) -> (s: Scalar)
    ensures
        s@ == curve::joint_key(s_a@, s_b@),
        s@ < curve::group_order(),
{
    s_a.plus(s_b)
}

/// Does `reveal·G` equal the committed point? Where the point was committed from a secret,
/// that secret is the only reveal it accepts.
pub fn verify_reveal(reveal: &Scalar, lock_point: &Point) -> (r: bool)
    ensures
        r == (curve::base_point(reveal@) == lock_point@),
        forall|n: nat|
            n < curve::group_order() && #[trigger] curve::base_point(n) == lock_point@ ==> r == (
            reveal@ == n),
{
    Point::mul_base(reveal).same(lock_point)
}

/// Why an escrow refused to settle.
#[derive(Clone, Copy, Debug, PartialEq, Eq, Structural)]
pub enum SettleError {
    /// The revealed scalar does not match the committed point.
    BadSecret,
    /// Already claimed or refunded.
    AlreadySettled,
    /// A claim is only valid before the timelock.
    ClaimWindowClosed,
    /// A refund is only valid at or after the timelock.
    RefundTooEarly,
}

/// A local stand-in for the on-chain escrow, with one timelock: a claim settles before
/// `t_refund`, a refund at or after it, and either publishes the scalar that it needed.
pub struct SolEscrow {
    pub lock_point_claim: Point,
    pub lock_point_refund: Point,
    pub amount_lamports: u64,
    pub t_refund: u64,
    /// The scalar that the settler had to reveal, once the escrow settles.
    pub revealed: Option<Scalar>,
    settled: bool,
}

/// The state of a [`SolEscrow`].
pub struct SolEscrowView {
    pub lock_point_claim: Point,
    pub lock_point_refund: Point,
    pub amount_lamports: u64,
    pub t_refund: u64,
    pub revealed: Option<Scalar>,
    pub settled: bool,
}

impl SolEscrowView {
    /// What a claim with the scalar `reveal` at time `now` answers.
    pub open spec fn claim_answer(self, reveal: nat, now: u64) -> Result<u64, SettleError> {
        if self.settled {
            Err(SettleError::AlreadySettled)
        } else if now >= self.t_refund {
            Err(SettleError::ClaimWindowClosed)
        } else if curve::base_point(reveal) != self.lock_point_claim@ {
            Err(SettleError::BadSecret)
        } else {
            Ok(self.amount_lamports)
        }
    }

    /// What a refund with the scalar `reveal` at time `now` answers.
    pub open spec fn refund_answer(self, reveal: nat, now: u64) -> Result<u64, SettleError> {
        if self.settled {
            Err(SettleError::AlreadySettled)
        } else if now < self.t_refund {
            Err(SettleError::RefundTooEarly)
        } else if curve::base_point(reveal) != self.lock_point_refund@ {
            Err(SettleError::BadSecret)
        } else {
            Ok(self.amount_lamports)
        }
    }

    /// The escrow once it settled with `reveal`.
    pub open spec fn settle(self, reveal: Scalar) -> SolEscrowView {
        SolEscrowView { revealed: Some(reveal), settled: true, ..self }
    }
}

impl View for SolEscrow {
    type V = SolEscrowView;

    closed spec fn view(&self) -> SolEscrowView {
        SolEscrowView {
            lock_point_claim: self.lock_point_claim,
            lock_point_refund: self.lock_point_refund,
            amount_lamports: self.amount_lamports,
            t_refund: self.t_refund,
            revealed: self.revealed,
            settled: self.settled,
        }
    }
}

impl SolEscrow {
    /// What the escrow shows to everyone, field by field: the two committed points, the amount,
    /// the timelock, and the scalar that a settlement revealed.
    pub fn shown(&self) -> (r: (&Point, &Point, u64, u64, Option<Scalar>))
        ensures
            *r.0 == self@.lock_point_claim,
            *r.1 == self@.lock_point_refund,
            r.2 == self@.amount_lamports,
            r.3 == self@.t_refund,
            r.4 == self@.revealed,
    {
        (
            &self.lock_point_claim,
            &self.lock_point_refund,
            self.amount_lamports,
            self.t_refund,
            self.revealed,
        )
    }

    /// Lock an amount under the two commitments and the timelock.
    pub fn lock(
        lock_point_claim: Point,
        lock_point_refund: Point,
        amount_lamports: u64,
        t_refund: u64,
    ) -> (e: SolEscrow)
        ensures
            e@ == (SolEscrowView {
                lock_point_claim,
                lock_point_refund,
                amount_lamports,
                t_refund,
                revealed: None,
                settled: false,
            }),
    {
        SolEscrow {
            lock_point_claim,
            lock_point_refund,
            amount_lamports,
            t_refund,
            revealed: None,
            settled: false,
        }
    }

    /// Alice claims by revealing `s_a`; on success the amount pays out and `s_a` is published.
    pub fn claim(&mut self, reveal: Scalar, now: u64) -> (r: Result<u64, SettleError>)
        ensures
            r == old(self)@.claim_answer(reveal@, now),
            r is Ok ==> final(self)@ == old(self)@.settle(reveal),
            r is Err ==> final(self)@ == old(self)@,
            r is Ok ==> curve::opens(reveal@, old(self)@.lock_point_claim@),
    {
        if self.settled {
            return Err(SettleError::AlreadySettled);
        }
        if now >= self.t_refund {
            return Err(SettleError::ClaimWindowClosed);
        }
        if !verify_reveal(&reveal, &self.lock_point_claim) {
            return Err(SettleError::BadSecret);
        }
        self.revealed = Some(reveal);
        self.settled = true;
        Ok(self.amount_lamports)
    }

    /// Bob refunds after the timelock by revealing `s_b`; the amount returns and `s_b` is
    /// published.
    pub fn refund(&mut self, reveal: Scalar, now: u64) -> (r: Result<u64, SettleError>)
        ensures
            r == old(self)@.refund_answer(reveal@, now),
            r is Ok ==> final(self)@ == old(self)@.settle(reveal),
            r is Err ==> final(self)@ == old(self)@,
            r is Ok ==> curve::opens(reveal@, old(self)@.lock_point_refund@),
    {
        if self.settled {
            return Err(SettleError::AlreadySettled);
        }
        if now < self.t_refund {
            return Err(SettleError::RefundTooEarly);
        }
        if !verify_reveal(&reveal, &self.lock_point_refund) {
            return Err(SettleError::BadSecret);
        }
        self.revealed = Some(reveal);
        self.settled = true;
        Ok(self.amount_lamports)
    }
}

/// A local stand-in for the shared Monero vault.
pub struct MoneroVault {
    pub shared_public: Point,
    pub amount_piconero: u64,
}

impl MoneroVault {
    /// The secrets `a` and `b` are the two halves of this vault's key.
    pub open spec fn held_by(self, a: nat, b: nat) -> bool {
        self.shared_public@ == curve::base_point(curve::joint_key(a, b))
    }

    /// Lock an amount to the sum of two points.
    pub fn lock(p_a: &Point, p_b: &Point, amount_piconero: u64) -> (v: MoneroVault)
        ensures
            v.shared_public@ == curve::point_sum(p_a@, p_b@),
            v.amount_piconero == amount_piconero,
            forall|a: nat, b: nat|
                a < curve::group_order() && b < curve::group_order() && p_a@
                    == #[trigger] curve::base_point(a) && p_b@ == #[trigger] curve::base_point(b)
                    ==> v.held_by(a, b),
    {
        MoneroVault { shared_public: shared_public(p_a, p_b), amount_piconero }
    }

    /// Does `candidate·G` equal the shared key? Where two halves hold the vault, exactly their
    /// sum does.
    pub fn try_sweep(&self, candidate_spend_key: &Scalar) -> (r: bool)
        ensures
            r == (curve::base_point(candidate_spend_key@) == self.shared_public@),
            forall|a: nat, b: nat|
                #[trigger] self.held_by(a, b) ==> r == (candidate_spend_key@ == curve::joint_key(
                    a,
                    b,
                )),
    {
        Point::mul_base(candidate_spend_key).same(&self.shared_public)
    }
}

/// At no instant can the escrow be both claimed and refunded.
pub proof fn law_settle_windows_are_disjoint(e: SolEscrowView, s_a: nat, s_b: nat, now: u64)
    ensures
        !(e.claim_answer(s_a, now) is Ok && e.refund_answer(s_b, now) is Ok),
{
}

/// Once settled, the escrow answers every further claim and refund with `AlreadySettled`.
pub proof fn law_settles_once(before: SolEscrowView, reveal: Scalar, other: nat, now: u64)
    ensures
        before.settle(reveal).claim_answer(other, now) == Err::<u64, SettleError>(
            SettleError::AlreadySettled,
        ),
        before.settle(reveal).refund_answer(other, now) == Err::<u64, SettleError>(
            SettleError::AlreadySettled,
        ),
{
}

/// The holder of a committed secret can settle in the matching window, whatever the amount:
/// with `s_a` behind the claim point a claim before the timelock pays the whole amount, and
/// with `s_b` behind the refund point a refund at or after it returns the whole amount.
pub proof fn law_committed_secret_settles(
    e: SolEscrowView,
    alice: KeyShare,
    bob: KeyShare,
    now: u64,
)
    requires
        !e.settled,
        alice.consistent(),
        bob.consistent(),
        e.lock_point_claim == alice.public,
        e.lock_point_refund == bob.public,
    ensures
        now < e.t_refund ==> e.claim_answer(alice.secret@, now) == Ok::<u64, SettleError>(
            e.amount_lamports,
        ),
        now >= e.t_refund ==> e.refund_answer(bob.secret@, now) == Ok::<u64, SettleError>(
            e.amount_lamports,
        ),
{
}

/// A claim by the holder of `s_a` publishes `s_a`, and with it the holder of `s_b` can form the
/// key of the shared vault.
pub proof fn law_claim_unlocks_the_vault(
    e: SolEscrowView,
    vault: MoneroVault,
    s_a: nat,
    s_b: nat,
    reveal: Scalar,
    now: u64,
)
    requires
        curve::opens(s_a, e.lock_point_claim@),
        vault.held_by(s_a, s_b),
        reveal@ < curve::group_order(),
        e.claim_answer(reveal@, now) is Ok,
    ensures
        e.settle(reveal).revealed == Some(reveal),
        reveal@ == s_a,
        curve::base_point(curve::joint_key(reveal@, s_b)) == vault.shared_public@,
{
}

/// A refund by the holder of `s_b` publishes `s_b`, and with it the holder of `s_a` can form
/// the key of the shared vault.
pub proof fn law_refund_unlocks_the_vault(
    e: SolEscrowView,
    vault: MoneroVault,
    s_a: nat,
    s_b: nat,
    reveal: Scalar,
    now: u64,
)
    requires
        curve::opens(s_b, e.lock_point_refund@),
        vault.held_by(s_a, s_b),
        reveal@ < curve::group_order(),
        e.refund_answer(reveal@, now) is Ok,
    ensures
        e.settle(reveal).revealed == Some(reveal),
        reveal@ == s_b,
        curve::base_point(curve::joint_key(s_a, reveal@)) == vault.shared_public@,
{
}

/// Neither half alone is the spend key, unless the other half is zero.
pub proof fn law_one_half_is_not_enough(s_a: nat, s_b: nat)
    requires
        s_a < curve::group_order(),
        s_b < curve::group_order(),
    ensures
        curve::joint_key(s_a, s_b) == s_a <==> s_b == 0,
        curve::joint_key(s_a, s_b) == s_b <==> s_a == 0,
{
}

/// What a claim and a refund of an escrow answer, and what each is refused for: a settled escrow
/// answers neither, a claim belongs before the timelock and a refund at or after it, and either
/// needs the secret behind its own point. Whoever settles gets the whole amount, and the escrow
/// keeps its terms and shows the secret.
pub proof fn law_an_escrow_pays_its_amount(e: SolEscrowView, reveal: Scalar, now: u64)
    ensures
        e.claim_answer(reveal@, now) is Ok <==> !e.settled && now < e.t_refund
            && curve::base_point(reveal@) == e.lock_point_claim@,
        e.claim_answer(reveal@, now) matches Ok(paid) ==> paid == e.amount_lamports,
        e.refund_answer(reveal@, now) is Ok <==> !e.settled && now >= e.t_refund
            && curve::base_point(reveal@) == e.lock_point_refund@,
        e.refund_answer(reveal@, now) matches Ok(paid) ==> paid == e.amount_lamports,
        e.settled ==> e.claim_answer(reveal@, now) == Err::<u64, SettleError>(
            SettleError::AlreadySettled,
        ) && e.refund_answer(reveal@, now) == Err::<u64, SettleError>(SettleError::AlreadySettled),
        !e.settled && now >= e.t_refund ==> e.claim_answer(reveal@, now) == Err::<u64, SettleError>(
            SettleError::ClaimWindowClosed,
        ),
        !e.settled && now < e.t_refund ==> e.refund_answer(reveal@, now) == Err::<u64, SettleError>(
            SettleError::RefundTooEarly,
        ),
        !e.settled && now < e.t_refund && curve::base_point(reveal@) != e.lock_point_claim@
            ==> e.claim_answer(reveal@, now) == Err::<u64, SettleError>(SettleError::BadSecret),
        !e.settled && now >= e.t_refund && curve::base_point(reveal@) != e.lock_point_refund@
            ==> e.refund_answer(reveal@, now) == Err::<u64, SettleError>(SettleError::BadSecret),
        ({
            let after = e.settle(reveal);
            &&& after.settled && after.revealed == Some(reveal)
            &&& after.lock_point_claim == e.lock_point_claim
            &&& after.lock_point_refund == e.lock_point_refund
            &&& after.amount_lamports == e.amount_lamports
            &&& after.t_refund == e.t_refund
        }),
{
}

/// A consistent share's public point is the base point times its secret, and its secret is the
/// only canonical scalar of which that is so.
pub proof fn law_shares_pair_a_secret_with_its_point(share: KeyShare, n: nat)
    requires
        share.consistent(),
    ensures
        share.public@ == curve::base_point(share.secret@),
        share.secret@ < curve::group_order(),
        n < curve::group_order() && curve::base_point(n) == share.public@ ==> n == share.secret@,
{
}

} // verus!
