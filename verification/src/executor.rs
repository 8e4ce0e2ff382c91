//! The seam between the state machine's decisions and the chains that carry them out.
use vstd::prelude::*;

use crate::curve::Scalar;
use crate::swap::Action;

verus! {

/// The chain operations that carry out actions. Nothing is asked of an implementation: what a
/// method does is its own affair, and a caller learns only that it was called.
pub trait SwapChains {
    /// Maker: lock SOL into the escrow.
    fn lock_sol(&mut self);

    /// Maker: open the taker's claim window.
    fn set_ready(&mut self);

    /// Taker: lock XMR into the shared address.
    fn lock_xmr(&mut self);

    /// Taker: claim the SOL, which publishes her spend half.
    fn claim_sol(&mut self);

    /// Maker: refund the SOL, which publishes his spend half.
    fn refund_sol(&mut self);

    /// Sweep the shared address with the reconstructed spend key.
    fn sweep_xmr(&mut self, spend_key: Scalar);
}

/// Carry out one action: exactly the call that belongs to it, with the action's spend key for a
/// sweep, and no call at all for [`Action::Done`].
pub fn execute<C: SwapChains>(action: Action, chains: &mut C)
    ensures
        match action {
            Action::LockSol => exists|c: &mut C|
                *c == *old(chains) && *final(c) == *final(chains) && #[trigger] call_ensures(
                    C::lock_sol,
                    (c,),
                    (),
                ),
            Action::SetReady => exists|c: &mut C|
                *c == *old(chains) && *final(c) == *final(chains) && #[trigger] call_ensures(
                    C::set_ready,
                    (c,),
                    (),
                ),
            Action::LockXmr => exists|c: &mut C|
                *c == *old(chains) && *final(c) == *final(chains) && #[trigger] call_ensures(
                    C::lock_xmr,
                    (c,),
                    (),
                ),
            Action::ClaimSol => exists|c: &mut C|
                *c == *old(chains) && *final(c) == *final(chains) && #[trigger] call_ensures(
                    C::claim_sol,
                    (c,),
                    (),
                ),
            Action::RefundSol => exists|c: &mut C|
                *c == *old(chains) && *final(c) == *final(chains) && #[trigger] call_ensures(
                    C::refund_sol,
                    (c,),
                    (),
                ),
            Action::SweepXmr { spend_key } => exists|c: &mut C|
                *c == *old(chains) && *final(c) == *final(chains) && #[trigger] call_ensures(
                    C::sweep_xmr,
                    (c, spend_key),
                    (),
                ),
            Action::Done => *final(chains) == *old(chains),
        },
{
    match action {
        Action::LockSol => chains.lock_sol(),
        Action::SetReady => chains.set_ready(),
        Action::LockXmr => chains.lock_xmr(),
        Action::ClaimSol => chains.claim_sol(),
        Action::RefundSol => chains.refund_sol(),
        Action::SweepXmr { spend_key } => chains.sweep_xmr(spend_key),
        Action::Done => {},
    }
}

} // verus!
