# Suture

Trustless, self-custodial atomic swaps between Monero (XMR) and Solana (SOL), with the protocol
logic written in Verus and proved.

Alice holds XMR and wants SOL; Bob holds SOL and wants XMR. Each owns one half of the spend key of
a shared Monero address, `s_a` and `s_b`, with public points `P_a = s_a·G` and `P_b = s_b·G`. Bob
locks SOL in an escrow that names `P_a` as claim point and `P_b` as refund point; Alice locks XMR
in the shared address. A claim has to publish `s_a`, which gives Bob `s_a + s_b`; a refund has to
publish `s_b`, which gives it to Alice. Both chains work on Ed25519, so one point serves both.

Two timelocks keep the endings apart: before `t0`, and until Bob calls `set_ready`, only he can
refund; once ready, or from `t0`, and before `t1`, only Alice can claim; from `t1` only Bob can
refund again.

## Layout

- `src/`: the library. Its functions carry contracts, apart from the methods of the backend traits
  and one conversion, of which nothing is claimed; the `law_` proof functions state what holds of
  several functions together.
  - `curve`, `keys`: scalars, points, key shares, in-memory models of escrow and vault
  - `swap`, `executor`: the state machine of each party, and the seam to the chains
  - `codec`, `address`, `program`: the escrow program
  - `sol`, `xmr`, `live`: the daemon's conversations with a node and a wallet, the watcher, and a
    round of the run loop
  - `guarantees`: laws across the program and the state machines
  - `bytes`, `text`, `json`: what the others are written with
- `tests/`: tests of the library, with the curve, Solana and Monero crates linked
- `app/`: the program's entry point, HTTP and wallet I/O, the run loop, and a runner

## What is trusted

Curve arithmetic, program-derived addresses, base58, base64, JSON text, transaction signing,
Monero key parsing and operating-system entropy come from their crates. Each is called through a
small wrapper, or directly under a declared contract; that contract is believed, not proved, and
says what it claims. What the chains and wallets answer is never believed: the contracts hold for
every answer.
