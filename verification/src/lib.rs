//! Verified core of an atomic swap between Monero and Solana.
//!
//! Alice holds XMR and wants SOL; Bob holds SOL and wants XMR. Each side owns half of the
//! spend key of a shared Monero address. Bob locks SOL in an escrow that names the public
//! points of both halves; whoever settles the escrow has to publish the matching half, which
//! is exactly what the other side needs to move the Monero.
//!
//! - [`bytes`], [`text`] and [`json`]: little-endian numbers, spelled numbers, JSON values.
//! - [`curve`] and [`keys`]: Ed25519 scalars and points, key shares, the local models of the
//!   escrow and of the shared vault.
//! - [`swap`] and [`executor`]: each party's state machine, and the seam to the chains.
//! - [`codec`], [`address`] and [`program`]: the escrow program's byte layouts, the addresses
//!   of its accounts, and what each instruction does to them.
//! - [`sol`] and [`xmr`]: a party's two backends, as conversations with a Solana node and a
//!   Monero wallet.
//! - [`live`]: the seam over two backends, the watcher, and a round of the run loop.
//! - [`effects`]: what each instruction of the program does, from its bytes to the accounts.
//! - [`guarantees`]: what holds of the program and of both parties' state machines together.
pub mod address;
pub mod bytes;
pub mod codec;
pub mod curve;
pub mod effects;
pub mod executor;
pub mod guarantees;
pub mod json;
pub mod keys;
pub mod live;
pub mod program;
pub mod sol;
pub mod swap;
pub mod text;
pub mod xmr;

pub use bytes::{lt_le, same32};
pub use text::hex32;
