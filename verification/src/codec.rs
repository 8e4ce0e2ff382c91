//! Byte layouts: the instructions that the escrow program accepts and the account it keeps.
//!
//! Fields are written in order, integers little-endian, booleans as one byte, and an
//! instruction is preceded by the one-byte number of its variant.
use vstd::prelude::*;

use crate::bytes;
use crate::text;

verus! {

/// 32 zero bytes: what an escrow reveals before it settles, and the System Program's address.
pub const NO_BYTES: [u8; 32] = [
    0, 0, 0, 0, 0, 0, 0, 0, 0, 0, 0, 0, 0, 0, 0, 0, 0, 0, 0, 0, 0, 0, 0, 0, 0, 0, 0, 0, 0, 0, 0, 0,
];

/// The instructions of the escrow program.
#[derive(Debug, Clone, Copy, PartialEq, Eq)]
pub enum SwapInstruction {
    /// Bob locks `amount` lamports and pins the swap terms.
    /// Accounts: locker (signer, writable), escrow (writable), system program.
    Lock {
        id: [u8; 32],
        claimer: [u8; 32],
        fee_recipient: [u8; 32],
        claim_point: [u8; 32],
        refund_point: [u8; 32],
        amount: u64,
        fee_bps: u16,
        t0: i64,
        t1: i64,
    },
    /// Bob has seen Alice's XMR lock and opens her claim window early.
    /// Accounts: escrow (writable), locker (signer).
    SetReady,
    /// Alice claims the SOL by revealing `s_a`.
    /// Accounts: escrow (writable), claimer (writable), fee recipient (writable).
    Claim { reveal: [u8; 32] },
    /// Bob takes the SOL back by revealing `s_b`.
    /// Accounts: escrow (writable), locker (writable).
    Refund { reveal: [u8; 32] },
    /// Bob reclaims the leftover rent of a settled escrow.
    /// Accounts: escrow (writable), locker (signer, writable).
    Close,
}

/// The escrow account.
#[derive(Debug, Clone, Copy, PartialEq, Eq)]
pub struct Escrow {
    pub locker: [u8; 32],
    pub claimer: [u8; 32],
    pub fee_recipient: [u8; 32],
    pub claim_point: [u8; 32],
    pub refund_point: [u8; 32],
    pub amount: u64,
    pub fee_bps: u16,
    pub t0: i64,
    pub t1: i64,
    pub id: [u8; 32],
    pub bump: u8,
    pub ready: bool,
    pub settled: bool,
    /// Zero until the escrow settles, then the scalar that was revealed to settle it.
    pub revealed: [u8; 32],
}

impl Escrow {
    /// Size of the account, which is the same for every escrow.
    pub const LEN: usize = 32 * 5 + 8 + 2 + 8 + 8 + 32 + 1 + 1 + 1 + 32;
}

impl Default for Escrow {
    /// The escrow of all zeroes.
    fn default() -> (e: Escrow)
        ensures
            e == (Escrow {
                locker: NO_BYTES,
                claimer: NO_BYTES,
                fee_recipient: NO_BYTES,
                claim_point: NO_BYTES,
                refund_point: NO_BYTES,
                amount: 0,
                fee_bps: 0,
                t0: 0,
                t1: 0,
                id: NO_BYTES,
                bump: 0,
                ready: false,
                settled: false,
                revealed: NO_BYTES,
            }),
    {
        Escrow {
            locker: NO_BYTES,
            claimer: NO_BYTES,
            fee_recipient: NO_BYTES,
            claim_point: NO_BYTES,
            refund_point: NO_BYTES,
            amount: 0,
            fee_bps: 0,
            t0: 0,
            t1: 0,
            id: NO_BYTES,
            bump: 0,
            ready: false,
            settled: false,
            revealed: NO_BYTES,
        }
    }
}

/// Why bytes were refused.
#[derive(Debug, Clone, Copy, PartialEq, Eq, Structural)]
pub enum DecodeError {
    /// The input ended inside a field.
    UnexpectedEnd,
    /// Bytes were left over after the last field.
    TrailingBytes,
    /// No instruction has this number.
    BadTag(u8),
    /// A boolean byte was neither zero nor one.
    BadBool(u8),
}

impl DecodeError {
    /// The wording of the error.
    pub open spec fn wording(self) -> Seq<char> {
        match self {
            DecodeError::UnexpectedEnd => "Unexpected length of input"@,
            DecodeError::TrailingBytes => "Not all bytes read"@,
            DecodeError::BadTag(tag) => "Unexpected variant tag: "@ + text::decimal(tag as nat),
            DecodeError::BadBool(b) => "Invalid bool representation: "@ + text::decimal(b as nat),
        }
    }

    /// The error as text.
    pub fn message(&self) -> (s: String)
        ensures
            s@ == self.wording(),
    {
        match *self {
            DecodeError::UnexpectedEnd => "Unexpected length of input".to_owned(),
            DecodeError::TrailingBytes => "Not all bytes read".to_owned(),
            DecodeError::BadTag(tag) => {
                let mut s = "Unexpected variant tag: ".to_owned();
                text::push_decimal(&mut s, tag as u64);
                s
            },
            DecodeError::BadBool(b) => {
                let mut s = "Invalid bool representation: ".to_owned();
                text::push_decimal(&mut s, b as u64);
                s
            },
        }
    }
}

/// A signed 64-bit number as the unsigned number with the same bits.
pub open spec fn twos_complement(v: i64) -> nat {
    if v < 0 {
        (v + 0x1_0000_0000_0000_0000) as nat
    } else {
        v as nat
    }
}

/// The byte of a boolean.
pub open spec fn bool_byte(b: bool) -> u8 {
    if b {
        1
    } else {
        0
    }
}

/// The bytes of a lock instruction.
pub open spec fn lock_bytes(
    id: Seq<u8>,
    claimer: Seq<u8>,
    fee_recipient: Seq<u8>,
    claim_point: Seq<u8>,
    refund_point: Seq<u8>,
    amount: u64,
    fee_bps: u16,
    t0: i64,
    t1: i64,
) -> Seq<u8> {
    seq![0u8] + id + claimer + fee_recipient + claim_point + refund_point + bytes::le_bytes(
        amount as nat,
        8,
    ) + bytes::le_bytes(fee_bps as nat, 2) + bytes::le_bytes(twos_complement(t0), 8)
        + bytes::le_bytes(twos_complement(t1), 8)
}

impl SwapInstruction {
    /// The bytes of the instruction.
    pub open spec fn bytes(self) -> Seq<u8> {
        match self {
            SwapInstruction::Lock {
                id,
                claimer,
                fee_recipient,
                claim_point,
                refund_point,
                amount,
                fee_bps,
                t0,
                t1,
            } => lock_bytes(
                id@,
                claimer@,
                fee_recipient@,
                claim_point@,
                refund_point@,
                amount,
                fee_bps,
                t0,
                t1,
            ),
            SwapInstruction::SetReady => seq![1u8],
            SwapInstruction::Claim { reveal } => seq![2u8] + reveal@,
            SwapInstruction::Refund { reveal } => seq![3u8] + reveal@,
            SwapInstruction::Close => seq![4u8],
        }
    }
}

/// How many bytes the instruction with a given number takes, itself included.
pub open spec fn instruction_len(tag: u8) -> nat {
    if tag == 0 {
        187
    } else if tag == 2 || tag == 3 {
        33
    } else {
        1
    }
}

/// Why instruction bytes are refused, `None` where they are an instruction.
pub open spec fn instruction_error(b: Seq<u8>) -> Option<DecodeError> {
    if b.len() == 0 {
        Some(DecodeError::UnexpectedEnd)
    } else if b[0] > 4 {
        Some(DecodeError::BadTag(b[0]))
    } else if b.len() < instruction_len(b[0]) {
        Some(DecodeError::UnexpectedEnd)
    } else if b.len() > instruction_len(b[0]) {
        Some(DecodeError::TrailingBytes)
    } else {
        None
    }
}

impl Escrow {
    /// The bytes of the account.
    pub open spec fn bytes(self) -> Seq<u8> {
        self.locker@ + self.claimer@ + self.fee_recipient@ + self.claim_point@ + self.refund_point@
            + bytes::le_bytes(self.amount as nat, 8) + bytes::le_bytes(self.fee_bps as nat, 2)
            + bytes::le_bytes(twos_complement(self.t0), 8) + bytes::le_bytes(
            twos_complement(self.t1),
            8,
        ) + self.id@ + seq![self.bump, bool_byte(self.ready), bool_byte(self.settled)]
            + self.revealed@
    }
}

/// Why account bytes are refused, `None` where they are an escrow.
pub open spec fn escrow_error(b: Seq<u8>) -> Option<DecodeError> {
    if b.len() < 220 {
        Some(DecodeError::UnexpectedEnd)
    } else if b[219] > 1 {
        Some(DecodeError::BadBool(b[219]))
    } else if b.len() < 221 {
        Some(DecodeError::UnexpectedEnd)
    } else if b[220] > 1 {
        Some(DecodeError::BadBool(b[220]))
    } else if b.len() < Escrow::LEN {
        Some(DecodeError::UnexpectedEnd)
    } else if b.len() > Escrow::LEN {
        Some(DecodeError::TrailingBytes)
    } else {
        None
    }
}

/// The instruction that is written in these bytes.
pub open spec fn instruction_of(b: Seq<u8>) -> SwapInstruction {
    choose|ix: SwapInstruction| #[trigger] ix.bytes() == b
}

/// The escrow that is written in these bytes.
pub open spec fn escrow_of(b: Seq<u8>) -> Escrow {
    choose|e: Escrow| #[trigger] e.bytes() == b
}

fn to_unsigned(v: i64) -> (u: u64)
    ensures
        u as nat == twos_complement(v),
{
    if v < 0 {
        (v as i128 + 0x1_0000_0000_0000_0000i128) as u64
    } else {
        v as u64
    }
}

fn to_signed(u: u64) -> (v: i64)
    ensures
        twos_complement(v) == u as nat,
{
    if u >= 0x8000_0000_0000_0000u64 {
        (u as i128 - 0x1_0000_0000_0000_0000i128) as i64
    } else {
        u as i64
    }
}

fn read_unsigned(data: &[u8], at: usize) -> (v: u64)
    requires
        at + 8 <= data@.len(),
    ensures
        bytes::le_bytes(v as nat, 8) == data@.subrange(at as int, at + 8),
{
    proof {
        bytes::lemma_le_bytes_of_value(data@.subrange(at as int, at + 8));
    }
    bytes::read_le(data, at, 8)
}

fn read_signed(data: &[u8], at: usize) -> (v: i64)
    requires
        at + 8 <= data@.len(),
    ensures
        bytes::le_bytes(twos_complement(v), 8) == data@.subrange(at as int, at + 8),
{
    to_signed(read_unsigned(data, at))
}

fn read_short(data: &[u8], at: usize) -> (v: u16)
    requires
        at + 2 <= data@.len(),
    ensures
        bytes::le_bytes(v as nat, 2) == data@.subrange(at as int, at + 2),
{
    proof {
        let part = data@.subrange(at as int, at + 2);
        bytes::lemma_le_bytes_of_value(part);
        bytes::lemma_le_nat_bound(part);
        bytes::lemma_byte_range_8(2);
    }
    bytes::read_le(data, at, 2) as u16
}

impl SwapInstruction {
    /// Write the instruction.
    pub fn to_bytes(&self) -> (out: Vec<u8>)
        ensures
            out@ == self.bytes(),
    {
        let mut out: Vec<u8> = Vec::new();
        match self {
            SwapInstruction::Lock {
                id,
                claimer,
                fee_recipient,
                claim_point,
                refund_point,
                amount,
                fee_bps,
                t0,
                t1,
            } => {
                out.push(0);
                assert(out@ =~= seq![0u8]);
                bytes::push32(&mut out, id);
                bytes::push32(&mut out, claimer);
                bytes::push32(&mut out, fee_recipient);
                bytes::push32(&mut out, claim_point);
                bytes::push32(&mut out, refund_point);
                bytes::push_le(&mut out, *amount, 8);
                bytes::push_le(&mut out, *fee_bps as u64, 2);
                bytes::push_le(&mut out, to_unsigned(*t0), 8);
                bytes::push_le(&mut out, to_unsigned(*t1), 8);
            },
            SwapInstruction::SetReady => out.push(1),
            SwapInstruction::Claim { reveal } => {
                out.push(2);
                assert(out@ =~= seq![2u8]);
                bytes::push32(&mut out, reveal);
            },
            SwapInstruction::Refund { reveal } => {
                out.push(3);
                assert(out@ =~= seq![3u8]);
                bytes::push32(&mut out, reveal);
            },
            SwapInstruction::Close => out.push(4),
        }
        assert(out@ =~= self.bytes());
        out
    }

    /// Read an instruction, which must take up the whole input.
    pub fn try_from_slice(data: &[u8]) -> (r: Result<SwapInstruction, DecodeError>)
        ensures
            match r {
                Ok(ix) => instruction_error(data@) is None && ix.bytes() == data@ && ix
                    == instruction_of(data@),
                Err(e) => instruction_error(data@) == Some(e),
            },
    {
        let len = data.len();
        if len == 0 {
            return Err(DecodeError::UnexpectedEnd);
        }
        let tag: u8 = data[0];
        if tag > 4 {
            return Err(DecodeError::BadTag(tag));
        }
        let want: usize = if tag == 0 {
            187
        } else if tag == 2 || tag == 3 {
            33
        } else {
            1
        };
        if len < want {
            return Err(DecodeError::UnexpectedEnd);
        }
        if len > want {
            return Err(DecodeError::TrailingBytes);
        }
        let ix = if tag == 0 {
            SwapInstruction::Lock {
                id: bytes::read32(data, 1),
                claimer: bytes::read32(data, 33),
                fee_recipient: bytes::read32(data, 65),
                claim_point: bytes::read32(data, 97),
                refund_point: bytes::read32(data, 129),
                amount: read_unsigned(data, 161),
                fee_bps: read_short(data, 169),
                t0: read_signed(data, 171),
                t1: read_signed(data, 179),
            }
        } else if tag == 1 {
            SwapInstruction::SetReady
        } else if tag == 2 {
            SwapInstruction::Claim { reveal: bytes::read32(data, 1) }
        } else if tag == 3 {
            SwapInstruction::Refund { reveal: bytes::read32(data, 1) }
        } else {
            SwapInstruction::Close
        };
        assert(ix.bytes() =~= data@);
        proof {
            law_instruction_round_trips(ix, instruction_of(data@));
        }
        Ok(ix)
    }
}

impl Escrow {
    /// Write the account.
    pub fn to_bytes(&self) -> (out: Vec<u8>)
        ensures
            out@ == self.bytes(),
            out@.len() == Escrow::LEN,
    {
        let mut out: Vec<u8> = Vec::new();
        bytes::push32(&mut out, &self.locker);
        bytes::push32(&mut out, &self.claimer);
        bytes::push32(&mut out, &self.fee_recipient);
        bytes::push32(&mut out, &self.claim_point);
        bytes::push32(&mut out, &self.refund_point);
        bytes::push_le(&mut out, self.amount, 8);
        bytes::push_le(&mut out, self.fee_bps as u64, 2);
        bytes::push_le(&mut out, to_unsigned(self.t0), 8);
        bytes::push_le(&mut out, to_unsigned(self.t1), 8);
        bytes::push32(&mut out, &self.id);
        out.push(self.bump);
        out.push(if self.ready { 1 } else { 0 });
        out.push(if self.settled { 1 } else { 0 });
        bytes::push32(&mut out, &self.revealed);
        assert(out@ =~= self.bytes());
        proof {
            lemma_escrow_len(*self);
        }
        out
    }

    /// Read an account, which must take up the whole input.
    pub fn try_from_slice(data: &[u8]) -> (r: Result<Escrow, DecodeError>)
        ensures
            match r {
                Ok(escrow) => escrow_error(data@) is None && escrow.bytes() == data@ && escrow
                    == escrow_of(data@),
                Err(e) => escrow_error(data@) == Some(e),
            },
    {
        let len = data.len();
        if len < 220 {
            return Err(DecodeError::UnexpectedEnd);
        }
        let ready: u8 = data[219];
        if ready > 1 {
            return Err(DecodeError::BadBool(ready));
        }
        if len < 221 {
            return Err(DecodeError::UnexpectedEnd);
        }
        let settled: u8 = data[220];
        if settled > 1 {
            return Err(DecodeError::BadBool(settled));
        }
        if len < Escrow::LEN {
            return Err(DecodeError::UnexpectedEnd);
        }
        if len > Escrow::LEN {
            return Err(DecodeError::TrailingBytes);
        }
        let escrow = Escrow {
            locker: bytes::read32(data, 0),
            claimer: bytes::read32(data, 32),
            fee_recipient: bytes::read32(data, 64),
            claim_point: bytes::read32(data, 96),
            refund_point: bytes::read32(data, 128),
            amount: read_unsigned(data, 160),
            fee_bps: read_short(data, 168),
            t0: read_signed(data, 170),
            t1: read_signed(data, 178),
            id: bytes::read32(data, 186),
            bump: data[218],
            ready: ready == 1,
            settled: settled == 1,
            revealed: bytes::read32(data, 221),
        };
        assert(escrow.bytes() =~= data@);
        proof {
            law_escrow_round_trips(escrow, escrow_of(data@));
        }
        Ok(escrow)
    }
}

proof fn lemma_escrow_len(e: Escrow)
    ensures
        e.bytes().len() == Escrow::LEN,
{
    bytes::lemma_le_bytes_len(e.amount as nat, 8);
    bytes::lemma_le_bytes_len(e.fee_bps as nat, 2);
    bytes::lemma_le_bytes_len(twos_complement(e.t0), 8);
    bytes::lemma_le_bytes_len(twos_complement(e.t1), 8);
}

proof fn lemma_number_bytes(a: nat, b: nat, n: nat)
    requires
        a < bytes::byte_range(n),
        b < bytes::byte_range(n),
        bytes::le_bytes(a, n) == bytes::le_bytes(b, n),
    ensures
        a == b,
{
    bytes::lemma_le_bytes_value(a, n);
    bytes::lemma_le_bytes_value(b, n);
}

proof fn lemma_escrow_injective(e: Escrow, other: Escrow)
    requires
        other.bytes() == e.bytes(),
    ensures
        other == e,
{
    lemma_escrow_fields(e);
    lemma_escrow_fields(other);
    bytes::lemma_byte_range_8(8);
    lemma_number_bytes(e.amount as nat, other.amount as nat, 8);
    lemma_number_bytes(e.fee_bps as nat, other.fee_bps as nat, 2);
    lemma_number_bytes(twos_complement(e.t0), twos_complement(other.t0), 8);
    lemma_number_bytes(twos_complement(e.t1), twos_complement(other.t1), 8);
    assert(e.locker =~= other.locker);
    assert(e.claimer =~= other.claimer);
    assert(e.fee_recipient =~= other.fee_recipient);
    assert(e.claim_point =~= other.claim_point);
    assert(e.refund_point =~= other.refund_point);
    assert(e.id =~= other.id);
    assert(e.revealed =~= other.revealed);
}

/// Every escrow is written in exactly [`Escrow::LEN`] bytes, which are accepted back, and which
/// no other escrow is written in: reading what was written gives the same escrow.
pub proof fn law_escrow_round_trips(e: Escrow, other: Escrow)
    ensures
        e.bytes().len() == Escrow::LEN,
        escrow_error(e.bytes()) is None,
        escrow_of(e.bytes()) == e,
        other.bytes() == e.bytes() ==> other == e,
{
    lemma_escrow_len(e);
    lemma_escrow_fields(e);
    lemma_escrow_injective(e, escrow_of(e.bytes()));
    if other.bytes() == e.bytes() {
        lemma_escrow_injective(e, other);
    }
}

proof fn lemma_escrow_fields(e: Escrow)
    ensures
        e.bytes().subrange(0, 32) == e.locker@,
        e.bytes().subrange(32, 64) == e.claimer@,
        e.bytes().subrange(64, 96) == e.fee_recipient@,
        e.bytes().subrange(96, 128) == e.claim_point@,
        e.bytes().subrange(128, 160) == e.refund_point@,
        e.bytes().subrange(160, 168) == bytes::le_bytes(e.amount as nat, 8),
        e.bytes().subrange(168, 170) == bytes::le_bytes(e.fee_bps as nat, 2),
        e.bytes().subrange(170, 178) == bytes::le_bytes(twos_complement(e.t0), 8),
        e.bytes().subrange(178, 186) == bytes::le_bytes(twos_complement(e.t1), 8),
        e.bytes().subrange(186, 218) == e.id@,
        e.bytes()[218] == e.bump,
        e.bytes()[219] == bool_byte(e.ready),
        e.bytes()[220] == bool_byte(e.settled),
        e.bytes().subrange(221, 253) == e.revealed@,
{
    lemma_escrow_len(e);
    bytes::lemma_le_bytes_len(e.amount as nat, 8);
    bytes::lemma_le_bytes_len(e.fee_bps as nat, 2);
    bytes::lemma_le_bytes_len(twos_complement(e.t0), 8);
    bytes::lemma_le_bytes_len(twos_complement(e.t1), 8);
    let b = e.bytes();
    assert(b.subrange(0, 32) =~= e.locker@);
    assert(b.subrange(32, 64) =~= e.claimer@);
    assert(b.subrange(64, 96) =~= e.fee_recipient@);
    assert(b.subrange(96, 128) =~= e.claim_point@);
    assert(b.subrange(128, 160) =~= e.refund_point@);
    assert(b.subrange(160, 168) =~= bytes::le_bytes(e.amount as nat, 8));
    assert(b.subrange(168, 170) =~= bytes::le_bytes(e.fee_bps as nat, 2));
    assert(b.subrange(170, 178) =~= bytes::le_bytes(twos_complement(e.t0), 8));
    assert(b.subrange(178, 186) =~= bytes::le_bytes(twos_complement(e.t1), 8));
    assert(b.subrange(186, 218) =~= e.id@);
    assert(b.subrange(221, 253) =~= e.revealed@);
}

proof fn lemma_lock_fields(ix: SwapInstruction)
    requires
        ix is Lock,
    ensures
        ix.bytes().len() == 187,
        ix.bytes()[0] == 0,
        ix.bytes().subrange(1, 33) == ix->id@,
        ix.bytes().subrange(33, 65) == ix->claimer@,
        ix.bytes().subrange(65, 97) == ix->fee_recipient@,
        ix.bytes().subrange(97, 129) == ix->claim_point@,
        ix.bytes().subrange(129, 161) == ix->refund_point@,
        ix.bytes().subrange(161, 169) == bytes::le_bytes(ix->amount as nat, 8),
        ix.bytes().subrange(169, 171) == bytes::le_bytes(ix->fee_bps as nat, 2),
        ix.bytes().subrange(171, 179) == bytes::le_bytes(twos_complement(ix->t0), 8),
        ix.bytes().subrange(179, 187) == bytes::le_bytes(twos_complement(ix->t1), 8),
{
    bytes::lemma_le_bytes_len(ix->amount as nat, 8);
    bytes::lemma_le_bytes_len(ix->fee_bps as nat, 2);
    bytes::lemma_le_bytes_len(twos_complement(ix->t0), 8);
    bytes::lemma_le_bytes_len(twos_complement(ix->t1), 8);
    let b = ix.bytes();
    assert(b.subrange(1, 33) =~= ix->id@);
    assert(b.subrange(33, 65) =~= ix->claimer@);
    assert(b.subrange(65, 97) =~= ix->fee_recipient@);
    assert(b.subrange(97, 129) =~= ix->claim_point@);
    assert(b.subrange(129, 161) =~= ix->refund_point@);
    assert(b.subrange(161, 169) =~= bytes::le_bytes(ix->amount as nat, 8));
    assert(b.subrange(169, 171) =~= bytes::le_bytes(ix->fee_bps as nat, 2));
    assert(b.subrange(171, 179) =~= bytes::le_bytes(twos_complement(ix->t0), 8));
    assert(b.subrange(179, 187) =~= bytes::le_bytes(twos_complement(ix->t1), 8));
}

proof fn lemma_instruction_tag(ix: SwapInstruction)
    ensures
        ix.bytes()[0] == (match ix {
            SwapInstruction::Lock { .. } => 0u8,
            SwapInstruction::SetReady => 1u8,
            SwapInstruction::Claim { .. } => 2u8,
            SwapInstruction::Refund { .. } => 3u8,
            SwapInstruction::Close => 4u8,
        }),
{
    if ix is Lock {
        lemma_lock_fields(ix);
    }
}

proof fn lemma_instruction_injective(ix: SwapInstruction, other: SwapInstruction)
    requires
        other.bytes() == ix.bytes(),
    ensures
        other == ix,
{
    if ix is Lock {
        lemma_lock_fields(ix);
    }
    if other is Lock {
        lemma_lock_fields(other);
    }
    lemma_instruction_tag(ix);
    lemma_instruction_tag(other);
    match ix {
        SwapInstruction::Lock { .. } => {
            bytes::lemma_byte_range_8(8);
            lemma_number_bytes(ix->amount as nat, other->amount as nat, 8);
            lemma_number_bytes(ix->fee_bps as nat, other->fee_bps as nat, 2);
            lemma_number_bytes(twos_complement(ix->t0), twos_complement(other->t0), 8);
            lemma_number_bytes(twos_complement(ix->t1), twos_complement(other->t1), 8);
            assert(ix->id =~= other->id);
            assert(ix->claimer =~= other->claimer);
            assert(ix->fee_recipient =~= other->fee_recipient);
            assert(ix->claim_point =~= other->claim_point);
            assert(ix->refund_point =~= other->refund_point);
        },
        SwapInstruction::Claim { reveal } => {
            assert(ix.bytes().subrange(1, 33) =~= reveal@);
            assert(other.bytes().subrange(1, 33) =~= other->Claim_reveal@);
            assert(reveal =~= other->Claim_reveal);
        },
        SwapInstruction::Refund { reveal } => {
            assert(ix.bytes().subrange(1, 33) =~= reveal@);
            assert(other.bytes().subrange(1, 33) =~= other->Refund_reveal@);
            assert(reveal =~= other->Refund_reveal);
        },
        _ => {},
    }
}

/// How long an instruction is.
pub proof fn law_instruction_length(ix: SwapInstruction)
    ensures
        ix.bytes().len() == (match ix {
            SwapInstruction::Lock { .. } => 187nat,
            SwapInstruction::Claim { .. } => 33,
            SwapInstruction::Refund { .. } => 33,
            _ => 1,
        }),
{
    if ix is Lock {
        lemma_lock_fields(ix);
    }
}

/// Every instruction's bytes are accepted back, and no other instruction is written in them:
/// reading what was written gives the same instruction.
pub proof fn law_instruction_round_trips(ix: SwapInstruction, other: SwapInstruction)
    ensures
        instruction_error(ix.bytes()) is None,
        instruction_of(ix.bytes()) == ix,
        other.bytes() == ix.bytes() ==> other == ix,
{
    if ix is Lock {
        lemma_lock_fields(ix);
    }
    lemma_instruction_injective(ix, instruction_of(ix.bytes()));
    if other.bytes() == ix.bytes() {
        lemma_instruction_injective(ix, other);
    }
}

/// Where the fields of an escrow stand in its account, and how: the numbers little-endian, the
/// timelocks modulo `2^64`, the flags as zero or one.
pub proof fn law_escrow_layout(e: Escrow)
    ensures
        e.bytes().len() == 253,
        e.bytes().subrange(0, 32) == e.locker@,
        e.bytes().subrange(32, 64) == e.claimer@,
        e.bytes().subrange(64, 96) == e.fee_recipient@,
        e.bytes().subrange(96, 128) == e.claim_point@,
        e.bytes().subrange(128, 160) == e.refund_point@,
        bytes::le_nat(e.bytes().subrange(160, 168)) == e.amount,
        bytes::le_nat(e.bytes().subrange(168, 170)) == e.fee_bps,
        bytes::le_nat(e.bytes().subrange(170, 178)) == e.t0 as int % 0x1_0000_0000_0000_0000,
        bytes::le_nat(e.bytes().subrange(178, 186)) == e.t1 as int % 0x1_0000_0000_0000_0000,
        e.bytes().subrange(186, 218) == e.id@,
        e.bytes()[218] == e.bump,
        e.bytes()[219] == 1 <==> e.ready,
        e.bytes()[219] == 0 <==> !e.ready,
        e.bytes()[220] == 1 <==> e.settled,
        e.bytes()[220] == 0 <==> !e.settled,
        e.bytes().subrange(221, 253) == e.revealed@,
{
    lemma_escrow_len(e);
    lemma_escrow_fields(e);
    bytes::lemma_byte_range_8(8);
    bytes::lemma_le_bytes_value(e.amount as nat, 8);
    bytes::lemma_le_bytes_value(e.fee_bps as nat, 2);
    bytes::lemma_le_bytes_value(twos_complement(e.t0), 8);
    bytes::lemma_le_bytes_value(twos_complement(e.t1), 8);
}

/// Where the fields of an instruction stand in its bytes: behind the number of the instruction,
/// the numbers little-endian, the timelocks modulo `2^64`.
pub proof fn law_instruction_layout(ix: SwapInstruction)
    ensures
        ix is Lock ==> {
            let b = ix.bytes();
            &&& b.len() == 187 && b[0] == 0
            &&& b.subrange(1, 33) == ix->id@
            &&& b.subrange(33, 65) == ix->claimer@
            &&& b.subrange(65, 97) == ix->fee_recipient@
            &&& b.subrange(97, 129) == ix->claim_point@
            &&& b.subrange(129, 161) == ix->refund_point@
            &&& bytes::le_nat(b.subrange(161, 169)) == ix->amount
            &&& bytes::le_nat(b.subrange(169, 171)) == ix->fee_bps
            &&& bytes::le_nat(b.subrange(171, 179)) == ix->t0 as int % 0x1_0000_0000_0000_0000
            &&& bytes::le_nat(b.subrange(179, 187)) == ix->t1 as int % 0x1_0000_0000_0000_0000
        },
        ix is SetReady ==> ix.bytes() == seq![1u8],
        ix matches SwapInstruction::Claim { reveal } ==> ix.bytes() == seq![2u8] + reveal@,
        ix matches SwapInstruction::Refund { reveal } ==> ix.bytes() == seq![3u8] + reveal@,
        ix is Close ==> ix.bytes() == seq![4u8],
{
    if ix is Lock {
        lemma_lock_fields(ix);
        bytes::lemma_byte_range_8(8);
        bytes::lemma_le_bytes_value(ix->amount as nat, 8);
        bytes::lemma_le_bytes_value(ix->fee_bps as nat, 2);
        bytes::lemma_le_bytes_value(twos_complement(ix->t0), 8);
        bytes::lemma_le_bytes_value(twos_complement(ix->t1), 8);
    }
}

proof fn lemma_signed_bytes(b: Seq<u8>) -> (v: i64)
    requires
        b.len() == 8,
    ensures
        bytes::le_bytes(twos_complement(v), 8) == b,
{
    bytes::lemma_le_nat_bound(b);
    bytes::lemma_byte_range_8(8);
    bytes::lemma_le_bytes_of_value(b);
    let n = bytes::le_nat(b) as int;
    if n >= 0x8000_0000_0000_0000 {
        (n - 0x1_0000_0000_0000_0000) as i64
    } else {
        n as i64
    }
}

/// There is an array that starts with the first `k` bytes.
proof fn lemma_array_start(b: Seq<u8>, k: nat) -> (a: [u8; 32])
    requires
        b.len() == 32,
        k <= 32,
    ensures
        forall|i: int| 0 <= i < k ==> a@[i] == b[i],
    decreases k,
{
    if k == 0 {
        NO_BYTES
    } else {
        let start = lemma_array_start(b, (k - 1) as nat);
        vstd::array::spec_array_update(start, k - 1, b[k - 1])
    }
}

proof fn lemma_array(b: Seq<u8>) -> (a: [u8; 32])
    requires
        b.len() == 32,
    ensures
        a@ == b,
{
    let a = lemma_array_start(b, 32);
    assert(a@ =~= b);
    a
}

/// Bytes are accepted as an escrow exactly where an escrow is written in them, and are read as
/// that one. Others are refused for the first thing that is wrong with them: for ending before a
/// flag or the end, for a flag that is no boolean, or for what follows the end.
pub proof fn law_escrow_bytes_are_escrows(b: Seq<u8>)
    ensures
        escrow_error(b) is None <==> exists|e: Escrow| #[trigger] e.bytes() == b,
        escrow_error(b) is None ==> escrow_of(b).bytes() == b,
        escrow_error(b) is None <==> b.len() == 253 && b[219] <= 1 && b[220] <= 1,
        b.len() < 220 ==> escrow_error(b) == Some(DecodeError::UnexpectedEnd),
        b.len() >= 220 && b[219] > 1 ==> escrow_error(b) == Some(DecodeError::BadBool(b[219])),
        b.len() == 220 && b[219] <= 1 ==> escrow_error(b) == Some(DecodeError::UnexpectedEnd),
        b.len() >= 221 && b[219] <= 1 && b[220] > 1 ==> escrow_error(b) == Some(
            DecodeError::BadBool(b[220]),
        ),
        221 <= b.len() < 253 && b[219] <= 1 && b[220] <= 1 ==> escrow_error(b) == Some(
            DecodeError::UnexpectedEnd,
        ),
        b.len() > 253 && b[219] <= 1 && b[220] <= 1 ==> escrow_error(b) == Some(
            DecodeError::TrailingBytes,
        ),
{
    if escrow_error(b) is None {
        let part = |i: int, j: int| b.subrange(i, j);
        bytes::lemma_le_bytes_of_value(part(160, 168));
        bytes::lemma_le_nat_bound(part(160, 168));
        bytes::lemma_le_bytes_of_value(part(168, 170));
        bytes::lemma_le_nat_bound(part(168, 170));
        bytes::lemma_byte_range_8(8);
        let e = Escrow {
            locker: lemma_array(part(0, 32)),
            claimer: lemma_array(part(32, 64)),
            fee_recipient: lemma_array(part(64, 96)),
            claim_point: lemma_array(part(96, 128)),
            refund_point: lemma_array(part(128, 160)),
            amount: bytes::le_nat(part(160, 168)) as u64,
            fee_bps: bytes::le_nat(part(168, 170)) as u16,
            t0: lemma_signed_bytes(part(170, 178)),
            t1: lemma_signed_bytes(part(178, 186)),
            id: lemma_array(part(186, 218)),
            bump: b[218],
            ready: b[219] == 1,
            settled: b[220] == 1,
            revealed: lemma_array(part(221, 253)),
        };
        assert(e.bytes() =~= b);
    }
    assert forall|e: Escrow| #[trigger] e.bytes() == b implies escrow_error(b) is None by {
        law_escrow_round_trips(e, e);
    }
}

/// Bytes are accepted as an instruction exactly where one is written in them, and are read as that
/// one. Others are refused for the first thing that is wrong with them: for being empty, for a
/// number that no instruction has, for ending early, or for what follows the end.
pub proof fn law_instruction_bytes_are_instructions(b: Seq<u8>)
    ensures
        instruction_error(b) is None <==> exists|ix: SwapInstruction| #[trigger] ix.bytes() == b,
        instruction_error(b) is None ==> instruction_of(b).bytes() == b,
        b.len() == 0 ==> instruction_error(b) == Some(DecodeError::UnexpectedEnd),
        b.len() > 0 && b[0] > 4 ==> instruction_error(b) == Some(DecodeError::BadTag(b[0])),
        b.len() > 0 && b[0] <= 4 ==> {
            let want: int = if b[0] == 0 {
                187
            } else if b[0] == 2 || b[0] == 3 {
                33
            } else {
                1
            };
            &&& b.len() < want ==> instruction_error(b) == Some(DecodeError::UnexpectedEnd)
            &&& b.len() > want ==> instruction_error(b) == Some(DecodeError::TrailingBytes)
            &&& b.len() == want ==> instruction_error(b) is None
        },
{
    if instruction_error(b) is None {
        let part = |i: int, j: int| b.subrange(i, j);
        if b[0] == 0 {
            bytes::lemma_le_bytes_of_value(part(161, 169));
            bytes::lemma_le_nat_bound(part(161, 169));
            bytes::lemma_le_bytes_of_value(part(169, 171));
            bytes::lemma_le_nat_bound(part(169, 171));
            bytes::lemma_byte_range_8(8);
            let ix = SwapInstruction::Lock {
                id: lemma_array(part(1, 33)),
                claimer: lemma_array(part(33, 65)),
                fee_recipient: lemma_array(part(65, 97)),
                claim_point: lemma_array(part(97, 129)),
                refund_point: lemma_array(part(129, 161)),
                amount: bytes::le_nat(part(161, 169)) as u64,
                fee_bps: bytes::le_nat(part(169, 171)) as u16,
                t0: lemma_signed_bytes(part(171, 179)),
                t1: lemma_signed_bytes(part(179, 187)),
            };
            assert(ix.bytes() =~= b);
        } else if b[0] == 1 {
            assert(SwapInstruction::SetReady.bytes() =~= b);
        } else if b[0] == 2 {
            let ix = SwapInstruction::Claim { reveal: lemma_array(part(1, 33)) };
            assert(ix.bytes() =~= b);
        } else if b[0] == 3 {
            let ix = SwapInstruction::Refund { reveal: lemma_array(part(1, 33)) };
            assert(ix.bytes() =~= b);
        } else {
            assert(SwapInstruction::Close.bytes() =~= b);
        }
    }
    assert forall|ix: SwapInstruction| #[trigger] ix.bytes() == b implies instruction_error(b)
        is None by {
        law_instruction_round_trips(ix, ix);
    }
}

/// How refused bytes are reported.
pub proof fn law_refusals_are_worded(b: u8)
    ensures
        DecodeError::UnexpectedEnd.wording() == "Unexpected length of input"@,
        DecodeError::TrailingBytes.wording() == "Not all bytes read"@,
        DecodeError::BadTag(b).wording() == "Unexpected variant tag: "@ + text::decimal(b as nat),
        DecodeError::BadBool(b).wording() == "Invalid bool representation: "@ + text::decimal(
            b as nat,
        ),
{
}

} // verus!
