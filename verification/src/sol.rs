//! The Solana side of the live executor: building and signing the program's instructions, the
//! JSON-RPC requests that carry them, and what the node's replies mean.
//!
//! Posting a request and waiting are the caller's. A reply comes in as the parsed body, or as
//! the text of the transport failure.
use base64::Engine;
use solana_sdk::hash;
use solana_sdk::instruction;
use solana_sdk::pubkey::Pubkey;
use solana_sdk::signature::{Keypair, Signer};
use solana_sdk::transaction::Transaction;
use std::str::FromStr;
use std::time::Duration;
use vstd::prelude::*;

use crate::address;
use crate::codec;
use crate::effects;
use crate::json;
use crate::json::{Json, JsonView};
use crate::program;
use crate::program::SYSTEM_PROGRAM_ID;
use crate::text;

pub use crate::address::ESCROW_SEED;
pub use crate::codec::{Escrow, SwapInstruction};

verus! {

/// Everything that pins a swap on the SOL side. Both parties hold the same terms, and derive
/// the same escrow address from them.
#[derive(Debug, Clone, Copy)]
pub struct SwapTerms {
    pub id: [u8; 32],
    /// The maker's account: funds the escrow, receives a refund.
    pub locker: [u8; 32],
    /// The taker's receiving account.
    pub claimer: [u8; 32],
    pub fee_recipient: [u8; 32],
    /// `s_a·G`: settling with `s_a` claims.
    pub claim_point: [u8; 32],
    /// `s_b·G`: settling with `s_b` refunds.
    pub refund_point: [u8; 32],
    pub amount: u64,
    pub fee_bps: u16,
    pub t0: i64,
    pub t1: i64,
}

impl SwapTerms {
    /// The escrow address of these terms; `None` where no bump derives one.
    pub open spec fn pda(self, program_id: Seq<u8>) -> Option<Seq<u8>> {
        match address::search_bump(address::escrow_seeds(self.locker@, self.id@), program_id) {
            Some(bump) => address::escrow_address_at(self.locker@, self.id@, bump, program_id),
            None => None,
        }
    }

    /// The escrow address of these terms under a program; `None` where no bump derives one.
    pub fn escrow_pda(&self, program_id: &[u8; 32]) -> (r: Option<[u8; 32]>)
        ensures
            match r {
                Some(escrow) => self.pda(program_id@) == Some(escrow@),
                None => self.pda(program_id@) is None,
            },
    {
        match address::find_escrow_address(&self.locker, &self.id, program_id) {
            Some((escrow, _)) => Some(escrow),
            None => None,
        }
    }
}

/// How talking to the node fails.
#[derive(Debug)]
pub enum SolError {
    /// Network, transport or JSON trouble.
    Transport(String),
    /// The node returned an error object.
    Rpc { code: i64, message: String },
    /// A response was not shaped as expected.
    Decode(String),
    /// A transaction did not confirm in time.
    Timeout(String),
}

/// The contents of a [`SolError`].
pub enum SolErrorView {
    Transport(Seq<char>),
    Rpc { code: i64, message: Seq<char> },
    Decode(Seq<char>),
    Timeout(Seq<char>),
}

impl View for SolError {
    type V = SolErrorView;

    open spec fn view(&self) -> SolErrorView {
        match self {
            SolError::Transport(e) => SolErrorView::Transport(e@),
            SolError::Rpc { code, message } => SolErrorView::Rpc { code: *code, message: message@ },
            SolError::Decode(e) => SolErrorView::Decode(e@),
            SolError::Timeout(e) => SolErrorView::Timeout(e@),
        }
    }
}

impl SolErrorView {
    /// The wording of the error.
    pub open spec fn wording(self) -> Seq<char> {
        match self {
            SolErrorView::Transport(e) => "transport error: "@ + e,
            SolErrorView::Rpc { code, message } => "rpc error "@ + text::signed_decimal(code as int)
                + ": "@ + message,
            SolErrorView::Decode(e) => "decode error: "@ + e,
            SolErrorView::Timeout(e) => "timeout: "@ + e,
        }
    }
}

impl SolError {
    /// The error as text.
    pub fn message(&self) -> (s: String)
        ensures
            s@ == self@.wording(),
    {
        match self {
            SolError::Transport(e) => text::concat("transport error: ", e.as_str()),
            SolError::Rpc { code, message } => {
                let mut s = "rpc error ".to_owned();
                text::push_signed(&mut s, *code);
                s.append(": ");
                s.append(message.as_str());
                s
            },
            SolError::Decode(e) => text::concat("decode error: ", e.as_str()),
            SolError::Timeout(e) => text::concat("timeout: ", e.as_str()),
        }
    }
}

/// The contents of a fallible answer.
pub open spec fn answer_view<T>(r: Result<T, SolError>) -> Result<T, SolErrorView> {
    match r {
        Ok(v) => Ok(v),
        Err(e) => Err(e@),
    }
}

/// An account that an instruction names.
#[derive(Debug, Clone, Copy, PartialEq, Eq)]
pub struct AccountMeta {
    pub pubkey: [u8; 32],
    pub is_signer: bool,
    pub is_writable: bool,
}

impl AccountMeta {
    /// A writable account.
    pub open spec fn spec_writable(pubkey: [u8; 32], is_signer: bool) -> AccountMeta {
        AccountMeta { pubkey, is_signer, is_writable: true }
    }

    /// A writable account.
    pub fn new(pubkey: [u8; 32], is_signer: bool) -> (r: AccountMeta)
        ensures
            r == AccountMeta::spec_writable(pubkey, is_signer),
    {
        AccountMeta { pubkey, is_signer, is_writable: true }
    }

    /// An account that is only read.
    pub fn new_readonly(pubkey: [u8; 32], is_signer: bool) -> (r: AccountMeta)
        ensures
            r == (AccountMeta { pubkey, is_signer, is_writable: false }),
    {
        AccountMeta { pubkey, is_signer, is_writable: false }
    }
}

/// An instruction of a transaction.
#[derive(Debug)]
pub struct Instruction {
    pub program_id: [u8; 32],
    pub accounts: Vec<AccountMeta>,
    pub data: Vec<u8>,
}

/// The contents of an [`Instruction`].
pub struct InstructionView {
    pub program_id: [u8; 32],
    pub accounts: Seq<AccountMeta>,
    pub data: Seq<u8>,
}

impl View for Instruction {
    type V = InstructionView;

    open spec fn view(&self) -> InstructionView {
        InstructionView {
            program_id: self.program_id,
            accounts: self.accounts@,
            data: self.data@,
        }
    }
}

/// The lock instruction of a swap's terms.
pub open spec fn lock_instruction(terms: SwapTerms) -> SwapInstruction {
    SwapInstruction::Lock {
        id: terms.id,
        claimer: terms.claimer,
        fee_recipient: terms.fee_recipient,
        claim_point: terms.claim_point,
        refund_point: terms.refund_point,
        amount: terms.amount,
        fee_bps: terms.fee_bps,
        t0: terms.t0,
        t1: terms.t1,
    }
}

/// The contents of a lock instruction.
pub open spec fn lock_contents(
    program_id: [u8; 32],
    escrow: [u8; 32],
    terms: SwapTerms,
) -> InstructionView {
    InstructionView {
        program_id: program_id,
        accounts: seq![
            AccountMeta::spec_writable(terms.locker, true),
            AccountMeta::spec_writable(escrow, false),
            AccountMeta { pubkey: SYSTEM_PROGRAM_ID, is_signer: false, is_writable: false },
        ],
        data: lock_instruction(terms).bytes(),
    }
}

/// Bob locks the SOL: signed by the locker, who pays.
pub fn lock_ix(program_id: &[u8; 32], escrow: &[u8; 32], terms: &SwapTerms) -> (ix: Instruction)
    ensures
        ix@ == lock_contents(*program_id, *escrow, *terms),
{
    let ix = SwapInstruction::Lock {
        id: terms.id,
        claimer: terms.claimer,
        fee_recipient: terms.fee_recipient,
        claim_point: terms.claim_point,
        refund_point: terms.refund_point,
        amount: terms.amount,
        fee_bps: terms.fee_bps,
        t0: terms.t0,
        t1: terms.t1,
    };
    let accounts = vec![
        AccountMeta::new(terms.locker, true),
        AccountMeta::new(*escrow, false),
        AccountMeta::new_readonly(SYSTEM_PROGRAM_ID, false),
    ];
    Instruction { program_id: *program_id, accounts, data: ix.to_bytes() }
}

/// The contents of a `set_ready` instruction.
pub open spec fn set_ready_contents(
    program_id: [u8; 32],
    escrow: [u8; 32],
    locker: [u8; 32],
) -> InstructionView {
    InstructionView {
        program_id: program_id,
        accounts: seq![
            AccountMeta::spec_writable(escrow, false),
            AccountMeta { pubkey: locker, is_signer: true, is_writable: false },
        ],
        data: SwapInstruction::SetReady.bytes(),
    }
}

/// Bob opens Alice's claim window: signed by the locker.
pub fn set_ready_ix(program_id: &[u8; 32], escrow: &[u8; 32], locker: &[u8; 32]) -> (ix:
    Instruction)
    ensures
        ix@ == set_ready_contents(*program_id, *escrow, *locker),
{
    let accounts = vec![
        AccountMeta::new(*escrow, false),
        AccountMeta::new_readonly(*locker, true),
    ];
    Instruction { program_id: *program_id, accounts, data: SwapInstruction::SetReady.to_bytes() }
}

/// The contents of a claim instruction.
pub open spec fn claim_contents(
    program_id: [u8; 32],
    escrow: [u8; 32],
    claimer: [u8; 32],
    fee_recipient: [u8; 32],
    reveal: [u8; 32],
) -> InstructionView {
    InstructionView {
        program_id: program_id,
        accounts: seq![
            AccountMeta::spec_writable(escrow, false),
            AccountMeta::spec_writable(claimer, false),
            AccountMeta::spec_writable(fee_recipient, false),
        ],
        data: (SwapInstruction::Claim { reveal }).bytes(),
    }
}

/// Alice claims the SOL, revealing her half. Nobody in particular has to sign.
pub fn claim_ix(
    program_id: &[u8; 32],
    escrow: &[u8; 32],
    claimer: &[u8; 32],
    fee_recipient: &[u8; 32],
    reveal: [u8; 32],
) -> (ix: Instruction)
    ensures
        ix@ == claim_contents(*program_id, *escrow, *claimer, *fee_recipient, reveal),
{
    let accounts = vec![
        AccountMeta::new(*escrow, false),
        AccountMeta::new(*claimer, false),
        AccountMeta::new(*fee_recipient, false),
    ];
    let ix = SwapInstruction::Claim { reveal };
    Instruction { program_id: *program_id, accounts, data: ix.to_bytes() }
}

/// The contents of a refund instruction.
pub open spec fn refund_contents(
    program_id: [u8; 32],
    escrow: [u8; 32],
    locker: [u8; 32],
    reveal: [u8; 32],
) -> InstructionView {
    InstructionView {
        program_id: program_id,
        accounts: seq![
            AccountMeta::spec_writable(escrow, false),
            AccountMeta::spec_writable(locker, false),
        ],
        data: (SwapInstruction::Refund { reveal }).bytes(),
    }
}

/// Bob takes the SOL back, revealing his half.
pub fn refund_ix(
    program_id: &[u8; 32],
    escrow: &[u8; 32],
    locker: &[u8; 32],
    reveal: [u8; 32],
) -> (ix: Instruction)
    ensures
        ix@ == refund_contents(*program_id, *escrow, *locker, reveal),
{
    let accounts = vec![AccountMeta::new(*escrow, false), AccountMeta::new(*locker, false)];
    let ix = SwapInstruction::Refund { reveal };
    Instruction { program_id: *program_id, accounts, data: ix.to_bytes() }
}

/// The contents of a `close` instruction.
pub open spec fn close_contents(
    program_id: [u8; 32],
    escrow: [u8; 32],
    locker: [u8; 32],
) -> InstructionView {
    InstructionView {
        program_id: program_id,
        accounts: seq![
            AccountMeta::spec_writable(escrow, false),
            AccountMeta::spec_writable(locker, true),
        ],
        data: SwapInstruction::Close.bytes(),
    }
}

/// Bob reclaims the rent of a settled escrow: signed by the locker.
pub fn close_ix(program_id: &[u8; 32], escrow: &[u8; 32], locker: &[u8; 32]) -> (ix: Instruction)
    ensures
        ix@ == close_contents(*program_id, *escrow, *locker),
{
    let accounts = vec![AccountMeta::new(*escrow, false), AccountMeta::new(*locker, true)];
    Instruction { program_id: *program_id, accounts, data: SwapInstruction::Close.to_bytes() }
}

/// The base58 text of an address.
pub uninterp spec fn base58_text(key: Seq<u8>) -> Seq<char>;

/// `Pubkey`'s text form.
#[verifier::external_body]
fn pubkey_text(key: &[u8; 32]) -> (s: String)
    ensures
        s@ == base58_text(key@),
{
    Pubkey::new_from_array(*key).to_string()
}

/// The hash that `Hash::from_str` reads from a text, or the text of its error.
pub uninterp spec fn parsed_hash(s: Seq<char>) -> Result<Seq<u8>, Seq<char>>;

/// `Hash::from_str`, its error as text.
#[verifier::external_body]
fn parse_hash(s: &str) -> (r: Result<[u8; 32], String>)
    ensures
        match r {
            Ok(hash) => parsed_hash(s@) == Ok::<Seq<u8>, Seq<char>>(hash@),
            Err(e) => parsed_hash(s@) == Err::<Seq<u8>, Seq<char>>(e@),
        },
{
    match hash::Hash::from_str(s) {
        Ok(hash) => Ok(hash.to_bytes()),
        Err(e) => Err(e.to_string()),
    }
}

/// The bytes that the standard base64 engine reads from a text, or the text of its error.
pub uninterp spec fn base64_bytes(s: Seq<char>) -> Result<Seq<u8>, Seq<char>>;

/// The text that the standard base64 engine writes bytes in.
pub uninterp spec fn base64_text(b: Seq<u8>) -> Seq<char>;

/// `Engine::encode` of the standard base64 engine. What it writes is read back as the same
/// bytes.
#[verifier::external_body]
fn base64_encode(b: &Vec<u8>) -> (s: String)
    ensures
        s@ == base64_text(b@),
        base64_bytes(s@) is Ok && base64_bytes(s@)->Ok_0 == b@,
{
    base64::engine::general_purpose::STANDARD.encode(b)
}

/// `Engine::decode` of the standard base64 engine, its error as text.
#[verifier::external_body]
fn base64_decode(s: &str) -> (r: Result<Vec<u8>, String>)
    ensures
        match r {
            Ok(b) => base64_bytes(s@) == Ok::<Seq<u8>, Seq<char>>(b@),
            Err(e) => base64_bytes(s@) == Err::<Seq<u8>, Seq<char>>(e@),
        },
{
    match base64::engine::general_purpose::STANDARD.decode(s) {
        Ok(b) => Ok(b),
        Err(e) => Err(e.to_string()),
    }
}

/// The body of a JSON-RPC request.
pub open spec fn rpc_request(method: Seq<char>, params: Seq<JsonView>) -> Seq<char> {
    json::json_text(
        JsonView::Fields(
            seq![
                ("jsonrpc"@, JsonView::Text("2.0"@)),
                ("id"@, JsonView::Unsigned(1)),
                ("method"@, JsonView::Text(method)),
                ("params"@, JsonView::List(params)),
            ],
        ),
    )
}

fn request(method: &str, params: Json) -> (body: String)
    requires
        params@ is List,
    ensures
        body@ == rpc_request(method@, params@->List_0),
{
    let body = Json::object().field("jsonrpc", Json::text("2.0")).field(
        "id",
        Json::Unsigned(1),
    ).field("method", Json::text(method)).field("params", params);
    assert(body@->Fields_0 =~= seq![
        ("jsonrpc"@, JsonView::Text("2.0"@)),
        ("id"@, JsonView::Unsigned(1)),
        ("method"@, JsonView::Text(method@)),
        ("params"@, params@),
    ]);
    body.to_text()
}

/// The error that a node's error object stands for.
pub open spec fn node_error(err: JsonView) -> SolErrorView {
    SolErrorView::Rpc {
        code: match err.at("code"@).as_signed() {
            Some(code) => code,
            None => 0,
        },
        message: match err.at("message"@).as_text() {
            Some(message) => message,
            None => Seq::empty(),
        },
    }
}

/// The result that a reply carries.
pub open spec fn rpc_result(reply: Result<JsonView, Seq<char>>) -> Result<JsonView, SolErrorView> {
    match reply {
        Err(e) => Err(SolErrorView::Transport(e)),
        Ok(body) => match body.get("error"@) {
            Some(err) => Err(node_error(err)),
            None => match body.get("result"@) {
                Some(result) => Ok(result),
                None => Err(SolErrorView::Decode("response had no result"@)),
            },
        },
    }
}

/// The result that a reply carries. Any `error` member, even null, is an error.
pub fn call_result(reply: &Result<Json, String>) -> (r: Result<&Json, SolError>)
    ensures
        match r {
            Ok(result) => rpc_result(json::reply_view(*reply)) == Ok::<JsonView, SolErrorView>(
                result@,
            ),
            Err(e) => rpc_result(json::reply_view(*reply)) == Err::<JsonView, SolErrorView>(e@),
        },
{
    let body = match reply {
        Ok(body) => body,
        Err(e) => return Err(SolError::Transport(e.clone())),
    };
    if let Some(err) = body.get("error") {
        let code: i64 = match err.get("code") {
            Some(code) => match code.as_i64() {
                Some(code) => code,
                None => 0,
            },
            None => 0,
        };
        let message = match err.get("message") {
            Some(message) => match message.as_str() {
                Some(message) => message.to_owned(),
                None => String::new(),
            },
            None => String::new(),
        };
        return Err(SolError::Rpc { code, message });
    }
    match body.get("result") {
        Some(result) => Ok(result),
        None => Err(SolError::Decode("response had no result".to_owned())),
    }
}

/// A JSON-RPC client of a node: where it listens, and the commitment that reads ask for.
#[derive(Debug)]
pub struct Rpc {
    url: String,
    commitment: String,
}

/// The contents of an [`Rpc`].
pub struct RpcView {
    pub url: Seq<char>,
    pub commitment: Seq<char>,
}

impl View for Rpc {
    type V = RpcView;

    closed spec fn view(&self) -> RpcView {
        RpcView { url: self.url@, commitment: self.commitment@ }
    }
}

/// The one-field object of a commitment.
pub open spec fn commitment_option(commitment: Seq<char>) -> JsonView {
    JsonView::Fields(seq![("commitment"@, JsonView::Text(commitment))])
}

/// The request for a recent blockhash.
pub open spec fn blockhash_request(commitment: Seq<char>) -> Seq<char> {
    rpc_request("getLatestBlockhash"@, seq![commitment_option(commitment)])
}

/// The request that submits a signed transaction.
pub open spec fn submit_request(wire: Seq<u8>, commitment: Seq<char>) -> Seq<char> {
    rpc_request(
        "sendTransaction"@,
        seq![
            JsonView::Text(base64_text(wire)),
            JsonView::Fields(
                seq![
                    ("encoding"@, JsonView::Text("base64"@)),
                    ("preflightCommitment"@, JsonView::Text(commitment)),
                ],
            ),
        ],
    )
}

/// The request for the status of a transaction.
pub open spec fn status_request(sig: Seq<char>) -> Seq<char> {
    rpc_request(
        "getSignatureStatuses"@,
        seq![
            JsonView::List(seq![JsonView::Text(sig)]),
            JsonView::Fields(seq![("searchTransactionHistory"@, JsonView::Bool(false))]),
        ],
    )
}

/// The request for an account's data.
pub open spec fn account_request(key: Seq<u8>, commitment: Seq<char>) -> Seq<char> {
    rpc_request(
        "getAccountInfo"@,
        seq![
            JsonView::Text(base58_text(key)),
            JsonView::Fields(
                seq![
                    ("encoding"@, JsonView::Text("base64"@)),
                    ("commitment"@, JsonView::Text(commitment)),
                ],
            ),
        ],
    )
}

/// The request for an account's balance.
pub open spec fn balance_request(key: Seq<u8>, commitment: Seq<char>) -> Seq<char> {
    rpc_request(
        "getBalance"@,
        seq![JsonView::Text(base58_text(key)), commitment_option(commitment)],
    )
}

/// The blockhash in a reply.
pub open spec fn blockhash_in(reply: Result<JsonView, Seq<char>>) -> Result<
    Seq<u8>,
    SolErrorView,
> {
    match rpc_result(reply) {
        Err(e) => Err(e),
        Ok(r) => match r.at("value"@).at("blockhash"@).as_text() {
            None => Err(SolErrorView::Decode("no blockhash in response"@)),
            Some(s) => match parsed_hash(s) {
                Ok(hash) => Ok(hash),
                Err(e) => Err(SolErrorView::Decode("bad blockhash: "@ + e)),
            },
        },
    }
}

/// The signature in the reply to a submitted transaction.
pub open spec fn signature_in(reply: Result<JsonView, Seq<char>>) -> Result<
    Seq<char>,
    SolErrorView,
> {
    match rpc_result(reply) {
        Err(e) => Err(e),
        Ok(r) => match r.as_text() {
            Some(sig) => Ok(sig),
            None => Err(SolErrorView::Decode("sendTransaction returned no signature"@)),
        },
    }
}

/// Whether a reply shows a transaction as confirmed.
pub open spec fn confirmation_in(reply: Result<JsonView, Seq<char>>) -> Result<
    bool,
    SolErrorView,
> {
    match rpc_result(reply) {
        Err(e) => Err(e),
        Ok(r) => {
            let status = r.at("value"@).nth(0);
            let level = status.at("confirmationStatus"@).as_text();
            if !(status.at("err"@) is Null) {
                Err(
                    SolErrorView::Rpc {
                        code: 0,
                        message: "transaction failed: "@ + json::json_text(status.at("err"@)),
                    },
                )
            } else {
                Ok(level == Some("confirmed"@) || level == Some("finalized"@))
            }
        },
    }
}

/// The account data in a reply, `None` where there is no such account.
pub open spec fn account_in(reply: Result<JsonView, Seq<char>>) -> Result<
    Option<Seq<u8>>,
    SolErrorView,
> {
    match rpc_result(reply) {
        Err(e) => Err(e),
        Ok(r) => if r.at("value"@) is Null {
            Ok(None)
        } else {
            match r.at("value"@).at("data"@).nth(0).as_text() {
                None => Err(SolErrorView::Decode("account data not base64"@)),
                Some(s) => match base64_bytes(s) {
                    Ok(data) => Ok(Some(data)),
                    Err(e) => Err(SolErrorView::Decode(e)),
                },
            }
        },
    }
}

/// The balance in a reply.
pub open spec fn balance_in(reply: Result<JsonView, Seq<char>>) -> Result<u64, SolErrorView> {
    match rpc_result(reply) {
        Err(e) => Err(e),
        Ok(r) => match r.at("value"@).as_unsigned() {
            Some(balance) => Ok(balance),
            None => Err(SolErrorView::Decode("no balance in response"@)),
        },
    }
}

/// The value of a field; null and missing are told apart by nobody here.
fn at<'a>(value: Option<&'a Json>, key: &str) -> (r: Option<&'a Json>)
    ensures
        null_or(r) == null_or(value).at(key@),
{
    match value {
        Some(v) => v.get(key),
        None => None,
    }
}

/// The contents of a value that may be missing, which counts as null.
pub open spec fn null_or(value: Option<&Json>) -> JsonView {
    match value {
        Some(v) => v@,
        None => JsonView::Null,
    }
}

fn text_of<'a>(value: Option<&'a Json>) -> (r: Option<&'a str>)
    ensures
        match r {
            Some(s) => null_or(value).as_text() == Some(s@),
            None => null_or(value).as_text() is None,
        },
{
    match value {
        Some(v) => v.as_str(),
        None => None,
    }
}

fn null(value: Option<&Json>) -> (r: bool)
    ensures
        r == (null_or(value) is Null),
{
    match value {
        Some(v) => v.is_null(),
        None => true,
    }
}

impl Rpc {
    /// A client of the node at `url`, whose reads ask for "confirmed".
    pub fn new(url: &str) -> (r: Rpc)
        ensures
            r@ == (RpcView { url: url@, commitment: "confirmed"@ }),
    {
        Rpc { url: url.to_owned(), commitment: "confirmed".to_owned() }
    }

    /// Where requests go.
    pub fn url(&self) -> (r: &str)
        ensures
            r@ == self@.url,
    {
        self.url.as_str()
    }

    /// The request for a recent blockhash.
    pub fn latest_blockhash_request(&self) -> (body: String)
        ensures
            body@ == blockhash_request(self@.commitment),
    {
        let option = Json::object().field("commitment", Json::text(self.commitment.as_str()));
        assert(option@->Fields_0 =~= seq![("commitment"@, JsonView::Text(self@.commitment))]);
        let params = Json::list().and(option);
        assert(params@->List_0 =~= seq![commitment_option(self@.commitment)]);
        request("getLatestBlockhash", params)
    }

    /// A recent blockhash, from the reply.
    pub fn latest_blockhash(&self, reply: &Result<Json, String>) -> (r: Result<
        [u8; 32],
        SolError,
    >)
        ensures
            match r {
                Ok(hash) => blockhash_in(json::reply_view(*reply)) == Ok::<Seq<u8>, SolErrorView>(
                    hash@,
                ),
                Err(e) => blockhash_in(json::reply_view(*reply)) == Err::<Seq<u8>, SolErrorView>(
                    e@,
                ),
            },
    {
        let r = match call_result(reply) {
            Ok(r) => r,
            Err(e) => return Err(e),
        };
        match text_of(at(at(Some(r), "value"), "blockhash")) {
            Some(s) => match parse_hash(s) {
                Ok(hash) => Ok(hash),
                Err(e) => Err(SolError::Decode(text::concat("bad blockhash: ", e.as_str()))),
            },
            None => Err(SolError::Decode("no blockhash in response".to_owned())),
        }
    }

    /// The request that submits a signed transaction.
    pub fn send_transaction_request(&self, wire: &Vec<u8>) -> (body: String)
        ensures
            body@ == submit_request(wire@, self@.commitment),
    {
        let b64 = base64_encode(wire);
        let options = Json::object().field("encoding", Json::text("base64")).field(
            "preflightCommitment",
            Json::text(self.commitment.as_str()),
        );
        assert(options@->Fields_0 =~= seq![
            ("encoding"@, JsonView::Text("base64"@)),
            ("preflightCommitment"@, JsonView::Text(self@.commitment)),
        ]);
        let params = Json::list().and(Json::Text(b64)).and(options);
        assert(params@->List_0 =~= seq![JsonView::Text(base64_text(wire@)), options@]);
        request("sendTransaction", params)
    }

    /// The signature of a submitted transaction, from the reply.
    pub fn send_transaction(&self, reply: &Result<Json, String>) -> (r: Result<String, SolError>)
        ensures
            match r {
                Ok(sig) => signature_in(json::reply_view(*reply)) == Ok::<
                    Seq<char>,
                    SolErrorView,
                >(sig@),
                Err(e) => signature_in(json::reply_view(*reply)) == Err::<
                    Seq<char>,
                    SolErrorView,
                >(e@),
            },
    {
        match call_result(reply) {
            Ok(r) => match r.as_str() {
                Some(sig) => Ok(sig.to_owned()),
                None => Err(
                    SolError::Decode("sendTransaction returned no signature".to_owned()),
                ),
            },
            Err(e) => Err(e),
        }
    }

    /// The request for the status of a transaction.
    pub fn status_request(&self, sig: &str) -> (body: String)
        ensures
            body@ == status_request(sig@),
    {
        let sigs = Json::list().and(Json::text(sig));
        assert(sigs@->List_0 =~= seq![JsonView::Text(sig@)]);
        let options = Json::object().field("searchTransactionHistory", Json::Bool(false));
        assert(options@->Fields_0 =~= seq![("searchTransactionHistory"@, JsonView::Bool(false))]);
        let params = Json::list().and(sigs).and(options);
        assert(params@->List_0 =~= seq![sigs@, options@]);
        request("getSignatureStatuses", params)
    }

    /// Is the transaction confirmed, according to the reply? A transaction that failed is an
    /// error.
    pub fn confirmed(&self, reply: &Result<Json, String>) -> (r: Result<bool, SolError>)
        ensures
            answer_view(r) == confirmation_in(json::reply_view(*reply)),
    {
        let r = match call_result(reply) {
            Ok(r) => r,
            Err(e) => return Err(e),
        };
        let status = match at(Some(r), "value") {
            Some(value) => value.item(0),
            None => None,
        };
        let err = at(status, "err");
        if let Some(err) = err {
            if !err.is_null() {
                let detail = err.to_text();
                return Err(
                    SolError::Rpc {
                        code: 0,
                        message: text::concat("transaction failed: ", detail.as_str()),
                    },
                );
            }
        }
        match text_of(at(status, "confirmationStatus")) {
            Some(level) => {
                let level = level.to_owned();
                Ok(level == "confirmed".to_owned() || level == "finalized".to_owned())
            },
            None => Ok(false),
        }
    }

    /// The request for an account's data, at the client's commitment.
    pub fn account_request(&self, key: &[u8; 32]) -> (body: String)
        ensures
            body@ == account_request(key@, self@.commitment),
    {
        account_request_at(key, self.commitment.as_str())
    }

    /// The request for an account's data that no reorganisation can undo.
    pub fn finalized_account_request(&self, key: &[u8; 32]) -> (body: String)
        ensures
            body@ == account_request(key@, "finalized"@),
    {
        account_request_at(key, "finalized")
    }

    /// The raw account data, from the reply; `None` if the account does not exist.
    pub fn get_account_data(&self, reply: &Result<Json, String>) -> (r: Result<
        Option<Vec<u8>>,
        SolError,
    >)
        ensures
            match r {
                Ok(Some(data)) => account_in(json::reply_view(*reply)) == Ok::<
                    Option<Seq<u8>>,
                    SolErrorView,
                >(Some(data@)),
                Ok(None) => account_in(json::reply_view(*reply)) == Ok::<
                    Option<Seq<u8>>,
                    SolErrorView,
                >(None),
                Err(e) => account_in(json::reply_view(*reply)) == Err::<
                    Option<Seq<u8>>,
                    SolErrorView,
                >(e@),
            },
    {
        let r = match call_result(reply) {
            Ok(r) => r,
            Err(e) => return Err(e),
        };
        let value = at(Some(r), "value");
        if null(value) {
            return Ok(None);
        }
        let first = match at(value, "data") {
            Some(data) => data.item(0),
            None => None,
        };
        match text_of(first) {
            Some(b64) => match base64_decode(b64) {
                Ok(data) => Ok(Some(data)),
                Err(e) => Err(SolError::Decode(e)),
            },
            None => Err(SolError::Decode("account data not base64".to_owned())),
        }
    }

    /// The request for an account's balance.
    pub fn balance_request(&self, key: &[u8; 32]) -> (body: String)
        ensures
            body@ == balance_request(key@, self@.commitment),
    {
        let option = Json::object().field("commitment", Json::text(self.commitment.as_str()));
        assert(option@->Fields_0 =~= seq![("commitment"@, JsonView::Text(self@.commitment))]);
        let params = Json::list().and(Json::Text(pubkey_text(key))).and(option);
        assert(params@->List_0 =~= seq![
            JsonView::Text(base58_text(key@)),
            commitment_option(self@.commitment),
        ]);
        request("getBalance", params)
    }

    /// The balance, from the reply.
    pub fn get_balance(&self, reply: &Result<Json, String>) -> (r: Result<u64, SolError>)
        ensures
            answer_view(r) == balance_in(json::reply_view(*reply)),
    {
        match call_result(reply) {
            Ok(r) => match at(Some(r), "value") {
                Some(value) => match value.as_u64() {
                    Some(balance) => Ok(balance),
                    None => Err(SolError::Decode("no balance in response".to_owned())),
                },
                None => Err(SolError::Decode("no balance in response".to_owned())),
            },
            Err(e) => Err(e),
        }
    }
}

fn account_request_at(key: &[u8; 32], commitment: &str) -> (body: String)
    ensures
        body@ == account_request(key@, commitment@),
{
    let options = Json::object().field("encoding", Json::text("base64")).field(
        "commitment",
        Json::text(commitment),
    );
    assert(options@->Fields_0 =~= seq![
        ("encoding"@, JsonView::Text("base64"@)),
        ("commitment"@, JsonView::Text(commitment@)),
    ]);
    let params = Json::list().and(Json::Text(pubkey_text(key))).and(options);
    assert(params@->List_0 =~= seq![JsonView::Text(base58_text(key@)), options@]);
    request("getAccountInfo", params)
}

/// How a span of time is spelled, such as `90s`.
pub uninterp spec fn duration_text(secs: u64, nanos: u32) -> Seq<char>;

/// The `Debug` form of a `Duration` of these seconds and nanoseconds.
#[verifier::external_body]
fn debug_duration(secs: u64, nanos: u32) -> (s: String)
    requires
        nanos < 1_000_000_000,
    ensures
        s@ == duration_text(secs, nanos),
{
    format!("{:?}", Duration::new(secs, nanos))
}

/// A span of time.
#[derive(Debug, Clone, Copy)]
pub struct Span {
    secs: u64,
    nanos: u32,
}

impl Span {
    #[verifier::type_invariant]
    closed spec fn normal(self) -> bool {
        self.nanos < 1_000_000_000
    }

    /// The whole seconds.
    pub closed spec fn seconds(self) -> u64 {
        self.secs
    }

    /// The nanoseconds beyond the whole seconds.
    pub closed spec fn rest(self) -> u32 {
        self.nanos
    }

    /// The span in nanoseconds.
    pub open spec fn total(self) -> nat {
        self.seconds() as nat * 1_000_000_000 + self.rest() as nat
    }

    /// A span of seconds and further nanoseconds; `None` where the latter make up a second.
    pub fn new(secs: u64, nanos: u32) -> (r: Option<Span>)
        ensures
            r is Some <==> nanos < 1_000_000_000,
            r matches Some(span) ==> span.seconds() == secs && span.rest() == nanos,
    {
        if nanos < 1_000_000_000 {
            Some(Span { secs, nanos })
        } else {
            None
        }
    }

    /// A span of whole seconds.
    pub closed spec fn of_secs(secs: u64) -> Span {
        Span { secs, nanos: 0 }
    }

    /// A span of whole seconds has no further nanoseconds.
    pub proof fn law_whole_seconds(secs: u64)
        ensures
            Span::of_secs(secs).seconds() == secs,
            Span::of_secs(secs).rest() == 0,
    {
    }

    /// A span of whole seconds.
    pub fn from_secs(secs: u64) -> (r: Span)
        ensures
            r == Span::of_secs(secs),
            r.seconds() == secs,
            r.rest() == 0,
    {
        Span { secs, nanos: 0 }
    }

    /// The span in nanoseconds.
    pub fn as_nanos(&self) -> (r: u128)
        ensures
            r == self.total(),
            r < 0x1_0000_0000_0000_0000 * 1_000_000_000,
    {
        proof {
            use_type_invariant(self);
        }
        self.secs as u128 * 1_000_000_000u128 + self.nanos as u128
    }

    /// How the span is spelled.
    pub fn to_text(&self) -> (s: String)
        ensures
            s@ == duration_text(self.seconds(), self.rest()),
    {
        proof {
            use_type_invariant(self);
        }
        debug_duration(self.secs, self.nanos)
    }
}

/// How long to wait for a transaction to confirm, in seconds.
pub const CONFIRM_TIMEOUT_SECS: u64 = 90;

/// How often to ask for its status, in seconds.
pub const CONFIRM_INTERVAL_SECS: u64 = 2;

/// Waiting for a transaction to confirm.
#[derive(Debug)]
pub struct Confirmation {
    sig: String,
    timeout: Span,
    interval: Span,
    waited: u128,
}

/// The state of a [`Confirmation`].
pub struct ConfirmationView {
    pub sig: Seq<char>,
    pub timeout: Span,
    pub interval: Span,
    /// The nanoseconds waited so far.
    pub waited: nat,
}

impl View for Confirmation {
    type V = ConfirmationView;

    closed spec fn view(&self) -> ConfirmationView {
        ConfirmationView {
            sig: self.sig@,
            timeout: self.timeout,
            interval: self.interval,
            waited: self.waited as nat,
        }
    }
}

/// What a status reply leads to.
#[derive(Debug)]
pub enum Confirmed {
    Yes,
    /// Wait for the interval, then ask again.
    NotYet,
    Failed(SolError),
}

/// The contents of a [`Confirmed`].
pub enum ConfirmedView {
    Yes,
    NotYet,
    Failed(SolErrorView),
}

impl View for Confirmed {
    type V = ConfirmedView;

    open spec fn view(&self) -> ConfirmedView {
        match self {
            Confirmed::Yes => ConfirmedView::Yes,
            Confirmed::NotYet => ConfirmedView::NotYet,
            Confirmed::Failed(e) => ConfirmedView::Failed(e@),
        }
    }
}

impl ConfirmationView {
    /// What a status reply leads to: a failure or a confirmation ends the wait, and so does the
    /// timeout, once at least that long was waited.
    pub open spec fn verdict(self, reply: Result<JsonView, Seq<char>>) -> ConfirmedView {
        match confirmation_in(reply) {
            Err(e) => ConfirmedView::Failed(e),
            Ok(true) => ConfirmedView::Yes,
            Ok(false) => if self.waited >= self.timeout.total() {
                ConfirmedView::Failed(
                    SolErrorView::Timeout(
                        self.sig + " not confirmed in "@ + duration_text(
                            self.timeout.seconds(),
                            self.timeout.rest(),
                        ),
                    ),
                )
            } else {
                ConfirmedView::NotYet
            },
        }
    }

    /// The state after a status reply.
    pub open spec fn after(self, reply: Result<JsonView, Seq<char>>) -> ConfirmationView {
        ConfirmationView {
            waited: if self.verdict(reply) is NotYet {
                self.waited + self.interval.total()
            } else {
                self.waited
            },
            ..self
        }
    }
}

impl Confirmation {
    /// Wait for a signature, asking for its status every `interval` until `timeout`.
    pub fn new(sig: &str, timeout: Span, interval: Span) -> (r: Confirmation)
        ensures
            r@ == (ConfirmationView { sig: sig@, timeout, interval, waited: 0 }),
    {
        Confirmation { sig: sig.to_owned(), timeout, interval, waited: 0 }
    }

    /// The signature that is waited for.
    pub fn sig(&self) -> (r: &str)
        ensures
            r@ == self@.sig,
    {
        self.sig.as_str()
    }

    /// Take up a status reply.
    pub fn on_reply(&mut self, rpc: &Rpc, reply: &Result<Json, String>) -> (r: Confirmed)
        ensures
            r@ == old(self)@.verdict(json::reply_view(*reply)),
            final(self)@ == old(self)@.after(json::reply_view(*reply)),
    {
        match rpc.confirmed(reply) {
            Err(e) => Confirmed::Failed(e),
            Ok(true) => Confirmed::Yes,
            Ok(false) => {
                let timeout: u128 = self.timeout.as_nanos();
                if self.waited >= timeout {
                    let mut why = self.sig.clone();
                    why.append(" not confirmed in ");
                    let span = self.timeout.to_text();
                    why.append(span.as_str());
                    Confirmed::Failed(SolError::Timeout(why))
                } else {
                    let interval: u128 = self.interval.as_nanos();
                    self.waited = self.waited + interval;
                    Confirmed::NotYet
                }
            },
        }
    }
}

impl Rpc {
    /// Start to wait for a signature to reach a commitment, asking for its status every
    /// `interval` until `timeout`; the first request is to be posted.
    pub fn confirm(&self, sig: &str, timeout: Span, interval: Span) -> (r: (Confirmation, String))
        ensures
            r.0@ == (ConfirmationView { sig: sig@, timeout, interval, waited: 0 }),
            r.1@ == status_request(sig@),
    {
        (Confirmation::new(sig, timeout, interval), self.status_request(sig))
    }
}

/// Why a transaction could not be made.
#[derive(Debug)]
pub enum WireError {
    /// The keypair is not one, or does not sign what has to be signed.
    Signing(String),
    /// The transaction did not serialise.
    Encoding(String),
}

/// The contents of a [`WireError`].
pub enum WireErrorView {
    Signing(Seq<char>),
    Encoding(Seq<char>),
}

impl View for WireError {
    type V = WireErrorView;

    open spec fn view(&self) -> WireErrorView {
        match self {
            WireError::Signing(e) => WireErrorView::Signing(e@),
            WireError::Encoding(e) => WireErrorView::Encoding(e@),
        }
    }
}

/// The address of a keypair, or the text of why the bytes are none.
pub uninterp spec fn keypair_address(keypair: Seq<u8>) -> Result<Seq<u8>, Seq<char>>;

/// `Keypair::try_from`, and the address of the keypair by `Signer::pubkey`; the error as text. The
/// address is the public half, the last 32 bytes. Which bytes are a keypair is left to the name:
/// those whose public half is the one of their secret half.
#[verifier::external_body]
fn address_of(keypair: &[u8; 64]) -> (r: Result<[u8; 32], String>)
    ensures
        match r {
            Ok(address) => keypair_address(keypair@) == Ok::<Seq<u8>, Seq<char>>(address@)
                && address@ == keypair@.subrange(32, 64),
            Err(e) => keypair_address(keypair@) == Err::<Seq<u8>, Seq<char>>(e@),
        },
{
    match Keypair::try_from(keypair.as_slice()) {
        Ok(keypair) => Ok(keypair.pubkey().to_bytes()),
        Err(e) => Err(format!("{e:?}")),
    }
}

/// The most accounts that an instruction is signed with: with the program and the payer they stay
/// within the 256 keys that a transaction can number.
pub const MAX_ACCOUNTS: usize = 253;

/// The most data that an instruction is signed with, in bytes: its length is written in 16 bits.
pub const MAX_DATA: usize = 65_535;

impl InstructionView {
    /// Does the instruction fit into a transaction?
    pub open spec fn fits(self) -> bool {
        self.accounts.len() <= MAX_ACCOUNTS && self.data.len() <= MAX_DATA
    }
}

/// The wire form of a transaction of one instruction, paid for by the payer and signed by the
/// keypair.
pub uninterp spec fn signed_wire(
    program_id: Seq<u8>,
    accounts: Seq<AccountMeta>,
    data: Seq<u8>,
    payer: Seq<u8>,
    keypair: Seq<u8>,
    blockhash: Seq<u8>,
) -> Result<Seq<u8>, WireErrorView>;

/// `Transaction::new_with_payer`, `Transaction::try_sign` with the keypair, and
/// `bincode::serialize` of the signed transaction. Ed25519 signing uses no randomness, so the
/// result is a function of the arguments; signing fails where the bytes are no keypair, or where
/// an account that has to sign is not the keypair's. An instruction that does not fit is left
/// out: the first two abort on one.
#[verifier::external_body]
fn sign_and_serialize(
    ix: &Instruction,
    payer: &[u8; 32],
    keypair: &[u8; 64],
    blockhash: &[u8; 32],
) -> (r: Result<Vec<u8>, WireError>)
    requires
        ix@.fits(),
    ensures
        ({
            let wire = signed_wire(
                ix.program_id@,
                ix.accounts@,
                ix.data@,
                payer@,
                keypair@,
                blockhash@,
            );
            match r {
                Ok(signed) => wire == Ok::<Seq<u8>, WireErrorView>(signed@),
                Err(e) => wire == Err::<Seq<u8>, WireErrorView>(e@),
            }
        }),
{
    let signer = Keypair::try_from(keypair.as_slice())
        .map_err(|e| WireError::Signing(format!("{e:?}")))?;
    let accounts = ix.accounts.iter().map(|meta| instruction::AccountMeta {
        pubkey: Pubkey::new_from_array(meta.pubkey),
        is_signer: meta.is_signer,
        is_writable: meta.is_writable,
    }).collect();
    let program = Pubkey::new_from_array(ix.program_id);
    let ix = instruction::Instruction::new_with_bytes(program, &ix.data, accounts);
    let mut tx = Transaction::new_with_payer(&[ix], Some(&Pubkey::new_from_array(*payer)));
    tx.try_sign(&[&signer], hash::Hash::new_from_array(*blockhash))
        .map_err(|e| WireError::Signing(format!("{e:?}")))?;
    bincode::serialize(&tx).map_err(|e| WireError::Encoding(e.to_string()))
}

/// The Solana backend of one party: its keypair, the swap's terms, and the scalar that it would
/// publish when settling.
pub struct RpcSol {
    pub rpc: Rpc,
    pub program_id: [u8; 32],
    pub escrow: [u8; 32],
    pub terms: SwapTerms,
    /// The fee payer, and signer where the instruction needs one: secret and public half.
    pub signer: [u8; 64],
    /// This party's own spend half, little-endian.
    pub reveal: [u8; 32],
}

/// The stage of a transaction that is being sent.
#[derive(Debug)]
pub enum Stage {
    /// A blockhash was asked for.
    Blockhash,
    /// The transaction was submitted.
    Submitted,
    /// Its confirmation is waited for.
    Confirming(Confirmation),
}

/// The contents of a [`Stage`].
pub enum StageView {
    Blockhash,
    Submitted,
    Confirming(ConfirmationView),
}

impl View for Stage {
    type V = StageView;

    open spec fn view(&self) -> StageView {
        match self {
            Stage::Blockhash => StageView::Blockhash,
            Stage::Submitted => StageView::Submitted,
            Stage::Confirming(c) => StageView::Confirming(c@),
        }
    }
}

/// A transaction that is being sent.
#[derive(Debug)]
pub struct Sending {
    ix: Instruction,
    stage: Stage,
}

/// The state of a [`Sending`].
pub struct SendingView {
    pub ix: InstructionView,
    pub stage: StageView,
}

impl Sending {
    #[verifier::type_invariant]
    closed spec fn fits(self) -> bool {
        self.ix@.fits()
    }
}

impl View for Sending {
    type V = SendingView;

    closed spec fn view(&self) -> SendingView {
        SendingView { ix: self.ix@, stage: self.stage@ }
    }
}

/// What to do next about a transaction.
#[derive(Debug)]
pub enum SendStep {
    /// Post this body, and go on with the reply.
    Post { sending: Sending, body: String },
    /// Wait for [`CONFIRM_INTERVAL_SECS`], then post this body and go on with the reply.
    WaitAndPost { sending: Sending, body: String },
    /// The transaction is confirmed under this signature.
    Sent(String),
    Failed(SolError),
    /// The keypair cannot sign the transaction.
    CannotSign(String),
}

/// The contents of a [`SendStep`].
pub enum SendStepView {
    Post { sending: SendingView, body: Seq<char> },
    WaitAndPost { sending: SendingView, body: Seq<char> },
    Sent(Seq<char>),
    Failed(SolErrorView),
    CannotSign(Seq<char>),
}

impl View for SendStep {
    type V = SendStepView;

    open spec fn view(&self) -> SendStepView {
        match self {
            SendStep::Post { sending, body } => SendStepView::Post {
                sending: sending@,
                body: body@,
            },
            SendStep::WaitAndPost { sending, body } => SendStepView::WaitAndPost {
                sending: sending@,
                body: body@,
            },
            SendStep::Sent(sig) => SendStepView::Sent(sig@),
            SendStep::Failed(e) => SendStepView::Failed(e@),
            SendStep::CannotSign(e) => SendStepView::CannotSign(e@),
        }
    }
}

/// How sending an instruction starts: by asking for a blockhash.
pub open spec fn first_step(sol: RpcSol, ix: InstructionView) -> SendStepView {
    SendStepView::Post {
        sending: SendingView { ix, stage: StageView::Blockhash },
        body: blockhash_request(sol.rpc@.commitment),
    }
}

impl SendingView {
    /// How the transaction is signed by the party's keypair and submitted.
    pub open spec fn submitted(
        self,
        sol: RpcSol,
        payer: Seq<u8>,
        blockhash: Seq<u8>,
    ) -> SendStepView {
        match signed_wire(
            self.ix.program_id@,
            self.ix.accounts,
            self.ix.data,
            payer,
            sol.signer@,
            blockhash,
        ) {
            Ok(wire) => SendStepView::Post {
                sending: SendingView { stage: StageView::Submitted, ..self },
                body: submit_request(wire, sol.rpc@.commitment),
            },
            Err(WireErrorView::Signing(e)) => SendStepView::CannotSign(e),
            Err(WireErrorView::Encoding(e)) => SendStepView::Failed(SolErrorView::Decode(e)),
        }
    }

    /// What a reply leads to. First comes the blockhash, which the transaction is signed for and
    /// submitted with, the keypair's own account paying; then the signature, whose confirmation
    /// is waited for; any failure ends it.
    pub open spec fn next(self, sol: RpcSol, reply: Result<JsonView, Seq<char>>) -> SendStepView {
        match self.stage {
            StageView::Blockhash => match blockhash_in(reply) {
                Err(e) => SendStepView::Failed(e),
                Ok(hash) => match keypair_address(sol.signer@) {
                    Err(e) => SendStepView::CannotSign(e),
                    Ok(payer) => self.submitted(sol, payer, hash),
                },
            },
            StageView::Submitted => match signature_in(reply) {
                Err(e) => SendStepView::Failed(e),
                Ok(sig) => SendStepView::Post {
                    sending: SendingView {
                        stage: StageView::Confirming(
                            ConfirmationView {
                                sig,
                                timeout: Span::of_secs(CONFIRM_TIMEOUT_SECS),
                                interval: Span::of_secs(CONFIRM_INTERVAL_SECS),
                                waited: 0,
                            },
                        ),
                        ..self
                    },
                    body: status_request(sig),
                },
            },
            StageView::Confirming(c) => match c.verdict(reply) {
                ConfirmedView::Yes => SendStepView::Sent(c.sig),
                ConfirmedView::NotYet => SendStepView::WaitAndPost {
                    sending: SendingView {
                        stage: StageView::Confirming(c.after(reply)),
                        ..self
                    },
                    body: status_request(c.sig),
                },
                ConfirmedView::Failed(e) => SendStepView::Failed(e),
            },
        }
    }
}

impl RpcSol {
    /// The backend of one party; `None` where the terms derive no escrow address.
    pub fn new(
        rpc: Rpc,
        program_id: [u8; 32],
        terms: SwapTerms,
        signer: [u8; 64],
        reveal: [u8; 32],
    ) -> (r: Option<RpcSol>)
        ensures
            r is Some <==> terms.pda(program_id@) is Some,
            r matches Some(sol) ==> {
                &&& sol.rpc == rpc
                &&& sol.program_id == program_id
                &&& terms.pda(program_id@) == Some(sol.escrow@)
                &&& sol.terms == terms
                &&& sol.signer == signer
                &&& sol.reveal == reveal
            },
    {
        match terms.escrow_pda(&program_id) {
            Some(escrow) => Some(RpcSol { rpc, program_id, escrow, terms, signer, reveal }),
            None => None,
        }
    }

    /// Start to send an instruction: a blockhash is to be asked for.
    fn send(&self, ix: Instruction) -> (step: SendStep)
        requires
            ix@.fits(),
        ensures
            step@ == first_step(*self, ix@),
    {
        let body = self.rpc.latest_blockhash_request();
        SendStep::Post { sending: Sending { ix, stage: Stage::Blockhash }, body }
    }

    /// Go on with the reply to the last request.
    pub fn advance(&self, sending: Sending, reply: &Result<Json, String>) -> (step: SendStep)
        ensures
            step@ == sending@.next(*self, json::reply_view(*reply)),
    {
        proof {
            use_type_invariant(&sending);
        }
        let Sending { ix, stage } = sending;
        match stage {
            Stage::Blockhash => {
                let hash = match self.rpc.latest_blockhash(reply) {
                    Ok(hash) => hash,
                    Err(e) => return SendStep::Failed(e),
                };
                let payer = match address_of(&self.signer) {
                    Ok(payer) => payer,
                    Err(e) => return SendStep::CannotSign(e),
                };
                match sign_and_serialize(&ix, &payer, &self.signer, &hash) {
                    Ok(wire) => SendStep::Post {
                        sending: Sending { ix, stage: Stage::Submitted },
                        body: self.rpc.send_transaction_request(&wire),
                    },
                    Err(WireError::Signing(e)) => SendStep::CannotSign(e),
                    Err(WireError::Encoding(e)) => SendStep::Failed(SolError::Decode(e)),
                }
            },
            Stage::Submitted => match self.rpc.send_transaction(reply) {
                Ok(sig) => {
                    let timeout = Span::from_secs(CONFIRM_TIMEOUT_SECS);
                    let interval = Span::from_secs(CONFIRM_INTERVAL_SECS);
                    let (wait, body) = self.rpc.confirm(sig.as_str(), timeout, interval);
                    SendStep::Post { sending: Sending { ix, stage: Stage::Confirming(wait) }, body }
                },
                Err(e) => SendStep::Failed(e),
            },
            Stage::Confirming(mut wait) => match wait.on_reply(&self.rpc, reply) {
                Confirmed::Yes => SendStep::Sent(wait.sig().to_owned()),
                Confirmed::NotYet => {
                    let body = self.rpc.status_request(wait.sig());
                    SendStep::WaitAndPost {
                        sending: Sending { ix, stage: Stage::Confirming(wait) },
                        body,
                    }
                },
                Confirmed::Failed(e) => SendStep::Failed(e),
            },
        }
    }

    /// Start to lock the SOL.
    pub fn lock(&self) -> (step: SendStep)
        ensures
            step@ == first_step(
                *self,
                lock_contents(
                    self.program_id,
                    self.escrow,
                    self.terms,
                ),
            ),
    {
        proof {
            codec::law_instruction_length(lock_instruction(self.terms));
        }
        self.send(lock_ix(&self.program_id, &self.escrow, &self.terms))
    }

    /// Start to open the taker's claim window.
    pub fn set_ready(&self) -> (step: SendStep)
        ensures
            step@ == first_step(
                *self,
                set_ready_contents(
                    self.program_id,
                    self.escrow,
                    self.terms.locker,
                ),
            ),
    {
        self.send(set_ready_ix(&self.program_id, &self.escrow, &self.terms.locker))
    }

    /// Start to claim the SOL, with this party's own half.
    pub fn claim(&self) -> (step: SendStep)
        ensures
            step@ == first_step(
                *self,
                claim_contents(
                    self.program_id,
                    self.escrow,
                    self.terms.claimer,
                    self.terms.fee_recipient,
                    self.reveal,
                ),
            ),
    {
        self.send(
            claim_ix(
                &self.program_id,
                &self.escrow,
                &self.terms.claimer,
                &self.terms.fee_recipient,
                self.reveal,
            ),
        )
    }

    /// Start to take the SOL back, with this party's own half.
    pub fn refund(&self) -> (step: SendStep)
        ensures
            step@ == first_step(
                *self,
                refund_contents(
                    self.program_id,
                    self.escrow,
                    self.terms.locker,
                    self.reveal,
                ),
            ),
    {
        self.send(refund_ix(&self.program_id, &self.escrow, &self.terms.locker, self.reveal))
    }

    /// Start to close the settled escrow.
    pub fn close(&self) -> (step: SendStep)
        ensures
            step@ == first_step(
                *self,
                close_contents(
                    self.program_id,
                    self.escrow,
                    self.terms.locker,
                ),
            ),
    {
        self.send(close_ix(&self.program_id, &self.escrow, &self.terms.locker))
    }

    /// The request for the escrow account, at the client's commitment.
    pub fn escrow_request(&self) -> (body: String)
        ensures
            body@ == account_request(self.escrow@, self.rpc@.commitment),
    {
        self.rpc.account_request(&self.escrow)
    }

    /// The request for the escrow account at a commitment that no reorganisation can undo.
    pub fn escrow_finalized_request(&self) -> (body: String)
        ensures
            body@ == account_request(self.escrow@, "finalized"@),
    {
        self.rpc.finalized_account_request(&self.escrow)
    }

    /// The escrow account, from the reply; `None` if it does not exist.
    pub fn read_escrow(&self, reply: &Result<Json, String>) -> (r: Result<
        Option<Escrow>,
        SolError,
    >)
        ensures
            answer_view(r) == escrow_in(json::reply_view(*reply)),
    {
        match self.rpc.get_account_data(reply) {
            Ok(Some(data)) => match escrow_from_data(&data) {
                Ok(escrow) => Ok(Some(escrow)),
                Err(e) => Err(e),
            },
            Ok(None) => Ok(None),
            Err(e) => Err(e),
        }
    }
}

/// The escrow that an account's data holds.
pub open spec fn escrow_in_data(data: Seq<u8>) -> Result<Escrow, SolErrorView> {
    if data.len() != Escrow::LEN {
        Err(
            SolErrorView::Decode(
                "escrow is "@ + text::decimal(data.len()) + " bytes, expected "@ + text::decimal(
                    Escrow::LEN as nat,
                ),
            ),
        )
    } else {
        match codec::escrow_error(data) {
            Some(e) => Err(SolErrorView::Decode(e.wording())),
            None => Ok(codec::escrow_of(data)),
        }
    }
}

/// Read an escrow from an account's data.
pub fn escrow_from_data(data: &Vec<u8>) -> (r: Result<Escrow, SolError>)
    ensures
        answer_view(r) == escrow_in_data(data@),
{
    if data.len() != Escrow::LEN {
        let mut why = "escrow is ".to_owned();
        text::push_decimal(&mut why, data.len() as u64);
        why.append(" bytes, expected ");
        text::push_decimal(&mut why, Escrow::LEN as u64);
        return Err(SolError::Decode(why));
    }
    match Escrow::try_from_slice(data.as_slice()) {
        Ok(escrow) => Ok(escrow),
        Err(e) => Err(SolError::Decode(e.message())),
    }
}

/// The escrow in a reply, `None` where there is no such account.
pub open spec fn escrow_in(reply: Result<JsonView, Seq<char>>) -> Result<
    Option<Escrow>,
    SolErrorView,
> {
    match account_in(reply) {
        Err(e) => Err(e),
        Ok(None) => Ok(None),
        Ok(Some(data)) => match escrow_in_data(data) {
            Ok(escrow) => Ok(Some(escrow)),
            Err(e) => Err(e),
        },
    }
}

/// The program reads the client's instructions as what the client meant.
pub proof fn law_program_reads_client_instructions(
    program_id: [u8; 32],
    escrow: [u8; 32],
    terms: SwapTerms,
    reveal: [u8; 32],
)
    ensures
        codec::instruction_error(lock_contents(program_id, escrow, terms).data) is None,
        codec::instruction_of(lock_contents(program_id, escrow, terms).data) == lock_instruction(
            terms,
        ),
        codec::instruction_error(set_ready_contents(program_id, escrow, terms.locker).data)
            is None,
        codec::instruction_of(set_ready_contents(program_id, escrow, terms.locker).data)
            == SwapInstruction::SetReady,
        ({
            let ix = claim_contents(
                program_id,
                escrow,
                terms.claimer,
                terms.fee_recipient,
                reveal,
            );
            codec::instruction_error(ix.data) is None && codec::instruction_of(ix.data)
                == (SwapInstruction::Claim { reveal })
        }),
        ({
            let ix = refund_contents(program_id, escrow, terms.locker, reveal);
            codec::instruction_error(ix.data) is None && codec::instruction_of(ix.data)
                == (SwapInstruction::Refund { reveal })
        }),
        codec::instruction_error(close_contents(program_id, escrow, terms.locker).data) is None,
        codec::instruction_of(close_contents(program_id, escrow, terms.locker).data)
            == SwapInstruction::Close,
{
    codec::law_instruction_round_trips(lock_instruction(terms), lock_instruction(terms));
    let ready = SwapInstruction::SetReady;
    codec::law_instruction_round_trips(ready, ready);
    let claim = SwapInstruction::Claim { reveal };
    codec::law_instruction_round_trips(claim, claim);
    let refund = SwapInstruction::Refund { reveal };
    codec::law_instruction_round_trips(refund, refund);
    let close = SwapInstruction::Close;
    codec::law_instruction_round_trips(close, close);
}

/// The address that the client derives from the terms is the one that the program demands for
/// the account of a lock, and the one that it accepts the stored escrow at.
pub proof fn law_client_and_program_agree_on_the_address(
    program_id: Seq<u8>,
    a: program::AccountsView,
    terms: SwapTerms,
    lock: program::LockTerms,
    sysvars: program::Sysvars,
)
    requires
        program::lock_error(program_id, a, lock, sysvars) is None,
        a.account(0).key == terms.locker,
        lock.id == terms.id,
    ensures
        terms.pda(program_id) == Some(a.account(1).key@),
        ({
            let e = program::lock_plan(program_id, a, lock, sysvars).escrow;
            address::escrow_address_at(e.locker@, e.id@, e.bump, program_id) == terms.pda(
                program_id,
            )
        }),
{
}

/// A reply whose base64 text spells the bytes of an escrow is read as exactly that escrow.
pub proof fn law_escrow_replies_are_read_back(
    reply: Result<JsonView, Seq<char>>,
    value: JsonView,
    data: Seq<char>,
    e: Escrow,
)
    requires
        rpc_result(reply) is Ok,
        rpc_result(reply)->Ok_0.get("value"@) == Some(value),
        value.at("data"@).nth(0) == JsonView::Text(data),
        base64_bytes(data) == Ok::<Seq<u8>, Seq<char>>(e.bytes()),
    ensures
        escrow_in(reply) == Ok::<Option<Escrow>, SolErrorView>(Some(e)),
{
    codec::law_escrow_round_trips(e, e);
}

impl ConfirmationView {
    /// The state after a sequence of status replies.
    pub open spec fn run(self, replies: Seq<Result<JsonView, Seq<char>>>) -> ConfirmationView
        decreases replies.len(),
    {
        if replies.len() == 0 {
            self
        } else {
            self.run(replies.drop_last()).after(replies.last())
        }
    }

    /// Does every one of these status replies leave the wait going on?
    pub open spec fn unfinished(self, replies: Seq<Result<JsonView, Seq<char>>>) -> bool
        decreases replies.len(),
    {
        replies.len() == 0 || (self.unfinished(replies.drop_last()) && self.run(
            replies.drop_last(),
        ).verdict(replies.last()) is NotYet)
    }
}

/// Every status reply that leaves the wait going on adds the interval to what was waited, and
/// comes while less than the timeout was waited. With an interval longer than zero the wait
/// therefore ends: a wait that starts afresh outlasts at most the timeout divided by the interval,
/// rounded up, many replies.
pub proof fn law_waiting_is_bounded(
    c: ConfirmationView,
    replies: Seq<Result<JsonView, Seq<char>>>,
)
    requires
        c.unfinished(replies),
    ensures
        c.run(replies) == (ConfirmationView {
            waited: c.waited + replies.len() * c.interval.total(),
            ..c
        }),
        replies.len() > 0 ==> c.waited + (replies.len() - 1) * c.interval.total()
            < c.timeout.total(),
        c.waited == 0 && c.interval.total() > 0 ==> replies.len() <= (c.timeout.total()
            + c.interval.total() - 1) / (c.interval.total() as int),
    decreases replies.len(),
{
    let k = replies.len() as int;
    let interval = c.interval.total() as int;
    let timeout = c.timeout.total() as int;
    if k > 0 {
        law_waiting_is_bounded(c, replies.drop_last());
        assert(k * interval == (k - 1) * interval + interval) by (nonlinear_arith);
        if c.waited == 0 && interval > 0 {
            assert(k <= (timeout + interval - 1) / interval) by (nonlinear_arith)
                requires
                    interval > 0,
                    k * interval <= timeout + interval - 1,
            ;
        }
    }
}

/// A transaction counts as sent only under the signature that the node gave for it, once a
/// status reply shows it confirmed or finalized and not failed.
pub proof fn law_sent_means_confirmed(
    s: SendingView,
    sol: RpcSol,
    reply: Result<JsonView, Seq<char>>,
    sig: Seq<char>,
)
    requires
        s.next(sol, reply) == SendStepView::Sent(sig),
    ensures
        s.stage matches StageView::Confirming(c) && c.sig == sig,
        confirmation_in(reply) == Ok::<bool, SolErrorView>(true),
{
}

/// Which accounts the client's instructions name, in the order that the program takes them, who
/// has to sign, and which of them may change: the locker signs a lock, an arming and a close, and
/// nobody a claim or a refund; every account that is paid or debited is writable.
pub proof fn law_client_instructions_name_their_accounts(
    program_id: [u8; 32],
    escrow: [u8; 32],
    terms: SwapTerms,
    reveal: [u8; 32],
)
    ensures
        ({
            let ix = lock_contents(program_id, escrow, terms);
            let (locker, account, system) = (ix.accounts[0], ix.accounts[1], ix.accounts[2]);
            &&& ix.program_id == program_id && ix.accounts.len() == 3
            &&& locker.pubkey == terms.locker && locker.is_signer && locker.is_writable
            &&& account.pubkey == escrow && !account.is_signer && account.is_writable
            &&& forall|i: int| 0 <= i < 32 ==> system.pubkey@[i] == 0
            &&& !system.is_signer && !system.is_writable
        }),
        ({
            let ix = set_ready_contents(program_id, escrow, terms.locker);
            let (account, locker) = (ix.accounts[0], ix.accounts[1]);
            &&& ix.program_id == program_id && ix.accounts.len() == 2
            &&& account.pubkey == escrow && !account.is_signer && account.is_writable
            &&& locker.pubkey == terms.locker && locker.is_signer && !locker.is_writable
        }),
        ({
            let ix = claim_contents(
                program_id,
                escrow,
                terms.claimer,
                terms.fee_recipient,
                reveal,
            );
            let (account, claimer) = (ix.accounts[0], ix.accounts[1]);
            let fee_recipient = ix.accounts[2];
            &&& ix.program_id == program_id && ix.accounts.len() == 3
            &&& account.pubkey == escrow && !account.is_signer && account.is_writable
            &&& claimer.pubkey == terms.claimer && !claimer.is_signer && claimer.is_writable
            &&& fee_recipient.pubkey == terms.fee_recipient && !fee_recipient.is_signer
                && fee_recipient.is_writable
        }),
        ({
            let ix = refund_contents(program_id, escrow, terms.locker, reveal);
            let (account, locker) = (ix.accounts[0], ix.accounts[1]);
            &&& ix.program_id == program_id && ix.accounts.len() == 2
            &&& account.pubkey == escrow && !account.is_signer && account.is_writable
            &&& locker.pubkey == terms.locker && !locker.is_signer && locker.is_writable
        }),
        ({
            let ix = close_contents(program_id, escrow, terms.locker);
            let (account, locker) = (ix.accounts[0], ix.accounts[1]);
            &&& ix.program_id == program_id && ix.accounts.len() == 2
            &&& account.pubkey == escrow && !account.is_signer && account.is_writable
            &&& locker.pubkey == terms.locker && locker.is_signer && locker.is_writable
        }),
{
}

/// What the client's instructions say, as the program reads them: a lock says the terms, each of
/// them; a claim and a refund reveal the party's own half, and the other two say nothing more.
pub proof fn law_client_instructions_say_the_terms(
    program_id: [u8; 32],
    escrow: [u8; 32],
    terms: SwapTerms,
    reveal: [u8; 32],
)
    ensures
        ({
            let ix = codec::instruction_of(lock_contents(program_id, escrow, terms).data);
            &&& ix is Lock
            &&& ix->id == terms.id
            &&& ix->claimer == terms.claimer
            &&& ix->fee_recipient == terms.fee_recipient
            &&& ix->claim_point == terms.claim_point
            &&& ix->refund_point == terms.refund_point
            &&& ix->amount == terms.amount
            &&& ix->fee_bps == terms.fee_bps
            &&& ix->t0 == terms.t0
            &&& ix->t1 == terms.t1
        }),
        codec::instruction_of(set_ready_contents(program_id, escrow, terms.locker).data)
            is SetReady,
        codec::instruction_of(
            claim_contents(program_id, escrow, terms.claimer, terms.fee_recipient, reveal).data,
        ) matches SwapInstruction::Claim { reveal: r } && r == reveal,
        codec::instruction_of(
            refund_contents(program_id, escrow, terms.locker, reveal).data,
        ) matches SwapInstruction::Refund { reveal: r } && r == reveal,
        codec::instruction_of(close_contents(program_id, escrow, terms.locker).data) is Close,
{
    law_program_reads_client_instructions(program_id, escrow, terms, reveal);
}

/// Do these accounts, as the program finds them, answer to an instruction: each at its place, with
/// its address, and signing where the instruction says so?
pub open spec fn answers(a: program::AccountsView, ix: InstructionView) -> bool {
    &&& a.wf()
    &&& a.order.len() == ix.accounts.len()
    &&& forall|i: int|
        0 <= i < ix.accounts.len() ==> (#[trigger] a.account(i)).key == ix.accounts[i].pubkey
            && a.account(i).is_signer == ix.accounts[i].is_signer
}

/// The terms reach the chain as they were agreed: the escrow that the program plans for the
/// client's lock holds each of them, and is the account that the client named.
pub proof fn law_agreed_terms_reach_the_chain(
    program_id: [u8; 32],
    escrow: [u8; 32],
    terms: SwapTerms,
    a: program::AccountsView,
    sysvars: program::Sysvars,
)
    requires
        answers(a, lock_contents(program_id, escrow, terms)),
    ensures
        program::process_outcome(
            program_id@,
            a,
            lock_contents(program_id, escrow, terms).data,
            sysvars,
        ).result matches Ok(progress) ==> (progress matches program::ProgressView::Create(plan) && {
            let e = plan.escrow;
            &&& e.locker == terms.locker
            &&& e.claimer == terms.claimer
            &&& e.fee_recipient == terms.fee_recipient
            &&& e.claim_point == terms.claim_point
            &&& e.refund_point == terms.refund_point
            &&& e.amount == terms.amount
            &&& e.fee_bps == terms.fee_bps
            &&& e.t0 == terms.t0
            &&& e.t1 == terms.t1
            &&& e.id == terms.id
            &&& terms.pda(program_id@) == Some(escrow@)
        }),
{
    let ix = lock_instruction(terms);
    codec::law_instruction_round_trips(ix, ix);
    effects::law_a_lock_pins_its_terms(program_id@, a, ix, sysvars, 0);
    law_client_instructions_say_the_terms(program_id, escrow, terms, escrow);
    assert(a.account(0).key == terms.locker);
    assert(a.account(1).key == escrow);
}

/// The escrow address of the terms is derived from the word `escrow`, the locker and the swap id,
/// with the largest bump that derives one; there is none only where no bump derives one.
pub proof fn law_terms_fix_the_address(
    terms: SwapTerms,
    program_id: Seq<u8>,
    address: Seq<u8>,
    bump: u8,
)
    requires
        bump >= 1,
    ensures
        effects::derived(terms.locker@, terms.id@, bump, program_id) is Some ==> terms.pda(
            program_id,
        ) is Some,
        terms.pda(program_id) == Some(address) ==> exists|found: u8|
            {
                &&& found >= 1
                &&& #[trigger] effects::derived(terms.locker@, terms.id@, found, program_id)
                    == Some(address)
                &&& bump > found ==> effects::derived(terms.locker@, terms.id@, bump, program_id)
                    is None
            },
{
    let seeds = address::escrow_seeds(terms.locker@, terms.id@);
    effects::law_derived_address(terms.locker@, terms.id@, bump, program_id);
    address::law_search_bump_derives(seeds, program_id);
    if effects::derived(terms.locker@, terms.id@, bump, program_id) is Some {
        address::law_search_bump_is_the_largest(seeds, program_id, bump);
    }
    if let Some(found) = address::search_bump(seeds, program_id) {
        effects::law_derived_address(terms.locker@, terms.id@, found, program_id);
    }
}

/// A request is a JSON-RPC 2.0 call of its method with its parameters, under the number one.
pub proof fn law_requests_are_json_rpc(method: Seq<char>, params: Seq<JsonView>)
    ensures
        exists|body: JsonView|
            {
                &&& rpc_request(method, params) == #[trigger] json::json_text(body)
                &&& body.at("jsonrpc"@) == JsonView::Text("2.0"@)
                &&& body.at("id"@) == JsonView::Unsigned(1)
                &&& body.at("method"@) == JsonView::Text(method)
                &&& body.at("params"@) == JsonView::List(params)
                &&& body matches JsonView::Fields(fields) && fields.len() == 4
            },
{
    reveal_strlit("jsonrpc");
    reveal_strlit("id");
    reveal_strlit("method");
    reveal_strlit("params");
    assert("jsonrpc"@.len() == 7 && "id"@.len() == 2 && "method"@.len() == 6 && "params"@.len()
        == 6);
    assert("method"@[0] == 'm' && "params"@[0] == 'p');
    let fields = seq![
        ("jsonrpc"@, JsonView::Text("2.0"@)),
        ("id"@, JsonView::Unsigned(1)),
        ("method"@, JsonView::Text(method)),
        ("params"@, JsonView::List(params)),
    ];
    let body = JsonView::Fields(fields);
    json::law_fields_are_found_by_key(fields, "jsonrpc"@, 0, body);
    json::law_fields_are_found_by_key(fields, "id"@, 1, body);
    json::law_fields_are_found_by_key(fields, "method"@, 2, body);
    json::law_fields_are_found_by_key(fields, "params"@, 3, body);
    assert(rpc_request(method, params) == json::json_text(body));
}

/// What each request asks for: a blockhash and a balance at a commitment, the data of an account
/// in base64 at a commitment, the status of one signature among the recent ones, and to submit
/// these very bytes in base64.
pub proof fn law_what_the_requests_ask(
    key: Seq<u8>,
    commitment: Seq<char>,
    sig: Seq<char>,
    wire: Seq<u8>,
)
    ensures
        exists|p: Seq<JsonView>|
            {
                &&& blockhash_request(commitment) == #[trigger] rpc_request(
                    "getLatestBlockhash"@,
                    p,
                )
                &&& p.len() == 1 && p[0].at("commitment"@) == JsonView::Text(commitment)
            },
        exists|p: Seq<JsonView>|
            {
                &&& submit_request(wire, commitment) == #[trigger] rpc_request(
                    "sendTransaction"@,
                    p,
                )
                &&& p.len() == 2 && p[0] == JsonView::Text(base64_text(wire))
                &&& p[1].at("encoding"@) == JsonView::Text("base64"@)
                &&& p[1].at("preflightCommitment"@) == JsonView::Text(commitment)
            },
        exists|p: Seq<JsonView>|
            {
                &&& status_request(sig) == #[trigger] rpc_request("getSignatureStatuses"@, p)
                &&& p.len() == 2 && p[0] == JsonView::List(seq![JsonView::Text(sig)])
                &&& p[1].at("searchTransactionHistory"@) == JsonView::Bool(false)
            },
        exists|p: Seq<JsonView>|
            {
                &&& account_request(key, commitment) == #[trigger] rpc_request(
                    "getAccountInfo"@,
                    p,
                )
                &&& p.len() == 2 && p[0] == JsonView::Text(base58_text(key))
                &&& p[1].at("encoding"@) == JsonView::Text("base64"@)
                &&& p[1].at("commitment"@) == JsonView::Text(commitment)
            },
        exists|p: Seq<JsonView>|
            {
                &&& balance_request(key, commitment) == #[trigger] rpc_request("getBalance"@, p)
                &&& p.len() == 2 && p[0] == JsonView::Text(base58_text(key))
                &&& p[1].at("commitment"@) == JsonView::Text(commitment)
            },
{
    reveal_strlit("encoding");
    reveal_strlit("commitment");
    reveal_strlit("preflightCommitment");
    assert("encoding"@.len() == 8 && "commitment"@.len() == 10 && "preflightCommitment"@.len()
        == 19);
    let one = seq![("commitment"@, JsonView::Text(commitment))];
    json::law_fields_are_found_by_key(one, "commitment"@, 0, JsonView::Null);
    let blockhash = seq![commitment_option(commitment)];
    assert(blockhash_request(commitment) == rpc_request("getLatestBlockhash"@, blockhash));
    assert(blockhash[0].at("commitment"@) == JsonView::Text(commitment));
    let balance = seq![JsonView::Text(base58_text(key)), commitment_option(commitment)];
    assert(balance_request(key, commitment) == rpc_request("getBalance"@, balance));
    assert(balance[1].at("commitment"@) == JsonView::Text(commitment));
    let encoded = seq![
        ("encoding"@, JsonView::Text("base64"@)),
        ("commitment"@, JsonView::Text(commitment)),
    ];
    json::law_fields_are_found_by_key(encoded, "encoding"@, 0, JsonView::Null);
    json::law_fields_are_found_by_key(encoded, "commitment"@, 1, JsonView::Null);
    let account = seq![JsonView::Text(base58_text(key)), JsonView::Fields(encoded)];
    assert(account_request(key, commitment) == rpc_request("getAccountInfo"@, account));
    let sent = seq![
        ("encoding"@, JsonView::Text("base64"@)),
        ("preflightCommitment"@, JsonView::Text(commitment)),
    ];
    json::law_fields_are_found_by_key(sent, "encoding"@, 0, JsonView::Null);
    json::law_fields_are_found_by_key(sent, "preflightCommitment"@, 1, JsonView::Null);
    let submit = seq![JsonView::Text(base64_text(wire)), JsonView::Fields(sent)];
    assert(submit_request(wire, commitment) == rpc_request("sendTransaction"@, submit));
    let history = seq![("searchTransactionHistory"@, JsonView::Bool(false))];
    json::law_fields_are_found_by_key(history, "searchTransactionHistory"@, 0, JsonView::Null);
    let status = seq![
        JsonView::List(seq![JsonView::Text(sig)]),
        JsonView::Fields(history),
    ];
    assert(status_request(sig) == rpc_request("getSignatureStatuses"@, status));
}

/// What a reply carries: its result, unless it failed on the way, carries an error, or carries
/// neither.
pub proof fn law_what_a_reply_carries(reply: Result<JsonView, Seq<char>>)
    ensures
        reply matches Err(e) ==> rpc_result(reply) == Err::<JsonView, SolErrorView>(
            SolErrorView::Transport(e),
        ),
        reply matches Ok(body) ==> (body.get("error"@) matches Some(err) ==> (rpc_result(
            reply,
        ) matches Err(SolErrorView::Rpc { code, message }) && {
            &&& err.at("code"@).as_signed() == Some(code) || (err.at("code"@).as_signed() is None
                && code == 0)
            &&& err.at("message"@).as_text() == Some(message) || (err.at("message"@).as_text()
                is None && message.len() == 0)
        })),
        reply matches Ok(body) ==> (body.get("error"@) is None ==> (body.get(
            "result"@,
        ) matches Some(result) ==> rpc_result(reply) == Ok::<JsonView, SolErrorView>(result))),
        reply matches Ok(body) ==> (body.get("error"@) is None && body.get("result"@) is None
            ==> rpc_result(reply) == Err::<JsonView, SolErrorView>(
            SolErrorView::Decode("response had no result"@),
        )),
{
}

/// What a result is read as: a blockhash, a signature, a balance, an account's data. Each is taken
/// from its own place in the result, and a result without it is an error; an account that is null
/// does not exist.
pub proof fn law_what_a_result_means(reply: Result<JsonView, Seq<char>>, r: JsonView)
    ensures
        rpc_result(reply) matches Err(e) ==> {
            &&& blockhash_in(reply) == Err::<Seq<u8>, SolErrorView>(e)
            &&& signature_in(reply) == Err::<Seq<char>, SolErrorView>(e)
            &&& balance_in(reply) == Err::<u64, SolErrorView>(e)
            &&& account_in(reply) == Err::<Option<Seq<u8>>, SolErrorView>(e)
            &&& confirmation_in(reply) == Err::<bool, SolErrorView>(e)
            &&& escrow_in(reply) == Err::<Option<Escrow>, SolErrorView>(e)
        },
        rpc_result(reply) == Ok::<JsonView, SolErrorView>(r) ==> {
            let hash = r.at("value"@).at("blockhash"@).as_text();
            let data = r.at("value"@).at("data"@).nth(0).as_text();
            &&& hash matches Some(s) ==> (parsed_hash(s) matches Ok(h) ==> blockhash_in(reply)
                == Ok::<Seq<u8>, SolErrorView>(h))
            &&& hash matches Some(s) ==> (parsed_hash(s) matches Err(e) ==> blockhash_in(reply)
                == Err::<Seq<u8>, SolErrorView>(SolErrorView::Decode("bad blockhash: "@ + e)))
            &&& hash is None ==> blockhash_in(reply) == Err::<Seq<u8>, SolErrorView>(
                SolErrorView::Decode("no blockhash in response"@),
            )
            &&& r.as_text() matches Some(sig) ==> signature_in(reply) == Ok::<
                Seq<char>,
                SolErrorView,
            >(sig)
            &&& r.as_text() is None ==> signature_in(reply) == Err::<Seq<char>, SolErrorView>(
                SolErrorView::Decode("sendTransaction returned no signature"@),
            )
            &&& r.at("value"@).as_unsigned() matches Some(n) ==> balance_in(reply) == Ok::<
                u64,
                SolErrorView,
            >(n)
            &&& r.at("value"@).as_unsigned() is None ==> balance_in(reply) == Err::<
                u64,
                SolErrorView,
            >(SolErrorView::Decode("no balance in response"@))
            &&& r.at("value"@) is Null ==> account_in(reply) == Ok::<
                Option<Seq<u8>>,
                SolErrorView,
            >(None)
            &&& !(r.at("value"@) is Null) ==> (data matches Some(s) ==> (base64_bytes(s) matches Ok(
                b,
            ) ==> account_in(reply) == Ok::<Option<Seq<u8>>, SolErrorView>(Some(b))))
            &&& !(r.at("value"@) is Null) ==> (data matches Some(s) ==> (base64_bytes(
                s,
            ) matches Err(e) ==> account_in(reply) == Err::<Option<Seq<u8>>, SolErrorView>(
                SolErrorView::Decode(e),
            )))
            &&& !(r.at("value"@) is Null) && data is None ==> account_in(reply) == Err::<
                Option<Seq<u8>>,
                SolErrorView,
            >(SolErrorView::Decode("account data not base64"@))
        },
{
}

/// When a transaction counts as confirmed: where its status names no error and is `confirmed` or
/// `finalized`. A status that names an error is a failure, whatever else it says; any other one,
/// or none, means not yet.
pub proof fn law_when_a_transaction_is_confirmed(reply: Result<JsonView, Seq<char>>, r: JsonView)
    requires
        rpc_result(reply) == Ok::<JsonView, SolErrorView>(r),
    ensures
        ({
            let status = r.at("value"@).nth(0);
            let failed = !(status.at("err"@) is Null);
            let level = status.at("confirmationStatus"@);
            &&& confirmation_in(reply) is Err <==> failed
            &&& failed ==> confirmation_in(reply) == Err::<bool, SolErrorView>(
                SolErrorView::Rpc {
                    code: 0,
                    message: "transaction failed: "@ + json::json_text(status.at("err"@)),
                },
            )
            &&& confirmation_in(reply) == Ok::<bool, SolErrorView>(true) <==> !failed && (level
                == JsonView::Text("confirmed"@) || level == JsonView::Text("finalized"@))
        }),
{
}

/// What a wait for a confirmation does with a status: it ends with a confirmation or a failure,
/// and with a timeout that names the signature and the time once that was waited. Otherwise it
/// goes on, one interval later; what is waited for, how long and how often never change.
pub proof fn law_what_a_wait_does(c: ConfirmationView, reply: Result<JsonView, Seq<char>>)
    ensures
        c.verdict(reply) is Yes <==> confirmation_in(reply) == Ok::<bool, SolErrorView>(true),
        confirmation_in(reply) matches Err(e) ==> c.verdict(reply) == ConfirmedView::Failed(e),
        c.verdict(reply) is NotYet <==> confirmation_in(reply) == Ok::<bool, SolErrorView>(false)
            && c.waited < c.timeout.total(),
        confirmation_in(reply) == Ok::<bool, SolErrorView>(false) && c.waited >= c.timeout.total()
            ==> c.verdict(reply) == ConfirmedView::Failed(
            SolErrorView::Timeout(
                c.sig + " not confirmed in "@ + duration_text(
                    c.timeout.seconds(),
                    c.timeout.rest(),
                ),
            ),
        ),
        c.after(reply).waited == c.waited + (if c.verdict(reply) is NotYet {
            c.interval.total()
        } else {
            0
        }),
        c.after(reply).sig == c.sig && c.after(reply).timeout == c.timeout && c.after(
            reply,
        ).interval == c.interval,
{
}

/// How a transaction is sent, reply by reply. The instruction that is signed and submitted is the
/// one it started with, signed by the party's keypair for the blockhash in the reply, its own
/// account paying; what is waited for is the signature that the node answered with, for ninety
/// seconds, every two. Any failure ends it with that failure.
pub proof fn law_how_a_transaction_is_sent(
    s: SendingView,
    sol: RpcSol,
    reply: Result<JsonView, Seq<char>>,
)
    ensures
        s.next(sol, reply) matches SendStepView::Post { sending, .. } ==> sending.ix == s.ix,
        s.next(sol, reply) matches SendStepView::WaitAndPost { sending, .. } ==> sending.ix == s.ix,
        s.stage is Blockhash ==> (blockhash_in(reply) matches Err(e) ==> s.next(sol, reply)
            == SendStepView::Failed(e)),
        s.stage is Blockhash ==> (blockhash_in(reply) matches Ok(hash) ==> (keypair_address(
            sol.signer@,
        ) matches Err(e) ==> s.next(sol, reply) == SendStepView::CannotSign(e))),
        s.stage is Blockhash ==> (blockhash_in(reply) matches Ok(hash) ==> (keypair_address(
            sol.signer@,
        ) matches Ok(payer) ==> {
            let signed = signed_wire(
                s.ix.program_id@,
                s.ix.accounts,
                s.ix.data,
                payer,
                sol.signer@,
                hash,
            );
            &&& signed matches Ok(wire) ==> (s.next(sol, reply) matches SendStepView::Post {
                sending,
                body,
            } && sending.stage is Submitted && body == submit_request(wire, sol.rpc@.commitment))
            &&& signed matches Err(WireErrorView::Signing(e)) ==> s.next(sol, reply)
                == SendStepView::CannotSign(e)
            &&& signed matches Err(WireErrorView::Encoding(e)) ==> s.next(sol, reply)
                == SendStepView::Failed(SolErrorView::Decode(e))
        })),
        s.stage is Submitted ==> (signature_in(reply) matches Err(e) ==> s.next(sol, reply)
            == SendStepView::Failed(e)),
        s.stage is Submitted ==> (signature_in(reply) matches Ok(sig) ==> (s.next(
            sol,
            reply,
        ) matches SendStepView::Post { sending, body } && body == status_request(sig) && (
        sending.stage matches StageView::Confirming(c) && c.sig == sig && c.waited == 0
            && c.timeout.total() == 90_000_000_000 && c.interval.total() == 2_000_000_000))),
        s.stage matches StageView::Confirming(c) ==> match c.verdict(reply) {
            ConfirmedView::Yes => s.next(sol, reply) == SendStepView::Sent(c.sig),
            ConfirmedView::Failed(e) => s.next(sol, reply) == SendStepView::Failed(e),
            ConfirmedView::NotYet => s.next(sol, reply) matches SendStepView::WaitAndPost {
                sending,
                body,
            } && body == status_request(c.sig) && sending.stage == StageView::Confirming(
                c.after(reply),
            ),
        },
{
    Span::law_whole_seconds(90);
    Span::law_whole_seconds(2);
}

/// Sending an instruction starts by asking for a blockhash, at the commitment of the client.
pub proof fn law_how_sending_starts(sol: RpcSol, ix: InstructionView)
    ensures
        first_step(sol, ix) matches SendStepView::Post { sending, body } && sending.ix == ix
            && sending.stage is Blockhash && body == blockhash_request(sol.rpc@.commitment),
{
}

/// An escrow is read from the data of an account exactly where the data are an escrow's bytes; data
/// of another size are reported with both sizes, and others with what is wrong with them.
pub proof fn law_escrow_data_are_read(data: Seq<u8>, e: Escrow)
    ensures
        data == e.bytes() ==> escrow_in_data(data) == Ok::<Escrow, SolErrorView>(e),
        escrow_in_data(data) matches Ok(found) ==> found.bytes() == data,
        data.len() != 253 ==> escrow_in_data(data) == Err::<Escrow, SolErrorView>(
            SolErrorView::Decode(
                "escrow is "@ + text::decimal(data.len()) + " bytes, expected "@ + text::decimal(
                    253,
                ),
            ),
        ),
        data.len() == 253 && data[219] > 1 ==> escrow_in_data(data) == Err::<Escrow, SolErrorView>(
            SolErrorView::Decode(
                "Invalid bool representation: "@ + text::decimal(data[219] as nat),
            ),
        ),
        data.len() == 253 && data[219] <= 1 && data[220] > 1 ==> escrow_in_data(data) == Err::<
            Escrow,
            SolErrorView,
        >(
            SolErrorView::Decode(
                "Invalid bool representation: "@ + text::decimal(data[220] as nat),
            ),
        ),
{
    codec::law_escrow_round_trips(e, e);
    codec::law_escrow_bytes_are_escrows(data);
}

/// A reply's account is read as an escrow, and a missing account as none.
pub proof fn law_escrow_replies_mean_their_data(reply: Result<JsonView, Seq<char>>)
    ensures
        account_in(reply) matches Ok(None) ==> escrow_in(reply) == Ok::<
            Option<Escrow>,
            SolErrorView,
        >(None),
        account_in(reply) matches Ok(Some(data)) ==> (escrow_in_data(data) matches Ok(e)
            ==> escrow_in(reply) == Ok::<Option<Escrow>, SolErrorView>(Some(e))),
        account_in(reply) matches Ok(Some(data)) ==> (escrow_in_data(data) matches Err(e)
            ==> escrow_in(reply) == Err::<Option<Escrow>, SolErrorView>(e)),
        account_in(reply) matches Err(e) ==> escrow_in(reply) == Err::<
            Option<Escrow>,
            SolErrorView,
        >(e),
{
}

/// How errors are worded: by their kind, and with all that they carry.
pub proof fn law_errors_are_worded(e: Seq<char>, code: i64)
    ensures
        SolErrorView::Transport(e).wording() == "transport error: "@ + e,
        (SolErrorView::Rpc { code, message: e }).wording() == "rpc error "@ + text::signed_decimal(
            code as int,
        ) + ": "@ + e,
        SolErrorView::Decode(e).wording() == "decode error: "@ + e,
        SolErrorView::Timeout(e).wording() == "timeout: "@ + e,
{
}

/// Errors, instructions and the steps of a transaction say what they are: their texts, codes,
/// accounts and data are those that the values carry.
pub proof fn law_steps_and_errors_say_what_they_are(
    e: SolError,
    w: WireError,
    ix: Instruction,
    confirmed: Confirmed,
    step: SendStep,
    stage: Stage,
)
    ensures
        e matches SolError::Transport(t) ==> e@ == SolErrorView::Transport(t@),
        e matches SolError::Rpc { code, message } ==> e@ == (SolErrorView::Rpc {
            code,
            message: message@,
        }),
        e matches SolError::Decode(t) ==> e@ == SolErrorView::Decode(t@),
        e matches SolError::Timeout(t) ==> e@ == SolErrorView::Timeout(t@),
        w matches WireError::Signing(t) ==> w@ == WireErrorView::Signing(t@),
        w matches WireError::Encoding(t) ==> w@ == WireErrorView::Encoding(t@),
        ix@.program_id == ix.program_id,
        ix@.accounts == ix.accounts@,
        ix@.data == ix.data@,
        confirmed is Yes <==> confirmed@ is Yes,
        confirmed is NotYet <==> confirmed@ is NotYet,
        confirmed matches Confirmed::Failed(f) ==> confirmed@ == ConfirmedView::Failed(f@),
        step matches SendStep::Post { sending, body } ==> step@ == (SendStepView::Post {
            sending: sending@,
            body: body@,
        }),
        step matches SendStep::WaitAndPost { sending, body } ==> step@ == (
        SendStepView::WaitAndPost { sending: sending@, body: body@ }),
        step matches SendStep::Sent(sig) ==> step@ == SendStepView::Sent(sig@),
        step matches SendStep::Failed(f) ==> step@ == SendStepView::Failed(f@),
        step matches SendStep::CannotSign(t) ==> step@ == SendStepView::CannotSign(t@),
        stage is Blockhash <==> stage@ is Blockhash,
        stage is Submitted <==> stage@ is Submitted,
        stage matches Stage::Confirming(c) ==> stage@ == StageView::Confirming(c@),
{
}

/// A span is its seconds and the nanoseconds beyond them.
pub proof fn law_spans_are_seconds_and_nanoseconds(span: Span)
    ensures
        span.total() == span.seconds() * 1_000_000_000 + span.rest(),
{
}

/// A value that is not there reads as null, and one that is there as itself.
pub proof fn law_missing_values_are_null(value: Option<&Json>)
    ensures
        value is None ==> null_or(value) is Null,
        value matches Some(v) ==> null_or(value) == v@,
{
}

} // verus!
