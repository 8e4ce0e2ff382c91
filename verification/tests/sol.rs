use base64::Engine;
use solana_sdk::pubkey::Pubkey;
use solana_sdk::signature::{Keypair, Signer};
use solana_sdk::transaction::Transaction;
use suture::address::{escrow_address, find_escrow_address};
use suture::codec::DecodeError;
use suture::json::Json;
use suture::sol::{
    call_result, claim_ix, close_ix, escrow_from_data, lock_ix, refund_ix, set_ready_ix,
    AccountMeta, Confirmation, Confirmed, Escrow, Instruction, Rpc, RpcSol, SendStep, SolError,
    Span, SwapInstruction, SwapTerms, CONFIRM_INTERVAL_SECS, CONFIRM_TIMEOUT_SECS, ESCROW_SEED,
};

fn terms() -> SwapTerms {
    SwapTerms {
        id: [7u8; 32],
        locker: Pubkey::new_unique().to_bytes(),
        claimer: Pubkey::new_unique().to_bytes(),
        fee_recipient: Pubkey::new_unique().to_bytes(),
        claim_point: [1u8; 32],
        refund_point: [2u8; 32],
        amount: 1,
        fee_bps: 0,
        t0: 0,
        t1: 600,
    }
}

fn sample_escrow() -> Escrow {
    Escrow {
        locker: [10u8; 32],
        claimer: [11u8; 32],
        fee_recipient: [12u8; 32],
        claim_point: [13u8; 32],
        refund_point: [14u8; 32],
        amount: 50_000_000,
        fee_bps: 300,
        t0: 1_900_000_000,
        t1: 1_900_003_600,
        id: [15u8; 32],
        bump: 254,
        ready: true,
        settled: true,
        revealed: [16u8; 32],
    }
}

#[test]
fn escrow_len_matches_the_program() {
    assert_eq!(Escrow::LEN, 253);
}

#[test]
fn instruction_discriminants_and_lengths_match_the_ts_client() {
    // One byte of discriminant, then the fields.
    assert_eq!(SwapInstruction::SetReady.to_bytes(), vec![1]);
    assert_eq!(SwapInstruction::Close.to_bytes(), vec![4]);

    let claim = (SwapInstruction::Claim { reveal: [0u8; 32] }).to_bytes();
    assert_eq!(claim.len(), 33);
    assert_eq!(claim[0], 2);

    let refund = (SwapInstruction::Refund { reveal: [9u8; 32] }).to_bytes();
    assert_eq!(refund.len(), 33);
    assert_eq!(refund[0], 3);
    assert_eq!(&refund[1..], &[9u8; 32]);
}

#[test]
fn lock_encoding_is_byte_exact() {
    // discriminant + id + claimer + fee_recipient + claim_point + refund_point
    // + amount(u64 LE) + fee_bps(u16 LE) + t0(i64 LE) + t1(i64 LE)
    let ix = SwapInstruction::Lock {
        id: [1u8; 32],
        claimer: [2u8; 32],
        fee_recipient: [3u8; 32],
        claim_point: [4u8; 32],
        refund_point: [5u8; 32],
        amount: 0x0102_0304_0506_0708,
        fee_bps: 0x0A0B,
        t0: 0x1112_1314_1516_1718,
        t1: 0x2122_2324_2526_2728,
    };
    let bytes = ix.to_bytes();

    assert_eq!(bytes.len(), 1 + 32 * 5 + 8 + 2 + 8 + 8);
    assert_eq!(bytes[0], 0); // Lock discriminant

    let mut off = 1;
    for (chunk, fill) in [(32, 1u8), (32, 2), (32, 3), (32, 4), (32, 5)] {
        assert!(bytes[off..off + chunk].iter().all(|&b| b == fill));
        off += chunk;
    }
    // little-endian scalars
    assert_eq!(&bytes[off..off + 8], &0x0102_0304_0506_0708u64.to_le_bytes());
    off += 8;
    assert_eq!(&bytes[off..off + 2], &0x0A0Bu16.to_le_bytes());
    off += 2;
    assert_eq!(&bytes[off..off + 8], &0x1112_1314_1516_1718i64.to_le_bytes());
    off += 8;
    assert_eq!(&bytes[off..off + 8], &0x2122_2324_2526_2728i64.to_le_bytes());
}

#[test]
fn escrow_round_trips_through_borsh() {
    let original = sample_escrow();
    let bytes = original.to_bytes();
    assert_eq!(bytes.len(), Escrow::LEN);

    let decoded = Escrow::try_from_slice(&bytes).unwrap();
    assert_eq!(decoded, original);
    assert!(decoded.settled && decoded.ready);
    assert_eq!(decoded.revealed, [16u8; 32]);
    assert_eq!(decoded.fee_bps, 300);
}

#[test]
fn escrow_pda_is_deterministic_from_terms() {
    let program_id = Pubkey::new_unique();
    let terms = terms();
    let a = terms.escrow_pda(&program_id.to_bytes());
    let b = terms.escrow_pda(&program_id.to_bytes());
    assert_eq!(a, b);
    // Same seeds the program derives again when it loads the account.
    let (expected, _) =
        Pubkey::find_program_address(&[&ESCROW_SEED, &terms.locker, &terms.id], &program_id);
    assert_eq!(a, Some(expected.to_bytes()));
}

#[test]
fn the_layouts_are_borsh() {
    let e = sample_escrow();
    let front = (e.locker, e.claimer, e.fee_recipient, e.claim_point, e.refund_point);
    let back = (e.amount, e.fee_bps, e.t0, e.t1, e.id, e.bump, e.ready, e.settled, e.revealed);
    let mut expected = borsh::to_vec(&front).unwrap();
    expected.extend(borsh::to_vec(&back).unwrap());
    assert_eq!(e.to_bytes(), expected);

    let ix = SwapInstruction::Lock {
        id: [1; 32],
        claimer: [2; 32],
        fee_recipient: [3; 32],
        claim_point: [4; 32],
        refund_point: [5; 32],
        amount: u64::MAX,
        fee_bps: 300,
        t0: -1,
        t1: i64::MIN,
    };
    let mut expected =
        borsh::to_vec(&(0u8, [1u8; 32], [2u8; 32], [3u8; 32], [4u8; 32], [5u8; 32])).unwrap();
    expected.extend(borsh::to_vec(&(u64::MAX, 300u16, -1i64, i64::MIN)).unwrap());
    assert_eq!(ix.to_bytes(), expected);
    assert_eq!(SwapInstruction::try_from_slice(&expected), Ok(ix));
}

#[test]
fn malformed_bytes_are_refused_as_borsh_refuses_them() {
    assert_eq!(SwapInstruction::try_from_slice(&[]), Err(DecodeError::UnexpectedEnd));
    assert_eq!(SwapInstruction::try_from_slice(&[5]), Err(DecodeError::BadTag(5)));
    assert_eq!(SwapInstruction::try_from_slice(&[2, 0]), Err(DecodeError::UnexpectedEnd));
    assert_eq!(SwapInstruction::try_from_slice(&[1, 0]), Err(DecodeError::TrailingBytes));
    assert_eq!(DecodeError::BadTag(5).message(), "Unexpected variant tag: 5");

    let mut bytes = sample_escrow().to_bytes();
    bytes[219] = 2;
    assert_eq!(Escrow::try_from_slice(&bytes), Err(DecodeError::BadBool(2)));
    assert_eq!(
        DecodeError::BadBool(2).message(),
        borsh::from_slice::<bool>(&[2]).unwrap_err().to_string()
    );
    bytes[219] = 1;
    bytes[220] = 3;
    assert_eq!(Escrow::try_from_slice(&bytes), Err(DecodeError::BadBool(3)));
    bytes[220] = 1;
    assert_eq!(Escrow::try_from_slice(&bytes[..252]), Err(DecodeError::UnexpectedEnd));
    assert_eq!(
        DecodeError::UnexpectedEnd.message(),
        borsh::from_slice::<u64>(&[2]).unwrap_err().to_string()
    );
    bytes.push(0);
    assert_eq!(Escrow::try_from_slice(&bytes), Err(DecodeError::TrailingBytes));
    assert_eq!(
        DecodeError::TrailingBytes.message(),
        borsh::from_slice::<u8>(&[2, 3]).unwrap_err().to_string()
    );
}

#[test]
fn escrow_addresses_are_those_of_the_runtime() {
    let program = Pubkey::new_unique();
    let locker = Pubkey::new_unique();
    let (expected, bump) =
        Pubkey::find_program_address(&[b"escrow", locker.as_ref(), &[9u8; 32]], &program);
    let found = find_escrow_address(&locker.to_bytes(), &[9u8; 32], &program.to_bytes());
    assert_eq!(found, Some((expected.to_bytes(), bump)));
    let again = escrow_address(&locker.to_bytes(), &[9u8; 32], bump, &program.to_bytes());
    assert_eq!(again, Some(expected.to_bytes()));
    for b in 0..=255u8 {
        let by_hand = Pubkey::create_program_address(
            &[b"escrow", locker.as_ref(), &[9u8; 32], &[b]],
            &program,
        );
        assert_eq!(
            escrow_address(&locker.to_bytes(), &[9u8; 32], b, &program.to_bytes()),
            by_hand.ok().map(|p| p.to_bytes())
        );
    }
}

#[test]
fn instructions_name_their_accounts_in_order() {
    let (p, e, t) = ([1u8; 32], [2u8; 32], terms());
    let ix: Instruction = lock_ix(&p, &e, &t);
    assert_eq!(ix.program_id, p);
    assert_eq!(
        ix.accounts,
        vec![
            AccountMeta::new(t.locker, true),
            AccountMeta::new(e, false),
            AccountMeta::new_readonly([0u8; 32], false),
        ]
    );
    assert_eq!(ix.data.len(), 187);
    let ix = set_ready_ix(&p, &e, &t.locker);
    assert_eq!(
        ix.accounts,
        vec![AccountMeta::new(e, false), AccountMeta::new_readonly(t.locker, true)]
    );
    assert_eq!(ix.data, vec![1]);
    let ix = claim_ix(&p, &e, &t.claimer, &t.fee_recipient, [9u8; 32]);
    assert_eq!(
        ix.accounts,
        vec![
            AccountMeta::new(e, false),
            AccountMeta::new(t.claimer, false),
            AccountMeta::new(t.fee_recipient, false),
        ]
    );
    assert_eq!(ix.data[0], 2);
    let ix = refund_ix(&p, &e, &t.locker, [9u8; 32]);
    assert_eq!(
        ix.accounts,
        vec![AccountMeta::new(e, false), AccountMeta::new(t.locker, false)]
    );
    assert_eq!(&ix.data[1..], &[9u8; 32]);
    let ix = close_ix(&p, &e, &t.locker);
    assert_eq!(
        ix.accounts,
        vec![AccountMeta::new(e, false), AccountMeta::new(t.locker, true)]
    );
    assert_eq!(ix.data, vec![4]);
}

fn text(s: &str) -> Json {
    Json::text(s)
}

fn reply(result: Json) -> Result<Json, String> {
    Ok(Json::object().field("jsonrpc", text("2.0")).field("result", result))
}

fn value(v: Json) -> Result<Json, String> {
    reply(Json::object().field("value", v))
}

fn parsed(body: &str) -> serde_json::Value {
    serde_json::from_str(body).expect("a request is JSON")
}

#[test]
fn requests_are_json_rpc() {
    let rpc = Rpc::new("https://api.devnet.solana.com");
    assert_eq!(rpc.url(), "https://api.devnet.solana.com");

    let body = rpc.latest_blockhash_request();
    let v = parsed(
        "{\"jsonrpc\":\"2.0\",\"id\":1,\"method\":\"getLatestBlockhash\",\
         \"params\":[{\"commitment\":\"confirmed\"}]}",
    );
    assert_eq!(parsed(&body), v);
    assert_eq!(body, v.to_string());

    let v = parsed(&rpc.send_transaction_request(&vec![1, 2, 3, 255]));
    assert_eq!(v["method"], "sendTransaction");
    assert_eq!(v["params"][0], "AQID/w==");
    assert_eq!(v["params"][1]["encoding"], "base64");
    assert_eq!(v["params"][1]["preflightCommitment"], "confirmed");

    let v = parsed(&rpc.status_request("sig\"\n"));
    assert_eq!(v["method"], "getSignatureStatuses");
    assert_eq!(v["params"][0][0], "sig\"\n");
    assert_eq!(v["params"][1]["searchTransactionHistory"], false);

    let key = Pubkey::new_unique();
    let v = parsed(&rpc.account_request(&key.to_bytes()));
    assert_eq!(v["method"], "getAccountInfo");
    assert_eq!(v["params"][0], key.to_string());
    assert_eq!(v["params"][1]["encoding"], "base64");
    assert_eq!(v["params"][1]["commitment"], "confirmed");
    let v = parsed(&rpc.finalized_account_request(&key.to_bytes()));
    assert_eq!(v["params"][1]["commitment"], "finalized");

    let v = parsed(&rpc.balance_request(&key.to_bytes()));
    assert_eq!(v["method"], "getBalance");
    assert_eq!(v["id"], 1);
    assert_eq!(v["jsonrpc"], "2.0");
    assert_eq!(v["params"][0], key.to_string());
    assert_eq!(v["params"][1]["commitment"], "confirmed");
}

#[test]
fn node_errors_are_reported() {
    let e = call_result(&Err("connection refused".to_string())).unwrap_err();
    assert_eq!(e.message(), "transport error: connection refused");

    let err = Json::object().field("code", Json::Negative(-32002)).field("message", text("busy"));
    let body = Ok(Json::object().field("error", err).field("result", Json::Null));
    let e = call_result(&body).unwrap_err();
    assert!(matches!(e, SolError::Rpc { code: -32002, .. }));
    assert_eq!(e.message(), "rpc error -32002: busy");

    // An error without code or message, and even a null one, is an error.
    let e = call_result(&Ok(Json::object().field("error", Json::Null))).unwrap_err();
    assert_eq!(e.message(), "rpc error 0: ");

    let e = call_result(&Ok(Json::object())).unwrap_err();
    assert_eq!(e.message(), "decode error: response had no result");
    assert_eq!(SolError::Timeout("x".to_string()).message(), "timeout: x");
}

#[test]
fn blockhashes_are_read() {
    let rpc = Rpc::new("u");
    let hash = Pubkey::new_from_array([3u8; 32]).to_string();
    let body = value(Json::object().field("blockhash", text(&hash)));
    assert_eq!(rpc.latest_blockhash(&body).unwrap(), [3u8; 32]);

    let e = rpc.latest_blockhash(&value(Json::object())).unwrap_err();
    assert_eq!(e.message(), "decode error: no blockhash in response");
    let body = value(Json::object().field("blockhash", text("0OIl")));
    let e = rpc.latest_blockhash(&body).unwrap_err();
    assert!(e.message().starts_with("decode error: bad blockhash: "));
}

#[test]
fn signatures_and_balances_are_read() {
    let rpc = Rpc::new("u");
    assert_eq!(rpc.send_transaction(&reply(text("5sig"))).unwrap(), "5sig");
    let e = rpc.send_transaction(&reply(Json::Null)).unwrap_err();
    assert_eq!(e.message(), "decode error: sendTransaction returned no signature");

    assert_eq!(rpc.get_balance(&value(Json::Unsigned(42))).unwrap(), 42);
    let e = rpc.get_balance(&value(Json::Negative(-1))).unwrap_err();
    assert_eq!(e.message(), "decode error: no balance in response");
}

fn status(level: &str) -> Result<Json, String> {
    let s = Json::object().field("err", Json::Null).field("confirmationStatus", text(level));
    value(Json::list().and(s))
}

#[test]
fn confirmations_are_read() {
    let rpc = Rpc::new("u");
    assert!(rpc.confirmed(&status("confirmed")).unwrap());
    assert!(rpc.confirmed(&status("finalized")).unwrap());
    assert!(!rpc.confirmed(&status("processed")).unwrap());
    assert!(!rpc.confirmed(&value(Json::list().and(Json::Null))).unwrap());
    assert!(!rpc.confirmed(&value(Json::list())).unwrap());

    let detail = Json::object()
        .field("InstructionError", Json::list().and(Json::Unsigned(0)).and(text("Custom \"5\"")));
    let failed = Json::object().field("err", detail).field("confirmationStatus", text("finalized"));
    let e = rpc.confirmed(&value(Json::list().and(failed))).unwrap_err();
    assert_eq!(
        e.message(),
        "rpc error 0: transaction failed: {\"InstructionError\":[0,\"Custom \\\"5\\\"\"]}"
    );
}

#[test]
fn waiting_for_a_confirmation_times_out() {
    let rpc = Rpc::new("u");
    let (mut c, body) = rpc.confirm("5sig", Span::from_secs(90), Span::from_secs(2));
    assert_eq!(parsed(&body)["params"][0][0], "5sig");
    for _ in 0..45 {
        assert!(matches!(c.on_reply(&rpc, &status("processed")), Confirmed::NotYet));
    }
    match c.on_reply(&rpc, &status("processed")) {
        Confirmed::Failed(e) => assert_eq!(e.message(), "timeout: 5sig not confirmed in 90s"),
        other => panic!("{other:?}"),
    }
    assert!(matches!(c.on_reply(&rpc, &status("confirmed")), Confirmed::Yes));
    assert_eq!(c.sig(), "5sig");

    assert!(Span::new(0, 1_000_000_000).is_none());
    let mut c = Confirmation::new("s", Span::new(1, 500_000_000).unwrap(), Span::from_secs(2));
    assert!(matches!(c.on_reply(&rpc, &status("")), Confirmed::NotYet));
    match c.on_reply(&rpc, &status("")) {
        Confirmed::Failed(e) => assert_eq!(e.message(), "timeout: s not confirmed in 1.5s"),
        other => panic!("{other:?}"),
    }
}

fn account(data: Json) -> Result<Json, String> {
    value(Json::object().field("data", data))
}

fn backend(signer: &Keypair) -> RpcSol {
    let mut t = terms();
    t.locker = signer.pubkey().to_bytes();
    let rpc = Rpc::new("u");
    RpcSol::new(rpc, [1u8; 32], t, signer.to_bytes(), [9u8; 32]).expect("an address")
}

#[test]
fn escrow_accounts_are_read_back() {
    let sol = backend(&Keypair::new());
    let key = Pubkey::new_from_array(sol.escrow).to_string();
    assert_eq!(parsed(&sol.escrow_request())["params"][0], key);
    assert_eq!(parsed(&sol.escrow_request())["params"][1]["commitment"], "confirmed");
    assert_eq!(parsed(&sol.escrow_finalized_request())["params"][0], key);
    assert_eq!(parsed(&sol.escrow_finalized_request())["params"][1]["commitment"], "finalized");
    assert_eq!(sol.read_escrow(&value(Json::Null)).unwrap(), None);
    assert_eq!(Escrow::default().to_bytes(), vec![0u8; Escrow::LEN]);

    let e = sample_escrow();
    let b64 = base64::engine::general_purpose::STANDARD.encode(e.to_bytes());
    let body = account(Json::list().and(text(&b64)).and(text("base64")));
    assert_eq!(sol.read_escrow(&body).unwrap(), Some(e));

    let err = sol.read_escrow(&account(Json::list().and(text("AQID")))).unwrap_err();
    assert_eq!(err.message(), "decode error: escrow is 3 bytes, expected 253");
    let err = sol.read_escrow(&account(Json::list())).unwrap_err();
    assert_eq!(err.message(), "decode error: account data not base64");
    let err = sol.read_escrow(&account(Json::list().and(text("!")))).unwrap_err();
    assert!(err.message().starts_with("decode error: "));

    let mut bad = e.to_bytes();
    bad[220] = 7;
    let b64 = base64::engine::general_purpose::STANDARD.encode(bad);
    let err = sol.read_escrow(&account(Json::list().and(text(&b64)))).unwrap_err();
    assert_eq!(err.message(), "decode error: Invalid bool representation: 7");
}

fn post(step: SendStep) -> (suture::sol::Sending, String) {
    match step {
        SendStep::Post { sending, body } => (sending, body),
        other => panic!("{other:?}"),
    }
}

#[test]
fn an_instruction_is_signed_submitted_and_confirmed() {
    let signer = Keypair::new();
    let sol = backend(&signer);
    assert_eq!(Some(sol.escrow), sol.terms.escrow_pda(&sol.program_id));

    let (sending, body) = post(sol.lock());
    assert_eq!(parsed(&body)["method"], "getLatestBlockhash");

    let hash = Pubkey::new_from_array([3u8; 32]).to_string();
    let blockhash = value(Json::object().field("blockhash", text(&hash)));
    let (sending, body) = post(sol.advance(sending, &blockhash));
    let v = parsed(&body);
    assert_eq!(v["method"], "sendTransaction");

    // What was submitted is the transaction that the SDK itself would have made.
    let wire = base64::engine::general_purpose::STANDARD
        .decode(v["params"][0].as_str().unwrap())
        .unwrap();
    let tx: Transaction = bincode::deserialize(&wire).unwrap();
    tx.verify().expect("signed");
    let ix = lock_ix(&sol.program_id, &sol.escrow, &sol.terms);
    let metas = ix
        .accounts
        .iter()
        .map(|m| solana_sdk::instruction::AccountMeta {
            pubkey: Pubkey::new_from_array(m.pubkey),
            is_signer: m.is_signer,
            is_writable: m.is_writable,
        })
        .collect();
    let program = Pubkey::new_from_array(ix.program_id);
    let expected = Transaction::new_signed_with_payer(
        &[solana_sdk::instruction::Instruction::new_with_bytes(program, &ix.data, metas)],
        Some(&signer.pubkey()),
        &[&signer],
        solana_sdk::hash::Hash::new_from_array([3u8; 32]),
    );
    assert_eq!(tx, expected);

    let (sending, body) = post(sol.advance(sending, &reply(text("5sig"))));
    assert_eq!(parsed(&body)["params"][0][0], "5sig");
    match sol.advance(sending, &status("processed")) {
        SendStep::WaitAndPost { sending, body } => {
            assert_eq!(parsed(&body)["params"][0][0], "5sig");
            match sol.advance(sending, &status("confirmed")) {
                SendStep::Sent(sig) => assert_eq!(sig, "5sig"),
                other => panic!("{other:?}"),
            }
        }
        other => panic!("{other:?}"),
    }
    assert_eq!((CONFIRM_TIMEOUT_SECS, CONFIRM_INTERVAL_SECS), (90, 2));
}

#[test]
fn each_operation_sends_its_own_instruction() {
    let sol = backend(&Keypair::new());
    let hash = Pubkey::new_from_array([3u8; 32]).to_string();
    let blockhash = value(Json::object().field("blockhash", text(&hash)));
    for (start, tag) in [
        (sol.lock(), 0u8),
        (sol.set_ready(), 1),
        (sol.claim(), 2),
        (sol.refund(), 3),
        (sol.close(), 4),
    ] {
        let (sending, _) = post(start);
        let (_, body) = post(sol.advance(sending, &blockhash));
        let b64 = parsed(&body)["params"][0].as_str().unwrap().to_string();
        let wire = base64::engine::general_purpose::STANDARD.decode(b64).unwrap();
        let tx: Transaction = bincode::deserialize(&wire).unwrap();
        let data = &tx.message.instructions[0].data;
        assert_eq!(data[0], tag);
        if tag == 2 || tag == 3 {
            assert_eq!(&data[1..], &[9u8; 32]);
        }
    }
}

#[test]
fn sending_stops_at_the_first_failure() {
    let signer = Keypair::new();
    let sol = backend(&signer);
    let (sending, _) = post(sol.lock());
    match sol.advance(sending, &Err("down".to_string())) {
        SendStep::Failed(e) => assert_eq!(e.message(), "transport error: down"),
        other => panic!("{other:?}"),
    }

    // The locker has to sign a lock, and this keypair is not the locker's.
    let mut other = backend(&signer);
    other.terms.locker = [5u8; 32];
    let hash = Pubkey::new_from_array([3u8; 32]).to_string();
    let blockhash = value(Json::object().field("blockhash", text(&hash)));
    let (sending, _) = post(other.lock());
    match other.advance(sending, &blockhash) {
        SendStep::CannotSign(e) => assert_eq!(e, "NotEnoughSigners"),
        other => panic!("{other:?}"),
    }
}

#[test]
fn bytes_that_are_no_keypair_cannot_sign() {
    let signer = Keypair::new();
    let mut sol = backend(&signer);
    // The public half is not the one of the secret half.
    sol.signer[..32].copy_from_slice(&[1u8; 32]);
    let hash = Pubkey::new_from_array([3u8; 32]).to_string();
    let blockhash = value(Json::object().field("blockhash", text(&hash)));
    let (sending, _) = post(sol.claim());
    match sol.advance(sending, &blockhash) {
        SendStep::CannotSign(e) => assert!(e.contains("do not specify same pubkey")),
        other => panic!("{other:?}"),
    }
}

#[test]
fn the_signer_pays() {
    let signer = Keypair::new();
    let sol = backend(&signer);
    let hash = Pubkey::new_from_array([3u8; 32]).to_string();
    let blockhash = value(Json::object().field("blockhash", text(&hash)));
    // A claim names no signer, so that the payer alone signs.
    let (sending, _) = post(sol.claim());
    let (_, body) = post(sol.advance(sending, &blockhash));
    let wire = base64::engine::general_purpose::STANDARD
        .decode(parsed(&body)["params"][0].as_str().unwrap())
        .unwrap();
    let tx: Transaction = bincode::deserialize(&wire).unwrap();
    tx.verify().expect("signed");
    assert_eq!(tx.message.account_keys[0], signer.pubkey());
    assert_eq!(tx.message.header.num_required_signatures, 1);
}

#[test]
fn escrows_are_read_from_account_data() {
    let e = sample_escrow();
    let data = e.to_bytes().to_vec();
    assert_eq!(escrow_from_data(&data).unwrap(), e);
    let err = escrow_from_data(&data[1..].to_vec()).unwrap_err();
    assert_eq!(err.message(), "decode error: escrow is 252 bytes, expected 253");
    let mut bad = data.clone();
    bad[220] = 7;
    let err = escrow_from_data(&bad).unwrap_err();
    assert_eq!(err.message(), "decode error: Invalid bool representation: 7");
}

#[test]
fn a_wait_outlasts_as_many_replies_as_intervals_cover_the_timeout() {
    let rpc = Rpc::new("http://localhost");
    for (timeout, interval, replies) in [(90, 2, 45), (5, 2, 3), (1, 2, 1), (0, 2, 0)] {
        let (timeout, interval) = (Span::from_secs(timeout), Span::from_secs(interval));
        let (mut c, _) = rpc.confirm("5sig", timeout, interval);
        for _ in 0..replies {
            assert!(matches!(c.on_reply(&rpc, &status("processed")), Confirmed::NotYet));
        }
        assert!(matches!(c.on_reply(&rpc, &status("processed")), Confirmed::Failed(_)));
    }
}
