use sp_core::crypto::Ss58Codec;
use sp_core::{ecdsa, ed25519, Blake2Hasher, Hasher, KeccakHasher, Pair};
use vane_node::chain::{create_tx, signed_raw_tx, ChainError};
use vane_node::codec::{decode, encode};
use vane_node::crypto::{compute_multi_id, validate_multi_id, validate_receiver_sender_address, VerifyError};
use vane_node::directory::{DirectoryStep, PeerDirectory, PeerRecord};
use vane_node::orchestrator::{
    finish_submission, on_inbound_request, on_response, on_sender_confirmed, route_rpc_update,
    RpcRoute, SenderStep, RESUBMIT_NOTE, UNDECODABLE_SIGNED_TX,
};
use vane_node::state::{ChainSupported, Party, TxStateMachine, TxStatus};

const EVM_RECEIVER: &str = "0xBBBBBBBBBBBBBBBBBB";

fn tx(sender: &str, receiver: &str, network: ChainSupported, amount: u128) -> TxStateMachine {
    TxStateMachine {
        sender_address: sender.to_string(),
        receiver_address: receiver.to_string(),
        multi_id: compute_multi_id(sender, receiver),
        network,
        amount,
        call_payload: None,
        signed_call_payload: None,
        recv_signature: None,
        status: TxStatus::Genesis,
        inbound_req_id: None,
        outbound_req_id: None,
        tx_hash: None,
    }
}

fn ecdsa_pair(seed: u8) -> (ecdsa::Pair, String) {
    let pair = ecdsa::Pair::from_seed(&[seed; 32]);
    let address = pair.public().to_ss58check();
    (pair, address)
}

fn ecdsa_sign_address(pair: &ecdsa::Pair, address: &str) -> Vec<u8> {
    let hashed = <KeccakHasher as Hasher>::hash(address.as_bytes()).0;
    pair.sign(&hashed).0.to_vec()
}

#[test]
fn codec_round_trip_full_record() {
    let mut t = tx("5Sender", "5Receiver", ChainSupported::Bnb, u128::MAX - 7);
    t.call_payload = Some(vec![1, 2, 3]);
    t.signed_call_payload = Some(vec![9; 65]);
    t.recv_signature = Some(Vec::new());
    t.status = TxStatus::TxSubmissionFailed("nonce too low".to_string());
    t.inbound_req_id = Some(u64::MAX);
    t.outbound_req_id = Some(42);
    t.tx_hash = Some(vec![0xde; 32]);
    let bytes = encode(&t);
    assert_eq!(decode(&bytes), Some(t));
}

#[test]
fn codec_round_trip_genesis() {
    let t = tx("", "", ChainSupported::Polkadot, 0);
    let bytes = encode(&t);
    assert_eq!(decode(&bytes), Some(t));
}

#[test]
fn codec_exact_prefix_bytes() {
    let t = tx("ab", "", ChainSupported::Ethereum, 1000);
    let bytes = encode(&t);
    // "ab": compact length 2 is 2 * 4 = 8, then the two bytes.
    assert_eq!(&bytes[..3], &[8, b'a', b'b']);
    // "": compact 0; multi-id: compact 32 is 128, then 32 bytes.
    assert_eq!(bytes[3], 0);
    assert_eq!(bytes[4], 128);
    // network index, then the amount as 16 little-endian bytes.
    assert_eq!(bytes[37], 1);
    assert_eq!(&bytes[38..40], &[0xe8, 0x03]);
    assert!(bytes[40..54].iter().all(|b| *b == 0));
}

#[test]
fn codec_two_byte_compact_length() {
    let long = "x".repeat(64);
    let t = tx(&long, "r", ChainSupported::Solana, 5);
    let bytes = encode(&t);
    // 64 * 4 + 1 = 257, little-endian.
    assert_eq!(&bytes[..2], &[0x01, 0x01]);
    assert_eq!(decode(&bytes), Some(t));
}

#[test]
fn codec_rejects_malformed_bytes() {
    let t = tx("s", "r", ChainSupported::Ethereum, 1);
    let bytes = encode(&t);
    assert_eq!(decode(&bytes[..bytes.len() - 1]), None);
    assert_eq!(decode(&[]), None);
    let mut bad_network = bytes.clone();
    bad_network[37] = 9;
    assert_eq!(decode(&bad_network), None);
    let mut bad_utf8 = bytes;
    bad_utf8[1] = 0xff;
    assert_eq!(decode(&bad_utf8), None);
}

#[test]
fn multi_id_is_blake2_of_both_addresses() {
    let expected = <Blake2Hasher as Hasher>::hash(b"0xA0xB").0.to_vec();
    assert_eq!(compute_multi_id("0xA", "0xB"), expected);
    assert_ne!(compute_multi_id("0xA", "0xB"), compute_multi_id("0xB", "0xA"));
}

#[test]
fn tampered_receiver_fails_multi_id() {
    let mut t = tx("0xA", "0xB", ChainSupported::Ethereum, 10);
    assert!(validate_multi_id(&t));
    t.receiver_address = "0xC".to_string();
    assert!(!validate_multi_id(&t));
}

#[test]
fn tampered_multi_id_fails_sender_confirmation() {
    let mut t = tx("0xA", EVM_RECEIVER, ChainSupported::Ethereum, 77);
    t.status = TxStatus::SenderConfirmed;
    t.receiver_address = "0xDDDDDDDDDDDDDDDDDD".to_string();
    match on_sender_confirmed(t.clone()) {
        SenderStep::Emit(out, Some(rec)) => {
            assert_eq!(out.status, TxStatus::SenderConfirmationFailed);
            assert_eq!(out.call_payload, None);
            assert_eq!(rec.tx_hash, Vec::<u8>::new());
            assert_eq!(rec.amount, 77);
            assert_eq!(rec.network, ChainSupported::Ethereum);
            assert!(!rec.success);
        }
        other => panic!("unexpected step {other:?}"),
    }
}

#[test]
fn receiver_ecdsa_signature_confirms() {
    let (pair, receiver) = ecdsa_pair(7);
    let mut t = tx("0xA", &receiver, ChainSupported::Ethereum, 1000);
    t.recv_signature = Some(ecdsa_sign_address(&pair, &receiver));
    assert_eq!(validate_receiver_sender_address(&t, Party::Receiver), Ok(()));
    let (out, rec) = on_response(t, 99);
    assert_eq!(out.status, TxStatus::RecvAddrConfirmed);
    assert_eq!(out.outbound_req_id, Some(99));
    assert_eq!(rec, None);
}

#[test]
fn receiver_signature_over_other_address_fails() {
    let (pair, receiver) = ecdsa_pair(7);
    let (_, other) = ecdsa_pair(8);
    let mut t = tx("0xA", &receiver, ChainSupported::Bnb, 1000);
    t.recv_signature = Some(ecdsa_sign_address(&pair, &other));
    assert!(validate_receiver_sender_address(&t, Party::Receiver).is_err());
    let (out, rec) = on_response(t, 3);
    assert_eq!(out.status, TxStatus::RecvAddrFailed);
    let rec = rec.expect("a failure row");
    assert!(rec.tx_hash.is_empty());
    assert_eq!(rec.amount, 1000);
    assert_eq!(rec.network, ChainSupported::Bnb);
    assert!(!rec.success);
}

#[test]
fn receiver_signed_by_other_key_fails() {
    let (_, receiver) = ecdsa_pair(7);
    let (intruder, _) = ecdsa_pair(9);
    let mut t = tx("0xA", &receiver, ChainSupported::Ethereum, 1);
    t.recv_signature = Some(ecdsa_sign_address(&intruder, &receiver));
    assert_eq!(
        validate_receiver_sender_address(&t, Party::Receiver),
        Err(VerifyError::VerificationFailed)
    );
}

#[test]
fn solana_ed25519_signature_confirms() {
    let pair = ed25519::Pair::from_seed(&[3; 32]);
    let receiver = pair.public().to_ss58check();
    let mut t = tx("sender", &receiver, ChainSupported::Solana, 5);
    t.recv_signature = Some(pair.sign(receiver.as_bytes()).0.to_vec());
    assert_eq!(validate_receiver_sender_address(&t, Party::Receiver), Ok(()));
    t.recv_signature = Some(pair.sign(b"something else").0.to_vec());
    assert_eq!(
        validate_receiver_sender_address(&t, Party::Receiver),
        Err(VerifyError::VerificationFailed)
    );
}

#[test]
fn signature_errors_by_kind() {
    let (_, receiver) = ecdsa_pair(7);
    let mut t = tx("0xA", &receiver, ChainSupported::Ethereum, 1);
    assert_eq!(
        validate_receiver_sender_address(&t, Party::Receiver),
        Err(VerifyError::MissingSignature)
    );
    t.recv_signature = Some(vec![1; 64]);
    assert_eq!(
        validate_receiver_sender_address(&t, Party::Receiver),
        Err(VerifyError::MalformedSignature)
    );
    t.network = ChainSupported::Polkadot;
    assert_eq!(
        validate_receiver_sender_address(&t, Party::Receiver),
        Err(VerifyError::NotImplemented)
    );
    let mut u = tx("0xA", "not an address", ChainSupported::Bnb, 1);
    u.recv_signature = Some(vec![1; 65]);
    assert_eq!(
        validate_receiver_sender_address(&u, Party::Receiver),
        Err(VerifyError::MalformedPublicKey)
    );
}

#[test]
fn create_tx_builds_eip7702_payload() {
    let t = tx("0xA", EVM_RECEIVER, ChainSupported::Ethereum, 1000);
    let eth = create_tx(t.clone()).expect("ethereum payload");
    let eth_payload = eth.call_payload.clone().expect("payload set");
    assert!(!eth_payload.is_empty());
    assert_eq!(TxStateMachine { call_payload: None, ..eth }, t);
    let mut b = t.clone();
    b.network = ChainSupported::Bnb;
    let bnb_payload = create_tx(b).expect("bnb payload").call_payload.unwrap();
    assert_ne!(eth_payload, bnb_payload);
}

#[test]
fn create_tx_errors() {
    let mut t = tx("0xA", EVM_RECEIVER, ChainSupported::Solana, 1);
    assert_eq!(create_tx(t.clone()), Err(ChainError::NotImplemented));
    t.network = ChainSupported::Polkadot;
    assert_eq!(create_tx(t.clone()), Err(ChainError::NotImplemented));
    let long = tx("0xA", "0x0000000000000000000000000000000000000001", ChainSupported::Ethereum, 1);
    assert_eq!(create_tx(long), Err(ChainError::MalformedReceiver));
}

#[test]
fn signed_raw_tx_errors() {
    let mut t = tx("0xA", EVM_RECEIVER, ChainSupported::Ethereum, 1);
    assert_eq!(signed_raw_tx(&t), Err(ChainError::MissingSignature));
    t.signed_call_payload = Some(vec![0; 65]);
    assert_eq!(signed_raw_tx(&t), Err(ChainError::MissingCallPayload));
    t.call_payload = Some(vec![0xff, 0x00]);
    assert_eq!(signed_raw_tx(&t), Err(ChainError::MalformedPayload));
    t.network = ChainSupported::Solana;
    assert_eq!(signed_raw_tx(&t), Err(ChainError::NotImplemented));
}

#[test]
fn ethereum_happy_path_on_sender() {
    let (sender_pair, sender) = ecdsa_pair(11);
    let mut t = tx(&sender, EVM_RECEIVER, ChainSupported::Ethereum, 1000);
    t.status = TxStatus::SenderConfirmed;
    let unsigned = match on_sender_confirmed(t) {
        SenderStep::Emit(out, None) => out,
        other => panic!("unexpected step {other:?}"),
    };
    assert!(unsigned.call_payload.is_some());
    let mut signed = unsigned.clone();
    signed.signed_call_payload = Some(ecdsa_sign_address(&sender_pair, &sender));
    let (to_submit, raw) = match on_sender_confirmed(signed) {
        SenderStep::Submit(out, raw) => (out, raw),
        other => panic!("unexpected step {other:?}"),
    };
    // EIP-2718 type byte of an EIP-7702 transaction.
    assert_eq!(raw[0], 0x04);
    let hash = vec![0xde, 0xad, 0xbe, 0xef].repeat(8);
    let (done, rec) = finish_submission(to_submit, Ok(hash.clone()));
    assert_eq!(done.status, TxStatus::TxSubmissionPassed);
    assert_eq!(done.tx_hash, Some(hash.clone()));
    let rec = rec.expect("a success row");
    assert_eq!(rec.tx_hash, hash);
    assert_eq!(rec.amount, 1000);
    assert_eq!(rec.network, ChainSupported::Ethereum);
    assert!(rec.success);
}

#[test]
fn non_original_sender_is_refused() {
    let (_, sender) = ecdsa_pair(11);
    let (intruder, _) = ecdsa_pair(12);
    let mut t = tx(&sender, EVM_RECEIVER, ChainSupported::Ethereum, 1000);
    t.status = TxStatus::SenderConfirmed;
    t.call_payload = Some(vec![1, 2, 3]);
    t.signed_call_payload = Some(ecdsa_sign_address(&intruder, &sender));
    match on_sender_confirmed(t) {
        SenderStep::Emit(out, None) => {
            assert_eq!(out.status, TxStatus::SenderConfirmationFailed)
        }
        other => panic!("unexpected step {other:?}"),
    }
}

#[test]
fn broadcast_failure_keeps_cause_and_note() {
    let (sender_pair, sender) = ecdsa_pair(11);
    let mut t = tx(&sender, EVM_RECEIVER, ChainSupported::Bnb, 20);
    t.status = TxStatus::SenderConfirmed;
    t.signed_call_payload = Some(ecdsa_sign_address(&sender_pair, &sender));
    let (out, rec) = finish_submission(t, Err("insufficient funds".to_string()));
    assert_eq!(
        out.status,
        TxStatus::TxSubmissionFailed(format!("insufficient funds{RESUBMIT_NOTE}"))
    );
    assert_eq!(rec, None);
    let (_, sender2) = ecdsa_pair(11);
    let mut short = tx(&sender2, EVM_RECEIVER, ChainSupported::Bnb, 20);
    short.status = TxStatus::SenderConfirmed;
    short.signed_call_payload = Some(ecdsa_sign_address(&sender_pair, &sender2));
    let (out, rec) = finish_submission(short, Ok(vec![1; 31]));
    assert!(matches!(out.status, TxStatus::TxSubmissionFailed(_)));
    assert_eq!(rec, None);
}

#[test]
fn finish_submission_ignores_other_statuses() {
    let t = tx("0xA", EVM_RECEIVER, ChainSupported::Ethereum, 1);
    let (out, rec) = finish_submission(t.clone(), Ok(vec![0; 32]));
    assert_eq!(out, t);
    assert_eq!(rec, None);
}

#[test]
fn sender_confirmed_requires_its_status() {
    let t = tx("0xA", EVM_RECEIVER, ChainSupported::Ethereum, 1);
    assert!(matches!(on_sender_confirmed(t), SenderStep::WrongStatus));
}

#[test]
fn rpc_updates_route_by_status() {
    let mut t = tx("0xA", "0xB", ChainSupported::Ethereum, 1);
    assert!(matches!(route_rpc_update(&t), RpcRoute::Genesis));
    t.status = TxStatus::RecvAddrConfirmed;
    assert!(matches!(route_rpc_update(&t), RpcRoute::MissingInboundId));
    t.inbound_req_id = Some(17);
    assert!(matches!(route_rpc_update(&t), RpcRoute::SendResponse(17)));
    t.status = TxStatus::SenderConfirmed;
    assert!(matches!(route_rpc_update(&t), RpcRoute::SenderConfirmed));
    t.status = TxStatus::NetConfirmed;
    assert!(matches!(route_rpc_update(&t), RpcRoute::NotImplemented));
    t.status = TxStatus::TxSubmissionPassed;
    assert!(matches!(route_rpc_update(&t), RpcRoute::Ignore));
}

#[test]
fn inbound_request_is_tagged_for_receiver() {
    let t = tx("0xA", "0xB", ChainSupported::Ethereum, 1);
    let out = on_inbound_request(t.clone(), 5);
    assert_eq!(out.inbound_req_id, Some(5));
    assert_eq!(out.status, TxStatus::ReceiverConfirmation);
    let mut later = t;
    later.status = TxStatus::RecvAddrConfirmed;
    assert_eq!(on_inbound_request(later, 6).status, TxStatus::RecvAddrConfirmed);
}

#[test]
fn status_setters_change_only_status() {
    let t = tx("0xA", "0xB", ChainSupported::Ethereum, 1);
    let mut u = t.clone();
    u.recv_confirmation_passed();
    assert_eq!(u, TxStateMachine { status: TxStatus::RecvAddrConfirmed, ..t.clone() });
    u.recv_confirmation_failed();
    assert_eq!(u.status, TxStatus::RecvAddrFailed);
    u.sender_confirmation_failed();
    assert_eq!(u.status, TxStatus::SenderConfirmationFailed);
    u.tx_submission_passed(vec![7; 32]);
    assert_eq!(u.tx_hash, Some(vec![7; 32]));
    u.tx_submission_failed("x".to_string());
    assert_eq!(u.status, TxStatus::TxSubmissionFailed("x".to_string()));
}

fn remote_listing() -> Vec<PeerRecord> {
    vec![
        PeerRecord {
            account_ids: vec!["0xA".to_string()],
            peer_id: "peer-a".to_string(),
            multi_addr: "/ip4/10.0.0.1/tcp/3000".to_string(),
        },
        PeerRecord {
            account_ids: vec!["0xX".to_string(), "0xB".to_string()],
            peer_id: "peer-b".to_string(),
            multi_addr: "/ip4/10.0.0.2/tcp/4000".to_string(),
        },
    ]
}

#[test]
fn directory_resolution_is_cached() {
    let mut dir = PeerDirectory::new();
    assert_eq!(dir.resolve("0xB"), DirectoryStep::FetchRemote);
    let found = dir.resolve_with_remote("0xB", &remote_listing());
    let expected = ("peer-b".to_string(), "/ip4/10.0.0.2/tcp/4000".to_string());
    assert_eq!(found, Some(expected.clone()));
    assert_eq!(dir.saved.len(), 1);
    // The second resolution is a local hit: no remote listing is asked for.
    assert_eq!(dir.resolve("0xB"), DirectoryStep::Hit(expected.0.clone(), expected.1.clone()));
    assert_eq!(dir.resolve_with_remote("0xB", &Vec::new()), Some(expected));
    assert_eq!(dir.saved.len(), 1);
}

#[test]
fn directory_miss_everywhere() {
    let mut dir = PeerDirectory::new();
    assert_eq!(dir.resolve("0xC"), DirectoryStep::FetchRemote);
    assert_eq!(dir.resolve_with_remote("0xC", &remote_listing()), None);
    assert!(dir.saved.is_empty());
    assert_eq!(dir.get_saved_user_peers("0xC"), None);
}

#[test]
fn undecodable_signed_payload_fails_submission() {
    let (sender_pair, sender) = ecdsa_pair(13);
    let mut t = tx(&sender, EVM_RECEIVER, ChainSupported::Ethereum, 9);
    t.status = TxStatus::SenderConfirmed;
    t.call_payload = Some(vec![0xc0, 0xff, 0xee]);
    t.signed_call_payload = Some(ecdsa_sign_address(&sender_pair, &sender));
    match on_sender_confirmed(t) {
        SenderStep::Emit(out, None) => assert_eq!(
            out.status,
            TxStatus::TxSubmissionFailed(format!("{UNDECODABLE_SIGNED_TX}{RESUBMIT_NOTE}"))
        ),
        other => panic!("unexpected step {other:?}"),
    }
}

#[test]
fn terminal_statuses_are_left_alone() {
    let terminal = [
        TxStatus::RecvAddrFailed,
        TxStatus::SenderConfirmationFailed,
        TxStatus::TxSubmissionPassed,
        TxStatus::TxSubmissionFailed("gone".to_string()),
    ];
    for status in terminal {
        let mut t = tx("0xA", EVM_RECEIVER, ChainSupported::Ethereum, 1);
        t.status = status.clone();
        assert!(matches!(route_rpc_update(&t), RpcRoute::Ignore));
        assert!(matches!(on_sender_confirmed(t.clone()), SenderStep::WrongStatus));
        let (out, rec) = finish_submission(t, Ok(vec![0; 32]));
        assert_eq!(out.status, status);
        assert_eq!(rec, None);
    }
}

#[test]
fn statuses_follow_the_protocol_path() {
    let (recv_pair, receiver) = ecdsa_pair(21);
    let sent = tx("0xA", &receiver, ChainSupported::Ethereum, 1000);
    assert_eq!(sent.status, TxStatus::Genesis);
    let mut at_receiver = on_inbound_request(sent, 1);
    assert_eq!(at_receiver.status, TxStatus::ReceiverConfirmation);
    at_receiver.recv_signature = Some(ecdsa_sign_address(&recv_pair, &receiver));
    at_receiver.status = TxStatus::RecvAddrConfirmed;
    let (back_at_sender, rec) = on_response(at_receiver, 2);
    assert_eq!(back_at_sender.status, TxStatus::RecvAddrConfirmed);
    assert_eq!(rec, None);
}

#[test]
fn response_with_terminal_status_is_kept() {
    let (pair, receiver) = ecdsa_pair(7);
    for status in [
        TxStatus::RecvAddrFailed,
        TxStatus::SenderConfirmationFailed,
        TxStatus::TxSubmissionPassed,
        TxStatus::TxSubmissionFailed("cause".to_string()),
    ] {
        let mut t = tx("0xA", &receiver, ChainSupported::Ethereum, 1000);
        t.recv_signature = Some(ecdsa_sign_address(&pair, &receiver));
        t.status = status.clone();
        let (out, rec) = on_response(t.clone(), 4);
        assert_eq!(out, TxStateMachine { outbound_req_id: Some(4), ..t });
        assert_eq!(rec, None);
    }
}

#[test]
fn short_sender_signature_is_malformed_payload() {
    let t = tx("0xA", EVM_RECEIVER, ChainSupported::Ethereum, 1);
    let mut built = create_tx(t).expect("payload");
    built.signed_call_payload = Some(vec![1; 64]);
    assert_eq!(signed_raw_tx(&built), Err(ChainError::MalformedPayload));
}

#[test]
fn resubmission_note_says_it_is_up_to_the_user() {
    assert!(RESUBMIT_NOTE.contains("resubmit it yourself"));
}
