use vstd::prelude::*;
use vstd::string::StringExecFns;
use crate::codec::StatusView;
use crate::chain::{create_tx, signed_raw_tx, call_payload_for, signed_raw_for, ChainError};
use crate::crypto::{
    validate_multi_id, validate_receiver_sender_address, multi_id_matches, party_signed,
    opt_bytes,
};
use crate::state::{
    is_terminal, status_reaches, DbTxStateMachine, Party, TxStateMachine, TxStatus,
};

verus! {

/// Appended to a broadcast failure's cause: nothing is retried automatically.
pub const RESUBMIT_NOTE: &'static str =
    ": the tx was not submitted; resubmit it yourself to try again";

/// Cause recorded when the signed call payload cannot be turned into a raw transaction.
pub const UNDECODABLE_SIGNED_TX: &'static str = "the signed transaction does not decode";

/// Cause recorded when the chain answers with a hash that is not 32 bytes long.
pub const MALFORMED_TX_HASH: &'static str = "the chain returned a malformed hash";

/// A broadcast failure with the given cause, followed by the resubmission note.
pub open spec fn submission_failed(cause: Seq<char>) -> StatusView {
    StatusView::TxSubmissionFailed(cause + RESUBMIT_NOTE@)
}

/// The handler an update from the RPC layer goes to.
#[derive(Debug)]
pub enum RpcRoute {
    /// Resolve the receiver's peer, dial it and send the transaction as a request.
    Genesis,
    /// Send the transaction back on the inbound request slot with this id.
    SendResponse(u64),
    /// Verify, then build or broadcast the transaction.
    SenderConfirmed,
    /// The status is reserved and has no handler.
    NotImplemented,
    /// A receiver confirmation without an inbound request id.
    MissingInboundId,
    /// The status needs no work from this node.
    Ignore,
}

/// Routes an update from the RPC layer by its status.
pub fn route_rpc_update(tx: &TxStateMachine) -> (r: RpcRoute)
    ensures
        match tx.status {
            TxStatus::Genesis => r is Genesis,
            TxStatus::RecvAddrConfirmed => match tx.inbound_req_id {
                Some(id) => r == RpcRoute::SendResponse(id),
                None => r is MissingInboundId,
            },
            TxStatus::SenderConfirmed => r is SenderConfirmed,
            TxStatus::NetConfirmed => r is NotImplemented,
            _ => r is Ignore,
        },
{
    match tx.status {
        TxStatus::Genesis => RpcRoute::Genesis,
        TxStatus::RecvAddrConfirmed => match tx.inbound_req_id {
            Some(id) => RpcRoute::SendResponse(id),
            None => RpcRoute::MissingInboundId,
        },
        TxStatus::SenderConfirmed => RpcRoute::SenderConfirmed,
        TxStatus::NetConfirmed => RpcRoute::NotImplemented,
        _ => RpcRoute::Ignore,
    }
}

/// A request arrived from the sender's node: tag it with its slot and hand it
/// to the receiver's user.
pub fn on_inbound_request(tx: TxStateMachine, inbound_id: u64) -> (r: TxStateMachine)
    ensures
        r == (TxStateMachine {
            inbound_req_id: Some(inbound_id),
            status: if tx.status is Genesis {
                TxStatus::ReceiverConfirmation
            } else {
                tx.status
            },
            ..tx
        }),
        status_reaches(tx.status, r.status),
{
    let mut tx = tx;
    tx.inbound_req_id = Some(inbound_id);
    if matches!(tx.status, TxStatus::Genesis) {
        tx.status = TxStatus::ReceiverConfirmation;
    }
    tx
}

/// The history row for a failed transaction.
pub open spec fn failure_record(tx: TxStateMachine, rec: DbTxStateMachine) -> bool {
    rec.tx_hash@.len() == 0 && rec.amount == tx.amount && rec.network == tx.network
        && !rec.success
}

fn failed_record(tx: &TxStateMachine) -> (r: DbTxStateMachine)
    ensures
        failure_record(*tx, r),
{
    DbTxStateMachine { tx_hash: Vec::new(), amount: tx.amount, network: tx.network, success: false }
}

/// Statuses a receiver's response can carry while the sender waits for it.
pub open spec fn awaits_response(s: TxStatus) -> bool {
    s is Genesis || s is ReceiverConfirmation || s is RecvAddrConfirmed
}

/// The receiver's response arrived: tag it with its slot. While it awaits the
/// receiver's confirmation, check the receiver's signature over the receiver
/// address: it passes to RecvAddrConfirmed exactly when the signature
/// verifies, otherwise it fails and a failure row is returned for the history.
/// In any other status, terminal ones included, the status is kept and no row
/// is written.
pub fn on_response(tx: TxStateMachine, outbound_id: u64) -> (r: (
    TxStateMachine,
    Option<DbTxStateMachine>,
))
    ensures
        ({
            let t = TxStateMachine { outbound_req_id: Some(outbound_id), ..tx };
            if !awaits_response(tx.status) {
                r.0 == t && r.1 is None
            } else if party_signed(tx, Party::Receiver) {
                r.0 == (TxStateMachine { status: TxStatus::RecvAddrConfirmed, ..t }) && r.1 is None
            } else {
                r.0 == (TxStateMachine { status: TxStatus::RecvAddrFailed, ..t }) && r.1 is Some
                    && failure_record(tx, r.1->0)
            }
        }),
        is_terminal(tx.status) ==> r.0.status == tx.status && r.1 is None,
        r.0.status is RecvAddrConfirmed && !(tx.status is RecvAddrConfirmed) ==> party_signed(
            tx,
            Party::Receiver,
        ),
        awaits_response(tx.status) ==> (r.0.status is RecvAddrConfirmed <==> party_signed(
            tx,
            Party::Receiver,
        )),
        status_reaches(tx.status, r.0.status) || (tx.status is RecvAddrConfirmed
            && r.0.status is RecvAddrFailed),
{
    let mut tx = tx;
    tx.outbound_req_id = Some(outbound_id);
    let waiting = match tx.status {
        TxStatus::Genesis | TxStatus::ReceiverConfirmation | TxStatus::RecvAddrConfirmed => true,
        _ => false,
    };
    if !waiting {
        return (tx, None);
    }
    proof {
        reveal_with_fuel(status_reaches, 3);
    }
    match validate_receiver_sender_address(&tx, Party::Receiver) {
        Ok(()) => {
            tx.recv_confirmation_passed();
            (tx, None)
        },
        Err(_) => {
            let rec = failed_record(&tx);
            tx.recv_confirmation_failed();
            (tx, Some(rec))
        },
    }
}

/// What the SenderConfirmed handler asks of its caller.
#[derive(Debug)]
pub enum SenderStep {
    /// Broadcast these raw bytes, then call `finish_submission` with the outcome.
    Submit(TxStateMachine, Vec<u8>),
    /// Hand the transaction to the user (to sign the new call payload, or to see
    /// a failure), appending the history row if there is one.
    Emit(TxStateMachine, Option<DbTxStateMachine>),
    /// The unsigned transaction could not be built.
    BuildFailed(ChainError),
    /// The transaction is not in SenderConfirmed.
    WrongStatus,
}

/// Handles a transaction in SenderConfirmed. The multi-id is checked first;
/// then, with the sender's signature, the signature is checked and the signed
/// transaction prepared for broadcast, and without it the unsigned transaction
/// is built.
pub fn on_sender_confirmed(tx: TxStateMachine) -> (r: SenderStep)
    ensures
        !(tx.status is SenderConfirmed) ==> r is WrongStatus,
        tx.status is SenderConfirmed && !multi_id_matches(tx) ==> (r matches SenderStep::Emit(
            t,
            Some(rec),
        ) && t == (TxStateMachine { status: TxStatus::SenderConfirmationFailed, ..tx })
            && failure_record(tx, rec)),
        tx.status is SenderConfirmed && multi_id_matches(tx) && tx.signed_call_payload is Some
            ==> if !party_signed(tx, Party::Sender) {
            r == SenderStep::Emit(
                TxStateMachine { status: TxStatus::SenderConfirmationFailed, ..tx },
                None,
            )
        } else {
            match signed_raw_for(tx) {
                Ok(raw) => r matches SenderStep::Submit(t, v) && t == tx && v@ == raw,
                Err(_) => r matches SenderStep::Emit(t, None) && t.status@ == submission_failed(
                    UNDECODABLE_SIGNED_TX@,
                ) && t == (TxStateMachine { status: t.status, ..tx }),
            }
        },
        tx.status is SenderConfirmed && multi_id_matches(tx) && tx.signed_call_payload is None
            ==> match call_payload_for(tx) {
            Ok(p) => r matches SenderStep::Emit(t, None) && t == (TxStateMachine {
                call_payload: t.call_payload,
                ..tx
            }) && opt_bytes(t.call_payload) == Some(p),
            Err(e) => r == SenderStep::BuildFailed(e),
        },
        r is Submit ==> multi_id_matches(tx) && party_signed(tx, Party::Sender),
        tx.signed_call_payload is Some && !party_signed(tx, Party::Sender) ==> !(r is Submit) && (
        r matches SenderStep::Emit(t, _) ==> t.status is SenderConfirmationFailed),
        r matches SenderStep::Emit(t, _) ==> status_reaches(tx.status, t.status),
{
    if !matches!(tx.status, TxStatus::SenderConfirmed) {
        return SenderStep::WrongStatus;
    }
    let mut tx = tx;
    if !validate_multi_id(&tx) {
        let rec = failed_record(&tx);
        tx.sender_confirmation_failed();
        return SenderStep::Emit(tx, Some(rec));
    }
    if tx.signed_call_payload.is_some() {
        if validate_receiver_sender_address(&tx, Party::Sender).is_err() {
            tx.sender_confirmation_failed();
            return SenderStep::Emit(tx, None);
        }
        match signed_raw_tx(&tx) {
            Ok(raw) => SenderStep::Submit(tx, raw),
            Err(_) => {
                tx.tx_submission_failed(
                    UNDECODABLE_SIGNED_TX.to_owned().concat(RESUBMIT_NOTE),
                );
                SenderStep::Emit(tx, None)
            },
        }
    } else {
        match create_tx(tx) {
            Ok(t) => SenderStep::Emit(t, None),
            Err(e) => SenderStep::BuildFailed(e),
        }
    }
}

/// Applies the broadcast outcome to a transaction that `on_sender_confirmed`
/// sent to `Submit`. It passes to TxSubmissionPassed only on a 32-byte hash
/// and only while the multi-id and the sender's signature verify; a chain error leaves it in
/// TxSubmissionFailed with the cause and a note that resubmission is up to the user.
pub fn finish_submission(tx: TxStateMachine, outcome: Result<Vec<u8>, String>) -> (r: (
    TxStateMachine,
    Option<DbTxStateMachine>,
))
    ensures
        !(tx.status is SenderConfirmed) ==> r.0 == tx && r.1 is None,
        tx.status is SenderConfirmed && !(multi_id_matches(tx) && party_signed(tx, Party::Sender))
            ==> r.0 == (TxStateMachine { status: TxStatus::SenderConfirmationFailed, ..tx })
            && r.1 is None,
        tx.status is SenderConfirmed && multi_id_matches(tx) && party_signed(tx, Party::Sender)
            ==> match outcome {
            Ok(h) => if h@.len() == 32 {
                r.0 == (TxStateMachine {
                    status: TxStatus::TxSubmissionPassed,
                    tx_hash: Some(h),
                    ..tx
                }) && (r.1 matches Some(rec) && rec.tx_hash@ == h@ && rec.amount == tx.amount
                    && rec.network == tx.network && rec.success)
            } else {
                r.0.status@ == submission_failed(MALFORMED_TX_HASH@) && r.0 == (TxStateMachine {
                    status: r.0.status,
                    ..tx
                }) && r.1 is None
            },
            Err(cause) => r.0 == (TxStateMachine { status: r.0.status, ..tx }) && r.0.status@
                == submission_failed(cause@) && r.1 is None,
        },
        r.0.status is TxSubmissionPassed && !(tx.status is TxSubmissionPassed) ==> multi_id_matches(
            tx,
        ) && party_signed(tx, Party::Sender),
        status_reaches(tx.status, r.0.status),
{
    if !matches!(tx.status, TxStatus::SenderConfirmed) {
        return (tx, None);
    }
    let mut tx = tx;
    if !validate_multi_id(&tx) || validate_receiver_sender_address(&tx, Party::Sender).is_err() {
        tx.sender_confirmation_failed();
        return (tx, None);
    }
    match outcome {
        Ok(hash) => {
            if hash.len() != 32 {
                tx.tx_submission_failed(
                    MALFORMED_TX_HASH.to_owned().concat(RESUBMIT_NOTE),
                );
                return (tx, None);
            }
            let rec = DbTxStateMachine {
                tx_hash: hash.clone(),
                amount: tx.amount,
                network: tx.network,
                success: true,
            };
            tx.tx_submission_passed(hash);
            (tx, Some(rec))
        },
        Err(cause) => {
            tx.tx_submission_failed(cause.concat(RESUBMIT_NOTE));
            (tx, None)
        },
    }
}

} // verus!
