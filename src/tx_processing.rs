use vstd::prelude::*;
use crate::chain::{call_payload_for, ChainError};
use crate::crypto::{multi_id_matches, opt_bytes, party_address, party_signature, signature_outcome, VerifyError};
use crate::state::{Party, TxStateMachine};

verus! {

/// Chain processing on one node: verification, construction, and the
/// transactions waiting for a confirmation on either side.
pub struct TxProcessingWorker {
    /// Transactions waiting for the sender's confirmation.
    pub sender_tx_pending: Vec<TxStateMachine>,
    /// Transactions waiting for the receiver's confirmation.
    pub receiver_tx_pending: Vec<TxStateMachine>,
}

impl TxProcessingWorker {
    pub fn new() -> (r: TxProcessingWorker)
        ensures
            r.sender_tx_pending@.len() == 0,
            r.receiver_tx_pending@.len() == 0,
    {
        TxProcessingWorker { sender_tx_pending: Vec::new(), receiver_tx_pending: Vec::new() }
    }

    /// Checks the receiver's signature over the receiver address, or the
    /// sender's over the sender address, with the chain's scheme.
    pub fn validate_receiver_sender_address(&self, tx: &TxStateMachine, who: Party) -> (r: Result<
        (),
        VerifyError,
    >)
        ensures
            r == signature_outcome(tx.network, party_signature(*tx, who), party_address(*tx, who)),
    {
        crate::crypto::validate_receiver_sender_address(tx, who)
    }

    /// Whether the stored multi-id is the hash of the two addresses.
    pub fn validate_multi_id(&self, tx: &TxStateMachine) -> (r: bool)
        ensures
            r == multi_id_matches(*tx),
    {
        crate::crypto::validate_multi_id(tx)
    }

    /// Fills `call_payload` with the unsigned transaction for the user to sign.
    pub fn create_tx(&mut self, tx: TxStateMachine) -> (r: Result<TxStateMachine, ChainError>)
        ensures
            match (r, call_payload_for(tx)) {
                (Ok(t), Ok(p)) => t == (TxStateMachine { call_payload: t.call_payload, ..tx })
                    && opt_bytes(t.call_payload) == Some(p),
                (Err(e), Err(f)) => e == f,
                _ => false,
            },
            *final(self) == *old(self),
    {
        crate::chain::create_tx(tx)
    }
}

} // verus!
