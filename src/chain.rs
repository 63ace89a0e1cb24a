use vstd::prelude::*;
use vstd::utf8::encode_utf8;
use alloy::consensus::{SignableTransaction, TxEip7702};
use alloy::primitives::{Address, Signature, U256};
use alloy::rlp::{Decodable, Encodable};
use crate::crypto::opt_bytes;
use crate::state::{ChainSupported, TxStateMachine};

verus! {

/// Chain id written into Ethereum transactions (mainnet).
pub const ETHEREUM_CHAIN_ID: u64 = 1;

/// Chain id written into BNB Smart Chain transactions (mainnet).
pub const BNB_CHAIN_ID: u64 = 56;

/// RLP encoding of an unsigned EIP-7702 transaction paying `value` to the
/// 20-byte address `to` on chain `chain_id`, all other fields left at zero.
pub uninterp spec fn eip7702_unsigned_of(to: Seq<u8>, value: u128, chain_id: u64) -> Seq<u8>;

/// EIP-2718 encoding of the EIP-7702 transaction that `payload` RLP-encodes,
/// signed with the 65-byte signature `sig`; `None` when either does not decode.
pub uninterp spec fn eip7702_signed_raw_of(payload: Seq<u8>, sig: Seq<u8>) -> Option<Seq<u8>>;

/// Relies on alloy's `TxEip7702` with its `Default` fields and `Encodable::encode`,
/// and on `Address::from_slice`, which reads exactly 20 bytes.
#[verifier::external_body]
fn eip7702_unsigned(to: &[u8], value: u128, chain_id: u64) -> (r: Vec<u8>)
    requires
        to@.len() == 20,
    ensures
        r@ == eip7702_unsigned_of(to@, value, chain_id),
{
    let tx = TxEip7702 {
        chain_id,
        to: Address::from_slice(to),
        value: U256::from(value),
        ..Default::default()
    };
    let mut out = Vec::new();
    tx.encode(&mut out);
    out
}

/// Relies on alloy's `Decodable::decode` for `TxEip7702`, `Signature::try_from`
/// on raw bytes (which refuses anything but 65 bytes), and
/// `Signed::eip2718_encode` of the signed transaction.
#[verifier::external_body]
fn eip7702_signed_raw(payload: &[u8], sig: &[u8]) -> (r: Option<Vec<u8>>)
    ensures
        opt_bytes(r) == eip7702_signed_raw_of(payload@, sig@),
        sig@.len() != 65 ==> r is None,
{
    let tx = match TxEip7702::decode(&mut &payload[..]) {
        Ok(tx) => tx,
        Err(_) => return None,
    };
    let signature = match Signature::try_from(sig) {
        Ok(s) => s,
        Err(_) => return None,
    };
    let mut out = Vec::new();
    tx.into_signed(signature).eip2718_encode(&mut out);
    Some(out)
}

/// Why a transaction could not be built or prepared for broadcast.
#[derive(Clone, Copy, Debug, PartialEq, Eq, Structural)]
pub enum ChainError {
    /// The network's transaction format is reserved.
    NotImplemented,
    /// The receiver address is not 20 bytes long.
    MalformedReceiver,
    /// The sender has not signed the call payload.
    MissingSignature,
    /// There is no call payload to sign.
    MissingCallPayload,
    /// The call payload or its signature does not decode.
    MalformedPayload,
}

pub open spec fn chain_id_of(network: ChainSupported) -> u64 {
    match network {
        ChainSupported::Bnb => BNB_CHAIN_ID,
        _ => ETHEREUM_CHAIN_ID,
    }
}

pub open spec fn is_evm(network: ChainSupported) -> bool {
    network == ChainSupported::Ethereum || network == ChainSupported::Bnb
}

/// The unsigned payload for a transaction, if its network and receiver allow one.
pub open spec fn call_payload_for(tx: TxStateMachine) -> Result<Seq<u8>, ChainError> {
    if !is_evm(tx.network) {
        Err(ChainError::NotImplemented)
    } else if encode_utf8(tx.receiver_address@).len() != 20 {
        Err(ChainError::MalformedReceiver)
    } else {
        Ok(
            eip7702_unsigned_of(
                encode_utf8(tx.receiver_address@),
                tx.amount,
                chain_id_of(tx.network),
            ),
        )
    }
}

/// Fills `call_payload` with the unsigned EIP-7702 transaction paying `amount` to
/// `receiver_address`; every other field is kept.
pub fn create_tx(tx: TxStateMachine) -> (r: Result<TxStateMachine, ChainError>)
    ensures
        match (r, call_payload_for(tx)) {
            (Ok(t), Ok(p)) => t == (TxStateMachine { call_payload: t.call_payload, ..tx })
                && opt_bytes(t.call_payload) == Some(p),
            (Err(e), Err(f)) => e == f,
            _ => false,
        },
{
    let mut tx = tx;
    let chain_id = match tx.network {
        ChainSupported::Ethereum => ETHEREUM_CHAIN_ID,
        ChainSupported::Bnb => BNB_CHAIN_ID,
        _ => return Err(ChainError::NotImplemented),
    };
    let to = tx.receiver_address.as_str().as_bytes();
    if to.len() != 20 {
        return Err(ChainError::MalformedReceiver);
    }
    let payload = eip7702_unsigned(to, tx.amount, chain_id);
    tx.call_payload = Some(payload);
    Ok(tx)
}

/// The raw transaction to broadcast, if the network, payload and signature allow one.
pub open spec fn signed_raw_for(tx: TxStateMachine) -> Result<Seq<u8>, ChainError> {
    if !is_evm(tx.network) {
        Err(ChainError::NotImplemented)
    } else if tx.signed_call_payload is None {
        Err(ChainError::MissingSignature)
    } else if tx.call_payload is None {
        Err(ChainError::MissingCallPayload)
    } else {
        match eip7702_signed_raw_of(tx.call_payload->0@, tx.signed_call_payload->0@) {
            Some(raw) => Ok(raw),
            None => Err(ChainError::MalformedPayload),
        }
    }
}

/// Attaches the sender's signature to the call payload and encodes the signed
/// transaction for `eth_sendRawTransaction`.
pub fn signed_raw_tx(tx: &TxStateMachine) -> (r: Result<Vec<u8>, ChainError>)
    ensures
        match (r, signed_raw_for(*tx)) {
            (Ok(v), Ok(raw)) => v@ == raw,
            (Err(e), Err(f)) => e == f,
            _ => false,
        },
        is_evm(tx.network) && tx.signed_call_payload is Some && tx.call_payload is Some
            && tx.signed_call_payload->0@.len() != 65 ==> r == Err::<Vec<u8>, ChainError>(
            ChainError::MalformedPayload,
        ),
{
    match tx.network {
        ChainSupported::Ethereum | ChainSupported::Bnb => {},
        _ => return Err(ChainError::NotImplemented),
    }
    let sig = match &tx.signed_call_payload {
        Some(s) => s,
        None => return Err(ChainError::MissingSignature),
    };
    let payload = match &tx.call_payload {
        Some(p) => p,
        None => return Err(ChainError::MissingCallPayload),
    };
    match eip7702_signed_raw(payload.as_slice(), sig.as_slice()) {
        Some(raw) => Ok(raw),
        None => Err(ChainError::MalformedPayload),
    }
}

} // verus!
