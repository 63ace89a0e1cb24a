use vstd::prelude::*;
use vstd::slice::slice_to_vec;
use vstd::utf8::encode_utf8;
use sp_core::{ecdsa, ed25519, Blake2Hasher, ByteArray, Hasher, KeccakHasher, Pair};
use sp_core::crypto::Ss58Codec;
use crate::state::{ChainSupported, Party, TxStateMachine};

verus! {

/// Blake2b-256 digest of a byte string.
pub uninterp spec fn blake2_256_of(data: Seq<u8>) -> Seq<u8>;

/// Keccak-256 digest of a byte string.
pub uninterp spec fn keccak_256_of(data: Seq<u8>) -> Seq<u8>;

/// The 33-byte compressed ECDSA key that an SS58 text names, if it names one.
pub uninterp spec fn ecdsa_public_of(text: Seq<char>) -> Option<Seq<u8>>;

/// The 32-byte Ed25519 key that an SS58 text names, if it names one.
pub uninterp spec fn ed25519_public_of(text: Seq<char>) -> Option<Seq<u8>>;

/// Whether a 65-byte recoverable ECDSA signature over `msg` belongs to `public`.
pub uninterp spec fn ecdsa_verifies(sig: Seq<u8>, msg: Seq<u8>, public: Seq<u8>) -> bool;

/// The compressed key recovered from a 65-byte ECDSA signature over `msg`.
pub uninterp spec fn ecdsa_recovered(sig: Seq<u8>, msg: Seq<u8>) -> Option<Seq<u8>>;

/// Whether a 64-byte Ed25519 signature over `msg` belongs to `public`.
pub uninterp spec fn ed25519_verifies(sig: Seq<u8>, msg: Seq<u8>, public: Seq<u8>) -> bool;

pub open spec fn opt_bytes(o: Option<Vec<u8>>) -> Option<Seq<u8>> {
    match o {
        Some(v) => Some(v@),
        None => None,
    }
}

/// Relies on sp_core's `Blake2Hasher::hash`: the 32-byte Blake2b-256 digest.
#[verifier::external_body]
fn blake2_256(data: &[u8]) -> (r: Vec<u8>)
    ensures
        r@ == blake2_256_of(data@),
        r@.len() == 32,
{
    <Blake2Hasher as Hasher>::hash(data).0.to_vec()
}

/// Relies on sp_core's `KeccakHasher::hash`: the 32-byte Keccak-256 digest.
#[verifier::external_body]
fn keccak_256(data: &[u8]) -> (r: Vec<u8>)
    ensures
        r@ == keccak_256_of(data@),
        r@.len() == 32,
{
    <KeccakHasher as Hasher>::hash(data).0.to_vec()
}

/// Relies on sp_core's `Ss58Codec::from_ss58check_with_version` for ECDSA keys
/// (checksum, prefix and length checks; any non-reserved address format) and on
/// the key's 33-byte raw form.
#[verifier::external_body]
fn ecdsa_public_from_ss58(text: &str) -> (r: Option<Vec<u8>>)
    ensures
        opt_bytes(r) == ecdsa_public_of(text@),
        r is Some ==> r->0@.len() == 33,
{
    match ecdsa::Public::from_ss58check_with_version(text) {
        Ok((p, _)) => Some(p.to_raw_vec()),
        Err(_) => None,
    }
}

/// Relies on sp_core's `Ss58Codec::from_ss58check_with_version` for Ed25519 keys
/// (checksum, prefix and length checks; any non-reserved address format) and on
/// the key's 32-byte raw form.
#[verifier::external_body]
fn ed25519_public_from_ss58(text: &str) -> (r: Option<Vec<u8>>)
    ensures
        opt_bytes(r) == ed25519_public_of(text@),
        r is Some ==> r->0@.len() == 32,
{
    match ed25519::Public::from_ss58check_with_version(text) {
        Ok((p, _)) => Some(p.to_raw_vec()),
        Err(_) => None,
    }
}

/// Relies on sp_core's `ecdsa::Pair::verify`, on keys and signatures of the
/// right length.
#[verifier::external_body]
fn ecdsa_verify(sig: &[u8], msg: &[u8], public: &[u8]) -> (r: bool)
    requires
        sig@.len() == 65,
        public@.len() == 33,
    ensures
        r == ecdsa_verifies(sig@, msg@, public@),
{
    match (ecdsa::Signature::try_from(sig), ecdsa::Public::try_from(public)) {
        (Ok(s), Ok(p)) => <ecdsa::Pair as Pair>::verify(&s, msg, &p),
        _ => false,
    }
}

/// Relies on sp_core's `ecdsa::Signature::recover`: the key that signed `msg`.
#[verifier::external_body]
fn ecdsa_recover(sig: &[u8], msg: &[u8]) -> (r: Option<Vec<u8>>)
    requires
        sig@.len() == 65,
    ensures
        opt_bytes(r) == ecdsa_recovered(sig@, msg@),
{
    match ecdsa::Signature::try_from(sig) {
        Ok(s) => match s.recover(msg) {
            Some(p) => Some(p.to_raw_vec()),
            None => None,
        },
        Err(_) => None,
    }
}

/// Relies on sp_core's `ed25519::Pair::verify`, on keys and signatures of the
/// right length.
#[verifier::external_body]
fn ed25519_verify(sig: &[u8], msg: &[u8], public: &[u8]) -> (r: bool)
    requires
        sig@.len() == 64,
        public@.len() == 32,
    ensures
        r == ed25519_verifies(sig@, msg@, public@),
{
    match (ed25519::Signature::try_from(sig), ed25519::Public::try_from(public)) {
        (Ok(s), Ok(p)) => <ed25519::Pair as Pair>::verify(&s, msg, &p),
        _ => false,
    }
}

/// The multi-id that binds a sender and a receiver address.
pub open spec fn multi_id_of(sender: Seq<char>, receiver: Seq<char>) -> Seq<u8> {
    blake2_256_of(encode_utf8(sender) + encode_utf8(receiver))
}

/// Computes the multi-id of a pair of addresses.
pub fn compute_multi_id(sender: &str, receiver: &str) -> (r: Vec<u8>)
    ensures
        r@ == multi_id_of(sender@, receiver@),
        r@.len() == 32,
{
    let mut joined = slice_to_vec(sender.as_bytes());
    let tail = receiver.as_bytes();
    let mut i: usize = 0;
    while i < tail.len()
        invariant
            tail@ == encode_utf8(receiver@),
            joined@ == encode_utf8(sender@) + tail@.subrange(0, i as int),
            i <= tail@.len(),
        decreases tail@.len() - i,
    {
        joined.push(tail[i]);
        i = i + 1;
        assert(tail@.subrange(0, i as int) == tail@.subrange(0, i - 1 as int).push(tail@[i - 1]));
    }
    assert(tail@.subrange(0, tail@.len() as int) == tail@);
    blake2_256(joined.as_slice())
}

pub fn bytes_eq(a: &[u8], b: &[u8]) -> (r: bool)
    ensures
        r == (a@ == b@),
{
    if a.len() != b.len() {
        return false;
    }
    let mut i: usize = 0;
    while i < a.len()
        invariant
            a@.len() == b@.len(),
            i <= a@.len(),
            a@.subrange(0, i as int) == b@.subrange(0, i as int),
        decreases a@.len() - i,
    {
        if a[i] != b[i] {
            assert(a@[i as int] != b@[i as int]);
            return false;
        }
        i = i + 1;
        assert(a@.subrange(0, i as int) == a@.subrange(0, i - 1 as int).push(a@[i - 1]));
        assert(b@.subrange(0, i as int) == b@.subrange(0, i - 1 as int).push(b@[i - 1]));
    }
    assert(a@ == a@.subrange(0, a@.len() as int));
    assert(b@ == b@.subrange(0, b@.len() as int));
    true
}

/// Why a signature check failed.
#[derive(Clone, Copy, Debug, PartialEq, Eq, Structural)]
pub enum VerifyError {
    /// The party has not signed yet.
    MissingSignature,
    /// The network's scheme is reserved.
    NotImplemented,
    /// The party's address does not decode to a key of the network's scheme.
    MalformedPublicKey,
    /// The signature has the wrong length for the network's scheme.
    MalformedSignature,
    /// The signature does not verify against the key.
    VerificationFailed,
    /// The key recovered from the signature is not the claimed one.
    RecoveryMismatch,
}

/// The signature and the signed address that a party's check uses.
pub open spec fn party_signature(tx: TxStateMachine, who: Party) -> Option<Seq<u8>> {
    match who {
        Party::Receiver => opt_bytes(tx.recv_signature),
        Party::Sender => opt_bytes(tx.signed_call_payload),
    }
}

pub open spec fn party_address(tx: TxStateMachine, who: Party) -> Seq<char> {
    match who {
        Party::Receiver => tx.receiver_address@,
        Party::Sender => tx.sender_address@,
    }
}

/// Outcome of checking `sig` over the address `addr`, whose text also names the key.
/// ECDSA networks hash the address with Keccak-256, verify, and require the key
/// recovered from the signature to be the claimed key; Ed25519 verifies the raw bytes.
pub open spec fn signature_outcome(
    network: ChainSupported,
    sig: Option<Seq<u8>>,
    addr: Seq<char>,
) -> Result<(), VerifyError> {
    match sig {
        None => Err(VerifyError::MissingSignature),
        Some(s) => match network {
            ChainSupported::Polkadot => Err(VerifyError::NotImplemented),
            ChainSupported::Ethereum | ChainSupported::Bnb => {
                let hashed = keccak_256_of(encode_utf8(addr));
                match ecdsa_public_of(addr) {
                    None => Err(VerifyError::MalformedPublicKey),
                    Some(pk) => if s.len() != 65 {
                        Err(VerifyError::MalformedSignature)
                    } else if !ecdsa_verifies(s, hashed, pk) {
                        Err(VerifyError::VerificationFailed)
                    } else if ecdsa_recovered(s, hashed) != Some(pk) {
                        Err(VerifyError::RecoveryMismatch)
                    } else {
                        Ok(())
                    },
                }
            },
            ChainSupported::Solana => match ed25519_public_of(addr) {
                None => Err(VerifyError::MalformedPublicKey),
                Some(pk) => if s.len() != 64 {
                    Err(VerifyError::MalformedSignature)
                } else if !ed25519_verifies(s, encode_utf8(addr), pk) {
                    Err(VerifyError::VerificationFailed)
                } else {
                    Ok(())
                },
            },
        },
    }
}

/// The party's signature verifies under the chain's scheme against its address.
pub open spec fn party_signed(tx: TxStateMachine, who: Party) -> bool {
    signature_outcome(tx.network, party_signature(tx, who), party_address(tx, who)) is Ok
}

fn verify_with_scheme(network: ChainSupported, sig: &[u8], addr: &str) -> (r: Result<
    (),
    VerifyError,
>)
    ensures
        r == signature_outcome(network, Some(sig@), addr@),
{
    match network {
        ChainSupported::Polkadot => Err(VerifyError::NotImplemented),
        ChainSupported::Ethereum | ChainSupported::Bnb => {
            let hashed = keccak_256(addr.as_bytes());
            let pk = match ecdsa_public_from_ss58(addr) {
                Some(pk) => pk,
                None => return Err(VerifyError::MalformedPublicKey),
            };
            if sig.len() != 65 {
                return Err(VerifyError::MalformedSignature);
            }
            if !ecdsa_verify(sig, hashed.as_slice(), pk.as_slice()) {
                return Err(VerifyError::VerificationFailed);
            }
            match ecdsa_recover(sig, hashed.as_slice()) {
                Some(rec) => if bytes_eq(rec.as_slice(), pk.as_slice()) {
                    Ok(())
                } else {
                    Err(VerifyError::RecoveryMismatch)
                },
                None => Err(VerifyError::RecoveryMismatch),
            }
        },
        ChainSupported::Solana => {
            let pk = match ed25519_public_from_ss58(addr) {
                Some(pk) => pk,
                None => return Err(VerifyError::MalformedPublicKey),
            };
            if sig.len() != 64 {
                return Err(VerifyError::MalformedSignature);
            }
            if ed25519_verify(sig, addr.as_bytes(), pk.as_slice()) {
                Ok(())
            } else {
                Err(VerifyError::VerificationFailed)
            }
        },
    }
}

/// Checks the receiver's signature over the receiver address, or the sender's
/// signature over the sender address.
pub fn validate_receiver_sender_address(tx: &TxStateMachine, who: Party) -> (r: Result<
    (),
    VerifyError,
>)
    ensures
        r == signature_outcome(tx.network, party_signature(*tx, who), party_address(*tx, who)),
        r is Ok <==> party_signed(*tx, who),
{
    let sig = match who {
        Party::Receiver => &tx.recv_signature,
        Party::Sender => &tx.signed_call_payload,
    };
    let addr = match who {
        Party::Receiver => tx.receiver_address.as_str(),
        Party::Sender => tx.sender_address.as_str(),
    };
    match sig {
        None => Err(VerifyError::MissingSignature),
        Some(s) => verify_with_scheme(tx.network, s.as_slice(), addr),
    }
}

/// The stored multi-id is the one the addresses give.
pub open spec fn multi_id_matches(tx: TxStateMachine) -> bool {
    tx.multi_id@ == multi_id_of(tx.sender_address@, tx.receiver_address@)
}

/// Recomputes the multi-id from the addresses and compares it with the stored one.
pub fn validate_multi_id(tx: &TxStateMachine) -> (r: bool)
    ensures
        r == multi_id_matches(*tx),
{
    let recomputed = compute_multi_id(tx.sender_address.as_str(), tx.receiver_address.as_str());
    bytes_eq(recomputed.as_slice(), tx.multi_id.as_slice())
}

} // verus!
