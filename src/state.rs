use vstd::prelude::*;

verus! {

/// The chains a safe transaction can target.
#[derive(Clone, Copy, Debug, PartialEq, Eq, Structural)]
pub enum ChainSupported {
    Polkadot,
    Ethereum,
    Bnb,
    Solana,
}

/// The party whose signature is being checked.
#[derive(Clone, Copy, Debug, PartialEq, Eq, Structural)]
pub enum Party {
    Receiver,
    Sender,
}

/// Where a transaction stands in the two-party protocol.
#[derive(Clone, Debug, PartialEq, Eq)]
pub enum TxStatus {
    Genesis,
    ReceiverConfirmation,
    RecvAddrConfirmed,
    RecvAddrFailed,
    NetConfirmed,
    SenderConfirmed,
    SenderConfirmationFailed,
    TxSubmissionPassed,
    /// Broadcast was rejected; carries the chain's reported cause.
    TxSubmissionFailed(String),
}

/// The record exchanged between the RPC layer, the orchestrator and the peers.
#[derive(Clone, Debug, PartialEq, Eq)]
pub struct TxStateMachine {
    pub sender_address: String,
    pub receiver_address: String,
    /// Blake2-256 of the sender address bytes followed by the receiver address bytes.
    pub multi_id: Vec<u8>,
    pub network: ChainSupported,
    pub amount: u128,
    /// Unsigned chain-native transaction.
    pub call_payload: Option<Vec<u8>>,
    /// The sender's signature over `call_payload`.
    pub signed_call_payload: Option<Vec<u8>>,
    /// The receiver's signature over the receiver address bytes.
    pub recv_signature: Option<Vec<u8>>,
    pub status: TxStatus,
    pub inbound_req_id: Option<u64>,
    pub outbound_req_id: Option<u64>,
    pub tx_hash: Option<Vec<u8>>,
}

/// A terminal outcome, appended to the local transaction history.
#[derive(Clone, Debug, PartialEq, Eq)]
pub struct DbTxStateMachine {
    pub tx_hash: Vec<u8>,
    pub amount: u128,
    pub network: ChainSupported,
    pub success: bool,
}

/// Rank of a status along the protocol; every edge of the status graph goes up.
pub open spec fn status_rank(s: TxStatus) -> nat {
    match s {
        TxStatus::Genesis => 0,
        TxStatus::ReceiverConfirmation => 1,
        TxStatus::RecvAddrConfirmed => 2,
        TxStatus::RecvAddrFailed => 3,
        TxStatus::NetConfirmed => 3,
        TxStatus::SenderConfirmed => 4,
        TxStatus::SenderConfirmationFailed => 5,
        TxStatus::TxSubmissionPassed => 5,
        TxStatus::TxSubmissionFailed(_) => 5,
    }
}

/// Statuses from which no transition leaves.
pub open spec fn is_terminal(s: TxStatus) -> bool {
    match s {
        TxStatus::RecvAddrFailed => true,
        TxStatus::SenderConfirmationFailed => true,
        TxStatus::TxSubmissionPassed => true,
        TxStatus::TxSubmissionFailed(_) => true,
        _ => false,
    }
}

/// One edge of the status graph.
pub open spec fn status_edge(a: TxStatus, b: TxStatus) -> bool {
    match a {
        TxStatus::Genesis => b == TxStatus::ReceiverConfirmation,
        TxStatus::ReceiverConfirmation => b == TxStatus::RecvAddrConfirmed || b
            == TxStatus::RecvAddrFailed,
        TxStatus::RecvAddrConfirmed => b == TxStatus::NetConfirmed,
        TxStatus::NetConfirmed => b == TxStatus::SenderConfirmed || b
            == TxStatus::SenderConfirmationFailed,
        TxStatus::SenderConfirmed => b == TxStatus::TxSubmissionPassed || (
        b is TxSubmissionFailed) || b == TxStatus::SenderConfirmationFailed,
        _ => false,
    }
}

/// `b` is reached from `a` by a path of zero or more edges.
pub open spec fn status_reaches(a: TxStatus, b: TxStatus) -> bool
    decreases 5 - status_rank(a),
{
    if a == b {
        true
    } else if status_rank(a) >= 5 {
        false
    } else {
        status_edge(a, b) || match a {
            TxStatus::Genesis => status_reaches(TxStatus::ReceiverConfirmation, b),
            TxStatus::ReceiverConfirmation => status_reaches(TxStatus::RecvAddrConfirmed, b)
                || status_reaches(TxStatus::RecvAddrFailed, b),
            TxStatus::RecvAddrConfirmed => status_reaches(TxStatus::NetConfirmed, b),
            TxStatus::NetConfirmed => status_reaches(TxStatus::SenderConfirmed, b)
                || status_reaches(TxStatus::SenderConfirmationFailed, b),
            _ => false,
        }
    }
}

/// Every edge raises the rank, so the graph has no cycle.
pub proof fn lemma_edge_raises_rank(a: TxStatus, b: TxStatus)
    requires
        status_edge(a, b),
    ensures
        status_rank(a) < status_rank(b),
{
}

/// A terminal status has no outgoing edge: it is absorbing.
pub proof fn lemma_terminal_absorbing(a: TxStatus, b: TxStatus)
    requires
        is_terminal(a),
    ensures
        !status_edge(a, b),
        status_reaches(a, b) <==> a == b,
{
    reveal_with_fuel(status_reaches, 2);
}

/// A path that moves raises the rank.
pub proof fn lemma_reaches_raises_rank(a: TxStatus, b: TxStatus)
    requires
        status_reaches(a, b),
        a != b,
    ensures
        status_rank(a) < status_rank(b),
    decreases 5 - status_rank(a),
{
    if !status_edge(a, b) {
        match a {
            TxStatus::Genesis => {
                if TxStatus::ReceiverConfirmation != b {
                    lemma_reaches_raises_rank(TxStatus::ReceiverConfirmation, b);
                }
            },
            TxStatus::ReceiverConfirmation => {
                if status_reaches(TxStatus::RecvAddrConfirmed, b) {
                    if TxStatus::RecvAddrConfirmed != b {
                        lemma_reaches_raises_rank(TxStatus::RecvAddrConfirmed, b);
                    }
                } else if TxStatus::RecvAddrFailed != b {
                    lemma_reaches_raises_rank(TxStatus::RecvAddrFailed, b);
                }
            },
            TxStatus::RecvAddrConfirmed => {
                if TxStatus::NetConfirmed != b {
                    lemma_reaches_raises_rank(TxStatus::NetConfirmed, b);
                }
            },
            TxStatus::NetConfirmed => {
                if status_reaches(TxStatus::SenderConfirmed, b) {
                    if TxStatus::SenderConfirmed != b {
                        lemma_reaches_raises_rank(TxStatus::SenderConfirmed, b);
                    }
                } else if TxStatus::SenderConfirmationFailed != b {
                    lemma_reaches_raises_rank(TxStatus::SenderConfirmationFailed, b);
                }
            },
            _ => {},
        }
    }
}

/// Observed statuses form a path of the graph: no status is seen again after
/// a later one, since two statuses that reach each other are equal.
pub proof fn lemma_reaches_antisymmetric(a: TxStatus, b: TxStatus)
    requires
        status_reaches(a, b),
        status_reaches(b, a),
    ensures
        a == b,
{
    if a != b {
        lemma_reaches_raises_rank(a, b);
        lemma_reaches_raises_rank(b, a);
    }
}

impl TxStateMachine {
    /// The receiver's signature verified.
    pub fn recv_confirmation_passed(&mut self)
        ensures
            *final(self) == (TxStateMachine { status: TxStatus::RecvAddrConfirmed, ..*old(self) }),
    {
        self.status = TxStatus::RecvAddrConfirmed;
    }

    /// The receiver's signature did not verify.
    pub fn recv_confirmation_failed(&mut self)
        ensures
            *final(self) == (TxStateMachine { status: TxStatus::RecvAddrFailed, ..*old(self) }),
    {
        self.status = TxStatus::RecvAddrFailed;
    }

    /// The sender's signature, or the multi-id, did not verify.
    pub fn sender_confirmation_failed(&mut self)
        ensures
            *final(self) == (TxStateMachine {
                status: TxStatus::SenderConfirmationFailed,
                ..*old(self)
            }),
    {
        self.status = TxStatus::SenderConfirmationFailed;
    }

    /// Broadcast succeeded with the given chain transaction hash.
    pub fn tx_submission_passed(&mut self, hash: Vec<u8>)
        ensures
            *final(self) == (TxStateMachine {
                status: TxStatus::TxSubmissionPassed,
                tx_hash: Some(hash),
                ..*old(self)
            }),
    {
        self.status = TxStatus::TxSubmissionPassed;
        self.tx_hash = Some(hash);
    }

    /// Broadcast failed with the given cause.
    pub fn tx_submission_failed(&mut self, cause: String)
        ensures
            *final(self) == (TxStateMachine {
                status: TxStatus::TxSubmissionFailed(cause),
                ..*old(self)
            }),
    {
        self.status = TxStatus::TxSubmissionFailed(cause);
    }
}

} // verus!
