//! Data model: identifiers, coin records, the negotiation document, history
//! records, and the wallet store that the build flows read and mutate.

use vstd::prelude::*;

verus! {

/// A hierarchical key-derivation path of fixed depth four.  Equality and
/// ordering are by path value; the path is the join key between coin records
/// and freshly derived child keys.  Child keys of an account live at the
/// third component, so the last path index of a child is `p2`.
#[derive(Clone, Copy, Debug, PartialEq, Eq, Structural)]
pub struct Identifier {
    pub p0: u32,
    pub p1: u32,
    pub p2: u32,
    pub p3: u32,
}

impl Identifier {
    /// The child of this account path at derivation index `index`.
    pub open spec fn spec_child(self, index: u32) -> Identifier {
        Identifier { p0: self.p0, p1: self.p1, p2: index, p3: 0 }
    }

    pub fn child(&self, index: u32) -> (r: Identifier)
        ensures
            r == self.spec_child(index),
    {
        Identifier { p0: self.p0, p1: self.p1, p2: index, p3: 0 }
    }

    /// The derivation index at which a child key was allocated.
    pub open spec fn spec_last_path_index(self) -> u32 {
        self.p2
    }

    pub fn last_path_index(&self) -> (r: u32)
        ensures
            r == self.spec_last_path_index(),
    {
        self.p2
    }
}

/// Lifecycle state of a coin record.
#[derive(Clone, Copy, Debug, PartialEq, Eq, Structural)]
pub enum OutputStatus {
    Unconfirmed,
    Unspent,
    Locked,
    Spent,
}

/// A wallet-tracked unit of spendable value in the primary asset.
#[derive(Clone, Copy, Debug, PartialEq, Eq)]
pub struct OutputData {
    pub root_key_id: Identifier,
    pub key_id: Identifier,
    pub n_child: u32,
    pub mmr_index: Option<u64>,
    pub value: u64,
    pub status: OutputStatus,
    pub height: u64,
    pub lock_height: u64,
    pub is_coinbase: bool,
    pub tx_log_entry: Option<u64>,
}

impl OutputData {
    /// The single eligibility gate: a coin may be selected when it is unspent,
    /// its lock height has passed, and it has at least
    /// `minimum_confirmations` confirmations at `current_height`.
    pub open spec fn spec_eligible(self, current_height: u64, minimum_confirmations: u64) -> bool {
        &&& self.status is Unspent
        &&& self.lock_height <= current_height
        &&& self.height <= current_height
        &&& self.height + minimum_confirmations <= current_height + 1
    }

    pub fn eligible_to_spend(&self, current_height: u64, minimum_confirmations: u64) -> (r: bool)
        ensures
            r == self.spec_eligible(current_height, minimum_confirmations),
    {
        matches!(self.status, OutputStatus::Unspent) && self.lock_height <= current_height
            && self.height <= current_height
            && (minimum_confirmations == 0
                || minimum_confirmations - 1 <= current_height - self.height)
    }
}

/// A wallet-tracked unit of spendable value in a secondary asset.
#[derive(Clone, Copy, Debug, PartialEq, Eq)]
pub struct TokenOutputData {
    pub root_key_id: Identifier,
    pub key_id: Identifier,
    pub n_child: u32,
    pub token_type: u64,
    pub mmr_index: Option<u64>,
    pub value: u64,
    pub status: OutputStatus,
    pub height: u64,
    pub lock_height: u64,
    pub is_token_issue: bool,
    pub tx_log_entry: Option<u64>,
}

impl TokenOutputData {
    /// Same maturity and confirmation gate as the primary asset.
    pub open spec fn spec_eligible(self, current_height: u64, minimum_confirmations: u64) -> bool {
        &&& self.status is Unspent
        &&& self.lock_height <= current_height
        &&& self.height <= current_height
        &&& self.height + minimum_confirmations <= current_height + 1
    }

    pub fn eligible_to_spend(&self, current_height: u64, minimum_confirmations: u64) -> (r: bool)
        ensures
            r == self.spec_eligible(current_height, minimum_confirmations),
    {
        matches!(self.status, OutputStatus::Unspent) && self.lock_height <= current_height
            && self.height <= current_height
            && (minimum_confirmations == 0
                || minimum_confirmations - 1 <= current_height - self.height)
    }
}

/// Everything that can go wrong in this core.  Backend, derivation and
/// document failures do not arise here: their results enter as plain values,
/// and a divergence between the wallet store and a build context surfaces as
/// `CoinNotFound` rather than as an unchecked assumption.
#[derive(Clone, Copy, Debug, PartialEq, Eq, Structural)]
pub enum Error {
    /// No covering coin set exists; carries the raw magnitudes.
    NotEnoughFunds { available: u64, needed: u64 },
    /// Finalize needs a sender derivation index the context lacks.
    PaymentProof,
    /// Caller programming error, e.g. a token operation without a token type
    /// or a finalize before the document carries a transaction.
    InvalidRequest,
    /// A registered identifier has no matching coin in the wallet store.
    CoinNotFound,
}

/// A payment-proof request carried by the negotiation document.
#[derive(Clone, Copy, Debug, PartialEq, Eq)]
pub struct PaymentProofRequest {
    pub receiver_address: [u8; 32],
    pub receiver_signature: Option<[u8; 64]>,
}

/// Payment-proof data stored with a history record.
#[derive(Clone, Copy, Debug, PartialEq, Eq)]
pub struct StoredProofInfo {
    pub receiver_address: [u8; 32],
    pub receiver_signature: Option<[u8; 64]>,
    pub sender_address: [u8; 32],
    pub sender_address_path: u64,
    pub sender_signature: Option<[u8; 64]>,
}

/// The shared negotiation document, reduced to the fields this core reads and
/// writes.  `kernel_excess` holds the document's excess commitment when it is
/// derivable at build time; `has_tx` says whether the document carries the
/// raw assembled transaction.
#[derive(Clone, Copy, Debug)]
pub struct Slate {
    pub id: u64,
    pub amount: u64,
    pub fee: u64,
    pub ttl_cutoff_height: u64,
    pub token_type: Option<u64>,
    pub payment_proof: Option<PaymentProofRequest>,
    pub kernel_excess: Option<[u8; 33]>,
    pub compact: bool,
    pub offset: [u8; 32],
    pub tx_offset: [u8; 32],
    pub has_tx: bool,
}

impl Slate {
    /// A compact document accounts for inputs itself, so only change outputs
    /// are folded into the aggregate sum.
    pub fn is_compact(&self) -> (r: bool)
        ensures
            r == self.compact,
    {
        self.compact
    }
}

/// Direction and kind of a primary-asset history record.
#[derive(Clone, Copy, Debug, PartialEq, Eq, Structural)]
pub enum TxLogEntryType {
    TxSent,
    TxReceived,
}

/// Direction and kind of a secondary-asset history record.
#[derive(Clone, Copy, Debug, PartialEq, Eq, Structural)]
pub enum TokenTxLogEntryType {
    TokenIssue,
    TokenTxSent,
    TokenTxReceived,
}

/// Append-only primary-asset history record, keyed by a locally incrementing
/// id.  `stored_tx` is the key under which the raw transaction bytes were
/// persisted (the document identifier).
#[derive(Clone, Copy, Debug, PartialEq, Eq)]
pub struct TxLogEntry {
    pub parent_key_id: Identifier,
    pub tx_type: TxLogEntryType,
    pub id: u64,
    pub tx_slate_id: Option<u64>,
    pub stored_tx: Option<u64>,
    pub fee: Option<u64>,
    pub ttl_cutoff_height: Option<u64>,
    pub kernel_excess: Option<[u8; 33]>,
    pub kernel_lookup_min_height: Option<u64>,
    pub amount_debited: u64,
    pub amount_credited: u64,
    pub num_inputs: usize,
    pub num_outputs: usize,
    pub payment_proof: Option<StoredProofInfo>,
}

/// Append-only secondary-asset history record.  The primary-asset fields
/// describe the fee-paying leg that a token transaction carries alongside its
/// token legs.
#[derive(Clone, Copy, Debug, PartialEq, Eq)]
pub struct TokenTxLogEntry {
    pub parent_key_id: Identifier,
    pub tx_type: TokenTxLogEntryType,
    pub id: u64,
    pub tx_slate_id: Option<u64>,
    pub token_type: u64,
    pub stored_tx: Option<u64>,
    pub fee: Option<u64>,
    pub ttl_cutoff_height: Option<u64>,
    pub kernel_excess: Option<[u8; 33]>,
    pub kernel_lookup_min_height: Option<u64>,
    pub amount_debited: u64,
    pub amount_credited: u64,
    pub num_inputs: usize,
    pub num_outputs: usize,
    pub token_amount_debited: u64,
    pub token_amount_credited: u64,
    pub num_token_inputs: usize,
    pub num_token_outputs: usize,
    pub payment_proof: Option<StoredProofInfo>,
}

/// A transaction element handed to the negotiation document's fold operation.
#[derive(Clone, Copy, Debug, PartialEq, Eq)]
pub enum TxElement {
    Input { value: u64, key_id: Identifier },
    CoinbaseInput { value: u64, key_id: Identifier },
    Output { value: u64, key_id: Identifier },
    TokenInput { value: u64, token_type: u64, is_issue: bool, key_id: Identifier },
    TokenOutput { value: u64, token_type: u64, is_issue: bool, key_id: Identifier },
}

/// The wallet store: both coin ledgers, both history ledgers, the child-key
/// derivation counter of the active account, the history-record counter, and
/// the keys under which raw transactions were persisted.
pub struct Wallet {
    pub parent_key_id: Identifier,
    pub coins: Vec<OutputData>,
    pub token_coins: Vec<TokenOutputData>,
    pub tx_log: Vec<TxLogEntry>,
    pub token_tx_log: Vec<TokenTxLogEntry>,
    pub next_child_index: u32,
    pub next_log_id: u64,
    pub stored_tx_keys: Vec<u64>,
}

impl Wallet {
    /// Allocate the next child key of the active account, advancing the
    /// derivation counter.
    pub fn next_child(&mut self) -> (id: Identifier)
        requires
            old(self).next_child_index < u32::MAX,
        ensures
            id == old(self).parent_key_id.spec_child(old(self).next_child_index),
            final(self).next_child_index == old(self).next_child_index + 1,
            final(self).parent_key_id == old(self).parent_key_id,
            final(self).coins == old(self).coins,
            final(self).token_coins == old(self).token_coins,
            final(self).tx_log == old(self).tx_log,
            final(self).token_tx_log == old(self).token_tx_log,
            final(self).next_log_id == old(self).next_log_id,
            final(self).stored_tx_keys == old(self).stored_tx_keys,
    {
        let id = self.parent_key_id.child(self.next_child_index);
        self.next_child_index = self.next_child_index + 1;
        id
    }
}

} // verus!
