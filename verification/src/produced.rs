use vstd::prelude::*;
use crate::ext::decodes_as_transaction_error;
use crate::keys::Pubkey;
use crate::message::AddressTableLookup;
use crate::message::AddressTableLookupView;

verus! {

/// The caller-asserted trust tag attached to a decoded block; it is not
/// derivable from the wire data.
#[derive(Debug, Clone, Copy, PartialEq, Eq, Structural)]
pub enum CommitmentLevel {
    Processed,
    Confirmed,
    Finalized,
}

/// The canonical reward type; "unspecified" and unknown wire tags map to
/// no type at all.
#[derive(Debug, Clone, Copy, PartialEq, Eq, Structural)]
pub enum RewardType {
    Fee,
    Rent,
    Staking,
    Voting,
}

/// One canonical reward entry. The commission is never set by this decoder;
/// later collaborators fill it in.
#[derive(Debug, Clone, PartialEq, Eq)]
pub struct Reward {
    pub pubkey: String,
    pub lamports: i64,
    pub post_balance: u64,
    pub reward_type: Option<RewardType>,
    pub commission: Option<u8>,
}

#[verifier::ext_equal]
pub struct RewardView {
    pub pubkey: Seq<char>,
    pub lamports: i64,
    pub post_balance: u64,
    pub reward_type: Option<RewardType>,
    pub commission: Option<u8>,
}

impl View for Reward {
    type V = RewardView;

    open spec fn view(&self) -> RewardView {
        RewardView {
            pubkey: self.pubkey@,
            lamports: self.lamports,
            post_balance: self.post_balance,
            reward_type: self.reward_type,
            commission: self.commission,
        }
    }
}

/// A transaction failure carried in its canonical binary encoding. Decoding
/// it was already checked when the block was built: a block is never
/// constructed around bytes that do not decode.
#[derive(Debug, Clone, PartialEq, Eq)]
pub struct EncodedTransactionError {
    pub encoded: Vec<u8>,
}

impl View for EncodedTransactionError {
    type V = Seq<u8>;

    open spec fn view(&self) -> Seq<u8> {
        self.encoded@
    }
}

impl EncodedTransactionError {
    pub open spec fn wf(&self) -> bool {
        decodes_as_transaction_error(self@)
    }
}

/// One canonical transaction of a decoded block.
#[derive(Debug, Clone, PartialEq, Eq)]
pub struct TransactionInfo {
    pub signature: String,
    pub is_vote: bool,
    pub err: Option<EncodedTransactionError>,
    pub cu_requested: Option<u32>,
    pub prioritization_fees: Option<u64>,
    pub cu_consumed: Option<u64>,
    pub recent_blockhash: String,
    pub message: String,
    pub readable_accounts: Vec<Pubkey>,
    pub writable_accounts: Vec<Pubkey>,
    pub address_lookup_tables: Vec<AddressTableLookup>,
}

#[verifier::ext_equal]
pub struct TransactionInfoView {
    pub signature: Seq<char>,
    pub is_vote: bool,
    pub err: Option<Seq<u8>>,
    pub cu_requested: Option<u32>,
    pub prioritization_fees: Option<u64>,
    pub cu_consumed: Option<u64>,
    pub recent_blockhash: Seq<char>,
    pub message: Seq<char>,
    pub readable_accounts: Seq<Seq<u8>>,
    pub writable_accounts: Seq<Seq<u8>>,
    pub address_lookup_tables: Seq<AddressTableLookupView>,
}

impl View for TransactionInfo {
    type V = TransactionInfoView;

    open spec fn view(&self) -> TransactionInfoView {
        TransactionInfoView {
            signature: self.signature@,
            is_vote: self.is_vote,
            err: match self.err {
                Option::None => Option::None,
                Option::Some(e) => Option::Some(e@),
            },
            cu_requested: self.cu_requested,
            prioritization_fees: self.prioritization_fees,
            cu_consumed: self.cu_consumed,
            recent_blockhash: self.recent_blockhash@,
            message: self.message@,
            readable_accounts: self.readable_accounts@.map_values(|k: Pubkey| k@),
            writable_accounts: self.writable_accounts@.map_values(|k: Pubkey| k@),
            address_lookup_tables: self.address_lookup_tables@.map_values(
                |l: AddressTableLookup| l@,
            ),
        }
    }
}

impl TransactionInfo {
    /// Every carried error decodes and every account key has 32 bytes.
    pub open spec fn wf(&self) -> bool {
        &&& match self.err {
            Option::None => true,
            Option::Some(e) => e.wf(),
        }
        &&& forall|i: int|
            0 <= i < self.readable_accounts@.len() ==> (
            #[trigger] self.readable_accounts@[i]).wf()
        &&& forall|i: int|
            0 <= i < self.writable_accounts@.len() ==> (
            #[trigger] self.writable_accounts@[i]).wf()
    }
}

/// The canonical block. It is only ever constructed with both block height
/// and block time present; a raw update missing either fails decoding.
#[derive(Debug, Clone, PartialEq, Eq)]
pub struct ProducedBlock {
    pub transactions: Vec<TransactionInfo>,
    pub leader_id: Option<String>,
    pub blockhash: String,
    pub previous_blockhash: String,
    pub parent_slot: u64,
    pub slot: u64,
    pub block_height: u64,
    pub block_time: u64,
    pub commitment_config: CommitmentLevel,
    pub rewards: Option<Vec<Reward>>,
}

#[verifier::ext_equal]
pub struct ProducedBlockView {
    pub transactions: Seq<TransactionInfoView>,
    pub leader_id: Option<Seq<char>>,
    pub blockhash: Seq<char>,
    pub previous_blockhash: Seq<char>,
    pub parent_slot: u64,
    pub slot: u64,
    pub block_height: u64,
    pub block_time: u64,
    pub commitment_config: CommitmentLevel,
    pub rewards: Option<Seq<RewardView>>,
}

impl View for ProducedBlock {
    type V = ProducedBlockView;

    open spec fn view(&self) -> ProducedBlockView {
        ProducedBlockView {
            transactions: self.transactions@.map_values(|t: TransactionInfo| t@),
            leader_id: match self.leader_id {
                Option::None => Option::None,
                Option::Some(s) => Option::Some(s@),
            },
            blockhash: self.blockhash@,
            previous_blockhash: self.previous_blockhash@,
            parent_slot: self.parent_slot,
            slot: self.slot,
            block_height: self.block_height,
            block_time: self.block_time,
            commitment_config: self.commitment_config,
            rewards: match self.rewards {
                Option::None => Option::None,
                Option::Some(rs) => Option::Some(rs@.map_values(|r: Reward| r@)),
            },
        }
    }
}

impl ProducedBlock {
    pub open spec fn wf(&self) -> bool {
        forall|i: int| 0 <= i < self.transactions@.len() ==> (#[trigger] self.transactions@[i]).wf()
    }
}

/// Why decoding a whole block failed. Missing height or time leaves the
/// block unplaceable in chain order; a transaction-error encoding that does
/// not decode points at a producer/consumer serialization mismatch.
#[derive(Debug, Clone, Copy, PartialEq, Eq, Structural)]
pub enum BlockDecodeError {
    MissingBlockHeight,
    MissingBlockTime,
    NegativeBlockTime,
    MalformedTransactionError,
}

} // verus!
