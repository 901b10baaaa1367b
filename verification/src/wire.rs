use vstd::prelude::*;

verus! {

/// The raw streaming block update as it arrives from an upstream feed,
/// held as plain values: every nested field that the wire leaves optional
/// is optional here too.
#[derive(Debug, Clone, PartialEq, Eq)]
pub struct RawBlockUpdate {
    pub slot: u64,
    pub blockhash: String,
    pub parent_slot: u64,
    pub parent_blockhash: String,
    pub block_height: Option<u64>,
    pub block_time: Option<i64>,
    pub transactions: Vec<RawTransactionEnvelope>,
    pub rewards: Option<RawRewards>,
}

/// One raw transaction envelope of a block update.
#[derive(Debug, Clone, PartialEq, Eq)]
pub struct RawTransactionEnvelope {
    pub meta: Option<RawTransactionMeta>,
    pub transaction: Option<RawTransaction>,
}

/// The status metadata of a raw transaction.
#[derive(Debug, Clone, PartialEq, Eq)]
pub struct RawTransactionMeta {
    pub err: Option<Vec<u8>>,
    pub compute_units_consumed: Option<u64>,
}

/// The raw transaction itself: signatures as loose byte strings plus the
/// optional message.
#[derive(Debug, Clone, PartialEq, Eq)]
pub struct RawTransaction {
    pub signatures: Vec<Vec<u8>>,
    pub message: Option<RawMessage>,
}

/// The raw message: header counts still in their wide wire integers, keys
/// and index lists as loose byte strings.
#[derive(Debug, Clone, PartialEq, Eq)]
pub struct RawMessage {
    pub header: Option<RawHeader>,
    pub account_keys: Vec<Vec<u8>>,
    pub recent_blockhash: Vec<u8>,
    pub instructions: Vec<RawInstruction>,
    pub address_table_lookups: Vec<RawAddressTableLookup>,
}

/// The raw header: the wire carries the three counts as u32.
#[derive(Debug, Clone, Copy, PartialEq, Eq, Structural)]
pub struct RawHeader {
    pub num_required_signatures: u32,
    pub num_readonly_signed_accounts: u32,
    pub num_readonly_unsigned_accounts: u32,
}

/// One raw instruction: only the program index needs narrowing, the account
/// index list and data arrive as bytes already.
#[derive(Debug, Clone, PartialEq, Eq)]
pub struct RawInstruction {
    pub program_id_index: u32,
    pub accounts: Vec<u8>,
    pub data: Vec<u8>,
}

/// One raw address-lookup-table reference.
#[derive(Debug, Clone, PartialEq, Eq)]
pub struct RawAddressTableLookup {
    pub account_key: Vec<u8>,
    pub writable_indexes: Vec<u8>,
    pub readonly_indexes: Vec<u8>,
}

/// The raw reward list wrapper.
#[derive(Debug, Clone, PartialEq, Eq)]
pub struct RawRewards {
    pub rewards: Vec<RawReward>,
}

/// One raw reward entry; the reward type arrives as a wire enum tag.
#[derive(Debug, Clone, PartialEq, Eq)]
pub struct RawReward {
    pub pubkey: String,
    pub lamports: i64,
    pub post_balance: u64,
    pub reward_type: i32,
}

} // verus!
