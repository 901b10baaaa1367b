use vstd::prelude::*;
use base64::Engine;

verus! {

/// The base58 text of a 64-byte signature, as solana_sdk renders it.
pub uninterp spec fn signature_base58_of(b: Seq<u8>) -> Seq<char>;

/// The base58 text of a 32-byte hash, as solana_sdk renders it.
pub uninterp spec fn hash_base58_of(b: Seq<u8>) -> Seq<char>;

/// The standard base64 text of a byte string.
pub uninterp spec fn base64_of(b: Seq<u8>) -> Seq<char>;

/// Whether a byte string is a well-formed binary encoding of a transaction
/// error.
pub uninterp spec fn decodes_as_transaction_error(b: Seq<u8>) -> bool;

/// Whether instruction data decodes as a vote instruction that reports
/// itself as a simple vote.
pub uninterp spec fn is_simple_vote_data(b: Seq<u8>) -> bool;

/// Relies on solana_sdk's Signature: built from exactly 64 bytes and shown
/// in base58 through its Display impl; the text depends on the bytes alone.
#[verifier::external_body]
pub(crate) fn signature_to_base58(b: &Vec<u8>) -> (r: String)
    requires
        b@.len() == 64,
    ensures
        r@ == signature_base58_of(b@),
{
    let sig = solana_sdk::signature::Signature::try_from(b.as_slice()).unwrap();
    sig.to_string()
}

/// Relies on solana_sdk's Hash: 32 bytes shown in base58 through its Display
/// impl; the text depends on the bytes alone.
#[verifier::external_body]
pub(crate) fn hash_to_base58(b: &Vec<u8>) -> (r: String)
    requires
        b@.len() == 32,
    ensures
        r@ == hash_base58_of(b@),
{
    let mut arr = [0u8; 32];
    arr.copy_from_slice(b.as_slice());
    solana_sdk::hash::Hash::new_from_array(arr).to_string()
}

/// Relies on the base64 crate's standard engine: RFC 4648 text with padding,
/// a function of the bytes alone.
#[verifier::external_body]
pub(crate) fn encode_base64(b: &Vec<u8>) -> (r: String)
    ensures
        r@ == base64_of(b@),
{
    base64::engine::general_purpose::STANDARD.encode(b.as_slice())
}

/// Relies on bincode::deserialize for solana_sdk's TransactionError: whether
/// the bytes are a well-formed encoding is a function of the bytes alone.
#[verifier::external_body]
pub(crate) fn transaction_error_decodes(b: &Vec<u8>) -> (r: bool)
    ensures
        r == decodes_as_transaction_error(b@),
{
    bincode::deserialize::<solana_sdk::transaction::TransactionError>(b.as_slice()).is_ok()
}

/// Relies on solana_sdk's limited_deserialize of VoteInstruction and on
/// VoteInstruction::is_simple_vote: both are functions of the bytes alone,
/// and data that does not decode is not a vote.
#[allow(deprecated)]
#[verifier::external_body]
pub(crate) fn data_is_simple_vote(b: &Vec<u8>) -> (r: bool)
    ensures
        r == is_simple_vote_data(b@),
{
    match solana_sdk::program_utils::limited_deserialize::<
        solana_sdk::vote::instruction::VoteInstruction,
    >(b.as_slice()) {
        Ok(vi) => vi.is_simple_vote(),
        Err(_) => false,
    }
}

} // verus!
