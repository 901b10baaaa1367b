use vstd::prelude::*;
use crate::cb::ComputeBudgetIx;
use crate::cb::legacy_prioritization_fee;
use crate::cb::parse_compute_budget;
use crate::cb::spec_legacy_fee;
use crate::cb::spec_parse_compute_budget;
use crate::ext::base64_of;
use crate::ext::data_is_simple_vote;
use crate::ext::decodes_as_transaction_error;
use crate::ext::encode_base64;
use crate::ext::hash_base58_of;
use crate::ext::hash_to_base58;
use crate::ext::is_simple_vote_data;
use crate::ext::signature_base58_of;
use crate::ext::signature_to_base58;
use crate::ext::transaction_error_decodes;
use crate::keys::Pubkey;
use crate::keys::clone_bytes;
use crate::keys::compute_budget_program_id;
use crate::keys::is_compute_budget_key;
use crate::keys::is_vote_program_key;
use crate::keys::key32;
use crate::keys::pubkey_from_wire;
use crate::keys::vote_program_id;
use crate::message::AddressTableLookup;
use crate::message::AddressTableLookupView;
use crate::message::CompiledIx;
use crate::message::CompiledIxView;
use crate::message::MsgHeader;
use crate::message::MsgView;
use crate::message::VersionedMsg;
use crate::message::serialize_message;
use crate::message::spec_ser_msg;
use crate::message::wf_msg;
use crate::produced::BlockDecodeError;
use crate::produced::CommitmentLevel;
use crate::produced::EncodedTransactionError;
use crate::produced::ProducedBlock;
use crate::produced::ProducedBlockView;
use crate::produced::Reward;
use crate::produced::RewardType;
use crate::produced::RewardView;
use crate::produced::TransactionInfo;
use crate::produced::TransactionInfoView;
use crate::wire::RawBlockUpdate;
use crate::wire::RawHeader;
use crate::wire::RawMessage;
use crate::wire::RawAddressTableLookup;
use crate::wire::RawInstruction;
use crate::wire::RawReward;
use crate::wire::RawTransaction;
use crate::wire::RawTransactionEnvelope;
use crate::wire::RawTransactionMeta;

verus! {

/// Whether a wide wire header narrows to 8-bit counts and every list of the
/// message fits its compact length prefix. A message that does not is a
/// wire-format violation: its envelope is dropped, never silently wrapped.
pub open spec fn raw_msg_shape_ok(msg: RawMessage, h: RawHeader) -> bool {
    &&& h.num_required_signatures <= 255
    &&& h.num_readonly_signed_accounts <= 255
    &&& h.num_readonly_unsigned_accounts <= 255
    &&& msg.recent_blockhash@.len() == 32
    &&& msg.account_keys@.len() <= 0xFFFF
    &&& msg.instructions@.len() <= 0xFFFF
    &&& forall|i: int|
        0 <= i < msg.instructions@.len() ==> (#[trigger] msg.instructions@[i]).program_id_index
            <= 255 && msg.instructions@[i].accounts@.len() <= 0xFFFF
            && msg.instructions@[i].data@.len() <= 0xFFFF
    &&& msg.address_table_lookups@.len() <= 0xFFFF
    &&& forall|i: int|
        0 <= i < msg.address_table_lookups@.len() ==> (
        #[trigger] msg.address_table_lookups@[i]).writable_indexes@.len() <= 0xFFFF
            && msg.address_table_lookups@[i].readonly_indexes@.len() <= 0xFFFF
}

/// The canonical message reconstructed from a raw one: counts narrowed,
/// keys degraded to zero on bad length, instruction bodies verbatim.
pub open spec fn spec_message(msg: RawMessage, h: RawHeader) -> MsgView {
    MsgView {
        header: MsgHeader {
            num_required_signatures: h.num_required_signatures as u8,
            num_readonly_signed_accounts: h.num_readonly_signed_accounts as u8,
            num_readonly_unsigned_accounts: h.num_readonly_unsigned_accounts as u8,
        },
        account_keys: msg.account_keys@.map_values(|k: Vec<u8>| key32(k@)),
        recent_blockhash: msg.recent_blockhash@,
        instructions: msg.instructions@.map_values(
            |ix: RawInstruction|
                CompiledIxView {
                    program_id_index: ix.program_id_index as u8,
                    accounts: ix.accounts@,
                    data: ix.data@,
                },
        ),
        address_table_lookups: msg.address_table_lookups@.map_values(
            |l: RawAddressTableLookup|
                AddressTableLookupView {
                    account_key: key32(l.account_key@),
                    writable_indexes: l.writable_indexes@,
                    readonly_indexes: l.readonly_indexes@,
                },
        ),
    }
}

/// Whether instruction `i` targets the program with the given id.
pub open spec fn ix_targets(m: MsgView, i: int, key: Seq<u8>) -> bool {
    m.instructions[i].program_id_index < m.account_keys.len() && m.account_keys[m.instructions[i].program_id_index as int]
        == key
}

/// The first current "set compute unit limit" instruction at or after `i`.
pub open spec fn spec_cu_limit_from(m: MsgView, i: int) -> Option<u32>
    decreases m.instructions.len() - i,
{
    if i < 0 || i >= m.instructions.len() {
        Option::None
    } else {
        match spec_parse_compute_budget(m.instructions[i].data) {
            Option::Some(ComputeBudgetIx::SetComputeUnitLimit(l)) => if ix_targets(
                m,
                i,
                compute_budget_program_id(),
            ) {
                Option::Some(l)
            } else {
                spec_cu_limit_from(m, i + 1)
            },
            _ => spec_cu_limit_from(m, i + 1),
        }
    }
}

/// The first current "set compute unit price" instruction at or after `i`.
pub open spec fn spec_cu_price_from(m: MsgView, i: int) -> Option<u64>
    decreases m.instructions.len() - i,
{
    if i < 0 || i >= m.instructions.len() {
        Option::None
    } else {
        match spec_parse_compute_budget(m.instructions[i].data) {
            Option::Some(ComputeBudgetIx::SetComputeUnitPrice(p)) => if ix_targets(
                m,
                i,
                compute_budget_program_id(),
            ) {
                Option::Some(p)
            } else {
                spec_cu_price_from(m, i + 1)
            },
            _ => spec_cu_price_from(m, i + 1),
        }
    }
}

/// The first deprecated "request units" instruction at or after `i`:
/// its unit count and flat additional fee.
pub open spec fn spec_legacy_from(m: MsgView, i: int) -> Option<(u32, u32)>
    decreases m.instructions.len() - i,
{
    if i < 0 || i >= m.instructions.len() {
        Option::None
    } else {
        match spec_parse_compute_budget(m.instructions[i].data) {
            Option::Some(ComputeBudgetIx::RequestUnitsDeprecated { units, additional_fee }) => if ix_targets(
                m,
                i,
                compute_budget_program_id(),
            ) {
                Option::Some((units, additional_fee))
            } else {
                spec_legacy_from(m, i + 1)
            },
            _ => spec_legacy_from(m, i + 1),
        }
    }
}

/// Whether some instruction at or after `i` targets the vote program with
/// data that decodes as a simple vote.
pub open spec fn spec_is_vote_from(m: MsgView, i: int) -> bool
    decreases m.instructions.len() - i,
{
    if i < 0 || i >= m.instructions.len() {
        false
    } else if ix_targets(m, i, vote_program_id()) && is_simple_vote_data(m.instructions[i].data) {
        true
    } else {
        spec_is_vote_from(m, i + 1)
    }
}

/// Requested compute units: the current limit instruction wins, else the
/// deprecated request's unit count, else absent.
pub open spec fn spec_cu_requested(m: MsgView) -> Option<u32> {
    match spec_cu_limit_from(m, 0) {
        Option::Some(l) => Option::Some(l),
        Option::None => match spec_legacy_from(m, 0) {
            Option::Some((units, _)) => Option::Some(units),
            Option::None => Option::None,
        },
    }
}

/// Prioritization fee: the current price instruction wins, else the fee
/// derived from the deprecated request when its additional fee is nonzero,
/// else absent.
pub open spec fn spec_prioritization_fees(m: MsgView) -> Option<u64> {
    match spec_cu_price_from(m, 0) {
        Option::Some(p) => Option::Some(p),
        Option::None => match spec_legacy_from(m, 0) {
            Option::Some((units, additional_fee)) => if additional_fee > 0 {
                Option::Some(spec_legacy_fee(units, additional_fee))
            } else {
                Option::None
            },
            Option::None => Option::None,
        },
    }
}

/// The prioritization-fee precedence law: wherever a current "set compute
/// unit price" instruction is found, its value is the fee; the fee derived
/// from the deprecated request is used only when no current price
/// instruction exists and its additional fee is nonzero; otherwise the fee
/// is absent.
pub proof fn lemma_price_precedence(m: MsgView)
    ensures
        spec_cu_price_from(m, 0) matches Some(p) ==> spec_prioritization_fees(m) == Option::Some(
            p,
        ),
        spec_cu_price_from(m, 0) is None && (spec_legacy_from(m, 0) matches Some((units, af))
            && af > 0) ==> spec_prioritization_fees(m) == (match spec_legacy_from(m, 0) {
            Option::Some((units, af)) => Option::Some(spec_legacy_fee(units, af)),
            Option::None => Option::None,
        }),
        spec_cu_price_from(m, 0) is None && (match spec_legacy_from(m, 0) {
            Option::Some((_, af)) => af == 0,
            Option::None => true,
        }) ==> spec_prioritization_fees(m) is None,
{
}

/// Whether a raw envelope is missing one of its nested layers: the
/// metadata, the inner transaction, the message or the message header.
pub open spec fn incomplete_envelope(env: RawTransactionEnvelope) -> bool {
    match env.meta {
        Option::None => true,
        Option::Some(_) => match env.transaction {
            Option::None => true,
            Option::Some(tx) => match tx.message {
                Option::None => true,
                Option::Some(msg) => msg.header is None,
            },
        },
    }
}

proof fn lemma_txs_agree(
    a: Seq<RawTransactionEnvelope>,
    b: Seq<RawTransactionEnvelope>,
    n: int,
)
    requires
        0 <= n <= a.len(),
        n <= b.len(),
        forall|i: int| 0 <= i < n ==> a[i] == b[i],
    ensures
        spec_txs_upto(a, n) == spec_txs_upto(b, n),
    decreases n,
{
    if n > 0 {
        lemma_txs_agree(a, b, n - 1);
    }
}

proof fn lemma_txs_skip(envs: Seq<RawTransactionEnvelope>, k: int, upto: int)
    requires
        0 <= k < upto <= envs.len(),
        spec_decode_tx(envs[k]) == Result::<Option<TransactionInfoView>, BlockDecodeError>::Ok(
            Option::None,
        ),
    ensures
        spec_txs_upto(envs, upto) == spec_txs_upto(envs.remove(k), upto - 1),
    decreases upto,
{
    let rem = envs.remove(k);
    if upto == k + 1 {
        lemma_txs_agree(envs, rem, k);
    } else {
        lemma_txs_skip(envs, k, upto - 1);
        assert(rem[upto - 2] == envs[upto - 1]);
    }
}

/// The acceptable-loss law: an envelope missing its metadata, its inner
/// transaction, its message or the message header contributes nothing and
/// never fails the block — the kept transactions are exactly those of the
/// same envelope list without it, whatever its position.
pub proof fn lemma_incomplete_envelope_dropped(envs: Seq<RawTransactionEnvelope>, k: int)
    requires
        0 <= k < envs.len(),
        incomplete_envelope(envs[k]),
    ensures
        spec_txs_upto(envs, envs.len() as int) == spec_txs_upto(envs.remove(k), envs.len() - 1),
{
    assert(spec_decode_tx(envs[k]) == Result::<Option<TransactionInfoView>, BlockDecodeError>::Ok(
        Option::None,
    ));
    lemma_txs_skip(envs, k, envs.len() as int);
}

/// The message's own writability predicate for the key at position `i`:
/// writable signers come first, then read-only signers, then writable
/// non-signers, then read-only non-signers.
pub open spec fn spec_writable_index(h: MsgHeader, n_keys: int, i: int) -> bool {
    i < h.num_required_signatures - h.num_readonly_signed_accounts || (i
        >= h.num_required_signatures && i < n_keys - h.num_readonly_unsigned_accounts)
}

/// The keys at writable positions among the first `upto`, in message order.
pub open spec fn spec_writable_upto(keys: Seq<Seq<u8>>, h: MsgHeader, upto: int) -> Seq<Seq<u8>>
    decreases upto,
{
    if upto <= 0 {
        Seq::empty()
    } else {
        spec_writable_upto(keys, h, upto - 1) + if spec_writable_index(h, keys.len() as int, upto - 1) {
            seq![keys[upto - 1]]
        } else {
            Seq::empty()
        }
    }
}

/// The keys at read-only positions among the first `upto`, in message order.
pub open spec fn spec_readable_upto(keys: Seq<Seq<u8>>, h: MsgHeader, upto: int) -> Seq<Seq<u8>>
    decreases upto,
{
    if upto <= 0 {
        Seq::empty()
    } else {
        spec_readable_upto(keys, h, upto - 1) + if spec_writable_index(h, keys.len() as int, upto - 1) {
            Seq::empty()
        } else {
            seq![keys[upto - 1]]
        }
    }
}

proof fn lemma_partition_membership(keys: Seq<Seq<u8>>, h: MsgHeader, n: int)
    requires
        0 <= n <= keys.len(),
    ensures
        forall|x: Seq<u8>|
            spec_writable_upto(keys, h, n).contains(x) <==> exists|i: int|
                0 <= i < n && keys[i] == x && spec_writable_index(h, keys.len() as int, i),
        forall|x: Seq<u8>|
            spec_readable_upto(keys, h, n).contains(x) <==> exists|i: int|
                0 <= i < n && keys[i] == x && !spec_writable_index(h, keys.len() as int, i),
    decreases n,
{
    if n > 0 {
        lemma_partition_membership(keys, h, n - 1);
        let w = spec_writable_upto(keys, h, n);
        let wp = spec_writable_upto(keys, h, n - 1);
        let r = spec_readable_upto(keys, h, n);
        let rp = spec_readable_upto(keys, h, n - 1);
        if spec_writable_index(h, keys.len() as int, n - 1) {
            assert(w =~= wp.push(keys[n - 1]));
            assert(r =~= rp);
            assert forall|x: Seq<u8>| #[trigger] w.contains(x) implies exists|i: int|
                0 <= i < n && keys[i] == x && spec_writable_index(h, keys.len() as int, i) by {
                let j = choose|j: int| 0 <= j < w.len() && w[j] == x;
                if j < wp.len() {
                    assert(wp.contains(x));
                } else {
                    assert(keys[n - 1] == x);
                }
            }
            assert forall|x: Seq<u8>|
                (exists|i: int|
                    0 <= i < n && keys[i] == x && spec_writable_index(
                        h,
                        keys.len() as int,
                        i,
                    )) implies #[trigger] w.contains(x) by {
                let i = choose|i: int|
                    0 <= i < n && keys[i] == x && spec_writable_index(h, keys.len() as int, i);
                if i < n - 1 {
                    assert(wp.contains(x));
                    let j = choose|j: int| 0 <= j < wp.len() && wp[j] == x;
                    assert(w[j] == x);
                } else {
                    assert(w[w.len() - 1] == x);
                }
            }
        } else {
            assert(r =~= rp.push(keys[n - 1]));
            assert(w =~= wp);
            assert forall|x: Seq<u8>| #[trigger] r.contains(x) implies exists|i: int|
                0 <= i < n && keys[i] == x && !spec_writable_index(h, keys.len() as int, i) by {
                let j = choose|j: int| 0 <= j < r.len() && r[j] == x;
                if j < rp.len() {
                    assert(rp.contains(x));
                } else {
                    assert(keys[n - 1] == x);
                }
            }
            assert forall|x: Seq<u8>|
                (exists|i: int|
                    0 <= i < n && keys[i] == x && !spec_writable_index(
                        h,
                        keys.len() as int,
                        i,
                    )) implies #[trigger] r.contains(x) by {
                let i = choose|i: int|
                    0 <= i < n && keys[i] == x && !spec_writable_index(h, keys.len() as int, i);
                if i < n - 1 {
                    assert(rp.contains(x));
                    let j = choose|j: int| 0 <= j < rp.len() && rp[j] == x;
                    assert(r[j] == x);
                } else {
                    assert(r[r.len() - 1] == x);
                }
            }
        }
    }
}

/// Every account key position of a message is classified exactly one way,
/// so the writable and readable keys of a decoded transaction together are
/// exactly its account-key set; and when the keys are pairwise distinct,
/// no key is both writable and readable.
pub proof fn lemma_account_partition(keys: Seq<Seq<u8>>, h: MsgHeader)
    ensures
        spec_writable_upto(keys, h, keys.len() as int).to_set().union(
            spec_readable_upto(keys, h, keys.len() as int).to_set(),
        ) == keys.to_set(),
        (forall|i: int, j: int| 0 <= i < j < keys.len() ==> keys[i] != keys[j])
            ==> spec_writable_upto(keys, h, keys.len() as int).to_set().intersect(
            spec_readable_upto(keys, h, keys.len() as int).to_set(),
        ) == Set::<Seq<u8>>::empty(),
{
    let n = keys.len() as int;
    lemma_partition_membership(keys, h, n);
    let w = spec_writable_upto(keys, h, n);
    let r = spec_readable_upto(keys, h, n);
    assert forall|x: Seq<u8>| #[trigger] keys.to_set().contains(x) implies w.to_set().union(
        r.to_set(),
    ).contains(x) by {
        let i = choose|i: int| 0 <= i < keys.len() && keys[i] == x;
        if spec_writable_index(h, n, i) {
            assert(w.contains(x));
        } else {
            assert(r.contains(x));
        }
    }
    assert(w.to_set().union(r.to_set()) =~= keys.to_set());
    if forall|i: int, j: int| 0 <= i < j < keys.len() ==> keys[i] != keys[j] {
        assert forall|x: Seq<u8>| !(#[trigger] w.to_set().intersect(r.to_set()).contains(x)) by {
            if w.contains(x) && r.contains(x) {
                let i = choose|i: int|
                    0 <= i < n && keys[i] == x && spec_writable_index(h, keys.len() as int, i);
                let j = choose|j: int|
                    0 <= j < n && keys[j] == x && !spec_writable_index(h, keys.len() as int, j);
                if i < j {
                    assert(keys[i] != keys[j]);
                } else {
                    assert(keys[j] != keys[i]);
                }
            }
        }
        assert(w.to_set().intersect(r.to_set()) =~= Set::<Seq<u8>>::empty());
    }
}

/// The canonical transaction built from a complete, well-shaped envelope.
pub open spec fn spec_tx_view(
    meta: RawTransactionMeta,
    tx: RawTransaction,
    msg: RawMessage,
    h: RawHeader,
) -> TransactionInfoView {
    let mv = spec_message(msg, h);
    TransactionInfoView {
        signature: signature_base58_of(tx.signatures@[0]@),
        is_vote: spec_is_vote_from(mv, 0),
        err: match meta.err {
            Option::None => Option::None,
            Option::Some(eb) => Option::Some(eb@),
        },
        cu_requested: spec_cu_requested(mv),
        prioritization_fees: spec_prioritization_fees(mv),
        cu_consumed: meta.compute_units_consumed,
        recent_blockhash: hash_base58_of(mv.recent_blockhash),
        message: base64_of(spec_ser_msg(mv)),
        readable_accounts: spec_readable_upto(mv.account_keys, mv.header, mv.account_keys.len() as int),
        writable_accounts: spec_writable_upto(mv.account_keys, mv.header, mv.account_keys.len() as int),
        address_lookup_tables: mv.address_table_lookups,
    }
}

/// What one raw envelope becomes: dropped (`Ok(None)`) when a nested layer
/// is missing, when its first signature is missing or malformed, or when
/// the message violates the wire format; fatal when a carried transaction
/// error does not decode; otherwise a canonical transaction.
pub open spec fn spec_decode_tx(env: RawTransactionEnvelope) -> Result<
    Option<TransactionInfoView>,
    BlockDecodeError,
> {
    match env.meta {
        Option::None => Result::Ok(Option::None),
        Option::Some(meta) => match env.transaction {
            Option::None => Result::Ok(Option::None),
            Option::Some(tx) => match tx.message {
                Option::None => Result::Ok(Option::None),
                Option::Some(msg) => match msg.header {
                    Option::None => Result::Ok(Option::None),
                    Option::Some(h) => {
                        let err_bad = match meta.err {
                            Option::Some(eb) => !decodes_as_transaction_error(eb@),
                            Option::None => false,
                        };
                        if err_bad {
                            Result::Err(BlockDecodeError::MalformedTransactionError)
                        } else if tx.signatures@.len() == 0 {
                            Result::Ok(Option::None)
                        } else if tx.signatures@[0]@.len() != 64 {
                            Result::Ok(Option::None)
                        } else if !raw_msg_shape_ok(msg, h) {
                            Result::Ok(Option::None)
                        } else {
                            Result::Ok(Option::Some(spec_tx_view(meta, tx, msg, h)))
                        }
                    },
                },
            },
        },
    }
}

/// The transactions kept from the first `upto` envelopes, or the first
/// fatal error among them.
pub open spec fn spec_txs_upto(envs: Seq<RawTransactionEnvelope>, upto: int) -> Result<
    Seq<TransactionInfoView>,
    BlockDecodeError,
>
    decreases upto,
{
    if upto <= 0 {
        Result::Ok(Seq::empty())
    } else {
        match spec_txs_upto(envs, upto - 1) {
            Result::Err(e) => Result::Err(e),
            Result::Ok(pre) => match spec_decode_tx(envs[upto - 1]) {
                Result::Err(e) => Result::Err(e),
                Result::Ok(Option::None) => Result::Ok(pre),
                Result::Ok(Option::Some(t)) => Result::Ok(pre.push(t)),
            },
        }
    }
}

/// The canonical reward type for a wire tag; unspecified and unknown tags
/// carry no type.
pub open spec fn spec_reward_type(t: i32) -> Option<RewardType> {
    if t == 1 {
        Option::Some(RewardType::Fee)
    } else if t == 2 {
        Option::Some(RewardType::Rent)
    } else if t == 3 {
        Option::Some(RewardType::Staking)
    } else if t == 4 {
        Option::Some(RewardType::Voting)
    } else {
        Option::None
    }
}

pub open spec fn spec_reward(r: RawReward) -> RewardView {
    RewardView {
        pubkey: r.pubkey@,
        lamports: r.lamports,
        post_balance: r.post_balance,
        reward_type: spec_reward_type(r.reward_type),
        commission: Option::None,
    }
}

/// The key of the first fee-typed reward at or after `i`, if any.
pub open spec fn spec_first_fee_from(rs: Seq<RawReward>, i: int) -> Option<Seq<char>>
    decreases rs.len() - i,
{
    if i < 0 || i >= rs.len() {
        Option::None
    } else if spec_reward_type(rs[i].reward_type) == Option::Some(RewardType::Fee) {
        Option::Some(rs[i].pubkey@)
    } else {
        spec_first_fee_from(rs, i + 1)
    }
}

/// What decoding a whole raw block update yields: a fatal error when block
/// height or block time is missing, when the time is negative, or when some
/// envelope carries an undecodable transaction error; otherwise the
/// canonical block, the leader taken from the first fee reward.
pub open spec fn spec_decode(block: RawBlockUpdate, commitment_config: CommitmentLevel) -> Result<
    ProducedBlockView,
    BlockDecodeError,
> {
    match block.block_height {
        Option::None => Result::Err(BlockDecodeError::MissingBlockHeight),
        Option::Some(height) => match block.block_time {
            Option::None => Result::Err(BlockDecodeError::MissingBlockTime),
            Option::Some(t) => if t < 0 {
                Result::Err(BlockDecodeError::NegativeBlockTime)
            } else {
                match spec_txs_upto(block.transactions@, block.transactions@.len() as int) {
                    Result::Err(e) => Result::Err(e),
                    Result::Ok(txs) => Result::Ok(
                        ProducedBlockView {
                            transactions: txs,
                            leader_id: match block.rewards {
                                Option::None => Option::None,
                                Option::Some(rr) => spec_first_fee_from(rr.rewards@, 0),
                            },
                            blockhash: block.blockhash@,
                            previous_blockhash: block.parent_blockhash@,
                            parent_slot: block.parent_slot,
                            slot: block.slot,
                            block_height: height,
                            block_time: t as u64,
                            commitment_config: commitment_config,
                            rewards: match block.rewards {
                                Option::None => Option::None,
                                Option::Some(rr) => Option::Some(
                                    rr.rewards@.map_values(|r: RawReward| spec_reward(r)),
                                ),
                            },
                        },
                    ),
                }
            },
        },
    }
}

fn check_shape(msg: &RawMessage, h: RawHeader) -> (r: bool)
    ensures
        r == raw_msg_shape_ok(*msg, h),
{
    if h.num_required_signatures > 255 || h.num_readonly_signed_accounts > 255
        || h.num_readonly_unsigned_accounts > 255 {
        return false;
    }
    if msg.recent_blockhash.len() != 32 {
        return false;
    }
    if msg.account_keys.len() > 0xFFFF || msg.instructions.len() > 0xFFFF
        || msg.address_table_lookups.len() > 0xFFFF {
        return false;
    }
    let mut i: usize = 0;
    while i < msg.instructions.len()
        invariant
            i <= msg.instructions@.len(),
            forall|j: int|
                0 <= j < i ==> (#[trigger] msg.instructions@[j]).program_id_index <= 255
                    && msg.instructions@[j].accounts@.len() <= 0xFFFF
                    && msg.instructions@[j].data@.len() <= 0xFFFF,
        decreases msg.instructions@.len() - i,
    {
        let ix = &msg.instructions[i];
        if ix.program_id_index > 255 || ix.accounts.len() > 0xFFFF || ix.data.len() > 0xFFFF {
            return false;
        }
        i = i + 1;
    }
    let mut i: usize = 0;
    while i < msg.address_table_lookups.len()
        invariant
            i <= msg.address_table_lookups@.len(),
            forall|j: int|
                0 <= j < i ==> (#[trigger] msg.address_table_lookups@[j]).writable_indexes@.len()
                    <= 0xFFFF && msg.address_table_lookups@[j].readonly_indexes@.len() <= 0xFFFF,
        decreases msg.address_table_lookups@.len() - i,
    {
        let l = &msg.address_table_lookups[i];
        if l.writable_indexes.len() > 0xFFFF || l.readonly_indexes.len() > 0xFFFF {
            return false;
        }
        i = i + 1;
    }
    true
}

fn build_message(msg: &RawMessage, h: RawHeader) -> (r: VersionedMsg)
    requires
        raw_msg_shape_ok(*msg, h),
    ensures
        r@ == spec_message(*msg, h),
        r.wf(),
{
    let ghost mv = spec_message(*msg, h);

    let mut keys: Vec<Pubkey> = Vec::new();
    let mut i: usize = 0;
    while i < msg.account_keys.len()
        invariant
            i <= msg.account_keys@.len(),
            keys@.len() == i,
            forall|j: int|
                0 <= j < i ==> (#[trigger] keys@[j])@ == key32(msg.account_keys@[j]@)
                    && keys@[j].wf(),
        decreases msg.account_keys@.len() - i,
    {
        keys.push(pubkey_from_wire(&msg.account_keys[i]));
        i = i + 1;
    }

    let mut instructions: Vec<CompiledIx> = Vec::new();
    let mut i: usize = 0;
    while i < msg.instructions.len()
        invariant
            i <= msg.instructions@.len(),
            instructions@.len() == i,
            raw_msg_shape_ok(*msg, h),
            forall|j: int|
                0 <= j < i ==> (#[trigger] instructions@[j])@ == (CompiledIxView {
                    program_id_index: msg.instructions@[j].program_id_index as u8,
                    accounts: msg.instructions@[j].accounts@,
                    data: msg.instructions@[j].data@,
                }),
        decreases msg.instructions@.len() - i,
    {
        let ix = &msg.instructions[i];
        instructions.push(
            CompiledIx {
                program_id_index: ix.program_id_index as u8,
                accounts: clone_bytes(&ix.accounts),
                data: clone_bytes(&ix.data),
            },
        );
        i = i + 1;
    }

    let mut lookups: Vec<AddressTableLookup> = Vec::new();
    let mut i: usize = 0;
    while i < msg.address_table_lookups.len()
        invariant
            i <= msg.address_table_lookups@.len(),
            lookups@.len() == i,
            forall|j: int|
                0 <= j < i ==> (#[trigger] lookups@[j])@ == (AddressTableLookupView {
                    account_key: key32(msg.address_table_lookups@[j].account_key@),
                    writable_indexes: msg.address_table_lookups@[j].writable_indexes@,
                    readonly_indexes: msg.address_table_lookups@[j].readonly_indexes@,
                }),
        decreases msg.address_table_lookups@.len() - i,
    {
        let l = &msg.address_table_lookups[i];
        lookups.push(
            AddressTableLookup {
                account_key: pubkey_from_wire(&l.account_key),
                writable_indexes: clone_bytes(&l.writable_indexes),
                readonly_indexes: clone_bytes(&l.readonly_indexes),
            },
        );
        i = i + 1;
    }

    let r = VersionedMsg {
        header: MsgHeader {
            num_required_signatures: h.num_required_signatures as u8,
            num_readonly_signed_accounts: h.num_readonly_signed_accounts as u8,
            num_readonly_unsigned_accounts: h.num_readonly_unsigned_accounts as u8,
        },
        account_keys: keys,
        recent_blockhash: clone_bytes(&msg.recent_blockhash),
        instructions,
        address_table_lookups: lookups,
    };
    assert(r@.account_keys =~= mv.account_keys);
    assert(r@.instructions =~= mv.instructions);
    assert(r@.address_table_lookups =~= mv.address_table_lookups);
    assert(r@ =~= mv);
    assert(wf_msg(r@));
    r
}

fn find_cu_limit(m: &VersionedMsg) -> (r: Option<u32>)
    ensures
        r == spec_cu_limit_from(m@, 0),
{
    let mut i: usize = 0;
    while i < m.instructions.len()
        invariant
            i <= m.instructions@.len(),
            m@.instructions.len() == m.instructions@.len(),
            spec_cu_limit_from(m@, 0) == spec_cu_limit_from(m@, i as int),
        decreases m.instructions@.len() - i,
    {
        let ix = &m.instructions[i];
        assert(m@.instructions[i as int] == ix@);
        let pidx = ix.program_id_index as usize;
        if pidx < m.account_keys.len() && is_compute_budget_key(&m.account_keys[pidx]) {
            assert(ix_targets(m@, i as int, compute_budget_program_id()));
            match parse_compute_budget(&ix.data) {
                Option::Some(ComputeBudgetIx::SetComputeUnitLimit(l)) => {
                    return Option::Some(l);
                },
                _ => {},
            }
        }
        assert(spec_cu_limit_from(m@, i as int) == spec_cu_limit_from(m@, i + 1));
        i = i + 1;
    }
    Option::None
}

fn find_cu_price(m: &VersionedMsg) -> (r: Option<u64>)
    ensures
        r == spec_cu_price_from(m@, 0),
{
    let mut i: usize = 0;
    while i < m.instructions.len()
        invariant
            i <= m.instructions@.len(),
            m@.instructions.len() == m.instructions@.len(),
            spec_cu_price_from(m@, 0) == spec_cu_price_from(m@, i as int),
        decreases m.instructions@.len() - i,
    {
        let ix = &m.instructions[i];
        assert(m@.instructions[i as int] == ix@);
        let pidx = ix.program_id_index as usize;
        if pidx < m.account_keys.len() && is_compute_budget_key(&m.account_keys[pidx]) {
            assert(ix_targets(m@, i as int, compute_budget_program_id()));
            match parse_compute_budget(&ix.data) {
                Option::Some(ComputeBudgetIx::SetComputeUnitPrice(p)) => {
                    return Option::Some(p);
                },
                _ => {},
            }
        }
        assert(spec_cu_price_from(m@, i as int) == spec_cu_price_from(m@, i + 1));
        i = i + 1;
    }
    Option::None
}

fn find_legacy(m: &VersionedMsg) -> (r: Option<(u32, u32)>)
    ensures
        r == spec_legacy_from(m@, 0),
{
    let mut i: usize = 0;
    while i < m.instructions.len()
        invariant
            i <= m.instructions@.len(),
            m@.instructions.len() == m.instructions@.len(),
            spec_legacy_from(m@, 0) == spec_legacy_from(m@, i as int),
        decreases m.instructions@.len() - i,
    {
        let ix = &m.instructions[i];
        assert(m@.instructions[i as int] == ix@);
        let pidx = ix.program_id_index as usize;
        if pidx < m.account_keys.len() && is_compute_budget_key(&m.account_keys[pidx]) {
            assert(ix_targets(m@, i as int, compute_budget_program_id()));
            match parse_compute_budget(&ix.data) {
                Option::Some(ComputeBudgetIx::RequestUnitsDeprecated { units, additional_fee }) => {
                    return Option::Some((units, additional_fee));
                },
                _ => {},
            }
        }
        assert(spec_legacy_from(m@, i as int) == spec_legacy_from(m@, i + 1));
        i = i + 1;
    }
    Option::None
}

fn find_is_vote(m: &VersionedMsg) -> (r: bool)
    ensures
        r == spec_is_vote_from(m@, 0),
{
    let mut i: usize = 0;
    while i < m.instructions.len()
        invariant
            i <= m.instructions@.len(),
            m@.instructions.len() == m.instructions@.len(),
            spec_is_vote_from(m@, 0) == spec_is_vote_from(m@, i as int),
        decreases m.instructions@.len() - i,
    {
        let ix = &m.instructions[i];
        assert(m@.instructions[i as int] == ix@);
        let pidx = ix.program_id_index as usize;
        if pidx < m.account_keys.len() && is_vote_program_key(&m.account_keys[pidx]) {
            assert(ix_targets(m@, i as int, vote_program_id()));
            if data_is_simple_vote(&ix.data) {
                return true;
            }
        }
        assert(spec_is_vote_from(m@, i as int) == spec_is_vote_from(m@, i + 1));
        i = i + 1;
    }
    false
}

fn partition_accounts(keys: &Vec<Pubkey>, h: MsgHeader) -> (r: (Vec<Pubkey>, Vec<Pubkey>))
    requires
        forall|j: int| 0 <= j < keys@.len() ==> (#[trigger] keys@[j]).wf(),
    ensures
        r.0@.map_values(|k: Pubkey| k@) == spec_readable_upto(
            keys@.map_values(|k: Pubkey| k@),
            h,
            keys@.len() as int,
        ),
        r.1@.map_values(|k: Pubkey| k@) == spec_writable_upto(
            keys@.map_values(|k: Pubkey| k@),
            h,
            keys@.len() as int,
        ),
        forall|j: int| 0 <= j < r.0@.len() ==> (#[trigger] r.0@[j]).wf(),
        forall|j: int| 0 <= j < r.1@.len() ==> (#[trigger] r.1@[j]).wf(),
{
    let ghost kv = keys@.map_values(|k: Pubkey| k@);
    let req = h.num_required_signatures as usize;
    let ros = h.num_readonly_signed_accounts as usize;
    let rou = h.num_readonly_unsigned_accounts as usize;
    let nk = keys.len();
    let mut readable: Vec<Pubkey> = Vec::new();
    let mut writable: Vec<Pubkey> = Vec::new();
    let mut i: usize = 0;
    while i < nk
        invariant
            i <= nk,
            nk == keys@.len(),
            kv == keys@.map_values(|k: Pubkey| k@),
            req == h.num_required_signatures,
            ros == h.num_readonly_signed_accounts,
            rou == h.num_readonly_unsigned_accounts,
            forall|j: int| 0 <= j < keys@.len() ==> (#[trigger] keys@[j]).wf(),
            readable@.map_values(|k: Pubkey| k@) == spec_readable_upto(kv, h, i as int),
            writable@.map_values(|k: Pubkey| k@) == spec_writable_upto(kv, h, i as int),
            forall|j: int| 0 <= j < readable@.len() ==> (#[trigger] readable@[j]).wf(),
            forall|j: int| 0 <= j < writable@.len() ==> (#[trigger] writable@[j]).wf(),
        decreases nk - i,
    {
        let w = (req > ros && i < req - ros) || (i >= req && nk > rou && i < nk - rou);
        assert(w == spec_writable_index(h, kv.len() as int, i as int));
        let k = Pubkey { bytes: clone_bytes(&keys[i].bytes) };
        assert(k@ == kv[i as int]);
        if w {
            writable.push(k);
            assert(writable@.map_values(|k: Pubkey| k@) =~= spec_writable_upto(kv, h, i + 1));
            assert(readable@.map_values(|k: Pubkey| k@) =~= spec_readable_upto(kv, h, i + 1));
        } else {
            readable.push(k);
            assert(writable@.map_values(|k: Pubkey| k@) =~= spec_writable_upto(kv, h, i + 1));
            assert(readable@.map_values(|k: Pubkey| k@) =~= spec_readable_upto(kv, h, i + 1));
        }
        i = i + 1;
    }
    (readable, writable)
}

fn decode_rewards(rs: &Vec<RawReward>) -> (r: Vec<Reward>)
    ensures
        r@.map_values(|x: Reward| x@) == rs@.map_values(|raw: RawReward| spec_reward(raw)),
{
    let mut out: Vec<Reward> = Vec::new();
    let mut i: usize = 0;
    while i < rs.len()
        invariant
            i <= rs@.len(),
            out@.len() == i,
            forall|j: int| 0 <= j < i ==> (#[trigger] out@[j])@ == spec_reward(rs@[j]),
        decreases rs@.len() - i,
    {
        let raw = &rs[i];
        let reward_type: Option<RewardType> = if raw.reward_type == 1 {
            Option::Some(RewardType::Fee)
        } else if raw.reward_type == 2 {
            Option::Some(RewardType::Rent)
        } else if raw.reward_type == 3 {
            Option::Some(RewardType::Staking)
        } else if raw.reward_type == 4 {
            Option::Some(RewardType::Voting)
        } else {
            Option::None
        };
        out.push(
            Reward {
                pubkey: raw.pubkey.clone(),
                lamports: raw.lamports,
                post_balance: raw.post_balance,
                reward_type,
                commission: Option::None,
            },
        );
        i = i + 1;
    }
    assert(out@.map_values(|x: Reward| x@) =~= rs@.map_values(|raw: RawReward| spec_reward(raw)));
    out
}

fn find_leader(rs: &Vec<RawReward>) -> (r: Option<String>)
    ensures
        match r {
            Option::None => spec_first_fee_from(rs@, 0) is None,
            Option::Some(s) => spec_first_fee_from(rs@, 0) == Option::Some(s@),
        },
{
    let mut i: usize = 0;
    while i < rs.len()
        invariant
            i <= rs@.len(),
            spec_first_fee_from(rs@, 0) == spec_first_fee_from(rs@, i as int),
        decreases rs@.len() - i,
    {
        let raw = &rs[i];
        if raw.reward_type == 1 {
            return Option::Some(raw.pubkey.clone());
        }
        assert(spec_first_fee_from(rs@, i as int) == spec_first_fee_from(rs@, i + 1));
        i = i + 1;
    }
    Option::None
}

/// The view through which the decoder's result is pinned to its
/// specification.
pub open spec fn tx_result_view(r: Result<Option<TransactionInfo>, BlockDecodeError>) -> Result<
    Option<TransactionInfoView>,
    BlockDecodeError,
> {
    match r {
        Result::Ok(Option::None) => Result::Ok(Option::None),
        Result::Ok(Option::Some(t)) => Result::Ok(Option::Some(t@)),
        Result::Err(e) => Result::Err(e),
    }
}

#[verifier::rlimit(100)]
fn decode_transaction(env: &RawTransactionEnvelope) -> (r: Result<
    Option<TransactionInfo>,
    BlockDecodeError,
>)
    ensures
        tx_result_view(r) == spec_decode_tx(*env),
        r matches Ok(Some(t)) ==> t.wf(),
{
    let meta = match &env.meta {
        Option::Some(m) => m,
        Option::None => {
            return Result::Ok(Option::None);
        },
    };
    let tx = match &env.transaction {
        Option::Some(t) => t,
        Option::None => {
            return Result::Ok(Option::None);
        },
    };
    let msg = match &tx.message {
        Option::Some(m) => m,
        Option::None => {
            return Result::Ok(Option::None);
        },
    };
    let h = match &msg.header {
        Option::Some(hh) => *hh,
        Option::None => {
            return Result::Ok(Option::None);
        },
    };
    let err: Option<EncodedTransactionError> = match &meta.err {
        Option::Some(eb) => {
            if !transaction_error_decodes(eb) {
                return Result::Err(BlockDecodeError::MalformedTransactionError);
            }
            Option::Some(EncodedTransactionError { encoded: clone_bytes(eb) })
        },
        Option::None => Option::None,
    };
    if tx.signatures.len() == 0 {
        return Result::Ok(Option::None);
    }
    if tx.signatures[0].len() != 64 {
        return Result::Ok(Option::None);
    }
    if !check_shape(msg, h) {
        return Result::Ok(Option::None);
    }

    let vmsg = build_message(msg, h);
    let ghost mv = spec_message(*msg, h);
    let signature = signature_to_base58(&tx.signatures[0]);
    let cu_limit = find_cu_limit(&vmsg);
    let legacy = find_legacy(&vmsg);
    let cu_price = find_cu_price(&vmsg);
    let is_vote = find_is_vote(&vmsg);
    let cu_requested: Option<u32> = match cu_limit {
        Option::Some(l) => Option::Some(l),
        Option::None => match legacy {
            Option::Some((units, _)) => Option::Some(units),
            Option::None => Option::None,
        },
    };
    let legacy_fee: Option<u64> = match legacy {
        Option::Some((units, additional_fee)) => if additional_fee > 0 {
            Option::Some(legacy_prioritization_fee(units, additional_fee))
        } else {
            Option::None
        },
        Option::None => Option::None,
    };
    let prioritization_fees: Option<u64> = match cu_price {
        Option::Some(p) => Option::Some(p),
        Option::None => legacy_fee,
    };
    let recent_blockhash = hash_to_base58(&vmsg.recent_blockhash);
    let ser = serialize_message(&vmsg);
    let message = encode_base64(&ser);
    proof {
        assert forall|j: int| 0 <= j < vmsg.account_keys@.len() implies (
        #[trigger] vmsg.account_keys@[j]).wf() by {
            assert(vmsg@.account_keys[j] == vmsg.account_keys@[j]@);
            assert(vmsg@.account_keys[j].len() == 32);
        }
    }
    let (readable_accounts, writable_accounts) = partition_accounts(&vmsg.account_keys, vmsg.header);
    let out = TransactionInfo {
        signature,
        is_vote,
        err,
        cu_requested,
        prioritization_fees,
        cu_consumed: meta.compute_units_consumed,
        recent_blockhash,
        message,
        readable_accounts,
        writable_accounts,
        address_lookup_tables: vmsg.address_table_lookups,
    };
    proof {
        let sv = spec_tx_view(*meta, *tx, *msg, h);
        assert(vmsg@.account_keys.len() == vmsg.account_keys@.len());
        assert(vmsg.account_keys@.map_values(|k: Pubkey| k@) =~= mv.account_keys);
        assert(out@.readable_accounts == sv.readable_accounts);
        assert(out@.writable_accounts == sv.writable_accounts);
        assert(out@ =~= sv);
    }
    Result::Ok(Option::Some(out))
}

proof fn lemma_txs_err_persists(envs: Seq<RawTransactionEnvelope>, i: int, j: int)
    requires
        0 <= i <= j <= envs.len(),
        spec_txs_upto(envs, i) is Err,
    ensures
        spec_txs_upto(envs, j) == spec_txs_upto(envs, i),
    decreases j - i,
{
    if i < j {
        lemma_txs_err_persists(envs, i, j - 1);
    }
}

/// Decodes one raw streaming block update into the canonical block.
///
/// Pure and total: the result is a function of the raw update and the
/// caller-asserted commitment tag alone. Envelopes with missing layers or
/// wire-format violations are dropped; missing height or time, and carried
/// transaction errors that do not decode, fail the whole block.
#[verifier::rlimit(100)]
pub fn from_grpc_block_update(block: RawBlockUpdate, commitment_config: CommitmentLevel) -> (r:
    Result<ProducedBlock, BlockDecodeError>)
    ensures
        match r {
            Result::Ok(b) => spec_decode(block, commitment_config) == Result::<
                ProducedBlockView,
                BlockDecodeError,
            >::Ok(b@) && b.wf(),
            Result::Err(e) => spec_decode(block, commitment_config) == Result::<
                ProducedBlockView,
                BlockDecodeError,
            >::Err(e),
        },
{
    let block_height = match block.block_height {
        Option::Some(height) => height,
        Option::None => {
            return Result::Err(BlockDecodeError::MissingBlockHeight);
        },
    };
    let block_time = match block.block_time {
        Option::Some(t) => t,
        Option::None => {
            return Result::Err(BlockDecodeError::MissingBlockTime);
        },
    };
    if block_time < 0 {
        return Result::Err(BlockDecodeError::NegativeBlockTime);
    }

    let ghost envs = block.transactions@;
    let mut transactions: Vec<TransactionInfo> = Vec::new();
    proof {
        assert(transactions@.map_values(|t: TransactionInfo| t@) =~= Seq::<
            TransactionInfoView,
        >::empty());
    }
    let mut i: usize = 0;
    while i < block.transactions.len()
        invariant
            i <= envs.len(),
            envs == block.transactions@,
            block.block_height == Option::Some(block_height),
            block.block_time == Option::Some(block_time),
            !(block_time < 0),
            spec_txs_upto(envs, i as int) == Result::<
                Seq<TransactionInfoView>,
                BlockDecodeError,
            >::Ok(transactions@.map_values(|t: TransactionInfo| t@)),
            forall|j: int| 0 <= j < transactions@.len() ==> (#[trigger] transactions@[j]).wf(),
        decreases envs.len() - i,
    {
        match decode_transaction(&block.transactions[i]) {
            Result::Ok(Option::None) => {
                assert(spec_txs_upto(envs, i + 1) == spec_txs_upto(envs, i as int));
            },
            Result::Ok(Option::Some(t)) => {
                transactions.push(t);
                assert(transactions@.map_values(|t: TransactionInfo| t@) =~= spec_txs_upto(
                    envs,
                    i + 1,
                )->Ok_0);
            },
            Result::Err(e) => {
                proof {
                    assert(spec_decode_tx(envs[i as int]) == Result::<
                        Option<TransactionInfoView>,
                        BlockDecodeError,
                    >::Err(e));
                    assert(spec_txs_upto(envs, i + 1) == Result::<
                        Seq<TransactionInfoView>,
                        BlockDecodeError,
                    >::Err(e));
                    lemma_txs_err_persists(envs, i + 1, envs.len() as int);
                    assert(spec_txs_upto(block.transactions@, block.transactions@.len() as int)
                        == Result::<Seq<TransactionInfoView>, BlockDecodeError>::Err(e));
                    assert(spec_decode(block, commitment_config) == Result::<
                        ProducedBlockView,
                        BlockDecodeError,
                    >::Err(e));
                }
                return Result::Err(e);
            },
        }
        i = i + 1;
    }

    let rewards: Option<Vec<Reward>> = match &block.rewards {
        Option::Some(rr) => Option::Some(decode_rewards(&rr.rewards)),
        Option::None => Option::None,
    };
    let leader_id: Option<String> = match &block.rewards {
        Option::Some(rr) => find_leader(&rr.rewards),
        Option::None => Option::None,
    };

    let b = ProducedBlock {
        transactions,
        leader_id,
        blockhash: block.blockhash,
        previous_blockhash: block.parent_blockhash,
        parent_slot: block.parent_slot,
        slot: block.slot,
        block_height,
        block_time: block_time as u64,
        commitment_config,
        rewards,
    };
    proof {
        let sd = spec_decode(block, commitment_config);
        assert(sd is Ok);
        assert(b@ =~= sd->Ok_0);
    }
    Result::Ok(b)
}

} // verus!
