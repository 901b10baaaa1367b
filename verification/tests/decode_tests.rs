use base64::Engine;
use cluster_endpoints::decode::from_grpc_block_update;
use cluster_endpoints::keys::Pubkey;
use cluster_endpoints::message::deserialize_message;
use cluster_endpoints::message::serialize_message;
use cluster_endpoints::message::AddressTableLookup;
use cluster_endpoints::message::CompiledIx;
use cluster_endpoints::message::MsgHeader;
use cluster_endpoints::message::VersionedMsg;
use cluster_endpoints::produced::BlockDecodeError;
use cluster_endpoints::produced::CommitmentLevel;
use cluster_endpoints::produced::RewardType;
use cluster_endpoints::wire::RawAddressTableLookup;
use cluster_endpoints::wire::RawBlockUpdate;
use cluster_endpoints::wire::RawHeader;
use cluster_endpoints::wire::RawInstruction;
use cluster_endpoints::wire::RawMessage;
use cluster_endpoints::wire::RawReward;
use cluster_endpoints::wire::RawRewards;
use cluster_endpoints::wire::RawTransaction;
use cluster_endpoints::wire::RawTransactionEnvelope;
use cluster_endpoints::wire::RawTransactionMeta;

fn valid_sig() -> Vec<u8> {
    vec![7u8; 64]
}

fn cb_key() -> Vec<u8> {
    solana_sdk::compute_budget::id().to_bytes().to_vec()
}

fn vote_key() -> Vec<u8> {
    solana_sdk::vote::program::id().to_bytes().to_vec()
}

fn ix_set_cu_limit(limit: u32) -> Vec<u8> {
    let mut d = vec![2u8];
    d.extend_from_slice(&limit.to_le_bytes());
    d
}

fn ix_set_cu_price(price: u64) -> Vec<u8> {
    let mut d = vec![3u8];
    d.extend_from_slice(&price.to_le_bytes());
    d
}

fn ix_request_units(units: u32, additional_fee: u32) -> Vec<u8> {
    let mut d = vec![0u8];
    d.extend_from_slice(&units.to_le_bytes());
    d.extend_from_slice(&additional_fee.to_le_bytes());
    d
}

fn envelope(keys: Vec<Vec<u8>>, instructions: Vec<RawInstruction>) -> RawTransactionEnvelope {
    RawTransactionEnvelope {
        meta: Some(RawTransactionMeta {
            err: None,
            compute_units_consumed: Some(42),
        }),
        transaction: Some(RawTransaction {
            signatures: vec![valid_sig()],
            message: Some(RawMessage {
                header: Some(RawHeader {
                    num_required_signatures: 1,
                    num_readonly_signed_accounts: 0,
                    num_readonly_unsigned_accounts: 1,
                }),
                account_keys: keys,
                recent_blockhash: vec![1u8; 32],
                instructions,
                address_table_lookups: vec![],
            }),
        }),
    }
}

fn block(txs: Vec<RawTransactionEnvelope>, rewards: Option<RawRewards>) -> RawBlockUpdate {
    RawBlockUpdate {
        slot: 5,
        blockhash: "someblockhash".to_string(),
        parent_slot: 4,
        parent_blockhash: "parenthash".to_string(),
        block_height: Some(100),
        block_time: Some(1_700_000_000),
        transactions: txs,
        rewards,
    }
}

#[test]
fn decode_is_deterministic() {
    let b = block(
        vec![envelope(vec![vec![9u8; 32], cb_key()], vec![RawInstruction {
            program_id_index: 1,
            accounts: vec![],
            data: ix_set_cu_limit(7_000),
        }])],
        Some(RawRewards {
            rewards: vec![RawReward {
                pubkey: "leaderkey".to_string(),
                lamports: 5,
                post_balance: 10,
                reward_type: 1,
            }],
        }),
    );
    let r1 = from_grpc_block_update(b.clone(), CommitmentLevel::Confirmed).unwrap();
    let r2 = from_grpc_block_update(b, CommitmentLevel::Confirmed).unwrap();
    assert_eq!(r1, r2);
}

#[test]
fn missing_block_height_is_fatal() {
    let mut b = block(vec![], None);
    b.block_height = None;
    let r = from_grpc_block_update(b, CommitmentLevel::Processed);
    assert_eq!(r, Err(BlockDecodeError::MissingBlockHeight));
}

#[test]
fn missing_block_time_is_fatal() {
    let mut b = block(vec![], None);
    b.block_time = None;
    let r = from_grpc_block_update(b, CommitmentLevel::Processed);
    assert_eq!(r, Err(BlockDecodeError::MissingBlockTime));
}

#[test]
fn envelope_without_meta_is_dropped_but_siblings_decode() {
    let mut broken = envelope(vec![vec![9u8; 32]], vec![]);
    broken.meta = None;
    let good = envelope(vec![vec![8u8; 32]], vec![]);
    let b = block(vec![broken, good], None);
    let r = from_grpc_block_update(b, CommitmentLevel::Finalized).unwrap();
    assert_eq!(r.transactions.len(), 1);
    assert_eq!(r.transactions[0].writable_accounts[0].bytes, vec![8u8; 32]);
}

#[test]
fn leader_comes_from_fee_reward() {
    let rewards = RawRewards {
        rewards: vec![
            RawReward {
                pubkey: "staker".to_string(),
                lamports: 1,
                post_balance: 1,
                reward_type: 3,
            },
            RawReward {
                pubkey: "theleader".to_string(),
                lamports: 2,
                post_balance: 2,
                reward_type: 1,
            },
        ],
    };
    let r = from_grpc_block_update(block(vec![], Some(rewards)), CommitmentLevel::Confirmed)
        .unwrap();
    assert_eq!(r.leader_id, Some("theleader".to_string()));
    let decoded = r.rewards.unwrap();
    assert_eq!(decoded[0].reward_type, Some(RewardType::Staking));
    assert_eq!(decoded[1].reward_type, Some(RewardType::Fee));
    assert_eq!(decoded[1].commission, None);
}

#[test]
fn no_fee_reward_leaves_leader_unset() {
    let rewards = RawRewards {
        rewards: vec![RawReward {
            pubkey: "voterly".to_string(),
            lamports: 1,
            post_balance: 1,
            reward_type: 4,
        }],
    };
    let r = from_grpc_block_update(block(vec![], Some(rewards)), CommitmentLevel::Confirmed)
        .unwrap();
    assert_eq!(r.leader_id, None);
    assert_eq!(r.rewards.unwrap()[0].reward_type, Some(RewardType::Voting));
}

#[test]
fn legacy_fee_formula_exact() {
    let env = envelope(vec![vec![9u8; 32], cb_key()], vec![RawInstruction {
        program_id_index: 1,
        accounts: vec![],
        data: ix_request_units(1000, 500),
    }]);
    let r = from_grpc_block_update(block(vec![env], None), CommitmentLevel::Confirmed).unwrap();
    assert_eq!(r.transactions[0].cu_requested, Some(1000));
    assert_eq!(r.transactions[0].prioritization_fees, Some(2000));
}

#[test]
fn legacy_zero_fee_gives_no_fee() {
    let env = envelope(vec![vec![9u8; 32], cb_key()], vec![RawInstruction {
        program_id_index: 1,
        accounts: vec![],
        data: ix_request_units(1000, 0),
    }]);
    let r = from_grpc_block_update(block(vec![env], None), CommitmentLevel::Confirmed).unwrap();
    assert_eq!(r.transactions[0].cu_requested, Some(1000));
    assert_eq!(r.transactions[0].prioritization_fees, None);
}

#[test]
fn current_price_beats_legacy_fee() {
    let env = envelope(vec![vec![9u8; 32], cb_key()], vec![
        RawInstruction {
            program_id_index: 1,
            accounts: vec![],
            data: ix_request_units(1000, 500),
        },
        RawInstruction {
            program_id_index: 1,
            accounts: vec![],
            data: ix_set_cu_price(777),
        },
    ]);
    let r = from_grpc_block_update(block(vec![env], None), CommitmentLevel::Confirmed).unwrap();
    assert_eq!(r.transactions[0].prioritization_fees, Some(777));
}

#[test]
fn writable_readable_partition() {
    let k0 = vec![10u8; 32];
    let k1 = vec![11u8; 32];
    let k2 = vec![12u8; 32];
    let k3 = vec![13u8; 32];
    let mut env = envelope(vec![k0.clone(), k1.clone(), k2.clone(), k3.clone()], vec![]);
    if let Some(tx) = env.transaction.as_mut() {
        if let Some(msg) = tx.message.as_mut() {
            msg.header = Some(RawHeader {
                num_required_signatures: 2,
                num_readonly_signed_accounts: 1,
                num_readonly_unsigned_accounts: 1,
            });
        }
    }
    let r = from_grpc_block_update(block(vec![env], None), CommitmentLevel::Confirmed).unwrap();
    let tx = &r.transactions[0];
    let writable: Vec<Vec<u8>> = tx.writable_accounts.iter().map(|k| k.bytes.clone()).collect();
    let readable: Vec<Vec<u8>> = tx.readable_accounts.iter().map(|k| k.bytes.clone()).collect();
    assert_eq!(writable, vec![k0.clone(), k2.clone()]);
    assert_eq!(readable, vec![k1.clone(), k3.clone()]);
    for k in &writable {
        assert!(!readable.contains(k));
    }
    let mut all = writable.clone();
    all.extend(readable.clone());
    for k in [&k0, &k1, &k2, &k3] {
        assert!(all.contains(k));
    }
    assert_eq!(all.len(), 4);
}

#[test]
fn malformed_transaction_error_is_fatal() {
    let mut env = envelope(vec![vec![9u8; 32]], vec![]);
    env.meta = Some(RawTransactionMeta {
        err: Some(vec![255u8, 255, 255, 255]),
        compute_units_consumed: None,
    });
    let r = from_grpc_block_update(block(vec![env], None), CommitmentLevel::Confirmed);
    assert_eq!(r, Err(BlockDecodeError::MalformedTransactionError));
}

#[test]
fn transaction_error_is_carried() {
    let err_bytes =
        bincode::serialize(&solana_sdk::transaction::TransactionError::AccountInUse).unwrap();
    let mut env = envelope(vec![vec![9u8; 32]], vec![]);
    env.meta = Some(RawTransactionMeta {
        err: Some(err_bytes.clone()),
        compute_units_consumed: Some(9),
    });
    let r = from_grpc_block_update(block(vec![env], None), CommitmentLevel::Confirmed).unwrap();
    let carried = r.transactions[0].err.as_ref().unwrap();
    assert_eq!(carried.encoded, err_bytes);
    assert_eq!(
        bincode::deserialize::<solana_sdk::transaction::TransactionError>(&carried.encoded)
            .unwrap(),
        solana_sdk::transaction::TransactionError::AccountInUse
    );
    assert_eq!(r.transactions[0].cu_consumed, Some(9));
}

#[test]
fn vote_transaction_classified() {
    let vote = solana_sdk::vote::state::Vote {
        slots: vec![100],
        hash: solana_sdk::hash::Hash::default(),
        timestamp: None,
    };
    let data =
        bincode::serialize(&solana_sdk::vote::instruction::VoteInstruction::Vote(vote)).unwrap();
    let env = envelope(vec![vec![9u8; 32], vote_key()], vec![RawInstruction {
        program_id_index: 1,
        accounts: vec![0],
        data,
    }]);
    let r = from_grpc_block_update(block(vec![env], None), CommitmentLevel::Processed).unwrap();
    assert!(r.transactions[0].is_vote);
}

#[test]
fn garbage_vote_data_is_not_a_vote() {
    let env = envelope(vec![vec![9u8; 32], vote_key()], vec![RawInstruction {
        program_id_index: 1,
        accounts: vec![0],
        data: vec![250, 1, 2],
    }]);
    let r = from_grpc_block_update(block(vec![env], None), CommitmentLevel::Processed).unwrap();
    assert!(!r.transactions[0].is_vote);
}

#[test]
fn malformed_account_key_degrades_to_zero() {
    let env = envelope(vec![vec![9u8; 3]], vec![]);
    let r = from_grpc_block_update(block(vec![env], None), CommitmentLevel::Confirmed).unwrap();
    assert_eq!(r.transactions[0].writable_accounts[0].bytes, vec![0u8; 32]);
}

#[test]
fn invalid_first_signature_drops_transaction() {
    let mut env = envelope(vec![vec![9u8; 32]], vec![]);
    if let Some(tx) = env.transaction.as_mut() {
        tx.signatures = vec![vec![1u8; 10], valid_sig()];
    }
    let mut env2 = envelope(vec![vec![9u8; 32]], vec![]);
    if let Some(tx) = env2.transaction.as_mut() {
        tx.signatures = vec![];
    }
    let r = from_grpc_block_update(block(vec![env, env2], None), CommitmentLevel::Confirmed)
        .unwrap();
    assert_eq!(r.transactions.len(), 0);
}

#[test]
fn signature_and_blockhash_shown_in_base58() {
    let env = envelope(vec![vec![9u8; 32]], vec![]);
    let r = from_grpc_block_update(block(vec![env], None), CommitmentLevel::Confirmed).unwrap();
    let expected_sig = solana_sdk::signature::Signature::try_from(&[7u8; 64][..])
        .unwrap()
        .to_string();
    let expected_hash = solana_sdk::hash::Hash::new_from_array([1u8; 32]).to_string();
    assert_eq!(r.transactions[0].signature, expected_sig);
    assert_eq!(r.transactions[0].recent_blockhash, expected_hash);
}

#[test]
fn header_count_above_wire_limit_drops_envelope() {
    let mut env = envelope(vec![vec![9u8; 32]], vec![]);
    if let Some(tx) = env.transaction.as_mut() {
        if let Some(msg) = tx.message.as_mut() {
            msg.header = Some(RawHeader {
                num_required_signatures: 256,
                num_readonly_signed_accounts: 0,
                num_readonly_unsigned_accounts: 0,
            });
        }
    }
    let r = from_grpc_block_update(block(vec![env], None), CommitmentLevel::Confirmed).unwrap();
    assert_eq!(r.transactions.len(), 0);
}

fn sample_message() -> VersionedMsg {
    VersionedMsg {
        header: MsgHeader {
            num_required_signatures: 1,
            num_readonly_signed_accounts: 0,
            num_readonly_unsigned_accounts: 1,
        },
        account_keys: vec![Pubkey { bytes: vec![9u8; 32] }, Pubkey { bytes: vec![4u8; 32] }],
        recent_blockhash: vec![1u8; 32],
        instructions: vec![CompiledIx {
            program_id_index: 1,
            accounts: vec![0, 1],
            data: vec![5, 6, 7],
        }],
        address_table_lookups: vec![AddressTableLookup {
            account_key: Pubkey { bytes: vec![3u8; 32] },
            writable_indexes: vec![0],
            readonly_indexes: vec![1, 2],
        }],
    }
}

#[test]
fn message_serialization_round_trips() {
    let m = sample_message();
    let bytes = serialize_message(&m);
    assert_eq!(bytes[0], 0x80);
    let m2 = deserialize_message(&bytes).unwrap();
    assert_eq!(m2, m);
    let bytes2 = serialize_message(&m2);
    assert_eq!(bytes2, bytes);
}

#[test]
fn decoded_message_text_round_trips() {
    let env = envelope(vec![vec![9u8; 32], cb_key()], vec![RawInstruction {
        program_id_index: 1,
        accounts: vec![0],
        data: ix_set_cu_limit(123),
    }]);
    let r = from_grpc_block_update(block(vec![env], None), CommitmentLevel::Confirmed).unwrap();
    let text = &r.transactions[0].message;
    let bytes = base64::engine::general_purpose::STANDARD
        .decode(text)
        .unwrap();
    let m = deserialize_message(&bytes).unwrap();
    assert_eq!(m.account_keys[0].bytes, vec![9u8; 32]);
    assert_eq!(m.account_keys[1].bytes, cb_key());
    assert_eq!(m.instructions[0].program_id_index, 1);
    assert_eq!(m.instructions[0].data, ix_set_cu_limit(123));
    assert_eq!(serialize_message(&m), bytes);
}

#[test]
fn decoded_message_matches_solana_wire_format() {
    let env = envelope(vec![vec![9u8; 32]], vec![]);
    let r = from_grpc_block_update(block(vec![env], None), CommitmentLevel::Confirmed).unwrap();
    let text = &r.transactions[0].message;
    let bytes = base64::engine::general_purpose::STANDARD
        .decode(text)
        .unwrap();
    let vm: solana_sdk::message::VersionedMessage = bincode::deserialize(&bytes).unwrap();
    match &vm {
        solana_sdk::message::VersionedMessage::V0(m) => {
            assert_eq!(m.account_keys.len(), 1);
            assert_eq!(m.account_keys[0].to_bytes(), [9u8; 32]);
            assert_eq!(m.header.num_required_signatures, 1);
            assert_eq!(
                m.recent_blockhash,
                solana_sdk::hash::Hash::new_from_array([1u8; 32])
            );
        }
        other => panic!("expected a v0 message, got {:?}", other),
    }
    assert_eq!(vm.serialize(), bytes);
}

#[test]
fn unknown_reward_tag_maps_to_no_type() {
    let rewards = RawRewards {
        rewards: vec![RawReward {
            pubkey: "whoever".to_string(),
            lamports: 0,
            post_balance: 0,
            reward_type: 77,
        }],
    };
    let r = from_grpc_block_update(block(vec![], Some(rewards)), CommitmentLevel::Confirmed)
        .unwrap();
    assert_eq!(r.rewards.unwrap()[0].reward_type, None);
    assert_eq!(r.leader_id, None);
}

#[test]
fn deserializer_rejects_trailing_bytes() {
    let mut bytes = serialize_message(&sample_message());
    bytes.push(0);
    assert!(deserialize_message(&bytes).is_none());
}

#[test]
fn deserializer_rejects_wrong_version_prefix() {
    let mut bytes = serialize_message(&sample_message());
    bytes[0] = 0x81;
    assert!(deserialize_message(&bytes).is_none());
}
