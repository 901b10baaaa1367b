use vstd::prelude::*;
use crate::produced::ProducedBlock;

verus! {

/// A slot progress notification: the slot just processed and the estimate
/// of where the chain tip stands.
#[derive(Debug, Clone, Copy, PartialEq, Eq, Structural)]
pub struct SlotNotification {
    pub processed_slot: u64,
    pub estimated_processed_slot: u64,
}

/// One account filter: explicit account keys and/or a program id, as
/// base58 text. The composer reads only whether any filter is present.
#[derive(Debug, Clone, PartialEq, Eq)]
pub struct AccountFilter {
    pub accounts: Vec<String>,
    pub program_id: Option<String>,
}

pub type AccountFilters = Vec<AccountFilter>;

#[verifier::external_type_specification]
#[verifier::external_body]
#[verifier::reject_recursive_types(T)]
pub struct ExBroadcastSender<T>(tokio::sync::broadcast::Sender<T>);

#[verifier::external_type_specification]
#[verifier::external_body]
#[verifier::reject_recursive_types(T)]
pub struct ExBroadcastReceiver<T>(tokio::sync::broadcast::Receiver<T>);

#[verifier::external_type_specification]
#[verifier::external_body]
#[verifier::reject_recursive_types(T)]
pub struct ExJoinHandle<T>(tokio::task::JoinHandle<T>);

#[verifier::external_type_specification]
#[verifier::external_body]
pub struct ExJoinError(tokio::task::JoinError);

#[verifier::external_type_specification]
#[verifier::external_body]
pub struct ExAnyhowError(anyhow::Error);

/// A supervised background task that reports its own failure.
pub type TaskHandle = tokio::task::JoinHandle<Result<(), anyhow::Error>>;

/// Relies on tokio's broadcast channel constructor: a single-producer,
/// multi-consumer channel of the given buffer capacity, whose slow
/// consumers miss items rather than block the producer. Its documentation
/// has it panic on a zero capacity, so that input is kept out.
#[verifier::external_body]
fn broadcast_channel<T: Clone>(capacity: usize) -> (r: (
    tokio::sync::broadcast::Sender<T>,
    tokio::sync::broadcast::Receiver<T>,
))
    requires
        1 <= capacity <= 0x7FFFFFFF,
{
    tokio::sync::broadcast::channel(capacity)
}

/// The buffer capacity of the two polling channels.
pub const POLLING_CHANNEL_CAPACITY: usize = 10;

/// The producer and consumer ends of the two polling channels the composer
/// always creates: cluster info and vote accounts. The senders go to the
/// caller's polling tasks; each channel keeps its single producer.
#[verifier::reject_recursive_types(CI)]
#[verifier::reject_recursive_types(VA)]
pub struct PollingChannels<CI, VA> {
    pub cluster_info_sender: tokio::sync::broadcast::Sender<CI>,
    pub cluster_info_receiver: tokio::sync::broadcast::Receiver<CI>,
    pub vote_account_sender: tokio::sync::broadcast::Sender<VA>,
    pub vote_account_receiver: tokio::sync::broadcast::Receiver<VA>,
}

/// Creates the two fixed-capacity polling channels.
pub fn create_polling_channels<CI: Clone, VA: Clone>() -> PollingChannels<CI, VA> {
    let (cluster_info_sender, cluster_info_receiver) = broadcast_channel(
        POLLING_CHANNEL_CAPACITY,
    );
    let (vote_account_sender, vote_account_receiver) = broadcast_channel(
        POLLING_CHANNEL_CAPACITY,
    );
    PollingChannels {
        cluster_info_sender,
        cluster_info_receiver,
        vote_account_sender,
        vote_account_receiver,
    }
}

/// The composed bundle of live channels handed to downstream consumers.
/// The account stream is present exactly when account filters were given;
/// consumers must check before subscribing.
#[verifier::reject_recursive_types(CI)]
#[verifier::reject_recursive_types(VA)]
#[verifier::reject_recursive_types(AN)]
pub struct EndpointStreaming<CI, VA, AN> {
    pub blocks_notifier: tokio::sync::broadcast::Receiver<ProducedBlock>,
    pub slot_notifier: tokio::sync::broadcast::Receiver<SlotNotification>,
    pub cluster_info_notifier: tokio::sync::broadcast::Receiver<CI>,
    pub vote_account_notifier: tokio::sync::broadcast::Receiver<VA>,
    pub processed_account_stream: Option<tokio::sync::broadcast::Receiver<AN>>,
}

/// Whether the account-change stream must be requested at all: only when
/// the filter set is non-empty.
pub fn wants_account_streaming(accounts_filter: &AccountFilters) -> (r: bool)
    ensures
        r == (accounts_filter@.len() > 0),
{
    accounts_filter.len() > 0
}

/// Assembles the composed subscription bundle from the multiplexed block
/// and slot streams, the polling channels and their tasks, and the
/// optional account stream, which the caller obtains exactly when the
/// filter set is non-empty. Returns the bundle together with every
/// background task, in a fixed order, for the caller to supervise: this
/// layer does no supervision of its own.
pub fn create_grpc_subscription<CI, VA, AN>(
    accounts_filter: &AccountFilters,
    slots: (tokio::sync::broadcast::Receiver<SlotNotification>, TaskHandle),
    blocks: (tokio::sync::broadcast::Receiver<ProducedBlock>, TaskHandle),
    cluster_info: (tokio::sync::broadcast::Receiver<CI>, TaskHandle),
    vote_accounts: (tokio::sync::broadcast::Receiver<VA>, TaskHandle),
    account_stream: Option<(TaskHandle, tokio::sync::broadcast::Receiver<AN>)>,
) -> (r: (EndpointStreaming<CI, VA, AN>, Vec<TaskHandle>))
    requires
        account_stream is Some <==> accounts_filter@.len() > 0,
    ensures
        r.0.blocks_notifier == blocks.0,
        r.0.slot_notifier == slots.0,
        r.0.cluster_info_notifier == cluster_info.0,
        r.0.vote_account_notifier == vote_accounts.0,
        r.0.processed_account_stream is Some <==> accounts_filter@.len() > 0,
        match (account_stream, r.0.processed_account_stream) {
            (Option::Some((_, st)), Option::Some(st2)) => st2 == st,
            (Option::None, Option::None) => true,
            _ => false,
        },
        r.1@.len() == (if accounts_filter@.len() > 0 {
            5int
        } else {
            4int
        }),
        r.1@[0] == slots.1,
        r.1@[1] == blocks.1,
        r.1@[2] == cluster_info.1,
        r.1@[3] == vote_accounts.1,
        match account_stream {
            Option::Some((jh, _)) => r.1@[4] == jh,
            Option::None => true,
        },
{
    let (slot_notifier, jh_slots) = slots;
    let (blocks_notifier, jh_blocks) = blocks;
    let (cluster_info_notifier, jh_cluster) = cluster_info;
    let (vote_account_notifier, jh_vote) = vote_accounts;
    let mut endpoint_tasks: Vec<TaskHandle> = Vec::new();
    endpoint_tasks.push(jh_slots);
    endpoint_tasks.push(jh_blocks);
    endpoint_tasks.push(jh_cluster);
    endpoint_tasks.push(jh_vote);
    let processed_account_stream: Option<tokio::sync::broadcast::Receiver<AN>> =
        match account_stream {
        Option::Some((jh_account, stream)) => {
            endpoint_tasks.push(jh_account);
            Option::Some(stream)
        },
        Option::None => Option::None,
    };
    let streamers = EndpointStreaming {
        blocks_notifier,
        slot_notifier,
        cluster_info_notifier,
        vote_account_notifier,
        processed_account_stream,
    };
    (streamers, endpoint_tasks)
}

} // verus!
