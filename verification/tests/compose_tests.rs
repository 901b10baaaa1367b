use cluster_endpoints::compose::create_grpc_subscription;
use cluster_endpoints::compose::create_polling_channels;
use cluster_endpoints::compose::wants_account_streaming;
use cluster_endpoints::compose::AccountFilter;
use cluster_endpoints::compose::PollingChannels;
use cluster_endpoints::compose::SlotNotification;
use cluster_endpoints::compose::TaskHandle;
use cluster_endpoints::produced::ProducedBlock;

fn task(rt: &tokio::runtime::Runtime) -> TaskHandle {
    rt.spawn(async { Ok::<(), anyhow::Error>(()) })
}

fn filter() -> AccountFilter {
    AccountFilter {
        accounts: vec!["somekey".to_string()],
        program_id: None,
    }
}

#[test]
fn wants_account_streaming_checks_emptiness() {
    assert!(!wants_account_streaming(&vec![]));
    assert!(wants_account_streaming(&vec![filter()]));
}

#[test]
fn empty_filters_give_no_account_stream_and_four_tasks() {
    let rt = tokio::runtime::Builder::new_current_thread().build().unwrap();
    let channels: PollingChannels<u32, u64> = create_polling_channels();
    let (blocks_tx, blocks_rx) = tokio::sync::broadcast::channel::<ProducedBlock>(16);
    let (slots_tx, slots_rx) = tokio::sync::broadcast::channel::<SlotNotification>(16);
    let (bundle, tasks) = create_grpc_subscription::<u32, u64, u8>(
        &vec![],
        (slots_rx, task(&rt)),
        (blocks_rx, task(&rt)),
        (channels.cluster_info_receiver, task(&rt)),
        (channels.vote_account_receiver, task(&rt)),
        None,
    );
    assert!(bundle.processed_account_stream.is_none());
    assert_eq!(tasks.len(), 4);
    drop((blocks_tx, slots_tx));
}

#[test]
fn filters_give_account_stream_and_five_tasks() {
    let rt = tokio::runtime::Builder::new_current_thread().build().unwrap();
    let channels: PollingChannels<u32, u64> = create_polling_channels();
    let (blocks_tx, blocks_rx) = tokio::sync::broadcast::channel::<ProducedBlock>(16);
    let (slots_tx, slots_rx) = tokio::sync::broadcast::channel::<SlotNotification>(16);
    let (account_tx, account_rx) = tokio::sync::broadcast::channel::<u8>(16);
    let (bundle, tasks) = create_grpc_subscription::<u32, u64, u8>(
        &vec![filter()],
        (slots_rx, task(&rt)),
        (blocks_rx, task(&rt)),
        (channels.cluster_info_receiver, task(&rt)),
        (channels.vote_account_receiver, task(&rt)),
        Some((task(&rt), account_rx)),
    );
    assert!(bundle.processed_account_stream.is_some());
    assert_eq!(tasks.len(), 5);
    drop((blocks_tx, slots_tx, account_tx));
}

#[test]
fn broadcast_consumers_each_see_all_items_in_order() {
    let channels: PollingChannels<u32, u64> = create_polling_channels();
    let tx = channels.cluster_info_sender;
    let mut rx1 = channels.cluster_info_receiver;
    let mut rx2 = tx.subscribe();
    tx.send(1).unwrap();
    tx.send(2).unwrap();
    tx.send(3).unwrap();
    for rx in [&mut rx1, &mut rx2] {
        assert_eq!(rx.try_recv().unwrap(), 1);
        assert_eq!(rx.try_recv().unwrap(), 2);
        assert_eq!(rx.try_recv().unwrap(), 3);
        assert!(rx.try_recv().is_err());
    }
}
