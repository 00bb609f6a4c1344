use fuel_p2p::gossipsub::messages::GossipsubMessage;
use fuel_p2p::gossipsub::topics::GossipTopicTag;
use fuel_p2p::ids::{MessageId, PeerId};
use fuel_p2p::p2p_service::FuelP2PEvent;
use fuel_p2p::ports::{
    pre_confirmation_gossip, AsyncReturner, GossipsubMessageInfo, MyReturner, NotifyError,
    P2PAdapter, P2PSubscriptions, Verdict,
};
use fuel_p2p::subscriptions::Subscriptions;
use fuel_p2p::types::{GossipsubMessageAcceptance, PreConfirmationMessage, Transaction};

#[test]
fn items_are_read_in_the_order_they_were_put_in() {
    let mut returner: MyReturner<u32> = MyReturner::new(3);
    assert_eq!(returner.next(), None);
    assert_eq!(returner.offer(1), Ok(()));
    assert_eq!(returner.offer(2), Ok(()));
    assert_eq!(returner.offer(3), Ok(()));
    assert_eq!(returner.len(), 3);
    assert_eq!(returner.next(), Some(1));
    assert_eq!(returner.next(), Some(2));
    assert_eq!(returner.offer(4), Ok(()));
    assert_eq!(returner.next(), Some(3));
    assert_eq!(returner.next(), Some(4));
    assert_eq!(returner.next(), None);
}

#[test]
fn a_full_queue_hands_the_item_back() {
    let mut returner: MyReturner<u32> = MyReturner::new(1);
    assert_eq!(returner.offer(1), Ok(()));
    assert_eq!(returner.offer(2), Err(2));
    assert_eq!(returner.poll_next(), Some(1));
    assert_eq!(returner.offer(2), Ok(()));
    let mut none: MyReturner<u32> = MyReturner::new(0);
    assert_eq!(none.offer(7), Err(7));
}

#[test]
fn a_closed_queue_can_still_be_read() {
    let mut returner: MyReturner<u32> = MyReturner::new(4);
    assert_eq!(returner.offer(1), Ok(()));
    returner.close();
    assert!(returner.is_closed());
    assert_eq!(returner.offer(2), Err(2));
    assert_eq!(returner.next(), Some(1));
    assert_eq!(returner.next(), None);
}

#[test]
fn a_boxed_returner_reads_the_same() {
    let mut inner: MyReturner<u32> = MyReturner::new(2);
    inner.offer(5).unwrap();
    let mut boxed = Box::new(inner);
    assert_eq!(AsyncReturner::next(&mut boxed), Some(5));
    assert_eq!(AsyncReturner::next(&mut boxed), None);
}

#[test]
fn only_pre_confirmations_belong_to_the_subscription() {
    let event = FuelP2PEvent::GossipsubMessage {
        peer_id: PeerId([1; 32]),
        message_id: MessageId([2; 32]),
        topic_hash: "h".to_string(),
        message: GossipsubMessage::TxPreConfirmations(PreConfirmationMessage::new(vec![1, 2, 3])),
    };
    let data = pre_confirmation_gossip(event).unwrap();
    assert_eq!(data.peer_id, PeerId([1; 32]));
    assert_eq!(data.message_id, MessageId([2; 32]));
    assert_eq!(data.data, Some(PreConfirmationMessage::new(vec![1, 2, 3])));

    let event = FuelP2PEvent::GossipsubMessage {
        peer_id: PeerId([1; 32]),
        message_id: MessageId([2; 32]),
        topic_hash: "h".to_string(),
        message: GossipsubMessage::NewTx(Transaction::new(vec![1])),
    };
    assert!(pre_confirmation_gossip(event).is_none());
    assert!(pre_confirmation_gossip(FuelP2PEvent::PeerConnected(PeerId([1; 32]))).is_none());
    assert!(pre_confirmation_gossip(FuelP2PEvent::NewSubscription {
        peer_id: PeerId([1; 32]),
        tag: GossipTopicTag::TxPreconfirmations,
    })
    .is_none());
}

#[test]
fn subscriptions_hold_the_sequence() {
    let mut subscriptions = Subscriptions { new_tx_status: MyReturner::new(8) };
    let event = FuelP2PEvent::GossipsubMessage {
        peer_id: PeerId([1; 32]),
        message_id: MessageId([2; 32]),
        topic_hash: "h".to_string(),
        message: GossipsubMessage::TxPreConfirmations(PreConfirmationMessage::new(vec![4])),
    };
    let data = pre_confirmation_gossip(event).unwrap();
    assert!(subscriptions.new_tx_status.offer(data).is_ok());
    let read = subscriptions.new_tx_status.next().unwrap();
    assert_eq!(read.data, Some(PreConfirmationMessage::new(vec![4])));
    assert!(subscriptions.new_tx_status.next().is_none());
}

fn confirmation_event(n: u8) -> FuelP2PEvent {
    FuelP2PEvent::GossipsubMessage {
        peer_id: PeerId([n; 32]),
        message_id: MessageId([n; 32]),
        topic_hash: "h".to_string(),
        message: GossipsubMessage::TxPreConfirmations(PreConfirmationMessage::new(vec![n])),
    }
}

#[test]
fn the_adapter_sorts_events() {
    let mut adapter = P2PAdapter::new(2);
    assert!(adapter.sort_event(confirmation_event(1)).is_none());
    assert!(matches!(
        adapter.sort_event(FuelP2PEvent::PeerConnected(PeerId([9; 32]))),
        Some(FuelP2PEvent::PeerConnected(_))
    ));
    assert!(adapter.sort_event(confirmation_event(2)).is_none());
    // the queue is full: the third is dropped
    assert!(adapter.sort_event(confirmation_event(3)).is_none());
    let mut statuses = adapter.gossiped_tx_statuses();
    assert_eq!(statuses.next().unwrap().message_id, MessageId([1; 32]));
    assert_eq!(statuses.next().unwrap().data, Some(PreConfirmationMessage::new(vec![2])));
    assert!(statuses.next().is_none());
    // what comes later is found in the next sequence
    assert!(adapter.sort_event(confirmation_event(4)).is_none());
    let mut statuses = adapter.gossiped_tx_statuses();
    assert_eq!(statuses.next().unwrap().peer_id, PeerId([4; 32]));
    assert!(statuses.next().is_none());
}

#[test]
fn the_adapter_queues_verdicts() {
    let mut adapter = P2PAdapter::new(2);
    let info = |n: u8| GossipsubMessageInfo { message_id: MessageId([n; 32]), peer_id: PeerId([n; 32]) };
    assert!(adapter.next_verdict().is_none());
    assert_eq!(
        adapter.notify_gossip_transaction_validity(info(1), GossipsubMessageAcceptance::Accept),
        Ok(())
    );
    assert_eq!(
        adapter.notify_gossip_transaction_validity(info(2), GossipsubMessageAcceptance::Reject),
        Ok(())
    );
    assert_eq!(
        adapter.notify_gossip_transaction_validity(info(3), GossipsubMessageAcceptance::Ignore),
        Err(NotifyError::Closed)
    );
    assert_eq!(
        adapter.next_verdict(),
        Some(Verdict { message_info: info(1), validity: GossipsubMessageAcceptance::Accept })
    );
    assert_eq!(
        adapter.next_verdict(),
        Some(Verdict { message_info: info(2), validity: GossipsubMessageAcceptance::Reject })
    );
    assert!(adapter.next_verdict().is_none());
    adapter.close();
    assert_eq!(
        adapter.report(info(4), GossipsubMessageAcceptance::Accept),
        Err(NotifyError::Closed)
    );
    assert!(adapter.sort_event(confirmation_event(5)).is_none());
    let mut statuses = adapter.take_statuses();
    assert!(statuses.is_closed());
    assert!(statuses.next().is_none());
}
