use cardroom::routing::TableEventBroadcast;
use cardroom::tournament::TournamentMessage;
use cardroom::tournament::TournamentMessageType;
use cardroom::traits::PublishTournamentEvents;
use cardroom::TableEvent;
use cardroom::TableEventType;
use tokio::sync::broadcast::error::TryRecvError;

fn message(tournament_id: u128, table_number: usize, position: usize) -> TournamentMessage {
    TournamentMessage {
        tournament_id,
        message_type: TournamentMessageType::TableMessage {
            table_number,
            message_type: TableEvent { table_id: 99, event_type: TableEventType::PlayerLeft { position } },
        },
    }
}

fn left(position: usize) -> TableEvent {
    TableEvent { table_id: 99, event_type: TableEventType::PlayerLeft { position } }
}

#[test]
fn publish_reaches_only_subscribers_of_the_key() {
    let mut broadcast = TableEventBroadcast::new();
    broadcast.register_table_event_receivers(1, 2);
    broadcast.register_table_event_receivers(2, 1);
    let mut first = broadcast.subscribe_table_events(1, 0).unwrap();
    let mut second = broadcast.subscribe_table_events(1, 0).unwrap();
    let mut other_table = broadcast.subscribe_table_events(1, 1).unwrap();
    let mut other_tournament = broadcast.subscribe_table_events(2, 0).unwrap();
    broadcast.publish(vec![message(1, 0, 3)]);
    assert_eq!(first.try_recv().unwrap(), left(3));
    assert_eq!(second.try_recv().unwrap(), left(3));
    assert_eq!(other_table.try_recv(), Err(TryRecvError::Empty));
    assert_eq!(other_tournament.try_recv(), Err(TryRecvError::Empty));
    assert_eq!(first.try_recv(), Err(TryRecvError::Empty));
}

#[test]
fn silent_subscriber_does_not_block_others() {
    let mut broadcast = TableEventBroadcast::new();
    broadcast.register_table_event_receivers(5, 1);
    let _silent = broadcast.subscribe_table_events(5, 0).unwrap();
    let mut reader = broadcast.subscribe_table_events(5, 0).unwrap();
    for position in 0..40 {
        broadcast.publish_tournament_events(vec![message(5, 0, position)]);
        assert_eq!(reader.try_recv().unwrap(), left(position));
    }
}

#[test]
fn lagging_subscriber_loses_oldest_only() {
    let mut broadcast = TableEventBroadcast::new();
    broadcast.register_table_event_receivers(5, 1);
    let mut lagging = broadcast.subscribe_table_events(5, 0).unwrap();
    let messages: Vec<TournamentMessage> = (0..20).map(|p| message(5, 0, p)).collect();
    broadcast.publish(messages);
    assert_eq!(lagging.try_recv(), Err(TryRecvError::Lagged(4)));
    for position in 4..20 {
        assert_eq!(lagging.try_recv().unwrap(), left(position));
    }
}

#[test]
fn subscribe_to_unregistered_table_is_refused() {
    let mut broadcast = TableEventBroadcast::new();
    assert!(broadcast.subscribe_table_events(1, 0).is_none());
    broadcast.register_table_event_receivers(1, 3);
    assert!(broadcast.subscribe_table_events(1, 2).is_some());
    assert!(broadcast.subscribe_table_events(1, 3).is_none());
    assert!(broadcast.subscribe_table_events(2, 0).is_none());
}

#[test]
fn registering_again_keeps_existing_channels() {
    let mut broadcast = TableEventBroadcast::new();
    broadcast.register_table_event_receivers(1, 1);
    let mut receiver = broadcast.subscribe_table_events(1, 0).unwrap();
    broadcast.register_table_event_receivers(1, 2);
    broadcast.publish(vec![message(1, 0, 1), message(1, 1, 2), message(3, 0, 4)]);
    assert_eq!(receiver.try_recv().unwrap(), left(1));
    assert_eq!(receiver.try_recv(), Err(TryRecvError::Empty));
}

#[test]
fn publish_keeps_order_within_a_key() {
    let mut broadcast = TableEventBroadcast::new();
    broadcast.register_table_event_receivers(1, 2);
    let mut zero = broadcast.subscribe_table_events(1, 0).unwrap();
    let mut one = broadcast.subscribe_table_events(1, 1).unwrap();
    broadcast.publish(vec![message(1, 0, 1), message(1, 1, 2), message(1, 0, 3)]);
    assert_eq!(zero.try_recv().unwrap(), left(1));
    assert_eq!(zero.try_recv().unwrap(), left(3));
    assert_eq!(one.try_recv().unwrap(), left(2));
    assert_eq!(one.try_recv(), Err(TryRecvError::Empty));
}

#[test]
fn deliveries_list_every_receiver_of_each_message() {
    let keys = vec![(1u128, 0usize), (1, 1), (1, 0), (2, 0)];
    let messages = vec![message(1, 0, 7), message(2, 0, 8), message(3, 0, 9), message(1, 1, 6)];
    let routed = cardroom::routing::deliveries(&keys, &messages);
    assert_eq!(routed, vec![(0, left(7)), (2, left(7)), (3, left(8)), (1, left(6))]);
    assert!(cardroom::routing::deliveries(&vec![], &messages).is_empty());
}
