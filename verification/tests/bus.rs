use word_guess::binary_message::{BinaryMessage, MessageType};
use word_guess::server::{dispatch, filter_addressed, Broadcast};

fn chat(text: &str) -> BinaryMessage {
    BinaryMessage::new_message(String::from(text))
}

#[test]
fn subscribe_assigns_fresh_channels() {
    let mut bus = Broadcast::new();
    assert_eq!(bus.subscribe(), 1);
    assert_eq!(bus.subscribe(), 2);
    assert_eq!(bus.subscribe(), 3);
}

#[test]
fn broadcast_reaches_every_subscriber() {
    let mut bus = Broadcast::new();
    let c1 = bus.subscribe();
    let c2 = bus.subscribe();
    let c3 = bus.subscribe();
    bus.broadcast((2, chat("for user two")));
    // Every subscriber physically receives the pair, whoever it addresses.
    for c in [c1, c2, c3] {
        let items = bus.take_messages(c);
        assert_eq!(items.len(), 1);
        assert_eq!(items[0].0, 2);
        assert_eq!(items[0].1.get_message().as_slice(), b"for user two");
    }
}

#[test]
fn take_messages_drains_the_mailbox() {
    let mut bus = Broadcast::new();
    let c1 = bus.subscribe();
    bus.broadcast((1, chat("a")));
    bus.broadcast((2, chat("b")));
    let items = bus.take_messages(c1);
    assert_eq!(items.len(), 2);
    assert_eq!(items[0].1.get_message().as_slice(), b"a");
    assert_eq!(items[1].1.get_message().as_slice(), b"b");
    assert!(bus.take_messages(c1).is_empty());
}

#[test]
fn take_messages_unknown_channel_is_empty() {
    let mut bus = Broadcast::new();
    bus.subscribe();
    bus.broadcast((1, chat("a")));
    assert!(bus.take_messages(42).is_empty());
}

#[test]
fn unsubscribe_prunes_channels() {
    let mut bus = Broadcast::new();
    let c1 = bus.subscribe();
    let c2 = bus.subscribe();
    bus.unsubscribe(vec![c1]);
    bus.broadcast((1, chat("x")));
    assert!(bus.take_messages(c1).is_empty());
    assert_eq!(bus.take_messages(c2).len(), 1);
}

#[test]
fn each_connection_filters_by_its_own_user() {
    let mut bus = Broadcast::new();
    let c1 = bus.subscribe();
    let c2 = bus.subscribe();
    bus.broadcast((2, chat("secret for two")));
    // The connection authenticated as user 2 observes the message.
    let for_two = filter_addressed(bus.take_messages(c2), 2);
    assert_eq!(for_two.len(), 1);
    assert_eq!(for_two[0].get_message().as_slice(), b"secret for two");
    // The connection authenticated as user 1 received it too, but filters it away.
    let for_one = filter_addressed(bus.take_messages(c1), 1);
    assert!(for_one.is_empty());
}

#[test]
fn filter_keeps_order_of_matching_messages() {
    let items = vec![
        (1, chat("one")),
        (2, chat("two")),
        (1, chat("three")),
    ];
    let kept = filter_addressed(items, 1);
    assert_eq!(kept.len(), 2);
    assert_eq!(kept[0].get_message().as_slice(), b"one");
    assert_eq!(kept[1].get_message().as_slice(), b"three");
}

#[test]
fn dispatch_republishes_on_the_bus() {
    let mut bus = Broadcast::new();
    let c1 = bus.subscribe();
    dispatch((7, BinaryMessage::new_command(String::from("REQUESTEDGAME"))), &mut bus);
    let items = bus.take_messages(c1);
    assert_eq!(items.len(), 1);
    assert_eq!(items[0].0, 7);
    assert!(matches!(items[0].1.get_type(), MessageType::Command));
}
