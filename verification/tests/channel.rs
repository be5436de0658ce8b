use worker_pool::{DispatchChannel, ReceiveError};

#[test]
fn new_channel_is_empty_and_open() {
    let channel: DispatchChannel<u32> = DispatchChannel::new();
    assert_eq!(channel.len(), 0);
    assert!(channel.is_empty());
    assert!(channel.is_sender_open());
    assert!(channel.is_receiver_open());
}

#[test]
fn messages_come_out_in_the_order_sent() {
    let mut channel = DispatchChannel::new();
    for value in [7u32, 3, 9, 3, 1] {
        assert_eq!(channel.send(value), Ok(()));
    }
    assert_eq!(channel.len(), 5);
    assert_eq!(channel.receive(), Ok(7));
    assert_eq!(channel.receive(), Ok(3));
    assert_eq!(channel.receive(), Ok(9));
    assert_eq!(channel.receive(), Ok(3));
    assert_eq!(channel.receive(), Ok(1));
    assert_eq!(channel.len(), 0);
}

#[test]
fn receive_on_empty_open_channel_reports_empty() {
    let mut channel: DispatchChannel<u32> = DispatchChannel::new();
    assert_eq!(channel.receive(), Err(ReceiveError::Empty));
    assert_eq!(channel.receive(), Err(ReceiveError::Empty));
    assert!(channel.is_empty());
}

#[test]
fn receive_after_sender_closed_drains_then_disconnects() {
    let mut channel = DispatchChannel::new();
    assert_eq!(channel.send("a"), Ok(()));
    assert_eq!(channel.send("b"), Ok(()));
    channel.close_sender();
    assert!(!channel.is_sender_open());
    assert_eq!(channel.receive(), Ok("a"));
    assert_eq!(channel.receive(), Ok("b"));
    assert_eq!(channel.receive(), Err(ReceiveError::Disconnected));
    assert_eq!(channel.receive(), Err(ReceiveError::Disconnected));
}

#[test]
fn send_after_receiver_withdrawn_hands_the_message_back() {
    let mut channel = DispatchChannel::new();
    assert_eq!(channel.send(1u8), Ok(()));
    channel.close_receiver();
    assert!(!channel.is_receiver_open());
    assert_eq!(channel.send(2u8), Err(2u8));
    assert_eq!(channel.len(), 1);
}

#[test]
fn closing_one_side_leaves_the_other_open() {
    let mut channel: DispatchChannel<u8> = DispatchChannel::new();
    channel.close_sender();
    assert!(channel.is_receiver_open());
    assert_eq!(channel.send(5), Ok(()));
    assert_eq!(channel.receive(), Ok(5));

    let mut other: DispatchChannel<u8> = DispatchChannel::new();
    other.close_receiver();
    assert!(other.is_sender_open());
    assert_eq!(other.receive(), Err(ReceiveError::Empty));
}

#[test]
fn send_does_not_wait_for_a_receiver() {
    let mut channel = DispatchChannel::new();
    for value in 0..1000u32 {
        assert_eq!(channel.send(value), Ok(()));
    }
    assert_eq!(channel.len(), 1000);
    for value in 0..1000u32 {
        assert_eq!(channel.receive(), Ok(value));
    }
    assert_eq!(channel.receive(), Err(ReceiveError::Empty));
}
