use icy_term::connect::{
    ChannelMessage, ConnectionState, DataConnection, FillError, FillStep, RecvEvent, TestConnection,
};

#[test]
fn test_connection_sender_writes_to_send_buffer() {
    let mut c = TestConnection::new(true);
    assert!(c.is_sender);
    c.send(vec![1, 2, 3]).unwrap();
    c.send(vec![4]).unwrap();
    assert_eq!(c.read_receive_buffer(), vec![1, 2, 3, 4]);
    assert!(!c.is_data_available().unwrap());
}

#[test]
fn test_connection_receiver_reads_what_is_in_send_buffer() {
    let mut c = TestConnection::new(false);
    // the receiving side writes into its receive buffer ...
    c.send(vec![9, 8]).unwrap();
    assert_eq!(c.read_receive_buffer(), Vec::<u8>::new());
    // ... and reads from its send buffer, which is empty
    assert!(!c.is_data_available().unwrap());
    assert_eq!(c.read_buffer(), Vec::<u8>::new());
}

#[test]
fn sender_reads_from_receive_buffer() {
    let mut c = TestConnection::new(true);
    assert!(!c.is_data_available().unwrap());
    assert_eq!(c.read_exact(0).unwrap(), Vec::<u8>::new());
}

#[test]
fn connection_state_starts_disconnected() {
    let s = ConnectionState::new();
    assert!(!s.is_connected());
    assert!(s.is_disconnected());
    assert!(!s.should_end_transfer());
    assert!(!s.has_data());
}

#[test]
fn data_is_buffered_and_read_back() {
    let mut s = ConnectionState::new();
    assert_eq!(s.handle_event(RecvEvent::Message(ChannelMessage::Data(vec![1, 2]))), FillStep::Continue);
    assert_eq!(s.handle_event(RecvEvent::Message(ChannelMessage::Data(vec![3, 4, 5]))), FillStep::Continue);
    assert_eq!(s.handle_event(RecvEvent::Empty), FillStep::Done);
    assert_eq!(s.buffered_len(), 5);
    assert_eq!(s.read_u8(), 1);
    assert_eq!(s.read_exact(2), vec![2, 3]);
    assert_eq!(s.read_buffer(), vec![4, 5]);
    assert!(!s.has_data());
}

#[test]
fn connect_and_disconnect_messages() {
    let mut s = ConnectionState::new();
    assert_eq!(s.handle_event(RecvEvent::Message(ChannelMessage::Connected)), FillStep::Done);
    assert!(s.is_connected());
    assert_eq!(s.handle_event(RecvEvent::Message(ChannelMessage::Disconnect)), FillStep::Done);
    assert!(s.is_disconnected());
}

#[test]
fn end_transfer_is_remembered_until_a_transfer_starts() {
    let mut s = ConnectionState::new();
    assert_eq!(s.handle_event(RecvEvent::Message(ChannelMessage::EndTransfer)), FillStep::Done);
    assert!(s.should_end_transfer());
    s.start_transfer();
    assert!(!s.should_end_transfer());
}

#[test]
fn connection_error_fails_and_ends_transfer() {
    let mut s = ConnectionState::new();
    s.handle_event(RecvEvent::Message(ChannelMessage::Connected));
    let step = s.handle_event(RecvEvent::Message(ChannelMessage::ConnectionError("refused".to_string())));
    assert_eq!(step, FillStep::Failed(FillError::ConnectionAborted("refused".to_string())));
    assert!(s.is_disconnected());
    assert!(s.should_end_transfer());
}

#[test]
fn unsupported_message_fails() {
    let mut s = ConnectionState::new();
    assert_eq!(s.handle_event(RecvEvent::Message(ChannelMessage::Other)), FillStep::Failed(FillError::UnsupportedData));
}

#[test]
fn lost_channel_fails_only_when_connected() {
    let mut s = ConnectionState::new();
    assert_eq!(s.handle_event(RecvEvent::Disconnected), FillStep::Done);
    s.handle_event(RecvEvent::Message(ChannelMessage::Connected));
    assert_eq!(s.handle_event(RecvEvent::Disconnected), FillStep::Failed(FillError::ChannelDisconnected));
    assert!(s.is_disconnected());
}

#[test]
fn failed_send_disconnects() {
    let mut s = ConnectionState::new();
    s.handle_event(RecvEvent::Message(ChannelMessage::Connected));
    s.set_disconnected();
    assert!(!s.is_connected());
}
