use icy_term::com_thread::{bytes_to_send, ComThreadState};

#[test]
fn bytes_to_send_follows_the_baud_rate() {
    // 9600 baud = 1200 bytes/s; 500 ms -> 600 bytes
    assert_eq!(bytes_to_send(9600, 500, 10_000), 600);
    // capped by what is buffered
    assert_eq!(bytes_to_send(9600, 500, 100), 100);
    // less than one byte so far
    assert_eq!(bytes_to_send(300, 10, 100), 0);
}

#[test]
fn bytes_to_send_saturates() {
    // 4_000_000_000 / 8 * 1000 saturates at u32::MAX; / 1000 -> 4_294_967
    assert_eq!(bytes_to_send(4_000_000_000, 1000, 10_000_000), 4_294_967);
}

#[test]
fn com_state_without_emulation_forwards_data() {
    let mut s = ComThreadState::new();
    assert!(s.is_running());
    assert!(!s.is_connected());
    assert!(s.needs_com_read());
    assert_eq!(s.accept_com_data(vec![1, 2, 3]), Some(vec![1, 2, 3]));
    assert!(s.needs_com_read());
}

#[test]
fn com_state_with_emulation_paces_data() {
    let mut s = ComThreadState::new();
    s.set_connected();
    s.set_baud_rate(8000); // 1000 bytes/s
    assert_eq!(s.accept_com_data(vec![1, 2, 3, 4, 5]), None);
    assert!(!s.needs_com_read());
    assert_eq!(s.take_pending(2), vec![1, 2]);
    assert_eq!(s.take_pending(0), Vec::<u8>::new());
    assert_eq!(s.take_pending(100), vec![3, 4, 5]);
    assert!(s.needs_com_read());
}

#[test]
fn com_state_disconnect_resets() {
    let mut s = ComThreadState::new();
    s.set_connected();
    s.set_baud_rate(2400);
    s.accept_com_data(vec![7]);
    s.disconnect(true);
    assert!(!s.is_connected());
    assert!(s.is_running());
    assert!(s.needs_com_read());
    assert_eq!(s.accept_com_data(vec![1]), Some(vec![1]));
    s.disconnect(false);
    assert!(!s.is_running());
}

#[test]
fn com_state_stops_after_a_failed_send() {
    let mut s = ComThreadState::new();
    s.note_channel_send(true);
    assert!(s.is_running());
    s.note_channel_send(false);
    assert!(!s.is_running());
    s.note_channel_send(true);
    assert!(!s.is_running());
}
