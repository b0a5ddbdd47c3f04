use ap_firmware::net::{
    DeviceHandle, Ipv4Address, Ipv4Cidr, NetworkStack, SlotError, StaticConfigV4,
};
use ap_firmware::socket::{SocketState, TcpSocket};

fn test_stack(slots: usize) -> NetworkStack {
    let address = Ipv4Cidr::new(Ipv4Address::new(192, 168, 2, 1), 24);
    let gateway = Some(Ipv4Address::new(192, 168, 2, 1));
    let config = StaticConfigV4::new(address, gateway, Vec::new());
    NetworkStack::new(DeviceHandle::new(), config, slots, 1234)
}

fn established_socket(stack: &mut NetworkStack) -> TcpSocket {
    let mut sock = TcpSocket::new(stack, 4096, 4096).unwrap();
    sock.set_timeout(Some(10));
    sock.open_passive();
    sock.on_connected();
    sock
}

#[test]
fn new_socket_is_closed_with_fixed_buffers() {
    let mut stack = test_stack(3);
    let sock = TcpSocket::new(&mut stack, 4096, 4096).unwrap();
    assert_eq!(sock.state, SocketState::Closed);
    assert_eq!(sock.rx_capacity, 4096);
    assert_eq!(sock.tx_capacity, 4096);
    assert_eq!(sock.timeout, None);
    assert_eq!(sock.idle, 0);
}

#[test]
fn fourth_socket_fails_while_three_stay_open() {
    let mut stack = test_stack(3);
    let s1 = TcpSocket::new(&mut stack, 4096, 4096).unwrap();
    let s2 = TcpSocket::new(&mut stack, 4096, 4096).unwrap();
    let s3 = TcpSocket::new(&mut stack, 4096, 4096).unwrap();
    assert!(matches!(
        TcpSocket::new(&mut stack, 4096, 4096),
        Err(SlotError::Exhausted)
    ));
    s2.release(&mut stack);
    let s4 = TcpSocket::new(&mut stack, 4096, 4096).unwrap();
    assert!(matches!(
        TcpSocket::new(&mut stack, 4096, 4096),
        Err(SlotError::Exhausted)
    ));
    s1.release(&mut stack);
    s3.release(&mut stack);
    s4.release(&mut stack);
}

#[test]
fn active_open_lifecycle() {
    let mut stack = test_stack(3);
    let mut sock = TcpSocket::new(&mut stack, 4096, 4096).unwrap();
    sock.open_active();
    assert_eq!(sock.state, SocketState::Connecting);
    sock.on_connected();
    assert_eq!(sock.state, SocketState::Established);
    sock.start_close();
    assert_eq!(sock.state, SocketState::Closing);
    sock.finish_close();
    assert_eq!(sock.state, SocketState::Closed);
}

#[test]
fn passive_open_lifecycle() {
    let mut stack = test_stack(3);
    let mut sock = TcpSocket::new(&mut stack, 4096, 4096).unwrap();
    sock.open_passive();
    assert_eq!(sock.state, SocketState::Listening);
    sock.on_connected();
    assert_eq!(sock.state, SocketState::Established);
}

#[test]
fn ten_idle_seconds_close_the_connection() {
    let mut stack = test_stack(3);
    let mut sock = established_socket(&mut stack);
    let quiet = vec![false; 10];
    sock.run_seconds(&quiet);
    assert_eq!(sock.state, SocketState::Closed);
}

#[test]
fn nine_idle_seconds_do_not_close() {
    let mut stack = test_stack(3);
    let mut sock = established_socket(&mut stack);
    let quiet = vec![false; 9];
    sock.run_seconds(&quiet);
    assert_eq!(sock.state, SocketState::Established);
    assert_eq!(sock.idle, 9);
}

#[test]
fn advance_to_the_timeout_closes() {
    let mut stack = test_stack(3);
    let mut sock = established_socket(&mut stack);
    sock.advance(9);
    assert_eq!(sock.state, SocketState::Established);
    assert_eq!(sock.idle, 9);
    sock.advance(1);
    assert_eq!(sock.state, SocketState::Closed);
    assert_eq!(sock.idle, 0);
}

#[test]
fn steady_data_keeps_the_connection_established() {
    let mut stack = test_stack(3);
    let mut sock = established_socket(&mut stack);
    // Data every eighth second: never nine quiet seconds in a row.
    let events: Vec<bool> = (0..80).map(|i| i % 8 == 0).collect();
    sock.run_seconds(&events);
    assert_eq!(sock.state, SocketState::Established);
}

#[test]
fn data_resets_the_idle_clock() {
    let mut stack = test_stack(3);
    let mut sock = established_socket(&mut stack);
    sock.advance(9);
    sock.record_activity(1);
    assert_eq!(sock.idle, 0);
    sock.advance(9);
    assert_eq!(sock.state, SocketState::Established);
    assert_eq!(sock.idle, 9);
}

#[test]
fn zero_bytes_do_not_reset_the_idle_clock() {
    let mut stack = test_stack(3);
    let mut sock = established_socket(&mut stack);
    sock.advance(5);
    sock.record_activity(0);
    assert_eq!(sock.idle, 5);
}

#[test]
fn without_timeout_policy_time_does_nothing() {
    let mut stack = test_stack(3);
    let mut sock = TcpSocket::new(&mut stack, 4096, 4096).unwrap();
    sock.open_active();
    sock.on_connected();
    sock.advance(1000);
    assert_eq!(sock.state, SocketState::Established);
    assert_eq!(sock.idle, 0);
    let quiet = vec![false; 100];
    sock.run_seconds(&quiet);
    assert_eq!(sock.state, SocketState::Established);
}

#[test]
fn timeout_only_applies_while_established() {
    let mut stack = test_stack(3);
    let mut sock = TcpSocket::new(&mut stack, 4096, 4096).unwrap();
    sock.set_timeout(Some(10));
    sock.advance(1000);
    assert_eq!(sock.state, SocketState::Closed);
    sock.open_passive();
    sock.advance(1000);
    assert_eq!(sock.state, SocketState::Listening);
}

#[test]
fn release_frees_the_slot_for_reuse() {
    let mut stack = test_stack(1);
    let sock = TcpSocket::new(&mut stack, 4096, 4096).unwrap();
    assert!(TcpSocket::new(&mut stack, 4096, 4096).is_err());
    sock.release(&mut stack);
    assert!(TcpSocket::new(&mut stack, 4096, 4096).is_ok());
}
