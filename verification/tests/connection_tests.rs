use tanker::connection::{client_id_from_millis, MAX_CLIENTS};

#[test]
fn server_admits_thirty_clients() {
    assert_eq!(MAX_CLIENTS, 30);
}

#[test]
fn client_id_is_the_clock_in_milliseconds() {
    assert_eq!(client_id_from_millis(0), 0);
    assert_eq!(client_id_from_millis(1_700_000_000_123), 1_700_000_000_123);
    assert_eq!(client_id_from_millis(u64::MAX as u128), u64::MAX);
}

#[test]
fn client_id_keeps_the_low_64_bits() {
    assert_eq!(client_id_from_millis(1u128 << 64), 0);
    assert_eq!(client_id_from_millis((1u128 << 64) + 5), 5);
    assert_eq!(client_id_from_millis(u128::MAX), u64::MAX);
}
