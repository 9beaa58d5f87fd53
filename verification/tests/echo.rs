use echo_server::config::Config;
use echo_server::config::DEFAULT_MIN_RESPONSE_LEN;
use echo_server::config::DEFAULT_PORT;
use echo_server::config::DEFAULT_THREADS;
use echo_server::tcp::TcpConn;
use echo_server::udp::udp_reply;

#[test]
fn tcp_accumulates_then_flushes_at_threshold() {
    // Threshold 5: "ab" is buffered, "cde" brings the total to 5 and the
    // whole accumulation comes back at once.
    let mut conn = TcpConn::new(5);
    assert_eq!(conn.on_read(&b"ab".to_vec()), None);
    assert_eq!(conn.buffered_len(), 2);
    assert_eq!(conn.on_read(&b"cde".to_vec()), Some(b"abcde".to_vec()));
    assert_eq!(conn.buffered_len(), 0);
}

#[test]
fn tcp_below_threshold_bytes_stay_buffered_in_order() {
    let mut conn = TcpConn::new(10);
    assert_eq!(conn.on_read(&b"one".to_vec()), None);
    assert_eq!(conn.on_read(&b"two".to_vec()), None);
    assert_eq!(conn.on_read(&b"three".to_vec()), Some(b"onetwothree".to_vec()));
}

#[test]
fn tcp_flush_exactly_at_threshold() {
    let mut conn = TcpConn::new(3);
    assert_eq!(conn.on_read(&b"xyz".to_vec()), Some(b"xyz".to_vec()));
    assert_eq!(conn.buffered_len(), 0);
}

#[test]
fn tcp_close_below_threshold_loses_trailing_bytes() {
    // Three bytes with threshold 5, then the peer closes: no echo is ever
    // produced for those bytes.
    let mut conn = TcpConn::new(5);
    assert_eq!(conn.on_read(&b"abc".to_vec()), None);
    conn.on_eof();
    assert!(conn.is_closed());
    assert_eq!(conn.buffered_len(), 3);
}

#[test]
fn tcp_zero_threshold_flushes_every_read() {
    let mut conn = TcpConn::new(0);
    assert_eq!(conn.on_read(&b"a".to_vec()), Some(b"a".to_vec()));
    assert_eq!(conn.on_read(&b"bc".to_vec()), Some(b"bc".to_vec()));
    assert_eq!(conn.buffered_len(), 0);
}

#[test]
fn tcp_buffer_clears_after_each_flush() {
    let mut conn = TcpConn::new(4);
    assert_eq!(conn.on_read(&b"wxyz".to_vec()), Some(b"wxyz".to_vec()));
    // A later short read starts accumulating from scratch.
    assert_eq!(conn.on_read(&b"a".to_vec()), None);
    assert_eq!(conn.buffered_len(), 1);
    assert_eq!(conn.on_read(&b"bcd".to_vec()), Some(b"abcd".to_vec()));
}

#[test]
fn two_concurrent_tcp_connections_stay_isolated() {
    // Two simultaneous clients, interleaved reads: each gets only its own
    // payload back, never the other's.
    let mut first = TcpConn::new(4);
    let mut second = TcpConn::new(4);
    assert_eq!(first.on_read(&b"aa".to_vec()), None);
    assert_eq!(second.on_read(&b"zz".to_vec()), None);
    assert_eq!(first.on_read(&b"bb".to_vec()), Some(b"aabb".to_vec()));
    assert_eq!(second.on_read(&b"yy".to_vec()), Some(b"zzyy".to_vec()));
}

#[test]
fn udp_short_datagram_is_dropped_long_one_is_echoed() {
    // Threshold 5: "hi" gets no reply, "hello" comes back unchanged.
    assert_eq!(udp_reply(&b"hi".to_vec(), 2, 5), None);
    assert_eq!(udp_reply(&b"hello".to_vec(), 5, 5), Some(b"hello".to_vec()));
}

#[test]
fn udp_reply_is_truncated_to_datagram_length() {
    // The receive buffer is longer than the datagram: only the first `len`
    // bytes are echoed.
    let buf = b"hello world, leftover bytes".to_vec();
    assert_eq!(udp_reply(&buf, 5, 1), Some(b"hello".to_vec()));
}

#[test]
fn udp_repeated_payload_echoes_once_per_datagram() {
    // Threshold 1: the same payload sent repeatedly is echoed once per
    // datagram, each reply identical to its input.
    let payload = b"ping".to_vec();
    for _ in 0..3 {
        assert_eq!(udp_reply(&payload, 4, 1), Some(payload.clone()));
    }
}

#[test]
fn udp_zero_threshold_echoes_even_empty_datagram() {
    assert_eq!(udp_reply(&Vec::new(), 0, 0), Some(Vec::new()));
    assert_eq!(udp_reply(&b"x".to_vec(), 1, 0), Some(b"x".to_vec()));
}

#[test]
fn udp_exact_threshold_boundary() {
    assert_eq!(udp_reply(&b"abcd".to_vec(), 4, 4), Some(b"abcd".to_vec()));
    assert_eq!(udp_reply(&b"abcd".to_vec(), 3, 4), None);
}

#[test]
fn config_new_keeps_all_fields() {
    let c = Config::new(9000, true, 4, 5, true);
    assert_eq!(c.port, 9000);
    assert!(c.ipv6);
    assert_eq!(c.threads, 4);
    assert_eq!(c.min_response_len, 5);
    assert!(c.verbose);
}

#[test]
fn config_defaults_match_documented_values() {
    let c = Config::default_config();
    assert_eq!(c.port, DEFAULT_PORT);
    assert_eq!(c.port, 34567);
    assert!(!c.ipv6);
    assert_eq!(c.threads, DEFAULT_THREADS);
    assert_eq!(c.threads, 1);
    assert_eq!(c.min_response_len, DEFAULT_MIN_RESPONSE_LEN);
    assert_eq!(c.min_response_len, 1);
    assert!(!c.verbose);
}
