//! Replies, waiting, and trying again for the port.

use enl::error::ErrKind;
use enl::net::{
    ephemeral_error, is_reply_candidate, join_error, lock_file_error, read_timeout_error,
    recv_one, reply_step, send_error, time_left, Attempt, Datagram, Patience, Received, ReplyStep,
    Resource, Retry, RetryStep, BIND_RETRY_INTERVAL_MS, BIND_RETRY_WINDOW_MS,
};

fn datagram(from: &str, data: &[u8]) -> Datagram {
    Datagram {
        from: from.to_string(),
        data: data.to_vec(),
    }
}

#[test]
fn reply_candidate_accepts_matching_ehd_and_tid() {
    let data = [0x10, 0x81, 0x00, 0xAB, 0x0E, 0xF0, 0x01];
    assert!(is_reply_candidate(&data, 0x00AB));
}

#[test]
fn reply_candidate_rejects_tid_mismatch() {
    let data = [0x10, 0x81, 0x00, 0xAB];
    assert!(!is_reply_candidate(&data, 0x00AC));
}

#[test]
fn reply_candidate_rejects_ehd_mismatch() {
    assert!(!is_reply_candidate(&[0x10, 0x82, 0x00, 0xAB], 0x00AB));
    assert!(!is_reply_candidate(&[0x11, 0x81, 0x00, 0xAB], 0x00AB));
}

#[test]
fn reply_candidate_rejects_short_data() {
    assert!(!is_reply_candidate(&[0x10, 0x81, 0x00], 0x00AB));
    assert!(!is_reply_candidate(&[], 0x00AB));
}

#[test]
fn send_and_recv_one_skips_mismatch_then_accepts() {
    let step = |data: &[u8]| {
        reply_step(Some(datagram("127.0.0.1", data)), "127.0.0.1", 0x00AB, 2000)
    };
    assert!(matches!(step(&[0x10, 0x81, 0xFF, 0xFF, 0x00]), ReplyStep::Skip));
    assert!(matches!(step(&[0x10, 0x82, 0x00, 0xAB, 0x00]), ReplyStep::Skip));
    match step(&[0x10, 0x81, 0x00, 0xAB, 0x01]) {
        ReplyStep::Accept(dg) => assert_eq!(dg.data, vec![0x10, 0x81, 0x00, 0xAB, 0x01]),
        _ => panic!("not accepted"),
    }
}

#[test]
fn send_and_recv_one_times_out_without_match() {
    match reply_step(None, "127.0.0.1", 0x00AB, 100) {
        ReplyStep::Fail(err) => {
            assert_eq!(err.kind, ErrKind::Timeout);
            assert_eq!(err.detail, "127.0.0.1 からの応答なし (100ms)");
        }
        _ => panic!("no timeout"),
    }
}

#[test]
fn reply_from_another_device_is_skipped() {
    let dg = datagram("192.0.2.9", &[0x10, 0x81, 0x00, 0xAB]);
    assert!(matches!(
        reply_step(Some(dg), "192.0.2.10", 0x00AB, 2000),
        ReplyStep::Skip
    ));
}

#[test]
fn waiting_ends_at_the_deadline() {
    assert_eq!(time_left(None, 7), Patience::Forever);
    assert_eq!(time_left(Some(10), 7), Patience::For(3));
    assert_eq!(time_left(Some(10), 10), Patience::Over);
    assert_eq!(time_left(Some(10), 11), Patience::Over);
}

#[test]
fn receiving_gives_a_datagram_or_nothing_or_an_error() {
    let got = recv_one(Received::Got(datagram("192.0.2.1", &[1]))).unwrap().unwrap();
    assert_eq!(got.from, "192.0.2.1");
    assert_eq!(got.data, vec![1]);
    assert!(recv_one(Received::Nothing).unwrap().is_none());
    let err = recv_one(Received::Failed("down".to_string())).unwrap_err();
    assert_eq!(err.kind, ErrKind::Network);
    assert_eq!(err.detail, "受信失敗: down");
}

#[test]
fn bind_retry_succeeds_after_release() {
    let port = Resource::Port("127.0.0.1:5000".to_string());
    let mut retry = Retry::new(2000, 10);
    let first = retry.step(&port, Attempt::Busy("in use".to_string()), 0);
    assert!(matches!(first, RetryStep::Wait { announce: true, pause_ms: 10 }));
    let second = retry.step(&port, Attempt::Busy("in use".to_string()), 50);
    assert!(matches!(second, RetryStep::Wait { announce: false, pause_ms: 10 }));
    let third = retry.step(&port, Attempt::Taken, 100);
    assert!(matches!(third, RetryStep::Done { waited: true }));
}

#[test]
fn bind_retry_times_out_when_never_released() {
    let port = Resource::Port("127.0.0.1:5000".to_string());
    let mut retry = Retry::new(120, 10);
    let mut elapsed = 0;
    let err = loop {
        match retry.step(&port, Attempt::Busy("in use".to_string()), elapsed) {
            RetryStep::Wait { pause_ms, .. } => elapsed += pause_ms,
            RetryStep::GiveUp(err) => break err,
            RetryStep::Done { .. } => unreachable!(),
        }
    };
    assert_eq!(err.kind, ErrKind::Bind);
    assert!(err.detail.contains("解放されず"), "detail={}", err.detail);
    assert!(elapsed >= 120);
}

#[test]
fn bind_fails_immediately_on_non_addrinuse() {
    let port = Resource::Port("192.0.2.1:39610".to_string());
    let mut retry = Retry::new(2000, 10);
    match retry.step(&port, Attempt::Failed("not available".to_string()), 0) {
        RetryStep::GiveUp(err) => {
            assert_eq!(err.kind, ErrKind::Bind);
            assert!(!err.detail.contains("解放されず"), "detail={}", err.detail);
            assert_eq!(err.detail, "192.0.2.1:39610 へのバインド失敗: not available");
        }
        _ => panic!("no failure"),
    }
}

#[test]
fn lock_times_out_while_held() {
    let lock = Resource::Lock("/tmp/held.lock".to_string());
    let mut retry = Retry::new(120, 10);
    let waiting = retry.step(&lock, Attempt::Busy(String::new()), 119);
    assert!(matches!(waiting, RetryStep::Wait { announce: true, .. }));
    match retry.step(&lock, Attempt::Busy(String::new()), 120) {
        RetryStep::GiveUp(err) => {
            assert_eq!(err.kind, ErrKind::Bind);
            assert!(err.detail.contains("ロック"), "detail={}", err.detail);
            assert!(err.detail.contains("(120ms 再試行)"));
        }
        _ => panic!("no failure"),
    }
}

#[test]
fn lock_acquired_after_release() {
    let lock = Resource::Lock("/tmp/release.lock".to_string());
    let mut retry = Retry::new(2000, 10);
    retry.step(&lock, Attempt::Busy(String::new()), 0);
    assert!(matches!(
        retry.step(&lock, Attempt::Taken, 100),
        RetryStep::Done { waited: true }
    ));
    let mut fresh = Retry::new(2000, 10);
    assert!(matches!(
        fresh.step(&lock, Attempt::Taken, 0),
        RetryStep::Done { waited: false }
    ));
}

#[test]
fn the_port_is_tried_for_two_seconds() {
    assert_eq!(BIND_RETRY_WINDOW_MS, 2000);
    assert_eq!(BIND_RETRY_INTERVAL_MS, 30);
}

#[test]
fn other_network_errors() {
    let e = lock_file_error("/run/x", "denied");
    assert_eq!(e.kind, ErrKind::Bind);
    assert_eq!(e.detail, "ロックファイル /run/x を開けない: denied");
    let e = ephemeral_error("0.0.0.0:0", "denied");
    assert_eq!(e.kind, ErrKind::Bind);
    assert_eq!(e.detail, "0.0.0.0:0 へのバインド失敗: denied");
    let e = join_error("0.0.0.0", "no device");
    assert_eq!(e.kind, ErrKind::Network);
    assert_eq!(
        e.detail,
        "224.0.23.0 への join_multicast 失敗 (iface 0.0.0.0): no device"
    );
    assert_eq!(read_timeout_error("x").detail, "set_read_timeout 失敗: x");
    assert_eq!(send_error("x").detail, "送信失敗: x");
}
