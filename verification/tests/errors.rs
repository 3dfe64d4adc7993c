//! Error kinds, exit codes and the JSON of an error.

use enl::commands::parse_response;
use enl::error::{AppError, ErrKind};

#[test]
fn usage_kind_maps_to_exit_1() {
    assert_eq!(ErrKind::Usage.as_str(), "usage");
    assert_eq!(ErrKind::Usage.exit_code(), 1);
}

#[test]
fn exit_codes_by_kind() {
    assert_eq!(ErrKind::Timeout.exit_code(), 3);
    assert_eq!(ErrKind::DeviceRejected.exit_code(), 4);
    assert_eq!(ErrKind::Network.exit_code(), 5);
    assert_eq!(ErrKind::Bind.exit_code(), 5);
    assert_eq!(ErrKind::Parse.exit_code(), 1);
    assert_eq!(ErrKind::DeviceRejected.as_str(), "device_rejected");
}

#[test]
fn payload_without_context() {
    let e = AppError::new(ErrKind::Timeout, "no answer".to_string());
    assert_eq!(
        e.payload().to_string(),
        r#"{"error":{"detail":"no answer","kind":"timeout"}}"#
    );
    assert_eq!(e.to_string(), "timeout: no answer");
}

#[test]
fn payload_with_context() {
    let e = parse_response(&[0x20]).unwrap_err();
    let payload = e.payload();
    assert_eq!(payload["error"]["kind"], "parse");
    assert_eq!(payload["error"]["context"]["raw_hex"], "20");
    assert_eq!(
        payload["error"]["detail"],
        "応答パース失敗: EHD1 が不正: 0x20 (期待 0x10)"
    );
}
