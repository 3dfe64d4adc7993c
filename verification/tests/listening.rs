//! Waiting for notifications.

use enl::codec::{build, parse, Eoj, Esv, Frame, Property};
use enl::error::ErrKind;
use enl::listen::{inf_event, infc_res, EojFilter, ListenStep, Listener};
use enl::net::Datagram;

const LIGHT: Eoj = Eoj([0x02, 0x91, 0x01]);
const NODE_PROFILE: Eoj = Eoj([0x0E, 0xF0, 0x01]);

/// A single-function light announces that it is off.
fn inf_frame(esv: Esv) -> Frame {
    Frame::standard(
        0x00AB,
        LIGHT,
        NODE_PROFILE,
        esv,
        vec![Property::new(0x80, vec![0x31])],
    )
}

fn datagram(from: &str, esv: Esv) -> Datagram {
    Datagram {
        from: from.to_string(),
        data: build(&inf_frame(esv)).unwrap(),
    }
}

#[test]
fn eoj_filter_class_and_exact() {
    let class = EojFilter::from_hex("0291").unwrap();
    assert!(class.matches(LIGHT));
    assert!(class.matches(Eoj([0x02, 0x91, 0x02])));
    assert!(!class.matches(Eoj([0x01, 0x30, 0x01])));

    let exact = EojFilter::from_hex("029101").unwrap();
    assert!(exact.matches(LIGHT));
    assert!(!exact.matches(Eoj([0x02, 0x91, 0x02])));

    assert!(EojFilter::from_hex("02").is_err());
    assert!(EojFilter::from_hex("zz").is_err());
}

#[test]
fn eoj_filter_says_why() {
    let e = EojFilter::from_hex("02").unwrap_err();
    assert_eq!(e.kind, ErrKind::Usage);
    assert_eq!(
        e.detail,
        "EOJ フィルタは 4 hex 桁 (クラス) か 6 hex 桁 (完全一致)"
    );
    let e = EojFilter::from_hex("zz").unwrap_err();
    assert_eq!(e.detail, "EOJ フィルタ hex 不正: hex 文字列が不正");
}

#[test]
fn inf_event_accepts_inf_and_decodes() {
    let ev = inf_event("192.0.2.20", &inf_frame(Esv::Inf), None, None, None).unwrap();
    assert_eq!(ev["ip"], "192.0.2.20");
    assert_eq!(ev["tid"], "00ab");
    assert_eq!(ev["seoj"], "029101");
    assert_eq!(ev["esv"], "Inf");
    assert_eq!(ev["properties"][0]["epc"], "80");
    assert_eq!(ev["properties"][0]["edt_hex"], "31");
    assert_eq!(ev["properties"][0]["value"]["power"], "off");
}

#[test]
fn inf_event_rejects_non_notification() {
    let src = "192.0.2.20";
    assert!(inf_event(src, &inf_frame(Esv::GetRes), None, None, None).is_none());
    assert!(inf_event(src, &inf_frame(Esv::Get), None, None, None).is_none());
}

#[test]
fn inf_event_filters() {
    let src = "192.0.2.20";
    let other = "192.0.2.99";
    let f = inf_frame(Esv::Inf);
    assert!(inf_event(src, &f, Some(src), None, None).is_some());
    assert!(inf_event(src, &f, Some(other), None, None).is_none());
    let class = EojFilter::from_hex("0291").unwrap();
    let miss = EojFilter::from_hex("013001").unwrap();
    assert!(inf_event(src, &f, None, Some(&class), None).is_some());
    assert!(inf_event(src, &f, None, Some(&miss), None).is_none());
    assert!(inf_event(src, &f, None, None, Some(0x80)).is_some());
    assert!(inf_event(src, &f, None, None, Some(0xB0)).is_none());
}

#[test]
fn infc_is_acknowledged() {
    assert!(infc_res(&inf_frame(Esv::Inf)).is_none());
    let answer = infc_res(&inf_frame(Esv::InfC)).unwrap();
    let bytes = build(&answer).unwrap();
    assert_eq!(&bytes[..10], &[0x10, 0x81, 0x00, 0xAB, 0x05, 0xFF, 0x01, 0x02, 0x91, 0x01]);
    assert_eq!(&bytes[10..], &[0x7A, 0x01, 0x80, 0x00]);
    assert_eq!(parse(&bytes), Ok(answer));
}

#[test]
fn listening_stops_at_the_count() {
    let mut l = Listener::new(2, 60000, None, None, None);
    assert_eq!(l.limit_ms(), Some(60000));
    assert!(matches!(l.take(&datagram("192.0.2.1", Esv::GetRes)), ListenStep::Skip));
    assert!(matches!(
        l.take(&datagram("192.0.2.1", Esv::Inf)),
        ListenStep::Taken { answer: None }
    ));
    assert!(!l.is_full());
    match l.take(&datagram("192.0.2.2", Esv::InfC)) {
        ListenStep::Taken { answer: Some(bytes) } => assert_eq!(bytes[10], 0x7A),
        _ => panic!("no answer"),
    }
    assert!(l.is_full());
    let v = l.finish().unwrap();
    assert_eq!(v["events"].as_array().unwrap().len(), 2);
    assert_eq!(v["events"][0]["ip"], "192.0.2.1");
    assert_eq!(v["events"][1]["esv"], "InfC");
}

#[test]
fn listening_to_nothing_times_out() {
    let mut l = Listener::new(1, 500, Some("192.0.2.7".to_string()), None, None);
    let rubbish = Datagram {
        from: "192.0.2.7".to_string(),
        data: vec![1, 2, 3],
    };
    assert!(matches!(l.take(&rubbish), ListenStep::Skip));
    assert!(matches!(l.take(&datagram("192.0.2.8", Esv::Inf)), ListenStep::Skip));
    let e = l.finish().unwrap_err();
    assert_eq!(e.kind, ErrKind::Timeout);
    assert_eq!(e.detail, "INF 通知なし (500ms)");
}

#[test]
fn fewer_notifications_than_wanted_are_a_success() {
    let mut l = Listener::new(3, 0, None, None, Some(0x80));
    assert_eq!(l.limit_ms(), None);
    l.take(&datagram("192.0.2.1", Esv::Inf));
    assert_eq!(l.finish().unwrap()["events"].as_array().unwrap().len(), 1);
}
