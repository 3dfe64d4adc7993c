//! Requests, and what is printed of the responses.

use enl::codec::{build, parse, Edata, Eoj, Esv, Frame, Property, EHD1, EHD2_FORMAT1};
use enl::commands::{
    build_frame, describe_request, describe_response, discover_request, dst_for, frame_to_json,
    get_request, get_response, next_tid, raw_request, raw_response, set_nowait_report,
    set_nowait_request, set_request, set_response, standard_or_reject, transport_name,
};
use enl::error::ErrKind;

const CONTROLLER: Eoj = Eoj([0x05, 0xFF, 0x01]);
const AIRCON: Eoj = Eoj([0x01, 0x30, 0x01]);
const SHUTTER: Eoj = Eoj([0x02, 0x63, 0x01]);

fn response(from: Eoj, esv: Esv, props: Vec<Property>) -> Vec<u8> {
    build(&Frame::standard(0x1234, from, CONTROLLER, esv, props)).unwrap()
}

#[test]
fn dst_for_unicast_and_multicast() {
    let to = |multicast: bool| {
        let dst = dst_for("192.0.2.22", multicast);
        format!("{}:{}", dst.ip, dst.port)
    };
    assert_eq!(to(false), "192.0.2.22:3610");
    assert_eq!(to(true), "224.0.23.0:3610");
    assert_eq!(transport_name(false), "unicast");
    assert_eq!(transport_name(true), "multicast");
}

#[test]
fn tid_is_the_low_half_of_the_nanoseconds() {
    assert_eq!(next_tid(Some(0x0001_2345)), 0x2345);
    assert_eq!(next_tid(Some(999_999_999)), (999_999_999u32 % 65536) as u16);
    assert_eq!(next_tid(None), 1);
}

#[test]
fn get_request_bytes() {
    let frame = get_request(0x0102, AIRCON, &[0x80, 0xB0]);
    assert_eq!(
        build_frame(&frame).unwrap(),
        vec![
            0x10, 0x81, 0x01, 0x02, 0x05, 0xFF, 0x01, 0x01, 0x30, 0x01, 0x62, 0x02, 0x80, 0x00,
            0xB0, 0x00
        ]
    );
}

#[test]
fn set_request_bytes() {
    let frame = set_request(1, AIRCON, 0x80, vec![0x30]);
    assert_eq!(
        build_frame(&frame).unwrap(),
        vec![
            0x10, 0x81, 0x00, 0x01, 0x05, 0xFF, 0x01, 0x01, 0x30, 0x01, 0x61, 0x01, 0x80, 0x01,
            0x30
        ]
    );
}

#[test]
fn describe_and_discover_requests() {
    let frame = describe_request(1, AIRCON);
    let epcs: Vec<u8> = frame.props().unwrap().iter().map(|p| p.epc).collect();
    assert_eq!(epcs, vec![0x9F, 0x9E, 0x9D]);
    let frame = discover_request(0xABCD);
    assert_eq!(
        build(&frame).unwrap(),
        vec![
            0x10, 0x81, 0xAB, 0xCD, 0x05, 0xFF, 0x01, 0x0E, 0xF0, 0x01, 0x62, 0x01, 0xD6, 0x00
        ]
    );
}

#[test]
fn raw_request_takes_another_sender() {
    let frame = raw_request(1, AIRCON, Esv::InfReq, None, vec![Property::get(0x80)]);
    assert!(matches!(frame.edata, Edata::Standard { seoj, .. } if seoj == CONTROLLER));
    let frame = raw_request(1, AIRCON, Esv::Unknown(0x99), Some(SHUTTER), vec![]);
    assert!(matches!(frame.edata, Edata::Standard { seoj, .. } if seoj == SHUTTER));
    assert_eq!(parse(&build(&frame).unwrap()), Ok(frame));
}

#[test]
fn build_frame_oversize_edt_is_usage() {
    let frame = set_request(1, AIRCON, 0x80, vec![0; 256]);
    let e = build_frame(&frame).unwrap_err();
    assert_eq!(e.kind, ErrKind::Usage);
    assert_eq!(
        e.detail,
        "フレーム構築失敗: サイズ上限超過: EDT は 255 バイト以下 (PDC 上限)"
    );
}

#[test]
fn get_prints_properties() {
    let data = response(
        AIRCON,
        Esv::GetRes,
        vec![Property::new(0x80, vec![0x30]), Property::new(0xF1, vec![0xAB])],
    );
    let v = get_response("192.0.2.10", AIRCON, &data).unwrap();
    assert_eq!(
        v.to_string(),
        [
            r#"{"eoj":"013001","esv":"GetRes","ip":"192.0.2.10","properties":["#,
            r#"{"edt_hex":"30","epc":"80","name":"power","pdc":1,"value":{"power":"on"}},"#,
            r#"{"edt_hex":"ab","epc":"F1","pdc":1}]}"#,
        ]
        .concat()
    );
}

#[test]
fn set_prints_accepted() {
    let data = response(AIRCON, Esv::SetRes, vec![Property::get(0x80)]);
    let v = set_response("192.0.2.10", AIRCON, &data).unwrap();
    assert_eq!(v["result"], "accepted");
    assert_eq!(v["esv"], "SetRes");
    assert_eq!(v["properties"][0]["edt_hex"], "");
    assert_eq!(v["properties"][0]["pdc"], 0);
}

#[test]
fn set_without_waiting_prints_sent() {
    let frame = set_nowait_request(0x002A, Eoj([0x02, 0x91, 0x01]), 0x80, vec![0x30]);
    assert_eq!(
        build_frame(&frame).unwrap(),
        [0x10, 0x81, 0x00, 0x2A, 0x05, 0xFF, 0x01, 0x02, 0x91, 0x01, 0x60, 0x01, 0x80, 0x01, 0x30]
    );
    let v = set_nowait_report("127.0.0.1", Eoj([0x02, 0x91, 0x01]), 0x80, vec![0x30]);
    assert_eq!(
        v.to_string(),
        [
            r#"{"eoj":"029101","esv":"SetI","ip":"127.0.0.1","properties":["#,
            r#"{"edt_hex":"30","epc":"80","name":"power","pdc":1,"value":{"power":"on"}}],"#,
            r#""result":"sent"}"#,
        ]
        .concat()
    );
}

#[test]
fn describe_prints_maps() {
    let data = response(
        SHUTTER,
        Esv::GetRes,
        vec![
            Property::new(0x9F, vec![2, 0xE0, 0x77]),
            Property::new(0x9E, vec![5]),
            Property::new(0xE0, vec![0x41]),
        ],
    );
    let v = describe_response("192.0.2.10", SHUTTER, &data).unwrap();
    assert_eq!(v["get_map"][0]["name"], "open_close_operation");
    assert_eq!(v["get_map"][0]["values"]["41"], "open");
    assert_eq!(v["get_map"][1].to_string(), r#"{"epc":"77"}"#);
    // A map that cannot be read is left raw, and a map that did not come is left out.
    assert_eq!(v["set_map"].to_string(), r#"{"edt_hex":"05"}"#);
    assert!(v.get("inf_map").is_none());
    assert_eq!(v["esv"], "GetRes");
}

#[test]
fn refusal_is_device_rejected() {
    let data = response(AIRCON, Esv::GetSna, vec![Property::get(0x8F), Property::get(0xB0)]);
    for e in [
        get_response("192.0.2.10", AIRCON, &data).unwrap_err(),
        set_response("192.0.2.10", AIRCON, &data).unwrap_err(),
        describe_response("192.0.2.10", AIRCON, &data).unwrap_err(),
    ] {
        assert_eq!(e.kind, ErrKind::DeviceRejected);
        assert_eq!(e.kind.exit_code(), 4);
        assert_eq!(e.detail, "機器が GetSna を拒否 (SNA)");
        let extra = e.extra.unwrap();
        assert_eq!(
            extra.to_string(),
            r#"{"eoj":"013001","esv":"GetSna","rejected_epc":["8F","B0"]}"#
        );
    }
}

#[test]
fn setget_responses_are_not_interpreted() {
    let setget = |esv: Esv| Frame {
        ehd1: EHD1,
        ehd2: EHD2_FORMAT1,
        tid: 1,
        edata: Edata::SetGet {
            seoj: AIRCON,
            deoj: CONTROLLER,
            esv,
            set_props: vec![],
            get_props: vec![],
        },
    };
    let e = standard_or_reject(&setget(Esv::SetGetSna), AIRCON).unwrap_err();
    assert_eq!(e.kind, ErrKind::DeviceRejected);
    assert!(e.extra.is_none());
    let e = standard_or_reject(&setget(Esv::SetGetRes), AIRCON).unwrap_err();
    assert_eq!(e.kind, ErrKind::Parse);
    assert_eq!(e.detail, "想定外の SETGET 応答");
}

#[test]
fn arbitrary_responses_are_not_interpreted() {
    let e = get_response("192.0.2.10", AIRCON, &[0x10, 0x82, 0, 1, 0xDE, 0xAD]).unwrap_err();
    assert_eq!(e.kind, ErrKind::Parse);
    assert_eq!(e.extra.unwrap()["raw_hex"], "dead");
}

#[test]
fn raw_prints_refusals_and_rubbish() {
    let sent = [0x10, 0x81];
    let data = response(AIRCON, Esv::GetSna, vec![Property::get(0x8F)]);
    let v = raw_response("192.0.2.10", &sent, &data);
    assert_eq!(v["sent_hex"], "1081");
    assert_eq!(v["response_hex"], "1081123401300105ff0152018f00");
    assert_eq!(v["frame"]["esv"], "GetSna");
    assert!(v.get("parse_error").is_none());
    let v = raw_response("192.0.2.10", &sent, &[0x20]);
    assert_eq!(v["parse_error"], "EHD1 が不正: 0x20 (期待 0x10)");
    assert!(v.get("frame").is_none());
}

#[test]
fn frames_of_every_format_as_json() {
    let v = frame_to_json(&parse(&response(AIRCON, Esv::Inf, vec![])).unwrap());
    assert_eq!(v["format"], "standard");
    assert_eq!(v["ehd2"], "81");
    assert_eq!(v["tid"], "1234");
    assert_eq!(v["seoj"], "013001");
    assert_eq!(v["deoj"], "05ff01");
    let setget = Frame {
        ehd1: EHD1,
        ehd2: EHD2_FORMAT1,
        tid: 0xFF,
        edata: Edata::SetGet {
            seoj: AIRCON,
            deoj: CONTROLLER,
            esv: Esv::SetGetRes,
            set_props: vec![Property::get(0x80)],
            get_props: vec![Property::new(0xBB, vec![0xFB])],
        },
    };
    let v = frame_to_json(&setget);
    assert_eq!(v["format"], "setget");
    assert_eq!(v["set_properties"][0]["epc"], "80");
    assert_eq!(v["get_properties"][0]["value"]["room_temp_c"], -5);
    let v = frame_to_json(&parse(&[0x10, 0x82, 0, 7, 0xBE]).unwrap());
    assert_eq!(
        v.to_string(),
        r#"{"edt_hex":"be","ehd2":"82","format":"arbitrary","tid":"0007"}"#
    );
}
