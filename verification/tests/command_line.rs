//! The words of the subcommands.

use enl::cidr::Ipv4;
use enl::cli::{
    parse_eoj, parse_epc_one, parse_esv, parse_prop_arg, resolve_edt, resolve_epc, resolve_epcs,
    run, Command, Task,
};
use enl::codec::{build, Eoj, Esv, Frame, Property};
use enl::error::{AppError, ErrKind};

fn s(text: &str) -> String {
    text.to_string()
}

fn failure(r: Result<Task, AppError>) -> AppError {
    match r {
        Ok(_) => panic!("no failure"),
        Err(e) => e,
    }
}

#[test]
fn parse_esv_known_and_unknown() {
    assert_eq!(parse_esv("62").unwrap(), Esv::Get);
    assert_eq!(parse_esv("61").unwrap(), Esv::SetC);
    assert_eq!(parse_esv("99").unwrap(), Esv::Unknown(0x99));
    assert!(parse_esv("6201").is_err());
    assert!(parse_esv("zz").is_err());
}

#[test]
fn parse_prop_arg_get_form() {
    assert_eq!(parse_prop_arg("80").unwrap(), Property::new(0x80, vec![]));
}

#[test]
fn parse_prop_arg_set_form() {
    assert_eq!(
        parse_prop_arg("80:30").unwrap(),
        Property::new(0x80, vec![0x30])
    );
    assert_eq!(
        parse_prop_arg("d6:0101300 1".replace(' ', "").as_str()).unwrap(),
        Property::new(0xD6, vec![0x01, 0x01, 0x30, 0x01])
    );
}

#[test]
fn parse_prop_arg_errors() {
    assert!(parse_prop_arg("8030:30").is_err());
    assert!(parse_prop_arg("80:zz").is_err());
}

#[test]
fn parse_prop_arg_edges() {
    assert_eq!(parse_prop_arg("80:").unwrap(), Property::new(0x80, vec![]));
    let e = parse_prop_arg("80:30:31").unwrap_err();
    assert_eq!(e.detail, "EDT hex 不正 '30:31': hex 文字列が不正");
}

#[test]
fn resolve_epc_name_or_hex() {
    let aircon = Eoj::from_hex("013001").unwrap();
    assert_eq!(resolve_epc(aircon, "operation_mode").unwrap(), 0xB0);
    assert_eq!(resolve_epc(aircon, "power").unwrap(), 0x80);
    assert_eq!(resolve_epc(aircon, "B0").unwrap(), 0xB0);
    assert_eq!(resolve_epc(aircon, "ff").unwrap(), 0xFF);
    assert!(resolve_epc(aircon, "bogus").is_err());
}

#[test]
fn resolve_epc_is_class_scoped() {
    let aircon = Eoj::from_hex("013001").unwrap();
    let shutter = Eoj::from_hex("026301").unwrap();
    assert_eq!(resolve_epc(shutter, "open_close_state").unwrap(), 0xEA);
    assert!(resolve_epc(aircon, "open_close_state").is_err());
}

#[test]
fn resolve_edt_name_or_hex() {
    let shutter = Eoj::from_hex("026301").unwrap();
    assert_eq!(resolve_edt(shutter, 0xE0, "close").unwrap(), vec![0x42]);
    assert_eq!(resolve_edt(shutter, 0xE0, "open").unwrap(), vec![0x41]);
    assert_eq!(resolve_edt(shutter, 0xE0, "42").unwrap(), vec![0x42]);
    assert_eq!(resolve_edt(shutter, 0xE1, "32").unwrap(), vec![0x32]);
    assert!(resolve_edt(shutter, 0xE0, "bogus").is_err());
}

#[test]
fn every_epc_can_be_given_by_its_digits() {
    let aircon = Eoj([0x01, 0x30, 0x01]);
    for epc in 0..=255u8 {
        assert_eq!(resolve_epc(aircon, &format!("{epc:02X}")).unwrap(), epc);
        assert_eq!(resolve_edt(aircon, 0xB0, &format!("{epc:02x}")).unwrap(), vec![epc]);
    }
}

#[test]
fn words_that_mean_nothing_are_usage_errors() {
    let aircon = Eoj([0x01, 0x30, 0x01]);
    let details = [
        (parse_esv("6201").unwrap_err(), "ESV は 1 バイト (2 hex 桁) 必須"),
        (parse_esv("zz").unwrap_err(), "ESV hex 不正: hex 文字列が不正"),
        (parse_epc_one("8030").unwrap_err(), "EPC は 1 バイト (2 hex 桁) 必須"),
        (parse_epc_one("z").unwrap_err(), "EPC hex 不正: hex 文字列が不正"),
        (
            parse_eoj("01").unwrap_err(),
            "EOJ 不正: 入力フィールド不正: EOJ は 3 バイト (6 hex 桁) 必須",
        ),
        (
            resolve_epc(aircon, "bogus").unwrap_err(),
            "EPC 解決失敗 'bogus' (既知の名前でも 2 hex 桁でもない)",
        ),
        (
            resolve_edt(aircon, 0xB0, "bogus").unwrap_err(),
            "EDT hex 不正: hex 文字列が不正",
        ),
    ];
    for (e, detail) in details {
        assert_eq!(e.kind, ErrKind::Usage);
        assert_eq!(e.kind.exit_code(), 1);
        assert_eq!(e.detail, detail);
    }
}

#[test]
fn the_first_bad_word_is_reported() {
    let aircon = Eoj([0x01, 0x30, 0x01]);
    let e = resolve_epcs(aircon, &vec![s("power"), s("one"), s("two")]).unwrap_err();
    assert!(e.detail.contains("'one'"));
    assert_eq!(
        resolve_epcs(aircon, &vec![s("power"), s("B0")]).unwrap(),
        vec![0x80, 0xB0]
    );
}

#[test]
fn get_is_a_request() {
    let command = Command::Get {
        ip: s("192.0.2.10"),
        eoj: s("013001"),
        epc: vec![s("power"), s("bb")],
        multicast: true,
        timeout_ms: 2000,
    };
    match run(command, None, 7).unwrap() {
        Task::Ask(request) => {
            assert_eq!(request.ip, "192.0.2.10");
            assert_eq!(request.dst.ip, "224.0.23.0");
            assert_eq!(request.dst.port, 3610);
            assert_eq!(request.timeout_ms, 2000);
            let epcs: Vec<u8> = request.frame.props().unwrap().iter().map(|p| p.epc).collect();
            assert_eq!(epcs, vec![0x80, 0xBB]);
            let reply = build(&Frame::standard(
                7,
                Eoj([0x01, 0x30, 0x01]),
                Eoj([0x05, 0xFF, 0x01]),
                Esv::GetRes,
                vec![Property::new(0x80, vec![0x31])],
            )).unwrap();
            let v = request.report(&[], &reply).unwrap();
            assert_eq!(v["properties"][0]["value"]["power"], "off");
        }
        _ => panic!("no request"),
    }
}

#[test]
fn set_is_a_request() {
    let command = Command::Write {
        ip: s("192.0.2.10"),
        eoj: s("026301"),
        epc: s("open_close_operation"),
        edt: s("close"),
        multicast: false,
        nowait: false,
        timeout_ms: 2000,
    };
    match run(command, None, 7).unwrap() {
        Task::Ask(request) => {
            assert_eq!(request.dst.ip, "192.0.2.10");
            assert_eq!(
                request.frame.props().unwrap(),
                &[Property::new(0xE0, vec![0x42])]
            );
            assert_eq!(request.frame.esv(), Some(Esv::SetC));
            let reply = build(&Frame::standard(
                7,
                Eoj([0x02, 0x63, 0x01]),
                Eoj([0x05, 0xFF, 0x01]),
                Esv::SetRes,
                vec![Property::get(0xE0)],
            )).unwrap();
            assert_eq!(request.report(&[], &reply).unwrap()["result"], "accepted");
        }
        _ => panic!("no request"),
    }
}

#[test]
fn set_without_waiting_is_sent() {
    let write = |edt: &str| Command::Write {
        ip: s("192.0.2.22"),
        eoj: s("029101"),
        epc: s("power"),
        edt: s(edt),
        multicast: true,
        nowait: true,
        timeout_ms: 2000,
    };
    match run(write("on"), None, 7).unwrap() {
        Task::Tell { dst, frame, value } => {
            assert_eq!(dst.ip, "224.0.23.0");
            assert_eq!(dst.port, 3610);
            assert_eq!(frame.esv(), Some(Esv::SetI));
            assert_eq!(frame.props().unwrap(), &[Property::new(0x80, vec![0x30])]);
            assert_eq!(value["ip"], "192.0.2.22");
            assert_eq!(value["result"], "sent");
        }
        _ => panic!("nothing to send"),
    }
    assert_eq!(failure(run(write("bogus"), None, 7)).kind, ErrKind::Usage);
}

#[test]
fn describe_and_raw_are_requests() {
    let command = Command::Describe {
        ip: s("192.0.2.10"),
        eoj: s("026301"),
        multicast: false,
        timeout_ms: 2000,
    };
    match run(command, None, 7).unwrap() {
        Task::Ask(request) => assert!(request.report(&[], &[0x10]).is_err()),
        _ => panic!("no request"),
    }
    let command = Command::Raw {
        ip: s("192.0.2.10"),
        eoj: s("013001"),
        esv: s("61"),
        props: vec![s("80:30")],
        seoj: Some(s("05FF02")),
        multicast: false,
        timeout_ms: 2000,
    };
    match run(command, None, 7).unwrap() {
        Task::Ask(request) => {
            let sent = build(&request.frame).unwrap();
            assert_eq!(sent[6], 0x02);
            assert_eq!(sent[10], 0x61);
            let v = request.report(&sent, &[0x10]).unwrap();
            assert_eq!(v["response_hex"], "10");
        }
        _ => panic!("no request"),
    }
}

#[test]
fn raw_words_are_read_in_order() {
    let raw = |eoj: &str, esv: &str, seoj: &str, prop: &str| Command::Raw {
        ip: s("192.0.2.10"),
        eoj: s(eoj),
        esv: s(esv),
        props: vec![s(prop)],
        seoj: Some(s(seoj)),
        multicast: false,
        timeout_ms: 2000,
    };
    let detail = |c: Command| failure(run(c, None, 7)).detail;
    assert!(detail(raw("x", "x", "x", "x")).starts_with("EOJ 不正"));
    assert!(detail(raw("013001", "x", "x", "x")).starts_with("ESV hex 不正"));
    assert!(detail(raw("013001", "62", "x", "x")).starts_with("EOJ 不正"));
    assert!(detail(raw("013001", "62", "05FF01", "x")).starts_with("EPC hex 不正"));
}

#[test]
fn discover_sweeps_a_network_or_nothing() {
    let command = Command::Discover {
        cidr: None,
        timeout_ms: 3000,
    };
    match run(command, None, 0x0102).unwrap() {
        Task::Discover { hosts, frame, window_ms } => {
            assert!(hosts.is_none());
            assert_eq!(frame.tid, 0x0102);
            assert_eq!(window_ms, 3000);
        }
        _ => panic!("no discovery"),
    }
    let command = Command::Discover {
        cidr: None,
        timeout_ms: 3000,
    };
    match run(command, Some(Ipv4([192, 0, 2, 77])), 1).unwrap() {
        Task::Discover { hosts, .. } => assert_eq!(hosts.unwrap()[0], Ipv4([192, 0, 2, 1])),
        _ => panic!("no discovery"),
    }
    let command = Command::Discover {
        cidr: Some(s("192.0.2.0")),
        timeout_ms: 3000,
    };
    assert_eq!(
        failure(run(command, None, 1)).detail,
        "CIDR 不正 '192.0.2.0': '/' 無し"
    );
}

#[test]
fn listen_wants_at_least_one() {
    let listen = |count: usize, eoj: &str, epc: &str| Command::Listen {
        count,
        timeout_ms: 0,
        from: None,
        eoj: Some(s(eoj)),
        epc: Some(s(epc)),
    };
    assert_eq!(failure(run(listen(0, "zz", "zz"), None, 1)).detail, "--count は 1 以上");
    assert!(failure(run(listen(1, "zz", "zz"), None, 1)).detail.starts_with("EOJ フィルタ"));
    assert!(failure(run(listen(1, "0291", "zz"), None, 1)).detail.starts_with("EPC hex 不正"));
    match run(listen(1, "0291", "80"), None, 1).unwrap() {
        Task::Listen(l) => assert_eq!(l.limit_ms(), None),
        _ => panic!("no listening"),
    }
}

#[test]
fn schema_is_shown() {
    let command = Command::Schema {
        target: Some(s("get")),
    };
    match run(command, None, 1).unwrap() {
        Task::Show(v) => assert_eq!(v["title"], "enl get output"),
        _ => panic!("nothing shown"),
    }
}
