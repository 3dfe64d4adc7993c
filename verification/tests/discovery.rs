//! Finding nodes.

use enl::cidr::Ipv4;
use enl::codec::{build, Eoj, Esv, Frame, Property};
use enl::commands::discover_request;
use enl::discover::{discover_response, multicast_failed, targets};
use enl::error::ErrKind;
use enl::net::Datagram;

const TID: u16 = 0x00AB;

fn node(from: &str, tid: u16, esv: Esv, edt: Vec<u8>) -> Datagram {
    let frame = Frame::standard(
        tid,
        Eoj([0x0E, 0xF0, 0x01]),
        Eoj([0x05, 0xFF, 0x01]),
        esv,
        vec![Property::new(0xD6, edt)],
    );
    Datagram {
        from: from.to_string(),
        data: build(&frame).unwrap(),
    }
}

#[test]
fn nodes_are_sorted_and_the_first_answer_counts() {
    let datagrams = vec![
        node("192.0.2.9", TID, Esv::GetRes, vec![1, 0x01, 0x30, 0x01]),
        node("192.0.2.10", TID, Esv::GetRes, vec![2, 0x02, 0x91, 0x01, 0x02, 0x63, 0x01]),
        node("192.0.2.9", TID, Esv::GetRes, vec![1, 0x02, 0x63, 0x01]),
    ];
    let v = discover_response(&datagrams, TID);
    assert_eq!(
        v.to_string(),
        [
            r#"{"devices":["#,
            r#"{"count":2,"instances":["029101","026301"],"ip":"192.0.2.10"},"#,
            r#"{"count":1,"instances":["013001"],"ip":"192.0.2.9"}]}"#,
        ]
        .concat()
    );
}

#[test]
fn other_traffic_is_no_node() {
    let own = Datagram {
        from: "192.0.2.1".to_string(),
        data: build(&discover_request(TID)).unwrap(),
    };
    let rubbish = Datagram {
        from: "192.0.2.2".to_string(),
        data: vec![0x10, 0x81, 0x00, 0xAB, 0x0E],
    };
    let datagrams = vec![
        own,
        rubbish,
        node("192.0.2.3", TID + 1, Esv::GetRes, vec![0]),
        node("192.0.2.4", TID, Esv::GetSna, vec![]),
    ];
    assert_eq!(discover_response(&datagrams, TID).to_string(), r#"{"devices":[]}"#);
}

#[test]
fn a_node_without_a_list_is_its_address() {
    let datagrams = vec![node("192.0.2.5", TID, Esv::GetRes, vec![])];
    assert_eq!(
        discover_response(&datagrams, TID).to_string(),
        r#"{"devices":[{"ip":"192.0.2.5"}]}"#
    );
}

#[test]
fn a_later_answer_counts_where_the_first_is_unusable() {
    let datagrams = vec![
        node("192.0.2.5", TID, Esv::Get, vec![1, 1, 1, 1]),
        node("192.0.2.5", TID, Esv::GetRes, vec![1, 0x01, 0x30, 0x01]),
    ];
    let v = discover_response(&datagrams, TID);
    assert_eq!(v["devices"][0]["instances"][0], "013001");
}

#[test]
fn the_request_goes_to_the_hosts_and_to_the_group() {
    let to = |hosts: Option<Vec<Ipv4>>| -> Vec<String> {
        targets(&hosts)
            .iter()
            .map(|dst| format!("{}:{}", dst.ip, dst.port))
            .collect()
    };
    assert_eq!(to(None), vec!["224.0.23.0:3610"]);
    assert_eq!(
        to(Some(vec![Ipv4([192, 0, 2, 1]), Ipv4([192, 0, 2, 2])])),
        vec!["192.0.2.1:3610", "192.0.2.2:3610", "224.0.23.0:3610"]
    );
}

#[test]
fn failed_multicast_matters_without_a_sweep() {
    assert!(multicast_failed(true, "down").is_ok());
    let e = multicast_failed(false, "down").unwrap_err();
    assert_eq!(e.kind, ErrKind::Network);
    assert_eq!(e.detail, "multicast 送信失敗: down");
}
