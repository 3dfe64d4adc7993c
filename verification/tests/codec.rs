//! Frames: reading, writing and hexadecimal text.

use enl::codec::{
    build, bytes_to_hex, hex_to_bytes, parse, CodecError, Edata, Eoj, Esv, Frame,
    Property, EHD1, EHD2_FORMAT1,
};

/// Reading, writing and reading again gives the same frame, and the same bytes.
fn roundtrip(buf: &[u8]) {
    let first = parse(buf).expect("first parse");
    let rebuilt = build(&first).expect("build");
    assert_eq!(rebuilt, buf, "the bytes differ");
    let second = parse(&rebuilt).expect("second parse");
    assert_eq!(first, second, "the frames differ");
}

fn controller() -> Eoj {
    Eoj([0x05, 0xFF, 0x01])
}

#[test]
fn roundtrip_get_request() {
    let buf = build(&Frame::standard(
        0x0001,
        controller(),
        Eoj([0x0E, 0xF0, 0x01]),
        Esv::Get,
        vec![Property::get(0xD6)],
    )).unwrap();
    roundtrip(&buf);
}

#[test]
fn roundtrip_get_response_multi_prop() {
    let buf = build(&Frame::standard(
        0x1234,
        Eoj([0x0E, 0xF0, 0x01]),
        controller(),
        Esv::GetRes,
        vec![
            Property::new(0xD6, vec![0x01, 0x01, 0x30, 0x01]),
            Property::new(0x80, vec![0x30]),
        ],
    )).unwrap();
    roundtrip(&buf);
}

#[test]
fn roundtrip_setget() {
    let frame = Frame {
        ehd1: EHD1,
        ehd2: EHD2_FORMAT1,
        tid: 0x00FF,
        edata: Edata::SetGet {
            seoj: controller(),
            deoj: Eoj([0x01, 0x30, 0x01]),
            esv: Esv::SetGet,
            set_props: vec![Property::new(0x80, vec![0x30])],
            get_props: vec![Property::get(0xB0), Property::get(0xBB)],
        },
    };
    roundtrip(&build(&frame).unwrap());
}

#[test]
fn roundtrip_arbitrary_format() {
    let buf = vec![0x10, 0x82, 0xAB, 0xCD, 0xDE, 0xAD, 0xBE, 0xEF];
    roundtrip(&buf);
    let f = parse(&buf).unwrap();
    assert!(matches!(f.edata, Edata::Arbitrary(_)));
}

#[test]
fn parse_sna_rejection() {
    let buf = build(&Frame::standard(
        0x0001,
        Eoj([0x01, 0x30, 0x01]),
        controller(),
        Esv::GetSna,
        vec![Property::get(0xFF)],
    )).unwrap();
    let f = parse(&buf).unwrap();
    assert_eq!(f.esv(), Some(Esv::GetSna));
    assert!(f.esv().unwrap().is_sna());
}

#[test]
fn unknown_esv_does_not_break() {
    let buf = build(&Frame::standard(
        0x0001,
        Eoj([0x01, 0x30, 0x01]),
        controller(),
        Esv::Unknown(0x99),
        vec![Property::get(0x80)],
    )).unwrap();
    roundtrip(&buf);
    assert_eq!(parse(&buf).unwrap().esv(), Some(Esv::Unknown(0x99)));
}

#[test]
fn truncated_frame_errors_not_panics() {
    assert!(matches!(parse(&[0x10]), Err(CodecError::Truncated(_))));
    assert!(matches!(parse(&[]), Err(CodecError::Truncated(_))));
    // The PDC is larger than what is left.
    let bad = vec![
        0x10, 0x81, 0x00, 0x01, 0x01, 0x30, 0x01, 0x05, 0xFF, 0x01, 0x62, 0x01, 0x80, 0x05, 0x01,
    ];
    assert!(matches!(parse(&bad), Err(CodecError::Truncated(_))));
}

#[test]
fn bad_ehd1_errors() {
    assert!(matches!(
        parse(&[0x20, 0x81, 0, 0]),
        Err(CodecError::BadEhd1(0x20))
    ));
}

#[test]
fn esv_u8_roundtrip_all_values() {
    for v in 0x00..=0xFFu8 {
        assert_eq!(Esv::from_u8(v).to_u8(), v, "ESV 0x{v:02X} が不一致");
    }
}

#[test]
fn hex_helpers() {
    assert_eq!(hex_to_bytes("01a3").unwrap(), vec![0x01, 0xA3]);
    assert_eq!(hex_to_bytes("0x0EF001").unwrap(), vec![0x0E, 0xF0, 0x01]);
    assert_eq!(bytes_to_hex(&[0x0E, 0xF0, 0x01]), "0ef001");
    assert!(hex_to_bytes("xyz").is_err());
    assert!(hex_to_bytes("abc").is_err());
}

#[test]
fn eoj_hex_roundtrip() {
    let e = Eoj::from_hex("013001").unwrap();
    assert_eq!(e.to_hex(), "013001");
    assert_eq!(e.class_group(), 0x01);
    assert!(Eoj::from_hex("0130").is_err());
}

#[test]
fn a_frame_has_these_bytes() {
    let frame = Frame::standard(
        0x1234,
        controller(),
        Eoj([0x01, 0x30, 0x01]),
        Esv::SetC,
        vec![Property::new(0x80, vec![0x30])],
    );
    assert_eq!(
        build(&frame).unwrap(),
        vec![
            0x10, 0x81, 0x12, 0x34, 0x05, 0xFF, 0x01, 0x01, 0x30, 0x01, 0x61, 0x01, 0x80, 0x01,
            0x30
        ]
    );
    assert_eq!(frame.props().unwrap()[0].pdc(), 1);
}

#[test]
fn every_field_can_be_cut_off() {
    let full = build(&Frame::standard(
        1,
        controller(),
        Eoj([0x01, 0x30, 0x01]),
        Esv::Get,
        vec![Property::new(0x80, vec![1])],
    )).unwrap();
    let fields = [
        (0, "EHD1"),
        (1, "EHD2"),
        (3, "TID"),
        (5, "SEOJ"),
        (9, "DEOJ"),
        (10, "ESV"),
        (11, "OPC"),
        (12, "EPC"),
        (13, "PDC"),
        (14, "EDT"),
    ];
    for (n, field) in fields {
        assert_eq!(parse(&full[..n]), Err(CodecError::Truncated(field)));
    }
    assert!(parse(&full).is_ok());
}

#[test]
fn bytes_after_the_last_property_are_ignored() {
    let frame = Frame::standard(
        1,
        controller(),
        Eoj([0x01, 0x30, 0x01]),
        Esv::Get,
        vec![Property::get(0x80)],
    );
    let mut bytes = build(&frame).unwrap();
    bytes.push(0xAA);
    assert_eq!(parse(&bytes), Ok(frame));
}

#[test]
fn unknown_services_keep_their_code_in_the_name() {
    assert_eq!(Esv::Unknown(0x9A).name(), "Unknown(0x9A)");
    assert_eq!(Esv::GetRes.name(), "GetRes");
    assert!(Esv::Inf.is_response());
    assert!(!Esv::Get.is_response());
    assert!(Esv::SetGetSna.is_setget());
    assert_eq!(Eoj([1, 2, 3]).class(), 2);
    assert_eq!(Eoj([1, 2, 3]).instance(), 3);
}

#[test]
fn roundtrip_seti_request() {
    let buf = build(&Frame::standard(
        0x002A,
        controller(),
        Eoj([0x02, 0x91, 0x01]),
        Esv::SetI,
        vec![Property::new(0x80, vec![0x30])],
    ))
    .unwrap();
    assert_eq!(
        buf,
        [0x10, 0x81, 0x00, 0x2A, 0x05, 0xFF, 0x01, 0x02, 0x91, 0x01, 0x60, 0x01, 0x80, 0x01, 0x30]
    );
    roundtrip(&buf);
}

#[test]
fn build_rejects_oversize_edt() {
    let frame = Frame::standard(
        0x0001,
        controller(),
        Eoj([0x01, 0x30, 0x01]),
        Esv::SetC,
        vec![Property::new(0x80, vec![0u8; 256])],
    );
    assert!(matches!(build(&frame), Err(CodecError::TooLong(_))));
}

#[test]
fn build_accepts_edt_at_255_limit() {
    let frame = Frame::standard(
        0x0001,
        controller(),
        Eoj([0x01, 0x30, 0x01]),
        Esv::SetC,
        vec![Property::new(0x80, vec![0u8; 255])],
    );
    let built = build(&frame).unwrap();
    assert_eq!(built[13], 255);
    roundtrip(&built);
}

#[test]
fn build_rejects_oversize_opc() {
    let many: Vec<Property> = (0..256).map(|_| Property::get(0x80)).collect();
    let frame = Frame::standard(
        0x0001,
        controller(),
        Eoj([0x01, 0x30, 0x01]),
        Esv::Get,
        many,
    );
    assert!(matches!(build(&frame), Err(CodecError::TooLong(_))));
}

#[test]
fn build_accepts_255_properties() {
    let many: Vec<Property> = (0..255).map(|_| Property::get(0x80)).collect();
    let frame = Frame::standard(1, controller(), Eoj([0x01, 0x30, 0x01]), Esv::Get, many);
    let built = build(&frame).unwrap();
    assert_eq!(built[11], 255);
    roundtrip(&built);
}

#[test]
fn build_tests_both_lists_of_setget() {
    let setget = |set_props: Vec<Property>, get_props: Vec<Property>| Frame {
        ehd1: EHD1,
        ehd2: EHD2_FORMAT1,
        tid: 1,
        edata: Edata::SetGet {
            seoj: controller(),
            deoj: Eoj([0x01, 0x30, 0x01]),
            esv: Esv::SetGet,
            set_props,
            get_props,
        },
    };
    let many = || -> Vec<Property> { (0..256).map(|_| Property::get(0x80)).collect() };
    let long = || vec![Property::new(0x80, vec![0; 256])];
    let opc = Err(CodecError::TooLong("OPC (プロパティ数) は 255 以下"));
    let pdc = Err(CodecError::TooLong("EDT は 255 バイト以下 (PDC 上限)"));
    assert_eq!(build(&setget(many(), long())), opc);
    assert_eq!(build(&setget(long(), many())), pdc);
    assert_eq!(build(&setget(vec![], many())), opc);
}

#[test]
fn codec_messages() {
    assert_eq!(
        CodecError::Truncated("EPC").to_string(),
        "フレームが途中で切れている: EPC"
    );
    assert_eq!(
        CodecError::BadEhd1(0x2F).to_string(),
        "EHD1 が不正: 0x2F (期待 0x10)"
    );
    assert_eq!(
        Eoj::from_hex("0130").unwrap_err().to_string(),
        "入力フィールド不正: EOJ は 3 バイト (6 hex 桁) 必須"
    );
    assert_eq!(CodecError::BadHex.to_string(), "hex 文字列が不正");
}

#[test]
fn white_space_in_hexadecimal_text_is_skipped() {
    assert_eq!(hex_to_bytes("  0x01 a3 ").unwrap(), vec![0x01, 0xA3]);
    assert_eq!(hex_to_bytes("").unwrap(), Vec::<u8>::new());
    assert_eq!(hex_to_bytes("01\u{3000}a3").unwrap(), vec![0x01, 0xA3]);
}
