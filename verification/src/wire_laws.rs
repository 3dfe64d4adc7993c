//! The layout of a frame on the wire, byte by byte.

use vstd::prelude::*;
use vstd::string::*;

use crate::codec::{self, CodecErrorView, EdataView, Esv, FrameView, PropertyView};
use crate::codec_laws;
use crate::text;

verus! {

broadcast use vstd::string::group_string_axioms;

// ───────────────────────── services ─────────────────────────

/// The service behind every code.
pub proof fn law_service_codes(v: u8)
    ensures
        Esv::of_code(0x60) == Esv::SetI,
        Esv::of_code(0x61) == Esv::SetC,
        Esv::of_code(0x62) == Esv::Get,
        Esv::of_code(0x63) == Esv::InfReq,
        Esv::of_code(0x6E) == Esv::SetGet,
        Esv::of_code(0x71) == Esv::SetRes,
        Esv::of_code(0x72) == Esv::GetRes,
        Esv::of_code(0x73) == Esv::Inf,
        Esv::of_code(0x74) == Esv::InfC,
        Esv::of_code(0x7A) == Esv::InfCRes,
        Esv::of_code(0x7E) == Esv::SetGetRes,
        Esv::of_code(0x50) == Esv::SetISna,
        Esv::of_code(0x51) == Esv::SetCSna,
        Esv::of_code(0x52) == Esv::GetSna,
        Esv::of_code(0x53) == Esv::InfSna,
        Esv::of_code(0x5E) == Esv::SetGetSna,
        !seq![
            0x60u8,
            0x61,
            0x62,
            0x63,
            0x6E,
            0x71,
            0x72,
            0x73,
            0x74,
            0x7A,
            0x7E,
            0x50,
            0x51,
            0x52,
            0x53,
            0x5E,
        ].contains(v) ==> Esv::of_code(v) == Esv::Unknown(v),
{
    let known = seq![
        0x60u8,
        0x61,
        0x62,
        0x63,
        0x6E,
        0x71,
        0x72,
        0x73,
        0x74,
        0x7A,
        0x7E,
        0x50,
        0x51,
        0x52,
        0x53,
        0x5E,
    ];
    if Esv::of_code(v) != Esv::Unknown(v) {
        assert(known[0] == 0x60 && known[1] == 0x61 && known[2] == 0x62 && known[3] == 0x63);
        assert(known[4] == 0x6E && known[5] == 0x71 && known[6] == 0x72 && known[7] == 0x73);
        assert(known[8] == 0x74 && known[9] == 0x7A && known[10] == 0x7E && known[11] == 0x50);
        assert(known[12] == 0x51 && known[13] == 0x52 && known[14] == 0x53 && known[15] == 0x5E);
    }
}

/// Which codes refuse a request, which respond or notify, and which bring two lists of properties.
pub proof fn law_service_kinds(v: u8)
    ensures
        Esv::of_code(v).refuses() <==> 0x50 <= v <= 0x5F,
        Esv::of_code(v).responds() <==> 0x70 <= v <= 0x7F,
        Esv::of_code(v).two_lists() <==> v == 0x6E || v == 0x7E || v == 0x5E,
{
}

/// The name that stands for every code in JSON. A code without a name is spelled out.
pub proof fn law_service_labels(v: u8)
    ensures
        Esv::of_code(0x60).label() == "SetI"@,
        Esv::of_code(0x61).label() == "SetC"@,
        Esv::of_code(0x62).label() == "Get"@,
        Esv::of_code(0x63).label() == "InfReq"@,
        Esv::of_code(0x6E).label() == "SetGet"@,
        Esv::of_code(0x71).label() == "SetRes"@,
        Esv::of_code(0x72).label() == "GetRes"@,
        Esv::of_code(0x73).label() == "Inf"@,
        Esv::of_code(0x74).label() == "InfC"@,
        Esv::of_code(0x7A).label() == "InfCRes"@,
        Esv::of_code(0x7E).label() == "SetGetRes"@,
        Esv::of_code(0x50).label() == "SetISna"@,
        Esv::of_code(0x51).label() == "SetCSna"@,
        Esv::of_code(0x52).label() == "GetSna"@,
        Esv::of_code(0x53).label() == "InfSna"@,
        Esv::of_code(0x5E).label() == "SetGetSna"@,
        Esv::of_code(v) is Unknown ==> Esv::of_code(v).label() == "Unknown(0x"@ + text::upper_hex(v)
            + ")"@,
{
}

// ───────────────────────── writing ─────────────────────────

/// The properties of a list follow each other: EPC, length of the data, data.
pub proof fn law_properties_written(props: Seq<PropertyView>, p: PropertyView)
    requires
        p.edt.len() <= 255,
    ensures
        codec::props_bytes(Seq::empty()) == Seq::<u8>::empty(),
        codec::props_bytes(props.push(p)) == codec::props_bytes(props) + seq![
            p.epc,
            p.edt.len() as u8,
        ] + p.edt,
{
    assert(props.push(p).drop_last() =~= props);
    assert(codec::props_bytes(props.push(p)) =~= codec::props_bytes(props) + seq![
        p.epc,
        p.edt.len() as u8,
    ] + p.edt);
}

/// A frame of the specified format starts with 0x10 and 0x81, the high and the low byte of its TID,
/// the sender, the receiver, the service and the number of properties.
pub proof fn law_standard_written(
    tid: u16,
    seoj: Seq<u8>,
    deoj: Seq<u8>,
    esv: Esv,
    props: Seq<PropertyView>,
)
    requires
        props.len() <= 255,
    ensures
        codec::frame_bytes(codec::standard_frame(tid, seoj, deoj, esv, props)) == seq![
            0x10u8,
            0x81u8,
            (tid as int / 256) as u8,
            (tid as int % 256) as u8,
        ] + seoj + deoj + seq![esv.code(), props.len() as u8] + codec::props_bytes(props),
{
    assert(codec::frame_bytes(codec::standard_frame(tid, seoj, deoj, esv, props)) =~= seq![
        0x10u8,
        0x81u8,
        (tid as int / 256) as u8,
        (tid as int % 256) as u8,
    ] + seoj + deoj + seq![esv.code(), props.len() as u8] + codec::props_bytes(props));
}

/// Any frame: the header bytes as they are, the TID with its high byte first, and the body: the raw
/// bytes, or the objects, the service and one counted list of properties, or two.
pub proof fn law_frame_written(f: FrameView)
    ensures
        ({
            let head = seq![
                f.ehd1,
                f.ehd2,
                (f.tid as int / 256) as u8,
                (f.tid as int % 256) as u8,
            ];
            match f.edata {
                EdataView::Arbitrary(bytes) => codec::frame_bytes(f) == head + bytes,
                EdataView::Standard { seoj, deoj, esv, props } => props.len() <= 255
                    ==> codec::frame_bytes(f) == head + seoj + deoj + seq![
                    esv.code(),
                    props.len() as u8,
                ] + codec::props_bytes(props),
                EdataView::SetGet { seoj, deoj, esv, set_props, get_props } => set_props.len()
                    <= 255 && get_props.len() <= 255 ==> codec::frame_bytes(f) == head + seoj + deoj
                    + seq![esv.code(), set_props.len() as u8] + codec::props_bytes(set_props)
                    + seq![get_props.len() as u8] + codec::props_bytes(get_props),
            }
        }),
{
    let head = seq![f.ehd1, f.ehd2, (f.tid as int / 256) as u8, (f.tid as int % 256) as u8];
    match f.edata {
        EdataView::Arbitrary(bytes) => {
            assert(codec::frame_bytes(f) =~= head + bytes);
        },
        EdataView::Standard { seoj, deoj, esv, props } => {
            if props.len() <= 255 {
                assert(codec::frame_bytes(f) =~= head + seoj + deoj + seq![
                    esv.code(),
                    props.len() as u8,
                ] + codec::props_bytes(props));
            }
        },
        EdataView::SetGet { seoj, deoj, esv, set_props, get_props } => {
            if set_props.len() <= 255 && get_props.len() <= 255 {
                assert(codec::frame_bytes(f) =~= head + seoj + deoj + seq![
                    esv.code(),
                    set_props.len() as u8,
                ] + codec::props_bytes(set_props) + seq![get_props.len() as u8]
                    + codec::props_bytes(get_props));
            }
        },
    }
}

/// A count or a length goes into its byte modulo 256.
pub proof fn law_low_byte(n: nat)
    ensures
        codec::low_byte(n) as nat == n % 256,
{
}

/// A frame is refused exactly if a list has more than 255 properties or a property more than 255
/// bytes.
pub proof fn law_too_long(f: FrameView)
    ensures
        codec::excess(f) is Some <==> (match f.edata {
            EdataView::Arbitrary(_) => false,
            EdataView::Standard { props, .. } => props.len() > 255 || exists|i: int|
                0 <= i < props.len() && (#[trigger] props[i]).edt.len() > 255,
            EdataView::SetGet { set_props, get_props, .. } => set_props.len() > 255
                || get_props.len() > 255 || (exists|i: int|
                0 <= i < set_props.len() && (#[trigger] set_props[i]).edt.len() > 255) || (exists|
                i: int,
            |
                0 <= i < get_props.len() && (#[trigger] get_props[i]).edt.len() > 255),
        }),
        codec::excess(f) is Some ==> codec::excess(f)->0 is TooLong,
        f.edata matches EdataView::Standard { props, .. } ==> {
            &&& props.len() > 255 ==> codec::excess(f) == Some(
                CodecErrorView::TooLong("OPC (プロパティ数) は 255 以下"@),
            )
            &&& props.len() <= 255 && codec::excess(f) is Some ==> codec::excess(f) == Some(
                CodecErrorView::TooLong("EDT は 255 バイト以下 (PDC 上限)"@),
            )
        },
        f.edata matches EdataView::SetGet { seoj, deoj, esv, set_props, get_props } ==> {
            let first = codec::excess(
                FrameView {
                    edata: EdataView::Standard { seoj, deoj, esv, props: set_props },
                    ..f
                },
            );
            let second = codec::excess(
                FrameView {
                    edata: EdataView::Standard { seoj, deoj, esv, props: get_props },
                    ..f
                },
            );
            codec::excess(f) == (if first is Some {
                first
            } else {
                second
            })
        },
{
}

// ───────────────────────── reading ─────────────────────────

/// What is read stands at its place: the header, the TID in bytes 2 and 3, the sender in bytes 4 to
/// 6, the receiver in bytes 7 to 9, the service in byte 10 and the number of properties in byte 11.
/// With 0x82 in byte 1, everything from byte 4 on is kept as it is.
pub proof fn law_frame_head(bytes: Seq<u8>)
    requires
        codec::read_frame(bytes) is Ok,
    ensures
        ({
            let f = codec::read_frame(bytes)->Ok_0;
            &&& f.ehd1 == 0x10 && bytes[0] == 0x10
            &&& f.ehd2 == bytes[1]
            &&& f.tid as int == bytes[2] * 256 + bytes[3]
            &&& f.edata is Arbitrary <==> bytes[1] == 0x82
            &&& match f.edata {
                EdataView::Arbitrary(raw) => raw == bytes.skip(4),
                EdataView::Standard { seoj, deoj, esv, props } => {
                    &&& seoj == bytes.subrange(4, 7)
                    &&& deoj == bytes.subrange(7, 10)
                    &&& esv == Esv::of_code(bytes[10])
                    &&& esv.code() == bytes[10]
                    &&& !(bytes[10] == 0x6E || bytes[10] == 0x7E || bytes[10] == 0x5E)
                    &&& props.len() == bytes[11]
                },
                EdataView::SetGet { seoj, deoj, esv, set_props, .. } => {
                    &&& seoj == bytes.subrange(4, 7)
                    &&& deoj == bytes.subrange(7, 10)
                    &&& esv == Esv::of_code(bytes[10])
                    &&& esv.code() == bytes[10]
                    &&& bytes[10] == 0x6E || bytes[10] == 0x7E || bytes[10] == 0x5E
                    &&& set_props.len() == bytes[11]
                },
            }
        }),
{
    let f = codec::read_frame(bytes)->Ok_0;
    let body = bytes.skip(4);
    codec_laws::law_service_code_roundtrip(bytes[10]);
    codec_laws::law_write_again(bytes);
    match f.edata {
        EdataView::Arbitrary(_) => {},
        _ => {
            assert(body[6] == bytes[10]);
            assert(body.subrange(0, 3) =~= bytes.subrange(4, 7));
            assert(body.subrange(3, 6) =~= bytes.subrange(7, 10));
            assert(body.skip(7)[0] == bytes[11]);
            codec_laws::lemma_write_read_props(body.skip(7).skip(1), bytes[11] as nat);
        },
    }
}

/// The service of a frame is that of its body; the arbitrary format has none.
pub proof fn law_frame_service(f: FrameView)
    ensures
        codec::service(f) == (match f.edata {
            EdataView::Standard { esv, .. } => Some(esv),
            EdataView::SetGet { esv, .. } => Some(esv),
            EdataView::Arbitrary(_) => None,
        }),
{
}

/// Bytes that end within the header, or do not start with 0x10, are refused with the name of the
/// field that is missing.
pub proof fn law_header_errors(bytes: Seq<u8>)
    ensures
        bytes.len() == 0 ==> codec::read_frame(bytes) == Err::<FrameView, CodecErrorView>(
            CodecErrorView::Truncated("EHD1"@),
        ),
        bytes.len() > 0 && bytes[0] != 0x10 ==> codec::read_frame(bytes) == Err::<
            FrameView,
            CodecErrorView,
        >(CodecErrorView::BadEhd1(bytes[0])),
        bytes.len() > 0 && bytes[0] == 0x10 ==> {
            let missing = if bytes.len() < 2 {
                Some("EHD2"@)
            } else if bytes.len() < 4 {
                Some("TID"@)
            } else if bytes[1] == 0x82 {
                None
            } else if bytes.len() < 7 {
                Some("SEOJ"@)
            } else if bytes.len() < 10 {
                Some("DEOJ"@)
            } else if bytes.len() < 11 {
                Some("ESV"@)
            } else if bytes.len() < 12 {
                if bytes[10] == 0x6E || bytes[10] == 0x7E || bytes[10] == 0x5E {
                    Some("OPCSet"@)
                } else {
                    Some("OPC"@)
                }
            } else {
                None
            };
            missing is Some ==> codec::read_frame(bytes) == Err::<FrameView, CodecErrorView>(
                CodecErrorView::Truncated(missing->0),
            )
        },
{
    if bytes.len() == 11 {
        assert(bytes.skip(4)[6] == bytes[10]);
    }
}

/// A frame with 0x82 in its second byte is always read, once its TID is there.
pub proof fn law_arbitrary_read(bytes: Seq<u8>)
    requires
        bytes.len() >= 4,
        bytes[0] == 0x10,
        bytes[1] == 0x82,
    ensures
        codec::read_frame(bytes) matches Ok(f) && f.edata == EdataView::Arbitrary(bytes.skip(4)),
{
}

/// Reading the properties behind some that are complete goes on with those that are missing.
proof fn lemma_read_on(done: Seq<PropertyView>, tail: Seq<u8>, n: nat)
    requires
        done.len() <= n,
        forall|i: int| 0 <= i < done.len() ==> (#[trigger] done[i]).edt.len() <= 255,
    ensures
        codec::read_props(tail, (n - done.len()) as nat) matches Err(e) ==> codec::read_props(
            codec::props_bytes(done) + tail,
            n,
        ) == Err::<(Seq<PropertyView>, Seq<u8>), CodecErrorView>(e),
    decreases done.len(),
{
    let bytes = codec::props_bytes(done) + tail;
    if done.len() == 0 {
        assert(bytes =~= tail);
    } else {
        let first = done[0];
        let others = done.skip(1);
        assert(done =~= seq![first] + others);
        codec_laws::lemma_props_bytes_front(first, others);
        assert forall|i: int| 0 <= i < others.len() implies (#[trigger] others[i]).edt.len()
            <= 255 by {
            assert(others[i] == done[i + 1]);
        }
        lemma_read_on(others, tail, (n - 1) as nat);
        let len = first.edt.len() as int;
        assert(bytes =~= codec::prop_bytes(first) + (codec::props_bytes(others) + tail));
        assert(bytes[1] == len);
        assert(bytes.skip(2 + len) =~= codec::props_bytes(others) + tail);
    }
}

/// A frame whose list breaks off behind some complete properties is refused with the name of the
/// field that is missing: the EPC, the length or the data of the next property.
pub proof fn law_list_errors(head: Seq<u8>, done: Seq<PropertyView>, tail: Seq<u8>)
    requires
        head.len() == 12,
        head[0] == 0x10,
        head[1] != 0x82,
        !(head[10] == 0x6E || head[10] == 0x7E || head[10] == 0x5E),
        done.len() < head[11],
        forall|i: int| 0 <= i < done.len() ==> (#[trigger] done[i]).edt.len() <= 255,
    ensures
        ({
            let read = codec::read_frame(head + codec::props_bytes(done) + tail);
            &&& tail.len() == 0 ==> read == Err::<FrameView, CodecErrorView>(
                CodecErrorView::Truncated("EPC"@),
            )
            &&& tail.len() == 1 ==> read == Err::<FrameView, CodecErrorView>(
                CodecErrorView::Truncated("PDC"@),
            )
            &&& 2 <= tail.len() < 2 + tail[1] ==> read == Err::<FrameView, CodecErrorView>(
                CodecErrorView::Truncated("EDT"@),
            )
        }),
{
    let bytes = head + codec::props_bytes(done) + tail;
    let body = bytes.skip(4);
    assert(body[6] == head[10]);
    assert(body.skip(7)[0] == head[11]);
    assert(body.skip(7).skip(1) =~= codec::props_bytes(done) + tail);
    lemma_read_on(done, tail, head[11] as nat);
}

/// A frame of a service with two lists that ends behind the first is refused for want of the second.
pub proof fn law_second_list_missing(head: Seq<u8>, props: Seq<PropertyView>)
    requires
        head.len() == 12,
        head[0] == 0x10,
        head[1] != 0x82,
        head[10] == 0x6E || head[10] == 0x7E || head[10] == 0x5E,
        props.len() == head[11],
        forall|i: int| 0 <= i < props.len() ==> (#[trigger] props[i]).edt.len() <= 255,
    ensures
        codec::read_frame(head + codec::props_bytes(props)) == Err::<FrameView, CodecErrorView>(
            CodecErrorView::Truncated("OPCGet"@),
        ),
{
    let bytes = head + codec::props_bytes(props);
    let body = bytes.skip(4);
    assert(body[6] == head[10]);
    assert(body.skip(7)[0] == head[11]);
    assert(body.skip(7).skip(1) =~= codec::props_bytes(props) + Seq::<u8>::empty());
    codec_laws::lemma_read_written_props(props, Seq::empty());
}

/// The messages of the codec's errors.
pub proof fn law_codec_messages(what: Seq<char>, v: u8)
    ensures
        CodecErrorView::Truncated(what).message() == "フレームが途中で切れている: "@ + what,
        CodecErrorView::BadEhd1(v).message() == "EHD1 が不正: 0x"@ + text::upper_hex(v)
            + " (期待 0x10)"@,
        CodecErrorView::BadField(what).message() == "入力フィールド不正: "@ + what,
        CodecErrorView::BadHex.message() == "hex 文字列が不正"@,
        CodecErrorView::TooLong(what).message() == "サイズ上限超過: "@ + what,
{
}

} // verus!
