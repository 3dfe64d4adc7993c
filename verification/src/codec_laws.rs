//! What holds of the codec as a whole: what is written is read back, what is read is written
//! again, and nothing is lost on the way.

use vstd::prelude::*;

use crate::codec::{self, CodecErrorView, EdataView, Eoj, Esv, FrameView, PropertyView};
use crate::text;

verus! {

// ───────────────────────── services and hexadecimal text ─────────────────────────

/// Every service code, known or not, survives the way to a service and back.
pub proof fn law_service_code_roundtrip(v: u8)
    ensures
        Esv::of_code(v).code() == v,
{
}

/// A service is recovered from its code, unless it spells out a known code as unknown.
pub proof fn law_service_roundtrip(esv: Esv)
    requires
        esv matches Esv::Unknown(v) ==> Esv::of_code(v) is Unknown,
    ensures
        Esv::of_code(esv.code()) == esv,
{
}

/// No service is both a refusal and a response, and only a SETGET service has two lists.
pub proof fn law_service_groups(esv: Esv)
    ensures
        !(esv.refuses() && esv.responds()),
        esv.two_lists() ==> esv.code() % 16 == 0xE,
{
}

/// The hexadecimal text of bytes reads back as the same bytes.
pub proof fn law_hex_roundtrip(bytes: Seq<u8>)
    ensures
        codec::bytes_of_hex(text::lower_hex(bytes)) == Some(bytes),
{
    let s = text::lower_hex(bytes);
    assert forall|i: int| 0 <= i < s.len() implies text::hex_value(#[trigger] s[i]) is Some
        && !text::is_white(s[i]) && s[i] != 'x' && s[i] != 'X' by {
        text::lemma_digit_roundtrip((bytes[i / 2] / 16) as u8);
        text::lemma_digit_roundtrip((bytes[i / 2] % 16) as u8);
    }
    assert(codec::trim_start(s) == s);
    assert(codec::strip_pairs(s, '0', 'x') == s);
    assert(codec::strip_pairs(s, '0', 'X') == s);
    lemma_filter_all(s);
    let back = codec::bytes_of_digits(s)->0;
    assert(back.len() == bytes.len());
    assert forall|i: int| 0 <= i < bytes.len() implies back[i] == bytes[i] by {
        text::lemma_digit_roundtrip((bytes[i] / 16) as u8);
        text::lemma_digit_roundtrip((bytes[i] % 16) as u8);
        assert(s[2 * i] == text::lower_digit((bytes[i] / 16) as u8));
        assert(s[2 * i + 1] == text::lower_digit((bytes[i] % 16) as u8));
    }
    assert(back =~= bytes);
}

/// Dropping white space changes nothing where there is none.
pub(crate) proof fn lemma_filter_all(s: Seq<char>)
    requires
        forall|i: int| 0 <= i < s.len() ==> !text::is_white(#[trigger] s[i]),
    ensures
        s.filter(|c: char| !text::is_white(c)) == s,
    decreases s.len(),
{
    reveal(Seq::filter);
    if s.len() > 0 {
        let head = s.drop_last();
        assert forall|i: int| 0 <= i < head.len() implies !text::is_white(#[trigger] head[i]) by {
            assert(head[i] == s[i]);
        }
        lemma_filter_all(head);
        assert(!text::is_white(s.last()));
        assert(head.push(s.last()) =~= s);
    }
}

/// The hexadecimal text of an object reads back as the same object.
pub proof fn law_eoj_hex_roundtrip(eoj: Eoj)
    ensures
        codec::eoj_of_hex(text::lower_hex(eoj@)) == Ok::<Seq<u8>, CodecErrorView>(eoj@),
{
    law_hex_roundtrip(eoj@);
}

// ───────────────────────── frames ─────────────────────────

/// A frame that its bytes determine: the header fits the body, the body fits the service, the
/// service is no known code spelled out as unknown, and every count and length fits in a byte.
pub open spec fn valid_frame(f: FrameView) -> bool {
    &&& f.ehd1 == codec::EHD1
    &&& codec::excess(f) is None
    &&& match f.edata {
        EdataView::Arbitrary(_) => f.ehd2 == codec::EHD2_FORMAT2,
        EdataView::Standard { seoj, deoj, esv, .. } => {
            &&& f.ehd2 != codec::EHD2_FORMAT2
            &&& seoj.len() == 3
            &&& deoj.len() == 3
            &&& Esv::of_code(esv.code()) == esv
            &&& !esv.two_lists()
        },
        EdataView::SetGet { seoj, deoj, esv, .. } => {
            &&& f.ehd2 != codec::EHD2_FORMAT2
            &&& seoj.len() == 3
            &&& deoj.len() == 3
            &&& esv.two_lists()
        },
    }
}

/// Where the properties of a list end, the bytes after them begin.
pub(crate) proof fn lemma_props_bytes_front(first: PropertyView, others: Seq<PropertyView>)
    ensures
        codec::props_bytes(seq![first] + others) == codec::prop_bytes(first) + codec::props_bytes(others),
    decreases others.len(),
{
    let all = seq![first] + others;
    if others.len() == 0 {
        assert(all.drop_last() =~= Seq::empty());
        assert(codec::props_bytes(all.drop_last()) =~= Seq::empty());
        assert(codec::props_bytes(all) =~= codec::prop_bytes(first) + codec::props_bytes(others));
    } else {
        lemma_props_bytes_front(first, others.drop_last());
        assert(all.drop_last() =~= seq![first] + others.drop_last());
        assert(codec::props_bytes(all) =~= codec::prop_bytes(first) + codec::props_bytes(others));
    }
}

/// Properties that were written are read back, and what follows them is left.
pub(crate) proof fn lemma_read_written_props(props: Seq<PropertyView>, extra: Seq<u8>)
    requires
        forall|i: int| 0 <= i < props.len() ==> (#[trigger] props[i]).edt.len() <= 255,
    ensures
        codec::read_props(codec::props_bytes(props) + extra, props.len()) == Ok::<
            (Seq<PropertyView>, Seq<u8>),
            CodecErrorView,
        >((props, extra)),
    decreases props.len(),
{
    let bytes = codec::props_bytes(props) + extra;
    if props.len() == 0 {
        assert(bytes =~= extra);
        assert(props =~= Seq::empty());
    } else {
        let first = props[0];
        let others = props.skip(1);
        assert(props =~= seq![first] + others);
        lemma_props_bytes_front(first, others);
        assert forall|i: int| 0 <= i < others.len() implies (#[trigger] others[i]).edt.len()
            <= 255 by {
            assert(others[i] == props[i + 1]);
        }
        lemma_read_written_props(others, extra);
        let n = first.edt.len() as int;
        assert(bytes =~= codec::prop_bytes(first) + (codec::props_bytes(others) + extra));
        assert(bytes[1] == n);
        assert(bytes.skip(2 + n) =~= codec::props_bytes(others) + extra);
        assert(bytes.subrange(2, 2 + n) =~= first.edt);
    }
}

/// A list of properties that was written is read back, and what follows it is left.
pub(crate) proof fn lemma_read_written_block(props: Seq<PropertyView>, extra: Seq<u8>, label: Seq<char>)
    requires
        codec::props_fit(props),
    ensures
        codec::read_block(codec::block_bytes(props) + extra, label) == Ok::<
            (Seq<PropertyView>, Seq<u8>),
            CodecErrorView,
        >((props, extra)),
{
    let bytes = codec::block_bytes(props) + extra;
    assert(bytes.skip(1) =~= codec::props_bytes(props) + extra);
    lemma_read_written_props(props, extra);
}

/// What was read as properties stands there byte for byte, with every length below 256.
pub(crate) proof fn lemma_write_read_props(bytes: Seq<u8>, n: nat)
    ensures
        codec::read_props(bytes, n) matches Ok((props, rest)) ==> {
            &&& props.len() == n
            &&& bytes == codec::props_bytes(props) + rest
            &&& forall|i: int| 0 <= i < n ==> (#[trigger] props[i]).edt.len() <= 255
        },
    decreases n,
{
    if n == 0 {
        assert(bytes =~= codec::props_bytes(Seq::empty()) + bytes);
    } else if bytes.len() >= 2 && bytes.len() >= 2 + bytes[1] {
        let tail = bytes.skip(2 + bytes[1]);
        lemma_write_read_props(tail, (n - 1) as nat);
        if let Ok((others, rest)) = codec::read_props(tail, (n - 1) as nat) {
            let first = PropertyView { epc: bytes[0], edt: bytes.subrange(2, 2 + bytes[1]) };
            lemma_props_bytes_front(first, others);
            assert(bytes =~= codec::prop_bytes(first) + tail);
            assert(bytes =~= codec::props_bytes(seq![first] + others) + rest);
        }
    }
}

/// What was read as a list of properties stands there byte for byte, and fits.
proof fn lemma_write_read_block(bytes: Seq<u8>, label: Seq<char>)
    ensures
        codec::read_block(bytes, label) matches Ok((props, rest)) ==> {
            &&& bytes == codec::block_bytes(props) + rest
            &&& codec::props_fit(props)
        },
{
    if bytes.len() >= 1 {
        lemma_write_read_props(bytes.skip(1), bytes[0] as nat);
        if let Ok((props, rest)) = codec::read_block(bytes, label) {
            assert(bytes =~= seq![bytes[0]] + bytes.skip(1));
            assert(bytes =~= codec::block_bytes(props) + rest);
        }
    }
}

/// A number is the two bytes that it is written as.
proof fn lemma_be_bytes(n: u16)
    ensures
        (text::be_bytes(n)[0] * 256 + text::be_bytes(n)[1]) as u16 == n,
{
}

/// What is written is read back: for every valid frame, reading its bytes gives the frame.
pub proof fn law_read_back(f: FrameView)
    requires
        valid_frame(f),
    ensures
        codec::read_frame(codec::frame_bytes(f)) == Ok::<FrameView, CodecErrorView>(f),
{
    if f.edata is Arbitrary {
        let bytes = codec::frame_bytes(f);
        lemma_be_bytes(f.tid);
        assert(bytes.skip(4) =~= f.edata->Arbitrary_0);
        assert(bytes[2] == text::be_bytes(f.tid)[0]);
        assert(bytes[3] == text::be_bytes(f.tid)[1]);
    } else {
        law_read_back_with_extra(f, Seq::empty());
        assert(codec::frame_bytes(f) + Seq::empty() =~= codec::frame_bytes(f));
    }
}

/// Bytes that follow a frame of the specified format do not change what is read.
pub proof fn law_read_back_with_extra(f: FrameView, extra: Seq<u8>)
    requires
        valid_frame(f),
        !(f.edata is Arbitrary),
    ensures
        codec::read_frame(codec::frame_bytes(f) + extra) == Ok::<FrameView, CodecErrorView>(f),
{
    let bytes = codec::frame_bytes(f) + extra;
    lemma_be_bytes(f.tid);
    assert(bytes[2] == text::be_bytes(f.tid)[0]);
    assert(bytes[3] == text::be_bytes(f.tid)[1]);
    let body = bytes.skip(4);
    assert(body =~= codec::edata_bytes(f.edata) + extra);
    match f.edata {
        EdataView::Standard { seoj, deoj, esv, props } => {
            assert(body.subrange(0, 3) =~= seoj);
            assert(body.subrange(3, 6) =~= deoj);
            assert(body[6] == esv.code());
            assert(body.skip(7) =~= codec::block_bytes(props) + extra);
            lemma_read_written_block(props, extra, "OPC"@);
        },
        EdataView::SetGet { seoj, deoj, esv, set_props, get_props } => {
            assert(body.subrange(0, 3) =~= seoj);
            assert(body.subrange(3, 6) =~= deoj);
            assert(body[6] == esv.code());
            assert(body.skip(7) =~= codec::block_bytes(set_props) + (codec::block_bytes(get_props) + extra));
            lemma_read_written_block(set_props, codec::block_bytes(get_props) + extra, "OPCSet"@);
            lemma_read_written_block(get_props, extra, "OPCGet"@);
        },
        EdataView::Arbitrary(_) => {},
    }
}

/// The bytes that a body of the specified format was read from start with the bytes of the body.
proof fn lemma_write_specified(body: Seq<u8>)
    ensures
        codec::read_specified(body) matches Ok(edata) ==> {
            &&& codec::edata_bytes(edata).is_prefix_of(body)
            &&& valid_frame(FrameView { ehd1: codec::EHD1, ehd2: 0, tid: 0, edata })
            &&& !(edata is Arbitrary)
        },
{
    if let Ok(edata) = codec::read_specified(body) {
        law_service_code_roundtrip(body[6]);
        let head = body.subrange(0, 3) + body.subrange(3, 6) + seq![body[6]];
        assert(body =~= head + body.skip(7));
        match edata {
            EdataView::Standard { seoj, deoj, esv, props } => {
                lemma_write_read_block(body.skip(7), "OPC"@);
                let rest = codec::read_block(body.skip(7), "OPC"@)->Ok_0.1;
                assert(body =~= codec::edata_bytes(edata) + rest);
            },
            EdataView::SetGet { seoj, deoj, esv, set_props, get_props } => {
                lemma_write_read_block(body.skip(7), "OPCSet"@);
                let middle = codec::read_block(body.skip(7), "OPCSet"@)->Ok_0.1;
                lemma_write_read_block(middle, "OPCGet"@);
                let rest = codec::read_block(middle, "OPCGet"@)->Ok_0.1;
                assert(body =~= codec::edata_bytes(edata) + rest);
            },
            EdataView::Arbitrary(_) => {},
        }
    }
}

/// What is read is written again: the frame that was read is valid, and its bytes are those that
/// were read, followed by the bytes that the frame ignores. The arbitrary format ignores none.
pub proof fn law_write_again(bytes: Seq<u8>)
    ensures
        codec::read_frame(bytes) matches Ok(f) ==> {
            &&& valid_frame(f)
            &&& codec::frame_bytes(f).is_prefix_of(bytes)
            &&& f.edata is Arbitrary ==> codec::frame_bytes(f) == bytes
        },
{
    if let Ok(f) = codec::read_frame(bytes) {
        let header = seq![f.ehd1, f.ehd2] + text::be_bytes(f.tid);
        let body = bytes.skip(4);
        assert(header =~= bytes.take(4));
        assert(bytes =~= header + body);
        if f.ehd2 != codec::EHD2_FORMAT2 {
            lemma_write_specified(body);
            let own = codec::edata_bytes(f.edata);
            assert(own =~= body.take(own.len() as int));
            assert(bytes =~= codec::frame_bytes(f) + body.skip(own.len() as int));
        }
    }
}

/// Reading, writing and reading again gives the frame that was read first.
pub proof fn law_read_write_read(bytes: Seq<u8>)
    ensures
        codec::read_frame(bytes) matches Ok(f) ==> codec::read_frame(codec::frame_bytes(f)) == Ok::<
            FrameView,
            CodecErrorView,
        >(f),
{
    law_write_again(bytes);
    if let Ok(f) = codec::read_frame(bytes) {
        law_read_back(f);
    }
}

/// Two valid frames with the same bytes are the same frame: nothing is lost in writing.
pub proof fn law_no_loss(f: FrameView, g: FrameView)
    requires
        valid_frame(f),
        valid_frame(g),
        codec::frame_bytes(f) == codec::frame_bytes(g),
    ensures
        f == g,
{
    law_read_back(f);
    law_read_back(g);
}

/// A frame with a service that has no name and with EPCs that no dictionary lists is read as it
/// stands: reading never fails for want of knowledge.
pub proof fn law_unknown_is_kept(tid: u16, seoj: Eoj, deoj: Eoj, code: u8, props: Seq<PropertyView>)
    requires
        codec::props_fit(props),
        !Esv::of_code(code).two_lists(),
    ensures
        ({
            let f = codec::standard_frame(tid, seoj@, deoj@, Esv::of_code(code), props);
            codec::read_frame(codec::frame_bytes(f)) == Ok::<FrameView, CodecErrorView>(f)
        }),
{
    law_service_code_roundtrip(code);
    law_read_back(codec::standard_frame(tid, seoj@, deoj@, Esv::of_code(code), props));
}

} // verus!
