//! Which notifications are listened to, what is printed of them and how they are answered, from the
//! bytes of a datagram.

use vstd::prelude::*;
use vstd::string::*;

use crate::codec::{self, EdataView, Esv, FrameView, PropertyView};
use crate::codec_laws;
use crate::commands;
use crate::error::{AppErrorView, ErrKind};
use crate::json::Json;
use crate::listen::{self, EojFilter, FilterView, ListenerView};
use crate::net::DatagramView;
use crate::output_laws;
use crate::request_laws;
use crate::text;
use crate::wire_laws;

verus! {

broadcast use vstd::string::group_string_axioms;

// ───────────────────────── filters ─────────────────────────

/// Without filters exactly the frames with one list of properties and the service 0x73 (INF) or 0x74
/// (INFC) are listened to, whoever sent them.
pub proof fn law_unfiltered(src: Seq<char>, data: Seq<u8>)
    requires
        codec::read_frame(data) is Ok,
    ensures
        listen::wanted(
            src,
            codec::read_frame(data)->Ok_0,
            FilterView { from: None, eoj: None, epc: None },
        ) <==> data[1] != 0x82 && (data[10] == 0x73 || data[10] == 0x74),
{
    wire_laws::law_frame_head(data);
    wire_laws::law_service_codes(data[10]);
}

/// Any frame is listened to without filters exactly if it has one list of properties and notifies.
pub proof fn law_notifying_services(src: Seq<char>, f: FrameView)
    ensures
        listen::wanted(src, f, FilterView { from: None, eoj: None, epc: None }) <==> (
        f.edata matches EdataView::Standard { esv, .. } && (esv == Esv::Inf || esv == Esv::InfC)),
{
}

/// A notification is listened to under the EPC of each of its properties, at whatever place it
/// stands.
pub proof fn law_epc_at_any_place(
    src: Seq<char>,
    tid: u16,
    seoj: Seq<u8>,
    deoj: Seq<u8>,
    esv: Esv,
    props: Seq<PropertyView>,
    i: int,
)
    requires
        esv == Esv::Inf || esv == Esv::InfC,
        0 <= i < props.len(),
    ensures
        listen::wanted(
            src,
            codec::standard_frame(tid, seoj, deoj, esv, props),
            FilterView { from: None, eoj: None, epc: Some(props[i].epc) },
        ),
{
    assert(props[i].epc == props[i].epc);
}

/// A frame is not listened to under an EPC that none of its properties has.
pub proof fn law_absent_epc(src: Seq<char>, f: FrameView, filter: FilterView, epc: u8)
    requires
        filter.epc == Some(epc),
        f.edata matches EdataView::Standard { props, .. } ==> forall|i: int|
            0 <= i < props.len() ==> (#[trigger] props[i]).epc != epc,
    ensures
        !listen::wanted(src, f, filter),
{
}

/// The three filters are independent: a frame is listened to exactly if it is without filters, it
/// comes from the given address, its sender is of the given class or is the given object, and one of
/// its properties has the given EPC, each where it is given.
pub proof fn law_all_filters(src: Seq<char>, f: FrameView, filter: FilterView)
    ensures
        listen::wanted(src, f, filter) <==> {
            &&& listen::wanted(src, f, FilterView { from: filter.from, eoj: None, epc: None })
            &&& listen::wanted(src, f, FilterView { from: None, eoj: filter.eoj, epc: None })
            &&& listen::wanted(src, f, FilterView { from: None, eoj: None, epc: filter.epc })
        },
{
}

/// The filters of a call are what is given: the address, the bytes of the class or the object, and
/// the EPC.
pub proof fn law_given_filters(
    from: Option<&str>,
    eoj_filter: Option<&EojFilter>,
    epc: Option<u8>,
)
    ensures
        ({
            let filter = listen::filter_view(from, eoj_filter, epc);
            &&& filter.epc == epc
            &&& filter.from is Some <==> from is Some
            &&& from matches Some(s) ==> filter.from == Some(s@)
            &&& filter.eoj is Some <==> eoj_filter is Some
            &&& eoj_filter matches Some(f) ==> filter.eoj == Some(
                match *f {
                    EojFilter::Class(group, class) => seq![group, class],
                    EojFilter::Exact(eoj) => eoj@,
                },
            )
        }),
{
}

/// The address filter lets exactly its own address pass.
pub proof fn law_address_filter(src: Seq<char>, f: FrameView, from: Seq<char>)
    ensures
        listen::wanted(src, f, FilterView { from: Some(from), eoj: None, epc: None }) <==> src
            == from && listen::wanted(src, f, FilterView { from: None, eoj: None, epc: None }),
{
}

/// The object filter compares the bytes that it has with the sender in bytes 4 to 6 of the frame: the
/// first two for a class, all three for an object.
pub proof fn law_object_filter(src: Seq<char>, data: Seq<u8>, want: Seq<u8>)
    requires
        codec::read_frame(data) is Ok,
        want.len() == 2 || want.len() == 3,
    ensures
        listen::wanted(
            src,
            codec::read_frame(data)->Ok_0,
            FilterView { from: None, eoj: Some(want), epc: None },
        ) <==> data[1] != 0x82 && (data[10] == 0x73 || data[10] == 0x74) && want[0] == data[4]
            && want[1] == data[5] && (want.len() == 3 ==> want[2] == data[6]),
{
    let f = codec::read_frame(data)->Ok_0;
    law_unfiltered(src, data);
    wire_laws::law_frame_head(data);
    if f.edata is Standard {
        let sender = data.subrange(4, 7);
        let head = sender.subrange(0, want.len() as int);
        assert(head[0] == data[4] && head[1] == data[5]);
        if want.len() == 3 {
            assert(head[2] == data[6]);
        }
        if want[0] == data[4] && want[1] == data[5] && (want.len() == 3 ==> want[2] == data[6]) {
            assert(want =~= head);
        }
    }
}

/// Whatever the object filter, it compares its bytes with the first bytes of the sender.
pub proof fn law_object_filter_bytes(src: Seq<char>, f: FrameView, want: Seq<u8>)
    ensures
        listen::wanted(src, f, FilterView { from: None, eoj: Some(want), epc: None }) <==> {
            &&& listen::wanted(src, f, FilterView { from: None, eoj: None, epc: None })
            &&& want.len() <= f.edata->Standard_seoj.len()
            &&& forall|i: int|
                0 <= i < want.len() ==> #[trigger] want[i] == f.edata->Standard_seoj[i]
        },
{
    if f.edata is Standard {
        let seoj = f.edata->Standard_seoj;
        if want.is_prefix_of(seoj) {
            assert forall|i: int| 0 <= i < want.len() implies #[trigger] want[i] == seoj[i] by {
                assert(seoj.subrange(0, want.len() as int)[i] == seoj[i]);
            }
        }
        if want.len() <= seoj.len() && forall|i: int|
            0 <= i < want.len() ==> #[trigger] want[i] == seoj[i] {
            assert(want =~= seoj.subrange(0, want.len() as int));
        }
    }
}

// ───────────────────────── output ─────────────────────────

/// What is printed of a notification: the address that it came from, its TID in four digits, its
/// sender, its receiver, its service, and its properties, read as properties of the sender.
pub proof fn law_event_members(src: Seq<char>, f: FrameView)
    requires
        f.edata is Standard,
    ensures
        ({
            let m = listen::event_output(src, f)->Obj_0;
            &&& listen::event_output(src, f) is Obj
            &&& m.dom() =~= set!["ip"@, "tid"@, "seoj"@, "deoj"@, "esv"@, "properties"@]
            &&& m["ip"@] == Json::Str(src)
            &&& m["tid"@] == Json::Str(
                text::lower_hex(seq![(f.tid as int / 256) as u8, (f.tid as int % 256) as u8]),
            )
            &&& m["seoj"@] == Json::Str(text::lower_hex(f.edata->Standard_seoj))
            &&& m["deoj"@] == Json::Str(text::lower_hex(f.edata->Standard_deoj))
            &&& m["esv"@] == Json::Str(f.edata->Standard_esv.label())
            &&& output_laws::lists_properties(
                m["properties"@],
                f.edata->Standard_seoj,
                f.edata->Standard_props,
            )
        }),
{
    output_laws::lemma_keys();
    assert(text::be_bytes(f.tid) =~= seq![
        (f.tid as int / 256) as u8,
        (f.tid as int % 256) as u8,
    ]);
}

/// What is printed of a notification, from its datagram: the address that it came from, the TID in
/// bytes 2 and 3, the sender in bytes 4 to 6, the receiver in bytes 7 to 9, the service in byte 10
/// and the properties, read as properties of the sender.
pub proof fn law_event_prints(src: Seq<char>, data: Seq<u8>)
    requires
        codec::read_frame(data) is Ok,
        codec::read_frame(data)->Ok_0.edata is Standard,
    ensures
        ({
            let f = codec::read_frame(data)->Ok_0;
            let m = listen::event_output(src, f)->Obj_0;
            let sender = data.subrange(4, 7);
            &&& listen::event_output(src, f) is Obj
            &&& m.dom() =~= set!["ip"@, "tid"@, "seoj"@, "deoj"@, "esv"@, "properties"@]
            &&& m["ip"@] == Json::Str(src)
            &&& m["tid"@] == Json::Str(text::lower_hex(seq![data[2], data[3]]))
            &&& m["seoj"@] == Json::Str(text::lower_hex(sender))
            &&& m["deoj"@] == Json::Str(text::lower_hex(data.subrange(7, 10)))
            &&& m["esv"@] == Json::Str(Esv::of_code(data[10]).label())
            &&& output_laws::lists_properties(
                m["properties"@],
                sender,
                f.edata->Standard_props,
            )
        }),
{
    output_laws::lemma_keys();
    wire_laws::law_frame_head(data);
    let f = codec::read_frame(data)->Ok_0;
    assert(text::be_bytes(f.tid) =~= seq![data[2], data[3]]);
}

/// A datagram adds one event, behind those that are there, exactly if it can be read and is listened
/// to. Nothing else changes.
pub proof fn law_datagram_taken(l: ListenerView, dg: DatagramView)
    ensures
        ({
            let next = listen::after_datagram(l, dg);
            let taken = codec::read_frame(dg.data) matches Ok(f) && listen::wanted(
                dg.from,
                f,
                l.filter,
            );
            &&& taken <==> listen::notified(dg, l.filter) is Some
            &&& taken ==> listen::notified(dg, l.filter)->0 == codec::read_frame(dg.data)->Ok_0
            &&& taken ==> next.events == l.events.push(
                listen::event_output(dg.from, codec::read_frame(dg.data)->Ok_0),
            )
            &&& !taken ==> next.events == l.events
            &&& next.count == l.count
            &&& next.timeout_ms == l.timeout_ms
            &&& next.filter == l.filter
        }),
{
}

/// What `listen` prints: the events under one key, in their order, or a timeout that names the limit
/// where there are none.
pub proof fn law_listen_prints(l: ListenerView)
    ensures
        l.events.len() > 0 ==> listen::listen_result(l) == Ok::<Json, AppErrorView>(
            Json::Obj(map!["events"@ => Json::Arr(l.events)]),
        ),
        l.events.len() == 0 ==> (listen::listen_result(l) matches Err(e) && {
            &&& e.kind == ErrKind::Timeout
            &&& e.detail == "INF 通知なし ("@ + text::decimal(l.timeout_ms as nat) + "ms)"@
            &&& e.extra is None
        }),
{
}

/// A limit of 0 is no limit, and any other limit is as given.
pub proof fn law_limit(l: ListenerView)
    ensures
        listen::limit_of(l) is None <==> l.timeout_ms == 0,
        listen::limit_of(l) matches Some(ms) ==> ms == l.timeout_ms,
{
}

/// Listening is complete as soon as there are as many events as are wanted, and not before.
pub proof fn law_complete(l: ListenerView)
    ensures
        listen::complete(l) <==> l.events.len() >= l.count,
{
}

// ───────────────────────── answers ─────────────────────────

/// Any frame that asks for an answer, and no other one, gets a frame from the object 05 FF 01 to its
/// sender, with its TID and the EPCs of its properties, in their order and without data.
pub proof fn law_answer_frame(f: FrameView)
    ensures
        listen::acknowledgement(f) is Some <==> (f.edata matches EdataView::Standard { esv, .. }
            && esv == Esv::InfC),
        listen::acknowledgement(f) matches Some(a) ==> {
            let asked = f.edata->Standard_props;
            &&& a.ehd1 == 0x10 && a.ehd2 == 0x81
            &&& a.tid == f.tid
            &&& a.edata matches EdataView::Standard { seoj, deoj, esv, props } && {
                &&& seoj == seq![0x05u8, 0xFFu8, 0x01u8]
                &&& deoj == f.edata->Standard_seoj
                &&& esv == Esv::InfCRes
                &&& props.len() == asked.len()
                &&& forall|i: int|
                    0 <= i < asked.len() ==> (#[trigger] props[i]).epc == asked[i].epc
                        && props[i].edt.len() == 0
            }
        },
{
}

/// A notification with the service 0x74, and no other one, is answered: with its own TID, from the
/// object 05 FF 01 to its sender, with the service 0x7A, and with the EPCs of its properties, in
/// their order and without data.
pub proof fn law_answer_bytes(data: Seq<u8>, i: int)
    requires
        codec::read_frame(data) is Ok,
    ensures
        ({
            let f = codec::read_frame(data)->Ok_0;
            let answer = listen::acknowledgement(f);
            &&& answer is Some <==> data[1] != 0x82 && data[10] == 0x74
            &&& answer is Some ==> {
                let bytes = codec::frame_bytes(answer->0);
                let props = f.edata->Standard_props;
                &&& bytes.len() == 12 + 2 * props.len()
                &&& bytes.take(12) == seq![
                    0x10u8,
                    0x81u8,
                    data[2],
                    data[3],
                    0x05u8,
                    0xFFu8,
                    0x01u8,
                    data[4],
                    data[5],
                    data[6],
                    0x7Au8,
                    data[11],
                ]
                &&& 0 <= i < props.len() ==> bytes[12 + 2 * i] == props[i].epc && bytes[13 + 2 * i]
                    == 0
            }
        }),
{
    let f = codec::read_frame(data)->Ok_0;
    wire_laws::law_frame_head(data);
    wire_laws::law_service_codes(data[10]);
    codec_laws::law_write_again(data);
    if listen::acknowledgement(f) is Some {
        let props = f.edata->Standard_props;
        let epcs = commands::epcs_of(props);
        let sender = data.subrange(4, 7);
        let tail = codec::props_bytes(commands::asked(epcs));
        wire_laws::law_standard_written(
            f.tid,
            commands::controller_object(),
            sender,
            Esv::InfCRes,
            commands::asked(epcs),
        );
        request_laws::lemma_asked_len(epcs);
        let head = seq![
            0x10u8,
            0x81u8,
            data[2],
            data[3],
            0x05u8,
            0xFFu8,
            0x01u8,
            data[4],
            data[5],
            data[6],
            0x7Au8,
            data[11],
        ];
        let bytes = codec::frame_bytes(listen::acknowledgement(f)->0);
        assert(bytes =~= head + tail);
        assert((head + tail).take(12) =~= head);
        if 0 <= i < props.len() {
            request_laws::law_asked_bytes(epcs, i);
            assert((head + tail)[12 + 2 * i] == tail[2 * i]);
            assert((head + tail)[13 + 2 * i] == tail[2 * i + 1]);
        }
    }
}

} // verus!
