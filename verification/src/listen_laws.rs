//! What holds of listening as a whole.

use vstd::prelude::*;
use vstd::string::*;

use crate::codec::{self, CodecErrorView, EdataView, Esv, FrameView};
use crate::codec_laws;
use crate::commands;
use crate::conformance::{self, conforms, fits};
use crate::error::ErrKind;
use crate::json::Json;
use crate::listen::{self, EojFilter, FilterView, ListenerView};
use crate::net::DatagramView;
use crate::schema;
use crate::text;

verus! {

broadcast use vstd::string::group_string_axioms;

// ───────────────────────── which notifications ─────────────────────────

/// The state after some datagrams, one after the other, where listening stops as soon as as many
/// notifications came as are wanted.
pub open spec fn after_datagrams(l: ListenerView, datagrams: Seq<DatagramView>) -> ListenerView
    decreases datagrams.len(),
{
    if datagrams.len() == 0 || l.events.len() >= l.count {
        l
    } else {
        after_datagrams(listen::after_datagram(l, datagrams[0]), datagrams.skip(1))
    }
}

/// The notifications among some datagrams that are wanted, in their order.
pub open spec fn notifications(datagrams: Seq<DatagramView>, filter: FilterView) -> Seq<Json>
    decreases datagrams.len(),
{
    if datagrams.len() == 0 {
        Seq::empty()
    } else {
        let later = notifications(datagrams.skip(1), filter);
        match listen::notified(datagrams[0], filter) {
            Some(f) => seq![listen::event_output(datagrams[0].from, f)] + later,
            None => later,
        }
    }
}

/// Listening collects the first notifications that are wanted, in their order, as many as are
/// wanted and no more.
pub proof fn law_first_notifications(l: ListenerView, datagrams: Seq<DatagramView>)
    requires
        l.events.len() <= l.count,
    ensures
        ({
            let all = l.events + notifications(datagrams, l.filter);
            let end = after_datagrams(l, datagrams);
            &&& end.events == (if all.len() <= l.count {
                all
            } else {
                all.take(l.count as int)
            })
            &&& end.count == l.count
            &&& end.filter == l.filter
            &&& end.timeout_ms == l.timeout_ms
        }),
    decreases datagrams.len(),
{
    let all = l.events + notifications(datagrams, l.filter);
    if datagrams.len() == 0 {
        assert(all =~= l.events);
    } else if l.events.len() >= l.count {
        assert(all.take(l.count as int) =~= l.events);
        if all.len() <= l.count {
            assert(all =~= l.events);
        }
    } else {
        let next = listen::after_datagram(l, datagrams[0]);
        law_first_notifications(next, datagrams.skip(1));
        assert(next.events + notifications(datagrams.skip(1), l.filter) =~= all);
    }
}

/// Zero notifications end in a timeout, one or more in success.
pub proof fn law_listen_result(l: ListenerView)
    ensures
        listen::listen_result(l) is Ok <==> l.events.len() > 0,
        listen::listen_result(l) matches Err(e) ==> e.kind == ErrKind::Timeout && e.kind.code() == 3,
{
}

/// A filter of a class lets every instance of the class pass, and a filter of an object that object
/// alone.
pub proof fn law_filters(filter: EojFilter, eoj: Seq<u8>)
    requires
        eoj.len() == 3,
    ensures
        match filter {
            EojFilter::Class(group, class) => listen::filter_bytes(filter).is_prefix_of(eoj) <==> eoj[0]
                == group && eoj[1] == class,
            EojFilter::Exact(e) => listen::filter_bytes(filter).is_prefix_of(eoj) <==> eoj == e@,
        },
{
    let want = listen::filter_bytes(filter);
    match filter {
        EojFilter::Class(group, class) => {
            let head = eoj.subrange(0, 2);
            assert(head[0] == eoj[0] && head[1] == eoj[1]);
            if eoj[0] == group && eoj[1] == class {
                assert(want =~= head);
            }
        },
        EojFilter::Exact(e) => {
            assert(eoj.subrange(0, 3) =~= eoj);
        },
    }
}

/// A notification that asks for an answer gets one that can be taken for the answer: it has the same
/// TID, and it goes to the object that sent the notification.
pub proof fn law_acknowledged(f: FrameView)
    requires
        f.edata is Standard,
    ensures
        listen::acknowledgement(f) is Some <==> codec::service(f) == Some(Esv::InfC),
        listen::acknowledgement(f) matches Some(a) ==> {
            &&& a.tid == f.tid
            &&& codec::service(a) == Some(Esv::InfCRes)
            &&& a.edata->Standard_deoj == f.edata->Standard_seoj
            &&& commands::epcs_of(a.edata->Standard_props) == commands::epcs_of(
                f.edata->Standard_props,
            )
        },
{
    if let Some(a) = listen::acknowledgement(f) {
        assert(commands::epcs_of(a.edata->Standard_props) =~= commands::epcs_of(
            f.edata->Standard_props,
        ));
    }
}

/// The answer to a notification that came in can be written without loss, and is read back as it is.
pub proof fn law_acknowledgement_fits(data: Seq<u8>)
    ensures
        codec::read_frame(data) matches Ok(f) ==> (listen::acknowledgement(f) matches Some(a) ==> {
            &&& codec::excess(a) is None
            &&& codec::read_frame(codec::frame_bytes(a)) == Ok::<FrameView, CodecErrorView>(a)
        }),
{
    if let Ok(f) = codec::read_frame(data) {
        codec_laws::law_write_again(data);
        if let Some(a) = listen::acknowledgement(f) {
            codec_laws::law_read_back(a);
        }
    }
}

// ───────────────────────── the schema ─────────────────────────

/// The keys of a notification differ.
proof fn lemma_event_keys()
    ensures
        "ip"@.len() == 2,
        "tid"@.len() == 3 && "tid"@[0] == 't',
        "esv"@.len() == 3 && "esv"@[0] == 'e',
        "seoj"@.len() == 4 && "seoj"@[0] == 's',
        "deoj"@.len() == 4 && "deoj"@[0] == 'd',
        "properties"@.len() == 10,
{
    reveal_strlit("ip");
    reveal_strlit("tid");
    reveal_strlit("esv");
    reveal_strlit("seoj");
    reveal_strlit("deoj");
    reveal_strlit("properties");
}

/// A notification that is listened to conforms to its schema.
pub proof fn law_event_conforms(src: Seq<char>, f: FrameView, filter: FilterView)
    requires
        listen::wanted(src, f, filter),
    ensures
        conforms(schema::event_schema(), listen::event_output(src, f)),
{
    let v = listen::event_output(src, f)->Obj_0;
    let p = map![
        "ip"@ => schema::described("string"@, "通知の送信元 IP"@),
        "tid"@ => schema::described("string"@, "TID (4 hex 桁)"@),
        "seoj"@ => schema::described("string"@, "通知元 EOJ (6 hex 桁)"@),
        "deoj"@ => schema::typed("string"@),
        "esv"@ => schema::notification_schema(),
        "properties"@ => schema::array_of(schema::property_schema()),
    ];
    let required = seq!["ip"@, "tid"@, "seoj"@, "deoj"@, "esv"@, "properties"@];
    let services = seq!["Inf"@, "InfC"@];
    lemma_event_keys();
    conformance::lemma_string(src);
    conformance::lemma_string(text::lower_hex(text::be_bytes(f.tid)));
    conformance::lemma_choice(services, 0);
    conformance::lemma_choice(services, 1);
    match f.edata {
        EdataView::Standard { seoj, deoj, esv, props } => {
            conformance::lemma_string(text::lower_hex(seoj));
            conformance::lemma_string(text::lower_hex(deoj));
            conformance::lemma_props(seoj, props);
        },
        _ => {},
    }
    assert(fits(p, required, v));
    conformance::lemma_closed_object(p, required, v);
}

/// All notifications of a list conform to their schema.
pub open spec fn events_conform(events: Seq<Json>) -> bool {
    forall|i: int|
        0 <= i < events.len() ==> conforms(schema::event_schema(), #[trigger] events[i])
}

/// Whatever datagrams come in, the notifications that are kept conform to their schema.
pub proof fn law_listener_conforms(l: ListenerView, datagrams: Seq<DatagramView>)
    requires
        events_conform(l.events),
    ensures
        events_conform(after_datagrams(l, datagrams).events),
    decreases datagrams.len(),
{
    if datagrams.len() > 0 && l.events.len() < l.count {
        let dg = datagrams[0];
        let next = listen::after_datagram(l, dg);
        if let Some(f) = listen::notified(dg, l.filter) {
            law_event_conforms(dg.from, f, l.filter);
        }
        law_listener_conforms(next, datagrams.skip(1));
    }
}

/// What `listen` prints conforms to the schema of `listen`.
pub proof fn law_listen_conforms(l: ListenerView, datagrams: Seq<DatagramView>)
    requires
        l.events.len() == 0,
    ensures
        listen::listen_result(after_datagrams(l, datagrams)) matches Ok(value) ==> conforms(
            schema::listen_schema(),
            value,
        ),
{
    law_listener_conforms(l, datagrams);
    let events = after_datagrams(l, datagrams).events;
    let v = map!["events"@ => Json::Arr(events)];
    let p = map!["events"@ => schema::array_of(schema::event_schema())];
    let required = seq!["events"@];
    conformance::lemma_array(schema::event_schema(), Json::Arr(events));
    assert(fits(p, required, v));
    conformance::lemma_output("enl listen output"@, p, required, v);
}

} // verus!
