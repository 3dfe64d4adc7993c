//! Waiting for notifications (INF and INFC).

use serde_json::{Map as JsonMap, Value};
use vstd::prelude::*;
use vstd::string::*;

use crate::codec::{self, Edata, EdataView, Eoj, Esv, Frame, FrameView, Property, PropertyView};
use crate::commands;
use crate::error::{self, AppError, AppErrorView, ErrKind};
use crate::json::{self, Json};
use crate::listen_laws;
use crate::net::{Datagram, DatagramView};
use crate::text;

verus! {

broadcast use vstd::string::group_string_axioms;

// ───────────────────────── filters ─────────────────────────

/// Which objects are listened to: all of a class, or exactly one.
#[derive(Clone, Copy, PartialEq, Eq, Debug)]
pub enum EojFilter {
    /// The class group and the class.
    Class(u8, u8),
    /// The object.
    Exact(Eoj),
}

/// The model of a filter: the bytes with which an object must begin.
pub open spec fn filter_bytes(filter: EojFilter) -> Seq<u8> {
    match filter {
        EojFilter::Class(group, class) => seq![group, class],
        EojFilter::Exact(eoj) => eoj@,
    }
}

/// The filter of a text: four digits for a class, six for an object.
pub open spec fn filter_of(s: Seq<char>) -> Result<Seq<u8>, AppErrorView> {
    match codec::bytes_of_hex(s) {
        None => Err(
            error::plain_error(
                ErrKind::Usage,
                "EOJ フィルタ hex 不正: "@ + codec::CodecErrorView::BadHex.message(),
            ),
        ),
        Some(bytes) => if bytes.len() == 2 || bytes.len() == 3 {
            Ok(bytes)
        } else {
            Err(
                error::plain_error(
                    ErrKind::Usage,
                    "EOJ フィルタは 4 hex 桁 (クラス) か 6 hex 桁 (完全一致)"@,
                ),
            )
        },
    }
}

impl EojFilter {
    /// Reads a filter such as `0291` for a class or `029101` for an object.
    pub fn from_hex(s: &str) -> (r: Result<EojFilter, AppError>)
        ensures
            match r {
                Ok(filter) => filter_of(s@) == Ok::<Seq<u8>, AppErrorView>(filter_bytes(filter)),
                Err(e) => filter_of(s@) == Err::<Seq<u8>, AppErrorView>(e@),
            },
    {
        let bytes = match codec::hex_to_bytes(s) {
            Ok(bytes) => bytes,
            Err(e) => {
                return Err(
                    AppError::new(
                        ErrKind::Usage,
                        text::concat("EOJ フィルタ hex 不正: ", e.to_string().as_str()),
                    ),
                );
            },
        };
        if bytes.len() == 2 {
            let filter = EojFilter::Class(bytes[0], bytes[1]);
            assert(filter_bytes(filter) =~= bytes@);
            Ok(filter)
        } else if bytes.len() == 3 {
            let filter = EojFilter::Exact(Eoj([bytes[0], bytes[1], bytes[2]]));
            assert(filter_bytes(filter) =~= bytes@);
            Ok(filter)
        } else {
            Err(
                AppError::new(
                    ErrKind::Usage,
                    "EOJ フィルタは 4 hex 桁 (クラス) か 6 hex 桁 (完全一致)".to_owned(),
                ),
            )
        }
    }

    /// Whether the filter lets an object pass.
    pub fn matches(&self, eoj: Eoj) -> (r: bool)
        ensures
            r == filter_bytes(*self).is_prefix_of(eoj@),
    {
        match self {
            EojFilter::Class(group, class) => {
                let r = eoj.0[0] == *group && eoj.0[1] == *class;
                proof {
                    let want = filter_bytes(*self);
                    assert(eoj@.subrange(0, 2)[0] == eoj@[0] && eoj@.subrange(0, 2)[1] == eoj@[1]);
                    if r {
                        assert(want =~= eoj@.subrange(0, 2));
                    }
                }
                r
            },
            EojFilter::Exact(e) => {
                let r = eoj.0[0] == e.0[0] && eoj.0[1] == e.0[1] && eoj.0[2] == e.0[2];
                proof {
                    let want = filter_bytes(*self);
                    assert(eoj@.subrange(0, 3) =~= eoj@);
                    if r {
                        assert(want =~= eoj@);
                    }
                }
                r
            },
        }
    }
}

// ───────────────────────── one notification ─────────────────────────

/// What is listened to: the sender's address, the sending object and an EPC, each where it is given.
pub struct FilterView {
    pub from: Option<Seq<char>>,
    pub eoj: Option<Seq<u8>>,
    pub epc: Option<u8>,
}

/// Some property of the list has the EPC.
pub open spec fn has_epc(props: Seq<PropertyView>, epc: u8) -> bool {
    exists|i: int| 0 <= i < props.len() && (#[trigger] props[i]).epc == epc
}

/// A frame is a notification that is listened to.
pub open spec fn wanted(src: Seq<char>, f: FrameView, filter: FilterView) -> bool {
    match f.edata {
        EdataView::Standard { seoj, esv, props, .. } => {
            &&& esv == Esv::Inf || esv == Esv::InfC
            &&& filter.from matches Some(from) ==> from == src
            &&& filter.eoj matches Some(want) ==> want.is_prefix_of(seoj)
            &&& filter.epc matches Some(epc) ==> has_epc(props, epc)
        },
        _ => false,
    }
}

/// A notification as JSON.
pub open spec fn event_output(src: Seq<char>, f: FrameView) -> Json {
    match f.edata {
        EdataView::Standard { seoj, deoj, esv, props } => Json::Obj(
            map![
                "ip"@ => Json::Str(src),
                "tid"@ => Json::Str(text::lower_hex(text::be_bytes(f.tid))),
                "seoj"@ => Json::Str(text::lower_hex(seoj)),
                "deoj"@ => Json::Str(text::lower_hex(deoj)),
                "esv"@ => Json::Str(esv.label()),
                "properties"@ => commands::props_array(seoj, props),
            ],
        ),
        _ => Json::Null,
    }
}

/// The model of the filters of a call.
pub open spec fn filter_view(
    from: Option<&str>,
    eoj_filter: Option<&EojFilter>,
    epc: Option<u8>,
) -> FilterView {
    FilterView {
        from: match from {
            Some(s) => Some(s@),
            None => None,
        },
        eoj: match eoj_filter {
            Some(f) => Some(filter_bytes(*f)),
            None => None,
        },
        epc,
    }
}

/// Whether some property of the list has the EPC.
fn any_epc(props: &Vec<Property>, epc: u8) -> (r: bool)
    ensures
        r == has_epc(codec::props_view(props@), epc),
{
    let ghost model = codec::props_view(props@);
    for i in 0..props.len()
        invariant
            model == codec::props_view(props@),
            forall|k: int| 0 <= k < i ==> (#[trigger] model[k]).epc != epc,
    {
        if props[i].epc == epc {
            assert(model[i as int].epc == epc);
            return true;
        }
    }
    false
}

/// A notification that is listened to, as JSON. Other services and what the filters do not let pass
/// give nothing.
pub fn inf_event(
    src: &str,
    frame: &Frame,
    from: Option<&str>,
    eoj_filter: Option<&EojFilter>,
    epc: Option<u8>,
) -> (r: Option<Value>)
    ensures
        match r {
            Some(event) => wanted(src@, frame@, filter_view(from, eoj_filter, epc))
                && json::json_of(event) == event_output(src@, frame@),
            None => !wanted(src@, frame@, filter_view(from, eoj_filter, epc)),
        },
{
    let (seoj, deoj, esv, props) = match &frame.edata {
        Edata::Standard { seoj, deoj, esv, props } => (*seoj, *deoj, *esv, props),
        _ => {
            return None;
        },
    };
    if esv != Esv::Inf && esv != Esv::InfC {
        return None;
    }
    if let Some(ip) = from {
        if !text::same_text(ip, src) {
            return None;
        }
    }
    if let Some(filter) = eoj_filter {
        if !filter.matches(seoj) {
            return None;
        }
    }
    if let Some(epc) = epc {
        if !any_epc(props, epc) {
            return None;
        }
    }
    let mut out = JsonMap::new();
    json::put(&mut out, "ip", json::text(src));
    json::put(&mut out, "tid", json::text(commands::tid_hex(frame.tid).as_str()));
    json::put(&mut out, "seoj", json::text(seoj.to_hex().as_str()));
    json::put(&mut out, "deoj", json::text(deoj.to_hex().as_str()));
    json::put(&mut out, "esv", json::text(esv.name().as_str()));
    json::put(&mut out, "properties", commands::props_json(seoj, props));
    Some(json::object(out))
}

/// The answer to a notification that asks for one (INFC): from the controller to the object that
/// sent it, with the same TID and the same EPCs without data.
pub open spec fn acknowledgement(f: FrameView) -> Option<FrameView> {
    match f.edata {
        EdataView::Standard { seoj, esv, props, .. } => if esv == Esv::InfC {
            Some(
                codec::standard_frame(
                    f.tid,
                    commands::controller_object(),
                    seoj,
                    Esv::InfCRes,
                    commands::asked(commands::epcs_of(props)),
                ),
            )
        } else {
            None
        },
        _ => None,
    }
}

/// The answer to a notification that asks for one.
pub fn infc_res(frame: &Frame) -> (r: Option<Frame>)
    ensures
        match r {
            Some(answer) => acknowledgement(frame@) == Some(answer@),
            None => acknowledgement(frame@) is None,
        },
{
    let (seoj, esv, props) = match &frame.edata {
        Edata::Standard { seoj, esv, props, .. } => (*seoj, *esv, props),
        _ => {
            return None;
        },
    };
    if esv != Esv::InfC {
        return None;
    }
    let ghost want = commands::asked(commands::epcs_of(codec::props_view(props@)));
    let mut answers: Vec<Property> = Vec::with_capacity(props.len());
    for i in 0..props.len()
        invariant
            want == commands::asked(commands::epcs_of(codec::props_view(props@))),
            answers.len() == i,
            forall|k: int| 0 <= k < i ==> (#[trigger] answers@[k])@ == want[k],
    {
        answers.push(Property::get(props[i].epc));
    }
    assert(codec::props_view(answers@) =~= want);
    Some(Frame::standard(frame.tid, commands::controller(), seoj, Esv::InfCRes, answers))
}

// ───────────────────────── a series of notifications ─────────────────────────

/// The state of listening: how many notifications are wanted, which ones, and those that came.
pub struct Listener {
    count: usize,
    timeout_ms: u64,
    from: Option<String>,
    eoj_filter: Option<EojFilter>,
    epc: Option<u8>,
    events: Vec<Value>,
}

/// The model of the state of listening.
pub struct ListenerView {
    /// How many notifications are wanted.
    pub count: nat,
    /// How long to wait, in milliseconds; 0 means without limit.
    pub timeout_ms: u64,
    /// Which notifications are wanted.
    pub filter: FilterView,
    /// Those that came, in their order.
    pub events: Seq<Json>,
}

impl View for Listener {
    type V = ListenerView;

    closed spec fn view(&self) -> ListenerView {
        ListenerView {
            count: self.count as nat,
            timeout_ms: self.timeout_ms,
            filter: FilterView {
                from: match self.from {
                    Some(s) => Some(s@),
                    None => None,
                },
                eoj: match self.eoj_filter {
                    Some(f) => Some(filter_bytes(f)),
                    None => None,
                },
                epc: self.epc,
            },
            events: json::json_list(self.events@),
        }
    }
}

/// What to do with a datagram.
pub enum ListenStep {
    /// It is no notification that is wanted.
    Skip,
    /// It was taken. The bytes are the answer that its sender asks for.
    Taken { answer: Option<Vec<u8>> },
}

/// How long to listen, in milliseconds: 0 means without limit.
pub open spec fn limit_of(l: ListenerView) -> Option<u64> {
    if l.timeout_ms == 0 {
        None
    } else {
        Some(l.timeout_ms)
    }
}

/// As many notifications came as are wanted.
pub open spec fn complete(l: ListenerView) -> bool {
    l.events.len() >= l.count
}

/// The notification that a datagram holds, where it is wanted.
pub open spec fn notified(dg: DatagramView, filter: FilterView) -> Option<FrameView> {
    match codec::read_frame(dg.data) {
        Ok(f) => if wanted(dg.from, f, filter) {
            Some(f)
        } else {
            None
        },
        Err(_) => None,
    }
}

/// The state after a datagram.
pub open spec fn after_datagram(l: ListenerView, dg: DatagramView) -> ListenerView {
    match notified(dg, l.filter) {
        Some(f) => ListenerView { events: l.events.push(event_output(dg.from, f)), ..l },
        None => l,
    }
}

/// What `listen` prints in the end: the notifications, or a timeout where none came.
pub open spec fn listen_result(l: ListenerView) -> Result<Json, AppErrorView> {
    if l.events.len() == 0 {
        Err(
            error::plain_error(
                ErrKind::Timeout,
                "INF 通知なし ("@ + text::decimal(l.timeout_ms as nat) + "ms)"@,
            ),
        )
    } else {
        Ok(Json::Obj(map!["events"@ => Json::Arr(l.events)]))
    }
}

impl Listener {
    /// The start of listening. A timeout of 0 means without limit.
    pub fn new(
        count: usize,
        timeout_ms: u64,
        from: Option<String>,
        eoj_filter: Option<EojFilter>,
        epc: Option<u8>,
    ) -> (l: Listener)
        ensures
            l@ == (ListenerView {
                count: count as nat,
                timeout_ms,
                filter: FilterView {
                    from: match from {
                        Some(s) => Some(s@),
                        None => None,
                    },
                    eoj: match eoj_filter {
                        Some(f) => Some(filter_bytes(f)),
                        None => None,
                    },
                    epc,
                },
                events: Seq::empty(),
            }),
    {
        let l = Listener { count, timeout_ms, from, eoj_filter, epc, events: Vec::new() };
        assert(l@.events =~= Seq::empty());
        l
    }

    /// How long to listen, in milliseconds, where there is a limit.
    pub fn limit_ms(&self) -> (r: Option<u64>)
        ensures
            r == limit_of(self@),
    {
        if self.timeout_ms == 0 {
            None
        } else {
            Some(self.timeout_ms)
        }
    }

    /// Whether as many notifications came as are wanted.
    pub fn is_full(&self) -> (r: bool)
        ensures
            r == complete(self@),
    {
        self.events.len() >= self.count
    }

    /// Takes a datagram: a notification that is wanted is kept, and answered where it asks for that.
    pub fn take(&mut self, dg: &Datagram) -> (step: ListenStep)
        ensures
            final(self)@ == after_datagram(old(self)@, dg@),
            match notified(dg@, old(self)@.filter) {
                None => step is Skip,
                Some(f) => step matches ListenStep::Taken { answer } && match acknowledgement(f) {
                    Some(a) => answer matches Some(bytes) && bytes@ == codec::frame_bytes(a),
                    None => answer is None,
                },
            },
    {
        let frame = match codec::parse(dg.data.as_slice()) {
            Ok(frame) => frame,
            Err(_) => {
                return ListenStep::Skip;
            },
        };
        let from = match &self.from {
            Some(s) => Some(s.as_str()),
            None => None,
        };
        let event = match inf_event(
            dg.from.as_str(),
            &frame,
            from,
            self.eoj_filter.as_ref(),
            self.epc,
        ) {
            Some(event) => event,
            None => {
                return ListenStep::Skip;
            },
        };
        self.events.push(event);
        assert(self@.events =~= old(self)@.events.push(event_output(dg@.from, frame@)));
        match infc_res(&frame) {
            Some(answer) => {
                proof {
                    listen_laws::law_acknowledgement_fits(dg@.data);
                }
                match codec::build(&answer) {
                    Ok(bytes) => ListenStep::Taken { answer: Some(bytes) },
                    // Never: an answer has no more properties than what was read, and no data.
                    Err(_) => ListenStep::Taken { answer: None },
                }
            },
            None => ListenStep::Taken { answer: None },
        }
    }

    /// What `listen` prints in the end.
    pub fn finish(self) -> (r: Result<Value, AppError>)
        ensures
            commands::result_view(r) == listen_result(self@),
    {
        if self.events.len() == 0 {
            let mut detail = text::concat(
                "INF 通知なし (",
                text::to_decimal(self.timeout_ms).as_str(),
            );
            detail.append("ms)");
            return Err(AppError::new(ErrKind::Timeout, detail));
        }
        let mut out = JsonMap::new();
        json::put(&mut out, "events", json::array(self.events));
        Ok(json::object(out))
    }
}

} // verus!
