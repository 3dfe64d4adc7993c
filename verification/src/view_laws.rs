//! That the models hold what the values hold, field by field and item by item.

use serde_json::Value;
use vstd::prelude::*;
use vstd::string::*;

use crate::cidr::{self, Ipv4};
use crate::cli::{self, Report, ReportView};
use crate::codec::{self, CodecError, CodecErrorView, Edata, EdataView, Eoj, Frame, Property};
use crate::discover::{self, Device};
use crate::json;
use crate::net::{
    Attempt, AttemptView, Datagram, ReplyStep, ReplyStepView, Resource, ResourceView, RetryStep,
    RetryStepView,
};

verus! {

broadcast use vstd::string::group_string_axioms;

// ───────────────────────── frames ─────────────────────────

/// The model of an object is its three bytes, and that of an address its four.
pub proof fn law_byte_views(eoj: Eoj, ip: Ipv4)
    ensures
        eoj@.len() == 3,
        eoj@[0] == eoj.0[0] && eoj@[1] == eoj.0[1] && eoj@[2] == eoj.0[2],
        ip@.len() == 4,
        ip@[0] == ip.0[0] && ip@[1] == ip.0[1] && ip@[2] == ip.0[2] && ip@[3] == ip.0[3],
{
}

/// The model of a list of properties has each property, in its place, with its EPC and its data.
pub proof fn law_property_views(props: Seq<Property>, i: int)
    requires
        0 <= i < props.len(),
    ensures
        codec::props_view(props).len() == props.len(),
        codec::props_view(props)[i].epc == props[i].epc,
        codec::props_view(props)[i].edt == props[i].edt@,
{
}

/// The model of a frame has its header, its TID and its body, with the same objects, the same service
/// and the same lists.
pub proof fn law_frame_view(f: Frame)
    ensures
        f@.ehd1 == f.ehd1,
        f@.ehd2 == f.ehd2,
        f@.tid == f.tid,
        match f.edata {
            Edata::Standard { seoj, deoj, esv, props } => f@.edata matches EdataView::Standard {
                seoj: s,
                deoj: d,
                esv: e,
                props: p,
            } && s == seoj@ && d == deoj@ && e == esv && p == codec::props_view(props@),
            Edata::SetGet { seoj, deoj, esv, set_props, get_props } => f@.edata matches
                EdataView::SetGet { seoj: s, deoj: d, esv: e, set_props: w, get_props: r } && s
                == seoj@ && d == deoj@ && e == esv && w == codec::props_view(set_props@) && r
                == codec::props_view(get_props@),
            Edata::Arbitrary(bytes) => f@.edata == EdataView::Arbitrary(bytes@),
        },
{
}

/// The model of a codec error is of the same kind and has the same words or byte.
pub proof fn law_codec_error_view(e: CodecError)
    ensures
        e@ == (match e {
            CodecError::Truncated(what) => CodecErrorView::Truncated(what@),
            CodecError::BadEhd1(byte) => CodecErrorView::BadEhd1(byte),
            CodecError::BadField(what) => CodecErrorView::BadField(what@),
            CodecError::BadHex => CodecErrorView::BadHex,
            CodecError::TooLong(what) => CodecErrorView::TooLong(what@),
        }),
{
}

// ───────────────────────── lists ─────────────────────────

/// The models of lists of texts and of JSON values have each item in its place.
pub proof fn law_list_views(texts: Seq<String>, values: Seq<Value>, i: int)
    ensures
        json::owned_texts(texts).len() == texts.len(),
        json::json_list(values).len() == values.len(),
        0 <= i < texts.len() ==> json::owned_texts(texts)[i] == texts[i]@,
        0 <= i < values.len() ==> json::json_list(values)[i] == json::json_of(values[i]),
{
}

/// The models of lists of addresses, datagrams and nodes have each item in its place.
pub proof fn law_network_views(
    ips: Seq<Ipv4>,
    datagrams: Seq<Datagram>,
    devices: Seq<Device>,
    i: int,
)
    ensures
        cidr::ips_view(ips).len() == ips.len(),
        discover::datagrams_view(datagrams).len() == datagrams.len(),
        discover::devices_view(devices).len() == devices.len(),
        0 <= i < ips.len() ==> cidr::ips_view(ips)[i] == ips[i]@,
        0 <= i < datagrams.len() ==> ({
            let model = discover::datagrams_view(datagrams)[i];
            model.from == datagrams[i].from@ && model.data == datagrams[i].data@
        }),
        0 <= i < devices.len() ==> ({
            let model = discover::devices_view(devices)[i];
            model.ip == devices[i].ip@ && model.value == json::json_of(devices[i].value)
        }),
{
}

/// What is optional is there in the model exactly if it is there.
pub proof fn law_optional_views(s: &str, owned: String, ip: Ipv4)
    ensures
        cidr::text_view(Some(s)) == Some(s@),
        cidr::text_view(None) is None,
        cli::opt_text(Some(owned)) == Some(owned@),
        cli::opt_text(None) is None,
        cidr::ip_view(Some(ip)) == Some(ip@),
        cidr::ip_view(None) is None,
{
}

// ───────────────────────── steps ─────────────────────────

/// The models of what is to be done are of the same kind and have the same parts.
pub proof fn law_step_views(report: Report, reply: ReplyStep, retry: RetryStep)
    ensures
        report@ == (match report {
            Report::Get(eoj) => ReportView::Get(eoj@),
            Report::Write(eoj) => ReportView::Write(eoj@),
            Report::Describe(eoj) => ReportView::Describe(eoj@),
            Report::Raw => ReportView::Raw,
        }),
        reply@ == (match reply {
            ReplyStep::Accept(dg) => ReplyStepView::Accept(dg),
            ReplyStep::Skip => ReplyStepView::Skip,
            ReplyStep::Fail(e) => ReplyStepView::Fail(e@),
        }),
        retry@ == (match retry {
            RetryStep::Done { waited } => RetryStepView::Done { waited },
            RetryStep::Wait { announce, pause_ms } => RetryStepView::Wait { announce, pause_ms },
            RetryStep::GiveUp(e) => RetryStepView::GiveUp(e@),
        }),
{
}

/// The models of what is to be taken, and of what came of a try, are of the same kind and have the
/// same words.
pub proof fn law_attempt_views(resource: Resource, attempt: Attempt)
    ensures
        resource@ == (match resource {
            Resource::Lock(path) => ResourceView::Lock(path@),
            Resource::Port(addr) => ResourceView::Port(addr@),
        }),
        attempt@ == (match attempt {
            Attempt::Taken => AttemptView::Taken,
            Attempt::Busy(why) => AttemptView::Busy(why@),
            Attempt::Failed(why) => AttemptView::Failed(why@),
        }),
{
}

} // verus!
