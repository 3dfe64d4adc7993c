//! What the subcommands that ask one device print of the bytes that come back, member by member.

use serde_json::Value;
use vstd::prelude::*;
use vstd::string::*;

use crate::codec::{self, EdataView, Esv, FrameView, PropertyView};
use crate::commands;
use crate::error::{AppError, AppErrorView, ErrKind};
use crate::json::{self, Json};
use crate::properties;
use crate::text;
use crate::wire_laws;

verus! {

broadcast use vstd::string::group_string_axioms;

/// The array holds one object for each property, in the same order: the property as it is shown for
/// the given object.
pub open spec fn lists_properties(array: Json, eoj: Seq<u8>, props: Seq<PropertyView>) -> bool {
    &&& array is Arr
    &&& array->Arr_0.len() == props.len()
    &&& forall|i: int|
        0 <= i < props.len() ==> #[trigger] array->Arr_0[i] == Json::Obj(
            properties::property_members(eoj, props[i].epc, props[i].edt),
        )
}

/// The response can be read, has one list of properties, and its service is no refusal.
pub open spec fn granted_response(data: Seq<u8>) -> bool {
    &&& codec::read_frame(data) is Ok
    &&& codec::read_frame(data)->Ok_0.edata is Standard
    &&& !(0x50 <= data[10] <= 0x5F)
}

/// Keys of the outputs that can be told apart.
pub(crate) proof fn lemma_keys()
    ensures
        "ip"@.len() == 2,
        "tid"@.len() == 3 && "tid"@[0] == 't',
        "eoj"@.len() == 3 && "eoj"@[0] == 'e' && "eoj"@[1] == 'o',
        "esv"@.len() == 3 && "esv"@[0] == 'e' && "esv"@[1] == 's',
        "ehd2"@.len() == 4 && "ehd2"@[0] == 'e',
        "seoj"@.len() == 4 && "seoj"@[0] == 's',
        "deoj"@.len() == 4 && "deoj"@[0] == 'd',
        "frame"@.len() == 5,
        "result"@.len() == 6 && "result"@[0] == 'r',
        "format"@.len() == 6 && "format"@[0] == 'f',
        "edt_hex"@.len() == 7 && "edt_hex"@[0] == 'e',
        "get_map"@.len() == 7 && "get_map"@[0] == 'g',
        "set_map"@.len() == 7 && "set_map"@[0] == 's',
        "inf_map"@.len() == 7 && "inf_map"@[0] == 'i',
        "sent_hex"@.len() == 8,
        "properties"@.len() == 10,
        "parse_error"@.len() == 11,
        "response_hex"@.len() == 12 && "response_hex"@[0] == 'r' && "response_hex"@[2] == 's',
        "rejected_epc"@.len() == 12 && "rejected_epc"@[0] == 'r' && "rejected_epc"@[2] == 'j',
        "set_properties"@.len() == 14 && "set_properties"@[0] == 's',
        "get_properties"@.len() == 14 && "get_properties"@[0] == 'g',
{
    reveal_strlit("ip");
    reveal_strlit("tid");
    reveal_strlit("eoj");
    reveal_strlit("esv");
    reveal_strlit("ehd2");
    reveal_strlit("seoj");
    reveal_strlit("deoj");
    reveal_strlit("frame");
    reveal_strlit("result");
    reveal_strlit("format");
    reveal_strlit("edt_hex");
    reveal_strlit("get_map");
    reveal_strlit("set_map");
    reveal_strlit("inf_map");
    reveal_strlit("sent_hex");
    reveal_strlit("properties");
    reveal_strlit("parse_error");
    reveal_strlit("response_hex");
    reveal_strlit("rejected_epc");
    reveal_strlit("set_properties");
    reveal_strlit("get_properties");
}

// ───────────────────────── get and set ─────────────────────────

/// What `get` prints of a response that is no refusal: the address, the object that was asked, the
/// name of the service in byte 10 of the response, and each of its properties, read as properties of
/// the object that was asked.
pub proof fn law_get_prints(ip: Seq<char>, eoj: Seq<u8>, data: Seq<u8>)
    requires
        granted_response(data),
    ensures
        commands::get_result(ip, eoj, data) matches Ok(value) && {
            let m = value->Obj_0;
            let props = codec::read_frame(data)->Ok_0.edata->Standard_props;
            &&& value is Obj
            &&& m.dom() =~= set!["ip"@, "eoj"@, "esv"@, "properties"@]
            &&& m["ip"@] == Json::Str(ip)
            &&& m["eoj"@] == Json::Str(text::lower_hex(eoj))
            &&& m["esv"@] == Json::Str(Esv::of_code(data[10]).label())
            &&& lists_properties(m["properties"@], eoj, props)
        },
{
    lemma_keys();
    wire_laws::law_frame_head(data);
    wire_laws::law_service_kinds(data[10]);
}

/// What `set` prints of a response that is no refusal: as `get` does, and that it was accepted.
pub proof fn law_set_prints(ip: Seq<char>, eoj: Seq<u8>, data: Seq<u8>)
    requires
        granted_response(data),
    ensures
        commands::set_result(ip, eoj, data) matches Ok(value) && {
            let m = value->Obj_0;
            let props = codec::read_frame(data)->Ok_0.edata->Standard_props;
            &&& value is Obj
            &&& m.dom() =~= set!["ip"@, "eoj"@, "esv"@, "result"@, "properties"@]
            &&& m["ip"@] == Json::Str(ip)
            &&& m["eoj"@] == Json::Str(text::lower_hex(eoj))
            &&& m["esv"@] == Json::Str(Esv::of_code(data[10]).label())
            &&& m["result"@] == Json::Str("accepted"@)
            &&& lists_properties(m["properties"@], eoj, props)
        },
{
    lemma_keys();
    wire_laws::law_frame_head(data);
    wire_laws::law_service_kinds(data[10]);
}

/// What `set` prints of a request without a response: the service 0x60, that it was sent, and the
/// one property that was written.
pub proof fn law_set_nowait_prints(ip: Seq<char>, eoj: Seq<u8>, epc: u8, edt: Seq<u8>)
    ensures
        ({
            let m = commands::set_nowait_output(ip, eoj, epc, edt)->Obj_0;
            &&& commands::set_nowait_output(ip, eoj, epc, edt) is Obj
            &&& m.dom() =~= set!["ip"@, "eoj"@, "esv"@, "result"@, "properties"@]
            &&& m["ip"@] == Json::Str(ip)
            &&& m["eoj"@] == Json::Str(text::lower_hex(eoj))
            &&& m["esv"@] == Json::Str("SetI"@)
            &&& m["result"@] == Json::Str("sent"@)
            &&& lists_properties(m["properties"@], eoj, seq![PropertyView { epc, edt }])
        }),
{
    lemma_keys();
}

// ───────────────────────── describe ─────────────────────────

/// The value under a key is the property map of the given data: one entry for each EPC that the map
/// lists, in the same order, or the raw data where the map cannot be read.
pub open spec fn shows_map(value: Json, eoj: Seq<u8>, edt: Seq<u8>) -> bool {
    match properties::map_epcs(edt) {
        Some(epcs) => {
            &&& value is Arr
            &&& value->Arr_0.len() == epcs.len()
            &&& forall|i: int|
                0 <= i < epcs.len() ==> #[trigger] value->Arr_0[i] == properties::map_entry(
                    eoj,
                    epcs[i],
                )
        },
        None => value == Json::Obj(map!["edt_hex"@ => Json::Str(text::lower_hex(edt))]),
    }
}

/// The members under a key are those of the last property with an EPC, and there is none without
/// such a property.
pub open spec fn last_map_under(
    m: Map<Seq<char>, Json>,
    key: Seq<char>,
    epc: u8,
    eoj: Seq<u8>,
    props: Seq<PropertyView>,
) -> bool {
    &&& m.contains_key(key) <==> exists|i: int| 0 <= i < props.len() && (#[trigger] props[i]).epc == epc
    &&& forall|i: int|
        0 <= i < props.len() && (#[trigger] props[i]).epc == epc && (forall|j: int|
            i < j < props.len() ==> (#[trigger] props[j]).epc != epc) ==> shows_map(
            m[key],
            eoj,
            props[i].edt,
        )
}

/// The maps among some properties, one after the other.
proof fn lemma_describe(ip: Seq<char>, eoj: Seq<u8>, esv: Esv, props: Seq<PropertyView>)
    ensures
        ({
            let m = commands::describe_members(ip, eoj, esv, props);
            &&& m.dom().subset_of(
                set!["ip"@, "eoj"@, "esv"@, "get_map"@, "set_map"@, "inf_map"@],
            )
            &&& m.contains_key("ip"@) && m["ip"@] == Json::Str(ip)
            &&& m.contains_key("eoj"@) && m["eoj"@] == Json::Str(text::lower_hex(eoj))
            &&& m.contains_key("esv"@) && m["esv"@] == Json::Str(esv.label())
            &&& last_map_under(m, "get_map"@, 0x9F, eoj, props)
            &&& last_map_under(m, "set_map"@, 0x9E, eoj, props)
            &&& last_map_under(m, "inf_map"@, 0x9D, eoj, props)
        }),
    decreases props.len(),
{
    lemma_keys();
    let m = commands::describe_members(ip, eoj, esv, props);
    if props.len() > 0 {
        let front = props.drop_last();
        let last = props.last();
        lemma_describe(ip, eoj, esv, front);
        lemma_last_map(ip, eoj, esv, props, "get_map"@, 0x9F);
        lemma_last_map(ip, eoj, esv, props, "set_map"@, 0x9E);
        lemma_last_map(ip, eoj, esv, props, "inf_map"@, 0x9D);
    }
}

/// One more property replaces the map under its own key and no other.
proof fn lemma_last_map(
    ip: Seq<char>,
    eoj: Seq<u8>,
    esv: Esv,
    props: Seq<PropertyView>,
    key: Seq<char>,
    epc: u8,
)
    requires
        props.len() > 0,
        (key == "get_map"@ && epc == 0x9F) || (key == "set_map"@ && epc == 0x9E) || (key
            == "inf_map"@ && epc == 0x9D),
        last_map_under(
            commands::describe_members(ip, eoj, esv, props.drop_last()),
            key,
            epc,
            eoj,
            props.drop_last(),
        ),
    ensures
        last_map_under(commands::describe_members(ip, eoj, esv, props), key, epc, eoj, props),
{
    lemma_keys();
    let m = commands::describe_members(ip, eoj, esv, props);
    let front = props.drop_last();
    let last = props.last();
    let before = commands::describe_members(ip, eoj, esv, front);
    assert(forall|i: int| 0 <= i < front.len() ==> #[trigger] front[i] == props[i]);
    assert(props[props.len() - 1] == last);
    if last.epc == epc {
        assert(m[key] == commands::map_output(eoj, last.edt));
        assert(shows_map(m[key], eoj, last.edt));
    } else {
        assert(m.contains_key(key) == before.contains_key(key) && m[key] == before[key]);
        assert forall|i: int|
            0 <= i < props.len() && (#[trigger] props[i]).epc == epc && (forall|j: int|
                i < j < props.len() ==> (#[trigger] props[j]).epc != epc) implies shows_map(
            m[key],
            eoj,
            props[i].edt,
        ) by {
            assert(front[i].epc == epc);
            assert forall|j: int| i < j < front.len() implies (#[trigger] front[j]).epc != epc by {
                assert(props[j].epc != epc);
            }
        }
        if before.contains_key(key) {
            let i = choose|i: int| 0 <= i < front.len() && (#[trigger] front[i]).epc == epc;
            assert(props[i].epc == epc);
        }
        if exists|i: int| 0 <= i < props.len() && (#[trigger] props[i]).epc == epc {
            let i = choose|i: int| 0 <= i < props.len() && (#[trigger] props[i]).epc == epc;
            assert(front[i].epc == epc);
        }
    }
}

/// What `describe` prints of a response that is no refusal: the address, the object that was asked
/// and the name of the service in byte 10; the map of EPC 0x9F as what can be read, that of 0x9E as
/// what can be written and that of 0x9D as what is announced. Of two maps of one kind the later one
/// counts, and nothing else is printed.
pub proof fn law_describe_prints(ip: Seq<char>, eoj: Seq<u8>, data: Seq<u8>)
    requires
        granted_response(data),
    ensures
        commands::describe_result(ip, eoj, data) matches Ok(value) && {
            let m = value->Obj_0;
            let props = codec::read_frame(data)->Ok_0.edata->Standard_props;
            &&& value is Obj
            &&& m.dom().subset_of(
                set!["ip"@, "eoj"@, "esv"@, "get_map"@, "set_map"@, "inf_map"@],
            )
            &&& m.contains_key("ip"@) && m["ip"@] == Json::Str(ip)
            &&& m.contains_key("eoj"@) && m["eoj"@] == Json::Str(text::lower_hex(eoj))
            &&& m.contains_key("esv"@) && m["esv"@] == Json::Str(Esv::of_code(data[10]).label())
            &&& last_map_under(m, "get_map"@, 0x9F, eoj, props)
            &&& last_map_under(m, "set_map"@, 0x9E, eoj, props)
            &&& last_map_under(m, "inf_map"@, 0x9D, eoj, props)
        },
{
    wire_laws::law_frame_head(data);
    wire_laws::law_service_kinds(data[10]);
    lemma_describe(
        ip,
        eoj,
        Esv::of_code(data[10]),
        codec::read_frame(data)->Ok_0.edata->Standard_props,
    );
}

// ───────────────────────── errors ─────────────────────────

/// What a response grants: of a frame with one list of properties its service and its list, unless
/// the service refuses (0x50 to 0x5F). A refusal is an error of the device, and every other frame is
/// one that cannot be interpreted.
pub proof fn law_granted(f: FrameView, eoj: Seq<u8>)
    ensures
        match f.edata {
            EdataView::Standard { esv, props, .. } => if 0x50 <= esv.code() <= 0x5F {
                commands::granted(f, eoj) matches Err(e) && e.kind == ErrKind::DeviceRejected
                    && e.extra is Some
            } else {
                commands::granted(f, eoj) == Ok::<(Esv, Seq<PropertyView>), AppErrorView>(
                    (esv, props),
                )
            },
            EdataView::SetGet { esv, .. } => commands::granted(f, eoj) matches Err(e) && e.kind == (
            if 0x50 <= esv.code() <= 0x5F {
                ErrKind::DeviceRejected
            } else {
                ErrKind::Parse
            }),
            EdataView::Arbitrary(_) => commands::granted(f, eoj) matches Err(e) && e.kind
                == ErrKind::Parse,
        },
{
}

/// A refusal (0x50 to 0x5F in byte 10) with one list of properties ends `get`, `set` and `describe`
/// with an error that names the object that was asked, the service and the EPCs of the list.
pub proof fn law_refusal_context(ip: Seq<char>, eoj: Seq<u8>, data: Seq<u8>)
    requires
        codec::read_frame(data) is Ok,
        codec::read_frame(data)->Ok_0.edata is Standard,
        0x50 <= data[10] <= 0x5F,
    ensures
        commands::get_result(ip, eoj, data) matches Err(e) && {
            let props = codec::read_frame(data)->Ok_0.edata->Standard_props;
            let label = Esv::of_code(data[10]).label();
            let context = e.extra->0->Obj_0;
            let epcs = context["rejected_epc"@]->Arr_0;
            &&& e.kind == ErrKind::DeviceRejected
            &&& e.detail == "機器が "@ + label + " を拒否 (SNA)"@
            &&& e.extra is Some && e.extra->0 is Obj
            &&& context.dom() =~= set!["eoj"@, "esv"@, "rejected_epc"@]
            &&& context["eoj"@] == Json::Str(text::lower_hex(eoj))
            &&& context["esv"@] == Json::Str(label)
            &&& context["rejected_epc"@] is Arr
            &&& epcs.len() == props.len()
            &&& forall|i: int|
                0 <= i < props.len() ==> #[trigger] epcs[i] == Json::Str(
                    text::upper_hex(props[i].epc),
                )
            &&& commands::set_result(ip, eoj, data) == Err::<Json, AppErrorView>(e)
            &&& commands::describe_result(ip, eoj, data) == Err::<Json, AppErrorView>(e)
        },
{
    lemma_keys();
    wire_laws::law_frame_head(data);
    wire_laws::law_service_kinds(data[10]);
}

/// A response with two lists of properties ends `get`, `set` and `describe` with an error: a refusal
/// for service 0x5E, and a response that cannot be interpreted for the others. Neither has a context.
pub proof fn law_two_lists_are_errors(ip: Seq<char>, eoj: Seq<u8>, data: Seq<u8>)
    requires
        codec::read_frame(data) is Ok,
        codec::read_frame(data)->Ok_0.edata is SetGet,
    ensures
        commands::get_result(ip, eoj, data) matches Err(e) && {
            &&& e.extra is None
            &&& data[10] == 0x5E ==> e.kind == ErrKind::DeviceRejected && e.detail == "機器が "@
                + "SetGetSna"@ + " を拒否 (SNA)"@
            &&& data[10] != 0x5E ==> e.kind == ErrKind::Parse && e.detail == "想定外の SETGET 応答"@
            &&& commands::set_result(ip, eoj, data) == Err::<Json, AppErrorView>(e)
            &&& commands::describe_result(ip, eoj, data) == Err::<Json, AppErrorView>(e)
        },
{
    wire_laws::law_frame_head(data);
}

/// A response of the arbitrary format ends `get`, `set` and `describe` with an error that holds its
/// bytes from byte 4 on; bytes that are no frame, with an error that holds them all and says why.
pub proof fn law_unreadable_context(ip: Seq<char>, eoj: Seq<u8>, data: Seq<u8>)
    ensures
        codec::read_frame(data) matches Ok(f) ==> f.edata is Arbitrary ==> (commands::get_result(
            ip,
            eoj,
            data,
        ) matches Err(e) && {
            &&& e.kind == ErrKind::Parse
            &&& e.detail == "任意電文形式 (EHD2=0x82) の応答は解釈不能"@
            &&& e.extra == Some(
                Json::Obj(map!["raw_hex"@ => Json::Str(text::lower_hex(data.skip(4)))]),
            )
            &&& commands::set_result(ip, eoj, data) == Err::<Json, AppErrorView>(e)
            &&& commands::describe_result(ip, eoj, data) == Err::<Json, AppErrorView>(e)
        }),
        codec::read_frame(data) matches Err(why) ==> (commands::get_result(ip, eoj, data) matches Err(
            e,
        ) && {
            &&& e.kind == ErrKind::Parse
            &&& e.detail == "応答パース失敗: "@ + why.message()
            &&& e.extra == Some(Json::Obj(map!["raw_hex"@ => Json::Str(text::lower_hex(data))]))
            &&& commands::set_result(ip, eoj, data) == Err::<Json, AppErrorView>(e)
            &&& commands::describe_result(ip, eoj, data) == Err::<Json, AppErrorView>(e)
        }),
{
    if codec::read_frame(data) is Ok {
        wire_laws::law_frame_head(data);
    }
}

/// The JSON of an error holds its kind by name and its detail, and a context exactly where more is
/// known, all of it under one key.
pub proof fn law_error_payload(e: AppErrorView)
    ensures
        ({
            let m = e.payload()->Obj_0["error"@]->Obj_0;
            &&& e.payload() == Json::Obj(map!["error"@ => Json::Obj(m)])
            &&& m.contains_key("kind"@) && m["kind"@] == Json::Str(
                match e.kind {
                    ErrKind::Timeout => "timeout"@,
                    ErrKind::DeviceRejected => "device_rejected"@,
                    ErrKind::Network => "network"@,
                    ErrKind::Bind => "bind"@,
                    ErrKind::Parse => "parse"@,
                    ErrKind::Usage => "usage"@,
                },
            )
            &&& m.contains_key("detail"@) && m["detail"@] == Json::Str(e.detail)
            &&& m.contains_key("context"@) <==> e.extra is Some
            &&& e.extra is Some ==> m["context"@] == e.extra->0
            &&& m.dom().subset_of(set!["kind"@, "detail"@, "context"@])
        }),
{
    reveal_strlit("kind");
    reveal_strlit("detail");
    reveal_strlit("context");
    assert("kind"@.len() == 4 && "detail"@.len() == 6 && "context"@.len() == 7);
}

/// The line of an error is the name of its kind, a colon and a space, and its detail.
pub proof fn law_error_line(e: AppErrorView)
    ensures
        ({
            let start = match e.kind {
                ErrKind::Timeout => "timeout: "@,
                ErrKind::DeviceRejected => "device_rejected: "@,
                ErrKind::Network => "network: "@,
                ErrKind::Bind => "bind: "@,
                ErrKind::Parse => "parse: "@,
                ErrKind::Usage => "usage: "@,
            };
            e.line() == start + e.detail
        }),
{
    reveal_strlit(": ");
    reveal_strlit("timeout");
    reveal_strlit("device_rejected");
    reveal_strlit("network");
    reveal_strlit("bind");
    reveal_strlit("parse");
    reveal_strlit("usage");
    reveal_strlit("timeout: ");
    reveal_strlit("device_rejected: ");
    reveal_strlit("network: ");
    reveal_strlit("bind: ");
    reveal_strlit("parse: ");
    reveal_strlit("usage: ");
    assert("timeout"@ + ": "@ =~= "timeout: "@);
    assert("device_rejected"@ + ": "@ =~= "device_rejected: "@);
    assert("network"@ + ": "@ =~= "network: "@);
    assert("bind"@ + ": "@ =~= "bind: "@);
    assert("parse"@ + ": "@ =~= "parse: "@);
    assert("usage"@ + ": "@ =~= "usage: "@);
}

/// What a command gives is its value or its error, with the kind, the detail and the context that
/// the error has.
pub proof fn law_results(r: Result<Value, AppError>)
    ensures
        match r {
            Ok(value) => commands::result_view(r) == Ok::<Json, AppErrorView>(
                json::json_of(value),
            ),
            Err(e) => commands::result_view(r) matches Err(v) && {
                &&& v.kind == e.kind
                &&& v.detail == e.detail@
                &&& v.extra is Some <==> e.extra is Some
                &&& e.extra is Some ==> v.extra->0 == json::json_of(e.extra->0)
            },
        },
{
}

// ───────────────────────── raw ─────────────────────────

/// What `raw` prints besides the frame: the address, the bytes that were sent and those that came
/// back; the frame exactly if they can be read, and otherwise why not.
pub proof fn law_raw_prints(ip: Seq<char>, sent: Seq<u8>, data: Seq<u8>)
    ensures
        ({
            let m = commands::raw_output(ip, sent, data)->Obj_0;
            &&& commands::raw_output(ip, sent, data) is Obj
            &&& m.contains_key("ip"@) && m["ip"@] == Json::Str(ip)
            &&& m.contains_key("sent_hex"@) && m["sent_hex"@] == Json::Str(text::lower_hex(sent))
            &&& m.contains_key("response_hex"@) && m["response_hex"@] == Json::Str(
                text::lower_hex(data),
            )
            &&& match codec::read_frame(data) {
                Ok(_) => m.dom() =~= set!["ip"@, "sent_hex"@, "response_hex"@, "frame"@],
                Err(why) => {
                    &&& m.dom() =~= set!["ip"@, "sent_hex"@, "response_hex"@, "parse_error"@]
                    &&& m["parse_error"@] == Json::Str(why.message())
                },
            }
        }),
{
    lemma_keys();
}

/// A frame in JSON: its second header byte, its TID in four digits, its format and the parts of its
/// body. The properties, in one list or two, are read as properties of the sender.
pub proof fn law_frame_members(f: FrameView)
    ensures
        ({
            let m = commands::frame_output(f)->Obj_0;
            &&& commands::frame_output(f) is Obj
            &&& m.contains_key("ehd2"@) && m["ehd2"@] == Json::Str(text::lower_hex(seq![f.ehd2]))
            &&& m.contains_key("tid"@) && m["tid"@] == Json::Str(
                text::lower_hex(seq![(f.tid as int / 256) as u8, (f.tid as int % 256) as u8]),
            )
            &&& m.contains_key("format"@)
            &&& match f.edata {
                EdataView::Standard { seoj, deoj, esv, props } => {
                    &&& m["format"@] == Json::Str("standard"@)
                    &&& m.dom() =~= set![
                        "ehd2"@,
                        "tid"@,
                        "format"@,
                        "seoj"@,
                        "deoj"@,
                        "esv"@,
                        "properties"@,
                    ]
                    &&& m["seoj"@] == Json::Str(text::lower_hex(seoj))
                    &&& m["deoj"@] == Json::Str(text::lower_hex(deoj))
                    &&& m["esv"@] == Json::Str(esv.label())
                    &&& lists_properties(m["properties"@], seoj, props)
                },
                EdataView::SetGet { seoj, deoj, esv, set_props, get_props } => {
                    &&& m["format"@] == Json::Str("setget"@)
                    &&& m.dom() =~= set![
                        "ehd2"@,
                        "tid"@,
                        "format"@,
                        "seoj"@,
                        "deoj"@,
                        "esv"@,
                        "set_properties"@,
                        "get_properties"@,
                    ]
                    &&& m["seoj"@] == Json::Str(text::lower_hex(seoj))
                    &&& m["deoj"@] == Json::Str(text::lower_hex(deoj))
                    &&& m["esv"@] == Json::Str(esv.label())
                    &&& lists_properties(m["set_properties"@], seoj, set_props)
                    &&& lists_properties(m["get_properties"@], seoj, get_props)
                },
                EdataView::Arbitrary(bytes) => {
                    &&& m["format"@] == Json::Str("arbitrary"@)
                    &&& m.dom() =~= set!["ehd2"@, "tid"@, "format"@, "edt_hex"@]
                    &&& m["edt_hex"@] == Json::Str(text::lower_hex(bytes))
                },
            }
        }),
{
    lemma_keys();
    assert(text::be_bytes(f.tid) =~= seq![
        (f.tid as int / 256) as u8,
        (f.tid as int % 256) as u8,
    ]);
}

/// The frame that `raw` prints, from the bytes of the response: byte 1, bytes 2 and 3, the sender in
/// bytes 4 to 6, the receiver in bytes 7 to 9 and the service in byte 10. The properties, in one list
/// or two, are read as properties of the sender. What is in the arbitrary format is given from byte 4
/// on, as it is.
pub proof fn law_raw_frame(ip: Seq<char>, sent: Seq<u8>, data: Seq<u8>)
    requires
        codec::read_frame(data) is Ok,
    ensures
        ({
            let frame = commands::raw_output(ip, sent, data)->Obj_0["frame"@];
            let m = frame->Obj_0;
            let sender = data.subrange(4, 7);
            &&& frame is Obj
            &&& m.contains_key("ehd2"@) && m["ehd2"@] == Json::Str(text::lower_hex(seq![data[1]]))
            &&& m.contains_key("tid"@) && m["tid"@] == Json::Str(
                text::lower_hex(seq![data[2], data[3]]),
            )
            &&& m.contains_key("format"@)
            &&& !(codec::read_frame(data)->Ok_0.edata is Arbitrary) ==> {
                &&& m.contains_key("seoj"@) && m["seoj"@] == Json::Str(text::lower_hex(sender))
                &&& m.contains_key("deoj"@) && m["deoj"@] == Json::Str(
                    text::lower_hex(data.subrange(7, 10)),
                )
                &&& m.contains_key("esv"@) && m["esv"@] == Json::Str(
                    Esv::of_code(data[10]).label(),
                )
            }
            &&& match codec::read_frame(data)->Ok_0.edata {
                EdataView::Standard { props, .. } => {
                    &&& m["format"@] == Json::Str("standard"@)
                    &&& m.dom() =~= set![
                        "ehd2"@,
                        "tid"@,
                        "format"@,
                        "seoj"@,
                        "deoj"@,
                        "esv"@,
                        "properties"@,
                    ]
                    &&& lists_properties(m["properties"@], sender, props)
                },
                EdataView::SetGet { set_props, get_props, .. } => {
                    &&& m["format"@] == Json::Str("setget"@)
                    &&& m.dom() =~= set![
                        "ehd2"@,
                        "tid"@,
                        "format"@,
                        "seoj"@,
                        "deoj"@,
                        "esv"@,
                        "set_properties"@,
                        "get_properties"@,
                    ]
                    &&& lists_properties(m["set_properties"@], sender, set_props)
                    &&& lists_properties(m["get_properties"@], sender, get_props)
                },
                EdataView::Arbitrary(_) => {
                    &&& m["format"@] == Json::Str("arbitrary"@)
                    &&& m.dom() =~= set!["ehd2"@, "tid"@, "format"@, "edt_hex"@]
                    &&& m["edt_hex"@] == Json::Str(text::lower_hex(data.skip(4)))
                },
            }
        }),
{
    lemma_keys();
    wire_laws::law_frame_head(data);
    let f = codec::read_frame(data)->Ok_0;
    assert(text::be_bytes(f.tid) =~= seq![data[2], data[3]]);
}

/// For the object that sent a response, `raw` prints its properties exactly as `get` does.
pub proof fn law_raw_agrees_with_get(ip: Seq<char>, sent: Seq<u8>, data: Seq<u8>)
    requires
        granted_response(data),
    ensures
        commands::get_result(ip, data.subrange(4, 7), data) matches Ok(value)
            && value->Obj_0["properties"@] == commands::raw_output(
            ip,
            sent,
            data,
        )->Obj_0["frame"@]->Obj_0["properties"@],
{
    law_get_prints(ip, data.subrange(4, 7), data);
    law_raw_frame(ip, sent, data);
    let a = commands::get_result(ip, data.subrange(4, 7), data)->Ok_0->Obj_0["properties"@];
    let b = commands::raw_output(ip, sent, data)->Obj_0["frame"@]->Obj_0["properties"@];
    assert(a->Arr_0 =~= b->Arr_0);
}

} // verus!
