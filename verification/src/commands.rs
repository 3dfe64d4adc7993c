//! The subcommands: what each of them asks, and what it makes of the answer. The output is always
//! one JSON object.

use serde_json::{Map as JsonMap, Value};
use vstd::prelude::*;
use vstd::string::*;

use crate::codec::{self, Edata, EdataView, Eoj, Esv, Frame, FrameView, Property, PropertyView};
use crate::error::{self, AppError, AppErrorView, ErrKind};
use crate::json::{self, Json};
use crate::net;
use crate::properties;
use crate::text;

verus! {

broadcast use vstd::string::group_string_axioms;

/// The object of the controller itself.
pub open spec fn controller_object() -> Seq<u8> {
    seq![0x05u8, 0xFFu8, 0x01u8]
}

/// The node profile object.
pub open spec fn node_profile_object() -> Seq<u8> {
    seq![0x0Eu8, 0xF0u8, 0x01u8]
}

/// The object of the controller itself.
pub fn controller() -> (eoj: Eoj)
    ensures
        eoj@ == controller_object(),
{
    let eoj = Eoj([0x05, 0xFF, 0x01]);
    assert(eoj@ =~= controller_object());
    eoj
}

/// The node profile object.
pub fn node_profile() -> (eoj: Eoj)
    ensures
        eoj@ == node_profile_object(),
{
    let eoj = Eoj([0x0E, 0xF0, 0x01]);
    assert(eoj@ =~= node_profile_object());
    eoj
}

/// The EPC of the instance list of a node.
pub const EPC_INSTANCE_LIST: u8 = 0xD6;

/// The EPC of the map of properties that can be read.
pub const EPC_GET_MAP: u8 = 0x9F;

/// The EPC of the map of properties that can be written.
pub const EPC_SET_MAP: u8 = 0x9E;

/// The EPC of the map of properties whose changes are announced.
pub const EPC_INF_MAP: u8 = 0x9D;

// ───────────────────────── requests ─────────────────────────

/// The TID that nanoseconds of the clock give: their lowest 16 bits, or 1 where there are none.
pub open spec fn tid_of(subsec_nanos: Option<u32>) -> u16 {
    match subsec_nanos {
        Some(n) => (n % 0x10000) as u16,
        None => 1u16,
    }
}

/// The TID of a request: the lowest 16 bits of the nanoseconds of the clock, or 1 where the clock
/// gives none. A one-shot command sends one request, so that is enough.
pub fn next_tid(subsec_nanos: Option<u32>) -> (tid: u16)
    ensures
        tid == tid_of(subsec_nanos),
{
    match subsec_nanos {
        Some(n) => (n % 0x10000) as u16,
        None => 1,
    }
}

/// Where a request goes.
#[derive(PartialEq, Eq, Debug)]
pub struct Endpoint {
    pub ip: String,
    pub port: u16,
}

/// Where a request to a device goes: to the device itself, or to the multicast group for devices
/// that answer nothing else. Either way the device answers from its own address.
pub fn dst_for(ip: &str, multicast: bool) -> (dst: Endpoint)
    ensures
        dst.ip@ == (if multicast {
            net::MULTICAST_ADDR@
        } else {
            ip@
        }),
        dst.port == net::ECHONET_PORT,
{
    Endpoint {
        ip: if multicast {
            net::MULTICAST_ADDR.to_owned()
        } else {
            ip.to_owned()
        },
        port: net::ECHONET_PORT,
    }
}

/// The name of the way a request goes, for the log.
pub fn transport_name(multicast: bool) -> (name: &'static str)
    ensures
        name@ == (if multicast {
            "multicast"@
        } else {
            "unicast"@
        }),
{
    if multicast {
        "multicast"
    } else {
        "unicast"
    }
}

/// The bytes of a frame that is to be sent, or why it cannot be sent.
pub open spec fn sent_bytes(f: FrameView) -> Result<Seq<u8>, AppErrorView> {
    match codec::excess(f) {
        Some(e) => Err(error::plain_error(ErrKind::Usage, "フレーム構築失敗: "@ + e.message())),
        None => Ok(codec::frame_bytes(f)),
    }
}

/// Writes a frame that is to be sent. What does not fit in it comes from the user's input.
pub fn build_frame(frame: &Frame) -> (r: Result<Vec<u8>, AppError>)
    ensures
        match r {
            Ok(bytes) => sent_bytes(frame@) == Ok::<Seq<u8>, AppErrorView>(bytes@),
            Err(e) => sent_bytes(frame@) == Err::<Seq<u8>, AppErrorView>(e@),
        },
{
    match codec::build(frame) {
        Ok(bytes) => Ok(bytes),
        Err(e) => Err(
            AppError::new(
                ErrKind::Usage,
                text::concat("フレーム構築失敗: ", e.to_string().as_str()),
            ),
        ),
    }
}

/// Properties without data, one for each EPC.
pub open spec fn asked(epcs: Seq<u8>) -> Seq<PropertyView> {
    epcs.map_values(|epc: u8| PropertyView { epc, edt: Seq::empty() })
}

/// A request to read some EPCs of an object.
pub open spec fn get_frame(tid: u16, eoj: Seq<u8>, epcs: Seq<u8>) -> FrameView {
    codec::standard_frame(tid, controller_object(), eoj, Esv::Get, asked(epcs))
}

/// A request to write one EPC of an object, with a response.
pub open spec fn set_frame(tid: u16, eoj: Seq<u8>, epc: u8, edt: Seq<u8>) -> FrameView {
    codec::standard_frame(tid, controller_object(), eoj, Esv::SetC, seq![PropertyView { epc, edt }])
}

/// A request to read some EPCs of an object.
pub fn get_request(tid: u16, eoj: Eoj, epcs: &[u8]) -> (frame: Frame)
    ensures
        frame@ == get_frame(tid, eoj@, epcs@),
{
    let mut props: Vec<Property> = Vec::with_capacity(epcs.len());
    for i in 0..epcs.len()
        invariant
            props.len() == i,
            forall|k: int| 0 <= k < i ==> (#[trigger] props@[k])@ == asked(epcs@)[k],
    {
        props.push(Property::get(epcs[i]));
    }
    assert(codec::props_view(props@) =~= asked(epcs@));
    Frame::standard(tid, controller(), eoj, Esv::Get, props)
}

/// A request to write one EPC of an object, with a response.
pub fn set_request(tid: u16, eoj: Eoj, epc: u8, edt: Vec<u8>) -> (frame: Frame)
    ensures
        frame@ == set_frame(tid, eoj@, epc, edt@),
{
    let ghost model = PropertyView { epc, edt: edt@ };
    let props = vec![Property::new(epc, edt)];
    assert(codec::props_view(props@) =~= seq![model]);
    Frame::standard(tid, controller(), eoj, Esv::SetC, props)
}

/// A request to write one EPC of an object, without a response.
pub open spec fn set_nowait_frame(tid: u16, eoj: Seq<u8>, epc: u8, edt: Seq<u8>) -> FrameView {
    codec::standard_frame(
        tid,
        controller_object(),
        eoj,
        Esv::SetI,
        seq![PropertyView { epc, edt }],
    )
}

/// A request to write one EPC of an object, without a response. The device cannot refuse it in a way
/// that is noticed.
pub fn set_nowait_request(tid: u16, eoj: Eoj, epc: u8, edt: Vec<u8>) -> (frame: Frame)
    ensures
        frame@ == set_nowait_frame(tid, eoj@, epc, edt@),
{
    let ghost model = PropertyView { epc, edt: edt@ };
    let props = vec![Property::new(epc, edt)];
    assert(codec::props_view(props@) =~= seq![model]);
    Frame::standard(tid, controller(), eoj, Esv::SetI, props)
}

/// A request for the property maps of an object.
pub fn describe_request(tid: u16, eoj: Eoj) -> (frame: Frame)
    ensures
        frame@ == get_frame(tid, eoj@, seq![EPC_GET_MAP, EPC_SET_MAP, EPC_INF_MAP]),
{
    let epcs = [EPC_GET_MAP, EPC_SET_MAP, EPC_INF_MAP];
    assert(epcs@ =~= seq![EPC_GET_MAP, EPC_SET_MAP, EPC_INF_MAP]);
    get_request(tid, eoj, &epcs)
}

/// A request with any service and any properties. The controller is the sender unless another one is
/// given.
pub fn raw_request(
    tid: u16,
    deoj: Eoj,
    esv: Esv,
    seoj: Option<Eoj>,
    props: Vec<Property>,
) -> (frame: Frame)
    ensures
        frame@ == codec::standard_frame(
            tid,
            match seoj {
                Some(s) => s@,
                None => controller_object(),
            },
            deoj@,
            esv,
            codec::props_view(props@),
        ),
{
    let sender = match seoj {
        Some(s) => s,
        None => controller(),
    };
    Frame::standard(tid, sender, deoj, esv, props)
}

/// A request for the objects of a node.
pub fn discover_request(tid: u16) -> (frame: Frame)
    ensures
        frame@ == get_frame(tid, node_profile_object(), seq![EPC_INSTANCE_LIST]),
{
    let epcs = [EPC_INSTANCE_LIST];
    assert(epcs@ =~= seq![EPC_INSTANCE_LIST]);
    get_request(tid, node_profile(), &epcs)
}

// ───────────────────────── responses ─────────────────────────

/// The frame of a response, or the error where it is none.
pub open spec fn response_of(data: Seq<u8>) -> Result<FrameView, AppErrorView> {
    match codec::read_frame(data) {
        Ok(f) => Ok(f),
        Err(e) => Err(
            error::rich_error(
                ErrKind::Parse,
                "応答パース失敗: "@ + e.message(),
                properties::member("raw_hex"@, Json::Str(text::lower_hex(data))),
            ),
        ),
    }
}

/// An object that holds raw bytes.
fn raw_bytes(key: &str, data: &[u8]) -> (value: Value)
    ensures
        json::json_of(value) == properties::member(key@, Json::Str(text::lower_hex(data@))),
{
    let mut out = JsonMap::new();
    json::put(&mut out, key, json::text(codec::bytes_to_hex(data).as_str()));
    json::object(out)
}

/// Reads the frame of a response.
pub fn parse_response(data: &[u8]) -> (r: Result<Frame, AppError>)
    ensures
        match r {
            Ok(frame) => response_of(data@) == Ok::<FrameView, AppErrorView>(frame@),
            Err(e) => response_of(data@) == Err::<FrameView, AppErrorView>(e@),
        },
{
    match codec::parse(data) {
        Ok(frame) => Ok(frame),
        Err(e) => Err(
            AppError::new(
                ErrKind::Parse,
                text::concat("応答パース失敗: ", e.to_string().as_str()),
            ).with_extra(raw_bytes("raw_hex", data)),
        ),
    }
}

/// The detail of the error for a request that the device refused.
pub open spec fn refusal(esv: Esv) -> Seq<char> {
    "機器が "@ + esv.label() + " を拒否 (SNA)"@
}

/// The service and the properties of a response, or the error where the device refused or the
/// response is of another format.
pub open spec fn granted(f: FrameView, eoj: Seq<u8>) -> Result<
    (Esv, Seq<PropertyView>),
    AppErrorView,
> {
    match f.edata {
        EdataView::Standard { esv, props, .. } => if esv.refuses() {
            Err(
                error::rich_error(
                    ErrKind::DeviceRejected,
                    refusal(esv),
                    Json::Obj(
                        map![
                            "eoj"@ => Json::Str(text::lower_hex(eoj)),
                            "esv"@ => Json::Str(esv.label()),
                            "rejected_epc"@ => properties::epc_list(epcs_of(props)),
                        ],
                    ),
                ),
            )
        } else {
            Ok((esv, props))
        },
        EdataView::SetGet { esv, .. } => if esv.refuses() {
            Err(error::plain_error(ErrKind::DeviceRejected, refusal(esv)))
        } else {
            Err(error::plain_error(ErrKind::Parse, "想定外の SETGET 応答"@))
        },
        EdataView::Arbitrary(bytes) => Err(
            error::rich_error(
                ErrKind::Parse,
                "任意電文形式 (EHD2=0x82) の応答は解釈不能"@,
                properties::member("raw_hex"@, Json::Str(text::lower_hex(bytes))),
            ),
        ),
    }
}

/// The EPCs of some properties.
pub open spec fn epcs_of(props: Seq<PropertyView>) -> Seq<u8> {
    props.map_values(|p: PropertyView| p.epc)
}

/// The EPCs of some properties.
fn list_epcs(props: &Vec<Property>) -> (epcs: Vec<u8>)
    ensures
        epcs@ == epcs_of(codec::props_view(props@)),
{
    let mut epcs: Vec<u8> = Vec::with_capacity(props.len());
    for i in 0..props.len()
        invariant
            epcs.len() == i,
            forall|k: int| 0 <= k < i ==> #[trigger] epcs@[k] == props@[k].epc,
    {
        epcs.push(props[i].epc);
    }
    assert(epcs@ =~= epcs_of(codec::props_view(props@)));
    epcs
}

/// The detail of the error for a request that the device refused.
fn refusal_detail(esv: Esv) -> (s: String)
    ensures
        s@ == refusal(esv),
{
    let mut s = text::concat("機器が ", esv.name().as_str());
    s.append(" を拒否 (SNA)");
    s
}

/// The service and the properties of a response. Where the device refused, that is an error.
pub fn standard_or_reject(frame: &Frame, eoj: Eoj) -> (r: Result<(Esv, Vec<Property>), AppError>)
    ensures
        match r {
            Ok((esv, props)) => granted(frame@, eoj@) == Ok::<
                (Esv, Seq<PropertyView>),
                AppErrorView,
            >((esv, codec::props_view(props@))),
            Err(e) => granted(frame@, eoj@) == Err::<(Esv, Seq<PropertyView>), AppErrorView>(e@),
        },
{
    match &frame.edata {
        Edata::Standard { esv, props, .. } => {
            if esv.is_sna() {
                let mut extra = JsonMap::new();
                json::put(&mut extra, "eoj", json::text(eoj.to_hex().as_str()));
                json::put(&mut extra, "esv", json::text(esv.name().as_str()));
                json::put(&mut extra, "rejected_epc", properties::epc_array(&list_epcs(props)));
                return Err(
                    AppError::new(ErrKind::DeviceRejected, refusal_detail(*esv)).with_extra(
                        json::object(extra),
                    ),
                );
            }
            Ok((*esv, duplicate_props(props)))
        },
        Edata::SetGet { esv, .. } => {
            if esv.is_sna() {
                return Err(AppError::new(ErrKind::DeviceRejected, refusal_detail(*esv)));
            }
            Err(AppError::new(ErrKind::Parse, "想定外の SETGET 応答".to_owned()))
        },
        Edata::Arbitrary(bytes) => Err(
            AppError::new(
                ErrKind::Parse,
                "任意電文形式 (EHD2=0x82) の応答は解釈不能".to_owned(),
            ).with_extra(raw_bytes("raw_hex", bytes.as_slice())),
        ),
    }
}

/// The same properties again.
fn duplicate_props(props: &Vec<Property>) -> (copies: Vec<Property>)
    ensures
        codec::props_view(copies@) == codec::props_view(props@),
{
    let mut copies: Vec<Property> = Vec::with_capacity(props.len());
    for i in 0..props.len()
        invariant
            copies.len() == i,
            forall|k: int| 0 <= k < i ==> (#[trigger] copies@[k])@ == props@[k]@,
    {
        copies.push(props[i].duplicate());
    }
    assert(codec::props_view(copies@) =~= codec::props_view(props@));
    copies
}

/// Some properties of an object as JSON, in their order.
pub open spec fn props_array(eoj: Seq<u8>, props: Seq<PropertyView>) -> Json {
    Json::Arr(
        props.map_values(
            |p: PropertyView| Json::Obj(properties::property_members(eoj, p.epc, p.edt)),
        ),
    )
}

/// Some properties of an object as JSON, in their order.
pub fn props_json(eoj: Eoj, props: &Vec<Property>) -> (value: Value)
    ensures
        json::json_of(value) == props_array(eoj@, codec::props_view(props@)),
{
    let ghost model = codec::props_view(props@);
    let mut items: Vec<Value> = Vec::with_capacity(props.len());
    for i in 0..props.len()
        invariant
            model == codec::props_view(props@),
            items.len() == i,
            forall|k: int|
                0 <= k < i ==> json::json_of(#[trigger] items@[k]) == Json::Obj(
                    properties::property_members(eoj@, model[k].epc, model[k].edt),
                ),
    {
        let p = &props[i];
        assert(model[i as int] == p@);
        items.push(properties::property_json(eoj, p.epc, p.edt.as_slice()));
    }
    assert(json::json_list(items@) =~= props_array(eoj@, model)->Arr_0);
    json::array(items)
}

// ───────────────────────── get ─────────────────────────

/// What `get` prints of a response.
pub open spec fn get_output(
    ip: Seq<char>,
    eoj: Seq<u8>,
    esv: Esv,
    props: Seq<PropertyView>,
) -> Json {
    Json::Obj(
        map![
            "ip"@ => Json::Str(ip),
            "eoj"@ => Json::Str(text::lower_hex(eoj)),
            "esv"@ => Json::Str(esv.label()),
            "properties"@ => props_array(eoj, props),
        ],
    )
}

/// What `get` makes of the bytes that came back.
pub open spec fn get_result(ip: Seq<char>, eoj: Seq<u8>, data: Seq<u8>) -> Result<
    Json,
    AppErrorView,
> {
    match response_of(data) {
        Err(e) => Err(e),
        Ok(f) => match granted(f, eoj) {
            Err(e) => Err(e),
            Ok((esv, props)) => Ok(get_output(ip, eoj, esv, props)),
        },
    }
}

/// The model of what a command gives.
pub open spec fn result_view(r: Result<Value, AppError>) -> Result<Json, AppErrorView> {
    match r {
        Ok(value) => Ok(json::json_of(value)),
        Err(e) => Err(e@),
    }
}

/// What `get` makes of the bytes that came back.
pub fn get_response(ip: &str, eoj: Eoj, data: &[u8]) -> (r: Result<Value, AppError>)
    ensures
        result_view(r) == get_result(ip@, eoj@, data@),
{
    let frame = parse_response(data)?;
    let (esv, props) = standard_or_reject(&frame, eoj)?;
    let mut out = JsonMap::new();
    json::put(&mut out, "ip", json::text(ip));
    json::put(&mut out, "eoj", json::text(eoj.to_hex().as_str()));
    json::put(&mut out, "esv", json::text(esv.name().as_str()));
    json::put(&mut out, "properties", props_json(eoj, &props));
    Ok(json::object(out))
}

// ───────────────────────── set ─────────────────────────

/// What `set` prints of a response.
pub open spec fn set_output(
    ip: Seq<char>,
    eoj: Seq<u8>,
    esv: Esv,
    props: Seq<PropertyView>,
) -> Json {
    Json::Obj(
        map![
            "ip"@ => Json::Str(ip),
            "eoj"@ => Json::Str(text::lower_hex(eoj)),
            "esv"@ => Json::Str(esv.label()),
            "result"@ => Json::Str("accepted"@),
            "properties"@ => props_array(eoj, props),
        ],
    )
}

/// What `set` makes of the bytes that came back.
pub open spec fn set_result(ip: Seq<char>, eoj: Seq<u8>, data: Seq<u8>) -> Result<
    Json,
    AppErrorView,
> {
    match response_of(data) {
        Err(e) => Err(e),
        Ok(f) => match granted(f, eoj) {
            Err(e) => Err(e),
            Ok((esv, props)) => Ok(set_output(ip, eoj, esv, props)),
        },
    }
}

/// What `set` makes of the bytes that came back.
pub fn set_response(ip: &str, eoj: Eoj, data: &[u8]) -> (r: Result<Value, AppError>)
    ensures
        result_view(r) == set_result(ip@, eoj@, data@),
{
    let frame = parse_response(data)?;
    let (esv, props) = standard_or_reject(&frame, eoj)?;
    let mut out = JsonMap::new();
    json::put(&mut out, "ip", json::text(ip));
    json::put(&mut out, "eoj", json::text(eoj.to_hex().as_str()));
    json::put(&mut out, "esv", json::text(esv.name().as_str()));
    json::put(&mut out, "result", json::text("accepted"));
    json::put(&mut out, "properties", props_json(eoj, &props));
    Ok(json::object(out))
}

/// What `set` prints of a request without a response: what was sent, whether it is done or not.
pub open spec fn set_nowait_output(ip: Seq<char>, eoj: Seq<u8>, epc: u8, edt: Seq<u8>) -> Json {
    Json::Obj(
        map![
            "ip"@ => Json::Str(ip),
            "eoj"@ => Json::Str(text::lower_hex(eoj)),
            "esv"@ => Json::Str(Esv::SetI.label()),
            "result"@ => Json::Str("sent"@),
            "properties"@ => props_array(eoj, seq![PropertyView { epc, edt }]),
        ],
    )
}

/// What `set` prints of a request without a response, once it is sent.
pub fn set_nowait_report(ip: &str, eoj: Eoj, epc: u8, edt: Vec<u8>) -> (value: Value)
    ensures
        json::json_of(value) == set_nowait_output(ip@, eoj@, epc, edt@),
{
    let ghost model = PropertyView { epc, edt: edt@ };
    let props = vec![Property::new(epc, edt)];
    assert(codec::props_view(props@) =~= seq![model]);
    let mut out = JsonMap::new();
    json::put(&mut out, "ip", json::text(ip));
    json::put(&mut out, "eoj", json::text(eoj.to_hex().as_str()));
    json::put(&mut out, "esv", json::text(Esv::SetI.name().as_str()));
    json::put(&mut out, "result", json::text("sent"));
    json::put(&mut out, "properties", props_json(eoj, &props));
    json::object(out)
}

// ───────────────────────── describe ─────────────────────────

/// The key of a property map in the output.
pub open spec fn map_key(epc: u8) -> Option<Seq<char>> {
    if epc == EPC_GET_MAP {
        Some("get_map"@)
    } else if epc == EPC_SET_MAP {
        Some("set_map"@)
    } else if epc == EPC_INF_MAP {
        Some("inf_map"@)
    } else {
        None
    }
}

/// A property map as JSON: its entries, or its raw data where it cannot be read.
pub open spec fn map_output(eoj: Seq<u8>, edt: Seq<u8>) -> Json {
    match properties::map_epcs(edt) {
        Some(epcs) => Json::Arr(
            epcs.map_values(|epc: u8| properties::map_entry(eoj, epc)),
        ),
        None => properties::member("edt_hex"@, Json::Str(text::lower_hex(edt))),
    }
}

/// A property map as JSON.
fn map_json(eoj: Eoj, edt: &[u8]) -> (value: Value)
    ensures
        json::json_of(value) == map_output(eoj@, edt@),
{
    match properties::parse_property_map(edt) {
        Some(epcs) => {
            let mut items: Vec<Value> = Vec::with_capacity(epcs.len());
            for i in 0..epcs.len()
                invariant
                    items.len() == i,
                    forall|k: int|
                        0 <= k < i ==> json::json_of(#[trigger] items@[k]) == properties::map_entry(
                            eoj@,
                            epcs@[k],
                        ),
            {
                items.push(properties::map_entry_json(eoj, epcs[i]));
            }
            assert(json::json_list(items@) =~= map_output(eoj@, edt@)->Arr_0);
            json::array(items)
        },
        None => raw_bytes("edt_hex", edt),
    }
}

/// The members of what `describe` prints: those that are always there, and the maps among the
/// properties. Of two maps with the same EPC the later one counts.
pub open spec fn describe_members(
    ip: Seq<char>,
    eoj: Seq<u8>,
    esv: Esv,
    props: Seq<PropertyView>,
) -> Map<Seq<char>, Json>
    decreases props.len(),
{
    if props.len() == 0 {
        map![
            "ip"@ => Json::Str(ip),
            "eoj"@ => Json::Str(text::lower_hex(eoj)),
            "esv"@ => Json::Str(esv.label()),
        ]
    } else {
        let before = describe_members(ip, eoj, esv, props.drop_last());
        match map_key(props.last().epc) {
            Some(key) => before.insert(key, map_output(eoj, props.last().edt)),
            None => before,
        }
    }
}

/// What `describe` makes of the bytes that came back.
pub open spec fn describe_result(ip: Seq<char>, eoj: Seq<u8>, data: Seq<u8>) -> Result<
    Json,
    AppErrorView,
> {
    match response_of(data) {
        Err(e) => Err(e),
        Ok(f) => match granted(f, eoj) {
            Err(e) => Err(e),
            Ok((esv, props)) => Ok(Json::Obj(describe_members(ip, eoj, esv, props))),
        },
    }
}

/// What `describe` makes of the bytes that came back.
pub fn describe_response(ip: &str, eoj: Eoj, data: &[u8]) -> (r: Result<Value, AppError>)
    ensures
        result_view(r) == describe_result(ip@, eoj@, data@),
{
    let frame = parse_response(data)?;
    let (esv, props) = standard_or_reject(&frame, eoj)?;
    let ghost model = codec::props_view(props@);
    let mut out = JsonMap::new();
    json::put(&mut out, "ip", json::text(ip));
    json::put(&mut out, "eoj", json::text(eoj.to_hex().as_str()));
    json::put(&mut out, "esv", json::text(esv.name().as_str()));
    assert(model.take(0) =~= Seq::empty());
    for i in 0..props.len()
        invariant
            model == codec::props_view(props@),
            json::members_of(out) == describe_members(ip@, eoj@, esv, model.take(i as int)),
    {
        let p = &props[i];
        assert(model.take(i + 1).drop_last() =~= model.take(i as int));
        assert(model.take(i + 1).last() == p@);
        let key = match p.epc {
            EPC_GET_MAP => Some("get_map"),
            EPC_SET_MAP => Some("set_map"),
            EPC_INF_MAP => Some("inf_map"),
            _ => None,
        };
        if let Some(key) = key {
            json::put(&mut out, key, map_json(eoj, p.edt.as_slice()));
        }
    }
    assert(model.take(model.len() as int) =~= model);
    Ok(json::object(out))
}

// ───────────────────────── raw ─────────────────────────

/// The members of a frame of the specified format, before its properties.
pub open spec fn frame_head(f: FrameView, format: Seq<char>) -> Map<Seq<char>, Json> {
    map![
        "ehd2"@ => Json::Str(text::lower_hex(seq![f.ehd2])),
        "tid"@ => Json::Str(text::lower_hex(text::be_bytes(f.tid))),
        "format"@ => Json::Str(format),
    ]
}

/// A frame as JSON, without loss. Data is decoded for the object that sent the frame.
pub open spec fn frame_output(f: FrameView) -> Json {
    match f.edata {
        EdataView::Standard { seoj, deoj, esv, props } => Json::Obj(
            frame_head(f, "standard"@).insert("seoj"@, Json::Str(text::lower_hex(seoj))).insert(
                "deoj"@,
                Json::Str(text::lower_hex(deoj)),
            ).insert("esv"@, Json::Str(esv.label())).insert(
                "properties"@,
                props_array(seoj, props),
            ),
        ),
        EdataView::SetGet { seoj, deoj, esv, set_props, get_props } => Json::Obj(
            frame_head(f, "setget"@).insert("seoj"@, Json::Str(text::lower_hex(seoj))).insert(
                "deoj"@,
                Json::Str(text::lower_hex(deoj)),
            ).insert("esv"@, Json::Str(esv.label())).insert(
                "set_properties"@,
                props_array(seoj, set_props),
            ).insert("get_properties"@, props_array(seoj, get_props)),
        ),
        EdataView::Arbitrary(bytes) => Json::Obj(
            frame_head(f, "arbitrary"@).insert("edt_hex"@, Json::Str(text::lower_hex(bytes))),
        ),
    }
}

/// A TID as four lower-case digits.
pub(crate) fn tid_hex(tid: u16) -> (s: String)
    ensures
        s@ == text::lower_hex(text::be_bytes(tid)),
{
    let bytes = [(tid / 256) as u8, (tid % 256) as u8];
    assert(bytes@ =~= text::be_bytes(tid));
    codec::bytes_to_hex(&bytes)
}

/// A frame as JSON, without loss.
pub fn frame_to_json(frame: &Frame) -> (value: Value)
    ensures
        json::json_of(value) == frame_output(frame@),
{
    let mut out = JsonMap::new();
    let ehd2 = [frame.ehd2];
    assert(ehd2@ =~= seq![frame.ehd2]);
    json::put(&mut out, "ehd2", json::text(codec::bytes_to_hex(&ehd2).as_str()));
    json::put(&mut out, "tid", json::text(tid_hex(frame.tid).as_str()));
    match &frame.edata {
        Edata::Standard { seoj, deoj, esv, props } => {
            json::put(&mut out, "format", json::text("standard"));
            json::put(&mut out, "seoj", json::text(seoj.to_hex().as_str()));
            json::put(&mut out, "deoj", json::text(deoj.to_hex().as_str()));
            json::put(&mut out, "esv", json::text(esv.name().as_str()));
            json::put(&mut out, "properties", props_json(*seoj, props));
        },
        Edata::SetGet { seoj, deoj, esv, set_props, get_props } => {
            json::put(&mut out, "format", json::text("setget"));
            json::put(&mut out, "seoj", json::text(seoj.to_hex().as_str()));
            json::put(&mut out, "deoj", json::text(deoj.to_hex().as_str()));
            json::put(&mut out, "esv", json::text(esv.name().as_str()));
            json::put(&mut out, "set_properties", props_json(*seoj, set_props));
            json::put(&mut out, "get_properties", props_json(*seoj, get_props));
        },
        Edata::Arbitrary(bytes) => {
            json::put(&mut out, "format", json::text("arbitrary"));
            json::put(
                &mut out,
                "edt_hex",
                json::text(codec::bytes_to_hex(bytes.as_slice()).as_str()),
            );
        },
    }
    json::object(out)
}

/// What `raw` prints: always the bytes that were sent and those that came back, and the frame where
/// they could be read, or else why not.
pub open spec fn raw_output(ip: Seq<char>, sent: Seq<u8>, data: Seq<u8>) -> Json {
    let bytes = map![
        "ip"@ => Json::Str(ip),
        "sent_hex"@ => Json::Str(text::lower_hex(sent)),
        "response_hex"@ => Json::Str(text::lower_hex(data)),
    ];
    match codec::read_frame(data) {
        Ok(f) => Json::Obj(bytes.insert("frame"@, frame_output(f))),
        Err(e) => Json::Obj(bytes.insert("parse_error"@, Json::Str(e.message()))),
    }
}

/// What `raw` makes of the bytes that came back. Whatever they are, that is no error.
pub fn raw_response(ip: &str, sent: &[u8], data: &[u8]) -> (value: Value)
    ensures
        json::json_of(value) == raw_output(ip@, sent@, data@),
{
    let mut out = JsonMap::new();
    json::put(&mut out, "ip", json::text(ip));
    json::put(&mut out, "sent_hex", json::text(codec::bytes_to_hex(sent).as_str()));
    json::put(&mut out, "response_hex", json::text(codec::bytes_to_hex(data).as_str()));
    match codec::parse(data) {
        Ok(frame) => {
            json::put(&mut out, "frame", frame_to_json(&frame));
        },
        Err(e) => {
            json::put(&mut out, "parse_error", json::text(e.to_string().as_str()));
        },
    }
    json::object(out)
}

} // verus!
