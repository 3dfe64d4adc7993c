//! Finding the nodes of a network from the datagrams that come back.

use serde_json::{Map as JsonMap, Value};
use vstd::prelude::*;
use vstd::string::*;

use crate::cidr::{self, Ipv4};
use crate::codec::{self, EdataView, Frame, FrameView, PropertyView};
use crate::commands::{Endpoint, EPC_INSTANCE_LIST};
use crate::error::{self, AppError, ErrKind};
use crate::json::{self, Json};
use crate::net::{self, Datagram, DatagramView};
use crate::properties;
use crate::text;

verus! {

broadcast use vstd::string::group_string_axioms;

// ───────────────────────── the request ─────────────────────────

/// The addresses that the request goes to: the hosts of the sweep, where there is one, and then the
/// multicast group.
pub open spec fn target_ips(hosts: Option<Seq<Seq<u8>>>) -> Seq<Seq<char>> {
    (match hosts {
        Some(list) => list.map_values(|ip: Seq<u8>| cidr::dotted(ip)),
        None => Seq::empty(),
    }).push(net::MULTICAST_ADDR@)
}

/// Where the request goes.
pub fn targets(hosts: &Option<Vec<Ipv4>>) -> (r: Vec<Endpoint>)
    ensures
        r@.map_values(|dst: Endpoint| dst.ip@) == target_ips(
            match *hosts {
                Some(list) => Some(cidr::ips_view(list@)),
                None => None,
            },
        ),
        forall|i: int| 0 <= i < r.len() ==> (#[trigger] r@[i]).port == net::ECHONET_PORT,
{
    let mut r: Vec<Endpoint> = Vec::new();
    if let Some(list) = hosts {
        for i in 0..list.len()
            invariant
                r.len() == i,
                forall|k: int|
                    0 <= k < i ==> (#[trigger] r@[k]).ip@ == cidr::dotted(list@[k]@) && r@[k].port
                        == net::ECHONET_PORT,
        {
            r.push(Endpoint { ip: list[i].to_string(), port: net::ECHONET_PORT });
        }
    }
    r.push(Endpoint { ip: net::MULTICAST_ADDR.to_owned(), port: net::ECHONET_PORT });
    assert(r@.map_values(|dst: Endpoint| dst.ip@) =~= target_ips(
        match *hosts {
            Some(list) => Some(cidr::ips_view(list@)),
            None => None,
        },
    ));
    r
}

// ───────────────────────── one node ─────────────────────────

/// The members of a node: its address, and its objects where it lists them. Of two lists the later
/// one counts.
pub open spec fn device_members(ip: Seq<char>, props: Seq<PropertyView>) -> Map<Seq<char>, Json>
    decreases props.len(),
{
    if props.len() == 0 {
        map!["ip"@ => Json::Str(ip)]
    } else {
        let before = device_members(ip, props.drop_last());
        let p = props.last();
        if p.epc == EPC_INSTANCE_LIST && p.edt.len() > 0 {
            before.insert("instances"@, json::strings(properties::listed_instances(p.edt))).insert(
                "count"@,
                Json::Int(p.edt[0] as int),
            )
        } else {
            before
        }
    }
}

/// A node as JSON.
pub open spec fn device_output(ip: Seq<char>, f: FrameView) -> Json {
    match f.edata {
        EdataView::Standard { props, .. } => Json::Obj(device_members(ip, props)),
        _ => Json::Obj(device_members(ip, Seq::empty())),
    }
}

/// A node as JSON.
fn device_json(ip: &str, frame: &Frame) -> (value: Value)
    ensures
        json::json_of(value) == device_output(ip@, frame@),
{
    let mut out = JsonMap::new();
    json::put(&mut out, "ip", json::text(ip));
    if let Some(props) = frame.props() {
        let ghost model = codec::props_view(props@);
        assert(model.take(0) =~= Seq::empty());
        for i in 0..props.len()
            invariant
                model == codec::props_view(props@),
                json::members_of(out) == device_members(ip@, model.take(i as int)),
        {
            let p = &props[i];
            assert(model.take(i + 1).drop_last() =~= model.take(i as int));
            assert(model.take(i + 1).last() == p@);
            if p.epc == EPC_INSTANCE_LIST && p.edt.len() > 0 {
                let instances = properties::read_instances(p.edt.as_slice());
                json::put(&mut out, "instances", json::owned_string_array(&instances));
                json::put(&mut out, "count", json::number(p.edt[0] as u64));
            }
        }
        assert(model.take(model.len() as int) =~= model);
    }
    json::object(out)
}

/// The frame by which a datagram shows a node: it can answer the request, it can be read, and it is
/// a response. Requests of other controllers, and the own request that comes back, are none.
pub open spec fn shown(dg: DatagramView, tid: u16) -> Option<FrameView> {
    if !net::answers(dg.data, tid) {
        None
    } else {
        match codec::read_frame(dg.data) {
            Err(_) => None,
            Ok(f) => match codec::service(f) {
                Some(esv) => if esv.responds() {
                    Some(f)
                } else {
                    None
                },
                None => None,
            },
        }
    }
}

/// The frame by which a datagram shows a node.
fn shown_frame(dg: &Datagram, tid: u16) -> (r: Option<Frame>)
    ensures
        match r {
            Some(f) => shown(dg@, tid) == Some(f@),
            None => shown(dg@, tid) is None,
        },
{
    if !net::is_reply_candidate(dg.data.as_slice(), tid) {
        return None;
    }
    match codec::parse(dg.data.as_slice()) {
        Err(_) => None,
        Ok(frame) => match frame.esv() {
            Some(esv) => if esv.is_response() {
                Some(frame)
            } else {
                None
            },
            None => None,
        },
    }
}

// ───────────────────────── all nodes ─────────────────────────

/// A node that was found: its address and what is printed of it.
pub struct Device {
    pub ip: String,
    pub value: Value,
}

/// The model of a node that was found.
#[verifier::ext_equal]
pub struct DeviceView {
    pub ip: Seq<char>,
    pub value: Json,
}

impl View for Device {
    type V = DeviceView;

    open spec fn view(&self) -> DeviceView {
        DeviceView { ip: self.ip@, value: json::json_of(self.value) }
    }
}

/// The models of the nodes of a list.
pub open spec fn devices_view(devices: Seq<Device>) -> Seq<DeviceView> {
    devices.map_values(|d: Device| d@)
}

/// A node with the given address is in the list.
pub open spec fn has_ip(devices: Seq<DeviceView>, ip: Seq<char>) -> bool {
    exists|i: int| 0 <= i < devices.len() && (#[trigger] devices[i]).ip == ip
}

/// A list with one more node, before the first node whose address comes after its own.
pub open spec fn placed(devices: Seq<DeviceView>, d: DeviceView) -> Seq<DeviceView>
    decreases devices.len(),
{
    if devices.len() == 0 {
        seq![d]
    } else if text::text_before(d.ip, devices[0].ip) {
        seq![d] + devices
    } else {
        seq![devices[0]] + placed(devices.skip(1), d)
    }
}

/// The nodes that some datagrams show, in the order of their addresses. The first datagram that
/// shows a node counts.
pub open spec fn roster(datagrams: Seq<DatagramView>, tid: u16) -> Seq<DeviceView>
    decreases datagrams.len(),
{
    if datagrams.len() == 0 {
        Seq::empty()
    } else {
        let before = roster(datagrams.drop_last(), tid);
        let dg = datagrams.last();
        match shown(dg, tid) {
            Some(f) => if has_ip(before, dg.from) {
                before
            } else {
                placed(before, DeviceView { ip: dg.from, value: device_output(dg.from, f) })
            },
            None => before,
        }
    }
}

/// The models of some datagrams.
pub open spec fn datagrams_view(datagrams: Seq<Datagram>) -> Seq<DatagramView> {
    datagrams.map_values(|dg: Datagram| dg@)
}

/// Whether a node with the given address is in the list.
fn contains_ip(devices: &Vec<Device>, ip: &str) -> (r: bool)
    ensures
        r == has_ip(devices_view(devices@), ip@),
{
    let ghost model = devices_view(devices@);
    for i in 0..devices.len()
        invariant
            model == devices_view(devices@),
            forall|k: int| 0 <= k < i ==> (#[trigger] model[k]).ip != ip@,
    {
        if text::same_text(devices[i].ip.as_str(), ip) {
            assert(model[i as int].ip == ip@);
            return true;
        }
    }
    false
}

/// Puts a node into the list, before the first node whose address comes after its own.
fn place(devices: &mut Vec<Device>, d: Device)
    ensures
        devices_view(final(devices)@) == placed(devices_view(old(devices)@), d@),
{
    let ghost model = devices_view(devices@);
    let ghost added = d@;
    let mut i: usize = 0;
    assert(model.take(0) + placed(model.skip(0), added) =~= placed(model, added)) by {
        assert(model.skip(0) =~= model);
    }
    while i < devices.len() && !text::comes_before(d.ip.as_str(), devices[i].ip.as_str())
        invariant
            model == devices_view(devices@),
            added == d@,
            i <= devices.len(),
            placed(model, added) == model.take(i as int) + placed(model.skip(i as int), added),
        decreases devices.len() - i,
    {
        proof {
            assert(model.skip(i as int)[0] == model[i as int]);
            assert(model.skip(i as int).skip(1) =~= model.skip(i + 1));
            assert(model.take(i as int) + (seq![model[i as int]] + placed(model.skip(i + 1), added))
                =~= model.take(i + 1) + placed(model.skip(i + 1), added));
        }
        i += 1;
    }
    proof {
        if i < devices.len() {
            assert(model.skip(i as int)[0] == model[i as int]);
        }
        assert(placed(model.skip(i as int), added) =~= seq![added] + model.skip(i as int));
    }
    devices.insert(i, d);
    assert(devices_view(devices@) =~= model.take(i as int) + (seq![added] + model.skip(i as int)));
}

/// The nodes that some datagrams show, in the order of their addresses.
fn collect(datagrams: &Vec<Datagram>, tid: u16) -> (devices: Vec<Device>)
    ensures
        devices_view(devices@) == roster(datagrams_view(datagrams@), tid),
{
    let ghost model = datagrams_view(datagrams@);
    let mut devices: Vec<Device> = Vec::new();
    assert(model.take(0) =~= Seq::empty());
    assert(devices_view(devices@) =~= Seq::empty());
    for i in 0..datagrams.len()
        invariant
            model == datagrams_view(datagrams@),
            devices_view(devices@) == roster(model.take(i as int), tid),
    {
        let dg = &datagrams[i];
        assert(model.take(i + 1).drop_last() =~= model.take(i as int));
        assert(model.take(i + 1).last() == dg@);
        if let Some(frame) = shown_frame(dg, tid) {
            if !contains_ip(&devices, dg.from.as_str()) {
                let value = device_json(dg.from.as_str(), &frame);
                place(&mut devices, Device { ip: dg.from.as_str().to_owned(), value });
            }
        }
    }
    assert(model.take(model.len() as int) =~= model);
    devices
}

/// What `discover` prints.
pub open spec fn discover_output(datagrams: Seq<DatagramView>, tid: u16) -> Json {
    properties::member(
        "devices"@,
        Json::Arr(roster(datagrams, tid).map_values(|d: DeviceView| d.value)),
    )
}

/// What `discover` makes of the datagrams that came back for the request with the given TID.
pub fn discover_response(datagrams: &Vec<Datagram>, tid: u16) -> (value: Value)
    ensures
        json::json_of(value) == discover_output(datagrams_view(datagrams@), tid),
{
    let devices = collect(datagrams, tid);
    let ghost model = devices_view(devices@);
    let mut items: Vec<Value> = Vec::with_capacity(devices.len());
    for i in 0..devices.len()
        invariant
            model == devices_view(devices@),
            items.len() == i,
            forall|k: int| 0 <= k < i ==> json::json_of(#[trigger] items@[k]) == model[k].value,
    {
        items.push(json::duplicate(&devices[i].value));
    }
    assert(json::json_list(items@) =~= model.map_values(|d: DeviceView| d.value));
    let mut out = JsonMap::new();
    json::put(&mut out, "devices", json::array(items));
    json::object(out)
}

/// What to do when the request could not be sent to the multicast group: without a sweep nothing was
/// sent at all, and that is an error.
pub fn multicast_failed(swept: bool, why: &str) -> (r: Result<(), AppError>)
    ensures
        match r {
            Ok(()) => swept,
            Err(e) => !swept && e@ == error::plain_error(
                ErrKind::Network,
                "multicast 送信失敗: "@ + why@,
            ),
        },
{
    if swept {
        Ok(())
    } else {
        Err(AppError::new(ErrKind::Network, text::concat("multicast 送信失敗: ", why)))
    }
}

} // verus!
