//! Which datagrams show a node, what is printed of it, and where the request goes, byte by byte.

use vstd::prelude::*;
use vstd::string::*;

use crate::cidr;
use crate::codec::{self, EdataView, FrameView, PropertyView};
use crate::discover::{self, DeviceView};
use crate::discover_laws;
use crate::json::{self, Json};
use crate::net::{self, DatagramView};
use crate::properties;
use crate::text;
use crate::wire_laws;

verus! {

broadcast use vstd::string::group_string_axioms;

/// Bytes can answer a request exactly if they begin with 0x10, 0x81 and the TID of the request, the
/// high byte first.
pub proof fn law_answers(data: Seq<u8>, tid: u16)
    ensures
        net::answers(data, tid) <==> data.len() >= 4 && data[0] == 0x10 && data[1] == 0x81 && data[2]
            * 256 + data[3] == tid,
{
    let head = seq![0x10u8, 0x81u8] + text::be_bytes(tid);
    if data.len() >= 4 {
        let own = data.take(4);
        assert(own[0] == data[0] && own[1] == data[1] && own[2] == data[2] && own[3] == data[3]);
        assert(head[0] == 0x10 && head[1] == 0x81);
        assert(head[2] == text::be_bytes(tid)[0] && head[3] == text::be_bytes(tid)[1]);
        if data[0] == 0x10 && data[1] == 0x81 && data[2] * 256 + data[3] == tid {
            assert(own =~= head);
        }
    }
}

/// A datagram shows a node exactly if its bytes are a frame with the TID of the request whose service,
/// in byte 10, is a response (0x70 to 0x7F). Where it came from does not matter.
pub proof fn law_shown(dg: DatagramView, tid: u16)
    ensures
        discover::shown(dg, tid) is Some <==> {
            &&& codec::read_frame(dg.data) is Ok
            &&& dg.data[1] == 0x81
            &&& dg.data[2] * 256 + dg.data[3] == tid
            &&& 0x70 <= dg.data[10] <= 0x7F
        },
        discover::shown(dg, tid) matches Some(f) ==> codec::read_frame(dg.data) == Ok::<
            FrameView,
            codec::CodecErrorView,
        >(f),
{
    law_answers(dg.data, tid);
    wire_laws::law_header_errors(dg.data);
    if codec::read_frame(dg.data) is Ok {
        wire_laws::law_frame_head(dg.data);
        wire_laws::law_service_kinds(dg.data[10]);
    }
}

// ───────────────────────── one node ─────────────────────────

/// The list holds the objects of an instance list: three bytes each from the second byte on, as many
/// as the first byte announces, or those that are there in full.
pub open spec fn lists_objects(array: Json, edt: Seq<u8>) -> bool {
    let list = array->Arr_0;
    &&& array is Arr
    &&& list.len() <= edt[0]
    &&& 1 + 3 * list.len() <= edt.len()
    &&& list.len() == edt[0] || 1 + 3 * (list.len() + 1) > edt.len()
    &&& forall|i: int|
        0 <= i < list.len() ==> #[trigger] list[i] == Json::Str(
            text::lower_hex(seq![edt[1 + 3 * i], edt[2 + 3 * i], edt[3 + 3 * i]]),
        )
}

/// The objects that are read from an instance list.
proof fn lemma_objects(edt: Seq<u8>)
    requires
        edt.len() > 0,
    ensures
        lists_objects(json::strings(properties::listed_instances(edt)), edt),
{
    let list = json::strings(properties::listed_instances(edt))->Arr_0;
    assert forall|i: int| 0 <= i < list.len() implies #[trigger] list[i] == Json::Str(
        text::lower_hex(seq![edt[1 + 3 * i], edt[2 + 3 * i], edt[3 + 3 * i]]),
    ) by {
        assert(edt.subrange(1 + 3 * i, 4 + 3 * i) =~= seq![
            edt[1 + 3 * i],
            edt[2 + 3 * i],
            edt[3 + 3 * i],
        ]);
    }
}

/// A property holds an instance list.
pub open spec fn is_instance_list(p: PropertyView) -> bool {
    p.epc == 0xD6 && p.edt.len() > 0
}

/// What is printed of a node: its address, and, from the last property 0xD6 with data, the number
/// that it announces and the objects that it holds. Without such a property there is the address
/// alone.
pub proof fn law_device_members(ip: Seq<char>, props: Seq<PropertyView>)
    ensures
        ({
            let m = discover::device_members(ip, props);
            &&& m.contains_key("ip"@) && m["ip"@] == Json::Str(ip)
            &&& m.dom().subset_of(set!["ip"@, "count"@, "instances"@])
            &&& m.contains_key("count"@) <==> exists|i: int|
                0 <= i < props.len() && is_instance_list(#[trigger] props[i])
            &&& m.contains_key("instances"@) <==> m.contains_key("count"@)
            &&& forall|i: int|
                0 <= i < props.len() && is_instance_list(#[trigger] props[i]) && (forall|j: int|
                    i < j < props.len() ==> !is_instance_list(#[trigger] props[j])) ==> m["count"@]
                    == Json::Int(props[i].edt[0] as int) && lists_objects(
                    m["instances"@],
                    props[i].edt,
                )
        }),
    decreases props.len(),
{
    reveal_strlit("ip");
    reveal_strlit("count");
    reveal_strlit("instances");
    assert("ip"@.len() == 2 && "count"@.len() == 5 && "instances"@.len() == 9);
    let m = discover::device_members(ip, props);
    if props.len() > 0 {
        let front = props.drop_last();
        let last = props.last();
        law_device_members(ip, front);
        let before = discover::device_members(ip, front);
        assert(forall|i: int| 0 <= i < front.len() ==> #[trigger] front[i] == props[i]);
        assert(props[props.len() - 1] == last);
        if is_instance_list(last) {
            lemma_objects(last.edt);
            assert forall|i: int|
                0 <= i < props.len() && is_instance_list(#[trigger] props[i]) && (forall|j: int|
                    i < j < props.len() ==> !is_instance_list(
                        #[trigger] props[j],
                    )) implies m["count"@] == Json::Int(props[i].edt[0] as int) && lists_objects(
                m["instances"@],
                props[i].edt,
            ) by {
                if i < front.len() {
                    assert(!is_instance_list(props[props.len() - 1]));
                }
            }
        } else {
            assert(m == before);
            assert forall|i: int|
                0 <= i < props.len() && is_instance_list(#[trigger] props[i]) && (forall|j: int|
                    i < j < props.len() ==> !is_instance_list(
                        #[trigger] props[j],
                    )) implies m["count"@] == Json::Int(props[i].edt[0] as int) && lists_objects(
                m["instances"@],
                props[i].edt,
            ) by {
                assert(is_instance_list(front[i]));
                assert forall|j: int| i < j < front.len() implies !is_instance_list(
                    #[trigger] front[j],
                ) by {
                    assert(!is_instance_list(props[j]));
                }
            }
            if exists|i: int| 0 <= i < props.len() && is_instance_list(#[trigger] props[i]) {
                let i = choose|i: int| 0 <= i < props.len() && is_instance_list(#[trigger] props[i]);
                assert(is_instance_list(front[i]));
            }
            if exists|i: int| 0 <= i < front.len() && is_instance_list(#[trigger] front[i]) {
                let i = choose|i: int| 0 <= i < front.len() && is_instance_list(#[trigger] front[i]);
                assert(is_instance_list(props[i]));
            }
        }
    } else {
        assert(m.dom() =~= set!["ip"@]);
    }
}

/// A response with one list of properties is printed with what it lists; any other response with its
/// address alone.
pub proof fn law_device_prints(ip: Seq<char>, f: FrameView)
    ensures
        match f.edata {
            EdataView::Standard { props, .. } => discover::device_output(ip, f) == Json::Obj(
                discover::device_members(ip, props),
            ),
            _ => discover::device_output(ip, f) == Json::Obj(map!["ip"@ => Json::Str(ip)]),
        },
{
}

// ───────────────────────── all nodes ─────────────────────────

/// What `discover` prints: the nodes under one key, in their order.
pub proof fn law_discover_prints(datagrams: Seq<DatagramView>, tid: u16)
    ensures
        ({
            let nodes = discover::roster(datagrams, tid);
            let list = discover::discover_output(datagrams, tid)->Obj_0["devices"@]->Arr_0;
            &&& discover::discover_output(datagrams, tid) == Json::Obj(
                map!["devices"@ => Json::Arr(list)],
            )
            &&& list.len() == nodes.len()
            &&& forall|i: int|
                0 <= i < nodes.len() ==> #[trigger] list[i] == nodes[i].value
        }),
{
}

/// Every node is printed under the address that its datagram came from.
pub proof fn law_node_address(datagrams: Seq<DatagramView>, tid: u16, i: int)
    requires
        0 <= i < discover::roster(datagrams, tid).len(),
    ensures
        ({
            let d = discover::roster(datagrams, tid)[i];
            &&& d.value is Obj
            &&& d.value->Obj_0.contains_key("ip"@)
            &&& d.value->Obj_0["ip"@] == Json::Str(d.ip)
        }),
{
    let d = discover::roster(datagrams, tid)[i];
    discover_laws::law_roster_complete(datagrams, tid, d);
    assert(discover::roster(datagrams, tid).contains(d));
    let k = choose|k: int|
        #![trigger datagrams[k]]
        discover_laws::shows_first(datagrams, tid, k) && d == (DeviceView {
            ip: datagrams[k].from,
            value: discover::device_output(
                datagrams[k].from,
                discover::shown(datagrams[k], tid)->0,
            ),
        });
    let f = discover::shown(datagrams[k], tid)->0;
    match f.edata {
        EdataView::Standard { props, .. } => {
            law_device_members(d.ip, props);
        },
        _ => {
            law_device_members(d.ip, Seq::empty());
        },
    }
}

/// The request goes to each host of the sweep, in their order, and last to 224.0.23.0; without a
/// sweep to that alone.
pub proof fn law_targets(hosts: Option<Seq<Seq<u8>>>)
    ensures
        ({
            let ips = discover::target_ips(hosts);
            &&& ips.last() == "224.0.23.0"@
            &&& hosts is None ==> ips.len() == 1
            &&& hosts matches Some(list) ==> ips.len() == list.len() + 1 && forall|i: int|
                0 <= i < list.len() ==> #[trigger] ips[i] == cidr::dotted(list[i])
        }),
{
}

} // verus!
