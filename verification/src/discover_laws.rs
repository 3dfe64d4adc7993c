//! What holds of finding nodes as a whole.

use vstd::prelude::*;
use vstd::string::*;

use crate::codec::{self, EdataView, FrameView, PropertyView};
use crate::codec_laws;
use crate::commands;
use crate::conformance::{self, conforms, fits};
use crate::discover::{self, DeviceView};
use crate::json::{self, Json};
use crate::net::DatagramView;
use crate::properties;
use crate::schema;
use crate::text;

verus! {

broadcast use vstd::string::group_string_axioms;

// ───────────────────────── which nodes ─────────────────────────

/// The addresses of a list ascend, so none occurs twice.
pub open spec fn ascending(devices: Seq<DeviceView>) -> bool {
    forall|i: int, j: int|
        0 <= i < j < devices.len() ==> text::text_before(
            (#[trigger] devices[i]).ip,
            (#[trigger] devices[j]).ip,
        )
}

/// Putting a node into a list adds that node and keeps the others.
proof fn lemma_placed_members(devices: Seq<DeviceView>, d: DeviceView)
    ensures
        forall|x: DeviceView| #[trigger]
            discover::placed(devices, d).contains(x) <==> devices.contains(x) || x == d,
    decreases devices.len(),
{
    let now = discover::placed(devices, d);
    if devices.len() == 0 {
        assert(now[0] == d);
    } else if text::text_before(d.ip, devices[0].ip) {
        assert(now =~= seq![d] + devices);
        assert forall|x: DeviceView| #[trigger] now.contains(x) <==> devices.contains(x) || x
            == d by {
            if now.contains(x) {
                let i = choose|i: int| 0 <= i < now.len() && now[i] == x;
                if i > 0 {
                    assert(devices[i - 1] == x);
                }
            }
            if devices.contains(x) {
                let i = choose|i: int| 0 <= i < devices.len() && devices[i] == x;
                assert(now[i + 1] == x);
            }
            assert(now[0] == d);
        }
    } else {
        let rest = devices.skip(1);
        lemma_placed_members(rest, d);
        let tail = discover::placed(rest, d);
        assert(now =~= seq![devices[0]] + tail);
        assert forall|x: DeviceView| #[trigger] now.contains(x) <==> devices.contains(x) || x
            == d by {
            if now.contains(x) {
                let i = choose|i: int| 0 <= i < now.len() && now[i] == x;
                if i > 0 {
                    assert(tail[i - 1] == x);
                    assert(tail.contains(x));
                    if rest.contains(x) {
                        let k = choose|k: int| 0 <= k < rest.len() && rest[k] == x;
                        assert(devices[k + 1] == x);
                    }
                } else {
                    assert(devices[0] == x);
                }
            }
            if devices.contains(x) || x == d {
                if x == d {
                    assert(tail.contains(x));
                } else {
                    let i = choose|i: int| 0 <= i < devices.len() && devices[i] == x;
                    if i > 0 {
                        assert(rest[i - 1] == x);
                        assert(tail.contains(x));
                    } else {
                        assert(now[0] == x);
                    }
                }
                if tail.contains(x) {
                    let k = choose|k: int| 0 <= k < tail.len() && tail[k] == x;
                    assert(now[k + 1] == x);
                }
            }
        }
    }
}

/// Putting a node into a list whose addresses ascend keeps them ascending.
proof fn lemma_placed_ascending(devices: Seq<DeviceView>, d: DeviceView)
    requires
        ascending(devices),
        !discover::has_ip(devices, d.ip),
    ensures
        ascending(discover::placed(devices, d)),
    decreases devices.len(),
{
    let now = discover::placed(devices, d);
    if devices.len() == 0 {
    } else if text::text_before(d.ip, devices[0].ip) {
        assert(now =~= seq![d] + devices);
        assert forall|i: int, j: int| 0 <= i < j < now.len() implies text::text_before(
            (#[trigger] now[i]).ip,
            (#[trigger] now[j]).ip,
        ) by {
            assert(now[j] == devices[j - 1]);
            if i == 0 {
                if j > 1 {
                    assert(text::text_before(devices[0].ip, devices[j - 1].ip));
                    text::lemma_text_before_transitive(d.ip, devices[0].ip, devices[j - 1].ip);
                }
            } else {
                assert(now[i] == devices[i - 1]);
            }
        }
    } else {
        let rest = devices.skip(1);
        assert(forall|i: int| 0 <= i < rest.len() ==> #[trigger] rest[i] == devices[i + 1]);
        lemma_placed_ascending(rest, d);
        lemma_placed_members(rest, d);
        let tail = discover::placed(rest, d);
        assert(now =~= seq![devices[0]] + tail);
        assert(devices[0].ip != d.ip);
        text::lemma_text_before_total(d.ip, devices[0].ip);
        assert forall|i: int, j: int| 0 <= i < j < now.len() implies text::text_before(
            (#[trigger] now[i]).ip,
            (#[trigger] now[j]).ip,
        ) by {
            assert(now[j] == tail[j - 1]);
            if i == 0 {
                assert(tail.contains(tail[j - 1]));
                if tail[j - 1] != d {
                    assert(rest.contains(tail[j - 1]));
                    let k = choose|k: int| 0 <= k < rest.len() && rest[k] == tail[j - 1];
                    assert(text::text_before(devices[0].ip, devices[k + 1].ip));
                }
            } else {
                assert(now[i] == tail[i - 1]);
            }
        }
    }
}

/// The nodes are printed in the order of their addresses, and no address is printed twice, however
/// often a node answers.
pub proof fn law_roster_ascending(datagrams: Seq<DatagramView>, tid: u16)
    ensures
        ascending(discover::roster(datagrams, tid)),
        forall|i: int, j: int|
            0 <= i < j < discover::roster(datagrams, tid).len() ==> (#[trigger] discover::roster(datagrams, tid)[i]).ip
                != (#[trigger] discover::roster(datagrams, tid)[j]).ip,
    decreases datagrams.len(),
{
    let all = discover::roster(datagrams, tid);
    if datagrams.len() > 0 {
        law_roster_ascending(datagrams.drop_last(), tid);
        let before = discover::roster(datagrams.drop_last(), tid);
        let dg = datagrams.last();
        match discover::shown(dg, tid) {
            Some(f) => if !discover::has_ip(before, dg.from) {
                lemma_placed_ascending(
                    before,
                    DeviceView { ip: dg.from, value: discover::device_output(dg.from, f) },
                );
            },
            None => {},
        }
    }
    assert forall|i: int, j: int| 0 <= i < j < all.len() implies (#[trigger] all[i]).ip != (
    #[trigger] all[j]).ip by {
        text::lemma_text_before_irreflexive(all[i].ip);
    }
}

/// The datagram at `k` is the first one that shows the node at its address.
pub open spec fn shows_first(datagrams: Seq<DatagramView>, tid: u16, k: int) -> bool {
    &&& 0 <= k < datagrams.len()
    &&& discover::shown(datagrams[k], tid) is Some
    &&& forall|j: int|
        0 <= j < k && (#[trigger] datagrams[j]).from == datagrams[k].from ==> discover::shown(
            datagrams[j],
            tid,
        ) is None
}

/// Exactly the nodes that a datagram shows are printed, each as the first datagram that shows it
/// tells: nothing that answers is left out, and nothing else is taken for a node.
pub proof fn law_roster_complete(datagrams: Seq<DatagramView>, tid: u16, d: DeviceView)
    ensures
        discover::roster(datagrams, tid).contains(d) <==> exists|k: int|
            #![trigger datagrams[k]]
            shows_first(datagrams, tid, k) && d == (DeviceView {
                ip: datagrams[k].from,
                value: discover::device_output(datagrams[k].from, discover::shown(datagrams[k], tid)->0),
            }),
    decreases datagrams.len(),
{
    if datagrams.len() > 0 {
        let front = datagrams.drop_last();
        let last = datagrams.len() - 1;
        let dg = datagrams.last();
        let before = discover::roster(front, tid);
        law_roster_complete(front, tid, d);
        assert forall|k: int| 0 <= k < last implies shows_first(front, tid, k) == shows_first(
            datagrams,
            tid,
            k,
        ) by {
            assert(forall|j: int| 0 <= j < last ==> #[trigger] front[j] == datagrams[j]);
            if shows_first(front, tid, k) {
                assert forall|j: int| 0 <= j < k && (#[trigger] datagrams[j]).from
                    == datagrams[k].from implies discover::shown(datagrams[j], tid) is None by {
                    assert(front[j] == datagrams[j]);
                }
            }
        }
        lemma_known_ip(front, tid, dg.from);
        if discover::shown(dg, tid) is Some {
            let f = discover::shown(dg, tid)->0;
            let added = DeviceView { ip: dg.from, value: discover::device_output(dg.from, f) };
            assert(shows_first(datagrams, tid, last) <==> !discover::has_ip(before, dg.from)) by {
                if discover::has_ip(before, dg.from) {
                    let j = choose|j: int|
                        0 <= j < front.len() && (#[trigger] front[j]).from == dg.from && discover::shown(
                            front[j],
                            tid,
                        ) is Some;
                    assert(datagrams[j].from == datagrams[last].from);
                } else {
                    assert forall|j: int| 0 <= j < last && (#[trigger] datagrams[j]).from
                        == datagrams[last].from implies discover::shown(datagrams[j], tid) is None by {
                        assert(front[j] == datagrams[j]);
                    }
                }
            }
            if !discover::has_ip(before, dg.from) {
                lemma_placed_members(before, added);
            }
        }
        if discover::roster(datagrams, tid).contains(d) {
            if before.contains(d) {
                let k = choose|k: int|
                    #![trigger front[k]]
                    shows_first(front, tid, k) && d == (DeviceView {
                        ip: front[k].from,
                        value: discover::device_output(front[k].from, discover::shown(front[k], tid)->0),
                    });
                assert(datagrams[k] == front[k]);
                assert(shows_first(datagrams, tid, k));
            } else {
                assert(shows_first(datagrams, tid, last));
                assert(datagrams[last] == dg);
            }
        }
        if exists|k: int|
            #![trigger datagrams[k]]
            shows_first(datagrams, tid, k) && d == (DeviceView {
                ip: datagrams[k].from,
                value: discover::device_output(datagrams[k].from, discover::shown(datagrams[k], tid)->0),
            }) {
            let k = choose|k: int|
                #![trigger datagrams[k]]
                shows_first(datagrams, tid, k) && d == (DeviceView {
                    ip: datagrams[k].from,
                    value: discover::device_output(datagrams[k].from, discover::shown(datagrams[k], tid)->0),
                });
            if k < last {
                assert(front[k] == datagrams[k]);
                assert(before.contains(d));
            }
        }
    } else {
        assert(!discover::roster(datagrams, tid).contains(d));
    }
}

/// Every node that is printed stems from a datagram that shows it.
pub(crate) proof fn lemma_source(datagrams: Seq<DatagramView>, tid: u16, i: int) -> (k: int)
    requires
        0 <= i < discover::roster(datagrams, tid).len(),
    ensures
        0 <= k < datagrams.len(),
        discover::shown(datagrams[k], tid) is Some,
        discover::roster(datagrams, tid)[i].value == discover::device_output(
            datagrams[k].from,
            discover::shown(datagrams[k], tid)->0,
        ),
{
    let d = discover::roster(datagrams, tid)[i];
    law_roster_complete(datagrams, tid, d);
    assert(discover::roster(datagrams, tid).contains(d));
    choose|k: int|
        #![trigger datagrams[k]]
        shows_first(datagrams, tid, k) && d == (DeviceView {
            ip: datagrams[k].from,
            value: discover::device_output(datagrams[k].from, discover::shown(datagrams[k], tid)->0),
        })
}

/// An address is in the list exactly if a datagram from it shows a node.
proof fn lemma_known_ip(datagrams: Seq<DatagramView>, tid: u16, ip: Seq<char>)
    ensures
        discover::has_ip(discover::roster(datagrams, tid), ip) <==> exists|j: int|
            0 <= j < datagrams.len() && (#[trigger] datagrams[j]).from == ip && discover::shown(
                datagrams[j],
                tid,
            ) is Some,
    decreases datagrams.len(),
{
    if datagrams.len() > 0 {
        let front = datagrams.drop_last();
        let last = datagrams.len() - 1;
        let dg = datagrams.last();
        let before = discover::roster(front, tid);
        let now = discover::roster(datagrams, tid);
        lemma_known_ip(front, tid, ip);
        assert(forall|j: int| 0 <= j < last ==> #[trigger] front[j] == datagrams[j]);
        if discover::shown(dg, tid) is Some && !discover::has_ip(before, dg.from) {
            let added = DeviceView {
                ip: dg.from,
                value: discover::device_output(dg.from, discover::shown(dg, tid)->0),
            };
            lemma_placed_members(before, added);
            if discover::has_ip(before, ip) {
                let i = choose|i: int| 0 <= i < before.len() && (#[trigger] before[i]).ip == ip;
                assert(before.contains(before[i]));
                assert(now.contains(before[i]));
                let k = choose|k: int| 0 <= k < now.len() && now[k] == before[i];
                assert(now[k].ip == ip);
            }
            if ip == dg.from {
                assert(now.contains(added));
                let k = choose|k: int| 0 <= k < now.len() && now[k] == added;
                assert(now[k].ip == ip);
            }
            if discover::has_ip(now, ip) && ip != dg.from {
                let i = choose|i: int| 0 <= i < now.len() && (#[trigger] now[i]).ip == ip;
                assert(now.contains(now[i]));
                assert(before.contains(now[i]));
                let k = choose|k: int| 0 <= k < before.len() && before[k] == now[i];
                assert(before[k].ip == ip);
            }
        }
        if discover::has_ip(before, ip) {
            let j = choose|j: int|
                0 <= j < front.len() && (#[trigger] front[j]).from == ip && discover::shown(
                    front[j],
                    tid,
                ) is Some;
            assert(datagrams[j].from == ip);
        }
        if discover::has_ip(now, ip) && !discover::has_ip(before, ip) {
            assert(datagrams[last].from == ip);
        }
        if exists|j: int|
            0 <= j < datagrams.len() && (#[trigger] datagrams[j]).from == ip && discover::shown(
                datagrams[j],
                tid,
            ) is Some {
            let j = choose|j: int|
                0 <= j < datagrams.len() && (#[trigger] datagrams[j]).from == ip && discover::shown(
                    datagrams[j],
                    tid,
                ) is Some;
            if j < last {
                assert(front[j].from == ip);
            }
        }
    } else {
        assert(!discover::has_ip(discover::roster(datagrams, tid), ip));
    }
}

/// A request is not taken for a node: not the own one, which can come back, nor that of another
/// controller, whatever its TID.
pub proof fn law_requests_are_no_nodes(
    from: Seq<char>,
    tid: u16,
    f: FrameView,
)
    requires
        codec_laws::valid_frame(f),
        codec::service(f) matches Some(esv) && esv.code() / 16 == 6,
    ensures
        discover::shown(DatagramView { from, data: codec::frame_bytes(f) }, tid) is None,
{
    codec_laws::law_read_back(f);
}

// ───────────────────────── the schema ─────────────────────────

/// The keys of a node differ.
proof fn lemma_device_keys()
    ensures
        "ip"@.len() == 2,
        "count"@.len() == 5,
        "instances"@.len() == 9,
{
    reveal_strlit("ip");
    reveal_strlit("count");
    reveal_strlit("instances");
}

/// The properties of a node.
spec fn device_props() -> Map<Seq<char>, Json> {
    map![
        "ip"@ => schema::typed("string"@),
        "count"@ => schema::described("integer"@, "インスタンス数 (応答パース時のみ)"@),
        "instances"@ => schema::array_of(schema::described("string"@, "EOJ (6 hex 桁)"@)),
    ]
}

/// The members of a node are those that its schema asks for.
proof fn lemma_device_fits(ip: Seq<char>, props: Seq<PropertyView>)
    ensures
        fits(device_props(), seq!["ip"@], discover::device_members(ip, props)),
    decreases props.len(),
{
    lemma_device_keys();
    conformance::lemma_types();
    let required = seq!["ip"@];
    let v = discover::device_members(ip, props);
    if props.len() == 0 {
        conformance::lemma_string(ip);
    } else {
        lemma_device_fits(ip, props.drop_last());
        let before = discover::device_members(ip, props.drop_last());
        assert(before.contains_key(required[0]));
        let edt = props.last().edt;
        if props.last().epc == commands::EPC_INSTANCE_LIST && edt.len() > 0 {
            let about = "EOJ (6 hex 桁)"@;
            let listed = json::strings(properties::listed_instances(edt));
            conformance::lemma_described(
                "integer"@,
                "インスタンス数 (応答パース時のみ)"@,
                Json::Int(edt[0] as int),
            );
            assert forall|i: int| 0 <= i < listed->Arr_0.len() implies conforms(
                schema::described("string"@, about),
                #[trigger] listed->Arr_0[i],
            ) by {
                conformance::lemma_string(properties::listed_instances(edt)[i]);
            }
            conformance::lemma_array(schema::described("string"@, about), listed);
            assert forall|k: Seq<char>| #[trigger] v.contains_key(k) implies device_props().contains_key(
                k,
            ) && conforms(device_props()[k], v[k]) by {
                if k != "count"@ && k != "instances"@ {
                    assert(before.contains_key(k));
                }
            }
        }
    }
}

/// A node conforms to its schema.
pub proof fn law_device_conforms(ip: Seq<char>, f: FrameView)
    ensures
        conforms(schema::device_schema(), discover::device_output(ip, f)),
{
    let props = match f.edata {
        EdataView::Standard { props, .. } => props,
        _ => Seq::empty(),
    };
    lemma_device_fits(ip, props);
    conformance::lemma_closed_object(device_props(), seq!["ip"@], discover::device_members(ip, props));
}

/// Every node that is printed conforms to its schema.
proof fn lemma_devices(datagrams: Seq<DatagramView>, tid: u16)
    ensures
        forall|i: int|
            0 <= i < discover::roster(datagrams, tid).len() ==> conforms(
                schema::device_schema(),
                (#[trigger] discover::roster(datagrams, tid)[i]).value,
            ),
{
    assert forall|i: int| 0 <= i < discover::roster(datagrams, tid).len() implies conforms(
        schema::device_schema(),
        (#[trigger] discover::roster(datagrams, tid)[i]).value,
    ) by {
        let k = lemma_source(datagrams, tid, i);
        law_device_conforms(datagrams[k].from, discover::shown(datagrams[k], tid)->0);
    }
}

/// A list of nodes conforms to the schema of `discover`.
proof fn lemma_device_list(list: Seq<Json>)
    requires
        forall|i: int|
            0 <= i < list.len() ==> conforms(schema::device_schema(), #[trigger] list[i]),
    ensures
        conforms(schema::discover_schema(), properties::member("devices"@, Json::Arr(list))),
{
    let v = map!["devices"@ => Json::Arr(list)];
    let p = map!["devices"@ => schema::array_of(schema::device_schema())];
    let required = seq!["devices"@];
    conformance::lemma_array(schema::device_schema(), Json::Arr(list));
    assert(fits(p, required, v));
    conformance::lemma_output("enl discover output"@, p, required, v);
}

/// What `discover` prints conforms to the schema of `discover`, whatever came back.
pub proof fn law_discover_conforms(datagrams: Seq<DatagramView>, tid: u16)
    ensures
        conforms(schema::discover_schema(), discover::discover_output(datagrams, tid)),
{
    let devices = discover::roster(datagrams, tid);
    let list = devices.map_values(|d: DeviceView| d.value);
    lemma_devices(datagrams, tid);
    assert forall|i: int| 0 <= i < list.len() implies conforms(
        schema::device_schema(),
        #[trigger] list[i],
    ) by {
        assert(list[i] == devices[i].value);
    }
    lemma_device_list(list);
}

} // verus!
