//! The dictionary of properties: names, value ranges and decoded values.
//!
//! What the dictionary knows is added to the raw data, and what it does not know stays raw: an
//! unknown EPC breaks nothing. A new class takes a variant of `Class` and its tables.

use serde_json::{Map as JsonMap, Value};
use vstd::prelude::*;
use vstd::slice::*;
use vstd::string::*;

use crate::codec::{self, Eoj};
use crate::json::{self, Json};
use crate::text;

verus! {

broadcast use vstd::string::group_string_axioms;

// ───────────────────────── tables ─────────────────────────

/// The model of a table of codes and names.
pub type Entries = Seq<(u8, Seq<char>)>;

/// The model of the given entries.
pub open spec fn entries(table: Seq<(u8, &'static str)>) -> Entries {
    table.map_values(|e: (u8, &'static str)| (e.0, e.1@))
}

/// The name of a code: the first entry with that code decides.
pub open spec fn name_in(table: Entries, code: u8) -> Option<Seq<char>>
    decreases table.len(),
{
    if table.len() == 0 {
        None
    } else if table[0].0 == code {
        Some(table[0].1)
    } else {
        name_in(table.skip(1), code)
    }
}

/// The code of a name: the first entry with that name decides.
pub open spec fn code_in(table: Entries, name: Seq<char>) -> Option<u8>
    decreases table.len(),
{
    if table.len() == 0 {
        None
    } else if table[0].1 == name {
        Some(table[0].0)
    } else {
        code_in(table.skip(1), name)
    }
}

/// The name of a code in a table.
fn find_name(table: &Vec<(u8, &'static str)>, code: u8) -> (r: Option<&'static str>)
    ensures
        match r {
            Some(name) => name_in(entries(table@), code) == Some(name@),
            None => name_in(entries(table@), code) is None,
        },
{
    let ghost all = entries(table@);
    let mut i: usize = 0;
    assert(all.skip(0) =~= all);
    while i < table.len()
        invariant
            i <= table.len(),
            all == entries(table@),
            name_in(all, code) == name_in(all.skip(i as int), code),
        decreases table.len() - i,
    {
        assert(all.skip(i as int)[0] == all[i as int]);
        assert(all.skip(i as int).skip(1) =~= all.skip(i + 1));
        if table[i].0 == code {
            return Some(table[i].1);
        }
        i += 1;
    }
    None
}

/// The code of a name in a table.
fn find_code(table: &Vec<(u8, &'static str)>, name: &str) -> (r: Option<u8>)
    ensures
        r == code_in(entries(table@), name@),
{
    let ghost all = entries(table@);
    let mut i: usize = 0;
    assert(all.skip(0) =~= all);
    while i < table.len()
        invariant
            i <= table.len(),
            all == entries(table@),
            code_in(all, name@) == code_in(all.skip(i as int), name@),
        decreases table.len() - i,
    {
        assert(all.skip(i as int)[0] == all[i as int]);
        assert(all.skip(i as int).skip(1) =~= all.skip(i + 1));
        if text::same_text(table[i].1, name) {
            return Some(table[i].0);
        }
        i += 1;
    }
    None
}

// ───────────────────────── classes ─────────────────────────

/// A class that the dictionary knows.
#[derive(Clone, Copy, PartialEq, Eq, Structural, Debug)]
pub enum Class {
    /// Home air conditioner.
    Aircon,
    /// Electric shutter.
    Shutter,
    /// Node profile.
    NodeProfile,
}

/// The class of an object, where the dictionary knows it.
pub open spec fn class_of(eoj: Seq<u8>) -> Option<Class> {
    if eoj[0] == 0x01 && eoj[1] == 0x30 {
        Some(Class::Aircon)
    } else if eoj[0] == 0x02 && eoj[1] == 0x63 {
        Some(Class::Shutter)
    } else if eoj[0] == 0x0E && eoj[1] == 0xF0 {
        Some(Class::NodeProfile)
    } else {
        None
    }
}

/// The class of an object, where the dictionary knows it.
pub fn class_def(eoj: Eoj) -> (class: Option<Class>)
    ensures
        class == class_of(eoj@),
{
    match (eoj.class_group(), eoj.class()) {
        (0x01, 0x30) => Some(Class::Aircon),
        (0x02, 0x63) => Some(Class::Shutter),
        (0x0E, 0xF0) => Some(Class::NodeProfile),
        _ => None,
    }
}

/// The names of the EPCs that all devices share.
pub open spec fn common_names() -> Entries {
    seq![
        (0x80u8, "power"@),
        (0x82u8, "standard_version"@),
        (0x8Au8, "manufacturer"@),
        (0x9Du8, "status_change_map"@),
        (0x9Eu8, "set_property_map"@),
        (0x9Fu8, "get_property_map"@),
    ]
}

/// The names of the EPCs of a class.
pub open spec fn class_names(class: Option<Class>) -> Entries {
    match class {
        Some(Class::Aircon) => seq![
            (0xA0u8, "air_flow"@),
            (0xB0u8, "operation_mode"@),
            (0xB3u8, "target_temperature"@),
            (0xBBu8, "room_temperature"@),
        ],
        Some(Class::Shutter) => seq![
            (0xE0u8, "open_close_operation"@),
            (0xE1u8, "open_level"@),
            (0xEAu8, "open_close_state"@),
        ],
        _ => Seq::empty(),
    }
}

/// The names of the EPCs of an object: those of its class, then those that all devices share.
pub open spec fn names_of(eoj: Seq<u8>) -> Entries {
    class_names(class_of(eoj)) + common_names()
}

/// The names of the EPCs of an object, those of its class first.
fn name_table(eoj: Eoj) -> (table: Vec<(u8, &'static str)>)
    ensures
        entries(table@) == names_of(eoj@),
{
    let mut table: Vec<(u8, &'static str)> = match class_def(eoj) {
        Some(Class::Aircon) => vec![
            (0xA0u8, "air_flow"),
            (0xB0u8, "operation_mode"),
            (0xB3u8, "target_temperature"),
            (0xBBu8, "room_temperature"),
        ],
        Some(Class::Shutter) => vec![
            (0xE0u8, "open_close_operation"),
            (0xE1u8, "open_level"),
            (0xEAu8, "open_close_state"),
        ],
        _ => Vec::new(),
    };
    assert(entries(table@) =~= class_names(class_of(eoj@)));
    table.push((0x80, "power"));
    table.push((0x82, "standard_version"));
    table.push((0x8A, "manufacturer"));
    table.push((0x9D, "status_change_map"));
    table.push((0x9E, "set_property_map"));
    table.push((0x9F, "get_property_map"));
    assert(entries(table@) =~= names_of(eoj@));
    table
}

/// The name of an EPC. The class of the object comes before what all devices share.
pub fn epc_name(eoj: Eoj, epc: u8) -> (r: Option<&'static str>)
    ensures
        match r {
            Some(name) => name_in(names_of(eoj@), epc) == Some(name@),
            None => name_in(names_of(eoj@), epc) is None,
        },
{
    find_name(&name_table(eoj), epc)
}

/// The EPC with a name. The class of the object comes before what all devices share.
pub fn epc_for_name(eoj: Eoj, name: &str) -> (r: Option<u8>)
    ensures
        r == code_in(names_of(eoj@), name@),
{
    find_code(&name_table(eoj), name)
}

// ───────────────────────── value ranges ─────────────────────────

/// An EPC whose data is one byte out of a range with names: the one source for decoding a value,
/// for listing the range and for setting a value by its name.
pub struct EnumProp {
    pub epc: u8,
    /// The key of the decoded value.
    pub key: &'static str,
    /// The bytes and what they mean.
    pub values: Vec<(u8, &'static str)>,
}

/// The model of an EPC with a range of named values.
#[verifier::ext_equal]
pub struct EnumPropView {
    pub epc: u8,
    pub key: Seq<char>,
    pub values: Entries,
}

impl View for EnumProp {
    type V = EnumPropView;

    open spec fn view(&self) -> EnumPropView {
        EnumPropView { epc: self.epc, key: self.key@, values: entries(self.values@) }
    }
}

/// The named values of the operation status, which all devices share.
pub open spec fn power_range() -> EnumPropView {
    EnumPropView { epc: 0x80, key: "power"@, values: seq![(0x30u8, "on"@), (0x31u8, "off"@)] }
}

/// The named values of an air conditioner's operation mode.
pub open spec fn mode_range() -> EnumPropView {
    EnumPropView {
        epc: 0xB0,
        key: "operation_mode"@,
        values: seq![
            (0x41u8, "auto"@),
            (0x42u8, "cool"@),
            (0x43u8, "heat"@),
            (0x44u8, "dry"@),
            (0x45u8, "fan"@),
            (0x40u8, "other"@),
        ],
    }
}

/// The named values of a shutter's operation.
pub open spec fn shutter_operation_range() -> EnumPropView {
    EnumPropView {
        epc: 0xE0,
        key: "operation"@,
        values: seq![(0x41u8, "open"@), (0x42u8, "close"@), (0x43u8, "stop"@)],
    }
}

/// The named values of a shutter's state.
pub open spec fn shutter_state_range() -> EnumPropView {
    EnumPropView {
        epc: 0xEA,
        key: "state"@,
        values: seq![
            (0x41u8, "fully_open"@),
            (0x42u8, "fully_closed"@),
            (0x43u8, "opening"@),
            (0x44u8, "closing"@),
            (0x45u8, "stopped_midway"@),
        ],
    }
}

/// The range of an EPC, where it has one. The class of the object comes before what all devices
/// share.
pub open spec fn range_of(eoj: Seq<u8>, epc: u8) -> Option<EnumPropView> {
    let class = class_of(eoj);
    if class == Some(Class::Aircon) && epc == 0xB0 {
        Some(mode_range())
    } else if class == Some(Class::Shutter) && epc == 0xE0 {
        Some(shutter_operation_range())
    } else if class == Some(Class::Shutter) && epc == 0xEA {
        Some(shutter_state_range())
    } else if epc == 0x80 {
        Some(power_range())
    } else {
        None
    }
}

/// The range of an EPC, where it has one.
fn enum_prop(eoj: Eoj, epc: u8) -> (r: Option<EnumProp>)
    ensures
        match r {
            Some(p) => range_of(eoj@, epc) == Some(p@),
            None => range_of(eoj@, epc) is None,
        },
{
    match (class_def(eoj), epc) {
        (Some(Class::Aircon), 0xB0) => {
            let p = EnumProp {
                epc: 0xB0,
                key: "operation_mode",
                values: vec![
                    (0x41u8, "auto"),
                    (0x42u8, "cool"),
                    (0x43u8, "heat"),
                    (0x44u8, "dry"),
                    (0x45u8, "fan"),
                    (0x40u8, "other"),
                ],
            };
            assert(p@ =~= mode_range());
            Some(p)
        },
        (Some(Class::Shutter), 0xE0) => {
            let p = EnumProp {
                epc: 0xE0,
                key: "operation",
                values: vec![(0x41u8, "open"), (0x42u8, "close"), (0x43u8, "stop")],
            };
            assert(p@ =~= shutter_operation_range());
            Some(p)
        },
        (Some(Class::Shutter), 0xEA) => {
            let p = EnumProp {
                epc: 0xEA,
                key: "state",
                values: vec![
                    (0x41u8, "fully_open"),
                    (0x42u8, "fully_closed"),
                    (0x43u8, "opening"),
                    (0x44u8, "closing"),
                    (0x45u8, "stopped_midway"),
                ],
            };
            assert(p@ =~= shutter_state_range());
            Some(p)
        },
        (_, 0x80) => {
            let p = EnumProp {
                epc: 0x80,
                key: "power",
                values: vec![(0x30u8, "on"), (0x31u8, "off")],
            };
            assert(p@ =~= power_range());
            Some(p)
        },
        _ => None,
    }
}

/// The decoded value of data out of a range: what the first byte means, under the range's key.
pub open spec fn decoded_enum(p: EnumPropView, edt: Seq<u8>) -> Json {
    let meaning = if edt.len() == 0 {
        None
    } else {
        name_in(p.values, edt[0])
    };
    Json::Obj(
        map![
            p.key => Json::Str(
                match meaning {
                    Some(name) => name,
                    None => "unknown"@,
                },
            ),
        ],
    )
}

/// Decodes data out of a range. A byte without a name is `unknown`.
fn decode_enum(p: &EnumProp, edt: &[u8]) -> (value: Value)
    ensures
        json::json_of(value) == decoded_enum(p@, edt@),
{
    let meaning = if edt.len() == 0 {
        None
    } else {
        find_name(&p.values, edt[0])
    };
    let mut out = JsonMap::new();
    json::put(
        &mut out,
        p.key,
        json::text(
            match meaning {
                Some(name) => name,
                None => "unknown",
            },
        ),
    );
    json::object(out)
}

/// The byte that a name stands for in the range of an EPC.
pub open spec fn byte_of_name(eoj: Seq<u8>, epc: u8, name: Seq<char>) -> Option<u8> {
    match range_of(eoj, epc) {
        Some(p) => code_in(p.values, name),
        None => None,
    }
}

/// The byte that a name stands for in the range of an EPC. EPCs without a range and unknown names
/// have none.
pub fn edt_for_name(eoj: Eoj, epc: u8, name: &str) -> (r: Option<u8>)
    ensures
        r == byte_of_name(eoj@, epc, name@),
{
    match enum_prop(eoj, epc) {
        Some(p) => find_code(&p.values, name),
        None => None,
    }
}

/// The members of a range: what each byte means, under its two upper-case digits.
pub open spec fn range_members(values: Entries) -> Map<Seq<char>, Json>
    decreases values.len(),
{
    if values.len() == 0 {
        Map::empty()
    } else {
        range_members(values.drop_last()).insert(
            text::upper_hex(values.last().0),
            Json::Str(values.last().1),
        )
    }
}

/// The range of an EPC as JSON, where it has one.
pub open spec fn range_json(eoj: Seq<u8>, epc: u8) -> Option<Json> {
    match range_of(eoj, epc) {
        Some(p) => Some(Json::Obj(range_members(p.values))),
        None => None,
    }
}

/// The range of an EPC as JSON. EPCs without a range have none.
pub fn epc_values(eoj: Eoj, epc: u8) -> (r: Option<Value>)
    ensures
        match r {
            Some(value) => range_json(eoj@, epc) == Some(json::json_of(value)),
            None => range_json(eoj@, epc) is None,
        },
{
    let p = match enum_prop(eoj, epc) {
        Some(p) => p,
        None => {
            return None;
        },
    };
    let ghost all = entries(p.values@);
    let mut out = JsonMap::new();
    assert(all.take(0) =~= Seq::empty());
    for i in 0..p.values.len()
        invariant
            all == entries(p.values@),
            json::members_of(out) == range_members(all.take(i as int)),
    {
        let entry = p.values[i];
        json::put(&mut out, text::to_upper_hex(entry.0).as_str(), json::text(entry.1));
        assert(all.take(i + 1).drop_last() =~= all.take(i as int));
    }
    assert(all.take(all.len() as int) =~= all);
    Some(json::object(out))
}

// ───────────────────────── decoded values ─────────────────────────

/// An object with one member.
pub open spec fn member(key: Seq<char>, value: Json) -> Json {
    Json::Obj(map![key => value])
}

/// An object with one member.
fn one_member(key: &str, value: Value) -> (r: Value)
    ensures
        json::json_of(r) == member(key@, json::json_of(value)),
{
    let mut out = JsonMap::new();
    json::put(&mut out, key, value);
    json::object(out)
}

/// The decoded standard version. A node profile gives the version of the protocol and the message
/// format; any other object gives the release of the appendix, as a visible ASCII character, and
/// its revision.
pub open spec fn version_json(eoj: Seq<u8>, edt: Seq<u8>) -> Option<Json> {
    if edt.len() < 4 {
        None
    } else if class_of(eoj) == Some(Class::NodeProfile) {
        let format = if edt[2] == 0x01 {
            "specified"@
        } else if edt[2] == 0x02 {
            "arbitrary"@
        } else {
            "unknown"@
        };
        Some(
            Json::Obj(
                map![
                    "protocol_version"@ => Json::Str(
                        text::decimal(edt[0] as nat) + "."@ + text::decimal(edt[1] as nat),
                    ),
                    "message_format"@ => Json::Str(format),
                ],
            ),
        )
    } else if 0x21 <= edt[2] <= 0x7E {
        Some(
            Json::Obj(
                map![
                    "release"@ => Json::Str(seq![edt[2] as char]),
                    "revision"@ => Json::Int(edt[3] as int),
                ],
            ),
        )
    } else {
        None
    }
}

/// Decodes the standard version (EPC 0x82).
fn decode_version(eoj: Eoj, edt: &[u8]) -> (r: Option<Value>)
    ensures
        match r {
            Some(value) => version_json(eoj@, edt@) == Some(json::json_of(value)),
            None => version_json(eoj@, edt@) is None,
        },
{
    if edt.len() < 4 {
        return None;
    }
    let mut out = JsonMap::new();
    if eoj.class_group() == 0x0E && eoj.class() == 0xF0 {
        let format = match edt[2] {
            0x01 => "specified",
            0x02 => "arbitrary",
            _ => "unknown",
        };
        let mut version = text::to_decimal(edt[0] as u64);
        version.append(".");
        version.append(text::to_decimal(edt[1] as u64).as_str());
        json::put(&mut out, "protocol_version", json::text(version.as_str()));
        json::put(&mut out, "message_format", json::text(format));
        Some(json::object(out))
    } else if 0x21 <= edt[2] && edt[2] <= 0x7E {
        let mut release = String::new();
        release.push(edt[2] as char);
        assert(release@ =~= seq![edt@[2] as char]);
        json::put(&mut out, "release", json::text(release.as_str()));
        json::put(&mut out, "revision", json::number(edt[3] as u64));
        Some(json::object(out))
    } else {
        None
    }
}

/// The name of a manufacturer, for the codes of the larger ones.
pub open spec fn maker(code: int) -> Option<Seq<char>> {
    if code == 0x000005 {
        Some("シャープ"@)
    } else if code == 0x000006 {
        Some("三菱電機"@)
    } else if code == 0x000008 {
        Some("ダイキン工業"@)
    } else if code == 0x00000B {
        Some("パナソニック"@)
    } else if code == 0x000016 {
        Some("東芝"@)
    } else if code == 0x000022 {
        Some("日立グローバルライフソリューションズ"@)
    } else if code == 0x00003B {
        Some("京セラ"@)
    } else if code == 0x00003C {
        Some("デンソー"@)
    } else if code == 0x00003D {
        Some("住友電気工業"@)
    } else if code == 0x00004E {
        Some("富士通"@)
    } else if code == 0x000054 {
        Some("ノーリツ"@)
    } else if code == 0x000059 {
        Some("リンナイ"@)
    } else if code == 0x000064 {
        Some("オムロン ソーシアルソリューションズ"@)
    } else if code == 0x000067 {
        Some("コロナ"@)
    } else if code == 0x000069 {
        Some("東芝ライフスタイル"@)
    } else if code == 0x00006C {
        Some("ニチコン"@)
    } else if code == 0x0000C5 {
        Some("三和シヤッター工業"@)
    } else {
        None
    }
}

/// The name of a manufacturer, for the codes of the larger ones.
fn manufacturer_name(code: u32) -> (r: Option<&'static str>)
    ensures
        match r {
            Some(name) => maker(code as int) == Some(name@),
            None => maker(code as int) is None,
        },
{
    Some(
        match code {
            0x000005 => "シャープ",
            0x000006 => "三菱電機",
            0x000008 => "ダイキン工業",
            0x00000B => "パナソニック",
            0x000016 => "東芝",
            0x000022 => "日立グローバルライフソリューションズ",
            0x00003B => "京セラ",
            0x00003C => "デンソー",
            0x00003D => "住友電気工業",
            0x00004E => "富士通",
            0x000054 => "ノーリツ",
            0x000059 => "リンナイ",
            0x000064 => "オムロン ソーシアルソリューションズ",
            0x000067 => "コロナ",
            0x000069 => "東芝ライフスタイル",
            0x00006C => "ニチコン",
            0x0000C5 => "三和シヤッター工業",
            _ => {
                return None;
            },
        },
    )
}

/// The decoded manufacturer code: its three bytes as digits, and the name where it is known.
pub open spec fn manufacturer_json(edt: Seq<u8>) -> Option<Json> {
    if edt.len() != 3 {
        None
    } else {
        let code = map![
            "manufacturer_code"@ => Json::Str(
                text::upper_hex(edt[0]) + text::upper_hex(edt[1]) + text::upper_hex(edt[2]),
            ),
        ];
        match maker(edt[0] * 65536 + edt[1] * 256 + edt[2]) {
            Some(name) => Some(Json::Obj(code.insert("manufacturer"@, Json::Str(name)))),
            None => Some(Json::Obj(code)),
        }
    }
}

/// Decodes the manufacturer code (EPC 0x8A).
fn decode_manufacturer(edt: &[u8]) -> (r: Option<Value>)
    ensures
        match r {
            Some(value) => manufacturer_json(edt@) == Some(json::json_of(value)),
            None => manufacturer_json(edt@) is None,
        },
{
    if edt.len() != 3 {
        return None;
    }
    let mut digits = text::to_upper_hex(edt[0]);
    digits.append(text::to_upper_hex(edt[1]).as_str());
    digits.append(text::to_upper_hex(edt[2]).as_str());
    let code: u32 = edt[0] as u32 * 65536 + edt[1] as u32 * 256 + edt[2] as u32;
    let mut out = JsonMap::new();
    json::put(&mut out, "manufacturer_code", json::text(digits.as_str()));
    if let Some(name) = manufacturer_name(code) {
        json::put(&mut out, "manufacturer", json::text(name));
    }
    Some(json::object(out))
}

/// A byte read as a signed number.
pub open spec fn signed(byte: u8) -> int {
    if byte < 128 {
        byte as int
    } else {
        byte - 256
    }
}

/// The decoded numeric values of an air conditioner: the temperature that is set, where 0xFD means
/// unknown, the temperature of the room, and the air flow.
pub open spec fn aircon_json(epc: u8, edt: Seq<u8>) -> Option<Json> {
    if edt.len() == 0 {
        None
    } else if epc == 0xB3 {
        Some(
            member(
                "temp_setpoint_c"@,
                if edt[0] == 0xFD {
                    Json::Null
                } else {
                    Json::Int(edt[0] as int)
                },
            ),
        )
    } else if epc == 0xBB {
        Some(member("room_temp_c"@, Json::Int(signed(edt[0]))))
    } else if epc == 0xA0 && edt[0] == 0x41 {
        Some(member("air_flow"@, Json::Str("auto"@)))
    } else if epc == 0xA0 && 0x31 <= edt[0] <= 0x38 {
        Some(member("air_flow_level"@, Json::Int(edt[0] - 0x30)))
    } else {
        None
    }
}

/// Decodes the numeric values of an air conditioner.
fn decode_aircon(epc: u8, edt: &[u8]) -> (r: Option<Value>)
    ensures
        match r {
            Some(value) => aircon_json(epc, edt@) == Some(json::json_of(value)),
            None => aircon_json(epc, edt@) is None,
        },
{
    if edt.len() == 0 {
        return None;
    }
    let v = edt[0];
    match epc {
        0xB3 => if v == 0xFD {
            Some(one_member("temp_setpoint_c", json::null()))
        } else {
            Some(one_member("temp_setpoint_c", json::number(v as u64)))
        },
        0xBB => {
            let degrees: i64 = if v < 128 {
                v as i64
            } else {
                v as i64 - 256
            };
            Some(one_member("room_temp_c", json::signed_number(degrees)))
        },
        0xA0 => if v == 0x41 {
            Some(one_member("air_flow", json::text("auto")))
        } else if 0x31 <= v && v <= 0x38 {
            Some(one_member("air_flow_level", json::number((v - 0x30) as u64)))
        } else {
            None
        },
        _ => None,
    }
}

/// The decoded numeric values of a shutter: how far it is open.
pub open spec fn shutter_json(epc: u8, edt: Seq<u8>) -> Option<Json> {
    if epc == 0xE1 && edt.len() > 0 {
        Some(member("open_level_percent"@, Json::Int(edt[0] as int)))
    } else {
        None
    }
}

/// Decodes the numeric values of a shutter.
fn decode_shutter(epc: u8, edt: &[u8]) -> (r: Option<Value>)
    ensures
        match r {
            Some(value) => shutter_json(epc, edt@) == Some(json::json_of(value)),
            None => shutter_json(epc, edt@) is None,
        },
{
    if epc == 0xE1 && edt.len() > 0 {
        Some(one_member("open_level_percent", json::number(edt[0] as u64)))
    } else {
        None
    }
}

/// The objects of an instance list: as many as it announces, or fewer where it ends early.
pub open spec fn listed_instances(edt: Seq<u8>) -> Seq<Seq<char>> {
    let whole = (edt.len() - 1) / 3;
    Seq::new(
        (if edt[0] <= whole {
            edt[0] as int
        } else {
            whole
        }) as nat,
        |i: int| text::lower_hex(edt.subrange(1 + 3 * i, 4 + 3 * i)),
    )
}

/// The decoded instance list: the number that it announces and the objects that it holds.
pub open spec fn instance_list_json(edt: Seq<u8>) -> Option<Json> {
    if edt.len() == 0 {
        None
    } else {
        Some(
            Json::Obj(
                map![
                    "count"@ => Json::Int(edt[0] as int),
                    "instances"@ => json::strings(listed_instances(edt)),
                ],
            ),
        )
    }
}

/// Reads the objects of an instance list.
pub(crate) fn read_instances(edt: &[u8]) -> (instances: Vec<String>)
    requires
        edt@.len() > 0,
    ensures
        json::owned_texts(instances@) == listed_instances(edt@),
{
    let whole: usize = (edt.len() - 1) / 3;
    let count: usize = if edt[0] as usize <= whole {
        edt[0] as usize
    } else {
        whole
    };
    let mut instances: Vec<String> = Vec::with_capacity(count);
    for i in 0..count
        invariant
            count == listed_instances(edt@).len(),
            count <= whole,
            whole == (edt@.len() - 1) / 3,
            instances.len() == i,
            forall|k: int|
                0 <= k < i ==> (#[trigger] instances@[k])@ == listed_instances(edt@)[k],
    {
        let at: usize = 1 + 3 * i;
        let eoj = Eoj([edt[at], edt[at + 1], edt[at + 2]]);
        assert(eoj@ =~= edt@.subrange(1 + 3 * i, 4 + 3 * i));
        instances.push(eoj.to_hex());
    }
    assert(json::owned_texts(instances@) =~= listed_instances(edt@));
    instances
}

/// Decodes an instance list (EPC 0xD6): a count and three bytes for each object.
pub fn decode_instance_list(edt: &[u8]) -> (r: Option<Value>)
    ensures
        match r {
            Some(value) => instance_list_json(edt@) == Some(json::json_of(value)),
            None => instance_list_json(edt@) is None,
        },
{
    if edt.len() == 0 {
        return None;
    }
    let instances = read_instances(edt);
    let mut out = JsonMap::new();
    json::put(&mut out, "count", json::number(edt[0] as u64));
    json::put(&mut out, "instances", json::owned_string_array(&instances));
    Some(json::object(out))
}

// ───────────────────────── property maps ─────────────────────────

/// Whether a bit of a byte is set.
pub open spec fn bit_set(byte: u8, bit: u8) -> bool {
    byte & (1u8 << bit) != 0
}

/// Whether a bitmap lists an EPC: the byte is the low nibble of the EPC, the bit is the high nibble
/// less 8.
pub open spec fn lists(bitmap: Seq<u8>, epc: u8) -> bool {
    bit_set(bitmap[epc as int % 16], (epc / 16 - 8) as u8)
}

/// The EPCs from 0x80 to 0xFF.
pub open spec fn all_epcs() -> Seq<u8> {
    Seq::new(128, |i: int| (128 + i) as u8)
}

/// The EPCs that a bitmap lists, in ascending order.
pub open spec fn bitmap_epcs(bitmap: Seq<u8>) -> Seq<u8> {
    all_epcs().filter(|epc: u8| lists(bitmap, epc))
}

/// The EPCs that a property map lists. Fewer than 16 stand there one by one; from 16 on there is a
/// bitmap of 16 bytes.
pub open spec fn map_epcs(edt: Seq<u8>) -> Option<Seq<u8>> {
    if edt.len() == 0 {
        None
    } else if edt[0] < 16 {
        if edt.len() - 1 < edt[0] {
            None
        } else {
            Some(edt.subrange(1, 1 + edt[0]))
        }
    } else if edt.len() < 17 {
        None
    } else {
        Some(bitmap_epcs(edt.subrange(1, 17)))
    }
}

/// Reads a property map (EPC 0x9D, 0x9E or 0x9F).
pub fn parse_property_map(edt: &[u8]) -> (r: Option<Vec<u8>>)
    ensures
        match r {
            Some(epcs) => map_epcs(edt@) == Some(epcs@),
            None => map_epcs(edt@) is None,
        },
{
    if edt.len() == 0 {
        return None;
    }
    let count = edt[0] as usize;
    if count < 16 {
        if edt.len() - 1 < count {
            return None;
        }
        Some(slice_to_vec(slice_subrange(edt, 1, 1 + count)))
    } else {
        if edt.len() < 17 {
            return None;
        }
        Some(read_bitmap(slice_subrange(edt, 1, 17)))
    }
}

/// Reads the bitmap of a property map.
fn read_bitmap(bitmap: &[u8]) -> (epcs: Vec<u8>)
    requires
        bitmap@.len() == 16,
    ensures
        epcs@ == bitmap_epcs(bitmap@),
{
    let ghost keep = |epc: u8| lists(bitmap@, epc);
    let ghost all = all_epcs();
    let mut epcs: Vec<u8> = Vec::new();
    let mut i: u8 = 0;
    assert(all.take(0).filter(keep) =~= Seq::<u8>::empty());
    while i < 128
        invariant
            i <= 128,
            bitmap@.len() == 16,
            keep == (|epc: u8| lists(bitmap@, epc)),
            all == all_epcs(),
            epcs@ == all.take(i as int).filter(keep),
        decreases 128 - i,
    {
        let epc = 128 + i;
        let bit = epc / 16 - 8;
        assert(all.take(i + 1).drop_last() =~= all.take(i as int));
        assert(all.take(i + 1).last() == epc);
        reveal_with_fuel(Seq::filter, 2);
        if bitmap[(epc % 16) as usize] & (1u8 << bit) != 0 {
            epcs.push(epc);
        }
        i += 1;
    }
    assert(all.take(128) =~= all);
    epcs
}

/// The EPC that bit `bit` of byte `i` of a bitmap stands for.
pub open spec fn epc_at(i: int, bit: u8) -> u8 {
    ((bit + 8) * 16 + i) as u8
}

/// The byte with the given bits.
pub open spec fn byte_with(b: spec_fn(u8) -> bool) -> u8 {
    eight_bits(b(0), b(1), b(2), b(3), b(4), b(5), b(6), b(7))
}

/// The byte with the given bits, the lowest first.
pub open spec fn eight_bits(
    b0: bool,
    b1: bool,
    b2: bool,
    b3: bool,
    b4: bool,
    b5: bool,
    b6: bool,
    b7: bool,
) -> u8 {
    (if b0 { 1u8 } else { 0u8 }) | (if b1 { 2u8 } else { 0u8 }) | (if b2 { 4u8 } else { 0u8 })
        | (if b3 { 8u8 } else { 0u8 }) | (if b4 { 16u8 } else { 0u8 }) | (if b5 {
        32u8
    } else {
        0u8
    }) | (if b6 { 64u8 } else { 0u8 }) | (if b7 { 128u8 } else { 0u8 })
}

/// The bitmap of some EPCs. Those below 0x80 have no place in it.
pub open spec fn bitmap_of(epcs: Seq<u8>) -> Seq<u8> {
    Seq::new(16, |i: int| byte_with(|bit: u8| epcs.contains(epc_at(i, bit))))
}

/// The property map of some EPCs.
pub open spec fn property_map_bytes(epcs: Seq<u8>) -> Seq<u8> {
    if epcs.len() < 16 {
        seq![epcs.len() as u8] + epcs
    } else {
        seq![codec::low_byte(epcs.len())] + bitmap_of(epcs)
    }
}

/// A byte is made of its bits.
pub(crate) proof fn lemma_byte_is_its_bits(byte: u8)
    ensures
        byte == byte_with(|bit: u8| bit_set(byte, bit)),
{
    assert(byte == eight_bits(
        byte & (1u8 << 0u8) != 0,
        byte & (1u8 << 1u8) != 0,
        byte & (1u8 << 2u8) != 0,
        byte & (1u8 << 3u8) != 0,
        byte & (1u8 << 4u8) != 0,
        byte & (1u8 << 5u8) != 0,
        byte & (1u8 << 6u8) != 0,
        byte & (1u8 << 7u8) != 0,
    )) by (bit_vector);
}

/// The bits of a byte that is made of bits.
pub(crate) proof fn lemma_bits_of_byte(b: spec_fn(u8) -> bool, bit: u8)
    requires
        bit < 8,
    ensures
        bit_set(byte_with(b), bit) == b(bit),
{
    let (b0, b1, b2, b3, b4, b5, b6, b7) = (b(0), b(1), b(2), b(3), b(4), b(5), b(6), b(7));
    assert(bit < 8 ==> ((eight_bits(b0, b1, b2, b3, b4, b5, b6, b7) & (1u8 << bit) != 0) == (if bit
        == 0 {
        b0
    } else if bit == 1 {
        b1
    } else if bit == 2 {
        b2
    } else if bit == 3 {
        b3
    } else if bit == 4 {
        b4
    } else if bit == 5 {
        b5
    } else if bit == 6 {
        b6
    } else {
        b7
    }))) by (bit_vector);
}

/// Writes the property map of some EPCs.
pub fn build_property_map(epcs: &[u8]) -> (out: Vec<u8>)
    ensures
        out@ == property_map_bytes(epcs@),
{
    let count = epcs.len();
    let mut out: Vec<u8> = Vec::with_capacity(17);
    if count < 16 {
        out.push(count as u8);
        out.extend_from_slice(epcs);
        assert(out@ =~= property_map_bytes(epcs@));
    } else {
        let bitmap = write_bitmap(epcs);
        out.push((count % 256) as u8);
        out.extend_from_slice(&bitmap);
        assert(out@ =~= property_map_bytes(epcs@));
    }
    out
}

/// Writes the bitmap of some EPCs.
fn write_bitmap(epcs: &[u8]) -> (bitmap: [u8; 16])
    ensures
        bitmap@ == bitmap_of(epcs@),
{
    let mut bitmap: [u8; 16] = [0; 16];
    assert forall|bit: u8| bit < 8 implies !bit_set(0, bit) by {
        assert(0u8 & (1u8 << bit) == 0) by (bit_vector);
    }
    for n in 0..epcs.len()
        invariant
            forall|i: int, bit: u8|
                0 <= i < 16 && bit < 8 ==> (#[trigger] bit_set(bitmap@[i], bit) <==> epcs@.take(
                    n as int,
                ).contains(epc_at(i, bit))),
    {
        let epc = epcs[n];
        let ghost before = bitmap@;
        let ghost seen = epcs@.take(n as int);
        let ghost now = epcs@.take(n + 1);
        assert(now =~= seen.push(epc));
        assert(forall|e: u8| now.contains(e) <==> seen.contains(e) || e == epc) by {
            assert forall|e: u8| seen.contains(e) || e == epc implies now.contains(e) by {
                if e == epc {
                    assert(now[n as int] == e);
                } else {
                    let k = choose|k: int| 0 <= k < seen.len() && seen[k] == e;
                    assert(now[k] == e);
                }
            }
        }
        if epc >= 0x80 {
            let at = (epc % 16) as usize;
            let own = epc / 16 - 8;
            let byte = bitmap[at];
            bitmap[at] = byte | (1u8 << own);
            assert forall|bit: u8| bit < 8 && own < 8 implies bit_set(byte | (1u8 << own), bit) == (
            bit_set(byte, bit) || bit == own) by {
                assert(bit < 8 && own < 8 ==> (((byte | (1u8 << own)) & (1u8 << bit)) != 0) == (
                byte & (1u8 << bit) != 0 || bit == own)) by (bit_vector);
            }
        }
        assert forall|i: int, bit: u8| 0 <= i < 16 && bit < 8 implies (#[trigger] bit_set(
            bitmap@[i],
            bit,
        ) <==> now.contains(epc_at(i, bit))) by {
            assert(bit_set(before[i], bit) <==> seen.contains(epc_at(i, bit)));
        }
    }
    assert(epcs@.take(epcs@.len() as int) =~= epcs@);
    assert forall|i: int| 0 <= i < 16 implies bitmap@[i] == bitmap_of(epcs@)[i] by {
        lemma_byte_is_its_bits(bitmap@[i]);
        assert forall|bit: u8| bit < 8 implies #[trigger] bit_set(bitmap@[i], bit)
            == epcs@.contains(epc_at(i, bit)) by {}
    }
    assert(bitmap@ =~= bitmap_of(epcs@));
    bitmap
}

// ───────────────────────── one property ─────────────────────────

/// The decoded value of a property, where the dictionary knows how to decode it.
pub open spec fn decoded(eoj: Seq<u8>, epc: u8, edt: Seq<u8>) -> Option<Json> {
    match range_of(eoj, epc) {
        Some(p) => Some(decoded_enum(p, edt)),
        None => if epc == 0x82 {
            version_json(eoj, edt)
        } else if epc == 0x8A {
            manufacturer_json(edt)
        } else if 0x9D <= epc <= 0x9F {
            match map_epcs(edt) {
                Some(epcs) => Some(member("property_map"@, epc_list(epcs))),
                None => None,
            }
        } else {
            match class_of(eoj) {
                Some(Class::Aircon) => aircon_json(epc, edt),
                Some(Class::Shutter) => shutter_json(epc, edt),
                Some(Class::NodeProfile) => if epc == 0xD6 {
                    instance_list_json(edt)
                } else {
                    None
                },
                None => None,
            }
        },
    }
}

/// A list of EPCs, each as two upper-case digits.
pub open spec fn epc_list(epcs: Seq<u8>) -> Json {
    json::strings(epcs.map_values(|epc: u8| text::upper_hex(epc)))
}

/// A list of EPCs, each as two upper-case digits.
pub(crate) fn epc_array(epcs: &Vec<u8>) -> (value: Value)
    ensures
        json::json_of(value) == epc_list(epcs@),
{
    let mut items: Vec<String> = Vec::with_capacity(epcs.len());
    for i in 0..epcs.len()
        invariant
            items.len() == i,
            forall|k: int| 0 <= k < i ==> (#[trigger] items@[k])@ == text::upper_hex(epcs@[k]),
    {
        items.push(text::to_upper_hex(epcs[i]));
    }
    assert(json::owned_texts(items@) =~= epcs@.map_values(|epc: u8| text::upper_hex(epc)));
    json::owned_string_array(&items)
}

/// Decodes the data of a property, where the dictionary knows how.
pub fn decode(eoj: Eoj, epc: u8, edt: &[u8]) -> (r: Option<Value>)
    ensures
        match r {
            Some(value) => decoded(eoj@, epc, edt@) == Some(json::json_of(value)),
            None => decoded(eoj@, epc, edt@) is None,
        },
{
    if let Some(p) = enum_prop(eoj, epc) {
        return Some(decode_enum(&p, edt));
    }
    match epc {
        0x82 => {
            return decode_version(eoj, edt);
        },
        0x8A => {
            return decode_manufacturer(edt);
        },
        0x9D | 0x9E | 0x9F => {
            return match parse_property_map(edt) {
                Some(epcs) => Some(one_member("property_map", epc_array(&epcs))),
                None => None,
            };
        },
        _ => {},
    }
    match class_def(eoj) {
        Some(Class::Aircon) => decode_aircon(epc, edt),
        Some(Class::Shutter) => decode_shutter(epc, edt),
        Some(Class::NodeProfile) => if epc == 0xD6 {
            decode_instance_list(edt)
        } else {
            None
        },
        None => None,
    }
}

/// One entry of a property map: the EPC, its name where it has one, and its range where it has one.
pub open spec fn map_entry(eoj: Seq<u8>, epc: u8) -> Json {
    let code = map!["epc"@ => Json::Str(text::upper_hex(epc))];
    let named = match name_in(names_of(eoj), epc) {
        Some(name) => code.insert("name"@, Json::Str(name)),
        None => code,
    };
    match range_json(eoj, epc) {
        Some(range) => Json::Obj(named.insert("values"@, range)),
        None => Json::Obj(named),
    }
}

/// One entry of a property map as JSON.
pub fn map_entry_json(eoj: Eoj, epc: u8) -> (value: Value)
    ensures
        json::json_of(value) == map_entry(eoj@, epc),
{
    let mut out = JsonMap::new();
    json::put(&mut out, "epc", json::text(text::to_upper_hex(epc).as_str()));
    if let Some(name) = epc_name(eoj, epc) {
        json::put(&mut out, "name", json::text(name));
    }
    if let Some(values) = epc_values(eoj, epc) {
        json::put(&mut out, "values", values);
    }
    json::object(out)
}

/// The members of a property: always the EPC, the length and the raw data; the name and the decoded
/// value where the dictionary has them.
pub open spec fn property_members(eoj: Seq<u8>, epc: u8, edt: Seq<u8>) -> Map<Seq<char>, Json> {
    let raw = map![
        "epc"@ => Json::Str(text::upper_hex(epc)),
        "pdc"@ => Json::Int(edt.len() as int),
        "edt_hex"@ => Json::Str(text::lower_hex(edt)),
    ];
    let named = match name_in(names_of(eoj), epc) {
        Some(name) => raw.insert("name"@, Json::Str(name)),
        None => raw,
    };
    match decoded(eoj, epc, edt) {
        Some(value) => named.insert("value"@, value),
        None => named,
    }
}

/// One property as JSON.
pub fn property_json(eoj: Eoj, epc: u8, edt: &[u8]) -> (value: Value)
    ensures
        json::json_of(value) == Json::Obj(property_members(eoj@, epc, edt@)),
{
    let mut out = JsonMap::new();
    json::put(&mut out, "epc", json::text(text::to_upper_hex(epc).as_str()));
    json::put(&mut out, "pdc", json::number(edt.len() as u64));
    json::put(&mut out, "edt_hex", json::text(codec::bytes_to_hex(edt).as_str()));
    if let Some(name) = epc_name(eoj, epc) {
        json::put(&mut out, "name", json::text(name));
    }
    if let Some(value) = decode(eoj, epc, edt) {
        json::put(&mut out, "value", value);
    }
    json::object(out)
}

} // verus!
