//! What the dictionary of properties holds, entry by entry: the name of every EPC, and the byte
//! behind every name of a value range.

use vstd::prelude::*;
use vstd::string::*;

use crate::json::Json;
use crate::properties::{self, Class};
use crate::property_laws;
use crate::text;

verus! {

broadcast use vstd::string::group_string_axioms;

// ───────────────────────── names ─────────────────────────

/// The classes that the dictionary knows, by class group and class. The instance does not matter.
pub proof fn law_classes(eoj: Seq<u8>)
    ensures
        properties::class_of(eoj) == Some(Class::Aircon) <==> eoj[0] == 0x01 && eoj[1] == 0x30,
        properties::class_of(eoj) == Some(Class::Shutter) <==> eoj[0] == 0x02 && eoj[1] == 0x63,
        properties::class_of(eoj) == Some(Class::NodeProfile) <==> eoj[0] == 0x0E && eoj[1] == 0xF0,
{
}

/// The EPCs that have a name, and their names. An air conditioner is class 0x30 of group 0x01, a
/// shutter is class 0x63 of group 0x02; every other object has the shared names only.
pub proof fn law_epc_names(eoj: Seq<u8>, epc: u8)
    ensures
        properties::name_in(properties::names_of(eoj), epc) == (if eoj[0] == 0x01 && eoj[1] == 0x30
            && epc == 0xA0 {
            Some("air_flow"@)
        } else if eoj[0] == 0x01 && eoj[1] == 0x30 && epc == 0xB0 {
            Some("operation_mode"@)
        } else if eoj[0] == 0x01 && eoj[1] == 0x30 && epc == 0xB3 {
            Some("target_temperature"@)
        } else if eoj[0] == 0x01 && eoj[1] == 0x30 && epc == 0xBB {
            Some("room_temperature"@)
        } else if eoj[0] == 0x02 && eoj[1] == 0x63 && epc == 0xE0 {
            Some("open_close_operation"@)
        } else if eoj[0] == 0x02 && eoj[1] == 0x63 && epc == 0xE1 {
            Some("open_level"@)
        } else if eoj[0] == 0x02 && eoj[1] == 0x63 && epc == 0xEA {
            Some("open_close_state"@)
        } else if epc == 0x80 {
            Some("power"@)
        } else if epc == 0x82 {
            Some("standard_version"@)
        } else if epc == 0x8A {
            Some("manufacturer"@)
        } else if epc == 0x9D {
            Some("status_change_map"@)
        } else if epc == 0x9E {
            Some("set_property_map"@)
        } else if epc == 0x9F {
            Some("get_property_map"@)
        } else {
            None
        }),
{
    let table = properties::names_of(eoj);
    property_laws::lemma_name_tables(eoj);
    if exists|i: int| 0 <= i < table.len() && (#[trigger] table[i]).0 == epc {
        let i = choose|i: int| 0 <= i < table.len() && (#[trigger] table[i]).0 == epc;
        property_laws::lemma_name_of_entry(table, i);
    } else {
        if properties::name_in(table, epc) is Some {
            let i = property_laws::lemma_found_name(table, epc);
            assert(table[i].0 == epc);
        }
        assert(forall|i: int| 0 <= i < table.len() ==> (#[trigger] table[i]).0 != epc);
        let own = table.len() - 6;
        assert(table[own].0 == 0x80 && table[own + 1].0 == 0x82 && table[own + 2].0 == 0x8A);
        assert(table[own + 3].0 == 0x9D && table[own + 4].0 == 0x9E && table[own + 5].0 == 0x9F);
        if eoj[0] == 0x01 && eoj[1] == 0x30 {
            assert(table[0].0 == 0xA0 && table[1].0 == 0xB0 && table[2].0 == 0xB3 && table[3].0
                == 0xBB);
        }
        if eoj[0] == 0x02 && eoj[1] == 0x63 {
            assert(table[0].0 == 0xE0 && table[1].0 == 0xE1 && table[2].0 == 0xEA);
        }
    }
}

/// The EPC that each name stands for. No other name stands for one.
pub proof fn law_names_of_epcs(eoj: Seq<u8>, name: Seq<char>)
    ensures
        properties::code_in(properties::names_of(eoj), name) == (if eoj[0] == 0x01 && eoj[1] == 0x30
            && name == "air_flow"@ {
            Some(0xA0u8)
        } else if eoj[0] == 0x01 && eoj[1] == 0x30 && name == "operation_mode"@ {
            Some(0xB0u8)
        } else if eoj[0] == 0x01 && eoj[1] == 0x30 && name == "target_temperature"@ {
            Some(0xB3u8)
        } else if eoj[0] == 0x01 && eoj[1] == 0x30 && name == "room_temperature"@ {
            Some(0xBBu8)
        } else if eoj[0] == 0x02 && eoj[1] == 0x63 && name == "open_close_operation"@ {
            Some(0xE0u8)
        } else if eoj[0] == 0x02 && eoj[1] == 0x63 && name == "open_level"@ {
            Some(0xE1u8)
        } else if eoj[0] == 0x02 && eoj[1] == 0x63 && name == "open_close_state"@ {
            Some(0xEAu8)
        } else if name == "power"@ {
            Some(0x80u8)
        } else if name == "standard_version"@ {
            Some(0x82u8)
        } else if name == "manufacturer"@ {
            Some(0x8Au8)
        } else if name == "status_change_map"@ {
            Some(0x9Du8)
        } else if name == "set_property_map"@ {
            Some(0x9Eu8)
        } else if name == "get_property_map"@ {
            Some(0x9Fu8)
        } else {
            None
        }),
{
    let found = properties::code_in(properties::names_of(eoj), name);
    if found is Some {
        property_laws::law_name_and_epc(eoj, found->0, name);
        law_epc_names(eoj, found->0);
    }
    let codes = seq![
        0xA0u8,
        0xB0,
        0xB3,
        0xBB,
        0xE0,
        0xE1,
        0xEA,
        0x80,
        0x82,
        0x8A,
        0x9D,
        0x9E,
        0x9F,
    ];
    assert forall|i: int|
        0 <= i < codes.len() && properties::name_in(
            properties::names_of(eoj),
            #[trigger] codes[i],
        ) == Some(name) implies found == Some(codes[i]) by {
        property_laws::law_name_and_epc(eoj, codes[i], name);
    }
    law_epc_names(eoj, codes[0]);
    law_epc_names(eoj, codes[1]);
    law_epc_names(eoj, codes[2]);
    law_epc_names(eoj, codes[3]);
    law_epc_names(eoj, codes[4]);
    law_epc_names(eoj, codes[5]);
    law_epc_names(eoj, codes[6]);
    law_epc_names(eoj, codes[7]);
    law_epc_names(eoj, codes[8]);
    law_epc_names(eoj, codes[9]);
    law_epc_names(eoj, codes[10]);
    law_epc_names(eoj, codes[11]);
    law_epc_names(eoj, codes[12]);
}

// ───────────────────────── value ranges ─────────────────────────

/// The EPCs whose data is a byte with a name: every object's operation status, an air conditioner's
/// mode, and a shutter's operation and state.
pub proof fn law_ranged_epcs(eoj: Seq<u8>, epc: u8)
    ensures
        properties::range_json(eoj, epc) is Some <==> epc == 0x80 || (eoj[0] == 0x01 && eoj[1]
            == 0x30 && epc == 0xB0) || (eoj[0] == 0x02 && eoj[1] == 0x63 && (epc == 0xE0 || epc
            == 0xEA)),
        properties::range_json(eoj, epc) is None ==> forall|name: Seq<char>|
            #[trigger] properties::byte_of_name(eoj, epc, name) is None,
{
}

/// The byte that a name of a table stands for.
proof fn lemma_byte_by_name(eoj: Seq<u8>, epc: u8, name: Seq<char>)
    requires
        properties::range_of(eoj, epc) is Some,
    ensures
        ({
            let values = properties::range_of(eoj, epc)->0.values;
            &&& forall|i: int|
                0 <= i < values.len() && (#[trigger] values[i]).1 == name
                    ==> properties::byte_of_name(eoj, epc, name) == Some(values[i].0)
            &&& (forall|i: int| 0 <= i < values.len() ==> (#[trigger] values[i]).1 != name)
                ==> properties::byte_of_name(eoj, epc, name) is None
        }),
{
    let values = properties::range_of(eoj, epc)->0.values;
    property_laws::lemma_range_names(eoj, epc);
    assert forall|i: int|
        0 <= i < values.len() && (#[trigger] values[i]).1 == name implies properties::byte_of_name(
        eoj,
        epc,
        name,
    ) == Some(values[i].0) by {
        property_laws::lemma_code_of_entry(values, i);
    }
    if properties::byte_of_name(eoj, epc, name) is Some {
        let i = property_laws::lemma_found_code(values, name);
        assert(values[i].1 == name);
    }
}

/// The name that a byte of a table has.
proof fn lemma_name_by_byte(eoj: Seq<u8>, epc: u8, byte: u8)
    requires
        properties::range_of(eoj, epc) is Some,
    ensures
        ({
            let values = properties::range_of(eoj, epc)->0.values;
            &&& forall|i: int|
                0 <= i < values.len() && (#[trigger] values[i]).0 == byte ==> properties::name_in(
                    values,
                    byte,
                ) == Some(values[i].1)
            &&& (forall|i: int| 0 <= i < values.len() ==> (#[trigger] values[i]).0 != byte)
                ==> properties::name_in(values, byte) is None
        }),
{
    let values = properties::range_of(eoj, epc)->0.values;
    property_laws::lemma_range_codes(eoj, epc);
    assert forall|i: int|
        0 <= i < values.len() && (#[trigger] values[i]).0 == byte implies properties::name_in(
        values,
        byte,
    ) == Some(values[i].1) by {
        property_laws::lemma_name_of_entry(values, i);
    }
    if properties::name_in(values, byte) is Some {
        let i = property_laws::lemma_found_name(values, byte);
        assert(values[i].0 == byte);
    }
}

/// The operation status of every object: `on` is 0x30 and `off` is 0x31, in both directions. No
/// other name stands for a byte, and every other byte, or none, is `unknown`.
pub proof fn law_power_values(eoj: Seq<u8>, edt: Seq<u8>, name: Seq<char>)
    ensures
        properties::byte_of_name(eoj, 0x80, name) == (if name == "on"@ {
            Some(0x30u8)
        } else if name == "off"@ {
            Some(0x31u8)
        } else {
            None
        }),
        properties::decoded(eoj, 0x80, edt) == Some(
            Json::Obj(
                map![
                    "power"@ => Json::Str(
                        if edt.len() > 0 && edt[0] == 0x30 {
                            "on"@
                        } else if edt.len() > 0 && edt[0] == 0x31 {
                            "off"@
                        } else {
                            "unknown"@
                        },
                    ),
                ],
            ),
        ),
{
    let values = properties::power_range().values;
    lemma_byte_by_name(eoj, 0x80, name);
    assert(values[0] == (0x30u8, "on"@) && values[1] == (0x31u8, "off"@));
    if edt.len() > 0 {
        lemma_name_by_byte(eoj, 0x80, edt[0]);
    }
}

/// The operation mode of an air conditioner: `auto` is 0x41, `cool` 0x42, `heat` 0x43, `dry` 0x44,
/// `fan` 0x45 and `other` 0x40, in both directions. No other name stands for a byte, and every other
/// byte, or none, is `unknown`.
pub proof fn law_mode_values(eoj: Seq<u8>, edt: Seq<u8>, name: Seq<char>)
    requires
        eoj[0] == 0x01,
        eoj[1] == 0x30,
    ensures
        properties::byte_of_name(eoj, 0xB0, name) == (if name == "auto"@ {
            Some(0x41u8)
        } else if name == "cool"@ {
            Some(0x42u8)
        } else if name == "heat"@ {
            Some(0x43u8)
        } else if name == "dry"@ {
            Some(0x44u8)
        } else if name == "fan"@ {
            Some(0x45u8)
        } else if name == "other"@ {
            Some(0x40u8)
        } else {
            None
        }),
        properties::decoded(eoj, 0xB0, edt) == Some(
            Json::Obj(
                map![
                    "operation_mode"@ => Json::Str(
                        if edt.len() == 0 {
                            "unknown"@
                        } else if edt[0] == 0x41 {
                            "auto"@
                        } else if edt[0] == 0x42 {
                            "cool"@
                        } else if edt[0] == 0x43 {
                            "heat"@
                        } else if edt[0] == 0x44 {
                            "dry"@
                        } else if edt[0] == 0x45 {
                            "fan"@
                        } else if edt[0] == 0x40 {
                            "other"@
                        } else {
                            "unknown"@
                        },
                    ),
                ],
            ),
        ),
{
    let values = properties::mode_range().values;
    lemma_byte_by_name(eoj, 0xB0, name);
    assert(values[0] == (0x41u8, "auto"@) && values[1] == (0x42u8, "cool"@));
    assert(values[2] == (0x43u8, "heat"@) && values[3] == (0x44u8, "dry"@));
    assert(values[4] == (0x45u8, "fan"@) && values[5] == (0x40u8, "other"@));
    if edt.len() > 0 {
        lemma_name_by_byte(eoj, 0xB0, edt[0]);
    }
}

/// The operation of a shutter: `open` is 0x41, `close` 0x42 and `stop` 0x43, in both directions. No
/// other name stands for a byte, and every other byte, or none, is `unknown`.
pub proof fn law_shutter_operation_values(eoj: Seq<u8>, edt: Seq<u8>, name: Seq<char>)
    requires
        eoj[0] == 0x02,
        eoj[1] == 0x63,
    ensures
        properties::byte_of_name(eoj, 0xE0, name) == (if name == "open"@ {
            Some(0x41u8)
        } else if name == "close"@ {
            Some(0x42u8)
        } else if name == "stop"@ {
            Some(0x43u8)
        } else {
            None
        }),
        properties::decoded(eoj, 0xE0, edt) == Some(
            Json::Obj(
                map![
                    "operation"@ => Json::Str(
                        if edt.len() == 0 {
                            "unknown"@
                        } else if edt[0] == 0x41 {
                            "open"@
                        } else if edt[0] == 0x42 {
                            "close"@
                        } else if edt[0] == 0x43 {
                            "stop"@
                        } else {
                            "unknown"@
                        },
                    ),
                ],
            ),
        ),
{
    let values = properties::shutter_operation_range().values;
    lemma_byte_by_name(eoj, 0xE0, name);
    assert(values[0] == (0x41u8, "open"@) && values[1] == (0x42u8, "close"@));
    assert(values[2] == (0x43u8, "stop"@));
    if edt.len() > 0 {
        lemma_name_by_byte(eoj, 0xE0, edt[0]);
    }
}

/// The state of a shutter: `fully_open` is 0x41, `fully_closed` 0x42, `opening` 0x43, `closing` 0x44
/// and `stopped_midway` 0x45, in both directions. No other name stands for a byte, and every other
/// byte, or none, is `unknown`.
pub proof fn law_shutter_state_values(eoj: Seq<u8>, edt: Seq<u8>, name: Seq<char>)
    requires
        eoj[0] == 0x02,
        eoj[1] == 0x63,
    ensures
        properties::byte_of_name(eoj, 0xEA, name) == (if name == "fully_open"@ {
            Some(0x41u8)
        } else if name == "fully_closed"@ {
            Some(0x42u8)
        } else if name == "opening"@ {
            Some(0x43u8)
        } else if name == "closing"@ {
            Some(0x44u8)
        } else if name == "stopped_midway"@ {
            Some(0x45u8)
        } else {
            None
        }),
        properties::decoded(eoj, 0xEA, edt) == Some(
            Json::Obj(
                map![
                    "state"@ => Json::Str(
                        if edt.len() == 0 {
                            "unknown"@
                        } else if edt[0] == 0x41 {
                            "fully_open"@
                        } else if edt[0] == 0x42 {
                            "fully_closed"@
                        } else if edt[0] == 0x43 {
                            "opening"@
                        } else if edt[0] == 0x44 {
                            "closing"@
                        } else if edt[0] == 0x45 {
                            "stopped_midway"@
                        } else {
                            "unknown"@
                        },
                    ),
                ],
            ),
        ),
{
    let values = properties::shutter_state_range().values;
    lemma_byte_by_name(eoj, 0xEA, name);
    assert(values[0] == (0x41u8, "fully_open"@) && values[1] == (0x42u8, "fully_closed"@));
    assert(values[2] == (0x43u8, "opening"@) && values[3] == (0x44u8, "closing"@));
    assert(values[4] == (0x45u8, "stopped_midway"@));
    if edt.len() > 0 {
        lemma_name_by_byte(eoj, 0xEA, edt[0]);
    }
}

/// The range that is listed for an EPC holds exactly the bytes that a name stands for: each under
/// its two digits, with that name, and under no other key anything.
pub proof fn law_listed_range(eoj: Seq<u8>, epc: u8, byte: u8, name: Seq<char>)
    requires
        properties::range_json(eoj, epc) is Some,
    ensures
        ({
            let listed = properties::range_json(eoj, epc)->0->Obj_0;
            &&& properties::range_json(eoj, epc)->0 is Obj
            &&& (listed.contains_key(text::upper_hex(byte)) && listed[text::upper_hex(byte)]
                == Json::Str(name)) <==> properties::byte_of_name(eoj, epc, name) == Some(byte)
            &&& forall|key: Seq<char>| #[trigger]
                listed.contains_key(key) ==> exists|b: u8| key == #[trigger] text::upper_hex(b)
        }),
{
    let values = properties::range_of(eoj, epc)->0.values;
    property_laws::lemma_range_codes(eoj, epc);
    property_laws::lemma_range_members(values, byte);
    lemma_byte_by_name(eoj, epc, name);
    lemma_range_keys(values);
    if properties::byte_of_name(eoj, epc, name) == Some(byte) {
        let i = property_laws::lemma_found_code(values, name);
        assert(values[i].0 == byte);
    }
    if properties::range_members(values).contains_key(text::upper_hex(byte)) {
        let i = choose|i: int| 0 <= i < values.len() && (#[trigger] values[i]).0 == byte;
        assert(properties::range_members(values)[text::upper_hex(byte)] == Json::Str(values[i].1));
        if values[i].1 == name {
            assert(properties::byte_of_name(eoj, epc, name) == Some(byte));
        }
    }
}

/// Every key of a listed range is the digits of a byte.
proof fn lemma_range_keys(values: properties::Entries)
    ensures
        forall|key: Seq<char>| #[trigger]
            properties::range_members(values).contains_key(key) ==> exists|b: u8|
                key == #[trigger] text::upper_hex(b),
    decreases values.len(),
{
    if values.len() > 0 {
        let front = properties::range_members(values.drop_last());
        let last = values.last();
        lemma_range_keys(values.drop_last());
        assert forall|key: Seq<char>| #[trigger]
            properties::range_members(values).contains_key(key) implies exists|b: u8|
            key == #[trigger] text::upper_hex(b) by {
            if key == text::upper_hex(last.0) {
            } else {
                assert(front.contains_key(key));
            }
        }
    }
}

} // verus!
