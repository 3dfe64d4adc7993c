//! What the data of a property decodes to, byte by byte.

use vstd::prelude::*;
use vstd::string::*;

use crate::json::Json;
use crate::properties;
use crate::property_laws;
use crate::text;

verus! {

broadcast use vstd::string::group_string_axioms;

// ───────────────────────── numbers ─────────────────────────

/// The opening level of a shutter is the first byte as it stands, in percent.
pub proof fn law_shutter_level(eoj: Seq<u8>, edt: Seq<u8>)
    requires
        eoj[0] == 0x02,
        eoj[1] == 0x63,
    ensures
        edt.len() > 0 ==> properties::decoded(eoj, 0xE1, edt) == Some(
            Json::Obj(map!["open_level_percent"@ => Json::Int(edt[0] as int)]),
        ),
        edt.len() == 0 ==> properties::decoded(eoj, 0xE1, edt) is None,
{
}

/// The temperature that an air conditioner is set to is the first byte as it stands; 0xFD means that
/// it is not known.
pub proof fn law_target_temperature(eoj: Seq<u8>, edt: Seq<u8>)
    requires
        eoj[0] == 0x01,
        eoj[1] == 0x30,
    ensures
        edt.len() > 0 ==> properties::decoded(eoj, 0xB3, edt) == Some(
            Json::Obj(
                map![
                    "temp_setpoint_c"@ => if edt[0] == 0xFD {
                        Json::Null
                    } else {
                        Json::Int(edt[0] as int)
                    },
                ],
            ),
        ),
        edt.len() == 0 ==> properties::decoded(eoj, 0xB3, edt) is None,
{
}

/// The temperature of the room is the first byte as a signed number: the one number from -128 to 127
/// that agrees with the byte modulo 256.
pub proof fn law_room_temperature(eoj: Seq<u8>, edt: Seq<u8>, degrees: int)
    requires
        eoj[0] == 0x01,
        eoj[1] == 0x30,
    ensures
        edt.len() > 0 && -128 <= degrees <= 127 && (degrees - edt[0]) % 256 == 0
            ==> properties::decoded(eoj, 0xBB, edt) == Some(
            Json::Obj(map!["room_temp_c"@ => Json::Int(degrees)]),
        ),
        edt.len() == 0 ==> properties::decoded(eoj, 0xBB, edt) is None,
{
}

/// The air flow is `auto` for the byte 0x41 and a level from 1 to 8 for the bytes 0x31 to 0x38. Any
/// other byte stays raw.
pub proof fn law_air_flow(eoj: Seq<u8>, edt: Seq<u8>, level: int)
    requires
        eoj[0] == 0x01,
        eoj[1] == 0x30,
    ensures
        edt.len() > 0 && edt[0] == 0x41 ==> properties::decoded(eoj, 0xA0, edt) == Some(
            Json::Obj(map!["air_flow"@ => Json::Str("auto"@)]),
        ),
        edt.len() > 0 && 1 <= level <= 8 && edt[0] == 0x30 + level ==> properties::decoded(
            eoj,
            0xA0,
            edt,
        ) == Some(Json::Obj(map!["air_flow_level"@ => Json::Int(level)])),
        edt.len() == 0 || (edt[0] != 0x41 && !(0x31 <= edt[0] <= 0x38)) ==> properties::decoded(
            eoj,
            0xA0,
            edt,
        ) is None,
{
}

// ───────────────────────── what all devices share ─────────────────────────

/// The standard version takes four bytes. A node profile (class 0xF0 of group 0x0E) gives its
/// version, major and minor, from the first two and the message format from the third; any other
/// object gives its release from the third, where that is a visible ASCII character, and its
/// revision from the fourth.
pub proof fn law_version(eoj: Seq<u8>, edt: Seq<u8>)
    ensures
        edt.len() < 4 ==> properties::decoded(eoj, 0x82, edt) is None,
        edt.len() >= 4 && eoj[0] == 0x0E && eoj[1] == 0xF0 ==> properties::decoded(eoj, 0x82, edt)
            == Some(
            Json::Obj(
                map![
                    "protocol_version"@ => Json::Str(
                        text::decimal(edt[0] as nat) + seq!['.'] + text::decimal(edt[1] as nat),
                    ),
                    "message_format"@ => Json::Str(
                        if edt[2] == 0x01 {
                            "specified"@
                        } else if edt[2] == 0x02 {
                            "arbitrary"@
                        } else {
                            "unknown"@
                        },
                    ),
                ],
            ),
        ),
        edt.len() >= 4 && !(eoj[0] == 0x0E && eoj[1] == 0xF0) && 0x21 <= edt[2] <= 0x7E
            ==> properties::decoded(eoj, 0x82, edt) == Some(
            Json::Obj(
                map![
                    "release"@ => Json::Str(seq![edt[2] as char]),
                    "revision"@ => Json::Int(edt[3] as int),
                ],
            ),
        ),
        edt.len() >= 4 && !(eoj[0] == 0x0E && eoj[1] == 0xF0) && !(0x21 <= edt[2] <= 0x7E)
            ==> properties::decoded(eoj, 0x82, edt) is None,
{
    reveal_strlit(".");
    assert("."@ =~= seq!['.']);
}

/// The manufacturer takes three bytes. Their digits are always given; the name is added for the
/// codes that have one, all of them below 0x100.
pub proof fn law_manufacturer(eoj: Seq<u8>, edt: Seq<u8>)
    ensures
        properties::decoded(eoj, 0x8A, edt) is Some <==> edt.len() == 3,
        edt.len() == 3 ==> ({
            let members = properties::decoded(eoj, 0x8A, edt)->0->Obj_0;
            let known = |low: u8, name: Seq<char>|
                edt[0] == 0 && edt[1] == 0 && edt[2] == low ==> members.contains_key(
                    "manufacturer"@,
                ) && members["manufacturer"@] == Json::Str(name);
            &&& properties::decoded(eoj, 0x8A, edt)->0 is Obj
            &&& members.contains_key("manufacturer_code"@) && members["manufacturer_code"@]
                == Json::Str(
                text::upper_hex(edt[0]) + text::upper_hex(edt[1]) + text::upper_hex(edt[2]),
            )
            &&& known(0x05, "シャープ"@)
            &&& known(0x06, "三菱電機"@)
            &&& known(0x08, "ダイキン工業"@)
            &&& known(0x0B, "パナソニック"@)
            &&& known(0x16, "東芝"@)
            &&& known(0x22, "日立グローバルライフソリューションズ"@)
            &&& known(0x3B, "京セラ"@)
            &&& known(0x3C, "デンソー"@)
            &&& known(0x3D, "住友電気工業"@)
            &&& known(0x4E, "富士通"@)
            &&& known(0x54, "ノーリツ"@)
            &&& known(0x59, "リンナイ"@)
            &&& known(0x64, "オムロン ソーシアルソリューションズ"@)
            &&& known(0x67, "コロナ"@)
            &&& known(0x69, "東芝ライフスタイル"@)
            &&& known(0x6C, "ニチコン"@)
            &&& known(0xC5, "三和シヤッター工業"@)
            &&& members.contains_key("manufacturer"@) ==> edt[0] == 0 && edt[1] == 0 && seq![
                0x05u8,
                0x06,
                0x08,
                0x0B,
                0x16,
                0x22,
                0x3B,
                0x3C,
                0x3D,
                0x4E,
                0x54,
                0x59,
                0x64,
                0x67,
                0x69,
                0x6C,
                0xC5,
            ].contains(edt[2])
            &&& forall|key: Seq<char>| #[trigger]
                members.contains_key(key) ==> key == "manufacturer_code"@ || key
                    == "manufacturer"@
        }),
{
    reveal_strlit("manufacturer_code");
    reveal_strlit("manufacturer");
    assert("manufacturer_code"@.len() == 17 && "manufacturer"@.len() == 12);
    if edt.len() == 3 && properties::maker(edt[0] * 65536 + edt[1] * 256 + edt[2]) is Some {
        let known = seq![
            0x05u8,
            0x06,
            0x08,
            0x0B,
            0x16,
            0x22,
            0x3B,
            0x3C,
            0x3D,
            0x4E,
            0x54,
            0x59,
            0x64,
            0x67,
            0x69,
            0x6C,
            0xC5,
        ];
        assert(edt[0] == 0 && edt[1] == 0);
        assert(known[0] == 0x05 && known[1] == 0x06 && known[2] == 0x08 && known[3] == 0x0B);
        assert(known[4] == 0x16 && known[5] == 0x22 && known[6] == 0x3B && known[7] == 0x3C);
        assert(known[8] == 0x3D && known[9] == 0x4E && known[10] == 0x54 && known[11] == 0x59);
        assert(known[12] == 0x64 && known[13] == 0x67 && known[14] == 0x69 && known[15] == 0x6C);
        assert(known[16] == 0xC5);
    }
}

/// A property map decodes to the digits of the EPCs that it lists, in their order; one that cannot
/// be read stays raw.
pub proof fn law_map_decoding(eoj: Seq<u8>, epc: u8, edt: Seq<u8>)
    requires
        epc == 0x9D || epc == 0x9E || epc == 0x9F,
    ensures
        match properties::map_epcs(edt) {
            None => properties::decoded(eoj, epc, edt) is None,
            Some(epcs) => {
                let list = properties::decoded(eoj, epc, edt)->0->Obj_0["property_map"@]->Arr_0;
                &&& properties::decoded(eoj, epc, edt) == Some(
                    Json::Obj(map!["property_map"@ => Json::Arr(list)]),
                )
                &&& list.len() == epcs.len()
                &&& forall|i: int|
                    0 <= i < list.len() ==> #[trigger] list[i] == Json::Str(
                        text::upper_hex(epcs[i]),
                    )
            },
        },
{
}

/// The instance list of a node profile announces a number of objects in its first byte. It decodes
/// to that number and to the objects, three bytes each from the second byte on: all of them, or
/// those that are there in full.
pub proof fn law_instance_list(eoj: Seq<u8>, edt: Seq<u8>)
    requires
        eoj[0] == 0x0E,
        eoj[1] == 0xF0,
    ensures
        edt.len() == 0 ==> properties::decoded(eoj, 0xD6, edt) is None,
        edt.len() > 0 ==> ({
            let list = properties::decoded(eoj, 0xD6, edt)->0->Obj_0["instances"@]->Arr_0;
            &&& properties::decoded(eoj, 0xD6, edt) == Some(
                Json::Obj(
                    map!["count"@ => Json::Int(edt[0] as int), "instances"@ => Json::Arr(list)],
                ),
            )
            &&& list.len() <= edt[0]
            &&& 1 + 3 * list.len() <= edt.len()
            &&& list.len() == edt[0] || 1 + 3 * (list.len() + 1) > edt.len()
            &&& forall|i: int|
                0 <= i < list.len() ==> #[trigger] list[i] == Json::Str(
                    text::lower_hex(seq![edt[1 + 3 * i], edt[2 + 3 * i], edt[3 + 3 * i]]),
                )
        }),
{
    if edt.len() > 0 {
        let list = properties::decoded(eoj, 0xD6, edt)->0->Obj_0["instances"@]->Arr_0;
        reveal_strlit("count");
        reveal_strlit("instances");
        assert("count"@.len() == 5 && "instances"@.len() == 9);
        assert forall|i: int| 0 <= i < list.len() implies #[trigger] list[i] == Json::Str(
            text::lower_hex(seq![edt[1 + 3 * i], edt[2 + 3 * i], edt[3 + 3 * i]]),
        ) by {
            assert(edt.subrange(1 + 3 * i, 4 + 3 * i) =~= seq![
                edt[1 + 3 * i],
                edt[2 + 3 * i],
                edt[3 + 3 * i],
            ]);
        }
    }
}

/// Nothing else is decoded.
pub proof fn law_else_raw(eoj: Seq<u8>, epc: u8, edt: Seq<u8>)
    requires
        properties::decoded(eoj, epc, edt) is Some,
    ensures
        ({
            ||| epc == 0x80 || epc == 0x82 || epc == 0x8A || epc == 0x9D || epc == 0x9E || epc
                == 0x9F
            ||| eoj[0] == 0x01 && eoj[1] == 0x30 && (epc == 0xA0 || epc == 0xB0 || epc == 0xB3 || epc
                == 0xBB)
            ||| eoj[0] == 0x02 && eoj[1] == 0x63 && (epc == 0xE0 || epc == 0xE1 || epc == 0xEA)
            ||| eoj[0] == 0x0E && eoj[1] == 0xF0 && epc == 0xD6
        }),
{
}

// ───────────────────────── property maps ─────────────────────────

/// In the bitmap of a property map, bit `b` of byte `i` after the count stands for the EPC
/// `(b + 8) * 16 + i`: it is listed exactly if the bit is set.
pub proof fn law_bitmap_bit(edt: Seq<u8>, i: int, b: u8)
    requires
        edt.len() >= 17,
        edt[0] >= 16,
        0 <= i < 16,
        b < 8,
    ensures
        properties::map_epcs(edt) is Some,
        properties::map_epcs(edt)->0.contains(((b + 8) * 16 + i) as u8) <==> edt[1 + i] & (1u8 << b)
            != 0,
{
    let bitmap = edt.subrange(1, 17);
    let epc = ((b + 8) * 16 + i) as u8;
    property_laws::lemma_all_epcs();
    property_laws::lemma_filter_ascending(
        properties::all_epcs(),
        |e: u8| properties::lists(bitmap, e),
    );
    assert(properties::all_epcs().contains(epc));
    assert(epc % 16 == i && epc / 16 - 8 == b);
    assert(bitmap[i] == edt[1 + i]);
}

/// A property map with a count below 16 lists the bytes after the count, one by one; it can be read
/// exactly if there are that many. From 16 on, it can be read exactly if 16 bytes follow the count.
pub proof fn law_map_readable(edt: Seq<u8>)
    ensures
        properties::map_epcs(edt) is Some <==> edt.len() > 0 && (if edt[0] < 16 {
            edt.len() > edt[0]
        } else {
            edt.len() > 16
        }),
        properties::map_epcs(edt) is Some && edt[0] < 16 ==> ({
            let epcs = properties::map_epcs(edt)->0;
            &&& epcs.len() == edt[0]
            &&& forall|i: int| 0 <= i < epcs.len() ==> #[trigger] epcs[i] == edt[1 + i]
        }),
{
}

/// A property map is written as its count and, below 16 EPCs, the EPCs one by one. From 16 on 16
/// bytes follow the count, in which bit `b` of byte `i` is set exactly if the EPC `(b + 8) * 16 + i`
/// is one of them.
pub proof fn law_map_written(epcs: Seq<u8>, i: int, b: u8)
    requires
        0 <= i < 16,
        b < 8,
    ensures
        ({
            let out = properties::property_map_bytes(epcs);
            &&& out[0] as int == epcs.len() % 256
            &&& epcs.len() < 16 ==> out.len() == 1 + epcs.len() && out.skip(1) == epcs
            &&& epcs.len() >= 16 ==> out.len() == 17 && (out[1 + i] & (1u8 << b) != 0
                <==> epcs.contains(((b + 8) * 16 + i) as u8))
        }),
{
    let out = properties::property_map_bytes(epcs);
    if epcs.len() < 16 {
        assert(out.skip(1) =~= epcs);
    } else {
        properties::lemma_bits_of_byte(|bit: u8| epcs.contains(properties::epc_at(i, bit)), b);
        assert(out[1 + i] == properties::bitmap_of(epcs)[i]);
    }
}

// ───────────────────────── one property ─────────────────────────

/// A property in JSON holds its EPC in digits, its length and its data in digits. It has a name
/// exactly if its EPC has one, and a value exactly if its data can be decoded, and nothing else.
pub proof fn law_property_members(eoj: Seq<u8>, epc: u8, edt: Seq<u8>)
    ensures
        ({
            let members = properties::property_members(eoj, epc, edt);
            let name = properties::name_in(properties::names_of(eoj), epc);
            let value = properties::decoded(eoj, epc, edt);
            &&& members.contains_key("epc"@) && members["epc"@] == Json::Str(text::upper_hex(epc))
            &&& members.contains_key("pdc"@) && members["pdc"@] == Json::Int(edt.len() as int)
            &&& members.contains_key("edt_hex"@) && members["edt_hex"@] == Json::Str(
                text::lower_hex(edt),
            )
            &&& members.contains_key("name"@) <==> name is Some
            &&& name is Some ==> members["name"@] == Json::Str(name->0)
            &&& members.contains_key("value"@) <==> value is Some
            &&& value is Some ==> members["value"@] == value->0
            &&& members.dom().subset_of(set!["epc"@, "pdc"@, "edt_hex"@, "name"@, "value"@])
        }),
{
    property_laws::lemma_property_keys();
}

/// An entry of a property map in JSON holds the digits of its EPC. It has a name exactly if its EPC
/// has one, and values exactly if its EPC has a range, and nothing else.
pub proof fn law_map_entry(eoj: Seq<u8>, epc: u8)
    ensures
        ({
            let members = properties::map_entry(eoj, epc)->Obj_0;
            let name = properties::name_in(properties::names_of(eoj), epc);
            let range = properties::range_json(eoj, epc);
            &&& properties::map_entry(eoj, epc) is Obj
            &&& members.contains_key("epc"@) && members["epc"@] == Json::Str(text::upper_hex(epc))
            &&& members.contains_key("name"@) <==> name is Some
            &&& name is Some ==> members["name"@] == Json::Str(name->0)
            &&& members.contains_key("values"@) <==> range is Some
            &&& range is Some ==> members["values"@] == range->0
            &&& members.dom().subset_of(set!["epc"@, "name"@, "values"@])
        }),
{
    property_laws::lemma_property_keys();
    reveal_strlit("epc");
    reveal_strlit("name");
    reveal_strlit("values");
    assert("epc"@.len() == 3 && "name"@.len() == 4 && "values"@.len() == 6);
}

} // verus!
