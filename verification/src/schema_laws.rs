//! What each schema lets pass: exactly which members, and of which types.

use vstd::prelude::*;
use vstd::string::*;

use crate::conformance::{self, conforms, fits};
use crate::json::{self, Json};
use crate::schema;

verus! {

broadcast use vstd::string::group_string_axioms;

/// The member is a string, where it is there.
pub open spec fn text_at(v: Map<Seq<char>, Json>, key: Seq<char>) -> bool {
    v.contains_key(key) ==> v[key] is Str
}

/// The keys that the schemas speak of can be told apart.
proof fn lemma_schema_keys()
    ensures
        "ip"@.len() == 2,
        "epc"@.len() == 3 && "epc"@[0] == 'e' && "epc"@[1] == 'p',
        "pdc"@.len() == 3 && "pdc"@[0] == 'p',
        "tid"@.len() == 3 && "tid"@[0] == 't',
        "eoj"@.len() == 3 && "eoj"@[0] == 'e' && "eoj"@[1] == 'o',
        "esv"@.len() == 3 && "esv"@[0] == 'e' && "esv"@[1] == 's',
        "name"@.len() == 4 && "name"@[0] == 'n',
        "ehd2"@.len() == 4 && "ehd2"@[0] == 'e',
        "seoj"@.len() == 4 && "seoj"@[0] == 's',
        "deoj"@.len() == 4 && "deoj"@[0] == 'd',
        "value"@.len() == 5 && "value"@[0] == 'v',
        "count"@.len() == 5 && "count"@[0] == 'c',
        "frame"@.len() == 5 && "frame"@[0] == 'f',
        "values"@.len() == 6 && "values"@[0] == 'v',
        "result"@.len() == 6 && "result"@[0] == 'r',
        "format"@.len() == 6 && "format"@[0] == 'f',
        "edt_hex"@.len() == 7 && "edt_hex"@[0] == 'e',
        "get_map"@.len() == 7 && "get_map"@[0] == 'g',
        "set_map"@.len() == 7 && "set_map"@[0] == 's',
        "inf_map"@.len() == 7 && "inf_map"@[0] == 'i',
        "sent_hex"@.len() == 8,
        "instances"@.len() == 9,
        "properties"@.len() == 10,
        "parse_error"@.len() == 11,
        "response_hex"@.len() == 12,
        "set_properties"@.len() == 14 && "set_properties"@[0] == 's',
        "get_properties"@.len() == 14 && "get_properties"@[0] == 'g',
{
    reveal_strlit("ip");
    reveal_strlit("epc");
    reveal_strlit("pdc");
    reveal_strlit("tid");
    reveal_strlit("eoj");
    reveal_strlit("esv");
    reveal_strlit("name");
    reveal_strlit("ehd2");
    reveal_strlit("seoj");
    reveal_strlit("deoj");
    reveal_strlit("value");
    reveal_strlit("count");
    reveal_strlit("frame");
    reveal_strlit("values");
    reveal_strlit("result");
    reveal_strlit("format");
    reveal_strlit("edt_hex");
    reveal_strlit("get_map");
    reveal_strlit("set_map");
    reveal_strlit("inf_map");
    reveal_strlit("sent_hex");
    reveal_strlit("instances");
    reveal_strlit("properties");
    reveal_strlit("parse_error");
    reveal_strlit("response_hex");
    reveal_strlit("set_properties");
    reveal_strlit("get_properties");
}

/// Exactly the strings conform to the schema of strings.
proof fn lemma_text(d: Seq<char>, value: Json)
    ensures
        conforms(schema::typed("string"@), value) <==> value is Str,
        conforms(schema::described("string"@, d), value) <==> value is Str,
{
    conformance::lemma_types();
    conformance::lemma_typed("string"@, value);
    conformance::lemma_described("string"@, d, value);
}

/// Exactly the integers conform to the schema of integers.
proof fn lemma_integer(d: Seq<char>, value: Json)
    ensures
        conforms(schema::described("integer"@, d), value) <==> value is Int,
{
    conformance::lemma_types();
    conformance::lemma_described("integer"@, d, value);
}

// ───────────────────────── properties ─────────────────────────

/// What a property looks like: its EPC and its data as strings and its length as an integer are
/// there, a name is a string, a value may be anything, and there is nothing else.
pub open spec fn property_shape(value: Json) -> bool {
    let v = value->Obj_0;
    &&& value is Obj
    &&& v.contains_key("epc"@) && v["epc"@] is Str
    &&& v.contains_key("pdc"@) && v["pdc"@] is Int
    &&& v.contains_key("edt_hex"@) && v["edt_hex"@] is Str
    &&& text_at(v, "name"@)
    &&& v.dom().subset_of(set!["epc"@, "name"@, "pdc"@, "edt_hex"@, "value"@])
}

/// What a list of properties looks like.
pub open spec fn properties_shape(value: Json) -> bool {
    value is Arr && forall|i: int|
        0 <= i < value->Arr_0.len() ==> property_shape(#[trigger] value->Arr_0[i])
}

/// Exactly what looks like a property conforms to the schema of a property.
pub proof fn law_property_schema(value: Json)
    ensures
        conforms(schema::property_schema(), value) <==> property_shape(value),
{
    let v = value->Obj_0;
    let p = map![
        "epc"@ => schema::described("string"@, "EPC (2 hex 桁, 大文字)"@),
        "name"@ => schema::described("string"@, "既知 EPC の正規名 (辞書にある場合のみ)"@),
        "pdc"@ => schema::described("integer"@, "EDT のバイト長"@),
        "edt_hex"@ => schema::described("string"@, "EDT の生 hex (常に存在しロスレス)"@),
        "value"@ => schema::any_value(),
    ];
    let required = seq!["epc"@, "pdc"@, "edt_hex"@];
    lemma_schema_keys();
    lemma_text("EPC (2 hex 桁, 大文字)"@, v["epc"@]);
    lemma_text("既知 EPC の正規名 (辞書にある場合のみ)"@, v["name"@]);
    lemma_integer("EDT のバイト長"@, v["pdc"@]);
    lemma_text("EDT の生 hex (常に存在しロスレス)"@, v["edt_hex"@]);
    conformance::lemma_any_value(v["value"@]);
    conformance::lemma_closed_exact(p, required, value);
    assert(required[0] == "epc"@ && required[1] == "pdc"@ && required[2] == "edt_hex"@);
    if value is Obj && fits(p, required, v) {
        assert(v.dom().subset_of(set!["epc"@, "name"@, "pdc"@, "edt_hex"@, "value"@]));
    }
    if property_shape(value) {
        assert forall|k: Seq<char>| #[trigger] v.contains_key(k) implies p.contains_key(k)
            && conforms(p[k], v[k]) by {
            assert(v.dom().contains(k));
        }
        assert(fits(p, required, v));
    }
}

/// Exactly what looks like a list of properties conforms to the schema of such a list.
proof fn lemma_properties(value: Json)
    ensures
        conforms(schema::array_of(schema::property_schema()), value) <==> properties_shape(value),
{
    conformance::lemma_array(schema::property_schema(), value);
    if value is Arr {
        let list = value->Arr_0;
        assert forall|i: int| 0 <= i < list.len() implies conforms(
            schema::property_schema(),
            #[trigger] list[i],
        ) == property_shape(list[i]) by {
            law_property_schema(list[i]);
        }
    }
}

// ───────────────────────── get and set ─────────────────────────

/// Exactly the objects with an address, an object, a service and a list of properties conform to the
/// schema of `get`.
pub proof fn law_get_schema(value: Json)
    ensures
        conforms(schema::get_schema(), value) <==> ({
            let v = value->Obj_0;
            &&& value is Obj
            &&& v.dom() =~= set!["ip"@, "eoj"@, "esv"@, "properties"@]
            &&& v["ip"@] is Str
            &&& v["eoj"@] is Str
            &&& v["esv"@] is Str
            &&& properties_shape(v["properties"@])
        }),
{
    let v = value->Obj_0;
    let p = map![
        "ip"@ => schema::typed("string"@),
        "eoj"@ => schema::described("string"@, "EOJ (6 hex 桁)"@),
        "esv"@ => schema::described("string"@, "応答 ESV 名 (例 Get_Res)"@),
        "properties"@ => schema::array_of(schema::property_schema()),
    ];
    let required = seq!["ip"@, "eoj"@, "esv"@, "properties"@];
    lemma_schema_keys();
    lemma_text("EOJ (6 hex 桁)"@, v["ip"@]);
    lemma_text("EOJ (6 hex 桁)"@, v["eoj"@]);
    lemma_text("応答 ESV 名 (例 Get_Res)"@, v["esv"@]);
    lemma_properties(v["properties"@]);
    conformance::lemma_output_exact("enl get output"@, p, required, value);
    assert(required[0] == "ip"@ && required[1] == "eoj"@ && required[2] == "esv"@);
    assert(required[3] == "properties"@);
    if value is Obj && v.dom() =~= set!["ip"@, "eoj"@, "esv"@, "properties"@] {
        assert(v.contains_key("ip"@) && v.contains_key("eoj"@) && v.contains_key("esv"@));
        assert(v.contains_key("properties"@));
    }
}

/// Exactly the objects with an address, an object, a service, a result that is `accepted` or `sent`,
/// and a list of properties conform to the schema of `set`.
pub proof fn law_set_schema(value: Json)
    ensures
        conforms(schema::set_schema(), value) <==> ({
            let v = value->Obj_0;
            &&& value is Obj
            &&& v.dom() =~= set!["ip"@, "eoj"@, "esv"@, "result"@, "properties"@]
            &&& v["ip"@] is Str
            &&& v["eoj"@] is Str
            &&& v["esv"@] is Str
            &&& v["result"@] == Json::Str("accepted"@) || v["result"@] == Json::Str("sent"@)
            &&& properties_shape(v["properties"@])
        }),
{
    let v = value->Obj_0;
    let p = map![
        "ip"@ => schema::typed("string"@),
        "eoj"@ => schema::described("string"@, "EOJ (6 hex 桁)"@),
        "esv"@ => schema::described(
            "string"@,
            "ESV 名 (SetC 応答時 SetRes / --nowait 時 SetI)"@,
        ),
        "result"@ => schema::write_result_schema(),
        "properties"@ => schema::array_of(schema::property_schema()),
    ];
    let required = seq!["ip"@, "eoj"@, "esv"@, "result"@, "properties"@];
    lemma_schema_keys();
    lemma_text("EOJ (6 hex 桁)"@, v["ip"@]);
    lemma_text("EOJ (6 hex 桁)"@, v["eoj"@]);
    lemma_text("ESV 名 (SetC 応答時 SetRes / --nowait 時 SetI)"@, v["esv"@]);
    lemma_write_result(v["result"@]);
    lemma_properties(v["properties"@]);
    conformance::lemma_output_exact("enl set output"@, p, required, value);
    assert(required[0] == "ip"@ && required[1] == "eoj"@ && required[2] == "esv"@);
    assert(required[3] == "result"@ && required[4] == "properties"@);
    if value is Obj && v.dom() =~= set!["ip"@, "eoj"@, "esv"@, "result"@, "properties"@] {
        assert(v.contains_key("ip"@) && v.contains_key("eoj"@) && v.contains_key("esv"@));
        assert(v.contains_key("result"@) && v.contains_key("properties"@));
    }
}

/// Exactly the two results conform to the schema of a result.
proof fn lemma_write_result(value: Json)
    ensures
        conforms(schema::write_result_schema(), value) <==> value == Json::Str("accepted"@) || value
            == Json::Str("sent"@),
{
    reveal(conforms);
    conformance::lemma_keywords();
    conformance::lemma_types();
    let list = json::strings(seq!["accepted"@, "sent"@])->Arr_0;
    assert(list[0] == Json::Str("accepted"@) && list[1] == Json::Str("sent"@));
    assert(list.len() == 2);
    if list.contains(value) {
        let i = choose|i: int| 0 <= i < list.len() && list[i] == value;
        assert(i == 0 || i == 1);
    }
}

// ───────────────────────── describe ─────────────────────────

/// What an entry of a property map looks like: its EPC as a string is there, a name is a string,
/// values are an object, and there is nothing else.
pub open spec fn entry_shape(value: Json) -> bool {
    let v = value->Obj_0;
    &&& value is Obj
    &&& v.contains_key("epc"@) && v["epc"@] is Str
    &&& text_at(v, "name"@)
    &&& v.contains_key("values"@) ==> v["values"@] is Obj
    &&& v.dom().subset_of(set!["epc"@, "name"@, "values"@])
}

/// What a property map looks like: a list of entries, or an object with its raw data alone.
pub open spec fn map_shape(value: Json) -> bool {
    ||| value is Arr && forall|i: int|
        0 <= i < value->Arr_0.len() ==> entry_shape(#[trigger] value->Arr_0[i])
    ||| value is Obj && value->Obj_0.dom() =~= set!["edt_hex"@] && value->Obj_0["edt_hex"@] is Str
}

/// Exactly what looks like an entry conforms to the schema of an entry.
proof fn lemma_entry(value: Json)
    ensures
        conforms(schema::map_entry_schema(), value) <==> entry_shape(value),
{
    let v = value->Obj_0;
    let about = "enum 型 EPC の値域 {hex: 意味名} (該当時のみ)"@;
    let p = map![
        "epc"@ => schema::described("string"@, "EPC (2 hex 桁, 大文字)"@),
        "name"@ => schema::described("string"@, "既知 EPC の正規名 (辞書にある場合のみ)"@),
        "values"@ => schema::described("object"@, about),
    ];
    let required = seq!["epc"@];
    lemma_schema_keys();
    lemma_text("EPC (2 hex 桁, 大文字)"@, v["epc"@]);
    lemma_text("既知 EPC の正規名 (辞書にある場合のみ)"@, v["name"@]);
    conformance::lemma_types();
    conformance::lemma_described("object"@, about, v["values"@]);
    conformance::lemma_closed_exact(p, required, value);
    assert(required[0] == "epc"@);
    if value is Obj && fits(p, required, v) {
        assert(v.dom().subset_of(set!["epc"@, "name"@, "values"@]));
    }
    if entry_shape(value) {
        assert forall|k: Seq<char>| #[trigger] v.contains_key(k) implies p.contains_key(k)
            && conforms(p[k], v[k]) by {
            assert(v.dom().contains(k));
        }
        assert(fits(p, required, v));
    }
}

/// Exactly what looks like a property map conforms to the schema of one.
pub proof fn law_map_schema(value: Json)
    ensures
        conforms(schema::map_value_schema(), value) <==> map_shape(value),
{
    let v = value->Obj_0;
    let p = map!["edt_hex"@ => schema::typed("string"@)];
    let required = seq!["edt_hex"@];
    conformance::lemma_closed_exact(p, required, value);
    lemma_text("EOJ (6 hex 桁)"@, v["edt_hex"@]);
    assert(required[0] == "edt_hex"@);
    if value is Obj && v.dom() =~= set!["edt_hex"@] {
        assert(v.contains_key("edt_hex"@));
    }
    conformance::lemma_array_or(schema::map_entry_schema(), schema::raw_map_schema(), value);
    conformance::lemma_array(schema::map_entry_schema(), value);
    if value is Arr {
        let list = value->Arr_0;
        assert forall|i: int| 0 <= i < list.len() implies conforms(
            schema::map_entry_schema(),
            #[trigger] list[i],
        ) == entry_shape(list[i]) by {
            lemma_entry(list[i]);
        }
    }
}

/// Exactly the objects with an address, an object and a service, and with no more than the three
/// property maps besides, conform to the schema of `describe`.
pub proof fn law_describe_schema(value: Json)
    ensures
        conforms(schema::describe_schema(), value) <==> ({
            let v = value->Obj_0;
            &&& value is Obj
            &&& v.contains_key("ip"@) && v["ip"@] is Str
            &&& v.contains_key("eoj"@) && v["eoj"@] is Str
            &&& v.contains_key("esv"@) && v["esv"@] is Str
            &&& v.contains_key("get_map"@) ==> map_shape(v["get_map"@])
            &&& v.contains_key("set_map"@) ==> map_shape(v["set_map"@])
            &&& v.contains_key("inf_map"@) ==> map_shape(v["inf_map"@])
            &&& v.dom().subset_of(
                set!["ip"@, "eoj"@, "esv"@, "get_map"@, "set_map"@, "inf_map"@],
            )
        }),
{
    let v = value->Obj_0;
    let all = set!["ip"@, "eoj"@, "esv"@, "get_map"@, "set_map"@, "inf_map"@];
    let p = map![
        "ip"@ => schema::typed("string"@),
        "eoj"@ => schema::described("string"@, "EOJ (6 hex 桁)"@),
        "esv"@ => schema::typed("string"@),
        "get_map"@ => schema::map_value_schema(),
        "set_map"@ => schema::map_value_schema(),
        "inf_map"@ => schema::map_value_schema(),
    ];
    let required = seq!["ip"@, "eoj"@, "esv"@];
    lemma_schema_keys();
    lemma_text("EOJ (6 hex 桁)"@, v["ip"@]);
    lemma_text("EOJ (6 hex 桁)"@, v["eoj"@]);
    lemma_text("EOJ (6 hex 桁)"@, v["esv"@]);
    law_map_schema(v["get_map"@]);
    law_map_schema(v["set_map"@]);
    law_map_schema(v["inf_map"@]);
    conformance::lemma_output_exact("enl describe output"@, p, required, value);
    assert(required[0] == "ip"@ && required[1] == "eoj"@ && required[2] == "esv"@);
    if value is Obj && fits(p, required, v) {
        assert(v.dom().subset_of(all));
    }
    if value is Obj && v.dom().subset_of(all) {
        assert(forall|k: Seq<char>| #[trigger] v.contains_key(k) ==> all.contains(k));
    }
}

// ───────────────────────── raw ─────────────────────────

/// What a frame looks like: its second header byte, its TID and its format are there, the format is
/// one of three, everything else is a string or a list of properties, and nothing else is there.
pub open spec fn frame_shape(value: Json) -> bool {
    let v = value->Obj_0;
    let list_at = |key: Seq<char>| v.contains_key(key) ==> properties_shape(v[key]);
    &&& value is Obj
    &&& v.contains_key("ehd2"@) && v["ehd2"@] is Str
    &&& v.contains_key("tid"@) && v["tid"@] is Str
    &&& v.contains_key("format"@)
    &&& v["format"@] == Json::Str("standard"@) || v["format"@] == Json::Str("setget"@)
        || v["format"@] == Json::Str("arbitrary"@)
    &&& text_at(v, "seoj"@)
    &&& text_at(v, "deoj"@)
    &&& text_at(v, "esv"@)
    &&& text_at(v, "edt_hex"@)
    &&& list_at("properties"@)
    &&& list_at("set_properties"@)
    &&& list_at("get_properties"@)
    &&& v.dom().subset_of(
        set![
            "ehd2"@,
            "tid"@,
            "format"@,
            "seoj"@,
            "deoj"@,
            "esv"@,
            "properties"@,
            "set_properties"@,
            "get_properties"@,
            "edt_hex"@,
        ],
    )
}

/// Exactly the three formats conform to the schema of a format.
proof fn lemma_format(value: Json)
    ensures
        conforms(schema::format_schema(), value) <==> value == Json::Str("standard"@) || value
            == Json::Str("setget"@) || value == Json::Str("arbitrary"@),
{
    let choices = seq!["standard"@, "setget"@, "arbitrary"@];
    conformance::lemma_choice_exact(choices, value);
    assert(choices[0] == "standard"@ && choices[1] == "setget"@ && choices[2] == "arbitrary"@);
    if value is Str && choices.contains(value->Str_0) {
        let i = choose|i: int| 0 <= i < choices.len() && choices[i] == value->Str_0;
        assert(i == 0 || i == 1 || i == 2);
    }
}

/// Exactly what looks like a frame conforms to the schema of a frame.
pub proof fn law_frame_schema(value: Json)
    ensures
        conforms(schema::frame_schema(), value) <==> frame_shape(value),
{
    let v = value->Obj_0;
    let list = schema::array_of(schema::property_schema());
    let p = map![
        "ehd2"@ => schema::described("string"@, "EHD2 (2 hex 桁)"@),
        "tid"@ => schema::described("string"@, "TID (4 hex 桁)"@),
        "format"@ => schema::format_schema(),
        "seoj"@ => schema::typed("string"@),
        "deoj"@ => schema::typed("string"@),
        "esv"@ => schema::typed("string"@),
        "properties"@ => list,
        "set_properties"@ => list,
        "get_properties"@ => list,
        "edt_hex"@ => schema::described("string"@, "arbitrary 形式 (EHD2=0x82) の生 hex"@),
    ];
    let required = seq!["ehd2"@, "tid"@, "format"@];
    let all = set![
        "ehd2"@,
        "tid"@,
        "format"@,
        "seoj"@,
        "deoj"@,
        "esv"@,
        "properties"@,
        "set_properties"@,
        "get_properties"@,
        "edt_hex"@,
    ];
    lemma_schema_keys();
    lemma_text("EHD2 (2 hex 桁)"@, v["ehd2"@]);
    lemma_text("TID (4 hex 桁)"@, v["tid"@]);
    lemma_format(v["format"@]);
    lemma_text("TID (4 hex 桁)"@, v["seoj"@]);
    lemma_text("TID (4 hex 桁)"@, v["deoj"@]);
    lemma_text("TID (4 hex 桁)"@, v["esv"@]);
    lemma_text("arbitrary 形式 (EHD2=0x82) の生 hex"@, v["edt_hex"@]);
    lemma_properties(v["properties"@]);
    lemma_properties(v["set_properties"@]);
    lemma_properties(v["get_properties"@]);
    conformance::lemma_closed_exact(p, required, value);
    assert(required[0] == "ehd2"@ && required[1] == "tid"@ && required[2] == "format"@);
    if value is Obj && fits(p, required, v) {
        assert(v.dom().subset_of(all));
    }
    if value is Obj && v.dom().subset_of(all) {
        assert(forall|k: Seq<char>| #[trigger] v.contains_key(k) ==> all.contains(k));
    }
}

/// Exactly the objects with an address, the bytes that were sent and the bytes that came back, and
/// with no more than a frame and an error besides, conform to the schema of `raw`.
pub proof fn law_raw_schema(value: Json)
    ensures
        conforms(schema::raw_schema(), value) <==> ({
            let v = value->Obj_0;
            &&& value is Obj
            &&& v.contains_key("ip"@) && v["ip"@] is Str
            &&& v.contains_key("sent_hex"@) && v["sent_hex"@] is Str
            &&& v.contains_key("response_hex"@) && v["response_hex"@] is Str
            &&& v.contains_key("frame"@) ==> frame_shape(v["frame"@])
            &&& text_at(v, "parse_error"@)
            &&& v.dom().subset_of(
                set!["ip"@, "sent_hex"@, "response_hex"@, "frame"@, "parse_error"@],
            )
        }),
{
    let v = value->Obj_0;
    let all = set!["ip"@, "sent_hex"@, "response_hex"@, "frame"@, "parse_error"@];
    let p = map![
        "ip"@ => schema::typed("string"@),
        "sent_hex"@ => schema::described("string"@, "送信フレームの生 hex"@),
        "response_hex"@ => schema::described("string"@, "応答の生 hex (SNA 含め常に存在)"@),
        "frame"@ => schema::frame_schema(),
        "parse_error"@ => schema::described("string"@, "応答をパースできなかった場合のみ"@),
    ];
    let required = seq!["ip"@, "sent_hex"@, "response_hex"@];
    lemma_schema_keys();
    lemma_text("送信フレームの生 hex"@, v["ip"@]);
    lemma_text("送信フレームの生 hex"@, v["sent_hex"@]);
    lemma_text("応答の生 hex (SNA 含め常に存在)"@, v["response_hex"@]);
    lemma_text("応答をパースできなかった場合のみ"@, v["parse_error"@]);
    law_frame_schema(v["frame"@]);
    conformance::lemma_output_exact("enl raw output"@, p, required, value);
    assert(required[0] == "ip"@ && required[1] == "sent_hex"@);
    assert(required[2] == "response_hex"@);
    if value is Obj && fits(p, required, v) {
        assert(v.dom().subset_of(all));
    }
    if value is Obj && v.dom().subset_of(all) {
        assert(forall|k: Seq<char>| #[trigger] v.contains_key(k) ==> all.contains(k));
    }
}

// ───────────────────────── listen and discover ─────────────────────────

/// What a notification looks like: an address, a TID, a sender, a receiver, one of two services and
/// a list of properties, and nothing else.
pub open spec fn event_shape(value: Json) -> bool {
    let v = value->Obj_0;
    &&& value is Obj
    &&& v.dom() =~= set!["ip"@, "tid"@, "seoj"@, "deoj"@, "esv"@, "properties"@]
    &&& v["ip"@] is Str
    &&& v["tid"@] is Str
    &&& v["seoj"@] is Str
    &&& v["deoj"@] is Str
    &&& v["esv"@] == Json::Str("Inf"@) || v["esv"@] == Json::Str("InfC"@)
    &&& properties_shape(v["properties"@])
}

/// Exactly the two services conform to the schema of the service of a notification.
proof fn lemma_notification(value: Json)
    ensures
        conforms(schema::notification_schema(), value) <==> value == Json::Str("Inf"@) || value
            == Json::Str("InfC"@),
{
    let choices = seq!["Inf"@, "InfC"@];
    conformance::lemma_choice_exact(choices, value);
    assert(choices[0] == "Inf"@ && choices[1] == "InfC"@);
    if value is Str && choices.contains(value->Str_0) {
        let i = choose|i: int| 0 <= i < choices.len() && choices[i] == value->Str_0;
        assert(i == 0 || i == 1);
    }
}

/// Exactly what looks like a notification conforms to the schema of one.
proof fn lemma_event(value: Json)
    ensures
        conforms(schema::event_schema(), value) <==> event_shape(value),
{
    let v = value->Obj_0;
    let all = set!["ip"@, "tid"@, "seoj"@, "deoj"@, "esv"@, "properties"@];
    let p = map![
        "ip"@ => schema::described("string"@, "通知の送信元 IP"@),
        "tid"@ => schema::described("string"@, "TID (4 hex 桁)"@),
        "seoj"@ => schema::described("string"@, "通知元 EOJ (6 hex 桁)"@),
        "deoj"@ => schema::typed("string"@),
        "esv"@ => schema::notification_schema(),
        "properties"@ => schema::array_of(schema::property_schema()),
    ];
    let required = seq!["ip"@, "tid"@, "seoj"@, "deoj"@, "esv"@, "properties"@];
    lemma_schema_keys();
    lemma_text("通知の送信元 IP"@, v["ip"@]);
    lemma_text("TID (4 hex 桁)"@, v["tid"@]);
    lemma_text("通知元 EOJ (6 hex 桁)"@, v["seoj"@]);
    lemma_text("TID (4 hex 桁)"@, v["deoj"@]);
    lemma_notification(v["esv"@]);
    lemma_properties(v["properties"@]);
    conformance::lemma_closed_exact(p, required, value);
    assert(required[0] == "ip"@ && required[1] == "tid"@ && required[2] == "seoj"@);
    assert(required[3] == "deoj"@ && required[4] == "esv"@ && required[5] == "properties"@);
    if value is Obj && v.dom() =~= all {
        assert(v.contains_key("ip"@) && v.contains_key("tid"@) && v.contains_key("seoj"@));
        assert(v.contains_key("deoj"@) && v.contains_key("esv"@));
        assert(v.contains_key("properties"@));
    }
}

/// Exactly the objects with a list of notifications, and nothing else, conform to the schema of
/// `listen`.
pub proof fn law_listen_schema(value: Json)
    ensures
        conforms(schema::listen_schema(), value) <==> ({
            let v = value->Obj_0;
            let list = v["events"@];
            &&& value is Obj
            &&& v.dom() =~= set!["events"@]
            &&& list is Arr
            &&& forall|i: int|
                0 <= i < list->Arr_0.len() ==> event_shape(#[trigger] list->Arr_0[i])
        }),
{
    let v = value->Obj_0;
    let list = v["events"@];
    let p = map!["events"@ => schema::array_of(schema::event_schema())];
    let required = seq!["events"@];
    conformance::lemma_output_exact("enl listen output"@, p, required, value);
    conformance::lemma_array(schema::event_schema(), list);
    assert(required[0] == "events"@);
    if list is Arr {
        assert forall|i: int| 0 <= i < list->Arr_0.len() implies conforms(
            schema::event_schema(),
            #[trigger] list->Arr_0[i],
        ) == event_shape(list->Arr_0[i]) by {
            lemma_event(list->Arr_0[i]);
        }
    }
    if value is Obj && v.dom() =~= set!["events"@] {
        assert(v.contains_key("events"@));
    }
}

/// What a node looks like: its address is there, a count is an integer, instances are strings, and
/// there is nothing else.
pub open spec fn device_shape(value: Json) -> bool {
    let v = value->Obj_0;
    &&& value is Obj
    &&& v.contains_key("ip"@) && v["ip"@] is Str
    &&& v.contains_key("count"@) ==> v["count"@] is Int
    &&& v.contains_key("instances"@) ==> v["instances"@] is Arr && forall|i: int|
        0 <= i < v["instances"@]->Arr_0.len() ==> (#[trigger] v["instances"@]->Arr_0[i]) is Str
    &&& v.dom().subset_of(set!["ip"@, "count"@, "instances"@])
}

/// Exactly what looks like a node conforms to the schema of one.
proof fn lemma_device(value: Json)
    ensures
        conforms(schema::device_schema(), value) <==> device_shape(value),
{
    let v = value->Obj_0;
    let all = set!["ip"@, "count"@, "instances"@];
    let name = schema::described("string"@, "EOJ (6 hex 桁)"@);
    let p = map![
        "ip"@ => schema::typed("string"@),
        "count"@ => schema::described("integer"@, "インスタンス数 (応答パース時のみ)"@),
        "instances"@ => schema::array_of(name),
    ];
    let required = seq!["ip"@];
    lemma_schema_keys();
    lemma_text("EOJ (6 hex 桁)"@, v["ip"@]);
    lemma_integer("インスタンス数 (応答パース時のみ)"@, v["count"@]);
    conformance::lemma_array(name, v["instances"@]);
    if v["instances"@] is Arr {
        let list = v["instances"@]->Arr_0;
        assert forall|i: int| 0 <= i < list.len() implies conforms(name, #[trigger] list[i]) == (
        list[i] is Str) by {
            lemma_text("EOJ (6 hex 桁)"@, list[i]);
        }
    }
    conformance::lemma_closed_exact(p, required, value);
    assert(required[0] == "ip"@);
    if value is Obj && fits(p, required, v) {
        assert(v.dom().subset_of(all));
    }
    if value is Obj && v.dom().subset_of(all) {
        assert(forall|k: Seq<char>| #[trigger] v.contains_key(k) ==> all.contains(k));
    }
}

/// Exactly the objects with a list of nodes, and nothing else, conform to the schema of `discover`.
pub proof fn law_discover_schema(value: Json)
    ensures
        conforms(schema::discover_schema(), value) <==> ({
            let v = value->Obj_0;
            let list = v["devices"@];
            &&& value is Obj
            &&& v.dom() =~= set!["devices"@]
            &&& list is Arr
            &&& forall|i: int|
                0 <= i < list->Arr_0.len() ==> device_shape(#[trigger] list->Arr_0[i])
        }),
{
    let v = value->Obj_0;
    let list = v["devices"@];
    let p = map!["devices"@ => schema::array_of(schema::device_schema())];
    let required = seq!["devices"@];
    conformance::lemma_output_exact("enl discover output"@, p, required, value);
    conformance::lemma_array(schema::device_schema(), list);
    assert(required[0] == "devices"@);
    if list is Arr {
        assert forall|i: int| 0 <= i < list->Arr_0.len() implies conforms(
            schema::device_schema(),
            #[trigger] list->Arr_0[i],
        ) == device_shape(list->Arr_0[i]) by {
            lemma_device(list->Arr_0[i]);
        }
    }
    if value is Obj && v.dom() =~= set!["devices"@] {
        assert(v.contains_key("devices"@));
    }
}

// ───────────────────────── words ─────────────────────────

/// The schema that a name stands for is that of the subcommand with this name: it has the dialect
/// and the title of its own. No name, or any other one, stands for all of them.
pub proof fn law_schema_titles(other: Seq<char>)
    ensures
        ({
            let titled = |name: Seq<char>, title: Seq<char>|
                {
                    let s = schema::schema_for(Some(name));
                    &&& s is Obj
                    &&& s->Obj_0.contains_key("title"@) && s->Obj_0["title"@] == Json::Str(title)
                    &&& s->Obj_0.contains_key("$schema"@) && s->Obj_0["$schema"@] == Json::Str(
                        "https://json-schema.org/draft/2020-12/schema"@,
                    )
                };
            &&& titled("discover"@, "enl discover output"@)
            &&& titled("get"@, "enl get output"@)
            &&& titled("set"@, "enl set output"@)
            &&& titled("describe"@, "enl describe output"@)
            &&& titled("raw"@, "enl raw output"@)
            &&& titled("listen"@, "enl listen output"@)
            &&& !set!["discover"@, "get"@, "set"@, "describe"@, "raw"@, "listen"@].contains(other)
                ==> schema::schema_for(Some(other)) == schema::schema_for(None)
        }),
{
    conformance::lemma_keywords();
    reveal_strlit("discover");
    reveal_strlit("get");
    reveal_strlit("set");
    reveal_strlit("describe");
    reveal_strlit("raw");
    reveal_strlit("listen");
    assert("get"@.len() == 3 && "set"@.len() == 3 && "raw"@.len() == 3);
    assert("get"@[0] != "set"@[0] && "get"@[0] != "raw"@[0] && "set"@[0] != "raw"@[0]);
    assert("discover"@.len() == 8 && "describe"@.len() == 8 && "discover"@[1] != "describe"@[1]);
    assert("listen"@.len() == 6);
}

/// The schema says of a member what it is.
pub open spec fn says(s: Json, key: Seq<char>, words: Seq<char>) -> bool {
    let member = s->Obj_0["properties"@]->Obj_0[key];
    member is Obj && member->Obj_0.contains_key("description"@)
        && member->Obj_0["description"@] == Json::Str(words)
}

/// What the schema of a property says of its members.
pub proof fn law_property_words()
    ensures
        says(schema::property_schema(), "epc"@, "EPC (2 hex 桁, 大文字)"@),
        says(schema::property_schema(), "name"@, "既知 EPC の正規名 (辞書にある場合のみ)"@),
        says(schema::property_schema(), "pdc"@, "EDT のバイト長"@),
        says(schema::property_schema(), "edt_hex"@, "EDT の生 hex (常に存在しロスレス)"@),
        says(
            schema::property_schema(),
            "value"@,
            "デコードできた場合のみ付加される人間可読値"@,
        ),
        says(schema::map_entry_schema(), "epc"@, "EPC (2 hex 桁, 大文字)"@),
        says(schema::map_entry_schema(), "name"@, "既知 EPC の正規名 (辞書にある場合のみ)"@),
        says(
            schema::map_entry_schema(),
            "values"@,
            "enum 型 EPC の値域 {hex: 意味名} (該当時のみ)"@,
        ),
{
    conformance::lemma_keywords();
    lemma_schema_keys();
}

/// What the schemas of the outputs say of their members.
pub proof fn law_output_words()
    ensures
        says(schema::get_schema(), "eoj"@, "EOJ (6 hex 桁)"@),
        says(schema::get_schema(), "esv"@, "応答 ESV 名 (例 Get_Res)"@),
        says(schema::set_schema(), "eoj"@, "EOJ (6 hex 桁)"@),
        says(
            schema::set_schema(),
            "esv"@,
            "ESV 名 (SetC 応答時 SetRes / --nowait 時 SetI)"@,
        ),
        says(
            schema::set_schema(),
            "result"@,
            "accepted=機器が受理を確認 (SetC) / sent=送信のみで実行未確認 (--nowait)"@,
        ),
        says(schema::describe_schema(), "eoj"@, "EOJ (6 hex 桁)"@),
        says(schema::raw_schema(), "sent_hex"@, "送信フレームの生 hex"@),
        says(schema::raw_schema(), "response_hex"@, "応答の生 hex (SNA 含め常に存在)"@),
        says(schema::raw_schema(), "parse_error"@, "応答をパースできなかった場合のみ"@),
        says(schema::frame_schema(), "ehd2"@, "EHD2 (2 hex 桁)"@),
        says(schema::frame_schema(), "tid"@, "TID (4 hex 桁)"@),
        says(schema::frame_schema(), "edt_hex"@, "arbitrary 形式 (EHD2=0x82) の生 hex"@),
        says(schema::event_schema(), "ip"@, "通知の送信元 IP"@),
        says(schema::event_schema(), "tid"@, "TID (4 hex 桁)"@),
        says(schema::event_schema(), "seoj"@, "通知元 EOJ (6 hex 桁)"@),
        says(schema::device_schema(), "count"@, "インスタンス数 (応答パース時のみ)"@),
{
    conformance::lemma_keywords();
    lemma_schema_keys();
}

} // verus!
