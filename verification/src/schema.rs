//! The JSON Schema (draft 2020-12) of what each subcommand prints.
//!
//! The schemas are a stable contract: whoever consumes the output can fetch them and rely on them.

use serde_json::{Map as JsonMap, Value};
use vstd::prelude::*;
use vstd::string::*;

use crate::json::{self, Json};
use crate::text;

verus! {

broadcast use vstd::string::group_string_axioms;

/// The dialect of the schemas.
pub const DIALECT: &'static str = "https://json-schema.org/draft/2020-12/schema";

// ───────────────────────── building blocks ─────────────────────────

/// The schema of a value of the given type.
pub open spec fn typed(ty: Seq<char>) -> Json {
    Json::Obj(map!["type"@ => Json::Str(ty)])
}

/// The schema of a value of the given type.
fn of_type(ty: &str) -> (value: Value)
    ensures
        json::json_of(value) == typed(ty@),
{
    let mut out = JsonMap::new();
    json::put(&mut out, "type", json::text(ty));
    json::object(out)
}

/// The schema of a value of the given type, with a description.
pub open spec fn described(ty: Seq<char>, description: Seq<char>) -> Json {
    Json::Obj(map!["type"@ => Json::Str(ty), "description"@ => Json::Str(description)])
}

/// The schema of a value of the given type, with a description.
fn of_described(ty: &str, description: &str) -> (value: Value)
    ensures
        json::json_of(value) == described(ty@, description@),
{
    let mut out = JsonMap::new();
    json::put(&mut out, "type", json::text(ty));
    json::put(&mut out, "description", json::text(description));
    json::object(out)
}

/// The schema of a string out of a list.
pub open spec fn one_of_strings(choices: Seq<Seq<char>>) -> Json {
    Json::Obj(map!["type"@ => Json::Str("string"@), "enum"@ => json::strings(choices)])
}

/// The schema of a string out of a list.
fn of_strings(choices: &[&str]) -> (value: Value)
    ensures
        json::json_of(value) == one_of_strings(json::texts(choices@)),
{
    let mut out = JsonMap::new();
    json::put(&mut out, "type", json::text("string"));
    json::put(&mut out, "enum", json::string_array(choices));
    json::object(out)
}

/// The schema of an array.
pub open spec fn array_of(items: Json) -> Json {
    Json::Obj(map!["type"@ => Json::Str("array"@), "items"@ => items])
}

/// The schema of an array.
fn of_array(items: Value) -> (value: Value)
    ensures
        json::json_of(value) == array_of(json::json_of(items)),
{
    let mut out = JsonMap::new();
    json::put(&mut out, "type", json::text("array"));
    json::put(&mut out, "items", items);
    json::object(out)
}

/// The schema of an object that has the required members and none but the given ones.
pub open spec fn closed_object(
    properties: Map<Seq<char>, Json>,
    required: Seq<Seq<char>>,
) -> Json {
    Json::Obj(
        map![
            "type"@ => Json::Str("object"@),
            "properties"@ => Json::Obj(properties),
            "required"@ => json::strings(required),
            "additionalProperties"@ => Json::Bool(false),
        ],
    )
}

/// The schema of an object that has the required members and none but the given ones.
fn of_closed_object(properties: JsonMap<String, Value>, required: &[&str]) -> (value: Value)
    ensures
        json::json_of(value) == closed_object(
            json::members_of(properties),
            json::texts(required@),
        ),
{
    let mut out = JsonMap::new();
    json::put(&mut out, "type", json::text("object"));
    json::put(&mut out, "properties", json::object(properties));
    json::put(&mut out, "required", json::string_array(required));
    json::put(&mut out, "additionalProperties", json::boolean(false));
    json::object(out)
}

/// The schema of what a subcommand prints: an object that has the required members and none but the
/// given ones.
pub open spec fn output_object(
    title: Seq<char>,
    properties: Map<Seq<char>, Json>,
    required: Seq<Seq<char>>,
) -> Json {
    Json::Obj(
        map![
            "$schema"@ => Json::Str(DIALECT@),
            "title"@ => Json::Str(title),
            "type"@ => Json::Str("object"@),
            "properties"@ => Json::Obj(properties),
            "required"@ => json::strings(required),
            "additionalProperties"@ => Json::Bool(false),
        ],
    )
}

/// The schema of what a subcommand prints.
fn of_output(title: &str, properties: JsonMap<String, Value>, required: &[&str]) -> (value: Value)
    ensures
        json::json_of(value) == output_object(
            title@,
            json::members_of(properties),
            json::texts(required@),
        ),
{
    let mut out = JsonMap::new();
    json::put(&mut out, "$schema", json::text(DIALECT));
    json::put(&mut out, "title", json::text(title));
    json::put(&mut out, "type", json::text("object"));
    json::put(&mut out, "properties", json::object(properties));
    json::put(&mut out, "required", json::string_array(required));
    json::put(&mut out, "additionalProperties", json::boolean(false));
    json::object(out)
}

// ───────────────────────── shared parts ─────────────────────────

/// The schema of a decoded value, which can be anything.
pub open spec fn any_value() -> Json {
    Json::Obj(
        map!["description"@ => Json::Str("デコードできた場合のみ付加される人間可読値"@)],
    )
}

/// The schema of a decoded value.
fn of_any_value() -> (value: Value)
    ensures
        json::json_of(value) == any_value(),
{
    let mut out = JsonMap::new();
    json::put(
        &mut out,
        "description",
        json::text("デコードできた場合のみ付加される人間可読値"),
    );
    json::object(out)
}

/// The schema of one property: its raw data is always there, its name and its decoded value only where
/// the dictionary has them.
pub open spec fn property_schema() -> Json {
    closed_object(
        map![
            "epc"@ => described("string"@, "EPC (2 hex 桁, 大文字)"@),
            "name"@ => described("string"@, "既知 EPC の正規名 (辞書にある場合のみ)"@),
            "pdc"@ => described("integer"@, "EDT のバイト長"@),
            "edt_hex"@ => described("string"@, "EDT の生 hex (常に存在しロスレス)"@),
            "value"@ => any_value(),
        ],
        seq!["epc"@, "pdc"@, "edt_hex"@],
    )
}

/// The schema of one property.
pub fn property() -> (value: Value)
    ensures
        json::json_of(value) == property_schema(),
{
    let mut properties = JsonMap::new();
    json::put(&mut properties, "epc", of_described("string", "EPC (2 hex 桁, 大文字)"));
    json::put(&mut properties, "name", of_described("string", "既知 EPC の正規名 (辞書にある場合のみ)"));
    json::put(&mut properties, "pdc", of_described("integer", "EDT のバイト長"));
    json::put(&mut properties, "edt_hex", of_described("string", "EDT の生 hex (常に存在しロスレス)"));
    json::put(&mut properties, "value", of_any_value());
    let required = ["epc", "pdc", "edt_hex"];
    assert(json::texts(required@) =~= seq!["epc"@, "pdc"@, "edt_hex"@]);
    of_closed_object(properties, &required)
}

/// The schema of one device that was found.
pub open spec fn device_schema() -> Json {
    closed_object(
        map![
            "ip"@ => typed("string"@),
            "count"@ => described("integer"@, "インスタンス数 (応答パース時のみ)"@),
            "instances"@ => array_of(described("string"@, "EOJ (6 hex 桁)"@)),
        ],
        seq!["ip"@],
    )
}

/// The schema of one device that was found.
fn device() -> (value: Value)
    ensures
        json::json_of(value) == device_schema(),
{
    let mut properties = JsonMap::new();
    json::put(&mut properties, "ip", of_type("string"));
    json::put(&mut properties, "count", of_described("integer", "インスタンス数 (応答パース時のみ)"));
    json::put(&mut properties, "instances", of_array(of_described("string", "EOJ (6 hex 桁)")));
    let required = ["ip"];
    assert(json::texts(required@) =~= seq!["ip"@]);
    of_closed_object(properties, &required)
}

/// The schema of one entry of a property map.
pub open spec fn map_entry_schema() -> Json {
    closed_object(
        map![
            "epc"@ => described("string"@, "EPC (2 hex 桁, 大文字)"@),
            "name"@ => described("string"@, "既知 EPC の正規名 (辞書にある場合のみ)"@),
            "values"@ => described("object"@, "enum 型 EPC の値域 {hex: 意味名} (該当時のみ)"@),
        ],
        seq!["epc"@],
    )
}

/// The schema of one entry of a property map.
fn map_entry() -> (value: Value)
    ensures
        json::json_of(value) == map_entry_schema(),
{
    let mut properties = JsonMap::new();
    json::put(&mut properties, "epc", of_described("string", "EPC (2 hex 桁, 大文字)"));
    json::put(&mut properties, "name", of_described("string", "既知 EPC の正規名 (辞書にある場合のみ)"));
    json::put(&mut properties, "values", of_described("object", "enum 型 EPC の値域 {hex: 意味名} (該当時のみ)"));
    let required = ["epc"];
    assert(json::texts(required@) =~= seq!["epc"@]);
    of_closed_object(properties, &required)
}

/// The schema of a property map that could not be read.
pub open spec fn raw_map_schema() -> Json {
    closed_object(
        map![
            "edt_hex"@ => typed("string"@),
        ],
        seq!["edt_hex"@],
    )
}

/// The schema of a property map that could not be read.
fn raw_map() -> (value: Value)
    ensures
        json::json_of(value) == raw_map_schema(),
{
    let mut properties = JsonMap::new();
    json::put(&mut properties, "edt_hex", of_type("string"));
    let required = ["edt_hex"];
    assert(json::texts(required@) =~= seq!["edt_hex"@]);
    of_closed_object(properties, &required)
}

/// The schema of a property map: its entries, or its raw data where it could not be read.
pub open spec fn map_value_schema() -> Json {
    Json::Obj(
        map!["oneOf"@ => Json::Arr(seq![array_of(map_entry_schema()), raw_map_schema()])],
    )
}

/// The schema of a property map.
fn map_value() -> (value: Value)
    ensures
        json::json_of(value) == map_value_schema(),
{
    let choices = vec![of_array(map_entry()), raw_map()];
    assert(json::json_list(choices@) =~= seq![array_of(map_entry_schema()), raw_map_schema()]);
    let mut out = JsonMap::new();
    json::put(&mut out, "oneOf", json::array(choices));
    json::object(out)
}

/// The schema of the format of a frame.
pub open spec fn format_schema() -> Json {
    one_of_strings(seq!["standard"@, "setget"@, "arbitrary"@])
}

/// The schema of the format of a frame.
fn format_name() -> (value: Value)
    ensures
        json::json_of(value) == format_schema(),
{
    let choices = ["standard", "setget", "arbitrary"];
    assert(json::texts(choices@) =~= seq!["standard"@, "setget"@, "arbitrary"@]);
    of_strings(&choices)
}

/// The schema of a frame that could be read.
pub open spec fn frame_schema() -> Json {
    closed_object(
        map![
            "ehd2"@ => described("string"@, "EHD2 (2 hex 桁)"@),
            "tid"@ => described("string"@, "TID (4 hex 桁)"@),
            "format"@ => format_schema(),
            "seoj"@ => typed("string"@),
            "deoj"@ => typed("string"@),
            "esv"@ => typed("string"@),
            "properties"@ => array_of(property_schema()),
            "set_properties"@ => array_of(property_schema()),
            "get_properties"@ => array_of(property_schema()),
            "edt_hex"@ => described("string"@, "arbitrary 形式 (EHD2=0x82) の生 hex"@),
        ],
        seq!["ehd2"@, "tid"@, "format"@],
    )
}

/// The schema of a frame that could be read.
fn frame() -> (value: Value)
    ensures
        json::json_of(value) == frame_schema(),
{
    let mut properties = JsonMap::new();
    json::put(&mut properties, "ehd2", of_described("string", "EHD2 (2 hex 桁)"));
    json::put(&mut properties, "tid", of_described("string", "TID (4 hex 桁)"));
    json::put(&mut properties, "format", format_name());
    json::put(&mut properties, "seoj", of_type("string"));
    json::put(&mut properties, "deoj", of_type("string"));
    json::put(&mut properties, "esv", of_type("string"));
    json::put(&mut properties, "properties", of_array(property()));
    json::put(&mut properties, "set_properties", of_array(property()));
    json::put(&mut properties, "get_properties", of_array(property()));
    json::put(&mut properties, "edt_hex", of_described("string", "arbitrary 形式 (EHD2=0x82) の生 hex"));
    let required = ["ehd2", "tid", "format"];
    assert(json::texts(required@) =~= seq!["ehd2"@, "tid"@, "format"@]);
    of_closed_object(properties, &required)
}

/// The schema of the service of a notification.
pub open spec fn notification_schema() -> Json {
    one_of_strings(seq!["Inf"@, "InfC"@])
}

/// The schema of the service of a notification.
fn notification() -> (value: Value)
    ensures
        json::json_of(value) == notification_schema(),
{
    let choices = ["Inf", "InfC"];
    assert(json::texts(choices@) =~= seq!["Inf"@, "InfC"@]);
    of_strings(&choices)
}

/// The schema of one notification.
pub open spec fn event_schema() -> Json {
    closed_object(
        map![
            "ip"@ => described("string"@, "通知の送信元 IP"@),
            "tid"@ => described("string"@, "TID (4 hex 桁)"@),
            "seoj"@ => described("string"@, "通知元 EOJ (6 hex 桁)"@),
            "deoj"@ => typed("string"@),
            "esv"@ => notification_schema(),
            "properties"@ => array_of(property_schema()),
        ],
        seq!["ip"@, "tid"@, "seoj"@, "deoj"@, "esv"@, "properties"@],
    )
}

/// The schema of one notification.
fn event() -> (value: Value)
    ensures
        json::json_of(value) == event_schema(),
{
    let mut properties = JsonMap::new();
    json::put(&mut properties, "ip", of_described("string", "通知の送信元 IP"));
    json::put(&mut properties, "tid", of_described("string", "TID (4 hex 桁)"));
    json::put(&mut properties, "seoj", of_described("string", "通知元 EOJ (6 hex 桁)"));
    json::put(&mut properties, "deoj", of_type("string"));
    json::put(&mut properties, "esv", notification());
    json::put(&mut properties, "properties", of_array(property()));
    let required = ["ip", "tid", "seoj", "deoj", "esv", "properties"];
    assert(json::texts(required@) =~= seq!["ip"@, "tid"@, "seoj"@, "deoj"@, "esv"@, "properties"@]);
    of_closed_object(properties, &required)
}

/// What is known of a write: the device accepted it, or it was sent and nothing more is known.
pub open spec fn write_result_schema() -> Json {
    Json::Obj(
        map![
            "type"@ => Json::Str("string"@),
            "enum"@ => json::strings(seq!["accepted"@, "sent"@]),
            "description"@ => Json::Str(
                "accepted=機器が受理を確認 (SetC) / sent=送信のみで実行未確認 (--nowait)"@,
            ),
        ],
    )
}

/// The schema of what is known of a write.
fn write_result() -> (value: Value)
    ensures
        json::json_of(value) == write_result_schema(),
{
    let choices = ["accepted", "sent"];
    assert(json::texts(choices@) =~= seq!["accepted"@, "sent"@]);
    let mut out = JsonMap::new();
    json::put(&mut out, "type", json::text("string"));
    json::put(&mut out, "enum", json::string_array(&choices));
    json::put(
        &mut out,
        "description",
        json::text("accepted=機器が受理を確認 (SetC) / sent=送信のみで実行未確認 (--nowait)"),
    );
    json::object(out)
}

// ───────────────────────── subcommands ─────────────────────────

/// The schema of what `discover` prints.
pub open spec fn discover_schema() -> Json {
    output_object("enl discover output"@, 
        map![
            "devices"@ => array_of(device_schema()),
        ],
        seq!["devices"@],
    )
}

/// The schema of what `discover` prints.
pub fn discover() -> (value: Value)
    ensures
        json::json_of(value) == discover_schema(),
{
    let mut properties = JsonMap::new();
    json::put(&mut properties, "devices", of_array(device()));
    let required = ["devices"];
    assert(json::texts(required@) =~= seq!["devices"@]);
    of_output("enl discover output", properties, &required)
}

/// The schema of what `get` prints.
pub open spec fn get_schema() -> Json {
    output_object("enl get output"@, 
        map![
            "ip"@ => typed("string"@),
            "eoj"@ => described("string"@, "EOJ (6 hex 桁)"@),
            "esv"@ => described("string"@, "応答 ESV 名 (例 Get_Res)"@),
            "properties"@ => array_of(property_schema()),
        ],
        seq!["ip"@, "eoj"@, "esv"@, "properties"@],
    )
}

/// The schema of what `get` prints.
pub fn get() -> (value: Value)
    ensures
        json::json_of(value) == get_schema(),
{
    let mut properties = JsonMap::new();
    json::put(&mut properties, "ip", of_type("string"));
    json::put(&mut properties, "eoj", of_described("string", "EOJ (6 hex 桁)"));
    json::put(&mut properties, "esv", of_described("string", "応答 ESV 名 (例 Get_Res)"));
    json::put(&mut properties, "properties", of_array(property()));
    let required = ["ip", "eoj", "esv", "properties"];
    assert(json::texts(required@) =~= seq!["ip"@, "eoj"@, "esv"@, "properties"@]);
    of_output("enl get output", properties, &required)
}

/// The schema of what `set` prints.
pub open spec fn set_schema() -> Json {
    output_object("enl set output"@, 
        map![
            "ip"@ => typed("string"@),
            "eoj"@ => described("string"@, "EOJ (6 hex 桁)"@),
            "esv"@ => described("string"@, "ESV 名 (SetC 応答時 SetRes / --nowait 時 SetI)"@),
            "result"@ => write_result_schema(),
            "properties"@ => array_of(property_schema()),
        ],
        seq!["ip"@, "eoj"@, "esv"@, "result"@, "properties"@],
    )
}

/// The schema of what `set` prints.
pub fn set() -> (value: Value)
    ensures
        json::json_of(value) == set_schema(),
{
    let mut properties = JsonMap::new();
    json::put(&mut properties, "ip", of_type("string"));
    json::put(&mut properties, "eoj", of_described("string", "EOJ (6 hex 桁)"));
    json::put(&mut properties, "esv", of_described("string", "ESV 名 (SetC 応答時 SetRes / --nowait 時 SetI)"));
    json::put(&mut properties, "result", write_result());
    json::put(&mut properties, "properties", of_array(property()));
    let required = ["ip", "eoj", "esv", "result", "properties"];
    assert(json::texts(required@) =~= seq!["ip"@, "eoj"@, "esv"@, "result"@, "properties"@]);
    of_output("enl set output", properties, &required)
}

/// The schema of what `describe` prints.
pub open spec fn describe_schema() -> Json {
    output_object("enl describe output"@, 
        map![
            "ip"@ => typed("string"@),
            "eoj"@ => described("string"@, "EOJ (6 hex 桁)"@),
            "esv"@ => typed("string"@),
            "get_map"@ => map_value_schema(),
            "set_map"@ => map_value_schema(),
            "inf_map"@ => map_value_schema(),
        ],
        seq!["ip"@, "eoj"@, "esv"@],
    )
}

/// The schema of what `describe` prints.
pub fn describe() -> (value: Value)
    ensures
        json::json_of(value) == describe_schema(),
{
    let mut properties = JsonMap::new();
    json::put(&mut properties, "ip", of_type("string"));
    json::put(&mut properties, "eoj", of_described("string", "EOJ (6 hex 桁)"));
    json::put(&mut properties, "esv", of_type("string"));
    json::put(&mut properties, "get_map", map_value());
    json::put(&mut properties, "set_map", map_value());
    json::put(&mut properties, "inf_map", map_value());
    let required = ["ip", "eoj", "esv"];
    assert(json::texts(required@) =~= seq!["ip"@, "eoj"@, "esv"@]);
    of_output("enl describe output", properties, &required)
}

/// The schema of what `raw` prints.
pub open spec fn raw_schema() -> Json {
    output_object("enl raw output"@, 
        map![
            "ip"@ => typed("string"@),
            "sent_hex"@ => described("string"@, "送信フレームの生 hex"@),
            "response_hex"@ => described("string"@, "応答の生 hex (SNA 含め常に存在)"@),
            "frame"@ => frame_schema(),
            "parse_error"@ => described("string"@, "応答をパースできなかった場合のみ"@),
        ],
        seq!["ip"@, "sent_hex"@, "response_hex"@],
    )
}

/// The schema of what `raw` prints.
pub fn raw() -> (value: Value)
    ensures
        json::json_of(value) == raw_schema(),
{
    let mut properties = JsonMap::new();
    json::put(&mut properties, "ip", of_type("string"));
    json::put(&mut properties, "sent_hex", of_described("string", "送信フレームの生 hex"));
    json::put(&mut properties, "response_hex", of_described("string", "応答の生 hex (SNA 含め常に存在)"));
    json::put(&mut properties, "frame", frame());
    json::put(&mut properties, "parse_error", of_described("string", "応答をパースできなかった場合のみ"));
    let required = ["ip", "sent_hex", "response_hex"];
    assert(json::texts(required@) =~= seq!["ip"@, "sent_hex"@, "response_hex"@]);
    of_output("enl raw output", properties, &required)
}

/// The schema of what `listen` prints.
pub open spec fn listen_schema() -> Json {
    output_object("enl listen output"@, 
        map![
            "events"@ => array_of(event_schema()),
        ],
        seq!["events"@],
    )
}

/// The schema of what `listen` prints.
pub fn listen() -> (value: Value)
    ensures
        json::json_of(value) == listen_schema(),
{
    let mut properties = JsonMap::new();
    json::put(&mut properties, "events", of_array(event()));
    let required = ["events"];
    assert(json::texts(required@) =~= seq!["events"@]);
    of_output("enl listen output", properties, &required)
}

/// The schemas of all subcommands, each under its name.
pub open spec fn all_schemas() -> Json {
    Json::Obj(
        map![
            "discover"@ => discover_schema(),
            "get"@ => get_schema(),
            "set"@ => set_schema(),
            "describe"@ => describe_schema(),
            "raw"@ => raw_schema(),
            "listen"@ => listen_schema(),
        ],
    )
}

/// The schemas of all subcommands, each under its name.
pub fn all() -> (value: Value)
    ensures
        json::json_of(value) == all_schemas(),
{
    let mut out = JsonMap::new();
    json::put(&mut out, "discover", discover());
    json::put(&mut out, "get", get());
    json::put(&mut out, "set", set());
    json::put(&mut out, "describe", describe());
    json::put(&mut out, "raw", raw());
    json::put(&mut out, "listen", listen());
    json::object(out)
}

/// The schema of a subcommand, or of all of them where none is named.
pub open spec fn schema_for(target: Option<Seq<char>>) -> Json {
    match target {
        None => all_schemas(),
        Some(t) => if t == "discover"@ {
            discover_schema()
        } else if t == "get"@ {
            get_schema()
        } else if t == "set"@ {
            set_schema()
        } else if t == "describe"@ {
            describe_schema()
        } else if t == "raw"@ {
            raw_schema()
        } else if t == "listen"@ {
            listen_schema()
        } else {
            all_schemas()
        },
    }
}

/// The schema of a subcommand, or of all of them where none is named.
pub fn for_target(target: Option<&str>) -> (value: Value)
    ensures
        json::json_of(value) == schema_for(
            match target {
                Some(t) => Some(t@),
                None => None,
            },
        ),
{
    match target {
        None => all(),
        Some(t) => if text::same_text(t, "discover") {
            discover()
        } else if text::same_text(t, "get") {
            get()
        } else if text::same_text(t, "set") {
            set()
        } else if text::same_text(t, "describe") {
            describe()
        } else if text::same_text(t, "raw") {
            raw()
        } else if text::same_text(t, "listen") {
            listen()
        } else {
            all()
        },
    }
}

/// Without a target every subcommand is there, under its name, with the schema that the name alone
/// gives.
pub proof fn law_all_schemas(target: Seq<char>)
    requires
        all_schemas()->Obj_0.contains_key(target),
    ensures
        schema_for(None) == all_schemas(),
        all_schemas()->Obj_0[target] == schema_for(Some(target)),
        all_schemas()->Obj_0.dom() == set![
            "discover"@,
            "get"@,
            "set"@,
            "describe"@,
            "raw"@,
            "listen"@,
        ],
{
    reveal_strlit("discover");
    reveal_strlit("get");
    reveal_strlit("set");
    reveal_strlit("describe");
    reveal_strlit("raw");
    reveal_strlit("listen");
    assert("get"@.len() == 3 && "set"@.len() == 3 && "raw"@.len() == 3);
    assert("get"@[0] != "set"@[0] && "get"@[0] != "raw"@[0] && "set"@[0] != "raw"@[0]);
    assert("discover"@.len() == 8 && "describe"@.len() == 8 && "discover"@[1] != "describe"@[1]);
    assert("listen"@.len() == 6);
}

} // verus!
