//! What holds of the answers of the subcommands that ask one device.

use vstd::prelude::*;
use vstd::string::*;

use crate::codec::{self, CodecErrorView, EdataView, Esv, FrameView, PropertyView};
use crate::codec_laws;
use crate::commands;
use crate::conformance::{self, conforms, fits};
use crate::error::{AppErrorView, ErrKind};
use crate::json::{self, Json};
use crate::net;
use crate::properties;
use crate::schema;
use crate::text;

verus! {

broadcast use vstd::string::group_string_axioms;

// ───────────────────────── get and set ─────────────────────────

/// The keys of the outputs of `get` and `set` differ.
proof fn lemma_get_keys()
    ensures
        "ip"@.len() == 2,
        "eoj"@.len() == 3 && "eoj"@[1] == 'o',
        "esv"@.len() == 3 && "esv"@[1] == 's',
        "result"@.len() == 6,
        "properties"@.len() == 10,
{
    reveal_strlit("ip");
    reveal_strlit("eoj");
    reveal_strlit("esv");
    reveal_strlit("result");
    reveal_strlit("properties");
}

/// What `get` prints conforms to the schema of `get`.
pub proof fn law_get_conforms(
    ip: Seq<char>,
    eoj: Seq<u8>,
    esv: Esv,
    props: Seq<PropertyView>,
)
    ensures
        conforms(schema::get_schema(), commands::get_output(ip, eoj, esv, props)),
{
    let v = commands::get_output(ip, eoj, esv, props)->Obj_0;
    let p = map![
        "ip"@ => schema::typed("string"@),
        "eoj"@ => schema::described("string"@, "EOJ (6 hex 桁)"@),
        "esv"@ => schema::described("string"@, "応答 ESV 名 (例 Get_Res)"@),
        "properties"@ => schema::array_of(schema::property_schema()),
    ];
    let required = seq!["ip"@, "eoj"@, "esv"@, "properties"@];
    lemma_get_keys();
    conformance::lemma_string(ip);
    conformance::lemma_string(text::lower_hex(eoj));
    conformance::lemma_string(esv.label());
    conformance::lemma_props(eoj, props);
    assert(fits(p, required, v));
    conformance::lemma_output("enl get output"@, p, required, v);
}

/// Both results of a write conform to their schema.
proof fn lemma_write_result()
    ensures
        conforms(schema::write_result_schema(), Json::Str("accepted"@)),
        conforms(schema::write_result_schema(), Json::Str("sent"@)),
{
    reveal(conforms);
    conformance::lemma_keywords();
    let choices = json::strings(seq!["accepted"@, "sent"@])->Arr_0;
    assert(choices[0] == Json::Str("accepted"@));
    assert(choices[1] == Json::Str("sent"@));
}

/// The members of the output of `set` are those that its schema asks for.
proof fn lemma_set_conforms(
    ip: Seq<char>,
    eoj: Seq<u8>,
    esv: Esv,
    result: Seq<char>,
    props: Seq<PropertyView>,
)
    requires
        result == "accepted"@ || result == "sent"@,
    ensures
        conforms(
            schema::set_schema(),
            Json::Obj(
                map![
                    "ip"@ => Json::Str(ip),
                    "eoj"@ => Json::Str(text::lower_hex(eoj)),
                    "esv"@ => Json::Str(esv.label()),
                    "result"@ => Json::Str(result),
                    "properties"@ => commands::props_array(eoj, props),
                ],
            ),
        ),
{
    let v = map![
        "ip"@ => Json::Str(ip),
        "eoj"@ => Json::Str(text::lower_hex(eoj)),
        "esv"@ => Json::Str(esv.label()),
        "result"@ => Json::Str(result),
        "properties"@ => commands::props_array(eoj, props),
    ];
    let p = map![
        "ip"@ => schema::typed("string"@),
        "eoj"@ => schema::described("string"@, "EOJ (6 hex 桁)"@),
        "esv"@ => schema::described(
            "string"@,
            "ESV 名 (SetC 応答時 SetRes / --nowait 時 SetI)"@,
        ),
        "result"@ => schema::write_result_schema(),
        "properties"@ => schema::array_of(schema::property_schema()),
    ];
    let required = seq!["ip"@, "eoj"@, "esv"@, "result"@, "properties"@];
    lemma_get_keys();
    lemma_write_result();
    conformance::lemma_string(ip);
    conformance::lemma_string(text::lower_hex(eoj));
    conformance::lemma_string(esv.label());
    conformance::lemma_props(eoj, props);
    assert(fits(p, required, v));
    conformance::lemma_output("enl set output"@, p, required, v);
}

/// What `set` prints of a response conforms to the schema of `set`.
pub proof fn law_set_conforms(
    ip: Seq<char>,
    eoj: Seq<u8>,
    esv: Esv,
    props: Seq<PropertyView>,
)
    ensures
        conforms(schema::set_schema(), commands::set_output(ip, eoj, esv, props)),
{
    lemma_set_conforms(ip, eoj, esv, "accepted"@, props);
}

/// What `set` prints of a request without a response conforms to the schema of `set`.
pub proof fn law_set_nowait_conforms(ip: Seq<char>, eoj: Seq<u8>, epc: u8, edt: Seq<u8>)
    ensures
        conforms(schema::set_schema(), commands::set_nowait_output(ip, eoj, epc, edt)),
{
    lemma_set_conforms(ip, eoj, Esv::SetI, "sent"@, seq![PropertyView { epc, edt }]);
}

/// A write that was sent and a write that was accepted can be told apart by what is printed.
pub proof fn law_sent_is_not_accepted(
    ip: Seq<char>,
    eoj: Seq<u8>,
    epc: u8,
    edt: Seq<u8>,
    esv: Esv,
    props: Seq<PropertyView>,
)
    ensures
        commands::set_nowait_output(ip, eoj, epc, edt) != commands::set_output(ip, eoj, esv, props),
{
    lemma_get_keys();
    reveal_strlit("accepted");
    reveal_strlit("sent");
    let sent = commands::set_nowait_output(ip, eoj, epc, edt)->Obj_0;
    let accepted = commands::set_output(ip, eoj, esv, props)->Obj_0;
    assert(sent["result"@] == Json::Str("sent"@));
    assert(accepted["result"@] == Json::Str("accepted"@));
    assert("sent"@.len() != "accepted"@.len());
}

// ───────────────────────── describe ─────────────────────────

/// The keys of an entry of a property map differ.
proof fn lemma_entry_keys()
    ensures
        "epc"@.len() == 3,
        "name"@.len() == 4,
        "values"@.len() == 6,
{
    reveal_strlit("epc");
    reveal_strlit("name");
    reveal_strlit("values");
}

/// An entry of a property map conforms to its schema.
proof fn lemma_map_entry(eoj: Seq<u8>, epc: u8)
    ensures
        conforms(schema::map_entry_schema(), properties::map_entry(eoj, epc)),
{
    let v = properties::map_entry(eoj, epc)->Obj_0;
    let about = "enum 型 EPC の値域 {hex: 意味名} (該当時のみ)"@;
    let p = map![
        "epc"@ => schema::described("string"@, "EPC (2 hex 桁, 大文字)"@),
        "name"@ => schema::described("string"@, "既知 EPC の正規名 (辞書にある場合のみ)"@),
        "values"@ => schema::described("object"@, about),
    ];
    let required = seq!["epc"@];
    lemma_entry_keys();
    conformance::lemma_types();
    conformance::lemma_string(text::upper_hex(epc));
    if let Some(name) = properties::name_in(properties::names_of(eoj), epc) {
        conformance::lemma_string(name);
    }
    if let Some(range) = properties::range_json(eoj, epc) {
        conformance::lemma_described("object"@, about, range);
    }
    assert(fits(p, required, v));
    conformance::lemma_closed_object(p, required, v);
}

/// A property map conforms to its schema, whether it can be read or not.
pub proof fn law_map_conforms(eoj: Seq<u8>, edt: Seq<u8>)
    ensures
        conforms(schema::map_value_schema(), commands::map_output(eoj, edt)),
{
    let value = commands::map_output(eoj, edt);
    let entries = schema::array_of(schema::map_entry_schema());
    let raw = schema::raw_map_schema();
    let choices = seq![entries, raw];
    let p = map!["edt_hex"@ => schema::typed("string"@)];
    let required = seq!["edt_hex"@];
    conformance::lemma_keywords();
    conformance::lemma_array(schema::map_entry_schema(), value);
    conformance::lemma_only_objects(p, required, value);
    match properties::map_epcs(edt) {
        Some(epcs) => {
            let list = value->Arr_0;
            assert forall|i: int| 0 <= i < list.len() implies conforms(
                schema::map_entry_schema(),
                #[trigger] list[i],
            ) by {
                lemma_map_entry(eoj, epcs[i]);
            }
            assert(conforms(choices[0], value));
            assert(!conforms(choices[1], value));
            conformance::lemma_exactly_one(choices, value, 0);
        },
        None => {
            let v = value->Obj_0;
            conformance::lemma_string(text::lower_hex(edt));
            assert(fits(p, required, v));
            conformance::lemma_closed_object(p, required, v);
            assert(conforms(choices[1], value));
            assert(!conforms(choices[0], value));
            conformance::lemma_exactly_one(choices, value, 1);
        },
    }
}

/// The keys of the output of `describe` differ.
proof fn lemma_describe_keys()
    ensures
        "ip"@.len() == 2,
        "eoj"@.len() == 3 && "eoj"@[1] == 'o',
        "esv"@.len() == 3 && "esv"@[1] == 's',
        "get_map"@.len() == 7 && "get_map"@[0] == 'g',
        "set_map"@.len() == 7 && "set_map"@[0] == 's',
        "inf_map"@.len() == 7 && "inf_map"@[0] == 'i',
{
    reveal_strlit("ip");
    reveal_strlit("eoj");
    reveal_strlit("esv");
    reveal_strlit("get_map");
    reveal_strlit("set_map");
    reveal_strlit("inf_map");
}

/// The properties of the output of `describe`.
spec fn describe_props() -> Map<Seq<char>, Json> {
    map![
        "ip"@ => schema::typed("string"@),
        "eoj"@ => schema::described("string"@, "EOJ (6 hex 桁)"@),
        "esv"@ => schema::typed("string"@),
        "get_map"@ => schema::map_value_schema(),
        "set_map"@ => schema::map_value_schema(),
        "inf_map"@ => schema::map_value_schema(),
    ]
}

/// The members of the output of `describe` are those that its schema asks for.
proof fn lemma_describe_fits(
    ip: Seq<char>,
    eoj: Seq<u8>,
    esv: Esv,
    props: Seq<PropertyView>,
)
    ensures
        fits(
            describe_props(),
            seq!["ip"@, "eoj"@, "esv"@],
            commands::describe_members(ip, eoj, esv, props),
        ),
    decreases props.len(),
{
    lemma_describe_keys();
    let required = seq!["ip"@, "eoj"@, "esv"@];
    let v = commands::describe_members(ip, eoj, esv, props);
    if props.len() == 0 {
        conformance::lemma_string(ip);
        conformance::lemma_string(text::lower_hex(eoj));
        conformance::lemma_string(esv.label());
    } else {
        lemma_describe_fits(ip, eoj, esv, props.drop_last());
        let before = commands::describe_members(ip, eoj, esv, props.drop_last());
        if let Some(key) = commands::map_key(props.last().epc) {
            law_map_conforms(eoj, props.last().edt);
            assert forall|k: Seq<char>| #[trigger] v.contains_key(k) implies describe_props().contains_key(
                k,
            ) && conforms(describe_props()[k], v[k]) by {
                if k != key {
                    assert(before.contains_key(k));
                }
            }
            assert forall|i: int| 0 <= i < required.len() implies v.contains_key(
                #[trigger] required[i],
            ) by {
                assert(before.contains_key(required[i]));
            }
        }
    }
}

/// What `describe` prints conforms to the schema of `describe`.
pub proof fn law_describe_conforms(
    ip: Seq<char>,
    eoj: Seq<u8>,
    esv: Esv,
    props: Seq<PropertyView>,
)
    ensures
        conforms(
            schema::describe_schema(),
            Json::Obj(commands::describe_members(ip, eoj, esv, props)),
        ),
{
    lemma_describe_fits(ip, eoj, esv, props);
    conformance::lemma_output(
        "enl describe output"@,
        describe_props(),
        seq!["ip"@, "eoj"@, "esv"@],
        commands::describe_members(ip, eoj, esv, props),
    );
}

// ───────────────────────── raw ─────────────────────────

/// The keys of a frame differ.
proof fn lemma_frame_keys()
    ensures
        "ehd2"@.len() == 4 && "ehd2"@[0] == 'e',
        "seoj"@.len() == 4 && "seoj"@[0] == 's',
        "deoj"@.len() == 4 && "deoj"@[0] == 'd',
        "tid"@.len() == 3 && "tid"@[0] == 't',
        "esv"@.len() == 3 && "esv"@[0] == 'e',
        "format"@.len() == 6,
        "edt_hex"@.len() == 7,
        "properties"@.len() == 10,
        "set_properties"@.len() == 14 && "set_properties"@[0] == 's',
        "get_properties"@.len() == 14 && "get_properties"@[0] == 'g',
{
    reveal_strlit("ehd2");
    reveal_strlit("seoj");
    reveal_strlit("deoj");
    reveal_strlit("tid");
    reveal_strlit("esv");
    reveal_strlit("format");
    reveal_strlit("edt_hex");
    reveal_strlit("properties");
    reveal_strlit("set_properties");
    reveal_strlit("get_properties");
}

/// A frame conforms to its schema.
pub proof fn law_frame_conforms(f: FrameView)
    ensures
        conforms(schema::frame_schema(), commands::frame_output(f)),
{
    let v = commands::frame_output(f)->Obj_0;
    let list = schema::array_of(schema::property_schema());
    let p = map![
        "ehd2"@ => schema::described("string"@, "EHD2 (2 hex 桁)"@),
        "tid"@ => schema::described("string"@, "TID (4 hex 桁)"@),
        "format"@ => schema::format_schema(),
        "seoj"@ => schema::typed("string"@),
        "deoj"@ => schema::typed("string"@),
        "esv"@ => schema::typed("string"@),
        "properties"@ => list,
        "set_properties"@ => list,
        "get_properties"@ => list,
        "edt_hex"@ => schema::described("string"@, "arbitrary 形式 (EHD2=0x82) の生 hex"@),
    ];
    let required = seq!["ehd2"@, "tid"@, "format"@];
    let formats = seq!["standard"@, "setget"@, "arbitrary"@];
    lemma_frame_keys();
    conformance::lemma_string(text::lower_hex(seq![f.ehd2]));
    conformance::lemma_string(text::lower_hex(text::be_bytes(f.tid)));
    conformance::lemma_choice(formats, 0);
    conformance::lemma_choice(formats, 1);
    conformance::lemma_choice(formats, 2);
    match f.edata {
        EdataView::Standard { seoj, deoj, esv, props } => {
            conformance::lemma_string(text::lower_hex(seoj));
            conformance::lemma_string(text::lower_hex(deoj));
            conformance::lemma_string(esv.label());
            conformance::lemma_props(seoj, props);
        },
        EdataView::SetGet { seoj, deoj, esv, set_props, get_props } => {
            conformance::lemma_string(text::lower_hex(seoj));
            conformance::lemma_string(text::lower_hex(deoj));
            conformance::lemma_string(esv.label());
            conformance::lemma_props(seoj, set_props);
            conformance::lemma_props(seoj, get_props);
        },
        EdataView::Arbitrary(bytes) => {
            conformance::lemma_string(text::lower_hex(bytes));
        },
    }
    assert(fits(p, required, v));
    conformance::lemma_closed_object(p, required, v);
}

/// The keys of the output of `raw` differ.
proof fn lemma_raw_keys()
    ensures
        "ip"@.len() == 2,
        "frame"@.len() == 5,
        "sent_hex"@.len() == 8,
        "parse_error"@.len() == 11,
        "response_hex"@.len() == 12,
{
    reveal_strlit("ip");
    reveal_strlit("frame");
    reveal_strlit("sent_hex");
    reveal_strlit("parse_error");
    reveal_strlit("response_hex");
}

/// What `raw` prints conforms to the schema of `raw`, whatever came back.
pub proof fn law_raw_conforms(ip: Seq<char>, sent: Seq<u8>, data: Seq<u8>)
    ensures
        conforms(schema::raw_schema(), commands::raw_output(ip, sent, data)),
{
    let v = commands::raw_output(ip, sent, data)->Obj_0;
    let p = map![
        "ip"@ => schema::typed("string"@),
        "sent_hex"@ => schema::described("string"@, "送信フレームの生 hex"@),
        "response_hex"@ => schema::described("string"@, "応答の生 hex (SNA 含め常に存在)"@),
        "frame"@ => schema::frame_schema(),
        "parse_error"@ => schema::described("string"@, "応答をパースできなかった場合のみ"@),
    ];
    let required = seq!["ip"@, "sent_hex"@, "response_hex"@];
    lemma_raw_keys();
    conformance::lemma_string(ip);
    conformance::lemma_string(text::lower_hex(sent));
    conformance::lemma_string(text::lower_hex(data));
    match codec::read_frame(data) {
        Ok(f) => law_frame_conforms(f),
        Err(e) => conformance::lemma_string(e.message()),
    }
    assert(fits(p, required, v));
    conformance::lemma_output("enl raw output"@, p, required, v);
}

// ───────────────────────── results ─────────────────────────

/// Whatever bytes come back: where `get`, `set` or `describe` prints something, it conforms to the
/// schema of the subcommand.
pub proof fn law_results_conform(ip: Seq<char>, eoj: Seq<u8>, data: Seq<u8>)
    ensures
        commands::get_result(ip, eoj, data) matches Ok(value) ==> conforms(
            schema::get_schema(),
            value,
        ),
        commands::set_result(ip, eoj, data) matches Ok(value) ==> conforms(
            schema::set_schema(),
            value,
        ),
        commands::describe_result(ip, eoj, data) matches Ok(value) ==> conforms(
            schema::describe_schema(),
            value,
        ),
{
    if let Ok(f) = commands::response_of(data) {
        if let Ok((esv, props)) = commands::granted(f, eoj) {
            law_get_conforms(ip, eoj, esv, props);
            law_set_conforms(ip, eoj, esv, props);
            law_describe_conforms(ip, eoj, esv, props);
        }
    }
}

/// A refusal of the device (SNA) ends `get`, `set` and `describe` with the error for that, and with
/// exit code 4; nothing else ends with it.
pub proof fn law_refusal(ip: Seq<char>, eoj: Seq<u8>, data: Seq<u8>)
    ensures
        ({
            let refused = codec::read_frame(data) matches Ok(f) && codec::service(f) matches Some(
                esv,
            ) && esv.refuses();
            let rejected = |r: Result<Json, AppErrorView>|
                r matches Err(e) && e.kind == ErrKind::DeviceRejected && e.kind.code() == 4;
            &&& refused <==> rejected(commands::get_result(ip, eoj, data))
            &&& refused <==> rejected(commands::set_result(ip, eoj, data))
            &&& refused <==> rejected(commands::describe_result(ip, eoj, data))
        }),
{
}

/// Bytes that are no frame end `get`, `set` and `describe` with a parse error that still holds them.
pub proof fn law_unreadable_response(ip: Seq<char>, eoj: Seq<u8>, data: Seq<u8>)
    requires
        codec::read_frame(data) is Err,
    ensures
        ({
            let e = commands::response_of(data)->Err_0;
            &&& e.kind == ErrKind::Parse
            &&& e.extra == Some(
                properties::member("raw_hex"@, Json::Str(text::lower_hex(data))),
            )
            &&& commands::get_result(ip, eoj, data) == Err::<Json, AppErrorView>(e)
            &&& commands::set_result(ip, eoj, data) == Err::<Json, AppErrorView>(e)
            &&& commands::describe_result(ip, eoj, data) == Err::<Json, AppErrorView>(e)
        }),
{
}

/// Unknown classes and EPCs do not break anything: every response with one list of properties that
/// is no refusal is printed, whatever it holds.
pub proof fn law_unknown_never_breaks(
    ip: Seq<char>,
    eoj: Seq<u8>,
    tid: u16,
    seoj: Seq<u8>,
    deoj: Seq<u8>,
    esv: Esv,
    props: Seq<PropertyView>,
)
    requires
        codec_laws::valid_frame(codec::standard_frame(tid, seoj, deoj, esv, props)),
        !esv.refuses(),
    ensures
        ({
            let data = codec::frame_bytes(codec::standard_frame(tid, seoj, deoj, esv, props));
            &&& commands::get_result(ip, eoj, data) == Ok::<Json, AppErrorView>(
                commands::get_output(ip, eoj, esv, props),
            )
            &&& commands::set_result(ip, eoj, data) == Ok::<Json, AppErrorView>(
                commands::set_output(ip, eoj, esv, props),
            )
            &&& commands::describe_result(ip, eoj, data) == Ok::<Json, AppErrorView>(
                Json::Obj(commands::describe_members(ip, eoj, esv, props)),
            )
        }),
{
    codec_laws::law_read_back(codec::standard_frame(tid, seoj, deoj, esv, props));
}

/// What `raw` prints always holds the bytes that came back, refusals too, and they can be read back
/// from it.
pub proof fn law_raw_keeps_response(ip: Seq<char>, sent: Seq<u8>, data: Seq<u8>)
    ensures
        ({
            let v = commands::raw_output(ip, sent, data)->Obj_0;
            &&& commands::raw_output(ip, sent, data) == Json::Obj(v)
            &&& v.contains_key("response_hex"@) && v["response_hex"@] == Json::Str(
                text::lower_hex(data),
            )
            &&& v.contains_key("sent_hex"@) && v["sent_hex"@] == Json::Str(text::lower_hex(sent))
            &&& v.contains_key("frame"@) <==> codec::read_frame(data) is Ok
            &&& v.contains_key("parse_error"@) <==> codec::read_frame(data) is Err
            &&& codec::bytes_of_hex(text::lower_hex(data)) == Some(data)
            &&& codec::bytes_of_hex(text::lower_hex(sent)) == Some(sent)
        }),
{
    lemma_raw_keys();
    codec_laws::law_hex_roundtrip(data);
    codec_laws::law_hex_roundtrip(sent);
}

// ───────────────────────── requests ─────────────────────────

/// The request of `raw` holds the given service and properties, and it is sent exactly if its counts
/// and lengths fit in a frame; otherwise the input is to blame. The services with two lists of
/// properties are left out: `raw` sends one list.
pub proof fn law_raw_request(
    tid: u16,
    seoj: Seq<u8>,
    deoj: Seq<u8>,
    code: u8,
    props: Seq<PropertyView>,
)
    requires
        seoj.len() == 3,
        deoj.len() == 3,
        !Esv::of_code(code).two_lists(),
    ensures
        ({
            let f = codec::standard_frame(tid, seoj, deoj, Esv::of_code(code), props);
            match commands::sent_bytes(f) {
                Ok(bytes) => {
                    &&& codec::props_fit(props)
                    &&& codec::read_frame(bytes) == Ok::<FrameView, CodecErrorView>(f)
                    &&& bytes[10] == code
                },
                Err(e) => !codec::props_fit(props) && e.kind == ErrKind::Usage,
            }
        }),
{
    let f = codec::standard_frame(tid, seoj, deoj, Esv::of_code(code), props);
    codec_laws::law_service_code_roundtrip(code);
    if codec::excess(f) is None {
        codec_laws::law_read_back(f);
    }
}

/// The requests of `get`, `describe` and `discover` ask for the given EPCs, with no data, and they
/// are sent wherever there are no more than 255 of them.
pub proof fn law_get_request(tid: u16, eoj: Seq<u8>, epcs: Seq<u8>)
    requires
        eoj.len() == 3,
        epcs.len() <= 255,
    ensures
        ({
            let f = commands::get_frame(tid, eoj, epcs);
            &&& commands::sent_bytes(f) == Ok::<Seq<u8>, AppErrorView>(codec::frame_bytes(f))
            &&& codec::read_frame(codec::frame_bytes(f)) == Ok::<FrameView, CodecErrorView>(f)
            &&& codec::service(f) == Some(Esv::Get)
            &&& commands::epcs_of(f.edata->Standard_props) == epcs
        }),
{
    let f = commands::get_frame(tid, eoj, epcs);
    assert(commands::epcs_of(f.edata->Standard_props) =~= epcs);
    codec_laws::law_read_back(f);
}

/// The request of `set`, with a response or without, holds the given EPC and data, and it is sent
/// exactly if the data has no more than 255 bytes.
pub proof fn law_set_request(tid: u16, eoj: Seq<u8>, epc: u8, edt: Seq<u8>, nowait: bool)
    requires
        eoj.len() == 3,
    ensures
        ({
            let f = if nowait {
                commands::set_nowait_frame(tid, eoj, epc, edt)
            } else {
                commands::set_frame(tid, eoj, epc, edt)
            };
            &&& commands::sent_bytes(f) is Ok <==> edt.len() <= 255
            &&& commands::sent_bytes(f) matches Ok(bytes) ==> codec::read_frame(bytes) == Ok::<
                FrameView,
                CodecErrorView,
            >(f)
            &&& commands::sent_bytes(f) matches Err(e) ==> e.kind == ErrKind::Usage
            &&& codec::service(f) == Some(
                if nowait {
                    Esv::SetI
                } else {
                    Esv::SetC
                },
            )
            &&& f.edata->Standard_props == seq![PropertyView { epc, edt }]
        }),
{
    let f = if nowait {
        commands::set_nowait_frame(tid, eoj, epc, edt)
    } else {
        commands::set_frame(tid, eoj, epc, edt)
    };
    assert(f.edata->Standard_props[0] == (PropertyView { epc, edt }));
    if edt.len() <= 255 {
        assert(codec::props_fit(f.edata->Standard_props));
        codec_laws::law_read_back(f);
    }
}

// ───────────────────────── matching ─────────────────────────

/// Of the frames that can be written, those of the specified format with the TID of a request, and
/// no others, can answer it.
pub proof fn law_reply_matches_tid(f: FrameView, tid: u16)
    ensures
        net::answers(codec::frame_bytes(f), tid) <==> f.ehd1 == codec::EHD1 && f.ehd2
            == codec::EHD2_FORMAT1 && f.tid == tid,
{
    let bytes = codec::frame_bytes(f);
    let head = seq![0x10u8, 0x81u8] + text::be_bytes(tid);
    let own = bytes.take(4);
    assert(own[0] == f.ehd1 && own[1] == f.ehd2);
    assert(own[2] == text::be_bytes(f.tid)[0] && own[3] == text::be_bytes(f.tid)[1]);
    assert(head[2] == text::be_bytes(tid)[0] && head[3] == text::be_bytes(tid)[1]);
    if own == head {
        assert(own[0] == head[0] && own[1] == head[1] && own[2] == head[2] && own[3] == head[3]);
    }
    if f.ehd1 == codec::EHD1 && f.ehd2 == codec::EHD2_FORMAT1 && f.tid == tid {
        assert(own =~= head);
    }
}

/// What can answer a request and can be read has the TID of the request and is of the specified
/// format.
pub proof fn law_reply_has_tid(data: Seq<u8>, tid: u16)
    requires
        net::answers(data, tid),
    ensures
        codec::read_frame(data) matches Ok(f) ==> {
            &&& f.tid == tid
            &&& f.ehd2 == codec::EHD2_FORMAT1
            &&& !(f.edata is Arbitrary)
        },
{
    let head = seq![0x10u8, 0x81u8] + text::be_bytes(tid);
    assert(data.take(4)[0] == data[0] && data.take(4)[1] == data[1]);
    assert(data.take(4)[2] == data[2] && data.take(4)[3] == data[3]);
    assert(head[2] == text::be_bytes(tid)[0] && head[3] == text::be_bytes(tid)[1]);
}

} // verus!
