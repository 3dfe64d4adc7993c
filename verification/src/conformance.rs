//! JSON Schema: when a value conforms to a schema, and that every property conforms to its own.

use vstd::prelude::*;
use vstd::string::*;

use crate::codec::PropertyView;
use crate::commands;
use crate::json::{self, Json};
use crate::properties;
use crate::property_laws;
use crate::schema;
use crate::text;

verus! {

broadcast use vstd::string::group_string_axioms;

// ───────────────────────── JSON Schema ─────────────────────────

/// A value has the type that the keyword `type` names.
pub open spec fn type_is(ty: Seq<char>, value: Json) -> bool {
    match value {
        Json::Null => ty == "null"@,
        Json::Bool(_) => ty == "boolean"@,
        Json::Int(_) => ty == "integer"@,
        Json::Str(_) => ty == "string"@,
        Json::Arr(_) => ty == "array"@,
        Json::Obj(_) => ty == "object"@,
    }
}

/// A value conforms to a schema, by the keywords `type`, `enum`, `oneOf`, `required`,
/// `properties`, `additionalProperties` and `items`. Other keywords describe and do not restrict.
#[verifier::opaque]
pub open spec fn conforms(schema: Json, value: Json) -> bool
    decreases value, schema,
{
    match schema {
        Json::Obj(s) => {
            &&& s.contains_key("type"@) ==> (s["type"@] matches Json::Str(ty) && type_is(
                ty,
                value,
            ))
            &&& s.contains_key("enum"@) ==> (s["enum"@] matches Json::Arr(choices)
                && choices.contains(value))
            &&& s.contains_key("oneOf"@) ==> match s["oneOf"@] {
                Json::Arr(choices) => exists|i: int|
                    0 <= i < choices.len() && conforms(#[trigger] choices[i], value) && forall|
                        j: int,
                    |
                        0 <= j < choices.len() && j != i ==> !conforms(
                            #[trigger] choices[j],
                            value,
                        ),
                _ => false,
            }
            &&& match value {
                Json::Obj(v) => {
                    &&& s.contains_key("required"@) ==> (s["required"@] matches Json::Arr(names)
                        && forall|i: int|
                        0 <= i < names.len() ==> ((#[trigger] names[i]) matches Json::Str(name)
                            && v.contains_key(name)))
                    &&& forall|k: Seq<char>| #[trigger]
                        v.contains_key(k) ==> (if s.contains_key("properties"@)
                            && s["properties"@] is Obj && s["properties"@]->Obj_0.contains_key(k) {
                            conforms(s["properties"@]->Obj_0[k], v[k])
                        } else if s.contains_key("additionalProperties"@) {
                            s["additionalProperties"@] == Json::Bool(true)
                        } else {
                            true
                        })
                },
                Json::Arr(items) => s.contains_key("items"@) ==> forall|i: int|
                    0 <= i < items.len() ==> conforms(s["items"@], #[trigger] items[i]),
                _ => true,
            }
        },
        _ => false,
    }
}

/// The keywords of a schema differ: by their lengths, or by their first characters.
pub(crate) proof fn lemma_keywords()
    ensures
        "type"@.len() == 4 && "type"@[0] == 't',
        "enum"@.len() == 4 && "enum"@[0] == 'e',
        "oneOf"@.len() == 5 && "oneOf"@[0] == 'o',
        "items"@.len() == 5 && "items"@[0] == 'i',
        "title"@.len() == 5 && "title"@[0] == 't',
        "$schema"@.len() == 7,
        "required"@.len() == 8,
        "properties"@.len() == 10,
        "description"@.len() == 11,
        "additionalProperties"@.len() == 20,
{
    reveal_strlit("type");
    reveal_strlit("enum");
    reveal_strlit("oneOf");
    reveal_strlit("items");
    reveal_strlit("title");
    reveal_strlit("$schema");
    reveal_strlit("required");
    reveal_strlit("properties");
    reveal_strlit("description");
    reveal_strlit("additionalProperties");
}

/// The names of the types differ.
pub(crate) proof fn lemma_types()
    ensures
        "null"@.len() == 4,
        "array"@.len() == 5,
        "object"@.len() == 6 && "object"@[0] == 'o',
        "string"@.len() == 6 && "string"@[0] == 's',
        "boolean"@.len() == 7 && "boolean"@[0] == 'b',
        "integer"@.len() == 7 && "integer"@[0] == 'i',
{
    reveal_strlit("null");
    reveal_strlit("array");
    reveal_strlit("object");
    reveal_strlit("string");
    reveal_strlit("boolean");
    reveal_strlit("integer");
}

/// What conforms to a schema of a type that is not an array or an object.
pub(crate) proof fn lemma_typed(ty: Seq<char>, value: Json)
    ensures
        conforms(schema::typed(ty), value) <==> type_is(ty, value),
{
    reveal(conforms);
    lemma_keywords();
}

/// What conforms to a schema of a type with a description.
pub(crate) proof fn lemma_described(ty: Seq<char>, description: Seq<char>, value: Json)
    ensures
        conforms(schema::described(ty, description), value) <==> type_is(ty, value),
{
    reveal(conforms);
    lemma_keywords();
}

/// A text conforms to the schema of strings.
pub(crate) proof fn lemma_string(s: Seq<char>)
    ensures
        conforms(schema::typed("string"@), Json::Str(s)),
        forall|d: Seq<char>| conforms(#[trigger] schema::described("string"@, d), Json::Str(s)),
{
    lemma_typed("string"@, Json::Str(s));
    assert forall|d: Seq<char>| conforms(
        #[trigger] schema::described("string"@, d),
        Json::Str(s),
    ) by {
        lemma_described("string"@, d, Json::Str(s));
    }
}

/// What conforms to the schema of a string out of a list.
pub(crate) proof fn lemma_choice(choices: Seq<Seq<char>>, i: int)
    requires
        0 <= i < choices.len(),
    ensures
        conforms(schema::one_of_strings(choices), Json::Str(choices[i])),
{
    reveal(conforms);
    lemma_keywords();
    let list = json::strings(choices)->Arr_0;
    assert(list[i] == Json::Str(choices[i]));
    assert(list.contains(Json::Str(choices[i])));
}

/// What conforms to the schema of an array.
pub(crate) proof fn lemma_array(items: Json, value: Json)
    ensures
        conforms(schema::array_of(items), value) <==> (value matches Json::Arr(list) && forall|i: int|
            0 <= i < list.len() ==> conforms(items, #[trigger] list[i])),
{
    reveal(conforms);
    lemma_keywords();
    lemma_types();
}

/// The members of an object are those that a schema asks for, and nothing else.
pub open spec fn fits(
    props: Map<Seq<char>, Json>,
    required: Seq<Seq<char>>,
    v: Map<Seq<char>, Json>,
) -> bool {
    &&& forall|i: int| 0 <= i < required.len() ==> v.contains_key(#[trigger] required[i])
    &&& forall|k: Seq<char>| #[trigger]
        v.contains_key(k) ==> props.contains_key(k) && conforms(props[k], v[k])
}

/// The names that are listed under `required` are there, where the required members are.
proof fn lemma_required(required: Seq<Seq<char>>, v: Map<Seq<char>, Json>)
    requires
        forall|i: int| 0 <= i < required.len() ==> v.contains_key(#[trigger] required[i]),
    ensures
        forall|i: int|
            0 <= i < required.len() ==> ((#[trigger] json::strings(
                required,
            )->Arr_0[i]) matches Json::Str(name) && v.contains_key(name)),
{
    let names = json::strings(required)->Arr_0;
    assert forall|i: int| 0 <= i < required.len() implies ((
    #[trigger] names[i]) matches Json::Str(name) && v.contains_key(name)) by {
        assert(names[i] == Json::Str(required[i]));
    }
}

/// What conforms to the schema of an object that has the required members and none but the given
/// ones.
pub(crate) proof fn lemma_closed_object(
    props: Map<Seq<char>, Json>,
    required: Seq<Seq<char>>,
    v: Map<Seq<char>, Json>,
)
    requires
        fits(props, required, v),
    ensures
        conforms(schema::closed_object(props, required), Json::Obj(v)),
{
    reveal(conforms);
    lemma_keywords();
    lemma_types();
    lemma_required(required, v);
}

/// What conforms to the schema of an output.
pub(crate) proof fn lemma_output(
    title: Seq<char>,
    props: Map<Seq<char>, Json>,
    required: Seq<Seq<char>>,
    v: Map<Seq<char>, Json>,
)
    requires
        fits(props, required, v),
    ensures
        conforms(schema::output_object(title, props, required), Json::Obj(v)),
{
    reveal(conforms);
    lemma_keywords();
    lemma_types();
    lemma_required(required, v);
}

/// What is listed under `required` and is there.
proof fn lemma_required_back(required: Seq<Seq<char>>, v: Map<Seq<char>, Json>)
    requires
        forall|i: int|
            0 <= i < json::strings(required)->Arr_0.len() ==> ((#[trigger] json::strings(
                required,
            )->Arr_0[i]) matches Json::Str(name) && v.contains_key(name)),
    ensures
        forall|i: int| 0 <= i < required.len() ==> v.contains_key(#[trigger] required[i]),
{
    let names = json::strings(required)->Arr_0;
    assert forall|i: int| 0 <= i < required.len() implies v.contains_key(
        #[trigger] required[i],
    ) by {
        assert(names[i] == Json::Str(required[i]));
    }
}

/// Nothing but an object with the required members, and none but the given ones, conforms to the
/// schema of such an object.
pub(crate) proof fn lemma_closed_exact(
    props: Map<Seq<char>, Json>,
    required: Seq<Seq<char>>,
    value: Json,
)
    ensures
        conforms(schema::closed_object(props, required), value) <==> value is Obj && fits(
            props,
            required,
            value->Obj_0,
        ),
{
    if value is Obj && fits(props, required, value->Obj_0) {
        lemma_closed_object(props, required, value->Obj_0);
    }
    if conforms(schema::closed_object(props, required), value) {
        reveal(conforms);
        lemma_keywords();
        lemma_types();
        lemma_required_back(required, value->Obj_0);
    }
}

/// Nothing but an object with the required members, and none but the given ones, conforms to the
/// schema of an output.
pub(crate) proof fn lemma_output_exact(
    title: Seq<char>,
    props: Map<Seq<char>, Json>,
    required: Seq<Seq<char>>,
    value: Json,
)
    ensures
        conforms(schema::output_object(title, props, required), value) <==> value is Obj && fits(
            props,
            required,
            value->Obj_0,
        ),
{
    if value is Obj && fits(props, required, value->Obj_0) {
        lemma_output(title, props, required, value->Obj_0);
    }
    if conforms(schema::output_object(title, props, required), value) {
        reveal(conforms);
        lemma_keywords();
        lemma_types();
        lemma_required_back(required, value->Obj_0);
    }
}

/// Nothing but the listed strings conforms to the schema of a string out of a list, with a
/// description or without one.
pub(crate) proof fn lemma_choice_exact(choices: Seq<Seq<char>>, value: Json)
    ensures
        conforms(schema::one_of_strings(choices), value) <==> value is Str && choices.contains(
            value->Str_0,
        ),
{
    if value is Str && choices.contains(value->Str_0) {
        let i = choose|i: int| 0 <= i < choices.len() && choices[i] == value->Str_0;
        lemma_choice(choices, i);
    }
    if conforms(schema::one_of_strings(choices), value) {
        reveal(conforms);
        lemma_keywords();
        lemma_types();
        let list = json::strings(choices)->Arr_0;
        assert(list.contains(value));
        let i = choose|i: int| 0 <= i < list.len() && list[i] == value;
        assert(choices[i] == value->Str_0);
    }
}

/// Nothing but an array of conforming items conforms to a choice between such an array and a second
/// schema that lets objects pass, besides what conforms to the second one.
pub(crate) proof fn lemma_array_or(items: Json, other: Json, value: Json)
    requires
        conforms(other, value) ==> value is Obj,
    ensures
        conforms(
            Json::Obj(map!["oneOf"@ => Json::Arr(seq![schema::array_of(items), other])]),
            value,
        ) <==> conforms(schema::array_of(items), value) || conforms(other, value),
{
    let choices = seq![schema::array_of(items), other];
    lemma_array(items, value);
    assert(choices[0] == schema::array_of(items) && choices[1] == other);
    if conforms(choices[0], value) {
        lemma_exactly_one(choices, value, 0);
    } else if conforms(choices[1], value) {
        lemma_exactly_one(choices, value, 1);
    } else {
        reveal(conforms);
        lemma_keywords();
        let s = map!["oneOf"@ => Json::Arr(choices)];
        assert(s["oneOf"@] == Json::Arr(choices));
        assert(forall|i: int| 0 <= i < choices.len() ==> !conforms(#[trigger] choices[i], value));
    }
}

/// Every value conforms to the schema of a decoded value.
pub(crate) proof fn lemma_any_value(value: Json)
    ensures
        conforms(schema::any_value(), value),
{
    reveal(conforms);
    lemma_keywords();
}

/// Only an object conforms to the schema of an object.
pub(crate) proof fn lemma_only_objects(
    props: Map<Seq<char>, Json>,
    required: Seq<Seq<char>>,
    value: Json,
)
    ensures
        conforms(schema::closed_object(props, required), value) ==> value is Obj,
{
    reveal(conforms);
    lemma_keywords();
    lemma_types();
}

/// What conforms to exactly one of some schemas conforms to the choice between them.
pub(crate) proof fn lemma_exactly_one(choices: Seq<Json>, value: Json, i: int)
    requires
        0 <= i < choices.len(),
        conforms(choices[i], value),
        forall|j: int| 0 <= j < choices.len() && j != i ==> !conforms(#[trigger] choices[j], value),
    ensures
        conforms(Json::Obj(map!["oneOf"@ => Json::Arr(choices)]), value),
{
    reveal(conforms);
    lemma_keywords();
    let s = map!["oneOf"@ => Json::Arr(choices)];
    assert(s["oneOf"@]->Arr_0[i] == choices[i]);
}

// ───────────────────────── one property ─────────────────────────

/// A property conforms to its schema, whether the dictionary knows it or not.
pub proof fn law_property_conforms(eoj: Seq<u8>, epc: u8, edt: Seq<u8>)
    ensures
        conforms(
            schema::property_schema(),
            Json::Obj(properties::property_members(eoj, epc, edt)),
        ),
{
    let v = properties::property_members(eoj, epc, edt);
    let props = map![
        "epc"@ => schema::described("string"@, "EPC (2 hex 桁, 大文字)"@),
        "name"@ => schema::described("string"@, "既知 EPC の正規名 (辞書にある場合のみ)"@),
        "pdc"@ => schema::described("integer"@, "EDT のバイト長"@),
        "edt_hex"@ => schema::described("string"@, "EDT の生 hex (常に存在しロスレス)"@),
        "value"@ => schema::any_value(),
    ];
    let required = seq!["epc"@, "pdc"@, "edt_hex"@];
    property_laws::lemma_property_keys();
    lemma_string(text::upper_hex(epc));
    lemma_string(text::lower_hex(edt));
    lemma_types();
    lemma_described("integer"@, "EDT のバイト長"@, Json::Int(edt.len() as int));
    if let Some(name) = properties::name_in(properties::names_of(eoj), epc) {
        lemma_string(name);
    }
    if let Some(value) = properties::decoded(eoj, epc, edt) {
        lemma_any_value(value);
    }
    assert(fits(props, required, v));
    lemma_closed_object(props, required, v);
}

/// A list of properties conforms to its schema.
pub(crate) proof fn lemma_props(eoj: Seq<u8>, props: Seq<PropertyView>)
    ensures
        conforms(
            schema::array_of(schema::property_schema()),
            commands::props_array(eoj, props),
        ),
{
    let list = commands::props_array(eoj, props)->Arr_0;
    assert forall|i: int| 0 <= i < list.len() implies conforms(
        schema::property_schema(),
        #[trigger] list[i],
    ) by {
        law_property_conforms(eoj, props[i].epc, props[i].edt);
    }
    lemma_array(schema::property_schema(), commands::props_array(eoj, props));
}

} // verus!
