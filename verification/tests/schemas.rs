//! The JSON Schemas of the outputs.

use enl::schema::{all, for_target, get, property, DIALECT};

const TARGETS: [&str; 6] = ["discover", "get", "set", "describe", "raw", "listen"];

#[test]
fn all_covers_every_target() {
    let all = all();
    let obj = all.as_object().unwrap();
    assert_eq!(obj.len(), TARGETS.len());
    for t in TARGETS {
        assert!(obj.contains_key(t), "{t} 欠落");
    }
}

#[test]
fn each_schema_is_valid_object_with_dialect() {
    for t in TARGETS {
        let s = for_target(Some(t));
        assert_eq!(s["$schema"], DIALECT, "{t} に $schema 無し");
        assert_eq!(s["type"], "object", "{t} の type が object でない");
        assert!(s["properties"].is_object(), "{t} に properties 無し");
        assert!(s["required"].is_array(), "{t} に required 無し");
    }
}

#[test]
fn none_returns_all() {
    assert_eq!(for_target(None), all());
}

#[test]
fn get_property_items_lossless() {
    let schema = get();
    let req = &schema["properties"]["properties"]["items"]["required"];
    let req: Vec<&str> = req
        .as_array()
        .unwrap()
        .iter()
        .map(|v| v.as_str().unwrap())
        .collect();
    for k in ["epc", "pdc", "edt_hex"] {
        assert!(req.contains(&k), "property に {k} 必須が無い");
    }
}

#[test]
fn an_unknown_target_gives_all() {
    assert_eq!(for_target(Some("bogus")), all());
    assert_eq!(for_target(Some("get")), all()["get"]);
}

#[test]
fn set_result_covers_accepted_and_sent() {
    let schema = for_target(Some("set"));
    let vals: Vec<&str> = schema["properties"]["result"]["enum"]
        .as_array()
        .unwrap()
        .iter()
        .map(|v| v.as_str().unwrap())
        .collect();
    assert_eq!(vals, vec!["accepted", "sent"]);
}

#[test]
fn objects_are_closed() {
    let p = property();
    assert_eq!(p["additionalProperties"], false);
    assert_eq!(p["properties"]["pdc"]["type"], "integer");
    let set = for_target(Some("set"));
    assert_eq!(set["title"], "enl set output");
    let describe = for_target(Some("describe"));
    let choices = &describe["properties"]["get_map"]["oneOf"];
    assert_eq!(choices.as_array().unwrap().len(), 2);
    assert_eq!(choices[0]["type"], "array");
    assert_eq!(choices[1]["required"][0], "edt_hex");
    let listen = for_target(Some("listen"));
    let esv = &listen["properties"]["events"]["items"]["properties"]["esv"]["enum"];
    assert_eq!(esv[0], "Inf");
    assert_eq!(esv[1], "InfC");
}
