//! The dictionary of properties.

use enl::codec::Eoj;
use enl::properties::{
    build_property_map, class_def, decode, decode_instance_list, edt_for_name, epc_for_name,
    epc_name, epc_values, map_entry_json, parse_property_map, property_json, Class,
};

const AIRCON: Eoj = Eoj([0x01, 0x30, 0x01]);
const SHUTTER: Eoj = Eoj([0x02, 0x63, 0x01]);
const NODE: Eoj = Eoj([0x0E, 0xF0, 0x01]);
const LIGHT: Eoj = Eoj([0x02, 0x91, 0x01]);

#[test]
fn property_map_format1_roundtrip() {
    let epcs = vec![0x80, 0x9D, 0x9E, 0x9F, 0xD6];
    let edt = build_property_map(&epcs);
    assert_eq!(edt[0], 5);
    let parsed = parse_property_map(&edt).unwrap();
    assert_eq!(parsed, epcs);
}

#[test]
fn property_map_format2_roundtrip() {
    let mut epcs: Vec<u8> = (0x80..=0x90).collect();
    let edt = build_property_map(&epcs);
    assert_eq!(edt.len(), 17);
    assert_eq!(edt[0], 17);
    let mut parsed = parse_property_map(&edt).unwrap();
    parsed.sort_unstable();
    epcs.sort_unstable();
    assert_eq!(parsed, epcs);
}

#[test]
fn property_map_bit_layout() {
    let edt = build_property_map(&(0x80..=0x90).collect::<Vec<_>>());
    assert_eq!(edt[1] & 0x01, 0x01);
}

#[test]
fn property_map_bytes_of_seventeen() {
    let edt = build_property_map(&(0x80..=0x90).collect::<Vec<_>>());
    assert_eq!(
        edt,
        vec![17, 0x03, 1, 1, 1, 1, 1, 1, 1, 1, 1, 1, 1, 1, 1, 1, 1]
    );
}

#[test]
fn property_map_long_list_comes_back_in_order() {
    let mut epcs: Vec<u8> = (0xE0..=0xFF).rev().collect();
    epcs.push(0x80);
    epcs.push(0x10);
    let parsed = parse_property_map(&build_property_map(&epcs)).unwrap();
    let mut want: Vec<u8> = vec![0x80];
    want.extend(0xE0..=0xFF);
    assert_eq!(parsed, want);
}

#[test]
fn property_map_too_short() {
    assert_eq!(parse_property_map(&[]), None);
    assert_eq!(parse_property_map(&[2, 0x80]), None);
    assert_eq!(parse_property_map(&[16, 0, 0]), None);
    assert_eq!(parse_property_map(&[0]), Some(vec![]));
    // Bytes behind the list are ignored.
    assert_eq!(parse_property_map(&[1, 0x80, 0x81]), Some(vec![0x80]));
}

#[test]
fn instance_list_decode() {
    let edt = vec![0x02, 0x01, 0x30, 0x01, 0x02, 0x60, 0x01];
    let v = decode_instance_list(&edt).unwrap();
    assert_eq!(v["count"], 2);
    assert_eq!(v["instances"][0], "013001");
}

#[test]
fn instance_list_truncated_no_panic() {
    let edt = vec![0x05, 0x01, 0x30];
    let v = decode_instance_list(&edt).unwrap();
    assert_eq!(v["count"], 5);
    assert_eq!(v["instances"].as_array().unwrap().len(), 0);
}

#[test]
fn instance_list_of_nothing() {
    assert!(decode_instance_list(&[]).is_none());
    let v = decode(NODE, 0xD6, &[1, 0x02, 0x91, 0x01, 0xFF]).unwrap();
    assert_eq!(v["instances"].as_array().unwrap().len(), 1);
    assert_eq!(v["instances"][0], "029101");
    assert!(decode(NODE, 0xD5, &[1]).is_none());
}

#[test]
fn on_off_decode() {
    assert_eq!(decode(AIRCON, 0x80, &[0x30]).unwrap()["power"], "on");
    assert_eq!(decode(AIRCON, 0x80, &[0x31]).unwrap()["power"], "off");
}

#[test]
fn unknown_epc_returns_none() {
    assert!(decode(AIRCON, 0xFF, &[0xAB]).is_none());
}

#[test]
fn unknown_byte_of_a_range() {
    assert_eq!(decode(AIRCON, 0x80, &[0x99]).unwrap()["power"], "unknown");
    assert_eq!(decode(AIRCON, 0x80, &[]).unwrap()["power"], "unknown");
}

#[test]
fn version_device_release() {
    let v = decode(SHUTTER, 0x82, &[0x00, 0x00, 0x50, 0x02]).unwrap();
    assert_eq!(v["release"], "P");
    assert_eq!(v["revision"], 2);
}

#[test]
fn version_node_profile_protocol() {
    let v = decode(NODE, 0x82, &[0x01, 0x0D, 0x01, 0x00]).unwrap();
    assert_eq!(v["protocol_version"], "1.13");
    assert_eq!(v["message_format"], "specified");
}

#[test]
fn version_node_profile_formats() {
    let v = decode(NODE, 0x82, &[0, 255, 2, 0]).unwrap();
    assert_eq!(v["protocol_version"], "0.255");
    assert_eq!(v["message_format"], "arbitrary");
    let v = decode(NODE, 0x82, &[1, 1, 3, 0]).unwrap();
    assert_eq!(v["message_format"], "unknown");
    assert!(decode(NODE, 0x82, &[1, 1, 1]).is_none());
}

#[test]
fn version_non_ascii_release_none() {
    assert!(decode(SHUTTER, 0x82, &[0x00, 0x00, 0x00, 0x00]).is_none());
}

#[test]
fn version_release_is_visible() {
    assert!(decode(SHUTTER, 0x82, &[0, 0, 0x20, 0]).is_none());
    assert!(decode(SHUTTER, 0x82, &[0, 0, 0x7F, 0]).is_none());
    assert_eq!(decode(SHUTTER, 0x82, &[0, 0, 0x21, 9]).unwrap()["release"], "!");
    assert_eq!(decode(SHUTTER, 0x82, &[0, 0, 0x7E, 9]).unwrap()["release"], "~");
}

#[test]
fn manufacturer_known() {
    let v = decode(SHUTTER, 0x8A, &[0x00, 0x00, 0x0B]).unwrap();
    assert_eq!(v["manufacturer_code"], "00000B");
    assert_eq!(v["manufacturer"], "パナソニック");
}

#[test]
fn manufacturer_unknown_hex_only() {
    let v = decode(SHUTTER, 0x8A, &[0xAB, 0xCD, 0xEF]).unwrap();
    assert_eq!(v["manufacturer_code"], "ABCDEF");
    assert!(v.get("manufacturer").is_none());
}

#[test]
fn manufacturer_needs_three_bytes() {
    assert!(decode(LIGHT, 0x8A, &[0, 0]).is_none());
    assert!(decode(LIGHT, 0x8A, &[0, 0, 0x0B, 0]).is_none());
    let v = decode(LIGHT, 0x8A, &[0, 0, 0xC5]).unwrap();
    assert_eq!(v["manufacturer"], "三和シヤッター工業");
    assert!(decode(LIGHT, 0x8A, &[1, 0, 0xC5]).unwrap().get("manufacturer").is_none());
}

#[test]
fn shutter_operation_and_state() {
    assert_eq!(decode(SHUTTER, 0xE0, &[0x42]).unwrap()["operation"], "close");
    assert_eq!(
        decode(SHUTTER, 0xE1, &[0x32]).unwrap()["open_level_percent"],
        50
    );
    assert_eq!(decode(SHUTTER, 0xEA, &[0x43]).unwrap()["state"], "opening");
}

#[test]
fn shutter_epc_only_applies_to_shutter_class() {
    assert!(decode(AIRCON, 0xE0, &[0x41]).is_none());
}

#[test]
fn aircon_operation_mode() {
    assert_eq!(decode(AIRCON, 0xB0, &[0x42]).unwrap()["operation_mode"], "cool");
    assert_eq!(decode(AIRCON, 0xB0, &[0x43]).unwrap()["operation_mode"], "heat");
    assert_eq!(decode(AIRCON, 0xB0, &[0x40]).unwrap()["operation_mode"], "other");
}

#[test]
fn aircon_temp_setpoint() {
    assert_eq!(decode(AIRCON, 0xB3, &[0x1A]).unwrap()["temp_setpoint_c"], 26);
    assert!(decode(AIRCON, 0xB3, &[0xFD]).unwrap()["temp_setpoint_c"].is_null());
}

#[test]
fn aircon_room_temp_signed() {
    assert_eq!(decode(AIRCON, 0xBB, &[0x19]).unwrap()["room_temp_c"], 25);
    assert_eq!(decode(AIRCON, 0xBB, &[0xFB]).unwrap()["room_temp_c"], -5);
}

#[test]
fn aircon_room_temp_limits() {
    assert_eq!(decode(AIRCON, 0xBB, &[0x7F]).unwrap()["room_temp_c"], 127);
    assert_eq!(decode(AIRCON, 0xBB, &[0x80]).unwrap()["room_temp_c"], -128);
    assert!(decode(AIRCON, 0xBB, &[]).is_none());
}

#[test]
fn aircon_air_flow() {
    assert_eq!(decode(AIRCON, 0xA0, &[0x41]).unwrap()["air_flow"], "auto");
    assert_eq!(decode(AIRCON, 0xA0, &[0x33]).unwrap()["air_flow_level"], 3);
}

#[test]
fn aircon_air_flow_limits() {
    assert_eq!(decode(AIRCON, 0xA0, &[0x38]).unwrap()["air_flow_level"], 8);
    assert!(decode(AIRCON, 0xA0, &[0x30]).is_none());
    assert!(decode(AIRCON, 0xA0, &[0x39]).is_none());
}

#[test]
fn property_map_is_decoded_as_digits() {
    let v = decode(LIGHT, 0x9F, &[2, 0x80, 0xB0]).unwrap();
    assert_eq!(v.to_string(), r#"{"property_map":["80","B0"]}"#);
    assert!(decode(LIGHT, 0x9D, &[]).is_none());
}

#[test]
fn epc_name_common_and_class() {
    assert_eq!(epc_name(SHUTTER, 0x8A), Some("manufacturer"));
    assert_eq!(epc_name(SHUTTER, 0xEA), Some("open_close_state"));
    assert_eq!(epc_name(AIRCON, 0xB0), Some("operation_mode"));
    assert_eq!(epc_name(AIRCON, 0xEA), None);
    assert_eq!(epc_name(SHUTTER, 0x77), None);
}

#[test]
fn epc_for_name_roundtrip() {
    assert_eq!(epc_for_name(AIRCON, "operation_mode"), Some(0xB0));
    assert_eq!(epc_for_name(AIRCON, "power"), Some(0x80));
    assert_eq!(epc_for_name(AIRCON, "open_close_state"), None);
    assert_eq!(epc_for_name(AIRCON, "bogus"), None);
    let epc = epc_for_name(AIRCON, "room_temperature").unwrap();
    assert_eq!(epc_name(AIRCON, epc), Some("room_temperature"));
}

#[test]
fn names_and_epcs_lead_to_each_other() {
    for eoj in [AIRCON, SHUTTER, NODE, LIGHT] {
        for epc in 0..=255u8 {
            if let Some(name) = epc_name(eoj, epc) {
                assert_eq!(epc_for_name(eoj, name), Some(epc));
            }
        }
    }
}

#[test]
fn epc_values_enum_only() {
    let v = epc_values(SHUTTER, 0xE0).unwrap();
    assert_eq!(v["41"], "open");
    assert_eq!(v["42"], "close");
    assert_eq!(v["43"], "stop");
    assert_eq!(epc_values(AIRCON, 0x80).unwrap()["30"], "on");
    assert!(epc_values(SHUTTER, 0xE1).is_none());
    assert!(epc_values(AIRCON, 0xB3).is_none());
    assert!(epc_values(SHUTTER, 0x77).is_none());
}

#[test]
fn enum_decode_matches_values_catalog() {
    let values = epc_values(SHUTTER, 0xEA).unwrap();
    for (hex, meaning) in values.as_object().unwrap() {
        let byte = u8::from_str_radix(hex, 16).unwrap();
        let decoded = decode(SHUTTER, 0xEA, &[byte]).unwrap();
        assert_eq!(decoded["state"], *meaning);
    }
}

#[test]
fn value_names_and_bytes_lead_to_each_other() {
    let cases = [
        (AIRCON, 0xB0, "operation_mode"),
        (SHUTTER, 0xE0, "operation"),
        (SHUTTER, 0xEA, "state"),
        (LIGHT, 0x80, "power"),
    ];
    for (eoj, epc, key) in cases {
        for byte in 0..=255u8 {
            let decoded = decode(eoj, epc, &[byte]).unwrap();
            let name = decoded[key].as_str().unwrap();
            if name != "unknown" {
                assert_eq!(edt_for_name(eoj, epc, name), Some(byte));
            }
        }
    }
    assert_eq!(edt_for_name(SHUTTER, 0xE0, "bogus"), None);
    assert_eq!(edt_for_name(SHUTTER, 0xE1, "open"), None);
}

#[test]
fn property_json_includes_name() {
    let v = property_json(AIRCON, 0xB0, &[0x42]);
    assert_eq!(v["epc"], "B0");
    assert_eq!(v["name"], "operation_mode");
    assert_eq!(v["value"]["operation_mode"], "cool");
}

#[test]
fn unknown_property_is_raw() {
    let v = property_json(LIGHT, 0xF3, &[0xDE, 0xAD]);
    assert_eq!(v.to_string(), r#"{"edt_hex":"dead","epc":"F3","pdc":2}"#);
}

#[test]
fn map_entry_json_shapes() {
    let v = map_entry_json(SHUTTER, 0xE0);
    assert_eq!(v["epc"], "E0");
    assert_eq!(v["name"], "open_close_operation");
    assert_eq!(v["values"]["42"], "close");
    let v = map_entry_json(SHUTTER, 0xE1);
    assert_eq!(v["name"], "open_level");
    assert!(v.get("values").is_none());
    let v = map_entry_json(SHUTTER, 0x77);
    assert_eq!(v["epc"], "77");
    assert!(v.get("name").is_none());
    assert!(v.get("values").is_none());
}

#[test]
fn classes_that_the_dictionary_knows() {
    assert_eq!(class_def(AIRCON), Some(Class::Aircon));
    assert_eq!(class_def(SHUTTER), Some(Class::Shutter));
    assert_eq!(class_def(NODE), Some(Class::NodeProfile));
    assert_eq!(class_def(LIGHT), None);
}
