//! What holds of the command line as a whole.

use vstd::prelude::*;
use vstd::string::*;

use crate::cli::{self, Command};
use crate::codec_laws;
use crate::error::{AppErrorView, ErrKind};
use crate::json;
use crate::properties;
use crate::property_laws;
use crate::text;

verus! {

broadcast use vstd::string::group_string_axioms;

/// Whatever is wrong with the words of a subcommand is an input error, with exit code 1.
pub proof fn law_bad_words_are_usage(command: Command, iface: Option<Seq<u8>>, tid: u16)
    ensures
        cli::task_of(command, iface, tid) matches Err(e) ==> e.kind == ErrKind::Usage
            && e.kind.code() == 1,
{
    match command {
        Command::Get { eoj, epc, .. } => {
            if let Ok(eoj) = cli::eoj_of(eoj@) {
                lemma_epcs_usage(eoj, json::owned_texts(epc@));
            }
        },
        Command::Raw { props, .. } => {
            lemma_props_usage(json::owned_texts(props@));
        },
        _ => {},
    }
}

/// Words that stand for no EPC are an input error.
proof fn lemma_epcs_usage(eoj: Seq<u8>, items: Seq<Seq<char>>)
    ensures
        cli::resolved_epcs(eoj, items) matches Err(e) ==> e.kind == ErrKind::Usage,
    decreases items.len(),
{
    if items.len() > 0 {
        lemma_epcs_usage(eoj, items.drop_last());
    }
}

/// Words that stand for no property are an input error.
proof fn lemma_props_usage(items: Seq<Seq<char>>)
    ensures
        cli::props_of(items) matches Err(e) ==> e.kind == ErrKind::Usage,
    decreases items.len(),
{
    if items.len() > 0 {
        lemma_props_usage(items.drop_last());
    }
}

/// No name of an EPC has two characters, so none can be taken for digits.
proof fn lemma_names_are_long(eoj: Seq<u8>, i: int)
    requires
        0 <= i < properties::names_of(eoj).len(),
    ensures
        properties::names_of(eoj)[i].1.len() > 2,
{
    reveal_strlit("power");
    reveal_strlit("standard_version");
    reveal_strlit("manufacturer");
    reveal_strlit("status_change_map");
    reveal_strlit("set_property_map");
    reveal_strlit("get_property_map");
    reveal_strlit("air_flow");
    reveal_strlit("operation_mode");
    reveal_strlit("target_temperature");
    reveal_strlit("room_temperature");
    reveal_strlit("open_close_operation");
    reveal_strlit("open_level");
    reveal_strlit("open_close_state");
}

/// Every EPC can be given by its two digits, whatever the object, and every EPC with a name by its
/// name.
pub proof fn law_epc_by_digits_or_name(eoj: Seq<u8>, epc: u8)
    ensures
        cli::resolved_epc(eoj, text::upper_hex(epc)) == Ok::<u8, AppErrorView>(epc),
        cli::resolved_epc(eoj, text::lower_hex(seq![epc])) == Ok::<u8, AppErrorView>(epc),
        properties::name_in(properties::names_of(eoj), epc) matches Some(name)
            ==> cli::resolved_epc(eoj, name) == Ok::<u8, AppErrorView>(epc),
{
    let table = properties::names_of(eoj);
    let upper = text::upper_hex(epc);
    let lower = text::lower_hex(seq![epc]);
    if properties::code_in(table, upper) is Some {
        let i = property_laws::lemma_found_code(table, upper);
        lemma_names_are_long(eoj, i);
    }
    if properties::code_in(table, lower) is Some {
        let i = property_laws::lemma_found_code(table, lower);
        lemma_names_are_long(eoj, i);
    }
    property_laws::law_property_lossless(eoj, epc, Seq::empty());
    codec_laws::law_hex_roundtrip(seq![epc]);
    if let Some(name) = properties::name_in(table, epc) {
        property_laws::law_name_and_epc(eoj, epc, name);
    }
}

/// Every name of a range holds a character that is no hexadecimal digit.
proof fn lemma_range_names_are_no_digits(eoj: Seq<u8>, epc: u8, i: int) -> (k: int)
    requires
        properties::range_of(eoj, epc) is Some,
        0 <= i < properties::range_of(eoj, epc)->0.values.len(),
    ensures
        0 <= k < properties::range_of(eoj, epc)->0.values[i].1.len(),
        text::hex_value(properties::range_of(eoj, epc)->0.values[i].1[k]) is None,
{
    reveal_strlit("on");
    reveal_strlit("off");
    reveal_strlit("auto");
    reveal_strlit("cool");
    reveal_strlit("heat");
    reveal_strlit("dry");
    reveal_strlit("fan");
    reveal_strlit("other");
    reveal_strlit("open");
    reveal_strlit("close");
    reveal_strlit("stop");
    reveal_strlit("fully_open");
    reveal_strlit("fully_closed");
    reveal_strlit("opening");
    reveal_strlit("closing");
    reveal_strlit("stopped_midway");
    let name = properties::range_of(eoj, epc)->0.values[i].1;
    if text::hex_value(name[0]) is None {
        0
    } else if text::hex_value(name[1]) is None {
        1
    } else {
        2
    }
}

/// Any data can be given by its digits, and a value of a range by its name.
pub proof fn law_data_by_digits_or_name(eoj: Seq<u8>, epc: u8, edt: Seq<u8>, byte: u8)
    ensures
        cli::resolved_edt(eoj, epc, text::lower_hex(edt)) == Ok::<Seq<u8>, AppErrorView>(edt),
        properties::range_of(eoj, epc) matches Some(range) ==> (properties::name_in(
            range.values,
            byte,
        ) matches Some(name) ==> cli::resolved_edt(eoj, epc, name) == Ok::<Seq<u8>, AppErrorView>(
            seq![byte],
        )),
{
    let digits = text::lower_hex(edt);
    codec_laws::law_hex_roundtrip(edt);
    if properties::byte_of_name(eoj, epc, digits) is Some {
        let values = properties::range_of(eoj, epc)->0.values;
        let i = property_laws::lemma_found_code(values, digits);
        let k = lemma_range_names_are_no_digits(eoj, epc, i);
        text::lemma_digit_roundtrip((edt[k / 2] / 16) as u8);
        text::lemma_digit_roundtrip((edt[k / 2] % 16) as u8);
    }
    if let Some(range) = properties::range_of(eoj, epc) {
        if properties::name_in(range.values, byte) is Some {
            property_laws::law_name_and_value(eoj, epc, byte);
        }
    }
}

} // verus!
