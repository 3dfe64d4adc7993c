//! What holds of the dictionary of properties as a whole.

use vstd::prelude::*;
use vstd::string::*;

use crate::codec;
use crate::codec_laws;
use crate::json::Json;
use crate::properties::{self, Entries};
use crate::text;

verus! {

broadcast use vstd::string::group_string_axioms;

// ───────────────────────── tables ─────────────────────────

/// No code occurs twice in a table.
pub open spec fn distinct_codes(table: Entries) -> bool {
    forall|i: int, j: int|
        0 <= i < j < table.len() ==> (#[trigger] table[i]).0 != (#[trigger] table[j]).0
}

/// No name occurs twice in a table.
pub open spec fn distinct_names(table: Entries) -> bool {
    forall|i: int, j: int|
        0 <= i < j < table.len() ==> (#[trigger] table[i]).1 != (#[trigger] table[j]).1
}

/// A name that is found stands in the table.
pub(crate) proof fn lemma_found_name(table: Entries, code: u8) -> (i: int)
    requires
        properties::name_in(table, code) is Some,
    ensures
        0 <= i < table.len(),
        table[i] == (code, properties::name_in(table, code)->0),
    decreases table.len(),
{
    if table[0].0 == code {
        0
    } else {
        lemma_found_name(table.skip(1), code) + 1
    }
}

/// A code that is found stands in the table.
pub(crate) proof fn lemma_found_code(table: Entries, name: Seq<char>) -> (i: int)
    requires
        properties::code_in(table, name) is Some,
    ensures
        0 <= i < table.len(),
        table[i] == (properties::code_in(table, name)->0, name),
    decreases table.len(),
{
    if table[0].1 == name {
        0
    } else {
        lemma_found_code(table.skip(1), name) + 1
    }
}

/// Where no code occurs twice, every entry is found by its code.
pub(crate) proof fn lemma_name_of_entry(table: Entries, i: int)
    requires
        distinct_codes(table),
        0 <= i < table.len(),
    ensures
        properties::name_in(table, table[i].0) == Some(table[i].1),
    decreases table.len(),
{
    if i > 0 {
        let rest = table.skip(1);
        assert(forall|k: int| 0 <= k < rest.len() ==> #[trigger] rest[k] == table[k + 1]);
        lemma_name_of_entry(rest, i - 1);
        assert(table[0].0 != table[i].0);
    }
}

/// Where no name occurs twice, every entry is found by its name.
pub(crate) proof fn lemma_code_of_entry(table: Entries, i: int)
    requires
        distinct_names(table),
        0 <= i < table.len(),
    ensures
        properties::code_in(table, table[i].1) == Some(table[i].0),
    decreases table.len(),
{
    if i > 0 {
        let rest = table.skip(1);
        assert(forall|k: int| 0 <= k < rest.len() ==> #[trigger] rest[k] == table[k + 1]);
        lemma_code_of_entry(rest, i - 1);
        assert(table[0].1 != table[i].1);
    }
}

/// A table in front of another one decides first.
proof fn lemma_front_first(front: Entries, back: Entries, code: u8, name: Seq<char>)
    ensures
        properties::name_in(front + back, code) == (match properties::name_in(front, code) {
            Some(n) => Some(n),
            None => properties::name_in(back, code),
        }),
        properties::code_in(front + back, name) == (match properties::code_in(front, name) {
            Some(c) => Some(c),
            None => properties::code_in(back, name),
        }),
    decreases front.len(),
{
    if front.len() == 0 {
        assert(front + back =~= back);
    } else {
        assert((front + back).skip(1) =~= front.skip(1) + back);
        assert((front + back)[0] == front[0]);
        lemma_front_first(front.skip(1), back, code, name);
    }
}

/// No EPC has two names.
pub(crate) proof fn lemma_name_tables(eoj: Seq<u8>)
    ensures
        distinct_codes(properties::names_of(eoj)),
{
}

/// The names of the EPCs of an object differ.
proof fn lemma_names_differ(eoj: Seq<u8>)
    ensures
        distinct_names(properties::names_of(eoj)),
{
    reveal_strlit("power");
    reveal_strlit("standard_version");
    reveal_strlit("manufacturer");
    reveal_strlit("status_change_map");
    reveal_strlit("set_property_map");
    reveal_strlit("get_property_map");
    reveal_strlit("air_flow");
    reveal_strlit("operation_mode");
    reveal_strlit("target_temperature");
    reveal_strlit("room_temperature");
    reveal_strlit("open_close_operation");
    reveal_strlit("open_level");
    reveal_strlit("open_close_state");
    let all = properties::names_of(eoj);
    assert forall|i: int, j: int| 0 <= i < j < all.len() implies (#[trigger] all[i]).1 != (
    #[trigger] all[j]).1 by {
        let a = all[i].1;
        let b = all[j].1;
        if a == b {
            assert(a.len() == b.len());
            assert(a[0] == b[0] && a[1] == b[1] && a[2] == b[2] && a[5] == b[5]);
            assert(a[11] == b[11]);
        }
    }
}

/// Names and EPCs lead to each other: an EPC that a name leads to has that name, and the name of an
/// EPC leads back to it.
pub proof fn law_name_and_epc(eoj: Seq<u8>, epc: u8, name: Seq<char>)
    ensures
        properties::name_in(properties::names_of(eoj), epc) == Some(name) <==> properties::code_in(
            properties::names_of(eoj),
            name,
        ) == Some(epc),
{
    let table = properties::names_of(eoj);
    lemma_name_tables(eoj);
    lemma_names_differ(eoj);
    if properties::name_in(table, epc) == Some(name) {
        let i = lemma_found_name(table, epc);
        lemma_code_of_entry(table, i);
    }
    if properties::code_in(table, name) == Some(epc) {
        let i = lemma_found_code(table, name);
        lemma_name_of_entry(table, i);
    }
}

/// The class of an object decides before what all devices share, for names and for EPCs.
pub proof fn law_class_first(eoj: Seq<u8>, epc: u8, name: Seq<char>)
    ensures
        properties::name_in(properties::names_of(eoj), epc) == (match properties::name_in(
            properties::class_names(properties::class_of(eoj)),
            epc,
        ) {
            Some(n) => Some(n),
            None => properties::name_in(properties::common_names(), epc),
        }),
        properties::code_in(properties::names_of(eoj), name) == (match properties::code_in(
            properties::class_names(properties::class_of(eoj)),
            name,
        ) {
            Some(c) => Some(c),
            None => properties::code_in(properties::common_names(), name),
        }),
{
    lemma_front_first(
        properties::class_names(properties::class_of(eoj)),
        properties::common_names(),
        epc,
        name,
    );
}

// ───────────────────────── value ranges ─────────────────────────

/// No byte of a range has two names.
pub(crate) proof fn lemma_range_codes(eoj: Seq<u8>, epc: u8)
    requires
        properties::range_of(eoj, epc) is Some,
    ensures
        distinct_codes(properties::range_of(eoj, epc)->0.values),
{
}

/// The names of the bytes of a range differ.
pub(crate) proof fn lemma_range_names(eoj: Seq<u8>, epc: u8)
    requires
        properties::range_of(eoj, epc) is Some,
    ensures
        distinct_names(properties::range_of(eoj, epc)->0.values),
{
    reveal_strlit("on");
    reveal_strlit("off");
    reveal_strlit("auto");
    reveal_strlit("cool");
    reveal_strlit("heat");
    reveal_strlit("dry");
    reveal_strlit("fan");
    reveal_strlit("other");
    reveal_strlit("open");
    reveal_strlit("close");
    reveal_strlit("stop");
    reveal_strlit("fully_open");
    reveal_strlit("fully_closed");
    reveal_strlit("opening");
    reveal_strlit("closing");
    reveal_strlit("stopped_midway");
    let all = properties::range_of(eoj, epc)->0.values;
    assert forall|i: int, j: int| 0 <= i < j < all.len() implies (#[trigger] all[i]).1 != (
    #[trigger] all[j]).1 by {
        let a = all[i].1;
        let b = all[j].1;
        if a == b {
            assert(a.len() == b.len());
            assert(a[0] == b[0]);
        }
    }
}

/// A byte and a name of a range lead to each other: setting a value by its name sends the byte that
/// decodes to that name.
pub proof fn law_value_and_name(eoj: Seq<u8>, epc: u8, byte: u8, name: Seq<char>)
    requires
        properties::byte_of_name(eoj, epc, name) == Some(byte),
    ensures
        properties::range_of(eoj, epc) is Some,
        properties::decoded(eoj, epc, seq![byte]) == Some(
            properties::member(properties::range_of(eoj, epc)->0.key, Json::Str(name)),
        ),
{
    let values = properties::range_of(eoj, epc)->0.values;
    lemma_range_codes(eoj, epc);
    let i = lemma_found_code(values, name);
    lemma_name_of_entry(values, i);
}

/// The name that a byte of a range decodes to is the name by which the byte can be set.
pub proof fn law_name_and_value(eoj: Seq<u8>, epc: u8, byte: u8)
    requires
        properties::range_of(eoj, epc) is Some,
        properties::name_in(properties::range_of(eoj, epc)->0.values, byte) is Some,
    ensures
        properties::byte_of_name(
            eoj,
            epc,
            properties::name_in(properties::range_of(eoj, epc)->0.values, byte)->0,
        ) == Some(byte),
{
    let values = properties::range_of(eoj, epc)->0.values;
    lemma_range_names(eoj, epc);
    let i = lemma_found_name(values, byte);
    lemma_code_of_entry(values, i);
}

/// Two bytes with the same digits are the same byte.
proof fn lemma_upper_hex_injective(a: u8, b: u8)
    requires
        text::upper_hex(a) == text::upper_hex(b),
    ensures
        a == b,
{
    assert(text::upper_hex(a)[0] == text::upper_hex(b)[0]);
    assert(text::upper_hex(a)[1] == text::upper_hex(b)[1]);
    text::lemma_digit_roundtrip((a / 16) as u8);
    text::lemma_digit_roundtrip((a % 16) as u8);
    text::lemma_digit_roundtrip((b / 16) as u8);
    text::lemma_digit_roundtrip((b % 16) as u8);
}

/// The members of a range hold each byte of it under its digits.
pub(crate) proof fn lemma_range_members(values: Entries, byte: u8)
    requires
        distinct_codes(values),
    ensures
        properties::range_members(values).contains_key(text::upper_hex(byte)) <==> exists|i: int|
            0 <= i < values.len() && (#[trigger] values[i]).0 == byte,
        forall|i: int|
            0 <= i < values.len() && (#[trigger] values[i]).0 == byte
                ==> properties::range_members(values)[text::upper_hex(byte)] == Json::Str(
                values[i].1,
            ),
    decreases values.len(),
{
    if values.len() > 0 {
        let front = values.drop_last();
        let last = values.last();
        assert(forall|i: int| 0 <= i < front.len() ==> #[trigger] front[i] == values[i]);
        lemma_range_members(front, byte);
        if text::upper_hex(byte) == text::upper_hex(last.0) {
            lemma_upper_hex_injective(byte, last.0);
            assert(values[values.len() - 1].0 == byte);
        } else {
            assert(forall|i: int|
                0 <= i < values.len() && (#[trigger] values[i]).0 == byte ==> i < front.len()
                    && front[i].0 == byte);
        }
    }
}

/// The range that is listed for an EPC and the decoding of its data agree: a byte stands in the list
/// exactly if it decodes to a name, and under the same name.
pub proof fn law_range_agrees_with_decoding(eoj: Seq<u8>, epc: u8, byte: u8)
    requires
        properties::range_of(eoj, epc) is Some,
    ensures
        ({
            let range = properties::range_of(eoj, epc)->0;
            let listed = properties::range_json(eoj, epc)->0->Obj_0;
            let digits = text::upper_hex(byte);
            &&& properties::range_json(eoj, epc) == Some(Json::Obj(listed))
            &&& listed.contains_key(digits) <==> properties::name_in(range.values, byte) is Some
            &&& listed.contains_key(digits) ==> properties::decoded(eoj, epc, seq![byte]) == Some(
                properties::member(range.key, listed[digits]),
            )
            &&& !listed.contains_key(digits) ==> properties::decoded(eoj, epc, seq![byte]) == Some(
                properties::member(range.key, Json::Str("unknown"@)),
            )
        }),
{
    let values = properties::range_of(eoj, epc)->0.values;
    lemma_range_codes(eoj, epc);
    lemma_range_members(values, byte);
    if properties::name_in(values, byte) is Some {
        let i = lemma_found_name(values, byte);
        assert(values[i].0 == byte);
    }
    if properties::range_members(values).contains_key(text::upper_hex(byte)) {
        let i = choose|i: int| 0 <= i < values.len() && (#[trigger] values[i]).0 == byte;
        lemma_name_of_entry(values, i);
    }
}

// ───────────────────────── property maps ─────────────────────────

/// A list in ascending order, without repetition.
pub open spec fn ascending(epcs: Seq<u8>) -> bool {
    forall|i: int, j: int| 0 <= i < j < epcs.len() ==> epcs[i] < epcs[j]
}

/// What a filter leaves of an ascending list is ascending, and holds what passes.
pub(crate) proof fn lemma_filter_ascending(all: Seq<u8>, keep: spec_fn(u8) -> bool)
    requires
        ascending(all),
    ensures
        ascending(all.filter(keep)),
        forall|e: u8| #[trigger] all.filter(keep).contains(e) <==> all.contains(e) && keep(e),
    decreases all.len(),
{
    reveal_with_fuel(Seq::filter, 1);
    if all.len() > 0 {
        let front = all.drop_last();
        let last = all.last();
        assert(ascending(front));
        lemma_filter_ascending(front, keep);
        let kept = front.filter(keep);
        assert forall|e: u8| all.contains(e) <==> front.contains(e) || e == last by {
            if all.contains(e) {
                let i = choose|i: int| 0 <= i < all.len() && all[i] == e;
                if i < front.len() {
                    assert(front[i] == e);
                }
            }
            if front.contains(e) {
                let i = choose|i: int| 0 <= i < front.len() && front[i] == e;
                assert(all[i] == e);
            }
            assert(all[all.len() - 1] == last);
        }
        if keep(last) {
            let now = kept.push(last);
            assert(all.filter(keep) =~= now);
            assert forall|e: u8| now.contains(e) <==> kept.contains(e) || e == last by {
                if now.contains(e) {
                    let i = choose|i: int| 0 <= i < now.len() && now[i] == e;
                    if i < kept.len() {
                        assert(kept[i] == e);
                    }
                }
                if kept.contains(e) {
                    let i = choose|i: int| 0 <= i < kept.len() && kept[i] == e;
                    assert(now[i] == e);
                }
                assert(now[kept.len() as int] == last);
            }
            assert forall|i: int, j: int| 0 <= i < j < now.len() implies now[i] < now[j] by {
                if j == kept.len() {
                    assert(kept.contains(kept[i]));
                    assert(front.contains(kept[i]));
                    let k = choose|k: int| 0 <= k < front.len() && front[k] == kept[i];
                    assert(all[k] < all[all.len() - 1]);
                }
            }
        }
    }
}

/// Two ascending lists with the same members are the same list.
proof fn lemma_ascending_unique(a: Seq<u8>, b: Seq<u8>)
    requires
        ascending(a),
        ascending(b),
        forall|e: u8| a.contains(e) <==> b.contains(e),
    ensures
        a == b,
    decreases a.len(),
{
    if a.len() == 0 {
        if b.len() > 0 {
            assert(b.contains(b[0]));
            assert(a.contains(b[0]));
        }
        assert(a =~= b);
    } else {
        assert(a.contains(a.last()));
        assert(b.contains(a.last()));
        assert(b.contains(b.last()));
        assert(a.contains(b.last()));
        let i = choose|i: int| 0 <= i < a.len() && a[i] == b.last();
        let j = choose|j: int| 0 <= j < b.len() && b[j] == a.last();
        assert(a.last() == b.last());
        let x = a.drop_last();
        let y = b.drop_last();
        assert forall|e: u8| x.contains(e) <==> y.contains(e) by {
            if x.contains(e) {
                let k = choose|k: int| 0 <= k < x.len() && x[k] == e;
                assert(a[k] == e && a.contains(e));
                let m = choose|m: int| 0 <= m < b.len() && b[m] == e;
                assert(e < a.last());
                assert(y[m] == e);
            }
            if y.contains(e) {
                let k = choose|k: int| 0 <= k < y.len() && y[k] == e;
                assert(b[k] == e && b.contains(e));
                let m = choose|m: int| 0 <= m < a.len() && a[m] == e;
                assert(e < b.last());
                assert(x[m] == e);
            }
        }
        lemma_ascending_unique(x, y);
        assert(a =~= x.push(a.last()));
        assert(b =~= y.push(b.last()));
    }
}

/// The EPCs from 0x80 on.
pub(crate) proof fn lemma_all_epcs()
    ensures
        ascending(properties::all_epcs()),
        forall|e: u8| #[trigger] properties::all_epcs().contains(e) <==> e >= 0x80,
{
    let all = properties::all_epcs();
    assert forall|e: u8| #[trigger] all.contains(e) <==> e >= 0x80 by {
        if e >= 0x80 {
            assert(all[e - 128] == e);
        }
    }
}

/// A bitmap lists exactly the EPCs that it was made of.
proof fn lemma_bitmap_lists(epcs: Seq<u8>, epc: u8)
    requires
        epc >= 0x80,
    ensures
        properties::lists(properties::bitmap_of(epcs), epc) <==> epcs.contains(epc),
{
    let i = epc as int % 16;
    let bit = (epc / 16 - 8) as u8;
    properties::lemma_bits_of_byte(|b: u8| epcs.contains(properties::epc_at(i, b)), bit);
    assert(properties::epc_at(i, bit) == epc);
}

/// A property map with fewer than 16 EPCs is read back as it was written.
pub proof fn law_short_map_roundtrip(epcs: Seq<u8>)
    requires
        epcs.len() < 16,
    ensures
        properties::map_epcs(properties::property_map_bytes(epcs)) == Some(epcs),
{
    let edt = properties::property_map_bytes(epcs);
    assert(edt.subrange(1, 1 + edt[0]) =~= epcs);
}

/// A property map with 16 EPCs or more is read back as the list, in ascending order, of those of its
/// EPCs that a bitmap has room for.
pub proof fn law_long_map_roundtrip(epcs: Seq<u8>)
    requires
        16 <= epcs.len() <= 255,
    ensures
        properties::map_epcs(properties::property_map_bytes(epcs)) is Some,
        ({
            let read = properties::map_epcs(properties::property_map_bytes(epcs))->0;
            &&& ascending(read)
            &&& forall|e: u8| #[trigger] read.contains(e) <==> epcs.contains(e) && e >= 0x80
        }),
{
    let edt = properties::property_map_bytes(epcs);
    let bitmap = properties::bitmap_of(epcs);
    assert(edt.subrange(1, 17) =~= bitmap);
    lemma_all_epcs();
    lemma_filter_ascending(properties::all_epcs(), |e: u8| properties::lists(bitmap, e));
    assert forall|e: u8| #[trigger] properties::bitmap_epcs(bitmap).contains(e) <==> epcs.contains(
        e,
    ) && e >= 0x80 by {
        assert(properties::all_epcs().contains(e) <==> e >= 0x80);
        if e >= 0x80 {
            lemma_bitmap_lists(epcs, e);
        }
    }
}

/// A property map with 16 EPCs or more, in ascending order and none below 0x80, is read back as it
/// was written.
pub proof fn law_ascending_map_roundtrip(epcs: Seq<u8>)
    requires
        16 <= epcs.len() <= 255,
        ascending(epcs),
        forall|i: int| 0 <= i < epcs.len() ==> #[trigger] epcs[i] >= 0x80,
    ensures
        properties::map_epcs(properties::property_map_bytes(epcs)) == Some(epcs),
{
    law_long_map_roundtrip(epcs);
    let read = properties::map_epcs(properties::property_map_bytes(epcs))->0;
    assert forall|e: u8| read.contains(e) <==> epcs.contains(e) by {
        assert(read.contains(e) <==> epcs.contains(e) && e >= 0x80);
    }
    lemma_ascending_unique(read, epcs);
}

/// Whatever a bitmap holds, the EPCs that are read from it are in ascending order, and none is below
/// 0x80.
pub proof fn law_bitmap_ascending(edt: Seq<u8>)
    requires
        edt.len() >= 17,
        edt[0] >= 16,
    ensures
        properties::map_epcs(edt) is Some,
        ascending(properties::map_epcs(edt)->0),
        forall|e: u8| #[trigger] properties::map_epcs(edt)->0.contains(e) ==> e >= 0x80,
{
    let bitmap = edt.subrange(1, 17);
    lemma_all_epcs();
    lemma_filter_ascending(properties::all_epcs(), |e: u8| properties::lists(bitmap, e));
    assert forall|e: u8| #[trigger] properties::bitmap_epcs(bitmap).contains(e) implies e
        >= 0x80 by {
        assert(properties::all_epcs().contains(e));
    }
}

// ───────────────────────── no loss ─────────────────────────

/// The keys of a property differ.
pub(crate) proof fn lemma_property_keys()
    ensures
        "epc"@ != "pdc"@,
        "epc"@ != "edt_hex"@,
        "epc"@ != "name"@,
        "epc"@ != "value"@,
        "pdc"@ != "edt_hex"@,
        "pdc"@ != "name"@,
        "pdc"@ != "value"@,
        "edt_hex"@ != "name"@,
        "edt_hex"@ != "value"@,
        "name"@ != "value"@,
{
    reveal_strlit("epc");
    reveal_strlit("pdc");
    reveal_strlit("edt_hex");
    reveal_strlit("name");
    reveal_strlit("value");
    assert("epc"@.len() == 3 && "pdc"@.len() == 3 && "name"@.len() == 4);
    assert("value"@.len() == 5 && "edt_hex"@.len() == 7);
    assert("epc"@[0] != "pdc"@[0]);
}

/// Every property, known or not, stands in JSON without loss: its EPC, its length and its data are
/// always there, and the data can be read back from its digits.
pub proof fn law_property_lossless(eoj: Seq<u8>, epc: u8, edt: Seq<u8>)
    ensures
        ({
            let members = properties::property_members(eoj, epc, edt);
            &&& members.contains_key("epc"@) && members["epc"@] == Json::Str(text::upper_hex(epc))
            &&& members.contains_key("pdc"@) && members["pdc"@] == Json::Int(edt.len() as int)
            &&& members.contains_key("edt_hex"@) && members["edt_hex"@] == Json::Str(
                text::lower_hex(edt),
            )
            &&& codec::bytes_of_hex(text::lower_hex(edt)) == Some(edt)
            &&& codec::bytes_of_hex(text::upper_hex(epc)) == Some(seq![epc])
        }),
{
    lemma_property_keys();
    codec_laws::law_hex_roundtrip(edt);
    lemma_upper_hex_read(epc);
}

/// Upper-case digits are read back as the byte that they stand for.
proof fn lemma_upper_hex_read(byte: u8)
    ensures
        codec::bytes_of_hex(text::upper_hex(byte)) == Some(seq![byte]),
{
    let s = text::upper_hex(byte);
    let a = s[0];
    let b = s[1];
    text::lemma_digit_roundtrip((byte / 16) as u8);
    text::lemma_digit_roundtrip((byte % 16) as u8);
    assert(!text::is_white(a) && !text::is_white(b) && b != 'x' && b != 'X');
    assert(codec::strip_pairs(codec::strip_pairs(codec::trim_start(s), '0', 'x'), '0', 'X') == s);
    let keep = |c: char| !text::is_white(c);
    assert(s =~= seq![a].push(b));
    assert(s.drop_last() =~= seq![a]);
    assert(seq![a].drop_last() =~= Seq::<char>::empty());
    reveal_with_fuel(Seq::filter, 3);
    assert(s.filter(keep) =~= s);
    assert(codec::hex_digits(s) == s);
    assert(codec::bytes_of_digits(s)->0 =~= seq![byte]);
}

/// A property that the dictionary does not know stands in JSON as its raw data and nothing else.
pub proof fn law_unknown_property_raw(eoj: Seq<u8>, epc: u8, edt: Seq<u8>)
    requires
        properties::name_in(properties::names_of(eoj), epc) is None,
        properties::decoded(eoj, epc, edt) is None,
    ensures
        properties::property_members(eoj, epc, edt).dom() =~= set!["epc"@, "pdc"@, "edt_hex"@],
{
}

/// For a class that the dictionary does not know, only what all devices share is named or decoded.
pub proof fn law_unknown_class(eoj: Seq<u8>, epc: u8, edt: Seq<u8>)
    requires
        properties::class_of(eoj) is None,
        properties::name_in(properties::common_names(), epc) is None,
    ensures
        properties::name_in(properties::names_of(eoj), epc) is None,
        properties::decoded(eoj, epc, edt) is None,
{
    assert(properties::names_of(eoj) =~= properties::common_names());
    let table = properties::common_names();
    reveal_with_fuel(properties::name_in, 7);
    assert(table.skip(1).skip(1).skip(1).skip(1).skip(1)[0] == table[5]);
    if epc == 0x80 || epc == 0x82 || epc == 0x8A || epc == 0x9D || epc == 0x9E || epc == 0x9F {
        let i: int = if epc == 0x80 {
            0
        } else if epc == 0x82 {
            1
        } else if epc == 0x8A {
            2
        } else if epc == 0x9D {
            3
        } else if epc == 0x9E {
            4
        } else {
            5
        };
        lemma_name_tables(eoj);
        lemma_name_of_entry(properties::names_of(eoj), i);
    }
}

} // verus!
