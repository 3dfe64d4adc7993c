//! How text and bytes stand for each other, digit by digit.

use vstd::prelude::*;
use vstd::string::*;

use crate::codec;
use crate::codec_laws;
use crate::text;

verus! {

broadcast use vstd::string::group_string_axioms;

// ───────────────────────── digits ─────────────────────────

/// The digits that are written for a value below 16.
proof fn lemma_digits(n: u8)
    requires
        n < 16,
    ensures
        text::lower_digit(n) == "0123456789abcdef"@[n as int],
        text::upper_digit(n) == "0123456789ABCDEF"@[n as int],
        "0123456789"@.len() == 10,
        n < 10 ==> "0123456789"@[n as int] == "0123456789abcdef"@[n as int],
{
    reveal_strlit("0123456789abcdef");
    reveal_strlit("0123456789ABCDEF");
    reveal_strlit("0123456789");
}

/// A character is a hexadecimal digit with a value exactly if it stands at that place in the row of
/// digits, in either case.
pub proof fn law_digit_value(c: char, n: u8)
    ensures
        text::hex_value(c) == Some(n) <==> n < 16 && (c == "0123456789abcdef"@[n as int] || c
            == "0123456789ABCDEF"@[n as int]),
{
    if n < 16 {
        lemma_digits(n);
        text::lemma_digit_roundtrip(n);
    }
}

/// Every byte is written as two lower-case digits, the high one first.
pub proof fn law_lower_hex(bytes: Seq<u8>, i: int)
    requires
        0 <= i < bytes.len(),
    ensures
        text::lower_hex(bytes).len() == 2 * bytes.len(),
        text::lower_hex(bytes)[2 * i] == "0123456789abcdef"@[bytes[i] as int / 16],
        text::lower_hex(bytes)[2 * i + 1] == "0123456789abcdef"@[bytes[i] as int % 16],
{
    lemma_digits((bytes[i] / 16) as u8);
    lemma_digits((bytes[i] % 16) as u8);
}

/// A byte on its own is written as two upper-case digits, the high one first.
pub proof fn law_upper_hex(byte: u8)
    ensures
        text::upper_hex(byte) == seq![
            "0123456789ABCDEF"@[byte as int / 16],
            "0123456789ABCDEF"@[byte as int % 16],
        ],
{
    lemma_digits((byte / 16) as u8);
    lemma_digits((byte % 16) as u8);
}

/// A number of 16 bits is two bytes, the high one first.
pub proof fn law_be_bytes(n: u16)
    ensures
        text::be_bytes(n).len() == 2,
        text::be_bytes(n)[0] * 256 + text::be_bytes(n)[1] == n,
{
}

/// A number in decimal is the digits of its tenth part, if there is one, and its last digit.
pub proof fn law_decimal(n: nat)
    ensures
        n < 10 ==> text::decimal(n) == seq!["0123456789"@[n as int]],
        n >= 10 ==> text::decimal(n) == text::decimal(n / 10).push("0123456789"@[n as int % 10]),
{
    lemma_digits((n % 10) as u8);
}

/// The value of decimal digits: each digit counts ten times less than the one before it.
pub proof fn law_digits_value(s: Seq<char>, n: nat)
    requires
        n < 10,
    ensures
        text::digits_value(Seq::empty()) == 0,
        text::digits_value(s.push("0123456789"@[n as int])) == text::digits_value(s) * 10 + n,
{
    lemma_digits(n as u8);
    assert(s.push("0123456789"@[n as int]).drop_last() =~= s);
}

/// The characters that count as white space.
pub proof fn law_white_space(c: char)
    ensures
        text::is_white(c) <==> seq![
            0x09u32,
            0x0A,
            0x0B,
            0x0C,
            0x0D,
            0x20,
            0x85,
            0xA0,
            0x1680,
            0x2000,
            0x2001,
            0x2002,
            0x2003,
            0x2004,
            0x2005,
            0x2006,
            0x2007,
            0x2008,
            0x2009,
            0x200A,
            0x2028,
            0x2029,
            0x202F,
            0x205F,
            0x3000,
        ].contains(c as u32),
{
    let all = seq![
        0x09u32,
        0x0A,
        0x0B,
        0x0C,
        0x0D,
        0x20,
        0x85,
        0xA0,
        0x1680,
        0x2000,
        0x2001,
        0x2002,
        0x2003,
        0x2004,
        0x2005,
        0x2006,
        0x2007,
        0x2008,
        0x2009,
        0x200A,
        0x2028,
        0x2029,
        0x202F,
        0x205F,
        0x3000,
    ];
    let n = c as u32;
    if text::is_white(c) {
        if 0x09 <= n <= 0x0D {
            assert(all[n - 0x09] == n);
        } else if 0x2000 <= n <= 0x200A {
            assert(all[9 + (n - 0x2000)] == n);
        } else {
            assert(all[5] == 0x20 && all[6] == 0x85 && all[7] == 0xA0 && all[8] == 0x1680);
            assert(all[20] == 0x2028 && all[21] == 0x2029 && all[22] == 0x202F);
            assert(all[23] == 0x205F && all[24] == 0x3000);
        }
    }
}

// ───────────────────────── reading digits ─────────────────────────

/// A text without white space and without a prefix can be read exactly if it is made of pairs of
/// digits. Each pair is one byte, its high digit first.
pub proof fn law_pairs_of_digits(s: Seq<char>)
    requires
        forall|i: int| 0 <= i < s.len() ==> !text::is_white(#[trigger] s[i]),
        s.len() >= 2 ==> !(s[0] == '0' && (s[1] == 'x' || s[1] == 'X')),
    ensures
        codec::bytes_of_hex(s) is Some <==> s.len() % 2 == 0 && forall|i: int|
            0 <= i < s.len() ==> text::hex_value(#[trigger] s[i]) is Some,
        codec::bytes_of_hex(s) matches Some(bytes) ==> {
            &&& s.len() == 2 * bytes.len()
            &&& forall|i: int|
                0 <= i < bytes.len() ==> #[trigger] bytes[i] as int == text::hex_value(
                    s[2 * i],
                )->0 * 16 + text::hex_value(s[2 * i + 1])->0
        },
{
    assert(codec::trim_start(s) == s);
    assert(codec::strip_pairs(s, '0', 'x') == s);
    assert(codec::strip_pairs(s, '0', 'X') == s);
    codec_laws::lemma_filter_all(s);
    if let Some(bytes) = codec::bytes_of_hex(s) {
        assert forall|i: int| 0 <= i < bytes.len() implies #[trigger] bytes[i] as int
            == text::hex_value(s[2 * i])->0 * 16 + text::hex_value(s[2 * i + 1])->0 by {
            let (a, b) = (s[2 * i], s[2 * i + 1]);
            assert(text::hex_value(a) is Some && text::hex_value(b) is Some);
        }
    }
}

/// White space in front of a text is skipped.
pub proof fn law_leading_space(c: char, s: Seq<char>)
    requires
        text::is_white(c),
    ensures
        codec::bytes_of_hex(seq![c] + s) == codec::bytes_of_hex(s),
{
    assert((seq![c] + s).skip(1) =~= s);
}

/// White space behind or between digits is skipped.
pub proof fn law_inner_space(before: Seq<char>, c: char, after: Seq<char>)
    requires
        text::is_white(c),
        before.len() >= 2,
        !text::is_white(before[0]),
        before[1] != 'x' && before[1] != 'X',
    ensures
        codec::bytes_of_hex(before + seq![c] + after) == codec::bytes_of_hex(before + after),
{
    let with = before + seq![c] + after;
    let without = before + after;
    assert(codec::trim_start(with) == with && codec::trim_start(without) == without);
    assert(codec::strip_pairs(codec::strip_pairs(with, '0', 'x'), '0', 'X') == with);
    assert(codec::strip_pairs(codec::strip_pairs(without, '0', 'x'), '0', 'X') == without);
    let keep = |d: char| !text::is_white(d);
    Seq::filter_distributes_over_add(before + seq![c], after, keep);
    Seq::filter_distributes_over_add(before, seq![c], keep);
    Seq::filter_distributes_over_add(before, after, keep);
    assert(seq![c].drop_last() =~= Seq::<char>::empty());
    reveal_with_fuel(Seq::filter, 2);
    assert(seq![c].filter(keep) =~= Seq::<char>::empty());
    assert(before.filter(keep) + Seq::<char>::empty() =~= before.filter(keep));
}

/// A prefix `0x` is skipped, and so is `0X` where no `0x` follows.
pub proof fn law_prefix(s: Seq<char>)
    requires
        s.len() > 0 ==> !text::is_white(s[0]),
    ensures
        codec::bytes_of_hex(seq!['0', 'x'] + s) == codec::bytes_of_hex(s),
        !(s.len() >= 2 && s[0] == '0' && s[1] == 'x') ==> codec::bytes_of_hex(seq!['0', 'X'] + s)
            == codec::bytes_of_hex(s),
{
    let small = seq!['0', 'x'] + s;
    let large = seq!['0', 'X'] + s;
    assert(small.skip(2) =~= s && large.skip(2) =~= s);
    assert(codec::trim_start(small) == small && codec::trim_start(large) == large);
    assert(codec::trim_start(s) == s);
    assert(codec::strip_pairs(large, '0', 'x') == large);
}

/// Three bytes in digits are an object; any other number of bytes, and what is no digits, is not.
pub proof fn law_object_digits(s: Seq<char>)
    ensures
        codec::eoj_of_hex(s) is Ok <==> codec::bytes_of_hex(s) is Some && codec::bytes_of_hex(
            s,
        )->0.len() == 3,
        codec::eoj_of_hex(s) matches Ok(eoj) ==> codec::bytes_of_hex(s) == Some(eoj),
        codec::eoj_of_hex(s) matches Err(e) ==> e == (if codec::bytes_of_hex(s) is None {
            codec::CodecErrorView::BadHex
        } else {
            codec::CodecErrorView::BadField("EOJ は 3 バイト (6 hex 桁) 必須"@)
        }),
{
}

// ───────────────────────── order ─────────────────────────

/// In the order of strings a text comes before every longer one that it starts.
pub proof fn law_prefix_first(a: Seq<char>, more: Seq<char>)
    requires
        more.len() > 0,
    ensures
        text::text_before(a, a + more),
        !text::text_before(a + more, a),
    decreases a.len(),
{
    if a.len() > 0 {
        assert((a + more).skip(1) =~= a.skip(1) + more);
        law_prefix_first(a.skip(1), more);
    }
}

/// Where two texts differ for the first time, the lower character decides.
pub proof fn law_first_difference(
    common: Seq<char>,
    a: char,
    b: char,
    rest_a: Seq<char>,
    rest_b: Seq<char>,
)
    requires
        a != b,
    ensures
        text::text_before(common + seq![a] + rest_a, common + seq![b] + rest_b) <==> a < b,
    decreases common.len(),
{
    let x = common + seq![a] + rest_a;
    let y = common + seq![b] + rest_b;
    if common.len() > 0 {
        assert(x.skip(1) =~= common.skip(1) + seq![a] + rest_a);
        assert(y.skip(1) =~= common.skip(1) + seq![b] + rest_b);
        law_first_difference(common.skip(1), a, b, rest_a, rest_b);
    } else {
        assert(x[0] == a && y[0] == b);
    }
}

} // verus!
