//! Text primitives: white space, hexadecimal and decimal digits, and the order of strings.

use vstd::prelude::*;
use vstd::string::*;

verus! {

broadcast use vstd::string::group_string_axioms;

/// `String::push` appends the given character to the end of the string.
pub assume_specification[ String::push ](string: &mut String, ch: char)
    ensures
        final(string)@ == old(string)@.push(ch),
;

// ───────────────────────── characters ─────────────────────────

/// The Unicode property `White_Space`.
pub open spec fn is_white(c: char) -> bool {
    let n = c as u32;
    ||| 0x09 <= n <= 0x0D
    ||| n == 0x20
    ||| n == 0x85
    ||| n == 0xA0
    ||| n == 0x1680
    ||| 0x2000 <= n <= 0x200A
    ||| n == 0x2028
    ||| n == 0x2029
    ||| n == 0x202F
    ||| n == 0x205F
    ||| n == 0x3000
}

/// Whether a character is white space.
pub fn is_whitespace(c: char) -> (white: bool)
    ensures
        white == is_white(c),
{
    let n: u32 = c as u32;
    (0x09 <= n && n <= 0x0D) || n == 0x20 || n == 0x85 || n == 0xA0 || n == 0x1680 || (0x2000 <= n
        && n <= 0x200A) || n == 0x2028 || n == 0x2029 || n == 0x202F || n == 0x205F || n == 0x3000
}

/// The characters of a string, in order.
pub fn chars_of(s: &str) -> (chars: Vec<char>)
    ensures
        chars@ == s@,
{
    let mut chars: Vec<char> = Vec::new();
    for c in iter: s.chars()
        invariant
            chars@ == s@.take(iter.index()),
            iter.seq() == s@,
    {
        chars.push(c);
    }
    assert(s@.take(s@.len() as int) =~= s@);
    chars
}

/// Whether two strings hold the same characters.
pub fn same_text(a: &str, b: &str) -> (same: bool)
    ensures
        same == (a@ == b@),
{
    a.to_owned() == b.to_owned()
}

/// `a` followed by `b`.
pub fn concat(a: &str, b: &str) -> (s: String)
    ensures
        s@ == a@ + b@,
{
    let mut s = a.to_owned();
    s.append(b);
    s
}

// ───────────────────────── hexadecimal ─────────────────────────

/// The value of one hexadecimal digit, of either case.
pub open spec fn hex_value(c: char) -> Option<u8> {
    if '0' <= c <= '9' {
        Some((c as u8 - '0' as u8) as u8)
    } else if 'a' <= c <= 'f' {
        Some((c as u8 - 'a' as u8 + 10) as u8)
    } else if 'A' <= c <= 'F' {
        Some((c as u8 - 'A' as u8 + 10) as u8)
    } else {
        None
    }
}

/// The lower-case hexadecimal digit of a value below 16.
pub open spec fn lower_digit(n: u8) -> char {
    if n < 10 {
        ('0' as u8 + n) as u8 as char
    } else {
        ('a' as u8 + n - 10) as u8 as char
    }
}

/// The upper-case hexadecimal digit of a value below 16.
pub open spec fn upper_digit(n: u8) -> char {
    if n < 10 {
        ('0' as u8 + n) as u8 as char
    } else {
        ('A' as u8 + n - 10) as u8 as char
    }
}

/// Two lower-case digits for each byte, the high nibble first.
pub open spec fn lower_hex(bytes: Seq<u8>) -> Seq<char> {
    Seq::new(
        2 * bytes.len(),
        |i: int|
            if i % 2 == 0 {
                lower_digit((bytes[i / 2] / 16) as u8)
            } else {
                lower_digit((bytes[i / 2] % 16) as u8)
            },
    )
}

/// One byte as two upper-case digits.
pub open spec fn upper_hex(byte: u8) -> Seq<char> {
    seq![upper_digit((byte / 16) as u8), upper_digit((byte % 16) as u8)]
}

/// The two bytes of a 16 bit number, the high byte first.
pub open spec fn be_bytes(n: u16) -> Seq<u8> {
    seq![(n / 256) as u8, (n % 256) as u8]
}

/// The digit `0` to `f` of a value below 16.
pub fn to_lower_digit(n: u8) -> (c: char)
    requires
        n < 16,
    ensures
        c == lower_digit(n),
{
    if n < 10 {
        ('0' as u8 + n) as char
    } else {
        ('a' as u8 + (n - 10)) as char
    }
}

/// The digit `0` to `F` of a value below 16.
pub fn to_upper_digit(n: u8) -> (c: char)
    requires
        n < 16,
    ensures
        c == upper_digit(n),
{
    if n < 10 {
        ('0' as u8 + n) as char
    } else {
        ('A' as u8 + (n - 10)) as char
    }
}

/// A byte as two upper-case hexadecimal digits.
pub fn to_upper_hex(byte: u8) -> (s: String)
    ensures
        s@ == upper_hex(byte),
{
    let mut s = String::new();
    s.push(to_upper_digit(byte / 16));
    s.push(to_upper_digit(byte % 16));
    assert(s@ =~= upper_hex(byte));
    s
}

/// Every digit that is written is read back as the same value, in either case, is no white space
/// and is not the `x` of a `0x` prefix.
pub proof fn lemma_digit_roundtrip(n: u8)
    requires
        n < 16,
    ensures
        hex_value(lower_digit(n)) == Some(n),
        hex_value(upper_digit(n)) == Some(n),
        !is_white(lower_digit(n)),
        lower_digit(n) != 'x',
        lower_digit(n) != 'X',
{
}

// ───────────────────────── decimal ─────────────────────────

/// A number in decimal, without leading zeros.
pub open spec fn decimal(n: nat) -> Seq<char>
    decreases n,
{
    if n < 10 {
        seq![lower_digit(n as u8)]
    } else {
        decimal(n / 10).push(lower_digit((n % 10) as u8))
    }
}

/// A number in decimal, without leading zeros.
pub fn to_decimal(n: u64) -> (s: String)
    ensures
        s@ == decimal(n as nat),
    decreases n,
{
    if n < 10 {
        let mut s = String::new();
        s.push(to_lower_digit(n as u8));
        assert(s@ =~= decimal(n as nat));
        s
    } else {
        let mut s = to_decimal(n / 10);
        s.push(to_lower_digit((n % 10) as u8));
        s
    }
}

/// A decimal digit.
pub open spec fn is_digit(c: char) -> bool {
    '0' <= c <= '9'
}

/// The value of decimal digits, the highest first.
pub open spec fn digits_value(s: Seq<char>) -> nat
    decreases s.len(),
{
    if s.len() == 0 {
        0
    } else {
        digits_value(s.drop_last()) * 10 + (s.last() as nat - '0' as nat) as nat
    }
}

/// A number in decimal is made of digits, has the value of the number, and has at least one digit.
pub proof fn lemma_decimal(n: nat)
    ensures
        decimal(n).len() > 0,
        forall|i: int| 0 <= i < decimal(n).len() ==> is_digit(#[trigger] decimal(n)[i]),
        digits_value(decimal(n)) == n,
    decreases n,
{
    reveal_with_fuel(digits_value, 2);
    if n < 10 {
        assert(decimal(n).drop_last() =~= Seq::<char>::empty());
    } else {
        lemma_decimal(n / 10);
        assert(decimal(n).drop_last() =~= decimal(n / 10));
    }
}

// ───────────────────────── parts ─────────────────────────

/// The texts before and after the first occurrence of a character.
pub open spec fn split(s: Seq<char>, at: char) -> Option<(Seq<char>, Seq<char>)>
    decreases s.len(),
{
    if s.len() == 0 {
        None
    } else if s[0] == at {
        Some((Seq::empty(), s.skip(1)))
    } else {
        match split(s.skip(1), at) {
            Some((before, after)) => Some((seq![s[0]] + before, after)),
            None => None,
        }
    }
}

/// A text is split at the first occurrence of the character, and only there.
pub proof fn lemma_split(s: Seq<char>, at: char)
    ensures
        match split(s, at) {
            Some((before, after)) => s == before + seq![at] + after && !before.contains(at),
            None => !s.contains(at),
        },
    decreases s.len(),
{
    if s.len() > 0 && s[0] != at {
        lemma_split(s.skip(1), at);
        assert(s =~= seq![s[0]] + s.skip(1));
        match split(s.skip(1), at) {
            Some((before, after)) => {
                assert(s =~= seq![s[0]] + before + seq![at] + after);
                let front = seq![s[0]] + before;
                if front.contains(at) {
                    let i = choose|i: int| 0 <= i < front.len() && front[i] == at;
                    assert(before[i - 1] == at);
                }
            },
            None => {
                if s.contains(at) {
                    let i = choose|i: int| 0 <= i < s.len() && s[i] == at;
                    assert(s.skip(1)[i - 1] == at);
                }
            },
        }
    } else if s.len() > 0 {
        assert(s =~= Seq::<char>::empty() + seq![at] + s.skip(1));
    }
}

/// What is put together around a character is split there, where the front does not hold it.
pub proof fn lemma_split_joined(before: Seq<char>, at: char, after: Seq<char>)
    requires
        !before.contains(at),
    ensures
        split(before + seq![at] + after, at) == Some((before, after)),
    decreases before.len(),
{
    let s = before + seq![at] + after;
    if before.len() == 0 {
        assert(s[0] == at);
        assert(s.skip(1) =~= after);
        assert(before =~= Seq::empty());
    } else {
        assert(before.contains(before[0]));
        let rest = before.skip(1);
        if rest.contains(at) {
            let i = choose|i: int| 0 <= i < rest.len() && rest[i] == at;
            assert(before[i + 1] == at);
        }
        lemma_split_joined(rest, at, after);
        assert(s.skip(1) =~= rest + seq![at] + after);
        assert(seq![before[0]] + rest =~= before);
    }
}

/// The texts before and after the first occurrence of a character.
pub fn split_once(s: &str, at: char) -> (r: Option<(String, String)>)
    ensures
        match r {
            Some((before, after)) => split(s@, at) == Some((before@, after@)),
            None => split(s@, at) is None,
        },
{
    let chars = chars_of(s);
    let mut before = String::new();
    let mut i: usize = 0;
    while i < chars.len()
        invariant
            chars@ == s@,
            i <= chars.len(),
            before@ == s@.take(i as int),
            !before@.contains(at),
        decreases chars.len() - i,
    {
        if chars[i] == at {
            let mut after = String::new();
            let ghost start = i + 1;
            let mut k: usize = i + 1;
            while k < chars.len()
                invariant
                    chars@ == s@,
                    0 <= start <= k <= chars.len(),
                    after@ == s@.subrange(start as int, k as int),
                decreases chars.len() - k,
            {
                after.push(chars[k]);
                assert(after@ =~= s@.subrange(start as int, k + 1));
                k += 1;
            }
            proof {
                assert(s@ =~= before@ + seq![at] + after@);
                lemma_split_joined(before@, at, after@);
            }
            return Some((before, after));
        }
        let ghost seen = before@;
        before.push(chars[i]);
        assert(before@ =~= s@.take(i + 1));
        assert(!before@.contains(at)) by {
            if before@.contains(at) {
                let j = choose|j: int| 0 <= j < before@.len() && before@[j] == at;
                assert(seen[j] == at);
            }
        }
        i += 1;
    }
    proof {
        assert(before@ =~= s@);
        lemma_split(s@, at);
        if split(s@, at) is Some {
            let (a, b) = split(s@, at)->0;
            assert(s@[a.len() as int] == at);
        }
    }
    None
}

// ───────────────────────── order ─────────────────────────

/// `a` comes before `b` in the order of strings: the first characters that differ decide, and a
/// prefix comes before what it is a prefix of.
pub open spec fn text_before(a: Seq<char>, b: Seq<char>) -> bool
    decreases a.len(),
{
    if b.len() == 0 {
        false
    } else if a.len() == 0 {
        true
    } else if a[0] != b[0] {
        a[0] < b[0]
    } else {
        text_before(a.skip(1), b.skip(1))
    }
}

/// Whether `a` comes before `b`.
pub fn comes_before(a: &str, b: &str) -> (before: bool)
    ensures
        before == text_before(a@, b@),
{
    let x = chars_of(a);
    let y = chars_of(b);
    let mut i: usize = 0;
    proof {
        assert(a@.skip(0) =~= a@);
        assert(b@.skip(0) =~= b@);
    }
    while i < x.len() && i < y.len() && x[i] == y[i]
        invariant
            x@ == a@,
            y@ == b@,
            i <= x.len(),
            i <= y.len(),
            text_before(a@, b@) == text_before(a@.skip(i as int), b@.skip(i as int)),
        decreases x.len() - i,
    {
        proof {
            assert(a@.skip(i as int).skip(1) =~= a@.skip(i + 1));
            assert(b@.skip(i as int).skip(1) =~= b@.skip(i + 1));
        }
        i += 1;
    }
    if i >= y.len() {
        false
    } else if i >= x.len() {
        true
    } else {
        x[i] < y[i]
    }
}

/// The order of strings is irreflexive.
pub proof fn lemma_text_before_irreflexive(a: Seq<char>)
    ensures
        !text_before(a, a),
    decreases a.len(),
{
    if a.len() > 0 {
        lemma_text_before_irreflexive(a.skip(1));
    }
}

/// The order of strings is transitive.
pub proof fn lemma_text_before_transitive(a: Seq<char>, b: Seq<char>, c: Seq<char>)
    requires
        text_before(a, b),
        text_before(b, c),
    ensures
        text_before(a, c),
    decreases a.len(),
{
    if a.len() > 0 && a[0] == b[0] && b[0] == c[0] {
        lemma_text_before_transitive(a.skip(1), b.skip(1), c.skip(1));
    }
}

/// Of two different strings one comes before the other.
pub proof fn lemma_text_before_total(a: Seq<char>, b: Seq<char>)
    ensures
        text_before(a, b) || a == b || text_before(b, a),
    decreases a.len(),
{
    if a.len() > 0 && b.len() > 0 && a[0] == b[0] {
        lemma_text_before_total(a.skip(1), b.skip(1));
        if a.skip(1) == b.skip(1) {
            assert(a =~= seq![a[0]] + a.skip(1));
            assert(b =~= seq![b[0]] + b.skip(1));
        }
    } else if a.len() == 0 && b.len() == 0 {
        assert(a =~= b);
    }
}

} // verus!
