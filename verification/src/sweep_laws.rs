//! How networks are written, and which hosts they have, in plain arithmetic.

use vstd::arithmetic::power2::*;
use vstd::prelude::*;
use vstd::string::*;

use crate::cidr;
use crate::error::AppErrorView;
use crate::request_laws;
use crate::text;

verus! {

broadcast use vstd::string::group_string_axioms;

// ───────────────────────── notation ─────────────────────────

/// An address is written as its four bytes in decimal, the first byte first, with dots between them.
pub proof fn law_dotted(octets: Seq<u8>)
    ensures
        cidr::dotted(octets) == text::decimal(octets[0] as nat) + seq!['.'] + text::decimal(
            octets[1] as nat,
        ) + seq!['.'] + text::decimal(octets[2] as nat) + seq!['.'] + text::decimal(
            octets[3] as nat,
        ),
{
    assert(cidr::dotted(octets) =~= text::decimal(octets[0] as nat) + seq!['.'] + text::decimal(
        octets[1] as nat,
    ) + seq!['.'] + text::decimal(octets[2] as nat) + seq!['.'] + text::decimal(
        octets[3] as nat,
    ));
}

/// All characters of a text are decimal digits.
pub open spec fn all_digits(s: Seq<char>) -> bool {
    forall|i: int| 0 <= i < s.len() ==> '0' <= #[trigger] s[i] <= '9'
}

/// One more character behind digits is one more step.
proof fn lemma_read_on(before: u8, digits: Seq<char>, c: char)
    ensures
        cidr::read_digits(before, digits.push(c)) == (match cidr::read_digits(before, digits) {
            Err(e) => Err(e),
            Ok(m) => cidr::read_digits(m, seq![c]),
        }),
    decreases digits.len(),
{
    let all = digits.push(c);
    if digits.len() == 0 {
        assert(all =~= seq![c]);
    } else {
        assert(all[0] == digits[0]);
        assert(all.skip(1) =~= digits.skip(1).push(c));
        if text::is_digit(digits[0]) {
            let n = before * 10 + (digits[0] as int - '0' as int);
            if n <= 255 {
                lemma_read_on(n as u8, digits.skip(1), c);
            }
        }
    }
}

/// Digits are read as their value, where that is below 256.
proof fn lemma_digits_read(s: Seq<char>)
    requires
        all_digits(s),
    ensures
        text::digits_value(s) <= 255 ==> cidr::read_digits(0, s) == Ok::<u8, Seq<char>>(
            text::digits_value(s) as u8,
        ),
        text::digits_value(s) > 255 ==> cidr::read_digits(0, s) == Err::<u8, Seq<char>>(
            "number too large to fit in target type"@,
        ),
    decreases s.len(),
{
    if s.len() > 0 {
        let front = s.drop_last();
        let c = s.last();
        assert forall|i: int| 0 <= i < front.len() implies '0' <= #[trigger] front[i] <= '9' by {
            assert(front[i] == s[i]);
        }
        lemma_digits_read(front);
        lemma_read_on(0, front, c);
        assert(front.push(c) =~= s);
        assert('0' <= s[s.len() - 1] <= '9');
        reveal_with_fuel(cidr::read_digits, 2);
        assert(seq![c].skip(1) =~= Seq::<char>::empty());
    }
}

/// A prefix in digits, with a plus sign before them or not, is read as its value, where that is
/// below 256; a larger number, no digits at all, or anything else behind digits below 256 is an
/// error of its own.
pub proof fn law_prefix_digits(s: Seq<char>, c: char, rest: Seq<char>)
    requires
        all_digits(s),
    ensures
        s.len() > 0 && text::digits_value(s) <= 255 ==> cidr::prefix_of(s) == Ok::<u8, Seq<char>>(
            text::digits_value(s) as u8,
        ) && cidr::prefix_of(seq!['+'] + s) == Ok::<u8, Seq<char>>(text::digits_value(s) as u8),
        text::digits_value(s) > 255 ==> cidr::prefix_of(s) == Err::<u8, Seq<char>>(
            "number too large to fit in target type"@,
        ),
        cidr::prefix_of(Seq::empty()) == Err::<u8, Seq<char>>(
            "cannot parse integer from empty string"@,
        ),
        s.len() > 0 && text::digits_value(s) <= 255 && !('0' <= c <= '9') ==> cidr::prefix_of(
            s + seq![c] + rest,
        ) == Err::<u8, Seq<char>>("invalid digit found in string"@),
{
    lemma_digits_read(s);
    if s.len() > 0 {
        assert(s[0] != '+');
        assert((seq!['+'] + s).skip(1) =~= s);
        if text::digits_value(s) <= 255 && !('0' <= c <= '9') {
            lemma_no_digit(0, s, c, rest);
            assert((s + seq![c] + rest)[0] == s[0]);
        }
    } else {
        assert(s =~= Seq::<char>::empty());
    }
}

/// What is no digit behind digits ends in an error.
proof fn lemma_no_digit(before: u8, s: Seq<char>, c: char, rest: Seq<char>)
    requires
        cidr::read_digits(before, s) is Ok,
        !('0' <= c <= '9'),
    ensures
        cidr::read_digits(before, s + seq![c] + rest) == Err::<u8, Seq<char>>(
            "invalid digit found in string"@,
        ),
    decreases s.len(),
{
    let all = s + seq![c] + rest;
    if s.len() == 0 {
        assert(all[0] == c);
    } else {
        assert(all[0] == s[0]);
        assert(all.skip(1) =~= s.skip(1) + seq![c] + rest);
        let n = before * 10 + (s[0] as int - '0' as int);
        lemma_no_digit(n as u8, s.skip(1), c, rest);
    }
}

/// An address holds no slash.
proof fn lemma_no_slash(octets: Seq<u8>)
    requires
        octets.len() == 4,
    ensures
        !cidr::dotted(octets).contains('/'),
{
    let s = cidr::dotted(octets);
    text::lemma_decimal(octets[0] as nat);
    text::lemma_decimal(octets[1] as nat);
    text::lemma_decimal(octets[2] as nat);
    text::lemma_decimal(octets[3] as nat);
    if s.contains('/') {
        let i = choose|i: int| 0 <= i < s.len() && s[i] == '/';
        let (a, b, c, d) = (
            text::decimal(octets[0] as nat),
            text::decimal(octets[1] as nat),
            text::decimal(octets[2] as nat),
            text::decimal(octets[3] as nat),
        );
        let (m, n, k) = (a.len() as int + 1, a.len() + b.len() + 2, a.len() + b.len() + c.len() + 3);
        if i < a.len() {
            assert(text::is_digit(a[i]));
        } else if m <= i < m + b.len() {
            assert(text::is_digit(b[i - m]));
        } else if n <= i < n + c.len() {
            assert(text::is_digit(c[i - n]));
        } else if k <= i {
            assert(text::is_digit(d[i - k]));
        }
    }
}

/// A network is an address, a slash and the number of a prefix up to 32. Every such text is read as
/// the network that it is written for.
pub proof fn law_network_notation(octets: Seq<u8>, prefix: u8)
    requires
        octets.len() == 4,
    ensures
        ({
            let s = cidr::dotted(octets) + seq!['/'] + text::decimal(prefix as nat);
            &&& prefix <= 32 ==> cidr::cidr_of(s) == Ok::<(Seq<u8>, u8), Seq<char>>(
                (octets, prefix),
            )
            &&& prefix > 32 ==> cidr::cidr_of(s) == Err::<(Seq<u8>, u8), Seq<char>>(
                "prefix "@ + text::decimal(prefix as nat) + " > 32"@,
            )
        }),
{
    let digits = text::decimal(prefix as nat);
    lemma_no_slash(octets);
    text::lemma_split_joined(cidr::dotted(octets), '/', digits);
    cidr::law_address_roundtrip(cidr::dotted(octets), octets);
    text::lemma_decimal(prefix as nat);
    assert forall|i: int| 0 <= i < digits.len() implies '0' <= #[trigger] digits[i] <= '9' by {
        assert(text::is_digit(digits[i]));
    }
    law_prefix_digits(digits, 'x', Seq::empty());
}

/// What is no network says why: there is no slash, or no address before it, or no prefix behind it.
pub proof fn law_network_errors(address: Seq<char>, prefix: Seq<char>)
    requires
        !address.contains('/'),
    ensures
        cidr::cidr_of(address) == Err::<(Seq<u8>, u8), Seq<char>>("'/' 無し"@),
        cidr::ipv4_of(address) is None ==> cidr::cidr_of(address + seq!['/'] + prefix) == Err::<
            (Seq<u8>, u8),
            Seq<char>,
        >("IP: invalid IPv4 address syntax"@),
        cidr::ipv4_of(address) is Some ==> (cidr::prefix_of(prefix) matches Err(e) ==> cidr::cidr_of(
            address + seq!['/'] + prefix,
        ) == Err::<(Seq<u8>, u8), Seq<char>>("prefix: "@ + e)),
{
    text::lemma_split_joined(address, '/', prefix);
    text::lemma_split(address, '/');
    if text::split(address, '/') is Some {
        let (a, b) = text::split(address, '/')->0;
        assert(address[a.len() as int] == '/');
    }
}

/// The network that is swept: the one that is given, whatever the interface; else the 256 addresses
/// that share the first three bytes of the interface. With neither there is nothing to resolve.
pub proof fn law_network(cidr: Seq<char>, iface: Seq<u8>, either: Option<Seq<u8>>)
    ensures
        cidr::cidr_of(cidr) matches Ok(network) ==> cidr::network_of(Some(cidr), either) == Ok::<
            (Seq<u8>, u8),
            AppErrorView,
        >(network),
        cidr::cidr_of(cidr) matches Err(why) ==> (cidr::network_of(Some(cidr), either) matches Err(
            e,
        ) && request_laws::input_error(e, "CIDR 不正 '"@ + cidr + "': "@ + why)),
        cidr::network_of(None, Some(iface)) == Ok::<(Seq<u8>, u8), AppErrorView>(
            (seq![iface[0], iface[1], iface[2], 0u8], 24u8),
        ),
        cidr::network_of(None, None) matches Err(e) && request_laws::input_error(
            e,
            "--cidr <CIDR> もしくは -i <IPv4> のいずれかが必要 (例: --cidr 192.0.2.0/24)"@,
        ),
{
}

/// The hosts that are swept are those of the network. Without a network and an interface none are
/// swept, and a network that cannot be read is the error that it is.
pub proof fn law_swept(cidr: Option<Seq<char>>, iface: Option<Seq<u8>>)
    ensures
        match cidr::network_of(cidr, iface) {
            Ok((octets, prefix)) => cidr::sweep_of(cidr, iface) == Ok::<
                Option<Seq<Seq<u8>>>,
                AppErrorView,
            >(Some(cidr::hosts_of(octets, prefix))),
            Err(e) => cidr::sweep_of(cidr, iface) == (if cidr is Some {
                Err::<Option<Seq<Seq<u8>>>, AppErrorView>(e)
            } else {
                Ok(None)
            }),
        },
{
}

// ───────────────────────── hosts ─────────────────────────

/// An address as one number, the first byte the highest.
pub open spec fn number(octets: Seq<u8>) -> int {
    octets[0] * 16777216 + octets[1] * 65536 + octets[2] * 256 + octets[3]
}

/// An address is a host of a network exactly if both lie in the same block of 2 to the power of
/// 32 - `prefix` addresses and, in blocks of four and more, it is neither the first nor the last of
/// the block.
pub proof fn law_hosts(octets: Seq<u8>, prefix: u8, host: Seq<u8>)
    requires
        prefix <= 32,
        octets.len() == 4,
        host.len() == 4,
    ensures
        ({
            let size = pow2((32 - prefix) as nat) as int;
            cidr::hosts_of(octets, prefix).contains(host) <==> {
                &&& number(host) / size == number(octets) / size
                &&& prefix < 31 ==> number(host) % size != 0 && number(host) % size != size - 1
            }
        }),
{
    let size = pow2((32 - prefix) as nat) as int;
    let (n, h) = (number(octets), number(host));
    lemma_pow2_pos((32 - prefix) as nat);
    cidr::law_host_range(octets, prefix, host);
    vstd::arithmetic::div_mod::lemma_fundamental_div_mod(n, size);
    vstd::arithmetic::div_mod::lemma_fundamental_div_mod(h, size);
    vstd::arithmetic::div_mod::lemma_mod_bound(h, size);
    let first = n - n % size;
    if h / size == n / size {
        assert(h == first + h % size);
    }
    if first <= h < first + size {
        vstd::arithmetic::div_mod::lemma_fundamental_div_mod_converse(
            h,
            size,
            n / size,
            h - first,
        );
    }
}

/// The hosts of a network follow each other without a gap, and there are as many as the block has
/// addresses, less the two that are no hosts in blocks of four and more.
pub proof fn law_hosts_in_order(octets: Seq<u8>, prefix: u8, i: int)
    requires
        prefix <= 32,
        octets.len() == 4,
    ensures
        ({
            let hosts = cidr::hosts_of(octets, prefix);
            let size = pow2((32 - prefix) as nat) as int;
            &&& hosts.len() == (if prefix < 31 {
                size - 2
            } else {
                size
            })
            &&& 0 <= i < hosts.len() ==> hosts[i].len() == 4
            &&& 0 < i < hosts.len() ==> number(hosts[i]) == number(hosts[i - 1]) + 1
        }),
{
    let hosts = cidr::hosts_of(octets, prefix);
    cidr::law_network_has_hosts(prefix);
    if 0 < i < hosts.len() {
        let first = cidr::first_host(octets, prefix);
        let size = pow2((32 - prefix) as nat) as int;
        cidr::lemma_network_end(cidr::bits(octets), prefix);
        lemma_pow2_pos((32 - prefix) as nat);
        vstd::arithmetic::div_mod::lemma_mod_decreases(cidr::bits(octets) as nat, size as nat);
        cidr::law_address_and_number(hosts[i], first + i);
        cidr::law_address_and_number(hosts[i - 1], first + i - 1);
    }
}

} // verus!
