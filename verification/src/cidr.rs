//! IPv4 addresses and the hosts of a network in CIDR notation.

use vstd::arithmetic::power2::*;
use vstd::prelude::*;
use vstd::string::*;

use crate::error::{self, AppError, AppErrorView, ErrKind};
use crate::text;

verus! {

broadcast use vstd::string::group_string_axioms;

// ───────────────────────── addresses ─────────────────────────

/// An IPv4 address: its four octets, the highest first.
#[derive(Clone, Copy, PartialEq, Eq, Debug)]
pub struct Ipv4(pub [u8; 4]);

impl View for Ipv4 {
    type V = Seq<u8>;

    open spec fn view(&self) -> Seq<u8> {
        self.0@
    }
}

/// An address as decimal numbers with dots between them.
pub open spec fn dotted(octets: Seq<u8>) -> Seq<char> {
    text::decimal(octets[0] as nat) + seq!['.'] + (text::decimal(octets[1] as nat) + seq!['.'] + (
    text::decimal(octets[2] as nat) + seq!['.'] + text::decimal(octets[3] as nat)))
}

impl Ipv4 {
    /// The address as decimal numbers with dots between them.
    pub fn to_string(&self) -> (s: String)
        ensures
            s@ == dotted(self@),
    {
        let mut s = text::to_decimal(self.0[0] as u64);
        s.push('.');
        s.append(text::to_decimal(self.0[1] as u64).as_str());
        s.push('.');
        s.append(text::to_decimal(self.0[2] as u64).as_str());
        s.push('.');
        s.append(text::to_decimal(self.0[3] as u64).as_str());
        assert(s@ =~= dotted(self@));
        s
    }
}

/// A text is the decimal form of a byte.
pub open spec fn is_octet(part: Seq<char>, n: u8) -> bool {
    part == text::decimal(n as nat)
}

/// The byte whose decimal form a text is. There is no such byte where the text has leading zeros.
pub open spec fn octet_of(part: Seq<char>) -> Option<u8> {
    if exists|n: u8| is_octet(part, n) {
        Some(choose|n: u8| is_octet(part, n))
    } else {
        None
    }
}

/// The address that a text stands for: four bytes in decimal form, with dots between them.
pub open spec fn ipv4_of(s: Seq<char>) -> Option<Seq<u8>> {
    match text::split(s, '.') {
        None => None,
        Some((a, after_a)) => match text::split(after_a, '.') {
            None => None,
            Some((b, after_b)) => match text::split(after_b, '.') {
                None => None,
                Some((c, d)) => if octet_of(a) is Some && octet_of(b) is Some && octet_of(c) is Some
                    && octet_of(d) is Some {
                    Some(seq![octet_of(a)->0, octet_of(b)->0, octet_of(c)->0, octet_of(d)->0])
                } else {
                    None
                },
            },
        },
    }
}

/// The decimal form of a byte determines the byte and has at most three digits.
proof fn lemma_octet(n: u8)
    ensures
        octet_of(text::decimal(n as nat)) == Some(n),
        text::decimal(n as nat).len() <= 3,
        !text::decimal(n as nat).contains('.'),
{
    let part = text::decimal(n as nat);
    assert(is_octet(part, n));
    let m = choose|m: u8| is_octet(part, m);
    text::lemma_decimal(n as nat);
    text::lemma_decimal(m as nat);
    reveal_with_fuel(text::decimal, 4);
    if part.contains('.') {
        let i = choose|i: int| 0 <= i < part.len() && part[i] == '.';
        assert(text::is_digit(part[i]));
    }
}

/// The byte whose decimal form a text is.
fn parse_octet(part: &str) -> (r: Option<u8>)
    ensures
        r == octet_of(part@),
{
    let chars = text::chars_of(part);
    if chars.len() > 3 {
        proof {
            if exists|n: u8| is_octet(part@, n) {
                let n = choose|n: u8| is_octet(part@, n);
                lemma_octet(n);
            }
        }
        return None;
    }
    let mut value: u64 = 0;
    let mut i: usize = 0;
    while i < chars.len()
        invariant
            chars@ == part@,
            i <= chars.len() <= 3,
            value == text::digits_value(part@.take(i as int)),
            value <= (if i == 0 {
                0int
            } else if i == 1 {
                9
            } else if i == 2 {
                99
            } else {
                999
            }),
        decreases chars.len() - i,
    {
        let c = chars[i];
        if c < '0' || c > '9' {
            proof {
                if exists|n: u8| is_octet(part@, n) {
                    let n = choose|n: u8| is_octet(part@, n);
                    text::lemma_decimal(n as nat);
                    assert(text::is_digit(part@[i as int]));
                }
            }
            return None;
        }
        assert(part@.take(i + 1).drop_last() =~= part@.take(i as int));
        value = value * 10 + (c as u64 - '0' as u64);
        i += 1;
    }
    proof {
        assert(part@.take(i as int) =~= part@);
        if exists|n: u8| is_octet(part@, n) {
            let n = choose|n: u8| is_octet(part@, n);
            text::lemma_decimal(n as nat);
            lemma_octet(n);
        }
    }
    if value > 255 || !text::same_text(text::to_decimal(value).as_str(), part) {
        return None;
    }
    assert(is_octet(part@, value as u8));
    Some(value as u8)
}

/// The address that a text stands for.
pub fn parse_ipv4(s: &str) -> (r: Option<Ipv4>)
    ensures
        match r {
            Some(ip) => ipv4_of(s@) == Some(ip@),
            None => ipv4_of(s@) is None,
        },
{
    let (a, after_a) = match text::split_once(s, '.') {
        Some(parts) => parts,
        None => {
            return None;
        },
    };
    let (b, after_b) = match text::split_once(after_a.as_str(), '.') {
        Some(parts) => parts,
        None => {
            return None;
        },
    };
    let (c, d) = match text::split_once(after_b.as_str(), '.') {
        Some(parts) => parts,
        None => {
            return None;
        },
    };
    let a = parse_octet(a.as_str());
    let b = parse_octet(b.as_str());
    let c = parse_octet(c.as_str());
    let d = parse_octet(d.as_str());
    match (a, b, c, d) {
        (Some(a), Some(b), Some(c), Some(d)) => {
            let ip = Ipv4([a, b, c, d]);
            assert(ip@ =~= seq![a, b, c, d]);
            Some(ip)
        },
        _ => None,
    }
}

/// An address can be read from a text exactly if the text is the form in which it is written.
pub proof fn law_address_roundtrip(s: Seq<char>, octets: Seq<u8>)
    requires
        octets.len() == 4,
    ensures
        ipv4_of(s) == Some(octets) <==> s == dotted(octets),
{
    if s == dotted(octets) {
        let (a, b, c, d) = (
            text::decimal(octets[0] as nat),
            text::decimal(octets[1] as nat),
            text::decimal(octets[2] as nat),
            text::decimal(octets[3] as nat),
        );
        lemma_octet(octets[0]);
        lemma_octet(octets[1]);
        lemma_octet(octets[2]);
        lemma_octet(octets[3]);
        text::lemma_split_joined(a, '.', b + seq!['.'] + (c + seq!['.'] + d));
        text::lemma_split_joined(b, '.', c + seq!['.'] + d);
        text::lemma_split_joined(c, '.', d);
        assert(seq![octets[0], octets[1], octets[2], octets[3]] =~= octets);
    }
    if ipv4_of(s) == Some(octets) {
        text::lemma_split(s, '.');
        let (a, after_a) = text::split(s, '.')->0;
        text::lemma_split(after_a, '.');
        let (b, after_b) = text::split(after_a, '.')->0;
        text::lemma_split(after_b, '.');
        let (c, d) = text::split(after_b, '.')->0;
        assert(octets =~= seq![octet_of(a)->0, octet_of(b)->0, octet_of(c)->0, octet_of(d)->0]);
        assert(is_octet(a, octets[0]));
        assert(is_octet(b, octets[1]));
        assert(is_octet(c, octets[2]));
        assert(is_octet(d, octets[3]));
    }
}

// ───────────────────────── CIDR notation ─────────────────────────

/// The number that decimal digits stand for behind those that were read before, or why they stand
/// for none.
pub open spec fn read_digits(before: u8, digits: Seq<char>) -> Result<u8, Seq<char>>
    decreases digits.len(),
{
    if digits.len() == 0 {
        Ok(before)
    } else if !text::is_digit(digits[0]) {
        Err("invalid digit found in string"@)
    } else {
        let n = before * 10 + (digits[0] as int - '0' as int);
        if n > 255 {
            Err("number too large to fit in target type"@)
        } else {
            read_digits(n as u8, digits.skip(1))
        }
    }
}

/// The number of a prefix: decimal digits, with a plus sign before them or not.
pub open spec fn prefix_of(s: Seq<char>) -> Result<u8, Seq<char>> {
    if s.len() == 0 {
        Err("cannot parse integer from empty string"@)
    } else if s.len() > 1 && s[0] == '+' {
        read_digits(0, s.skip(1))
    } else {
        read_digits(0, s)
    }
}

/// The number of a prefix.
fn parse_prefix(s: &str) -> (r: Result<u8, &'static str>)
    ensures
        match r {
            Ok(n) => prefix_of(s@) == Ok::<u8, Seq<char>>(n),
            Err(e) => prefix_of(s@) == Err::<u8, Seq<char>>(e@),
        },
{
    let chars = text::chars_of(s);
    if chars.len() == 0 {
        return Err("cannot parse integer from empty string");
    }
    let mut i: usize = if chars.len() > 1 && chars[0] == '+' {
        1
    } else {
        0
    };
    let mut value: u8 = 0;
    assert(s@.skip(0) =~= s@);
    while i < chars.len()
        invariant
            chars@ == s@,
            i <= chars.len(),
            prefix_of(s@) == read_digits(value, s@.skip(i as int)),
        decreases chars.len() - i,
    {
        let c = chars[i];
        assert(s@.skip(i as int).skip(1) =~= s@.skip(i + 1));
        if c < '0' || c > '9' {
            return Err("invalid digit found in string");
        }
        let next: u32 = value as u32 * 10 + (c as u32 - '0' as u32);
        if next > 255 {
            return Err("number too large to fit in target type");
        }
        value = next as u8;
        i += 1;
    }
    Ok(value)
}

/// The address and the prefix of a network in CIDR notation, or why a text is none.
pub open spec fn cidr_of(s: Seq<char>) -> Result<(Seq<u8>, u8), Seq<char>> {
    match text::split(s, '/') {
        None => Err("'/' 無し"@),
        Some((address, prefix)) => match ipv4_of(address) {
            None => Err("IP: invalid IPv4 address syntax"@),
            Some(octets) => match prefix_of(prefix) {
                Err(e) => Err("prefix: "@ + e),
                Ok(n) => if n > 32 {
                    Err("prefix "@ + text::decimal(n as nat) + " > 32"@)
                } else {
                    Ok((octets, n))
                },
            },
        },
    }
}

/// Reads a network in CIDR notation such as `192.0.2.0/24`.
pub fn parse_cidr(s: &str) -> (r: Result<(Ipv4, u8), String>)
    ensures
        match r {
            Ok((ip, prefix)) => cidr_of(s@) == Ok::<(Seq<u8>, u8), Seq<char>>((ip@, prefix)),
            Err(e) => cidr_of(s@) == Err::<(Seq<u8>, u8), Seq<char>>(e@),
        },
{
    let (address, prefix) = match text::split_once(s, '/') {
        Some(parts) => parts,
        None => {
            return Err("'/' 無し".to_owned());
        },
    };
    let ip = match parse_ipv4(address.as_str()) {
        Some(ip) => ip,
        None => {
            return Err("IP: invalid IPv4 address syntax".to_owned());
        },
    };
    let prefix = match parse_prefix(prefix.as_str()) {
        Ok(n) => n,
        Err(e) => {
            return Err(text::concat("prefix: ", e));
        },
    };
    if prefix > 32 {
        let mut e = text::concat("prefix ", text::to_decimal(prefix as u64).as_str());
        e.append(" > 32");
        return Err(e);
    }
    Ok((ip, prefix))
}

/// The network to sweep: the one that is given, or else the 256 addresses around an interface.
pub open spec fn network_of(cidr: Option<Seq<char>>, iface: Option<Seq<u8>>) -> Result<
    (Seq<u8>, u8),
    AppErrorView,
> {
    match (cidr, iface) {
        (Some(s), _) => match cidr_of(s) {
            Ok(network) => Ok(network),
            Err(e) => Err(
                error::plain_error(ErrKind::Usage, "CIDR 不正 '"@ + s + "': "@ + e),
            ),
        },
        (None, Some(ip)) => Ok((seq![ip[0], ip[1], ip[2], 0u8], 24)),
        (None, None) => Err(
            error::plain_error(
                ErrKind::Usage,
                "--cidr <CIDR> もしくは -i <IPv4> のいずれかが必要 (例: --cidr 192.0.2.0/24)"@,
            ),
        ),
    }
}

/// The model of an optional text.
pub open spec fn text_view(s: Option<&str>) -> Option<Seq<char>> {
    match s {
        Some(s) => Some(s@),
        None => None,
    }
}

/// The model of an optional address.
pub open spec fn ip_view(ip: Option<Ipv4>) -> Option<Seq<u8>> {
    match ip {
        Some(ip) => Some(ip@),
        None => None,
    }
}

/// The network to sweep. A network that is given comes before an interface.
pub fn resolve_cidr(cidr: Option<&str>, iface: Option<Ipv4>) -> (r: Result<(Ipv4, u8), AppError>)
    ensures
        match r {
            Ok((ip, prefix)) => network_of(text_view(cidr), ip_view(iface)) == Ok::<
                (Seq<u8>, u8),
                AppErrorView,
            >((ip@, prefix)),
            Err(e) => network_of(text_view(cidr), ip_view(iface)) == Err::<
                (Seq<u8>, u8),
                AppErrorView,
            >(e@),
        },
{
    if let Some(s) = cidr {
        return match parse_cidr(s) {
            Ok(network) => Ok(network),
            Err(e) => {
                let mut detail = text::concat("CIDR 不正 '", s);
                detail.append("': ");
                detail.append(e.as_str());
                Err(AppError::new(ErrKind::Usage, detail))
            },
        };
    }
    if let Some(ip) = iface {
        let network = Ipv4([ip.0[0], ip.0[1], ip.0[2], 0]);
        assert(network@ =~= seq![ip@[0], ip@[1], ip@[2], 0u8]);
        return Ok((network, 24));
    }
    Err(
        AppError::new(
            ErrKind::Usage,
            "--cidr <CIDR> もしくは -i <IPv4> のいずれかが必要 (例: --cidr 192.0.2.0/24)".to_owned(),
        ),
    )
}

// ───────────────────────── hosts ─────────────────────────

/// An address as one number.
pub open spec fn bits(octets: Seq<u8>) -> int {
    octets[0] * 0x1000000 + octets[1] * 0x10000 + octets[2] * 0x100 + octets[3]
}

/// The number of addresses of a network.
pub open spec fn network_size(prefix: u8) -> nat {
    pow2((32 - prefix) as nat)
}

/// The first address of a network, as a number.
pub open spec fn first_address(octets: Seq<u8>, prefix: u8) -> int {
    bits(octets) - bits(octets) % (network_size(prefix) as int)
}

/// The first host of a network. The first address is that of the network itself, but not where the
/// network has two addresses or one.
pub open spec fn first_host(octets: Seq<u8>, prefix: u8) -> int {
    if prefix >= 31 {
        first_address(octets, prefix)
    } else {
        first_address(octets, prefix) + 1
    }
}

/// The number of hosts of a network. The last address is for broadcasts, but not where the network
/// has two addresses or one.
pub open spec fn host_count(prefix: u8) -> int {
    if prefix >= 31 {
        network_size(prefix) as int
    } else {
        network_size(prefix) - 2
    }
}

/// The address with the given number.
pub open spec fn octets_of(n: int) -> Seq<u8> {
    seq![
        (n / 0x1000000) as u8,
        (n / 0x10000 % 0x100) as u8,
        (n / 0x100 % 0x100) as u8,
        (n % 0x100) as u8,
    ]
}

/// The hosts of a network: those with the numbers from the first on, in ascending order.
pub open spec fn hosts_of(octets: Seq<u8>, prefix: u8) -> Seq<Seq<u8>> {
    Seq::new(host_count(prefix) as nat, |i: int| octets_of(first_host(octets, prefix) + i))
}

/// The models of some addresses.
pub open spec fn ips_view(ips: Seq<Ipv4>) -> Seq<Seq<u8>> {
    ips.map_values(|ip: Ipv4| ip@)
}

/// The address with the given number.
fn from_bits(n: u32) -> (ip: Ipv4)
    ensures
        ip@ == octets_of(n as int),
{
    let ip = Ipv4(
        [
            (n / 0x1000000) as u8,
            (n / 0x10000 % 0x100) as u8,
            (n / 0x100 % 0x100) as u8,
            (n % 0x100) as u8,
        ],
    );
    assert(ip@ =~= octets_of(n as int));
    ip
}

/// The hosts of a network, in ascending order.
pub fn enumerate_hosts(net: Ipv4, prefix: u8) -> (hosts: Vec<Ipv4>)
    requires
        prefix <= 32,
    ensures
        ips_view(hosts@) == hosts_of(net@, prefix),
{
    let mut size: u64 = 1;
    let mut p: u8 = 32;
    proof {
        lemma2_to64();
    }
    while p > prefix
        invariant
            prefix <= p <= 32,
            size == pow2((32 - p) as nat),
            size <= 0x1_0000_0000,
            pow2(32) == 0x1_0000_0000,
        decreases p,
    {
        proof {
            lemma_pow2_unfold((32 - p + 1) as nat);
            if 32 - p + 1 < 32 {
                lemma_pow2_strictly_increases((32 - p + 1) as nat, 32);
            }
        }
        size = size * 2;
        p -= 1;
    }
    let number: u64 = net.0[0] as u64 * 0x1000000 + net.0[1] as u64 * 0x10000 + net.0[2] as u64
        * 0x100 + net.0[3] as u64;
    proof {
        lemma_pow2_pos((32 - prefix) as nat);
        vstd::arithmetic::div_mod::lemma_mod_decreases(number as nat, size as nat);
    }
    let base: u64 = number - number % size;
    let (first, count): (u64, u64) = if prefix >= 31 {
        (base, size)
    } else {
        proof {
            lemma_pow2_strictly_increases(1, (32 - prefix) as nat);
        }
        (base + 1, size - 2)
    };
    proof {
        lemma_network_end(number as int, prefix);
    }
    let mut hosts: Vec<Ipv4> = Vec::new();
    let mut i: u64 = 0;
    while i < count
        invariant
            i <= count,
            first + count <= 0x1_0000_0000,
            first == first_host(net@, prefix),
            hosts.len() == i,
            forall|k: int|
                0 <= k < i ==> (#[trigger] hosts@[k])@ == octets_of(first_host(net@, prefix) + k),
        decreases count - i,
    {
        hosts.push(from_bits((first + i) as u32));
        i += 1;
    }
    assert(ips_view(hosts@) =~= hosts_of(net@, prefix));
    hosts
}

/// A network ends at the last address at the latest.
pub(crate) proof fn lemma_network_end(number: int, prefix: u8)
    requires
        0 <= number < 0x1_0000_0000,
        prefix <= 32,
    ensures
        number - number % (network_size(prefix) as int) + network_size(prefix) <= 0x1_0000_0000,
{
    let size = network_size(prefix) as int;
    let rest = pow2(prefix as nat) as int;
    lemma_pow2_pos((32 - prefix) as nat);
    lemma_pow2_adds((32 - prefix) as nat, prefix as nat);
    lemma2_to64();
    assert(size * rest == 0x1_0000_0000);
    vstd::arithmetic::div_mod::lemma_fundamental_div_mod(number, size);
    let q = number / size;
    assert(q < rest) by (nonlinear_arith)
        requires
            size > 0,
            size * rest == 0x1_0000_0000,
            number == size * q + number % size,
            number % size >= 0,
            number < 0x1_0000_0000,
    ;
    assert(size * q + size <= size * rest) by (nonlinear_arith)
        requires
            size > 0,
            q + 1 <= rest,
    ;
}

/// Every network has a host.
pub proof fn law_network_has_hosts(prefix: u8)
    requires
        prefix <= 32,
    ensures
        host_count(prefix) > 0,
{
    lemma2_to64();
    lemma_pow2_pos((32 - prefix) as nat);
    if prefix < 31 {
        lemma_pow2_strictly_increases(1, (32 - prefix) as nat);
    }
}

/// An address and its number determine each other.
pub proof fn law_address_and_number(octets: Seq<u8>, n: int)
    requires
        octets.len() == 4,
        0 <= n < 0x1_0000_0000,
    ensures
        bits(octets) == n <==> octets == octets_of(n),
{
    if bits(octets) == n {
        assert(octets =~= octets_of(n));
    }
}

/// The hosts of a network with four addresses or more are all its addresses but the first and the
/// last, and those of a smaller network are all its addresses.
pub proof fn law_host_range(octets: Seq<u8>, prefix: u8, host: Seq<u8>)
    requires
        prefix <= 32,
        octets.len() == 4,
        host.len() == 4,
    ensures
        hosts_of(octets, prefix).contains(host) <==> {
            let first = first_address(octets, prefix);
            let last = first + network_size(prefix) - 1;
            if prefix >= 31 {
                first <= bits(host) <= last
            } else {
                first < bits(host) < last
            }
        },
{
    let hosts = hosts_of(octets, prefix);
    let first = first_host(octets, prefix);
    lemma_network_end(bits(octets), prefix);
    lemma_pow2_pos((32 - prefix) as nat);
    vstd::arithmetic::div_mod::lemma_mod_decreases(
        bits(octets) as nat,
        network_size(prefix),
    );
    law_network_has_hosts(prefix);
    if hosts.contains(host) {
        let i = choose|i: int| 0 <= i < hosts.len() && hosts[i] == host;
        law_address_and_number(host, first + i);
    }
    let i = bits(host) - first;
    if 0 <= i < host_count(prefix) {
        law_address_and_number(host, bits(host));
        assert(hosts[i] == host);
    }
}

/// The hosts to sweep: none where neither a network nor an interface is given.
pub open spec fn sweep_of(cidr: Option<Seq<char>>, iface: Option<Seq<u8>>) -> Result<
    Option<Seq<Seq<u8>>>,
    AppErrorView,
> {
    match network_of(cidr, iface) {
        Ok((octets, prefix)) => Ok(Some(hosts_of(octets, prefix))),
        Err(e) => if cidr is Some {
            Err(e)
        } else {
            Ok(None)
        },
    }
}

/// The hosts to sweep. Without a network and an interface there is no sweep; a network that cannot
/// be read is an error.
pub fn sweep_hosts(cidr: Option<&str>, iface: Option<Ipv4>) -> (r: Result<
    Option<Vec<Ipv4>>,
    AppError,
>)
    ensures
        match r {
            Ok(None) => sweep_of(text_view(cidr), ip_view(iface)) == Ok::<
                Option<Seq<Seq<u8>>>,
                AppErrorView,
            >(None),
            Ok(Some(hosts)) => sweep_of(text_view(cidr), ip_view(iface)) == Ok::<
                Option<Seq<Seq<u8>>>,
                AppErrorView,
            >(Some(ips_view(hosts@))),
            Err(e) => sweep_of(text_view(cidr), ip_view(iface)) == Err::<
                Option<Seq<Seq<u8>>>,
                AppErrorView,
            >(e@),
        },
{
    match resolve_cidr(cidr, iface) {
        Ok((base, prefix)) => Ok(Some(enumerate_hosts(base, prefix))),
        Err(e) => if cidr.is_some() {
            Err(e)
        } else {
            Ok(None)
        },
    }
}

/// Neither a network nor an interface means no sweep, and an interface alone is never an error.
pub proof fn law_sweep_is_optional(iface: Option<Seq<u8>>)
    ensures
        sweep_of(None, None) == Ok::<Option<Seq<Seq<u8>>>, AppErrorView>(None),
        iface is Some ==> (sweep_of(None, iface) matches Ok(Some(hosts)) && hosts.len() == 254),
{
    lemma2_to64();
}

} // verus!
