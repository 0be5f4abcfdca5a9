//! IPv4 addresses and networks.
//!
//! An address is its 32-bit number, the first octet in the highest bits.
use crate::text::{chars_of, decimal_text, split, Separator};
use vstd::prelude::*;

verus! {

/// The octet of `address` at `i`, counted from the left.
pub open spec fn octet(address: u32, i: int) -> nat {
    let a = address as nat;
    if i == 0 {
        a / 0x100_0000
    } else if i == 1 {
        a / 0x1_0000 % 0x100
    } else if i == 2 {
        a / 0x100 % 0x100
    } else {
        a % 0x100
    }
}

/// `address` in dotted decimal notation.
pub open spec fn ipv4_text(address: u32) -> Seq<char> {
    crate::text::dotted(ipv4_parts(address))
}

/// The four numerals of `address`.
pub open spec fn ipv4_parts(address: u32) -> Seq<Seq<char>> {
    seq![
        crate::text::decimal(octet(address, 0)),
        crate::text::decimal(octet(address, 1)),
        crate::text::decimal(octet(address, 2)),
        crate::text::decimal(octet(address, 3)),
    ]
}

/// The notation, numeral by numeral.
pub proof fn lemma_ipv4_text(address: u32)
    ensures
        ipv4_text(address) == (crate::text::decimal(octet(address, 0)).push('.')
            + crate::text::decimal(octet(address, 1))).push('.')
            + crate::text::decimal(octet(address, 2)).push('.') + crate::text::decimal(
            octet(address, 3),
        ),
{
    let p = ipv4_parts(address);
    reveal_with_fuel(crate::text::dotted, 4);
    assert(p.drop_last().drop_last().drop_last() =~= seq![p[0]]);
    assert(p.drop_last().last() == p[2]);
    assert(p.drop_last().drop_last().last() == p[1]);
    assert(ipv4_text(address) =~= (p[0].push('.') + p[1]).push('.') + p[2].push('.') + p[3]);
}

/// Writes `address` in dotted decimal notation.
pub fn format_ipv4(address: u32) -> (s: String)
    ensures
        s@ == ipv4_text(address),
{
    let mut s = decimal_text((address / 0x100_0000) as u64);
    s.push('.');
    s.append(decimal_text((address / 0x1_0000 % 0x100) as u64).as_str());
    s.push('.');
    s.append(decimal_text((address / 0x100 % 0x100) as u64).as_str());
    s.push('.');
    s.append(decimal_text((address % 0x100) as u64).as_str());
    proof {
        lemma_ipv4_text(address);
        assert(s@ =~= ipv4_text(address));
    }
    s
}

/// The value of the numeral `p` where it is one of an octet: one to three digits, no zero in front
/// of another digit, at most 255.
fn parse_octet(p: &Vec<char>) -> (r: Option<u32>)
    ensures
        r matches Some(n) ==> n <= 255 && p@ == crate::text::decimal(n as nat),
        r is None ==> forall|n: nat| n <= 255 ==> p@ != #[trigger] crate::text::decimal(n),
{
    proof {
        assert forall|n: nat| n <= 255 implies 1 <= (#[trigger] crate::text::decimal(n)).len() <= 3
            && (crate::text::decimal(n).len() > 1 ==> crate::text::decimal(n)[0] != '0') by {
            reveal_with_fuel(crate::text::decimal, 4);
        }
        assert forall|n: nat| n <= 255 implies (#[trigger] crate::text::decimal(n)).len() >= 1
            && forall|i: int|
            0 <= i < crate::text::decimal(n).len() ==> '0' <= #[trigger] crate::text::decimal(n)[i]
                <= '9' by {
            crate::text::lemma_decimal_digits(n);
        }
    }
    if p.len() == 0 || p.len() > 3 {
        return None;
    }
    if p.len() > 1 && p[0] == '0' {
        return None;
    }
    let mut n: u32 = 0;
    let mut i: usize = 0;
    while i < p.len()
        invariant
            1 <= p@.len() <= 3,
            p@.len() > 1 ==> p@[0] != '0',
            i <= p@.len(),
            i == 0 ==> n == 0,
            i == 1 ==> n < 10 && (p@.len() > 1 ==> n >= 1),
            i == 2 ==> 10 <= n < 100,
            i == 3 ==> 100 <= n < 1000,
            i > 0 ==> crate::text::decimal(n as nat) == p@.take(i as int),
            forall|m: nat|
                m <= 255 ==> (#[trigger] crate::text::decimal(m)).len() >= 1 && forall|k: int|
                    0 <= k < crate::text::decimal(m).len() ==> '0'
                        <= #[trigger] crate::text::decimal(m)[k] <= '9',
        decreases p@.len() - i,
    {
        let c = p[i];
        if c < '0' || c > '9' {
            proof {
                assert forall|m: nat| m <= 255 implies p@ != #[trigger] crate::text::decimal(m) by {
                    if p@ == crate::text::decimal(m) {
                        assert('0' <= crate::text::decimal(m)[i as int] <= '9');
                    }
                }
            }
            return None;
        }
        let ghost before = n;
        let d: u32 = c as u32 - 48;
        n = n * 10 + d;
        proof {
            assert(crate::text::digit(d as nat) == c);
            assert(p@.take(i + 1) =~= p@.take(i as int).push(c));
            if i > 0 {
                assert(n as nat / 10 == before as nat);
                assert(n as nat % 10 == d as nat);
            } else {
                assert(p@.take(1) =~= seq![c]);
            }
        }
        i = i + 1;
    }
    proof {
        assert(p@.take(p@.len() as int) == p@);
    }
    if n > 255 {
        proof {
            assert forall|m: nat| m <= 255 implies p@ != #[trigger] crate::text::decimal(m) by {
                lemma_decimal_injective(m, n as nat);
            }
        }
        return None;
    }
    Some(n)
}

/// Different numbers have different numerals.
pub proof fn lemma_decimal_injective(m: nat, n: nat)
    ensures
        crate::text::decimal(m) == crate::text::decimal(n) ==> m == n,
    decreases m,
{
    let a = crate::text::decimal(m);
    let b = crate::text::decimal(n);
    if a == b {
        crate::text::lemma_decimal_digits(m / 10);
        crate::text::lemma_decimal_digits(n / 10);
        assert(a.last() == b.last());
        if m >= 10 && n >= 10 {
            assert(a.drop_last() == crate::text::decimal(m / 10));
            assert(b.drop_last() == crate::text::decimal(n / 10));
            lemma_decimal_injective(m / 10, n / 10);
        }
    }
}

/// The notation of an address, cut at the full stops, is its four numerals.
proof fn lemma_ipv4_pieces(address: u32)
    ensures
        crate::text::pieces(ipv4_text(address), Separator::Dot) == ipv4_parts(address),
{
    let sep = Separator::Dot;
    let p = ipv4_parts(address);
    assert forall|i: int| 0 <= i < 4 implies crate::text::uncut(#[trigger] p[i], sep) by {
        crate::text::lemma_decimal_digits(octet(address, i));
    }
    lemma_ipv4_text(address);
    let s1 = p[0].push('.') + p[1];
    let s2 = s1.push('.') + p[2];
    let s3 = s2.push('.') + p[3];
    assert(ipv4_text(address) =~= s3);
    crate::text::lemma_pieces_uncut(p[0], sep);
    crate::text::lemma_pieces_append(p[0], '.', p[1], sep);
    crate::text::lemma_pieces_append(s1, '.', p[2], sep);
    crate::text::lemma_pieces_append(s2, '.', p[3], sep);
    assert(crate::text::pieces(s3, sep) =~= p);
}

/// Four octets make an address, and are its octets.
proof fn lemma_octets(a: u32, b: u32, c: u32, d: u32)
    requires
        a <= 255,
        b <= 255,
        c <= 255,
        d <= 255,
    ensures
        a * 0x100_0000 + b * 0x1_0000 + c * 0x100 + d <= u32::MAX,
        octet((a * 0x100_0000 + b * 0x1_0000 + c * 0x100 + d) as u32, 0) == a,
        octet((a * 0x100_0000 + b * 0x1_0000 + c * 0x100 + d) as u32, 1) == b,
        octet((a * 0x100_0000 + b * 0x1_0000 + c * 0x100 + d) as u32, 2) == c,
        octet((a * 0x100_0000 + b * 0x1_0000 + c * 0x100 + d) as u32, 3) == d,
{
    let n = a * 0x100_0000 + b * 0x1_0000 + c * 0x100 + d;
    assert(n <= u32::MAX);
    assert(n as u32 == n);
    assert(n / 0x100_0000 == a);
    assert(n / 0x1_0000 == a * 0x100 + b);
    assert((a * 0x100 + b) % 0x100 == b as int);
    assert(n / 0x100 == a * 0x1_0000 + b * 0x100 + c);
    assert((a * 0x1_0000 + b * 0x100 + c) % 0x100 == c as int);
    assert(n % 0x100 == d as int);
}

/// Reads an address in dotted decimal notation: four numbers from 0 to 255 with full stops between
/// them, no zero in front of another digit. Nothing else is an address.
pub fn parse_ipv4(s: &str) -> (r: Option<u32>)
    ensures
        r matches Some(address) ==> s@ == ipv4_text(address),
        r is None ==> forall|address: u32| s@ != #[trigger] ipv4_text(address),
{
    let parts = split(&chars_of(s), Separator::Dot);
    proof {
        assert forall|address: u32| s@ == #[trigger] ipv4_text(address) implies parts@.len() == 4
            && forall|i: int|
            0 <= i < 4 ==> (#[trigger] parts@[i])@ == crate::text::decimal(octet(address, i)) by {
            lemma_ipv4_pieces(address);
            let l = crate::text::char_lists(parts@);
            assert(l.len() == parts@.len());
            assert forall|i: int| 0 <= i < 4 implies (#[trigger] parts@[i])@
                == crate::text::decimal(octet(address, i)) by {
                assert(l[i] == parts@[i]@);
            }
        }
    }
    if parts.len() != 4 {
        return None;
    }
    let (a, b, c, d) = match (
        parse_octet(&parts[0]),
        parse_octet(&parts[1]),
        parse_octet(&parts[2]),
        parse_octet(&parts[3]),
    ) {
        (Some(a), Some(b), Some(c), Some(d)) => (a, b, c, d),
        _ => {
            return None;
        },
    };
    proof {
        lemma_octets(a, b, c, d);
    }
    let address: u32 = a * 0x100_0000 + b * 0x1_0000 + c * 0x100 + d;
    proof {
        crate::text::lemma_dotted_pieces(s@);
        assert(crate::text::char_lists(parts@) =~= ipv4_parts(address));
    }
    Some(address)
}

/// An address has one notation, and a notation one address.
pub proof fn lemma_ipv4_text_injective(a: u32, b: u32)
    ensures
        ipv4_text(a) == ipv4_text(b) ==> a == b,
{
    if ipv4_text(a) == ipv4_text(b) {
        lemma_ipv4_pieces(a);
        lemma_ipv4_pieces(b);
        assert forall|i: int| 0 <= i < 4 implies octet(a, i) == octet(b, i) by {
            assert(ipv4_parts(a)[i] == ipv4_parts(b)[i]);
            lemma_decimal_injective(octet(a, i), octet(b, i));
        }
        assert(octet(a, 0) == octet(b, 0));
        assert(octet(a, 1) == octet(b, 1));
        assert(octet(a, 2) == octet(b, 2));
        assert(octet(a, 3) == octet(b, 3));
    }
}

/// Whether `address` is set aside for private networks: 10.0.0.0/8, 172.16.0.0/12 or
/// 192.168.0.0/16.
pub open spec fn private_use(address: u32) -> bool {
    ||| octet(address, 0) == 10
    ||| octet(address, 0) == 172 && 16 <= octet(address, 1) <= 31
    ||| octet(address, 0) == 192 && octet(address, 1) == 168
}

/// Whether `address` is set aside for private networks.
pub fn is_private(address: u32) -> (b: bool)
    ensures
        b == private_use(address),
{
    let a: u32 = address / 0x100_0000;
    let b: u32 = address / 0x1_0000 % 0x100;
    a == 10 || (a == 172 && 16 <= b && b <= 31) || (a == 192 && b == 168)
}

/// A network: its first address and the number of leading bits that its addresses share.
#[derive(Clone, Copy, Debug, PartialEq, Eq, Structural)]
pub struct Cidr {
    /// The first address.
    pub first: u32,
    /// The number of shared leading bits.
    pub length: u8,
}

impl Cidr {
    /// The number of addresses in the network.
    pub open spec fn size(self) -> nat {
        vstd::arithmetic::power2::pow2((32 - self.length) as nat)
    }

    /// At most 32 bits are shared, and the bits behind them are zero in the first address.
    pub open spec fn wf(self) -> bool {
        &&& self.length <= 32
        &&& self.first as nat % self.size() == 0
    }

    /// The addresses of the network, in ascending order.
    pub open spec fn addresses(self) -> Seq<u32> {
        Seq::new(self.size(), |i: int| (self.first + i) as u32)
    }

    /// The network in the notation `address/length`.
    pub open spec fn text(self) -> Seq<char> {
        cidr_text(self.first, self.length as nat)
    }
}

/// An address and a length in the notation `address/length`.
pub open spec fn cidr_text(address: u32, length: nat) -> Seq<char> {
    ipv4_text(address).push('/') + crate::text::decimal(length)
}

/// The network with a given first address and length; `None` where there is none.
pub open spec fn network_at(first: u32, length: nat) -> Option<Cidr> {
    if length <= 32 && (Cidr { first, length: length as u8 }).wf() {
        Some(Cidr { first, length: length as u8 })
    } else {
        None
    }
}

/// The addresses of a network are consecutive, and none of them is past the last IPv4 address.
pub proof fn lemma_addresses_consecutive(network: Cidr)
    requires
        network.wf(),
    ensures
        0 < network.size() <= 0x1_0000_0000,
        network.first + network.size() <= 0x1_0000_0000,
        network.addresses().len() == network.size(),
        forall|i: int|
            0 <= i < network.size() ==> #[trigger] network.addresses()[i] == network.first + i,
{
    let n = network.size();
    let k = (32 - network.length) as nat;
    vstd::arithmetic::power2::lemma_pow2_pos(k);
    vstd::arithmetic::power2::lemma_pow2_adds(k, network.length as nat);
    vstd::arithmetic::power2::lemma_pow2_pos(network.length as nat);
    vstd::arithmetic::power2::lemma2_to64();
    let m = vstd::arithmetic::power2::pow2(network.length as nat);
    assert(n * m == 0x1_0000_0000);
    assert(n <= 0x1_0000_0000) by (nonlinear_arith)
        requires
            n * m == 0x1_0000_0000,
            m >= 1,
            n >= 1,
    ;
    let q = network.first as nat / n;
    assert(network.first == n * q) by {
        vstd::arithmetic::div_mod::lemma_fundamental_div_mod(network.first as int, n as int);
    }
    assert(q < m) by (nonlinear_arith)
        requires
            n * q < n * m,
            n >= 1,
            q >= 0,
            m >= 1,
    ;
    assert(n * q + n <= n * m) by (nonlinear_arith)
        requires
            q + 1 <= m,
            n >= 1,
    ;
}

/// The number of addresses in a network whose addresses share `net_length` leading bits.
pub fn count_ipv4_net_length(net_length: u32) -> (n: u64)
    requires
        net_length <= 32,
    ensures
        n == vstd::arithmetic::power2::pow2((32 - net_length) as nat),
        1 <= n <= 0x1_0000_0000,
{
    let shift: u64 = (32 - net_length) as u64;
    proof {
        let k = (32 - net_length) as nat;
        vstd::arithmetic::power2::lemma2_to64();
        vstd::arithmetic::power2::lemma_pow2_pos(k);
        if k < 32 {
            vstd::arithmetic::power2::lemma_pow2_strictly_increases(k, 32);
        }
        vstd::bits::lemma_u64_shl_is_mul(1, shift);
    }
    1u64 << shift
}

/// The addresses of `network`, in ascending order.
pub fn get_ips4_from_cidr(network: Cidr) -> (ips: Vec<u32>)
    requires
        network.wf(),
        network.size() <= usize::MAX,
    ensures
        ips@ == network.addresses(),
{
    proof {
        lemma_addresses_consecutive(network);
    }
    let n: u64 = count_ipv4_net_length(network.length as u32);
    let mut ips: Vec<u32> = Vec::new();
    let mut i: u64 = 0;
    while i < n
        invariant
            n == network.size(),
            i <= n,
            network.first + n <= 0x1_0000_0000,
            ips@ == network.addresses().take(i as int),
        decreases n - i,
    {
        ips.push((network.first as u64 + i) as u32);
        i = i + 1;
        proof {
            assert(ips@ =~= network.addresses().take(i as int));
        }
    }
    proof {
        assert(network.addresses().take(n as int) == network.addresses());
    }
    ips
}

/// The network of the 256 addresses that differ from `address` at most in the last octet.
pub open spec fn subnet_of(address: u32) -> Cidr {
    Cidr { first: (address - address % 256) as u32, length: 24 }
}

/// The network of `subnet_of` is well formed.
pub proof fn lemma_subnet_of(address: u32)
    ensures
        subnet_of(address).wf(),
        subnet_of(address).addresses().contains(address),
{
    let n = subnet_of(address);
    vstd::arithmetic::power2::lemma2_to64();
    lemma_addresses_consecutive(n);
    assert(n.addresses()[(address % 256) as int] == address);
}

/// Writes the network of the 256 addresses that differ from `address` at most in the last octet.
pub fn subnet_text(address: u32) -> (s: String)
    ensures
        s@ == subnet_of(address).text(),
{
    let mut s = format_ipv4(address - address % 256);
    s.push('/');
    s.append(decimal_text(24).as_str());
    s
}

/// What `cidr::Ipv4Cidr` makes of the text `s`: the network, or `None` where it reports an error.
pub uninterp spec fn cidr_parsed(s: Seq<char>) -> Option<Cidr>;

/// Whether `c` can stand in a text that is read as a network.
pub open spec fn in_cidr_text(c: char) -> bool {
    '0' <= c <= '9' || c == '.' || c == '/' || c == '+'
}

/// Calls `cidr::Ipv4Cidr::from_str`, whose result on a given text is `cidr_parsed`, and takes the
/// network's first address and length. It accepts a length of at most 32 bits only, and only zeros
/// behind them in the address. It reads the notation `address/length` as that network where there is
/// one and reports an error where there is none, and it reads an address alone as the network of that
/// one address. It accepts no empty text, and none with a character other than digits, full stops,
/// slashes and plus signs. What it makes of other notations, such as those with fewer octets or with
/// leading zeros, is not said further.
#[verifier::external_body]
pub(crate) fn parse_cidr(s: &str) -> (r: Option<Cidr>)
    ensures
        r == cidr_parsed(s@),
        r matches Some(network) ==> network.wf(),
        forall|address: u32, length: nat|
            s@ == #[trigger] cidr_text(address, length) ==> r == network_at(address, length),
        forall|address: u32|
            s@ == #[trigger] ipv4_text(address) ==> r == Some(Cidr { first: address, length: 32 }),
        r is Some ==> s@.len() > 0 && forall|i: int|
            0 <= i < s@.len() ==> in_cidr_text(#[trigger] s@[i]),
{
    match s.parse::<cidr::Ipv4Cidr>() {
        Ok(c) => Some(Cidr { first: u32::from(c.first_address()), length: c.network_length() }),
        Err(_) => None,
    }
}

/// The notation of the address with four given octets, the first in the highest bits, is their four
/// decimal numerals with full stops between them.
pub proof fn law_notation_of_octets(a: u32, b: u32, c: u32, d: u32)
    requires
        a <= 255,
        b <= 255,
        c <= 255,
        d <= 255,
    ensures
        a * 0x100_0000 + b * 0x1_0000 + c * 0x100 + d <= u32::MAX,
        ipv4_text((a * 0x100_0000 + b * 0x1_0000 + c * 0x100 + d) as u32) == crate::text::decimal(
            a as nat,
        ) + seq!['.'] + crate::text::decimal(b as nat) + seq!['.'] + crate::text::decimal(c as nat)
            + seq!['.'] + crate::text::decimal(d as nat),
{
    lemma_octets(a, b, c, d);
    let address = (a * 0x100_0000 + b * 0x1_0000 + c * 0x100 + d) as u32;
    lemma_ipv4_text(address);
    assert(ipv4_text(address) =~= crate::text::decimal(a as nat) + seq!['.'] + crate::text::decimal(
        b as nat,
    ) + seq!['.'] + crate::text::decimal(c as nat) + seq!['.'] + crate::text::decimal(d as nat));
}

/// The addresses for private use are those from 10.0.0.0 to 10.255.255.255, from 172.16.0.0 to
/// 172.31.255.255 and from 192.168.0.0 to 192.168.255.255.
pub proof fn law_private_ranges(address: u32)
    ensures
        private_use(address) <==> 0x0a00_0000 <= address <= 0x0aff_ffff || 0xac10_0000 <= address
            <= 0xac1f_ffff || 0xc0a8_0000 <= address <= 0xc0a8_ffff,
{
}

/// A network of length `n` has 2^(32-n) addresses, from the first on without a gap, and its first
/// address is a multiple of that number.
pub proof fn law_network_addresses(network: Cidr)
    ensures
        network.size() == vstd::arithmetic::power2::pow2((32 - network.length) as nat),
        network.wf() <==> network.length <= 32 && network.first as int % (
        vstd::arithmetic::power2::pow2((32 - network.length) as nat) as int) == 0,
        network.wf() ==> network.addresses().len() == vstd::arithmetic::power2::pow2(
            (32 - network.length) as nat,
        ),
        network.wf() ==> forall|i: int|
            0 <= i < network.addresses().len() ==> #[trigger] network.addresses()[i] == network.first
                + i,
{
    if network.wf() {
        lemma_addresses_consecutive(network);
    }
}

/// The network around an address has the 256 addresses that share its first three octets, and is written
/// with these, a zero and the length.
pub proof fn law_subnet_around_an_address(a: u32, b: u32, c: u32, d: u32)
    requires
        a <= 255,
        b <= 255,
        c <= 255,
        d <= 255,
    ensures
        ({
            let address = (a * 0x100_0000 + b * 0x1_0000 + c * 0x100 + d) as u32;
            let network = subnet_of(address);
            &&& network.first == address - d
            &&& network.length == 24
            &&& network.wf()
            &&& network.text() == crate::text::decimal(a as nat) + seq!['.'] + crate::text::decimal(
                b as nat,
            ) + seq!['.'] + crate::text::decimal(c as nat) + seq!['.', '0', '/', '2', '4']
        }),
{
    let address = (a * 0x100_0000 + b * 0x1_0000 + c * 0x100 + d) as u32;
    let first = (a * 0x100_0000 + b * 0x1_0000 + c * 0x100 + 0) as u32;
    let x = crate::text::decimal(a as nat);
    let y = crate::text::decimal(b as nat);
    let z = crate::text::decimal(c as nat);
    law_notation_of_octets(a, b, c, d);
    law_notation_of_octets(a, b, c, 0);
    lemma_subnet_of(address);
    lemma_last_octet(a as int, b as int, c as int, d as int);
    assert(subnet_of(address).first == first);
    lemma_short_numerals();
    assert(ipv4_text(first) == x + seq!['.'] + y + seq!['.'] + z + seq!['.'] + seq!['0']);
    assert(cidr_text(first, 24) =~= x + seq!['.'] + y + seq!['.'] + z + seq!['.', '0', '/', '2', '4']);
}

proof fn lemma_last_octet(a: int, b: int, c: int, d: int)
    requires
        0 <= d <= 255,
    ensures
        (a * 0x100_0000 + b * 0x1_0000 + c * 0x100 + d) % 256 == d,
{
    let k = a * 0x1_0000 + b * 0x100 + c;
    assert(a * 0x100_0000 + b * 0x1_0000 + c * 0x100 + d == 256 * k + d);
}

proof fn lemma_short_numerals()
    ensures
        crate::text::decimal(0) == seq!['0'],
        crate::text::decimal(24) == seq!['2', '4'],
{
    reveal_with_fuel(crate::text::decimal, 3);
    assert(crate::text::decimal(0) =~= seq!['0']);
    assert(crate::text::decimal(24) =~= seq!['2', '4']);
}

/// A network is written as its first address, a slash and its length. An address and a length denote a
/// network where the length is at most 32 and the bits behind it are zero, and the network then has that
/// first address and that length.
pub proof fn law_network_notation(first: u32, length: nat)
    ensures
        cidr_text(first, length) == ipv4_text(first) + seq!['/'] + crate::text::decimal(length),
        network_at(first, length) is Some <==> length <= 32 && first as int % (
        vstd::arithmetic::power2::pow2((32 - length) as nat) as int) == 0,
        network_at(first, length) matches Some(network) ==> network.first == first && network.length
            == length && network.text() == cidr_text(first, length),
{
    assert(cidr_text(first, length) =~= ipv4_text(first) + seq!['/'] + crate::text::decimal(length));
}

} // verus!
