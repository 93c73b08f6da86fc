//! Network addresses as plain values.

use crate::bytes::{join, lemma_split_first_shorter, split_byte, split_first, split_once};
use vstd::prelude::*;

verus! {

/// An IP address, version 4 or 6, in network byte order.
#[derive(Debug, Clone, Copy, PartialEq, Eq)]
pub enum IpAddress {
    V4([u8; 4]),
    V6([u8; 16]),
}

/// An IP address together with a TCP port.
#[derive(Debug, Clone, Copy, PartialEq, Eq)]
pub struct Endpoint {
    pub ip: IpAddress,
    pub port: u16,
}

impl Endpoint {
    /// The endpoint made of `ip` and `port`.
    pub fn new(ip: IpAddress, port: u16) -> (e: Self)
        ensures
            e.ip == ip,
            e.port == port,
    {
        Endpoint { ip, port }
    }
}

/// The full stop `.`.
pub const DOT: u8 = 46;

/// The colon `:`.
pub const COLON: u8 = 58;

/// Whether `b` is a decimal digit.
pub open spec fn is_digit(b: u8) -> bool {
    48 <= b <= 57
}

/// Whether `s` holds decimal digits only.
pub open spec fn all_digits(s: Seq<u8>) -> bool {
    forall|i: int| 0 <= i < s.len() ==> is_digit(#[trigger] s[i])
}

/// The number that the decimal digits `s` spell.
pub open spec fn decimal_value(s: Seq<u8>) -> int
    decreases s.len(),
{
    if s.len() == 0 {
        0
    } else {
        decimal_value(s.drop_last()) * 10 + (s.last() - 48)
    }
}

/// The number that `s` spells in decimal, where `s` is one or more digits and
/// the number is at most `max`.
pub open spec fn parse_decimal_spec(s: Seq<u8>, max: int) -> Option<int> {
    if s.len() >= 1 && all_digits(s) && decimal_value(s) <= max {
        Some(decimal_value(s))
    } else {
        None
    }
}

/// A prefix of a digit string spells a number that is not negative and not
/// larger than that of the whole.
pub proof fn lemma_decimal_prefix(s: Seq<u8>, k: int)
    requires
        all_digits(s),
        0 <= k <= s.len(),
    ensures
        0 <= decimal_value(s.subrange(0, k)) <= decimal_value(s),
    decreases s.len(),
{
    if s.len() == 0 {
        assert(s.subrange(0, k) =~= s);
    } else if k == s.len() {
        assert(s.subrange(0, k) =~= s);
        lemma_decimal_prefix(s.drop_last(), k - 1);
    } else {
        lemma_decimal_prefix(s.drop_last(), k);
        assert(s.drop_last().subrange(0, k) =~= s.subrange(0, k));
    }
}

/// Parses one or more decimal digits that spell a number of at most `max`.
pub fn parse_decimal(s: &[u8], max: u32) -> (r: Option<u32>)
    ensures
        match r {
            Some(v) => parse_decimal_spec(s@, max as int) == Some(v as int),
            None => parse_decimal_spec(s@, max as int) is None,
        },
{
    let n = s.len();
    if n == 0 {
        return None;
    }
    let mut i: usize = 0;
    while i < n
        invariant
            n == s@.len(),
            i <= n,
            forall|j: int| 0 <= j < i ==> is_digit(#[trigger] s@[j]),
        decreases n - i,
    {
        if s[i] < 48 || s[i] > 57 {
            return None;
        }
        i += 1;
    }
    let mut v: u64 = 0;
    i = 0;
    while i < n
        invariant
            n == s@.len(),
            i <= n,
            all_digits(s@),
            v == decimal_value(s@.subrange(0, i as int)),
            v <= max,
        decreases n - i,
    {
        assert(s@.subrange(0, i + 1).drop_last() =~= s@.subrange(0, i as int));
        let next = v * 10 + (s[i] - 48) as u64;
        if next > max as u64 {
            proof {
                lemma_decimal_prefix(s@, i + 1);
            }
            return None;
        }
        v = next;
        i += 1;
    }
    assert(s@.subrange(0, n as int) =~= s@);
    Some(v as u32)
}

/// One part of a dotted quad: a number up to 255 without a needless leading zero.
pub open spec fn parse_octet_spec(s: Seq<u8>) -> Option<int> {
    if s.len() > 1 && s[0] == 48 {
        None
    } else {
        parse_decimal_spec(s, 255)
    }
}

/// The four bytes of an IPv4 address written as a dotted quad.
pub open spec fn parse_ipv4_spec(s: Seq<u8>) -> Option<Seq<u8>> {
    match split_first(s, seq![DOT]) {
        Some((first, after_first)) => match split_first(after_first, seq![DOT]) {
            Some((second, after_second)) => match split_first(after_second, seq![DOT]) {
                Some((third, fourth)) => match (
                    parse_octet_spec(first),
                    parse_octet_spec(second),
                    parse_octet_spec(third),
                    parse_octet_spec(fourth),
                ) {
                    (Some(a), Some(b), Some(c), Some(d)) => Some(
                        seq![a as u8, b as u8, c as u8, d as u8],
                    ),
                    _ => None,
                },
                None => None,
            },
            None => None,
        },
        None => None,
    }
}

/// Parses one part of a dotted quad.
pub fn parse_octet(s: &[u8]) -> (r: Option<u8>)
    ensures
        match r {
            Some(v) => parse_octet_spec(s@) == Some(v as int),
            None => parse_octet_spec(s@) is None,
        },
{
    if s.len() > 1 && s[0] == 48 {
        return None;
    }
    match parse_decimal(s, 255) {
        Some(v) => Some(v as u8),
        None => None,
    }
}

/// Parses an IPv4 address written as a dotted quad, such as `192.0.2.1`.
pub fn parse_ipv4(s: &[u8]) -> (r: Option<[u8; 4]>)
    ensures
        match r {
            Some(a) => parse_ipv4_spec(s@) == Some(a@),
            None => parse_ipv4_spec(s@) is None,
        },
{
    let (first, after_first) = match split_byte(s, DOT) {
        Some(parts) => parts,
        None => { return None; },
    };
    let (second, after_second) = match split_byte(after_first, DOT) {
        Some(parts) => parts,
        None => { return None; },
    };
    let (third, fourth) = match split_byte(after_second, DOT) {
        Some(parts) => parts,
        None => { return None; },
    };
    let a = match parse_octet(first) {
        Some(v) => v,
        None => { return None; },
    };
    let b = match parse_octet(second) {
        Some(v) => v,
        None => { return None; },
    };
    let c = match parse_octet(third) {
        Some(v) => v,
        None => { return None; },
    };
    let d = match parse_octet(fourth) {
        Some(v) => v,
        None => { return None; },
    };
    let quad = [a, b, c, d];
    assert(quad@ =~= seq![a, b, c, d]);
    Some(quad)
}

/// The value of a hexadecimal digit.
pub open spec fn hex_value(b: u8) -> Option<int> {
    if 48 <= b <= 57 {
        Some(b - 48)
    } else if 97 <= b <= 102 {
        Some(b - 97 + 10)
    } else if 65 <= b <= 70 {
        Some(b - 65 + 10)
    } else {
        None
    }
}

/// Whether `s` holds hexadecimal digits only.
pub open spec fn all_hex(s: Seq<u8>) -> bool {
    forall|i: int| 0 <= i < s.len() ==> hex_value(#[trigger] s[i]) is Some
}

/// The number that the hexadecimal digits `s` spell.
pub open spec fn hex_number(s: Seq<u8>) -> int
    decreases s.len(),
{
    if s.len() == 0 {
        0
    } else {
        hex_number(s.drop_last()) * 16 + hex_value(s.last())->0
    }
}

/// One group of an IPv6 address: one to four hexadecimal digits.
pub open spec fn parse_group_spec(s: Seq<u8>) -> Option<int> {
    if 1 <= s.len() <= 4 && all_hex(s) {
        Some(hex_number(s))
    } else {
        None
    }
}

/// The two bytes of a 16-bit group, high byte first.
pub open spec fn group_bytes(g: int) -> Seq<u8> {
    seq![(g / 256) as u8, (g % 256) as u8]
}

/// The value of a hexadecimal digit.
pub fn hex_digit(b: u8) -> (r: Option<u8>)
    ensures
        match r {
            Some(v) => hex_value(b) == Some(v as int) && v < 16,
            None => hex_value(b) is None,
        },
{
    if 48 <= b && b <= 57 {
        Some(b - 48)
    } else if 97 <= b && b <= 102 {
        Some(b - 97 + 10)
    } else if 65 <= b && b <= 70 {
        Some(b - 65 + 10)
    } else {
        None
    }
}

/// Parses one group of an IPv6 address.
pub fn parse_group(s: &[u8]) -> (r: Option<u16>)
    ensures
        match r {
            Some(v) => parse_group_spec(s@) == Some(v as int),
            None => parse_group_spec(s@) is None,
        },
{
    let n = s.len();
    if n == 0 || n > 4 {
        return None;
    }
    let mut v: u32 = 0;
    let mut i: usize = 0;
    while i < n
        invariant
            n == s@.len(),
            n <= 4,
            i <= n,
            forall|j: int| 0 <= j < i ==> hex_value(#[trigger] s@[j]) is Some,
            v == hex_number(s@.subrange(0, i as int)),
            i == 0 ==> v == 0,
            i == 1 ==> v < 16,
            i == 2 ==> v < 256,
            i == 3 ==> v < 4096,
            i == 4 ==> v < 65536,
        decreases n - i,
    {
        assert(s@.subrange(0, i + 1).drop_last() =~= s@.subrange(0, i as int));
        match hex_digit(s[i]) {
            Some(d) => {
                v = v * 16 + d as u32;
            },
            None => {
                return None;
            },
        }
        i += 1;
    }
    assert(s@.subrange(0, n as int) =~= s@);
    Some(v as u16)
}

/// The bytes of groups separated by single colons. With `allow_v4` the last
/// part may be a dotted quad, which stands for four bytes. The text is not
/// empty, and neither is any part of it.
pub open spec fn parse_pieces_spec(s: Seq<u8>, allow_v4: bool) -> Option<Seq<u8>>
    decreases s.len(),
{
    match split_first(s, seq![COLON]) {
        None => match parse_group_spec(s) {
            Some(g) => Some(group_bytes(g)),
            None => if allow_v4 {
                parse_ipv4_spec(s)
            } else {
                None
            },
        },
        Some((piece, rest)) => if rest.len() < s.len() {
            match parse_group_spec(piece) {
                Some(g) => join(Some(group_bytes(g)), parse_pieces_spec(rest, allow_v4)),
                None => None,
            }
        } else {
            None
        },
    }
}

/// As many zero bytes as `n` says.
pub open spec fn zeros(n: int) -> Seq<u8> {
    Seq::new(n as nat, |i: int| 0u8)
}

/// The groups on one side of `::`, of which there may be none.
pub open spec fn parse_side_spec(s: Seq<u8>, allow_v4: bool) -> Option<Seq<u8>> {
    if s.len() == 0 {
        Some(Seq::empty())
    } else {
        parse_pieces_spec(s, allow_v4)
    }
}

/// The sixteen bytes of an IPv6 address in text form: eight groups, of which
/// one `::` may stand for a run of one or more zero groups, and of which the
/// last two may be written as a dotted quad.
pub open spec fn parse_ipv6_spec(s: Seq<u8>) -> Option<Seq<u8>> {
    match split_first(s, seq![COLON, COLON]) {
        None => match parse_pieces_spec(s, true) {
            Some(b) => if b.len() == 16 {
                Some(b)
            } else {
                None
            },
            None => None,
        },
        Some((left, right)) => match (parse_side_spec(left, false), parse_side_spec(right, true)) {
            (Some(a), Some(b)) => if a.len() + b.len() <= 14 {
                Some(a + zeros(16 - a.len() - b.len()) + b)
            } else {
                None
            },
            _ => None,
        },
    }
}

/// Parses groups separated by single colons.
pub fn parse_pieces(s: &[u8], allow_v4: bool) -> (r: Option<Vec<u8>>)
    ensures
        match r {
            Some(v) => parse_pieces_spec(s@, allow_v4) == Some(v@),
            None => parse_pieces_spec(s@, allow_v4) is None,
        },
{
    let mut out: Vec<u8> = Vec::new();
    let mut rest = s;
    assert(Seq::<u8>::empty() + parse_pieces_spec(s@, allow_v4)->0 =~= parse_pieces_spec(
        s@,
        allow_v4,
    )->0);
    loop
        invariant
            parse_pieces_spec(s@, allow_v4) == join(
                Some(out@),
                parse_pieces_spec(rest@, allow_v4),
            ),
        decreases rest@.len(),
    {
        match split_byte(rest, COLON) {
            None => {
                match parse_group(rest) {
                    Some(g) => {
                        let ghost before = out@;
                        out.push((g / 256) as u8);
                        out.push((g % 256) as u8);
                        assert(out@ =~= before + group_bytes(g as int));
                        return Some(out);
                    },
                    None => {
                        if !allow_v4 {
                            return None;
                        }
                        match parse_ipv4(rest) {
                            Some(quad) => {
                                let ghost before = out@;
                                out.push(quad[0]);
                                out.push(quad[1]);
                                out.push(quad[2]);
                                out.push(quad[3]);
                                assert(out@ =~= before + quad@);
                                return Some(out);
                            },
                            None => {
                                return None;
                            },
                        }
                    },
                }
            },
            Some((piece, more)) => {
                proof {
                    lemma_split_first_shorter(rest@, seq![COLON]);
                }
                match parse_group(piece) {
                    Some(g) => {
                        let ghost before = out@;
                        out.push((g / 256) as u8);
                        out.push((g % 256) as u8);
                        proof {
                            let tail = parse_pieces_spec(more@, allow_v4);
                            if tail is Some {
                                assert(before + (group_bytes(g as int) + tail->0) =~= out@
                                    + tail->0);
                            }
                        }
                        rest = more;
                    },
                    None => {
                        return None;
                    },
                }
            },
        }
    }
}

/// Parses the groups on one side of `::`.
pub fn parse_side(s: &[u8], allow_v4: bool) -> (r: Option<Vec<u8>>)
    ensures
        match r {
            Some(v) => parse_side_spec(s@, allow_v4) == Some(v@),
            None => parse_side_spec(s@, allow_v4) is None,
        },
{
    if s.len() == 0 {
        Some(Vec::new())
    } else {
        parse_pieces(s, allow_v4)
    }
}

/// Parses an IPv6 address in text form, such as `2001:db8::1`.
pub fn parse_ipv6(s: &[u8]) -> (r: Option<[u8; 16]>)
    ensures
        match r {
            Some(a) => parse_ipv6_spec(s@) == Some(a@),
            None => parse_ipv6_spec(s@) is None,
        },
{
    let gap: [u8; 2] = [COLON, COLON];
    assert(gap@ =~= seq![COLON, COLON]);
    let mut bytes: Vec<u8> = Vec::new();
    match split_once(s, &gap) {
        None => {
            match parse_pieces(s, true) {
                Some(v) => {
                    if v.len() != 16 {
                        return None;
                    }
                    bytes = v;
                },
                None => {
                    return None;
                },
            }
        },
        Some((left, right)) => {
            let a = match parse_side(left, false) {
                Some(v) => v,
                None => { return None; },
            };
            let b = match parse_side(right, true) {
                Some(v) => v,
                None => { return None; },
            };
            if a.len() > 14 || b.len() > 14 - a.len() {
                return None;
            }
            let fill = 16 - a.len() - b.len();
            bytes.extend_from_slice(a.as_slice());
            let mut k: usize = 0;
            while k < fill
                invariant
                    k <= fill,
                    bytes@ == a@ + zeros(k as int),
                decreases fill - k,
            {
                bytes.push(0);
                assert(bytes@ =~= a@ + zeros(k + 1));
                k += 1;
            }
            bytes.extend_from_slice(b.as_slice());
        },
    }
    let mut addr = [0u8; 16];
    let mut i: usize = 0;
    while i < 16
        invariant
            i <= 16,
            bytes@.len() == 16,
            forall|j: int| 0 <= j < i ==> addr@[j] == bytes@[j],
        decreases 16 - i,
    {
        addr[i] = bytes[i];
        i += 1;
    }
    assert(addr@ =~= bytes@);
    Some(addr)
}

} // verus!
