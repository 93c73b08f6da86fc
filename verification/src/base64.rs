//! Base64 with the standard alphabet and mandatory padding (RFC 4648, section 4).
//!
//! Decoding is strict: the text must be a whole number of quartets, padding may
//! only close the last quartet, and the bits that padding leaves unused must be
//! zero. Under these rules `decode` is the exact inverse of `encode`.

use crate::bytes::join;
use vstd::prelude::*;

verus! {

/// The padding character `=`.
pub const PAD: u8 = 61;

/// The character that stands for the six-bit value `v`.
pub open spec fn sextet_char(v: int) -> u8 {
    if v < 26 {
        (65 + v) as u8
    } else if v < 52 {
        (97 + (v - 26)) as u8
    } else if v < 62 {
        (48 + (v - 52)) as u8
    } else if v == 62 {
        43
    } else {
        47
    }
}

/// The six-bit value that the character `c` stands for, if it is in the alphabet.
pub open spec fn char_sextet(c: u8) -> Option<int> {
    if 65 <= c <= 90 {
        Some(c - 65)
    } else if 97 <= c <= 122 {
        Some(c - 97 + 26)
    } else if 48 <= c <= 57 {
        Some(c - 48 + 52)
    } else if c == 43 {
        Some(62int)
    } else if c == 47 {
        Some(63int)
    } else {
        None
    }
}

/// The `k`-th of the four six-bit values that three bytes spell, most
/// significant first.
pub open spec fn sextet_of(b0: u8, b1: u8, b2: u8, k: int) -> int {
    if k == 0 {
        (b0 / 4) as int
    } else if k == 1 {
        (b0 % 4) * 16 + b1 / 16
    } else if k == 2 {
        (b1 % 16) * 4 + b2 / 64
    } else {
        (b2 % 64) as int
    }
}

/// The quartet for up to three bytes: `count` of `b0`, `b1`, `b2` are data, the
/// others are zero and show as padding.
#[verifier::opaque]
pub open spec fn encode_group(b0: u8, b1: u8, b2: u8, count: int) -> Seq<u8> {
    seq![
        sextet_char(sextet_of(b0, b1, b2, 0)),
        sextet_char(sextet_of(b0, b1, b2, 1)),
        if count >= 2 { sextet_char(sextet_of(b0, b1, b2, 2)) } else { PAD },
        if count >= 3 { sextet_char(sextet_of(b0, b1, b2, 3)) } else { PAD },
    ]
}

/// The Base64 text of `data`.
pub open spec fn encode_spec(data: Seq<u8>) -> Seq<u8>
    decreases data.len(),
{
    if data.len() == 0 {
        Seq::empty()
    } else if data.len() == 1 {
        encode_group(data[0], 0, 0, 1)
    } else if data.len() == 2 {
        encode_group(data[0], data[1], 0, 2)
    } else {
        encode_group(data[0], data[1], data[2], 3) + encode_spec(
            data.subrange(3, data.len() as int),
        )
    }
}

/// The bytes that one quartet stands for. Only the last quartet of a text may
/// hold padding.
#[verifier::opaque]
pub open spec fn decode_group(c0: u8, c1: u8, c2: u8, c3: u8, last: bool) -> Option<Seq<u8>> {
    match (char_sextet(c0), char_sextet(c1)) {
        (Some(s0), Some(s1)) => {
            if c2 == PAD && c3 == PAD {
                if last && s1 % 16 == 0 {
                    Some(seq![(s0 * 4 + s1 / 16) as u8])
                } else {
                    None
                }
            } else {
                match char_sextet(c2) {
                    Some(s2) => {
                        if c3 == PAD {
                            if last && s2 % 4 == 0 {
                                Some(
                                    seq![
                                        (s0 * 4 + s1 / 16) as u8,
                                        ((s1 % 16) * 16 + s2 / 4) as u8,
                                    ],
                                )
                            } else {
                                None
                            }
                        } else {
                            match char_sextet(c3) {
                                Some(s3) => Some(
                                    seq![
                                        (s0 * 4 + s1 / 16) as u8,
                                        ((s1 % 16) * 16 + s2 / 4) as u8,
                                        ((s2 % 4) * 64 + s3) as u8,
                                    ],
                                ),
                                None => None,
                            }
                        }
                    },
                    None => None,
                }
            }
        },
        _ => None,
    }
}

/// The bytes that `text` stands for, or `None` where `text` is not canonical
/// padded Base64.
pub open spec fn decode_spec(text: Seq<u8>) -> Option<Seq<u8>>
    decreases text.len(),
{
    if text.len() == 0 {
        Some(Seq::empty())
    } else if text.len() < 4 {
        None
    } else {
        join(
            decode_group(text[0], text[1], text[2], text[3], text.len() == 4),
            decode_spec(text.subrange(4, text.len() as int)),
        )
    }
}

/// A six-bit value and its character determine each other.
pub proof fn lemma_alphabet(v: int)
    requires
        0 <= v < 64,
    ensures
        char_sextet(sextet_char(v)) == Some(v),
        sextet_char(v) != PAD,
{
}

/// A character of the alphabet is the character of its value.
pub proof fn lemma_alphabet_inverse(c: u8)
    requires
        char_sextet(c) is Some,
    ensures
        0 <= char_sextet(c)->0 < 64,
        sextet_char(char_sextet(c)->0) == c,
        c != PAD,
{
}

/// Decoding one encoded group gives back its data bytes.
pub proof fn lemma_group_round_trip(b0: u8, b1: u8, b2: u8, count: int, last: bool)
    requires
        1 <= count <= 3,
        count < 3 ==> b2 == 0 && last,
        count < 2 ==> b1 == 0,
    ensures
        ({
            let q = encode_group(b0, b1, b2, count);
            decode_group(q[0], q[1], q[2], q[3], last) == Some(
                seq![b0, b1, b2].subrange(0, count),
            )
        }),
{
    reveal(encode_group);
    reveal(decode_group);
    let s0 = sextet_of(b0, b1, b2, 0);
    let s1 = sextet_of(b0, b1, b2, 1);
    let s2 = sextet_of(b0, b1, b2, 2);
    let s3 = sextet_of(b0, b1, b2, 3);
    lemma_alphabet(s0);
    lemma_alphabet(s1);
    lemma_alphabet(s2);
    lemma_alphabet(s3);
    assert(s0 * 4 + s1 / 16 == b0);
    assert((s1 % 16) * 16 + s2 / 4 == b1);
    assert((s2 % 4) * 64 + s3 == b2);
    let q = encode_group(b0, b1, b2, count);
    let d = decode_group(q[0], q[1], q[2], q[3], last);
    if count == 3 {
        assert(d->0 =~= seq![b0, b1, b2].subrange(0, 3));
    } else if count == 2 {
        assert(s2 % 4 == 0);
        assert(d->0 =~= seq![b0, b1, b2].subrange(0, 2));
    } else {
        assert(s1 % 16 == 0);
        assert(d->0 =~= seq![b0, b1, b2].subrange(0, 1));
    }
}

/// A quartet has four characters.
pub proof fn lemma_group_len(b0: u8, b1: u8, b2: u8, count: int)
    ensures
        encode_group(b0, b1, b2, count).len() == 4,
{
    reveal(encode_group);
}

/// Decoding a quartet followed by more text decodes the quartet, then the text.
pub proof fn lemma_decode_step(quartet: Seq<u8>, tail: Seq<u8>)
    requires
        quartet.len() == 4,
    ensures
        decode_spec(quartet + tail) == join(
            decode_group(quartet[0], quartet[1], quartet[2], quartet[3], tail.len() == 0),
            decode_spec(tail),
        ),
{
    let text = quartet + tail;
    assert(text.subrange(4, text.len() as int) =~= tail);
}

/// Decoding undoes encoding: `decode_spec(encode_spec(data)) == Some(data)`.
pub proof fn lemma_decode_encode(data: Seq<u8>)
    ensures
        decode_spec(encode_spec(data)) == Some(data),
    decreases data.len(),
{
    if data.len() == 0 {
        assert(data =~= Seq::empty());
    } else {
        let count = if data.len() >= 3 { 3int } else { data.len() as int };
        let b0 = data[0];
        let b1 = if data.len() >= 2 { data[1] } else { 0u8 };
        let b2 = if data.len() >= 3 { data[2] } else { 0u8 };
        let rest = data.subrange(count, data.len() as int);
        let quartet = encode_group(b0, b1, b2, count);
        lemma_group_len(b0, b1, b2, count);
        lemma_encode_len(rest);
        assert(encode_spec(data) =~= quartet + encode_spec(rest));
        lemma_decode_step(quartet, encode_spec(rest));
        lemma_group_round_trip(b0, b1, b2, count, rest.len() == 0);
        lemma_decode_encode(rest);
        assert(seq![b0, b1, b2].subrange(0, count) + rest =~= data);
    }
}

/// The text of `n` bytes has four characters for every three bytes begun.
pub proof fn lemma_encode_len(data: Seq<u8>)
    ensures
        encode_spec(data).len() == 4 * ((data.len() + 2) / 3),
    decreases data.len(),
{
    if data.len() >= 3 {
        lemma_group_len(data[0], data[1], data[2], 3);
        lemma_encode_len(data.subrange(3, data.len() as int));
    } else if data.len() == 2 {
        lemma_group_len(data[0], data[1], 0, 2);
    } else if data.len() == 1 {
        lemma_group_len(data[0], 0, 0, 1);
    }
}

/// A decodable quartet is the encoding of what it decodes to.
pub proof fn lemma_group_canonical(c0: u8, c1: u8, c2: u8, c3: u8, last: bool)
    requires
        decode_group(c0, c1, c2, c3, last) is Some,
    ensures
        ({
            let d = decode_group(c0, c1, c2, c3, last)->0;
            &&& 1 <= d.len() <= 3
            &&& d.len() < 3 ==> last
            &&& encode_group(
                d[0],
                if d.len() >= 2 { d[1] } else { 0 },
                if d.len() >= 3 { d[2] } else { 0 },
                d.len() as int,
            ) =~= seq![c0, c1, c2, c3]
        }),
{
    reveal(encode_group);
    reveal(decode_group);
    lemma_alphabet_inverse(c0);
    lemma_alphabet_inverse(c1);
    let s0 = char_sextet(c0)->0;
    let s1 = char_sextet(c1)->0;
    let d = decode_group(c0, c1, c2, c3, last)->0;
    if c2 == PAD && c3 == PAD {
        assert(sextet_of(d[0], 0, 0, 0) == s0);
        assert(sextet_of(d[0], 0, 0, 1) == s1);
    } else {
        lemma_alphabet_inverse(c2);
        let s2 = char_sextet(c2)->0;
        if c3 == PAD {
            assert(sextet_of(d[0], d[1], 0, 0) == s0);
            assert(sextet_of(d[0], d[1], 0, 1) == s1);
            assert(sextet_of(d[0], d[1], 0, 2) == s2);
        } else {
            lemma_alphabet_inverse(c3);
            let s3 = char_sextet(c3)->0;
            assert(sextet_of(d[0], d[1], d[2], 0) == s0);
            assert(sextet_of(d[0], d[1], d[2], 1) == s1);
            assert(sextet_of(d[0], d[1], d[2], 2) == s2);
            assert(sextet_of(d[0], d[1], d[2], 3) == s3);
        }
    }
}

/// Only the encoding of `d` decodes to `d`: where `decode_spec(text)` is
/// `Some(d)`, `text` is `encode_spec(d)`.
pub proof fn lemma_encode_decode(text: Seq<u8>)
    requires
        decode_spec(text) is Some,
    ensures
        encode_spec(decode_spec(text)->0) == text,
    decreases text.len(),
{
    if text.len() == 0 {
        assert(text =~= Seq::empty());
    } else {
        let tail = text.subrange(4, text.len() as int);
        let last = text.len() == 4;
        let head = decode_group(text[0], text[1], text[2], text[3], last)->0;
        let rest = decode_spec(tail)->0;
        let d = decode_spec(text)->0;
        assert(d == head + rest);
        lemma_group_canonical(text[0], text[1], text[2], text[3], last);
        lemma_encode_decode(tail);
        let quartet = seq![text[0], text[1], text[2], text[3]];
        assert(quartet + tail =~= text);
        if last {
            assert(tail =~= Seq::<u8>::empty());
            assert(rest =~= Seq::<u8>::empty());
            assert(d =~= head);
            if head.len() == 3 {
                assert(d.subrange(3, 3) =~= Seq::<u8>::empty());
            }
        } else {
            assert(head.len() == 3);
            assert(d.subrange(3, d.len() as int) =~= rest);
        }
    }
}

/// The character for a six-bit value.
fn alphabet_char(v: u8) -> (c: u8)
    requires
        v < 64,
    ensures
        c == sextet_char(v as int),
{
    if v < 26 {
        65 + v
    } else if v < 52 {
        97 + (v - 26)
    } else if v < 62 {
        48 + (v - 52)
    } else if v == 62 {
        43
    } else {
        47
    }
}

/// The six-bit value of a character of the alphabet.
fn alphabet_value(c: u8) -> (v: Option<u8>)
    ensures
        match v {
            Some(x) => char_sextet(c) == Some(x as int),
            None => char_sextet(c) is None,
        },
{
    if 65 <= c && c <= 90 {
        Some(c - 65)
    } else if 97 <= c && c <= 122 {
        Some(c - 97 + 26)
    } else if 48 <= c && c <= 57 {
        Some(c - 48 + 52)
    } else if c == 43 {
        Some(62)
    } else if c == 47 {
        Some(63)
    } else {
        None
    }
}

/// Appends the quartet for up to three bytes to `out`.
fn push_group(out: &mut Vec<u8>, b0: u8, b1: u8, b2: u8, count: usize)
    requires
        1 <= count <= 3,
    ensures
        final(out)@ == old(out)@ + encode_group(b0, b1, b2, count as int),
{
    proof {
        reveal(encode_group);
    }
    out.push(alphabet_char(b0 / 4));
    out.push(alphabet_char((b0 % 4) * 16 + b1 / 16));
    if count >= 2 {
        out.push(alphabet_char((b1 % 16) * 4 + b2 / 64));
    } else {
        out.push(PAD);
    }
    if count >= 3 {
        out.push(alphabet_char(b2 % 64));
    } else {
        out.push(PAD);
    }
    assert(out@ =~= old(out)@ + encode_group(b0, b1, b2, count as int));
}

/// Encodes `data` as padded Base64.
pub fn encode(data: &[u8]) -> (text: Vec<u8>)
    ensures
        text@ == encode_spec(data@),
{
    let mut out: Vec<u8> = Vec::new();
    let mut i: usize = 0;
    let n = data.len();
    assert(data@.subrange(0, n as int) =~= data@);
    while n - i >= 3
        invariant
            n == data@.len(),
            i <= n,
            encode_spec(data@) == out@ + encode_spec(data@.subrange(i as int, n as int)),
        decreases n - i,
    {
        let ghost rest = data@.subrange(i as int, n as int);
        assert(rest.subrange(3, rest.len() as int) =~= data@.subrange(i + 3, n as int));
        let ghost before = out@;
        push_group(&mut out, data[i], data[i + 1], data[i + 2], 3);
        assert(out@ + encode_spec(data@.subrange(i + 3, n as int)) =~= before + encode_spec(rest));
        i += 3;
    }
    let ghost rest = data@.subrange(i as int, n as int);
    if n - i == 1 {
        push_group(&mut out, data[i], 0, 0, 1);
    } else if n - i == 2 {
        push_group(&mut out, data[i], data[i + 1], 0, 2);
    } else {
        assert(out@ + encode_spec(rest) =~= out@);
    }
    out
}

/// Decodes one quartet and appends its bytes to `out`; `false` where the quartet
/// does not decode.
fn pull_group(out: &mut Vec<u8>, c0: u8, c1: u8, c2: u8, c3: u8, last: bool) -> (ok: bool)
    ensures
        match decode_group(c0, c1, c2, c3, last) {
            Some(d) => ok && final(out)@ == old(out)@ + d,
            None => !ok,
        },
{
    proof {
        reveal(decode_group);
    }
    let s0 = match alphabet_value(c0) {
        Some(v) => v,
        None => { return false; },
    };
    let s1 = match alphabet_value(c1) {
        Some(v) => v,
        None => { return false; },
    };
    if c2 == PAD && c3 == PAD {
        if !last || s1 % 16 != 0 {
            return false;
        }
        out.push(s0 * 4 + s1 / 16);
        assert(out@ =~= old(out)@ + decode_group(c0, c1, c2, c3, last)->0);
        return true;
    }
    let s2 = match alphabet_value(c2) {
        Some(v) => v,
        None => { return false; },
    };
    if c3 == PAD {
        if !last || s2 % 4 != 0 {
            return false;
        }
        out.push(s0 * 4 + s1 / 16);
        out.push((s1 % 16) * 16 + s2 / 4);
        assert(out@ =~= old(out)@ + decode_group(c0, c1, c2, c3, last)->0);
        return true;
    }
    let s3 = match alphabet_value(c3) {
        Some(v) => v,
        None => { return false; },
    };
    out.push(s0 * 4 + s1 / 16);
    out.push((s1 % 16) * 16 + s2 / 4);
    out.push((s2 % 4) * 64 + s3);
    assert(out@ =~= old(out)@ + decode_group(c0, c1, c2, c3, last)->0);
    true
}

/// Decodes canonical padded Base64; `None` for any other text.
pub fn decode(text: &[u8]) -> (data: Option<Vec<u8>>)
    ensures
        match data {
            Some(d) => decode_spec(text@) == Some(d@),
            None => decode_spec(text@) is None,
        },
{
    let n = text.len();
    let mut out: Vec<u8> = Vec::new();
    let mut i: usize = 0;
    assert(text@.subrange(0, n as int) =~= text@);
    while n - i >= 4
        invariant
            n == text@.len(),
            i <= n,
            decode_spec(text@) == join(Some(out@), decode_spec(text@.subrange(i as int, n as int))),
        decreases n - i,
    {
        let ghost rest = text@.subrange(i as int, n as int);
        let ghost before = out@;
        assert(rest.subrange(4, rest.len() as int) =~= text@.subrange(i + 4, n as int));
        let ok = pull_group(&mut out, text[i], text[i + 1], text[i + 2], text[i + 3], n - i == 4);
        if !ok {
            return None;
        }
        proof {
            let tail = decode_spec(text@.subrange(i + 4, n as int));
            if tail is Some {
                let g = decode_group(rest[0], rest[1], rest[2], rest[3], rest.len() == 4)->0;
                assert(before + (g + tail->0) =~= out@ + tail->0);
            }
        }
        i += 4;
    }
    if n - i != 0 {
        return None;
    }
    assert(out@ + Seq::<u8>::empty() =~= out@);
    Some(out)
}

} // verus!
