//! Little-endian byte fields and writes at a position of a byte sequence.

use vstd::prelude::*;

verus! {

/// The low four bytes of `v` in two's complement, least significant first.
#[verifier::opaque]
pub open spec fn le4(v: int) -> Seq<u8> {
    seq![
        (v % 0x100) as u8,
        (v / 0x100 % 0x100) as u8,
        (v / 0x1_0000 % 0x100) as u8,
        (v / 0x100_0000 % 0x100) as u8,
    ]
}

/// The low eight bytes of `v` in two's complement, least significant first.
pub open spec fn le8(v: int) -> Seq<u8> {
    le4(v) + le4(v / 0x1_0000_0000)
}

/// The unsigned number that four little-endian bytes of `s` at `at` spell.
pub open spec fn read4(s: Seq<u8>, at: int) -> int {
    s[at] + 0x100 * s[at + 1] + 0x1_0000 * s[at + 2] + 0x100_0000 * s[at + 3]
}

/// `n` zero bytes.
pub open spec fn zeros(n: nat) -> Seq<u8> {
    Seq::new(n, |i: int| 0u8)
}

/// `s` after `data` was written at position `at`: bytes under `data` are replaced, the rest stays,
/// and a gap before `at` is filled with zeros.
pub open spec fn overwrite(s: Seq<u8>, at: nat, data: Seq<u8>) -> Seq<u8> {
    Seq::new(
        if at + data.len() > s.len() {
            if data.len() == 0 {
                s.len()
            } else {
                at + data.len()
            }
        } else {
            s.len()
        },
        |i: int|
            if at <= i < at + data.len() {
                data[i - at]
            } else if i < s.len() {
                s[i]
            } else {
                0u8
            },
    )
}

/// The four little-endian bytes of a signed number.
pub fn i32_le(v: i32) -> (b: [u8; 4])
    ensures
        b@ == le4(v as int),
{
    let u: u32 = if v >= 0 {
        v as u32
    } else {
        ((v as i64) + 0x1_0000_0000) as u32
    };
    proof {
        lemma_le4_mod(v as int);
        lemma_le4_mod(u as int);
    }
    u32_le(u)
}

/// The four little-endian bytes of an unsigned number.
pub fn u32_le(v: u32) -> (b: [u8; 4])
    ensures
        b@ == le4(v as int),
{
    let b: [u8; 4] = [
        (v % 0x100) as u8,
        (v / 0x100 % 0x100) as u8,
        (v / 0x1_0000 % 0x100) as u8,
        (v / 0x100_0000 % 0x100) as u8,
    ];
    proof {
        reveal(le4);
        assert(b@ =~= le4(v as int));
    }
    b
}

/// The eight little-endian bytes of a signed number.
pub fn i64_le(v: i64) -> (b: [u8; 8])
    ensures
        b@ == le8(v as int),
{
    let u: u64 = if v >= 0 {
        v as u64
    } else {
        ((v as i128) + 0x1_0000_0000_0000_0000) as u64
    };
    let lo: u32 = (u % 0x1_0000_0000) as u32;
    let hi: u32 = (u / 0x1_0000_0000) as u32;
    proof {
        lemma_halves(v, u, lo, hi);
    }
    let l: [u8; 4] = u32_le(lo);
    let h: [u8; 4] = u32_le(hi);
    let b: [u8; 8] = [l[0], l[1], l[2], l[3], h[0], h[1], h[2], h[3]];
    proof {
        assert(b@ =~= l@ + h@);
    }
    b
}

/// The two 32-bit halves of a 64-bit pattern carry the bytes of the signed number.
proof fn lemma_halves(v: i64, u: u64, lo: u32, hi: u32)
    requires
        u == v || u == v + 0x1_0000_0000_0000_0000,
        lo == u % 0x1_0000_0000,
        hi == u / 0x1_0000_0000,
    ensures
        le8(v as int) == le4(lo as int) + le4(hi as int),
{
    lemma_le4_mod(v as int);
    lemma_le4_mod(v as int / 0x1_0000_0000);
    assert(v as int % 0x1_0000_0000 == lo);
    assert((v as int / 0x1_0000_0000) % 0x1_0000_0000 == hi);
}

/// Four little-endian bytes depend on the number modulo 2^32 only.
pub proof fn lemma_le4_mod(v: int)
    ensures
        le4(v) == le4(v % 0x1_0000_0000),
{
    let w = v % 0x1_0000_0000;
    let q = v / 0x1_0000_0000;
    lemma_wrap(q, w);
    assert(v == q * 0x1_0000_0000 + w);
    assert(le4(v) =~= le4(w)) by {
        reveal(le4);
    }
}

proof fn lemma_wrap(q: int, w: int)
    ensures
        (q * 0x1_0000_0000 + w) % 0x100 == w % 0x100,
        (q * 0x1_0000_0000 + w) / 0x100 % 0x100 == w / 0x100 % 0x100,
        (q * 0x1_0000_0000 + w) / 0x1_0000 % 0x100 == w / 0x1_0000 % 0x100,
        (q * 0x1_0000_0000 + w) / 0x100_0000 % 0x100 == w / 0x100_0000 % 0x100,
{
    assert((q * 0x1_0000_0000 + w) / 0x100 == q * 0x100_0000 + w / 0x100);
    assert((q * 0x1_0000_0000 + w) / 0x1_0000 == q * 0x1_0000 + w / 0x1_0000);
    assert((q * 0x1_0000_0000 + w) / 0x100_0000 == q * 0x100 + w / 0x100_0000);
}

/// A number takes four little-endian bytes.
pub broadcast proof fn lemma_le4_len(v: int)
    ensures
        (#[trigger] le4(v)).len() == 4,
{
    reveal(le4);
}

/// Four little-endian bytes read back as the number that was written, modulo 2^32.
pub proof fn lemma_read4_le4(s: Seq<u8>, at: int, v: int)
    requires
        0 <= at,
        at + 4 <= s.len(),
        s.subrange(at, at + 4) == le4(v),
    ensures
        read4(s, at) == v % 0x1_0000_0000,
{
    reveal(le4);
    let b = s.subrange(at, at + 4);
    lemma_le4_mod(v);
    let w = v % 0x1_0000_0000;
    assert(b == le4(w));
    assert(s[at] == b[0] && s[at + 1] == b[1] && s[at + 2] == b[2] && s[at + 3] == b[3]);
    assert(w / 0x100 == w / 0x1_0000 * 0x100 + w / 0x100 % 0x100);
    assert(w / 0x1_0000 == w / 0x100_0000 * 0x100 + w / 0x1_0000 % 0x100);
    assert(w / 0x100_0000 % 0x100 == w / 0x100_0000);
}

/// The lowest byte comes first, and each further byte is that of the number shifted down by eight
/// bits.
pub proof fn law_low_bytes_come_first(v: int, i: int)
    requires
        0 <= i < 3,
    ensures
        le4(v).len() == 4,
        le4(v)[0] == v % 256,
        le4(v)[i + 1] == le4(v / 256)[i],
        le8(v).len() == 8,
        le8(v).subrange(0, 4) == le4(v),
        le8(v).subrange(4, 8) == le4(v / 0x1_0000_0000),
{
    reveal(le4);
    assert(v / 256 / 256 == v / 0x1_0000);
    assert(v / 256 / 0x1_0000 == v / 0x100_0000);
    assert(le8(v).subrange(0, 4) =~= le4(v));
    assert(le8(v).subrange(4, 8) =~= le4(v / 0x1_0000_0000));
}

/// Reading takes the first byte for the lowest.
pub proof fn law_reading_takes_the_low_byte_first(a: u8, b: u8, c: u8, d: u8)
    ensures
        read4(seq![a, b, c, d], 0) == a + 256 * (b + 256 * (c + 256 * d)),
{
}

/// A write shows its data at its place and leaves every other byte, and a gap before it reads zero;
/// at the end it appends.
pub proof fn law_writes_stay_in_their_place(s: Seq<u8>, at: nat, data: Seq<u8>, i: int)
    ensures
        0 <= i < data.len() ==> overwrite(s, at, data)[at + i] == data[i],
        0 <= i < s.len() && !(at <= i < at + data.len()) ==> overwrite(s, at, data)[i] == s[i],
        s.len() <= i < at && data.len() > 0 ==> overwrite(s, at, data)[i] == 0,
        data.len() > 0 ==> overwrite(s, at, data).len() == if at + data.len() > s.len() {
            at + data.len()
        } else {
            s.len()
        },
        overwrite(s, s.len(), data) == s + data,
        overwrite(s, at, Seq::empty()) == s,
        zeros(at).len() == at,
        0 <= i < at ==> zeros(at)[i] == 0,
{
    assert(overwrite(s, s.len(), data) =~= s + data);
    assert(overwrite(s, at, Seq::empty()) =~= s);
}

} // verus!
