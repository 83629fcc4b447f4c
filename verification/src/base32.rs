//! A base-32 codec with a human-friendly alphabet: the byte stream is cut
//! into 5-bit groups, most significant bit first, and each group becomes one
//! ASCII symbol. There is no padding character; a final partial group is
//! filled with zero bits, and the decoder insists those filler bits are zero
//! and that the symbol count is one an encoder can produce.

use vstd::prelude::*;

verus! {

/// First 5-bit group of a 5-byte block: bits 0..5 of byte 0.
pub open spec fn f0(b0: u8) -> u8 {
    b0 >> 3
}

/// Second group: bits 5..10, spanning bytes 0 and 1.
pub open spec fn f1(b0: u8, b1: u8) -> u8 {
    ((b0 & 7) << 2) | (b1 >> 6)
}

/// Third group: bits 10..15 of byte 1.
pub open spec fn f2(b1: u8) -> u8 {
    (b1 >> 1) & 31
}

/// Fourth group: bits 15..20, spanning bytes 1 and 2.
pub open spec fn f3(b1: u8, b2: u8) -> u8 {
    ((b1 & 1) << 4) | (b2 >> 4)
}

/// Fifth group: bits 20..25, spanning bytes 2 and 3.
pub open spec fn f4(b2: u8, b3: u8) -> u8 {
    ((b2 & 15) << 1) | (b3 >> 7)
}

/// Sixth group: bits 25..30 of byte 3.
pub open spec fn f5(b3: u8) -> u8 {
    (b3 >> 2) & 31
}

/// Seventh group: bits 30..35, spanning bytes 3 and 4.
pub open spec fn f6(b3: u8, b4: u8) -> u8 {
    ((b3 & 3) << 3) | (b4 >> 5)
}

/// Eighth group: bits 35..40 of byte 4.
pub open spec fn f7(b4: u8) -> u8 {
    b4 & 31
}

/// Byte 0 of a block, rebuilt from groups 0 and 1.
pub open spec fn g0(x0: u8, x1: u8) -> u8 {
    (x0 << 3) | (x1 >> 2)
}

/// Byte 1, rebuilt from groups 1, 2 and 3.
pub open spec fn g1(x1: u8, x2: u8, x3: u8) -> u8 {
    ((x1 & 3) << 6) | (x2 << 1) | (x3 >> 4)
}

/// Byte 2, rebuilt from groups 3 and 4.
pub open spec fn g2(x3: u8, x4: u8) -> u8 {
    ((x3 & 15) << 4) | (x4 >> 1)
}

/// Byte 3, rebuilt from groups 4, 5 and 6.
pub open spec fn g3(x4: u8, x5: u8, x6: u8) -> u8 {
    ((x4 & 1) << 7) | (x5 << 2) | (x6 >> 3)
}

/// Byte 4, rebuilt from groups 6 and 7.
pub open spec fn g4(x6: u8, x7: u8) -> u8 {
    ((x6 & 7) << 5) | x7
}

/// The group formulas invert each other, every group value is below 32, and
/// the filler bits of a partial final block are zero.
proof fn lemma_group_inverse(b0: u8, b1: u8, b2: u8, b3: u8, b4: u8)
    by (bit_vector)
    ensures
        g0(f0(b0), f1(b0, b1)) == b0,
        g1(f1(b0, b1), f2(b1), f3(b1, b2)) == b1,
        g2(f3(b1, b2), f4(b2, b3)) == b2,
        g3(f4(b2, b3), f5(b3), f6(b3, b4)) == b3,
        g4(f6(b3, b4), f7(b4)) == b4,
        f0(b0) < 32,
        f1(b0, b1) < 32,
        f2(b1) < 32,
        f3(b1, b2) < 32,
        f4(b2, b3) < 32,
        f5(b3) < 32,
        f6(b3, b4) < 32,
        f7(b4) < 32,
        f1(b0, 0) & 3 == 0,
        f3(b1, 0) & 15 == 0,
        f4(b2, 0) & 1 == 0,
        f6(b3, 0) & 7 == 0,
{
}

/// The 5-bit group values of a byte sequence, front block first; a final
/// partial block is padded with zero bits.
pub open spec fn enc_fives(s: Seq<u8>) -> Seq<u8>
    decreases s.len(),
{
    if s.len() == 0 {
        Seq::empty()
    } else if s.len() == 1 {
        seq![f0(s[0]), f1(s[0], 0)]
    } else if s.len() == 2 {
        seq![f0(s[0]), f1(s[0], s[1]), f2(s[1]), f3(s[1], 0)]
    } else if s.len() == 3 {
        seq![f0(s[0]), f1(s[0], s[1]), f2(s[1]), f3(s[1], s[2]), f4(s[2], 0)]
    } else if s.len() == 4 {
        seq![
            f0(s[0]),
            f1(s[0], s[1]),
            f2(s[1]),
            f3(s[1], s[2]),
            f4(s[2], s[3]),
            f5(s[3]),
            f6(s[3], 0),
        ]
    } else {
        seq![
            f0(s[0]),
            f1(s[0], s[1]),
            f2(s[1]),
            f3(s[1], s[2]),
            f4(s[2], s[3]),
            f5(s[3]),
            f6(s[3], s[4]),
            f7(s[4]),
        ] + enc_fives(s.skip(5))
    }
}

/// The bytes encoded by a sequence of 5-bit group values, or `None` if the
/// group count or the filler bits are ones no encoder output can have.
pub open spec fn dec_fives(v: Seq<u8>) -> Option<Seq<u8>>
    decreases v.len(),
{
    if v.len() == 0 {
        Some(Seq::empty())
    } else if v.len() >= 8 {
        match dec_fives(v.skip(8)) {
            Some(rest) => Some(
                seq![
                    g0(v[0], v[1]),
                    g1(v[1], v[2], v[3]),
                    g2(v[3], v[4]),
                    g3(v[4], v[5], v[6]),
                    g4(v[6], v[7]),
                ] + rest,
            ),
            None => None,
        }
    } else if v.len() == 2 {
        if v[1] & 3 == 0 {
            Some(seq![g0(v[0], v[1])])
        } else {
            None
        }
    } else if v.len() == 4 {
        if v[3] & 15 == 0 {
            Some(seq![g0(v[0], v[1]), g1(v[1], v[2], v[3])])
        } else {
            None
        }
    } else if v.len() == 5 {
        if v[4] & 1 == 0 {
            Some(seq![g0(v[0], v[1]), g1(v[1], v[2], v[3]), g2(v[3], v[4])])
        } else {
            None
        }
    } else if v.len() == 7 {
        if v[6] & 7 == 0 {
            Some(
                seq![
                    g0(v[0], v[1]),
                    g1(v[1], v[2], v[3]),
                    g2(v[3], v[4]),
                    g3(v[4], v[5], v[6]),
                ],
            )
        } else {
            None
        }
    } else {
        None
    }
}

/// Every group value an encoder produces is below 32.
pub proof fn lemma_enc_fives_valid(s: Seq<u8>)
    ensures
        forall|i: int| 0 <= i < enc_fives(s).len() ==> #[trigger] enc_fives(s)[i] < 32,
    decreases s.len(),
{
    if s.len() == 0 {
    } else if s.len() <= 4 {
        lemma_group_inverse(
            s[0],
            if s.len() >= 2 {
                s[1]
            } else {
                0
            },
            if s.len() >= 3 {
                s[2]
            } else {
                0
            },
            if s.len() >= 4 {
                s[3]
            } else {
                0
            },
            0,
        );
    } else {
        lemma_group_inverse(s[0], s[1], s[2], s[3], s[4]);
        lemma_enc_fives_valid(s.skip(5));
        assert forall|i: int| 0 <= i < enc_fives(s).len() implies #[trigger] enc_fives(s)[i]
            < 32 by {
            if i >= 8 {
                assert(enc_fives(s)[i] == enc_fives(s.skip(5))[i - 8]);
            }
        }
    }
}

/// Decoding inverts encoding: the group values of any byte sequence decode
/// back to exactly that sequence.
pub proof fn lemma_fives_round_trip(s: Seq<u8>)
    ensures
        dec_fives(enc_fives(s)) == Some(s),
    decreases s.len(),
{
    if s.len() == 0 {
        assert(s =~= Seq::<u8>::empty());
    } else if s.len() == 1 {
        lemma_group_inverse(s[0], 0, 0, 0, 0);
        assert(seq![g0(f0(s[0]), f1(s[0], 0))] =~= s);
    } else if s.len() == 2 {
        lemma_group_inverse(s[0], s[1], 0, 0, 0);
        assert(seq![
            g0(f0(s[0]), f1(s[0], s[1])),
            g1(f1(s[0], s[1]), f2(s[1]), f3(s[1], 0)),
        ] =~= s);
    } else if s.len() == 3 {
        lemma_group_inverse(s[0], s[1], s[2], 0, 0);
        assert(seq![
            g0(f0(s[0]), f1(s[0], s[1])),
            g1(f1(s[0], s[1]), f2(s[1]), f3(s[1], s[2])),
            g2(f3(s[1], s[2]), f4(s[2], 0)),
        ] =~= s);
    } else if s.len() == 4 {
        lemma_group_inverse(s[0], s[1], s[2], s[3], 0);
        assert(seq![
            g0(f0(s[0]), f1(s[0], s[1])),
            g1(f1(s[0], s[1]), f2(s[1]), f3(s[1], s[2])),
            g2(f3(s[1], s[2]), f4(s[2], s[3])),
            g3(f4(s[2], s[3]), f5(s[3]), f6(s[3], 0)),
        ] =~= s);
    } else {
        lemma_group_inverse(s[0], s[1], s[2], s[3], s[4]);
        lemma_fives_round_trip(s.skip(5));
        let v = enc_fives(s);
        assert(v.skip(8) =~= enc_fives(s.skip(5)));
        assert(seq![
            g0(v[0], v[1]),
            g1(v[1], v[2], v[3]),
            g2(v[3], v[4]),
            g3(v[4], v[5], v[6]),
            g4(v[6], v[7]),
        ] + s.skip(5) =~= s);
    }
}

/// The ASCII symbol of one 5-bit group value.
pub open spec fn enc_sym(v: u8) -> u8 {
    if v == 0 {
        0x79
    } else if v == 1 {
        0x62
    } else if v == 2 {
        0x6e
    } else if v == 3 {
        0x64
    } else if v == 4 {
        0x72
    } else if v == 5 {
        0x66
    } else if v == 6 {
        0x67
    } else if v == 7 {
        0x38
    } else if v == 8 {
        0x65
    } else if v == 9 {
        0x6a
    } else if v == 10 {
        0x6b
    } else if v == 11 {
        0x6d
    } else if v == 12 {
        0x63
    } else if v == 13 {
        0x70
    } else if v == 14 {
        0x71
    } else if v == 15 {
        0x78
    } else if v == 16 {
        0x6f
    } else if v == 17 {
        0x74
    } else if v == 18 {
        0x31
    } else if v == 19 {
        0x75
    } else if v == 20 {
        0x77
    } else if v == 21 {
        0x69
    } else if v == 22 {
        0x73
    } else if v == 23 {
        0x7a
    } else if v == 24 {
        0x61
    } else if v == 25 {
        0x33
    } else if v == 26 {
        0x34
    } else if v == 27 {
        0x35
    } else if v == 28 {
        0x68
    } else if v == 29 {
        0x37
    } else if v == 30 {
        0x36
    } else {
        0x39
    }
}

/// The 5-bit group value of one ASCII symbol, or 32 for a byte outside the
/// alphabet.
pub open spec fn dec_sym(c: u8) -> u8 {
    if c == 0x79 {
        0
    } else if c == 0x62 {
        1
    } else if c == 0x6e {
        2
    } else if c == 0x64 {
        3
    } else if c == 0x72 {
        4
    } else if c == 0x66 {
        5
    } else if c == 0x67 {
        6
    } else if c == 0x38 {
        7
    } else if c == 0x65 {
        8
    } else if c == 0x6a {
        9
    } else if c == 0x6b {
        10
    } else if c == 0x6d {
        11
    } else if c == 0x63 {
        12
    } else if c == 0x70 {
        13
    } else if c == 0x71 {
        14
    } else if c == 0x78 {
        15
    } else if c == 0x6f {
        16
    } else if c == 0x74 {
        17
    } else if c == 0x31 {
        18
    } else if c == 0x75 {
        19
    } else if c == 0x77 {
        20
    } else if c == 0x69 {
        21
    } else if c == 0x73 {
        22
    } else if c == 0x7a {
        23
    } else if c == 0x61 {
        24
    } else if c == 0x33 {
        25
    } else if c == 0x34 {
        26
    } else if c == 0x35 {
        27
    } else if c == 0x68 {
        28
    } else if c == 0x37 {
        29
    } else if c == 0x36 {
        30
    } else if c == 0x39 {
        31
    } else {
        32
    }
}

/// Looking a symbol up by its group value and back is the identity, and the
/// symbols are ASCII.
pub proof fn lemma_sym_round_trip()
    ensures
        forall|v: u8| v < 32 ==> #[trigger] dec_sym(enc_sym(v)) == v,
        forall|v: u8| v < 32 ==> #[trigger] enc_sym(v) < 128,
{
}

/// The base-32 text of a byte sequence, as ASCII symbol bytes.
pub open spec fn b32_enc(s: Seq<u8>) -> Seq<u8> {
    enc_fives(s).map_values(|v: u8| enc_sym(v))
}

/// The bytes a base-32 text stands for, or `None` if it holds a symbol
/// outside the alphabet or a length or filler no encoder output can have.
pub open spec fn b32_dec(c: Seq<u8>) -> Option<Seq<u8>> {
    if forall|i: int| 0 <= i < c.len() ==> dec_sym(#[trigger] c[i]) < 32 {
        dec_fives(c.map_values(|x: u8| dec_sym(x)))
    } else {
        None
    }
}

/// Base-32 decoding inverts base-32 encoding.
pub proof fn lemma_b32_round_trip(s: Seq<u8>)
    ensures
        b32_dec(b32_enc(s)) == Some(s),
{
    lemma_enc_fives_valid(s);
    lemma_sym_round_trip();
    let c = b32_enc(s);
    assert(forall|i: int| 0 <= i < c.len() ==> dec_sym(#[trigger] c[i]) < 32);
    assert(c.map_values(|x: u8| dec_sym(x)) =~= enc_fives(s));
    lemma_fives_round_trip(s);
}

/// The ASCII symbol of one 5-bit group value.
fn enc_sym_x(v: u8) -> (r: u8)
    requires
        v < 32,
    ensures
        r == enc_sym(v),
{
    if v == 0 {
        0x79
    } else if v == 1 {
        0x62
    } else if v == 2 {
        0x6e
    } else if v == 3 {
        0x64
    } else if v == 4 {
        0x72
    } else if v == 5 {
        0x66
    } else if v == 6 {
        0x67
    } else if v == 7 {
        0x38
    } else if v == 8 {
        0x65
    } else if v == 9 {
        0x6a
    } else if v == 10 {
        0x6b
    } else if v == 11 {
        0x6d
    } else if v == 12 {
        0x63
    } else if v == 13 {
        0x70
    } else if v == 14 {
        0x71
    } else if v == 15 {
        0x78
    } else if v == 16 {
        0x6f
    } else if v == 17 {
        0x74
    } else if v == 18 {
        0x31
    } else if v == 19 {
        0x75
    } else if v == 20 {
        0x77
    } else if v == 21 {
        0x69
    } else if v == 22 {
        0x73
    } else if v == 23 {
        0x7a
    } else if v == 24 {
        0x61
    } else if v == 25 {
        0x33
    } else if v == 26 {
        0x34
    } else if v == 27 {
        0x35
    } else if v == 28 {
        0x68
    } else if v == 29 {
        0x37
    } else if v == 30 {
        0x36
    } else {
        0x39
    }
}

/// The 5-bit group value of one ASCII symbol, or 32 for a byte outside the
/// alphabet.
fn dec_sym_x(c: u8) -> (r: u8)
    ensures
        r == dec_sym(c),
{
    if c == 0x79 {
        0
    } else if c == 0x62 {
        1
    } else if c == 0x6e {
        2
    } else if c == 0x64 {
        3
    } else if c == 0x72 {
        4
    } else if c == 0x66 {
        5
    } else if c == 0x67 {
        6
    } else if c == 0x38 {
        7
    } else if c == 0x65 {
        8
    } else if c == 0x6a {
        9
    } else if c == 0x6b {
        10
    } else if c == 0x6d {
        11
    } else if c == 0x63 {
        12
    } else if c == 0x70 {
        13
    } else if c == 0x71 {
        14
    } else if c == 0x78 {
        15
    } else if c == 0x6f {
        16
    } else if c == 0x74 {
        17
    } else if c == 0x31 {
        18
    } else if c == 0x75 {
        19
    } else if c == 0x77 {
        20
    } else if c == 0x69 {
        21
    } else if c == 0x73 {
        22
    } else if c == 0x7a {
        23
    } else if c == 0x61 {
        24
    } else if c == 0x33 {
        25
    } else if c == 0x34 {
        26
    } else if c == 0x35 {
        27
    } else if c == 0x68 {
        28
    } else if c == 0x37 {
        29
    } else if c == 0x36 {
        30
    } else if c == 0x39 {
        31
    } else {
        32
    }
}

/// Encode a byte sequence into base-32 ASCII symbol bytes.
#[verifier::rlimit(60)]
pub fn base32_encode(s: &[u8]) -> (r: Vec<u8>)
    ensures
        r@ == b32_enc(s@),
{
    let n = s.len();
    let mut fives: Vec<u8> = Vec::new();
    let mut i: usize = 0;
    assert(s@.skip(0) =~= s@);
    while n - i >= 5
        invariant
            n == s@.len(),
            i <= n,
            fives@ + enc_fives(s@.skip(i as int)) == enc_fives(s@),
        decreases n - i,
    {
        let ghost rest = s@.skip(i as int);
        let b0 = *vstd::slice::slice_index_get(s, i);
        let b1 = *vstd::slice::slice_index_get(s, i + 1);
        let b2 = *vstd::slice::slice_index_get(s, i + 2);
        let b3 = *vstd::slice::slice_index_get(s, i + 3);
        let b4 = *vstd::slice::slice_index_get(s, i + 4);
        assert(b0 == rest[0] && b1 == rest[1] && b2 == rest[2] && b3 == rest[3] && b4 == rest[4]);
        fives.push(b0 >> 3);
        fives.push(((b0 & 7) << 2) | (b1 >> 6));
        fives.push((b1 >> 1) & 31);
        fives.push(((b1 & 1) << 4) | (b2 >> 4));
        fives.push(((b2 & 15) << 1) | (b3 >> 7));
        fives.push((b3 >> 2) & 31);
        fives.push(((b3 & 3) << 3) | (b4 >> 5));
        fives.push(b4 & 31);
        assert(s@.skip(i as int).skip(5) =~= s@.skip(i as int + 5));
        i = i + 5;
        assert(fives@ + enc_fives(s@.skip(i as int)) =~= enc_fives(s@));
    }
    let ghost rest = s@.skip(i as int);
    let m = n - i;
    if m == 1 {
        let b0 = *vstd::slice::slice_index_get(s, i);
        assert(b0 == rest[0]);
        fives.push(b0 >> 3);
        fives.push((b0 & 7) << 2);
        assert(((b0 & 7) << 2) | (0u8 >> 6) == (b0 & 7) << 2) by (bit_vector);
        assert(fives@ =~= enc_fives(s@));
    } else if m == 2 {
        let b0 = *vstd::slice::slice_index_get(s, i);
        let b1 = *vstd::slice::slice_index_get(s, i + 1);
        assert(b0 == rest[0] && b1 == rest[1]);
        fives.push(b0 >> 3);
        fives.push(((b0 & 7) << 2) | (b1 >> 6));
        fives.push((b1 >> 1) & 31);
        fives.push((b1 & 1) << 4);
        assert(((b1 & 1) << 4) | (0u8 >> 4) == (b1 & 1) << 4) by (bit_vector);
        assert(fives@ =~= enc_fives(s@));
    } else if m == 3 {
        let b0 = *vstd::slice::slice_index_get(s, i);
        let b1 = *vstd::slice::slice_index_get(s, i + 1);
        let b2 = *vstd::slice::slice_index_get(s, i + 2);
        assert(b0 == rest[0] && b1 == rest[1] && b2 == rest[2]);
        fives.push(b0 >> 3);
        fives.push(((b0 & 7) << 2) | (b1 >> 6));
        fives.push((b1 >> 1) & 31);
        fives.push(((b1 & 1) << 4) | (b2 >> 4));
        fives.push((b2 & 15) << 1);
        assert(((b2 & 15) << 1) | (0u8 >> 7) == (b2 & 15) << 1) by (bit_vector);
        assert(fives@ =~= enc_fives(s@));
    } else if m == 4 {
        let b0 = *vstd::slice::slice_index_get(s, i);
        let b1 = *vstd::slice::slice_index_get(s, i + 1);
        let b2 = *vstd::slice::slice_index_get(s, i + 2);
        let b3 = *vstd::slice::slice_index_get(s, i + 3);
        assert(b0 == rest[0] && b1 == rest[1] && b2 == rest[2] && b3 == rest[3]);
        fives.push(b0 >> 3);
        fives.push(((b0 & 7) << 2) | (b1 >> 6));
        fives.push((b1 >> 1) & 31);
        fives.push(((b1 & 1) << 4) | (b2 >> 4));
        fives.push(((b2 & 15) << 1) | (b3 >> 7));
        fives.push((b3 >> 2) & 31);
        fives.push((b3 & 3) << 3);
        assert(((b3 & 3) << 3) | (0u8 >> 5) == (b3 & 3) << 3) by (bit_vector);
        assert(fives@ =~= enc_fives(s@));
    } else {
        assert(rest =~= Seq::<u8>::empty());
        assert(fives@ =~= enc_fives(s@));
    }
    proof {
        lemma_enc_fives_valid(s@);
    }
    let mut out: Vec<u8> = Vec::new();
    let mut k: usize = 0;
    assert(out@ =~= b32_enc(s@).subrange(0, 0));
    while k < fives.len()
        invariant
            fives@ == enc_fives(s@),
            forall|j: int| 0 <= j < fives@.len() ==> #[trigger] fives@[j] < 32,
            k <= fives@.len(),
            out@ == b32_enc(s@).subrange(0, k as int),
        decreases fives@.len() - k,
    {
        let v = fives[k];
        out.push(enc_sym_x(v));
        assert(out@ =~= b32_enc(s@).subrange(0, k as int + 1));
        k = k + 1;
    }
    assert(out@ =~= b32_enc(s@));
    out
}

/// Decode base-32 ASCII symbol bytes, rejecting anything that is not an
/// exact encoder output shape.
#[verifier::rlimit(60)]
pub fn base32_decode(c: &[u8]) -> (r: Option<Vec<u8>>)
    ensures
        r is Some <==> b32_dec(c@) is Some,
        r matches Some(v) ==> b32_dec(c@) == Some(v@),
{
    let n = c.len();
    let mut fives: Vec<u8> = Vec::new();
    let mut i: usize = 0;
    while i < n
        invariant
            n == c@.len(),
            i <= n,
            fives@.len() == i,
            forall|j: int| 0 <= j < i ==> #[trigger] fives@[j] == dec_sym(c@[j]) && fives@[j]
                < 32,
        decreases n - i,
    {
        let v = dec_sym_x(*vstd::slice::slice_index_get(c, i));
        if v >= 32 {
            assert(dec_sym(c@[i as int]) >= 32);
            assert(b32_dec(c@) is None);
            return None;
        }
        fives.push(v);
        i = i + 1;
    }
    assert(fives@ =~= c@.map_values(|x: u8| dec_sym(x)));
    let ghost all = fives@;
    assert forall|j: int| 0 <= j < c@.len() implies dec_sym(#[trigger] c@[j]) < 32 by {
        assert(fives@[j] == dec_sym(c@[j]) && fives@[j] < 32);
    }
    assert(b32_dec(c@) == dec_fives(all));
    let mut out: Vec<u8> = Vec::new();
    let mut p: usize = 0;
    assert(all.skip(0) =~= all);
    while n - p >= 8
        invariant
            n == all.len(),
            fives@ == all,
            p <= n,
            forall|j: int| 0 <= j < all.len() ==> #[trigger] all[j] < 32,
            dec_fives(all.skip(p as int)) matches Some(rest) ==> dec_fives(all) == Some(
                out@ + rest,
            ),
            dec_fives(all.skip(p as int)) is None ==> dec_fives(all) is None,
        decreases n - p,
    {
        let ghost tail = all.skip(p as int);
        let ghost out_old = out@;
        let x0 = fives[p];
        let x1 = fives[p + 1];
        let x2 = fives[p + 2];
        let x3 = fives[p + 3];
        let x4 = fives[p + 4];
        let x5 = fives[p + 5];
        let x6 = fives[p + 6];
        let x7 = fives[p + 7];
        assert(x0 == tail[0] && x1 == tail[1] && x2 == tail[2] && x3 == tail[3] && x4 == tail[4]
            && x5 == tail[5] && x6 == tail[6] && x7 == tail[7]);
        out.push((x0 << 3) | (x1 >> 2));
        out.push(((x1 & 3) << 6) | (x2 << 1) | (x3 >> 4));
        out.push(((x3 & 15) << 4) | (x4 >> 1));
        out.push(((x4 & 1) << 7) | (x5 << 2) | (x6 >> 3));
        out.push(((x6 & 7) << 5) | x7);
        assert(all.skip(p as int).skip(8) =~= all.skip(p as int + 8));
        proof {
            let s5 = seq![
                g0(tail[0], tail[1]),
                g1(tail[1], tail[2], tail[3]),
                g2(tail[3], tail[4]),
                g3(tail[4], tail[5], tail[6]),
                g4(tail[6], tail[7]),
            ];
            assert(out@ =~= out_old + s5);
            if dec_fives(tail.skip(8)) is Some {
                let rest2 = dec_fives(tail.skip(8))->Some_0;
                assert(dec_fives(tail) == Some(s5 + rest2));
                assert(out_old + (s5 + rest2) =~= out@ + rest2);
            } else {
                assert(dec_fives(tail) is None);
            }
        }
        p = p + 8;
    }
    let ghost tail = all.skip(p as int);
    let ghost out_old = out@;
    let m = n - p;
    if m == 0 {
        assert(tail =~= Seq::<u8>::empty());
        assert(out@ =~= out@ + Seq::<u8>::empty());
        return Some(out);
    }
    if m == 2 {
        let x0 = fives[p];
        let x1 = fives[p + 1];
        assert(x0 == tail[0] && x1 == tail[1]);
        if x1 & 3 != 0 {
            assert(dec_fives(tail) is None);
            return None;
        }
        out.push((x0 << 3) | (x1 >> 2));
        assert(dec_fives(tail) == Some(seq![g0(tail[0], tail[1])]));
        assert(out@ =~= out_old + seq![g0(tail[0], tail[1])]);
        return Some(out);
    }
    if m == 4 {
        let x0 = fives[p];
        let x1 = fives[p + 1];
        let x2 = fives[p + 2];
        let x3 = fives[p + 3];
        assert(x0 == tail[0] && x1 == tail[1] && x2 == tail[2] && x3 == tail[3]);
        if x3 & 15 != 0 {
            assert(dec_fives(tail) is None);
            return None;
        }
        out.push((x0 << 3) | (x1 >> 2));
        out.push(((x1 & 3) << 6) | (x2 << 1) | (x3 >> 4));
        assert(dec_fives(tail) == Some(seq![g0(tail[0], tail[1]), g1(tail[1], tail[2], tail[3])]));
        assert(out@ =~= out_old + seq![g0(tail[0], tail[1]), g1(tail[1], tail[2], tail[3])]);
        return Some(out);
    }
    if m == 5 {
        let x0 = fives[p];
        let x1 = fives[p + 1];
        let x2 = fives[p + 2];
        let x3 = fives[p + 3];
        let x4 = fives[p + 4];
        assert(x0 == tail[0] && x1 == tail[1] && x2 == tail[2] && x3 == tail[3] && x4 == tail[4]);
        if x4 & 1 != 0 {
            assert(dec_fives(tail) is None);
            return None;
        }
        out.push((x0 << 3) | (x1 >> 2));
        out.push(((x1 & 3) << 6) | (x2 << 1) | (x3 >> 4));
        out.push(((x3 & 15) << 4) | (x4 >> 1));
        assert(dec_fives(tail) == Some(seq![
            g0(tail[0], tail[1]),
            g1(tail[1], tail[2], tail[3]),
            g2(tail[3], tail[4]),
        ]));
        assert(out@ =~= out_old + seq![
            g0(tail[0], tail[1]),
            g1(tail[1], tail[2], tail[3]),
            g2(tail[3], tail[4]),
        ]);
        return Some(out);
    }
    if m == 7 {
        let x0 = fives[p];
        let x1 = fives[p + 1];
        let x2 = fives[p + 2];
        let x3 = fives[p + 3];
        let x4 = fives[p + 4];
        let x5 = fives[p + 5];
        let x6 = fives[p + 6];
        assert(x0 == tail[0] && x1 == tail[1] && x2 == tail[2] && x3 == tail[3] && x4 == tail[4]
            && x5 == tail[5] && x6 == tail[6]);
        if x6 & 7 != 0 {
            assert(dec_fives(tail) is None);
            return None;
        }
        out.push((x0 << 3) | (x1 >> 2));
        out.push(((x1 & 3) << 6) | (x2 << 1) | (x3 >> 4));
        out.push(((x3 & 15) << 4) | (x4 >> 1));
        out.push(((x4 & 1) << 7) | (x5 << 2) | (x6 >> 3));
        assert(dec_fives(tail) == Some(seq![
            g0(tail[0], tail[1]),
            g1(tail[1], tail[2], tail[3]),
            g2(tail[3], tail[4]),
            g3(tail[4], tail[5], tail[6]),
        ]));
        assert(out@ =~= out_old + seq![
            g0(tail[0], tail[1]),
            g1(tail[1], tail[2], tail[3]),
            g2(tail[3], tail[4]),
            g3(tail[4], tail[5], tail[6]),
        ]);
        return Some(out);
    }
    assert(dec_fives(tail) is None);
    None
}

} // verus!
