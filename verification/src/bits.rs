//! Bits of bytes and words, and the packing of a bit stream into bytes,
//! least significant bit first.

use vstd::prelude::*;

verus! {

/// Bit `j` of a byte, counted from the least significant one.
pub open spec fn byte_bit(byte: u8, j: int) -> bool {
    0 <= j < 8 && (byte >> (j as u8)) & 1u8 == 1u8
}

/// Bit `j` of a 16-bit word, counted from the least significant one.
pub open spec fn word_bit(word: u16, j: int) -> bool {
    0 <= j < 16 && (word >> (j as u16)) & 1u16 == 1u16
}

/// The byte that has bit `j` alone set where `set` holds, and no bit otherwise.
pub open spec fn bit_mask(set: bool, j: int) -> u8 {
    if set {
        1u8 << (j as u8)
    } else {
        0u8
    }
}

/// The byte whose bit `j` is `bits[j]`, for the first eight entries of `bits`.
pub open spec fn byte_of_bits(bits: Seq<bool>) -> u8
    recommends
        bits.len() >= 8,
{
    bit_mask(bits[0], 0) | bit_mask(bits[1], 1) | bit_mask(bits[2], 2) | bit_mask(bits[3], 3)
        | bit_mask(bits[4], 4) | bit_mask(bits[5], 5) | bit_mask(bits[6], 6) | bit_mask(
        bits[7],
        7,
    )
}

/// Bit `k` of a stream of bytes: bit `k mod 8` of byte `k / 8`.
pub open spec fn stream_bit(data: Seq<u8>, k: int) -> bool {
    byte_bit(data[k / 8], k % 8)
}

/// The first `n` bits of a stream of bytes.
pub open spec fn stream_bits(data: Seq<u8>, n: nat) -> Seq<bool> {
    Seq::new(n, |k: int| stream_bit(data, k))
}

/// A bit stream packed into bytes, eight bits to the byte, least significant
/// bit first. Bits after the last full byte are left out.
pub open spec fn packed(bits: Seq<bool>) -> Seq<u8> {
    Seq::new((bits.len() / 8) as nat, |b: int| byte_of_bits(bits.subrange(8 * b, 8 * b + 8)))
}

/// Two bytes with the same eight bits are the same byte.
pub proof fn lemma_byte_by_bits(a: u8, b: u8)
    requires
        forall|j: int| 0 <= j < 8 ==> byte_bit(a, j) == byte_bit(b, j),
    ensures
        a == b,
{
    assert(byte_bit(a, 0) == byte_bit(b, 0));
    assert(byte_bit(a, 1) == byte_bit(b, 1));
    assert(byte_bit(a, 2) == byte_bit(b, 2));
    assert(byte_bit(a, 3) == byte_bit(b, 3));
    assert(byte_bit(a, 4) == byte_bit(b, 4));
    assert(byte_bit(a, 5) == byte_bit(b, 5));
    assert(byte_bit(a, 6) == byte_bit(b, 6));
    assert(byte_bit(a, 7) == byte_bit(b, 7));
    assert(a == b) by (bit_vector)
        requires
            ((a >> 0u8) & 1u8 == 1u8) == ((b >> 0u8) & 1u8 == 1u8),
            ((a >> 1u8) & 1u8 == 1u8) == ((b >> 1u8) & 1u8 == 1u8),
            ((a >> 2u8) & 1u8 == 1u8) == ((b >> 2u8) & 1u8 == 1u8),
            ((a >> 3u8) & 1u8 == 1u8) == ((b >> 3u8) & 1u8 == 1u8),
            ((a >> 4u8) & 1u8 == 1u8) == ((b >> 4u8) & 1u8 == 1u8),
            ((a >> 5u8) & 1u8 == 1u8) == ((b >> 5u8) & 1u8 == 1u8),
            ((a >> 6u8) & 1u8 == 1u8) == ((b >> 6u8) & 1u8 == 1u8),
            ((a >> 7u8) & 1u8 == 1u8) == ((b >> 7u8) & 1u8 == 1u8),
    ;
}

/// Testing a byte against the mask of bit `j` reads bit `j`.
pub proof fn lemma_masked_bit(byte: u8, j: u8)
    requires
        j < 8,
    ensures
        (byte & (1u8 << j) != 0) == byte_bit(byte, j as int),
{
    assert((byte & (1u8 << j) != 0) == ((byte >> j) & 1u8 == 1u8)) by (bit_vector)
        requires
            j < 8,
    ;
}

/// Testing a word against the mask of bit `j` reads bit `j`.
pub proof fn lemma_masked_word_bit(word: u16, j: u16)
    requires
        j < 16,
    ensures
        (word & (1u16 << j) != 0) == word_bit(word, j as int),
{
    assert((word & (1u16 << j) != 0) == ((word >> j) & 1u16 == 1u16)) by (bit_vector)
        requires
            j < 16,
    ;
}

/// Or-ing the mask of bit `j` into a byte sets bit `j` and keeps the others.
pub proof fn lemma_set_bit(byte: u8, j: u8)
    requires
        j < 8,
    ensures
        forall|k: int|
            0 <= k < 8 ==> #[trigger] byte_bit(byte | (1u8 << j), k) == (k == j || byte_bit(
                byte,
                k,
            )),
{
    assert forall|k: int| 0 <= k < 8 implies #[trigger] byte_bit(byte | (1u8 << j), k) == (k == j
        || byte_bit(byte, k)) by {
        let kk = k as u8;
        assert((((byte | (1u8 << j)) >> kk) & 1u8 == 1u8) == (kk == j || ((byte >> kk) & 1u8
            == 1u8))) by (bit_vector)
            requires
                j < 8,
                kk < 8,
        ;
    }
}

/// No bit of the zero byte is set.
pub proof fn lemma_zero_byte(k: int)
    ensures
        !byte_bit(0u8, k),
{
    if 0 <= k < 8 {
        let kk = k as u8;
        assert((0u8 >> kk) & 1u8 == 0u8) by (bit_vector);
    }
}

/// Bit `j` of `byte_of_bits(bits)` is `bits[j]`.
pub proof fn lemma_byte_of_bits(bits: Seq<bool>)
    ensures
        forall|j: int| 0 <= j < 8 ==> #[trigger] byte_bit(byte_of_bits(bits), j) == bits[j],
{
    let m0 = bit_mask(bits[0], 0);
    let m1 = bit_mask(bits[1], 1);
    let m2 = bit_mask(bits[2], 2);
    let m3 = bit_mask(bits[3], 3);
    let m4 = bit_mask(bits[4], 4);
    let m5 = bit_mask(bits[5], 5);
    let m6 = bit_mask(bits[6], 6);
    let m7 = bit_mask(bits[7], 7);
    let all = m0 | m1 | m2 | m3 | m4 | m5 | m6 | m7;
    assert(all == byte_of_bits(bits));
    assert(((all >> 0u8) & 1u8 == 1u8) == (m0 != 0) && ((all >> 1u8) & 1u8 == 1u8) == (m1 != 0) && (
    (all >> 2u8) & 1u8 == 1u8) == (m2 != 0) && ((all >> 3u8) & 1u8 == 1u8) == (m3 != 0) && ((all
        >> 4u8) & 1u8 == 1u8) == (m4 != 0) && ((all >> 5u8) & 1u8 == 1u8) == (m5 != 0) && ((all
        >> 6u8) & 1u8 == 1u8) == (m6 != 0) && ((all >> 7u8) & 1u8 == 1u8) == (m7 != 0))
        by (bit_vector)
        requires
            all == m0 | m1 | m2 | m3 | m4 | m5 | m6 | m7,
            m0 == 0 || m0 == 1u8 << 0u8,
            m1 == 0 || m1 == 1u8 << 1u8,
            m2 == 0 || m2 == 1u8 << 2u8,
            m3 == 0 || m3 == 1u8 << 3u8,
            m4 == 0 || m4 == 1u8 << 4u8,
            m5 == 0 || m5 == 1u8 << 5u8,
            m6 == 0 || m6 == 1u8 << 6u8,
            m7 == 0 || m7 == 1u8 << 7u8,
    ;
    assert(1u8 << 0u8 != 0 && 1u8 << 1u8 != 0 && 1u8 << 2u8 != 0 && 1u8 << 3u8 != 0 && 1u8 << 4u8
        != 0 && 1u8 << 5u8 != 0 && 1u8 << 6u8 != 0 && 1u8 << 7u8 != 0) by (bit_vector);
    assert forall|j: int| 0 <= j < 8 implies #[trigger] byte_bit(byte_of_bits(bits), j)
        == bits[j] by {
        if j == 0 {
        } else if j == 1 {
        } else if j == 2 {
        } else if j == 3 {
        } else if j == 4 {
        } else if j == 5 {
        } else if j == 6 {
        } else {
            assert(j == 7);
        }
    }
}

/// Unpacking what was packed gives the bits back.
pub proof fn lemma_stream_of_packed(bits: Seq<bool>, k: int)
    requires
        0 <= k < 8 * (bits.len() / 8),
    ensures
        stream_bit(packed(bits), k) == bits[k],
{
    let b = k / 8;
    let j = k % 8;
    let chunk = bits.subrange(8 * b, 8 * b + 8);
    lemma_byte_of_bits(chunk);
    assert(byte_bit(byte_of_bits(chunk), j) == chunk[j]);
    assert(packed(bits)[b] == byte_of_bits(chunk));
}

/// Packing what was unpacked gives the bytes back.
pub proof fn lemma_packed_of_stream(data: Seq<u8>)
    ensures
        packed(stream_bits(data, 8 * data.len())) == data,
{
    let bits = stream_bits(data, 8 * data.len());
    assert(bits.len() / 8 == data.len());
    assert forall|b: int| 0 <= b < data.len() implies packed(bits)[b] == data[b] by {
        let chunk = bits.subrange(8 * b, 8 * b + 8);
        lemma_byte_of_bits(chunk);
        assert forall|j: int| 0 <= j < 8 implies byte_bit(byte_of_bits(chunk), j) == byte_bit(
            data[b],
            j,
        ) by {
            assert(chunk[j] == bits[8 * b + j]);
            assert((8 * b + j) / 8 == b);
            assert((8 * b + j) % 8 == j);
        }
        lemma_byte_by_bits(byte_of_bits(chunk), data[b]);
    }
    assert(packed(bits) =~= data);
}

/// Bit `k` of a buffer of bytes.
pub fn bit_at(data: &[u8], k: usize) -> (bit: bool)
    requires
        k < 8 * data@.len(),
    ensures
        bit == stream_bit(data@, k as int),
{
    let byte = data[k / 8];
    let j = k % 8;
    proof {
        lemma_masked_bit(byte, j as u8);
    }
    (byte & (1u8 << j)) != 0
}

/// Packs a buffer of bits into bytes, eight bits to the byte, least
/// significant bit first. Bits after the last full byte are left out.
pub fn pack_bits(bits: &Vec<bool>) -> (data: Vec<u8>)
    ensures
        data@ == packed(bits@),
{
    let count = bits.len() / 8;
    let mut data: Vec<u8> = Vec::with_capacity(count);
    let mut b: usize = 0;
    while b < count
        invariant
            count == bits@.len() / 8,
            b <= count,
            data@.len() == b,
            forall|i: int| 0 <= i < b ==> data@[i] == packed(bits@)[i],
        decreases count - b,
    {
        let ghost chunk = bits@.subrange(8 * b, 8 * b + 8);
        let mut byte_val: u8 = 0;
        let mut j: usize = 0;
        proof {
            assert forall|k: int| 0 <= k < 8 implies !byte_bit(byte_val, k) by {
                lemma_zero_byte(k);
            }
        }
        while j < 8
            invariant
                j <= 8,
                8 * b + 8 <= bits.len(),
                chunk == bits@.subrange(8 * b, 8 * b + 8),
                forall|k: int| 0 <= k < 8 ==> byte_bit(byte_val, k) == (k < j && chunk[k]),
            decreases 8 - j,
        {
            if bits[b * 8 + j] {
                proof {
                    lemma_set_bit(byte_val, j as u8);
                }
                byte_val |= 1u8 << j;
            }
            j += 1;
        }
        proof {
            lemma_byte_of_bits(chunk);
            lemma_byte_by_bits(byte_val, byte_of_bits(chunk));
        }
        data.push(byte_val);
        b += 1;
    }
    proof {
        assert(data@ =~= packed(bits@));
    }
    data
}

} // verus!
