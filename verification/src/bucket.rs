//! Buckets: the 4096 coarse colours that pixels are gathered into. A colour
//! falls into the bucket that has its four high bits in each channel.

use crate::frame::Rgb;
use vstd::prelude::*;

verus! {

/// A channel coarsened to its four high bits: the four low bits are cleared.
pub open spec fn quantize(c: u8) -> u8 {
    (c >> 4) << 4
}

/// The bucket that a colour falls into: each channel coarsened.
pub open spec fn bucket_of(p: Rgb) -> Rgb {
    Rgb { r: quantize(p.r), g: quantize(p.g), b: quantize(p.b) }
}

/// The 4096 colours that name a bucket: those that coarsening leaves as they
/// are.
pub open spec fn is_bucket(c: Rgb) -> bool {
    bucket_of(c) == c
}

/// The order of the buckets, which settles a tie between them: by red, then
/// green, then blue.
pub open spec fn lex_le(a: Rgb, b: Rgb) -> bool {
    a.r < b.r || (a.r == b.r && (a.g < b.g || (a.g == b.g && a.b <= b.b)))
}

/// Clearing the low bits by shifting is the same as rounding down to a
/// multiple of 16.
pub proof fn lemma_quantize_is_floor(c: u8)
    ensures
        quantize(c) == (c / 16) * 16,
        quantize(c) == c - c % 16,
        quantize(quantize(c)) == quantize(c),
{
    assert((c >> 4) << 4 == (c / 16) * 16) by (bit_vector);
    assert(((c >> 4) << 4) == c - c % 16) by (bit_vector);
    assert((((c >> 4) << 4) >> 4) << 4 == (c >> 4) << 4) by (bit_vector);
}

/// The bucket of a colour is decided by the four high bits of each channel
/// and by nothing else.
pub proof fn lemma_bucket_by_high_bits(p: Rgb, q: Rgb)
    ensures
        bucket_of(p) == bucket_of(q) <==> (p.r >> 4 == q.r >> 4 && p.g >> 4 == q.g >> 4 && p.b
            >> 4 == q.b >> 4),
        is_bucket(bucket_of(p)),
{
    let (a, b) = (p.r, q.r);
    assert(((a >> 4) << 4 == (b >> 4) << 4) <==> (a >> 4 == b >> 4)) by (bit_vector);
    let (a, b) = (p.g, q.g);
    assert(((a >> 4) << 4 == (b >> 4) << 4) <==> (a >> 4 == b >> 4)) by (bit_vector);
    let (a, b) = (p.b, q.b);
    assert(((a >> 4) << 4 == (b >> 4) << 4) <==> (a >> 4 == b >> 4)) by (bit_vector);
    lemma_quantize_is_floor(p.r);
    lemma_quantize_is_floor(p.g);
    lemma_quantize_is_floor(p.b);
}

/// The number of a bucket, from 0 to 4095: the high four bits of red, green
/// and blue, in that order.
pub(crate) open spec fn key_of(c: Rgb) -> u16 {
    ((c.r / 16) * 256 + (c.g / 16) * 16 + c.b / 16) as u16
}

/// The bucket with the given number.
pub(crate) open spec fn bucket_at(key: u16) -> Rgb {
    Rgb {
        r: ((key / 256) * 16) as u8,
        g: ((key / 16 % 16) * 16) as u8,
        b: ((key % 16) * 16) as u8,
    }
}

/// Three digits under 16 make a number under 4096 from which each digit can
/// be read back.
proof fn lemma_pack_digits(hi: u16, mid: u16, lo: u16)
    by (bit_vector)
    requires
        hi < 16,
        mid < 16,
        lo < 16,
    ensures
        hi * 256 + mid * 16 + lo < 4096,
        ((hi * 256 + mid * 16 + lo) as u16) / 256 == hi,
        ((hi * 256 + mid * 16 + lo) as u16) / 16 % 16 == mid,
        ((hi * 256 + mid * 16 + lo) as u16) % 16 == lo,
{
}

/// A number under 4096 is made of three digits under 16.
proof fn lemma_unpack_digits(key: u16)
    by (bit_vector)
    requires
        key < 4096,
    ensures
        key / 256 < 16,
        key / 16 % 16 < 16,
        key % 16 < 16,
        (key / 256) * 256 + (key / 16 % 16) * 16 + key % 16 == key,
{
}

/// Numbers and buckets correspond one to one, a smaller number is an
/// earlier bucket in `lex_le`, and the first bucket is black.
pub(crate) proof fn lemma_bucket_numbers(p: Rgb, key: u16)
    ensures
        key_of(p) < 4096,
        bucket_at(key_of(p)) == bucket_of(p),
        key < 4096 ==> is_bucket(bucket_at(key)) && key_of(bucket_at(key)) == key,
        key < 4096 && is_bucket(p) ==> (key <= key_of(p) <==> lex_le(bucket_at(key), p)),
        bucket_at(0) == (Rgb { r: 0, g: 0, b: 0 }),
{
    lemma_quantize_is_floor(p.r);
    lemma_quantize_is_floor(p.g);
    lemma_quantize_is_floor(p.b);
    let hi = (p.r / 16) as u16;
    let mid = (p.g / 16) as u16;
    let lo = (p.b / 16) as u16;
    lemma_pack_digits(hi, mid, lo);
    if key < 4096 {
        lemma_unpack_digits(key);
        let c = bucket_at(key);
        lemma_quantize_is_floor(c.r);
        lemma_quantize_is_floor(c.g);
        lemma_quantize_is_floor(c.b);
        lemma_pack_digits(key / 256, key / 16 % 16, key % 16);
    }
}

/// Clears the four low bits of a channel.
pub fn quantize_channel(c: u8) -> (q: u8)
    ensures
        q == quantize(c),
{
    (c >> 4) << 4
}

/// The bucket that a colour falls into.
pub fn bucket(p: Rgb) -> (c: Rgb)
    ensures
        c == bucket_of(p),
        is_bucket(c),
{
    proof {
        lemma_quantize_is_floor(p.r);
        lemma_quantize_is_floor(p.g);
        lemma_quantize_is_floor(p.b);
    }
    Rgb { r: quantize_channel(p.r), g: quantize_channel(p.g), b: quantize_channel(p.b) }
}

/// The number of a bucket.
pub(crate) fn bucket_key(c: Rgb) -> (key: u16)
    requires
        is_bucket(c),
    ensures
        key == key_of(c),
        key < 4096,
        bucket_at(key) == c,
{
    proof {
        lemma_bucket_numbers(c, 0);
    }
    (c.r as u16 / 16) * 256 + (c.g as u16 / 16) * 16 + (c.b as u16 / 16)
}

/// The bucket with the given number.
pub(crate) fn bucket_from_key(key: u16) -> (c: Rgb)
    requires
        key < 4096,
    ensures
        c == bucket_at(key),
{
    Rgb {
        r: ((key / 256) * 16) as u8,
        g: ((key / 16 % 16) * 16) as u8,
        b: ((key % 16) * 16) as u8,
    }
}

} // verus!
