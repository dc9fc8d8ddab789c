//! Fixed-width samples and their little-endian byte encoding.
//!
//! A [`Sample`] is a plain value with a fixed byte width. The PCM codec
//! reinterprets buffers of samples as buffers of bytes and back; here that
//! reinterpretation is defined sample by sample, with
//! [`encode_seq`]/[`decode_seq`] giving the whole-buffer meaning and
//! [`lemma_encode_decode`] proving that the two directions compose to the
//! identity.

use vstd::prelude::*;
use crate::util::le16_bytes;
use crate::util::le32_bytes;
use crate::util::u16_from_le;
use crate::util::u32_from_le;
use crate::util::lemma_le16_round_trip;
use crate::util::lemma_le32_round_trip;
use crate::util::push_u16_le;
use crate::util::push_u32_le;
use crate::util::read_u16_le;
use crate::util::read_u32_le;

verus! {

/// A sample value with a fixed little-endian byte encoding.
pub trait Sample: Copy + Sized {
    /// The number of bytes in the encoding of one sample.
    spec fn width_spec() -> int;

    /// The byte encoding of this sample.
    spec fn to_bytes_spec(self) -> Seq<u8>;

    /// The sample encoded by `b`; meaningful when `b` holds exactly
    /// `width_spec()` bytes.
    spec fn from_bytes_spec(b: Seq<u8>) -> Self;

    /// A sample is at least one and at most sixteen bytes wide.
    proof fn width_bounds()
        ensures
            1 <= Self::width_spec() <= 16,
    ;

    /// The encoding of a sample has exactly `width_spec()` bytes.
    proof fn to_bytes_len(self)
        ensures
            self.to_bytes_spec().len() == Self::width_spec(),
    ;

    /// Decoding the encoding of a sample gives the sample back.
    proof fn round_trip(self)
        ensures
            Self::from_bytes_spec(self.to_bytes_spec()) == self,
    ;

    /// Encoding the sample decoded from a full-width byte group gives the
    /// group back: every byte pattern of the right width is the encoding
    /// of exactly one sample.
    proof fn bytes_round_trip(b: Seq<u8>)
        requires
            b.len() == Self::width_spec(),
        ensures
            Self::from_bytes_spec(b).to_bytes_spec() == b,
    ;

    /// The number of bytes in the encoding of one sample.
    fn width() -> (n: usize)
        ensures
            n as int == Self::width_spec(),
    ;

    /// Appends the encoding of `self` to `out`.
    fn append_bytes(self, out: &mut Vec<u8>)
        ensures
            final(out)@ == old(out)@ + self.to_bytes_spec(),
    ;

    /// Reads one sample from `buf[at..at + width]`.
    fn read_bytes(buf: &Vec<u8>, at: usize) -> (s: Self)
        requires
            at + Self::width_spec() <= buf@.len(),
        ensures
            s == Self::from_bytes_spec(buf@.subrange(at as int, at + Self::width_spec())),
    ;
}

impl Sample for u8 {
    open spec fn width_spec() -> int {
        1
    }

    open spec fn to_bytes_spec(self) -> Seq<u8> {
        seq![self]
    }

    open spec fn from_bytes_spec(b: Seq<u8>) -> Self {
        b[0]
    }

    proof fn width_bounds() {
    }

    proof fn to_bytes_len(self) {
    }

    proof fn round_trip(self) {
    }

    proof fn bytes_round_trip(b: Seq<u8>) {
        assert(Self::from_bytes_spec(b).to_bytes_spec() =~= b);
    }

    fn width() -> usize {
        1
    }

    fn append_bytes(self, out: &mut Vec<u8>) {
        out.push(self);
        proof {
            assert(out@ =~= old(out)@ + self.to_bytes_spec());
        }
    }

    fn read_bytes(buf: &Vec<u8>, at: usize) -> (s: Self) {
        buf[at]
    }
}

impl Sample for i16 {
    open spec fn width_spec() -> int {
        2
    }

    open spec fn to_bytes_spec(self) -> Seq<u8> {
        le16_bytes(self as u16)
    }

    open spec fn from_bytes_spec(b: Seq<u8>) -> Self {
        u16_from_le(b[0], b[1]) as i16
    }

    proof fn width_bounds() {
    }

    proof fn to_bytes_len(self) {
    }

    proof fn round_trip(self) {
        lemma_le16_round_trip(self as u16);
        assert(((self as u16) as i16) == self) by (bit_vector);
    }

    proof fn bytes_round_trip(b: Seq<u8>) {
        let b0 = b[0];
        let b1 = b[1];
        let v = u16_from_le(b0, b1) as i16;
        assert((((b0 as u16) | ((b1 as u16) << 8)) as i16) as u16 == ((b0 as u16) | ((b1
            as u16) << 8))) by (bit_vector);
        assert((((b0 as u16) | ((b1 as u16) << 8)) & 0xff) as u8 == b0) by (bit_vector);
        assert(((((b0 as u16) | ((b1 as u16) << 8)) >> 8) & 0xff) as u8 == b1) by (bit_vector);
        assert(v.to_bytes_spec() =~= b);
    }

    fn width() -> usize {
        2
    }

    fn append_bytes(self, out: &mut Vec<u8>) {
        push_u16_le(out, self as u16);
    }

    fn read_bytes(buf: &Vec<u8>, at: usize) -> (s: Self) {
        let v = read_u16_le(buf, at);
        proof {
            assert(buf@.subrange(at as int, at + 2)[0] == buf@[at as int]);
            assert(buf@.subrange(at as int, at + 2)[1] == buf@[at + 1]);
        }
        #[verifier::truncate] (v as i16)
    }
}

impl Sample for i32 {
    open spec fn width_spec() -> int {
        4
    }

    open spec fn to_bytes_spec(self) -> Seq<u8> {
        le32_bytes(self as u32)
    }

    open spec fn from_bytes_spec(b: Seq<u8>) -> Self {
        u32_from_le(b[0], b[1], b[2], b[3]) as i32
    }

    proof fn width_bounds() {
    }

    proof fn to_bytes_len(self) {
    }

    proof fn round_trip(self) {
        lemma_le32_round_trip(self as u32);
        assert(((self as u32) as i32) == self) by (bit_vector);
    }

    proof fn bytes_round_trip(b: Seq<u8>) {
        let b0 = b[0];
        let b1 = b[1];
        let b2 = b[2];
        let b3 = b[3];
        let v = u32_from_le(b0, b1, b2, b3) as i32;
        assert((((b0 as u32) | ((b1 as u32) << 8) | ((b2 as u32) << 16) | ((b3 as u32) << 24))
            as i32) as u32 == ((b0 as u32) | ((b1 as u32) << 8) | ((b2 as u32) << 16) | ((b3
            as u32) << 24))) by (bit_vector);
        assert((((b0 as u32) | ((b1 as u32) << 8) | ((b2 as u32) << 16) | ((b3 as u32) << 24))
            & 0xff) as u8 == b0) by (bit_vector);
        assert(((((b0 as u32) | ((b1 as u32) << 8) | ((b2 as u32) << 16) | ((b3 as u32) << 24))
            >> 8) & 0xff) as u8 == b1) by (bit_vector);
        assert(((((b0 as u32) | ((b1 as u32) << 8) | ((b2 as u32) << 16) | ((b3 as u32) << 24))
            >> 16) & 0xff) as u8 == b2) by (bit_vector);
        assert(((((b0 as u32) | ((b1 as u32) << 8) | ((b2 as u32) << 16) | ((b3 as u32) << 24))
            >> 24) & 0xff) as u8 == b3) by (bit_vector);
        assert(v.to_bytes_spec() =~= b);
    }

    fn width() -> usize {
        4
    }

    fn append_bytes(self, out: &mut Vec<u8>) {
        push_u32_le(out, self as u32);
    }

    fn read_bytes(buf: &Vec<u8>, at: usize) -> (s: Self) {
        let v = read_u32_le(buf, at);
        proof {
            assert(buf@.subrange(at as int, at + 4)[0] == buf@[at as int]);
            assert(buf@.subrange(at as int, at + 4)[1] == buf@[at + 1]);
            assert(buf@.subrange(at as int, at + 4)[2] == buf@[at + 2]);
            assert(buf@.subrange(at as int, at + 4)[3] == buf@[at + 3]);
        }
        #[verifier::truncate] (v as i32)
    }
}

/// The concatenated byte encodings of a sequence of samples.
pub open spec fn encode_seq<S: Sample>(s: Seq<S>) -> Seq<u8>
    decreases s.len(),
{
    if s.len() == 0 {
        Seq::empty()
    } else {
        s[0].to_bytes_spec() + encode_seq(s.skip(1))
    }
}

/// The samples encoded by a byte sequence, one per full group of
/// `width_spec()` bytes; a ragged tail shorter than one sample is ignored.
pub open spec fn decode_seq<S: Sample>(b: Seq<u8>) -> Seq<S>
    decreases b.len(),
{
    if b.len() < S::width_spec() {
        Seq::empty()
    } else {
        proof {
            S::width_bounds();
        }
        seq![S::from_bytes_spec(b.take(S::width_spec()))] + decode_seq(b.skip(S::width_spec()))
    }
}

/// Encoding a concatenation concatenates the encodings.
pub proof fn lemma_encode_app<S: Sample>(a: Seq<S>, b: Seq<S>)
    ensures
        encode_seq(a + b) == encode_seq(a) + encode_seq(b),
    decreases a.len(),
{
    if a.len() == 0 {
        assert(a + b =~= b);
        assert(encode_seq(a) + encode_seq(b) =~= encode_seq::<S>(b));
    } else {
        assert((a + b).skip(1) =~= a.skip(1) + b);
        lemma_encode_app(a.skip(1), b);
        assert(encode_seq(a + b) =~= encode_seq(a) + encode_seq(b));
    }
}

/// The encoding of `n` samples has `n * width_spec()` bytes.
pub proof fn lemma_encode_len<S: Sample>(s: Seq<S>)
    ensures
        encode_seq(s).len() == s.len() * S::width_spec(),
    decreases s.len(),
{
    S::width_bounds();
    if s.len() == 0 {
    } else {
        s[0].to_bytes_len();
        lemma_encode_len(s.skip(1));
        assert((s.len() - 1) * S::width_spec() + S::width_spec() == s.len() * S::width_spec())
            by (nonlinear_arith);
    }
}

/// Decoding `n` bytes yields `n / width_spec()` samples.
pub proof fn lemma_decode_len<S: Sample>(b: Seq<u8>)
    ensures
        decode_seq::<S>(b).len() == b.len() as int / S::width_spec(),
    decreases b.len(),
{
    S::width_bounds();
    let w = S::width_spec();
    if b.len() < w {
        assert(b.len() as int / w == 0) by (nonlinear_arith)
            requires
                0 <= b.len() < w,
        ;
    } else {
        lemma_decode_len::<S>(b.skip(w));
        assert((b.len() - w) / w + 1 == b.len() as int / w) by (nonlinear_arith)
            requires
                1 <= w <= b.len(),
        ;
    }
}

/// Decoding the encoding of a sample sequence gives the sequence back.
///
/// This is the PCM round trip at the heart of the codec: any number of
/// samples, encoded to bytes and decoded again, is reproduced bit for bit.
pub proof fn lemma_encode_decode<S: Sample>(s: Seq<S>)
    ensures
        decode_seq::<S>(encode_seq(s)) == s,
    decreases s.len(),
{
    S::width_bounds();
    let w = S::width_spec();
    if s.len() == 0 {
        assert(decode_seq::<S>(encode_seq(s)) =~= s);
    } else {
        let e = encode_seq(s);
        s[0].to_bytes_len();
        lemma_encode_len(s.skip(1));
        assert(e.take(w) =~= s[0].to_bytes_spec());
        assert(e.skip(w) =~= encode_seq(s.skip(1)));
        s[0].round_trip();
        lemma_encode_decode(s.skip(1));
        assert(decode_seq(encode_seq(s)) =~= s);
    }
}

/// The sample at index `i` of a decoded byte sequence is decoded from the
/// `i`-th group of `width_spec()` bytes.
pub proof fn lemma_decode_index<S: Sample>(b: Seq<u8>, i: int)
    requires
        0 <= i,
        (i + 1) * S::width_spec() <= b.len(),
    ensures
        decode_seq::<S>(b).len() > i,
        decode_seq::<S>(b)[i] == S::from_bytes_spec(
            b.subrange(i * S::width_spec(), i * S::width_spec() + S::width_spec()),
        ),
    decreases i,
{
    S::width_bounds();
    let w = S::width_spec();
    assert(w <= (i + 1) * w) by (nonlinear_arith)
        requires
            0 <= i && 1 <= w,
    ;
    lemma_decode_len::<S>(b);
    assert(i < b.len() as int / w) by (nonlinear_arith)
        requires
            (i + 1) * w <= b.len() && 1 <= w && 0 <= i,
    ;
    if i == 0 {
        assert(b.take(w) =~= b.subrange(0, w));
    } else {
        assert((i - 1 + 1) * w <= b.skip(w).len()) by (nonlinear_arith)
            requires
                (i + 1) * w <= b.len() && 1 <= w && 1 <= i,
        ;
        lemma_decode_index::<S>(b.skip(w), i - 1);
        assert(decode_seq::<S>(b)[i] == decode_seq::<S>(b.skip(w))[i - 1]);
        assert(b.skip(w).subrange((i - 1) * w, (i - 1) * w + w) =~= b.subrange(i * w, i * w + w))
            by {
            assert((i - 1) * w + w == i * w) by (nonlinear_arith);
        }
    }
}

/// Decoding a prefix that is a whole number of samples gives a prefix of
/// the decoding.
pub proof fn lemma_decode_prefix<S: Sample>(b: Seq<u8>, n: int)
    requires
        0 <= n <= b.len(),
        n % S::width_spec() == 0,
    ensures
        decode_seq::<S>(b.take(n)) == decode_seq::<S>(b).take(n / S::width_spec()),
    decreases n,
{
    S::width_bounds();
    let w = S::width_spec();
    lemma_decode_len::<S>(b);
    assert(n / w <= b.len() as int / w && 0 <= n / w) by (nonlinear_arith)
        requires
            1 <= w && 0 <= n <= b.len(),
    ;
    if n == 0 {
        assert(decode_seq::<S>(b.take(0)) =~= decode_seq::<S>(b).take(0));
    } else {
        assert(n >= w) by (nonlinear_arith)
            requires
                1 <= w && 0 < n && n % w == 0,
        ;
        assert(b.take(n).take(w) =~= b.take(w));
        assert(b.take(n).skip(w) =~= b.skip(w).take(n - w));
        vstd::arithmetic::div_mod::lemma_mod_sub_multiples_vanish(n, w);
        vstd::arithmetic::div_mod::lemma_div_minus_one(n, w);
        assert((n - w) % w == 0 && (n - w) / w == n / w - 1);
        lemma_decode_prefix::<S>(b.skip(w), n - w);
        lemma_decode_len::<S>(b.skip(w));
        assert(decode_seq::<S>(b.take(n)) =~= decode_seq::<S>(b).take(n / w));
    }
}

/// Skipping a whole number of samples' bytes skips the same number of
/// decoded samples.
pub proof fn lemma_decode_skip<S: Sample>(b: Seq<u8>, n: int)
    requires
        0 <= n <= b.len(),
        n % S::width_spec() == 0,
    ensures
        decode_seq::<S>(b.skip(n)) == decode_seq::<S>(b).skip(n / S::width_spec()),
    decreases n,
{
    S::width_bounds();
    let w = S::width_spec();
    lemma_decode_len::<S>(b);
    if n == 0 {
        assert(b.skip(0) =~= b);
        assert(decode_seq::<S>(b).skip(0) =~= decode_seq::<S>(b));
    } else {
        assert(n >= w) by (nonlinear_arith)
            requires
                1 <= w && 0 < n && n % w == 0,
        ;
        assert(b.skip(n) =~= b.skip(w).skip(n - w));
        vstd::arithmetic::div_mod::lemma_mod_sub_multiples_vanish(n, w);
        vstd::arithmetic::div_mod::lemma_div_minus_one(n, w);
        assert((n - w) % w == 0 && (n - w) / w == n / w - 1);
        assert(0 <= n / w) by (nonlinear_arith)
            requires
                1 <= w && 0 <= n,
        ;
        lemma_decode_skip::<S>(b.skip(w), n - w);
        lemma_decode_len::<S>(b.skip(w));
        assert(n / w >= 1) by (nonlinear_arith)
            requires
                1 <= w && w <= n && n % w == 0,
        ;
        assert((n - w) / w <= (b.len() - w) as int / w) by (nonlinear_arith)
            requires
                1 <= w && w <= n <= b.len(),
        ;
        let t = decode_seq::<S>(b.skip(w));
        assert(decode_seq::<S>(b).skip(n / w) =~= t.skip(n / w - 1));
        assert(decode_seq::<S>(b.skip(n)) =~= decode_seq::<S>(b).skip(n / w));
    }
}

/// Decoding a concatenation whose first part is a whole number of samples
/// decodes the parts independently.
pub proof fn lemma_decode_app<S: Sample>(a: Seq<u8>, b: Seq<u8>)
    requires
        a.len() as int % S::width_spec() == 0,
    ensures
        decode_seq::<S>(a + b) == decode_seq::<S>(a) + decode_seq::<S>(b),
    decreases a.len(),
{
    S::width_bounds();
    let w = S::width_spec();
    if a.len() == 0 {
        assert(a + b =~= b);
        assert(decode_seq::<S>(a) + decode_seq::<S>(b) =~= decode_seq::<S>(b));
    } else {
        assert(a.len() >= w) by (nonlinear_arith)
            requires
                1 <= w && 0 < a.len() && a.len() as int % w == 0,
        ;
        assert((a + b).len() >= w);
        assert((a + b).take(w) =~= a.take(w));
        assert((a + b).skip(w) =~= a.skip(w) + b);
        vstd::arithmetic::div_mod::lemma_mod_sub_multiples_vanish(a.len() as int, w);
        assert((a.len() - w) % w == 0int);
        lemma_decode_app::<S>(a.skip(w), b);
        assert(decode_seq::<S>(a + b) =~= decode_seq::<S>(a) + decode_seq::<S>(b));
    }
}

/// The encoding of a single sample is that sample's bytes.
pub proof fn lemma_encode_singleton<S: Sample>(x: S)
    ensures
        encode_seq(seq![x]) == x.to_bytes_spec(),
{
    let s = seq![x];
    assert(s.skip(1) =~= Seq::<S>::empty());
    assert(encode_seq(Seq::<S>::empty()) == Seq::<u8>::empty());
    assert(encode_seq(s) =~= x.to_bytes_spec());
}

/// Encoding the samples decoded from a whole number of byte groups gives
/// the bytes back.
pub proof fn lemma_decode_encode<S: Sample>(b: Seq<u8>)
    requires
        b.len() as int % S::width_spec() == 0,
    ensures
        encode_seq(decode_seq::<S>(b)) == b,
    decreases b.len(),
{
    S::width_bounds();
    let w = S::width_spec();
    if b.len() == 0 {
        assert(encode_seq(decode_seq::<S>(b)) =~= b);
    } else {
        assert(b.len() >= w) by (nonlinear_arith)
            requires
                1 <= w && 0 < b.len() && b.len() as int % w == 0,
        ;
        vstd::arithmetic::div_mod::lemma_mod_sub_multiples_vanish(b.len() as int, w);
        assert((b.len() - w) % w == 0int);
        S::bytes_round_trip(b.take(w));
        lemma_decode_encode::<S>(b.skip(w));
        let d = decode_seq::<S>(b);
        assert(d[0] == S::from_bytes_spec(b.take(w)));
        assert(d.skip(1) =~= decode_seq::<S>(b.skip(w)));
        assert(encode_seq(d) =~= b);
    }
}

/// Encoding a suffix of the samples is a suffix of the encoding.
pub proof fn lemma_encode_skip<S: Sample>(s: Seq<S>, k: int)
    requires
        0 <= k <= s.len(),
    ensures
        encode_seq(s.skip(k)) == encode_seq(s).skip(k * S::width_spec()),
{
    S::width_bounds();
    let w = S::width_spec();
    assert(s.take(k) + s.skip(k) =~= s);
    lemma_encode_app(s.take(k), s.skip(k));
    lemma_encode_len(s.take(k));
    lemma_encode_len(s);
    assert(0 <= k * w <= s.len() * w) by (nonlinear_arith)
        requires
            0 <= k <= s.len() && 1 <= w,
    ;
    assert(encode_seq(s).skip(k * w) =~= encode_seq(s.skip(k)));
}

/// Encoding a prefix of the samples is a prefix of the encoding.
pub proof fn lemma_encode_prefix<S: Sample>(s: Seq<S>, k: int)
    requires
        0 <= k <= s.len(),
    ensures
        encode_seq(s.take(k)) == encode_seq(s).take(k * S::width_spec()),
{
    S::width_bounds();
    let w = S::width_spec();
    assert(s.take(k) + s.skip(k) =~= s);
    lemma_encode_app(s.take(k), s.skip(k));
    lemma_encode_len(s.take(k));
    lemma_encode_len(s);
    assert(0 <= k * w <= s.len() * w) by (nonlinear_arith)
        requires
            0 <= k <= s.len() && 1 <= w,
    ;
    assert(encode_seq(s).take(k * w) =~= encode_seq(s.take(k)));
}

} // verus!
