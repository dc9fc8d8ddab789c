//! Small verified helpers shared across the crate: buffer copies, byte
//! comparisons, and little-endian integer encoding.

use vstd::prelude::*;

verus! {

/// A copy of the elements of `v` in positions `from..to`, as a new vector.
pub fn vec_range<T: Copy>(v: &Vec<T>, from: usize, to: usize) -> (r: Vec<T>)
    requires
        from <= to <= v@.len(),
    ensures
        r@ == v@.subrange(from as int, to as int),
{
    let mut r: Vec<T> = Vec::new();
    let mut i: usize = from;
    while i < to
        invariant
            from <= i <= to <= v@.len(),
            r@ == v@.subrange(from as int, i as int),
        decreases to - i,
    {
        r.push(v[i]);
        proof {
            assert(r@ =~= v@.subrange(from as int, i + 1 as int));
        }
        i = i + 1;
    }
    r
}

/// Overwrites `dst[at..at + n]` with the first `n` elements of `src`,
/// leaving every other position of `dst` unchanged.
pub fn vec_copy_in<T: Copy>(dst: &mut Vec<T>, at: usize, src: &Vec<T>, n: usize)
    requires
        at + n <= old(dst)@.len(),
        n <= src@.len(),
    ensures
        final(dst)@.len() == old(dst)@.len(),
        final(dst)@ == old(dst)@.take(at as int) + src@.take(n as int) + old(dst)@.skip(at + n),
{
    let dlen = dst.len();
    let mut i: usize = 0;
    while i < n
        invariant
            at + n <= usize::MAX,
            at + n <= dst@.len(),
            dst@.len() == old(dst)@.len(),
            n <= src@.len(),
            i <= n,
            dst@ == old(dst)@.take(at as int) + src@.take(i as int) + old(dst)@.skip(at + i),
        decreases n - i,
    {
        dst.set(at + i, src[i]);
        proof {
            assert(dst@ =~= old(dst)@.take(at as int) + src@.take(i + 1 as int) + old(dst)@.skip(
                at + i + 1,
            ));
        }
        i = i + 1;
    }
    proof {
        assert(dst@ =~= old(dst)@.take(at as int) + src@.take(n as int) + old(dst)@.skip(at + n));
    }
}

/// Rotates `v` left by `k` positions: the first `k` elements move to the
/// end and everything else shifts to the front.
pub fn rotate_left_vec<T: Copy>(v: &mut Vec<T>, k: usize)
    requires
        k <= old(v)@.len(),
    ensures
        final(v)@ == old(v)@.skip(k as int) + old(v)@.take(k as int),
{
    let len = v.len();
    let head = vec_range(v, 0, k);
    let tail = vec_range(v, k, len);
    vec_copy_in(v, 0, &tail, len - k);
    vec_copy_in(v, len - k, &head, k);
    proof {
        assert(tail@.take((len - k) as int) =~= old(v)@.skip(k as int));
        assert(head@.take(k as int) =~= old(v)@.take(k as int));
        assert(v@ =~= old(v)@.skip(k as int) + old(v)@.take(k as int));
    }
}

/// Whether two byte vectors hold exactly the same bytes.
pub fn bytes_eq(a: &Vec<u8>, b: &Vec<u8>) -> (r: bool)
    ensures
        r == (a@ == b@),
{
    if a.len() != b.len() {
        proof {
            assert(a@ != b@);
        }
        return false;
    }
    let mut i: usize = 0;
    while i < a.len()
        invariant
            a@.len() == b@.len(),
            i <= a@.len(),
            forall|j: int| 0 <= j < i ==> a@[j] == b@[j],
        decreases a@.len() - i,
    {
        if a[i] != b[i] {
            return false;
        }
        i = i + 1;
    }
    proof {
        assert(a@ =~= b@);
    }
    true
}

/// A byte buffer of length `n`; the contents are unspecified.
pub fn byte_buffer(n: usize) -> (r: Vec<u8>)
    ensures
        r@.len() == n,
{
    let mut r: Vec<u8> = Vec::new();
    let mut i: usize = 0;
    while i < n
        invariant
            i <= n,
            r@.len() == i,
        decreases n - i,
    {
        r.push(0u8);
        i = i + 1;
    }
    r
}

/// Rounding a length down to a multiple of `w` by subtracting the
/// remainder gives the largest such multiple: the basic facts about
/// `al - al % w` and its quotient.
pub proof fn lemma_round_down_mult(al: int, w: int)
    requires
        1 <= w,
        0 <= al,
    ensures
        ({
            let usable = al - al % w;
            let k = usable / w;
            &&& k * w == usable
            &&& usable % w == 0
            &&& 0 <= usable <= al
            &&& (w <= al ==> w <= usable)
        }),
{
    let q = al / w;
    vstd::arithmetic::div_mod::lemma_fundamental_div_mod(al, w);
    vstd::arithmetic::div_mod::lemma_mod_bound(al, w);
    vstd::arithmetic::div_mod::lemma_div_pos_is_pos(al, w);
    assert(w * q == q * w) by (nonlinear_arith);
    vstd::arithmetic::div_mod::lemma_div_by_multiple(q, w);
    vstd::arithmetic::div_mod::lemma_mod_multiples_basic(q, w);
    if w <= al {
        vstd::arithmetic::div_mod::lemma_div_is_ordered(w, al, w);
        vstd::arithmetic::div_mod::lemma_div_by_self(w);
        vstd::arithmetic::mul::lemma_mul_inequality(1, q, w);
    }
}

/// The two little-endian bytes of a 16-bit value.
pub open spec fn le16_bytes(x: u16) -> Seq<u8> {
    seq![(x & 0xff) as u8, ((x >> 8) & 0xff) as u8]
}

/// The four little-endian bytes of a 32-bit value.
pub open spec fn le32_bytes(x: u32) -> Seq<u8> {
    seq![
        (x & 0xff) as u8,
        ((x >> 8) & 0xff) as u8,
        ((x >> 16) & 0xff) as u8,
        ((x >> 24) & 0xff) as u8,
    ]
}

/// The 16-bit value encoded by two little-endian bytes.
pub open spec fn u16_from_le(b0: u8, b1: u8) -> u16 {
    (b0 as u16) | ((b1 as u16) << 8)
}

/// The 32-bit value encoded by four little-endian bytes.
pub open spec fn u32_from_le(b0: u8, b1: u8, b2: u8, b3: u8) -> u32 {
    (b0 as u32) | ((b1 as u32) << 8) | ((b2 as u32) << 16) | ((b3 as u32) << 24)
}

/// Decoding the little-endian bytes of a 16-bit value gives the value back.
pub proof fn lemma_le16_round_trip(x: u16)
    ensures
        u16_from_le(le16_bytes(x)[0], le16_bytes(x)[1]) == x,
{
    assert((((x & 0xff) as u8) as u16) | (((((x >> 8) & 0xff) as u8) as u16) << 8) == x)
        by (bit_vector);
}

/// Decoding the little-endian bytes of a 32-bit value gives the value back.
pub proof fn lemma_le32_round_trip(x: u32)
    ensures
        u32_from_le(le32_bytes(x)[0], le32_bytes(x)[1], le32_bytes(x)[2], le32_bytes(x)[3]) == x,
{
    assert((((x & 0xff) as u8) as u32) | (((((x >> 8) & 0xff) as u8) as u32) << 8) | (((((x >> 16)
        & 0xff) as u8) as u32) << 16) | (((((x >> 24) & 0xff) as u8) as u32) << 24) == x)
        by (bit_vector);
}

/// Appends the two little-endian bytes of `x` to `v`.
pub fn push_u16_le(v: &mut Vec<u8>, x: u16)
    ensures
        final(v)@ == old(v)@ + le16_bytes(x),
{
    assert(x & 0xff <= 0xff && (x >> 8) & 0xff <= 0xff) by (bit_vector);
    let lo: u8 = (x & 0xff) as u8;
    let hi: u8 = ((x >> 8) & 0xff) as u8;
    v.push(lo);
    v.push(hi);
    proof {
        assert(v@ =~= old(v)@ + le16_bytes(x));
    }
}

/// Appends the four little-endian bytes of `x` to `v`.
pub fn push_u32_le(v: &mut Vec<u8>, x: u32)
    ensures
        final(v)@ == old(v)@ + le32_bytes(x),
{
    assert(x & 0xff <= 0xff && (x >> 8) & 0xff <= 0xff && (x >> 16) & 0xff <= 0xff && (x >> 24)
        & 0xff <= 0xff) by (bit_vector);
    let b0: u8 = (x & 0xff) as u8;
    let b1: u8 = ((x >> 8) & 0xff) as u8;
    let b2: u8 = ((x >> 16) & 0xff) as u8;
    let b3: u8 = ((x >> 24) & 0xff) as u8;
    v.push(b0);
    v.push(b1);
    v.push(b2);
    v.push(b3);
    proof {
        assert(v@ =~= old(v)@ + le32_bytes(x));
    }
}

/// Reads the 16-bit little-endian value stored at `v[at..at + 2]`.
pub fn read_u16_le(v: &Vec<u8>, at: usize) -> (r: u16)
    requires
        at + 2 <= v@.len(),
    ensures
        r == u16_from_le(v@[at as int], v@[at + 1]),
{
    let n = v.len();
    proof {
        assert(at + 1 < n);
    }
    let b0 = v[at];
    let b1 = v[at + 1];
    (b0 as u16) | ((b1 as u16) << 8)
}

/// Reads the 32-bit little-endian value stored at `v[at..at + 4]`.
pub fn read_u32_le(v: &Vec<u8>, at: usize) -> (r: u32)
    requires
        at + 4 <= v@.len(),
    ensures
        r == u32_from_le(v@[at as int], v@[at + 1], v@[at + 2], v@[at + 3]),
{
    let n = v.len();
    proof {
        assert(at + 3 < n);
    }
    let b0 = v[at];
    let b1 = v[at + 1];
    let b2 = v[at + 2];
    let b3 = v[at + 3];
    (b0 as u32) | ((b1 as u32) << 8) | ((b2 as u32) << 16) | ((b3 as u32) << 24)
}

} // verus!
