//! The PCM codec: a bidirectional transcoder between byte streams and
//! typed sample streams.
//!
//! Over a [`ByteSource`] the codec is a [`SignalReader`] (decode); over a
//! [`ByteSink`] it is a [`SignalWriter`] (encode). The mirrored byte facade
//! — a codec over a typed signal acting as a byte stream — lives in the
//! same type: see [`PcmCodec::read_bytes_at`] and
//! [`PcmCodec::write_bytes_at`].

use vstd::prelude::*;
use crate::error::PhonicError;
use crate::sample::Sample;
use crate::sample::decode_seq;
use crate::sample::encode_seq;
use crate::sample::lemma_decode_len;
use crate::sample::lemma_decode_index;
use crate::sample::lemma_decode_prefix;
use crate::sample::lemma_decode_skip;
use crate::sample::lemma_decode_app;
use crate::sample::lemma_decode_encode;
use crate::sample::lemma_encode_app;
use crate::sample::lemma_encode_singleton;
use crate::sample::lemma_encode_len;
use crate::sample::lemma_encode_decode;
use crate::sample::lemma_encode_prefix;
use crate::sample::lemma_encode_skip;
use crate::signal::Signal;
use crate::signal::SignalReader;
use crate::signal::SignalWriter;
use crate::signal::SignalSpec;
use crate::stream::KnownCodec;
use crate::stream::Ratio;
use crate::stream::Stream;
use crate::stream::StreamSpec;
use crate::stream::StreamSpecBuilder;
use crate::stream::stream_build_spec;
use crate::bytes::ByteSource;
use crate::bytes::ByteSink;
use crate::util::byte_buffer;
use crate::util::vec_copy_in;
use crate::util::rotate_left_vec;

verus! {

/// What filling a stream specification for PCM yields: the codec defaults
/// to PCM (a different codec is `InvalidData`) and the compression ratio is
/// fixed at exactly one (a different ratio already set is `InvalidData`).
pub open spec fn fill_pcm_spec(b: StreamSpecBuilder) -> Result<StreamSpecBuilder, PhonicError> {
    if b.codec is Some && b.codec->0 != KnownCodec::Pcm {
        Result::Err(PhonicError::InvalidData)
    } else if b.compression_ratio is Some && b.compression_ratio->0 != Ratio::one_spec() {
        Result::Err(PhonicError::InvalidData)
    } else {
        Result::Ok(
            StreamSpecBuilder {
                codec: Option::Some(KnownCodec::Pcm),
                compression_ratio: Option::Some(Ratio::one_spec()),
                ..b
            },
        )
    }
}

/// Fills and validates a stream specification for the PCM codec: an absent
/// codec defaults to PCM, a present-but-different codec is `InvalidData`,
/// and the compression ratio is fixed at one.
pub fn fill_pcm_stream_spec(builder: StreamSpecBuilder) -> (r: Result<
    StreamSpecBuilder,
    PhonicError,
>)
    ensures
        r == fill_pcm_spec(builder),
{
    let mut filled = builder;
    match filled.codec {
        Option::None => {
            filled.codec = Some(KnownCodec::Pcm);
        },
        Option::Some(c) => {
            if c != KnownCodec::Pcm {
                return Err(PhonicError::InvalidData);
            }
        },
    }
    filled.with_compression_ratio(Ratio::one())
}

/// What constructing a PCM codec from a partial stream specification
/// yields.
pub open spec fn pcm_new_spec(b: StreamSpecBuilder) -> Result<StreamSpec, PhonicError> {
    match fill_pcm_spec(b) {
        Result::Ok(f) => stream_build_spec(f),
        Result::Err(e) => Result::Err(e),
    }
}

/// A PCM transcoder around an inner byte stream or typed signal.
pub struct PcmCodec<T, S: Sample> {
    inner: T,
    stream: StreamSpec,
    marker: core::marker::PhantomData<S>,
}

impl<T, S: Sample> PcmCodec<T, S> {
    /// The wrapped object, as an abstract value.
    pub closed spec fn inner_view(&self) -> T {
        self.inner
    }

    /// Wraps `inner`, filling and validating the stream specification for
    /// PCM; every field of the specification must then be present.
    pub fn new(inner: T, builder: StreamSpecBuilder) -> (r: Result<Self, PhonicError>)
        ensures
            match r {
                Result::Ok(c) => {
                    &&& pcm_new_spec(builder) == Result::<StreamSpec, PhonicError>::Ok(
                        c.stream_view(),
                    )
                    &&& c.inner_view() == inner
                },
                Result::Err(e) => pcm_new_spec(builder) == Result::<StreamSpec, PhonicError>::Err(
                    e,
                ),
            },
    {
        let filled = match fill_pcm_stream_spec(builder) {
            Result::Ok(f) => f,
            Result::Err(e) => {
                return Err(e);
            },
        };
        let stream = match filled.build() {
            Result::Ok(s) => s,
            Result::Err(e) => {
                return Err(e);
            },
        };
        Ok(PcmCodec { inner, stream, marker: core::marker::PhantomData })
    }

    /// A reference to the wrapped object.
    pub fn as_inner(&self) -> (r: &T)
        ensures
            *r == self.inner_view(),
    {
        &self.inner
    }

    /// The wrapped object, surrendering the codec.
    pub fn into_inner(self) -> (r: T)
        ensures
            r == self.inner_view(),
    {
        self.inner
    }
}

impl<T, S: Sample> Signal for PcmCodec<T, S> {
    type Sample = S;

    closed spec fn spec_view(&self) -> SignalSpec {
        self.stream.decoded_spec
    }

    fn signal_spec(&self) -> (s: SignalSpec) {
        self.stream.decoded_spec
    }
}

impl<T, S: Sample> Stream for PcmCodec<T, S> {
    closed spec fn stream_view(&self) -> StreamSpec {
        self.stream
    }

    fn stream_spec(&self) -> (s: StreamSpec) {
        self.stream
    }
}

/// A PCM codec's signal specification is exactly its stream descriptor's
/// decoded specification: construction fixes both, and no operation
/// mutates either.
pub proof fn lemma_pcm_signal_spec<T, S: Sample>(codec: &PcmCodec<T, S>)
    ensures
        codec.spec_view() == codec.stream_view().decoded_spec,
{
}

impl<T: ByteSource, S: Sample> SignalReader for PcmCodec<T, S> {
    /// The samples decoded from the bytes the source will still deliver.
    open spec fn remaining(&self) -> Seq<S> {
        decode_seq::<S>(self.inner_view().remaining_bytes())
    }

    open spec fn read_retries(&self) -> nat {
        self.inner_view().source_retries()
    }

    /// Decode: views the sample buffer as a byte region, issues one
    /// underlying byte read into it, and requires the byte count to be an
    /// exact multiple of the sample width; a remainder is `InvalidData`.
    fn read(&mut self, buf: &mut Vec<S>) -> (r: Result<usize, PhonicError>) {
        let w = S::width();
        proof {
            S::width_bounds();
        }
        let max_samples = if buf.len() < usize::MAX / w {
            buf.len()
        } else {
            usize::MAX / w
        };
        proof {
            assert((max_samples as int) * (w as int) <= usize::MAX as int) by (nonlinear_arith)
                requires
                    1 <= w as int && 0 <= max_samples as int <= usize::MAX as int / (w as int),
            ;
        }
        let want = max_samples * w;
        let mut tmp = byte_buffer(want);
        let ghost b0 = self.inner.remaining_bytes();
        let n = match self.inner.read_bytes(&mut tmp) {
            Result::Ok(n) => n,
            Result::Err(e) => {
                return Err(e);
            },
        };
        if n % w != 0 {
            return Err(PhonicError::InvalidData);
        }
        let k = n / w;
        proof {
            lemma_decode_len::<S>(b0);
            let ki = k as int;
            let ni = n as int;
            let wi = w as int;
            let mi = max_samples as int;
            assert(ki * wi == ni && ki <= mi && ki <= b0.len() as int / wi) by (nonlinear_arith)
                requires
                    1 <= wi && 0 <= ni <= b0.len() && ni <= mi * wi && ni % wi == 0 && ki == ni
                        / wi,
            ;
        }
        let mut i: usize = 0;
        while i < k
            invariant
                w as int == S::width_spec(),
                1 <= w,
                i <= k,
                k * w == n,
                n <= tmp@.len(),
                n <= b0.len(),
                buf@.len() == old(buf)@.len(),
                k <= buf@.len(),
                tmp@.take(n as int) == b0.take(n as int),
                decode_seq::<S>(b0).len() == b0.len() as int / (w as int),
                k <= decode_seq::<S>(b0).len(),
                forall|j: int| 0 <= j < i ==> buf@[j] == decode_seq::<S>(b0)[j],
                self.stream == old(self).stream,
                self.inner_view().remaining_bytes() == b0.skip(n as int),
                self.inner_view().source_retries() <= old(self).read_retries(),
            decreases k - i,
        {
            proof {
                assert((i + 1) * w <= k * w && i * w + w == (i + 1) * w && 0 <= i * w)
                    by (nonlinear_arith)
                    requires
                        0 <= i < k && 1 <= w,
                ;
                lemma_decode_index::<S>(b0, i as int);
                assert forall|p: int| i * w <= p < i * w + w as int implies tmp@[p] == b0[p] by {
                    assert(p < n);
                    assert(tmp@.take(n as int)[p] == b0.take(n as int)[p]);
                }
                assert(tmp@.subrange(i * w, i * w + w as int) =~= b0.subrange(
                    i * w,
                    i * w + w as int,
                ));
            }
            let s = S::read_bytes(&tmp, i * w);
            buf.set(i, s);
            i = i + 1;
        }
        proof {
            lemma_decode_prefix::<S>(b0, n as int);
            lemma_decode_skip::<S>(b0, n as int);
            assert(buf@.take(k as int) =~= decode_seq::<S>(b0).take(k as int));
        }
        Ok(k)
    }
}

impl<T: ByteSink, S: Sample> SignalWriter for PcmCodec<T, S> {
    /// The samples encoded in the bytes the sink has accepted, ignoring
    /// any ragged prefix that predates the codec.
    open spec fn written(&self) -> Seq<S> {
        let b = self.inner_view().written_bytes();
        decode_seq::<S>(b.skip(b.len() as int % S::width_spec()))
    }

    open spec fn write_retries(&self) -> nat {
        self.inner_view().sink_retries()
    }

    /// Encode: views the sample buffer as a byte region, issues one
    /// underlying byte write from it, and requires the byte count to be an
    /// exact multiple of the sample width; a remainder is `InvalidData`.
    fn write(&mut self, buf: &Vec<S>) -> (r: Result<usize, PhonicError>) {
        let w = S::width();
        proof {
            S::width_bounds();
        }
        let k_max = if buf.len() < usize::MAX / w {
            buf.len()
        } else {
            usize::MAX / w
        };
        let mut e: Vec<u8> = Vec::new();
        let mut i: usize = 0;
        while i < k_max
            invariant
                w as int == S::width_spec(),
                1 <= w,
                i <= k_max,
                k_max <= buf@.len(),
                e@ == encode_seq(buf@.take(i as int)),
            decreases k_max - i,
        {
            proof {
                assert(buf@.take(i + 1) =~= buf@.take(i as int) + seq![buf@[i as int]]);
                lemma_encode_app(buf@.take(i as int), seq![buf@[i as int]]);
                lemma_encode_singleton(buf@[i as int]);
            }
            let s = buf[i];
            s.append_bytes(&mut e);
            i = i + 1;
        }
        let ghost samples = buf@.take(k_max as int);
        let ghost b_old = self.inner.written_bytes();
        proof {
            lemma_encode_len(samples);
        }
        let m = match self.inner.write_bytes(&e) {
            Result::Ok(m) => m,
            Result::Err(err) => {
                return Err(err);
            },
        };
        if m % w != 0 {
            return Err(PhonicError::InvalidData);
        }
        let k = m / w;
        proof {
            let wi = w as int;
            let ki = k as int;
            let mint = m as int;
            let kmaxi = k_max as int;
            assert(ki * wi == mint && ki <= kmaxi) by (nonlinear_arith)
                requires
                    1 <= wi && 0 <= mint <= kmaxi * wi && mint % wi == 0 && ki == mint / wi,
            ;
            let mis = b_old.len() as int % wi;
            assert(0 <= mis <= b_old.len() && (b_old.len() - mis) % wi == 0) by (nonlinear_arith)
                requires
                    1 <= wi && 0 <= b_old.len() && mis == b_old.len() as int % wi,
            ;
            let b_new = self.inner_view().written_bytes();
            assert(b_new == b_old + e@.take(m as int));
            vstd::arithmetic::div_mod::lemma_add_mod_noop(b_old.len() as int, mint, wi);
            vstd::arithmetic::div_mod::lemma_mod_twice(b_old.len() as int, wi);
            assert(b_new.len() as int % wi == mis);
            assert(b_new.skip(mis) =~= b_old.skip(mis) + e@.take(m as int));
            lemma_decode_app::<S>(b_old.skip(mis), e@.take(m as int));
            lemma_decode_prefix::<S>(e@, m as int);
            lemma_encode_decode(samples);
            assert(samples.take(k as int) =~= buf@.take(k as int));
        }
        Ok(k)
    }

    fn flush(&mut self) -> (r: Result<(), PhonicError>) {
        self.inner.flush_bytes()
    }
}

impl<T: SignalReader<Sample = S>, S: Sample> PcmCodec<T, S> {
    /// The byte facade of the read direction, with an explicit alignment
    /// offset: `offset` is the distance from the start of `buf` to the
    /// first position where a sample-typed interior may begin (relevant
    /// when the interior is later reinterpreted in place). The remaining
    /// length is reduced to the largest whole number of samples, the typed
    /// read happens there, and the buffer is rotated left by `offset` so
    /// the produced bytes form a contiguous prefix starting at index zero.
    /// An aligned interior shorter than one sample is `InvalidData`.
    pub fn read_bytes_at(&mut self, buf: &mut Vec<u8>, offset: usize) -> (r: Result<
        usize,
        PhonicError,
    >)
        ensures
            final(buf)@.len() == old(buf)@.len(),
            final(self).stream_view() == old(self).stream_view(),
            final(self).inner_view().read_retries() <= old(self).inner_view().read_retries(),
            match r {
                Result::Ok(m) => {
                    &&& m as int % S::width_spec() == 0
                    &&& offset + m <= old(buf)@.len()
                    &&& m as int <= encode_seq(old(self).inner_view().remaining()).len()
                    &&& final(buf)@.take(m as int) == encode_seq(
                        old(self).inner_view().remaining(),
                    ).take(m as int)
                    &&& final(self).inner_view().remaining() == old(
                        self,
                    ).inner_view().remaining().skip(m as int / S::width_spec())
                },
                Result::Err(e) => {
                    &&& old(buf)@.len() < offset + S::width_spec() ==> e == PhonicError::InvalidData
                    &&& e.is_nonconsuming() ==> final(self).inner_view().remaining() == old(
                        self,
                    ).inner_view().remaining()
                    &&& e.is_transient() ==> final(self).inner_view().read_retries() < old(
                        self,
                    ).inner_view().read_retries()
                },
            },
    {
        let w = S::width();
        proof {
            S::width_bounds();
        }
        let len = buf.len();
        if len < offset || len - offset < w {
            return Err(PhonicError::InvalidData);
        }
        let aligned_len = len - offset;
        let usable = aligned_len - (aligned_len % w);
        let k = usable / w;
        proof {
            crate::util::lemma_round_down_mult(aligned_len as int, w as int);
        }
        let mut tmp: Vec<S> = Vec::new();
        let mut i: usize = 0;
        while i < k
            invariant
                w as int == S::width_spec(),
                1 <= w,
                i <= k,
                k * w == usable,
                offset + usable <= len,
                len == buf@.len(),
                tmp@.len() == i,
            decreases k - i,
        {
            proof {
                assert((i + 1) * (w as int) <= k * (w as int) && i * (w as int) + w as int == (i
                    + 1) * (w as int) && 0 <= i * (w as int)) by (nonlinear_arith)
                    requires
                        0 <= i < k && 1 <= w as int,
                ;
            }
            let s = S::read_bytes(buf, offset + i * w);
            tmp.push(s);
            i = i + 1;
        }
        let ghost rem0 = self.inner.remaining();
        let n = match self.inner.read(&mut tmp) {
            Result::Ok(n) => n,
            Result::Err(e) => {
                return Err(e);
            },
        };
        let mut enc: Vec<u8> = Vec::new();
        let mut j: usize = 0;
        while j < n
            invariant
                w as int == S::width_spec(),
                1 <= w,
                j <= n,
                n <= tmp@.len(),
                enc@ == encode_seq(tmp@.take(j as int)),
                enc@.len() == j * w,
            decreases n - j,
        {
            proof {
                assert(tmp@.take(j + 1) =~= tmp@.take(j as int) + seq![tmp@[j as int]]);
                lemma_encode_app(tmp@.take(j as int), seq![tmp@[j as int]]);
                lemma_encode_singleton(tmp@[j as int]);
                tmp@[j as int].to_bytes_len();
                assert((j + 1) * (w as int) == j * (w as int) + w as int) by (nonlinear_arith);
            }
            let s = tmp[j];
            s.append_bytes(&mut enc);
            j = j + 1;
        }
        proof {
            let wi = w as int;
            assert(n * wi <= k * wi) by (nonlinear_arith)
                requires
                    0 <= n <= k && 1 <= wi,
            ;
            assert(tmp@.take(n as int) =~= rem0.take(n as int));
            lemma_encode_prefix(rem0, n as int);
            lemma_encode_len(rem0);
            assert(n as int * wi <= rem0.len() * wi) by (nonlinear_arith)
                requires
                    0 <= n <= rem0.len() && 1 <= wi,
            ;
        }
        let m = n * w;
        vec_copy_in(buf, offset, &enc, m);
        rotate_left_vec(buf, offset);
        proof {
            let e0 = encode_seq(old(self).inner_view().remaining());
            assert(buf@.take(m as int) =~= e0.take(m as int));
            let wi = w as int;
            assert(m as int % wi == 0 && m as int / wi == n as int) by (nonlinear_arith)
                requires
                    1 <= wi && m == n * wi && 0 <= n,
            ;
        }
        Ok(m)
    }
}

/// The byte facade of the read direction: a PCM codec over a signal reader
/// is itself a byte source, delivering the encoding of the signal's
/// samples. No in-place reinterpretation happens here, so the interior
/// starts at offset zero.
impl<T: SignalReader<Sample = S>, S: Sample> ByteSource for PcmCodec<T, S> {
    open spec fn remaining_bytes(&self) -> Seq<u8> {
        encode_seq(self.inner_view().remaining())
    }

    open spec fn source_retries(&self) -> nat {
        self.inner_view().read_retries()
    }

    fn read_bytes(&mut self, buf: &mut Vec<u8>) -> (r: Result<usize, PhonicError>) {
        let ghost rem0 = self.inner_view().remaining();
        let r = self.read_bytes_at(buf, 0);
        proof {
            if let Result::Ok(m) = r {
                S::width_bounds();
                lemma_encode_len(rem0);
                assert(0 <= m as int / S::width_spec() && m as int / S::width_spec() <= rem0.len())
                    by (nonlinear_arith)
                    requires
                        1 <= S::width_spec() && 0 <= m as int <= rem0.len() * S::width_spec(),
                ;
                lemma_encode_skip(rem0, m as int / S::width_spec());
                assert((m as int / S::width_spec()) * S::width_spec() == m as int)
                    by (nonlinear_arith)
                    requires
                        1 <= S::width_spec() && 0 <= m && m as int % S::width_spec() == 0,
                ;
            }
        }
        r
    }
}

impl<T: SignalWriter<Sample = S>, S: Sample> PcmCodec<T, S> {
    /// The byte facade of the write direction, with an explicit alignment
    /// offset, mirroring [`PcmCodec::read_bytes_at`]: the aligned interior
    /// of `buf` is reinterpreted as samples and written to the typed
    /// signal; the returned count covers the bytes up to the end of what
    /// was written. An aligned interior shorter than one sample is
    /// `InvalidData`.
    pub fn write_bytes_at(&mut self, buf: &Vec<u8>, offset: usize) -> (r: Result<
        usize,
        PhonicError,
    >)
        ensures
            final(self).stream_view() == old(self).stream_view(),
            final(self).inner_view().write_retries() <= old(self).inner_view().write_retries(),
            match r {
                Result::Ok(m) => {
                    &&& m as int % S::width_spec() == 0
                    &&& offset + m <= buf@.len()
                    &&& final(self).inner_view().written() == old(self).inner_view().written()
                        + decode_seq::<S>(buf@.subrange(offset as int, offset + m))
                },
                Result::Err(e) => {
                    &&& buf@.len() < offset + S::width_spec() ==> e == PhonicError::InvalidData
                    &&& e.is_nonconsuming() ==> final(self).inner_view().written() == old(
                        self,
                    ).inner_view().written()
                    &&& e.is_transient() ==> final(self).inner_view().write_retries() < old(
                        self,
                    ).inner_view().write_retries()
                },
            },
    {
        let w = S::width();
        proof {
            S::width_bounds();
        }
        let len = buf.len();
        if len < offset || len - offset < w {
            return Err(PhonicError::InvalidData);
        }
        let aligned_len = len - offset;
        let usable = aligned_len - (aligned_len % w);
        let k = usable / w;
        proof {
            crate::util::lemma_round_down_mult(aligned_len as int, w as int);
        }
        let ghost interior = buf@.subrange(offset as int, offset + usable);
        proof {
            lemma_decode_len::<S>(interior);
            assert(interior.len() as int / (w as int) == k) by (nonlinear_arith)
                requires
                    1 <= w as int && interior.len() == k * (w as int),
            ;
        }
        let mut tmp: Vec<S> = Vec::new();
        let mut i: usize = 0;
        while i < k
            invariant
                w as int == S::width_spec(),
                1 <= w,
                i <= k,
                k * w == usable,
                offset + usable <= len,
                len == buf@.len(),
                interior == buf@.subrange(offset as int, offset + usable),
                decode_seq::<S>(interior).len() == k,
                tmp@.len() == i,
                forall|j: int| 0 <= j < i ==> tmp@[j] == decode_seq::<S>(interior)[j],
            decreases k - i,
        {
            proof {
                assert((i + 1) * (w as int) <= k * (w as int) && i * (w as int) + w as int == (i
                    + 1) * (w as int) && 0 <= i * (w as int)) by (nonlinear_arith)
                    requires
                        0 <= i < k && 1 <= w as int,
                ;
                lemma_decode_index::<S>(interior, i as int);
                assert(interior.subrange(i * w, i * w + w as int) =~= buf@.subrange(
                    offset + i * w,
                    offset + i * w + w as int,
                ));
            }
            let s = S::read_bytes(buf, offset + i * w);
            tmp.push(s);
            i = i + 1;
        }
        let n = match self.inner.write(&tmp) {
            Result::Ok(n) => n,
            Result::Err(e) => {
                return Err(e);
            },
        };
        proof {
            let wi = w as int;
            assert(tmp@ =~= decode_seq::<S>(interior));
            assert(n * wi <= k * wi && (n * wi) % wi == 0 && (n * wi) / wi == n as int)
                by (nonlinear_arith)
                requires
                    0 <= n <= k && 1 <= wi,
            ;
            lemma_decode_prefix::<S>(interior, n as int * wi);
            assert(interior.take(n as int * wi) =~= buf@.subrange(offset as int, offset + n * wi));
            assert(decode_seq::<S>(interior).take(n as int) =~= tmp@.take(n as int));
        }
        Ok(n * w)
    }
}

/// The byte facade of the write direction: a PCM codec over a signal
/// writer is itself a byte sink, forwarding the samples decoded from the
/// offered bytes. No in-place reinterpretation happens here, so the
/// interior starts at offset zero.
impl<T: SignalWriter<Sample = S>, S: Sample> ByteSink for PcmCodec<T, S> {
    open spec fn written_bytes(&self) -> Seq<u8> {
        encode_seq(self.inner_view().written())
    }

    open spec fn sink_retries(&self) -> nat {
        self.inner_view().write_retries()
    }

    fn write_bytes(&mut self, buf: &Vec<u8>) -> (r: Result<usize, PhonicError>) {
        let ghost w0 = self.inner_view().written();
        let r = self.write_bytes_at(buf, 0);
        proof {
            if let Result::Ok(m) = r {
                S::width_bounds();
                let d = decode_seq::<S>(buf@.subrange(0, m as int));
                lemma_encode_app(w0, d);
                lemma_decode_encode::<S>(buf@.subrange(0, m as int));
                assert(buf@.subrange(0, m as int) =~= buf@.take(m as int));
            }
        }
        r
    }

    fn flush_bytes(&mut self) -> (r: Result<(), PhonicError>) {
        self.inner.flush()
    }
}

} // verus!
