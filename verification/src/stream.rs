//! Per-track stream specifications: a codec tag, the decoded signal
//! specification, the block alignment, and the compression ratio, built and
//! validated the same way as a [`crate::signal::SignalSpec`].

use vstd::prelude::*;
use crate::error::PhonicError;
use crate::signal::SignalSpec;

verus! {

/// The closed enumeration of codecs this build knows.
#[derive(Debug, Clone, Copy, PartialEq, Eq, Structural)]
pub enum KnownCodec {
    Pcm,
}

/// An exact ratio of two 32-bit integers; compression ratios are stored
/// this way so that "exactly one" stays exact.
#[derive(Debug, Clone, Copy, PartialEq, Eq, Structural)]
pub struct Ratio {
    pub num: u32,
    pub den: u32,
}

impl Ratio {
    /// The ratio one: numerator and denominator both one.
    pub open spec fn one_spec() -> Ratio {
        Ratio { num: 1, den: 1 }
    }

    /// The ratio one.
    pub fn one() -> (r: Ratio)
        ensures
            r == Ratio::one_spec(),
    {
        Ratio { num: 1, den: 1 }
    }
}

/// A complete per-track descriptor.
#[derive(Debug, Clone, Copy)]
pub struct StreamSpec {
    /// The codec of the track's coded bytes.
    pub codec: KnownCodec,
    /// The specification of the decoded signal.
    pub decoded_spec: SignalSpec,
    /// The byte granularity every transfer of the track must respect.
    pub block_align: u16,
    /// The ratio of decoded size to coded size.
    pub compression_ratio: Ratio,
}

/// A partially specified [`StreamSpec`].
#[derive(Debug, Clone, Copy)]
pub struct StreamSpecBuilder {
    pub codec: Option<KnownCodec>,
    pub decoded_spec: Option<SignalSpec>,
    pub block_align: Option<u16>,
    pub compression_ratio: Option<Ratio>,
}

/// The builder carrying exactly the fields of `s`.
pub open spec fn stream_builder_of(s: StreamSpec) -> StreamSpecBuilder {
    StreamSpecBuilder {
        codec: Option::Some(s.codec),
        decoded_spec: Option::Some(s.decoded_spec),
        block_align: Option::Some(s.block_align),
        compression_ratio: Option::Some(s.compression_ratio),
    }
}

/// What building a partial stream specification yields: the completed
/// descriptor, or `MissingData` when any field is unset.
pub open spec fn stream_build_spec(b: StreamSpecBuilder) -> Result<StreamSpec, PhonicError> {
    match (b.codec, b.decoded_spec, b.block_align, b.compression_ratio) {
        (
            Option::Some(codec),
            Option::Some(decoded_spec),
            Option::Some(block_align),
            Option::Some(compression_ratio),
        ) => Result::Ok(StreamSpec { codec, decoded_spec, block_align, compression_ratio }),
        _ => Result::Err(PhonicError::MissingData),
    }
}

/// Rebuilding a stream specification from its own builder gives it back.
pub proof fn lemma_stream_build_round_trip(s: StreamSpec)
    ensures
        stream_build_spec(stream_builder_of(s)) == Result::<StreamSpec, PhonicError>::Ok(s),
{
}

impl StreamSpecBuilder {
    /// The builder with every field unset.
    pub open spec fn empty_spec() -> StreamSpecBuilder {
        StreamSpecBuilder {
            codec: Option::None,
            decoded_spec: Option::None,
            block_align: Option::None,
            compression_ratio: Option::None,
        }
    }

    /// A builder with every field unset.
    pub fn new() -> (r: Self)
        ensures
            r == StreamSpecBuilder::empty_spec(),
    {
        StreamSpecBuilder {
            codec: None,
            decoded_spec: None,
            block_align: None,
            compression_ratio: None,
        }
    }

    /// The same builder with the codec set.
    pub fn with_codec(self, codec: KnownCodec) -> (r: Self)
        ensures
            r == (StreamSpecBuilder { codec: Option::Some(codec), ..self }),
    {
        StreamSpecBuilder { codec: Some(codec), ..self }
    }

    /// The same builder with the decoded signal specification set.
    pub fn with_decoded_spec(self, decoded_spec: SignalSpec) -> (r: Self)
        ensures
            r == (StreamSpecBuilder { decoded_spec: Option::Some(decoded_spec), ..self }),
    {
        StreamSpecBuilder { decoded_spec: Some(decoded_spec), ..self }
    }

    /// The same builder with the block alignment set.
    pub fn with_block_align(self, block_align: u16) -> (r: Self)
        ensures
            r == (StreamSpecBuilder { block_align: Option::Some(block_align), ..self }),
    {
        StreamSpecBuilder { block_align: Some(block_align), ..self }
    }

    /// Sets the compression ratio; a ratio that is already set and differs
    /// is a conflict, reported as `InvalidData`.
    pub fn with_compression_ratio(self, ratio: Ratio) -> (r: Result<Self, PhonicError>)
        ensures
            match self.compression_ratio {
                Option::Some(r0) => if r0 == ratio {
                    r == Result::<StreamSpecBuilder, PhonicError>::Ok(self)
                } else {
                    r == Result::<StreamSpecBuilder, PhonicError>::Err(PhonicError::InvalidData)
                },
                Option::None => r == Result::<StreamSpecBuilder, PhonicError>::Ok(
                    (StreamSpecBuilder { compression_ratio: Option::Some(ratio), ..self }),
                ),
            },
    {
        match self.compression_ratio {
            Option::Some(r0) => {
                if r0 == ratio {
                    Ok(self)
                } else {
                    Err(PhonicError::InvalidData)
                }
            },
            Option::None => Ok(StreamSpecBuilder { compression_ratio: Some(ratio), ..self }),
        }
    }

    /// Completes the descriptor: `MissingData` exactly when a field is
    /// unset.
    pub fn build(self) -> (r: Result<StreamSpec, PhonicError>)
        ensures
            r == stream_build_spec(self),
    {
        match (self.codec, self.decoded_spec, self.block_align, self.compression_ratio) {
            (
                Option::Some(codec),
                Option::Some(decoded_spec),
                Option::Some(block_align),
                Option::Some(compression_ratio),
            ) => Ok(StreamSpec { codec, decoded_spec, block_align, compression_ratio }),
            _ => Err(PhonicError::MissingData),
        }
    }

    /// The builder carrying exactly the fields of an already complete
    /// descriptor.
    pub fn from_stream_spec(s: StreamSpec) -> (r: Self)
        ensures
            r == stream_builder_of(s),
    {
        StreamSpecBuilder {
            codec: Some(s.codec),
            decoded_spec: Some(s.decoded_spec),
            block_align: Some(s.block_align),
            compression_ratio: Some(s.compression_ratio),
        }
    }
}

/// Something with a fixed per-track stream descriptor.
pub trait Stream {
    /// The descriptor, as an abstract value.
    spec fn stream_view(&self) -> StreamSpec;

    /// The immutable per-track descriptor.
    fn stream_spec(&self) -> (s: StreamSpec)
        ensures
            s == self.stream_view(),
    ;
}

} // verus!
