//! The multiplexing layer: chunked multi-track container contracts, and
//! the adapter that presents a single byte stream as a one-track
//! container.
//!
//! A container exposes chunked I/O: a read yields a [`FormatChunk`] tagged
//! with the track the bytes belong to, a write accepts bytes for a target
//! track. The models are per-track byte sequences: `streams()` is what a
//! reader will still deliver for each track, `written_streams()` what a
//! writer has accepted for each.

use vstd::prelude::*;
use crate::error::PhonicError;
use crate::bytes::ByteSource;
use crate::bytes::ByteSink;
use crate::stream::KnownCodec;
use crate::stream::StreamSpecBuilder;
use crate::known::KnownFormat;

verus! {

/// The overall description of a container: its format tag, where known,
/// and one partial stream specification per track, in track order.
#[derive(Debug)]
pub struct FormatData {
    pub format: Option<KnownFormat>,
    pub tracks: Vec<StreamSpecBuilder>,
}

/// The unit exchanged across the multiplexing boundary: a chunk of payload
/// bytes tagged with the track they belong to. The bytes themselves live
/// in the buffer the chunk was read into; `len` says how many of its
/// leading bytes belong to the chunk.
#[derive(Debug, Clone, Copy, PartialEq, Eq, Structural)]
pub enum FormatChunk {
    Stream { stream_index: usize, len: usize },
}

/// Something with a fixed container description.
pub trait Format {
    /// The container description, as an abstract value.
    spec fn data_view(&self) -> FormatData;

    /// The container description.
    fn data(&self) -> (d: &FormatData)
        ensures
            *d == self.data_view(),
    ;
}

/// A container that yields tagged chunks.
pub trait FormatReader: Format {
    /// The bytes each track will still deliver, indexed by track.
    spec fn streams(&self) -> Seq<Seq<u8>>;

    /// How many transient failures this reader may still report.
    spec fn format_retries(&self) -> nat;

    /// There is one stream per declared track.
    proof fn streams_match_tracks(&self)
        ensures
            self.streams().len() == self.data_view().tracks@.len(),
    ;

    /// Reads the next chunk into a prefix of `buf`, returning the track it
    /// belongs to and its length; a zero-length chunk means the container
    /// has no more data to offer.
    fn read_chunk(&mut self, buf: &mut Vec<u8>) -> (r: Result<FormatChunk, PhonicError>)
        ensures
            final(buf)@.len() == old(buf)@.len(),
            final(self).data_view() == old(self).data_view(),
            final(self).streams().len() == old(self).streams().len(),
            final(self).format_retries() <= old(self).format_retries(),
            match r {
                Result::Ok(c) => match c {
                    FormatChunk::Stream { stream_index, len } => {
                        &&& (stream_index as int) < old(self).streams().len()
                        &&& len <= old(buf)@.len()
                        &&& len <= old(self).streams()[stream_index as int].len()
                        &&& final(buf)@.take(len as int) == old(self).streams()[stream_index
                            as int].take(len as int)
                        &&& final(self).streams() == old(self).streams().update(
                            stream_index as int,
                            old(self).streams()[stream_index as int].skip(len as int),
                        )
                    },
                },
                Result::Err(e) => {
                    &&& e.is_nonconsuming() ==> final(self).streams() == old(self).streams()
                    &&& e.is_transient() ==> final(self).format_retries() < old(
                        self,
                    ).format_retries()
                },
            },
    ;
}

/// A container that accepts tagged chunks.
pub trait FormatWriter: Format {
    /// The bytes each track has accepted so far, indexed by track.
    spec fn written_streams(&self) -> Seq<Seq<u8>>;

    /// How many transient failures this writer may still report.
    spec fn writer_retries(&self) -> nat;

    /// There is one written stream per declared track.
    proof fn written_match_tracks(&self)
        ensures
            self.written_streams().len() == self.data_view().tracks@.len(),
    ;

    /// Writes a prefix of `buf` as a chunk of track `stream_index`,
    /// returning how many bytes were accepted; an index with no track is
    /// `NotFound`.
    fn write_chunk(&mut self, stream_index: usize, buf: &Vec<u8>) -> (r: Result<
        usize,
        PhonicError,
    >)
        ensures
            final(self).data_view() == old(self).data_view(),
            final(self).written_streams().len() == old(self).written_streams().len(),
            final(self).writer_retries() <= old(self).writer_retries(),
            stream_index as int >= old(self).written_streams().len() ==> r == Result::<
                usize,
                PhonicError,
            >::Err(PhonicError::NotFound),
            match r {
                Result::Ok(n) => {
                    &&& (stream_index as int) < old(self).written_streams().len()
                    &&& n <= buf@.len()
                    &&& final(self).written_streams() == old(self).written_streams().update(
                        stream_index as int,
                        old(self).written_streams()[stream_index as int] + buf@.take(n as int),
                    )
                },
                Result::Err(e) => {
                    &&& e.is_nonconsuming() ==> final(self).written_streams() == old(
                        self,
                    ).written_streams()
                    &&& e.is_transient() ==> final(self).writer_retries() < old(
                        self,
                    ).writer_retries()
                },
            },
    ;

    /// Commits buffered output.
    fn flush_format(&mut self) -> (r: Result<(), PhonicError>)
        ensures
            final(self).data_view() == old(self).data_view(),
            final(self).written_streams() == old(self).written_streams(),
            final(self).writer_retries() <= old(self).writer_retries(),
    ;
}

/// A single-track container view over a plain byte stream: every chunk
/// belongs to track zero.
pub struct SingleStreamFormat<T> {
    inner: T,
    data: FormatData,
}

impl<T> SingleStreamFormat<T> {
    /// The wrapped byte stream, as an abstract value.
    pub closed spec fn inner_view(&self) -> T {
        self.inner
    }

    /// Wraps `inner` with the given description, which must declare
    /// exactly one track.
    pub fn new(inner: T, data: FormatData) -> (r: Result<Self, PhonicError>)
        ensures
            match r {
                Result::Ok(f) => {
                    &&& data.tracks@.len() == 1
                    &&& f.data_view() == data
                    &&& f.inner_view() == inner
                },
                Result::Err(e) => {
                    &&& data.tracks@.len() != 1
                    &&& e == PhonicError::Unsupported
                },
            },
    {
        if data.tracks.len() != 1 {
            return Err(PhonicError::Unsupported);
        }
        Ok(SingleStreamFormat { inner, data })
    }

    /// The wrapped byte stream, surrendering the view.
    pub fn into_inner(self) -> (r: T)
        ensures
            r == self.inner_view(),
    {
        self.inner
    }

    /// The same view with the format tag set.
    pub fn with_format(self, format: KnownFormat) -> (r: Self)
        ensures
            r.inner_view() == self.inner_view(),
            r.data_view() == (FormatData {
                format: Option::Some(format),
                tracks: self.data_view().tracks,
            }),
    {
        let SingleStreamFormat { inner, data } = self;
        let tracks = data.tracks;
        SingleStreamFormat { inner, data: FormatData { format: Some(format), tracks } }
    }

    /// The same view with every track's codec set.
    pub fn with_codec(self, codec: KnownCodec) -> (r: Self)
        ensures
            r.inner_view() == self.inner_view(),
            r.data_view().format == self.data_view().format,
            r.data_view().tracks@.len() == self.data_view().tracks@.len(),
            forall|j: int|
                0 <= j < self.data_view().tracks@.len() ==> r.data_view().tracks@[j]
                    == (StreamSpecBuilder {
                    codec: Option::Some(codec),
                    ..self.data_view().tracks@[j]
                }),
    {
        let ghost orig = self;
        let mut this = self;
        let n = this.data.tracks.len();
        let mut j: usize = 0;
        while j < n
            invariant
                n == this.data.tracks@.len(),
                n == orig.data_view().tracks@.len(),
                j <= n,
                this.inner_view() == orig.inner_view(),
                this.data.format == orig.data_view().format,
                forall|p: int|
                    0 <= p < j ==> this.data.tracks@[p] == (StreamSpecBuilder {
                        codec: Option::Some(codec),
                        ..orig.data_view().tracks@[p]
                    }),
                forall|p: int| j <= p < n ==> this.data.tracks@[p] == orig.data_view().tracks@[p],
            decreases n - j,
        {
            let t = this.data.tracks[j];
            this.data.tracks.set(j, StreamSpecBuilder { codec: Some(codec), ..t });
            j = j + 1;
        }
        this
    }
}

impl<T> Format for SingleStreamFormat<T> {
    closed spec fn data_view(&self) -> FormatData {
        self.data
    }

    fn data(&self) -> (d: &FormatData) {
        &self.data
    }
}

impl<T: ByteSource> FormatReader for SingleStreamFormat<T> {
    /// Track zero delivers the inner stream's bytes; a malformed view with
    /// extra declared tracks delivers nothing for them.
    open spec fn streams(&self) -> Seq<Seq<u8>> {
        Seq::new(
            self.data_view().tracks@.len(),
            |i: int|
                if i == 0 {
                    self.inner_view().remaining_bytes()
                } else {
                    Seq::empty()
                },
        )
    }

    open spec fn format_retries(&self) -> nat {
        self.inner_view().source_retries()
    }

    proof fn streams_match_tracks(&self) {
    }

    fn read_chunk(&mut self, buf: &mut Vec<u8>) -> (r: Result<FormatChunk, PhonicError>) {
        if self.data.tracks.len() != 1 {
            return Err(PhonicError::Unsupported);
        }
        let n = match self.inner.read_bytes(buf) {
            Result::Ok(n) => n,
            Result::Err(e) => {
                return Err(e);
            },
        };
        proof {
            assert(self.streams() =~= old(self).streams().update(
                0,
                old(self).streams()[0].skip(n as int),
            ));
        }
        Ok(FormatChunk::Stream { stream_index: 0, len: n })
    }
}

impl<T: ByteSink> FormatWriter for SingleStreamFormat<T> {
    /// Track zero accumulates the inner stream's bytes; a malformed view
    /// with extra declared tracks accumulates nothing for them.
    open spec fn written_streams(&self) -> Seq<Seq<u8>> {
        Seq::new(
            self.data_view().tracks@.len(),
            |i: int|
                if i == 0 {
                    self.inner_view().written_bytes()
                } else {
                    Seq::empty()
                },
        )
    }

    open spec fn writer_retries(&self) -> nat {
        self.inner_view().sink_retries()
    }

    proof fn written_match_tracks(&self) {
    }

    fn write_chunk(&mut self, stream_index: usize, buf: &Vec<u8>) -> (r: Result<
        usize,
        PhonicError,
    >) {
        if stream_index >= self.data.tracks.len() {
            return Err(PhonicError::NotFound);
        }
        if self.data.tracks.len() != 1 {
            return Err(PhonicError::Unsupported);
        }
        let n = match self.inner.write_bytes(buf) {
            Result::Ok(n) => n,
            Result::Err(e) => {
                return Err(e);
            },
        };
        proof {
            assert(self.written_streams() =~= old(self).written_streams().update(
                0,
                old(self).written_streams()[0] + buf@.take(n as int),
            ));
        }
        Ok(n)
    }

    fn flush_format(&mut self) -> (r: Result<(), PhonicError>) {
        self.inner.flush_bytes()
    }
}

} // verus!
