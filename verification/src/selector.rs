//! Stream selection: demultiplexing one logical track out of a shared
//! chunked container.
//!
//! A [`StreamSelector`] binds one track index of a chunked container and
//! then behaves as a plain byte stream for that track alone: its read
//! discards every chunk tagged with another index and only ever surfaces
//! bytes of the bound track; its write wraps the caller's bytes in a chunk
//! tagged with the bound index and forwards it unchanged.

use vstd::prelude::*;
use crate::error::PhonicError;
use crate::bytes::ByteSource;
use crate::bytes::ByteSink;
use crate::format::Format;
use crate::format::FormatReader;
use crate::format::FormatWriter;
use crate::format::FormatChunk;
use crate::stream::StreamSpecBuilder;

verus! {

/// The total number of bytes a chunked reader still holds across all its
/// tracks.
pub open spec fn seq_total_len(ss: Seq<Seq<u8>>) -> nat
    decreases ss.len(),
{
    if ss.len() == 0 {
        0
    } else {
        ss[0].len() + seq_total_len(ss.drop_first())
    }
}

/// Replacing one track's bytes changes the total by exactly the
/// difference of that track.
pub proof fn lemma_total_update(ss: Seq<Seq<u8>>, j: int, v: Seq<u8>)
    requires
        0 <= j < ss.len(),
    ensures
        seq_total_len(ss.update(j, v)) == seq_total_len(ss) - ss[j].len() + v.len(),
    decreases ss.len(),
{
    if j == 0 {
        assert(ss.update(0, v).drop_first() =~= ss.drop_first());
    } else {
        assert(ss.update(j, v).drop_first() =~= ss.drop_first().update(j - 1, v));
        lemma_total_update(ss.drop_first(), j - 1, v);
    }
}

/// The bytes still held by every track but `i`.
pub open spec fn total_except(ss: Seq<Seq<u8>>, i: int) -> nat {
    seq_total_len(ss.update(i, Seq::empty()))
}

/// A byte-stream view of one track of a chunked container.
pub struct StreamSelector<F: Format> {
    inner: F,
    stream_i: usize,
}

impl<F: Format> StreamSelector<F> {
    /// The wrapped container, as an abstract value.
    pub closed spec fn inner_view(&self) -> F {
        self.inner
    }

    /// The bound track index.
    pub closed spec fn index_view(&self) -> int {
        self.stream_i as int
    }

    /// Binds track `stream_i` of `inner`; an index at or past the
    /// declared track count is `NotFound`.
    pub fn new(inner: F, stream_i: usize) -> (r: Result<Self, PhonicError>)
        ensures
            (stream_i as int) < inner.data_view().tracks@.len() ==> (r matches Result::Ok(s)
                && s.inner_view() == inner && s.index_view() == stream_i as int),
            (stream_i as int) >= inner.data_view().tracks@.len() ==> r == Result::<
                StreamSelector<F>,
                PhonicError,
            >::Err(PhonicError::NotFound),
    {
        if inner.data().tracks.len() <= stream_i {
            return Err(PhonicError::NotFound);
        }
        Ok(StreamSelector { inner, stream_i })
    }

    /// The wrapped container, surrendering the selector.
    pub fn into_inner(self) -> (r: F)
        ensures
            r == self.inner_view(),
    {
        self.inner
    }

    /// The bound track's partial descriptor, if the container still
    /// declares that track.
    pub fn track(&self) -> (r: Option<&StreamSpecBuilder>)
        ensures
            self.index_view() < self.inner_view().data_view().tracks@.len() ==> (r matches Some(t)
                && *t == self.inner_view().data_view().tracks@[self.index_view()]),
            self.index_view() >= self.inner_view().data_view().tracks@.len() ==> r is None,
    {
        let tracks = &self.inner.data().tracks;
        if self.stream_i < tracks.len() {
            Some(&tracks[self.stream_i])
        } else {
            None
        }
    }
}

impl<F: FormatReader> ByteSource for StreamSelector<F> {
    /// Exactly the bound track's bytes: no other track's data is ever
    /// surfaced.
    open spec fn remaining_bytes(&self) -> Seq<u8> {
        self.inner_view().streams()[self.index_view()]
    }

    open spec fn source_retries(&self) -> nat {
        self.inner_view().format_retries()
    }

    fn read_bytes(&mut self, buf: &mut Vec<u8>) -> (r: Result<usize, PhonicError>) {
        if self.stream_i >= self.inner.data().tracks.len() {
            return Err(PhonicError::NotFound);
        }
        proof {
            self.inner.streams_match_tracks();
        }
        loop
            invariant
                buf@.len() == old(buf)@.len(),
                self.index_view() == old(self).index_view(),
                self.inner.data_view() == old(self).inner_view().data_view(),
                self.inner.streams().len() == old(self).inner_view().streams().len(),
                self.index_view() < self.inner.streams().len(),
                self.inner.streams()[self.index_view()] == old(self).remaining_bytes(),
                self.source_retries() <= old(self).source_retries(),
            decreases total_except(self.inner.streams(), self.index_view()),
        {
            let ghost ss0 = self.inner.streams();
            let chunk = match self.inner.read_chunk(buf) {
                Result::Ok(c) => c,
                Result::Err(e) => {
                    return Err(e);
                },
            };
            let (chunk_i, n) = match chunk {
                FormatChunk::Stream { stream_index, len } => (stream_index, len),
            };
            proof {
                lemma_total_update(ss0, chunk_i as int, ss0[chunk_i as int].skip(n as int));
                if chunk_i as int != self.index_view() {
                    assert(self.inner.streams().update(self.index_view(), Seq::empty()) =~= ss0
                        .update(self.index_view(), Seq::empty()).update(
                        chunk_i as int,
                        ss0[chunk_i as int].skip(n as int),
                    ));
                    lemma_total_update(
                        ss0.update(self.index_view(), Seq::empty()),
                        chunk_i as int,
                        ss0[chunk_i as int].skip(n as int),
                    );
                } else {
                    assert(self.inner.streams().update(self.index_view(), Seq::empty()) =~= ss0
                        .update(self.index_view(), Seq::empty()));
                }
            }
            if chunk_i == self.stream_i {
                return Ok(n);
            }
            if n == 0 {
                proof {
                    assert(ss0[chunk_i as int].skip(0) =~= ss0[chunk_i as int]);
                    assert(self.inner.streams() =~= ss0);
                }
                return Ok(0);
            }
        }
    }
}

impl<F: FormatWriter> ByteSink for StreamSelector<F> {
    /// Exactly the bound track's accepted bytes.
    open spec fn written_bytes(&self) -> Seq<u8> {
        self.inner_view().written_streams()[self.index_view()]
    }

    open spec fn sink_retries(&self) -> nat {
        self.inner_view().writer_retries()
    }

    fn write_bytes(&mut self, buf: &Vec<u8>) -> (r: Result<usize, PhonicError>) {
        proof {
            self.inner.written_match_tracks();
        }
        if self.stream_i >= self.inner.data().tracks.len() {
            return Err(PhonicError::NotFound);
        }
        match self.inner.write_chunk(self.stream_i, buf) {
            Result::Ok(n) => Ok(n),
            Result::Err(e) => Err(e),
        }
    }

    fn flush_bytes(&mut self) -> (r: Result<(), PhonicError>) {
        self.inner.flush_format()
    }
}

} // verus!
