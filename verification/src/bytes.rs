//! Blocking byte-stream capability contracts, the in-memory source and
//! sink that implement them, and exact-transfer helpers.
//!
//! These traits play the role the standard blocking byte I/O traits play
//! elsewhere: the caller supplies an implementation, and every layer of the
//! library is verified against the models `remaining_bytes` / `written_bytes`.
//! Like the signal traits, each carries a finite allowance of transient
//! failures so that retry loops can be proved terminating.

use vstd::prelude::*;
use crate::error::PhonicError;
use crate::util::byte_buffer;
use crate::util::vec_range;
use crate::util::vec_copy_in;

verus! {

/// A blocking source of bytes.
pub trait ByteSource {
    /// The bytes this source will still deliver, in order.
    spec fn remaining_bytes(&self) -> Seq<u8>;

    /// How many transient failures this source may still report.
    spec fn source_retries(&self) -> nat;

    /// Reads bytes into a prefix of `buf`, returning how many were read;
    /// zero means end of data. A transient failure or a reported end of
    /// stream consumes nothing.
    fn read_bytes(&mut self, buf: &mut Vec<u8>) -> (r: Result<usize, PhonicError>)
        ensures
            final(buf)@.len() == old(buf)@.len(),
            final(self).source_retries() <= old(self).source_retries(),
            match r {
                Result::Ok(n) => {
                    &&& n <= final(buf)@.len()
                    &&& n <= old(self).remaining_bytes().len()
                    &&& final(buf)@.take(n as int) == old(self).remaining_bytes().take(n as int)
                    &&& final(self).remaining_bytes() == old(self).remaining_bytes().skip(n as int)
                },
                Result::Err(e) => {
                    &&& e.is_nonconsuming() ==> final(self).remaining_bytes() == old(
                        self,
                    ).remaining_bytes()
                    &&& e.is_transient() ==> final(self).source_retries() < old(
                        self,
                    ).source_retries()
                },
            },
    ;
}

/// A blocking sink of bytes.
pub trait ByteSink {
    /// The bytes this sink has accepted so far, in order.
    spec fn written_bytes(&self) -> Seq<u8>;

    /// How many transient failures this sink may still report.
    spec fn sink_retries(&self) -> nat;

    /// Writes a prefix of `buf`, returning how many bytes were accepted;
    /// zero means the sink cannot accept any more data. A transient
    /// failure or a reported end of stream accepts nothing.
    fn write_bytes(&mut self, buf: &Vec<u8>) -> (r: Result<usize, PhonicError>)
        ensures
            final(self).sink_retries() <= old(self).sink_retries(),
            match r {
                Result::Ok(n) => {
                    &&& n <= buf@.len()
                    &&& final(self).written_bytes() == old(self).written_bytes() + buf@.take(
                        n as int,
                    )
                },
                Result::Err(e) => {
                    &&& e.is_nonconsuming() ==> final(self).written_bytes() == old(
                        self,
                    ).written_bytes()
                    &&& e.is_transient() ==> final(self).sink_retries() < old(self).sink_retries()
                },
            },
    ;

    /// Commits buffered output.
    fn flush_bytes(&mut self) -> (r: Result<(), PhonicError>)
        ensures
            final(self).sink_retries() <= old(self).sink_retries(),
            final(self).written_bytes() == old(self).written_bytes(),
    ;
}

/// Reads exactly `n` bytes from `src`, retrying `Interrupted` immediately
/// and never surfacing it; a short transfer ends with `EndOfStream`.
/// Reading zero bytes always succeeds.
pub fn byte_read_exact<T: ByteSource>(src: &mut T, n: usize) -> (r: Result<Vec<u8>, PhonicError>)
    ensures
        final(src).source_retries() <= old(src).source_retries(),
        n == 0 ==> r is Ok,
        match r {
            Result::Ok(v) => {
                &&& v@.len() == n
                &&& n <= old(src).remaining_bytes().len()
                &&& v@ == old(src).remaining_bytes().take(n as int)
                &&& final(src).remaining_bytes() == old(src).remaining_bytes().skip(n as int)
            },
            Result::Err(e) => e != PhonicError::Interrupted,
        },
{
    let mut buf = byte_buffer(n);
    let mut filled: usize = 0;
    while filled < n
        invariant
            filled <= n,
            buf@.len() == n,
            src.source_retries() <= old(src).source_retries(),
            filled <= old(src).remaining_bytes().len(),
            buf@.take(filled as int) == old(src).remaining_bytes().take(filled as int),
            src.remaining_bytes() == old(src).remaining_bytes().skip(filled as int),
        decreases n - filled, src.source_retries(),
    {
        let mut tmp = vec_range(&buf, filled, n);
        match src.read_bytes(&mut tmp) {
            Result::Ok(0) => {
                return Err(PhonicError::EndOfStream);
            },
            Result::Ok(k) => {
                vec_copy_in(&mut buf, filled, &tmp, k);
                proof {
                    assert(buf@.take(filled + k as int) =~= old(src).remaining_bytes().take(
                        filled + k as int,
                    ));
                    assert(src.remaining_bytes() =~= old(src).remaining_bytes().skip(
                        filled + k as int,
                    ));
                }
                filled = filled + k;
            },
            Result::Err(e) => {
                if e != PhonicError::Interrupted {
                    return Err(e);
                }
            },
        }
    }
    proof {
        assert(buf@ =~= buf@.take(n as int));
    }
    Ok(buf)
}

/// Writes all of `buf` to `sink`, retrying `Interrupted` immediately and
/// never surfacing it; a sink that cannot absorb everything ends with
/// `EndOfStream`. An empty buffer always succeeds.
pub fn byte_write_exact<T: ByteSink>(sink: &mut T, buf: &Vec<u8>) -> (r: Result<(), PhonicError>)
    ensures
        final(sink).sink_retries() <= old(sink).sink_retries(),
        buf@.len() == 0 ==> r is Ok,
        r matches Result::Err(e) ==> e != PhonicError::Interrupted,
        r is Ok ==> final(sink).written_bytes() == old(sink).written_bytes() + buf@,
{
    let total = buf.len();
    let mut sent: usize = 0;
    while sent < total
        invariant
            sent <= total,
            total == buf@.len(),
            sink.sink_retries() <= old(sink).sink_retries(),
            sink.written_bytes() == old(sink).written_bytes() + buf@.take(sent as int),
        decreases total - sent, sink.sink_retries(),
    {
        let tmp = vec_range(buf, sent, total);
        match sink.write_bytes(&tmp) {
            Result::Ok(0) => {
                return Err(PhonicError::EndOfStream);
            },
            Result::Ok(k) => {
                proof {
                    assert(old(sink).written_bytes() + buf@.take(sent as int) + tmp@.take(k as int)
                        =~= old(sink).written_bytes() + buf@.take(sent + k as int));
                }
                sent = sent + k;
            },
            Result::Err(e) => {
                if e != PhonicError::Interrupted {
                    return Err(e);
                }
            },
        }
    }
    proof {
        assert(buf@.take(total as int) =~= buf@);
    }
    Ok(())
}

/// An in-memory byte source: a buffer and a cursor, delivering the bytes
/// after the cursor and never failing.
pub struct MemSource {
    data: Vec<u8>,
    pos: usize,
}

impl MemSource {
    /// A source that will deliver exactly the bytes of `data`.
    pub fn new(data: Vec<u8>) -> (r: Self)
        ensures
            r.remaining_bytes() == data@,
    {
        MemSource { data, pos: 0 }
    }
}

impl ByteSource for MemSource {
    closed spec fn remaining_bytes(&self) -> Seq<u8> {
        if self.pos <= self.data@.len() {
            self.data@.skip(self.pos as int)
        } else {
            Seq::empty()
        }
    }

    closed spec fn source_retries(&self) -> nat {
        0
    }

    fn read_bytes(&mut self, buf: &mut Vec<u8>) -> (r: Result<usize, PhonicError>)
        ensures
            r matches Result::Ok(n) && n == if old(buf)@.len() <= old(self).remaining_bytes().len() {
                old(buf)@.len()
            } else {
                old(self).remaining_bytes().len()
            },
    {
        let len = self.data.len();
        let avail = if self.pos < len {
            len - self.pos
        } else {
            0
        };
        let n = if buf.len() < avail {
            buf.len()
        } else {
            avail
        };
        let mut i: usize = 0;
        while i < n
            invariant
                n <= buf@.len(),
                len == self.data@.len(),
                n == 0 || self.pos + n <= len,
                i <= n,
                buf@.len() == old(buf)@.len(),
                self == old(self),
                forall|j: int| 0 <= j < i ==> buf@[j] == self.data@[self.pos + j],
            decreases n - i,
        {
            let b = self.data[self.pos + i];
            buf.set(i, b);
            i = i + 1;
        }
        proof {
            assert(buf@.take(n as int) =~= old(self).remaining_bytes().take(n as int));
        }
        self.pos = self.pos + n;
        proof {
            assert(self.remaining_bytes() =~= old(self).remaining_bytes().skip(n as int));
        }
        Ok(n)
    }
}

/// A source that reports a bounded number of transient interruptions
/// before delivering anything; after that it behaves as the wrapped
/// source. It gives retry loops something to retry.
pub struct HiccupSource<T> {
    inner: T,
    hiccups: u32,
}

impl<T> HiccupSource<T> {
    /// The wrapped source, as an abstract value.
    pub closed spec fn inner_view(&self) -> T {
        self.inner
    }

    /// How many interruptions are still pending.
    pub closed spec fn hiccups_view(&self) -> nat {
        self.hiccups as nat
    }

    /// Wraps `inner`; the first `hiccups` reads fail with `Interrupted`.
    pub fn new(inner: T, hiccups: u32) -> (r: Self)
        ensures
            r.inner_view() == inner,
            r.hiccups_view() == hiccups as nat,
    {
        HiccupSource { inner, hiccups }
    }
}

impl<T: ByteSource> ByteSource for HiccupSource<T> {
    open spec fn remaining_bytes(&self) -> Seq<u8> {
        self.inner_view().remaining_bytes()
    }

    open spec fn source_retries(&self) -> nat {
        self.inner_view().source_retries() + self.hiccups_view()
    }

    fn read_bytes(&mut self, buf: &mut Vec<u8>) -> (r: Result<usize, PhonicError>) {
        if self.hiccups > 0 {
            self.hiccups = self.hiccups - 1;
            return Err(PhonicError::Interrupted);
        }
        self.inner.read_bytes(buf)
    }
}

/// An in-memory byte sink: accepts every byte offered and never fails.
pub struct MemSink {
    data: Vec<u8>,
}

impl MemSink {
    /// An empty sink.
    pub fn new() -> (r: Self)
        ensures
            r.written_bytes() == Seq::<u8>::empty(),
    {
        MemSink { data: Vec::new() }
    }

    /// The bytes accepted so far.
    pub fn data(&self) -> (r: &Vec<u8>)
        ensures
            r@ == self.written_bytes(),
    {
        &self.data
    }

    /// The bytes accepted so far, surrendering the sink.
    pub fn into_data(self) -> (r: Vec<u8>)
        ensures
            r@ == self.written_bytes(),
    {
        self.data
    }
}

impl ByteSink for MemSink {
    closed spec fn written_bytes(&self) -> Seq<u8> {
        self.data@
    }

    closed spec fn sink_retries(&self) -> nat {
        0
    }

    fn write_bytes(&mut self, buf: &Vec<u8>) -> (r: Result<usize, PhonicError>)
        ensures
            r == Result::<usize, PhonicError>::Ok(buf@.len() as usize),
    {
        let n = buf.len();
        let mut i: usize = 0;
        while i < n
            invariant
                n == buf@.len(),
                i <= n,
                self.data@ == old(self).data@ + buf@.take(i as int),
            decreases n - i,
        {
            self.data.push(buf[i]);
            proof {
                assert(self.data@ =~= old(self).data@ + buf@.take(i + 1 as int));
            }
            i = i + 1;
        }
        Ok(n)
    }

    fn flush_bytes(&mut self) -> (r: Result<(), PhonicError>) {
        Ok(())
    }
}

} // verus!
