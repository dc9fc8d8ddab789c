//! The transfer utility: drives a signal reader into a signal writer to
//! completion.

use vstd::prelude::*;
use crate::error::PhonicError;
use crate::sample::Sample;
use crate::signal::Signal;
use crate::signal::SignalReader;
use crate::signal::SignalWriter;
use crate::util::vec_range;

verus! {

/// Copies samples from `reader` to `writer` through `buffer` until the
/// reader's data ends.
///
/// Mismatched specifications fail with `SignalMismatch` before any I/O
/// happens. The loop treats both a zero-sample read and `EndOfStream` as a
/// clean end, retries `Interrupted` and `NotReady` from the reader, and
/// forwards every successful read in full. On success the writer has
/// accepted exactly the samples the reader gave up, in order and without
/// loss in between: what the reader consumed and what the writer accepted
/// are the same prefix of the reader's data. `Interrupted` is never
/// surfaced. Nothing is flushed: the flush lifecycle stays with the
/// caller.
pub fn copy<S: Sample, R: SignalReader<Sample = S>, W: SignalWriter<Sample = S>>(
    reader: &mut R,
    writer: &mut W,
    buffer: &mut Vec<S>,
) -> (r: Result<(), PhonicError>)
    ensures
        final(reader).spec_view() == old(reader).spec_view(),
        final(writer).spec_view() == old(writer).spec_view(),
        final(buffer)@.len() == old(buffer)@.len(),
        old(reader).spec_view() != old(writer).spec_view() ==> {
            &&& r == Result::<(), PhonicError>::Err(PhonicError::SignalMismatch)
            &&& *final(reader) == *old(reader)
            &&& *final(writer) == *old(writer)
            &&& *final(buffer) == *old(buffer)
        },
        r matches Result::Err(e) ==> e != PhonicError::Interrupted,
        r is Ok ==> {
            let consumed = old(reader).remaining().len() - final(reader).remaining().len();
            &&& old(reader).spec_view() == old(writer).spec_view()
            &&& 0 <= consumed <= old(reader).remaining().len()
            &&& final(reader).remaining() == old(reader).remaining().skip(consumed)
            &&& final(writer).written() == old(writer).written() + old(reader).remaining().take(
                consumed,
            )
        },
{
    let rspec = reader.signal_spec();
    let wspec = writer.signal_spec();
    if rspec != wspec {
        return Err(PhonicError::SignalMismatch);
    }
    let ghost mut consumed: int = 0;
    loop
        invariant
            reader.spec_view() == old(reader).spec_view(),
            writer.spec_view() == old(writer).spec_view(),
            buffer@.len() == old(buffer)@.len(),
            old(reader).spec_view() == old(writer).spec_view(),
            reader.read_retries() <= old(reader).read_retries(),
            0 <= consumed <= old(reader).remaining().len(),
            reader.remaining() == old(reader).remaining().skip(consumed),
            writer.written() == old(writer).written() + old(reader).remaining().take(consumed),
        decreases reader.remaining().len(), reader.read_retries(),
    {
        let n = match reader.read(buffer) {
            Result::Ok(n) => n,
            Result::Err(e) => {
                if e == PhonicError::EndOfStream {
                    return Ok(());
                }
                if e == PhonicError::Interrupted || e == PhonicError::NotReady {
                    continue ;
                }
                return Err(e);
            },
        };
        if n == 0 {
            proof {
                assert(reader.remaining() =~= old(reader).remaining().skip(consumed));
            }
            return Ok(());
        }
        let chunk = vec_range(buffer, 0, n);
        match writer.write_exact(&chunk) {
            Result::Ok(_) => {},
            Result::Err(e) => {
                return Err(e);
            },
        }
        proof {
            assert(old(writer).written() + old(reader).remaining().take(consumed) + old(
                reader,
            ).remaining().skip(consumed).take(n as int) =~= old(writer).written() + old(
                reader,
            ).remaining().take(consumed + n));
            assert(reader.remaining() =~= old(reader).remaining().skip(consumed + n));
            consumed = consumed + n;
        }
    }
}

} // verus!
