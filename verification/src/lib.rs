//! Core of an audio I/O library: typed sample streams ("signals"),
//! encoded container streams ("tracks"), and the verified machinery that
//! moves bytes between them.
//!
//! The crate is organised leaves-first:
//! - [`error`]: the error taxonomy shared by every fallible operation.
//! - [`util`]: buffer and little-endian helpers.
//! - [`sample`]: fixed-width samples and their byte encoding.
//! - [`signal`]: channel masks, signal specifications and the signal
//!   reader/writer capability contracts.
//! - [`stream`]: per-track stream specifications and codec tags.
//! - [`bytes`]: blocking byte-stream capability contracts and in-memory
//!   sources/sinks.
//! - [`pcm`]: the PCM codec between byte streams and typed sample streams,
//!   with its alignment-safe byte facade.
//! - [`format`]: chunked multi-track container contracts and the
//!   single-track adapter.
//! - [`wave`]: the WAVE container: header parsing/emission and bounded,
//!   block-aligned payload I/O.
//! - [`selector`]: demultiplexing one track out of a chunked container.
//! - [`known`]: format tag resolution from file extensions, MIME types and
//!   magic markers, and dynamic construction of containers.
//! - [`transfer`]: the reader-to-writer copy loop.

pub mod error;
pub mod util;
pub mod sample;
pub mod signal;
pub mod stream;
pub mod bytes;
pub mod pcm;
pub mod format;
pub mod known;
pub mod wave;
pub mod selector;
pub mod transfer;

pub use error::PhonicError;
pub use sample::Sample;
pub use signal::Channels;
pub use signal::ChannelLayout;
pub use signal::SignalSpec;
pub use signal::SignalSpecBuilder;
pub use signal::Signal;
pub use signal::SignalReader;
pub use signal::SignalWriter;
pub use signal::ChannelsAdapter;
pub use stream::KnownCodec;
pub use stream::Ratio;
pub use stream::StreamSpec;
pub use stream::StreamSpecBuilder;
pub use stream::Stream;
pub use bytes::ByteSource;
pub use bytes::ByteSink;
pub use bytes::MemSource;
pub use bytes::MemSink;
pub use bytes::HiccupSource;
pub use pcm::PcmCodec;
pub use pcm::fill_pcm_stream_spec;
pub use pcm::lemma_pcm_signal_spec;
pub use wave::WaveFmtChunk;
pub use wave::WaveDataChunk;
pub use wave::WaveHeader;
pub use wave::WaveFormat;
pub use wave::WaveFormatTag;
pub use wave::fill_wave_format_data;
pub use wave::wave_identifiers;
pub use format::FormatData;
pub use format::FormatChunk;
pub use format::Format;
pub use format::FormatReader;
pub use format::FormatWriter;
pub use format::SingleStreamFormat;
pub use selector::StreamSelector;
pub use known::KnownFormat;
pub use known::KnownFormatReader;
pub use known::FormatIdentifier;
pub use known::FormatIdentifiers;
pub use transfer::copy;
