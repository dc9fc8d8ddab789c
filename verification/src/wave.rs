//! The WAVE container: canonical header parsing and emission, bounded
//! block-aligned payload I/O, the static identifier table, and the
//! conversion to a generic single-track format view.
//!
//! A WAVE stream is the RIFF magic, a 44-byte canonical header carrying
//! the `fmt ` sub-chunk (channel count, sample rate, bit depth, block
//! alignment) and the `data` sub-chunk's declared byte length, followed by
//! payload bytes. Payload I/O never crosses the declared byte length and
//! every transferred count must be a multiple of the block alignment; a
//! transfer that breaks alignment is a fatal `InvalidData`.

use vstd::prelude::*;
use crate::error::PhonicError;
use crate::bytes::ByteSource;
use crate::bytes::ByteSink;
use crate::bytes::byte_read_exact;
use crate::bytes::byte_write_exact;
use crate::format::FormatData;
use crate::format::Format;
use crate::format::SingleStreamFormat;
use crate::known::KnownFormat;
use crate::known::FormatIdentifiers;
use crate::signal::Channels;
use crate::signal::SignalSpec;
use crate::stream::KnownCodec;
use crate::stream::StreamSpecBuilder;
use crate::util::le16_bytes;
use crate::util::le32_bytes;
use crate::util::u16_from_le;
use crate::util::u32_from_le;
use crate::util::lemma_le16_round_trip;
use crate::util::lemma_le32_round_trip;
use crate::util::push_u16_le;
use crate::util::push_u32_le;
use crate::util::read_u16_le;
use crate::util::read_u32_le;
use crate::util::vec_range;
use crate::util::vec_copy_in;
use crate::util::lemma_round_down_mult;

verus! {

/// The `fmt ` sub-chunk: how the payload's samples are laid out.
#[derive(Debug, Clone, Copy, PartialEq, Eq, Structural)]
pub struct WaveFmtChunk {
    /// The number of interleaved channels.
    pub n_channels: u16,
    /// The number of frames per second.
    pub sample_rate: u32,
    /// The bit depth of one sample.
    pub bits_per_sample: u16,
    /// The byte size of one frame; every payload transfer is a multiple.
    pub block_align: u16,
}

/// The `data` sub-chunk: the declared payload length in bytes.
#[derive(Debug, Clone, Copy, PartialEq, Eq, Structural)]
pub struct WaveDataChunk {
    pub byte_len: u32,
}

/// The parsed canonical WAVE header.
#[derive(Debug, Clone, Copy, PartialEq, Eq, Structural)]
pub struct WaveHeader {
    pub fmt: WaveFmtChunk,
    pub data: WaveDataChunk,
}

/// The RIFF chunk size declared in an emitted header: the payload length
/// plus the 36 header bytes that follow the size field, wrapped to 32
/// bits.
pub open spec fn wave_riff_size(byte_len: u32) -> u32 {
    ((36 + byte_len as int) % 0x1_0000_0000) as u32
}

/// The byte rate declared in an emitted header: sample rate times block
/// alignment, wrapped to 32 bits.
pub open spec fn wave_byte_rate(fmt: WaveFmtChunk) -> u32 {
    (((fmt.sample_rate as int) * (fmt.block_align as int)) % 0x1_0000_0000) as u32
}

/// The 44 bytes of the emitted canonical header.
pub open spec fn header_bytes_spec(h: WaveHeader) -> Seq<u8> {
    seq![0x52u8, 0x49u8, 0x46u8, 0x46u8] + le32_bytes(wave_riff_size(h.data.byte_len)) + seq![
        0x57u8,
        0x41u8,
        0x56u8,
        0x45u8,
    ] + seq![0x66u8, 0x6du8, 0x74u8, 0x20u8] + le32_bytes(16u32) + le16_bytes(1u16) + le16_bytes(
        h.fmt.n_channels,
    ) + le32_bytes(h.fmt.sample_rate) + le32_bytes(wave_byte_rate(h.fmt)) + le16_bytes(
        h.fmt.block_align,
    ) + le16_bytes(h.fmt.bits_per_sample) + seq![0x64u8, 0x61u8, 0x74u8, 0x61u8] + le32_bytes(
        h.data.byte_len,
    )
}

/// What parsing 44 header bytes yields: the header's fields, or nothing
/// when the stream does not carry the RIFF/WAVE magic and the `fmt ` and
/// `data` markers where the canonical layout puts them.
pub open spec fn parse_header_spec(b: Seq<u8>) -> Option<WaveHeader> {
    if b.len() < 44 {
        Option::None
    } else if b[0] != 0x52u8 || b[1] != 0x49u8 || b[2] != 0x46u8 || b[3] != 0x46u8 || b[8] != 0x57u8 || b[9]
        != 0x41u8 || b[10] != 0x56u8 || b[11] != 0x45u8 || b[12] != 0x66u8 || b[13] != 0x6du8 || b[14]
        != 0x74u8 || b[15] != 0x20u8 || b[36] != 0x64u8 || b[37] != 0x61u8 || b[38] != 0x74u8 || b[39]
        != 0x61u8 {
        Option::None
    } else {
        Option::Some(
            WaveHeader {
                fmt: WaveFmtChunk {
                    n_channels: u16_from_le(b[22], b[23]),
                    sample_rate: u32_from_le(b[24], b[25], b[26], b[27]),
                    bits_per_sample: u16_from_le(b[34], b[35]),
                    block_align: u16_from_le(b[32], b[33]),
                },
                data: WaveDataChunk { byte_len: u32_from_le(b[40], b[41], b[42], b[43]) },
            },
        )
    }
}

/// Parsing an emitted header reproduces every field of the header.
pub proof fn lemma_wave_header_round_trip(h: WaveHeader)
    ensures
        parse_header_spec(header_bytes_spec(h)) == Option::Some(h),
{
    let b = header_bytes_spec(h);
    assert(b.len() == 44);
    lemma_le16_round_trip(h.fmt.n_channels);
    lemma_le16_round_trip(h.fmt.block_align);
    lemma_le16_round_trip(h.fmt.bits_per_sample);
    lemma_le32_round_trip(h.fmt.sample_rate);
    lemma_le32_round_trip(h.data.byte_len);
    assert(b[0] == 0x52u8 && b[1] == 0x49u8 && b[2] == 0x46u8 && b[3] == 0x46u8);
    assert(b[8] == 0x57u8 && b[9] == 0x41u8 && b[10] == 0x56u8 && b[11] == 0x45u8);
    assert(b[12] == 0x66u8 && b[13] == 0x6du8 && b[14] == 0x74u8 && b[15] == 0x20u8);
    assert(b[36] == 0x64u8 && b[37] == 0x61u8 && b[38] == 0x74u8 && b[39] == 0x61u8);
    assert(b[22] == le16_bytes(h.fmt.n_channels)[0] && b[23] == le16_bytes(h.fmt.n_channels)[1]);
    assert(b[24] == le32_bytes(h.fmt.sample_rate)[0] && b[25] == le32_bytes(h.fmt.sample_rate)[1]
        && b[26] == le32_bytes(h.fmt.sample_rate)[2] && b[27] == le32_bytes(h.fmt.sample_rate)[3]);
    assert(b[32] == le16_bytes(h.fmt.block_align)[0] && b[33] == le16_bytes(h.fmt.block_align)[1]);
    assert(b[34] == le16_bytes(h.fmt.bits_per_sample)[0] && b[35] == le16_bytes(
        h.fmt.bits_per_sample,
    )[1]);
    assert(b[40] == le32_bytes(h.data.byte_len)[0] && b[41] == le32_bytes(h.data.byte_len)[1]
        && b[42] == le32_bytes(h.data.byte_len)[2] && b[43] == le32_bytes(h.data.byte_len)[3]);
}

/// A WAVE stream written as an emitted header followed by payload bytes
/// reads back exactly: the first 44 bytes parse to the same header, and
/// the payload follows them unchanged.
pub proof fn lemma_wave_stream_round_trip(h: WaveHeader, payload: Seq<u8>)
    ensures
        ({
            let stream = header_bytes_spec(h) + payload;
            &&& stream.take(44) == header_bytes_spec(h)
            &&& parse_header_spec(stream.take(44)) == Option::Some(h)
            &&& stream.skip(44) == payload
        }),
{
    lemma_wave_header_round_trip(h);
    let stream = header_bytes_spec(h) + payload;
    assert(stream.take(44) =~= header_bytes_spec(h));
    assert(stream.skip(44) =~= payload);
}

impl WaveHeader {
    /// The 44 emitted bytes of this header.
    pub fn bytes(&self) -> (r: Vec<u8>)
        ensures
            r@ == header_bytes_spec(*self),
    {
        let riff_size = ((36u64 + self.data.byte_len as u64) % 0x1_0000_0000u64) as u32;
        proof {
            assert((self.fmt.sample_rate as int) * (self.fmt.block_align as int) <= 0xffff_ffff
                * 0xffff) by (nonlinear_arith)
                requires
                    self.fmt.sample_rate <= 0xffff_ffffu32 && self.fmt.block_align <= 0xffffu16,
            ;
        }
        let byte_rate = ((self.fmt.sample_rate as u64 * self.fmt.block_align as u64)
            % 0x1_0000_0000u64) as u32;
        let mut v: Vec<u8> = Vec::new();
        v.push(0x52u8);
        v.push(0x49u8);
        v.push(0x46u8);
        v.push(0x46u8);
        push_u32_le(&mut v, riff_size);
        v.push(0x57u8);
        v.push(0x41u8);
        v.push(0x56u8);
        v.push(0x45u8);
        v.push(0x66u8);
        v.push(0x6du8);
        v.push(0x74u8);
        v.push(0x20u8);
        push_u32_le(&mut v, 16u32);
        push_u16_le(&mut v, 1u16);
        push_u16_le(&mut v, self.fmt.n_channels);
        push_u32_le(&mut v, self.fmt.sample_rate);
        push_u32_le(&mut v, byte_rate);
        push_u16_le(&mut v, self.fmt.block_align);
        push_u16_le(&mut v, self.fmt.bits_per_sample);
        v.push(0x64u8);
        v.push(0x61u8);
        v.push(0x74u8);
        v.push(0x61u8);
        push_u32_le(&mut v, self.data.byte_len);
        proof {
            assert(v@ =~= header_bytes_spec(*self));
        }
        v
    }

    /// Parses 44 header bytes.
    pub fn parse(b: &Vec<u8>) -> (r: Option<WaveHeader>)
        ensures
            r == parse_header_spec(b@),
    {
        if b.len() < 44 {
            return None;
        }
        if b[0] != 0x52u8 || b[1] != 0x49u8 || b[2] != 0x46u8 || b[3] != 0x46u8 || b[8] != 0x57u8 || b[9]
            != 0x41u8 || b[10] != 0x56u8 || b[11] != 0x45u8 || b[12] != 0x66u8 || b[13] != 0x6du8 || b[14]
            != 0x74u8 || b[15] != 0x20u8 || b[36] != 0x64u8 || b[37] != 0x61u8 || b[38] != 0x74u8 || b[39]
            != 0x61u8 {
            return None;
        }
        Some(
            WaveHeader {
                fmt: WaveFmtChunk {
                    n_channels: read_u16_le(b, 22),
                    sample_rate: read_u32_le(b, 24),
                    bits_per_sample: read_u16_le(b, 34),
                    block_align: read_u16_le(b, 32),
                },
                data: WaveDataChunk { byte_len: read_u32_le(b, 40) },
            },
        )
    }

    /// Reads and parses the header from a byte source, consuming exactly
    /// 44 bytes on success; a stream without the magic markers is
    /// `InvalidData`.
    pub fn read<T: ByteSource>(src: &mut T) -> (r: Result<WaveHeader, PhonicError>)
        ensures
            final(src).source_retries() <= old(src).source_retries(),
            match r {
                Result::Ok(h) => {
                    &&& 44 <= old(src).remaining_bytes().len()
                    &&& parse_header_spec(old(src).remaining_bytes().take(44)) == Option::Some(h)
                    &&& final(src).remaining_bytes() == old(src).remaining_bytes().skip(44)
                },
                Result::Err(_) => true,
            },
    {
        let bytes = match byte_read_exact(src, 44) {
            Result::Ok(v) => v,
            Result::Err(e) => {
                return Err(e);
            },
        };
        match WaveHeader::parse(&bytes) {
            Option::Some(h) => Ok(h),
            Option::None => Err(PhonicError::InvalidData),
        }
    }

    /// Serializes the header to a byte sink.
    pub fn write<T: ByteSink>(&self, sink: &mut T) -> (r: Result<(), PhonicError>)
        ensures
            final(sink).sink_retries() <= old(sink).sink_retries(),
            r is Ok ==> final(sink).written_bytes() == old(sink).written_bytes()
                + header_bytes_spec(*self),
    {
        let bytes = self.bytes();
        byte_write_exact(sink, &bytes)
    }
}

/// The file extensions that identify WAVE: `wav` and `wave`.
pub open spec fn wave_extensions_spec() -> Seq<Seq<u8>> {
    seq![seq![0x77u8, 0x61u8, 0x76u8], seq![0x77u8, 0x61u8, 0x76u8, 0x65u8]]
}

/// The MIME types that identify WAVE.
pub open spec fn wave_mime_types_spec() -> Seq<Seq<u8>> {
    seq![
        seq![0x61u8, 0x75u8, 0x64u8, 0x69u8, 0x6fu8, 0x2fu8, 0x76u8, 0x6eu8, 0x64u8, 0x2eu8, 0x77u8, 0x61u8, 0x76u8, 0x65u8],
        seq![0x61u8, 0x75u8, 0x64u8, 0x69u8, 0x6fu8, 0x2fu8, 0x78u8, 0x2du8, 0x77u8, 0x61u8, 0x76u8],
        seq![0x61u8, 0x75u8, 0x64u8, 0x69u8, 0x6fu8, 0x2fu8, 0x77u8, 0x61u8, 0x76u8],
        seq![0x61u8, 0x75u8, 0x64u8, 0x69u8, 0x6fu8, 0x2fu8, 0x77u8, 0x61u8, 0x76u8, 0x65u8],
    ]
}

/// The magic markers that identify WAVE: `RIFF` and `WAVE`.
pub open spec fn wave_markers_spec() -> Seq<Seq<u8>> {
    seq![seq![0x52u8, 0x49u8, 0x46u8, 0x46u8], seq![0x57u8, 0x41u8, 0x56u8, 0x45u8]]
}

/// The static identifier table of the WAVE format.
pub fn wave_identifiers() -> (r: FormatIdentifiers)
    ensures
        crate::known::id_list_view(r.file_extensions@) == wave_extensions_spec(),
        crate::known::id_list_view(r.mime_types@) == wave_mime_types_spec(),
        crate::known::id_list_view(r.markers@) == wave_markers_spec(),
{
    let mut ext_wav: Vec<u8> = Vec::new();
    ext_wav.push(0x77u8);
    ext_wav.push(0x61u8);
    ext_wav.push(0x76u8);
    let mut ext_wave: Vec<u8> = Vec::new();
    ext_wave.push(0x77u8);
    ext_wave.push(0x61u8);
    ext_wave.push(0x76u8);
    ext_wave.push(0x65u8);
    let mut file_extensions: Vec<Vec<u8>> = Vec::new();
    file_extensions.push(ext_wav);
    file_extensions.push(ext_wave);

    let mut audio: Vec<u8> = Vec::new();
    audio.push(0x61u8);
    audio.push(0x75u8);
    audio.push(0x64u8);
    audio.push(0x69u8);
    audio.push(0x6fu8);
    audio.push(0x2fu8);
    let mut mime_vnd = audio.clone();
    mime_vnd.push(0x76u8);
    mime_vnd.push(0x6eu8);
    mime_vnd.push(0x64u8);
    mime_vnd.push(0x2eu8);
    mime_vnd.push(0x77u8);
    mime_vnd.push(0x61u8);
    mime_vnd.push(0x76u8);
    mime_vnd.push(0x65u8);
    let mut mime_x = audio.clone();
    mime_x.push(0x78u8);
    mime_x.push(0x2du8);
    mime_x.push(0x77u8);
    mime_x.push(0x61u8);
    mime_x.push(0x76u8);
    let mut mime_wav = audio.clone();
    mime_wav.push(0x77u8);
    mime_wav.push(0x61u8);
    mime_wav.push(0x76u8);
    let mut mime_wave = audio;
    mime_wave.push(0x77u8);
    mime_wave.push(0x61u8);
    mime_wave.push(0x76u8);
    mime_wave.push(0x65u8);
    let mut mime_types: Vec<Vec<u8>> = Vec::new();
    mime_types.push(mime_vnd);
    mime_types.push(mime_x);
    mime_types.push(mime_wav);
    mime_types.push(mime_wave);

    let mut marker_riff: Vec<u8> = Vec::new();
    marker_riff.push(0x52u8);
    marker_riff.push(0x49u8);
    marker_riff.push(0x46u8);
    marker_riff.push(0x46u8);
    let mut marker_wave: Vec<u8> = Vec::new();
    marker_wave.push(0x57u8);
    marker_wave.push(0x41u8);
    marker_wave.push(0x56u8);
    marker_wave.push(0x45u8);
    let mut markers: Vec<Vec<u8>> = Vec::new();
    markers.push(marker_riff);
    markers.push(marker_wave);

    let r = FormatIdentifiers { file_extensions, mime_types, markers };
    proof {
        assert(crate::known::id_list_view(r.file_extensions@) =~~= wave_extensions_spec());
        assert(crate::known::id_list_view(r.mime_types@) =~~= wave_mime_types_spec());
        assert(crate::known::id_list_view(r.markers@) =~~= wave_markers_spec());
    }
    r
}

/// Completes a container description for WAVE: the format tag defaults to
/// WAVE (a different tag is `InvalidData`) and every track's codec
/// defaults to PCM (a different codec is `Unsupported`).
pub fn fill_wave_format_data(data: FormatData) -> (r: Result<FormatData, PhonicError>)
    ensures
        (data.format is Some && data.format->0 != KnownFormat::Wave) ==> (r matches Result::Err(e)
            && e == PhonicError::InvalidData),
        (data.format is None || data.format->0 == KnownFormat::Wave) ==> (r matches Result::Ok(d)
            && {
            &&& d.format == Option::Some(KnownFormat::Wave)
            &&& d.tracks@.len() == data.tracks@.len()
            &&& forall|j: int|
                0 <= j < data.tracks@.len() ==> d.tracks@[j] == (StreamSpecBuilder {
                    codec: Option::Some(KnownCodec::Pcm),
                    ..data.tracks@[j]
                })
        }),
{
    let ghost orig = data.tracks@;
    let mut filled = data;
    match filled.format {
        Option::None => {
            filled.format = Some(KnownFormat::Wave);
        },
        Option::Some(f) => {
            if f != KnownFormat::Wave {
                return Err(PhonicError::InvalidData);
            }
        },
    }
    let n = filled.tracks.len();
    let mut j: usize = 0;
    while j < n
        invariant
            n == filled.tracks@.len(),
            n == orig.len(),
            j <= n,
            filled.format == Option::Some(KnownFormat::Wave),
            forall|p: int|
                0 <= p < j ==> filled.tracks@[p] == (StreamSpecBuilder {
                    codec: Option::Some(KnownCodec::Pcm),
                    ..orig[p]
                }),
            forall|p: int| j <= p < n ==> filled.tracks@[p] == orig[p],
        decreases n - j,
    {
        let t = filled.tracks[j];
        match t.codec {
            Option::None => {
                filled.tracks.set(j, StreamSpecBuilder { codec: Some(KnownCodec::Pcm), ..t });
            },
            Option::Some(c) => {
                if c != KnownCodec::Pcm {
                    return Err(PhonicError::Unsupported);
                }
                filled.tracks.set(j, StreamSpecBuilder { codec: Some(KnownCodec::Pcm), ..t });
            },
        }
        j = j + 1;
    }
    Ok(filled)
}

/// The WAVE format's own tag, convertible to and from the crate-wide
/// [`KnownFormat`] enumeration.
#[derive(Debug, Clone, Copy, PartialEq, Eq, Structural)]
pub struct WaveFormatTag;

impl WaveFormatTag {
    /// The crate-wide tag of the WAVE format.
    pub fn known(self) -> (r: KnownFormat)
        ensures
            r == KnownFormat::Wave,
    {
        KnownFormat::Wave
    }

    /// The WAVE tag back from the crate-wide enumeration; any other tag
    /// would be `Unsupported`.
    pub fn try_from_known(format: KnownFormat) -> (r: Result<WaveFormatTag, PhonicError>)
        ensures
            format == KnownFormat::Wave ==> r == Result::<WaveFormatTag, PhonicError>::Ok(
                WaveFormatTag,
            ),
    {
        match format {
            KnownFormat::Wave => Ok(WaveFormatTag),
        }
    }
}

/// A WAVE container over a byte stream: the parsed (or supplied) header
/// and a cursor over the payload, which never crosses the declared byte
/// length.
pub struct WaveFormat<T> {
    header: WaveHeader,
    inner: T,
    i: usize,
}

impl<T> WaveFormat<T> {
    /// The parsed header, as an abstract value.
    pub closed spec fn header_view(&self) -> WaveHeader {
        self.header
    }

    /// How many payload bytes have been transferred.
    pub closed spec fn cursor_view(&self) -> int {
        self.i as int
    }

    /// The wrapped byte stream, as an abstract value.
    pub closed spec fn inner_view(&self) -> T {
        self.inner
    }

    /// How many payload bytes the declared length still allows.
    pub open spec fn room_spec(&self) -> int {
        if self.cursor_view() <= self.header_view().data.byte_len as int {
            self.header_view().data.byte_len as int - self.cursor_view()
        } else {
            0
        }
    }

    /// The parsed header.
    pub fn header(&self) -> (r: &WaveHeader)
        ensures
            *r == self.header_view(),
    {
        &self.header
    }

    /// The wrapped byte stream, surrendering the container.
    pub fn into_inner(self) -> (r: T)
        ensures
            r == self.inner_view(),
    {
        self.inner
    }
}

impl<T: ByteSource> WaveFormat<T> {
    /// Read-open: parses the header fully before any payload is exposed.
    /// A stream without the magic markers, or one declaring a zero block
    /// alignment, is `InvalidData`.
    pub fn read(inner: T) -> (r: Result<Self, PhonicError>)
        ensures
            match r {
                Result::Ok(f) => {
                    &&& 44 <= inner.remaining_bytes().len()
                    &&& parse_header_spec(inner.remaining_bytes().take(44)) == Option::Some(
                        f.header_view(),
                    )
                    &&& f.header_view().fmt.block_align > 0
                    &&& f.cursor_view() == 0
                    &&& f.inner_view().remaining_bytes() == inner.remaining_bytes().skip(44)
                },
                Result::Err(_) => true,
            },
    {
        let mut source = inner;
        let header = match WaveHeader::read(&mut source) {
            Result::Ok(h) => h,
            Result::Err(e) => {
                return Err(e);
            },
        };
        if header.fmt.block_align == 0 {
            return Err(PhonicError::InvalidData);
        }
        Ok(WaveFormat { header, inner: source, i: 0 })
    }
}

impl<T: ByteSink> WaveFormat<T> {
    /// Write-open: serializes the supplied header immediately. A header
    /// declaring a zero block alignment is `InvalidData`.
    pub fn write(inner: T, header: WaveHeader) -> (r: Result<Self, PhonicError>)
        ensures
            header.fmt.block_align == 0 ==> r == Result::<WaveFormat<T>, PhonicError>::Err(
                PhonicError::InvalidData,
            ),
            match r {
                Result::Ok(f) => {
                    &&& header.fmt.block_align > 0
                    &&& f.header_view() == header
                    &&& f.cursor_view() == 0
                    &&& f.inner_view().written_bytes() == inner.written_bytes()
                        + header_bytes_spec(header)
                },
                Result::Err(_) => true,
            },
    {
        if header.fmt.block_align == 0 {
            return Err(PhonicError::InvalidData);
        }
        let mut sink = inner;
        match header.write(&mut sink) {
            Result::Ok(_) => Ok(WaveFormat { header, inner: sink, i: 0 }),
            Result::Err(e) => Err(e),
        }
    }
}

impl<T: ByteSource> WaveFormat<T> {
    /// One bounded, block-aligned payload read: the request is clamped to
    /// the bytes the declared length still allows, truncated down to a
    /// multiple of the block alignment, and handed to the underlying
    /// stream; the cursor advances by the transferred count, which must
    /// itself be a multiple of the alignment — anything else is a fatal
    /// `InvalidData`.
    pub fn read_payload(&mut self, buf: &mut Vec<u8>) -> (r: Result<usize, PhonicError>)
        ensures
            final(buf)@.len() == old(buf)@.len(),
            final(self).header_view() == old(self).header_view(),
            final(self).inner_view().source_retries() <= old(self).inner_view().source_retries(),
            final(self).cursor_view() >= old(self).cursor_view(),
            final(self).cursor_view() <= old(self).cursor_view() + old(self).room_spec(),
            match r {
                Result::Ok(n) => {
                    &&& n as int % (old(self).header_view().fmt.block_align as int) == 0
                    &&& n <= final(buf)@.len()
                    &&& n as int <= old(self).room_spec()
                    &&& n <= old(self).inner_view().remaining_bytes().len()
                    &&& final(buf)@.take(n as int) == old(self).inner_view().remaining_bytes().take(
                        n as int,
                    )
                    &&& final(self).cursor_view() == old(self).cursor_view() + n
                    &&& final(self).inner_view().remaining_bytes() == old(
                        self,
                    ).inner_view().remaining_bytes().skip(n as int)
                },
                Result::Err(e) => {
                    &&& e.is_nonconsuming() ==> {
                        &&& final(self).cursor_view() == old(self).cursor_view()
                        &&& final(self).inner_view().remaining_bytes() == old(
                            self,
                        ).inner_view().remaining_bytes()
                    }
                    &&& e.is_transient() ==> final(self).inner_view().source_retries() < old(
                        self,
                    ).inner_view().source_retries()
                },
            },
    {
        let align = self.header.fmt.block_align as usize;
        if align == 0 {
            return Err(PhonicError::InvalidData);
        }
        let byte_len = self.header.data.byte_len as usize;
        let room = if self.i < byte_len {
            byte_len - self.i
        } else {
            0
        };
        let clamped = if buf.len() < room {
            buf.len()
        } else {
            room
        };
        proof {
            lemma_round_down_mult(clamped as int, align as int);
        }
        let want = clamped - clamped % align;
        let mut tmp = vec_range(buf, 0, want);
        let n = match self.inner.read_bytes(&mut tmp) {
            Result::Ok(n) => n,
            Result::Err(e) => {
                return Err(e);
            },
        };
        vec_copy_in(buf, 0, &tmp, n);
        proof {
            assert(n <= want);
            assert(want <= clamped);
            assert(clamped <= room);
            assert(self.i + n <= usize::MAX);
        }
        self.i = self.i + n;
        if n % align != 0 {
            return Err(PhonicError::InvalidData);
        }
        proof {
            assert(buf@.take(n as int) =~= old(self).inner_view().remaining_bytes().take(n as int));
        }
        Ok(n)
    }
}

impl<T: ByteSource> ByteSource for WaveFormat<T> {
    /// The payload bytes still to come: the underlying stream's bytes,
    /// cut off at the declared length.
    open spec fn remaining_bytes(&self) -> Seq<u8> {
        let rem = self.inner_view().remaining_bytes();
        let room = self.room_spec();
        rem.take(
            if room <= rem.len() {
                room
            } else {
                rem.len() as int
            },
        )
    }

    open spec fn source_retries(&self) -> nat {
        self.inner_view().source_retries()
    }

    fn read_bytes(&mut self, buf: &mut Vec<u8>) -> (r: Result<usize, PhonicError>) {
        let ghost rem0 = self.inner_view().remaining_bytes();
        let r = self.read_payload(buf);
        proof {
            if let Result::Ok(n) = r {
                assert(buf@.take(n as int) =~= old(self).remaining_bytes().take(n as int));
                assert(self.remaining_bytes() =~= old(self).remaining_bytes().skip(n as int));
            }
        }
        r
    }
}

impl<T: ByteSink> WaveFormat<T> {
    /// One bounded, block-aligned payload write, mirroring
    /// [`WaveFormat::read_payload`].
    pub fn write_payload(&mut self, buf: &Vec<u8>) -> (r: Result<usize, PhonicError>)
        ensures
            final(self).header_view() == old(self).header_view(),
            final(self).inner_view().sink_retries() <= old(self).inner_view().sink_retries(),
            final(self).cursor_view() >= old(self).cursor_view(),
            final(self).cursor_view() <= old(self).cursor_view() + old(self).room_spec(),
            match r {
                Result::Ok(n) => {
                    &&& n as int % (old(self).header_view().fmt.block_align as int) == 0
                    &&& n <= buf@.len()
                    &&& n as int <= old(self).room_spec()
                    &&& final(self).cursor_view() == old(self).cursor_view() + n
                    &&& final(self).inner_view().written_bytes() == old(
                        self,
                    ).inner_view().written_bytes() + buf@.take(n as int)
                },
                Result::Err(e) => {
                    &&& e.is_nonconsuming() ==> {
                        &&& final(self).cursor_view() == old(self).cursor_view()
                        &&& final(self).inner_view().written_bytes() == old(
                            self,
                        ).inner_view().written_bytes()
                    }
                    &&& e.is_transient() ==> final(self).inner_view().sink_retries() < old(
                        self,
                    ).inner_view().sink_retries()
                },
            },
    {
        let align = self.header.fmt.block_align as usize;
        if align == 0 {
            return Err(PhonicError::InvalidData);
        }
        let byte_len = self.header.data.byte_len as usize;
        let room = if self.i < byte_len {
            byte_len - self.i
        } else {
            0
        };
        let clamped = if buf.len() < room {
            buf.len()
        } else {
            room
        };
        proof {
            lemma_round_down_mult(clamped as int, align as int);
        }
        let want = clamped - clamped % align;
        let tmp = vec_range(buf, 0, want);
        let n = match self.inner.write_bytes(&tmp) {
            Result::Ok(n) => n,
            Result::Err(e) => {
                return Err(e);
            },
        };
        proof {
            assert(n <= want);
            assert(want <= clamped);
            assert(clamped <= room);
            assert(self.i + n <= usize::MAX);
        }
        self.i = self.i + n;
        if n % align != 0 {
            return Err(PhonicError::InvalidData);
        }
        proof {
            assert(tmp@.take(n as int) =~= buf@.take(n as int));
        }
        Ok(n)
    }
}

impl<T: ByteSink> ByteSink for WaveFormat<T> {
    /// Everything the underlying sink has accepted, the serialized header
    /// included.
    open spec fn written_bytes(&self) -> Seq<u8> {
        self.inner_view().written_bytes()
    }

    open spec fn sink_retries(&self) -> nat {
        self.inner_view().sink_retries()
    }

    fn write_bytes(&mut self, buf: &Vec<u8>) -> (r: Result<usize, PhonicError>) {
        self.write_payload(buf)
    }

    fn flush_bytes(&mut self) -> (r: Result<(), PhonicError>) {
        self.inner.flush_bytes()
    }
}

impl<T> WaveFormat<T> {
    /// The decoded signal specification a header declares: the sample
    /// rate, the channel count, and the frame count implied by the
    /// declared byte length.
    pub open spec fn decoded_spec_of(h: WaveHeader) -> SignalSpec {
        SignalSpec {
            frame_rate: h.fmt.sample_rate,
            channels: Channels::Count(h.fmt.n_channels as u32),
            n_frames: if h.fmt.block_align > 0 {
                Option::Some((h.data.byte_len as int / h.fmt.block_align as int) as u64)
            } else {
                Option::None
            },
        }
    }

    /// Converts into a generic single-track format view tagged WAVE/PCM.
    pub fn into_format(self) -> (r: SingleStreamFormat<WaveFormat<T>>)
        ensures
            r.inner_view() == self,
            r.data_view().format == Option::Some(KnownFormat::Wave),
            r.data_view().tracks@.len() == 1,
            r.data_view().tracks@[0] == (StreamSpecBuilder {
                codec: Option::Some(KnownCodec::Pcm),
                decoded_spec: Option::Some(WaveFormat::<T>::decoded_spec_of(self.header_view())),
                block_align: Option::Some(self.header_view().fmt.block_align),
                compression_ratio: Option::None,
            }),
    {
        let align = self.header.fmt.block_align;
        let n_frames = if align == 0 {
            None
        } else {
            Some((self.header.data.byte_len / (align as u32)) as u64)
        };
        let decoded = SignalSpec {
            frame_rate: self.header.fmt.sample_rate,
            channels: Channels::Count(self.header.fmt.n_channels as u32),
            n_frames,
        };
        let track = StreamSpecBuilder {
            codec: None,
            decoded_spec: Some(decoded),
            block_align: Some(align),
            compression_ratio: None,
        };
        let mut tracks: Vec<StreamSpecBuilder> = Vec::new();
        tracks.push(track);
        let data = FormatData { format: None, tracks };
        match SingleStreamFormat::new(self, data) {
            Result::Ok(f) => f.with_format(KnownFormat::Wave).with_codec(KnownCodec::Pcm),
            Result::Err(_) => vstd::pervasive::unreached(),
        }
    }
}

} // verus!
