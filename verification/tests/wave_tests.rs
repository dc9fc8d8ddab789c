use phonic::ByteSink;
use phonic::ByteSource;
use phonic::Channels;
use phonic::Format;
use phonic::KnownCodec;
use phonic::KnownFormat;
use phonic::MemSink;
use phonic::MemSource;
use phonic::PhonicError;
use phonic::StreamSpecBuilder;
use phonic::WaveDataChunk;
use phonic::WaveFmtChunk;
use phonic::WaveFormat;
use phonic::WaveHeader;
use phonic::fill_wave_format_data;
use phonic::FormatData;

fn header(n_channels: u16, sample_rate: u32, bits: u16, align: u16, byte_len: u32) -> WaveHeader {
    WaveHeader {
        fmt: WaveFmtChunk {
            n_channels,
            sample_rate,
            bits_per_sample: bits,
            block_align: align,
        },
        data: WaveDataChunk { byte_len },
    }
}

#[test]
fn header_bytes_exact_layout() {
    let h = header(2, 44100, 16, 4, 8);
    let expected: Vec<u8> = vec![
        0x52, 0x49, 0x46, 0x46, // RIFF
        0x2C, 0x00, 0x00, 0x00, // riff size: 36 + 8
        0x57, 0x41, 0x56, 0x45, // WAVE
        0x66, 0x6D, 0x74, 0x20, // fmt_
        0x10, 0x00, 0x00, 0x00, // fmt chunk size 16
        0x01, 0x00, // pcm format
        0x02, 0x00, // channels
        0x44, 0xAC, 0x00, 0x00, // 44100
        0x10, 0xB1, 0x02, 0x00, // byte rate 176400
        0x04, 0x00, // block align
        0x10, 0x00, // bits
        0x64, 0x61, 0x74, 0x61, // data
        0x08, 0x00, 0x00, 0x00, // byte len
    ];
    assert_eq!(h.bytes(), expected);
}

#[test]
fn header_parse_round_trip() {
    let h = header(6, 96000, 24, 18, 1_000_000);
    let parsed = WaveHeader::parse(&h.bytes());
    assert_eq!(parsed, Some(h));
}

#[test]
fn header_parse_rejects_bad_magic() {
    let h = header(2, 44100, 16, 4, 8);
    let mut bytes = h.bytes();
    bytes[0] = b'X';
    assert_eq!(WaveHeader::parse(&bytes), None);
    let short: Vec<u8> = vec![0x52, 0x49, 0x46, 0x46];
    assert_eq!(WaveHeader::parse(&short), None);
}

#[test]
fn wave_open_rejects_garbage() {
    let source = MemSource::new(vec![0u8; 44]);
    match WaveFormat::read(source) {
        Err(PhonicError::InvalidData) => {}
        _ => panic!("a stream without the magic markers must be rejected"),
    }
}

#[test]
fn wave_open_rejects_zero_alignment() {
    let sink = MemSink::new();
    match WaveFormat::write(sink, header(2, 44100, 16, 0, 8)) {
        Err(PhonicError::InvalidData) => {}
        _ => panic!("a zero block alignment must be rejected"),
    }
}

#[test]
fn wave_write_then_read_round_trip() {
    let h = header(1, 8000, 16, 2, 8);
    let payload: Vec<u8> = vec![1, 2, 3, 4, 5, 6, 7, 8];

    let sink = MemSink::new();
    let mut writer = WaveFormat::write(sink, h).unwrap();
    let n = writer.write_payload(&payload).unwrap();
    assert_eq!(n, 8);
    assert_eq!(*writer.header(), h);
    let bytes = writer.into_inner().into_data();

    let source = MemSource::new(bytes);
    let mut reader = WaveFormat::read(source).unwrap();
    assert_eq!(*reader.header(), h);
    let mut buf: Vec<u8> = vec![0; 64];
    let m = reader.read_payload(&mut buf).unwrap();
    assert_eq!(m, 8);
    assert_eq!(&buf[..m], &payload[..]);
    // A further read finds no room left: the cursor reached the bound.
    let m2 = reader.read_payload(&mut buf).unwrap();
    assert_eq!(m2, 0);
}

#[test]
fn wave_write_clamps_to_declared_length() {
    let h = header(1, 8000, 16, 2, 4);
    let sink = MemSink::new();
    let mut writer = WaveFormat::write(sink, h).unwrap();
    let payload: Vec<u8> = vec![9, 8, 7, 6, 5, 4, 3, 2, 1, 0];
    let n = writer.write_payload(&payload).unwrap();
    assert_eq!(n, 4);
}

#[test]
fn wave_truncates_to_block_alignment() {
    let h = header(2, 8000, 16, 4, 100);
    let sink = MemSink::new();
    let mut writer = WaveFormat::write(sink, h).unwrap();
    let payload: Vec<u8> = vec![1, 2, 3, 4, 5, 6];
    let n = writer.write_payload(&payload).unwrap();
    assert_eq!(n, 4);
}

#[test]
fn wave_read_clamps_and_truncates() {
    let h = header(1, 8000, 16, 4, 6);
    let mut bytes = h.bytes();
    bytes.extend_from_slice(&[10, 11, 12, 13, 14, 15, 99, 99]);
    let source = MemSource::new(bytes);
    let mut reader = WaveFormat::read(source).unwrap();
    let mut buf: Vec<u8> = vec![0; 64];
    // byte_len 6 truncated down to block alignment 4.
    let n = reader.read_payload(&mut buf).unwrap();
    assert_eq!(n, 4);
    assert_eq!(&buf[..4], &[10, 11, 12, 13]);
}

#[test]
fn fill_wave_data_defaults() {
    let data = FormatData {
        format: None,
        tracks: vec![StreamSpecBuilder::new()],
    };
    let filled = fill_wave_format_data(data).unwrap();
    assert_eq!(filled.format, Some(KnownFormat::Wave));
    assert_eq!(filled.tracks.len(), 1);
    assert_eq!(filled.tracks[0].codec, Some(KnownCodec::Pcm));
}

#[test]
fn wave_into_format_single_track() {
    let h = header(2, 44100, 16, 4, 400);
    let mut bytes = h.bytes();
    bytes.extend_from_slice(&[0u8; 400]);
    let reader = WaveFormat::read(MemSource::new(bytes)).unwrap();
    let view = reader.into_format();
    let data = view.data();
    assert_eq!(data.format, Some(KnownFormat::Wave));
    assert_eq!(data.tracks.len(), 1);
    let track = &data.tracks[0];
    assert_eq!(track.codec, Some(KnownCodec::Pcm));
    assert_eq!(track.block_align, Some(4));
    let decoded = track.decoded_spec.unwrap();
    assert_eq!(decoded.frame_rate, 44100);
    assert_eq!(decoded.channels, Channels::Count(2));
    assert_eq!(decoded.n_frames, Some(100));
}
