use phonic::Format;
use phonic::FormatData;
use phonic::FormatIdentifier;
use phonic::FormatReader;
use phonic::KnownCodec;
use phonic::KnownFormat;
use phonic::MemSource;
use phonic::PhonicError;
use phonic::StreamSpecBuilder;
use phonic::WaveDataChunk;
use phonic::WaveFmtChunk;
use phonic::WaveHeader;
use phonic::FormatChunk;

#[test]
fn resolve_known_identifiers() {
    let cases: Vec<FormatIdentifier> = vec![
        FormatIdentifier::FileExtension(b"wav".to_vec()),
        FormatIdentifier::FileExtension(b"wave".to_vec()),
        FormatIdentifier::MimeType(b"audio/vnd.wave".to_vec()),
        FormatIdentifier::MimeType(b"audio/x-wav".to_vec()),
        FormatIdentifier::MimeType(b"audio/wav".to_vec()),
        FormatIdentifier::MimeType(b"audio/wave".to_vec()),
        FormatIdentifier::Marker(b"RIFF".to_vec()),
        FormatIdentifier::Marker(b"WAVE".to_vec()),
    ];
    for id in &cases {
        assert_eq!(KnownFormat::try_from_identifier(id), Ok(KnownFormat::Wave));
    }
}

#[test]
fn resolve_unknown_identifier_not_found() {
    let cases: Vec<FormatIdentifier> = vec![
        FormatIdentifier::FileExtension(b"mp3".to_vec()),
        FormatIdentifier::FileExtension(b"".to_vec()),
        FormatIdentifier::MimeType(b"audio/mpeg".to_vec()),
        // Kind matters: "wav" is a registered extension, not a MIME type.
        FormatIdentifier::MimeType(b"wav".to_vec()),
        FormatIdentifier::Marker(b"OggS".to_vec()),
    ];
    for id in &cases {
        assert_eq!(
            KnownFormat::try_from_identifier(id),
            Err(PhonicError::NotFound)
        );
    }
}

#[test]
fn identifier_table_contents() {
    let table = KnownFormat::Wave.identifiers();
    assert!(table.contains(&FormatIdentifier::FileExtension(b"wav".to_vec())));
    assert!(!table.contains(&FormatIdentifier::FileExtension(b"flac".to_vec())));
}

#[test]
fn fill_data_dispatch() {
    let data = FormatData {
        format: Some(KnownFormat::Wave),
        tracks: vec![StreamSpecBuilder::new()],
    };
    let filled = KnownFormat::fill_data(data).unwrap();
    assert_eq!(filled.format, Some(KnownFormat::Wave));
    assert_eq!(filled.tracks[0].codec, Some(KnownCodec::Pcm));

    // An untagged description is a no-op success.
    let untagged = FormatData {
        format: None,
        tracks: Vec::new(),
    };
    let out = KnownFormat::fill_data(untagged).unwrap();
    assert_eq!(out.format, None);
    assert!(out.tracks.is_empty());
}

#[test]
fn construct_wave_from_byte_source() {
    let header = WaveHeader {
        fmt: WaveFmtChunk {
            n_channels: 1,
            sample_rate: 8000,
            bits_per_sample: 16,
            block_align: 2,
        },
        data: WaveDataChunk { byte_len: 4 },
    };
    let mut bytes = header.bytes();
    bytes.extend_from_slice(&[1, 2, 3, 4]);
    let mut reader = KnownFormat::Wave
        .from_byte_source(MemSource::new(bytes))
        .unwrap();
    assert_eq!(reader.data().format, Some(KnownFormat::Wave));
    assert_eq!(reader.data().tracks.len(), 1);
    let mut buf: Vec<u8> = vec![0; 16];
    match reader.read_chunk(&mut buf).unwrap() {
        FormatChunk::Stream { stream_index, len } => {
            assert_eq!(stream_index, 0);
            assert_eq!(len, 4);
            assert_eq!(&buf[..4], &[1, 2, 3, 4]);
        }
    }
}

#[test]
fn construct_wave_rejects_garbage() {
    let r = KnownFormat::Wave.from_byte_source(MemSource::new(vec![0u8; 64]));
    match r {
        Err(PhonicError::InvalidData) => {}
        _ => panic!("construction over a non-WAVE stream must fail"),
    }
}
