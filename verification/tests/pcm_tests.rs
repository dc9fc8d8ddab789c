use phonic::Channels;
use phonic::KnownCodec;
use phonic::MemSink;
use phonic::MemSource;
use phonic::PcmCodec;
use phonic::PhonicError;
use phonic::Ratio;
use phonic::SignalReader;
use phonic::SignalSpec;
use phonic::SignalWriter;
use phonic::Stream;
use phonic::StreamSpecBuilder;
use phonic::fill_pcm_stream_spec;

fn pcm_builder(block_align: u16) -> StreamSpecBuilder {
    let spec = SignalSpec {
        frame_rate: 44100,
        channels: Channels::Count(1),
        n_frames: None,
    };
    StreamSpecBuilder::new()
        .with_decoded_spec(spec)
        .with_block_align(block_align)
}

#[test]
fn fill_pcm_defaults_codec_and_ratio() {
    let filled = fill_pcm_stream_spec(pcm_builder(2)).unwrap();
    assert_eq!(filled.codec, Some(KnownCodec::Pcm));
    assert_eq!(filled.compression_ratio, Some(Ratio { num: 1, den: 1 }));
}

#[test]
fn fill_pcm_rejects_other_ratio() {
    let b = pcm_builder(2);
    let b = match b.with_compression_ratio(Ratio { num: 2, den: 1 }) {
        Ok(b) => b,
        Err(_) => panic!("setting a fresh ratio must succeed"),
    };
    assert!(matches!(
        fill_pcm_stream_spec(b),
        Err(PhonicError::InvalidData)
    ));
}

#[test]
fn pcm_new_missing_data() {
    let sink = MemSink::new();
    let r: Result<PcmCodec<MemSink, i16>, PhonicError> =
        PcmCodec::new(sink, StreamSpecBuilder::new());
    assert_eq!(r.err(), Some(PhonicError::MissingData));
}

#[test]
fn pcm_new_carries_stream_spec() {
    let sink = MemSink::new();
    let codec: PcmCodec<MemSink, i16> = PcmCodec::new(sink, pcm_builder(2)).unwrap();
    let stream = codec.stream_spec();
    assert_eq!(stream.codec, KnownCodec::Pcm);
    assert_eq!(stream.block_align, 2);
    assert_eq!(stream.compression_ratio, Ratio { num: 1, den: 1 });
    assert_eq!(stream.decoded_spec.frame_rate, 44100);
}

#[test]
fn pcm_encode_bytes_exactly() {
    let sink = MemSink::new();
    let mut codec: PcmCodec<MemSink, i16> = PcmCodec::new(sink, pcm_builder(2)).unwrap();
    let samples: Vec<i16> = vec![1, -2, 300, i16::MIN, i16::MAX];
    let n = codec.write(&samples).unwrap();
    assert_eq!(n, 5);
    let sink = codec.into_inner();
    let expected: Vec<u8> = vec![
        0x01, 0x00, 0xFE, 0xFF, 0x2C, 0x01, 0x00, 0x80, 0xFF, 0x7F,
    ];
    assert_eq!(sink.data(), &expected);
}

#[test]
fn pcm_round_trip_i16() {
    let samples: Vec<i16> = vec![0, 1, -1, 12345, -12345, i16::MIN, i16::MAX];
    let sink = MemSink::new();
    let mut writer: PcmCodec<MemSink, i16> = PcmCodec::new(sink, pcm_builder(2)).unwrap();
    writer.write_exact(&samples).unwrap();
    let bytes = writer.into_inner().into_data();

    let source = MemSource::new(bytes);
    let mut reader: PcmCodec<MemSource, i16> = PcmCodec::new(source, pcm_builder(2)).unwrap();
    let mut back: Vec<i16> = vec![0; samples.len()];
    reader.read_exact(&mut back).unwrap();
    assert_eq!(back, samples);
}

#[test]
fn pcm_round_trip_i32_and_u8() {
    let samples: Vec<i32> = vec![0, -1, 0x7FFF_FFFF, -0x8000_0000, 77];
    let sink = MemSink::new();
    let mut writer: PcmCodec<MemSink, i32> = PcmCodec::new(sink, pcm_builder(4)).unwrap();
    writer.write_exact(&samples).unwrap();
    let bytes = writer.into_inner().into_data();
    let source = MemSource::new(bytes);
    let mut reader: PcmCodec<MemSource, i32> = PcmCodec::new(source, pcm_builder(4)).unwrap();
    let mut back: Vec<i32> = vec![0; samples.len()];
    reader.read_exact(&mut back).unwrap();
    assert_eq!(back, samples);

    let bytes8: Vec<u8> = vec![0, 1, 2, 255];
    let source = MemSource::new(bytes8.clone());
    let mut reader: PcmCodec<MemSource, u8> = PcmCodec::new(source, pcm_builder(1)).unwrap();
    let mut back8: Vec<u8> = vec![0; 4];
    reader.read_exact(&mut back8).unwrap();
    assert_eq!(back8, bytes8);
}

#[test]
fn pcm_read_partial_sample_is_invalid_data() {
    let source = MemSource::new(vec![0x01, 0x02, 0x03]);
    let mut reader: PcmCodec<MemSource, i16> = PcmCodec::new(source, pcm_builder(2)).unwrap();
    let mut buf: Vec<i16> = vec![0; 4];
    assert_eq!(reader.read(&mut buf), Err(PhonicError::InvalidData));
}

#[test]
fn pcm_byte_facade_round_trip_all_offsets() {
    // The alignment-offset facade: for every offset inside one sample,
    // reading bytes out of a typed signal and writing them back through
    // the mirrored facade reproduces the samples bit for bit.
    let samples: Vec<i16> = vec![258, -7, 513, 32000];
    for offset in 0..2usize {
        // Inner typed reader over the encoded bytes.
        let mut bytes: Vec<u8> = Vec::new();
        for s in &samples {
            bytes.extend_from_slice(&s.to_le_bytes());
        }
        let source = MemSource::new(bytes.clone());
        let inner: PcmCodec<MemSource, i16> = PcmCodec::new(source, pcm_builder(2)).unwrap();
        let mut facade: PcmCodec<PcmCodec<MemSource, i16>, i16> =
            PcmCodec::new(inner, pcm_builder(2)).unwrap();

        let mut buf: Vec<u8> = vec![0; bytes.len() + offset];
        let n = facade.read_bytes_at(&mut buf, offset).unwrap();
        assert_eq!(n, bytes.len());
        assert_eq!(&buf[..n], &bytes[..]);

        // Mirrored write facade at the same offset.
        let sink = MemSink::new();
        let winner: PcmCodec<MemSink, i16> = PcmCodec::new(sink, pcm_builder(2)).unwrap();
        let mut wfacade: PcmCodec<PcmCodec<MemSink, i16>, i16> =
            PcmCodec::new(winner, pcm_builder(2)).unwrap();
        let mut shifted: Vec<u8> = vec![0xAA; offset];
        shifted.extend_from_slice(&bytes);
        let m = wfacade.write_bytes_at(&shifted, offset).unwrap();
        assert_eq!(m, bytes.len());
        let got = wfacade.into_inner().into_inner().into_data();
        assert_eq!(got, bytes);
    }
}

#[test]
fn pcm_byte_facade_interior_too_short() {
    let source = MemSource::new(vec![1, 0, 2, 0]);
    let inner: PcmCodec<MemSource, i16> = PcmCodec::new(source, pcm_builder(2)).unwrap();
    let mut facade: PcmCodec<PcmCodec<MemSource, i16>, i16> =
        PcmCodec::new(inner, pcm_builder(2)).unwrap();
    let mut tiny: Vec<u8> = vec![0; 2];
    // offset 1 leaves a single byte of aligned interior: less than one sample.
    assert_eq!(
        facade.read_bytes_at(&mut tiny, 1),
        Err(PhonicError::InvalidData)
    );
}
