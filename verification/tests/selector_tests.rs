use phonic::ByteSink;
use phonic::ByteSource;
use phonic::Channels;
use phonic::Format;
use phonic::FormatData;
use phonic::Signal;
use phonic::KnownCodec;
use phonic::MemSink;
use phonic::MemSource;
use phonic::PcmCodec;
use phonic::PhonicError;
use phonic::SignalReader;
use phonic::SignalSpec;
use phonic::SignalWriter;
use phonic::SingleStreamFormat;
use phonic::StreamSelector;
use phonic::StreamSpecBuilder;
use phonic::WaveDataChunk;
use phonic::WaveFmtChunk;
use phonic::WaveFormat;
use phonic::WaveHeader;

fn one_track_data() -> FormatData {
    FormatData {
        format: None,
        tracks: vec![StreamSpecBuilder::new()],
    }
}

#[test]
fn selector_out_of_range_is_not_found() {
    let source = MemSource::new(vec![1, 2, 3]);
    let view = SingleStreamFormat::new(source, one_track_data()).unwrap();
    match StreamSelector::new(view, 1) {
        Err(PhonicError::NotFound) => {}
        _ => panic!("an index at the track count must be NotFound"),
    }
    let source = MemSource::new(vec![1, 2, 3]);
    let view = SingleStreamFormat::new(source, one_track_data()).unwrap();
    assert!(StreamSelector::new(view, 0).is_ok());
}

#[test]
fn selector_surfaces_only_bound_track() {
    let payload: Vec<u8> = vec![10, 20, 30, 40, 50];
    let source = MemSource::new(payload.clone());
    let view = SingleStreamFormat::new(source, one_track_data()).unwrap();
    let mut sel = StreamSelector::new(view, 0).unwrap();
    let mut buf: Vec<u8> = vec![0; 16];
    let n = sel.read_bytes(&mut buf).unwrap();
    assert_eq!(&buf[..n], &payload[..]);
    let n2 = sel.read_bytes(&mut buf).unwrap();
    assert_eq!(n2, 0);
}

#[test]
fn selector_track_descriptor() {
    let source = MemSource::new(vec![]);
    let view = SingleStreamFormat::new(source, one_track_data()).unwrap();
    let sel = StreamSelector::new(view, 0).unwrap();
    assert!(sel.track().is_some());
}

#[test]
fn selector_write_forwards_bytes() {
    let sink = MemSink::new();
    let view = SingleStreamFormat::new(sink, one_track_data()).unwrap();
    let mut sel = StreamSelector::new(view, 0).unwrap();
    let payload: Vec<u8> = vec![7, 8, 9];
    let n = sel.write_bytes(&payload).unwrap();
    assert_eq!(n, 3);
    sel.flush_bytes().unwrap();
}

#[test]
fn pipeline_wave_selector_pcm() {
    // A complete decode pipeline: WAVE container -> single-track view ->
    // stream selector -> PCM codec -> typed samples.
    let samples: Vec<i16> = vec![100, -200, 300, -400];
    let header = WaveHeader {
        fmt: WaveFmtChunk {
            n_channels: 1,
            sample_rate: 8000,
            bits_per_sample: 16,
            block_align: 2,
        },
        data: WaveDataChunk { byte_len: 8 },
    };
    let mut bytes = header.bytes();
    for s in &samples {
        bytes.extend_from_slice(&s.to_le_bytes());
    }

    let container = WaveFormat::read(MemSource::new(bytes)).unwrap();
    let view = container.into_format();
    let track = view.data().tracks[0];
    let sel = StreamSelector::new(view, 0).unwrap();
    let mut codec: PcmCodec<_, i16> = PcmCodec::new(sel, track).unwrap();
    assert_eq!(
        codec.signal_spec(),
        SignalSpec {
            frame_rate: 8000,
            channels: Channels::Count(1),
            n_frames: Some(4),
        }
    );
    let mut out: Vec<i16> = vec![0; 4];
    codec.read_exact(&mut out).unwrap();
    assert_eq!(out, samples);
}

#[test]
fn pipeline_pcm_selector_wave_write() {
    // The mirrored encode pipeline: typed samples -> PCM codec -> stream
    // selector -> single-track view -> WAVE container.
    let samples: Vec<i16> = vec![5, -6, 7, -8];
    let header = WaveHeader {
        fmt: WaveFmtChunk {
            n_channels: 1,
            sample_rate: 8000,
            bits_per_sample: 16,
            block_align: 2,
        },
        data: WaveDataChunk { byte_len: 8 },
    };
    let container = WaveFormat::write(MemSink::new(), header).unwrap();
    let view = container.into_format();
    let track = view.data().tracks[0];
    let sel = StreamSelector::new(view, 0).unwrap();
    let mut codec: PcmCodec<_, i16> = PcmCodec::new(sel, track).unwrap();
    codec.write_exact(&samples).unwrap();
    let bytes = codec
        .into_inner()
        .into_inner()
        .into_inner()
        .into_inner()
        .into_data();
    let mut expected = header.bytes();
    for s in &samples {
        expected.extend_from_slice(&s.to_le_bytes());
    }
    assert_eq!(bytes, expected);
}
