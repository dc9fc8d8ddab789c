use phonic::Channels;
use phonic::HiccupSource;
use phonic::MemSink;
use phonic::MemSource;
use phonic::PcmCodec;
use phonic::PhonicError;
use phonic::SignalSpec;
use phonic::StreamSpecBuilder;
use phonic::copy;

fn builder_for(rate: u32) -> StreamSpecBuilder {
    let spec = SignalSpec {
        frame_rate: rate,
        channels: Channels::Count(1),
        n_frames: None,
    };
    StreamSpecBuilder::new()
        .with_decoded_spec(spec)
        .with_block_align(2)
}

#[test]
fn copy_mismatched_specs_zero_io() {
    let source = MemSource::new(vec![1, 0, 2, 0]);
    let mut reader: PcmCodec<MemSource, i16> = PcmCodec::new(source, builder_for(44100)).unwrap();
    let sink = MemSink::new();
    let mut writer: PcmCodec<MemSink, i16> = PcmCodec::new(sink, builder_for(48000)).unwrap();
    let mut scratch: Vec<i16> = vec![0; 2];
    assert_eq!(
        copy(&mut reader, &mut writer, &mut scratch),
        Err(PhonicError::SignalMismatch)
    );
    // Zero I/O: the writer's sink is still empty.
    assert!(writer.into_inner().into_data().is_empty());
}

#[test]
fn copy_transfers_all_samples() {
    let samples: Vec<i16> = vec![3, -1, 4, -1, 5, -9, 2, -6];
    let mut bytes: Vec<u8> = Vec::new();
    for s in &samples {
        bytes.extend_from_slice(&s.to_le_bytes());
    }
    let mut reader: PcmCodec<MemSource, i16> =
        PcmCodec::new(MemSource::new(bytes.clone()), builder_for(8000)).unwrap();
    let mut writer: PcmCodec<MemSink, i16> =
        PcmCodec::new(MemSink::new(), builder_for(8000)).unwrap();
    // A scratch buffer smaller than the data forces several iterations.
    let mut scratch: Vec<i16> = vec![0; 3];
    assert_eq!(copy(&mut reader, &mut writer, &mut scratch), Ok(()));
    assert_eq!(writer.into_inner().into_data(), bytes);
}

#[test]
fn copy_retries_interrupted_reader() {
    let samples: Vec<i16> = vec![11, -22, 33, -44];
    let mut bytes: Vec<u8> = Vec::new();
    for s in &samples {
        bytes.extend_from_slice(&s.to_le_bytes());
    }
    let flaky = HiccupSource::new(MemSource::new(bytes.clone()), 3);
    let mut reader: PcmCodec<HiccupSource<MemSource>, i16> =
        PcmCodec::new(flaky, builder_for(8000)).unwrap();
    let mut writer: PcmCodec<MemSink, i16> =
        PcmCodec::new(MemSink::new(), builder_for(8000)).unwrap();
    let mut scratch: Vec<i16> = vec![0; 2];
    // The interruptions are retried inside the loop and never surface.
    assert_eq!(copy(&mut reader, &mut writer, &mut scratch), Ok(()));
    assert_eq!(writer.into_inner().into_data(), bytes);
}

#[test]
fn copy_empty_reader_clean_stop() {
    let mut reader: PcmCodec<MemSource, i16> =
        PcmCodec::new(MemSource::new(Vec::new()), builder_for(8000)).unwrap();
    let mut writer: PcmCodec<MemSink, i16> =
        PcmCodec::new(MemSink::new(), builder_for(8000)).unwrap();
    let mut scratch: Vec<i16> = vec![0; 4];
    assert_eq!(copy(&mut reader, &mut writer, &mut scratch), Ok(()));
    assert!(writer.into_inner().into_data().is_empty());
}
