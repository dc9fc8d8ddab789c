use phonic::Channels;
use phonic::ChannelsAdapter;
use phonic::KnownCodec;
use phonic::MemSource;
use phonic::PcmCodec;
use phonic::PhonicError;
use phonic::Ratio;
use phonic::Signal;
use phonic::SignalSpec;
use phonic::StreamSpecBuilder;

fn full_builder() -> StreamSpecBuilder {
    let spec = SignalSpec {
        frame_rate: 22050,
        channels: Channels::Count(2),
        n_frames: Some(4),
    };
    StreamSpecBuilder::new()
        .with_codec(KnownCodec::Pcm)
        .with_decoded_spec(spec)
        .with_block_align(4)
}

#[test]
fn stream_builder_missing_data() {
    assert!(matches!(
        StreamSpecBuilder::new().build(),
        Err(PhonicError::MissingData)
    ));
    assert!(matches!(
        full_builder().build(),
        Err(PhonicError::MissingData)
    ));
}

#[test]
fn stream_builder_complete() {
    let b = full_builder().with_compression_ratio(Ratio::one()).unwrap();
    let spec = b.build().unwrap();
    assert_eq!(spec.codec, KnownCodec::Pcm);
    assert_eq!(spec.block_align, 4);
    assert_eq!(spec.compression_ratio, Ratio { num: 1, den: 1 });
}

#[test]
fn stream_ratio_conflict() {
    let b = full_builder()
        .with_compression_ratio(Ratio { num: 2, den: 1 })
        .unwrap();
    assert!(matches!(
        b.with_compression_ratio(Ratio::one()),
        Err(PhonicError::InvalidData)
    ));
    let same = b.with_compression_ratio(Ratio { num: 2, den: 1 }).unwrap();
    assert_eq!(same.compression_ratio, Some(Ratio { num: 2, den: 1 }));
}

#[test]
fn channels_adapter_redeclares_channels() {
    let spec = SignalSpec {
        frame_rate: 44100,
        channels: Channels::Count(1),
        n_frames: Some(8),
    };
    let builder = StreamSpecBuilder::new()
        .with_decoded_spec(spec)
        .with_block_align(2);
    let signal: PcmCodec<MemSource, i16> =
        PcmCodec::new(MemSource::new(Vec::new()), builder).unwrap();
    let adapted = ChannelsAdapter::new(signal, Channels::Count(2));
    let got = adapted.signal_spec();
    assert_eq!(got.channels, Channels::Count(2));
    assert_eq!(got.frame_rate, 44100);
    assert_eq!(got.n_frames, Some(8));
}
