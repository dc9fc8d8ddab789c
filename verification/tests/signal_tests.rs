use phonic::signal;
use phonic::Channels;
use phonic::ChannelLayout;
use phonic::PhonicError;
use phonic::SignalSpec;
use phonic::SignalSpecBuilder;

#[test]
fn layout_count_is_popcount() {
    assert_eq!(ChannelLayout::from_bits(signal::MONO).count(), 1);
    assert_eq!(ChannelLayout::from_bits(signal::STEREO).count(), 2);
    assert_eq!(ChannelLayout::from_bits(signal::STEREO_2_1).count(), 3);
    assert_eq!(ChannelLayout::from_bits(signal::SURROUND_5_1).count(), 6);
    assert_eq!(ChannelLayout::from_bits(signal::SURROUND_7_1).count(), 8);
    assert_eq!(ChannelLayout::from_bits(0).count(), 0);
    assert_eq!(ChannelLayout::from_bits(u32::MAX).count(), 32);
}

#[test]
fn layout_bit_operations() {
    let stereo = ChannelLayout::from_bits(signal::FRONT_LEFT).or(ChannelLayout::from_bits(
        signal::FRONT_RIGHT,
    ));
    assert_eq!(stereo, ChannelLayout::from_bits(signal::STEREO));
    let left = stereo.and(ChannelLayout::from_bits(signal::FRONT_LEFT));
    assert_eq!(left, ChannelLayout::from_bits(signal::FRONT_LEFT));
    let right = stereo.xor(ChannelLayout::from_bits(signal::FRONT_LEFT));
    assert_eq!(right, ChannelLayout::from_bits(signal::FRONT_RIGHT));
}

#[test]
fn channels_count_both_forms() {
    assert_eq!(Channels::Count(5).count(), 5);
    let layout = ChannelLayout::from_bits(signal::SURROUND_5_1);
    assert_eq!(Channels::Layout(layout).count(), 6);
    assert!(Channels::Count(2).layout().is_none());
    assert_eq!(Channels::Layout(layout).layout(), Some(&layout));
}

#[test]
fn channels_from_conversions() {
    assert_eq!(Channels::from(2u32), Channels::Count(2));
    let layout = ChannelLayout::from_bits(signal::STEREO);
    assert_eq!(Channels::from(layout), Channels::Layout(layout));
}

#[test]
fn builder_missing_data() {
    assert_eq!(SignalSpec::builder().build(), Err(PhonicError::MissingData));
    assert_eq!(
        SignalSpec::builder().with_frame_rate(44100).build(),
        Err(PhonicError::MissingData)
    );
    assert_eq!(
        SignalSpec::builder().with_channels(Channels::Count(2)).build(),
        Err(PhonicError::MissingData)
    );
}

#[test]
fn builder_complete_build() {
    let spec = SignalSpec::builder()
        .with_frame_rate(44100)
        .with_channels(Channels::Count(2))
        .with_n_frames(Some(16))
        .build()
        .unwrap();
    assert_eq!(spec.frame_rate, 44100);
    assert_eq!(spec.channels, Channels::Count(2));
    assert_eq!(spec.n_frames, Some(16));
}

#[test]
fn builder_round_trip_is_identity() {
    let spec = SignalSpec {
        frame_rate: 8000,
        channels: Channels::Layout(ChannelLayout::from_bits(phonic::signal::STEREO)),
        n_frames: Some(123),
    };
    let rebuilt = SignalSpecBuilder::from_spec(spec).build().unwrap();
    assert_eq!(rebuilt, spec);
}

#[test]
fn spec_n_samples() {
    let mut spec = SignalSpec {
        frame_rate: 44100,
        channels: Channels::Count(2),
        n_frames: Some(10),
    };
    assert_eq!(spec.n_samples(), Some(20));
    spec.n_frames = None;
    assert_eq!(spec.n_samples(), None);
    spec.n_frames = Some(u64::MAX);
    assert_eq!(spec.n_samples(), None);
}

#[test]
fn spec_duration_nanos() {
    let spec = SignalSpec {
        frame_rate: 1000,
        channels: Channels::Count(1),
        n_frames: Some(500),
    };
    assert_eq!(spec.duration(), Some(500_000_000));
    let zero_rate = SignalSpec { frame_rate: 0, ..spec };
    assert_eq!(zero_rate.duration(), None);
    let unknown = SignalSpec { n_frames: None, ..spec };
    assert_eq!(unknown.duration(), None);
}

#[test]
fn builder_with_duration() {
    let b = SignalSpecBuilder::new()
        .with_frame_rate(44100)
        .with_duration(1_000_000_000);
    assert_eq!(b.n_frames, Some(44100));
    let unset = SignalSpecBuilder::new().with_duration(1_000_000_000);
    assert_eq!(unset.n_frames, None);
    let b2 = SignalSpecBuilder::new()
        .with_frame_rate(2)
        .with_channels(Channels::Count(1))
        .with_n_frames(Some(3));
    assert_eq!(b2.duration(), Some(1_500_000_000));
    assert_eq!(b2.n_samples(), Some(3));
}
