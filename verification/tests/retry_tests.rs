use phonic::Channels;
use phonic::HiccupSource;
use phonic::MemSource;
use phonic::PcmCodec;
use phonic::PhonicError;
use phonic::SignalReader;
use phonic::SignalSpec;
use phonic::StreamSpecBuilder;
use phonic::WaveDataChunk;
use phonic::WaveFmtChunk;
use phonic::WaveFormat;
use phonic::WaveHeader;

fn pcm_builder() -> StreamSpecBuilder {
    let spec = SignalSpec {
        frame_rate: 8000,
        channels: Channels::Count(1),
        n_frames: None,
    };
    StreamSpecBuilder::new()
        .with_decoded_spec(spec)
        .with_block_align(2)
}

#[test]
fn read_exact_retries_interrupted() {
    let flaky = HiccupSource::new(MemSource::new(vec![1, 0, 2, 0, 3, 0]), 2);
    let mut reader: PcmCodec<HiccupSource<MemSource>, i16> =
        PcmCodec::new(flaky, pcm_builder()).unwrap();
    let mut buf: Vec<i16> = vec![0; 3];
    reader.read_exact(&mut buf).unwrap();
    assert_eq!(buf, vec![1, 2, 3]);
}

#[test]
fn single_read_surfaces_interrupted() {
    let flaky = HiccupSource::new(MemSource::new(vec![1, 0]), 1);
    let mut reader: PcmCodec<HiccupSource<MemSource>, i16> =
        PcmCodec::new(flaky, pcm_builder()).unwrap();
    let mut buf: Vec<i16> = vec![0; 1];
    assert_eq!(reader.read(&mut buf), Err(PhonicError::Interrupted));
    assert_eq!(reader.read(&mut buf), Ok(1));
    assert_eq!(buf, vec![1]);
}

#[test]
fn read_exact_short_data_end_of_stream() {
    let source = MemSource::new(vec![1, 0, 2, 0]);
    let mut reader: PcmCodec<MemSource, i16> = PcmCodec::new(source, pcm_builder()).unwrap();
    let mut buf: Vec<i16> = vec![0; 5];
    assert_eq!(reader.read_exact(&mut buf), Err(PhonicError::EndOfStream));
}

#[test]
fn wave_misaligned_tail_is_invalid_data() {
    // The container declares eight payload bytes but the stream ends after
    // three: the resulting transfer breaks the block alignment, which is a
    // fatal malformed-stream condition.
    let h = WaveHeader {
        fmt: WaveFmtChunk {
            n_channels: 1,
            sample_rate: 8000,
            bits_per_sample: 16,
            block_align: 2,
        },
        data: WaveDataChunk { byte_len: 8 },
    };
    let mut bytes = h.bytes();
    bytes.extend_from_slice(&[1, 2, 3]);
    let mut reader = WaveFormat::read(MemSource::new(bytes)).unwrap();
    let mut buf: Vec<u8> = vec![0; 16];
    assert_eq!(reader.read_payload(&mut buf), Err(PhonicError::InvalidData));
}
