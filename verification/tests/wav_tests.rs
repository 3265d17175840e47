//! WAV header and sample serialization: write-then-read preserves 16-bit
//! PCM exactly.

use xiao_stream::wav::{
    build_wav_header, bytes_to_samples, interleave, parse_wav_header, samples_to_bytes,
    WavReader,
};

#[test]
fn header_round_trip() {
    let header = build_wav_header(16_000, 1, 32_000);
    assert_eq!(header.len(), 44);
    assert_eq!(&header[0..4], b"RIFF");
    assert_eq!(&header[8..12], b"WAVE");
    assert_eq!(&header[12..16], b"fmt ");
    assert_eq!(&header[36..40], b"data");
    let info = parse_wav_header(&header).expect("a canonical header must parse");
    assert_eq!(info.sample_rate, 16_000);
    assert_eq!(info.channels, 1);
    assert_eq!(info.data_size, 32_000);
}

#[test]
fn header_fields_little_endian() {
    let header = build_wav_header(48_000, 2, 1_000);
    assert_eq!(&header[22..24], &2u16.to_le_bytes());
    assert_eq!(&header[24..28], &48_000u32.to_le_bytes());
    // Byte rate is rate * channels * 2; block align channels * 2.
    assert_eq!(&header[28..32], &192_000u32.to_le_bytes());
    assert_eq!(&header[32..34], &4u16.to_le_bytes());
    assert_eq!(&header[40..44], &1_000u32.to_le_bytes());
}

#[test]
fn corrupt_header_rejected() {
    let mut header = build_wav_header(16_000, 1, 0);
    header[0] = b'X';
    assert!(parse_wav_header(&header).is_none());
    assert!(parse_wav_header(&vec![0u8; 43]).is_none());
}

#[test]
fn samples_round_trip_exactly() {
    let samples: Vec<i16> = vec![0, 1, -1, 32767, -32768, 12345, -12345, 100, -100];
    let bytes = samples_to_bytes(&samples);
    assert_eq!(bytes.len(), samples.len() * 2);
    let back = bytes_to_samples(&bytes);
    assert_eq!(back, samples);
}

#[test]
fn write_then_read_whole_file() {
    // Build a little file and read it back frame by frame: every sample
    // value survives.
    let samples: Vec<i16> = (0..640).map(|i| ((i * 37) % 30000) as i16 - 15000).collect();
    let data = samples_to_bytes(&samples);
    let mut file = build_wav_header(16_000, 1, data.len() as u32);
    file.extend_from_slice(&data);

    let mut reader = WavReader::open(&file).expect("the file must open");
    assert_eq!(reader.config.sample_rate, 16_000);
    assert_eq!(reader.config.channels, 1);
    assert_eq!(reader.config.frame_size, 320);
    let mut got: Vec<i16> = Vec::new();
    while let Some(frame) = reader.read_one_frame() {
        assert_eq!(frame.len(), 320);
        got.extend_from_slice(&frame);
    }
    assert_eq!(got, samples);
}

#[test]
fn short_final_frame() {
    let samples: Vec<i16> = vec![5; 100];
    let data = samples_to_bytes(&samples);
    let mut file = build_wav_header(16_000, 1, data.len() as u32);
    file.extend_from_slice(&data);
    let mut reader = WavReader::open(&file).expect("the file must open");
    let frame = reader.read_one_frame().expect("one short frame");
    assert_eq!(frame.len(), 100);
    assert!(reader.read_one_frame().is_none());
}

#[test]
fn interleave_stereo() {
    let left: Vec<i16> = vec![1, 3, 5];
    let right: Vec<i16> = vec![2, 4, 6];
    assert_eq!(interleave(&left, &right), vec![1, 2, 3, 4, 5, 6]);
}
