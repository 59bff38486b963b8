use wav_stream::audio::{AudioFile, Opening};
use wav_stream::chunk::Chunk;
use wav_stream::error::Error;
use wav_stream::fmt::{AudioCodec, Fmt};
use wav_stream::sample::Data;
use wav_stream::tag::ChunkTag;
use wav_stream::wav::{Wav, HEADER_SIZE};

fn file_with(bits: u8, data: &[u8]) -> Vec<u8> {
    let mut bytes = vec![
        0x52, 0x49, 0x46, 0x46, // RIFF
        0x00, 0x00, 0x00, 0x00, // chunk size
        0x57, 0x41, 0x56, 0x45, // WAVE
        0x66, 0x6d, 0x74, 0x20, // fmt_
        0x10, 0x00, 0x00, 0x00, // chunk size
        0x01, 0x00, // audio format
        0x02, 0x00, // num channels
        0x22, 0x56, 0x00, 0x00, // sample rate
        0x88, 0x58, 0x01, 0x00, // byte rate
        0x04, 0x00, // block align
        bits, 0x00, // bits per sample
        0x64, 0x61, 0x74, 0x61, // data
    ];
    bytes.extend_from_slice(&(data.len() as u32).to_le_bytes());
    bytes.extend_from_slice(data);
    bytes
}

const SAMPLES: [u8; 16] = [
    0x00, 0x00, 0x00, 0x00, // sample 1 L+R
    0x24, 0x17, 0x1e, 0xf3, // sample 2 L+R
    0x3c, 0x13, 0x3c, 0x14, // sample 3 L+R
    0x16, 0xf9, 0x18, 0xf9, // sample 4 L+R
];

fn ranges(chunks: &[Chunk]) -> Vec<(ChunkTag, usize, usize)> {
    chunks.iter().map(|c| (c.id, c.start, c.end)).collect()
}

#[test]
fn open_finds_format_and_data() {
    let file = file_with(16, &SAMPLES);
    let wav = Wav::new(&file[..HEADER_SIZE]).unwrap();
    assert_eq!(wav.sample_rate(), 22050);
    assert_eq!(wav.num_channels(), 2);
    assert_eq!(wav.bit_depth(), 16);
    assert_eq!(wav.audio_codec(), AudioCodec::UncompressedPcm);
    assert_eq!((wav.data.id, wav.data.start, wav.data.end), (ChunkTag::Data, 44, 60));
    assert_eq!(wav.position(), 44);
    assert!(wav.ancillary_chunks().is_empty());
    assert!(!wav.is_end());
}

#[test]
fn open_keeps_the_other_chunks() {
    let mut file = file_with(16, &SAMPLES);
    file.extend_from_slice(&[0x63, 0x75, 0x65, 0x20, 2, 0, 0, 0, 7, 7]); // "cue ", 2 bytes
    file.extend_from_slice(&[0x4c, 0x49, 0x53, 0x54, 0, 0, 0, 0]); // LIST, empty
    let wav = Wav::new(&file).unwrap();
    assert_eq!(
        ranges(wav.ancillary_chunks()),
        vec![(ChunkTag::Unknown(*b"cue "), 68, 70), (ChunkTag::List, 78, 78)]
    );
    assert_eq!((wav.data.start, wav.data.end), (44, 60));
}

#[test]
fn open_names_a_wrong_root_tag() {
    let mut file = file_with(16, &SAMPLES);
    file[3] = 0x58; // RIFX
    assert_eq!(Wav::new(&file[..HEADER_SIZE]).err(), Some(Error::NoRiffChunkFound));
    assert_eq!(
        AudioFile::<512>::new_wav(&file[..HEADER_SIZE]).err(),
        Some(Error::NoRiffChunkFound)
    );
}

#[test]
fn open_names_a_wrong_identifier() {
    let mut file = file_with(16, &SAMPLES);
    file[11] = 0x56; // WAVV
    assert_eq!(Wav::new(&file[..HEADER_SIZE]).err(), Some(Error::NoWaveTagFound));
    assert_eq!(AudioFile::<512>::new_wav(&file[..HEADER_SIZE]).err(), Some(Error::NoWaveTagFound));
}

#[test]
fn open_fails_without_format_or_data() {
    let mut file = file_with(16, &SAMPLES);
    file[12] = 0x46; // "Fmt "
    assert_eq!(Wav::new(&file[..HEADER_SIZE]).err(), Some(Error::NoFmtChunkFound));
    let mut file = file_with(16, &SAMPLES);
    file[36] = 0x44; // "Data"
    assert_eq!(Wav::new(&file[..HEADER_SIZE]).err(), Some(Error::NoDataChunkFound));
}

#[test]
fn open_fails_on_another_codec() {
    let mut file = file_with(16, &SAMPLES);
    file[20] = 0x03;
    assert_eq!(Wav::new(&file[..HEADER_SIZE]).err(), Some(Error::UnsupportedFormat(3)));
}

#[test]
fn open_fails_on_a_format_chunk_past_the_window() {
    let file = file_with(16, &SAMPLES);
    assert_eq!(Wav::new(&file[..30]).err(), Some(Error::CantParseSliceInto));
}

#[test]
fn samples_of_sixteen_bits_until_the_end() {
    let file = file_with(16, &SAMPLES);
    let mut wav = Wav::new(&file[..HEADER_SIZE]).unwrap();
    let mut got = Vec::new();
    while !wav.is_end() {
        let n = wav.sample_len().unwrap();
        assert_eq!(n, 2);
        let at = wav.position();
        match wav.next(&file[at..at + n]).unwrap() {
            Data::BitDepth16(v) => got.push(v),
            other => panic!("unexpected sample {:?}", other),
        }
        assert_eq!(wav.position(), at + n);
    }
    assert_eq!(got, vec![0, 0, 0x1724, -3298, 0x133c, 0x143c, -1770, -1768]);
    assert_eq!(wav.position(), 60);
    assert_eq!(wav.position() - wav.data.start, wav.data.end - wav.data.start);
}

#[test]
fn end_is_reached_exactly_when_all_data_is_read() {
    let file = file_with(8, &[1, 2, 3]);
    let mut wav = Wav::new(&file[..HEADER_SIZE]).unwrap();
    for i in 0..3usize {
        assert!(!wav.is_end());
        assert_eq!(wav.next(&file[44 + i..45 + i]), Ok(Data::BitDepth8(i as u8 + 1)));
    }
    assert!(wav.is_end());
}

#[test]
fn empty_data_is_at_its_end_at_once() {
    let file = file_with(16, &[]);
    let wav = Wav::new(&file).unwrap();
    assert!(wav.is_end());
}

#[test]
fn samples_of_twenty_four_bits() {
    let file = file_with(24, &[0x00, 0x00, 0x80, 0x56, 0x34, 0x12]);
    let mut wav = Wav::new(&file[..HEADER_SIZE]).unwrap();
    assert_eq!(wav.sample_len(), Ok(3));
    assert_eq!(wav.next(&file[44..47]), Ok(Data::BitDepth24(0xFF80_0000u32 as i32)));
    assert_eq!(wav.next(&file[47..50]), Ok(Data::BitDepth24(0x12_3456)));
    assert!(wav.is_end());
}

#[test]
fn sample_of_another_depth_fails_and_stays() {
    let file = file_with(32, &SAMPLES);
    let mut wav = Wav::new(&file[..HEADER_SIZE]).unwrap();
    assert_eq!(wav.sample_len(), Err(Error::UnsupportedBitDepth(32)));
    assert_eq!(wav.next(&file[44..48]), Err(Error::UnsupportedBitDepth(32)));
    assert_eq!(wav.position(), 44);
}

#[test]
fn sample_that_reaches_past_the_data_fails_and_stays() {
    let file = file_with(16, &[1, 2, 3]);
    let mut wav = Wav::new(&file[..HEADER_SIZE]).unwrap();
    assert_eq!(wav.next(&file[44..46]), Ok(Data::BitDepth16(0x0201)));
    assert!(!wav.is_end());
    assert_eq!(wav.next(&[3, 0]), Err(Error::CantParseSliceInto));
    assert_eq!(wav.next(&[3]), Err(Error::CantParseSliceInto));
    assert_eq!(wav.position(), 46);
}

#[test]
fn blocks_of_eight_bit_samples() {
    let file = file_with(8, &SAMPLES);
    let mut wav = Wav::new(&file[..HEADER_SIZE]).unwrap();
    assert_eq!(wav.next_n(&file[44..54]), Ok(10));
    assert_eq!(wav.position(), 54);
    assert_eq!(wav.next_n(&file[54..60]), Ok(6));
    assert!(wav.is_end());
}

#[test]
fn blocks_fail_on_other_depths_and_past_the_data() {
    let file = file_with(16, &SAMPLES);
    let mut wav = Wav::new(&file[..HEADER_SIZE]).unwrap();
    assert_eq!(wav.next_n(&file[44..48]), Err(Error::UnsupportedBitDepth(16)));
    assert_eq!(wav.position(), 44);
    let file = file_with(8, &[1, 2, 3]);
    let mut wav = Wav::new(&file[..HEADER_SIZE]).unwrap();
    assert_eq!(wav.next_n(&[1, 2, 3, 4]), Err(Error::CantParseSliceInto));
    assert_eq!(wav.position(), 44);
}

fn opened<const N: usize>(header: &[u8]) -> AudioFile<N> {
    match AudioFile::<N>::new_wav(header).unwrap() {
        Opening::Ready(file) => file,
        Opening::List { .. } => panic!("the data chunk is in the header window"),
    }
}

#[test]
fn buffered_open_finds_format_and_data() {
    let file = file_with(16, &SAMPLES);
    let audio: AudioFile<8> = opened(&file[..HEADER_SIZE]);
    assert_eq!((audio.read, audio.start, audio.end), (44, 44, 60));
    assert_eq!(audio.sample_rate(), 22050);
    assert_eq!(audio.num_channels(), 2);
    assert_eq!(audio.bit_depth(), 16);
    assert_eq!(audio.audio_codec(), AudioCodec::UncompressedPcm);
    assert!(audio.ancillary_chunks().is_empty());
    assert_eq!(audio.cursor, 8);
    assert!(!audio.is_end());
}

fn file_with_list() -> Vec<u8> {
    let mut file = file_with(16, &SAMPLES);
    file.truncate(36);
    file.extend_from_slice(&[0x4c, 0x49, 0x53, 0x54, 0x1a, 0, 0, 0, 0x49, 0x4e, 0x46, 0x4f]);
    file.extend_from_slice(&[0x49, 0x53, 0x46, 0x54, 0x0e, 0, 0, 0]); // ISFT, 14 bytes
    file.extend_from_slice(b"Lavf58.29.100\0");
    file.extend_from_slice(&[0x64, 0x61, 0x74, 0x61, 0x10, 0, 0, 0]); // data
    file.extend_from_slice(&SAMPLES);
    file
}

#[test]
fn buffered_open_looks_for_data_behind_a_list() {
    let file = file_with_list();
    let (fmt, offset) = match AudioFile::<8>::new_wav(&file[..HEADER_SIZE]).unwrap() {
        Opening::List { fmt, offset } => (fmt, offset),
        Opening::Ready(_) => panic!("no data chunk is in the header window"),
    };
    assert_eq!(offset, 36);
    assert_eq!(
        fmt,
        Fmt {
            audio_format: AudioCodec::UncompressedPcm,
            sample_rate: 22050,
            num_channels: 2,
            bit_depth: 16,
        }
    );
    let window = &file[offset..offset + HEADER_SIZE];
    let audio = AudioFile::<8>::new_wav_in_list(fmt, offset, window).unwrap();
    assert_eq!((audio.read, audio.start, audio.end), (78, 78, 94));
    assert_eq!(&file[audio.start..audio.end], &SAMPLES);
    assert_eq!(ranges(audio.ancillary_chunks()), vec![(ChunkTag::Unknown(*b"ISFT"), 56, 70)]);
    assert_eq!(audio.bit_depth(), 16);
}

#[test]
fn buffered_open_fails_when_the_list_holds_no_data() {
    let file = file_with_list();
    let fmt = Fmt {
        audio_format: AudioCodec::UncompressedPcm,
        sample_rate: 22050,
        num_channels: 2,
        bit_depth: 16,
    };
    assert_eq!(
        AudioFile::<8>::new_wav_in_list(fmt, 36, &file[36..70]).err(),
        Some(Error::NoDataChunkFound)
    );
    assert_eq!(
        AudioFile::<8>::new_wav_in_list(fmt, 44, &file[44..88]).err(),
        Some(Error::NoListTagFound)
    );
    let mut other = file.clone();
    other[44] = 0x69; // "iNFO"
    assert_eq!(
        AudioFile::<8>::new_wav_in_list(fmt, 36, &other[36..80]).err(),
        Some(Error::NoInfoTagFound)
    );
    assert_eq!(
        AudioFile::<8>::new_wav_in_list(fmt, usize::MAX - 50, &file[36..80]).err(),
        Some(Error::ChunkOutOfRange)
    );
}

struct Device {
    bytes: Vec<u8>,
    at: usize,
    reads: usize,
}

impl Device {
    fn read(&mut self, n: usize) -> Vec<u8> {
        let end = (self.at + n).min(self.bytes.len());
        let block = self.bytes[self.at..end].to_vec();
        self.at = end;
        self.reads += 1;
        block
    }
}

fn fill<const N: usize>(
    audio: &mut AudioFile<N>,
    device: &mut Device,
    buf: &mut [u8],
) -> Result<(), Error> {
    let copied = audio.read_exact(buf);
    if copied < buf.len() {
        let block = device.read(N);
        audio.refill(&block, buf, copied)?;
    }
    Ok(())
}

#[test]
fn buffered_reads_hand_out_the_device_bytes_in_order() {
    let data: Vec<u8> = (0..64u8).collect();
    let file = file_with(8, &data);
    let mut audio: AudioFile<8> = opened(&file[..HEADER_SIZE]);
    let mut device = Device { bytes: file.clone(), at: audio.start, reads: 0 };
    let mut got = Vec::new();
    for n in [3usize, 3, 3, 1, 8, 5, 2, 7] {
        let mut buf = vec![0xee; n];
        fill(&mut audio, &mut device, &mut buf).unwrap();
        got.extend_from_slice(&buf);
    }
    assert_eq!(got, data[..32].to_vec());
    assert_eq!(audio.read, audio.start + 32);
    assert_eq!(device.reads, 4);
}

#[test]
fn buffered_read_within_the_buffer_needs_no_device_read() {
    let data: Vec<u8> = (10..42u8).collect();
    let file = file_with(8, &data);
    let mut audio: AudioFile<8> = opened(&file[..HEADER_SIZE]);
    let mut device = Device { bytes: file.clone(), at: audio.start, reads: 0 };
    let mut buf = [0u8; 3];
    fill(&mut audio, &mut device, &mut buf).unwrap();
    assert_eq!(buf, [10, 11, 12]);
    assert_eq!((device.reads, audio.cursor), (1, 3));
    let mut buf = [0u8; 5];
    assert_eq!(audio.read_exact(&mut buf), 5);
    assert_eq!(buf, [13, 14, 15, 16, 17]);
    assert_eq!((device.reads, audio.cursor), (1, 8));
    let mut buf = [0xeeu8; 4];
    assert_eq!(audio.read_exact(&mut buf), 0);
    assert_eq!(buf, [0xee; 4]);
}

#[test]
fn buffered_read_across_blocks_joins_both_parts() {
    let data: Vec<u8> = (0..32u8).collect();
    let file = file_with(8, &data);
    let mut audio: AudioFile<8> = opened(&file[..HEADER_SIZE]);
    let mut device = Device { bytes: file.clone(), at: audio.start, reads: 0 };
    let mut buf = [0u8; 6];
    fill(&mut audio, &mut device, &mut buf).unwrap();
    let mut buf = [0u8; 6];
    assert_eq!(audio.read_exact(&mut buf), 2);
    assert_eq!(buf, [6, 7, 0, 0, 0, 0]);
    let block = device.read(8);
    assert_eq!(audio.refill(&block, &mut buf, 2), Ok(()));
    assert_eq!(buf, [6, 7, 8, 9, 10, 11]);
    assert_eq!((audio.cursor, audio.read), (4, 44 + 12));
}

#[test]
fn buffered_read_fails_on_a_short_block() {
    let data: Vec<u8> = (0..12u8).collect();
    let file = file_with(8, &data);
    let mut audio: AudioFile<8> = opened(&file[..HEADER_SIZE]);
    let mut device = Device { bytes: file.clone(), at: audio.start, reads: 0 };
    let mut buf = [0u8; 8];
    fill(&mut audio, &mut device, &mut buf).unwrap();
    assert_eq!(buf, [0, 1, 2, 3, 4, 5, 6, 7]);
    let mut buf = [0xeeu8; 2];
    assert_eq!(fill(&mut audio, &mut device, &mut buf), Err(Error::DeviceReadShort));
    assert_eq!(buf, [0xee; 2]);
    assert_eq!((audio.cursor, audio.read), (8, 52));
}

#[test]
fn buffered_end_is_reached_with_the_data() {
    let data: Vec<u8> = (0..16u8).collect();
    let file = file_with(8, &data);
    let mut audio: AudioFile<8> = opened(&file[..HEADER_SIZE]);
    let mut device = Device { bytes: file.clone(), at: audio.start, reads: 0 };
    let mut read = 0;
    while !audio.is_end() {
        let mut buf = [0u8; 4];
        fill(&mut audio, &mut device, &mut buf).unwrap();
        read += 4;
    }
    assert_eq!(read, 16);
}
