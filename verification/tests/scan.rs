use wav_stream::chunk::{parse_chunks, parse_list, parse_riff, Chunk, MAX_CHUNKS};
use wav_stream::error::Error;
use wav_stream::tag::ChunkTag;

fn plain_wave() -> [u8; 60] {
    [
        0x52, 0x49, 0x46, 0x46, // RIFF
        0x34, 0x00, 0x00, 0x00, // chunk size
        0x57, 0x41, 0x56, 0x45, // WAVE
        0x66, 0x6d, 0x74, 0x20, // fmt_
        0x10, 0x00, 0x00, 0x00, // chunk size
        0x01, 0x00, // audio format
        0x02, 0x00, // num channels
        0x22, 0x56, 0x00, 0x00, // sample rate
        0x88, 0x58, 0x01, 0x00, // byte rate
        0x04, 0x00, // block align
        0x10, 0x00, // bits per sample
        0x64, 0x61, 0x74, 0x61, // data
        0x10, 0x00, 0x00, 0x00, // chunk size
        0x00, 0x00, 0x00, 0x00, // sample 1 L+R
        0x24, 0x17, 0x1e, 0xf3, // sample 2 L+R
        0x3c, 0x13, 0x3c, 0x14, // sample 3 L+R
        0x16, 0xf9, 0x18, 0xf9, // sample 4 L+R
    ]
}

fn not_a_wave() -> [u8; 60] {
    let mut bytes = plain_wave();
    bytes[11] = 0x56; // WAVV
    bytes
}

fn not_a_wave_with_random_chunks() -> [u8; 88] {
    [
        0x52, 0x49, 0x46, 0x46, // RIFF
        0x34, 0x00, 0x00, 0x00, // chunk size
        0x57, 0x41, 0x56, 0x56, // WAVV
        0x66, 0x6d, 0x74, 0x20, // fmt_
        0x10, 0x00, 0x00, 0x00, // chunk size
        0x01, 0x00, // audio format
        0x02, 0x00, // num channels
        0x22, 0x56, 0x00, 0x00, // sample rate
        0x88, 0x58, 0x01, 0x00, // byte rate
        0x04, 0x00, // block align
        0x10, 0x00, // bits per sample
        0x72, 0x6e, 0x64, 0x6d, // rndm
        0x04, 0x00, 0x00, 0x00, // chunk size
        0xaa, 0xaa, 0xaa, 0xaa, // ...
        0x8b, 0xad, 0xf0, 0x0d, // 8badfood
        0x08, 0x00, 0x00, 0x00, // chunk size
        0xaa, 0xff, 0xaa, 0xff, // ...
        0xff, 0xaa, 0xff, 0xaa, // ...
        0x64, 0x61, 0x74, 0x61, // data
        0x10, 0x00, 0x00, 0x00, // chunk size
        0x00, 0x00, 0x00, 0x00, // sample 1 L+R
        0x24, 0x17, 0x1e, 0xf3, // sample 2 L+R
        0x3c, 0x13, 0x3c, 0x14, // sample 3 L+R
        0x16, 0xf9, 0x18, 0xf9, // sample 4 L+R
    ]
}

#[test]
fn should_parse_chunks() {
    let bytes = plain_wave();

    let chunks = parse_riff(&bytes).unwrap();

    assert_eq!(chunks.len(), 2);
    assert!(chunks.iter().find(|c| c.id == ChunkTag::Fmt).is_some());
    assert!(chunks.iter().find(|c| c.id == ChunkTag::Data).is_some());
}

#[test]
fn should_fail_on_non_wave_files() {
    let bytes = not_a_wave();

    assert_eq!(parse_riff(&bytes).unwrap_err(), Error::NoWaveTagFound);
}

#[test]
fn should_not_fail_with_random_chunks_added() {
    let bytes = not_a_wave_with_random_chunks();

    assert_eq!(parse_riff(&bytes).unwrap_err(), Error::NoWaveTagFound);
}

#[test]
fn chunk_should_parse_chunks() {
    let bytes = plain_wave();

    let chunks = parse_chunks(&bytes).unwrap();

    assert_eq!(chunks.len(), 2);
    assert!(chunks.iter().find(|c| c.id == ChunkTag::Fmt).is_some());
    assert!(chunks.iter().find(|c| c.id == ChunkTag::Data).is_some());
}

#[test]
fn chunk_should_fail_on_non_wave_files() {
    let bytes = not_a_wave();

    assert_eq!(parse_chunks(&bytes).unwrap_err(), Error::NoWaveTagFound);
}

#[test]
fn chunk_should_not_fail_with_random_chunks_added() {
    let bytes = not_a_wave_with_random_chunks();

    assert_eq!(parse_chunks(&bytes).unwrap_err(), Error::NoWaveTagFound);
}

fn ranges(chunks: &heapless::Vec<Chunk, MAX_CHUNKS>) -> Vec<(ChunkTag, usize, usize)> {
    chunks.iter().map(|c| (c.id, c.start, c.end)).collect()
}

#[test]
fn scan_reports_byte_ranges_in_the_window() {
    let chunks = parse_riff(&plain_wave()).unwrap();
    assert_eq!(ranges(&chunks), vec![(ChunkTag::Fmt, 20, 36), (ChunkTag::Data, 44, 60)]);
}

#[test]
fn scan_keeps_unknown_chunks_in_order() {
    let mut bytes = not_a_wave_with_random_chunks();
    bytes[11] = 0x45; // WAVE
    let chunks = parse_riff(&bytes).unwrap();
    assert_eq!(
        ranges(&chunks),
        vec![
            (ChunkTag::Fmt, 20, 36),
            (ChunkTag::Unknown([0x72, 0x6e, 0x64, 0x6d]), 44, 48),
            (ChunkTag::Unknown([0x8b, 0xad, 0xf0, 0x0d]), 56, 64),
            (ChunkTag::Data, 72, 88),
        ]
    );
}

#[test]
fn scan_skips_one_padding_byte_after_odd_content() {
    let mut bytes = vec![0x52, 0x49, 0x46, 0x46, 0, 0, 0, 0, 0x57, 0x41, 0x56, 0x45];
    bytes.extend_from_slice(&[0x6f, 0x64, 0x64, 0x20, 3, 0, 0, 0, 1, 2, 3, 0]); // "odd ", 3 bytes
    bytes.extend_from_slice(&[0x64, 0x61, 0x74, 0x61, 2, 0, 0, 0, 9, 9]); // data, 2 bytes
    let chunks = parse_riff(&bytes).unwrap();
    assert_eq!(
        ranges(&chunks),
        vec![(ChunkTag::Unknown([0x6f, 0x64, 0x64, 0x20]), 20, 23), (ChunkTag::Data, 32, 34)]
    );
}

#[test]
fn scan_takes_a_size_past_the_window_as_it_is() {
    let mut bytes = plain_wave().to_vec();
    bytes.truncate(44);
    bytes[40] = 0x00;
    bytes[41] = 0x00;
    bytes[42] = 0x01; // data chunk of 65536 bytes
    let chunks = parse_riff(&bytes).unwrap();
    assert_eq!(ranges(&chunks), vec![(ChunkTag::Fmt, 20, 36), (ChunkTag::Data, 44, 44 + 65536)]);
}

#[test]
fn scan_fails_without_riff() {
    let mut bytes = plain_wave();
    bytes[0] = 0x58;
    assert_eq!(parse_riff(&bytes).unwrap_err(), Error::NoRiffChunkFound);
}

#[test]
fn scan_fails_on_a_window_shorter_than_a_header() {
    assert_eq!(parse_riff(&[0x52, 0x49, 0x46]).unwrap_err(), Error::CantParseSliceInto);
    assert_eq!(parse_riff(&plain_wave()[..10]).unwrap_err(), Error::CantParseSliceInto);
    assert_eq!(parse_riff(&plain_wave()[..15]).unwrap_err(), Error::CantParseSliceInto);
}

#[test]
fn scan_of_a_bare_container_is_empty() {
    let chunks = parse_riff(&plain_wave()[..12]).unwrap();
    assert_eq!(chunks.len(), 0);
}

fn wave_with_empty_chunks(n: usize) -> Vec<u8> {
    let mut bytes = vec![0x52, 0x49, 0x46, 0x46, 0, 0, 0, 0, 0x57, 0x41, 0x56, 0x45];
    for i in 0..n {
        bytes.extend_from_slice(&[0x63, 0x68, 0x30 + (i / 10) as u8, 0x30 + (i % 10) as u8]);
        bytes.extend_from_slice(&[0, 0, 0, 0]);
    }
    bytes
}

#[test]
fn scan_holds_as_many_chunks_as_the_list_takes() {
    let chunks = parse_riff(&wave_with_empty_chunks(MAX_CHUNKS)).unwrap();
    assert_eq!(chunks.len(), MAX_CHUNKS);
    assert_eq!(chunks[MAX_CHUNKS - 1].id, ChunkTag::Unknown([0x63, 0x68, 0x31, 0x39]));
}

#[test]
fn scan_fails_on_more_chunks_than_the_list_takes() {
    assert_eq!(
        parse_riff(&wave_with_empty_chunks(MAX_CHUNKS + 1)).unwrap_err(),
        Error::TooManyChunks
    );
}

fn info_list() -> Vec<u8> {
    let mut bytes = vec![0x4c, 0x49, 0x53, 0x54, 0x1a, 0, 0, 0, 0x49, 0x4e, 0x46, 0x4f];
    bytes.extend_from_slice(&[0x49, 0x53, 0x46, 0x54, 0x0e, 0, 0, 0]); // ISFT, 14 bytes
    bytes.extend_from_slice(b"Lavf58.29.100\0");
    bytes.extend_from_slice(&[0x64, 0x61, 0x74, 0x61, 0x10, 0, 0, 0]); // data
    bytes
}

#[test]
fn list_scan_reports_sub_chunks_and_what_follows() {
    let chunks = parse_list(&info_list()).unwrap();
    assert_eq!(
        ranges(&chunks),
        vec![(ChunkTag::Unknown([0x49, 0x53, 0x46, 0x54]), 20, 34), (ChunkTag::Data, 42, 58)]
    );
}

#[test]
fn list_scan_fails_without_list_or_info() {
    assert_eq!(parse_list(&plain_wave()).unwrap_err(), Error::NoListTagFound);
    let mut bytes = info_list();
    bytes[8] = 0x61;
    assert_eq!(parse_list(&bytes).unwrap_err(), Error::NoInfoTagFound);
}
