use wave_demux::chunks::{ChunksReader, RiffWaveChunks};
use wave_demux::errors::Error;
use wave_demux::io::ByteStream;

fn le32(n: u32) -> Vec<u8> {
    vec![
        (n & 0xff) as u8,
        ((n >> 8) & 0xff) as u8,
        ((n >> 16) & 0xff) as u8,
        ((n >> 24) & 0xff) as u8,
    ]
}

fn raw_chunk(id: &[u8; 4], payload: &[u8], pad: bool) -> Vec<u8> {
    let mut v = Vec::new();
    v.extend_from_slice(id);
    v.extend_from_slice(&le32(payload.len() as u32));
    v.extend_from_slice(payload);
    if pad && payload.len() % 2 == 1 {
        v.push(0);
    }
    v
}

#[test]
fn odd_skipped_chunk_consumes_length_plus_one() {
    // One unrecognized chunk with odd length 5, then a recognized header.
    // Before the recognized header is read, the reader must have consumed
    // exactly 8 + 5 + 1 bytes: header, payload, one pad byte.
    let mut region = raw_chunk(b"abcd", &[1, 2, 3, 4, 5], true);
    region.extend_from_slice(&raw_chunk(b"data", &[], true));
    let region_len = region.len() as u32;
    let mut s = ByteStream::new(region);
    let mut reader = ChunksReader::<RiffWaveChunks>::new(region_len);
    let r = reader.next(&mut s);
    assert!(matches!(r, Ok(Some(RiffWaveChunks::Data))));
    // 8 + 5 + 1 bytes for the odd chunk, 8 for the data header.
    assert_eq!(s.position(), 8 + 5 + 1 + 8);
}

#[test]
fn mixed_odd_and_even_chunks_keep_exact_positions() {
    // A randomized-shape sequence of unrecognized chunks with mixed odd
    // and even lengths; the final cursor position is the exact sum of
    // headers, payloads, and one pad byte per odd payload.
    let lengths: [usize; 7] = [3, 4, 1, 0, 7, 2, 9];
    let mut region = Vec::new();
    let mut expected: usize = 0;
    for (i, l) in lengths.iter().enumerate() {
        let payload = vec![i as u8; *l];
        region.extend_from_slice(&raw_chunk(b"zzzz", &payload, true));
        expected += 8 + l + (l % 2);
    }
    region.extend_from_slice(&raw_chunk(b"fact", &le32(9), true));
    expected += 8;
    let region_len = region.len() as u32;
    let mut s = ByteStream::new(region);
    let mut reader = ChunksReader::<RiffWaveChunks>::new(region_len);
    let r = reader.next(&mut s);
    assert!(matches!(r, Ok(Some(RiffWaveChunks::Fact(4)))));
    assert_eq!(s.position(), expected);
}

#[test]
fn finish_lands_cursor_at_region_end() {
    // Traversal that stops early: finish must leave the cursor exactly at
    // the region's declared end, whatever was left uninspected.
    let mut region = raw_chunk(b"uvwx", &[0u8; 6], true);
    region.extend_from_slice(&raw_chunk(b"qrst", &[0u8; 10], true));
    let region_len = region.len() as u32;
    let mut tail = region.clone();
    tail.extend_from_slice(&[0xee; 3]); // bytes past the region
    let mut s = ByteStream::new(tail);
    let mut reader = ChunksReader::<RiffWaveChunks>::new(region_len);
    assert!(matches!(reader.finish(&mut s), Ok(())));
    assert_eq!(s.position(), region_len as usize);
}

#[test]
fn region_too_small_for_header_ends_cleanly() {
    let region = vec![0u8; 7];
    let mut s = ByteStream::new(region);
    let mut reader = ChunksReader::<RiffWaveChunks>::new(7);
    let r = reader.next(&mut s);
    assert!(matches!(r, Ok(None)));
}

#[test]
fn header_past_stream_end_is_truncated() {
    // The region budget promises a header the stream does not hold.
    let mut s = ByteStream::new(vec![0u8; 3]);
    let mut reader = ChunksReader::<RiffWaveChunks>::new(100);
    assert_eq!(reader.next(&mut s), Err(Error::Truncated));
}
