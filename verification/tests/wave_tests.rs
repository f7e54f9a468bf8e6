use wave_demux::codec::{CodecType, FormatOptions, ProbeDepth, ProbeResult, Timestamp};
use wave_demux::errors::Error;
use wave_demux::io::ByteStream;
use wave_demux::meta::TagKey;
use wave_demux::wave::WavReader;

fn le32(n: u32) -> Vec<u8> {
    vec![
        (n & 0xff) as u8,
        ((n >> 8) & 0xff) as u8,
        ((n >> 16) & 0xff) as u8,
        ((n >> 24) & 0xff) as u8,
    ]
}

fn le16(n: u16) -> Vec<u8> {
    vec![(n & 0xff) as u8, ((n >> 8) & 0xff) as u8]
}

/// A chunk: 4-byte id, 4-byte little-endian length, payload, and one pad
/// byte when the payload length is odd.
fn chunk(id: &[u8; 4], payload: &[u8]) -> Vec<u8> {
    let mut v = Vec::new();
    v.extend_from_slice(id);
    v.extend_from_slice(&le32(payload.len() as u32));
    v.extend_from_slice(payload);
    if payload.len() % 2 == 1 {
        v.push(0);
    }
    v
}

/// A whole RIFF/WAVE container around the given chunk bytes.
fn container(body: &[u8]) -> Vec<u8> {
    let mut v = Vec::new();
    v.extend_from_slice(b"RIFF");
    v.extend_from_slice(&le32((body.len() + 4) as u32));
    v.extend_from_slice(b"WAVE");
    v.extend_from_slice(body);
    v
}

/// A 16-byte PCM format chunk payload.
fn fmt_pcm(channels: u16, rate: u32, bits: u16) -> Vec<u8> {
    let mut p = Vec::new();
    p.extend_from_slice(&le16(1));
    p.extend_from_slice(&le16(channels));
    p.extend_from_slice(&le32(rate));
    p.extend_from_slice(&le32(rate * channels as u32 * (bits as u32 / 8)));
    p.extend_from_slice(&le16(channels * bits / 8));
    p.extend_from_slice(&le16(bits));
    p
}

fn probe_bytes(data: Vec<u8>, depth: ProbeDepth) -> (WavReader, Result<ProbeResult, Error>) {
    let mut reader = WavReader::open(ByteStream::new(data), &FormatOptions {});
    let r = reader.probe(depth);
    (reader, r)
}

#[test]
fn format_then_data_is_supported() {
    let mut body = chunk(b"fmt ", &fmt_pcm(2, 44100, 16));
    body.extend_from_slice(&chunk(b"data", &[0u8; 32]));
    let (reader, r) = probe_bytes(container(&body), ProbeDepth::Shallow);
    assert_eq!(r, Ok(ProbeResult::Supported));
    assert_eq!(reader.streams().len(), 1);
    let p = reader.streams()[0].codec_params;
    assert_eq!(p.sample_rate, Some(44100));
    assert_eq!(p.n_channels, Some(2));
}

#[test]
fn pcm16_stereo_parameters_exact() {
    let mut body = chunk(b"fmt ", &fmt_pcm(2, 44100, 16));
    body.extend_from_slice(&chunk(b"data", &[]));
    let (reader, r) = probe_bytes(container(&body), ProbeDepth::Shallow);
    assert_eq!(r, Ok(ProbeResult::Supported));
    let p = reader.streams()[0].codec_params;
    assert_eq!(p.codec, Some(CodecType::PcmS16Le));
    assert_eq!(p.n_channels, Some(2));
    assert_eq!(p.sample_rate, Some(44100));
    assert_eq!(p.max_frames_per_packet, Some(4096));
    assert_eq!(p.bits_per_sample, Some(16));
    assert_eq!(p.bits_per_coded_sample, Some(16));
    assert_eq!(p.n_frames, None);
}

#[test]
fn odd_chunks_consume_padded_length() {
    // Two unrecognized chunks with odd payload lengths, then a data
    // chunk. The traversal must consume exactly length + 1 bytes per odd
    // chunk; if it did not, the data chunk header would be misread.
    let mut body = chunk(b"junk", &[1, 2, 3]);
    body.extend_from_slice(&chunk(b"wxyz", &[9]));
    body.extend_from_slice(&chunk(b"fmt ", &fmt_pcm(1, 8000, 8)));
    body.extend_from_slice(&chunk(b"data", &[0u8; 5]));
    let (reader, r) = probe_bytes(container(&body), ProbeDepth::Shallow);
    assert_eq!(r, Ok(ProbeResult::Supported));
    assert_eq!(reader.streams()[0].codec_params.codec, Some(CodecType::PcmU8));
}

#[test]
fn odd_chunk_without_pad_desynchronizes() {
    // The same stream with the pad byte removed after an odd chunk is no
    // longer well-formed: the next header is read one byte early.
    let mut body = Vec::new();
    body.extend_from_slice(b"junk");
    body.extend_from_slice(&le32(3));
    body.extend_from_slice(&[1, 2, 3]); // no pad byte
    body.extend_from_slice(&chunk(b"data", &[]));
    let (_, r) = probe_bytes(container(&body), ProbeDepth::Shallow);
    assert_ne!(r, Ok(ProbeResult::Supported));
}

#[test]
fn deep_probe_without_marker_is_unsupported() {
    // No RIFF marker anywhere in the first 512 KiB: the deep probe gives
    // up cleanly, it does not error.
    let data = vec![0u8; 600_000];
    let (reader, r) = probe_bytes(data, ProbeDepth::Deep);
    assert_eq!(r, Ok(ProbeResult::Unsupported));
    assert_eq!(reader.streams().len(), 0);
}

#[test]
fn deep_probe_finds_shifted_marker() {
    let mut body = chunk(b"fmt ", &fmt_pcm(1, 22050, 16));
    body.extend_from_slice(&chunk(b"data", &[]));
    let mut data = vec![7u8; 1000];
    data.extend_from_slice(&container(&body));
    let (reader, r) = probe_bytes(data.clone(), ProbeDepth::Deep);
    assert_eq!(r, Ok(ProbeResult::Supported));
    assert_eq!(reader.streams().len(), 1);
    // The shallow probe only looks at the cursor and must reject it.
    let (_, r2) = probe_bytes(data, ProbeDepth::Shallow);
    assert_eq!(r2, Ok(ProbeResult::Unsupported));
}

#[test]
fn info_list_with_unknown_ids_yields_no_tags() {
    // The informational list holds only unrecognized sub-chunk ids; the
    // cursor must land exactly after the list, so the following data
    // chunk is still found.
    let mut list_body = Vec::new();
    list_body.extend_from_slice(b"INFO");
    list_body.extend_from_slice(&chunk(b"IXXX", b"ignored"));
    list_body.extend_from_slice(&chunk(b"IYYY", b"also ignored"));
    let mut body = chunk(b"LIST", &list_body);
    body.extend_from_slice(&chunk(b"fmt ", &fmt_pcm(1, 8000, 8)));
    body.extend_from_slice(&chunk(b"data", &[]));
    let (reader, r) = probe_bytes(container(&body), ProbeDepth::Shallow);
    assert_eq!(r, Ok(ProbeResult::Supported));
    assert_eq!(reader.tags().len(), 0);
}

#[test]
fn info_list_tags_are_gathered_in_order_and_trimmed() {
    let mut list_body = Vec::new();
    list_body.extend_from_slice(b"INFO");
    list_body.extend_from_slice(&chunk(b"IART", b"artist\0\0"));
    list_body.extend_from_slice(&chunk(b"ICMT", b"note\0")); // odd: padded
    let mut body = chunk(b"LIST", &list_body);
    body.extend_from_slice(&chunk(b"data", &[]));
    let (reader, r) = probe_bytes(container(&body), ProbeDepth::Shallow);
    assert_eq!(r, Ok(ProbeResult::Supported));
    let tags = reader.tags();
    assert_eq!(tags.len(), 2);
    assert_eq!(tags[0].key, TagKey::Artist);
    assert_eq!(tags[0].value, b"artist".to_vec());
    assert_eq!(tags[1].key, TagKey::Comment);
    assert_eq!(tags[1].value, b"note".to_vec());
}

#[test]
fn unknown_list_form_is_skipped_whole() {
    let mut list_body = Vec::new();
    list_body.extend_from_slice(b"adtl");
    list_body.extend_from_slice(&chunk(b"IART", b"hidden"));
    let mut body = chunk(b"LIST", &list_body);
    body.extend_from_slice(&chunk(b"data", &[]));
    let (reader, r) = probe_bytes(container(&body), ProbeDepth::Shallow);
    assert_eq!(r, Ok(ProbeResult::Supported));
    assert_eq!(reader.tags().len(), 0);
}

#[test]
fn only_first_data_chunk_registers() {
    let mut body = chunk(b"fmt ", &fmt_pcm(2, 48000, 16));
    body.extend_from_slice(&chunk(b"data", &[0u8; 4]));
    body.extend_from_slice(&chunk(b"data", &[0u8; 4]));
    // Arbitrary trailing garbage after the first data chunk's header is
    // never inspected.
    body.extend_from_slice(&[0xff; 13]);
    let (reader, r) = probe_bytes(container(&body), ProbeDepth::Shallow);
    assert_eq!(r, Ok(ProbeResult::Supported));
    assert_eq!(reader.streams().len(), 1);
}

#[test]
fn data_before_format_registers_default_parameters() {
    let mut body = chunk(b"data", &[0u8; 8]);
    body.extend_from_slice(&chunk(b"fmt ", &fmt_pcm(2, 44100, 16)));
    let (reader, r) = probe_bytes(container(&body), ProbeDepth::Shallow);
    assert_eq!(r, Ok(ProbeResult::Supported));
    assert_eq!(reader.streams().len(), 1);
    let p = reader.streams()[0].codec_params;
    assert_eq!(p.codec, None);
    assert_eq!(p.sample_rate, None);
    assert_eq!(p.n_channels, None);
    assert_eq!(p.max_frames_per_packet, None);
}

#[test]
fn fact_chunk_sets_frame_count_last_write_wins() {
    let mut body = chunk(b"fmt ", &fmt_pcm(1, 8000, 8));
    body.extend_from_slice(&chunk(b"fact", &le32(111)));
    body.extend_from_slice(&chunk(b"fact", &le32(222)));
    body.extend_from_slice(&chunk(b"data", &[]));
    let (reader, r) = probe_bytes(container(&body), ProbeDepth::Shallow);
    assert_eq!(r, Ok(ProbeResult::Supported));
    assert_eq!(reader.streams()[0].codec_params.n_frames, Some(222));
}

#[test]
fn unknown_format_tag_is_malformed() {
    let mut payload = fmt_pcm(2, 44100, 16);
    payload[0] = 2; // format tag 2 is not a recognized sub-format
    let mut body = chunk(b"fmt ", &payload);
    body.extend_from_slice(&chunk(b"data", &[]));
    let (_, r) = probe_bytes(container(&body), ProbeDepth::Shallow);
    assert_eq!(r, Err(Error::MalformedChunk));
}

#[test]
fn unknown_pcm_bit_depth_is_malformed() {
    let mut body = chunk(b"fmt ", &fmt_pcm(2, 44100, 12));
    body.extend_from_slice(&chunk(b"data", &[]));
    let (_, r) = probe_bytes(container(&body), ProbeDepth::Shallow);
    assert_eq!(r, Err(Error::MalformedChunk));
}

#[test]
fn chunk_overrunning_region_is_malformed() {
    // A chunk that declares more payload than the container has budget
    // for is a hard error, not a silent truncation.
    let mut body = Vec::new();
    body.extend_from_slice(b"junk");
    body.extend_from_slice(&le32(10_000));
    body.extend_from_slice(&[0u8; 4]);
    let (_, r) = probe_bytes(container(&body), ProbeDepth::Shallow);
    assert_eq!(r, Err(Error::MalformedChunk));
}

#[test]
fn truncated_stream_is_an_error() {
    // The container header promises a fmt chunk whose payload the stream
    // does not hold.
    let mut data = Vec::new();
    data.extend_from_slice(b"RIFF");
    data.extend_from_slice(&le32(100));
    data.extend_from_slice(b"WAVE");
    data.extend_from_slice(b"fmt ");
    data.extend_from_slice(&le32(16));
    data.extend_from_slice(&[1, 0, 2, 0]); // stream ends mid-payload
    let (_, r) = probe_bytes(data, ProbeDepth::Shallow);
    assert_eq!(r, Err(Error::Truncated));
}

#[test]
fn wrong_form_type_is_unsupported() {
    let mut data = Vec::new();
    data.extend_from_slice(b"RIFF");
    data.extend_from_slice(&le32(4));
    data.extend_from_slice(b"AVI ");
    let (_, r) = probe_bytes(data, ProbeDepth::Shallow);
    assert_eq!(r, Ok(ProbeResult::Unsupported));
}

#[test]
fn float_alaw_mulaw_codecs() {
    for (tag, bits, codec) in [
        (3u16, 32u16, CodecType::PcmF32Le),
        (3, 64, CodecType::PcmF64Le),
        (6, 8, CodecType::PcmALaw),
        (7, 8, CodecType::PcmMuLaw),
    ] {
        let mut payload = fmt_pcm(2, 48000, bits);
        payload[0] = tag as u8;
        payload[1] = (tag >> 8) as u8;
        let mut body = chunk(b"fmt ", &payload);
        body.extend_from_slice(&chunk(b"data", &[]));
        let (reader, r) = probe_bytes(container(&body), ProbeDepth::Shallow);
        assert_eq!(r, Ok(ProbeResult::Supported));
        assert_eq!(reader.streams()[0].codec_params.codec, Some(codec));
    }
}

#[test]
fn extensible_format_resolves_subformat() {
    let mut payload = Vec::new();
    payload.extend_from_slice(&le16(0xfffe));
    payload.extend_from_slice(&le16(2)); // channels
    payload.extend_from_slice(&le32(96000)); // rate
    payload.extend_from_slice(&le32(96000 * 2 * 4)); // byte rate
    payload.extend_from_slice(&le16(8)); // block align
    payload.extend_from_slice(&le16(32)); // container bits
    payload.extend_from_slice(&le16(22)); // extension size
    payload.extend_from_slice(&le16(24)); // valid bits
    payload.extend_from_slice(&le32(0x3)); // channel mask
    payload.extend_from_slice(&le32(1)); // sub-format: PCM
    payload.extend_from_slice(&[0x00, 0x00, 0x10, 0x00, 0x80, 0x00, 0x00, 0xaa]);
    payload.extend_from_slice(&[0x00, 0x38, 0x9b, 0x71]);
    assert_eq!(payload.len(), 40);
    let mut body = chunk(b"fmt ", &payload);
    body.extend_from_slice(&chunk(b"data", &[]));
    let (reader, r) = probe_bytes(container(&body), ProbeDepth::Shallow);
    assert_eq!(r, Ok(ProbeResult::Supported));
    let p = reader.streams()[0].codec_params;
    assert_eq!(p.codec, Some(CodecType::PcmS32Le));
    assert_eq!(p.bits_per_sample, Some(24));
    assert_eq!(p.bits_per_coded_sample, Some(32));
}

#[test]
fn extensible_with_unknown_subformat_is_malformed() {
    let mut payload = Vec::new();
    payload.extend_from_slice(&le16(0xfffe));
    payload.extend_from_slice(&le16(2));
    payload.extend_from_slice(&le32(96000));
    payload.extend_from_slice(&le32(0));
    payload.extend_from_slice(&le16(8));
    payload.extend_from_slice(&le16(32));
    payload.extend_from_slice(&le16(22));
    payload.extend_from_slice(&le16(24));
    payload.extend_from_slice(&le32(0x3));
    payload.extend_from_slice(&le32(0x99)); // unknown sub-format tag
    payload.extend_from_slice(&[0x00, 0x00, 0x10, 0x00, 0x80, 0x00, 0x00, 0xaa]);
    payload.extend_from_slice(&[0x00, 0x38, 0x9b, 0x71]);
    let mut body = chunk(b"fmt ", &payload);
    body.extend_from_slice(&chunk(b"data", &[]));
    let (_, r) = probe_bytes(container(&body), ProbeDepth::Shallow);
    assert_eq!(r, Err(Error::MalformedChunk));
}

#[test]
fn container_without_data_chunk_is_unsupported() {
    let body = chunk(b"fmt ", &fmt_pcm(2, 44100, 16));
    let (reader, r) = probe_bytes(container(&body), ProbeDepth::Shallow);
    assert_eq!(r, Ok(ProbeResult::Unsupported));
    assert_eq!(reader.streams().len(), 0);
}

#[test]
fn empty_stream_is_truncated() {
    let (_, r) = probe_bytes(Vec::new(), ProbeDepth::Shallow);
    assert_eq!(r, Err(Error::Truncated));
}

#[test]
fn seek_is_unsupported() {
    let mut reader = WavReader::open(ByteStream::new(Vec::new()), &FormatOptions {});
    assert_eq!(reader.seek(Timestamp { frame: 0 }), Err(Error::UnsupportedOperation));
}

#[test]
fn next_packet_hands_over_remaining_bytes() {
    let mut body = chunk(b"fmt ", &fmt_pcm(1, 8000, 8));
    body.extend_from_slice(&chunk(b"data", &[10, 20, 30, 40]));
    let (mut reader, r) = probe_bytes(container(&body), ProbeDepth::Shallow);
    assert_eq!(r, Ok(ProbeResult::Supported));
    let packet = reader.next_packet().unwrap();
    // The probe stops right at the data chunk's payload.
    assert_eq!(packet.data, vec![10, 20, 30, 40]);
    assert_eq!(packet.stream, 0);
}

#[test]
fn supported_formats_advertises_riff() {
    let descs = WavReader::supported_formats();
    assert_eq!(descs.len(), 1);
    assert_eq!(&descs[0].marker[..4], b"RIFF");
    assert_eq!(descs[0].marker_len, 4);
    assert_eq!(descs[0].marker_offset, 0);
    assert_eq!(descs[0].extensions, vec!["wav", "wave"]);
    assert_eq!(
        descs[0].mime_types,
        vec!["audio/vnd.wave", "audio/x-wav", "audio/wav", "audio/wave"]
    );
}

#[test]
fn format_chunk_with_extension_size_field_is_accepted() {
    // An 18-byte PCM format chunk carries a (zero) extension-size field
    // after the base fields; it parses like the 16-byte form.
    let mut payload = fmt_pcm(2, 44100, 16);
    payload.extend_from_slice(&le16(0));
    let mut body = chunk(b"fmt ", &payload);
    body.extend_from_slice(&chunk(b"data", &[]));
    let (reader, r) = probe_bytes(container(&body), ProbeDepth::Shallow);
    assert_eq!(r, Ok(ProbeResult::Supported));
    assert_eq!(reader.streams()[0].codec_params.codec, Some(CodecType::PcmS16Le));
}

#[test]
fn deep_search_on_short_stream_is_truncated() {
    // A markerless stream that ends before the search ceiling fails the
    // read itself: that is a truncation error, not a clean rejection.
    let (_, r) = probe_bytes(vec![0u8; 100], ProbeDepth::Deep);
    assert_eq!(r, Err(Error::Truncated));
}
