use wave_demux::codec::{CodecType, FormatOptions, ProbeDepth, ProbeResult, Timestamp};
use wave_demux::errors::Error;
use wave_demux::io::ByteStream;
use wave_demux::mp3::Mp3Reader;

#[test]
fn mp3_probe_registers_one_stream() {
    let mut reader = Mp3Reader::open(ByteStream::new(vec![0xff, 0xfb, 0x90]), &FormatOptions {});
    let r = reader.probe(ProbeDepth::Shallow);
    assert_eq!(r, Ok(ProbeResult::Supported));
    assert_eq!(reader.streams().len(), 1);
    assert_eq!(reader.streams()[0].codec_params.codec, Some(CodecType::Mp3));
    assert_eq!(reader.streams()[0].codec_params.sample_rate, None);
    assert_eq!(reader.metadata().revisions().len(), 1);
    assert_eq!(reader.metadata().revisions()[0].tags.len(), 0);
    assert_eq!(reader.cues().len(), 0);
}

#[test]
fn mp3_seek_is_an_unconditional_stop() {
    let mut reader = Mp3Reader::open(ByteStream::new(Vec::new()), &FormatOptions {});
    assert_eq!(reader.seek(Timestamp { frame: 1 }), Err(Error::UnsupportedOperation));
}

#[test]
fn mp3_next_packet_returns_whole_stream() {
    let bytes = vec![0xff, 0xfb, 0x90, 0x00, 0x11];
    let mut reader = Mp3Reader::open(ByteStream::new(bytes.clone()), &FormatOptions {});
    reader.probe(ProbeDepth::Shallow).unwrap();
    let packet = reader.next_packet().unwrap();
    assert_eq!(packet.data, bytes);
}

#[test]
fn mp3_supported_formats_advertises_marker() {
    let descs = Mp3Reader::supported_formats();
    assert_eq!(descs.len(), 1);
    assert_eq!(&descs[0].marker[..4], b"MPEG");
    assert_eq!(descs[0].extensions, vec!["mp3"]);
    assert_eq!(descs[0].mime_types, vec!["audio/mp3"]);
}
