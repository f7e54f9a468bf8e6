use vstd::prelude::*;
use crate::errors::Error;
use crate::io::ByteStream;

verus! {

/// The codec of an elementary audio stream, as far as probing can tell.
#[derive(Clone, Copy, Debug, PartialEq, Eq, Structural)]
pub enum CodecType {
    /// Unsigned 8-bit linear PCM.
    PcmU8,
    /// Signed 16-bit little-endian linear PCM.
    PcmS16Le,
    /// Signed 24-bit little-endian linear PCM.
    PcmS24Le,
    /// Signed 32-bit little-endian linear PCM.
    PcmS32Le,
    /// 32-bit little-endian IEEE floating-point PCM.
    PcmF32Le,
    /// 64-bit little-endian IEEE floating-point PCM.
    PcmF64Le,
    /// A-law companded 8-bit logarithmic PCM.
    PcmALaw,
    /// Mu-law companded 8-bit logarithmic PCM.
    PcmMuLaw,
    /// MPEG audio layer 3.
    Mp3,
}

/// The accumulating codec-parameter record of one container instance.
///
/// Built incrementally by merging the results of the format and
/// frame-count chunk parsers; a field stays `None` until some chunk
/// supplies it, and a later chunk overwrites an earlier one.
#[derive(Clone, Copy, Debug, PartialEq, Eq, Structural)]
pub struct CodecParameters {
    pub codec: Option<CodecType>,
    pub sample_rate: Option<u32>,
    pub n_channels: Option<u16>,
    pub bits_per_sample: Option<u32>,
    pub bits_per_coded_sample: Option<u32>,
    pub max_frames_per_packet: Option<u64>,
    pub n_frames: Option<u64>,
}

impl CodecParameters {
    /// The record before any chunk has been merged into it.
    pub open spec fn spec_new() -> CodecParameters {
        CodecParameters {
            codec: None,
            sample_rate: None,
            n_channels: None,
            bits_per_sample: None,
            bits_per_coded_sample: None,
            max_frames_per_packet: None,
            n_frames: None,
        }
    }

    pub fn new() -> (r: Self)
        ensures
            r == Self::spec_new(),
    {
        CodecParameters {
            codec: None,
            sample_rate: None,
            n_channels: None,
            bits_per_sample: None,
            bits_per_coded_sample: None,
            max_frames_per_packet: None,
            n_frames: None,
        }
    }
}

/// A registered, immutable snapshot of the codec parameters of one
/// discovered elementary stream.
#[derive(Clone, Copy, Debug, PartialEq, Eq, Structural)]
pub struct Stream {
    pub codec_params: CodecParameters,
}

impl Stream {
    pub fn new(codec_params: CodecParameters) -> (r: Self)
        ensures
            r.codec_params == codec_params,
    {
        Stream { codec_params }
    }
}

/// A raw, unframed range of stream bytes handed to a downstream decoder.
#[derive(Clone, Debug)]
pub struct Packet {
    /// Index of the stream the bytes belong to.
    pub stream: u32,
    /// The raw bytes, from the cursor to the end of the source.
    pub data: Vec<u8>,
}

/// A cue point: a named position on a stream's timeline.
#[derive(Clone, Copy, Debug, PartialEq, Eq, Structural)]
pub struct Cue {
    pub index: u32,
    pub start_ts: u64,
}

/// A point on a stream's timeline, counted in frames.
#[derive(Clone, Copy, Debug, PartialEq, Eq, Structural)]
pub struct Timestamp {
    pub frame: u64,
}

/// Options for opening a container reader. None are defined yet; the
/// struct keeps the opening contract stable.
#[derive(Clone, Copy, Debug)]
pub struct FormatOptions {}

/// How far a probe may search for the container's marker.
#[derive(Clone, Copy, Debug, PartialEq, Eq, Structural)]
pub enum ProbeDepth {
    /// Inspect only the bytes already at the cursor.
    Shallow,
    /// Shift forward byte by byte, up to a fixed ceiling.
    Deep,
}

/// The outcome of a probe. `Unsupported` is not an error: it is the
/// normal "not this format" signal that lets an outer dispatcher try the
/// next candidate reader.
#[derive(Clone, Copy, Debug, PartialEq, Eq, Structural)]
pub enum ProbeResult {
    Supported,
    Unsupported,
}

/// Declarative registration data one container dialect advertises to an
/// outer format-sniffing dispatcher.
#[derive(Clone, Debug)]
pub struct FormatDescriptor {
    /// File extensions conventionally used for the dialect.
    pub extensions: Vec<&'static str>,
    /// MIME types conventionally used for the dialect.
    pub mime_types: Vec<&'static str>,
    /// An 8-byte magic buffer; only the first `marker_len` bytes count.
    pub marker: [u8; 8],
    /// How many leading bytes of `marker` are significant.
    pub marker_len: u32,
    /// Offset of the marker from the start of the stream.
    pub marker_offset: u32,
}

/// Read the remainder of a source as one raw packet for stream `stream`.
///
/// The downstream decoder frames the bytes itself; this layer hands them
/// over unframed, leaving the cursor at the end of the source.
pub fn direct_packet(stream: u32, reader: &mut ByteStream) -> (r: Result<Packet, Error>)
    requires
        old(reader).wf(),
    ensures
        final(reader).wf(),
        final(reader).bytes() == old(reader).bytes(),
        match r {
            Ok(p) => {
                &&& p.stream == stream
                &&& p.data@ == old(reader).bytes().subrange(
                    old(reader).pos(),
                    old(reader).bytes().len() as int,
                )
                &&& final(reader).pos() == final(reader).bytes().len()
            },
            Err(_) => false,
        },
{
    let v = reader.read_to_end();
    Ok(Packet { stream, data: v })
}

} // verus!
