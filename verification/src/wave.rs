use vstd::prelude::*;
use crate::errors::Error;
use crate::io::ByteStream;
use crate::io::le32_at;
use crate::codec::CodecParameters;
use crate::codec::FormatDescriptor;
use crate::codec::FormatOptions;
use crate::codec::Packet;
use crate::codec::ProbeDepth;
use crate::codec::ProbeResult;
use crate::codec::Stream;
use crate::codec::Timestamp;
use crate::codec::direct_packet;
use crate::chunks::ChunksReader;
use crate::chunks::FactChunk;
use crate::chunks::InfoChunk;
use crate::chunks::ListChunk;
use crate::chunks::NextStep;
use crate::chunks::RiffInfoListChunks;
use crate::chunks::RiffWaveChunks;
use crate::chunks::WaveFormatChunk;
use crate::chunks::WaveFormatData;
use crate::chunks::spec_next;
use crate::chunks::spec_parse_fact;
use crate::chunks::spec_parse_format;
use crate::chunks::lemma_spec_next_bounds;
use crate::chunks::lemma_wave_yield_len;
use crate::chunks::lemma_info_yield_len;
use crate::meta::Tag;
use crate::meta::TagKey;
use crate::meta::Visual;
use crate::meta::tags_view;
use crate::meta::lemma_tags_view_push;
use crate::meta::trim_nuls;

verus! {

/// The recommended maximum number of bytes to advance a stream while
/// searching for the stream marker before giving up.
pub const WAVE_PROBE_SEARCH_LIMIT: usize = 512 * 1024;

/// Every registered Wave stream caps its packets at this many frames.
pub const WAVE_MAX_FRAMES_PER_PACKET: u64 = 4096;

/// True when the four bytes of `d` starting at `i` equal `m` (which is
/// expected to be 4 bytes long).
pub open spec fn marker_at(d: Seq<u8>, i: int, m: Seq<u8>) -> bool {
    0 <= i && i + 4 <= d.len() && d.subrange(i, i + 4) == m
}

/// The outcome of a marker search that starts at byte index `p0`.
pub enum SearchOutcome {
    /// The marker's first occurrence begins `offset` bytes past `p0`.
    Found { offset: int },
    /// No occurrence within the searched window.
    NotFound,
    /// The stream ended before the search could finish.
    Short,
}

/// Scan offsets `o`, `o + 1`, ... for the first occurrence of marker `m`,
/// giving up past the fixed search ceiling. Offsets up to and including
/// 524285 are examined, so that at most 524289 bytes (one 4-byte window
/// plus 512 KiB of shifted bytes) are ever consumed.
pub open spec fn spec_search_from(d: Seq<u8>, p0: int, m: Seq<u8>, o: int) -> SearchOutcome
    decreases 524286 - o,
{
    if o < 0 || o > 524285 {
        SearchOutcome::NotFound
    } else if p0 + o + 4 > d.len() {
        SearchOutcome::Short
    } else if marker_at(d, p0 + o, m) {
        SearchOutcome::Found { offset: o }
    } else {
        spec_search_from(d, p0, m, o + 1)
    }
}

/// The outcome of a marker search at `p0`: a shallow search examines only
/// the 4-byte window at the cursor; a deep search shifts that window
/// forward byte by byte up to the search ceiling. Consumed bytes are
/// never returned to the stream, even on failure.
pub open spec fn spec_search(d: Seq<u8>, p0: int, m: Seq<u8>, deep: bool) -> SearchOutcome {
    if p0 + 4 > d.len() {
        SearchOutcome::Short
    } else if deep {
        spec_search_from(d, p0, m, 0)
    } else if marker_at(d, p0, m) {
        SearchOutcome::Found { offset: 0 }
    } else {
        SearchOutcome::NotFound
    }
}

/// Search forward for the 4-byte stream marker.
///
/// Reads one 4-byte window; under deep probing it then shifts the window
/// left one byte at a time, reading one fresh byte per shift, up to the
/// fixed search ceiling. There is no backtracking: bytes consumed by a
/// failed search stay consumed, so a caller that receives `Ok(None)` must
/// reject the container rather than retry. Exhausting the ceiling is the
/// normal `Ok(None)` outcome, never an error; only a stream that ends
/// mid-search is `Truncated`.
pub fn search_for_marker(reader: &mut ByteStream, marker: &[u8; 4], depth: ProbeDepth) -> (r:
    Result<Option<[u8; 4]>, Error>)
    requires
        old(reader).wf(),
    ensures
        final(reader).wf(),
        final(reader).bytes() == old(reader).bytes(),
        match spec_search(
            old(reader).bytes(),
            old(reader).pos(),
            marker@,
            depth == ProbeDepth::Deep,
        ) {
            SearchOutcome::Found { offset } => {
                &&& r == Ok::<Option<[u8; 4]>, Error>(Some(*marker))
                &&& final(reader).pos() == old(reader).pos() + offset + 4
            },
            SearchOutcome::NotFound => {
                &&& r == Ok::<Option<[u8; 4]>, Error>(None)
                &&& final(reader).pos() == old(reader).pos() + (if depth == ProbeDepth::Deep {
                    524289int
                } else {
                    4int
                })
            },
            SearchOutcome::Short => r == Err::<Option<[u8; 4]>, Error>(Error::Truncated),
        },
{
    let ghost b = old(reader).bytes();
    let ghost p0 = old(reader).pos();
    let ghost m = marker@;
    let ghost deep = depth == ProbeDepth::Deep;
    let first = match reader.read_quad_bytes() {
        Ok(q) => q,
        Err(e) => {
            return Err(e);
        },
    };
    let mut w0 = first[0];
    let mut w1 = first[1];
    let mut w2 = first[2];
    let mut w3 = first[3];
    let mut probed: usize = 4;
    proof {
        assert(w0 == b[p0] && w1 == b[p0 + 1] && w2 == b[p0 + 2] && w3 == b[p0 + 3]);
    }
    loop
        invariant
            b == old(reader).bytes(),
            p0 == old(reader).pos(),
            0 <= p0,
            m == marker@,
            m.len() == 4,
            deep == (depth == ProbeDepth::Deep),
            reader.wf(),
            reader.bytes() == b,
            4 <= probed <= 524289,
            !deep ==> probed == 4,
            reader.pos() == p0 + probed,
            p0 + probed <= b.len(),
            w0 == b[p0 + probed - 4],
            w1 == b[p0 + probed - 3],
            w2 == b[p0 + probed - 2],
            w3 == b[p0 + probed - 1],
            deep ==> spec_search_from(b, p0, m, probed - 4) == spec_search_from(b, p0, m, 0),
        decreases 524290 - probed,
    {
        let ghost o = probed - 4;
        let matched = w0 == marker[0] && w1 == marker[1] && w2 == marker[2] && w3 == marker[3];
        proof {
            if matched {
                assert(b.subrange(p0 + o, p0 + o + 4) =~= m);
                assert(marker_at(b, p0 + o, m));
            } else {
                if marker_at(b, p0 + o, m) {
                    assert(b.subrange(p0 + o, p0 + o + 4) == m);
                    assert(w0 == m[0] && w1 == m[1] && w2 == m[2] && w3 == m[3]);
                    assert(false);
                }
            }
        }
        if matched {
            proof {
                if deep {
                    assert(spec_search_from(b, p0, m, o) == SearchOutcome::Found { offset: o });
                }
            }
            return Ok(Some(*marker));
        } else if depth == ProbeDepth::Deep {
            if probed <= WAVE_PROBE_SEARCH_LIMIT {
                let nb = match reader.read_u8() {
                    Ok(v) => v,
                    Err(e) => {
                        proof {
                            assert(p0 + o + 5 > b.len());
                            assert(spec_search_from(b, p0, m, o) == spec_search_from(
                                b,
                                p0,
                                m,
                                o + 1,
                            ));
                            assert(spec_search_from(b, p0, m, o + 1) == SearchOutcome::Short);
                        }
                        return Err(e);
                    },
                };
                proof {
                    assert(spec_search_from(b, p0, m, o) == spec_search_from(b, p0, m, o + 1));
                }
                w0 = w1;
                w1 = w2;
                w2 = w3;
                w3 = nb;
                probed = probed + 1;
            } else {
                proof {
                    assert(spec_search_from(b, p0, m, o) == spec_search_from(b, p0, m, o + 1));
                    assert(spec_search_from(b, p0, m, o + 1) == SearchOutcome::NotFound);
                }
                return Ok(None);
            }
        } else {
            return Ok(None);
        }
    }
}

/// The codec parameters after merging a format chunk: the codec, rate,
/// channel count and the variant's bit-depth fields are overwritten, the
/// packet-frame ceiling is pinned, and every other field (the frame
/// count) is kept.
pub open spec fn spec_merge_format(p: CodecParameters, f: WaveFormatChunk) -> CodecParameters {
    match f.format_data {
        WaveFormatData::Pcm { codec } => CodecParameters {
            codec: Some(codec),
            sample_rate: Some(f.sample_rate),
            n_channels: Some(f.n_channels),
            bits_per_sample: Some(f.bits_per_sample as u32),
            bits_per_coded_sample: Some(f.bits_per_sample as u32),
            max_frames_per_packet: Some(WAVE_MAX_FRAMES_PER_PACKET),
            n_frames: p.n_frames,
        },
        WaveFormatData::IeeeFloat { codec } => CodecParameters {
            codec: Some(codec),
            sample_rate: Some(f.sample_rate),
            n_channels: Some(f.n_channels),
            bits_per_sample: p.bits_per_sample,
            bits_per_coded_sample: p.bits_per_coded_sample,
            max_frames_per_packet: Some(WAVE_MAX_FRAMES_PER_PACKET),
            n_frames: p.n_frames,
        },
        WaveFormatData::Extensible {
            bits_per_sample,
            bits_per_coded_sample,
            channel_mask,
            codec,
        } => CodecParameters {
            codec: Some(codec),
            sample_rate: Some(f.sample_rate),
            n_channels: Some(f.n_channels),
            bits_per_sample: Some(bits_per_sample as u32),
            bits_per_coded_sample: Some(bits_per_coded_sample as u32),
            max_frames_per_packet: Some(WAVE_MAX_FRAMES_PER_PACKET),
            n_frames: p.n_frames,
        },
        WaveFormatData::ALaw { codec } => CodecParameters {
            codec: Some(codec),
            sample_rate: Some(f.sample_rate),
            n_channels: Some(f.n_channels),
            bits_per_sample: p.bits_per_sample,
            bits_per_coded_sample: p.bits_per_coded_sample,
            max_frames_per_packet: Some(WAVE_MAX_FRAMES_PER_PACKET),
            n_frames: p.n_frames,
        },
        WaveFormatData::MuLaw { codec } => CodecParameters {
            codec: Some(codec),
            sample_rate: Some(f.sample_rate),
            n_channels: Some(f.n_channels),
            bits_per_sample: p.bits_per_sample,
            bits_per_coded_sample: p.bits_per_coded_sample,
            max_frames_per_packet: Some(WAVE_MAX_FRAMES_PER_PACKET),
            n_frames: p.n_frames,
        },
    }
}

/// Merge a parsed format chunk into the accumulating codec parameters.
pub fn append_format_params(codec_params: &mut CodecParameters, format: &WaveFormatChunk)
    ensures
        *final(codec_params) == spec_merge_format(*old(codec_params), *format),
{
    codec_params.max_frames_per_packet = Some(WAVE_MAX_FRAMES_PER_PACKET);
    codec_params.sample_rate = Some(format.sample_rate);
    codec_params.n_channels = Some(format.n_channels);
    match format.format_data {
        WaveFormatData::Pcm { codec } => {
            codec_params.codec = Some(codec);
            codec_params.bits_per_sample = Some(format.bits_per_sample as u32);
            codec_params.bits_per_coded_sample = Some(format.bits_per_sample as u32);
        },
        WaveFormatData::IeeeFloat { codec } => {
            codec_params.codec = Some(codec);
        },
        WaveFormatData::Extensible { bits_per_sample, bits_per_coded_sample, channel_mask, codec
        } => {
            codec_params.codec = Some(codec);
            codec_params.bits_per_sample = Some(bits_per_sample as u32);
            codec_params.bits_per_coded_sample = Some(bits_per_coded_sample as u32);
        },
        WaveFormatData::ALaw { codec } => {
            codec_params.codec = Some(codec);
        },
        WaveFormatData::MuLaw { codec } => {
            codec_params.codec = Some(codec);
        },
    }
}

/// The codec parameters after merging a frame-count chunk: only the
/// frame count changes, and a later chunk overwrites an earlier one.
pub open spec fn spec_merge_fact(p: CodecParameters, fact: FactChunk) -> CodecParameters {
    CodecParameters {
        codec: p.codec,
        sample_rate: p.sample_rate,
        n_channels: p.n_channels,
        bits_per_sample: p.bits_per_sample,
        bits_per_coded_sample: p.bits_per_coded_sample,
        max_frames_per_packet: p.max_frames_per_packet,
        n_frames: Some(fact.n_frames as u64),
    }
}

/// Merge a parsed frame-count chunk into the accumulating codec
/// parameters.
pub fn append_fact_params(codec_params: &mut CodecParameters, fact: &FactChunk)
    ensures
        *final(codec_params) == spec_merge_fact(*old(codec_params), *fact),
{
    codec_params.n_frames = Some(fact.n_frames as u64);
}

/// The 4-byte RIFF stream marker.
pub open spec fn riff_marker() -> Seq<u8> {
    seq![0x52u8, 0x49u8, 0x46u8, 0x46u8]
}

/// True when the four bytes at `i` of `d` spell the WAVE form type.
pub open spec fn is_wave_form(d: Seq<u8>, i: int) -> bool {
    d[i] == 0x57 && d[i + 1] == 0x41 && d[i + 2] == 0x56 && d[i + 3] == 0x45
}

/// True when the four bytes at `i` of `d` spell the informational-list
/// form tag.
pub open spec fn is_info_form(d: Seq<u8>, i: int) -> bool {
    d[i] == 0x49 && d[i + 1] == 0x4e && d[i + 2] == 0x46 && d[i + 3] == 0x4f
}

/// The outcome of traversing an informational-list region.
pub enum InfoResult {
    /// The region was traversed and its trailing remainder skipped; the
    /// recognized sub-chunks yielded these tags, in order.
    Done { tags: Seq<(TagKey, Seq<u8>)> },
    /// A sub-chunk declared more payload than the region holds.
    Malformed,
    /// The stream ended inside the region.
    Short,
}

/// Traverse an informational-list region of `len` bytes starting at byte
/// index `pos` of `d` (with `consumed` of the budget already spent),
/// appending one tag per recognized sub-chunk to `tags`. Unrecognized
/// sub-chunk identifiers are skipped; after the last whole sub-chunk the
/// region's remainder is skipped too, so exactly `len` bytes are consumed
/// in every non-error outcome.
pub open spec fn run_info(
    d: Seq<u8>,
    pos: int,
    len: u32,
    consumed: u32,
    tags: Seq<(TagKey, Seq<u8>)>,
) -> InfoResult
    decreases len - consumed,
{
    match spec_next::<RiffInfoListChunks>(d, pos, len, consumed) {
        NextStep::Short => InfoResult::Short,
        NextStep::TooLong => InfoResult::Malformed,
        NextStep::End { consumed: c } => {
            if pos + (c - consumed) + (len - c) <= d.len() {
                InfoResult::Done { tags }
            } else {
                InfoResult::Short
            }
        },
        NextStep::Yield { chunk, clen, consumed: c } => match chunk {
            RiffInfoListChunks::Info(key, l) => {
                let pos2 = pos + (c - consumed) - clen;
                if !(consumed < c && c <= len) {
                    InfoResult::Malformed
                } else if pos2 + clen > d.len() {
                    InfoResult::Short
                } else {
                    run_info(
                        d,
                        pos2 + clen,
                        len,
                        c,
                        tags.push((key, trim_nuls(d.subrange(pos2, pos2 + clen)))),
                    )
                }
            },
        },
    }
}

/// The outcome of traversing the top-level WAVE chunk region.
pub enum RunResult {
    /// A data chunk was reached: the stream is registered with these
    /// codec parameters, and these tags were gathered on the way.
    Supported { params: CodecParameters, tags: Seq<(TagKey, Seq<u8>)> },
    /// The region ended without a data chunk: the container is not
    /// supported. No error is raised; tags gathered on the way stay.
    NoData { tags: Seq<(TagKey, Seq<u8>)> },
    /// A structurally invalid chunk was met.
    Malformed,
    /// The stream ended inside the region.
    Short,
}

/// Traverse the top-level WAVE region of `len` bytes starting at byte
/// index `pos` of `d`, merging format and frame-count chunks into
/// `params` and gathering informational tags into `tags`, until the first
/// data chunk (`Supported`) or the end of the region (`NoData`).
/// Traversal halts permanently at the first data chunk: nothing after its
/// header is inspected.
pub open spec fn run_wave(
    d: Seq<u8>,
    pos: int,
    len: u32,
    consumed: u32,
    params: CodecParameters,
    tags: Seq<(TagKey, Seq<u8>)>,
) -> RunResult
    decreases len - consumed,
{
    match spec_next::<RiffWaveChunks>(d, pos, len, consumed) {
        NextStep::Short => RunResult::Short,
        NextStep::TooLong => RunResult::Malformed,
        NextStep::End { consumed: c } => RunResult::NoData { tags },
        NextStep::Yield { chunk, clen, consumed: c } => {
            let pos2 = pos + (c - consumed) - clen;
            if !(consumed < c && c <= len) {
                RunResult::Malformed
            } else {
                match chunk {
                    RiffWaveChunks::Format(l) => match spec_parse_format(d, pos2, clen) {
                        Ok(f) => run_wave(
                            d,
                            pos2 + clen,
                            len,
                            c,
                            spec_merge_format(params, f),
                            tags,
                        ),
                        Err(Error::Truncated) => RunResult::Short,
                        Err(_) => RunResult::Malformed,
                    },
                    RiffWaveChunks::Fact(l) => match spec_parse_fact(d, pos2, clen) {
                        Ok(f) => run_wave(d, pos2 + clen, len, c, spec_merge_fact(params, f), tags),
                        Err(Error::Truncated) => RunResult::Short,
                        Err(_) => RunResult::Malformed,
                    },
                    RiffWaveChunks::List(l) => {
                        if clen < 4 {
                            RunResult::Malformed
                        } else if pos2 + 4 > d.len() {
                            RunResult::Short
                        } else if is_info_form(d, pos2) {
                            match run_info(d, pos2 + 4, (clen - 4) as u32, 0, Seq::empty()) {
                                InfoResult::Done { tags: ts } => run_wave(
                                    d,
                                    pos2 + clen,
                                    len,
                                    c,
                                    params,
                                    tags + ts,
                                ),
                                InfoResult::Malformed => RunResult::Malformed,
                                InfoResult::Short => RunResult::Short,
                            }
                        } else {
                            if pos2 + clen > d.len() {
                                RunResult::Short
                            } else {
                                run_wave(d, pos2 + clen, len, c, params, tags)
                            }
                        }
                    },
                    RiffWaveChunks::Data => RunResult::Supported { params, tags },
                }
            }
        },
    }
}

/// What probing a stream whose bytes are `d`, starting at cursor `p0`,
/// yields: search for the RIFF marker, read the container length and the
/// WAVE form type, then traverse the chunk region of the remaining
/// `length - 4` container bytes. A missing marker or a wrong form type is
/// the soft `NoData` (unsupported) outcome, never an error.
pub open spec fn spec_probe(d: Seq<u8>, p0: int, deep: bool) -> RunResult {
    match spec_search(d, p0, riff_marker(), deep) {
        SearchOutcome::Short => RunResult::Short,
        SearchOutcome::NotFound => RunResult::NoData { tags: Seq::empty() },
        SearchOutcome::Found { offset } => {
            let p1 = p0 + offset + 4;
            if p1 + 4 > d.len() {
                RunResult::Short
            } else if p1 + 8 > d.len() {
                RunResult::Short
            } else if !is_wave_form(d, p1 + 4) {
                RunResult::NoData { tags: Seq::empty() }
            } else {
                let riff_len = le32_at(d, p1);
                let budget = if riff_len >= 4 {
                    (riff_len - 4) as u32
                } else {
                    0u32
                };
                run_wave(d, p1 + 8, budget, 0, CodecParameters::spec_new(), Seq::empty())
            }
        },
    }
}

/// A demuxer for the Wave format container.
///
/// `probe` discovers the embedded elementary stream and registers it;
/// `streams`, `tags` and `visuals` expose what probing found;
/// `next_packet` hands the remaining bytes to a downstream decoder.
pub struct WavReader {
    reader: ByteStream,
    streams: Vec<Stream>,
    tags: Vec<Tag>,
    visuals: Vec<Visual>,
}

impl WavReader {
    /// The underlying byte source.
    pub closed spec fn src(&self) -> ByteStream {
        self.reader
    }

    /// The registered stream descriptors.
    pub closed spec fn streams_seq(&self) -> Seq<Stream> {
        self.streams@
    }

    /// The gathered tags.
    pub closed spec fn tags_seq(&self) -> Seq<Tag> {
        self.tags@
    }

    /// The gathered attached pictures (always empty for Wave).
    pub closed spec fn visuals_seq(&self) -> Seq<Visual> {
        self.visuals@
    }

    pub open spec fn wf(&self) -> bool {
        self.src().wf()
    }

    /// Open a reader over a byte source. Nothing is read until `probe`.
    pub fn open(source: ByteStream, _options: &FormatOptions) -> (r: Self)
        ensures
            r.src() == source,
            r.streams_seq() == Seq::<Stream>::empty(),
            r.tags_seq() == Seq::<Tag>::empty(),
            r.visuals_seq() == Seq::<Visual>::empty(),
    {
        WavReader { reader: source, streams: Vec::new(), tags: Vec::new(), visuals: Vec::new() }
    }

    /// The declarative registration data of the Wave dialect: its file
    /// extensions, MIME types, and the RIFF marker at stream offset 0.
    pub fn supported_formats() -> (r: Vec<FormatDescriptor>)
        ensures
            r@.len() == 1,
            r@[0].marker@ == riff_marker() + seq![0x20u8, 0x20u8, 0x20u8, 0x20u8],
            r@[0].marker_len == 4,
            r@[0].marker_offset == 0,
            r@[0].extensions@.len() == 2,
            r@[0].extensions@[0]@ == "wav"@,
            r@[0].extensions@[1]@ == "wave"@,
            r@[0].mime_types@.len() == 4,
            r@[0].mime_types@[0]@ == "audio/vnd.wave"@,
            r@[0].mime_types@[1]@ == "audio/x-wav"@,
            r@[0].mime_types@[2]@ == "audio/wav"@,
            r@[0].mime_types@[3]@ == "audio/wave"@,
    {
        proof {
            reveal_strlit("wav");
            reveal_strlit("wave");
            reveal_strlit("audio/vnd.wave");
            reveal_strlit("audio/x-wav");
            reveal_strlit("audio/wav");
            reveal_strlit("audio/wave");
        }
        let mut extensions: Vec<&'static str> = Vec::new();
        extensions.push("wav");
        extensions.push("wave");
        let mut mime_types: Vec<&'static str> = Vec::new();
        mime_types.push("audio/vnd.wave");
        mime_types.push("audio/x-wav");
        mime_types.push("audio/wav");
        mime_types.push("audio/wave");
        let marker = [0x52u8, 0x49u8, 0x46u8, 0x46u8, 0x20u8, 0x20u8, 0x20u8, 0x20u8];
        proof {
            assert(marker@ =~= riff_marker() + seq![0x20u8, 0x20u8, 0x20u8, 0x20u8]);
        }
        let d = FormatDescriptor {
            extensions,
            mime_types,
            marker,
            marker_len: 4,
            marker_offset: 0,
        };
        let mut v: Vec<FormatDescriptor> = Vec::new();
        v.push(d);
        v
    }

    /// Read an informational list region of `len` bytes: each recognized
    /// sub-chunk appends one tag, unrecognized sub-chunks are skipped,
    /// and the cursor ends exactly `len` bytes past where it started.
    fn read_metadata(&mut self, len: u32) -> (r: Result<(), Error>)
        requires
            old(self).wf(),
        ensures
            final(self).wf(),
            final(self).src().bytes() == old(self).src().bytes(),
            final(self).streams_seq() == old(self).streams_seq(),
            final(self).visuals_seq() == old(self).visuals_seq(),
            match run_info(
                old(self).src().bytes(),
                old(self).src().pos(),
                len,
                0,
                Seq::empty(),
            ) {
                InfoResult::Done { tags: ts } => {
                    &&& r == Ok::<(), Error>(())
                    &&& final(self).src().pos() == old(self).src().pos() + len
                    &&& tags_view(final(self).tags_seq()) == tags_view(old(self).tags_seq()) + ts
                },
                InfoResult::Malformed => r == Err::<(), Error>(Error::MalformedChunk),
                InfoResult::Short => r == Err::<(), Error>(Error::Truncated),
            },
    {
        let ghost b = old(self).src().bytes();
        let ghost p0 = old(self).src().pos();
        let ghost answer = run_info(b, p0, len, 0, Seq::empty());
        let mut info_list = ChunksReader::<RiffInfoListChunks>::new(len);
        let ghost mut acc: Seq<(TagKey, Seq<u8>)> = Seq::empty();
        loop
            invariant
                b == old(self).src().bytes(),
                p0 == old(self).src().pos(),
                answer == run_info(b, p0, len, 0, Seq::empty()),
                self.wf(),
                self.src().bytes() == b,
                self.streams_seq() == old(self).streams_seq(),
                self.visuals_seq() == old(self).visuals_seq(),
                info_list.wf(),
                info_list.region_len() == len,
                self.src().pos() == p0 + info_list.consumed(),
                run_info(b, self.src().pos(), len, info_list.consumed(), acc) == answer,
                tags_view(self.tags_seq()) == tags_view(old(self).tags_seq()) + acc,
            ensures
                self.wf(),
                self.src().bytes() == b,
                self.streams_seq() == old(self).streams_seq(),
                self.visuals_seq() == old(self).visuals_seq(),
                info_list.wf(),
                info_list.region_len() == len,
                self.src().pos() == p0 + info_list.consumed(),
                run_info(b, self.src().pos(), len, info_list.consumed(), acc) == answer,
                tags_view(self.tags_seq()) == tags_view(old(self).tags_seq()) + acc,
                spec_next::<RiffInfoListChunks>(b, self.src().pos(), len, info_list.consumed())
                    is End,
            decreases info_list.region_len() - info_list.consumed(),
        {
            let ghost pre_pos = self.src().pos();
            let ghost pre_c = info_list.consumed();
            let ghost pre_acc = acc;
            proof {
                lemma_spec_next_bounds::<RiffInfoListChunks>(b, pre_pos, len, pre_c);
                lemma_info_yield_len(b, pre_pos, len, pre_c);
            }
            let step = info_list.next(&mut self.reader);
            match step {
                Err(e) => {
                    return Err(e);
                },
                Ok(None) => {
                    proof {
                        match spec_next::<RiffInfoListChunks>(b, pre_pos, len, pre_c) {
                            NextStep::End { consumed: c } => {
                                assert(spec_next::<RiffInfoListChunks>(
                                    b,
                                    self.src().pos(),
                                    len,
                                    c,
                                ) == NextStep::<RiffInfoListChunks>::End { consumed: c });
                            },
                            _ => {
                                assert(false);
                            },
                        }
                    }
                    break;
                },
                Ok(Some(RiffInfoListChunks::Info(key, l))) => {
                    let parsed = InfoChunk::parse(&mut self.reader, key, l);
                    match parsed {
                        Err(e) => {
                            proof {
                                assert(run_info(b, pre_pos, len, pre_c, pre_acc)
                                    == InfoResult::Short);
                            }
                            return Err(e);
                        },
                        Ok(nfo) => {
                            let ghost t = (key, nfo.tag.value@);
                            let ghost pre_tags = self.tags_seq();
                            let ghost t_exec = nfo.tag;
                            self.tags.push(nfo.tag);
                            proof {
                                acc = acc.push(t);
                                lemma_tags_view_push(pre_tags, t_exec);
                                assert(tags_view(old(self).tags_seq()) + acc =~= (tags_view(
                                    old(self).tags_seq(),
                                ) + pre_acc).push(t));
                                assert(tags_view(self.tags_seq()) == tags_view(
                                    old(self).tags_seq(),
                                ) + acc);
                                assert(run_info(b, pre_pos, len, pre_c, pre_acc) == run_info(
                                    b,
                                    self.src().pos(),
                                    len,
                                    info_list.consumed(),
                                    acc,
                                ));
                            }
                        },
                    }
                },
            }
        }
        let ghost end_pos = self.src().pos();
        let ghost end_c = info_list.consumed();
        match info_list.finish(&mut self.reader) {
            Ok(_) => {
                proof {
                    assert(run_info(b, end_pos, len, end_c, acc) == (InfoResult::Done {
                        tags: acc,
                    }));
                }
                Ok(())
            },
            Err(e) => {
                proof {
                    assert(run_info(b, end_pos, len, end_c, acc) == InfoResult::Short);
                }
                Err(e)
            },
        }
    }

    /// Probe the source for a Wave container and register its stream.
    ///
    /// The probe searches for the RIFF marker at the given depth, reads
    /// the 32-bit container length and the 4-byte form type (which must
    /// equal the WAVE form, compared byte for byte), and then drives a
    /// region chunk reader over the remaining container bytes, merging
    /// format and frame-count chunks and gathering informational tags,
    /// until the first data chunk registers exactly one stream descriptor
    /// from the parameters accumulated so far. A missing marker or a
    /// wrong form type yields `Unsupported` (not an error); a malformed
    /// chunk or a stream that ends early is a hard error.
    #[verifier::rlimit(100)]
    #[verifier::spinoff_prover]
    pub fn probe(&mut self, depth: ProbeDepth) -> (r: Result<ProbeResult, Error>)
        requires
            old(self).wf(),
        ensures
            final(self).wf(),
            final(self).src().bytes() == old(self).src().bytes(),
            final(self).visuals_seq() == old(self).visuals_seq(),
            match spec_probe(
                old(self).src().bytes(),
                old(self).src().pos(),
                depth == ProbeDepth::Deep,
            ) {
                RunResult::Supported { params, tags } => {
                    &&& r == Ok::<ProbeResult, Error>(ProbeResult::Supported)
                    &&& final(self).streams_seq() == old(self).streams_seq().push(
                        (Stream { codec_params: params }),
                    )
                    &&& tags_view(final(self).tags_seq()) == tags_view(old(self).tags_seq()) + tags
                },
                RunResult::NoData { tags } => {
                    &&& r == Ok::<ProbeResult, Error>(ProbeResult::Unsupported)
                    &&& final(self).streams_seq() == old(self).streams_seq()
                    &&& tags_view(final(self).tags_seq()) == tags_view(old(self).tags_seq()) + tags
                },
                RunResult::Malformed => {
                    &&& r == Err::<ProbeResult, Error>(Error::MalformedChunk)
                    &&& final(self).streams_seq() == old(self).streams_seq()
                },
                RunResult::Short => {
                    &&& r == Err::<ProbeResult, Error>(Error::Truncated)
                    &&& final(self).streams_seq() == old(self).streams_seq()
                },
            },
    {
        let ghost b = old(self).src().bytes();
        let ghost p0 = old(self).src().pos();
        let ghost deep = depth == ProbeDepth::Deep;
        let riff = [0x52u8, 0x49u8, 0x46u8, 0x46u8];
        proof {
            assert(riff@ =~= riff_marker());
        }
        let marker = match search_for_marker(&mut self.reader, &riff, depth) {
            Ok(m) => m,
            Err(e) => {
                return Err(e);
            },
        };
        if marker.is_none() {
            proof {
                assert(tags_view(self.tags_seq()) + Seq::<(TagKey, Seq<u8>)>::empty() =~= tags_view(
                    self.tags_seq(),
                ));
            }
            return Ok(ProbeResult::Unsupported);
        }
        let riff_len = match self.reader.read_u32() {
            Ok(v) => v,
            Err(e) => {
                return Err(e);
            },
        };
        let riff_form = match self.reader.read_quad_bytes() {
            Ok(q) => q,
            Err(e) => {
                return Err(e);
            },
        };
        let is_wave = riff_form[0] == 0x57 && riff_form[1] == 0x41 && riff_form[2] == 0x56
            && riff_form[3] == 0x45;
        if !is_wave {
            proof {
                assert(tags_view(self.tags_seq()) + Seq::<(TagKey, Seq<u8>)>::empty() =~= tags_view(
                    self.tags_seq(),
                ));
            }
            return Ok(ProbeResult::Unsupported);
        }
        let budget: u32 = if riff_len >= 4 {
            riff_len - 4
        } else {
            0
        };
        let ghost p2 = self.src().pos();
        let ghost answer = run_wave(b, p2, budget, 0, CodecParameters::spec_new(), Seq::empty());
        proof {
            assert(spec_probe(b, p0, deep) == answer);
        }
        let mut riff_chunks = ChunksReader::<RiffWaveChunks>::new(budget);
        let mut codec_params = CodecParameters::new();
        let ghost mut acc: Seq<(TagKey, Seq<u8>)> = Seq::empty();
        loop
            invariant
                b == old(self).src().bytes(),
                p0 == old(self).src().pos(),
                answer == spec_probe(b, p0, deep),
                deep == (depth == ProbeDepth::Deep),
                self.wf(),
                self.src().bytes() == b,
                self.streams_seq() == old(self).streams_seq(),
                self.visuals_seq() == old(self).visuals_seq(),
                riff_chunks.wf(),
                riff_chunks.region_len() == budget,
                run_wave(b, self.src().pos(), budget, riff_chunks.consumed(), codec_params, acc)
                    == answer,
                tags_view(self.tags_seq()) == tags_view(old(self).tags_seq()) + acc,
            decreases riff_chunks.region_len() - riff_chunks.consumed(),
        {
            let ghost pre_pos = self.src().pos();
            let ghost pre_c = riff_chunks.consumed();
            let ghost pre_acc = acc;
            let ghost pre_params = codec_params;
            proof {
                lemma_spec_next_bounds::<RiffWaveChunks>(b, pre_pos, budget, pre_c);
                lemma_wave_yield_len(b, pre_pos, budget, pre_c);
            }
            let step = riff_chunks.next(&mut self.reader);
            match step {
                Err(e) => {
                    return Err(e);
                },
                Ok(None) => {
                    return Ok(ProbeResult::Unsupported);
                },
                Ok(Some(chunk)) => {
                    match chunk {
                        RiffWaveChunks::Format(l) => {
                            let parsed = WaveFormatChunk::parse(&mut self.reader, l);
                            match parsed {
                                Err(e) => {
                                    return Err(e);
                                },
                                Ok(format) => {
                                    append_format_params(&mut codec_params, &format);
                                    proof {
                                        assert(run_wave(b, pre_pos, budget, pre_c, pre_params,
                                        pre_acc) == run_wave(
                                            b,
                                            self.src().pos(),
                                            budget,
                                            riff_chunks.consumed(),
                                            codec_params,
                                            acc,
                                        ));
                                    }
                                },
                            }
                        },
                        RiffWaveChunks::Fact(l) => {
                            let parsed = FactChunk::parse(&mut self.reader, l);
                            match parsed {
                                Err(e) => {
                                    return Err(e);
                                },
                                Ok(fact) => {
                                    append_fact_params(&mut codec_params, &fact);
                                    proof {
                                        assert(run_wave(b, pre_pos, budget, pre_c, pre_params,
                                        pre_acc) == run_wave(
                                            b,
                                            self.src().pos(),
                                            budget,
                                            riff_chunks.consumed(),
                                            codec_params,
                                            acc,
                                        ));
                                    }
                                },
                            }
                        },
                        RiffWaveChunks::List(l) => {
                            let lst = match ListChunk::parse(&mut self.reader, l) {
                                Ok(lst) => lst,
                                Err(e) => {
                                    return Err(e);
                                },
                            };
                            let ghost list_pos = self.src().pos();
                            let nested_info = lst.form[0] == 0x49 && lst.form[1] == 0x4e
                                && lst.form[2] == 0x46 && lst.form[3] == 0x4f;
                            if nested_info {
                                let ghost pre_list_tags = self.tags_seq();
                                match self.read_metadata(lst.len) {
                                    Ok(_) => {
                                        proof {
                                            match run_info(b, list_pos, lst.len, 0, Seq::empty()) {
                                                InfoResult::Done { tags: ts } => {
                                                    acc = pre_acc + ts;
                                                    assert((tags_view(old(self).tags_seq())
                                                        + pre_acc) + ts =~= tags_view(
                                                        old(self).tags_seq(),
                                                    ) + (pre_acc + ts));
                                                    assert(run_wave(b, pre_pos, budget, pre_c,
                                                    pre_params, pre_acc) == run_wave(
                                                        b,
                                                        self.src().pos(),
                                                        budget,
                                                        riff_chunks.consumed(),
                                                        codec_params,
                                                        acc,
                                                    ));
                                                },
                                                _ => {
                                                    assert(false);
                                                },
                                            }
                                        }
                                    },
                                    Err(e) => {
                                        return Err(e);
                                    },
                                }
                            } else {
                                match lst.skip(&mut self.reader) {
                                    Ok(_) => {
                                        proof {
                                            assert(run_wave(b, pre_pos, budget, pre_c, pre_params,
                                            pre_acc) == run_wave(
                                                b,
                                                self.src().pos(),
                                                budget,
                                                riff_chunks.consumed(),
                                                codec_params,
                                                acc,
                                            ));
                                        }
                                    },
                                    Err(e) => {
                                        return Err(e);
                                    },
                                }
                            }
                        },
                        RiffWaveChunks::Data => {
                            self.streams.push(Stream::new(codec_params));
                            return Ok(ProbeResult::Supported);
                        },
                    }
                },
            }
        }
    }

    /// Read the remainder of the source as one raw, unframed packet for
    /// the registered stream. Framing is the downstream decoder's job.
    pub fn next_packet(&mut self) -> (r: Result<Packet, Error>)
        requires
            old(self).wf(),
        ensures
            final(self).wf(),
            final(self).src().bytes() == old(self).src().bytes(),
            final(self).streams_seq() == old(self).streams_seq(),
            final(self).tags_seq() == old(self).tags_seq(),
            final(self).visuals_seq() == old(self).visuals_seq(),
            match r {
                Ok(p) => {
                    &&& p.stream == 0
                    &&& p.data@ == old(self).src().bytes().subrange(
                        old(self).src().pos(),
                        old(self).src().bytes().len() as int,
                    )
                    &&& final(self).src().pos() == final(self).src().bytes().len()
                },
                Err(_) => false,
            },
    {
        direct_packet(0, &mut self.reader)
    }

    /// The tags gathered by probing, in the order they were read.
    pub fn tags(&self) -> (r: &Vec<Tag>)
        ensures
            r@ == self.tags_seq(),
    {
        &self.tags
    }

    /// The attached pictures gathered by probing (none, for Wave).
    pub fn visuals(&self) -> (r: &Vec<Visual>)
        ensures
            r@ == self.visuals_seq(),
    {
        &self.visuals
    }

    /// The stream descriptors registered by probing.
    pub fn streams(&self) -> (r: &Vec<Stream>)
        ensures
            r@ == self.streams_seq(),
    {
        &self.streams
    }

    /// Seeking is not implemented at this layer: every request fails with
    /// the unsupported-operation signal, never a crash, and the reader is
    /// left untouched.
    pub fn seek(&mut self, _ts: Timestamp) -> (r: Result<u64, Error>)
        ensures
            *final(self) == *old(self),
            r == Err::<u64, Error>(Error::UnsupportedOperation),
    {
        Err(Error::UnsupportedOperation)
    }
}

} // verus!
