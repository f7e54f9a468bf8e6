use vstd::prelude::*;
use crate::codec::CodecParameters;
use crate::chunks::NextStep;
use crate::chunks::ParseChunkTag;
use crate::chunks::RiffInfoListChunks;
use crate::chunks::RiffWaveChunks;
use crate::chunks::WaveFormatChunk;
use crate::chunks::id_is;
use crate::chunks::lemma_spec_next_bounds;
use crate::chunks::spec_next;
use crate::chunks::spec_parse_format;
use crate::io::le32_at;
use crate::meta::TagKey;
use crate::wave::InfoResult;
use crate::wave::RunResult;
use crate::wave::SearchOutcome;
use crate::wave::is_wave_form;
use crate::wave::marker_at;
use crate::wave::riff_marker;
use crate::wave::run_info;
use crate::wave::run_wave;
use crate::wave::spec_merge_format;
use crate::wave::spec_probe;
use crate::wave::spec_search;
use crate::wave::spec_search_from;

verus! {

/// The channel count a format chunk carries, whatever its sub-format.
pub open spec fn format_channels(f: WaveFormatChunk) -> u16 {
    f.n_channels
}

/// Law: halting at the first data chunk. When the chunk scan meets a data
/// chunk header that fits the region budget, traversal returns
/// `Supported` with exactly the parameters and tags accumulated so far —
/// whatever content follows that header, including further data chunks.
/// Nothing past the first data chunk header is ever inspected, so a
/// second data chunk is never registered; combined with `probe`'s
/// contract, exactly one stream descriptor is pushed.
pub proof fn lemma_halt_at_first_data(
    d: Seq<u8>,
    pos: int,
    len: u32,
    consumed: u32,
    params: CodecParameters,
    tags: Seq<(TagKey, Seq<u8>)>,
)
    requires
        consumed % 2 == 0,
        consumed <= len,
        0 <= pos,
        pos + 8 <= d.len(),
        id_is(d.subrange(pos, pos + 4), 0x64, 0x61, 0x74, 0x61),
        consumed + 8 + le32_at(d, pos + 4) <= len,
    ensures
        run_wave(d, pos, len, consumed, params, tags) == (RunResult::Supported { params, tags }),
{
    let dl = le32_at(d, pos + 4);
    assert(spec_next::<RiffWaveChunks>(d, pos, len, consumed) == NextStep::<
        RiffWaveChunks,
    >::Yield { chunk: RiffWaveChunks::Data, clen: dl, consumed: (consumed + 8 + dl) as u32 });
}

/// Law: a format chunk followed by a data chunk is supported. Traversing
/// a region whose scan first meets a well-formed format chunk and then a
/// data chunk yields `Supported`, with the format chunk merged into the
/// parameters — whatever bytes follow the data chunk header.
pub proof fn lemma_format_then_data(
    d: Seq<u8>,
    pos: int,
    len: u32,
    consumed: u32,
    params: CodecParameters,
    tags: Seq<(TagKey, Seq<u8>)>,
    f: WaveFormatChunk,
)
    requires
        consumed % 2 == 0,
        consumed <= len,
        0 <= pos,
        pos + 8 <= d.len(),
        id_is(d.subrange(pos, pos + 4), 0x66, 0x6d, 0x74, 0x20),
        spec_parse_format(d, pos + 8, le32_at(d, pos + 4)) == Ok::<WaveFormatChunk, crate::errors::Error>(f),
        pos + 8 + le32_at(d, pos + 4) + 8 <= d.len(),
        id_is(
            d.subrange(pos + 8 + le32_at(d, pos + 4), pos + 8 + le32_at(d, pos + 4) + 4),
            0x64,
            0x61,
            0x74,
            0x61,
        ),
        consumed + 8 + le32_at(d, pos + 4) + 8 + le32_at(d, pos + 8 + le32_at(d, pos + 4) + 4)
            <= len,
    ensures
        run_wave(d, pos, len, consumed, params, tags) == (RunResult::Supported {
            params: spec_merge_format(params, f),
            tags,
        }),
{
    let fl = le32_at(d, pos + 4);
    assert(fl == 16 || fl == 18 || fl == 40);
    let c2 = (consumed + 8 + fl) as u32;
    assert(spec_next::<RiffWaveChunks>(d, pos, len, consumed) == NextStep::<
        RiffWaveChunks,
    >::Yield { chunk: RiffWaveChunks::Format(fl), clen: fl, consumed: c2 });
    assert(run_wave(d, pos, len, consumed, params, tags) == run_wave(
        d,
        pos + 8 + fl,
        len,
        c2,
        spec_merge_format(params, f),
        tags,
    ));
    lemma_halt_at_first_data(d, pos + 8 + fl, len, c2, spec_merge_format(params, f), tags);
}

/// Law: a well-formed container with a format chunk followed by a data
/// chunk probes as supported, and the registered parameters carry the
/// format chunk's sample rate and channel count. Through `probe`'s
/// contract, `streams` then yields exactly one descriptor with those
/// fields.
pub proof fn lemma_probe_format_then_data(d: Seq<u8>, p0: int, deep: bool, f: WaveFormatChunk)
    requires
        0 <= p0,
        marker_at(d, p0, riff_marker()),
        p0 + 12 <= d.len(),
        is_wave_form(d, p0 + 8),
        le32_at(d, p0 + 4) >= 4,
        p0 + 12 + 8 <= d.len(),
        id_is(d.subrange(p0 + 12, p0 + 16), 0x66, 0x6d, 0x74, 0x20),
        spec_parse_format(d, p0 + 20, le32_at(d, p0 + 16)) == Ok::<WaveFormatChunk, crate::errors::Error>(f),
        p0 + 20 + le32_at(d, p0 + 16) + 8 <= d.len(),
        id_is(
            d.subrange(p0 + 20 + le32_at(d, p0 + 16), p0 + 20 + le32_at(d, p0 + 16) + 4),
            0x64,
            0x61,
            0x74,
            0x61,
        ),
        8 + le32_at(d, p0 + 16) + 8 + le32_at(d, p0 + 20 + le32_at(d, p0 + 16) + 4) <= le32_at(
            d,
            p0 + 4,
        ) - 4,
    ensures
        spec_probe(d, p0, deep) == (RunResult::Supported {
            params: spec_merge_format(CodecParameters::spec_new(), f),
            tags: Seq::empty(),
        }),
        spec_merge_format(CodecParameters::spec_new(), f).sample_rate == Some(f.sample_rate),
        spec_merge_format(CodecParameters::spec_new(), f).n_channels == Some(format_channels(f)),
{
    if deep {
        assert(spec_search_from(d, p0, riff_marker(), 0) == (SearchOutcome::Found { offset: 0 }));
    }
    assert(spec_search(d, p0, riff_marker(), deep) == (SearchOutcome::Found { offset: 0 }));
    let riff_len = le32_at(d, p0 + 4);
    let budget = (riff_len - 4) as u32;
    assert(spec_probe(d, p0, deep) == run_wave(
        d,
        p0 + 12,
        budget,
        0,
        CodecParameters::spec_new(),
        Seq::empty(),
    ));
    lemma_format_then_data(
        d,
        p0 + 12,
        budget,
        0,
        CodecParameters::spec_new(),
        Seq::empty(),
        f,
    );
}

/// Law: odd-length chunks are padded. When the region reader itself skips
/// an unrecognized chunk with odd declared length, it consumes exactly
/// that length plus one pad byte between the end of the chunk's header
/// and the next header read. This holds for any chunk vocabulary.
pub proof fn lemma_odd_skip_consumes_padded_length<T: ParseChunkTag>(
    d: Seq<u8>,
    pos: int,
    len: u32,
    consumed: u32,
)
    requires
        consumed % 2 == 0,
        consumed <= len,
        0 <= pos,
        pos + 8 <= d.len(),
        T::spec_tag(d.subrange(pos, pos + 4), le32_at(d, pos + 4)) is None,
        le32_at(d, pos + 4) % 2 == 1,
        consumed + 8 + le32_at(d, pos + 4) + 1 <= len,
        pos + 8 + le32_at(d, pos + 4) + 1 <= d.len(),
    ensures
        ({
            let l = le32_at(d, pos + 4);
            spec_next::<T>(d, pos, len, consumed) == spec_next::<T>(
                d,
                pos + 8 + l + 1,
                len,
                (consumed + 8 + l + 1) as u32,
            )
        }),
{
    let l = le32_at(d, pos + 4);
    assert(spec_next::<T>(d, pos, len, consumed) == spec_next::<T>(
        d,
        pos + 8 + l,
        len,
        (consumed + 8 + l) as u32,
    ));
    assert((consumed + 8 + l) % 2 == 1);
    assert(spec_next::<T>(d, pos + 8 + l, len, (consumed + 8 + l) as u32) == spec_next::<T>(
        d,
        pos + 8 + l + 1,
        len,
        (consumed + 8 + l + 1) as u32,
    ));
}

/// Law: the pad byte after a recognized odd-length chunk. A caller that
/// consumed the payload of a recognized chunk with odd declared length
/// leaves the budget counter odd; the very next scan then consumes exactly
/// one pad byte before reading the next header, completing the
/// length-plus-one accounting for recognized chunks as well.
pub proof fn lemma_pad_byte_before_next_header<T: ParseChunkTag>(
    d: Seq<u8>,
    pos: int,
    len: u32,
    consumed: u32,
)
    requires
        consumed % 2 == 1,
        consumed < len,
        0 <= pos,
        pos + 1 <= d.len(),
    ensures
        spec_next::<T>(d, pos, len, consumed) == spec_next::<T>(
            d,
            pos + 1,
            len,
            (consumed + 1) as u32,
        ),
{
}

/// No occurrence of `m` at any offset from `o` through the search ceiling
/// means the scan from `o` gives up, provided the stream holds the whole
/// search window.
proof fn lemma_search_from_miss(d: Seq<u8>, p0: int, m: Seq<u8>, o: int)
    requires
        0 <= p0,
        0 <= o,
        p0 + 524289 <= d.len(),
        forall|j: int| o <= j <= 524285 ==> !(#[trigger] marker_at(d, p0 + j, m)),
    ensures
        spec_search_from(d, p0, m, o) == SearchOutcome::NotFound,
    decreases 524286 - o,
{
    if o <= 524285 {
        assert(!marker_at(d, p0 + o, m));
        lemma_search_from_miss(d, p0, m, o + 1);
    }
}

/// Law: a stream with no marker match anywhere in the deep search window
/// probes as unsupported — never an error — provided the stream holds the
/// full search window (one 4-byte window plus 512 KiB of shifted bytes).
pub proof fn lemma_deep_search_miss_is_unsupported(d: Seq<u8>, p0: int)
    requires
        0 <= p0,
        p0 + 524289 <= d.len(),
        forall|o: int| 0 <= o <= 524285 ==> !(#[trigger] marker_at(d, p0 + o, riff_marker())),
    ensures
        spec_probe(d, p0, true) == (RunResult::NoData { tags: Seq::empty() }),
{
    lemma_search_from_miss(d, p0, riff_marker(), 0);
}

/// Law: an informational list whose scan recognizes no sub-chunk yields
/// zero tags. Combined with `read_metadata`'s contract, the cursor then
/// lands exactly at the position following the list's declared length.
pub proof fn lemma_info_without_recognized_ids_yields_no_tags(d: Seq<u8>, pos: int, len: u32)
    requires
        0 <= pos,
        pos + len <= d.len(),
        spec_next::<RiffInfoListChunks>(d, pos, len, 0) is End,
    ensures
        run_info(d, pos, len, 0, Seq::empty()) == (InfoResult::Done { tags: Seq::empty() }),
{
    lemma_spec_next_bounds::<RiffInfoListChunks>(d, pos, len, 0);
}

/// A byte-level instance of the previous law's hypothesis: an
/// informational region holding one unrecognized sub-chunk that spans the
/// whole region budget scans to a clean end, so such a list yields zero
/// tags.
pub proof fn lemma_single_unknown_subchunk_scans_to_end(d: Seq<u8>, pos: int, len: u32)
    requires
        0 <= pos,
        pos + len <= d.len(),
        len >= 8,
        RiffInfoListChunks::spec_tag(d.subrange(pos, pos + 4), le32_at(d, pos + 4)) is None,
        8 + le32_at(d, pos + 4) == len,
    ensures
        spec_next::<RiffInfoListChunks>(d, pos, len, 0) is End,
{
    let l = le32_at(d, pos + 4);
    assert(spec_next::<RiffInfoListChunks>(d, pos, len, 0) == spec_next::<RiffInfoListChunks>(
        d,
        pos + 8 + l,
        len,
        (8 + l) as u32,
    ));
}

/// Law: a data chunk appearing before any format chunk registers a
/// descriptor built from the default (empty) codec parameters. This is
/// documented behavior, not auto-corrected: the probe reports the stream
/// as supported even though nothing is known about its codec.
pub proof fn lemma_data_before_format_registers_defaults(d: Seq<u8>, p0: int, deep: bool)
    requires
        0 <= p0,
        marker_at(d, p0, riff_marker()),
        p0 + 12 <= d.len(),
        is_wave_form(d, p0 + 8),
        le32_at(d, p0 + 4) >= 4,
        p0 + 20 <= d.len(),
        id_is(d.subrange(p0 + 12, p0 + 16), 0x64, 0x61, 0x74, 0x61),
        8 + le32_at(d, p0 + 16) <= le32_at(d, p0 + 4) - 4,
    ensures
        spec_probe(d, p0, deep) == (RunResult::Supported {
            params: CodecParameters::spec_new(),
            tags: Seq::empty(),
        }),
{
    if deep {
        assert(spec_search_from(d, p0, riff_marker(), 0) == (SearchOutcome::Found { offset: 0 }));
    }
    assert(spec_search(d, p0, riff_marker(), deep) == (SearchOutcome::Found { offset: 0 }));
    let riff_len = le32_at(d, p0 + 4);
    let budget = (riff_len - 4) as u32;
    assert(spec_probe(d, p0, deep) == run_wave(
        d,
        p0 + 12,
        budget,
        0,
        CodecParameters::spec_new(),
        Seq::empty(),
    ));
    lemma_halt_at_first_data(d, p0 + 12, budget, 0, CodecParameters::spec_new(), Seq::empty());
}

} // verus!
