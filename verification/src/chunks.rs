use vstd::prelude::*;
use crate::errors::Error;
use crate::io::ByteStream;
use crate::io::le16_at;
use crate::io::le32_at;
use crate::codec::CodecType;
use crate::meta::Tag;
use crate::meta::TagKey;
use crate::meta::trim_nuls;
use core::marker::PhantomData;

verus! {

/// A closed vocabulary of recognized chunk identifiers for one container
/// dialect. `spec_tag` is the mathematical lookup table; `parse_tag` is
/// its executable twin. A vocabulary maps a 4-byte identifier and the
/// chunk's declared payload length to a typed chunk, or to `None` for an
/// identifier it does not recognize.
pub trait ParseChunkTag: Sized {
    spec fn spec_tag(id: Seq<u8>, len: u32) -> Option<Self>;

    fn parse_tag(id: [u8; 4], len: u32) -> (r: Option<Self>)
        ensures
            r == Self::spec_tag(id@, len),
    ;
}

/// What one `ChunksReader::next` call does, stated over the raw bytes.
///
/// `consumed` is the reader's budget counter after the call. On `Yield`
/// the payload of `clen` bytes is charged to the budget but *not* read
/// from the stream: consuming it is the caller's obligation.
pub enum NextStep<T> {
    /// Fewer than 8 budget bytes remain: clean end of region.
    End { consumed: u32 },
    /// A recognized chunk header was read; the cursor rests at the start
    /// of its payload.
    Yield { chunk: T, clen: u32, consumed: u32 },
    /// A chunk declared more payload than the region has budget for.
    TooLong,
    /// The stream ended inside a header, a pad byte, or a skipped payload.
    Short,
}

/// The outcome of scanning for the next recognized chunk, starting at
/// byte index `pos` of `data` with `consumed` of the `len`-byte region
/// budget already spent.
///
/// The scan first consumes one pad byte whenever the budget counter is
/// odd (an odd-length payload is always followed by one pad byte before
/// the next header), then reads a header of a 4-byte identifier and a
/// 4-byte little-endian length, and either yields a recognized chunk or
/// skips the payload of an unrecognized one and scans on.
pub open spec fn spec_next<T: ParseChunkTag>(
    data: Seq<u8>,
    pos: int,
    len: u32,
    consumed: u32,
) -> NextStep<T>
    decreases len - consumed,
{
    if consumed % 2 == 1 && consumed < len {
        if pos + 1 > data.len() {
            NextStep::Short
        } else {
            spec_next(data, pos + 1, len, (consumed + 1) as u32)
        }
    } else if len < consumed + 8 {
        NextStep::End { consumed }
    } else if pos < 0 || pos + 8 > data.len() {
        NextStep::Short
    } else {
        let clen = le32_at(data, pos + 4);
        if clen > len - (consumed + 8) {
            NextStep::TooLong
        } else {
            match T::spec_tag(data.subrange(pos, pos + 4), clen) {
                Some(chunk) => NextStep::Yield {
                    chunk,
                    clen,
                    consumed: (consumed + 8 + clen) as u32,
                },
                None => {
                    if pos + 8 + clen > data.len() {
                        NextStep::Short
                    } else {
                        spec_next(data, pos + 8 + clen, len, (consumed + 8 + clen) as u32)
                    }
                },
            }
        }
    }
}

/// Bounds every `spec_next` outcome respects when it starts inside the
/// region budget.
pub proof fn lemma_spec_next_bounds<T: ParseChunkTag>(data: Seq<u8>, pos: int, len: u32, consumed: u32)
    requires
        consumed <= len,
    ensures
        match spec_next::<T>(data, pos, len, consumed) {
            NextStep::End { consumed: c } => consumed <= c <= len && !(c % 2 == 1 && c < len)
                && len < c + 8,
            NextStep::Yield { chunk, clen, consumed: c } => consumed < c <= len && clen < c
                - consumed,
            NextStep::TooLong => true,
            NextStep::Short => true,
        },
    decreases len - consumed,
{
    if consumed % 2 == 1 && consumed < len {
        if pos + 1 <= data.len() {
            lemma_spec_next_bounds::<T>(data, pos + 1, len, (consumed + 1) as u32);
        }
    } else if len < consumed + 8 {
    } else if pos < 0 || pos + 8 > data.len() {
    } else {
        let clen = le32_at(data, pos + 4);
        if clen <= len - (consumed + 8) {
            if T::spec_tag(data.subrange(pos, pos + 4), clen) is None {
                if pos + 8 + clen <= data.len() {
                    lemma_spec_next_bounds::<T>(
                        data,
                        pos + 8 + clen,
                        len,
                        (consumed + 8 + clen) as u32,
                    );
                }
            }
        }
    }
}


/// A region-scoped chunk iterator, generic over the vocabulary `T`.
///
/// It is constructed with a byte budget equal to the remaining length of
/// the enclosing region, and guarantees that the cumulative bytes it
/// accounts for never exceed that budget. When a recognized chunk is
/// yielded, its declared payload length is charged to the budget and the
/// caller must consume exactly that many stream bytes before calling
/// `next` or `finish` again; `finish` then skips whatever the traversal
/// left unread, so the cursor lands exactly at the region's declared end
/// however early the traversal stopped.
pub struct ChunksReader<T: ParseChunkTag> {
    len: u32,
    consumed: u32,
    _vocabulary: PhantomData<T>,
}

impl<T: ParseChunkTag> ChunksReader<T> {
    /// The region's byte budget.
    pub closed spec fn region_len(&self) -> u32 {
        self.len
    }

    /// How much of the budget is spent (bytes read, plus payloads charged
    /// to callers).
    pub closed spec fn consumed(&self) -> u32 {
        self.consumed
    }

    /// The budget counter never exceeds the budget.
    pub open spec fn wf(&self) -> bool {
        self.consumed() <= self.region_len()
    }

    pub fn new(len: u32) -> (r: Self)
        ensures
            r.wf(),
            r.region_len() == len,
            r.consumed() == 0,
    {
        ChunksReader { len, consumed: 0, _vocabulary: PhantomData }
    }

    /// Scan forward to the next recognized chunk of the region.
    ///
    /// Returns `Ok(None)` on clean end of region, and a hard error when a
    /// chunk overruns the region (`MalformedChunk`) or the stream ends
    /// early (`Truncated`). On `Ok(Some(_))` the cursor rests at the
    /// chunk's payload and the caller owes the stream exactly the
    /// declared payload length before touching this reader again.
    pub fn next(&mut self, s: &mut ByteStream) -> (r: Result<Option<T>, Error>)
        requires
            old(self).wf(),
            old(s).wf(),
        ensures
            final(self).wf(),
            final(s).wf(),
            final(s).bytes() == old(s).bytes(),
            final(self).region_len() == old(self).region_len(),
            old(self).consumed() <= final(self).consumed(),
            match spec_next::<T>(
                old(s).bytes(),
                old(s).pos(),
                old(self).region_len(),
                old(self).consumed(),
            ) {
                NextStep::End { consumed } => {
                    &&& r == Ok::<Option<T>, Error>(None)
                    &&& final(self).consumed() == consumed
                    &&& final(s).pos() == old(s).pos() + (consumed - old(self).consumed())
                },
                NextStep::Yield { chunk, clen, consumed } => {
                    &&& r == Ok::<Option<T>, Error>(Some(chunk))
                    &&& final(self).consumed() == consumed
                    &&& final(s).pos() == old(s).pos() + (consumed - old(self).consumed()) - clen
                },
                NextStep::TooLong => r == Err::<Option<T>, Error>(Error::MalformedChunk),
                NextStep::Short => r == Err::<Option<T>, Error>(Error::Truncated),
            },
    {
        let ghost b = old(s).bytes();
        let ghost p0 = old(s).pos();
        let ghost c0 = old(self).consumed();
        let ghost answer = spec_next::<T>(b, p0, old(self).region_len(), c0);
        loop
            invariant
                b == old(s).bytes(),
                p0 == old(s).pos(),
                c0 == old(self).consumed(),
                self.wf(),
                s.wf(),
                s.bytes() == b,
                self.region_len() == old(self).region_len(),
                c0 <= self.consumed(),
                s.pos() == p0 + (self.consumed() - c0),
                spec_next::<T>(b, s.pos(), self.region_len(), self.consumed()) == answer,
                answer == spec_next::<T>(b, p0, old(self).region_len(), c0),
            decreases self.region_len() - self.consumed(),
        {
            let ghost ipos = s.pos();
            let ghost ic = self.consumed();
            if self.consumed % 2 == 1 && self.consumed < self.len {
                match s.read_u8() {
                    Ok(_) => {
                        self.consumed = self.consumed + 1;
                        proof {
                            assert(spec_next::<T>(b, ipos, self.region_len(), ic)
                                == spec_next::<T>(b, s.pos(), self.region_len(), self.consumed()));
                        }
                    },
                    Err(e) => {
                        proof {
                            assert(spec_next::<T>(b, ipos, self.region_len(), ic)
                                == NextStep::<T>::Short);
                        }
                        return Err(e);
                    },
                }
            }
            let ghost hpos = s.pos();
            let ghost hc = self.consumed();
            if self.len - self.consumed < 8 {
                proof {
                    assert(spec_next::<T>(b, hpos, self.region_len(), hc) == NextStep::<
                        T,
                    >::End { consumed: hc });
                }
                return Ok(None);
            }
            let id = match s.read_quad_bytes() {
                Ok(q) => q,
                Err(e) => {
                    proof {
                        assert(spec_next::<T>(b, hpos, self.region_len(), hc) == NextStep::<
                            T,
                        >::Short);
                    }
                    return Err(e);
                },
            };
            let clen = match s.read_u32() {
                Ok(v) => v,
                Err(e) => {
                    proof {
                        assert(spec_next::<T>(b, hpos, self.region_len(), hc) == NextStep::<
                            T,
                        >::Short);
                    }
                    return Err(e);
                },
            };
            self.consumed = self.consumed + 8;
            proof {
                assert(id@ == b.subrange(hpos, hpos + 4));
                assert(clen == le32_at(b, hpos + 4));
            }
            if clen > self.len - self.consumed {
                proof {
                    assert(spec_next::<T>(b, hpos, self.region_len(), hc) == NextStep::<
                        T,
                    >::TooLong);
                }
                return Err(Error::MalformedChunk);
            }
            match T::parse_tag(id, clen) {
                Some(chunk) => {
                    self.consumed = self.consumed + clen;
                    proof {
                        assert(spec_next::<T>(b, hpos, self.region_len(), hc) == NextStep::<
                            T,
                        >::Yield { chunk, clen, consumed: self.consumed() });
                    }
                    return Ok(Some(chunk));
                },
                None => {
                    match s.ignore_bytes(clen) {
                        Ok(_) => {
                            self.consumed = self.consumed + clen;
                            proof {
                                assert(spec_next::<T>(b, hpos, self.region_len(), hc)
                                    == spec_next::<T>(
                                    b,
                                    s.pos(),
                                    self.region_len(),
                                    self.consumed(),
                                ));
                            }
                        },
                        Err(e) => {
                            proof {
                                assert(spec_next::<T>(b, hpos, self.region_len(), hc)
                                    == NextStep::<T>::Short);
                            }
                            return Err(e);
                        },
                    }
                },
            }
        }
    }

    /// Consume whatever part of the region's budget is still outstanding,
    /// so the cursor lands exactly at the region's declared end.
    pub fn finish(&mut self, s: &mut ByteStream) -> (r: Result<(), Error>)
        requires
            old(self).wf(),
            old(s).wf(),
        ensures
            final(self).wf(),
            final(s).wf(),
            final(s).bytes() == old(s).bytes(),
            final(self).region_len() == old(self).region_len(),
            if old(s).pos() + (old(self).region_len() - old(self).consumed())
                <= old(s).bytes().len() {
                &&& r == Ok::<(), Error>(())
                &&& final(s).pos() == old(s).pos()
                    + (old(self).region_len() - old(self).consumed())
                &&& final(self).consumed() == final(self).region_len()
            } else {
                &&& r == Err::<(), Error>(Error::Truncated)
                &&& final(s).pos() == old(s).pos()
            },
    {
        let rem = self.len - self.consumed;
        match s.ignore_bytes(rem) {
            Ok(_) => {
                self.consumed = self.len;
                Ok(())
            },
            Err(e) => Err(e),
        }
    }
}

/// True when `id` is the 4-byte identifier with bytes `a b c d`.
pub open spec fn id_is(id: Seq<u8>, a: u8, b: u8, c: u8, d: u8) -> bool {
    id.len() == 4 && id[0] == a && id[1] == b && id[2] == c && id[3] == d
}

/// Compare a chunk identifier against four literal bytes.
fn quad_eq(id: &[u8; 4], a: u8, b: u8, c: u8, d: u8) -> (r: bool)
    ensures
        r == id_is(id@, a, b, c, d),
{
    id[0] == a && id[1] == b && id[2] == c && id[3] == d
}

/// The top-level WAVE chunk vocabulary. Each variant carries the declared
/// payload length of the chunk it was built from, except `Data`, whose
/// payload this layer never consumes.
#[derive(Clone, Copy, Debug, PartialEq, Eq, Structural)]
pub enum RiffWaveChunks {
    /// "fmt ": the audio format descriptor.
    Format(u32),
    /// "fact": the total-frame-count chunk.
    Fact(u32),
    /// "LIST": a nested region with a 4-byte form tag of its own.
    List(u32),
    /// "data": the audio payload; traversal halts here.
    Data,
}

impl ParseChunkTag for RiffWaveChunks {
    open spec fn spec_tag(id: Seq<u8>, len: u32) -> Option<RiffWaveChunks> {
        if id_is(id, 0x66, 0x6d, 0x74, 0x20) {
            Some(RiffWaveChunks::Format(len))
        } else if id_is(id, 0x66, 0x61, 0x63, 0x74) {
            Some(RiffWaveChunks::Fact(len))
        } else if id_is(id, 0x4c, 0x49, 0x53, 0x54) {
            Some(RiffWaveChunks::List(len))
        } else if id_is(id, 0x64, 0x61, 0x74, 0x61) {
            Some(RiffWaveChunks::Data)
        } else {
            None
        }
    }

    fn parse_tag(id: [u8; 4], len: u32) -> (r: Option<RiffWaveChunks>) {
        if quad_eq(&id, 0x66, 0x6d, 0x74, 0x20) {
            Some(RiffWaveChunks::Format(len))
        } else if quad_eq(&id, 0x66, 0x61, 0x63, 0x74) {
            Some(RiffWaveChunks::Fact(len))
        } else if quad_eq(&id, 0x4c, 0x49, 0x53, 0x54) {
            Some(RiffWaveChunks::List(len))
        } else if quad_eq(&id, 0x64, 0x61, 0x74, 0x61) {
            Some(RiffWaveChunks::Data)
        } else {
            None
        }
    }
}

/// The nested informational-list vocabulary: each recognized sub-chunk
/// identifier names one canonical tag key; the payload is the tag value.
#[derive(Clone, Copy, Debug, PartialEq, Eq, Structural)]
pub enum RiffInfoListChunks {
    Info(TagKey, u32),
}

impl ParseChunkTag for RiffInfoListChunks {
    open spec fn spec_tag(id: Seq<u8>, len: u32) -> Option<RiffInfoListChunks> {
        if id_is(id, 0x49, 0x41, 0x52, 0x54) {
            Some(RiffInfoListChunks::Info(TagKey::Artist, len))
        } else if id_is(id, 0x49, 0x43, 0x4d, 0x54) {
            Some(RiffInfoListChunks::Info(TagKey::Comment, len))
        } else if id_is(id, 0x49, 0x43, 0x4f, 0x50) {
            Some(RiffInfoListChunks::Info(TagKey::Copyright, len))
        } else if id_is(id, 0x49, 0x43, 0x52, 0x44) {
            Some(RiffInfoListChunks::Info(TagKey::Date, len))
        } else if id_is(id, 0x49, 0x45, 0x4e, 0x47) {
            Some(RiffInfoListChunks::Info(TagKey::Engineer, len))
        } else if id_is(id, 0x49, 0x47, 0x4e, 0x52) {
            Some(RiffInfoListChunks::Info(TagKey::Genre, len))
        } else if id_is(id, 0x49, 0x4e, 0x41, 0x4d) {
            Some(RiffInfoListChunks::Info(TagKey::TrackTitle, len))
        } else if id_is(id, 0x49, 0x50, 0x52, 0x44) {
            Some(RiffInfoListChunks::Info(TagKey::Album, len))
        } else if id_is(id, 0x49, 0x53, 0x46, 0x54) {
            Some(RiffInfoListChunks::Info(TagKey::Software, len))
        } else if id_is(id, 0x49, 0x54, 0x52, 0x4b) {
            Some(RiffInfoListChunks::Info(TagKey::TrackNumber, len))
        } else {
            None
        }
    }

    fn parse_tag(id: [u8; 4], len: u32) -> (r: Option<RiffInfoListChunks>) {
        if quad_eq(&id, 0x49, 0x41, 0x52, 0x54) {
            Some(RiffInfoListChunks::Info(TagKey::Artist, len))
        } else if quad_eq(&id, 0x49, 0x43, 0x4d, 0x54) {
            Some(RiffInfoListChunks::Info(TagKey::Comment, len))
        } else if quad_eq(&id, 0x49, 0x43, 0x4f, 0x50) {
            Some(RiffInfoListChunks::Info(TagKey::Copyright, len))
        } else if quad_eq(&id, 0x49, 0x43, 0x52, 0x44) {
            Some(RiffInfoListChunks::Info(TagKey::Date, len))
        } else if quad_eq(&id, 0x49, 0x45, 0x4e, 0x47) {
            Some(RiffInfoListChunks::Info(TagKey::Engineer, len))
        } else if quad_eq(&id, 0x49, 0x47, 0x4e, 0x52) {
            Some(RiffInfoListChunks::Info(TagKey::Genre, len))
        } else if quad_eq(&id, 0x49, 0x4e, 0x41, 0x4d) {
            Some(RiffInfoListChunks::Info(TagKey::TrackTitle, len))
        } else if quad_eq(&id, 0x49, 0x50, 0x52, 0x44) {
            Some(RiffInfoListChunks::Info(TagKey::Album, len))
        } else if quad_eq(&id, 0x49, 0x53, 0x46, 0x54) {
            Some(RiffInfoListChunks::Info(TagKey::Software, len))
        } else if quad_eq(&id, 0x49, 0x54, 0x52, 0x4b) {
            Some(RiffInfoListChunks::Info(TagKey::TrackNumber, len))
        } else {
            None
        }
    }
}

/// A yielded top-level chunk always carries the declared payload length
/// of the header it was built from.
pub open spec fn wave_chunk_len_ok(chunk: RiffWaveChunks, clen: u32) -> bool {
    match chunk {
        RiffWaveChunks::Format(l) => l == clen,
        RiffWaveChunks::Fact(l) => l == clen,
        RiffWaveChunks::List(l) => l == clen,
        RiffWaveChunks::Data => true,
    }
}

pub proof fn lemma_wave_yield_len(data: Seq<u8>, pos: int, len: u32, consumed: u32)
    ensures
        match spec_next::<RiffWaveChunks>(data, pos, len, consumed) {
            NextStep::Yield { chunk, clen, consumed: c } => wave_chunk_len_ok(chunk, clen),
            _ => true,
        },
    decreases len - consumed,
{
    if consumed % 2 == 1 && consumed < len {
        if pos + 1 <= data.len() {
            lemma_wave_yield_len(data, pos + 1, len, (consumed + 1) as u32);
        }
    } else if len < consumed + 8 {
    } else if pos < 0 || pos + 8 > data.len() {
    } else {
        let clen = le32_at(data, pos + 4);
        if clen <= len - (consumed + 8) {
            if RiffWaveChunks::spec_tag(data.subrange(pos, pos + 4), clen) is None {
                if pos + 8 + clen <= data.len() {
                    lemma_wave_yield_len(data, pos + 8 + clen, len, (consumed + 8 + clen) as u32);
                }
            }
        }
    }
}

/// A yielded informational sub-chunk always carries the declared payload
/// length of the header it was built from.
pub open spec fn info_chunk_len_ok(chunk: RiffInfoListChunks, clen: u32) -> bool {
    match chunk {
        RiffInfoListChunks::Info(k, l) => l == clen,
    }
}

pub proof fn lemma_info_yield_len(data: Seq<u8>, pos: int, len: u32, consumed: u32)
    ensures
        match spec_next::<RiffInfoListChunks>(data, pos, len, consumed) {
            NextStep::Yield { chunk, clen, consumed: c } => info_chunk_len_ok(chunk, clen),
            _ => true,
        },
    decreases len - consumed,
{
    if consumed % 2 == 1 && consumed < len {
        if pos + 1 <= data.len() {
            lemma_info_yield_len(data, pos + 1, len, (consumed + 1) as u32);
        }
    } else if len < consumed + 8 {
    } else if pos < 0 || pos + 8 > data.len() {
    } else {
        let clen = le32_at(data, pos + 4);
        if clen <= len - (consumed + 8) {
            if RiffInfoListChunks::spec_tag(data.subrange(pos, pos + 4), clen) is None {
                if pos + 8 + clen <= data.len() {
                    lemma_info_yield_len(data, pos + 8 + clen, len, (consumed + 8 + clen) as u32);
                }
            }
        }
    }
}

/// The linear-PCM codec selected by a bits-per-sample field.
pub open spec fn spec_pcm_codec(bits: u16) -> Option<CodecType> {
    if bits == 8 {
        Some(CodecType::PcmU8)
    } else if bits == 16 {
        Some(CodecType::PcmS16Le)
    } else if bits == 24 {
        Some(CodecType::PcmS24Le)
    } else if bits == 32 {
        Some(CodecType::PcmS32Le)
    } else {
        None
    }
}

fn pcm_codec(bits: u16) -> (r: Option<CodecType>)
    ensures
        r == spec_pcm_codec(bits),
{
    if bits == 8 {
        Some(CodecType::PcmU8)
    } else if bits == 16 {
        Some(CodecType::PcmS16Le)
    } else if bits == 24 {
        Some(CodecType::PcmS24Le)
    } else if bits == 32 {
        Some(CodecType::PcmS32Le)
    } else {
        None
    }
}

/// The IEEE-float codec selected by a bits-per-sample field.
pub open spec fn spec_float_codec(bits: u16) -> Option<CodecType> {
    if bits == 32 {
        Some(CodecType::PcmF32Le)
    } else if bits == 64 {
        Some(CodecType::PcmF64Le)
    } else {
        None
    }
}

fn float_codec(bits: u16) -> (r: Option<CodecType>)
    ensures
        r == spec_float_codec(bits),
{
    if bits == 32 {
        Some(CodecType::PcmF32Le)
    } else if bits == 64 {
        Some(CodecType::PcmF64Le)
    } else {
        None
    }
}

/// The codec an extensible-format sub-format tag resolves to, given the
/// container bits-per-sample.
pub open spec fn spec_ext_codec(sub_tag: u32, container_bits: u16) -> Option<CodecType> {
    if sub_tag == 1 {
        spec_pcm_codec(container_bits)
    } else if sub_tag == 3 {
        spec_float_codec(container_bits)
    } else if sub_tag == 6 {
        Some(CodecType::PcmALaw)
    } else if sub_tag == 7 {
        Some(CodecType::PcmMuLaw)
    } else {
        None
    }
}

fn ext_codec(sub_tag: u32, container_bits: u16) -> (r: Option<CodecType>)
    ensures
        r == spec_ext_codec(sub_tag, container_bits),
{
    if sub_tag == 1 {
        pcm_codec(container_bits)
    } else if sub_tag == 3 {
        float_codec(container_bits)
    } else if sub_tag == 6 {
        Some(CodecType::PcmALaw)
    } else if sub_tag == 7 {
        Some(CodecType::PcmMuLaw)
    } else {
        None
    }
}

/// True when the 12 bytes at `i` are the fixed tail of a standard
/// media-subtype identifier: 0000-0010-8000-00AA00389B71.
pub open spec fn spec_ks_suffix_at(d: Seq<u8>, i: int) -> bool
    recommends
        0 <= i,
        i + 12 <= d.len(),
{
    le16_at(d, i) == 0 && le16_at(d, i + 2) == 0x0010 && d[i + 4] == 0x80 && d[i + 5] == 0 && d[i
        + 6] == 0 && d[i + 7] == 0xaa && d[i + 8] == 0 && d[i + 9] == 0x38 && d[i + 10] == 0x9b
        && d[i + 11] == 0x71
}

/// The five mutually exclusive sub-format encodings of a format chunk,
/// each with the fields that only it carries.
#[derive(Clone, Copy, Debug, PartialEq, Eq, Structural)]
pub enum WaveFormatData {
    /// Integer linear PCM.
    Pcm { codec: CodecType },
    /// IEEE floating-point PCM.
    IeeeFloat { codec: CodecType },
    /// The extensible descriptor: samples of `bits_per_sample` valid bits
    /// padded inside a container word of `bits_per_coded_sample` bits.
    Extensible {
        bits_per_sample: u16,
        bits_per_coded_sample: u16,
        channel_mask: u32,
        codec: CodecType,
    },
    /// A-law companded PCM.
    ALaw { codec: CodecType },
    /// Mu-law companded PCM.
    MuLaw { codec: CodecType },
}

/// The decoded audio format descriptor chunk.
#[derive(Clone, Copy, Debug, PartialEq, Eq, Structural)]
pub struct WaveFormatChunk {
    pub n_channels: u16,
    pub sample_rate: u32,
    pub n_bytes_per_sec: u32,
    pub block_align: u16,
    pub bits_per_sample: u16,
    pub format_data: WaveFormatData,
}

/// What parsing a format chunk of declared length `len` at byte index
/// `pos` of `d` yields. An unrecognized format tag, a length that fits no
/// sub-format, a bad extension size or an unknown sub-format identifier
/// are hard `MalformedChunk` failures, never silently defaulted; a parse
/// that runs off the end of `d` is `Truncated`. On success the parse
/// consumes exactly `len` bytes.
pub open spec fn spec_parse_format(d: Seq<u8>, pos: int, len: u32) -> Result<
    WaveFormatChunk,
    Error,
> {
    if len < 16 {
        Err(Error::MalformedChunk)
    } else if pos < 0 || pos + 16 > d.len() {
        Err(Error::Truncated)
    } else {
        let fmt = le16_at(d, pos);
        let n_channels = le16_at(d, pos + 2);
        let sample_rate = le32_at(d, pos + 4);
        let n_bytes_per_sec = le32_at(d, pos + 8);
        let block_align = le16_at(d, pos + 12);
        let bits = le16_at(d, pos + 14);
        if fmt == 1 || fmt == 3 || fmt == 6 || fmt == 7 {
            if len != 16 && len != 18 {
                Err(Error::MalformedChunk)
            } else if pos + len > d.len() {
                Err(Error::Truncated)
            } else {
                let codec = if fmt == 1 {
                    spec_pcm_codec(bits)
                } else if fmt == 3 {
                    spec_float_codec(bits)
                } else if fmt == 6 {
                    Some(CodecType::PcmALaw)
                } else {
                    Some(CodecType::PcmMuLaw)
                };
                match codec {
                    None => Err(Error::MalformedChunk),
                    Some(c) => Ok(
                        WaveFormatChunk {
                            n_channels,
                            sample_rate,
                            n_bytes_per_sec,
                            block_align,
                            bits_per_sample: bits,
                            format_data: if fmt == 1 {
                                WaveFormatData::Pcm { codec: c }
                            } else if fmt == 3 {
                                WaveFormatData::IeeeFloat { codec: c }
                            } else if fmt == 6 {
                                WaveFormatData::ALaw { codec: c }
                            } else {
                                WaveFormatData::MuLaw { codec: c }
                            },
                        },
                    ),
                }
            }
        } else if fmt == 0xfffe {
            if len != 40 {
                Err(Error::MalformedChunk)
            } else if pos + 40 > d.len() {
                Err(Error::Truncated)
            } else {
                let cb_size = le16_at(d, pos + 16);
                let valid_bits = le16_at(d, pos + 18);
                let channel_mask = le32_at(d, pos + 20);
                let sub_tag = le32_at(d, pos + 24);
                if cb_size != 22 {
                    Err(Error::MalformedChunk)
                } else if !spec_ks_suffix_at(d, pos + 28) {
                    Err(Error::MalformedChunk)
                } else {
                    match spec_ext_codec(sub_tag, bits) {
                        None => Err(Error::MalformedChunk),
                        Some(c) => Ok(
                            WaveFormatChunk {
                                n_channels,
                                sample_rate,
                                n_bytes_per_sec,
                                block_align,
                                bits_per_sample: bits,
                                format_data: WaveFormatData::Extensible {
                                    bits_per_sample: valid_bits,
                                    bits_per_coded_sample: bits,
                                    channel_mask,
                                    codec: c,
                                },
                            },
                        ),
                    }
                }
            }
        } else {
            Err(Error::MalformedChunk)
        }
    }
}

impl WaveFormatChunk {
    /// Parse a format chunk payload of declared length `len`. On success
    /// the cursor has advanced exactly `len` bytes.
    #[verifier::rlimit(100)]
    #[verifier::spinoff_prover]
    pub fn parse(s: &mut ByteStream, len: u32) -> (r: Result<WaveFormatChunk, Error>)
        requires
            old(s).wf(),
        ensures
            final(s).wf(),
            final(s).bytes() == old(s).bytes(),
            match r {
                Ok(f) => spec_parse_format(old(s).bytes(), old(s).pos(), len) == Ok::<
                    WaveFormatChunk,
                    Error,
                >(f) && final(s).pos() == old(s).pos() + len,
                Err(e) => spec_parse_format(old(s).bytes(), old(s).pos(), len) == Err::<
                    WaveFormatChunk,
                    Error,
                >(e),
            },
    {
        if len < 16 {
            return Err(Error::MalformedChunk);
        }
        let fmt = match s.read_u16() {
            Ok(v) => v,
            Err(e) => {
                return Err(e);
            },
        };
        let n_channels = match s.read_u16() {
            Ok(v) => v,
            Err(e) => {
                return Err(e);
            },
        };
        let sample_rate = match s.read_u32() {
            Ok(v) => v,
            Err(e) => {
                return Err(e);
            },
        };
        let n_bytes_per_sec = match s.read_u32() {
            Ok(v) => v,
            Err(e) => {
                return Err(e);
            },
        };
        let block_align = match s.read_u16() {
            Ok(v) => v,
            Err(e) => {
                return Err(e);
            },
        };
        let bits = match s.read_u16() {
            Ok(v) => v,
            Err(e) => {
                return Err(e);
            },
        };
        if fmt == 1 || fmt == 3 || fmt == 6 || fmt == 7 {
            if len != 16 && len != 18 {
                return Err(Error::MalformedChunk);
            }
            if len == 18 {
                match s.read_u16() {
                    Ok(_) => {},
                    Err(e) => {
                        return Err(e);
                    },
                }
            }
            let codec = if fmt == 1 {
                pcm_codec(bits)
            } else if fmt == 3 {
                float_codec(bits)
            } else if fmt == 6 {
                Some(CodecType::PcmALaw)
            } else {
                Some(CodecType::PcmMuLaw)
            };
            match codec {
                None => Err(Error::MalformedChunk),
                Some(c) => Ok(
                    WaveFormatChunk {
                        n_channels,
                        sample_rate,
                        n_bytes_per_sec,
                        block_align,
                        bits_per_sample: bits,
                        format_data: if fmt == 1 {
                            WaveFormatData::Pcm { codec: c }
                        } else if fmt == 3 {
                            WaveFormatData::IeeeFloat { codec: c }
                        } else if fmt == 6 {
                            WaveFormatData::ALaw { codec: c }
                        } else {
                            WaveFormatData::MuLaw { codec: c }
                        },
                    },
                ),
            }
        } else if fmt == 0xfffe {
            if len != 40 {
                return Err(Error::MalformedChunk);
            }
            let cb_size = match s.read_u16() {
                Ok(v) => v,
                Err(e) => {
                    return Err(e);
                },
            };
            let valid_bits = match s.read_u16() {
                Ok(v) => v,
                Err(e) => {
                    return Err(e);
                },
            };
            let channel_mask = match s.read_u32() {
                Ok(v) => v,
                Err(e) => {
                    return Err(e);
                },
            };
            let sub_tag = match s.read_u32() {
                Ok(v) => v,
                Err(e) => {
                    return Err(e);
                },
            };
            let tail0 = match s.read_u16() {
                Ok(v) => v,
                Err(e) => {
                    return Err(e);
                },
            };
            let tail1 = match s.read_u16() {
                Ok(v) => v,
                Err(e) => {
                    return Err(e);
                },
            };
            let tail2 = match s.read_quad_bytes() {
                Ok(v) => v,
                Err(e) => {
                    return Err(e);
                },
            };
            let tail3 = match s.read_quad_bytes() {
                Ok(v) => v,
                Err(e) => {
                    return Err(e);
                },
            };
            if cb_size != 22 {
                return Err(Error::MalformedChunk);
            }
            let suffix_ok = tail0 == 0 && tail1 == 0x0010 && tail2[0] == 0x80 && tail2[1] == 0
                && tail2[2] == 0 && tail2[3] == 0xaa && tail3[0] == 0 && tail3[1] == 0x38
                && tail3[2] == 0x9b && tail3[3] == 0x71;
            if !suffix_ok {
                return Err(Error::MalformedChunk);
            }
            match ext_codec(sub_tag, bits) {
                None => Err(Error::MalformedChunk),
                Some(c) => Ok(
                    WaveFormatChunk {
                        n_channels,
                        sample_rate,
                        n_bytes_per_sec,
                        block_align,
                        bits_per_sample: bits,
                        format_data: WaveFormatData::Extensible {
                            bits_per_sample: valid_bits,
                            bits_per_coded_sample: bits,
                            channel_mask,
                            codec: c,
                        },
                    },
                ),
            }
        } else {
            Err(Error::MalformedChunk)
        }
    }
}

/// The decoded total-frame-count chunk.
#[derive(Clone, Copy, Debug, PartialEq, Eq, Structural)]
pub struct FactChunk {
    pub n_frames: u32,
}

/// What parsing a frame-count chunk of declared length `len` yields: the
/// leading 32-bit count; any trailing payload bytes are skipped so that
/// exactly `len` bytes are consumed.
pub open spec fn spec_parse_fact(d: Seq<u8>, pos: int, len: u32) -> Result<FactChunk, Error> {
    if len < 4 {
        Err(Error::MalformedChunk)
    } else if pos < 0 || pos + 4 > d.len() {
        Err(Error::Truncated)
    } else if pos + len > d.len() {
        Err(Error::Truncated)
    } else {
        Ok(FactChunk { n_frames: le32_at(d, pos) })
    }
}

impl FactChunk {
    /// Parse a frame-count chunk payload of declared length `len`. On
    /// success the cursor has advanced exactly `len` bytes.
    pub fn parse(s: &mut ByteStream, len: u32) -> (r: Result<FactChunk, Error>)
        requires
            old(s).wf(),
        ensures
            final(s).wf(),
            final(s).bytes() == old(s).bytes(),
            match r {
                Ok(f) => spec_parse_fact(old(s).bytes(), old(s).pos(), len) == Ok::<
                    FactChunk,
                    Error,
                >(f) && final(s).pos() == old(s).pos() + len,
                Err(e) => spec_parse_fact(old(s).bytes(), old(s).pos(), len) == Err::<
                    FactChunk,
                    Error,
                >(e),
            },
    {
        if len < 4 {
            return Err(Error::MalformedChunk);
        }
        let n_frames = match s.read_u32() {
            Ok(v) => v,
            Err(e) => {
                return Err(e);
            },
        };
        match s.ignore_bytes(len - 4) {
            Ok(_) => Ok(FactChunk { n_frames }),
            Err(e) => Err(e),
        }
    }
}

/// A list chunk's own header: its 4-byte form tag, and the length of the
/// nested region that follows the tag.
#[derive(Clone, Copy, Debug)]
pub struct ListChunk {
    pub form: [u8; 4],
    pub len: u32,
}

impl ListChunk {
    /// Read the form tag of a list chunk whose declared length is `len`.
    /// A list too short to hold a form tag is malformed.
    pub fn parse(s: &mut ByteStream, len: u32) -> (r: Result<ListChunk, Error>)
        requires
            old(s).wf(),
        ensures
            final(s).wf(),
            final(s).bytes() == old(s).bytes(),
            match r {
                Ok(lst) => {
                    &&& len >= 4
                    &&& old(s).remaining() >= 4
                    &&& lst.form@ == old(s).bytes().subrange(old(s).pos(), old(s).pos() + 4)
                    &&& lst.len == len - 4
                    &&& final(s).pos() == old(s).pos() + 4
                },
                Err(e) => {
                    &&& final(s).pos() == old(s).pos()
                    &&& if len < 4 {
                        e == Error::MalformedChunk
                    } else {
                        e == Error::Truncated && old(s).remaining() < 4
                    }
                },
            },
    {
        if len < 4 {
            return Err(Error::MalformedChunk);
        }
        match s.read_quad_bytes() {
            Ok(form) => Ok(ListChunk { form, len: len - 4 }),
            Err(e) => Err(e),
        }
    }

    /// Skip the whole nested region, leaving the cursor at the list's end.
    pub fn skip(&self, s: &mut ByteStream) -> (r: Result<(), Error>)
        requires
            old(s).wf(),
        ensures
            final(s).wf(),
            final(s).bytes() == old(s).bytes(),
            if old(s).remaining() >= self.len {
                r == Ok::<(), Error>(()) && final(s).pos() == old(s).pos() + self.len
            } else {
                r == Err::<(), Error>(Error::Truncated) && final(s).pos() == old(s).pos()
            },
    {
        s.ignore_bytes(self.len)
    }
}

/// One parsed informational sub-chunk: a finished tag.
#[derive(Clone, Debug)]
pub struct InfoChunk {
    pub tag: Tag,
}

impl InfoChunk {
    /// Parse an informational sub-chunk payload of length `len` into a
    /// tag for `key`: the payload bytes with their trailing null padding
    /// removed become the tag value.
    pub fn parse(s: &mut ByteStream, key: TagKey, len: u32) -> (r: Result<InfoChunk, Error>)
        requires
            old(s).wf(),
        ensures
            final(s).wf(),
            final(s).bytes() == old(s).bytes(),
            match r {
                Ok(c) => {
                    &&& old(s).remaining() >= len
                    &&& c.tag.key == key
                    &&& c.tag.value@ == trim_nuls(
                        old(s).bytes().subrange(old(s).pos(), old(s).pos() + len),
                    )
                    &&& final(s).pos() == old(s).pos() + len
                },
                Err(e) => {
                    &&& e == Error::Truncated
                    &&& old(s).remaining() < len
                    &&& final(s).pos() == old(s).pos()
                },
            },
    {
        let mut v = match s.read_bytes(len) {
            Ok(v) => v,
            Err(e) => {
                return Err(e);
            },
        };
        let ghost v0 = v@;
        loop
            invariant
                trim_nuls(v@) == trim_nuls(v0),
            ensures
                v@ == trim_nuls(v0),
            decreases v@.len(),
        {
            let n = v.len();
            if n > 0 {
                let last = v[n - 1];
                if last == 0 {
                    proof {
                        assert(v@.drop_last() =~= v@.subrange(0, v@.len() - 1));
                    }
                    v.pop();
                } else {
                    proof {
                        assert(trim_nuls(v@) == v@);
                    }
                    break;
                }
            } else {
                proof {
                    assert(trim_nuls(v@) == v@);
                }
                break;
            }
        }
        Ok(InfoChunk { tag: Tag { key, value: v } })
    }
}

} // verus!
