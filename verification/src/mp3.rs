use vstd::prelude::*;
use crate::errors::Error;
use crate::io::ByteStream;
use crate::codec::CodecParameters;
use crate::codec::CodecType;
use crate::codec::Cue;
use crate::codec::FormatDescriptor;
use crate::codec::FormatOptions;
use crate::codec::Packet;
use crate::codec::ProbeDepth;
use crate::codec::ProbeResult;
use crate::codec::Stream;
use crate::codec::Timestamp;
use crate::codec::direct_packet;
use crate::meta::MetadataQueue;
use crate::meta::MetadataRevision;
use crate::meta::Tag;

verus! {

/// The codec parameters of a registered MPEG-audio stream: only the
/// codec identifier is known before decoding begins.
pub open spec fn spec_mp3_params() -> CodecParameters {
    CodecParameters {
        codec: Some(CodecType::Mp3),
        sample_rate: None,
        n_channels: None,
        bits_per_sample: None,
        bits_per_coded_sample: None,
        max_frames_per_packet: None,
        n_frames: None,
    }
}

/// A stub demuxer for the MPEG-audio frame format.
///
/// MPEG audio is a bare frame stream, not a chunked container: there is
/// nothing to traverse, so probing registers one stream with the MPEG
/// codec identifier and succeeds. The sidecar tag envelope that may
/// precede the frames belongs to a separate metadata collaborator outside
/// this layer; its results, if any, would fill the metadata queue.
pub struct Mp3Reader {
    reader: ByteStream,
    streams: Vec<Stream>,
    cues: Vec<Cue>,
    metadata: MetadataQueue,
}

impl Mp3Reader {
    /// The underlying byte source.
    pub closed spec fn src(&self) -> ByteStream {
        self.reader
    }

    /// The registered stream descriptors.
    pub closed spec fn streams_seq(&self) -> Seq<Stream> {
        self.streams@
    }

    /// The cue points (none are discovered at this layer).
    pub closed spec fn cues_seq(&self) -> Seq<Cue> {
        self.cues@
    }

    /// The queued metadata revisions.
    pub closed spec fn metadata_seq(&self) -> Seq<MetadataRevision> {
        self.metadata.revisions_seq()
    }

    pub open spec fn wf(&self) -> bool {
        self.src().wf()
    }

    /// Open a reader over a byte source. Nothing is read until `probe`.
    pub fn open(source: ByteStream, _options: &FormatOptions) -> (r: Self)
        ensures
            r.src() == source,
            r.streams_seq() == Seq::<Stream>::empty(),
            r.cues_seq() == Seq::<Cue>::empty(),
            r.metadata_seq() == Seq::<MetadataRevision>::empty(),
    {
        Mp3Reader {
            reader: source,
            streams: Vec::new(),
            cues: Vec::new(),
            metadata: MetadataQueue::new(),
        }
    }

    /// The declarative registration data of the MPEG-audio dialect.
    pub fn supported_formats() -> (r: Vec<FormatDescriptor>)
        ensures
            r@.len() == 1,
            r@[0].marker@ == seq![
                0x4du8,
                0x50u8,
                0x45u8,
                0x47u8,
                0x20u8,
                0x20u8,
                0x20u8,
                0x20u8,
            ],
            r@[0].marker_len == 4,
            r@[0].marker_offset == 0,
            r@[0].extensions@.len() == 1,
            r@[0].extensions@[0]@ == "mp3"@,
            r@[0].mime_types@.len() == 1,
            r@[0].mime_types@[0]@ == "audio/mp3"@,
    {
        proof {
            reveal_strlit("mp3");
            reveal_strlit("audio/mp3");
        }
        let mut extensions: Vec<&'static str> = Vec::new();
        extensions.push("mp3");
        let mut mime_types: Vec<&'static str> = Vec::new();
        mime_types.push("audio/mp3");
        let marker = [0x4du8, 0x50u8, 0x45u8, 0x47u8, 0x20u8, 0x20u8, 0x20u8, 0x20u8];
        proof {
            assert(marker@ =~= seq![
                0x4du8,
                0x50u8,
                0x45u8,
                0x47u8,
                0x20u8,
                0x20u8,
                0x20u8,
                0x20u8,
            ]);
        }
        let d = FormatDescriptor {
            extensions,
            mime_types,
            marker,
            marker_len: 4,
            marker_offset: 0,
        };
        let mut v: Vec<FormatDescriptor> = Vec::new();
        v.push(d);
        v
    }

    /// Probe the source: register one MPEG-audio stream and queue one
    /// (empty) metadata revision for the external tag collaborator to
    /// stand behind. Always `Supported`; the cursor is left untouched, so
    /// the packet layer sees the whole stream.
    pub fn probe(&mut self, _depth: ProbeDepth) -> (r: Result<ProbeResult, Error>)
        requires
            old(self).wf(),
        ensures
            final(self).wf(),
            final(self).src() == old(self).src(),
            final(self).cues_seq() == old(self).cues_seq(),
            final(self).streams_seq() == old(self).streams_seq().push(
                (Stream { codec_params: spec_mp3_params() }),
            ),
            final(self).metadata_seq().len() == old(self).metadata_seq().len() + 1,
            final(self).metadata_seq().drop_last() == old(self).metadata_seq(),
            final(self).metadata_seq().last().tags@ == Seq::<Tag>::empty(),
            r == Ok::<ProbeResult, Error>(ProbeResult::Supported),
    {
        let revision = MetadataRevision { tags: Vec::new() };
        self.metadata.push(revision);
        proof {
            assert(self.metadata_seq().drop_last() =~= old(self).metadata_seq());
        }
        let mut params = CodecParameters::new();
        params.codec = Some(CodecType::Mp3);
        self.streams.push(Stream::new(params));
        Ok(ProbeResult::Supported)
    }

    /// Read the remainder of the source as one raw, unframed packet.
    pub fn next_packet(&mut self) -> (r: Result<Packet, Error>)
        requires
            old(self).wf(),
        ensures
            final(self).wf(),
            final(self).src().bytes() == old(self).src().bytes(),
            final(self).streams_seq() == old(self).streams_seq(),
            final(self).cues_seq() == old(self).cues_seq(),
            final(self).metadata_seq() == old(self).metadata_seq(),
            match r {
                Ok(p) => {
                    &&& p.stream == 0
                    &&& p.data@ == old(self).src().bytes().subrange(
                        old(self).src().pos(),
                        old(self).src().bytes().len() as int,
                    )
                    &&& final(self).src().pos() == final(self).src().bytes().len()
                },
                Err(_) => false,
            },
    {
        direct_packet(0, &mut self.reader)
    }

    /// The queued metadata revisions.
    pub fn metadata(&self) -> (r: &MetadataQueue)
        ensures
            r.revisions_seq() == self.metadata_seq(),
    {
        &self.metadata
    }

    /// The cue points discovered by probing (none, at this layer).
    pub fn cues(&self) -> (r: &Vec<Cue>)
        ensures
            r@ == self.cues_seq(),
    {
        &self.cues
    }

    /// The stream descriptors registered by probing.
    pub fn streams(&self) -> (r: &Vec<Stream>)
        ensures
            r@ == self.streams_seq(),
    {
        &self.streams
    }

    /// Seeking is not implemented for the MPEG-audio reader; a request is
    /// an unconditional stop. The failure is reported through the
    /// unsupported-operation error, never a crash, and the reader is left
    /// untouched.
    pub fn seek(&mut self, _ts: Timestamp) -> (r: Result<u64, Error>)
        ensures
            *final(self) == *old(self),
            r == Err::<u64, Error>(Error::UnsupportedOperation),
    {
        Err(Error::UnsupportedOperation)
    }
}

} // verus!
