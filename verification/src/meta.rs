use vstd::prelude::*;

verus! {

/// The canonical keys an informational list sub-chunk can map to.
#[derive(Clone, Copy, Debug, PartialEq, Eq, Structural)]
pub enum TagKey {
    Album,
    Artist,
    Comment,
    Copyright,
    Date,
    Engineer,
    Genre,
    Software,
    TrackNumber,
    TrackTitle,
}

/// One metadata tag: a canonical key and its raw string value.
///
/// The value keeps the payload bytes of the sub-chunk that carried it,
/// with the trailing null padding removed. Interpreting those bytes as
/// text (and any character-set concern) is left to the caller.
#[derive(Clone, Debug)]
pub struct Tag {
    pub key: TagKey,
    pub value: Vec<u8>,
}

impl View for Tag {
    type V = (TagKey, Seq<u8>);

    open spec fn view(&self) -> (TagKey, Seq<u8>) {
        (self.key, self.value@)
    }
}

/// The mathematical image of a tag list: key/value pairs in order.
pub open spec fn tags_view(ts: Seq<Tag>) -> Seq<(TagKey, Seq<u8>)> {
    ts.map_values(|t: Tag| t@)
}

/// Appending a tag to a list appends its image to the list's image.
pub proof fn lemma_tags_view_push(ts: Seq<Tag>, t: Tag)
    ensures
        tags_view(ts.push(t)) == tags_view(ts).push(t@),
{
    assert(tags_view(ts.push(t)) =~= tags_view(ts).push(t@));
}

/// `s` with every trailing null byte removed.
pub open spec fn trim_nuls(s: Seq<u8>) -> Seq<u8>
    decreases s.len(),
{
    if s.len() > 0 && s[s.len() - 1] == 0 {
        trim_nuls(s.drop_last())
    } else {
        s
    }
}

/// An attached picture. The Wave reader never produces one; the field
/// exists so the reader's interface mirrors the full container contract.
#[derive(Clone, Debug)]
pub struct Visual {
    pub data: Vec<u8>,
}

/// One batch of tags handed over by a metadata reader.
#[derive(Clone, Debug)]
pub struct MetadataRevision {
    pub tags: Vec<Tag>,
}

/// Revisions of sidecar metadata in the order they were read.
#[derive(Clone, Debug)]
pub struct MetadataQueue {
    revisions: Vec<MetadataRevision>,
}

impl MetadataQueue {
    pub closed spec fn revisions_seq(&self) -> Seq<MetadataRevision> {
        self.revisions@
    }

    pub fn new() -> (q: Self)
        ensures
            q.revisions_seq() == Seq::<MetadataRevision>::empty(),
    {
        MetadataQueue { revisions: Vec::new() }
    }

    pub fn push(&mut self, rev: MetadataRevision)
        ensures
            final(self).revisions_seq() == old(self).revisions_seq().push(rev),
    {
        self.revisions.push(rev);
    }

    pub fn revisions(&self) -> (r: &Vec<MetadataRevision>)
        ensures
            r@ == self.revisions_seq(),
    {
        &self.revisions
    }
}

} // verus!
