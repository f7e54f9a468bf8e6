use vstd::prelude::*;

verus! {

/// The error kinds a container reader can report.
///
/// A missing marker or a wrong form type is *not* an error: it is the
/// normal `Unsupported` probe outcome. Errors are reserved for streams the
/// reader has already committed to interpreting.
#[derive(Clone, Copy, Debug, PartialEq, Eq, Structural)]
pub enum Error {
    /// A structurally invalid field inside a chunk the reader committed to,
    /// such as an unrecognized format tag or a chunk length that overruns
    /// its enclosing region.
    MalformedChunk,
    /// The stream ended before a declared length was satisfied.
    Truncated,
    /// The requested operation (seeking) is not supported at this layer.
    UnsupportedOperation,
}

} // verus!
