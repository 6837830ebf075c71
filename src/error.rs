use vstd::prelude::*;

verus! {

/// Why a step of the download-and-extract pipeline failed.
#[derive(Debug, Clone, Copy, PartialEq, Eq, Structural)]
pub enum PipelineError {
    /// The request could not be sent or its body could not be received.
    Network,
    /// The server answered with a status outside the success range.
    HttpStatus(u16),
    /// The downloaded file could not be read as an archive.
    InvalidArchive,
    /// A file or directory could not be created, written or removed.
    Io,
    /// An entry's stored name leaves nothing to write to.
    Path,
}

} // verus!
