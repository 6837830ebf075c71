use vstd::prelude::*;

use crate::error::PipelineError;

verus! {

/// A success status: 200 to 299.
pub open spec fn is_success_status(status: u16) -> bool {
    200 <= status && status <= 299
}

/// Whether a response may be written out as the archive; any other status
/// ends the download with `HttpStatus`.
pub fn check_status(status: u16) -> (r: Result<(), PipelineError>)
    ensures
        is_success_status(status) ==> r == Ok::<(), PipelineError>(()),
        !is_success_status(status) ==> r == Err::<(), PipelineError>(PipelineError::HttpStatus(status)),
{
    if 200 <= status && status <= 299 {
        Ok(())
    } else {
        Err(PipelineError::HttpStatus(status))
    }
}

/// Where the pipeline stands.
#[derive(Debug, Clone, Copy, PartialEq, Eq, Structural)]
pub enum Stage {
    /// Nothing done yet.
    Start,
    /// An archive left by an earlier run is being removed.
    Clearing,
    /// The request is out.
    Requesting,
    /// The response body is being written to the archive path.
    Writing,
    /// The archive's entries are being recreated below the target.
    Extracting,
    /// The archive is being removed after extraction.
    Deleting,
    /// No step is left.
    Finished,
}

/// What the caller reports after performing a command.
#[derive(Debug, Clone, Copy, PartialEq, Eq, Structural)]
pub enum Event {
    /// The run begins; whether a file already stands at the archive path.
    Began { archive_exists: bool },
    /// The earlier archive is gone.
    OldArchiveRemoved,
    /// The server answered with this status.
    Responded { status: u16 },
    /// The request or the body's transfer failed.
    RequestFailed,
    /// The whole body is in the archive file.
    BodyWritten,
    /// Every entry was extracted.
    Extracted,
    /// Extraction stopped with this error.
    ExtractionFailed(PipelineError),
    /// The archive removal was attempted; a failure is only worth a log line.
    ArchiveDeleted { ok: bool },
    /// Creating, writing or removing a file failed.
    IoFailed,
}

/// What the caller performs next.
#[derive(Debug, Clone, Copy, PartialEq, Eq)]
pub enum Command {
    /// Remove the file at the archive path.
    RemoveOldArchive,
    /// Send the request for the archive.
    SendRequest,
    /// Create the archive file and write the response body into it.
    WriteBody,
    /// Extract the archive into the target directory.
    Extract,
    /// Remove the archive file.
    DeleteArchive,
    /// Stop, with the outcome of the whole run.
    Finish(Result<(), PipelineError>),
}

/// The transition of the pipeline on one event: the next stage and the
/// command to perform. An event that does not fit the stage ends the run as
/// a failed step.
pub open spec fn transition(stage: Stage, event: Event) -> (Stage, Command) {
    match (stage, event) {
        (_, Event::IoFailed) => (Stage::Finished, Command::Finish(Err(PipelineError::Io))),
        (Stage::Start, Event::Began { archive_exists }) => if archive_exists {
            (Stage::Clearing, Command::RemoveOldArchive)
        } else {
            (Stage::Requesting, Command::SendRequest)
        },
        (Stage::Clearing, Event::OldArchiveRemoved) => (Stage::Requesting, Command::SendRequest),
        (Stage::Requesting, Event::Responded { status }) => if is_success_status(status) {
            (Stage::Writing, Command::WriteBody)
        } else {
            (Stage::Finished, Command::Finish(Err(PipelineError::HttpStatus(status))))
        },
        (Stage::Requesting, Event::RequestFailed) => (
            Stage::Finished,
            Command::Finish(Err(PipelineError::Network)),
        ),
        (Stage::Writing, Event::BodyWritten) => (Stage::Extracting, Command::Extract),
        (Stage::Writing, Event::RequestFailed) => (
            Stage::Finished,
            Command::Finish(Err(PipelineError::Network)),
        ),
        (Stage::Extracting, Event::Extracted) => (Stage::Deleting, Command::DeleteArchive),
        (Stage::Extracting, Event::ExtractionFailed(e)) => (Stage::Finished, Command::Finish(Err(e))),
        (Stage::Deleting, Event::ArchiveDeleted { .. }) => (Stage::Finished, Command::Finish(Ok(()))),
        _ => (Stage::Finished, Command::Finish(Err(PipelineError::Io))),
    }
}

/// Decides the next stage and command of the pipeline.
pub fn next_step(stage: Stage, event: Event) -> (r: (Stage, Command))
    ensures
        r == transition(stage, event),
{
    match (stage, event) {
        (_, Event::IoFailed) => (Stage::Finished, Command::Finish(Err(PipelineError::Io))),
        (Stage::Start, Event::Began { archive_exists }) => if archive_exists {
            (Stage::Clearing, Command::RemoveOldArchive)
        } else {
            (Stage::Requesting, Command::SendRequest)
        },
        (Stage::Clearing, Event::OldArchiveRemoved) => (Stage::Requesting, Command::SendRequest),
        (Stage::Requesting, Event::Responded { status }) => match check_status(status) {
            Ok(()) => (Stage::Writing, Command::WriteBody),
            Err(e) => (Stage::Finished, Command::Finish(Err(e))),
        },
        (Stage::Requesting, Event::RequestFailed) => (
            Stage::Finished,
            Command::Finish(Err(PipelineError::Network)),
        ),
        (Stage::Writing, Event::BodyWritten) => (Stage::Extracting, Command::Extract),
        (Stage::Writing, Event::RequestFailed) => (
            Stage::Finished,
            Command::Finish(Err(PipelineError::Network)),
        ),
        (Stage::Extracting, Event::Extracted) => (Stage::Deleting, Command::DeleteArchive),
        (Stage::Extracting, Event::ExtractionFailed(e)) => (Stage::Finished, Command::Finish(Err(e))),
        (Stage::Deleting, Event::ArchiveDeleted { .. }) => (Stage::Finished, Command::Finish(Ok(()))),
        _ => (Stage::Finished, Command::Finish(Err(PipelineError::Io))),
    }
}

/// What stands at the archive path once a command is performed: removing
/// leaves no file, writing leaves a file with the response body, the other
/// commands leave the path as it was.
pub open spec fn archive_after(slot: Option<Seq<u8>>, cmd: Command, body: Seq<u8>) -> Option<
    Seq<u8>,
> {
    match cmd {
        Command::RemoveOldArchive => None,
        Command::DeleteArchive => None,
        Command::WriteBody => Some(body),
        _ => slot,
    }
}

/// One download step driven by the pipeline from its start: the caller
/// reports whether a file stands at the archive path, removes it when told,
/// reports the response status, and performs the command that follows. The
/// result is what then stands at the path, with the stage and the command
/// reached.
pub open spec fn download_step(slot: Option<Seq<u8>>, status: u16, body: Seq<u8>) -> (
    Option<Seq<u8>>,
    Stage,
    Command,
) {
    let (s1, c1) = transition(Stage::Start, Event::Began { archive_exists: slot is Some });
    let a1 = archive_after(slot, c1, body);
    let (s2, c2) = if c1 == Command::RemoveOldArchive {
        transition(s1, Event::OldArchiveRemoved)
    } else {
        (s1, c1)
    };
    let (s3, c3) = transition(s2, Event::Responded { status });
    (archive_after(a1, c3, body), s3, c3)
}

/// A successful download leaves exactly the body just received at the
/// archive path, whatever stood there; so two downloads in a row leave the
/// second one's content.
pub proof fn lemma_download_overwrites(
    prev: Option<Seq<u8>>,
    status1: u16,
    body1: Seq<u8>,
    status2: u16,
    body2: Seq<u8>,
)
    requires
        is_success_status(status2),
    ensures
        download_step(prev, status2, body2).0 == Some(body2),
        download_step(prev, status2, body2).2 == Command::WriteBody,
        download_step(download_step(prev, status1, body1).0, status2, body2).0 == Some(body2),
{
}

/// On a status outside the success range no file stands at the archive path
/// afterwards (an earlier one was removed, none is written), and the run
/// finishes with `HttpStatus`; a finished run never extracts.
pub proof fn lemma_failed_status_writes_nothing(prev: Option<Seq<u8>>, status: u16, body: Seq<u8>)
    requires
        !is_success_status(status),
    ensures
        download_step(prev, status, body).0 is None,
        download_step(prev, status, body).1 == Stage::Finished,
        download_step(prev, status, body).2 == Command::Finish(
            Err(PipelineError::HttpStatus(status)),
        ),
        forall|e: Event| (#[trigger] transition(Stage::Finished, e)).1 is Finish,
{
}

} // verus!
