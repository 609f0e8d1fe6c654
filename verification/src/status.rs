//! Failure classification and the per-entry extraction state machine.
//!
//! A run distinguishes failures that abort it from failures that are
//! isolated to one partition or one directory entry; the classification
//! is explicit at the boundary of each traversal step.

use vstd::prelude::*;

verus! {

/// Every failure a run can meet, by the step at which it arises.
#[derive(Clone, Copy, Debug, PartialEq, Eq, Structural)]
pub enum FailureKind {
    /// The source descriptor could not be resolved to a byte source.
    SourceResolution,
    /// No volume system could be interpreted at offset 0 of the source.
    VolumeOpen,
    /// A filesystem could not be opened at one matching partition's
    /// start offset.
    PartitionFilesystemOpen,
    /// The fixed artifact directory could not be opened within a
    /// matched filesystem.
    ArtifactDirectoryOpen,
    /// One entry's metadata or content handle could not be opened.
    EntryMetadataOpen,
    /// The output artifact file could not be created.
    OutputCreate,
    /// A read returned zero bytes before the declared size was reached.
    ShortRead,
    /// The logging verbosity name did not parse.
    LogLevelParse,
}

/// What a failure does to the run: aborts it, or is logged while the
/// run goes on with the next partition or entry.
#[derive(Clone, Copy, Debug, PartialEq, Eq, Structural)]
pub enum Severity {
    /// The run unwinds immediately with a descriptive message.
    Fatal,
    /// The failure is logged and only its partition or entry is skipped.
    Recoverable,
}

/// The failures that only skip the step they arose in: a filesystem
/// that fails to open at one matching partition, and one entry's
/// metadata or content handle that fails to open.
pub open spec fn spec_is_recoverable(k: FailureKind) -> bool {
    k == FailureKind::PartitionFilesystemOpen || k == FailureKind::EntryMetadataOpen
}

/// Classifies a failure. Exactly the per-partition filesystem-open
/// failure and the per-entry metadata-open failure are recoverable;
/// everything else aborts the run.
pub fn classify_failure(k: FailureKind) -> (s: Severity)
    ensures
        s == Severity::Recoverable <==> spec_is_recoverable(k),
        s == Severity::Fatal <==> !spec_is_recoverable(k),
{
    match k {
        FailureKind::PartitionFilesystemOpen => Severity::Recoverable,
        FailureKind::EntryMetadataOpen => Severity::Recoverable,
        _ => Severity::Fatal,
    }
}

/// The stations one directory entry passes through while it is
/// extracted.
#[derive(Clone, Copy, Debug, PartialEq, Eq, Structural)]
pub enum EntryPhase {
    /// The entry was yielded by the directory listing and selected.
    Discovered,
    /// Its metadata and content handle are open.
    MetadataOpened,
    /// Its output artifact exists, truncated.
    OutputCreated,
    /// Chunks are being copied.
    Copying,
    /// The declared size was reached; the artifact is complete.
    Done,
    /// The entry was abandoned; the run continues with the next one.
    SkippedError,
    /// The run aborts.
    FatalAbort,
}

/// What can happen to an entry at each station.
#[derive(Clone, Copy, Debug, PartialEq, Eq, Structural)]
pub enum EntryEvent {
    /// The metadata and content handle opened.
    MetadataOk,
    /// The metadata or content handle failed to open.
    MetadataFailed,
    /// The output artifact was created.
    OutputOk,
    /// The output artifact could not be created.
    OutputFailed,
    /// A read yielded a non-empty chunk short of the declared size.
    ChunkRead,
    /// The offset reached the declared size.
    SizeReached,
    /// A read failed with an error.
    ReadFailed,
    /// A read yielded zero bytes before the declared size.
    ZeroRead,
}

/// The transition relation of one entry. `SkippedError` is entered only
/// from the metadata-open step and from a failed read while copying;
/// a zero-byte read escalates to `FatalAbort` instead, a deliberate
/// asymmetry. An event that cannot happen at a station, and any event
/// at a final station, leaves the phase unchanged.
pub open spec fn spec_advance(p: EntryPhase, ev: EntryEvent) -> EntryPhase {
    match (p, ev) {
        (EntryPhase::Discovered, EntryEvent::MetadataOk) => EntryPhase::MetadataOpened,
        (EntryPhase::Discovered, EntryEvent::MetadataFailed) => EntryPhase::SkippedError,
        (EntryPhase::MetadataOpened, EntryEvent::OutputOk) => EntryPhase::OutputCreated,
        (EntryPhase::MetadataOpened, EntryEvent::OutputFailed) => EntryPhase::FatalAbort,
        (EntryPhase::OutputCreated, EntryEvent::ChunkRead) => EntryPhase::Copying,
        (EntryPhase::OutputCreated, EntryEvent::SizeReached) => EntryPhase::Done,
        (EntryPhase::OutputCreated, EntryEvent::ReadFailed) => EntryPhase::SkippedError,
        (EntryPhase::OutputCreated, EntryEvent::ZeroRead) => EntryPhase::FatalAbort,
        (EntryPhase::Copying, EntryEvent::ChunkRead) => EntryPhase::Copying,
        (EntryPhase::Copying, EntryEvent::SizeReached) => EntryPhase::Done,
        (EntryPhase::Copying, EntryEvent::ReadFailed) => EntryPhase::SkippedError,
        (EntryPhase::Copying, EntryEvent::ZeroRead) => EntryPhase::FatalAbort,
        (_, _) => p,
    }
}

/// Advances one entry's phase by one event; final phases absorb every
/// event.
pub fn advance_entry(p: EntryPhase, ev: EntryEvent) -> (r: EntryPhase)
    ensures
        r == spec_advance(p, ev),
        p == EntryPhase::Done ==> r == EntryPhase::Done,
        p == EntryPhase::SkippedError ==> r == EntryPhase::SkippedError,
        p == EntryPhase::FatalAbort ==> r == EntryPhase::FatalAbort,
{
    match (p, ev) {
        (EntryPhase::Discovered, EntryEvent::MetadataOk) => EntryPhase::MetadataOpened,
        (EntryPhase::Discovered, EntryEvent::MetadataFailed) => EntryPhase::SkippedError,
        (EntryPhase::MetadataOpened, EntryEvent::OutputOk) => EntryPhase::OutputCreated,
        (EntryPhase::MetadataOpened, EntryEvent::OutputFailed) => EntryPhase::FatalAbort,
        (EntryPhase::OutputCreated, EntryEvent::ChunkRead) => EntryPhase::Copying,
        (EntryPhase::OutputCreated, EntryEvent::SizeReached) => EntryPhase::Done,
        (EntryPhase::OutputCreated, EntryEvent::ReadFailed) => EntryPhase::SkippedError,
        (EntryPhase::OutputCreated, EntryEvent::ZeroRead) => EntryPhase::FatalAbort,
        (EntryPhase::Copying, EntryEvent::ChunkRead) => EntryPhase::Copying,
        (EntryPhase::Copying, EntryEvent::SizeReached) => EntryPhase::Done,
        (EntryPhase::Copying, EntryEvent::ReadFailed) => EntryPhase::SkippedError,
        (EntryPhase::Copying, EntryEvent::ZeroRead) => EntryPhase::FatalAbort,
        (_, _) => p,
    }
}

} // verus!
