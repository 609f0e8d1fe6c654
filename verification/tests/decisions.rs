use evtx_extractor::source::{
    classify_source, default_level, parse_level, validate_volume_size, LogLevel, ResolveFailure,
    SourceKind, TimeoutConfig,
};
use evtx_extractor::status::{
    advance_entry, classify_failure, EntryEvent, EntryPhase, FailureKind, Severity,
};

#[test]
fn remote_prefix_is_recognized() {
    assert_eq!(
        classify_source("snap-0123456789abcdef0"),
        SourceKind::RemoteSnapshot
    );
    assert_eq!(classify_source("snapshot-backup"), SourceKind::RemoteSnapshot);
    assert_eq!(classify_source("snap"), SourceKind::RemoteSnapshot);
}

#[test]
fn everything_else_is_a_local_path() {
    assert_eq!(classify_source("/images/disk.dd"), SourceKind::LocalPath);
    assert_eq!(classify_source("sna"), SourceKind::LocalPath);
    assert_eq!(classify_source(""), SourceKind::LocalPath);
    assert_eq!(classify_source("Snap-01234"), SourceKind::LocalPath);
    assert_eq!(classify_source("disk-snap"), SourceKind::LocalPath);
}

#[test]
fn volume_size_within_signed_range_is_accepted() {
    assert_eq!(validate_volume_size(0), Ok(0));
    assert_eq!(validate_volume_size(1048576), Ok(1048576));
    assert_eq!(validate_volume_size(i64::MAX as u64), Ok(i64::MAX));
}

#[test]
fn oversized_volume_is_rejected() {
    let size = i64::MAX as u64 + 1;
    assert_eq!(
        validate_volume_size(size),
        Err(ResolveFailure::OversizedVolume { size })
    );
    assert_eq!(
        validate_volume_size(u64::MAX),
        Err(ResolveFailure::OversizedVolume { size: u64::MAX })
    );
}

#[test]
fn strict_timeouts_are_five_seconds_without_retries() {
    let c = TimeoutConfig::strict();
    assert_eq!(c.connect_secs, 5);
    assert_eq!(c.read_secs, 5);
    assert_eq!(c.attempt_secs, 5);
    assert_eq!(c.total_secs, 5);
    assert!(!c.retries_enabled);
}

#[test]
fn the_six_level_names_parse() {
    assert_eq!(parse_level("Off"), Some(LogLevel::Off));
    assert_eq!(parse_level("Error"), Some(LogLevel::Error));
    assert_eq!(parse_level("Warn"), Some(LogLevel::Warn));
    assert_eq!(parse_level("Info"), Some(LogLevel::Info));
    assert_eq!(parse_level("Debug"), Some(LogLevel::Debug));
    assert_eq!(parse_level("Trace"), Some(LogLevel::Trace));
}

#[test]
fn unknown_level_names_fail_to_parse() {
    assert_eq!(parse_level("info"), None);
    assert_eq!(parse_level("INFO"), None);
    assert_eq!(parse_level(""), None);
    assert_eq!(parse_level("Verbose"), None);
}

#[test]
fn the_default_level_is_info() {
    assert_eq!(default_level(), LogLevel::Info);
}

#[test]
fn only_per_partition_and_per_entry_failures_are_recoverable() {
    assert_eq!(
        classify_failure(FailureKind::PartitionFilesystemOpen),
        Severity::Recoverable
    );
    assert_eq!(
        classify_failure(FailureKind::EntryMetadataOpen),
        Severity::Recoverable
    );
    assert_eq!(classify_failure(FailureKind::SourceResolution), Severity::Fatal);
    assert_eq!(classify_failure(FailureKind::VolumeOpen), Severity::Fatal);
    assert_eq!(
        classify_failure(FailureKind::ArtifactDirectoryOpen),
        Severity::Fatal
    );
    assert_eq!(classify_failure(FailureKind::OutputCreate), Severity::Fatal);
    assert_eq!(classify_failure(FailureKind::ShortRead), Severity::Fatal);
    assert_eq!(classify_failure(FailureKind::LogLevelParse), Severity::Fatal);
}

#[test]
fn an_entry_walks_to_done() {
    let p = EntryPhase::Discovered;
    let p = advance_entry(p, EntryEvent::MetadataOk);
    assert_eq!(p, EntryPhase::MetadataOpened);
    let p = advance_entry(p, EntryEvent::OutputOk);
    assert_eq!(p, EntryPhase::OutputCreated);
    let p = advance_entry(p, EntryEvent::ChunkRead);
    assert_eq!(p, EntryPhase::Copying);
    let p = advance_entry(p, EntryEvent::ChunkRead);
    assert_eq!(p, EntryPhase::Copying);
    let p = advance_entry(p, EntryEvent::SizeReached);
    assert_eq!(p, EntryPhase::Done);
}

#[test]
fn metadata_failure_skips_the_entry() {
    assert_eq!(
        advance_entry(EntryPhase::Discovered, EntryEvent::MetadataFailed),
        EntryPhase::SkippedError
    );
}

#[test]
fn a_zero_read_escalates_to_abort_while_a_failed_read_skips() {
    assert_eq!(
        advance_entry(EntryPhase::Copying, EntryEvent::ZeroRead),
        EntryPhase::FatalAbort
    );
    assert_eq!(
        advance_entry(EntryPhase::Copying, EntryEvent::ReadFailed),
        EntryPhase::SkippedError
    );
    assert_eq!(
        advance_entry(EntryPhase::MetadataOpened, EntryEvent::OutputFailed),
        EntryPhase::FatalAbort
    );
}

#[test]
fn final_phases_absorb_every_event() {
    assert_eq!(
        advance_entry(EntryPhase::Done, EntryEvent::ZeroRead),
        EntryPhase::Done
    );
    assert_eq!(
        advance_entry(EntryPhase::SkippedError, EntryEvent::MetadataOk),
        EntryPhase::SkippedError
    );
    assert_eq!(
        advance_entry(EntryPhase::FatalAbort, EntryEvent::SizeReached),
        EntryPhase::FatalAbort
    );
}
