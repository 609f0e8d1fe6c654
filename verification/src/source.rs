//! Resolution-side decisions: how a source descriptor is classified, how a
//! remote volume's declared size is validated, the fixed timeout
//! configuration a remote handshake uses, and the logging-verbosity parse.

use vstd::prelude::*;
use vstd::string::StrSliceExecFns;

verus! {

/// The two kinds of byte source a run can draw from.
#[derive(Clone, Copy, Debug, PartialEq, Eq, Structural)]
pub enum SourceKind {
    /// A remote, immutable cloud-hosted snapshot, reached over the network.
    RemoteSnapshot,
    /// A local file or block device, opened directly.
    LocalPath,
}

/// A descriptor names a remote snapshot exactly when it starts with the
/// four characters `snap`.
pub open spec fn is_remote_descriptor(d: Seq<char>) -> bool {
    &&& d.len() >= 4
    &&& d[0] == 's'
    &&& d[1] == 'n'
    &&& d[2] == 'a'
    &&& d[3] == 'p'
}

/// Decides which kind of byte source a descriptor refers to. The dispatch
/// is total: every descriptor that does not carry the remote-snapshot
/// prefix is a local path.
pub fn classify_source(descriptor: &str) -> (kind: SourceKind)
    ensures
        kind == SourceKind::RemoteSnapshot <==> is_remote_descriptor(descriptor@),
        kind == SourceKind::LocalPath <==> !is_remote_descriptor(descriptor@),
{
    let n = descriptor.unicode_len();
    if n >= 4 && descriptor.get_char(0) == 's' && descriptor.get_char(1) == 'n'
        && descriptor.get_char(2) == 'a' && descriptor.get_char(3) == 'p' {
        SourceKind::RemoteSnapshot
    } else {
        SourceKind::LocalPath
    }
}

/// A source that cannot be resolved. Each failure is fatal to the run;
/// there is no fallback between the two source kinds.
#[derive(Clone, Copy, Debug, PartialEq, Eq, Structural)]
pub enum ResolveFailure {
    /// The remote snapshot declared a volume size that does not fit the
    /// signed 64-bit range used for offsets.
    OversizedVolume { size: u64 },
}

/// Validates a remote snapshot's declared volume size: it is usable
/// exactly when it fits the signed 64-bit range that byte offsets use.
pub fn validate_volume_size(size: u64) -> (r: Result<i64, ResolveFailure>)
    ensures
        r is Ok <==> size <= i64::MAX as u64,
        r is Ok ==> r->Ok_0 == size as i64,
        r is Err ==> r->Err_0 == (ResolveFailure::OversizedVolume { size }),
{
    if size <= 0x7fff_ffff_ffff_ffff_u64 {
        Ok(size as i64)
    } else {
        Err(ResolveFailure::OversizedVolume { size })
    }
}

/// The timeout and retry configuration a remote handshake runs under,
/// as data: every bound in seconds, each independently settable.
#[derive(Clone, Copy, Debug, PartialEq, Eq, Structural)]
pub struct TimeoutConfig {
    /// Bound on establishing the connection.
    pub connect_secs: u64,
    /// Bound on a single read.
    pub read_secs: u64,
    /// Bound on one attempt of an operation.
    pub attempt_secs: u64,
    /// Bound on the whole operation.
    pub total_secs: u64,
    /// Whether transient failures are retried automatically.
    pub retries_enabled: bool,
}

impl TimeoutConfig {
    /// The fixed configuration of a run: every bound is five seconds and
    /// automatic retries are disabled, so a transient failure surfaces
    /// immediately instead of being retried silently.
    pub fn strict() -> (c: TimeoutConfig)
        ensures
            c.connect_secs == 5,
            c.read_secs == 5,
            c.attempt_secs == 5,
            c.total_secs == 5,
            !c.retries_enabled,
    {
        TimeoutConfig {
            connect_secs: 5,
            read_secs: 5,
            attempt_secs: 5,
            total_secs: 5,
            retries_enabled: false,
        }
    }
}

/// The fixed set of logging verbosities, from silent to most verbose.
#[derive(Clone, Copy, Debug, PartialEq, Eq, Structural)]
pub enum LogLevel {
    Off,
    Error,
    Warn,
    Info,
    Debug,
    Trace,
}

/// Whether two string slices hold the same characters.
pub(crate) fn str_content_eq(a: &str, b: &str) -> (r: bool)
    ensures
        r == (a@ == b@),
{
    let n = a.unicode_len();
    if n != b.unicode_len() {
        return false;
    }
    let mut i: usize = 0;
    while i < n
        invariant
            n == a@.len(),
            n == b@.len(),
            i <= n,
            forall|k: int| 0 <= k < i ==> a@[k] == b@[k],
        decreases n - i,
    {
        if a.get_char(i) != b.get_char(i) {
            return false;
        }
        i = i + 1;
    }
    proof {
        assert(a@ =~= b@);
    }
    true
}

/// The verbosity a name denotes, if any: exactly the six recognized
/// names parse, anything else is a fatal configuration failure.
pub open spec fn spec_parse_level(s: Seq<char>) -> Option<LogLevel> {
    if s == "Off"@ {
        Some(LogLevel::Off)
    } else if s == "Error"@ {
        Some(LogLevel::Error)
    } else if s == "Warn"@ {
        Some(LogLevel::Warn)
    } else if s == "Info"@ {
        Some(LogLevel::Info)
    } else if s == "Debug"@ {
        Some(LogLevel::Debug)
    } else if s == "Trace"@ {
        Some(LogLevel::Trace)
    } else {
        None
    }
}

/// Parses a logging-verbosity name. The default, when no verbosity is
/// given, is `Info`, a middle verbosity.
pub fn parse_level(s: &str) -> (r: Option<LogLevel>)
    ensures
        r == spec_parse_level(s@),
{
    if str_content_eq(s, "Off") {
        Some(LogLevel::Off)
    } else if str_content_eq(s, "Error") {
        Some(LogLevel::Error)
    } else if str_content_eq(s, "Warn") {
        Some(LogLevel::Warn)
    } else if str_content_eq(s, "Info") {
        Some(LogLevel::Info)
    } else if str_content_eq(s, "Debug") {
        Some(LogLevel::Debug)
    } else if str_content_eq(s, "Trace") {
        Some(LogLevel::Trace)
    } else {
        None
    }
}

/// The verbosity used when none is given.
pub fn default_level() -> (r: LogLevel)
    ensures
        r == LogLevel::Info,
{
    LogLevel::Info
}

} // verus!
