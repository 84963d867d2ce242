//! Error taxonomy of the library.
//!
//! Per-package and per-source failures are recovered locally by the callers
//! (appended to error lists); only failures that prevent producing a usable
//! document at all are surfaced as a `SynsyuError` to the caller.

use vstd::prelude::*;

verus! {

use vstd::string::StringExecFns;
use vstd::string::StrSliceExecFns;

/// One failure, classified by where it arose.
#[derive(Debug)]
pub enum SynsyuError {
    /// An external tool is absent.
    CommandMissing { command: String },
    /// An external tool ran but exited non-zero; carries its captured stderr.
    CommandFailure { command: String, status: i64, stderr: String },
    /// An upstream API was unreachable or answered with a failure status.
    Network(String),
    /// Malformed JSON or text arrived from an external source.
    Serialization(String),
    /// An I/O failure on a manifest, plan, or log path.
    Filesystem(String),
    /// The configuration is invalid or unsafe.
    Config(String),
    /// A capacity shortfall, an unlocatable collaborator, or a catch-all.
    Runtime(String),
}

impl Clone for SynsyuError {
    fn clone(&self) -> (r: Self)
        ensures
            r == *self,
    {
        match self {
            SynsyuError::CommandMissing { command } => SynsyuError::CommandMissing {
                command: command.clone(),
            },
            SynsyuError::CommandFailure { command, status, stderr } => {
                SynsyuError::CommandFailure {
                    command: command.clone(),
                    status: *status,
                    stderr: stderr.clone(),
                }
            },
            SynsyuError::Network(m) => SynsyuError::Network(m.clone()),
            SynsyuError::Serialization(m) => SynsyuError::Serialization(m.clone()),
            SynsyuError::Filesystem(m) => SynsyuError::Filesystem(m.clone()),
            SynsyuError::Config(m) => SynsyuError::Config(m.clone()),
            SynsyuError::Runtime(m) => SynsyuError::Runtime(m.clone()),
        }
    }
}

impl SynsyuError {
    /// The message text describing this error.
    pub open spec fn spec_message(&self) -> Seq<char> {
        match self {
            SynsyuError::CommandMissing { command } => "Required command not found: "@
                + command@,
            SynsyuError::CommandFailure { command, status, stderr } => "Command failed: "@
                + command@ + ": "@ + stderr@,
            SynsyuError::Network(m) => "Network error: "@ + m@,
            SynsyuError::Serialization(m) => "Serialization error: "@ + m@,
            SynsyuError::Filesystem(m) => "Filesystem error: "@ + m@,
            SynsyuError::Config(m) => "Configuration error: "@ + m@,
            SynsyuError::Runtime(m) => "Runtime error: "@ + m@,
        }
    }

    /// Render the error as one descriptive line.
    pub fn message(&self) -> (r: String)
        ensures
            r@ == self.spec_message(),
    {
        match self {
            SynsyuError::CommandMissing { command } => {
                let mut r = "Required command not found: ".to_owned();
                r.append(command.as_str());
                r
            },
            SynsyuError::CommandFailure { command, status: _, stderr } => {
                let mut r = "Command failed: ".to_owned();
                r.append(command.as_str());
                r.append(": ");
                r.append(stderr.as_str());
                r
            },
            SynsyuError::Network(m) => {
                let mut r = "Network error: ".to_owned();
                r.append(m.as_str());
                r
            },
            SynsyuError::Serialization(m) => {
                let mut r = "Serialization error: ".to_owned();
                r.append(m.as_str());
                r
            },
            SynsyuError::Filesystem(m) => {
                let mut r = "Filesystem error: ".to_owned();
                r.append(m.as_str());
                r
            },
            SynsyuError::Config(m) => {
                let mut r = "Configuration error: ".to_owned();
                r.append(m.as_str());
                r
            },
            SynsyuError::Runtime(m) => {
                let mut r = "Runtime error: ".to_owned();
                r.append(m.as_str());
                r
            },
        }
    }

    /// The process exit code a fatal occurrence of this error maps to.
    pub fn exit_code(&self) -> (r: u8)
        ensures
            r == self.spec_exit_code(),
            r != 0,
    {
        match self {
            SynsyuError::CommandMissing { .. } => 3,
            SynsyuError::CommandFailure { .. } => 4,
            SynsyuError::Network(_) => 5,
            SynsyuError::Serialization(_) => 6,
            SynsyuError::Filesystem(_) => 7,
            SynsyuError::Config(_) => 8,
            SynsyuError::Runtime(_) => 1,
        }
    }

    pub open spec fn spec_exit_code(&self) -> u8 {
        match self {
            SynsyuError::CommandMissing { .. } => 3,
            SynsyuError::CommandFailure { .. } => 4,
            SynsyuError::Network(_) => 5,
            SynsyuError::Serialization(_) => 6,
            SynsyuError::Filesystem(_) => 7,
            SynsyuError::Config(_) => 8,
            SynsyuError::Runtime(_) => 1,
        }
    }
}

/// Classify a failure to spawn an external command: a missing binary is
/// reported as `CommandMissing`, anything else as a runtime failure.
pub fn map_spawn_error(not_found: bool, command: &str, detail: &str) -> (r: SynsyuError)
    ensures
        not_found ==> (r matches SynsyuError::CommandMissing { command: c } && c@ == command@),
        !not_found ==> (r matches SynsyuError::Runtime(m) && m@ == "Failed to spawn "@ + command@
            + ": "@ + detail@),
{
    if not_found {
        SynsyuError::CommandMissing { command: command.to_owned() }
    } else {
        let mut m = "Failed to spawn ".to_owned();
        m.append(command);
        m.append(": ");
        m.append(detail);
        SynsyuError::Runtime(m)
    }
}

} // verus!
