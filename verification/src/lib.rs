//! Pinger: the decisions behind pinging remote hosts across operating systems.
//!
//! This crate holds what a ping front end computes: which command to run and
//! with which arguments, how each line of the command's output reads, which
//! ping implementation is installed, which address a target resolves to, and
//! what a Windows echo loop reports. Running processes, reading their output,
//! resolving names and sleeping are left to the caller, who hands the outcomes
//! in as plain values.

use vstd::prelude::*;
use crate::rtt::{extract_spec, rtt_of_bytes, TimePattern};
use crate::target::{target_from, IPVersion, IpAddress, Target};
use crate::text::{decode_text, owned};
use vstd::utf8::{decode_utf8, valid_utf8};

pub mod decimal;
pub mod fake;
pub mod linux;
pub mod rtt;
pub mod target;
pub mod text;
pub mod utils;
pub mod windows;

verus! {

/// `std::io::Error`, carried unopened inside `PingCreationError::SpawnError`.
#[verifier::external_type_specification]
#[verifier::external_body]
pub struct ExIoError(std::io::Error);

/// `std::time::Duration` is `Copy`: its `clone` gives the same duration.
pub assume_specification[ <std::time::Duration as Clone>::clone ](d: &std::time::Duration) -> (r:
    std::time::Duration)
    ensures
        r == *d,
;

/// Configuration options for ping operations.
#[derive(Debug, Clone)]
pub struct PingOptions {
    /// Target address to ping
    pub target: Target,
    /// Interval between ping requests
    pub interval: std::time::Duration,
    /// Network interface to use (optional)
    pub interface: Option<String>,
    /// Additional raw arguments to pass to the ping command (optional)
    pub raw_arguments: Option<Vec<String>>,
}

impl PingOptions {
    /// Add raw arguments to pass to the ping command.
    ///
    /// These arguments will be passed directly to the underlying ping command.
    pub fn with_raw_arguments(self, raw_arguments: Vec<String>) -> (r: Self)
        ensures
            r == (PingOptions { raw_arguments: Some(raw_arguments), ..self }),
    {
        PingOptions { raw_arguments: Some(raw_arguments), ..self }
    }

    /// Create new ping options from a target.
    pub fn from_target(
        target: Target,
        interval: std::time::Duration,
        interface: Option<String>,
    ) -> (r: Self)
        ensures
            r == (PingOptions { target, interval, interface, raw_arguments: None }),
    {
        PingOptions { target, interval, interface, raw_arguments: None }
    }

    /// Create new ping options with any IP version.
    ///
    /// `literal` is `target` read as an IP address literal, when it is one; any
    /// other target is a hostname that may resolve to either IPv4 or IPv6.
    pub fn new(
        target: String,
        literal: Option<IpAddress>,
        interval: std::time::Duration,
        interface: Option<String>,
    ) -> (r: Self)
        ensures
            r == (PingOptions {
                target: target_from(target, literal, IPVersion::Any),
                interval,
                interface,
                raw_arguments: None,
            }),
    {
        Self::from_target(Target::new_any(target, literal), interval, interface)
    }

    /// Create new ping options constrained to IPv4.
    ///
    /// `literal` is `target` read as an IP address literal, when it is one; any
    /// target that is not an IPv4 literal is a hostname that must resolve to IPv4.
    pub fn new_ipv4(
        target: String,
        literal: Option<IpAddress>,
        interval: std::time::Duration,
        interface: Option<String>,
    ) -> (r: Self)
        ensures
            r == (PingOptions {
                target: target_from(target, literal, IPVersion::V4),
                interval,
                interface,
                raw_arguments: None,
            }),
    {
        Self::from_target(Target::new_ipv4(target, literal), interval, interface)
    }

    /// Create new ping options constrained to IPv6.
    ///
    /// `literal` is `target` read as an IP address literal, when it is one; any
    /// target that is not an IPv6 literal is a hostname that must resolve to IPv6.
    pub fn new_ipv6(
        target: String,
        literal: Option<IpAddress>,
        interval: std::time::Duration,
        interface: Option<String>,
    ) -> (r: Self)
        ensures
            r == (PingOptions {
                target: target_from(target, literal, IPVersion::V6),
                interval,
                interface,
                raw_arguments: None,
            }),
    {
        Self::from_target(Target::new_ipv6(target, literal), interval, interface)
    }
}

/// Result of a ping operation.
#[derive(Debug)]
pub enum PingResult {
    /// A reply, with its round-trip time in nanoseconds and the raw output line.
    Pong(u128, String),
    /// A timeout, with the raw output line.
    Timeout(String),
    /// An output line that could not be classified.
    Unknown(String),
    /// The ping process ended, with its exit code (if any) and its standard error.
    PingExited(Option<i32>, String),
}

/// The text `std` writes for a `std::time::Duration` through `Debug`
/// (`{:?}`), for a duration of `secs` seconds and `nanos` nanoseconds.
pub uninterp spec fn duration_debug_text(secs: u64, nanos: u32) -> Seq<char>;

/// Writes a duration as `format!("{:?}", std::time::Duration::new(secs, nanos))`
/// does; `std` documents that `Duration::new` panics only when the nanoseconds
/// carry past the largest number of seconds, which `requires` rules out. The
/// text is named, not stated: it is a function of the duration alone.
#[verifier::external_body]
fn duration_debug(secs: u64, nanos: u32) -> (r: String)
    requires
        nanos < 1_000_000_000,
    ensures
        r@ == duration_debug_text(secs, nanos),
{
    format!("{:?}", std::time::Duration::new(secs, nanos))
}

impl PingResult {
    /// A reply's round-trip time fits in a `std::time::Duration`.
    pub open spec fn fits_duration(self) -> bool {
        self matches PingResult::Pong(n, _) ==> n / 1_000_000_000 <= u64::MAX
    }

    /// How the result is displayed: a reply as its round-trip time, a timeout as
    /// `Timeout`, an unknown line as `Unknown`, and an ended process as
    /// `Exited(<status>, <stderr>)`.
    pub open spec fn display_spec(self, status_text: Seq<char>) -> Seq<char> {
        match self {
            PingResult::Pong(n, _) => duration_debug_text(
                (n / 1_000_000_000) as u64,
                (n % 1_000_000_000) as u32,
            ),
            PingResult::Timeout(_) => "Timeout"@,
            PingResult::Unknown(_) => "Unknown"@,
            PingResult::PingExited(_, stderr) => "Exited("@ + status_text + ", "@ + stderr@ + ")"@,
        }
    }

    /// The display text of the result. `status_text` is the exit status as the
    /// platform displays it (`std::process::ExitStatus`'s `Display`); only an
    /// ended process uses it.
    pub fn display_text(&self, status_text: &str) -> (r: String)
        requires
            self.fits_duration(),
        ensures
            r@ == self.display_spec(status_text@),
    {
        match self {
            PingResult::Pong(n, _) => {
                let secs = (*n / 1_000_000_000) as u64;
                let nanos = (*n % 1_000_000_000) as u32;
                duration_debug(secs, nanos)
            },
            PingResult::Timeout(_) => owned("Timeout"),
            PingResult::Unknown(_) => owned("Unknown"),
            PingResult::PingExited(_, stderr) => {
                let mut text = owned("Exited(");
                text.push_str(status_text);
                text.push_str(", ");
                text.push_str(stderr.as_str());
                text.push_str(")");
                text
            },
        }
    }

    /// The text that the result carries: the output line, or the standard error
    /// of an ended process.
    pub open spec fn line(self) -> String {
        match self {
            PingResult::Pong(_, l) => l,
            PingResult::Timeout(l) => l,
            PingResult::Unknown(l) => l,
            PingResult::PingExited(_, l) => l,
        }
    }
}

/// Errors that can occur when creating a ping process.
#[derive(Debug)]
pub enum PingCreationError {
    /// Could not detect the ping command version
    UnknownPing {
        /// Standard error output
        stderr: Vec<String>,
        /// Standard output
        stdout: Vec<String>,
    },
    /// Error spawning the ping process
    SpawnError(std::io::Error),
    /// The installed ping command is not supported
    NotSupported {
        /// Alternative suggestion
        alternative: String,
    },
    /// Invalid or unresolvable hostname
    HostnameError(String),
}

/// The text of what an ended ping process wrote to its standard error: the
/// decoded text when it is UTF-8, else `<invalid UTF-8>`.
pub fn stderr_text(stderr: Vec<u8>) -> (r: String)
    ensures
        valid_utf8(stderr@) ==> r@ == decode_utf8(stderr@),
        !valid_utf8(stderr@) ==> r@ == "<invalid UTF-8>"@,
{
    match decode_text(stderr) {
        Some(text) => text,
        None => owned("<invalid UTF-8>"),
    }
}

/// Seconds that the asynchronous runner waits for the ping process to exit
/// once its output has ended, before it kills the process.
pub const EXIT_WAIT_SECS: u64 = 5;

/// How a ping process was seen to end once its output had ended.
#[derive(Debug)]
pub enum ExitOutcome {
    /// It exited, with its exit code if it had one.
    Exited(Option<i32>),
    /// Waiting for it failed, with the error's text.
    WaitFailed(String),
    /// It did not exit in time and was killed.
    TimedOut,
}

/// The report for the end of a ping process, given what its standard error
/// held: a normal exit reports its code and the standard error; a failed wait
/// or a kill after the timeout reports a zero exit code and a message that
/// says so.
pub fn exit_report(outcome: ExitOutcome, stderr: String) -> (r: PingResult)
    ensures
        match outcome {
            ExitOutcome::Exited(code) => r == PingResult::PingExited(code, stderr),
            ExitOutcome::WaitFailed(error) => r matches PingResult::PingExited(code, text) && code
                == Some(0i32) && text@ == "Failed to wait for child: "@ + error@ + ". Stderr: "@
                + stderr@,
            ExitOutcome::TimedOut => r matches PingResult::PingExited(code, text) && code == Some(
                0i32,
            ) && text@ == "Process killed after timeout. Stderr: "@ + stderr@,
        },
{
    match outcome {
        ExitOutcome::Exited(code) => PingResult::PingExited(code, stderr),
        ExitOutcome::WaitFailed(error) => {
            let mut text = owned("Failed to wait for child: ");
            text.push_str(error.as_str());
            text.push_str(". Stderr: ");
            text.push_str(stderr.as_str());
            PingResult::PingExited(Some(0), text)
        },
        ExitOutcome::TimedOut => {
            let mut text = owned("Process killed after timeout. Stderr: ");
            text.push_str(stderr.as_str());
            PingResult::PingExited(Some(0), text)
        },
    }
}

/// Reads the round-trip time that `line` reports through a time field of the
/// given pattern, and gives a reply carrying the line unchanged.
pub fn extract_regex(pattern: TimePattern, line: String) -> (r: Option<PingResult>)
    ensures
        r == extract_spec(pattern, line),
{
    let nanos = rtt_of_bytes(line.as_str().as_bytes(), pattern);
    match nanos {
        Some(n) => Some(PingResult::Pong(n, line)),
        None => None,
    }
}

} // verus!
