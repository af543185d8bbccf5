//! Probe-run classification: the captured output of one echo-probe
//! invocation, the failure taxonomy of the measurement subsystem, and the
//! rules that turn a captured run into a report or a failure.

use vstd::prelude::*;
use vstd::string::StringExecFns;
use crate::parser::{extract_latency_chars, extracted_latency};
use crate::text::{contains_pattern, contains_seq, dec_digits, dec_string, to_chars};

verus! {

/// The captured run of one echo-probe invocation: the exit-success flag and
/// the text of the two output streams.
#[derive(Debug)]
pub struct RawProbeOutput {
    pub success: bool,
    pub stdout: String,
    pub stderr: String,
}

/// Why a measurement failed.
#[derive(Debug)]
pub enum PingError {
    /// The local connectivity gate failed.
    NetworkUnavailable,
    /// The target host and port did not resolve.
    AddressUnavailable,
    /// The TCP handshake failed or timed out.
    ConnectionRefused,
    /// The echo-probe tool could not be spawned; holds the spawn error text.
    ExecutionFailed(String),
    /// The target did not answer within the echo-probe window; holds the
    /// captured output.
    Timeout(String),
    /// The echo probe reported a name-resolution failure; holds its output.
    HostUnresolved(String),
    /// The echo probe failed for another reason; holds its output or error
    /// text.
    ProbeError(String),
}

/// The markers of total packet loss or timeout in echo-probe output.
pub open spec fn has_timeout_marker(t: Seq<char>) -> bool {
    contains_seq(t, "Request timed out"@) || contains_seq(t, "100% packet loss"@) || contains_seq(
        t,
        "100% loss"@,
    )
}

/// The phrases an echo probe prints when the target name did not resolve.
pub open spec fn has_unresolved_marker(t: Seq<char>) -> bool {
    contains_seq(t, "could not find host"@) || contains_seq(t, "could not resolve"@)
}

/// The description of each failure kind.
pub open spec fn message_view(e: PingError) -> Seq<char> {
    match e {
        PingError::NetworkUnavailable => "Network connection unavailable"@,
        PingError::AddressUnavailable => "Could not resolve the target address"@,
        PingError::ConnectionRefused => "Could not establish a TCP connection to the target"@,
        PingError::ExecutionFailed(d) => "Failed to execute ping command: "@ + d@,
        PingError::Timeout(d) => "Server did not respond to ping requests (timeout). Full output: "@
            + d@,
        PingError::HostUnresolved(d) => "Could not resolve server hostname: "@ + d@,
        PingError::ProbeError(d) => "Ping command error: "@ + d@,
    }
}

impl PingError {
    /// A human-readable description of the failure, suitable for display.
    pub fn message(&self) -> (r: String)
        ensures
            r@ == message_view(*self),
    {
        match self {
            PingError::NetworkUnavailable => "Network connection unavailable".to_owned(),
            PingError::AddressUnavailable => "Could not resolve the target address".to_owned(),
            PingError::ConnectionRefused => "Could not establish a TCP connection to the target".to_owned(),
            PingError::ExecutionFailed(d) => "Failed to execute ping command: ".to_owned().concat(
                d.as_str(),
            ),
            PingError::Timeout(d) => "Server did not respond to ping requests (timeout). Full output: ".to_owned().concat(
                d.as_str(),
            ),
            PingError::HostUnresolved(d) => "Could not resolve server hostname: ".to_owned().concat(
                d.as_str(),
            ),
            PingError::ProbeError(d) => "Ping command error: ".to_owned().concat(d.as_str()),
        }
    }
}

/// How a captured echo-probe run is classified: timeout markers anywhere in
/// the output fail the run regardless of exit status; a failed exit is
/// explained by its error text, a resolution failure, or a generic probe
/// error; a successful exit yields the parsed latency, or the raw text when
/// nothing parses.
pub open spec fn classify_rel(out: RawProbeOutput, r: Result<String, PingError>) -> bool {
    if has_timeout_marker(out.stdout@) || has_timeout_marker(out.stderr@) {
        r matches Err(PingError::Timeout(d)) && d@ == out.stdout@
    } else if !out.success {
        if out.stderr@.len() > 0 {
            r matches Err(PingError::ProbeError(d)) && d@ == out.stderr@
        } else if has_unresolved_marker(out.stdout@) {
            r matches Err(PingError::HostUnresolved(d)) && d@ == out.stdout@
        } else {
            r matches Err(PingError::ProbeError(d)) && d@ == out.stdout@
        }
    } else {
        match extracted_latency(out.stdout@) {
            Some(n) => r matches Ok(m) && m@ == dec_digits(n as int) + "ms"@,
            None => r matches Ok(m) && m@ == "Ping successful, but couldn't parse result: "@
                + out.stdout@,
        }
    }
}

fn has_timeout_marker_chars(t: &Vec<char>) -> (b: bool)
    ensures
        b == has_timeout_marker(t@),
{
    let p1 = to_chars("Request timed out");
    let p2 = to_chars("100% packet loss");
    let p3 = to_chars("100% loss");
    contains_pattern(t, &p1) || contains_pattern(t, &p2) || contains_pattern(t, &p3)
}

fn has_unresolved_marker_chars(t: &Vec<char>) -> (b: bool)
    ensures
        b == has_unresolved_marker(t@),
{
    let p1 = to_chars("could not find host");
    let p2 = to_chars("could not resolve");
    contains_pattern(t, &p1) || contains_pattern(t, &p2)
}

/// Turns one captured echo-probe run into a report string or a failure, as
/// `classify_rel` prescribes.
pub fn classify_echo_output(output: &RawProbeOutput) -> (r: Result<String, PingError>)
    ensures
        classify_rel(*output, r),
{
    let so = to_chars(output.stdout.as_str());
    let se = to_chars(output.stderr.as_str());
    if has_timeout_marker_chars(&so) || has_timeout_marker_chars(&se) {
        return Err(PingError::Timeout(output.stdout.clone()));
    }
    if !output.success {
        if se.len() > 0 {
            return Err(PingError::ProbeError(output.stderr.clone()));
        }
        if has_unresolved_marker_chars(&so) {
            return Err(PingError::HostUnresolved(output.stdout.clone()));
        }
        return Err(PingError::ProbeError(output.stdout.clone()));
    }
    match extract_latency_chars(&so) {
        Some(n) => Ok(dec_string(n as u64).concat("ms")),
        None => Ok(
            "Ping successful, but couldn't parse result: ".to_owned().concat(
                output.stdout.as_str(),
            ),
        ),
    }
}

} // verus!
