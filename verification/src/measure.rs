//! The latency orchestrator: a step function over the measurement states that
//! composes connectivity gate, TCP probe and echo-probe fallback in a fixed
//! order, plus the final normalization of a probe result into the
//! user-facing report.

use vstd::prelude::*;
use vstd::string::StringExecFns;
use crate::parser::{extract_latency_chars, extracted_latency};
use crate::probe::{
    classify_echo_output, has_timeout_marker, has_unresolved_marker, message_view, PingError,
    RawProbeOutput,
};
use crate::text::{contains_pattern, contains_seq, dec_digits, dec_string, to_chars};

verus! {

/// What a driver must do next to move a measurement forward.
#[derive(Debug, Clone, Copy, PartialEq, Eq, Structural)]
pub enum ProbeAction {
    /// Probe a known-reachable address to see whether the network is up.
    CheckGate,
    /// Time a TCP handshake against the target.
    ProbeTcp,
    /// Run the platform echo probe against the target.
    ProbeEcho,
    /// The measurement is finished.
    Done,
}

/// What a driver observed while performing the requested action.
#[derive(Debug)]
pub enum ProbeEvent {
    /// Whether the connectivity gate reported the network available.
    GateChecked(bool),
    /// The TCP handshake time in whole milliseconds, or why the probe failed.
    TcpProbed(Result<u64, PingError>),
    /// The captured echo-probe run, or the spawn error text when the tool
    /// could not be started.
    EchoProbed(Result<RawProbeOutput, String>),
}

/// The states a measurement passes through.
#[derive(Debug)]
pub enum MeasureState {
    /// Nothing has been checked yet.
    Start,
    /// The connectivity gate reported the network available.
    GatePassed,
    /// The TCP probe failed; the echo probe is the remaining option.
    TcpFailed,
    /// The measurement ended with a report or a failure message.
    Finished(Result<String, String>),
}

pub open spec fn tcp_tag() -> Seq<char> {
    "(TCP)"@
}

pub open spec fn success_phrase() -> Seq<char> {
    "Ping successful"@
}

/// How a successful probe string is normalized into the final report: a
/// TCP-tagged report passes through; otherwise the parsed latency is reported
/// as ICMP; otherwise a bare success phrase yields the marked estimate
/// placeholder; otherwise the raw text is annotated.
pub open spec fn normalized(out: Seq<char>) -> Seq<char> {
    if contains_seq(out, tcp_tag()) {
        out
    } else {
        match extracted_latency(out) {
            Some(n) => dec_digits(n as int) + "ms (ICMP)"@,
            None => if contains_seq(out, success_phrase()) {
                "~80ms (ICMP) [estimated]"@
            } else {
                out + " (ICMP)"@
            },
        }
    }
}

/// The wrapper put around the description of a failed measurement.
pub open spec fn failure_report(detail: Seq<char>) -> Seq<char> {
    "Server did not respond (timeout). The server may be down or unreachable.\n\nDetails: "@
        + detail
}

fn wrap_failure(detail: String) -> (r: String)
    ensures
        r@ == failure_report(detail@),
{
    "Server did not respond (timeout). The server may be down or unreachable.\n\nDetails: ".to_owned().concat(
        detail.as_str(),
    )
}

fn normalize_report(out: String) -> (r: String)
    ensures
        r@ == normalized(out@),
{
    let chars = to_chars(out.as_str());
    let tag = to_chars("(TCP)");
    if contains_pattern(&chars, &tag) {
        return out;
    }
    match extract_latency_chars(&chars) {
        Some(n) => dec_string(n as u64).concat("ms (ICMP)"),
        None => {
            let phrase = to_chars("Ping successful");
            if contains_pattern(&chars, &phrase) {
                "~80ms (ICMP) [estimated]".to_owned()
            } else {
                out.concat(" (ICMP)")
            }
        },
    }
}

/// Normalizes the outcome of a probe into the user-facing result: a
/// successful probe string becomes the `normalized` report, and a failure
/// description is wrapped in the `failure_report` message.
pub fn get_ping(probe: Result<String, String>) -> (r: Result<String, String>)
    ensures
        probe matches Ok(out) ==> r matches Ok(m) && m@ == normalized(out@),
        probe matches Err(e) ==> r matches Err(m) && m@ == failure_report(e@),
{
    match probe {
        Ok(out) => Ok(normalize_report(out)),
        Err(e) => Err(wrap_failure(e)),
    }
}

/// The action each state calls for.
pub open spec fn spec_next_action(s: MeasureState) -> ProbeAction {
    match s {
        MeasureState::Start => ProbeAction::CheckGate,
        MeasureState::GatePassed => ProbeAction::ProbeTcp,
        MeasureState::TcpFailed => ProbeAction::ProbeEcho,
        MeasureState::Finished(_) => ProbeAction::Done,
    }
}

/// The action a driver should perform next.
pub fn next_action(s: &MeasureState) -> (a: ProbeAction)
    ensures
        a == spec_next_action(*s),
{
    match s {
        MeasureState::Start => ProbeAction::CheckGate,
        MeasureState::GatePassed => ProbeAction::ProbeTcp,
        MeasureState::TcpFailed => ProbeAction::ProbeEcho,
        MeasureState::Finished(_) => ProbeAction::Done,
    }
}

/// The event kind each state expects.
pub open spec fn event_expected(s: MeasureState, e: ProbeEvent) -> bool {
    match s {
        MeasureState::Start => e is GateChecked,
        MeasureState::GatePassed => e is TcpProbed,
        MeasureState::TcpFailed => e is EchoProbed,
        MeasureState::Finished(_) => false,
    }
}

/// The finished result a captured echo-probe run must lead to: its
/// classification, rendered through the final normalization.
pub open spec fn echo_outcome_rel(out: RawProbeOutput, res: Result<String, String>) -> bool {
    if has_timeout_marker(out.stdout@) || has_timeout_marker(out.stderr@) {
        res matches Err(m) && m@ == failure_report(message_view(PingError::Timeout(out.stdout)))
    } else if !out.success {
        if out.stderr@.len() > 0 {
            res matches Err(m) && m@ == failure_report(
                message_view(PingError::ProbeError(out.stderr)),
            )
        } else if has_unresolved_marker(out.stdout@) {
            res matches Err(m) && m@ == failure_report(
                message_view(PingError::HostUnresolved(out.stdout)),
            )
        } else {
            res matches Err(m) && m@ == failure_report(
                message_view(PingError::ProbeError(out.stdout)),
            )
        }
    } else {
        match extracted_latency(out.stdout@) {
            Some(n) => res matches Ok(m) && m@ == normalized(dec_digits(n as int) + "ms"@),
            None => res matches Ok(m) && m@ == normalized(
                "Ping successful, but couldn't parse result: "@ + out.stdout@,
            ),
        }
    }
}

/// How one step of the measurement relates the next state to the observed
/// event: a failed gate or a successful TCP probe finishes at once, a failed
/// TCP probe falls back to the echo probe, and an echo-probe run finishes
/// with its classified, normalized outcome.
pub open spec fn step_rel(s: MeasureState, e: ProbeEvent, r: MeasureState) -> bool {
    match e {
        ProbeEvent::GateChecked(ok) => if ok {
            r is GatePassed
        } else {
            r matches MeasureState::Finished(res) && res matches Err(m) && m@ == failure_report(
                message_view(PingError::NetworkUnavailable),
            )
        },
        ProbeEvent::TcpProbed(tcp) => match tcp {
            Ok(ms) => r matches MeasureState::Finished(res) && res matches Ok(m) && m@
                == dec_digits(ms as int) + "ms (TCP)"@,
            Err(_) => r is TcpFailed,
        },
        ProbeEvent::EchoProbed(echo) => match echo {
            Err(d) => r matches MeasureState::Finished(res) && res matches Err(m) && m@
                == failure_report(message_view(PingError::ExecutionFailed(d))),
            Ok(out) => r matches MeasureState::Finished(res) && echo_outcome_rel(out, res),
        },
    }
}

/// Advances the measurement by one observed event.
pub fn measure_step(s: MeasureState, e: ProbeEvent) -> (r: MeasureState)
    requires
        event_expected(s, e),
    ensures
        step_rel(s, e, r),
{
    match e {
        ProbeEvent::GateChecked(ok) => {
            if ok {
                MeasureState::GatePassed
            } else {
                let msg = PingError::NetworkUnavailable.message();
                MeasureState::Finished(Err(wrap_failure(msg)))
            }
        },
        ProbeEvent::TcpProbed(tcp) => match tcp {
            Ok(ms) => MeasureState::Finished(Ok(dec_string(ms).concat("ms (TCP)"))),
            Err(_) => MeasureState::TcpFailed,
        },
        ProbeEvent::EchoProbed(echo) => match echo {
            Err(d) => {
                let err = PingError::ExecutionFailed(d);
                let msg = err.message();
                MeasureState::Finished(Err(wrap_failure(msg)))
            },
            Ok(out) => match classify_echo_output(&out) {
                Ok(m) => MeasureState::Finished(Ok(normalize_report(m))),
                Err(pe) => {
                    let msg = pe.message();
                    MeasureState::Finished(Err(wrap_failure(msg)))
                },
            },
        },
    }
}

/// A normalized success report always carries a measurement-method tag:
/// either it already holds the TCP tag, or the normalization left an ICMP
/// annotation on it. No success ever looks like a bare, unattributed value.
pub proof fn lemma_report_carries_method_tag(out: Seq<char>)
    ensures
        contains_seq(normalized(out), tcp_tag()) || contains_seq(normalized(out), "(ICMP)"@),
{
    if !contains_seq(out, tcp_tag()) {
        reveal_strlit("(ICMP)");
        reveal_strlit("ms (ICMP)");
        reveal_strlit(" (ICMP)");
        reveal_strlit("~80ms (ICMP) [estimated]");
        match extracted_latency(out) {
            Some(n) => {
                let r = dec_digits(n as int) + "ms (ICMP)"@;
                assert(r.subrange(r.len() - 6, r.len() as int) =~= "(ICMP)"@);
                crate::text::lemma_match_implies_contains(r, "(ICMP)"@, r.len() - 6);
            },
            None => {
                if contains_seq(out, success_phrase()) {
                    let r = "~80ms (ICMP) [estimated]"@;
                    assert(r.subrange(6, 12) =~= "(ICMP)"@);
                    crate::text::lemma_match_implies_contains(r, "(ICMP)"@, 6);
                } else {
                    let r = out + " (ICMP)"@;
                    assert(r.subrange(out.len() as int + 1, out.len() as int + 7) =~= "(ICMP)"@);
                    crate::text::lemma_match_implies_contains(r, "(ICMP)"@, out.len() as int + 1);
                }
            },
        }
    }
}

/// A failed connectivity gate ends the measurement at once: the step yields a
/// finished, failed state whose next action is `Done`, so neither a TCP probe
/// nor an echo probe is ever requested after it.
pub proof fn lemma_gate_failure_short_circuits(s: MeasureState, r: MeasureState)
    requires
        s is Start,
        step_rel(s, ProbeEvent::GateChecked(false), r),
    ensures
        r is Finished,
        spec_next_action(r) is Done,
        r matches MeasureState::Finished(res) && res is Err,
{
}

/// A successful TCP probe finishes the measurement with a TCP-tagged report:
/// the echo probe is never consulted, and the report carries the handshake
/// time followed by the TCP tag.
pub proof fn lemma_tcp_success_preferred(s: MeasureState, ms: u64, r: MeasureState)
    requires
        s is GatePassed,
        step_rel(s, ProbeEvent::TcpProbed(Ok(ms)), r),
    ensures
        spec_next_action(r) is Done,
        r matches MeasureState::Finished(res) && res matches Ok(m) && m@ == dec_digits(ms as int)
            + "ms (TCP)"@,
{
}

} // verus!
