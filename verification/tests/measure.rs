use latency_probe::measure::{
    get_ping, measure_step, next_action, MeasureState, ProbeAction, ProbeEvent,
};
use latency_probe::probe::{PingError, RawProbeOutput};

const FAILURE_PREFIX: &str =
    "Server did not respond (timeout). The server may be down or unreachable.\n\nDetails: ";

#[test]
fn gate_failure_short_circuits() {
    let s = measure_step(MeasureState::Start, ProbeEvent::GateChecked(false));
    assert!(next_action(&s) == ProbeAction::Done);
    match s {
        MeasureState::Finished(Err(m)) => assert_eq!(
            m,
            format!("{}Network connection unavailable", FAILURE_PREFIX)
        ),
        other => panic!("expected a finished failure, got {:?}", other),
    }
}

#[test]
fn gate_success_asks_for_tcp_probe() {
    let s = measure_step(MeasureState::Start, ProbeEvent::GateChecked(true));
    assert!(next_action(&s) == ProbeAction::ProbeTcp);
}

#[test]
fn tcp_success_is_tagged_tcp() {
    let s = measure_step(MeasureState::GatePassed, ProbeEvent::TcpProbed(Ok(23)));
    assert!(next_action(&s) == ProbeAction::Done);
    match s {
        MeasureState::Finished(Ok(m)) => assert_eq!(m, "23ms (TCP)"),
        other => panic!("expected a TCP report, got {:?}", other),
    }
}

#[test]
fn tcp_failure_falls_back_to_echo_probe() {
    let s = measure_step(
        MeasureState::GatePassed,
        ProbeEvent::TcpProbed(Err(PingError::ConnectionRefused)),
    );
    assert!(next_action(&s) == ProbeAction::ProbeEcho);
}

#[test]
fn echo_spawn_failure_is_reported() {
    let s = measure_step(
        MeasureState::TcpFailed,
        ProbeEvent::EchoProbed(Err("tool missing".to_string())),
    );
    match s {
        MeasureState::Finished(Err(m)) => assert_eq!(
            m,
            format!(
                "{}Failed to execute ping command: tool missing",
                FAILURE_PREFIX
            )
        ),
        other => panic!("expected a finished failure, got {:?}", other),
    }
}

#[test]
fn unreachable_target_ends_in_timeout_failure() {
    // The TCP handshake timed out; the echo probe then saw no replies either.
    let s = measure_step(
        MeasureState::GatePassed,
        ProbeEvent::TcpProbed(Err(PingError::ConnectionRefused)),
    );
    assert!(next_action(&s) == ProbeAction::ProbeEcho);
    let text = "Request timed out.\nRequest timed out.\nRequest timed out.\nRequest timed out.\n";
    let out = RawProbeOutput {
        success: true,
        stdout: text.to_string(),
        stderr: String::new(),
    };
    let s = measure_step(s, ProbeEvent::EchoProbed(Ok(out)));
    assert!(next_action(&s) == ProbeAction::Done);
    match s {
        MeasureState::Finished(Err(m)) => assert_eq!(
            m,
            format!(
                "{}Server did not respond to ping requests (timeout). Full output: {}",
                FAILURE_PREFIX, text
            )
        ),
        other => panic!("expected a timeout failure, got {:?}", other),
    }
}

#[test]
fn echo_replies_end_in_icmp_report() {
    let out = RawProbeOutput {
        success: true,
        stdout: "Reply from 192.0.2.1: bytes=32 time=10ms TTL=56\n\
                 Reply from 192.0.2.1: bytes=32 time=20ms TTL=56\n\
                 Reply from 192.0.2.1: bytes=32 time=33ms TTL=56\n"
            .to_string(),
        stderr: String::new(),
    };
    let s = measure_step(MeasureState::TcpFailed, ProbeEvent::EchoProbed(Ok(out)));
    match s {
        MeasureState::Finished(Ok(m)) => assert_eq!(m, "21ms (ICMP)"),
        other => panic!("expected an ICMP report, got {:?}", other),
    }
}

#[test]
fn unparsed_echo_success_yields_marked_estimate() {
    let out = RawProbeOutput {
        success: true,
        stdout: "probe finished, nothing numeric".to_string(),
        stderr: String::new(),
    };
    let s = measure_step(MeasureState::TcpFailed, ProbeEvent::EchoProbed(Ok(out)));
    match s {
        MeasureState::Finished(Ok(m)) => assert_eq!(m, "~80ms (ICMP) [estimated]"),
        other => panic!("expected the marked estimate, got {:?}", other),
    }
}

#[test]
fn get_ping_passes_tcp_reports_through() {
    assert_eq!(
        get_ping(Ok("15ms (TCP)".to_string())),
        Ok("15ms (TCP)".to_string())
    );
}

#[test]
fn get_ping_tags_parsed_values_as_icmp() {
    assert_eq!(get_ping(Ok("30ms".to_string())), Ok("30ms (ICMP)".to_string()));
}

#[test]
fn get_ping_marks_the_estimate() {
    assert_eq!(
        get_ping(Ok(
            "Ping successful, but couldn't parse result: all quiet".to_string()
        )),
        Ok("~80ms (ICMP) [estimated]".to_string())
    );
}

#[test]
fn get_ping_annotates_unparsed_text() {
    assert_eq!(
        get_ping(Ok("gibberish".to_string())),
        Ok("gibberish (ICMP)".to_string())
    );
}

#[test]
fn get_ping_wraps_failures() {
    assert_eq!(
        get_ping(Err("boom".to_string())),
        Err(format!("{}boom", FAILURE_PREFIX))
    );
}
