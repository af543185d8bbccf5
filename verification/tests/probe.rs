use latency_probe::probe::{classify_echo_output, PingError, RawProbeOutput};

fn run(success: bool, stdout: &str, stderr: &str) -> RawProbeOutput {
    RawProbeOutput {
        success,
        stdout: stdout.to_string(),
        stderr: stderr.to_string(),
    }
}

#[test]
fn timed_out_despite_success_exit() {
    let text = "Request timed out.\nRequest timed out.\nRequest timed out.\nRequest timed out.\n";
    let out = run(true, text, "");
    match classify_echo_output(&out) {
        Err(PingError::Timeout(d)) => assert_eq!(d, text),
        other => panic!("expected a timeout, got {:?}", other),
    }
}

#[test]
fn packet_loss_marker_is_a_timeout() {
    let out = run(false, "4 packets transmitted, 0 received, 100% packet loss, time 3000ms", "");
    assert!(matches!(classify_echo_output(&out), Err(PingError::Timeout(_))));
}

#[test]
fn timeout_marker_in_stderr_counts() {
    let out = run(true, "", "100% loss");
    assert!(matches!(classify_echo_output(&out), Err(PingError::Timeout(_))));
}

#[test]
fn successful_run_reports_parsed_latency() {
    let out = run(true, "Minimum = 10ms, Maximum = 50ms, Average = 30ms", "");
    match classify_echo_output(&out) {
        Ok(m) => assert_eq!(m, "30ms"),
        other => panic!("expected a parsed report, got {:?}", other),
    }
}

#[test]
fn successful_run_without_a_value_keeps_the_text() {
    let out = run(true, "all quiet", "");
    match classify_echo_output(&out) {
        Ok(m) => assert_eq!(m, "Ping successful, but couldn't parse result: all quiet"),
        other => panic!("expected a raw-text report, got {:?}", other),
    }
}

#[test]
fn failed_run_with_error_text() {
    let out = run(false, "", "ping: permission denied");
    match classify_echo_output(&out) {
        Err(PingError::ProbeError(d)) => assert_eq!(d, "ping: permission denied"),
        other => panic!("expected a probe error, got {:?}", other),
    }
}

#[test]
fn failed_run_with_unresolved_host() {
    let text = "Ping request could not find host no.such.host. Please check the name.";
    let out = run(false, text, "");
    match classify_echo_output(&out) {
        Err(PingError::HostUnresolved(d)) => assert_eq!(d, text),
        other => panic!("expected an unresolved host, got {:?}", other),
    }
}

#[test]
fn failed_run_without_explanation() {
    let out = run(false, "odd state", "");
    match classify_echo_output(&out) {
        Err(PingError::ProbeError(d)) => assert_eq!(d, "odd state"),
        other => panic!("expected a probe error, got {:?}", other),
    }
}

#[test]
fn error_text_takes_precedence_over_resolution_marker() {
    let out = run(false, "could not resolve target", "broken pipe");
    assert!(matches!(classify_echo_output(&out), Err(PingError::ProbeError(_))));
}

#[test]
fn failure_messages_are_descriptive() {
    assert_eq!(
        PingError::NetworkUnavailable.message(),
        "Network connection unavailable"
    );
    assert_eq!(
        PingError::Timeout("out".to_string()).message(),
        "Server did not respond to ping requests (timeout). Full output: out"
    );
    assert_eq!(
        PingError::ExecutionFailed("no tool".to_string()).message(),
        "Failed to execute ping command: no tool"
    );
    assert_eq!(
        PingError::HostUnresolved("who".to_string()).message(),
        "Could not resolve server hostname: who"
    );
    assert_eq!(
        PingError::ProbeError("why".to_string()).message(),
        "Ping command error: why"
    );
    assert_eq!(
        PingError::AddressUnavailable.message(),
        "Could not resolve the target address"
    );
    assert_eq!(
        PingError::ConnectionRefused.message(),
        "Could not establish a TCP connection to the target"
    );
}
