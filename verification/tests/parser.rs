use latency_probe::parser::extract_ping_time_from_output;

#[test]
fn average_summary_parsed() {
    let text = "Minimum = 10ms, Maximum = 50ms, Average = 30ms";
    assert_eq!(extract_ping_time_from_output(text), Some(30));
}

#[test]
fn reply_lines_mean_floor() {
    let text = "Reply from 192.0.2.1: bytes=32 time=10ms TTL=56\n\
                Reply from 192.0.2.1: bytes=32 time=20ms TTL=56\n\
                Reply from 192.0.2.1: bytes=32 time=33ms TTL=56\n";
    assert_eq!(extract_ping_time_from_output(text), Some(21));
}

#[test]
fn average_beats_reply_lines() {
    let text = "Reply from 192.0.2.1: bytes=32 time=10ms TTL=56\n\
                Reply from 192.0.2.1: bytes=32 time=20ms TTL=56\n\
                Average = 99ms";
    assert_eq!(extract_ping_time_from_output(text), Some(99));
}

#[test]
fn first_ms_token_in_document_order() {
    let text = "noise 42ms more 7ms";
    assert_eq!(extract_ping_time_from_output(text), Some(42));
}

#[test]
fn unrecognized_text_yields_nothing() {
    let text = "hello world\nnothing numeric here";
    assert_eq!(extract_ping_time_from_output(text), None);
}

#[test]
fn bare_ms_token_yields_nothing() {
    assert_eq!(extract_ping_time_from_output("ms"), None);
}

#[test]
fn doubled_ms_suffix_is_not_a_number() {
    assert_eq!(extract_ping_time_from_output("5msms"), None);
}

#[test]
fn plus_sign_accepted_by_number_parse() {
    assert_eq!(extract_ping_time_from_output("+5ms"), Some(5));
}

#[test]
fn minimum_summary_as_fallback() {
    let text = "Minimum = 10ms";
    assert_eq!(extract_ping_time_from_output(text), Some(10));
}

#[test]
fn maximum_summary_as_fallback() {
    let text = "Maximum = 50ms";
    assert_eq!(extract_ping_time_from_output(text), Some(50));
}

#[test]
fn unparsable_average_falls_through() {
    let text = "Average = xms\nReply from 192.0.2.1: time=10ms";
    assert_eq!(extract_ping_time_from_output(text), Some(10));
}

#[test]
fn space_before_unit_is_trimmed() {
    let text = "round trip Average = 30 ms over 4 probes";
    assert_eq!(extract_ping_time_from_output(text), Some(30));
}

#[test]
fn windows_style_output_uses_average() {
    let text = "Pinging 192.0.2.1 with 32 bytes of data:\r\n\
                Reply from 192.0.2.1: bytes=32 time=14ms TTL=56\r\n\
                Reply from 192.0.2.1: bytes=32 time=16ms TTL=56\r\n\
                Reply from 192.0.2.1: bytes=32 time=15ms TTL=56\r\n\
                Reply from 192.0.2.1: bytes=32 time=15ms TTL=56\r\n\
                \r\n\
                Ping statistics for 192.0.2.1:\r\n\
                    Packets: Sent = 4, Received = 4, Lost = 0 (0% loss),\r\n\
                Approximate round trip times in milli-seconds:\r\n\
                    Minimum = 14ms, Maximum = 16ms, Average = 15ms\r\n";
    assert_eq!(extract_ping_time_from_output(text), Some(15));
}

#[test]
fn reply_line_needs_reply_marker() {
    // No reply marker: the line mean is skipped, and the only candidate
    // token, "time=10ms", has a non-numeric prefix.
    let text = "some line time=10ms without the marker";
    assert_eq!(extract_ping_time_from_output(text), None);
}

#[test]
fn number_too_large_for_u32_is_skipped() {
    assert_eq!(extract_ping_time_from_output("99999999999ms"), None);
}
