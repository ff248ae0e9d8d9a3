use lazytcp::api::{parse_tcpdump_line, parse_tcpdump_stdout, read_result, TcpdumpApi, TcpdumpReadRequest};

#[test]
fn parses_tcp_line_into_packet_summary() {
    let line = "1970-01-01 00:00:01.001000 IP 10.0.0.12.51544 > 1.1.1.1.443: Flags [S], seq 1, win 65535, length 0";
    let packet = parse_tcpdump_line(line).expect("line should parse");

    assert_eq!(packet.protocol, "TCP");
    assert_eq!(packet.source, "10.0.0.12.51544");
    assert_eq!(packet.destination, "1.1.1.1.443");
    assert_eq!(packet.length, 0);
}

#[test]
fn parses_udp_line_into_packet_summary() {
    let line = "1970-01-01 00:00:02.002000 IP 10.0.0.12.34211 > 8.8.8.8.53: UDP, length 0";
    let packet = parse_tcpdump_line(line).expect("line should parse");

    assert_eq!(packet.protocol, "UDP");
    assert_eq!(packet.source, "10.0.0.12.34211");
    assert_eq!(packet.destination, "8.8.8.8.53");
    assert_eq!(packet.length, 0);
}

#[test]
fn parses_ipv6_line_and_keeps_timestamp_and_summary() {
    let line = "2024-05-01 10:00:00.000001 IP6 fe80::1.5353 > ff02::fb.5353: UDP, length 42";
    let packet = parse_tcpdump_line(line).expect("IPv6 line should parse");

    assert_eq!(packet.timestamp, "2024-05-01 10:00:00.000001");
    assert_eq!(packet.source, "fe80::1.5353");
    assert_eq!(packet.destination, "ff02::fb.5353");
    assert_eq!(packet.protocol, "UDP");
    assert_eq!(packet.length, 42);
    assert_eq!(packet.summary, "UDP, length 42");
    assert_eq!(packet.interface, None);
}

#[test]
fn line_without_ip_marker_is_skipped() {
    assert!(parse_tcpdump_line("1970-01-01 00:00:01.000000 ARP, Request who-has 10.0.0.1").is_none());
    assert!(parse_tcpdump_line("").is_none());
}

#[test]
fn destination_loses_trailing_colon_when_no_summary_follows() {
    let packet = parse_tcpdump_line("1970-01-01 00:00:01.000000 IP 10.0.0.1 > 10.0.0.2:")
        .expect("line should parse");
    assert_eq!(packet.destination, "10.0.0.2");
    assert_eq!(packet.length, 0);
}

#[test]
fn stdout_parsing_keeps_order_and_skips_other_lines() {
    let stdout = "1970-01-01 00:00:01.001000 IP 10.0.0.12.51544 > 1.1.1.1.443: Flags [S], seq 1, win 65535, length 0\r\n\
reading from file capture.pcap\n\
1970-01-01 00:00:02.002000 IP 10.0.0.12.34211 > 8.8.8.8.53: UDP, length 12";
    let packets = parse_tcpdump_stdout(stdout);

    assert_eq!(packets.len(), 2);
    assert_eq!(packets[0].destination, "1.1.1.1.443");
    assert_eq!(packets[0].summary, "Flags [S], seq 1, win 65535, length 0");
    assert_eq!(packets[1].destination, "8.8.8.8.53");
    assert_eq!(packets[1].length, 12);
}

#[test]
fn read_args_put_the_file_after_the_fixed_flags() {
    let api = TcpdumpApi::default();
    assert_eq!(api.binary(), "tcpdump");
    let filters = ["udp", "and", "port", "53"];
    let request = TcpdumpReadRequest { pcap_path: "capture.pcap", filter_args: &filters };
    assert_eq!(
        api.read_args(request),
        vec!["-nn", "-tttt", "-r", "capture.pcap", "udp", "and", "port", "53"]
    );
    let custom = TcpdumpApi::new("/usr/sbin/tcpdump".to_string());
    assert_eq!(custom.binary(), "/usr/sbin/tcpdump");
}

#[test]
fn failed_run_reports_status_and_trimmed_stderr() {
    let result = read_result(false, "exit status: 1", "  tcpdump: bad file \n", Ok(String::new()));
    match result {
        Err(error) => assert_eq!(
            error.message(),
            "tcpdump exited with status exit status: 1: tcpdump: bad file"
        ),
        Ok(_) => panic!("a failed run should be an error"),
    }
}

#[test]
fn output_that_is_not_utf8_is_an_error() {
    let result = read_result(true, "exit status: 0", "", Err("invalid utf-8 sequence".to_string()));
    match result {
        Err(error) => assert_eq!(
            error.message(),
            "tcpdump output was not valid UTF-8: invalid utf-8 sequence"
        ),
        Ok(_) => panic!("undecodable output should be an error"),
    }
}

#[test]
fn successful_run_yields_parsed_packets() {
    let stdout = "1970-01-01 00:00:02.002000 IP 10.0.0.12.34211 > 8.8.8.8.53: UDP, length 0\n".to_string();
    let packets = read_result(true, "exit status: 0", "", Ok(stdout)).expect("run succeeded");
    assert_eq!(packets.len(), 1);
    assert_eq!(packets[0].protocol, "UDP");
}

#[test]
fn output_joined_at_a_newline_parses_to_both_parts_in_order() {
    let a = "1970-01-01 00:00:01.001000 IP 10.0.0.12.51544 > 1.1.1.1.443: Flags [S], length 0\nnoise";
    let b = "1970-01-01 00:00:02.002000 IP 10.0.0.12.34211 > 8.8.8.8.53: UDP, length 0";
    let joined = parse_tcpdump_stdout(&format!("{a}\n{b}"));
    let mut parts = parse_tcpdump_stdout(a);
    parts.extend(parse_tcpdump_stdout(b));
    assert_eq!(joined, parts);
    assert_eq!(joined.len(), 2);
    assert_eq!(parse_tcpdump_stdout(&format!("{a}\n")), parse_tcpdump_stdout(a));
}
