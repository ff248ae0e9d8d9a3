use lazytcp::cli::{parse_args_from, usage, CliError, ParsedArgs};
use lazytcp::keys::{is_popup_cancel_key, KeyCode, KeyPress};

#[test]
fn missing_pcap_argument_returns_usage_error() {
    let result = parse_args_from(Vec::<String>::new());
    match result {
        Err(CliError::Usage(message)) => {
            assert!(message.contains("missing required argument <pcap-file>"));
            assert!(message.contains("usage: lazytcp <pcap-file> [tcpdump-filter...]"));
        }
        other => panic!("expected usage error, got {other:?}"),
    }
}

#[test]
fn help_flag_returns_help_variant() {
    let result = parse_args_from(vec!["--help".to_string()]).expect("help should parse");
    assert!(matches!(result, ParsedArgs::Help));
}

#[test]
fn popup_cancel_key_matches_escape_variants() {
    assert!(is_popup_cancel_key(KeyPress { code: KeyCode::Esc, control: false }));
    assert!(is_popup_cancel_key(KeyPress { code: KeyCode::Char('\u{1b}'), control: false }));
    assert!(is_popup_cancel_key(KeyPress { code: KeyCode::Char('['), control: true }));
    assert!(!is_popup_cancel_key(KeyPress { code: KeyCode::Char('['), control: false }));
}

#[test]
fn unknown_option_is_a_usage_error_and_paths_keep_filter_words() {
    match parse_args_from(vec!["-x".to_string()]) {
        Err(error) => {
            assert_eq!(error.exit_code(), 2);
            assert!(error.message().starts_with("error: unknown option '-x'"));
        }
        Ok(_) => panic!("an unknown option should be refused"),
    }
    match parse_args_from(vec!["-h".to_string()]) {
        Ok(ParsedArgs::Help) => {}
        other => panic!("expected help, got {other:?}"),
    }
    match parse_args_from(vec!["cap.pcap".to_string(), "udp".to_string(), "port".to_string()]) {
        Ok(ParsedArgs::Run(args)) => {
            assert_eq!(args.pcap_path, "cap.pcap");
            assert_eq!(args.filter_args, vec!["udp".to_string(), "port".to_string()]);
        }
        other => panic!("expected a run, got {other:?}"),
    }
    assert_eq!(CliError::runtime("boom".to_string()).exit_code(), 1);
    assert_eq!(
        usage(),
        "usage: lazytcp <pcap-file> [tcpdump-filter...]\nexample: lazytcp capture.pcap udp"
    );
}
