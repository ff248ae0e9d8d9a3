use lazytcp::app::{App, DateTimePopupField, FocusPane};
use lazytcp::domain::{FilterDimension, PacketSummary};
use lazytcp::fields::{endpoint_host, endpoint_port};

fn sample_packets() -> Vec<PacketSummary> {
    vec![
        PacketSummary {
            timestamp: "1970-01-01 00:00:01.001000".to_string(),
            interface: None,
            source: "10.0.0.12.51544".to_string(),
            destination: "1.1.1.1.443".to_string(),
            protocol: "TCP".to_string(),
            length: 0,
            summary: "Flags [S], length 0".to_string(),
        },
        PacketSummary {
            timestamp: "1970-01-01 00:00:02.002000".to_string(),
            interface: None,
            source: "10.0.0.12.34211".to_string(),
            destination: "8.8.8.8.53".to_string(),
            protocol: "UDP".to_string(),
            length: 0,
            summary: "UDP, length 0".to_string(),
        },
        PacketSummary {
            timestamp: "1970-01-01 00:00:03.003000".to_string(),
            interface: None,
            source: "192.168.1.5.60000".to_string(),
            destination: "1.1.1.1.443".to_string(),
            protocol: "TCP".to_string(),
            length: 0,
            summary: "Flags [.], length 0".to_string(),
        },
    ]
}

fn sample_packets_with_ipv6() -> Vec<PacketSummary> {
    let mut packets = sample_packets();
    packets.push(PacketSummary {
        timestamp: "1970-01-01 00:00:04.004000".to_string(),
        interface: None,
        source: "fe80::1.5353".to_string(),
        destination: "ff02::fb.5353".to_string(),
        protocol: "UDP".to_string(),
        length: 32,
        summary: "UDP, length 32".to_string(),
    });
    packets
}

fn sample_packets_with_traffic_classes() -> Vec<PacketSummary> {
    vec![
        PacketSummary {
            timestamp: "1970-01-01 00:00:01.001000".to_string(),
            interface: None,
            source: "10.0.0.12.51544".to_string(),
            destination: "1.1.1.1.443".to_string(),
            protocol: "TCP".to_string(),
            length: 0,
            summary: "Flags [S], length 0".to_string(),
        },
        PacketSummary {
            timestamp: "1970-01-01 00:00:02.002000".to_string(),
            interface: None,
            source: "192.168.1.10.5353".to_string(),
            destination: "224.0.0.251.5353".to_string(),
            protocol: "UDP".to_string(),
            length: 32,
            summary: "UDP, length 32".to_string(),
        },
        PacketSummary {
            timestamp: "1970-01-01 00:00:03.003000".to_string(),
            interface: None,
            source: "0.0.0.0.68".to_string(),
            destination: "255.255.255.255.67".to_string(),
            protocol: "UDP".to_string(),
            length: 300,
            summary: "UDP, length 300".to_string(),
        },
    ]
}

fn sample_packets_with_icmp_types() -> Vec<PacketSummary> {
    vec![
        PacketSummary {
            timestamp: "1970-01-01 00:00:01.001000".to_string(),
            interface: None,
            source: "10.0.0.12".to_string(),
            destination: "1.1.1.1".to_string(),
            protocol: "ICMP".to_string(),
            length: 84,
            summary: "ICMP echo request, id 1, seq 1, length 64".to_string(),
        },
        PacketSummary {
            timestamp: "1970-01-01 00:00:02.002000".to_string(),
            interface: None,
            source: "1.1.1.1".to_string(),
            destination: "10.0.0.12".to_string(),
            protocol: "ICMP".to_string(),
            length: 84,
            summary: "ICMP echo reply, id 1, seq 1, length 64".to_string(),
        },
        PacketSummary {
            timestamp: "1970-01-01 00:00:03.003000".to_string(),
            interface: None,
            source: "fe80::1".to_string(),
            destination: "ff02::1:ff00:1".to_string(),
            protocol: "ICMP6".to_string(),
            length: 72,
            summary: "ICMP6, neighbor solicitation, who has fe80::1, length 32".to_string(),
        },
    ]
}

fn sample_packets_with_tcp_flag_combinations() -> Vec<PacketSummary> {
    vec![
        PacketSummary {
            timestamp: "1970-01-01 00:00:01.001000".to_string(),
            interface: None,
            source: "10.0.0.12.51544".to_string(),
            destination: "1.1.1.1.443".to_string(),
            protocol: "TCP".to_string(),
            length: 0,
            summary: "Flags [.], length 0".to_string(),
        },
        PacketSummary {
            timestamp: "1970-01-01 00:00:02.002000".to_string(),
            interface: None,
            source: "10.0.0.12.51545".to_string(),
            destination: "1.1.1.1.443".to_string(),
            protocol: "TCP".to_string(),
            length: 0,
            summary: "Flags [P.], length 0".to_string(),
        },
        PacketSummary {
            timestamp: "1970-01-01 00:00:03.003000".to_string(),
            interface: None,
            source: "10.0.0.12.51546".to_string(),
            destination: "1.1.1.1.443".to_string(),
            protocol: "TCP".to_string(),
            length: 0,
            summary: "Flags [S.], length 0".to_string(),
        },
        PacketSummary {
            timestamp: "1970-01-01 00:00:04.004000".to_string(),
            interface: None,
            source: "10.0.0.12.51547".to_string(),
            destination: "1.1.1.1.443".to_string(),
            protocol: "TCP".to_string(),
            length: 0,
            summary: "Flags [S], length 0".to_string(),
        },
    ]
}

fn sample_packets_with_arp() -> Vec<PacketSummary> {
    let mut packets = sample_packets();
    packets.push(PacketSummary {
        timestamp: "1970-01-01 00:00:04.004000".to_string(),
        interface: None,
        source: "10.0.0.2".to_string(),
        destination: "10.0.0.1".to_string(),
        protocol: "ARP".to_string(),
        length: 46,
        summary: "Request who-has 10.0.0.1 tell 10.0.0.2, length 46".to_string(),
    });
    packets
}

fn sample_packets_with_interfaces() -> Vec<PacketSummary> {
    vec![
        PacketSummary {
            timestamp: "1970-01-01 00:00:01.001000".to_string(),
            interface: Some("en0".to_string()),
            source: "10.0.0.12.51544".to_string(),
            destination: "1.1.1.1.443".to_string(),
            protocol: "TCP".to_string(),
            length: 0,
            summary: "Flags [S], length 0".to_string(),
        },
        PacketSummary {
            timestamp: "1970-01-01 00:00:02.002000".to_string(),
            interface: Some("utun0".to_string()),
            source: "10.0.0.12.34211".to_string(),
            destination: "8.8.8.8.53".to_string(),
            protocol: "UDP".to_string(),
            length: 0,
            summary: "UDP, length 0".to_string(),
        },
        PacketSummary {
            timestamp: "1970-01-01 00:00:03.003000".to_string(),
            interface: Some("en0".to_string()),
            source: "192.168.1.5.60000".to_string(),
            destination: "1.1.1.1.443".to_string(),
            protocol: "TCP".to_string(),
            length: 0,
            summary: "Flags [.], length 0".to_string(),
        },
    ]
}

fn sample_packets_for_popup_search() -> Vec<PacketSummary> {
    vec![
        PacketSummary {
            timestamp: "1970-01-01 00:00:01.001000".to_string(),
            interface: None,
            source: "172.16.10.10.5000".to_string(),
            destination: "8.8.8.8.53".to_string(),
            protocol: "UDP".to_string(),
            length: 0,
            summary: "UDP, length 0".to_string(),
        },
        PacketSummary {
            timestamp: "1970-01-01 00:00:02.002000".to_string(),
            interface: None,
            source: "10.10.1.9.5001".to_string(),
            destination: "1.1.1.1.53".to_string(),
            protocol: "UDP".to_string(),
            length: 0,
            summary: "UDP, length 0".to_string(),
        },
        PacketSummary {
            timestamp: "1970-01-01 00:00:03.003000".to_string(),
            interface: None,
            source: "192.168.2.5.5002".to_string(),
            destination: "203.0.113.5.53".to_string(),
            protocol: "UDP".to_string(),
            length: 0,
            summary: "UDP, length 0".to_string(),
        },
    ]
}

fn sample_packets_for_iterative_candidates() -> Vec<PacketSummary> {
    vec![
        PacketSummary {
            timestamp: "1970-01-01 00:00:01.001000".to_string(),
            interface: None,
            source: "10.0.0.1.5000".to_string(),
            destination: "1.1.1.1.80".to_string(),
            protocol: "ICMP".to_string(),
            length: 84,
            summary: "ICMP echo request, id 1, seq 1, length 64".to_string(),
        },
        PacketSummary {
            timestamp: "1970-01-01 00:00:02.002000".to_string(),
            interface: None,
            source: "10.0.0.2.5001".to_string(),
            destination: "8.8.8.8.443".to_string(),
            protocol: "TCP".to_string(),
            length: 60,
            summary: "Flags [S], length 0".to_string(),
        },
        PacketSummary {
            timestamp: "1970-01-01 00:00:03.003000".to_string(),
            interface: None,
            source: "10.0.0.3.5002".to_string(),
            destination: "1.1.1.1.80".to_string(),
            protocol: "ICMP".to_string(),
            length: 84,
            summary: "ICMP echo reply, id 1, seq 1, length 64".to_string(),
        },
        PacketSummary {
            timestamp: "1970-01-01 00:00:04.004000".to_string(),
            interface: None,
            source: "10.0.0.4.5003".to_string(),
            destination: "1.1.1.1.443".to_string(),
            protocol: "TCP".to_string(),
            length: 60,
            summary: "Flags [.], length 0".to_string(),
        },
    ]
}

fn select_filter_dimension(app: &mut App, target: FilterDimension) {
    for _ in 0..app.filter_dimensions().len() {
        if app.selected_filter_dimension() == target {
            return;
        }
        app.next_filter_dimension();
    }

    for _ in 0..app.filter_dimensions().len() {
        if app.selected_filter_dimension() == target {
            return;
        }
        app.previous_filter_dimension();
    }

    panic!("failed to select filter dimension: {target:?}");
}

fn type_into_date_time_popup(app: &mut App, value: &str) {
    for ch in value.chars() {
        app.filter_popup_insert_char(ch);
    }
}

fn type_into_filter_popup_search(app: &mut App, value: &str) {
    app.start_filter_popup_search();
    for ch in value.chars() {
        app.filter_popup_search_insert_char(ch);
    }
}

fn move_filter_popup_to_candidate(app: &mut App, candidate: &str) {
    let candidates = app
        .filter_popup_candidates()
        .expect("filter popup should expose candidates");
    let target_index = candidates
        .iter()
        .position(|value| value == candidate)
        .unwrap_or_else(|| panic!("candidate should be present in popup: {candidate}"));
    let current_index = app.filter_popup_selected_index().unwrap_or(0);
    let steps = (target_index + candidates.len() - current_index) % candidates.len();

    for _ in 0..steps {
        app.move_down();
    }
}

#[test]
fn cycle_focus_wraps_back_to_filter_selector() {
    let mut app = App::new();
    assert_eq!(app.focus(), FocusPane::FilterSelector);

    app.cycle_focus();
    assert_eq!(app.focus(), FocusPane::PacketList);

    app.cycle_focus();
    assert_eq!(app.focus(), FocusPane::PacketDetail);

    app.cycle_focus();
    assert_eq!(app.focus(), FocusPane::FilterSelector);
}

#[test]
fn keybindings_popup_open_and_close_updates_visibility_state() {
    let mut app = App::new();
    assert!(!app.is_keybindings_popup_open());

    app.open_keybindings_popup();
    assert!(app.is_keybindings_popup_open());

    app.close_keybindings_popup();
    assert!(!app.is_keybindings_popup_open());
}

#[test]
fn next_packet_stops_at_last_row() {
    let mut app = App::with_packets(sample_packets(), String::new());
    let last_index = app.packets().len() - 1;

    for _ in 0..(app.packets().len() + 3) {
        app.next_packet();
    }

    assert_eq!(app.selected_packet_index(), last_index);
}

#[test]
fn previous_packet_stops_at_zero() {
    let mut app = App::with_packets(sample_packets(), String::new());
    app.previous_packet();

    assert_eq!(app.selected_packet_index(), 0);
}

#[test]
fn selected_filter_dimension_defaults_to_host() {
    let app = App::new();

    assert_eq!(app.selected_filter_dimension(), FilterDimension::Host);
    assert_eq!(app.selected_filter_dimension_index(), 0);
}

#[test]
fn next_filter_dimension_stops_at_last_option() {
    let mut app = App::new();
    let last_index = app.filter_dimensions().len() - 1;

    for _ in 0..(app.filter_dimensions().len() + 3) {
        app.next_filter_dimension();
    }

    assert_eq!(app.selected_filter_dimension_index(), last_index);
    assert_eq!(
        app.selected_filter_dimension(),
        *app.filter_dimensions()
            .last()
            .expect("at least one filter dimension should exist")
    );
}

#[test]
fn previous_filter_dimension_stops_at_zero() {
    let mut app = App::new();
    app.previous_filter_dimension();

    assert_eq!(app.selected_filter_dimension_index(), 0);
    assert_eq!(app.selected_filter_dimension(), FilterDimension::Host);
}

#[test]
fn move_down_in_packet_list_focus_advances_packet_selection() {
    let mut app = App::with_packets(sample_packets(), String::new());
    app.cycle_focus();
    assert_eq!(app.focus(), FocusPane::PacketList);

    app.move_down();

    assert_eq!(app.selected_packet_index(), 1);
}

#[test]
fn move_down_in_filter_selector_focus_advances_filter_selection() {
    let mut app = App::new();
    assert_eq!(app.focus(), FocusPane::FilterSelector);

    app.move_down();

    assert_eq!(app.selected_filter_dimension(), FilterDimension::Source);
}

#[test]
fn reverse_cycle_focus_wraps_back_to_filter_selector() {
    let mut app = App::new();
    assert_eq!(app.focus(), FocusPane::FilterSelector);

    app.reverse_cycle_focus();
    assert_eq!(app.focus(), FocusPane::PacketDetail);

    app.reverse_cycle_focus();
    assert_eq!(app.focus(), FocusPane::PacketList);

    app.reverse_cycle_focus();
    assert_eq!(app.focus(), FocusPane::FilterSelector);
}

#[test]
fn opening_host_popup_lists_unique_hosts() {
    let mut app = App::with_packets(sample_packets(), String::new());

    app.open_filter_popup();

    assert!(app.is_filter_popup_open());
    assert_eq!(app.filter_popup_dimension(), Some(FilterDimension::Host));
    let candidates = app
        .filter_popup_candidates()
        .expect("host popup should expose candidates");
    assert_eq!(
        candidates,
        &[
            "1.1.1.1".to_string(),
            "10.0.0.12".to_string(),
            "192.168.1.5".to_string(),
            "8.8.8.8".to_string(),
        ]
    );
}

#[test]
fn popup_search_filters_candidates_by_substring_match_anywhere() {
    let mut app = App::with_packets(sample_packets_for_popup_search(), String::new());

    app.open_filter_popup();
    assert!(!app.is_filter_popup_search_active());
    type_into_filter_popup_search(&mut app, "10.10");

    assert!(app.is_filter_popup_search_active());
    assert_eq!(app.filter_popup_search_query(), Some("10.10"));
    let narrowed = app
        .filter_popup_candidates()
        .expect("host popup should expose narrowed candidates");
    assert_eq!(
        narrowed,
        &["10.10.1.9".to_string(), "172.16.10.10".to_string()]
    );

    for _ in 0.."10.10".chars().count() {
        app.filter_popup_search_backspace();
    }
    assert_eq!(app.filter_popup_search_query(), Some(""));
    let widened = app
        .filter_popup_candidates()
        .expect("host popup should expose all candidates once query is cleared");
    assert_eq!(
        widened,
        &[
            "1.1.1.1".to_string(),
            "10.10.1.9".to_string(),
            "172.16.10.10".to_string(),
            "192.168.2.5".to_string(),
            "203.0.113.5".to_string(),
            "8.8.8.8".to_string(),
        ]
    );
}

#[test]
fn popup_confirm_keeps_values_selected_before_search_narrowing() {
    let mut app = App::with_packets(sample_packets_for_popup_search(), String::new());

    app.open_filter_popup();
    app.toggle_filter_popup_selection();
    type_into_filter_popup_search(&mut app, "10.10");
    app.confirm_filter_popup();

    assert_eq!(app.filter_expression(), "host = 1.1.1.1");
    assert_eq!(app.packets().len(), 1);
    assert_eq!(app.packets()[0].destination, "1.1.1.1.53");
}

#[test]
fn stop_filter_popup_search_disables_search_mode_without_closing_popup() {
    let mut app = App::with_packets(sample_packets_for_popup_search(), String::new());

    app.open_filter_popup();
    type_into_filter_popup_search(&mut app, "10.10");
    assert!(app.is_filter_popup_search_active());
    assert_eq!(app.filter_popup_search_query(), Some("10.10"));

    app.stop_filter_popup_search();

    assert!(app.is_filter_popup_open());
    assert!(!app.is_filter_popup_search_active());
    assert_eq!(app.filter_popup_search_query(), Some("10.10"));
}

#[test]
fn popup_confirm_with_search_query_keeps_focus_in_filter_selector() {
    let mut app = App::with_packets(sample_packets_for_popup_search(), String::new());
    assert_eq!(app.focus(), FocusPane::FilterSelector);

    app.open_filter_popup();
    type_into_filter_popup_search(&mut app, "10.10");
    app.stop_filter_popup_search();
    app.toggle_filter_popup_selection();
    app.confirm_filter_popup();

    assert_eq!(app.filter_expression(), "host = 10.10.1.9");
    assert_eq!(app.focus(), FocusPane::FilterSelector);
}

#[test]
fn popup_confirm_keeps_focus_in_filter_selector_after_search_mode_used_with_empty_query() {
    let mut app = App::with_packets(sample_packets_for_popup_search(), String::new());
    assert_eq!(app.focus(), FocusPane::FilterSelector);

    app.open_filter_popup();
    app.start_filter_popup_search();
    app.stop_filter_popup_search();
    app.toggle_filter_popup_selection();
    app.confirm_filter_popup();

    assert_eq!(app.filter_expression(), "host = 1.1.1.1");
    assert_eq!(app.focus(), FocusPane::FilterSelector);
}

#[test]
fn popup_selection_with_space_and_enter_applies_filter_expression() {
    let mut app = App::with_packets(sample_packets(), String::new());

    app.open_filter_popup();
    app.move_down();
    app.move_down();
    app.move_down();
    assert_eq!(app.filter_popup_selected_index(), Some(3));

    app.toggle_filter_popup_selection();
    app.confirm_filter_popup();

    assert!(!app.is_filter_popup_open());
    assert_eq!(app.filter_expression(), "host = 8.8.8.8");
    assert_eq!(app.focus(), FocusPane::FilterSelector);
    assert_eq!(app.packets().len(), 1);
    assert_eq!(app.packets()[0].destination, "8.8.8.8.53");
}

#[test]
fn date_time_popup_confirm_moves_focus_to_packet_list() {
    let mut app = App::with_packets(sample_packets(), String::new());
    app.cycle_focus();
    assert_eq!(app.focus(), FocusPane::PacketList);

    select_filter_dimension(&mut app, FilterDimension::DateTime);
    app.open_filter_popup();
    type_into_date_time_popup(&mut app, "1970-01-01 00:00:02.002000");
    app.confirm_filter_popup();

    assert_eq!(app.focus(), FocusPane::PacketList);
    assert_eq!(
        app.filter_expression(),
        "date time >= 1970-01-01 00:00:02.002000"
    );
}

#[test]
fn focus_filter_selector_moves_focus_to_filter_pane() {
    let mut app = App::with_packets(sample_packets(), String::new());
    app.cycle_focus();
    assert_eq!(app.focus(), FocusPane::PacketList);

    app.focus_filter_selector();

    assert_eq!(app.focus(), FocusPane::FilterSelector);
}

#[test]
fn popup_move_down_wraps_from_last_item_to_first() {
    let mut app = App::with_packets(sample_packets(), String::new());

    app.open_filter_popup();
    app.move_down();
    app.move_down();
    app.move_down();
    assert_eq!(app.filter_popup_selected_index(), Some(3));

    app.move_down();
    assert_eq!(app.filter_popup_selected_index(), Some(0));
}

#[test]
fn popup_move_up_wraps_from_first_item_to_last() {
    let mut app = App::with_packets(sample_packets(), String::new());

    app.open_filter_popup();
    assert_eq!(app.filter_popup_selected_index(), Some(0));

    app.move_up();
    assert_eq!(app.filter_popup_selected_index(), Some(3));
}

#[test]
fn popup_supports_multi_select_and_expression_lists_selected_values() {
    let mut app = App::with_packets(sample_packets(), String::new());

    select_filter_dimension(&mut app, FilterDimension::Protocol);
    assert_eq!(app.selected_filter_dimension(), FilterDimension::Protocol);

    app.open_filter_popup();
    let candidates = app
        .filter_popup_candidates()
        .expect("protocol popup should expose candidates");
    assert_eq!(candidates, &["tcp".to_string(), "udp".to_string()]);

    app.toggle_filter_popup_selection();
    app.move_down();
    app.toggle_filter_popup_selection();
    app.confirm_filter_popup();

    assert_eq!(app.filter_expression(), "protocol in [tcp, udp]");
    assert_eq!(app.packets().len(), 3);
}

#[test]
fn protocol_popup_includes_arp_candidate_when_packets_contain_arp() {
    let mut app = App::with_packets(sample_packets_with_arp(), String::new());

    select_filter_dimension(&mut app, FilterDimension::Protocol);
    app.open_filter_popup();
    let candidates = app
        .filter_popup_candidates()
        .expect("protocol popup should expose candidates");

    assert_eq!(
        candidates,
        &["arp".to_string(), "tcp".to_string(), "udp".to_string()]
    );
}

#[test]
fn protocol_filter_matches_arp_packets() {
    let mut app = App::with_packets(sample_packets_with_arp(), String::new());

    select_filter_dimension(&mut app, FilterDimension::Protocol);
    app.open_filter_popup();
    move_filter_popup_to_candidate(&mut app, "arp");
    app.toggle_filter_popup_selection();
    app.confirm_filter_popup();

    assert_eq!(app.filter_expression(), "protocol = arp");
    assert_eq!(app.packets().len(), 1);
    assert_eq!(app.packets()[0].protocol, "ARP");
}

#[test]
fn host_popup_candidates_are_narrowed_by_active_protocol_filter() {
    let mut app = App::with_packets(sample_packets_for_iterative_candidates(), String::new());

    select_filter_dimension(&mut app, FilterDimension::Protocol);
    app.open_filter_popup();
    move_filter_popup_to_candidate(&mut app, "icmp");
    app.toggle_filter_popup_selection();
    app.confirm_filter_popup();
    assert_eq!(app.filter_expression(), "protocol = icmp");

    select_filter_dimension(&mut app, FilterDimension::Host);
    app.open_filter_popup();
    let candidates = app
        .filter_popup_candidates()
        .expect("host popup should expose candidates");

    assert_eq!(
        candidates,
        &[
            "1.1.1.1".to_string(),
            "10.0.0.1".to_string(),
            "10.0.0.3".to_string(),
        ]
    );
}

#[test]
fn protocol_popup_candidates_respect_other_filters_while_editing_protocol_dimension() {
    let mut app = App::with_packets(sample_packets_for_iterative_candidates(), String::new());

    select_filter_dimension(&mut app, FilterDimension::Host);
    app.open_filter_popup();
    move_filter_popup_to_candidate(&mut app, "1.1.1.1");
    app.toggle_filter_popup_selection();
    app.confirm_filter_popup();
    assert_eq!(app.filter_expression(), "host = 1.1.1.1");

    select_filter_dimension(&mut app, FilterDimension::Protocol);
    app.open_filter_popup();
    move_filter_popup_to_candidate(&mut app, "icmp");
    app.toggle_filter_popup_selection();
    app.confirm_filter_popup();
    assert_eq!(
        app.filter_expression(),
        "host = 1.1.1.1 and protocol = icmp"
    );

    app.open_filter_popup();
    let candidates = app
        .filter_popup_candidates()
        .expect("protocol popup should expose candidates");
    assert_eq!(candidates, &["icmp".to_string(), "tcp".to_string()]);
}

#[test]
fn interface_popup_lists_unique_interfaces() {
    let mut app = App::with_packets(sample_packets_with_interfaces(), String::new());

    select_filter_dimension(&mut app, FilterDimension::Interface);
    assert_eq!(app.selected_filter_dimension(), FilterDimension::Interface);

    app.open_filter_popup();
    let candidates = app
        .filter_popup_candidates()
        .expect("interface popup should expose candidates");

    assert_eq!(candidates, &["en0".to_string(), "utun0".to_string()]);
}

#[test]
fn interface_filter_matches_selected_interface_only() {
    let mut app = App::with_packets(sample_packets_with_interfaces(), String::new());

    select_filter_dimension(&mut app, FilterDimension::Interface);
    app.open_filter_popup();
    app.toggle_filter_popup_selection();
    app.confirm_filter_popup();

    assert_eq!(app.filter_expression(), "interface = en0");
    assert_eq!(app.packets().len(), 2);
    assert!(app
        .packets()
        .iter()
        .all(|packet| packet.interface.as_deref() == Some("en0")));
}

#[test]
fn source_port_popup_lists_only_source_ports() {
    let mut app = App::with_packets(sample_packets(), String::new());

    select_filter_dimension(&mut app, FilterDimension::SourcePort);
    assert_eq!(app.selected_filter_dimension(), FilterDimension::SourcePort);

    app.open_filter_popup();
    let candidates = app
        .filter_popup_candidates()
        .expect("source port popup should expose candidates");
    assert_eq!(
        candidates,
        &[
            "34211".to_string(),
            "51544".to_string(),
            "60000".to_string(),
        ]
    );
}

#[test]
fn port_popup_lists_ports_in_numeric_order() {
    let mut app = App::with_packets(sample_packets(), String::new());

    select_filter_dimension(&mut app, FilterDimension::Port);
    assert_eq!(app.selected_filter_dimension(), FilterDimension::Port);

    app.open_filter_popup();
    let candidates = app
        .filter_popup_candidates()
        .expect("port popup should expose candidates");
    assert_eq!(
        candidates,
        &[
            "53".to_string(),
            "443".to_string(),
            "34211".to_string(),
            "51544".to_string(),
            "60000".to_string(),
        ]
    );
}

#[test]
fn destination_port_popup_lists_only_destination_ports() {
    let mut app = App::with_packets(sample_packets(), String::new());

    select_filter_dimension(&mut app, FilterDimension::DestinationPort);
    assert_eq!(
        app.selected_filter_dimension(),
        FilterDimension::DestinationPort
    );

    app.open_filter_popup();
    let candidates = app
        .filter_popup_candidates()
        .expect("destination port popup should expose candidates");
    assert_eq!(candidates, &["53".to_string(), "443".to_string()]);
}

#[test]
fn source_port_filter_matches_source_endpoint_only() {
    let mut app = App::with_packets(sample_packets(), String::new());

    select_filter_dimension(&mut app, FilterDimension::SourcePort);
    app.open_filter_popup();
    app.move_down();
    app.toggle_filter_popup_selection();
    app.confirm_filter_popup();

    assert_eq!(app.filter_expression(), "src port = 51544");
    assert_eq!(app.packets().len(), 1);
    assert_eq!(app.packets()[0].source, "10.0.0.12.51544");
}

#[test]
fn destination_port_filter_matches_destination_endpoint_only() {
    let mut app = App::with_packets(sample_packets(), String::new());

    select_filter_dimension(&mut app, FilterDimension::DestinationPort);
    app.open_filter_popup();
    app.move_down();
    app.toggle_filter_popup_selection();
    app.confirm_filter_popup();

    assert_eq!(app.filter_expression(), "dst port = 443");
    assert_eq!(app.packets().len(), 2);
    assert!(app
        .packets()
        .iter()
        .all(|packet| packet.destination.ends_with(".443")));
}

#[test]
fn ip_version_popup_lists_ipv4_and_ipv6_candidates() {
    let mut app = App::with_packets(sample_packets_with_ipv6(), String::new());

    select_filter_dimension(&mut app, FilterDimension::IpVersion);
    assert_eq!(app.selected_filter_dimension(), FilterDimension::IpVersion);

    app.open_filter_popup();
    let candidates = app
        .filter_popup_candidates()
        .expect("ip version popup should expose candidates");
    assert_eq!(candidates, &["ipv4".to_string(), "ipv6".to_string()]);
}

#[test]
fn ip_version_filter_matches_only_requested_address_family() {
    let mut app = App::with_packets(sample_packets_with_ipv6(), String::new());

    select_filter_dimension(&mut app, FilterDimension::IpVersion);
    app.open_filter_popup();
    app.move_down();
    app.toggle_filter_popup_selection();
    app.confirm_filter_popup();

    assert_eq!(app.filter_expression(), "ip version = ipv6");
    assert_eq!(app.packets().len(), 1);
    assert!(app.packets()[0].source.contains(':'));
}

#[test]
fn date_time_popup_supports_optional_start_and_end_inputs() {
    let mut app = App::with_packets(sample_packets(), String::new());

    select_filter_dimension(&mut app, FilterDimension::DateTime);
    assert_eq!(app.selected_filter_dimension(), FilterDimension::DateTime);

    app.open_filter_popup();
    assert!(app.is_filter_popup_date_time());
    assert_eq!(app.filter_popup_candidates(), None);
    assert_eq!(app.filter_popup_date_time_start_input(), Some(""));
    assert_eq!(app.filter_popup_date_time_end_input(), Some(""));
    assert_eq!(
        app.filter_popup_date_time_active_field(),
        Some(DateTimePopupField::Start)
    );
}

#[test]
fn date_time_filter_applies_inclusive_start_and_end_bounds() {
    let mut app = App::with_packets(sample_packets(), String::new());

    select_filter_dimension(&mut app, FilterDimension::DateTime);
    app.open_filter_popup();
    type_into_date_time_popup(&mut app, "1970-01-01 00:00:02.002000");
    app.filter_popup_switch_date_time_field();
    type_into_date_time_popup(&mut app, "1970-01-01 00:00:03.003000");
    app.confirm_filter_popup();

    assert_eq!(
        app.filter_expression(),
        "date time between [1970-01-01 00:00:02.002000 .. 1970-01-01 00:00:03.003000]"
    );
    assert_eq!(app.packets().len(), 2);
}

#[test]
fn date_time_filter_supports_only_start_or_only_end_bound() {
    let mut start_only_app = App::with_packets(sample_packets(), String::new());
    select_filter_dimension(&mut start_only_app, FilterDimension::DateTime);
    start_only_app.open_filter_popup();
    type_into_date_time_popup(&mut start_only_app, "1970-01-01 00:00:02.002000");
    start_only_app.confirm_filter_popup();

    assert_eq!(
        start_only_app.filter_expression(),
        "date time >= 1970-01-01 00:00:02.002000"
    );
    assert_eq!(start_only_app.packets().len(), 2);

    let mut end_only_app = App::with_packets(sample_packets(), String::new());
    select_filter_dimension(&mut end_only_app, FilterDimension::DateTime);
    end_only_app.open_filter_popup();
    end_only_app.filter_popup_switch_date_time_field();
    type_into_date_time_popup(&mut end_only_app, "1970-01-01 00:00:01.001000");
    end_only_app.confirm_filter_popup();

    assert_eq!(
        end_only_app.filter_expression(),
        "date time <= 1970-01-01 00:00:01.001000"
    );
    assert_eq!(end_only_app.packets().len(), 1);
}

#[test]
fn traffic_class_popup_lists_unicast_multicast_and_broadcast() {
    let mut app = App::with_packets(sample_packets_with_traffic_classes(), String::new());

    select_filter_dimension(&mut app, FilterDimension::TrafficClass);
    assert_eq!(
        app.selected_filter_dimension(),
        FilterDimension::TrafficClass
    );

    app.open_filter_popup();
    let candidates = app
        .filter_popup_candidates()
        .expect("traffic class popup should expose candidates");
    assert_eq!(
        candidates,
        &[
            "broadcast".to_string(),
            "multicast".to_string(),
            "unicast".to_string(),
        ]
    );
}

#[test]
fn traffic_class_filter_matches_broadcast_packets() {
    let mut app = App::with_packets(sample_packets_with_traffic_classes(), String::new());

    select_filter_dimension(&mut app, FilterDimension::TrafficClass);
    app.open_filter_popup();
    app.toggle_filter_popup_selection();
    app.confirm_filter_popup();

    assert_eq!(app.filter_expression(), "traffic class = broadcast");
    assert_eq!(app.packets().len(), 1);
    assert!(app.packets()[0].destination.starts_with("255.255.255.255"));
}

#[test]
fn icmp_type_popup_lists_unique_types() {
    let mut app = App::with_packets(sample_packets_with_icmp_types(), String::new());

    select_filter_dimension(&mut app, FilterDimension::IcmpType);
    assert_eq!(app.selected_filter_dimension(), FilterDimension::IcmpType);

    app.open_filter_popup();
    let candidates = app
        .filter_popup_candidates()
        .expect("icmp type popup should expose candidates");
    assert_eq!(
        candidates,
        &[
            "echo reply".to_string(),
            "echo request".to_string(),
            "neighbor solicitation".to_string(),
        ]
    );
}

#[test]
fn icmp_type_filter_matches_selected_type_only() {
    let mut app = App::with_packets(sample_packets_with_icmp_types(), String::new());

    select_filter_dimension(&mut app, FilterDimension::IcmpType);
    app.open_filter_popup();
    app.move_down();
    app.toggle_filter_popup_selection();
    app.confirm_filter_popup();

    assert_eq!(app.filter_expression(), "icmp type = echo request");
    assert_eq!(app.packets().len(), 1);
    assert!(app.packets()[0].summary.starts_with("ICMP echo request"));
}

#[test]
fn tcp_flags_popup_lists_unique_available_flags() {
    let mut app = App::with_packets(sample_packets(), String::new());

    select_filter_dimension(&mut app, FilterDimension::TcpFlags);
    assert_eq!(app.selected_filter_dimension(), FilterDimension::TcpFlags);

    app.open_filter_popup();
    let candidates = app
        .filter_popup_candidates()
        .expect("tcp flags popup should expose candidates");
    assert_eq!(
        candidates,
        &[
            "NS".to_string(),
            "CWR".to_string(),
            "ECE".to_string(),
            "URG".to_string(),
            "ACK".to_string(),
            "PSH".to_string(),
            "RST".to_string(),
            "SYN".to_string(),
            "FIN".to_string(),
        ]
    );
}

#[test]
fn tcp_flags_filter_matches_packets_by_selected_flag() {
    let mut app = App::with_packets(sample_packets(), String::new());

    select_filter_dimension(&mut app, FilterDimension::TcpFlags);
    assert_eq!(app.selected_filter_dimension(), FilterDimension::TcpFlags);

    app.open_filter_popup();
    let syn_index = app
        .filter_popup_candidates()
        .expect("tcp flags popup should expose candidates")
        .iter()
        .position(|candidate| candidate == "SYN")
        .expect("SYN flag should be present");
    for _ in 0..syn_index {
        app.move_down();
    }
    assert_eq!(app.filter_popup_selected_index(), Some(syn_index));
    app.toggle_filter_popup_selection();
    app.confirm_filter_popup();

    assert_eq!(app.filter_expression(), "tcp flags = SYN");
    assert_eq!(app.packets().len(), 1);
    assert!(app.packets()[0].summary.contains("Flags [S]"));
}

#[test]
fn tcp_flags_filter_matches_only_exact_ack_without_extra_flags() {
    let mut app = App::with_packets(sample_packets_with_tcp_flag_combinations(), String::new());

    select_filter_dimension(&mut app, FilterDimension::TcpFlags);
    app.open_filter_popup();
    move_filter_popup_to_candidate(&mut app, "ACK");
    app.toggle_filter_popup_selection();
    app.confirm_filter_popup();

    assert_eq!(app.filter_expression(), "tcp flags = ACK");
    assert_eq!(app.packets().len(), 1);
    assert!(app.packets()[0].summary.contains("Flags [.]"));
}

#[test]
fn tcp_flags_filter_matches_only_exact_syn_ack_set() {
    let mut app = App::with_packets(sample_packets_with_tcp_flag_combinations(), String::new());

    select_filter_dimension(&mut app, FilterDimension::TcpFlags);
    app.open_filter_popup();
    move_filter_popup_to_candidate(&mut app, "ACK");
    app.toggle_filter_popup_selection();
    move_filter_popup_to_candidate(&mut app, "SYN");
    app.toggle_filter_popup_selection();
    app.confirm_filter_popup();

    assert_eq!(app.filter_expression(), "tcp flags in [ACK, SYN]");
    assert_eq!(app.packets().len(), 1);
    assert!(app.packets()[0].summary.contains("Flags [S.]"));
}

#[test]
fn popup_confirm_without_selections_clears_active_filter() {
    let mut app = App::with_packets(sample_packets(), String::new());

    select_filter_dimension(&mut app, FilterDimension::Protocol);

    app.open_filter_popup();
    app.move_down();
    app.toggle_filter_popup_selection();
    app.confirm_filter_popup();

    assert_eq!(app.filter_expression(), "protocol = udp");
    assert_eq!(app.packets().len(), 1);

    app.open_filter_popup();
    app.toggle_filter_popup_selection();
    app.confirm_filter_popup();

    assert_eq!(app.filter_expression(), "");
    assert_eq!(app.packets().len(), 3);
}

#[test]
fn popup_clear_selection_removes_all_checked_values_for_dimension() {
    let mut app = App::with_packets(sample_packets(), String::new());

    select_filter_dimension(&mut app, FilterDimension::Protocol);
    assert_eq!(app.selected_filter_dimension(), FilterDimension::Protocol);

    app.open_filter_popup();
    app.toggle_filter_popup_selection();
    app.move_down();
    app.toggle_filter_popup_selection();
    app.clear_filter_popup_selection();
    app.confirm_filter_popup();

    assert_eq!(app.filter_expression(), "");
    assert_eq!(app.packets().len(), 3);
}

#[test]
fn changing_filter_dimension_preserves_applied_values() {
    let mut app = App::with_packets(sample_packets(), String::new());

    app.open_filter_popup();
    app.toggle_filter_popup_selection();
    app.confirm_filter_popup();
    assert_eq!(app.filter_expression(), "host = 1.1.1.1");
    assert_eq!(app.packets().len(), 2);

    app.next_filter_dimension();

    assert_eq!(app.selected_filter_dimension(), FilterDimension::Source);
    assert_eq!(app.filter_expression(), "host = 1.1.1.1");
    assert_eq!(app.packets().len(), 2);
}

#[test]
fn filters_across_dimensions_are_combined_with_and() {
    let mut app = App::with_packets(sample_packets(), String::new());

    app.open_filter_popup();
    app.toggle_filter_popup_selection();
    app.confirm_filter_popup();
    assert_eq!(app.filter_expression(), "host = 1.1.1.1");
    assert_eq!(app.packets().len(), 2);

    select_filter_dimension(&mut app, FilterDimension::Protocol);
    assert_eq!(app.selected_filter_dimension(), FilterDimension::Protocol);

    app.open_filter_popup();
    app.move_down();
    app.toggle_filter_popup_selection();
    app.confirm_filter_popup();

    assert_eq!(app.filter_expression(), "host = 1.1.1.1 and protocol = tcp");
    assert_eq!(app.packets().len(), 2);
}

#[test]
fn clear_all_filters_resets_all_categories() {
    let mut app = App::with_packets(sample_packets(), String::new());

    app.open_filter_popup();
    app.toggle_filter_popup_selection();
    app.confirm_filter_popup();
    assert_eq!(app.filter_expression(), "host = 1.1.1.1");

    select_filter_dimension(&mut app, FilterDimension::Protocol);
    app.open_filter_popup();
    app.move_down();
    app.toggle_filter_popup_selection();
    app.confirm_filter_popup();
    assert_eq!(app.filter_expression(), "host = 1.1.1.1 and protocol = tcp");
    assert_eq!(app.packets().len(), 2);

    app.clear_all_filters();

    assert_eq!(app.filter_expression(), "");
    assert_eq!(app.packets().len(), 3);
}

#[test]
fn clear_selected_filter_dimension_only_clears_current_category() {
    let mut app = App::with_packets(sample_packets(), String::new());

    app.open_filter_popup();
    app.toggle_filter_popup_selection();
    app.confirm_filter_popup();
    assert_eq!(app.filter_expression(), "host = 1.1.1.1");

    select_filter_dimension(&mut app, FilterDimension::Protocol);
    assert_eq!(app.selected_filter_dimension(), FilterDimension::Protocol);

    app.open_filter_popup();
    app.move_down();
    app.toggle_filter_popup_selection();
    app.confirm_filter_popup();
    assert_eq!(app.filter_expression(), "host = 1.1.1.1 and protocol = tcp");
    assert_eq!(app.packets().len(), 2);

    app.clear_selected_filter_dimension();

    assert_eq!(app.filter_expression(), "host = 1.1.1.1");
    assert_eq!(app.packets().len(), 2);
    assert!(app.is_filter_dimension_active(FilterDimension::Host));
    assert!(!app.is_filter_dimension_active(FilterDimension::Protocol));
}

#[test]
fn filter_dimension_active_state_reflects_applied_selections() {
    let mut app = App::with_packets(sample_packets(), String::new());

    assert!(!app.is_filter_dimension_active(FilterDimension::Host));
    assert!(!app.is_filter_dimension_active(FilterDimension::Protocol));

    app.open_filter_popup();
    app.toggle_filter_popup_selection();
    app.confirm_filter_popup();
    assert!(app.is_filter_dimension_active(FilterDimension::Host));
    assert!(!app.is_filter_dimension_active(FilterDimension::Protocol));

    select_filter_dimension(&mut app, FilterDimension::Protocol);
    assert_eq!(app.selected_filter_dimension(), FilterDimension::Protocol);

    app.open_filter_popup();
    app.move_down();
    app.toggle_filter_popup_selection();
    app.confirm_filter_popup();

    assert!(app.is_filter_dimension_active(FilterDimension::Host));
    assert!(app.is_filter_dimension_active(FilterDimension::Protocol));

    app.clear_all_filters();
    assert!(!app.is_filter_dimension_active(FilterDimension::Host));
    assert!(!app.is_filter_dimension_active(FilterDimension::Protocol));
}

#[test]
fn endpoint_host_keeps_plain_ipv4_without_port() {
    assert_eq!(endpoint_host("1.1.1.1"), "1.1.1.1");
    assert_eq!(endpoint_host("192.168.0.242"), "192.168.0.242");
}

#[test]
fn endpoint_port_ignores_plain_ipv4_without_port() {
    assert_eq!(endpoint_port("1.1.1.1"), None);
    assert_eq!(endpoint_port("192.168.0.242"), None);
}

#[test]
fn host_popup_includes_full_plain_ipv4_hosts() {
    let packets = vec![PacketSummary {
        timestamp: "1970-01-01 00:00:04.004000".to_string(),
        interface: None,
        source: "192.168.0.242".to_string(),
        destination: "1.1.1.1".to_string(),
        protocol: "ICMP".to_string(),
        length: 84,
        summary: "ICMP echo request".to_string(),
    }];
    let mut app = App::with_packets(packets, String::new());

    app.open_filter_popup();
    let candidates = app
        .filter_popup_candidates()
        .expect("host popup should expose candidates");

    assert_eq!(
        candidates,
        &["1.1.1.1".to_string(), "192.168.0.242".to_string()]
    );
}
