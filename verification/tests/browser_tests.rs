use lazytcp::app::{App, DateTimePopupField, FocusPane};
use lazytcp::cursor::{blink_step, initial_cursor, CursorBlink};
use lazytcp::domain::{FilterDimension, PacketSummary};
use lazytcp::keys::{KeyAction, KeyCode, KeyPress};

fn packet(timestamp: &str, source: &str, destination: &str, protocol: &str, summary: &str) -> PacketSummary {
    PacketSummary {
        timestamp: timestamp.to_string(),
        interface: None,
        source: source.to_string(),
        destination: destination.to_string(),
        protocol: protocol.to_string(),
        length: 0,
        summary: summary.to_string(),
    }
}

fn packets() -> Vec<PacketSummary> {
    vec![
        packet("1970-01-01 00:00:01.001000", "10.0.0.12.51544", "1.1.1.1.443", "TCP", "Flags [S], length 0"),
        packet("1970-01-01 00:00:02.002000", "10.0.0.12.34211", "8.8.8.8.53", "UDP", "UDP, length 0"),
        packet("1970-01-01 00:00:03.003000", "192.168.1.5.60000", "1.1.1.1.443", "TCP", "Flags [.], length 0"),
    ]
}

fn key(c: char) -> KeyPress {
    KeyPress { code: KeyCode::Char(c), control: false }
}

fn code(code: KeyCode) -> KeyPress {
    KeyPress { code, control: false }
}

#[test]
fn keys_drive_a_host_filter_from_the_filter_pane() {
    let mut app = App::with_packets(packets(), String::new());
    app.handle_key(code(KeyCode::Enter));
    assert!(app.is_filter_popup_open());
    app.handle_key(key(' '));
    app.handle_key(code(KeyCode::Enter));
    assert!(!app.is_filter_popup_open());
    assert_eq!(app.filter_expression(), "host = 1.1.1.1");
    assert_eq!(app.packets().len(), 2);
    app.handle_key(key('C'));
    assert_eq!(app.filter_expression(), "");
    assert_eq!(app.packets().len(), 3);
}

#[test]
fn keybindings_popup_takes_every_key_until_closed() {
    let mut app = App::with_packets(packets(), String::new());
    assert_eq!(app.key_action(key('?')), KeyAction::OpenKeybindings);
    app.handle_key(key('?'));
    assert!(app.is_keybindings_popup_open());
    assert_eq!(app.key_action(key('j')), KeyAction::Nothing);
    app.handle_key(key('j'));
    assert_eq!(app.selected_filter_dimension(), FilterDimension::Host);
    app.handle_key(code(KeyCode::Esc));
    assert!(!app.is_keybindings_popup_open());
    app.handle_key(KeyPress { code: KeyCode::Char('c'), control: true });
    assert!(app.should_quit());
}

#[test]
fn typing_in_a_search_goes_to_the_query_not_the_commands() {
    let mut app = App::with_packets(packets(), String::new());
    app.handle_key(code(KeyCode::Enter));
    app.handle_key(key('/'));
    assert!(app.is_filter_popup_search_active());
    assert_eq!(app.key_action(key('q')), KeyAction::Quit);
    app.handle_key(key('9'));
    assert_eq!(app.filter_popup_search_query(), Some("9"));
    assert_eq!(app.filter_popup_candidates().map(|c| c.len()), Some(1));
    app.handle_key(code(KeyCode::Backspace));
    assert_eq!(app.filter_popup_search_query(), Some(""));
    app.handle_key(code(KeyCode::Enter));
    assert!(!app.is_filter_popup_search_active());
    assert!(app.is_filter_popup_open());
    app.handle_key(code(KeyCode::Esc));
    assert!(!app.is_filter_popup_open());
    assert_eq!(app.filter_expression(), "");
}

#[test]
fn date_time_popup_takes_typed_characters_and_cancel_keys_in_order() {
    let mut app = App::with_packets(packets(), String::new());
    for _ in 0..10 {
        app.handle_key(key('j'));
    }
    assert_eq!(app.selected_filter_dimension(), FilterDimension::DateTime);
    app.handle_key(code(KeyCode::Enter));
    assert!(app.is_filter_popup_date_time());
    app.handle_key(key('1'));
    app.handle_key(key('x'));
    assert_eq!(app.filter_popup_date_time_start_input(), Some("1"));
    app.handle_key(code(KeyCode::Tab));
    assert_eq!(app.filter_popup_date_time_active_field(), Some(DateTimePopupField::End));
    assert_eq!(app.key_action(KeyPress { code: KeyCode::Char('['), control: true }), KeyAction::PopupInsertChar('['));
    app.handle_key(code(KeyCode::Esc));
    assert!(!app.is_filter_popup_open());
}

#[test]
fn tab_and_digits_move_focus_between_panes() {
    let mut app = App::with_packets(packets(), String::new());
    app.handle_key(code(KeyCode::Tab));
    assert_eq!(app.focus(), FocusPane::PacketList);
    app.handle_key(key('j'));
    assert_eq!(app.selected_packet_index(), 1);
    app.handle_key(code(KeyCode::BackTab));
    assert_eq!(app.focus(), FocusPane::FilterSelector);
    app.handle_key(key('1'));
    assert_eq!(app.focus(), FocusPane::PacketList);
    app.handle_key(key('0'));
    assert_eq!(app.focus(), FocusPane::FilterSelector);
    app.focus_filter_input();
    app.handle_key(code(KeyCode::Enter));
    assert_eq!(app.focus(), FocusPane::PacketList);
    app.handle_key(key('q'));
    assert!(app.should_quit());
}

#[test]
fn toggling_twice_selects_nothing() {
    let mut app = App::with_packets(packets(), String::new());
    app.open_filter_popup();
    app.toggle_filter_popup_selection();
    assert!(app.filter_popup_candidate_selected(0));
    app.toggle_filter_popup_selection();
    assert!(!app.filter_popup_candidate_selected(0));
    app.confirm_filter_popup();
    assert_eq!(app.filter_expression(), "");
    assert_eq!(app.packets().len(), 3);
}

#[test]
fn moving_down_then_up_returns_to_the_same_row() {
    let mut app = App::with_packets(packets(), String::new());
    app.open_filter_popup();
    let count = app.filter_popup_candidates().map(|c| c.len()).unwrap_or(0);
    app.move_up();
    assert_eq!(app.filter_popup_selected_index(), Some(count - 1));
    app.move_down();
    assert_eq!(app.filter_popup_selected_index(), Some(0));
    app.close_filter_popup();

    app.focus_packet_list();
    app.move_down();
    app.move_up();
    assert_eq!(app.selected_packet_index(), 0);
}

#[test]
fn applied_values_are_selected_when_the_popup_opens_again() {
    let mut app = App::with_packets(packets(), String::new());
    app.open_filter_popup();
    app.move_down();
    app.toggle_filter_popup_selection();
    app.confirm_filter_popup();
    assert_eq!(app.filter_expression(), "host = 10.0.0.12");

    app.open_filter_popup();
    assert!(!app.filter_popup_candidate_selected(0));
    assert!(app.filter_popup_candidate_selected(1));
    assert_eq!(app.filter_popup_selected_index(), Some(1));
}

#[test]
fn applied_date_time_bounds_come_back_trimmed() {
    let mut app = App::with_packets(packets(), String::new());
    for _ in 0..10 {
        app.next_filter_dimension();
    }
    app.open_filter_popup();
    for ch in "  1970-01-01 00:00:02.002000 ".chars() {
        app.filter_popup_insert_char(ch);
    }
    app.confirm_filter_popup();
    assert_eq!(app.filter_expression(), "date time >= 1970-01-01 00:00:02.002000");
    assert_eq!(app.packets().len(), 2);

    app.focus_filter_selector();
    app.open_filter_popup();
    assert_eq!(app.filter_popup_date_time_start_input(), Some("1970-01-01 00:00:02.002000"));
    assert_eq!(app.filter_popup_date_time_end_input(), Some(""));
}

#[test]
fn reversed_date_time_bounds_are_swapped() {
    let mut app = App::with_packets(packets(), String::new());
    for _ in 0..10 {
        app.next_filter_dimension();
    }
    app.open_filter_popup();
    for ch in "1970-01-01 00:00:03.003000".chars() {
        app.filter_popup_insert_char(ch);
    }
    app.filter_popup_switch_date_time_field();
    for ch in "1970-01-01 00:00:02.002000".chars() {
        app.filter_popup_insert_char(ch);
    }
    app.confirm_filter_popup();
    assert_eq!(
        app.filter_expression(),
        "date time between [1970-01-01 00:00:02.002000 .. 1970-01-01 00:00:03.003000]"
    );
    assert_eq!(app.packets().len(), 2);
}

#[test]
fn selected_packet_follows_a_shrinking_list() {
    let mut app = App::with_packets(packets(), String::new());
    app.focus_packet_list();
    app.next_packet();
    app.next_packet();
    assert_eq!(app.selected_packet_index(), 2);
    app.focus_filter_selector();
    app.open_filter_popup();
    app.move_down();
    app.toggle_filter_popup_selection();
    app.confirm_filter_popup();
    assert_eq!(app.packets().len(), 2);
    assert_eq!(app.selected_packet_index(), 1);
    assert_eq!(app.selected_packet().map(|p| p.source.clone()), Some("10.0.0.12.34211".to_string()));
}

#[test]
fn empty_browser_has_no_packets_and_no_selection() {
    let app = App::default();
    assert_eq!(app.packets().len(), 0);
    assert!(app.selected_packet().is_none());
    assert_eq!(app.filter_dimensions().len(), 13);
    assert!(!app.is_filter_popup_open());
    assert_eq!(app.filter_popup_dimension(), None);
}

#[test]
fn cursor_blinks_only_inside_the_date_time_popup() {
    let start = initial_cursor();
    assert_eq!(start, CursorBlink { visible: true, grey: false });
    let (inside, step) = blink_step(start, true, false);
    assert!(step.set_grey && step.show && !step.restart_timer);
    let (flipped, step) = blink_step(inside, true, true);
    assert!(!step.set_grey && !step.show && step.restart_timer);
    let (back, _) = blink_step(flipped, true, true);
    assert_eq!(back, inside);
    let (outside, step) = blink_step(back, false, false);
    assert!(step.reset_color && !step.show);
    assert_eq!(outside, start);
    let (_, step) = blink_step(outside, false, true);
    assert!(!step.reset_color);
}
