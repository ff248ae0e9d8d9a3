//! What a key press does to the browser.
use vstd::prelude::*;

use crate::app::{
    App, AppModel, FocusPane, popup_bound_erased, popup_bound_typed, popup_field_switched,
    popup_search_erased, popup_search_started, popup_search_stopped, popup_search_typed,
    popup_toggled,
};
use crate::domain::FilterDimension;

verus! {

/// The key of a key press.
#[derive(Debug, Clone, Copy, PartialEq, Eq)]
pub enum KeyCode {
    Char(char),
    Esc,
    Enter,
    Tab,
    BackTab,
    Backspace,
    Up,
    Down,
    /// Any key that the browser does not use.
    Other,
}

/// A key press: the key and whether Control was held.
#[derive(Debug, Clone, Copy, PartialEq, Eq)]
pub struct KeyPress {
    pub code: KeyCode,
    pub control: bool,
}

/// The change that a key press asks for.
#[derive(Debug, Clone, Copy, PartialEq, Eq)]
pub enum KeyAction {
    Quit,
    OpenKeybindings,
    CloseKeybindings,
    MoveDown,
    MoveUp,
    SwitchDateTimeField,
    PopupBackspace,
    PopupInsertChar(char),
    ClearPopupSelection,
    ClearAllFilters,
    ConfirmPopup,
    ClosePopup,
    StartSearch,
    SearchBackspace,
    SearchInsertChar(char),
    StopSearch,
    ToggleSelection,
    OpenPopup,
    ClearSelectedDimension,
    FocusPacketList,
    FocusFilterSelector,
    CycleFocus,
    ReverseCycleFocus,
    Nothing,
}

/// Escape, the escape character, and Control-[ cancel a popup.
pub open spec fn is_popup_cancel_key_spec(key: KeyPress) -> bool {
    key.code == KeyCode::Esc || key.code == KeyCode::Char('\u{1b}') || (key.code
        == KeyCode::Char('[') && key.control)
}

pub fn is_popup_cancel_key(key: KeyPress) -> (r: bool)
    ensures
        r == is_popup_cancel_key_spec(key),
{
    match key.code {
        KeyCode::Esc => true,
        KeyCode::Char(c) => c == '\u{1b}' || (c == '[' && key.control),
        _ => false,
    }
}

pub open spec fn is_ctrl_c(key: KeyPress) -> bool {
    key.code == KeyCode::Char('c') && key.control
}

/// The keys of the keybindings popup: Control-C and `q` quit; Escape,
/// Enter and `?` close it.
pub open spec fn keybindings_action(key: KeyPress) -> KeyAction {
    if is_ctrl_c(key) || key.code == KeyCode::Char('q') {
        KeyAction::Quit
    } else if key.code == KeyCode::Esc || key.code == KeyCode::Enter || key.code == KeyCode::Char(
        '?',
    ) {
        KeyAction::CloseKeybindings
    } else {
        KeyAction::Nothing
    }
}

/// The keys of the date-time popup.
pub open spec fn date_time_popup_action(key: KeyPress) -> KeyAction {
    if is_ctrl_c(key) || key.code == KeyCode::Char('q') {
        KeyAction::Quit
    } else if key.code == KeyCode::Char('j') || key.code == KeyCode::Down {
        KeyAction::MoveDown
    } else if key.code == KeyCode::Char('k') || key.code == KeyCode::Up {
        KeyAction::MoveUp
    } else if key.code == KeyCode::Tab || key.code == KeyCode::BackTab {
        KeyAction::SwitchDateTimeField
    } else if key.code == KeyCode::Backspace {
        KeyAction::PopupBackspace
    } else if key.code == KeyCode::Char('c') {
        KeyAction::ClearPopupSelection
    } else if key.code == KeyCode::Char('C') {
        KeyAction::ClearAllFilters
    } else if key.code == KeyCode::Enter {
        KeyAction::ConfirmPopup
    } else if key.code is Char {
        KeyAction::PopupInsertChar(key.code->Char_0)
    } else if is_popup_cancel_key_spec(key) {
        KeyAction::ClosePopup
    } else {
        KeyAction::Nothing
    }
}

/// The keys of a list popup; while a query is typed, characters go to it.
pub open spec fn list_popup_action(key: KeyPress, search_active: bool) -> KeyAction {
    if is_ctrl_c(key) || key.code == KeyCode::Char('q') {
        KeyAction::Quit
    } else if key.code == KeyCode::Char('j') || key.code == KeyCode::Down {
        KeyAction::MoveDown
    } else if key.code == KeyCode::Char('k') || key.code == KeyCode::Up {
        KeyAction::MoveUp
    } else if key.code == KeyCode::Char('/') {
        KeyAction::StartSearch
    } else if key.code == KeyCode::Backspace && search_active {
        KeyAction::SearchBackspace
    } else if key.code is Char && search_active {
        KeyAction::SearchInsertChar(key.code->Char_0)
    } else if key.code == KeyCode::Char(' ') {
        KeyAction::ToggleSelection
    } else if key.code == KeyCode::Char('c') {
        KeyAction::ClearPopupSelection
    } else if key.code == KeyCode::Char('C') && !search_active {
        KeyAction::ClearAllFilters
    } else if key.code == KeyCode::Enter && search_active {
        KeyAction::StopSearch
    } else if key.code == KeyCode::Enter {
        KeyAction::ConfirmPopup
    } else if is_popup_cancel_key_spec(key) {
        KeyAction::ClosePopup
    } else {
        KeyAction::Nothing
    }
}

/// The keys of the panes when no popup is open.
pub open spec fn pane_action(key: KeyPress, focus: FocusPane) -> KeyAction {
    if is_ctrl_c(key) {
        KeyAction::Quit
    } else if key.code == KeyCode::Enter && focus == FocusPane::FilterInput {
        KeyAction::FocusPacketList
    } else if key.code == KeyCode::Enter && focus == FocusPane::FilterSelector {
        KeyAction::OpenPopup
    } else if key.code == KeyCode::Char('c') && focus == FocusPane::FilterSelector {
        KeyAction::ClearSelectedDimension
    } else if key.code == KeyCode::Char('q') {
        KeyAction::Quit
    } else if key.code == KeyCode::Char('C') {
        KeyAction::ClearAllFilters
    } else if key.code == KeyCode::Char('0') || key.code == KeyCode::Char('/') {
        KeyAction::FocusFilterSelector
    } else if key.code == KeyCode::Char('1') {
        KeyAction::FocusPacketList
    } else if key.code == KeyCode::Char('j') || key.code == KeyCode::Down {
        KeyAction::MoveDown
    } else if key.code == KeyCode::Char('k') || key.code == KeyCode::Up {
        KeyAction::MoveUp
    } else if key.code == KeyCode::Tab {
        KeyAction::CycleFocus
    } else if key.code == KeyCode::BackTab {
        KeyAction::ReverseCycleFocus
    } else {
        KeyAction::Nothing
    }
}

/// What a key press asks for in state `m`: the keybindings popup takes
/// every key; `?` opens it; an open filter popup takes the keys next; the
/// panes take the rest.
pub open spec fn key_action_spec(m: AppModel, key: KeyPress) -> KeyAction {
    if m.keybindings_open {
        keybindings_action(key)
    } else if key.code == KeyCode::Char('?') {
        KeyAction::OpenKeybindings
    } else {
        match m.popup {
            Some(p) => if p.dimension == FilterDimension::DateTime {
                date_time_popup_action(key)
            } else {
                list_popup_action(
                    key,
                    p.state matches crate::app::PopupStateModel::MultiSelect { search_active, .. }
                        && search_active,
                )
            },
            None => pane_action(key, m.focus),
        }
    }
}

/// The state `new` is what `action` makes of `old`.
pub open spec fn action_effect(old: AppModel, new: AppModel, action: KeyAction) -> bool {
    match action {
        KeyAction::Quit => new == AppModel { should_quit: true, ..old },
        KeyAction::OpenKeybindings => new == AppModel { keybindings_open: true, ..old },
        KeyAction::CloseKeybindings => new == AppModel { keybindings_open: false, ..old },
        KeyAction::MoveDown => new == old.moved_down(),
        KeyAction::MoveUp => new == old.moved_up(),
        KeyAction::SwitchDateTimeField => new == AppModel {
            popup: popup_field_switched(old.popup),
            ..old
        },
        KeyAction::PopupBackspace => new == AppModel { popup: popup_bound_erased(old.popup), ..old },
        KeyAction::PopupInsertChar(ch) => new == AppModel {
            popup: popup_bound_typed(old.popup, ch),
            ..old
        },
        KeyAction::ClearPopupSelection => new == AppModel { popup: old.popup_cleared(), ..old },
        KeyAction::ClearAllFilters => new == old.all_filters_cleared(),
        KeyAction::ConfirmPopup => new == old.confirmed(),
        KeyAction::ClosePopup => new == AppModel { popup: None, ..old },
        KeyAction::StartSearch => new == AppModel { popup: popup_search_started(old.popup), ..old },
        KeyAction::SearchBackspace => new == AppModel {
            popup: popup_search_erased(old.popup),
            ..old
        },
        KeyAction::SearchInsertChar(ch) => new == AppModel {
            popup: popup_search_typed(old.popup, ch),
            ..old
        },
        KeyAction::StopSearch => new == AppModel { popup: popup_search_stopped(old.popup), ..old },
        KeyAction::ToggleSelection => new == AppModel { popup: popup_toggled(old.popup), ..old },
        KeyAction::OpenPopup => new.popup matches Some(p) && old.is_opened_popup(p) && new
            == AppModel { popup: new.popup, ..old },
        KeyAction::ClearSelectedDimension => new == old.selected_filter_cleared(),
        KeyAction::FocusPacketList => new == AppModel { focus: FocusPane::PacketList, ..old },
        KeyAction::FocusFilterSelector => new == AppModel {
            focus: FocusPane::FilterSelector,
            ..old
        },
        KeyAction::CycleFocus => new == (if old.popup is Some {
            old
        } else {
            AppModel { focus: crate::app::next_focus(old.focus), ..old }
        }),
        KeyAction::ReverseCycleFocus => new == (if old.popup is Some {
            old
        } else {
            AppModel { focus: crate::app::previous_focus(old.focus), ..old }
        }),
        KeyAction::Nothing => new == old,
    }
}

fn is_char(key: KeyPress, c: char) -> (r: bool)
    ensures
        r == (key.code == KeyCode::Char(c)),
{
    match key.code {
        KeyCode::Char(d) => d == c,
        _ => false,
    }
}

fn is_code(key: KeyPress, code: KeyCode) -> (r: bool)
    requires
        !(code is Char),
    ensures
        r == (key.code == code),
{
    match (key.code, code) {
        (KeyCode::Esc, KeyCode::Esc) => true,
        (KeyCode::Enter, KeyCode::Enter) => true,
        (KeyCode::Tab, KeyCode::Tab) => true,
        (KeyCode::BackTab, KeyCode::BackTab) => true,
        (KeyCode::Backspace, KeyCode::Backspace) => true,
        (KeyCode::Up, KeyCode::Up) => true,
        (KeyCode::Down, KeyCode::Down) => true,
        (KeyCode::Other, KeyCode::Other) => true,
        _ => false,
    }
}

impl App {
    /// What a key press asks for in the current state.
    pub fn key_action(&self, key: KeyPress) -> (r: KeyAction)
        ensures
            r == key_action_spec(self@, key),
    {
        let ctrl_c = is_char(key, 'c') && key.control;
        let quit = ctrl_c || is_char(key, 'q');
        if self.is_keybindings_popup_open() {
            return if quit {
                KeyAction::Quit
            } else if is_code(key, KeyCode::Esc) || is_code(key, KeyCode::Enter) || is_char(
                key,
                '?',
            ) {
                KeyAction::CloseKeybindings
            } else {
                KeyAction::Nothing
            };
        }
        if is_char(key, '?') {
            return KeyAction::OpenKeybindings;
        }
        let down = is_char(key, 'j') || is_code(key, KeyCode::Down);
        let up = is_char(key, 'k') || is_code(key, KeyCode::Up);
        let enter = is_code(key, KeyCode::Enter);
        if self.is_filter_popup_open() {
            if self.is_filter_popup_date_time() {
                return if quit {
                    KeyAction::Quit
                } else if down {
                    KeyAction::MoveDown
                } else if up {
                    KeyAction::MoveUp
                } else if is_code(key, KeyCode::Tab) || is_code(key, KeyCode::BackTab) {
                    KeyAction::SwitchDateTimeField
                } else if is_code(key, KeyCode::Backspace) {
                    KeyAction::PopupBackspace
                } else if is_char(key, 'c') {
                    KeyAction::ClearPopupSelection
                } else if is_char(key, 'C') {
                    KeyAction::ClearAllFilters
                } else if enter {
                    KeyAction::ConfirmPopup
                } else if let KeyCode::Char(ch) = key.code {
                    KeyAction::PopupInsertChar(ch)
                } else if is_popup_cancel_key(key) {
                    KeyAction::ClosePopup
                } else {
                    KeyAction::Nothing
                };
            }
            let searching = self.is_filter_popup_search_active();
            return if quit {
                KeyAction::Quit
            } else if down {
                KeyAction::MoveDown
            } else if up {
                KeyAction::MoveUp
            } else if is_char(key, '/') {
                KeyAction::StartSearch
            } else if is_code(key, KeyCode::Backspace) && searching {
                KeyAction::SearchBackspace
            } else if searching && matches!(key.code, KeyCode::Char(_)) {
                match key.code {
                    KeyCode::Char(ch) => KeyAction::SearchInsertChar(ch),
                    _ => KeyAction::Nothing,
                }
            } else if is_char(key, ' ') {
                KeyAction::ToggleSelection
            } else if is_char(key, 'c') {
                KeyAction::ClearPopupSelection
            } else if is_char(key, 'C') && !searching {
                KeyAction::ClearAllFilters
            } else if enter && searching {
                KeyAction::StopSearch
            } else if enter {
                KeyAction::ConfirmPopup
            } else if is_popup_cancel_key(key) {
                KeyAction::ClosePopup
            } else {
                KeyAction::Nothing
            };
        }
        let focus = self.focus();
        if ctrl_c {
            KeyAction::Quit
        } else if enter && focus == FocusPane::FilterInput {
            KeyAction::FocusPacketList
        } else if enter && focus == FocusPane::FilterSelector {
            KeyAction::OpenPopup
        } else if is_char(key, 'c') && focus == FocusPane::FilterSelector {
            KeyAction::ClearSelectedDimension
        } else if is_char(key, 'q') {
            KeyAction::Quit
        } else if is_char(key, 'C') {
            KeyAction::ClearAllFilters
        } else if is_char(key, '0') || is_char(key, '/') {
            KeyAction::FocusFilterSelector
        } else if is_char(key, '1') {
            KeyAction::FocusPacketList
        } else if down {
            KeyAction::MoveDown
        } else if up {
            KeyAction::MoveUp
        } else if is_code(key, KeyCode::Tab) {
            KeyAction::CycleFocus
        } else if is_code(key, KeyCode::BackTab) {
            KeyAction::ReverseCycleFocus
        } else {
            KeyAction::Nothing
        }
    }

    /// Makes the change that `action` asks for.
    pub fn apply_action(&mut self, action: KeyAction)
        requires
            old(self).inv(),
        ensures
            final(self).inv(),
            action_effect(old(self)@, final(self)@, action),
    {
        match action {
            KeyAction::Quit => self.quit(),
            KeyAction::OpenKeybindings => self.open_keybindings_popup(),
            KeyAction::CloseKeybindings => self.close_keybindings_popup(),
            KeyAction::MoveDown => self.move_down(),
            KeyAction::MoveUp => self.move_up(),
            KeyAction::SwitchDateTimeField => self.filter_popup_switch_date_time_field(),
            KeyAction::PopupBackspace => self.filter_popup_backspace(),
            KeyAction::PopupInsertChar(ch) => self.filter_popup_insert_char(ch),
            KeyAction::ClearPopupSelection => self.clear_filter_popup_selection(),
            KeyAction::ClearAllFilters => self.clear_all_filters(),
            KeyAction::ConfirmPopup => self.confirm_filter_popup(),
            KeyAction::ClosePopup => self.close_filter_popup(),
            KeyAction::StartSearch => self.start_filter_popup_search(),
            KeyAction::SearchBackspace => self.filter_popup_search_backspace(),
            KeyAction::SearchInsertChar(ch) => self.filter_popup_search_insert_char(ch),
            KeyAction::StopSearch => self.stop_filter_popup_search(),
            KeyAction::ToggleSelection => self.toggle_filter_popup_selection(),
            KeyAction::OpenPopup => self.open_filter_popup(),
            KeyAction::ClearSelectedDimension => self.clear_selected_filter_dimension(),
            KeyAction::FocusPacketList => self.focus_packet_list(),
            KeyAction::FocusFilterSelector => self.focus_filter_selector(),
            KeyAction::CycleFocus => self.cycle_focus(),
            KeyAction::ReverseCycleFocus => self.reverse_cycle_focus(),
            KeyAction::Nothing => {},
        }
    }

    /// Handles one key press.
    pub fn handle_key(&mut self, key: KeyPress)
        requires
            old(self).inv(),
        ensures
            final(self).inv(),
            action_effect(old(self)@, final(self)@, key_action_spec(old(self)@, key)),
    {
        let action = self.key_action(key);
        self.apply_action(action);
    }
}

} // verus!
