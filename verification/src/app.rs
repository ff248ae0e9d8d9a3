//! The state of the interactive packet browser and every change that a
//! key press can make to it.
use vstd::prelude::*;

use crate::capture::CaptureState;
use crate::domain::{
    FilterDimension, PacketSummary, SpecPacket, packets_view, selectable_dimensions,
};
use crate::filter::{
    active_view, decode_range, encode_range, filter_expression_spec, filtered_packets,
    is_candidate_list, normalize_bound, passes_dimension, passes_filters_except,
};
use crate::search::{first_index_in, kept_selected, refreshed_highlight, search_results};
use crate::text::{is_control, strings_view};

verus! {

#[derive(Debug, Clone, Copy, PartialEq, Eq, Structural)]
pub enum FocusPane {
    FilterSelector,
    PacketList,
    FilterInput,
    PacketDetail,
}

#[derive(Debug, Clone, Copy, PartialEq, Eq, Structural)]
pub enum DateTimePopupField {
    Start,
    End,
}

// ---------------------------------------------------------------------
// The model
// ---------------------------------------------------------------------

/// The model of an open filter popup's contents.
pub enum PopupStateModel {
    /// Choosing values from a list: every candidate, those that the search
    /// query keeps, the chosen values, the highlighted row, the query and
    /// whether it is being typed.
    MultiSelect {
        all_candidates: Seq<Seq<char>>,
        candidates: Seq<Seq<char>>,
        selected: Set<Seq<char>>,
        highlighted: nat,
        query: Seq<char>,
        search_active: bool,
    },
    /// Typing the two bounds of a date-time range.
    DateTimeRange { start: Seq<char>, end: Seq<char>, field: DateTimePopupField },
}

pub struct PopupModel {
    pub dimension: FilterDimension,
    pub state: PopupStateModel,
}

/// The model of the whole browser.
pub struct AppModel {
    pub should_quit: bool,
    pub focus: FocusPane,
    /// Every packet that was read.
    pub all_packets: Seq<SpecPacket>,
    /// The packets that the active filters keep, which the list shows.
    pub packets: Seq<SpecPacket>,
    pub selected_packet: nat,
    pub dimensions: Seq<FilterDimension>,
    pub selected_dimension: nat,
    /// The applied values of each dimension, by its position.
    pub active: Seq<Seq<Seq<char>>>,
    pub expression: Seq<char>,
    pub capture_state: CaptureState,
    pub popup: Option<PopupModel>,
    pub keybindings_open: bool,
}

/// The row that stays selected in a list of `len` rows.
pub open spec fn clamp_index(index: nat, len: nat) -> nat {
    if len == 0 {
        0
    } else if index < len {
        index
    } else {
        (len - 1) as nat
    }
}

/// The position of a dimension in the filter pane.
pub open spec fn dimension_index(d: FilterDimension) -> int {
    match d {
        FilterDimension::Host => 0,
        FilterDimension::Source => 1,
        FilterDimension::Destination => 2,
        FilterDimension::Interface => 3,
        FilterDimension::Port => 4,
        FilterDimension::SourcePort => 5,
        FilterDimension::DestinationPort => 6,
        FilterDimension::Protocol => 7,
        FilterDimension::TcpFlags => 8,
        FilterDimension::IpVersion => 9,
        FilterDimension::DateTime => 10,
        FilterDimension::TrafficClass => 11,
        FilterDimension::IcmpType => 12,
    }
}

pub proof fn lemma_dimension_index(d: FilterDimension)
    ensures
        0 <= dimension_index(d) < selectable_dimensions().len(),
        selectable_dimensions()[dimension_index(d)] == d,
{
}

impl PopupModel {
    /// A list popup keeps the query's matches as its candidates and its
    /// highlight on one of them.
    pub open spec fn wf(self) -> bool {
        &&& (self.dimension == FilterDimension::DateTime) == (self.state is DateTimeRange)
        &&& match self.state {
            PopupStateModel::MultiSelect { all_candidates, candidates, highlighted, query, .. } => {
                &&& candidates == search_results(all_candidates, query)
                &&& candidates.len() == 0 ==> highlighted == 0
                &&& candidates.len() > 0 ==> highlighted < candidates.len()
            },
            PopupStateModel::DateTimeRange { .. } => true,
        }
    }
}

impl AppModel {
    /// The packets shown are exactly those that pass every active filter,
    /// the expression is the one the active values make, and the selections
    /// point into their lists.
    pub open spec fn wf(self) -> bool {
        &&& self.dimensions == selectable_dimensions()
        &&& self.active.len() == self.dimensions.len()
        &&& self.selected_dimension < self.dimensions.len()
        &&& self.packets == filtered_packets(self.all_packets, self.dimensions, self.active, None)
        &&& self.selected_packet == clamp_index(self.selected_packet, self.packets.len())
        &&& self.expression == filter_expression_spec(self.dimensions, self.active)
        &&& self.capture_state == CaptureState::Idle
        &&& match self.popup {
            Some(p) => p.wf(),
            None => true,
        }
    }

    /// The state after the applied values changed to `active`: the list
    /// and expression follow them and the selected row is kept in range.
    pub open spec fn with_active(self, active: Seq<Seq<Seq<char>>>) -> AppModel {
        let packets = filtered_packets(self.all_packets, self.dimensions, active, None);
        AppModel {
            active,
            packets,
            selected_packet: clamp_index(self.selected_packet, packets.len()),
            expression: filter_expression_spec(self.dimensions, active),
            ..self
        }
    }

    /// The popup with its choices cleared: no selected values, or empty
    /// bounds.
    pub open spec fn popup_cleared(self) -> Option<PopupModel> {
        match self.popup {
            Some(p) => Some(
                PopupModel {
                    dimension: p.dimension,
                    state: match p.state {
                        PopupStateModel::MultiSelect {
                            all_candidates,
                            candidates,
                            highlighted,
                            query,
                            search_active,
                            ..
                        } => PopupStateModel::MultiSelect {
                            all_candidates,
                            candidates,
                            selected: Set::empty(),
                            highlighted,
                            query,
                            search_active,
                        },
                        PopupStateModel::DateTimeRange { field, .. } => PopupStateModel::DateTimeRange {
                            start: seq![],
                            end: seq![],
                            field,
                        },
                    },
                },
            ),
            None => None,
        }
    }
}

// ---------------------------------------------------------------------
// The state
// ---------------------------------------------------------------------

enum FilterPopupState {
    MultiSelect {
        all_candidates: Vec<String>,
        candidates: Vec<String>,
        selected_values: Vec<String>,
        highlighted_index: usize,
        search_query: String,
        search_active: bool,
    },
    DateTimeRange {
        start_input: String,
        end_input: String,
        active_field: DateTimePopupField,
    },
}

struct FilterPopup {
    dimension: FilterDimension,
    state: FilterPopupState,
}

spec fn popup_model(p: FilterPopup) -> PopupModel {
    PopupModel {
        dimension: p.dimension,
        state: match p.state {
            FilterPopupState::MultiSelect {
                all_candidates,
                candidates,
                selected_values,
                highlighted_index,
                search_query,
                search_active,
            } => PopupStateModel::MultiSelect {
                all_candidates: strings_view(all_candidates@),
                candidates: strings_view(candidates@),
                selected: strings_view(selected_values@).to_set(),
                highlighted: highlighted_index as nat,
                query: search_query@,
                search_active,
            },
            FilterPopupState::DateTimeRange { start_input, end_input, active_field } =>
                PopupStateModel::DateTimeRange {
                start: start_input@,
                end: end_input@,
                field: active_field,
            },
        },
    }
}

spec fn popup_option_model(p: Option<FilterPopup>) -> Option<PopupModel> {
    match p {
        Some(p) => Some(popup_model(p)),
        None => None,
    }
}

/// The selected values of a list popup are held once each.
spec fn popup_selection_distinct(p: Option<FilterPopup>) -> bool {
    match p {
        Some(p) => match p.state {
            FilterPopupState::MultiSelect { selected_values, .. } => strings_view(
                selected_values@,
            ).no_duplicates(),
            _ => true,
        },
        None => true,
    }
}

/// The packet browser.
pub struct App {
    should_quit: bool,
    focus: FocusPane,
    all_packets: Vec<PacketSummary>,
    packets: Vec<PacketSummary>,
    selected_packet: usize,
    filter_dimensions: Vec<FilterDimension>,
    selected_filter_dimension: usize,
    active_filter_values_by_dimension: Vec<Vec<String>>,
    filter_expression: String,
    capture_state: CaptureState,
    filter_popup: Option<FilterPopup>,
    keybindings_popup_open: bool,
}

impl View for App {
    type V = AppModel;

    closed spec fn view(&self) -> AppModel {
        AppModel {
            should_quit: self.should_quit,
            focus: self.focus,
            all_packets: packets_view(self.all_packets@),
            packets: packets_view(self.packets@),
            selected_packet: self.selected_packet as nat,
            dimensions: self.filter_dimensions@,
            selected_dimension: self.selected_filter_dimension as nat,
            active: active_view(self.active_filter_values_by_dimension@),
            expression: self.filter_expression@,
            capture_state: self.capture_state,
            popup: popup_option_model(self.filter_popup),
            keybindings_open: self.keybindings_popup_open,
        }
    }
}

/// No dimension has applied values.
pub open spec fn no_active_values(active: Seq<Seq<Seq<char>>>) -> bool {
    forall|i: int| 0 <= i < active.len() ==> (#[trigger] active[i]).len() == 0
}

/// With no applied values every packet is shown.
pub proof fn lemma_no_filters_keep_all(
    all: Seq<SpecPacket>,
    dims: Seq<FilterDimension>,
    active: Seq<Seq<Seq<char>>>,
)
    requires
        no_active_values(active),
    ensures
        filtered_packets(all, dims, active, None) == all,
    decreases all.len(),
{
    if all.len() > 0 {
        lemma_no_filters_keep_all(all.drop_last(), dims, active);
        assert(passes_filters_except(all.last(), dims, active, None)) by {
            assert forall|i: int| 0 <= i < dims.len() && i < active.len() implies passes_dimension(
                all.last(),
                #[trigger] dims[i],
                active[i],
            ) by {
                assert(active[i].len() == 0);
            }
        }
        assert(all.drop_last().push(all.last()) =~= all);
    }
}

/// With no applied values the filter expression is empty.
pub proof fn lemma_no_filters_empty_expression(
    dims: Seq<FilterDimension>,
    active: Seq<Seq<Seq<char>>>,
    n: int,
)
    requires
        no_active_values(active),
    ensures
        crate::filter::clauses_upto(dims, active, n) == Seq::<Seq<char>>::empty(),
    decreases n,
{
    if n > 0 {
        lemma_no_filters_empty_expression(dims, active, n - 1);
    }
}

impl App {
    /// The internal invariant: the model is well formed and a list popup
    /// holds each selected value once.
    pub closed spec fn inv(&self) -> bool {
        self@.wf() && popup_selection_distinct(self.filter_popup)
    }

    /// The invariant gives the well-formedness of the model.
    pub proof fn lemma_inv_wf(&self)
        requires
            self.inv(),
        ensures
            self@.wf(),
    {
    }

    /// An empty browser.
    pub fn new() -> (r: Self)
        ensures
            r.inv(),
            r@.all_packets == Seq::<SpecPacket>::empty(),
            r@.packets == Seq::<SpecPacket>::empty(),
            r@.focus == FocusPane::FilterSelector,
            !r@.should_quit,
            r@.selected_packet == 0,
            r@.selected_dimension == 0,
            no_active_values(r@.active),
            r@.expression == Seq::<char>::empty(),
            r@.popup is None,
            !r@.keybindings_open,
    {
        Self::with_packets(Vec::new(), String::new())
    }

    /// A browser over `packets`, with no filter applied; the filter text
    /// argument is not used.
    pub fn with_packets(packets: Vec<PacketSummary>, filter_input: String) -> (r: Self)
        ensures
            r.inv(),
            r@.all_packets == packets_view(packets@),
            r@.packets == packets_view(packets@),
            r@.focus == FocusPane::FilterSelector,
            !r@.should_quit,
            r@.selected_packet == 0,
            r@.selected_dimension == 0,
            no_active_values(r@.active),
            r@.expression == Seq::<char>::empty(),
            r@.popup is None,
            !r@.keybindings_open,
    {
        let filter_dimensions = FilterDimension::selectable();
        let mut active: Vec<Vec<String>> = Vec::new();
        let mut i: usize = 0;
        while i < filter_dimensions.len()
            invariant
                i <= filter_dimensions@.len(),
                active@.len() == i,
                forall|k: int| 0 <= k < i ==> (#[trigger] active@[k])@.len() == 0,
            decreases filter_dimensions@.len() - i,
        {
            active.push(Vec::new());
            i = i + 1;
        }
        let copy = copy_packets(&packets);
        let mut app = App {
            should_quit: false,
            focus: FocusPane::FilterSelector,
            all_packets: copy,
            packets,
            selected_packet: 0,
            filter_dimensions,
            selected_filter_dimension: 0,
            active_filter_values_by_dimension: active,
            filter_expression: String::new(),
            capture_state: CaptureState::Idle,
            filter_popup: None,
            keybindings_popup_open: false,
        };
        proof {
            assert(no_active_values(app@.active));
            lemma_no_filters_keep_all(app@.all_packets, app@.dimensions, app@.active);
            lemma_no_filters_empty_expression(app@.dimensions, app@.active, 13);
        }
        app.apply_active_filter();
        app
    }

    pub fn should_quit(&self) -> (r: bool)
        ensures
            r == self@.should_quit,
    {
        self.should_quit
    }

    pub fn quit(&mut self)
        ensures
            final(self)@ == (AppModel { should_quit: true, ..old(self)@ }),
            old(self).inv() ==> final(self).inv(),
    {
        self.should_quit = true;
    }

    /// The packets that the active filters keep.
    pub fn packets(&self) -> (r: &[PacketSummary])
        ensures
            packets_view(r@) == self@.packets,
    {
        self.packets.as_slice()
    }

    pub fn selected_packet_index(&self) -> (r: usize)
        ensures
            r as nat == self@.selected_packet,
    {
        self.selected_packet
    }

    /// The highlighted packet, if the list is not empty.
    pub fn selected_packet(&self) -> (r: Option<&PacketSummary>)
        ensures
            match r {
                Some(p) => self@.selected_packet < self@.packets.len() && p@
                    == self@.packets[self@.selected_packet as int],
                None => self@.selected_packet >= self@.packets.len(),
            },
    {
        if self.selected_packet < self.packets.len() {
            Some(&self.packets[self.selected_packet])
        } else {
            None
        }
    }

    pub fn filter_dimensions(&self) -> (r: &[FilterDimension])
        ensures
            r@ == self@.dimensions,
    {
        self.filter_dimensions.as_slice()
    }

    pub fn selected_filter_dimension_index(&self) -> (r: usize)
        ensures
            r as nat == self@.selected_dimension,
    {
        self.selected_filter_dimension
    }

    /// The dimension under the cursor of the filter pane (host where the
    /// cursor is past the list).
    pub fn selected_filter_dimension(&self) -> (r: FilterDimension)
        ensures
            r == (if self@.selected_dimension < self@.dimensions.len() {
                self@.dimensions[self@.selected_dimension as int]
            } else {
                FilterDimension::Host
            }),
    {
        if self.selected_filter_dimension < self.filter_dimensions.len() {
            self.filter_dimensions[self.selected_filter_dimension]
        } else {
            FilterDimension::Host
        }
    }

    pub fn filter_expression(&self) -> (r: &str)
        ensures
            r@ == self@.expression,
    {
        self.filter_expression.as_str()
    }

    /// Whether some value is applied along `dimension`.
    pub fn is_filter_dimension_active(&self, dimension: FilterDimension) -> (r: bool)
        ensures
            r == exists|i: int|
                0 <= i < self@.dimensions.len() && self@.dimensions[i] == dimension && (forall|
                    j: int,
                | 0 <= j < i ==> self@.dimensions[j] != dimension) && i < self@.active.len()
                    && self@.active[i].len() > 0,
    {
        let mut i: usize = 0;
        while i < self.filter_dimensions.len()
            invariant
                i <= self@.dimensions.len(),
                self@.dimensions == self.filter_dimensions@,
                forall|j: int| 0 <= j < i ==> self@.dimensions[j] != dimension,
            decreases self@.dimensions.len() - i,
        {
            if self.filter_dimensions[i] == dimension {
                let r = i < self.active_filter_values_by_dimension.len()
                    && self.active_filter_values_by_dimension[i].len() > 0;
                proof {
                    if i < self.active_filter_values_by_dimension@.len() {
                        assert(self@.active[i as int] == strings_view(
                            self.active_filter_values_by_dimension@[i as int]@,
                        ));
                    }
                    if !r {
                        assert forall|k: int|
                            0 <= k < self@.dimensions.len() && self@.dimensions[k] == dimension
                                && (forall|j: int| 0 <= j < k ==> self@.dimensions[j] != dimension)
                                implies !(k < self@.active.len() && self@.active[k].len()
                            > 0) by {
                            if k > i {
                                assert(self@.dimensions[i as int] == dimension);
                            }
                        }
                    }
                }
                return r;
            }
            i = i + 1;
        }
        false
    }

    pub fn is_filter_popup_open(&self) -> (r: bool)
        ensures
            r == self@.popup is Some,
    {
        self.filter_popup.is_some()
    }

    pub fn is_keybindings_popup_open(&self) -> (r: bool)
        ensures
            r == self@.keybindings_open,
    {
        self.keybindings_popup_open
    }

    pub fn open_keybindings_popup(&mut self)
        ensures
            final(self)@ == (AppModel { keybindings_open: true, ..old(self)@ }),
            old(self).inv() ==> final(self).inv(),
    {
        self.keybindings_popup_open = true;
    }

    pub fn close_keybindings_popup(&mut self)
        ensures
            final(self)@ == (AppModel { keybindings_open: false, ..old(self)@ }),
            old(self).inv() ==> final(self).inv(),
    {
        self.keybindings_popup_open = false;
    }

    pub fn focus_filter_input(&mut self)
        ensures
            final(self)@ == (AppModel { focus: FocusPane::FilterInput, ..old(self)@ }),
            old(self).inv() ==> final(self).inv(),
    {
        self.focus = FocusPane::FilterInput;
    }

    pub fn focus_filter_selector(&mut self)
        ensures
            final(self)@ == (AppModel { focus: FocusPane::FilterSelector, ..old(self)@ }),
            old(self).inv() ==> final(self).inv(),
    {
        self.focus = FocusPane::FilterSelector;
    }

    pub fn focus_packet_list(&mut self)
        ensures
            final(self)@ == (AppModel { focus: FocusPane::PacketList, ..old(self)@ }),
            old(self).inv() ==> final(self).inv(),
    {
        self.focus = FocusPane::PacketList;
    }

    pub fn focus(&self) -> (r: FocusPane)
        ensures
            r == self@.focus,
    {
        self.focus
    }

    pub fn capture_state(&self) -> (r: CaptureState)
        ensures
            r == self@.capture_state,
    {
        self.capture_state
    }

    /// Keeps the selected row inside the shown list.
    fn clamp_selected_packet(&mut self)
        ensures
            final(self)@ == (AppModel {
                selected_packet: clamp_index(old(self)@.selected_packet, old(self)@.packets.len()),
                ..old(self)@
            }),
            final(self).filter_popup == old(self).filter_popup,
    {
        if self.packets.len() == 0 {
            self.selected_packet = 0;
            return;
        }
        if self.selected_packet > self.packets.len() - 1 {
            self.selected_packet = self.packets.len() - 1;
        }
    }

    /// Shows the packets that pass the active filters.
    fn apply_active_filter(&mut self)
        ensures
            final(self)@ == old(self)@.with_active(old(self)@.active).with_expression(
                old(self)@.expression,
            ),
            final(self).filter_popup == old(self).filter_popup,
    {
        let mut all_empty = true;
        let mut i: usize = 0;
        while i < self.active_filter_values_by_dimension.len()
            invariant
                i <= self.active_filter_values_by_dimension@.len(),
                all_empty == forall|k: int|
                    0 <= k < i ==> (#[trigger] self.active_filter_values_by_dimension@[k])@.len()
                        == 0,
            decreases self.active_filter_values_by_dimension@.len() - i,
        {
            if self.active_filter_values_by_dimension[i].len() > 0 {
                all_empty = false;
            }
            i = i + 1;
        }
        if all_empty {
            proof {
                assert(no_active_values(self@.active));
                lemma_no_filters_keep_all(self@.all_packets, self@.dimensions, self@.active);
            }
            self.packets = copy_packets(&self.all_packets);
        } else {
            self.packets = crate::filter::filter_packets(
                &self.all_packets,
                &self.filter_dimensions,
                &self.active_filter_values_by_dimension,
                None,
            );
        }
        self.clamp_selected_packet();
    }
}

impl App {
    /// Moves the packet selection one row down, stopping at the last row.
    pub fn next_packet(&mut self)
        requires
            old(self).inv(),
        ensures
            final(self).inv(),
            final(self)@ == (AppModel {
                selected_packet: if old(self)@.packets.len() == 0 {
                    old(self)@.selected_packet
                } else {
                    clamp_index(old(self)@.selected_packet + 1, old(self)@.packets.len())
                },
                ..old(self)@
            }),
    {
        if self.packets.len() == 0 {
            return;
        }
        if self.selected_packet < self.packets.len() - 1 {
            self.selected_packet = self.selected_packet + 1;
        } else {
            self.selected_packet = self.packets.len() - 1;
        }
    }

    /// Moves the packet selection one row up, stopping at the first row.
    pub fn previous_packet(&mut self)
        requires
            old(self).inv(),
        ensures
            final(self).inv(),
            final(self)@ == (AppModel {
                selected_packet: if old(self)@.selected_packet == 0 {
                    0
                } else {
                    (old(self)@.selected_packet - 1) as nat
                },
                ..old(self)@
            }),
    {
        if self.selected_packet > 0 {
            self.selected_packet = self.selected_packet - 1;
        }
    }

    /// Moves the filter-pane cursor to `new_index`; a move closes the
    /// popup.
    fn update_filter_dimension(&mut self, new_index: usize)
        requires
            old(self).inv(),
            new_index < old(self)@.dimensions.len(),
        ensures
            final(self).inv(),
            final(self)@ == (if old(self)@.selected_dimension == new_index {
                old(self)@
            } else {
                AppModel { selected_dimension: new_index as nat, popup: None, ..old(self)@ }
            }),
    {
        if self.selected_filter_dimension == new_index {
            return;
        }
        self.selected_filter_dimension = new_index;
        self.filter_popup = None;
    }

    /// Moves the filter-pane cursor one row down, stopping at the last row.
    pub fn next_filter_dimension(&mut self)
        requires
            old(self).inv(),
        ensures
            final(self).inv(),
            final(self)@ == old(self)@.at_dimension(
                clamp_index(old(self)@.selected_dimension + 1, old(self)@.dimensions.len()),
            ),
    {
        if self.filter_dimensions.len() == 0 {
            return;
        }
        let last = self.filter_dimensions.len() - 1;
        let next = if self.selected_filter_dimension < last {
            self.selected_filter_dimension + 1
        } else {
            last
        };
        self.update_filter_dimension(next);
    }

    /// Moves the filter-pane cursor one row up, stopping at the first row.
    pub fn previous_filter_dimension(&mut self)
        requires
            old(self).inv(),
        ensures
            final(self).inv(),
            final(self)@ == old(self)@.at_dimension(
                if old(self)@.selected_dimension == 0 {
                    0
                } else {
                    (old(self)@.selected_dimension - 1) as nat
                },
            ),
    {
        let previous = if self.selected_filter_dimension > 0 {
            self.selected_filter_dimension - 1
        } else {
            0
        };
        self.update_filter_dimension(previous);
    }

    /// Tab: filter pane, packet list, packet detail, and round again; an
    /// open popup keeps the focus.
    pub fn cycle_focus(&mut self)
        requires
            old(self).inv(),
        ensures
            final(self).inv(),
            final(self)@ == (if old(self)@.popup is Some {
                old(self)@
            } else {
                AppModel { focus: next_focus(old(self)@.focus), ..old(self)@ }
            }),
    {
        if self.filter_popup.is_some() {
            return;
        }
        self.focus = match self.focus {
            FocusPane::FilterSelector => FocusPane::PacketList,
            FocusPane::PacketList => FocusPane::PacketDetail,
            FocusPane::PacketDetail => FocusPane::FilterSelector,
            FocusPane::FilterInput => FocusPane::PacketList,
        };
    }

    /// Shift-tab: the same round backwards.
    pub fn reverse_cycle_focus(&mut self)
        requires
            old(self).inv(),
        ensures
            final(self).inv(),
            final(self)@ == (if old(self)@.popup is Some {
                old(self)@
            } else {
                AppModel { focus: previous_focus(old(self)@.focus), ..old(self)@ }
            }),
    {
        if self.filter_popup.is_some() {
            return;
        }
        self.focus = match self.focus {
            FocusPane::FilterSelector => FocusPane::PacketDetail,
            FocusPane::FilterInput => FocusPane::FilterSelector,
            FocusPane::PacketDetail => FocusPane::PacketList,
            FocusPane::PacketList => FocusPane::FilterSelector,
        };
    }
}

pub open spec fn next_focus(f: FocusPane) -> FocusPane {
    match f {
        FocusPane::FilterSelector => FocusPane::PacketList,
        FocusPane::PacketList => FocusPane::PacketDetail,
        FocusPane::PacketDetail => FocusPane::FilterSelector,
        FocusPane::FilterInput => FocusPane::PacketList,
    }
}

pub open spec fn previous_focus(f: FocusPane) -> FocusPane {
    match f {
        FocusPane::FilterSelector => FocusPane::PacketDetail,
        FocusPane::FilterInput => FocusPane::FilterSelector,
        FocusPane::PacketDetail => FocusPane::PacketList,
        FocusPane::PacketList => FocusPane::FilterSelector,
    }
}

impl AppModel {
    /// The state with the filter-pane cursor at `index`: moving it closes
    /// the popup, staying does nothing.
    pub open spec fn at_dimension(self, index: nat) -> AppModel {
        if index == self.selected_dimension {
            self
        } else {
            AppModel { selected_dimension: index, popup: None, ..self }
        }
    }
}

impl App {
    /// The dimension whose popup is open.
    pub fn filter_popup_dimension(&self) -> (r: Option<FilterDimension>)
        ensures
            r == match self@.popup {
                Some(p) => Some(p.dimension),
                None => None,
            },
    {
        match &self.filter_popup {
            Some(popup) => Some(popup.dimension),
            None => None,
        }
    }

    /// Whether the open popup is that of the date-time range.
    pub fn is_filter_popup_date_time(&self) -> (r: bool)
        ensures
            r == (self@.popup matches Some(p) && p.dimension == FilterDimension::DateTime),
    {
        match &self.filter_popup {
            Some(popup) => popup.dimension == FilterDimension::DateTime,
            None => false,
        }
    }

    /// Whether a search query is being typed in a list popup.
    pub fn is_filter_popup_search_active(&self) -> (r: bool)
        ensures
            r == (self@.popup matches Some(p) && p.state matches PopupStateModel::MultiSelect {
                search_active,
                ..
            } && search_active),
    {
        match &self.filter_popup {
            Some(popup) => match &popup.state {
                FilterPopupState::MultiSelect { search_active, .. } => *search_active,
                _ => false,
            },
            None => false,
        }
    }

    /// The search query of a list popup.
    pub fn filter_popup_search_query(&self) -> (r: Option<&str>)
        ensures
            match r {
                Some(q) => self@.popup matches Some(p) && p.state matches PopupStateModel::MultiSelect {
                    query,
                    ..
                } && q@ == query,
                None => !(self@.popup matches Some(p) && p.state is MultiSelect),
            },
    {
        match &self.filter_popup {
            Some(popup) => match &popup.state {
                FilterPopupState::MultiSelect { search_query, .. } => Some(search_query.as_str()),
                _ => None,
            },
            None => None,
        }
    }

    /// The candidates that a list popup shows.
    pub fn filter_popup_candidates(&self) -> (r: Option<&[String]>)
        ensures
            match r {
                Some(c) => self@.popup matches Some(p) && p.state matches PopupStateModel::MultiSelect {
                    candidates,
                    ..
                } && strings_view(c@) == candidates,
                None => !(self@.popup matches Some(p) && p.state is MultiSelect),
            },
    {
        match &self.filter_popup {
            Some(popup) => match &popup.state {
                FilterPopupState::MultiSelect { candidates, .. } => Some(candidates.as_slice()),
                _ => None,
            },
            None => None,
        }
    }

    /// The highlighted row of a list popup.
    pub fn filter_popup_selected_index(&self) -> (r: Option<usize>)
        ensures
            match r {
                Some(i) => self@.popup matches Some(p) && p.state matches PopupStateModel::MultiSelect {
                    highlighted,
                    ..
                } && i as nat == highlighted,
                None => !(self@.popup matches Some(p) && p.state is MultiSelect),
            },
    {
        match &self.filter_popup {
            Some(popup) => match &popup.state {
                FilterPopupState::MultiSelect { highlighted_index, .. } => Some(*highlighted_index),
                _ => None,
            },
            None => None,
        }
    }

    /// Whether the candidate shown at row `index` of a list popup is
    /// selected.
    pub fn filter_popup_candidate_selected(&self, index: usize) -> (r: bool)
        ensures
            r == (self@.popup matches Some(p) && p.state matches PopupStateModel::MultiSelect {
                candidates,
                selected,
                ..
            } && index < candidates.len() && selected.contains(candidates[index as int])),
    {
        match &self.filter_popup {
            Some(popup) => match &popup.state {
                FilterPopupState::MultiSelect { candidates, selected_values, .. } => {
                    if index < candidates.len() {
                        let c = crate::text::chars_of(candidates[index].as_str());
                        let r = crate::search::list_contains(selected_values, &c);
                        proof {
                            let sv = strings_view(selected_values@);
                            assert(strings_view(candidates@)[index as int] == c@);
                            if sv.to_set().contains(c@) {
                                assert(sv.contains(c@));
                            }
                        }
                        r
                    } else {
                        false
                    }
                },
                _ => false,
            },
            None => false,
        }
    }

    /// The start bound typed in the date-time popup.
    pub fn filter_popup_date_time_start_input(&self) -> (r: Option<&str>)
        ensures
            match r {
                Some(v) => self@.popup matches Some(p) && p.state matches PopupStateModel::DateTimeRange {
                    start,
                    ..
                } && v@ == start,
                None => !(self@.popup matches Some(p) && p.state is DateTimeRange),
            },
    {
        match &self.filter_popup {
            Some(popup) => match &popup.state {
                FilterPopupState::DateTimeRange { start_input, .. } => Some(start_input.as_str()),
                _ => None,
            },
            None => None,
        }
    }

    /// The end bound typed in the date-time popup.
    pub fn filter_popup_date_time_end_input(&self) -> (r: Option<&str>)
        ensures
            match r {
                Some(v) => self@.popup matches Some(p) && p.state matches PopupStateModel::DateTimeRange {
                    end,
                    ..
                } && v@ == end,
                None => !(self@.popup matches Some(p) && p.state is DateTimeRange),
            },
    {
        match &self.filter_popup {
            Some(popup) => match &popup.state {
                FilterPopupState::DateTimeRange { end_input, .. } => Some(end_input.as_str()),
                _ => None,
            },
            None => None,
        }
    }

    /// The bound that typing goes to in the date-time popup.
    pub fn filter_popup_date_time_active_field(&self) -> (r: Option<DateTimePopupField>)
        ensures
            match r {
                Some(f) => self@.popup matches Some(p) && p.state matches PopupStateModel::DateTimeRange {
                    field,
                    ..
                } && f == field,
                None => !(self@.popup matches Some(p) && p.state is DateTimeRange),
            },
    {
        match &self.filter_popup {
            Some(popup) => match &popup.state {
                FilterPopupState::DateTimeRange { active_field, .. } => Some(*active_field),
                _ => None,
            },
            None => None,
        }
    }
}

/// A list popup whose query became `query`, with typing on or off: its
/// candidates narrowed anew and its highlight moved along.
pub open spec fn with_query(p: PopupModel, query: Seq<char>, active: bool) -> PopupModel {
    match p.state {
        PopupStateModel::MultiSelect { all_candidates, candidates, selected, highlighted, .. } => {
            let narrowed = search_results(all_candidates, query);
            PopupModel {
                dimension: p.dimension,
                state: PopupStateModel::MultiSelect {
                    all_candidates,
                    candidates: narrowed,
                    selected,
                    highlighted: refreshed_highlight(candidates, highlighted, narrowed, selected),
                    query,
                    search_active: active,
                },
            }
        },
        _ => p,
    }
}

/// The popup after the search starts: typing on, query empty.
pub open spec fn popup_search_started(o: Option<PopupModel>) -> Option<PopupModel> {
    match o {
        Some(p) => match p.state {
            PopupStateModel::MultiSelect { .. } => Some(with_query(p, seq![], true)),
            _ => o,
        },
        None => o,
    }
}

/// The popup after `ch` is typed into the search query; control
/// characters, and typing while the search is off, change nothing.
pub open spec fn popup_search_typed(o: Option<PopupModel>, ch: char) -> Option<PopupModel> {
    match o {
        Some(p) => match p.state {
            PopupStateModel::MultiSelect { query, search_active, .. } => if !is_control(ch)
                && search_active {
                Some(with_query(p, query.push(ch), true))
            } else {
                o
            },
            _ => o,
        },
        None => o,
    }
}

/// The popup after the last character of the search query is erased.
pub open spec fn popup_search_erased(o: Option<PopupModel>) -> Option<PopupModel> {
    match o {
        Some(p) => match p.state {
            PopupStateModel::MultiSelect { query, search_active, .. } => if search_active {
                Some(
                    with_query(
                        p,
                        if query.len() > 0 {
                            query.drop_last()
                        } else {
                            query
                        },
                        true,
                    ),
                )
            } else {
                o
            },
            _ => o,
        },
        None => o,
    }
}

/// The popup after typing the search query ends.
pub open spec fn popup_search_stopped(o: Option<PopupModel>) -> Option<PopupModel> {
    match o {
        Some(p) => match p.state {
            PopupStateModel::MultiSelect {
                all_candidates,
                candidates,
                selected,
                highlighted,
                query,
                ..
            } => Some(
                PopupModel {
                    dimension: p.dimension,
                    state: PopupStateModel::MultiSelect {
                        all_candidates,
                        candidates,
                        selected,
                        highlighted,
                        query,
                        search_active: false,
                    },
                },
            ),
            _ => o,
        },
        None => o,
    }
}

/// The popup after the highlighted candidate is selected or unselected.
pub open spec fn popup_toggled(o: Option<PopupModel>) -> Option<PopupModel> {
    match o {
        Some(p) => match p.state {
            PopupStateModel::MultiSelect {
                all_candidates,
                candidates,
                selected,
                highlighted,
                query,
                search_active,
            } => if highlighted < candidates.len() {
                let c = candidates[highlighted as int];
                Some(
                    PopupModel {
                        dimension: p.dimension,
                        state: PopupStateModel::MultiSelect {
                            all_candidates,
                            candidates,
                            selected: if selected.contains(c) {
                                selected.remove(c)
                            } else {
                                selected.insert(c)
                            },
                            highlighted,
                            query,
                            search_active,
                        },
                    },
                )
            } else {
                o
            },
            _ => o,
        },
        None => o,
    }
}

/// The popup after tab in the date-time popup: typing goes to the other
/// bound.
pub open spec fn popup_field_switched(o: Option<PopupModel>) -> Option<PopupModel> {
    match o {
        Some(p) => match p.state {
            PopupStateModel::DateTimeRange { start, end, field } => Some(
                PopupModel {
                    dimension: p.dimension,
                    state: PopupStateModel::DateTimeRange {
                        start,
                        end,
                        field: match field {
                            DateTimePopupField::Start => DateTimePopupField::End,
                            DateTimePopupField::End => DateTimePopupField::Start,
                        },
                    },
                },
            ),
            _ => o,
        },
        None => o,
    }
}

/// The characters that a date-time bound may hold.
pub open spec fn is_allowed_date_time_char(ch: char) -> bool {
    ('0' <= ch && ch <= '9') || ch == '-' || ch == ':' || ch == '.' || ch == ' '
}

/// The date-time popup after `ch` is typed into the bound being edited;
/// other characters change nothing.
pub open spec fn popup_bound_typed(o: Option<PopupModel>, ch: char) -> Option<PopupModel> {
    match o {
        Some(p) => match p.state {
            PopupStateModel::DateTimeRange { start, end, field } => if is_allowed_date_time_char(
                ch,
            ) {
                Some(
                    PopupModel {
                        dimension: p.dimension,
                        state: match field {
                            DateTimePopupField::Start => PopupStateModel::DateTimeRange {
                                start: start.push(ch),
                                end,
                                field,
                            },
                            DateTimePopupField::End => PopupStateModel::DateTimeRange {
                                start,
                                end: end.push(ch),
                                field,
                            },
                        },
                    },
                )
            } else {
                o
            },
            _ => o,
        },
        None => o,
    }
}

pub open spec fn drop_last_char(s: Seq<char>) -> Seq<char> {
    if s.len() > 0 {
        s.drop_last()
    } else {
        s
    }
}

/// The date-time popup after the last character of the bound being
/// edited is erased.
pub open spec fn popup_bound_erased(o: Option<PopupModel>) -> Option<PopupModel> {
    match o {
        Some(p) => match p.state {
            PopupStateModel::DateTimeRange { start, end, field } => Some(
                PopupModel {
                    dimension: p.dimension,
                    state: match field {
                        DateTimePopupField::Start => PopupStateModel::DateTimeRange {
                            start: drop_last_char(start),
                            end,
                            field,
                        },
                        DateTimePopupField::End => PopupStateModel::DateTimeRange {
                            start,
                            end: drop_last_char(end),
                            field,
                        },
                    },
                },
            ),
            _ => o,
        },
        None => o,
    }
}

pub proof fn lemma_refreshed_highlight_in_range(
    old: Seq<Seq<char>>,
    h: nat,
    new: Seq<Seq<char>>,
    selected: Set<Seq<char>>,
)
    ensures
        new.len() == 0 ==> refreshed_highlight(old, h, new, selected) == 0,
        new.len() > 0 ==> refreshed_highlight(old, h, new, selected) < new.len(),
{
    crate::search::lemma_first_index_in_range(new, selected, 0);
    if h < old.len() {
        crate::search::lemma_first_index_in_range(new, set![old[h as int]], 0);
    }
}

/// Removing the one occurrence of `x` from a list without repeats removes
/// `x` from its set.
proof fn lemma_remove_distinct(s: Seq<Seq<char>>, k: int)
    requires
        s.no_duplicates(),
        0 <= k < s.len(),
    ensures
        s.remove(k).no_duplicates(),
        s.remove(k).to_set() == s.to_set().remove(s[k]),
{
    let r = s.remove(k);
    assert forall|i: int, j: int| 0 <= i < r.len() && 0 <= j < r.len() && i != j implies r[i]
        != r[j] by {
        let a = if i < k { i } else { i + 1 };
        let b = if j < k { j } else { j + 1 };
        assert(r[i] == s[a] && r[j] == s[b]);
    }
    assert forall|y: Seq<char>| r.to_set().contains(y) <==> s.to_set().remove(s[k]).contains(y) by {
        if r.contains(y) {
            let i = choose|i: int| 0 <= i < r.len() && r[i] == y;
            let a = if i < k { i } else { i + 1 };
            assert(s[a] == y);
            assert(a != k);
        }
        if s.to_set().remove(s[k]).contains(y) {
            let a = choose|a: int| 0 <= a < s.len() && s[a] == y;
            assert(a != k);
            if a < k {
                assert(r[a] == y);
            } else {
                assert(r[a - 1] == y);
            }
        }
    }
    assert(r.to_set() =~= s.to_set().remove(s[k]));
}

impl App {
    /// Starts typing a search query in a list popup: the query is cleared
    /// and the candidates widened again.
    pub fn start_filter_popup_search(&mut self)
        requires
            old(self).inv(),
        ensures
            final(self).inv(),
            final(self)@ == (AppModel { popup: popup_search_started(old(self)@.popup), ..old(self)@ }),
    {
        let popup = self.filter_popup.take();
        match popup {
            Some(FilterPopup { dimension, state }) => match state {
                FilterPopupState::MultiSelect {
                    all_candidates,
                    mut candidates,
                    selected_values,
                    mut highlighted_index,
                    search_query: _,
                    search_active: _,
                } => {
                    let query = String::new();
                    let empty: Vec<char> = Vec::new();
                    let ghost old_candidates = strings_view(candidates@);
                    let ghost old_highlight = highlighted_index as nat;
                    crate::search::refresh_popup_search_candidates(
                        &all_candidates,
                        &mut candidates,
                        &selected_values,
                        &mut highlighted_index,
                        &empty,
                    );
                    proof {
                        lemma_refreshed_highlight_in_range(
                            old_candidates,
                            old_highlight,
                            strings_view(candidates@),
                            strings_view(selected_values@).to_set(),
                        );
                    }
                    self.filter_popup = Some(
                        FilterPopup {
                            dimension,
                            state: FilterPopupState::MultiSelect {
                                all_candidates,
                                candidates,
                                selected_values,
                                highlighted_index,
                                search_query: query,
                                search_active: true,
                            },
                        },
                    );
                },
                other => {
                    self.filter_popup = Some(FilterPopup { dimension, state: other });
                },
            },
            None => {},
        }
    }
}

impl App {
    /// Types `ch` into the search query of a list popup and narrows the
    /// candidates.
    pub fn filter_popup_search_insert_char(&mut self, ch: char)
        requires
            old(self).inv(),
        ensures
            final(self).inv(),
            final(self)@ == (AppModel {
                popup: popup_search_typed(old(self)@.popup, ch),
                ..old(self)@
            }),
    {
        if crate::text::char_is_control(ch) {
            return;
        }
        let popup = self.filter_popup.take();
        match popup {
            Some(FilterPopup { dimension, state }) => match state {
                FilterPopupState::MultiSelect {
                    all_candidates,
                    mut candidates,
                    selected_values,
                    mut highlighted_index,
                    mut search_query,
                    search_active,
                } => {
                    if search_active {
                        crate::text::string_push(&mut search_query, ch);
                        let query = crate::text::chars_of(search_query.as_str());
                        let ghost old_candidates = strings_view(candidates@);
                        let ghost old_highlight = highlighted_index as nat;
                        crate::search::refresh_popup_search_candidates(
                            &all_candidates,
                            &mut candidates,
                            &selected_values,
                            &mut highlighted_index,
                            &query,
                        );
                        proof {
                            lemma_refreshed_highlight_in_range(
                                old_candidates,
                                old_highlight,
                                strings_view(candidates@),
                                strings_view(selected_values@).to_set(),
                            );
                        }
                    }
                    self.filter_popup = Some(
                        FilterPopup {
                            dimension,
                            state: FilterPopupState::MultiSelect {
                                all_candidates,
                                candidates,
                                selected_values,
                                highlighted_index,
                                search_query,
                                search_active,
                            },
                        },
                    );
                },
                other => {
                    self.filter_popup = Some(FilterPopup { dimension, state: other });
                },
            },
            None => {},
        }
    }

    /// Erases the last character of the search query of a list popup and
    /// widens the candidates.
    pub fn filter_popup_search_backspace(&mut self)
        requires
            old(self).inv(),
        ensures
            final(self).inv(),
            final(self)@ == (AppModel { popup: popup_search_erased(old(self)@.popup), ..old(self)@ }),
    {
        let popup = self.filter_popup.take();
        match popup {
            Some(FilterPopup { dimension, state }) => match state {
                FilterPopupState::MultiSelect {
                    all_candidates,
                    mut candidates,
                    selected_values,
                    mut highlighted_index,
                    mut search_query,
                    search_active,
                } => {
                    if search_active {
                        crate::text::pop_last_char(&mut search_query);
                        let query = crate::text::chars_of(search_query.as_str());
                        let ghost old_candidates = strings_view(candidates@);
                        let ghost old_highlight = highlighted_index as nat;
                        crate::search::refresh_popup_search_candidates(
                            &all_candidates,
                            &mut candidates,
                            &selected_values,
                            &mut highlighted_index,
                            &query,
                        );
                        proof {
                            lemma_refreshed_highlight_in_range(
                                old_candidates,
                                old_highlight,
                                strings_view(candidates@),
                                strings_view(selected_values@).to_set(),
                            );
                        }
                    }
                    self.filter_popup = Some(
                        FilterPopup {
                            dimension,
                            state: FilterPopupState::MultiSelect {
                                all_candidates,
                                candidates,
                                selected_values,
                                highlighted_index,
                                search_query,
                                search_active,
                            },
                        },
                    );
                },
                other => {
                    self.filter_popup = Some(FilterPopup { dimension, state: other });
                },
            },
            None => {},
        }
    }

    /// Ends typing the search query; the popup stays open.
    pub fn stop_filter_popup_search(&mut self)
        requires
            old(self).inv(),
        ensures
            final(self).inv(),
            final(self)@ == (AppModel { popup: popup_search_stopped(old(self)@.popup), ..old(self)@ }),
    {
        let popup = self.filter_popup.take();
        match popup {
            Some(FilterPopup { dimension, state }) => match state {
                FilterPopupState::MultiSelect {
                    all_candidates,
                    candidates,
                    selected_values,
                    highlighted_index,
                    search_query,
                    search_active: _,
                } => {
                    self.filter_popup = Some(
                        FilterPopup {
                            dimension,
                            state: FilterPopupState::MultiSelect {
                                all_candidates,
                                candidates,
                                selected_values,
                                highlighted_index,
                                search_query,
                                search_active: false,
                            },
                        },
                    );
                },
                other => {
                    self.filter_popup = Some(FilterPopup { dimension, state: other });
                },
            },
            None => {},
        }
    }

    /// Selects the highlighted candidate of a list popup, or unselects it
    /// where it was selected.
    pub fn toggle_filter_popup_selection(&mut self)
        requires
            old(self).inv(),
        ensures
            final(self).inv(),
            final(self)@ == (AppModel { popup: popup_toggled(old(self)@.popup), ..old(self)@ }),
    {
        let popup = self.filter_popup.take();
        match popup {
            Some(FilterPopup { dimension, state }) => match state {
                FilterPopupState::MultiSelect {
                    all_candidates,
                    candidates,
                    mut selected_values,
                    highlighted_index,
                    search_query,
                    search_active,
                } => {
                    if highlighted_index < candidates.len() {
                        let c = crate::text::chars_of(candidates[highlighted_index].as_str());
                        let ghost before = strings_view(selected_values@);
                        assert(strings_view(candidates@)[highlighted_index as int] == c@);
                        match crate::search::index_of(&selected_values, &c) {
                            Some(k) => {
                                proof {
                                    crate::search::lemma_first_index_in_range(
                                        before,
                                        set![c@],
                                        0,
                                    );
                                    lemma_remove_distinct(before, k as int);
                                }
                                selected_values.remove(k);
                                assert(strings_view(selected_values@) =~= before.remove(k as int));
                                assert(before.to_set().contains(c@)) by {
                                    assert(before[k as int] == c@);
                                }
                            },
                            None => {
                                proof {
                                    assert(!before.contains(c@)) by {
                                        if before.contains(c@) {
                                            let j = choose|j: int|
                                                0 <= j < before.len() && before[j] == c@;
                                            lemma_first_index_found(before, set![c@], 0, j);
                                        }
                                    }
                                    before.lemma_push_to_set_commute(c@);
                                }
                                selected_values.push(crate::text::string_of(&c));
                                assert(strings_view(selected_values@) =~= before.push(c@));
                                proof {
                                    assert forall|i: int, j: int|
                                        0 <= i < before.len() + 1 && 0 <= j < before.len() + 1
                                            && i != j implies before.push(c@)[i] != before.push(
                                        c@,
                                    )[j] by {
                                        if i == before.len() {
                                            assert(before.contains(before[j]));
                                        } else if j == before.len() {
                                            assert(before.contains(before[i]));
                                        }
                                    }
                                }
                            },
                        }
                    }
                    self.filter_popup = Some(
                        FilterPopup {
                            dimension,
                            state: FilterPopupState::MultiSelect {
                                all_candidates,
                                candidates,
                                selected_values,
                                highlighted_index,
                                search_query,
                                search_active,
                            },
                        },
                    );
                },
                other => {
                    self.filter_popup = Some(FilterPopup { dimension, state: other });
                },
            },
            None => {},
        }
    }

    /// Moves typing to the other bound of the date-time popup.
    pub fn filter_popup_switch_date_time_field(&mut self)
        requires
            old(self).inv(),
        ensures
            final(self).inv(),
            final(self)@ == (AppModel { popup: popup_field_switched(old(self)@.popup), ..old(self)@ }),
    {
        let popup = self.filter_popup.take();
        match popup {
            Some(FilterPopup { dimension, state }) => match state {
                FilterPopupState::DateTimeRange { start_input, end_input, active_field } => {
                    let next = match active_field {
                        DateTimePopupField::Start => DateTimePopupField::End,
                        DateTimePopupField::End => DateTimePopupField::Start,
                    };
                    self.filter_popup = Some(
                        FilterPopup {
                            dimension,
                            state: FilterPopupState::DateTimeRange {
                                start_input,
                                end_input,
                                active_field: next,
                            },
                        },
                    );
                },
                other => {
                    self.filter_popup = Some(FilterPopup { dimension, state: other });
                },
            },
            None => {},
        }
    }

    /// Types `ch` into the bound being edited, where a date-time bound may
    /// hold it.
    pub fn filter_popup_insert_char(&mut self, ch: char)
        requires
            old(self).inv(),
        ensures
            final(self).inv(),
            final(self)@ == (AppModel { popup: popup_bound_typed(old(self)@.popup, ch), ..old(self)@ }),
    {
        let popup = self.filter_popup.take();
        match popup {
            Some(FilterPopup { dimension, state }) => match state {
                FilterPopupState::DateTimeRange { mut start_input, mut end_input, active_field } => {
                    let allowed = ('0' <= ch && ch <= '9') || ch == '-' || ch == ':' || ch == '.'
                        || ch == ' ';
                    if allowed {
                        match active_field {
                            DateTimePopupField::Start => crate::text::string_push(
                                &mut start_input,
                                ch,
                            ),
                            DateTimePopupField::End => crate::text::string_push(&mut end_input, ch),
                        }
                    }
                    self.filter_popup = Some(
                        FilterPopup {
                            dimension,
                            state: FilterPopupState::DateTimeRange {
                                start_input,
                                end_input,
                                active_field,
                            },
                        },
                    );
                },
                other => {
                    self.filter_popup = Some(FilterPopup { dimension, state: other });
                },
            },
            None => {},
        }
    }

    /// Erases the last character of the bound being edited.
    pub fn filter_popup_backspace(&mut self)
        requires
            old(self).inv(),
        ensures
            final(self).inv(),
            final(self)@ == (AppModel { popup: popup_bound_erased(old(self)@.popup), ..old(self)@ }),
    {
        let popup = self.filter_popup.take();
        match popup {
            Some(FilterPopup { dimension, state }) => match state {
                FilterPopupState::DateTimeRange { mut start_input, mut end_input, active_field } => {
                    match active_field {
                        DateTimePopupField::Start => crate::text::pop_last_char(&mut start_input),
                        DateTimePopupField::End => crate::text::pop_last_char(&mut end_input),
                    }
                    self.filter_popup = Some(
                        FilterPopup {
                            dimension,
                            state: FilterPopupState::DateTimeRange {
                                start_input,
                                end_input,
                                active_field,
                            },
                        },
                    );
                },
                other => {
                    self.filter_popup = Some(FilterPopup { dimension, state: other });
                },
            },
            None => {},
        }
    }

    /// Closes the popup without applying it.
    pub fn close_filter_popup(&mut self)
        requires
            old(self).inv(),
        ensures
            final(self).inv(),
            final(self)@ == (AppModel { popup: None, ..old(self)@ }),
    {
        self.filter_popup = None;
    }

    /// Clears the choices of the open popup: its selected values, or its
    /// bounds.
    pub fn clear_filter_popup_selection(&mut self)
        requires
            old(self).inv(),
        ensures
            final(self).inv(),
            final(self)@ == (AppModel { popup: old(self)@.popup_cleared(), ..old(self)@ }),
    {
        self.clear_popup_choices();
    }

    fn clear_popup_choices(&mut self)
        requires
            popup_selection_distinct(old(self).filter_popup),
            match popup_option_model(old(self).filter_popup) {
                Some(p) => p.wf(),
                None => true,
            },
        ensures
            popup_selection_distinct(final(self).filter_popup),
            final(self)@ == (AppModel { popup: old(self)@.popup_cleared(), ..old(self)@ }),
    {
        let popup = self.filter_popup.take();
        match popup {
            Some(FilterPopup { dimension, state }) => match state {
                FilterPopupState::MultiSelect {
                    all_candidates,
                    candidates,
                    selected_values: _,
                    highlighted_index,
                    search_query,
                    search_active,
                } => {
                    let cleared: Vec<String> = Vec::new();
                    assert(strings_view(cleared@).to_set() =~= Set::empty());
                    assert(strings_view(cleared@) =~= seq![]);
                    self.filter_popup = Some(
                        FilterPopup {
                            dimension,
                            state: FilterPopupState::MultiSelect {
                                all_candidates,
                                candidates,
                                selected_values: cleared,
                                highlighted_index,
                                search_query,
                                search_active,
                            },
                        },
                    );
                },
                FilterPopupState::DateTimeRange { start_input: _, end_input: _, active_field } => {
                    self.filter_popup = Some(
                        FilterPopup {
                            dimension,
                            state: FilterPopupState::DateTimeRange {
                                start_input: String::new(),
                                end_input: String::new(),
                                active_field,
                            },
                        },
                    );
                },
            },
            None => {},
        }
    }
}

/// A list with an element of `sel` at or after `i` has a first such
/// element there.
proof fn lemma_first_index_found(s: Seq<Seq<char>>, sel: Set<Seq<char>>, i: int, j: int)
    requires
        0 <= i <= j < s.len(),
        sel.contains(s[j]),
    ensures
        first_index_in(s, sel, i) is Some,
    decreases j - i,
{
    if i < j && !sel.contains(s[i]) {
        lemma_first_index_found(s, sel, i + 1, j);
    }
}

/// A list popup with its highlight at `h`.
pub open spec fn popup_with_highlight(p: PopupModel, h: nat) -> PopupModel {
    match p.state {
        PopupStateModel::MultiSelect {
            all_candidates,
            candidates,
            selected,
            query,
            search_active,
            ..
        } => PopupModel {
            dimension: p.dimension,
            state: PopupStateModel::MultiSelect {
                all_candidates,
                candidates,
                selected,
                highlighted: h,
                query,
                search_active,
            },
        },
        _ => p,
    }
}

/// A date-time popup with typing going to `field`.
pub open spec fn popup_with_field(p: PopupModel, field: DateTimePopupField) -> PopupModel {
    match p.state {
        PopupStateModel::DateTimeRange { start, end, .. } => PopupModel {
            dimension: p.dimension,
            state: PopupStateModel::DateTimeRange { start, end, field },
        },
        _ => p,
    }
}

impl AppModel {
    pub open spec fn next_packet_model(self) -> AppModel {
        AppModel {
            selected_packet: if self.packets.len() == 0 {
                self.selected_packet
            } else {
                clamp_index(self.selected_packet + 1, self.packets.len())
            },
            ..self
        }
    }

    pub open spec fn previous_packet_model(self) -> AppModel {
        AppModel {
            selected_packet: if self.selected_packet == 0 {
                0
            } else {
                (self.selected_packet - 1) as nat
            },
            ..self
        }
    }

    /// Down or `j`: in a list popup the highlight moves down and wraps to
    /// the top; in the date-time popup typing goes to the end bound;
    /// otherwise the focused list moves down.
    pub open spec fn moved_down(self) -> AppModel {
        match self.popup {
            Some(p) => match p.state {
                PopupStateModel::MultiSelect { candidates, highlighted, .. } => if candidates.len()
                    == 0 {
                    self
                } else {
                    AppModel {
                        popup: Some(
                            popup_with_highlight(p, (highlighted + 1) % candidates.len()),
                        ),
                        ..self
                    }
                },
                PopupStateModel::DateTimeRange { .. } => AppModel {
                    popup: Some(popup_with_field(p, DateTimePopupField::End)),
                    ..self
                },
            },
            None => match self.focus {
                FocusPane::FilterSelector => self.at_dimension(
                    clamp_index(self.selected_dimension + 1, self.dimensions.len()),
                ),
                FocusPane::PacketList => self.next_packet_model(),
                _ => self,
            },
        }
    }

    /// Up or `k`: in a list popup the highlight moves up and wraps to the
    /// bottom; in the date-time popup typing goes to the start bound;
    /// otherwise the focused list moves up.
    pub open spec fn moved_up(self) -> AppModel {
        match self.popup {
            Some(p) => match p.state {
                PopupStateModel::MultiSelect { candidates, highlighted, .. } => if candidates.len()
                    == 0 {
                    self
                } else {
                    AppModel {
                        popup: Some(
                            popup_with_highlight(
                                p,
                                if highlighted == 0 {
                                    (candidates.len() - 1) as nat
                                } else {
                                    (highlighted - 1) as nat
                                },
                            ),
                        ),
                        ..self
                    }
                },
                PopupStateModel::DateTimeRange { .. } => AppModel {
                    popup: Some(popup_with_field(p, DateTimePopupField::Start)),
                    ..self
                },
            },
            None => match self.focus {
                FocusPane::FilterSelector => self.at_dimension(
                    if self.selected_dimension == 0 {
                        0
                    } else {
                        (self.selected_dimension - 1) as nat
                    },
                ),
                FocusPane::PacketList => self.previous_packet_model(),
                _ => self,
            },
        }
    }

    /// `C`: every applied value and the popup's choices are cleared.
    pub open spec fn all_filters_cleared(self) -> AppModel {
        AppModel { popup: self.popup_cleared(), ..self }.with_active(
            Seq::new(self.active.len(), |i: int| Seq::<Seq<char>>::empty()),
        )
    }

    /// `c` on the filter pane: the values of the dimension under the cursor
    /// and the popup's choices are cleared.
    pub open spec fn selected_filter_cleared(self) -> AppModel {
        AppModel { popup: self.popup_cleared(), ..self }.with_active(
            if self.selected_dimension < self.active.len() {
                self.active.update(self.selected_dimension as int, seq![])
            } else {
                self.active
            },
        )
    }

    /// The dimension under the cursor of the filter pane.
    pub open spec fn cursor_dimension(self) -> FilterDimension {
        if self.selected_dimension < self.dimensions.len() {
            self.dimensions[self.selected_dimension as int]
        } else {
            FilterDimension::Host
        }
    }

    /// The values applied along the dimension under the cursor.
    pub open spec fn cursor_values(self) -> Seq<Seq<char>> {
        if self.selected_dimension < self.active.len() {
            self.active[self.selected_dimension as int]
        } else {
            seq![]
        }
    }

    /// What the popup opened on the dimension under the cursor holds: for
    /// the date-time range, the applied bounds; for the others, the values
    /// that the packets passing the other dimensions' filters offer, the
    /// applied values selected, the first of them highlighted and no query.
    pub open spec fn is_opened_popup(self, p: PopupModel) -> bool {
        let d = self.cursor_dimension();
        let values = self.cursor_values();
        &&& p.dimension == d
        &&& if d == FilterDimension::DateTime {
            let (start, end) = decode_range(values);
            p.state == PopupStateModel::DateTimeRange {
                start: match start {
                    Some(v) => v,
                    None => seq![],
                },
                end: match end {
                    Some(v) => v,
                    None => seq![],
                },
                field: DateTimePopupField::Start,
            }
        } else {
            p.state matches PopupStateModel::MultiSelect {
                all_candidates,
                candidates,
                selected,
                highlighted,
                query,
                search_active,
            } && is_candidate_list(
                all_candidates,
                filtered_packets(self.all_packets, self.dimensions, self.active, Some(d)),
                d,
            ) && candidates == all_candidates && selected == values.to_set() && highlighted == (
            match first_index_in(all_candidates, selected, 0) {
                Some(i) => i as nat,
                None => 0,
            }) && query == Seq::<char>::empty() && !search_active
        }
    }

    /// Enter in a popup: its choices become the applied values of its
    /// dimension, the list and expression follow, and the popup closes;
    /// focus goes to the filter pane after a list popup and to the packet
    /// list after the date-time popup.
    pub open spec fn confirmed(self) -> AppModel {
        match self.popup {
            None => self,
            Some(p) => {
                let values = match p.state {
                    PopupStateModel::MultiSelect { all_candidates, selected, .. } => kept_selected(
                        all_candidates,
                        selected,
                    ),
                    PopupStateModel::DateTimeRange { start, end, .. } => encode_range(
                        normalize_bound(start),
                        normalize_bound(end),
                    ),
                };
                let focus = match p.state {
                    PopupStateModel::MultiSelect { .. } => FocusPane::FilterSelector,
                    PopupStateModel::DateTimeRange { .. } => FocusPane::PacketList,
                };
                let idx = dimension_index(p.dimension);
                let active = if idx < self.active.len() {
                    self.active.update(idx, values)
                } else {
                    self.active
                };
                AppModel { popup: None, focus, ..self }.with_active(active)
            },
        }
    }
}

/// An empty query keeps every candidate.
pub proof fn lemma_empty_query_keeps_all(all: Seq<Seq<char>>)
    ensures
        search_results(all, seq![]) == all,
    decreases all.len(),
{
    if all.len() > 0 {
        lemma_empty_query_keeps_all(all.drop_last());
        let x = ascii_lower_of(all.last());
        assert(crate::text::matches_at(x, crate::text::ascii_lower(seq![]), 0)) by {
            assert(crate::text::ascii_lower(seq![]) =~= Seq::<char>::empty());
            assert(x.subrange(0, 0) =~= Seq::<char>::empty());
        }
        assert(all.drop_last().push(all.last()) =~= all);
    }
}

spec fn ascii_lower_of(s: Seq<char>) -> Seq<char> {
    crate::text::ascii_lower(s)
}

/// Each selected value once.
fn distinct_values(values: &[String]) -> (r: Vec<String>)
    ensures
        strings_view(r@).no_duplicates(),
        strings_view(r@).to_set() == strings_view(values@).to_set(),
{
    let mut r: Vec<String> = Vec::new();
    let mut i: usize = 0;
    while i < values.len()
        invariant
            i <= values@.len(),
            strings_view(r@).no_duplicates(),
            strings_view(r@).to_set() == strings_view(values@.take(i as int)).to_set(),
        decreases values@.len() - i,
    {
        let item = crate::text::chars_of(values[i].as_str());
        let ghost before = strings_view(r@);
        let ghost t = strings_view(values@.take(i + 1));
        assert(t =~= strings_view(values@.take(i as int)).push(item@));
        proof {
            strings_view(values@.take(i as int)).lemma_push_to_set_commute(item@);
        }
        if !crate::search::list_contains(&r, &item) {
            r.push(crate::text::string_of(&item));
            assert(strings_view(r@) =~= before.push(item@));
            proof {
                before.lemma_push_to_set_commute(item@);
                assert forall|a: int, b: int|
                    0 <= a < before.len() + 1 && 0 <= b < before.len() + 1 && a != b implies before.push(
                    item@,
                )[a] != before.push(item@)[b] by {
                    if a == before.len() {
                        assert(before.contains(before[b]));
                    } else if b == before.len() {
                        assert(before.contains(before[a]));
                    }
                }
            }
        } else {
            assert(before.to_set().contains(item@));
            assert(before.to_set().insert(item@) =~= before.to_set());
        }
        i = i + 1;
    }
    assert(values@.take(values@.len() as int) =~= values@);
    r
}

/// A copy of each string.
fn copy_strings(v: &[String]) -> (r: Vec<String>)
    ensures
        strings_view(r@) == strings_view(v@),
{
    let mut r: Vec<String> = Vec::new();
    let mut i: usize = 0;
    while i < v.len()
        invariant
            i <= v@.len(),
            strings_view(r@) == strings_view(v@.take(i as int)),
        decreases v@.len() - i,
    {
        let ghost before = r@;
        r.push(v[i].clone());
        assert(strings_view(r@) =~= strings_view(before).push(v@[i as int]@));
        assert(strings_view(v@.take(i + 1)) =~= strings_view(v@.take(i as int)).push(
            v@[i as int]@,
        ));
        i = i + 1;
    }
    assert(v@.take(v@.len() as int) =~= v@);
    r
}

/// The position of a dimension in the filter pane.
fn dimension_position(d: FilterDimension) -> (r: usize)
    ensures
        r == dimension_index(d),
{
    match d {
        FilterDimension::Host => 0,
        FilterDimension::Source => 1,
        FilterDimension::Destination => 2,
        FilterDimension::Interface => 3,
        FilterDimension::Port => 4,
        FilterDimension::SourcePort => 5,
        FilterDimension::DestinationPort => 6,
        FilterDimension::Protocol => 7,
        FilterDimension::TcpFlags => 8,
        FilterDimension::IpVersion => 9,
        FilterDimension::DateTime => 10,
        FilterDimension::TrafficClass => 11,
        FilterDimension::IcmpType => 12,
    }
}

impl App {
    pub fn move_down(&mut self)
        requires
            old(self).inv(),
        ensures
            final(self).inv(),
            final(self)@ == old(self)@.moved_down(),
    {
        let popup = self.filter_popup.take();
        match popup {
            Some(FilterPopup { dimension, state }) => {
                match state {
                    FilterPopupState::MultiSelect {
                        all_candidates,
                        candidates,
                        selected_values,
                        mut highlighted_index,
                        search_query,
                        search_active,
                    } => {
                        if candidates.len() > 0 {
                            highlighted_index = (highlighted_index + 1) % candidates.len();
                        }
                        self.filter_popup = Some(
                            FilterPopup {
                                dimension,
                                state: FilterPopupState::MultiSelect {
                                    all_candidates,
                                    candidates,
                                    selected_values,
                                    highlighted_index,
                                    search_query,
                                    search_active,
                                },
                            },
                        );
                    },
                    FilterPopupState::DateTimeRange { start_input, end_input, active_field: _ } => {
                        self.filter_popup = Some(
                            FilterPopup {
                                dimension,
                                state: FilterPopupState::DateTimeRange {
                                    start_input,
                                    end_input,
                                    active_field: DateTimePopupField::End,
                                },
                            },
                        );
                    },
                }
                return;
            },
            None => {},
        }
        match self.focus {
            FocusPane::FilterSelector => self.next_filter_dimension(),
            FocusPane::PacketList => self.next_packet(),
            FocusPane::FilterInput | FocusPane::PacketDetail => {},
        }
    }

    pub fn move_up(&mut self)
        requires
            old(self).inv(),
        ensures
            final(self).inv(),
            final(self)@ == old(self)@.moved_up(),
    {
        let popup = self.filter_popup.take();
        match popup {
            Some(FilterPopup { dimension, state }) => {
                match state {
                    FilterPopupState::MultiSelect {
                        all_candidates,
                        candidates,
                        selected_values,
                        mut highlighted_index,
                        search_query,
                        search_active,
                    } => {
                        if candidates.len() > 0 {
                            highlighted_index = if highlighted_index == 0 {
                                candidates.len() - 1
                            } else {
                                highlighted_index - 1
                            };
                        }
                        self.filter_popup = Some(
                            FilterPopup {
                                dimension,
                                state: FilterPopupState::MultiSelect {
                                    all_candidates,
                                    candidates,
                                    selected_values,
                                    highlighted_index,
                                    search_query,
                                    search_active,
                                },
                            },
                        );
                    },
                    FilterPopupState::DateTimeRange { start_input, end_input, active_field: _ } => {
                        self.filter_popup = Some(
                            FilterPopup {
                                dimension,
                                state: FilterPopupState::DateTimeRange {
                                    start_input,
                                    end_input,
                                    active_field: DateTimePopupField::Start,
                                },
                            },
                        );
                    },
                }
                return;
            },
            None => {},
        }
        match self.focus {
            FocusPane::FilterSelector => self.previous_filter_dimension(),
            FocusPane::PacketList => self.previous_packet(),
            FocusPane::FilterInput | FocusPane::PacketDetail => {},
        }
    }

    /// Clears every applied value and the popup's choices.
    pub fn clear_all_filters(&mut self)
        requires
            old(self).inv(),
        ensures
            final(self).inv(),
            final(self)@ == old(self)@.all_filters_cleared(),
    {
        let ghost start = self@;
        let ghost popup0 = self.filter_popup;
        let mut i: usize = 0;
        while i < self.active_filter_values_by_dimension.len()
            invariant
                i <= self.active_filter_values_by_dimension@.len(),
                self.active_filter_values_by_dimension@.len() == start.active.len(),
                forall|k: int|
                    0 <= k < i ==> (#[trigger] self.active_filter_values_by_dimension@[k])@.len()
                        == 0,
                self.filter_popup == popup0,
                self@ == (AppModel { active: self@.active, ..start }),
            decreases self.active_filter_values_by_dimension@.len() - i,
        {
            self.active_filter_values_by_dimension.set(i, Vec::new());
            i = i + 1;
        }
        let ghost cleared = Seq::new(start.active.len(), |k: int| Seq::<Seq<char>>::empty());
        proof {
            assert forall|k: int| 0 <= k < cleared.len() implies self@.active[k] == cleared[k] by {
                assert(self@.active[k] == strings_view(self.active_filter_values_by_dimension@[k]@));
                assert(strings_view(self.active_filter_values_by_dimension@[k]@) =~= Seq::<
                    Seq<char>,
                >::empty());
            }
            assert(self@.active =~= cleared);
        }
        self.filter_expression = String::new();
        self.clear_popup_choices();
        proof {
            assert(no_active_values(cleared));
            lemma_no_filters_empty_expression(
                self@.dimensions,
                cleared,
                self@.dimensions.len() as int,
            );
        }
        self.apply_active_filter();
    }

    /// Clears the applied values of the dimension under the cursor and the
    /// popup's choices.
    pub fn clear_selected_filter_dimension(&mut self)
        requires
            old(self).inv(),
        ensures
            final(self).inv(),
            final(self)@ == old(self)@.selected_filter_cleared(),
    {
        if self.selected_filter_dimension < self.active_filter_values_by_dimension.len() {
            let empty: Vec<String> = Vec::new();
            assert(strings_view(empty@) =~= Seq::<Seq<char>>::empty());
            self.active_filter_values_by_dimension.set(self.selected_filter_dimension, empty);
            proof {
                let old_active = old(self)@.active;
                let idx = old(self)@.selected_dimension as int;
                assert forall|k: int| 0 <= k < old_active.len() implies self@.active[k]
                    == old_active.update(idx, seq![])[k] by {
                    if k == idx {
                        assert(self.active_filter_values_by_dimension@[k] == empty);
                    }
                }
                assert(self@.active =~= old_active.update(idx, seq![]));
            }
        }
        self.clear_popup_choices();
        self.filter_expression = crate::filter::build_filter_expression(
            &self.filter_dimensions,
            &self.active_filter_values_by_dimension,
        );
        self.apply_active_filter();
    }

    /// Opens the popup of the dimension under the cursor.
    pub fn open_filter_popup(&mut self)
        requires
            old(self).inv(),
        ensures
            final(self).inv(),
            final(self)@.popup matches Some(p) && old(self)@.is_opened_popup(p),
            final(self)@ == (AppModel { popup: final(self)@.popup, ..old(self)@ }),
    {
        let dimension = self.selected_filter_dimension();
        let values: Vec<String> = if self.selected_filter_dimension
            < self.active_filter_values_by_dimension.len() {
            copy_strings(&self.active_filter_values_by_dimension[self.selected_filter_dimension])
        } else {
            Vec::new()
        };
        assert(strings_view(values@) == self@.cursor_values()) by {
            if self.selected_filter_dimension < self.active_filter_values_by_dimension@.len() {
            } else {
                assert(strings_view(values@) =~= seq![]);
            }
        }
        if dimension == FilterDimension::DateTime {
            let chars = crate::text::chars_of_all(&values);
            let (start, end) = crate::filter::decode_range_of(&chars);
            let start_input = match start {
                Some(v) => crate::text::string_of(&v),
                None => String::new(),
            };
            let end_input = match end {
                Some(v) => crate::text::string_of(&v),
                None => String::new(),
            };
            self.filter_popup = Some(
                FilterPopup {
                    dimension,
                    state: FilterPopupState::DateTimeRange {
                        start_input,
                        end_input,
                        active_field: DateTimePopupField::Start,
                    },
                },
            );
            return;
        }
        let shown = crate::filter::filter_packets(
            &self.all_packets,
            &self.filter_dimensions,
            &self.active_filter_values_by_dimension,
            Some(dimension),
        );
        let all_candidates = crate::filter::filter_candidates(&shown, dimension);
        let selected_values = distinct_values(&values);
        let highlighted_index = match crate::search::first_selected_index(
            &all_candidates,
            &selected_values,
        ) {
            Some(i) => i,
            None => 0,
        };
        let candidates = copy_strings(&all_candidates);
        proof {
            lemma_empty_query_keeps_all(strings_view(all_candidates@));
            crate::search::lemma_first_index_in_range(
                strings_view(all_candidates@),
                strings_view(selected_values@).to_set(),
                0,
            );
        }
        self.filter_popup = Some(
            FilterPopup {
                dimension,
                state: FilterPopupState::MultiSelect {
                    all_candidates,
                    candidates,
                    selected_values,
                    highlighted_index,
                    search_query: String::new(),
                    search_active: false,
                },
            },
        );
    }

    /// Applies the open popup's choices to its dimension and closes it.
    pub fn confirm_filter_popup(&mut self)
        requires
            old(self).inv(),
        ensures
            final(self).inv(),
            final(self)@ == old(self)@.confirmed(),
    {
        let popup = match self.filter_popup.take() {
            Some(p) => p,
            None => {
                return;
            },
        };
        let dimension = popup.dimension;
        let (values, focus_after_confirm) = match popup.state {
            FilterPopupState::MultiSelect { all_candidates, selected_values, .. } => (
                crate::search::keep_selected(&all_candidates, &selected_values),
                FocusPane::FilterSelector,
            ),
            FilterPopupState::DateTimeRange { start_input, end_input, .. } => {
                let start = crate::text::chars_of(start_input.as_str());
                let end = crate::text::chars_of(end_input.as_str());
                (encode_range_of(&start, &end), FocusPane::PacketList)
            },
        };
        let index = dimension_position(dimension);
        if index < self.active_filter_values_by_dimension.len() {
            self.active_filter_values_by_dimension.set(index, values);
        }
        self.filter_expression = crate::filter::build_filter_expression(
            &self.filter_dimensions,
            &self.active_filter_values_by_dimension,
        );
        self.focus = focus_after_confirm;
        self.apply_active_filter();
        proof {
            let old_active = old(self)@.active;
            let idx = dimension_index(dimension);
            if idx < old_active.len() {
                assert(self@.active =~= old_active.update(idx, strings_view(values@)));
            }
        }
    }
}

/// The stored values of a date-time range whose typed bounds are `start`
/// and `end`.
fn encode_range_of(start: &[char], end: &[char]) -> (r: Vec<String>)
    ensures
        strings_view(r@) == encode_range(normalize_bound(start@), normalize_bound(end@)),
{
    let mut r: Vec<String> = Vec::new();
    let s = crate::text::trim_of(start);
    let e = crate::text::trim_of(end);
    if s.len() > 0 {
        let mut v = crate::text::chars_of("start=");
        crate::text::append_chars(&mut v, &s);
        r.push(crate::text::string_of(&v));
    }
    let ghost mid = strings_view(r@);
    if e.len() > 0 {
        let mut v = crate::text::chars_of("end=");
        crate::text::append_chars(&mut v, &e);
        r.push(crate::text::string_of(&v));
        assert(strings_view(r@) =~= mid.push(v@));
    }
    assert(strings_view(r@) =~= encode_range(normalize_bound(start@), normalize_bound(end@)));
    r
}

impl AppModel {
    pub open spec fn with_expression(self, expression: Seq<char>) -> AppModel {
        AppModel { expression, ..self }
    }
}

impl Default for App {
    fn default() -> (r: Self)
        ensures
            r.inv(),
            r@.all_packets == Seq::<SpecPacket>::empty(),
            r@.popup is None,
    {
        Self::new()
    }
}

/// A copy of each packet.
fn copy_packets(ps: &Vec<PacketSummary>) -> (r: Vec<PacketSummary>)
    ensures
        packets_view(r@) == packets_view(ps@),
{
    let mut r: Vec<PacketSummary> = Vec::new();
    let mut i: usize = 0;
    while i < ps.len()
        invariant
            i <= ps@.len(),
            packets_view(r@) == packets_view(ps@.take(i as int)),
        decreases ps@.len() - i,
    {
        let ghost before = r@;
        r.push(ps[i].duplicate());
        assert(packets_view(r@) =~= packets_view(before).push(ps@[i as int]@));
        assert(packets_view(ps@.take(i + 1)) =~= packets_view(ps@.take(i as int)).push(
            ps@[i as int]@,
        ));
        i = i + 1;
    }
    assert(ps@.take(ps@.len() as int) =~= ps@);
    r
}

} // verus!
