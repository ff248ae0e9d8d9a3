//! Properties of the browser that hold across its operations.
use vstd::prelude::*;

use crate::app::{
    dimension_index, lemma_dimension_index, lemma_no_filters_empty_expression,
    is_allowed_date_time_char, lemma_no_filters_keep_all, next_focus, no_active_values,
    popup_bound_erased, popup_bound_typed, popup_field_switched, popup_toggled,
    popup_with_highlight,
    previous_focus, with_query, AppModel, DateTimePopupField, FocusPane, PopupModel,
    PopupStateModel,
};
use crate::domain::{FilterDimension, SpecPacket};
use crate::fields::{
    endpoint_traffic_class_spec, flag_labels, is_octet, tcp_flag_label_spec,
    tcp_flags_from_summary_spec,
};
use crate::keys::{action_effect, key_action_spec, KeyAction, KeyCode, KeyPress};
use crate::filter::{
    decode_range, encode_range, filter_expression_spec, filtered_packets, normalize_bound,
    passes_dimension, passes_filters_except,
};
use crate::api::{classify_protocol_spec, lines_from, parse_line_spec, parse_lines_spec, parse_stdout_spec, strip_cr};
use crate::search::{kept_selected, search_results};
use crate::text::{
    ascii_lower, contains, first_match_from, is_whitespace, last_match_before, matches_at, trim,
    trim_end, trim_start,
};

verus! {

/// Toggling the highlighted candidate twice leaves the popup as it was.
pub proof fn law_toggle_twice_restores_popup(o: Option<PopupModel>)
    ensures
        popup_toggled(popup_toggled(o)) == o,
{
    if let Some(p) = o {
        if let PopupStateModel::MultiSelect { candidates, selected, highlighted, .. } = p.state {
            if highlighted < candidates.len() {
                let c = candidates[highlighted as int];
                if selected.contains(c) {
                    assert(selected.remove(c).insert(c) =~= selected);
                } else {
                    assert(selected.insert(c).remove(c) =~= selected);
                }
            }
        }
    }
}

/// In a list popup, moving the highlight down and then up (or up and then
/// down) brings it back to the same candidate, wrapping included.
pub proof fn law_popup_down_then_up_restores(m: AppModel)
    requires
        (m.popup matches Some(p) && p.state is MultiSelect && p.wf()),
    ensures
        m.moved_down().moved_up() == m,
        m.moved_up().moved_down() == m,
{
    let p = m.popup->0;
    if let PopupStateModel::MultiSelect { candidates, highlighted, .. } = p.state {
        let n = candidates.len();
        if n > 0 {
            let down: nat = (highlighted + 1) % n;
            assert(down == if highlighted + 1 < n { highlighted + 1 } else { 0 }) by (nonlinear_arith)
                requires
                    down == (highlighted + 1) % n,
                    highlighted < n,
            ;
            assert(popup_with_highlight(popup_with_highlight(p, down), highlighted) == p);
            let up: nat = if highlighted == 0 { (n - 1) as nat } else { (highlighted - 1) as nat };
            assert((up + 1) % n == highlighted) by (nonlinear_arith)
                requires
                    up == if highlighted == 0 { n - 1 } else { highlighted - 1 },
                    highlighted < n,
            ;
            assert(popup_with_highlight(popup_with_highlight(p, up), highlighted) == p);
        }
    }
}

/// In the packet list, moving down and then up returns to the same row
/// when there is a row below; moving up and then down does when there is a
/// row above.
pub proof fn law_packet_list_down_then_up_restores(m: AppModel)
    requires
        (m.popup is None),
        m.focus == FocusPane::PacketList,
        m.selected_packet < m.packets.len(),
    ensures
        m.selected_packet + 1 < m.packets.len() ==> m.moved_down().moved_up() == m,
        m.selected_packet > 0 ==> m.moved_up().moved_down() == m,
{
}

/// In the filter pane, moving down and then up returns to the same
/// dimension when there is one below; up and then down does when there is
/// one above.
pub proof fn law_filter_pane_down_then_up_restores(m: AppModel)
    requires
        (m.popup is None),
        m.focus == FocusPane::FilterSelector,
        m.selected_dimension < m.dimensions.len(),
    ensures
        m.selected_dimension + 1 < m.dimensions.len() ==> m.moved_down().moved_up() == m,
        m.selected_dimension > 0 ==> m.moved_up().moved_down() == m,
{
}

/// Tab and shift-tab undo each other on the three panes of the cycle, and
/// three tabs come back to the start.
pub proof fn law_focus_cycle(f: FocusPane)
    requires
        f != FocusPane::FilterInput,
    ensures
        previous_focus(next_focus(f)) == f,
        next_focus(previous_focus(f)) == f,
        next_focus(next_focus(next_focus(f))) == f,
{
}

/// What a list popup applies does not depend on its search query: the
/// values chosen before the list was narrowed are kept.
pub proof fn law_search_query_does_not_change_confirm(
    m: AppModel,
    p: PopupModel,
    query: Seq<char>,
    typing: bool,
)
    requires
        m.popup == Some(p),
        (p.state is MultiSelect),
    ensures
        (AppModel { popup: Some(with_query(p, query, typing)), ..m }).confirmed() == m.confirmed(),
{
}

/// A packet is kept by the filters exactly when it was read and passes
/// them.
proof fn lemma_filtered_membership(
    all: Seq<SpecPacket>,
    dims: Seq<FilterDimension>,
    active: Seq<Seq<Seq<char>>>,
    excluded: Option<FilterDimension>,
)
    ensures
        forall|x: SpecPacket|
            #[trigger] filtered_packets(all, dims, active, excluded).contains(x) <==> (
            all.contains(x) && passes_filters_except(x, dims, active, excluded)),
    decreases all.len(),
{
    if all.len() > 0 {
        lemma_filtered_membership(all.drop_last(), dims, active, excluded);
        assert(all =~= all.drop_last().push(all.last()));
        let kept = filtered_packets(all.drop_last(), dims, active, excluded);
        assert forall|x: SpecPacket|
            #[trigger] filtered_packets(all, dims, active, excluded).contains(x) <==> (all.contains(
                x,
            ) && passes_filters_except(x, dims, active, excluded)) by {
            if passes_filters_except(all.last(), dims, active, excluded) {
                assert(kept.push(all.last()).contains(x) <==> (kept.contains(x) || x
                    == all.last())) by {
                    if kept.push(all.last()).contains(x) {
                        let i = choose|i: int|
                            0 <= i < kept.push(all.last()).len() && kept.push(all.last())[i] == x;
                        if i < kept.len() {
                            assert(kept[i] == x);
                        }
                    }
                    if kept.contains(x) {
                        let i = choose|i: int| 0 <= i < kept.len() && kept[i] == x;
                        assert(kept.push(all.last())[i] == x);
                    }
                    if x == all.last() {
                        assert(kept.push(all.last())[kept.len() as int] == x);
                    }
                }
            }
            if all.contains(x) {
                let i = choose|i: int| 0 <= i < all.len() && all[i] == x;
                if i < all.len() - 1 {
                    assert(all.drop_last()[i] == x);
                }
            }
            if all.drop_last().contains(x) {
                let i = choose|i: int| 0 <= i < all.drop_last().len() && all.drop_last()[i] == x;
                assert(all[i] == x);
            }
        }
    }
}

/// The packet list shows exactly the packets that were read and pass the
/// filter of every dimension: filters of different dimensions combine
/// with "and".
pub proof fn law_shown_packets_pass_every_filter(m: AppModel)
    requires
        m.wf(),
    ensures
        forall|x: SpecPacket|
            #[trigger] m.packets.contains(x) <==> (m.all_packets.contains(x) && forall|i: int|
                0 <= i < m.dimensions.len() ==> passes_dimension(
                    x,
                    #[trigger] m.dimensions[i],
                    m.active[i],
                )),
{
    lemma_filtered_membership(m.all_packets, m.dimensions, m.active, None);
}

/// The search keeps exactly the candidates that contain the query, both
/// taken without case.
pub proof fn law_search_keeps_exactly_the_matches(all: Seq<Seq<char>>, query: Seq<char>)
    ensures
        forall|x: Seq<char>|
            #[trigger] search_results(all, query).contains(x) <==> (all.contains(x) && contains(
                ascii_lower(x),
                ascii_lower(query),
            )),
    decreases all.len(),
{
    if all.len() > 0 {
        law_search_keeps_exactly_the_matches(all.drop_last(), query);
        assert(all =~= all.drop_last().push(all.last()));
        let kept = search_results(all.drop_last(), query);
        assert forall|x: Seq<char>|
            #[trigger] search_results(all, query).contains(x) <==> (all.contains(x) && contains(
                ascii_lower(x),
                ascii_lower(query),
            )) by {
            if contains(ascii_lower(all.last()), ascii_lower(query)) {
                if kept.push(all.last()).contains(x) {
                    let i = choose|i: int|
                        0 <= i < kept.push(all.last()).len() && kept.push(all.last())[i] == x;
                    if i < kept.len() {
                        assert(kept[i] == x);
                    }
                }
                if kept.contains(x) {
                    let i = choose|i: int| 0 <= i < kept.len() && kept[i] == x;
                    assert(kept.push(all.last())[i] == x);
                }
                if x == all.last() {
                    assert(kept.push(all.last())[kept.len() as int] == x);
                }
            }
            if all.contains(x) {
                let i = choose|i: int| 0 <= i < all.len() && all[i] == x;
                if i < all.len() - 1 {
                    assert(all.drop_last()[i] == x);
                }
            }
            if all.drop_last().contains(x) {
                let i = choose|i: int| 0 <= i < all.drop_last().len() && all.drop_last()[i] == x;
                assert(all[i] == x);
            }
        }
    }
}

/// Clearing all filters shows every packet that was read and empties the
/// filter expression.
pub proof fn law_clear_all_shows_every_packet(m: AppModel)
    requires
        m.wf(),
    ensures
        m.all_filters_cleared().packets == m.all_packets,
        m.all_filters_cleared().expression == Seq::<char>::empty(),
        no_active_values(m.all_filters_cleared().active),
{
    let c = m.all_filters_cleared();
    assert(no_active_values(c.active));
    lemma_no_filters_keep_all(m.all_packets, m.dimensions, c.active);
    lemma_no_filters_empty_expression(m.dimensions, c.active, m.dimensions.len() as int);
    assert(filter_expression_spec(m.dimensions, c.active) == Seq::<char>::empty());
}

proof fn lemma_kept_selected_membership(all: Seq<Seq<char>>, selected: Set<Seq<char>>)
    ensures
        forall|x: Seq<char>|
            #[trigger] kept_selected(all, selected).contains(x) <==> (all.contains(x)
                && selected.contains(x)),
    decreases all.len(),
{
    if all.len() > 0 {
        lemma_kept_selected_membership(all.drop_last(), selected);
        assert(all =~= all.drop_last().push(all.last()));
        let kept = kept_selected(all.drop_last(), selected);
        assert forall|x: Seq<char>|
            #[trigger] kept_selected(all, selected).contains(x) <==> (all.contains(x)
                && selected.contains(x)) by {
            if selected.contains(all.last()) {
                if kept.push(all.last()).contains(x) {
                    let i = choose|i: int|
                        0 <= i < kept.push(all.last()).len() && kept.push(all.last())[i] == x;
                    if i < kept.len() {
                        assert(kept[i] == x);
                    }
                }
                if kept.contains(x) {
                    let i = choose|i: int| 0 <= i < kept.len() && kept[i] == x;
                    assert(kept.push(all.last())[i] == x);
                }
                if x == all.last() {
                    assert(kept.push(all.last())[kept.len() as int] == x);
                }
            }
            if all.contains(x) {
                let i = choose|i: int| 0 <= i < all.len() && all[i] == x;
                if i < all.len() - 1 {
                    assert(all.drop_last()[i] == x);
                }
            }
            if all.drop_last().contains(x) {
                let i = choose|i: int| 0 <= i < all.drop_last().len() && all.drop_last()[i] == x;
                assert(all[i] == x);
            }
        }
    }
}

/// Applying a list popup and opening the popup of the same dimension
/// again selects exactly the values that were chosen among its
/// candidates.
pub proof fn law_applied_values_selected_on_reopen(m: AppModel, reopened: PopupModel)
    requires
        m.wf(),
        (m.popup matches Some(p) && p.state is MultiSelect && p.dimension
            != FilterDimension::DateTime),
        m.selected_dimension == dimension_index(m.popup->0.dimension),
        m.confirmed().is_opened_popup(reopened),
    ensures
        reopened.dimension == m.popup->0.dimension,
        (m.popup->0.state matches PopupStateModel::MultiSelect { all_candidates, selected, .. }
            && reopened.state matches PopupStateModel::MultiSelect { selected: again, .. } && again
            == selected.intersect(all_candidates.to_set())),
{
    let p = m.popup->0;
    lemma_dimension_index(p.dimension);
    if let PopupStateModel::MultiSelect { all_candidates, selected, .. } = p.state {
        let c = m.confirmed();
        let values = kept_selected(all_candidates, selected);
        assert(c.active == m.active.update(dimension_index(p.dimension), values));
        assert(c.cursor_dimension() == p.dimension);
        assert(c.cursor_values() == values);
        lemma_kept_selected_membership(all_candidates, selected);
        if let PopupStateModel::MultiSelect { selected: again, .. } = reopened.state {
            assert(again =~= selected.intersect(all_candidates.to_set()));
        }
    }
}

proof fn lemma_trim_start_shape(s: Seq<char>)
    ensures
        trim_start(s).len() == 0 || !is_whitespace(trim_start(s)[0]),
    decreases s.len(),
{
    if s.len() > 0 && is_whitespace(s[0]) {
        lemma_trim_start_shape(s.drop_first());
    }
}

proof fn lemma_trim_end_shape(s: Seq<char>)
    ensures
        trim_end(s).len() <= s.len(),
        trim_end(s) =~= s.take(trim_end(s).len() as int),
        trim_end(s).len() == 0 || !is_whitespace(trim_end(s).last()),
        s.len() > 0 && !is_whitespace(s[0]) ==> trim_end(s).len() > 0,
    decreases s.len(),
{
    if s.len() > 0 && is_whitespace(s.last()) {
        lemma_trim_end_shape(s.drop_last());
        let t = trim_end(s.drop_last());
        assert(s.drop_last().take(t.len() as int) =~= s.take(t.len() as int));
    } else {
        assert(s.take(s.len() as int) =~= s);
    }
}

/// Trimming twice is trimming once.
proof fn lemma_trim_idempotent(x: Seq<char>)
    ensures
        trim(trim(x)) == trim(x),
{
    let u = trim_start(x);
    let t = trim_end(u);
    lemma_trim_start_shape(x);
    lemma_trim_end_shape(u);
    if t.len() > 0 {
        assert(t[0] == u[0]);
    }
    assert(trim_start(t) == t);
    assert(trim_end(t) == t);
}

proof fn lemma_strip_tag(tag: Seq<char>, v: Seq<char>)
    ensures
        crate::text::strip_prefix(tag + v, tag) == Some(v),
{
    assert((tag + v).take(tag.len() as int) =~= tag);
    assert((tag + v).skip(tag.len() as int) =~= v);
}

/// A date-time range that is stored and read back gives the same bounds:
/// blank bounds are none, the others are kept trimmed.
pub proof fn law_date_time_bounds_round_trip(start: Seq<char>, end: Seq<char>)
    ensures
        decode_range(encode_range(normalize_bound(start), normalize_bound(end))) == (
        normalize_bound(start),
        normalize_bound(end),
        ),
{
    let s = normalize_bound(start);
    let e = normalize_bound(end);
    let vs = encode_range(s, e);
    lemma_trim_idempotent(start);
    lemma_trim_idempotent(end);
    reveal_strlit("start=");
    reveal_strlit("end=");
    lemma_strip_tag("start="@, trim(start));
    lemma_strip_tag("end="@, trim(end));
    let sv = "start="@ + trim(start);
    let ev = "end="@ + trim(end);
    assert(crate::text::strip_prefix(ev, "start="@) is None) by {
        assert(ev[0] == 'e');
        if ev.len() >= 6 {
            assert(ev.take(6)[0] == 'e');
        }
    }
    assert(decode_range(seq![]) == (None::<Seq<char>>, None::<Seq<char>>));
    match (s, e) {
        (Some(a), Some(b)) => {
            assert(vs =~= seq![sv, ev]);
            assert(vs.drop_last() =~= seq![sv]);
            assert(seq![sv].drop_last() =~= Seq::<Seq<char>>::empty());
            assert(decode_range(seq![sv]) == (s, None::<Seq<char>>));
            assert(vs.last() == ev);
        },
        (Some(a), None) => {
            assert(vs =~= seq![sv]);
            assert(vs.drop_last() =~= Seq::<Seq<char>>::empty());
        },
        (None, Some(b)) => {
            assert(vs =~= seq![ev]);
            assert(vs.drop_last() =~= Seq::<Seq<char>>::empty());
            assert(vs.last() == ev);
        },
        (None, None) => {
            assert(vs =~= Seq::<Seq<char>>::empty());
        },
    }
}

/// Applying the date-time popup and opening it again shows the bounds
/// that were typed, trimmed, with typing going to the start bound.
pub proof fn law_applied_date_time_shown_on_reopen(m: AppModel, reopened: PopupModel)
    requires
        m.wf(),
        (m.popup matches Some(p) && p.state is DateTimeRange && p.dimension
            == FilterDimension::DateTime),
        m.selected_dimension == dimension_index(FilterDimension::DateTime),
        m.confirmed().is_opened_popup(reopened),
    ensures
        reopened.dimension == FilterDimension::DateTime,
        (m.popup->0.state matches PopupStateModel::DateTimeRange { start, end, .. }
            && reopened.state == (PopupStateModel::DateTimeRange {
            start: trim(start),
            end: trim(end),
            field: DateTimePopupField::Start,
        })),
{
    let p = m.popup->0;
    lemma_dimension_index(p.dimension);
    if let PopupStateModel::DateTimeRange { start, end, .. } = p.state {
        let c = m.confirmed();
        let values = encode_range(normalize_bound(start), normalize_bound(end));
        assert(c.active == m.active.update(dimension_index(p.dimension), values));
        assert(c.cursor_dimension() == p.dimension);
        assert(c.cursor_values() == values);
        law_date_time_bounds_round_trip(start, end);
        if trim(start).len() == 0 {
            assert(trim(start) =~= Seq::<char>::empty());
        }
        if trim(end).len() == 0 {
            assert(trim(end) =~= Seq::<char>::empty());
        }
    }
}

/// Clearing the dimension under the cursor empties its values and leaves
/// every other dimension's values as they were.
pub proof fn law_clear_selected_dimension_keeps_the_others(m: AppModel)
    requires
        m.wf(),
    ensures
        m.selected_filter_cleared().active[m.selected_dimension as int] == Seq::<Seq<char>>::empty(),
        forall|i: int|
            0 <= i < m.active.len() && i != m.selected_dimension ==> (
            #[trigger] m.selected_filter_cleared().active[i]) == m.active[i],
        m.selected_filter_cleared().active.len() == m.active.len(),
{
}

/// Moving the cursor of the filter pane changes no applied value and no
/// shown packet.
pub proof fn law_moving_filter_cursor_keeps_filters(m: AppModel)
    requires
        (m.popup is None),
        m.focus == FocusPane::FilterSelector,
    ensures
        m.moved_down().active == m.active,
        m.moved_down().packets == m.packets,
        m.moved_down().expression == m.expression,
        m.moved_up().active == m.active,
        m.moved_up().packets == m.packets,
        m.moved_up().expression == m.expression,
{
}

proof fn lemma_newline_match(s: Seq<char>, k: int)
    ensures
        matches_at(s, seq!['\n'], k) <==> (0 <= k < s.len() && s[k] == '\n'),
{
    if 0 <= k < s.len() && s[k] == '\n' {
        assert(s.subrange(k, k + 1) =~= seq!['\n']);
    }
    if matches_at(s, seq!['\n'], k) {
        assert(s.subrange(k, k + 1)[0] == s[k]);
    }
}

/// Within `a`, the first newline of `a + "\n" + b` is that of `a`, or the
/// joining one.
proof fn lemma_first_newline_in_head(a: Seq<char>, b: Seq<char>, i: int)
    requires
        0 <= i <= a.len(),
    ensures
        first_match_from(a + seq!['\n'] + b, seq!['\n'], i) == (match first_match_from(
            a,
            seq!['\n'],
            i,
        ) {
            Some(j) => Some(j),
            None => Some(a.len() as int),
        }),
        first_match_from(a, seq!['\n'], i) matches Some(j) ==> j < a.len(),
    decreases a.len() - i,
{
    let s = a + seq!['\n'] + b;
    lemma_newline_match(s, i);
    lemma_newline_match(a, i);
    if i == a.len() {
        lemma_newline_match(a, i + 1);
        assert(first_match_from(a, seq!['\n'], i + 1) is None);
    } else {
        assert(s[i] == a[i]);
        lemma_first_newline_in_head(a, b, i + 1);
    }
}

/// Past the joining newline, `a + "\n" + b` finds the newlines of `b`.
proof fn lemma_first_newline_in_tail(a: Seq<char>, b: Seq<char>, i: int)
    requires
        a.len() + 1 <= i <= a.len() + 1 + b.len(),
    ensures
        first_match_from(a + seq!['\n'] + b, seq!['\n'], i) == (match first_match_from(
            b,
            seq!['\n'],
            i - a.len() - 1,
        ) {
            Some(j) => Some(j + a.len() + 1),
            None => None,
        }),
    decreases a.len() + 1 + b.len() - i,
{
    let s = a + seq!['\n'] + b;
    let k = i - a.len() - 1;
    lemma_newline_match(s, i);
    lemma_newline_match(b, k);
    if i == s.len() {
        assert(first_match_from(s, seq!['\n'], i + 1) is None);
        assert(first_match_from(b, seq!['\n'], k + 1) is None);
    } else {
        assert(s[i] == b[k]);
        lemma_first_newline_in_tail(a, b, i + 1);
    }
}

proof fn lemma_lines_in_tail(a: Seq<char>, b: Seq<char>, i: int)
    requires
        a.len() + 1 <= i,
    ensures
        lines_from(a + seq!['\n'] + b, i) == lines_from(b, i - a.len() - 1),
    decreases a.len() + 1 + b.len() - i,
{
    let s = a + seq!['\n'] + b;
    let k = i - a.len() - 1;
    if i < s.len() {
        lemma_first_newline_in_tail(a, b, i);
        lemma_first_match_is_match_newline(b, k);
        match first_match_from(b, seq!['\n'], k) {
            Some(j) => {
                assert(s.subrange(i, j + a.len() + 1) =~= b.subrange(k, j));
                lemma_lines_in_tail(a, b, j + a.len() + 2);
            },
            None => {
                assert(s.subrange(i, s.len() as int) =~= b.subrange(k, b.len() as int));
            },
        }
    }
}

proof fn lemma_first_match_is_match_newline(s: Seq<char>, i: int)
    ensures
        first_match_from(s, seq!['\n'], i) matches Some(j) ==> i <= j < s.len(),
{
    crate::text::lemma_first_match_is_match(s, seq!['\n'], i);
    if let Some(j) = first_match_from(s, seq!['\n'], i) {
        lemma_newline_match(s, j);
    }
}

/// The packets of some lines followed by others are the packets of each,
/// in order.
proof fn lemma_parse_lines_append(x: Seq<Seq<char>>, y: Seq<Seq<char>>)
    ensures
        parse_lines_spec(x + y) == parse_lines_spec(x) + parse_lines_spec(y),
    decreases y.len(),
{
    if y.len() == 0 {
        assert(x + y =~= x);
        assert(parse_lines_spec(x) + parse_lines_spec(y) =~= parse_lines_spec(x));
    } else {
        lemma_parse_lines_append(x, y.drop_last());
        assert((x + y).drop_last() =~= x + y.drop_last());
        assert((x + y).last() == y.last());
        match parse_line_spec(y.last()) {
            Some(p) => {
                assert(parse_lines_spec(x) + parse_lines_spec(y) =~= (parse_lines_spec(x)
                    + parse_lines_spec(y.drop_last())).push(p));
            },
            None => {},
        }
    }
}

proof fn lemma_lines_in_head(a: Seq<char>, b: Seq<char>, i: int)
    requires
        0 <= i <= a.len(),
        a.len() == 0 || a.last() != '\r',
    ensures
        parse_lines_spec(lines_from(a + seq!['\n'] + b, i)) == parse_lines_spec(lines_from(a, i))
            + parse_stdout_spec(b),
    decreases a.len() - i,
{
    let s = a + seq!['\n'] + b;
    let n = a.len() as int;
    lemma_first_newline_in_head(a, b, i);
    lemma_first_match_is_match_newline(a, i);
    lemma_lines_in_tail(a, b, n + 1);
    assert(lines_from(s, n + 1) == lines_from(b, 0));
    match first_match_from(a, seq!['\n'], i) {
        Some(j) => {
            let head = strip_cr(a.subrange(i, j));
            assert(s.subrange(i, j) =~= a.subrange(i, j));
            lemma_lines_in_head(a, b, j + 1);
            lemma_parse_lines_append(seq![head], lines_from(s, j + 1));
            lemma_parse_lines_append(seq![head], lines_from(a, j + 1));
            assert(parse_lines_spec(seq![head]) + (parse_lines_spec(lines_from(a, j + 1))
                + parse_stdout_spec(b)) =~= parse_lines_spec(seq![head]) + parse_lines_spec(
                lines_from(a, j + 1),
            ) + parse_stdout_spec(b));
        },
        None => {
            let head = strip_cr(s.subrange(i, n));
            lemma_parse_lines_append(seq![head], lines_from(s, n + 1));
            if i < n {
                assert(s.subrange(i, n) =~= a.subrange(i, n));
                assert(a.subrange(i, n).last() == a.last());
                assert(head == a.subrange(i, n));
            } else {
                assert(lines_from(a, i) =~= Seq::<Seq<char>>::empty());
                assert(head =~= Seq::<char>::empty());
                lemma_empty_line_has_no_packet();
                assert(seq![head].drop_last() =~= Seq::<Seq<char>>::empty());
                assert(seq![head].last() == head);
                assert(head == Seq::<char>::empty());
                assert(parse_line_spec(head) is None);
                assert(parse_lines_spec(Seq::<Seq<char>>::empty()) =~= Seq::<SpecPacket>::empty());
                assert(parse_lines_spec(seq![head]) =~= Seq::<SpecPacket>::empty());
                assert(parse_lines_spec(lines_from(a, i)) =~= Seq::<SpecPacket>::empty());
            }
        },
    }
}

proof fn lemma_empty_line_has_no_packet()
    ensures
        parse_line_spec(Seq::<char>::empty()) is None,
{
    let e = Seq::<char>::empty();
    reveal_strlit(" IP ");
    reveal_strlit(" IP6 ");
    assert(first_match_from(e, " IP "@, 1) is None);
    assert(first_match_from(e, " IP "@, 0) is None);
    assert(first_match_from(e, " IP6 "@, 1) is None);
    assert(first_match_from(e, " IP6 "@, 0) is None);
}

/// Output joined at a newline gives the packets of its two parts, in
/// order, when the first part does not end with a carriage return.
pub proof fn law_joined_output_parses_to_both_parts(a: Seq<char>, b: Seq<char>)
    requires
        a.len() == 0 || a.last() != '\r',
    ensures
        parse_stdout_spec(a + seq!['\n'] + b) == parse_stdout_spec(a) + parse_stdout_spec(b),
{
    lemma_lines_in_head(a, b, 0);
}

/// On the filter pane, Enter opens the popup of the dimension under the
/// cursor, and `c` empties that dimension's values, keeps every other
/// dimension's values and leaves no popup open.
pub proof fn law_filter_pane_keys(m: AppModel, key: KeyPress, new: AppModel)
    requires
        m.wf(),
        !m.keybindings_open,
        (m.popup is None),
        m.focus == FocusPane::FilterSelector,
        !key.control,
        action_effect(m, new, key_action_spec(m, key)),
    ensures
        key.code == KeyCode::Enter ==> (new.popup matches Some(p) && p.dimension
            == m.cursor_dimension() && m.is_opened_popup(p)),
        key.code == KeyCode::Char('c') ==> new.active[m.selected_dimension as int].len() == 0,
        key.code == KeyCode::Char('c') ==> forall|i: int|
            0 <= i < m.active.len() && i != m.selected_dimension ==> (#[trigger] new.active[i])
                == m.active[i],
        key.code == KeyCode::Char('c') ==> (new.popup is None),
{
}

/// In a list popup that is not taking a search query: space toggles the
/// highlighted candidate, Enter applies the choices, `/` starts an empty
/// search, `c` unselects every candidate, and Escape closes the popup with
/// the filters as they were.
pub proof fn law_list_popup_keys(m: AppModel, key: KeyPress, new: AppModel)
    requires
        m.wf(),
        !m.keybindings_open,
        (m.popup matches Some(p) && p.dimension != FilterDimension::DateTime),
        !m.popup->0.state->search_active,
        !key.control,
        action_effect(m, new, key_action_spec(m, key)),
    ensures
        key.code == KeyCode::Char(' ') ==> new == (AppModel { popup: popup_toggled(m.popup), ..m }),
        key.code == KeyCode::Enter ==> new == m.confirmed(),
        key.code == KeyCode::Char('/') ==> (new.popup matches Some(q) && q.state
            matches PopupStateModel::MultiSelect { query, search_active, .. } && query.len() == 0
            && search_active),
        key.code == KeyCode::Char('c') ==> (new.popup matches Some(q) && q.state
            matches PopupStateModel::MultiSelect { selected, .. } && selected
            == Set::<Seq<char>>::empty()),
        key.code == KeyCode::Esc ==> (new.popup is None),
        key.code == KeyCode::Esc ==> new.active == m.active && new.packets == m.packets
            && new.expression == m.expression,
{
}

/// In the date-time popup: tab switches the bound being typed, down and up
/// pick the end and the start bound, `c` empties both bounds, `C` clears
/// every filter, Enter applies the range and focuses the packet list,
/// Escape closes the popup with the filters as they were, and a character
/// a bound may hold is appended to the bound being typed.
pub proof fn law_date_time_popup_keys(m: AppModel, key: KeyPress, new: AppModel)
    requires
        m.wf(),
        !m.keybindings_open,
        (m.popup matches Some(p) && p.dimension == FilterDimension::DateTime),
        !key.control,
        action_effect(m, new, key_action_spec(m, key)),
    ensures
        key.code == KeyCode::Tab || key.code == KeyCode::BackTab ==> new == (AppModel {
            popup: popup_field_switched(m.popup),
            ..m
        }) && new.popup->0.state->field != m.popup->0.state->field,
        key.code == KeyCode::Char('j') || key.code == KeyCode::Down ==> new.popup == Some(
            PopupModel {
                dimension: FilterDimension::DateTime,
                state: PopupStateModel::DateTimeRange {
                    start: m.popup->0.state->start,
                    end: m.popup->0.state->end,
                    field: DateTimePopupField::End,
                },
            },
        ),
        key.code == KeyCode::Char('k') || key.code == KeyCode::Up ==> new.popup == Some(
            PopupModel {
                dimension: FilterDimension::DateTime,
                state: PopupStateModel::DateTimeRange {
                    start: m.popup->0.state->start,
                    end: m.popup->0.state->end,
                    field: DateTimePopupField::Start,
                },
            },
        ),
        key.code == KeyCode::Char('c') ==> new.popup == Some(
            PopupModel {
                dimension: FilterDimension::DateTime,
                state: PopupStateModel::DateTimeRange {
                    start: Seq::<char>::empty(),
                    end: Seq::<char>::empty(),
                    field: m.popup->0.state->field,
                },
            },
        ),
        key.code == KeyCode::Char('C') ==> new.expression == Seq::<char>::empty() && no_active_values(
            new.active,
        ) && new.packets == m.all_packets,
        key.code == KeyCode::Enter ==> new == m.confirmed() && new.focus == FocusPane::PacketList,
        key.code == KeyCode::Esc ==> (new.popup is None),
        key.code == KeyCode::Esc ==> new.active == m.active && new.packets == m.packets
            && new.expression == m.expression,
        forall|ch: char|
            key.code == KeyCode::Char(ch) && #[trigger] is_allowed_date_time_char(ch) ==> new.popup
                == Some(
                PopupModel {
                    dimension: FilterDimension::DateTime,
                    state: if m.popup->0.state->field == DateTimePopupField::Start {
                        PopupStateModel::DateTimeRange {
                            start: m.popup->0.state->start.push(ch),
                            end: m.popup->0.state->end,
                            field: DateTimePopupField::Start,
                        }
                    } else {
                        PopupStateModel::DateTimeRange {
                            start: m.popup->0.state->start,
                            end: m.popup->0.state->end.push(ch),
                            field: DateTimePopupField::End,
                        }
                    },
                },
            ),
{
    if key.code == KeyCode::Char('C') {
        law_clear_all_shows_every_packet(m);
    }
}

// ---------------------------------------------------------------------
// Reading TCP flags
// ---------------------------------------------------------------------

/// The flag that tcpdump prints as `symbol`, by its lower-case name.
pub open spec fn names_flag(symbol: char, name: Seq<char>) -> bool {
    ||| symbol == 'N' && name == "ns"@
    ||| symbol == 'W' && name == "cwr"@
    ||| symbol == 'E' && name == "ece"@
    ||| symbol == 'U' && name == "urg"@
    ||| symbol == '.' && name == "ack"@
    ||| symbol == 'P' && name == "psh"@
    ||| symbol == 'R' && name == "rst"@
    ||| symbol == 'S' && name == "syn"@
    ||| symbol == 'F' && name == "fin"@
}

proof fn lemma_char_match(s: Seq<char>, c: char, k: int)
    ensures
        matches_at(s, seq![c], k) <==> (0 <= k < s.len() && s[k] == c),
{
    if 0 <= k < s.len() && s[k] == c {
        assert(s.subrange(k, k + 1) =~= seq![c]);
    }
    if matches_at(s, seq![c], k) {
        assert(s.subrange(k, k + 1)[0] == s[k]);
    }
}

proof fn lemma_first_char_at(s: Seq<char>, c: char, i: int, k: int)
    requires
        0 <= i <= k < s.len(),
        s[k] == c,
        forall|m: int| i <= m < k ==> s[m] != c,
    ensures
        first_match_from(s, seq![c], i) == Some(k),
    decreases k - i,
{
    lemma_char_match(s, c, i);
    if i < k {
        lemma_first_char_at(s, c, i + 1, k);
    }
}

proof fn lemma_no_char_from(s: Seq<char>, c: char, i: int)
    requires
        0 <= i,
        forall|m: int| i <= m < s.len() ==> s[m] != c,
    ensures
        first_match_from(s, seq![c], i) is None,
    decreases s.len() + 1 - i,
{
    lemma_char_match(s, c, i);
    if i <= s.len() {
        lemma_no_char_from(s, c, i + 1);
    }
}

proof fn lemma_last_char_at(s: Seq<char>, c: char, j: int, k: int)
    requires
        0 <= k < j <= s.len() + 1,
        k < s.len(),
        s[k] == c,
        forall|m: int| k < m < j ==> m >= s.len() || s[m] != c,
    ensures
        last_match_before(s, seq![c], j) == Some(k),
    decreases j - k,
{
    lemma_char_match(s, c, j - 1);
    if j - 1 > k {
        assert(!matches_at(s, seq![c], j - 1));
        lemma_last_char_at(s, c, j - 1, k);
        assert(last_match_before(s, seq![c], j) == last_match_before(s, seq![c], j - 1));
    } else {
        assert(matches_at(s, seq![c], j - 1));
    }
}

proof fn lemma_flag_labels_members(syms: Seq<char>)
    ensures
        forall|x: Seq<char>|
            #[trigger] flag_labels(syms).contains(x) <==> exists|k: int|
                0 <= k < syms.len() && tcp_flag_label_spec(#[trigger] syms[k]) == Some(x),
    decreases syms.len(),
{
    if syms.len() > 0 {
        let rest = syms.drop_last();
        lemma_flag_labels_members(rest);
        let kept = flag_labels(rest);
        assert forall|x: Seq<char>|
            #[trigger] flag_labels(syms).contains(x) <==> exists|k: int|
                0 <= k < syms.len() && tcp_flag_label_spec(#[trigger] syms[k]) == Some(x) by {
            if let Some(l) = tcp_flag_label_spec(syms.last()) {
                if kept.push(l).contains(x) {
                    let i = choose|i: int| 0 <= i < kept.push(l).len() && kept.push(l)[i] == x;
                    if i < kept.len() {
                        assert(kept[i] == x);
                    }
                }
                if kept.contains(x) {
                    let i = choose|i: int| 0 <= i < kept.len() && kept[i] == x;
                    assert(kept.push(l)[i] == x);
                }
                if x == l {
                    assert(kept.push(l)[kept.len() as int] == x);
                }
            }
            if exists|k: int| 0 <= k < syms.len() && tcp_flag_label_spec(#[trigger] syms[k]) == Some(x) {
                let k = choose|k: int|
                    0 <= k < syms.len() && tcp_flag_label_spec(#[trigger] syms[k]) == Some(x);
                if k < syms.len() - 1 {
                    assert(rest[k] == syms[k]);
                }
            }
            if exists|k: int| 0 <= k < rest.len() && tcp_flag_label_spec(#[trigger] rest[k]) == Some(x) {
                let k = choose|k: int|
                    0 <= k < rest.len() && tcp_flag_label_spec(#[trigger] rest[k]) == Some(x);
                assert(syms[k] == rest[k]);
            }
        }
    }
}

/// The flags read from a summary that starts `Flags [<symbols>]` are
/// exactly the flags that its symbols name: each of the nine symbols
/// N W E U . P R S F gives its flag (F gives fin, `.` gives ack), and no
/// other flag is read.
pub proof fn law_flag_symbols_name_exactly_their_flags(symbols: Seq<char>, rest: Seq<char>)
    requires
        forall|m: int| 0 <= m < symbols.len() ==> symbols[m] != ']',
    ensures
        forall|x: Seq<char>|
            #[trigger] tcp_flags_from_summary_spec("Flags ["@ + symbols + "]"@ + rest).contains(x)
                <==> exists|k: int| 0 <= k < symbols.len() && names_flag(#[trigger] symbols[k], x),
{
    reveal_strlit("Flags [");
    reveal_strlit("]");
    let summary = "Flags ["@ + symbols + "]"@ + rest;
    assert(summary.subrange(0, 7) =~= "Flags ["@);
    assert(first_match_from(summary, "Flags ["@, 0) == Some(0int));
    let after = summary.skip(7);
    assert(after =~= symbols + "]"@ + rest);
    assert("]"@ =~= seq![']']);
    lemma_first_char_at(after, ']', 0, symbols.len() as int);
    assert(after.take(symbols.len() as int) =~= symbols);
    lemma_flag_labels_members(symbols);
    assert forall|c: char, x: Seq<char>| tcp_flag_label_spec(c) == Some(x) <==> names_flag(c, x) by {
    }
}

// ---------------------------------------------------------------------
// Traffic class
// ---------------------------------------------------------------------

proof fn lemma_split_dot_piece(x: Seq<char>, tail: Seq<char>)
    requires
        forall|m: int| 0 <= m < x.len() ==> x[m] != '.',
    ensures
        crate::fields::split_char(x + seq!['.'] + tail, '.') == seq![x] + crate::fields::split_char(
            tail,
            '.',
        ),
{
    let s = x + seq!['.'] + tail;
    lemma_first_char_at(s, '.', 0, x.len() as int);
    assert(s.take(x.len() as int) =~= x);
    assert(s.skip(x.len() as int + 1) =~= tail);
}

proof fn lemma_split_dot_last(x: Seq<char>)
    requires
        forall|m: int| 0 <= m < x.len() ==> x[m] != '.',
    ensures
        crate::fields::split_char(x, '.') == seq![x],
{
    lemma_no_char_from(x, '.', 0);
}

proof fn lemma_digits_have_no_dot(x: Seq<char>)
    requires
        crate::text::all_ascii_digits(x),
    ensures
        forall|m: int| 0 <= m < x.len() ==> x[m] != '.' && x[m] != ':',
        ascii_lower(x) == x,
{
    assert forall|m: int| 0 <= m < x.len() implies x[m] != '.' && x[m] != ':' by {
        assert(crate::text::is_ascii_digit(x[m]));
    }
    assert(ascii_lower(x) =~= x) by {
        assert forall|m: int| 0 <= m < x.len() implies ascii_lower(x)[m] == x[m] by {
            assert(crate::text::is_ascii_digit(x[m]));
        }
    }
}

/// The traffic class of an IPv4 endpoint `a.b.c.d.port`, read from its
/// octets.
proof fn lemma_ipv4_endpoint_class(
    a: Seq<char>,
    b: Seq<char>,
    c: Seq<char>,
    d: Seq<char>,
    port: Seq<char>,
)
    requires
        is_octet(a),
        is_octet(b),
        is_octet(c),
        is_octet(d),
        port.len() > 0,
        crate::text::all_ascii_digits(port),
    ensures
        endpoint_traffic_class_spec(a + seq!['.'] + b + seq!['.'] + c + seq!['.'] + d + seq!['.'] + port)
            == (if crate::text::digits_value(d) == 255 {
            Some("broadcast"@)
        } else if 224 <= crate::text::digits_value(a) <= 239 {
            Some("multicast"@)
        } else {
            Some("unicast"@)
        }),
{
    lemma_digits_have_no_dot(a);
    lemma_digits_have_no_dot(b);
    lemma_digits_have_no_dot(c);
    lemma_digits_have_no_dot(d);
    lemma_digits_have_no_dot(port);
    let host = a + seq!['.'] + b + seq!['.'] + c + seq!['.'] + d;
    let e = host + seq!['.'] + port;
    // the port is what follows the last dot
    assert(e[host.len() as int] == '.');
    assert forall|m: int| host.len() < m < e.len() + 1 implies m >= e.len() || e[m] != '.' by {
        if m < e.len() {
            assert(e[m] == port[m - host.len() - 1]);
        }
    }
    lemma_last_char_at(e, '.', e.len() as int + 1, host.len() as int);
    assert(e.take(host.len() as int) =~= host);
    assert(e.skip(host.len() as int + 1) =~= port);
    // the host splits into the four octets
    lemma_split_dot_last(d);
    lemma_split_dot_piece(c, d);
    assert(c + seq!['.'] + d == c + seq!['.'] + d);
    lemma_split_dot_piece(b, c + seq!['.'] + d);
    lemma_split_dot_piece(a, b + seq!['.'] + c + seq!['.'] + d);
    assert(host =~= a + seq!['.'] + (b + seq!['.'] + c + seq!['.'] + d));
    assert(b + seq!['.'] + c + seq!['.'] + d =~= b + seq!['.'] + (c + seq!['.'] + d));
    let parts = crate::fields::split_char(host, '.');
    assert(parts =~= seq![a, b, c, d]);
    assert(crate::fields::is_ipv4(host));
    // the host holds no colon and no capital letter
    assert forall|m: int| 0 <= m < host.len() implies host[m] != ':' && ascii_lower(host)[m]
        == host[m] by {
        if m < a.len() {
            assert(host[m] == a[m]);
        } else if m == a.len() {
        } else if m < a.len() + 1 + b.len() {
            assert(host[m] == b[m - a.len() - 1]);
        } else if m == a.len() + 1 + b.len() {
        } else if m < a.len() + 2 + b.len() + c.len() {
            assert(host[m] == c[m - a.len() - 2 - b.len()]);
        } else if m == a.len() + 2 + b.len() + c.len() {
        } else {
            assert(host[m] == d[m - a.len() - 3 - b.len() - c.len()]);
        }
    }
    assert(ascii_lower(host) =~= host);
    lemma_no_char_from(host, ':', 0);
    assert(!contains(host, seq![':']));
}


/// An IPv4 destination whose fourth octet is 255 is a broadcast address,
/// whatever its first three octets, with a port after it.
pub proof fn law_last_octet_255_is_broadcast(
    a: Seq<char>,
    b: Seq<char>,
    c: Seq<char>,
    port: Seq<char>,
)
    requires
        is_octet(a),
        is_octet(b),
        is_octet(c),
        port.len() > 0,
        crate::text::all_ascii_digits(port),
    ensures
        endpoint_traffic_class_spec(
            a + seq!['.'] + b + seq!['.'] + c + seq!['.'] + "255"@ + seq!['.'] + port,
        ) == Some("broadcast"@),
{
    reveal_strlit("255");
    let d = "255"@;
    assert(d =~= seq!['2', '5', '5']);
    assert(crate::text::all_ascii_digits(d));
    assert(d.drop_last() =~= seq!['2', '5']);
    assert(seq!['2', '5'].drop_last() =~= seq!['2']);
    assert(seq!['2'].drop_last() =~= Seq::<char>::empty());
    assert(crate::text::digit_value('2') == 2);
    assert(crate::text::digit_value('5') == 5);
    assert(crate::text::digits_value(Seq::<char>::empty()) == 0);
    assert(crate::text::digits_value(seq!['2']) == 2);
    assert(crate::text::digits_value(seq!['2', '5']) == 25);
    assert(crate::text::digits_value(d) == 255);
    lemma_ipv4_endpoint_class(a, b, c, d, port);
}

/// An IPv4 destination that is not a broadcast address is multicast when
/// its first octet is from 224 to 239, and unicast otherwise.
pub proof fn law_ipv4_multicast_and_unicast(
    a: Seq<char>,
    b: Seq<char>,
    c: Seq<char>,
    d: Seq<char>,
    port: Seq<char>,
)
    requires
        is_octet(a),
        is_octet(b),
        is_octet(c),
        is_octet(d),
        crate::text::digits_value(d) != 255,
        port.len() > 0,
        crate::text::all_ascii_digits(port),
    ensures
        224 <= crate::text::digits_value(a) <= 239 ==> endpoint_traffic_class_spec(
            a + seq!['.'] + b + seq!['.'] + c + seq!['.'] + d + seq!['.'] + port,
        ) == Some("multicast"@),
        !(224 <= crate::text::digits_value(a) <= 239) ==> endpoint_traffic_class_spec(
            a + seq!['.'] + b + seq!['.'] + c + seq!['.'] + d + seq!['.'] + port,
        ) == Some("unicast"@),
{
    lemma_ipv4_endpoint_class(a, b, c, d, port);
}

// ---------------------------------------------------------------------
// Protocol
// ---------------------------------------------------------------------

/// A summary that mentions ICMP6, and neither TCP flags nor UDP, makes an
/// ICMP6 packet; a packet is called ICMP only when its summary mentions
/// ICMP but not ICMP6.
pub proof fn law_icmp6_is_not_icmp(source: Seq<char>, destination: Seq<char>, summary: Seq<char>)
    ensures
        contains(summary, "ICMP6"@) && !contains(summary, "Flags ["@) && !contains(summary, "UDP"@)
            ==> classify_protocol_spec(source, destination, summary) == "ICMP6"@,
        classify_protocol_spec(source, destination, summary) == "ICMP"@ ==> contains(
            summary,
            "ICMP"@,
        ) && !contains(summary, "ICMP6"@),
{
    reveal_strlit("ICMP");
    reveal_strlit("ICMP6");
    reveal_strlit("TCP");
    reveal_strlit("UDP");
    reveal_strlit("IP");
    assert("ICMP"@.len() != "ICMP6"@.len());
    assert("ICMP"@.len() != "TCP"@.len());
    assert("ICMP"@.len() != "UDP"@.len());
    assert("ICMP"@.len() != "IP"@.len());
}

/// TCP flags in a summary make a TCP packet and, failing them, the word
/// UDP makes a UDP packet; a packet is called TCP only for its flags.
pub proof fn law_summary_keywords_decide_protocol(
    source: Seq<char>,
    destination: Seq<char>,
    summary: Seq<char>,
)
    ensures
        contains(summary, "Flags ["@) ==> classify_protocol_spec(source, destination, summary)
            == "TCP"@,
        !contains(summary, "Flags ["@) && contains(summary, "UDP"@) ==> classify_protocol_spec(
            source,
            destination,
            summary,
        ) == "UDP"@,
        classify_protocol_spec(source, destination, summary) == "TCP"@ ==> contains(
            summary,
            "Flags ["@,
        ),
{
    reveal_strlit("ICMP");
    reveal_strlit("ICMP6");
    reveal_strlit("TCP");
    reveal_strlit("UDP");
    reveal_strlit("IP");
    assert("TCP"@[0] != "UDP"@[0]);
    assert("TCP"@.len() != "ICMP6"@.len());
    assert("TCP"@.len() != "ICMP"@.len());
    assert("TCP"@.len() != "IP"@.len());
}

// ---------------------------------------------------------------------
// Arrow keys
// ---------------------------------------------------------------------

/// The arrow keys ask for what `j` and `k` ask for, in every state; with
/// no popup open they move the focused list down and up.
pub proof fn law_arrows_act_as_j_and_k(m: AppModel, control: bool)
    ensures
        key_action_spec(m, (KeyPress { code: KeyCode::Up, control })) == key_action_spec(
            m,
            (KeyPress { code: KeyCode::Char('k'), control }),
        ),
        key_action_spec(m, (KeyPress { code: KeyCode::Down, control })) == key_action_spec(
            m,
            (KeyPress { code: KeyCode::Char('j'), control }),
        ),
        !m.keybindings_open && m.popup is None ==> key_action_spec(
            m,
            (KeyPress { code: KeyCode::Up, control }),
        ) == KeyAction::MoveUp,
        !m.keybindings_open && m.popup is None ==> key_action_spec(
            m,
            (KeyPress { code: KeyCode::Down, control }),
        ) == KeyAction::MoveDown,
{
}

// ---------------------------------------------------------------------
// Erasing a date-time bound
// ---------------------------------------------------------------------

/// Backspace in the date-time popup takes the last character off the
/// bound being typed and leaves the other bound and the field as they
/// were.
pub proof fn law_backspace_erases_the_active_bound(o: Option<PopupModel>)
    requires
        (o matches Some(p) && p.state is DateTimeRange),
    ensures
        popup_bound_erased(o) matches Some(q) && q.dimension == o->0.dimension && q.state
            is DateTimeRange && q.state->field == o->0.state->field,
        o->0.state->field == DateTimePopupField::End ==> popup_bound_erased(o)->0.state->start
            == o->0.state->start,
        o->0.state->field == DateTimePopupField::Start ==> popup_bound_erased(o)->0.state->end
            == o->0.state->end,
        o->0.state->field == DateTimePopupField::End && o->0.state->end.len() > 0 ==> popup_bound_erased(o)->0.state->end.push(
            o->0.state->end.last(),
        ) == o->0.state->end,
        o->0.state->field == DateTimePopupField::Start && o->0.state->start.len() > 0 ==> popup_bound_erased(o)->0.state->start.push(
            o->0.state->start.last(),
        ) == o->0.state->start,
        o->0.state->field == DateTimePopupField::End && o->0.state->end.len() == 0 ==> popup_bound_erased(o) == o,
        o->0.state->field == DateTimePopupField::Start && o->0.state->start.len() == 0 ==> popup_bound_erased(o) == o,
{
    let p = o->0;
    if let PopupStateModel::DateTimeRange { start, end, field } = p.state {
        if end.len() > 0 {
            assert(end.drop_last().push(end.last()) =~= end);
        }
        if start.len() > 0 {
            assert(start.drop_last().push(start.last()) =~= start);
        }
    }
}

/// Typing a character a bound may hold and then pressing backspace leaves
/// the date-time popup as it was.
pub proof fn law_backspace_undoes_typing(o: Option<PopupModel>, ch: char)
    requires
        (o matches Some(p) && p.state is DateTimeRange),
        is_allowed_date_time_char(ch),
    ensures
        popup_bound_erased(popup_bound_typed(o, ch)) == o,
{
    let p = o->0;
    if let PopupStateModel::DateTimeRange { start, end, field } = p.state {
        assert(start.push(ch).drop_last() =~= start);
        assert(end.push(ch).drop_last() =~= end);
    }
}

} // verus!
