//! Which packets a filter keeps, the text of a filter expression, and the
//! values that a filter dimension offers.
use vstd::prelude::*;

use crate::domain::{FilterDimension, SpecPacket, dimension_name, packets_view};
use crate::fields::{
    endpoint_host_chars, endpoint_host_spec, endpoint_port_chars, endpoint_port_spec,
    endpoint_traffic_class,
    message_type_from_summary, packet_ip_version, packet_ip_version_spec,
    packet_message_type_spec, packet_traffic_class_spec, tcp_flags_from_summary,
    tcp_flags_from_summary_spec,
};
use crate::text::{
    ascii_lower, chars_eq, chars_of, chars_of_all, chars_view, compare_chars, lex_le, lex_lt,
    append_chars, string_of, strings_of_all, strings_view, strip_prefix, strip_prefix_of, to_ascii_lower, trim,
    trim_of,
};

verus! {

// ---------------------------------------------------------------------
// Sets of TCP flags
// ---------------------------------------------------------------------

/// The flag names that a list of selected values stands for: each value
/// trimmed and without case, blank values left out.
pub open spec fn selected_flag_set(values: Seq<Seq<char>>) -> Set<Seq<char>>
    decreases values.len(),
{
    if values.len() == 0 {
        Set::empty()
    } else {
        let rest = selected_flag_set(values.drop_last());
        let t = trim(values.last());
        if t.len() == 0 {
            rest
        } else {
            rest.insert(ascii_lower(t))
        }
    }
}

/// A packet matches a set of TCP flags when the set is not empty and the
/// packet carries exactly those flags.
pub open spec fn matches_flag_set(p: SpecPacket, values: Seq<Seq<char>>) -> bool {
    let selected = selected_flag_set(values);
    selected != Set::<Seq<char>>::empty() && selected == tcp_flags_from_summary_spec(
        p.summary,
    ).to_set()
}

// ---------------------------------------------------------------------
// One value of one dimension
// ---------------------------------------------------------------------

/// Whether a packet has `value` along dimension `d`. Values are compared
/// trimmed and without case, except date-time values, which are compared
/// trimmed.
pub open spec fn matches_value(p: SpecPacket, d: FilterDimension, value: Seq<char>) -> bool {
    let query = ascii_lower(trim(value));
    match d {
        FilterDimension::Host => endpoint_host_spec(p.source) == query || endpoint_host_spec(
            p.destination,
        ) == query,
        FilterDimension::Source => endpoint_host_spec(p.source) == query,
        FilterDimension::Destination => endpoint_host_spec(p.destination) == query,
        FilterDimension::Interface => match p.interface {
            Some(i) => ascii_lower(i) == ascii_lower(query),
            None => false,
        },
        FilterDimension::Port => endpoint_port_spec(p.source) == Some(query) || endpoint_port_spec(
            p.destination,
        ) == Some(query),
        FilterDimension::SourcePort => endpoint_port_spec(p.source) == Some(query),
        FilterDimension::DestinationPort => endpoint_port_spec(p.destination) == Some(query),
        FilterDimension::Protocol => ascii_lower(p.protocol) == query,
        FilterDimension::TcpFlags => matches_flag_set(p, seq![value]),
        FilterDimension::IpVersion => packet_ip_version_spec(p) == Some(query),
        FilterDimension::DateTime => p.timestamp == trim(value),
        FilterDimension::TrafficClass => packet_traffic_class_spec(p) == Some(query),
        FilterDimension::IcmpType => packet_message_type_spec(p) == Some(query),
    }
}

/// Whether a packet matches the values selected for dimension `d`: for TCP
/// flags the exact set, for the others any one value.
pub open spec fn matches_values(p: SpecPacket, d: FilterDimension, values: Seq<Seq<char>>) -> bool {
    if d == FilterDimension::TcpFlags {
        matches_flag_set(p, values)
    } else {
        exists|i: int| 0 <= i < values.len() && matches_value(p, d, #[trigger] values[i])
    }
}

// ---------------------------------------------------------------------
// Date-time ranges
// ---------------------------------------------------------------------

/// A blank bound is no bound; a bound is kept trimmed.
pub open spec fn normalize_bound(v: Seq<char>) -> Option<Seq<char>> {
    if trim(v).len() == 0 {
        None
    } else {
        Some(trim(v))
    }
}

/// The bounds that the stored values of a date-time filter name: a value
/// `start=...` sets the start, `end=...` the end, a later value overriding
/// an earlier one.
pub open spec fn decode_range(values: Seq<Seq<char>>) -> (Option<Seq<char>>, Option<Seq<char>>)
    decreases values.len(),
{
    if values.len() == 0 {
        (None, None)
    } else {
        let (start, end) = decode_range(values.drop_last());
        let v = values.last();
        match strip_prefix(v, "start="@) {
            Some(rest) => (normalize_bound(rest), end),
            None => match strip_prefix(v, "end="@) {
                Some(rest) => (start, normalize_bound(rest)),
                None => (start, end),
            },
        }
    }
}

/// The values that store a date-time range.
pub open spec fn encode_range(start: Option<Seq<char>>, end: Option<Seq<char>>) -> Seq<
    Seq<char>,
> {
    let s = match start {
        Some(v) => seq!["start="@ + v],
        None => seq![],
    };
    let e = match end {
        Some(v) => seq!["end="@ + v],
        None => seq![],
    };
    s + e
}

/// The bounds in ascending order.
pub open spec fn ordered_bounds(start: Seq<char>, end: Seq<char>) -> (Seq<char>, Seq<char>) {
    if lex_le(start, end) {
        (start, end)
    } else {
        (end, start)
    }
}

/// A timestamp is in a range when it is at or after its start and at or
/// before its end, compared as text; reversed bounds are swapped.
pub open spec fn matches_date_time(p: SpecPacket, values: Seq<Seq<char>>) -> bool {
    match decode_range(values) {
        (None, None) => true,
        (Some(start), None) => lex_le(start, p.timestamp),
        (None, Some(end)) => lex_le(p.timestamp, end),
        (Some(start), Some(end)) => {
            let (lo, hi) = ordered_bounds(start, end);
            lex_le(lo, p.timestamp) && lex_le(p.timestamp, hi)
        },
    }
}

// ---------------------------------------------------------------------
// All active filters
// ---------------------------------------------------------------------

/// Whether a packet passes the filter of dimension `d` with the selected
/// `values`; no values is no filter.
pub open spec fn passes_dimension(p: SpecPacket, d: FilterDimension, values: Seq<Seq<char>>) -> bool {
    if values.len() == 0 {
        true
    } else if d == FilterDimension::DateTime {
        matches_date_time(p, values)
    } else {
        matches_values(p, d, values)
    }
}

/// Whether a packet passes every active filter but that of `excluded`.
pub open spec fn passes_filters_except(
    p: SpecPacket,
    dims: Seq<FilterDimension>,
    active: Seq<Seq<Seq<char>>>,
    excluded: Option<FilterDimension>,
) -> bool {
    forall|i: int|
        0 <= i < dims.len() ==> excluded == Some(dims[i]) || i >= active.len() || passes_dimension(
            p,
            #[trigger] dims[i],
            active[i],
        )
}

/// The packets that pass every active filter but that of `excluded`, in
/// their order.
pub open spec fn filtered_packets(
    all: Seq<SpecPacket>,
    dims: Seq<FilterDimension>,
    active: Seq<Seq<Seq<char>>>,
    excluded: Option<FilterDimension>,
) -> Seq<SpecPacket>
    decreases all.len(),
{
    if all.len() == 0 {
        seq![]
    } else {
        let kept = filtered_packets(all.drop_last(), dims, active, excluded);
        if passes_filters_except(all.last(), dims, active, excluded) {
            kept.push(all.last())
        } else {
            kept
        }
    }
}

// ---------------------------------------------------------------------
// Filter expressions
// ---------------------------------------------------------------------

/// `parts` joined with `sep` between them.
pub open spec fn join(parts: Seq<Seq<char>>, sep: Seq<char>) -> Seq<char>
    decreases parts.len(),
{
    if parts.len() == 0 {
        seq![]
    } else if parts.len() == 1 {
        parts[0]
    } else {
        join(parts.drop_last(), sep) + sep + parts.last()
    }
}

/// The clause of a date-time range: `date time >= start`,
/// `date time <= end` or `date time between [lo .. hi]`.
pub open spec fn date_time_clause(values: Seq<Seq<char>>) -> Option<Seq<char>> {
    match decode_range(values) {
        (None, None) => None,
        (Some(start), None) => Some("date time >= "@ + start),
        (None, Some(end)) => Some("date time <= "@ + end),
        (Some(start), Some(end)) => {
            let (lo, hi) = ordered_bounds(start, end);
            Some("date time between ["@ + lo + " .. "@ + hi + "]"@)
        },
    }
}

/// The clause of one dimension: `name = value` for one value,
/// `name in [v1, v2]` for several, none for no values.
pub open spec fn dimension_clause(d: FilterDimension, values: Seq<Seq<char>>) -> Option<Seq<char>> {
    if values.len() == 0 {
        None
    } else if d == FilterDimension::DateTime {
        date_time_clause(values)
    } else if values.len() == 1 {
        Some(dimension_name(d) + " = "@ + values[0])
    } else {
        Some(dimension_name(d) + " in ["@ + join(values, ", "@) + "]"@)
    }
}

/// The clauses of the first `n` dimensions, in order.
pub open spec fn clauses_upto(
    dims: Seq<FilterDimension>,
    active: Seq<Seq<Seq<char>>>,
    n: int,
) -> Seq<Seq<char>>
    decreases n,
{
    if n <= 0 {
        seq![]
    } else {
        let before = clauses_upto(dims, active, n - 1);
        if n - 1 < active.len() {
            match dimension_clause(dims[n - 1], active[n - 1]) {
                Some(c) => before.push(c),
                None => before,
            }
        } else {
            before
        }
    }
}

/// The filter expression: the clauses of all dimensions joined with
/// ` and `.
pub open spec fn filter_expression_spec(
    dims: Seq<FilterDimension>,
    active: Seq<Seq<Seq<char>>>,
) -> Seq<char> {
    join(clauses_upto(dims, active, dims.len() as int), " and "@)
}

// ---------------------------------------------------------------------
// Candidate values
// ---------------------------------------------------------------------

pub open spec fn option_seq(o: Option<Seq<char>>) -> Seq<Seq<char>> {
    match o {
        Some(v) => seq![v],
        None => seq![],
    }
}

/// The values that one packet offers along dimension `d`.
pub open spec fn packet_candidates(p: SpecPacket, d: FilterDimension) -> Seq<Seq<char>> {
    match d {
        FilterDimension::Host => seq![
            endpoint_host_spec(p.source),
            endpoint_host_spec(p.destination),
        ],
        FilterDimension::Source => seq![endpoint_host_spec(p.source)],
        FilterDimension::Destination => seq![endpoint_host_spec(p.destination)],
        FilterDimension::Interface => match p.interface {
            Some(i) => seq![ascii_lower(i)],
            None => seq![],
        },
        FilterDimension::Port => option_seq(endpoint_port_spec(p.source)) + option_seq(
            endpoint_port_spec(p.destination),
        ),
        FilterDimension::SourcePort => option_seq(endpoint_port_spec(p.source)),
        FilterDimension::DestinationPort => option_seq(endpoint_port_spec(p.destination)),
        FilterDimension::Protocol => seq![ascii_lower(p.protocol)],
        FilterDimension::TcpFlags => seq![],
        FilterDimension::IpVersion => option_seq(packet_ip_version_spec(p)),
        FilterDimension::DateTime => seq![p.timestamp],
        FilterDimension::TrafficClass => option_seq(packet_traffic_class_spec(p)),
        FilterDimension::IcmpType => option_seq(packet_message_type_spec(p)),
    }
}

/// The values that some packet of `ps` offers along dimension `d`.
pub open spec fn candidate_set(ps: Seq<SpecPacket>, d: FilterDimension) -> Set<Seq<char>>
    decreases ps.len(),
{
    if ps.len() == 0 {
        Set::empty()
    } else {
        candidate_set(ps.drop_last(), d).union(packet_candidates(ps.last(), d).to_set())
    }
}

pub open spec fn is_port_dimension(d: FilterDimension) -> bool {
    d == FilterDimension::Port || d == FilterDimension::SourcePort || d
        == FilterDimension::DestinationPort
}

/// The number that a port value spells, where it fits 16 bits.
pub open spec fn port_number(s: Seq<char>) -> Option<nat> {
    crate::text::parse_unsigned(s, 65535)
}

/// Ports are listed by number, values that are no 16-bit number first,
/// ties broken by the text.
pub open spec fn port_before(a: Seq<char>, b: Seq<char>) -> bool {
    match (port_number(a), port_number(b)) {
        (None, Some(_)) => true,
        (Some(_), None) => false,
        (Some(x), Some(y)) => x < y || (x == y && lex_lt(a, b)),
        (None, None) => lex_lt(a, b),
    }
}

/// The order in which a dimension lists its values.
pub open spec fn candidate_before(d: FilterDimension, a: Seq<char>, b: Seq<char>) -> bool {
    if is_port_dimension(d) {
        port_before(a, b)
    } else {
        lex_lt(a, b)
    }
}

pub open spec fn strictly_sorted(s: Seq<Seq<char>>, d: FilterDimension) -> bool {
    forall|i: int, j: int| 0 <= i < j < s.len() ==> candidate_before(d, #[trigger] s[i], #[trigger] s[j])
}

/// The list of values that the popup of dimension `d` offers over the
/// packets `ps`: for TCP flags the nine flag names; otherwise every value
/// that some packet offers, once, in the dimension's order.
pub open spec fn is_candidate_list(r: Seq<Seq<char>>, ps: Seq<SpecPacket>, d: FilterDimension) -> bool {
    if d == FilterDimension::TcpFlags {
        r == crate::fields::all_tcp_flag_labels_spec()
    } else {
        r.to_set() == candidate_set(ps, d) && strictly_sorted(r, d)
    }
}

pub proof fn lemma_candidate_before_transitive(
    d: FilterDimension,
    a: Seq<char>,
    b: Seq<char>,
    c: Seq<char>,
)
    ensures
        candidate_before(d, a, b) && candidate_before(d, b, c) ==> candidate_before(d, a, c),
{
    crate::text::lemma_lex_lt_transitive(a, b, c);
}

pub proof fn lemma_candidate_before_total(d: FilterDimension, a: Seq<char>, b: Seq<char>)
    ensures
        a == b || candidate_before(d, a, b) || candidate_before(d, b, a),
{
    crate::text::lemma_lex_lt_total(a, b);
}

// ---------------------------------------------------------------------
// Executable filters
// ---------------------------------------------------------------------

/// The distinct flag names that selected values stand for.
fn selected_flags(values: &[Vec<char>]) -> (r: Vec<Vec<char>>)
    ensures
        chars_view(r@).to_set() == selected_flag_set(
            chars_view(values@),
        ),
{
    let mut r: Vec<Vec<char>> = Vec::new();
    let mut i: usize = 0;
    while i < values.len()
        invariant
            i <= values@.len(),
            chars_view(r@).to_set() == selected_flag_set(
                chars_view(values@.take(i as int)),
            ),
        decreases values@.len() - i,
    {
        let ghost before = r@;
        let t = trim_of(&values[i]);
        let ghost vs = chars_view(values@.take(i + 1));
        assert(vs.drop_last() =~= chars_view(values@.take(i as int)));
        assert(vs.last() == values@[i as int]@);
        if t.len() > 0 {
            let l = to_ascii_lower(&t);
            r.push(l);
            assert(chars_view(r@) =~= chars_view(before).push(
                l@,
            ));
            proof {
                chars_view(before).lemma_push_to_set_commute(l@);
            }
        }
        i = i + 1;
    }
    assert(values@.take(values@.len() as int) =~= values@);
    r
}

fn seq_contains(list: &Vec<Vec<char>>, x: &[char]) -> (r: bool)
    ensures
        r == chars_view(list@).contains(x@),
{
    let mut i: usize = 0;
    while i < list.len()
        invariant
            i <= list@.len(),
            forall|k: int| 0 <= k < i ==> list@[k]@ != x@,
        decreases list@.len() - i,
    {
        if chars_eq(&list[i], x) {
            assert(chars_view(list@)[i as int] == x@);
            return true;
        }
        i = i + 1;
    }
    proof {
        let m = chars_view(list@);
        if m.contains(x@) {
            let k = choose|k: int| 0 <= k < m.len() && #[trigger] m[k] == x@;
            assert(list@[k]@ == x@);
        }
    }
    false
}

/// Whether every element of `a` is one of `b`.
fn all_contained(a: &Vec<Vec<char>>, b: &Vec<Vec<char>>) -> (r: bool)
    ensures
        r == chars_view(a@).to_set().subset_of(
            chars_view(b@).to_set(),
        ),
{
    let ghost sa = chars_view(a@);
    let ghost sb = chars_view(b@);
    let mut i: usize = 0;
    while i < a.len()
        invariant
            i <= a@.len(),
            sa == chars_view(a@),
            sb == chars_view(b@),
            forall|k: int| 0 <= k < i ==> sb.contains(#[trigger] sa[k]),
        decreases a@.len() - i,
    {
        if !seq_contains(b, &a[i]) {
            assert(sa.to_set().contains(sa[i as int]));
            assert(!sb.to_set().contains(sa[i as int]));
            return false;
        }
        i = i + 1;
    }
    assert forall|x: Seq<char>| sa.to_set().contains(x) implies sb.to_set().contains(x) by {
        let k = choose|k: int| 0 <= k < sa.len() && #[trigger] sa[k] == x;
        assert(sb.contains(sa[k]));
    }
    true
}

fn packet_matches_flag_set(summary: &[char], values: &[Vec<char>]) -> (r: bool)
    ensures
        forall|p: SpecPacket|
            p.summary == summary@ ==> r == matches_flag_set(
                p,
                chars_view(values@),
            ),
{
    let selected = selected_flags(values);
    if selected.len() == 0 {
        proof {
            assert(chars_view(selected@) =~= seq![]);
            assert(chars_view(selected@).to_set() =~= Set::empty());
        }
        return false;
    }
    let flags = tcp_flags_from_summary(summary);
    let ghost ss = chars_view(selected@).to_set();
    let ghost fs = chars_view(flags@).to_set();
    proof {
        let m = chars_view(selected@);
        assert(m[0] == selected@[0]@);
        assert(m.contains(m[0]));
        assert(ss.contains(m[0]));
        assert(ss != Set::<Seq<char>>::empty());
    }
    let r = all_contained(&selected, &flags) && all_contained(&flags, &selected);
    proof {
        if r {
            assert(ss =~= fs);
        } else if ss == fs {
            assert(ss.subset_of(fs));
        }
    }
    r
}

/// Whether a packet has `value` along dimension `d`.
pub fn packet_matches_value(p: &crate::domain::PacketSummary, d: FilterDimension, value: &[char]) -> (r: bool)
    ensures
        r == matches_value(p@, d, value@),
{
    let trimmed = trim_of(value);
    let query = to_ascii_lower(&trimmed);
    let source = chars_of(p.source.as_str());
    let destination = chars_of(p.destination.as_str());
    match d {
        FilterDimension::Host => {
            chars_eq(&endpoint_host_chars(&source), &query) || chars_eq(
                &endpoint_host_chars(&destination),
                &query,
            )
        },
        FilterDimension::Source => chars_eq(&endpoint_host_chars(&source), &query),
        FilterDimension::Destination => chars_eq(&endpoint_host_chars(&destination), &query),
        FilterDimension::Interface => match &p.interface {
            Some(i) => {
                let lowered = to_ascii_lower(&chars_of(i.as_str()));
                chars_eq(&lowered, &to_ascii_lower(&query))
            },
            None => false,
        },
        FilterDimension::Port => {
            port_equals(&source, &query) || port_equals(&destination, &query)
        },
        FilterDimension::SourcePort => port_equals(&source, &query),
        FilterDimension::DestinationPort => port_equals(&destination, &query),
        FilterDimension::Protocol => {
            let proto = to_ascii_lower(&chars_of(p.protocol.as_str()));
            chars_eq(&proto, &query)
        },
        FilterDimension::TcpFlags => {
            let summary = chars_of(p.summary.as_str());
            let values = vec![slice_all(value)];
            assert(chars_view(values@) =~= seq![value@]);
            packet_matches_flag_set(&summary, &values)
        },
        FilterDimension::IpVersion => optional_equals(
            packet_ip_version(&source, &destination),
            &query,
        ),
        FilterDimension::DateTime => {
            let ts = chars_of(p.timestamp.as_str());
            chars_eq(&ts, &trimmed)
        },
        FilterDimension::TrafficClass => optional_equals(
            endpoint_traffic_class(&destination),
            &query,
        ),
        FilterDimension::IcmpType => {
            let proto = to_ascii_lower(&chars_of(p.protocol.as_str()));
            let summary = chars_of(p.summary.as_str());
            if !chars_eq(&proto, &chars_of("icmp")) && !chars_eq(&proto, &chars_of("icmp6")) {
                false
            } else {
                optional_equals(message_type_from_summary(&summary), &query)
            }
        },
    }
}

fn slice_all(v: &[char]) -> (r: Vec<char>)
    ensures
        r@ == v@,
{
    crate::text::slice_chars(v, 0, v.len())
}

fn port_equals(endpoint: &[char], query: &[char]) -> (r: bool)
    ensures
        r == (endpoint_port_spec(endpoint@) == Some(query@)),
{
    match endpoint_port_chars(endpoint) {
        Some(port) => chars_eq(&port, query),
        None => false,
    }
}

fn optional_equals(o: Option<Vec<char>>, query: &[char]) -> (r: bool)
    ensures
        r == (match o {
            Some(v) => v@ == query@,
            None => false,
        }),
{
    match o {
        Some(v) => chars_eq(&v, query),
        None => false,
    }
}

/// Whether a packet matches the values selected for dimension `d`.
pub fn packet_matches_values(
    p: &crate::domain::PacketSummary,
    d: FilterDimension,
    values: &[String],
) -> (r: bool)
    ensures
        r == matches_values(p@, d, strings_view(values@)),
{
    let chars = chars_of_all(values);
    if d == FilterDimension::TcpFlags {
        let summary = chars_of(p.summary.as_str());
        return packet_matches_flag_set(&summary, &chars);
    }
    let ghost vs = strings_view(values@);
    let mut i: usize = 0;
    while i < chars.len()
        invariant
            i <= chars@.len(),
            chars_view(chars@) == vs,
            vs == strings_view(values@),
            d != FilterDimension::TcpFlags,
            forall|k: int| 0 <= k < i ==> !matches_value(p@, d, #[trigger] vs[k]),
        decreases chars@.len() - i,
    {
        assert(vs[i as int] == chars@[i as int]@);
        if packet_matches_value(p, d, &chars[i]) {
            assert(matches_value(p@, d, vs[i as int]));
            assert(0 <= i < vs.len());
            assert(matches_values(p@, d, vs));
            return true;
        }
        i = i + 1;
    }
    false
}

fn normalize_bound_of(v: &[char]) -> (r: Option<Vec<char>>)
    ensures
        match r {
            Some(b) => normalize_bound(v@) == Some(b@),
            None => normalize_bound(v@) is None,
        },
{
    let t = trim_of(v);
    if t.len() == 0 {
        None
    } else {
        Some(t)
    }
}

pub open spec fn option_chars_view(o: Option<Vec<char>>) -> Option<Seq<char>> {
    match o {
        Some(v) => Some(v@),
        None => None,
    }
}

/// The bounds that the stored values of a date-time filter name.
pub fn decode_range_of(values: &[Vec<char>]) -> (r: (Option<Vec<char>>, Option<Vec<char>>))
    ensures
        decode_range(chars_view(values@)) == (option_chars_view(r.0), option_chars_view(r.1)),
{
    let start_key = chars_of("start=");
    let end_key = chars_of("end=");
    let mut start: Option<Vec<char>> = None;
    let mut end: Option<Vec<char>> = None;
    let mut i: usize = 0;
    while i < values.len()
        invariant
            i <= values@.len(),
            start_key@ == "start="@,
            end_key@ == "end="@,
            decode_range(chars_view(values@.take(i as int))) == (
                option_chars_view(start),
                option_chars_view(end),
            ),
        decreases values@.len() - i,
    {
        let ghost vs = chars_view(values@.take(i + 1));
        assert(vs.drop_last() =~= chars_view(values@.take(i as int)));
        assert(vs.last() == values@[i as int]@);
        match strip_prefix_of(&values[i], &start_key) {
            Some(rest) => {
                start = normalize_bound_of(&rest);
            },
            None => match strip_prefix_of(&values[i], &end_key) {
                Some(rest) => {
                    end = normalize_bound_of(&rest);
                },
                None => {},
            },
        }
        i = i + 1;
    }
    assert(values@.take(values@.len() as int) =~= values@);
    (start, end)
}

fn lex_le_of(a: &[char], b: &[char]) -> (r: bool)
    ensures
        r == lex_le(a@, b@),
{
    compare_chars(a, b) <= 0
}

/// Whether a timestamp is in the range that the stored values name.
pub fn packet_matches_date_time(timestamp: &[char], values: &[Vec<char>]) -> (r: bool)
    ensures
        forall|p: SpecPacket|
            p.timestamp == timestamp@ ==> r == matches_date_time(p, chars_view(values@)),
{
    let (start, end) = decode_range_of(values);
    match (start, end) {
        (None, None) => true,
        (Some(s), None) => lex_le_of(&s, timestamp),
        (None, Some(e)) => lex_le_of(timestamp, &e),
        (Some(s), Some(e)) => {
            if lex_le_of(&s, &e) {
                lex_le_of(&s, timestamp) && lex_le_of(timestamp, &e)
            } else {
                lex_le_of(&e, timestamp) && lex_le_of(timestamp, &s)
            }
        },
    }
}

/// Whether a packet passes the filter of one dimension.
pub fn packet_passes_dimension(
    p: &crate::domain::PacketSummary,
    d: FilterDimension,
    values: &[String],
) -> (r: bool)
    ensures
        r == passes_dimension(p@, d, strings_view(values@)),
{
    if values.len() == 0 {
        return true;
    }
    if d == FilterDimension::DateTime {
        let chars = chars_of_all(values);
        let ts = chars_of(p.timestamp.as_str());
        packet_matches_date_time(&ts, &chars)
    } else {
        packet_matches_values(p, d, values)
    }
}

/// Whether a packet passes every active filter but that of `excluded`.
pub fn packet_passes_filters_except(
    p: &crate::domain::PacketSummary,
    dims: &[FilterDimension],
    active: &[Vec<String>],
    excluded: Option<FilterDimension>,
) -> (r: bool)
    ensures
        r == passes_filters_except(p@, dims@, active_view(active@), excluded),
{
    let ghost av = active_view(active@);
    let mut i: usize = 0;
    while i < dims.len()
        invariant
            i <= dims@.len(),
            av == active_view(active@),
            forall|k: int|
                0 <= k < i ==> excluded == Some(dims@[k]) || k >= av.len() || passes_dimension(
                    p@,
                    #[trigger] dims@[k],
                    av[k],
                ),
        decreases dims@.len() - i,
    {
        let skip = match excluded {
            Some(x) => x == dims[i],
            None => false,
        };
        if !skip && i < active.len() {
            assert(av[i as int] == strings_view(active@[i as int]@));
            if !packet_passes_dimension(p, dims[i], &active[i]) {
                return false;
            }
        }
        i = i + 1;
    }
    true
}

/// The models of the selected values of every dimension.
pub open spec fn active_view(active: Seq<Vec<String>>) -> Seq<Seq<Seq<char>>> {
    active.map_values(|v: Vec<String>| strings_view(v@))
}

/// `parts` joined with `sep` between them.
pub fn join_of(parts: &[Vec<char>], sep: &[char]) -> (r: Vec<char>)
    ensures
        r@ == join(chars_view(parts@), sep@),
{
    let mut r: Vec<char> = Vec::new();
    if parts.len() == 0 {
        assert(chars_view(parts@) =~= seq![]);
        return r;
    }
    append_chars(&mut r, &parts[0]);
    let mut i: usize = 1;
    assert(chars_view(parts@.take(1)) =~= seq![parts@[0]@]);
    while i < parts.len()
        invariant
            1 <= i <= parts@.len(),
            r@ == join(chars_view(parts@.take(i as int)), sep@),
        decreases parts@.len() - i,
    {
        append_chars(&mut r, sep);
        append_chars(&mut r, &parts[i]);
        let ghost t = chars_view(parts@.take(i + 1));
        assert(t.drop_last() =~= chars_view(parts@.take(i as int)));
        assert(t.last() == parts@[i as int]@);
        i = i + 1;
    }
    assert(parts@.take(parts@.len() as int) =~= parts@);
    r
}

fn concat2(a: &[char], b: &[char]) -> (r: Vec<char>)
    ensures
        r@ == a@ + b@,
{
    let mut r = crate::text::slice_chars(a, 0, a.len());
    append_chars(&mut r, b);
    r
}

fn date_time_clause_of(values: &[Vec<char>]) -> (r: Option<Vec<char>>)
    ensures
        option_chars_view(r) == date_time_clause(chars_view(values@)),
{
    let (start, end) = decode_range_of(values);
    match (start, end) {
        (None, None) => None,
        (Some(s), None) => Some(concat2(&chars_of("date time >= "), &s)),
        (None, Some(e)) => Some(concat2(&chars_of("date time <= "), &e)),
        (Some(s), Some(e)) => {
            let (lo, hi) = if lex_le_of(&s, &e) {
                (s, e)
            } else {
                (e, s)
            };
            let mut r = chars_of("date time between [");
            append_chars(&mut r, &lo);
            append_chars(&mut r, &chars_of(" .. "));
            append_chars(&mut r, &hi);
            append_chars(&mut r, &chars_of("]"));
            Some(r)
        },
    }
}

fn dimension_clause_of(d: FilterDimension, values: &[Vec<char>]) -> (r: Option<Vec<char>>)
    ensures
        option_chars_view(r) == dimension_clause(d, chars_view(values@)),
{
    if values.len() == 0 {
        return None;
    }
    if d == FilterDimension::DateTime {
        return date_time_clause_of(values);
    }
    let mut r = chars_of(d.as_str());
    if values.len() == 1 {
        append_chars(&mut r, &chars_of(" = "));
        append_chars(&mut r, &values[0]);
    } else {
        append_chars(&mut r, &chars_of(" in ["));
        append_chars(&mut r, &join_of(values, &chars_of(", ")));
        append_chars(&mut r, &chars_of("]"));
    }
    Some(r)
}

/// The filter expression that the active values make.
pub fn build_filter_expression(dims: &[FilterDimension], active: &[Vec<String>]) -> (r: String)
    ensures
        r@ == filter_expression_spec(dims@, active_view(active@)),
{
    let ghost av = active_view(active@);
    let mut clauses: Vec<Vec<char>> = Vec::new();
    let mut i: usize = 0;
    while i < dims.len()
        invariant
            i <= dims@.len(),
            av == active_view(active@),
            chars_view(clauses@) == clauses_upto(dims@, av, i as int),
        decreases dims@.len() - i,
    {
        if i < active.len() {
            let values = chars_of_all(&active[i]);
            assert(chars_view(values@) == av[i as int]);
            match dimension_clause_of(dims[i], &values) {
                Some(c) => {
                    let ghost before = clauses@;
                    clauses.push(c);
                    assert(chars_view(clauses@) =~= chars_view(before).push(c@));
                },
                None => {},
            }
        }
        i = i + 1;
    }
    let joined = join_of(&clauses, &chars_of(" and "));
    string_of(&joined)
}

fn port_number_of(s: &[char]) -> (r: Option<u64>)
    ensures
        match r {
            Some(n) => port_number(s@) == Some(n as nat),
            None => port_number(s@) is None,
        },
{
    if s.len() == 0 || !crate::text::is_all_ascii_digits(s) {
        return None;
    }
    crate::text::parse_digits(s, 65535)
}

/// Compares two values in the order in which dimension `d` lists them:
/// `-1`, `0` or `1` as `a` comes before, equals or comes after `b`.
pub fn candidate_compare(d: FilterDimension, a: &[char], b: &[char]) -> (r: i8)
    ensures
        r == -1 <==> candidate_before(d, a@, b@),
        r == 0 <==> a@ == b@,
        r == 1 <==> candidate_before(d, b@, a@),
        r == -1 || r == 0 || r == 1,
{
    proof {
        crate::text::lemma_lex_lt_irreflexive(a@);
        crate::text::lemma_lex_lt_irreflexive(b@);
        crate::text::lemma_lex_lt_asymmetric(a@, b@);
    }
    let textual = compare_chars(a, b);
    if !(d == FilterDimension::Port || d == FilterDimension::SourcePort || d
        == FilterDimension::DestinationPort) {
        return textual;
    }
    match (port_number_of(a), port_number_of(b)) {
        (None, Some(_)) => -1,
        (Some(_), None) => 1,
        (Some(x), Some(y)) => {
            if x < y {
                -1
            } else if y < x {
                1
            } else {
                textual
            }
        },
        (None, None) => textual,
    }
}

/// Puts `x` in its place in a strictly sorted list, unless it is there.
fn insert_candidate(list: &mut Vec<Vec<char>>, x: Vec<char>, d: FilterDimension)
    requires
        strictly_sorted(chars_view(old(list)@), d),
    ensures
        strictly_sorted(chars_view(final(list)@), d),
        chars_view(final(list)@).to_set() == chars_view(old(list)@).to_set().insert(x@),
{
    let ghost old_view = chars_view(list@);
    let mut k: usize = 0;
    while k < list.len() && candidate_compare(d, &list[k], &x) == -1
        invariant
            k <= list@.len(),
            chars_view(list@) == old_view,
            forall|m: int| 0 <= m < k ==> candidate_before(d, #[trigger] old_view[m], x@),
        decreases list@.len() - k,
    {
        k = k + 1;
    }
    if k < list.len() && chars_eq(&list[k], &x) {
        proof {
            assert(old_view[k as int] == x@);
            assert(old_view.contains(x@));
            assert(old_view.to_set().insert(x@) =~= old_view.to_set());
        }
        return;
    }
    proof {
        if k < old_view.len() {
            assert(old_view[k as int] == list@[k as int]@);
            lemma_candidate_before_total(d, old_view[k as int], x@);
        }
    }
    let ghost xv = x@;
    list.insert(k, x);
    proof {
        let nv = chars_view(list@);
        assert(nv =~= old_view.insert(k as int, xv));
        assert forall|i: int, j: int| 0 <= i < j < nv.len() implies candidate_before(
            d,
            #[trigger] nv[i],
            #[trigger] nv[j],
        ) by {
            if j < k {
                assert(nv[i] == old_view[i] && nv[j] == old_view[j]);
            } else if j == k {
                assert(nv[i] == old_view[i]);
            } else if i == k {
                assert(nv[j] == old_view[j - 1]);
                if j - 1 > k {
                    assert(candidate_before(d, old_view[k as int], old_view[j - 1]));
                    lemma_candidate_before_transitive(d, xv, old_view[k as int], old_view[j - 1]);
                }
            } else if i < k {
                assert(nv[i] == old_view[i] && nv[j] == old_view[j - 1]);
                if j - 1 == k {
                    lemma_candidate_before_transitive(d, old_view[i], xv, old_view[k as int]);
                } else {
                    lemma_candidate_before_transitive(d, old_view[i], xv, old_view[k as int]);
                    assert(candidate_before(d, old_view[k as int], old_view[j - 1]));
                    lemma_candidate_before_transitive(d, old_view[i], old_view[k as int], old_view[j - 1]);
                }
            } else {
                assert(nv[i] == old_view[i - 1] && nv[j] == old_view[j - 1]);
            }
        }
        assert forall|y: Seq<char>| nv.to_set().contains(y) <==> old_view.to_set().insert(
            xv,
        ).contains(y) by {
            if nv.contains(y) {
                let i = choose|i: int| 0 <= i < nv.len() && nv[i] == y;
                if i < k {
                    assert(old_view[i] == y);
                } else if i > k {
                    assert(old_view[i - 1] == y);
                }
            }
            if old_view.contains(y) {
                let i = choose|i: int| 0 <= i < old_view.len() && old_view[i] == y;
                if i < k {
                    assert(nv[i] == y);
                } else {
                    assert(nv[i + 1] == y);
                }
            }
            if y == xv {
                assert(nv[k as int] == y);
            }
        }
        assert(nv.to_set() =~= old_view.to_set().insert(xv));
    }
}

fn option_list(o: Option<Vec<char>>) -> (r: Vec<Vec<char>>)
    ensures
        chars_view(r@) == option_seq(option_chars_view(o)),
{
    let mut r: Vec<Vec<char>> = Vec::new();
    match o {
        Some(v) => {
            r.push(v);
            assert(chars_view(r@) =~= seq![r@[0]@]);
        },
        None => {
            assert(chars_view(r@) =~= seq![]);
        },
    }
    r
}

/// The values that one packet offers along dimension `d`.
fn packet_candidates_of(p: &crate::domain::PacketSummary, d: FilterDimension) -> (r: Vec<Vec<char>>)
    ensures
        chars_view(r@) == packet_candidates(p@, d),
{
    let source = chars_of(p.source.as_str());
    let destination = chars_of(p.destination.as_str());
    let mut r: Vec<Vec<char>> = Vec::new();
    match d {
        FilterDimension::Host => {
            r.push(endpoint_host_chars(&source));
            r.push(endpoint_host_chars(&destination));
            assert(chars_view(r@) =~= packet_candidates(p@, d));
        },
        FilterDimension::Source => {
            r.push(endpoint_host_chars(&source));
            assert(chars_view(r@) =~= packet_candidates(p@, d));
        },
        FilterDimension::Destination => {
            r.push(endpoint_host_chars(&destination));
            assert(chars_view(r@) =~= packet_candidates(p@, d));
        },
        FilterDimension::Interface => {
            match &p.interface {
                Some(i) => {
                    r.push(to_ascii_lower(&chars_of(i.as_str())));
                },
                None => {},
            }
            assert(chars_view(r@) =~= packet_candidates(p@, d));
        },
        FilterDimension::Port => {
            let a = option_list(endpoint_port_chars(&source));
            let b = option_list(endpoint_port_chars(&destination));
            r = a;
            let mut b2 = b;
            let ghost ra = chars_view(r@);
            let ghost rb = chars_view(b2@);
            r.append(&mut b2);
            assert(chars_view(r@) =~= ra + rb);
        },
        FilterDimension::SourcePort => {
            r = option_list(endpoint_port_chars(&source));
        },
        FilterDimension::DestinationPort => {
            r = option_list(endpoint_port_chars(&destination));
        },
        FilterDimension::Protocol => {
            r.push(to_ascii_lower(&chars_of(p.protocol.as_str())));
            assert(chars_view(r@) =~= packet_candidates(p@, d));
        },
        FilterDimension::TcpFlags => {
            assert(chars_view(r@) =~= packet_candidates(p@, d));
        },
        FilterDimension::IpVersion => {
            r = option_list(packet_ip_version(&source, &destination));
        },
        FilterDimension::DateTime => {
            r.push(chars_of(p.timestamp.as_str()));
            assert(chars_view(r@) =~= packet_candidates(p@, d));
        },
        FilterDimension::TrafficClass => {
            r = option_list(endpoint_traffic_class(&destination));
        },
        FilterDimension::IcmpType => {
            r = option_list(packet_message_type_of(p));
        },
    }
    r
}

fn packet_message_type_of(p: &crate::domain::PacketSummary) -> (r: Option<Vec<char>>)
    ensures
        option_chars_view(r) == packet_message_type_spec(p@),
{
    let proto = to_ascii_lower(&chars_of(p.protocol.as_str()));
    let summary = chars_of(p.summary.as_str());
    if !chars_eq(&proto, &chars_of("icmp")) && !chars_eq(&proto, &chars_of("icmp6")) {
        None
    } else {
        message_type_from_summary(&summary)
    }
}

/// The nine flag names that the TCP flags filter offers.
pub fn all_tcp_flag_labels() -> (r: Vec<Vec<char>>)
    ensures
        chars_view(r@) == crate::fields::all_tcp_flag_labels_spec(),
{
    let r = vec![
        chars_of("NS"),
        chars_of("CWR"),
        chars_of("ECE"),
        chars_of("URG"),
        chars_of("ACK"),
        chars_of("PSH"),
        chars_of("RST"),
        chars_of("SYN"),
        chars_of("FIN"),
    ];
    assert(chars_view(r@) =~= crate::fields::all_tcp_flag_labels_spec());
    r
}

/// The values that the popup of dimension `d` offers over `packets`.
pub fn filter_candidates(packets: &[crate::domain::PacketSummary], d: FilterDimension) -> (r: Vec<String>)
    ensures
        is_candidate_list(strings_view(r@), packets_view(packets@), d),
{
    if d == FilterDimension::TcpFlags {
        let labels = all_tcp_flag_labels();
        return strings_of_all(&labels);
    }
    let mut list: Vec<Vec<char>> = Vec::new();
    let mut i: usize = 0;
    assert(chars_view(list@) =~= seq![]);
    assert(chars_view(list@).to_set() =~= Set::empty());
    while i < packets.len()
        invariant
            i <= packets@.len(),
            strictly_sorted(chars_view(list@), d),
            chars_view(list@).to_set() == candidate_set(packets_view(packets@.take(i as int)), d),
        decreases packets@.len() - i,
    {
        let values = packet_candidates_of(&packets[i], d);
        let ghost base = chars_view(list@).to_set();
        let mut k: usize = 0;
        while k < values.len()
            invariant
                k <= values@.len(),
                strictly_sorted(chars_view(list@), d),
                chars_view(list@).to_set() == base.union(chars_view(values@).take(k as int).to_set()),
            decreases values@.len() - k,
        {
            let ghost before = chars_view(list@).to_set();
            insert_candidate(&mut list, slice_all(&values[k]), d);
            proof {
                let t = chars_view(values@).take(k + 1);
                assert(t =~= chars_view(values@).take(k as int).push(values@[k as int]@));
                chars_view(values@).take(k as int).lemma_push_to_set_commute(values@[k as int]@);
                assert(chars_view(list@).to_set() =~= base.union(t.to_set()));
            }
            k = k + 1;
        }
        proof {
            assert(chars_view(values@).take(values@.len() as int) =~= chars_view(values@));
            let ps = packets_view(packets@.take(i + 1));
            assert(ps.drop_last() =~= packets_view(packets@.take(i as int)));
            assert(ps.last() == packets@[i as int]@);
        }
        i = i + 1;
    }
    assert(packets@.take(packets@.len() as int) =~= packets@);
    strings_of_all(&list)
}

/// The packets that pass every active filter but that of `excluded`, in
/// their order.
pub fn filter_packets(
    all: &[crate::domain::PacketSummary],
    dims: &[FilterDimension],
    active: &[Vec<String>],
    excluded: Option<FilterDimension>,
) -> (r: Vec<crate::domain::PacketSummary>)
    ensures
        packets_view(r@) == filtered_packets(packets_view(all@), dims@, active_view(active@), excluded),
{
    let mut r: Vec<crate::domain::PacketSummary> = Vec::new();
    let mut i: usize = 0;
    while i < all.len()
        invariant
            i <= all@.len(),
            packets_view(r@) == filtered_packets(
                packets_view(all@.take(i as int)),
                dims@,
                active_view(active@),
                excluded,
            ),
        decreases all@.len() - i,
    {
        let ghost ps = packets_view(all@.take(i + 1));
        assert(ps.drop_last() =~= packets_view(all@.take(i as int)));
        assert(ps.last() == all@[i as int]@);
        if packet_passes_filters_except(&all[i], dims, active, excluded) {
            let ghost before = r@;
            r.push(all[i].duplicate());
            assert(packets_view(r@) =~= packets_view(before).push(all@[i as int]@));
        }
        i = i + 1;
    }
    assert(all@.take(all@.len() as int) =~= all@);
    r
}

} // verus!
