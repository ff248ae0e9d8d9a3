//! What the filters read out of a packet: the host and port of an
//! endpoint, the IP version, the traffic class, the ICMP type and the TCP
//! flags.
use vstd::prelude::*;

use crate::domain::SpecPacket;
use crate::text::{
    all_ascii_digits, ascii_lower, chars_of, contains, contains_in, digits_value, find, find_in,
    is_all_ascii_digits, lemma_first_match_is_match, occurs_at, parse_digits, rsplit_once,
    rsplit_once_in, slice_chars, starts_with, string_of, strip_prefix, strip_prefix_of, to_ascii_lower, trim,
    trim_of, trim_start, trim_start_of,
};

verus! {

// ---------------------------------------------------------------------
// Splitting on a character
// ---------------------------------------------------------------------

/// `str::split(c)`: the pieces of `s` between occurrences of `c`.
pub open spec fn split_char(s: Seq<char>, c: char) -> Seq<Seq<char>>
    decreases s.len(),
{
    match find(s, seq![c]) {
        Some(i) => {
            if 0 <= i < s.len() {
                seq![s.take(i)] + split_char(s.skip(i + 1), c)
            } else {
                seq![s]
            }
        },
        None => seq![s],
    }
}

pub proof fn lemma_find_char_in_range(s: Seq<char>, c: char)
    ensures
        find(s, seq![c]) matches Some(i) ==> 0 <= i < s.len() && s[i] == c,
{
    lemma_first_match_is_match(s, seq![c], 0);
    if let Some(i) = find(s, seq![c]) {
        assert(s.subrange(i, i + 1)[0] == s[i]);
    }
}

// ---------------------------------------------------------------------
// IPv4 addresses
// ---------------------------------------------------------------------

/// One dotted-quad component: non-empty decimal digits that fit a `u8`.
pub open spec fn is_octet(p: Seq<char>) -> bool {
    p.len() > 0 && all_ascii_digits(p) && digits_value(p) <= 255
}

/// Four dot-separated components, each a valid octet.
pub open spec fn is_ipv4(s: Seq<char>) -> bool {
    let parts = split_char(s, '.');
    parts.len() == 4 && forall|i: int| 0 <= i < 4 ==> is_octet(#[trigger] parts[i])
}

pub fn is_octet_of(p: &[char]) -> (r: bool)
    ensures
        r == is_octet(p@),
{
    if p.len() == 0 || !is_all_ascii_digits(p) {
        return false;
    }
    parse_digits(p, 255).is_some()
}

/// The components of a dotted address, or `None` where it is no IPv4
/// address.
pub fn ipv4_parts(s: &[char]) -> (r: Option<Vec<Vec<char>>>)
    ensures
        match r {
            Some(parts) => is_ipv4(s@) && parts@.len() == 4 && forall|i: int|
                0 <= i < 4 ==> (#[trigger] parts@[i])@ == split_char(s@, '.')[i],
            None => !is_ipv4(s@),
        },
{
    let dot = vec!['.'];
    assert(dot@ =~= seq!['.']);
    let mut rest: Vec<char> = slice_chars(s, 0, s.len());
    let mut parts: Vec<Vec<char>> = Vec::new();
    let ghost done: Seq<Seq<char>> = seq![];
    assert(rest@ =~= s@);
    loop
        invariant
            dot@ == seq!['.'],
            split_char(s@, '.') == done + split_char(rest@, '.'),
            parts@.len() == done.len(),
            done.len() <= 4,
            forall|i: int| 0 <= i < done.len() ==> (#[trigger] parts@[i])@ == done[i],
            forall|i: int| 0 <= i < done.len() ==> is_octet(#[trigger] done[i]),
        decreases rest@.len(),
    {
        proof {
            lemma_find_char_in_range(rest@, '.');
        }
        match find_in(&rest, &dot) {
            Some(i) => {
                assert(find(rest@, seq!['.']) == Some(i as int));
                assert(i < rest@.len());
                let part = slice_chars(&rest, 0, i);
                let n = rest.len();
                let next = slice_chars(&rest, i + 1, n);
                assert(part@ =~= rest@.take(i as int));
                assert(next@ =~= rest@.skip(i + 1));
                if !is_octet_of(&part) || parts.len() == 4 {
                    proof {
                        assert(split_char(rest@, '.') == seq![part@] + split_char(next@, '.'));
                        let whole = split_char(s@, '.');
                        let tail = split_char(next@, '.');
                        assert(tail.len() >= 1) by {
                            lemma_split_char_nonempty(next@, '.');
                        }
                        assert(whole[done.len() as int] == part@);
                        if parts@.len() == 4 {
                            assert(whole.len() >= 6);
                        }
                    }
                    return None;
                }
                proof {
                    assert(split_char(rest@, '.') == seq![part@] + split_char(next@, '.'));
                    assert(done.push(part@) + split_char(next@, '.') =~= done + (seq![part@]
                        + split_char(next@, '.')));
                    done = done.push(part@);
                }
                parts.push(part);
                rest = next;
            },
            None => {
                let last = slice_chars(&rest, 0, rest.len());
                assert(last@ =~= rest@);
                assert(split_char(rest@, '.') == seq![rest@]);
                if !is_octet_of(&last) || parts.len() != 3 {
                    proof {
                        let whole = split_char(s@, '.');
                        assert(whole =~= done.push(rest@));
                        if parts@.len() == 3 {
                            assert(whole[3] == rest@);
                        }
                    }
                    return None;
                }
                parts.push(last);
                proof {
                    let whole = split_char(s@, '.');
                    assert(whole =~= done.push(rest@));
                    assert(forall|i: int| 0 <= i < 4 ==> (#[trigger] parts@[i])@ == whole[i]);
                }
                return Some(parts);
            },
        }
    }
}

pub proof fn lemma_split_char_nonempty(s: Seq<char>, c: char)
    ensures
        split_char(s, c).len() >= 1,
    decreases s.len(),
{
    lemma_find_char_in_range(s, c);
    if let Some(i) = find(s, seq![c]) {
        lemma_split_char_nonempty(s.skip(i + 1), c);
    }
}

pub fn is_ipv4_address(s: &[char]) -> (r: bool)
    ensures
        r == is_ipv4(s@),
{
    ipv4_parts(s).is_some()
}

// ---------------------------------------------------------------------
// Endpoints: `host.port`
// ---------------------------------------------------------------------

/// An endpoint as tcpdump prints it, `host.port`, split into its host and
/// its port: the port is the digits after the last dot, and the host an
/// IPv6 address (it holds a colon) or an IPv4 address.
pub open spec fn split_endpoint(e: Seq<char>) -> Option<(Seq<char>, Seq<char>)> {
    match rsplit_once(e, seq!['.']) {
        Some((host, port)) => {
            if host.len() == 0 || port.len() == 0 || !all_ascii_digits(port) {
                None
            } else if contains(host, seq![':']) || is_ipv4(host) {
                Some((host, port))
            } else {
                None
            }
        },
        None => None,
    }
}

/// The host part of an endpoint, or the whole endpoint where it has no
/// port, without its case.
pub open spec fn endpoint_host_spec(e: Seq<char>) -> Seq<char> {
    match split_endpoint(e) {
        Some((host, _)) => ascii_lower(host),
        None => ascii_lower(e),
    }
}

pub open spec fn endpoint_port_spec(e: Seq<char>) -> Option<Seq<char>> {
    match split_endpoint(e) {
        Some((_, port)) => Some(port),
        None => None,
    }
}

pub fn split_endpoint_host_port(e: &[char]) -> (r: Option<(Vec<char>, Vec<char>)>)
    ensures
        match r {
            Some((h, p)) => split_endpoint(e@) == Some((h@, p@)),
            None => split_endpoint(e@) is None,
        },
{
    let dot = vec!['.'];
    let colon = vec![':'];
    assert(dot@ =~= seq!['.']);
    assert(colon@ =~= seq![':']);
    match rsplit_once_in(e, &dot) {
        Some((host, port)) => {
            if host.len() == 0 || port.len() == 0 || !is_all_ascii_digits(&port) {
                None
            } else if contains_in(&host, &colon) || is_ipv4_address(&host) {
                Some((host, port))
            } else {
                None
            }
        },
        None => None,
    }
}

pub fn endpoint_host_chars(e: &[char]) -> (r: Vec<char>)
    ensures
        r@ == endpoint_host_spec(e@),
{
    match split_endpoint_host_port(e) {
        Some((host, _)) => to_ascii_lower(&host),
        None => to_ascii_lower(e),
    }
}

pub fn endpoint_port_chars(e: &[char]) -> (r: Option<Vec<char>>)
    ensures
        match r {
            Some(p) => endpoint_port_spec(e@) == Some(p@),
            None => endpoint_port_spec(e@) is None,
        },
{
    match split_endpoint_host_port(e) {
        Some((_, port)) => Some(port),
        None => None,
    }
}

/// The host of an endpoint, without case: what comes before its port, or
/// the whole endpoint when it names no port.
pub fn endpoint_host(endpoint: &str) -> (r: String)
    ensures
        r@ == endpoint_host_spec(endpoint@),
{
    string_of(&endpoint_host_chars(&chars_of(endpoint)))
}

/// The port of an endpoint, if it names one.
pub fn endpoint_port(endpoint: &str) -> (r: Option<String>)
    ensures
        match r {
            Some(p) => endpoint_port_spec(endpoint@) == Some(p@),
            None => endpoint_port_spec(endpoint@) is None,
        },
{
    match endpoint_port_chars(&chars_of(endpoint)) {
        Some(p) => Some(string_of(&p)),
        None => None,
    }
}

/// The host of an endpoint as it stands, where it has a port.
pub open spec fn endpoint_bare_host(e: Seq<char>) -> Seq<char> {
    match split_endpoint(e) {
        Some((host, _)) => host,
        None => e,
    }
}

fn bare_host(e: &[char]) -> (r: Vec<char>)
    ensures
        r@ == endpoint_bare_host(e@),
{
    match split_endpoint_host_port(e) {
        Some((host, _)) => host,
        None => slice_chars(e, 0, e.len()),
    }
}

// ---------------------------------------------------------------------
// IP version and traffic class
// ---------------------------------------------------------------------

/// `ipv6` where the host holds a colon, `ipv4` where it is a dotted quad.
pub open spec fn endpoint_ip_version_spec(e: Seq<char>) -> Option<Seq<char>> {
    let host = endpoint_bare_host(e);
    if contains(host, seq![':']) {
        Some("ipv6"@)
    } else if is_ipv4(host) {
        Some("ipv4"@)
    } else {
        None
    }
}

/// The IP version of a packet: that of its source, or else of its
/// destination.
pub open spec fn ip_version_of(source: Seq<char>, destination: Seq<char>) -> Option<Seq<char>> {
    match endpoint_ip_version_spec(source) {
        Some(v) => Some(v),
        None => endpoint_ip_version_spec(destination),
    }
}

pub open spec fn packet_ip_version_spec(p: SpecPacket) -> Option<Seq<char>> {
    ip_version_of(p.source, p.destination)
}

pub fn endpoint_ip_version(e: &[char]) -> (r: Option<Vec<char>>)
    ensures
        match r {
            Some(v) => endpoint_ip_version_spec(e@) == Some(v@),
            None => endpoint_ip_version_spec(e@) is None,
        },
{
    let host = bare_host(e);
    let colon = vec![':'];
    assert(colon@ =~= seq![':']);
    if contains_in(&host, &colon) {
        Some(chars_of("ipv6"))
    } else if is_ipv4_address(&host) {
        Some(chars_of("ipv4"))
    } else {
        None
    }
}

pub fn packet_ip_version(source: &[char], destination: &[char]) -> (r: Option<Vec<char>>)
    ensures
        match r {
            Some(v) => ip_version_of(source@, destination@) == Some(v@),
            None => ip_version_of(source@, destination@) is None,
        },
{
    match endpoint_ip_version(source) {
        Some(v) => Some(v),
        None => endpoint_ip_version(destination),
    }
}

/// Whether the destination of a packet is a unicast, multicast or
/// broadcast address.
pub open spec fn endpoint_traffic_class_spec(e: Seq<char>) -> Option<Seq<char>> {
    let host = ascii_lower(endpoint_bare_host(e));
    if contains(host, seq![':']) {
        if starts_with(host, "ff"@) {
            Some("multicast"@)
        } else {
            Some("unicast"@)
        }
    } else if !is_ipv4(host) {
        None
    } else {
        let parts = split_char(host, '.');
        if digits_value(parts[3]) == 255 {
            Some("broadcast"@)
        } else if 224 <= digits_value(parts[0]) && digits_value(parts[0]) <= 239 {
            Some("multicast"@)
        } else {
            Some("unicast"@)
        }
    }
}

pub open spec fn packet_traffic_class_spec(p: SpecPacket) -> Option<Seq<char>> {
    endpoint_traffic_class_spec(p.destination)
}

pub fn endpoint_traffic_class(e: &[char]) -> (r: Option<Vec<char>>)
    ensures
        match r {
            Some(v) => endpoint_traffic_class_spec(e@) == Some(v@),
            None => endpoint_traffic_class_spec(e@) is None,
        },
{
    let bare = bare_host(e);
    let host = to_ascii_lower(&bare);
    let colon = vec![':'];
    assert(colon@ =~= seq![':']);
    if contains_in(&host, &colon) {
        let ff = chars_of("ff");
        if occurs_at(&host, &ff, 0) {
            assert(host@.subrange(0, ff@.len() as int) =~= host@.take(ff@.len() as int));
            return Some(chars_of("multicast"));
        } else {
            assert(!starts_with(host@, ff@)) by {
                if starts_with(host@, ff@) {
                    assert(host@.subrange(0, ff@.len() as int) =~= host@.take(ff@.len() as int));
                }
            }
            return Some(chars_of("unicast"));
        }
    }
    match ipv4_parts(&host) {
        None => None,
        Some(parts) => {
            proof {
                assert(is_octet(split_char(host@, '.')[3]));
                assert(is_octet(split_char(host@, '.')[0]));
                assert(parts@[3]@ == split_char(host@, '.')[3]);
                assert(parts@[0]@ == split_char(host@, '.')[0]);
            }
            let last = parse_digits(&parts[3], 255);
            let first = parse_digits(&parts[0], 255);
            match (first, last) {
                (Some(a), Some(d)) => {
                    if d == 255 {
                        Some(chars_of("broadcast"))
                    } else if 224 <= a && a <= 239 {
                        Some(chars_of("multicast"))
                    } else {
                        Some(chars_of("unicast"))
                    }
                },
                _ => None,
            }
        },
    }
}

// ---------------------------------------------------------------------
// ICMP type
// ---------------------------------------------------------------------

pub open spec fn is_label_separator(c: char) -> bool {
    c == ',' || c == ':' || c == ' '
}

/// What `trim_start_matches([',', ':', ' '])` leaves.
pub open spec fn trim_label_separators(s: Seq<char>) -> Seq<char>
    decreases s.len(),
{
    if s.len() > 0 && is_label_separator(s[0]) {
        trim_label_separators(s.drop_first())
    } else {
        s
    }
}

/// The ICMP message type that a summary such as `ICMP echo request, id 1`
/// names: the text after `ICMP6` or `ICMP` and any separators, up to the
/// next comma, trimmed and without case.
pub open spec fn message_type_from_summary_spec(summary: Seq<char>) -> Option<Seq<char>> {
    let trimmed = trim(summary);
    let rest = match strip_prefix(trimmed, "ICMP6"@) {
        Some(r) => Some(r),
        None => strip_prefix(trimmed, "ICMP"@),
    };
    match rest {
        None => None,
        Some(r) => {
            let normalized = trim_start(trim_label_separators(r));
            if normalized.len() == 0 {
                None
            } else {
                let label = trim(split_char(normalized, ',')[0]);
                if label.len() == 0 {
                    None
                } else {
                    Some(ascii_lower(label))
                }
            }
        },
    }
}

/// The ICMP type of a packet whose protocol is ICMP or ICMP6.
pub open spec fn packet_message_type_spec(p: SpecPacket) -> Option<Seq<char>> {
    let proto = ascii_lower(p.protocol);
    if proto != "icmp"@ && proto != "icmp6"@ {
        None
    } else {
        message_type_from_summary_spec(p.summary)
    }
}

fn trim_start_separators(v: &[char]) -> (r: Vec<char>)
    ensures
        r@ == trim_label_separators(v@),
{
    let mut i: usize = 0;
    assert(v@.skip(0) =~= v@);
    while i < v.len() && (v[i] == ',' || v[i] == ':' || v[i] == ' ')
        invariant
            i <= v@.len(),
            trim_label_separators(v@) == trim_label_separators(v@.skip(i as int)),
        decreases v@.len() - i,
    {
        let ghost x = v@.skip(i as int);
        assert(x[0] == v@[i as int]);
        assert(x.drop_first() =~= v@.skip(i + 1));
        i = i + 1;
    }
    proof {
        let rest = v@.skip(i as int);
        if rest.len() > 0 {
            assert(rest[0] == v@[i as int]);
        }
    }
    let r = slice_chars(v, i, v.len());
    assert(r@ =~= v@.skip(i as int));
    r
}

/// The first piece of `v` before a comma.
fn first_piece_before_comma(v: &[char]) -> (r: Vec<char>)
    ensures
        r@ == split_char(v@, ',')[0],
{
    let comma = vec![','];
    assert(comma@ =~= seq![',']);
    proof {
        lemma_find_char_in_range(v@, ',');
    }
    match find_in(v, &comma) {
        Some(i) => {
            let r = slice_chars(v, 0, i);
            assert(r@ =~= v@.take(i as int));
            r
        },
        None => slice_chars(v, 0, v.len()),
    }
}

pub fn message_type_from_summary(summary: &[char]) -> (r: Option<Vec<char>>)
    ensures
        match r {
            Some(t) => message_type_from_summary_spec(summary@) == Some(t@),
            None => message_type_from_summary_spec(summary@) is None,
        },
{
    let trimmed = trim_of(summary);
    let prefix6 = chars_of("ICMP6");
    let prefix4 = chars_of("ICMP");
    let rest = match strip_prefix_of(&trimmed, &prefix6) {
        Some(r) => r,
        None => match strip_prefix_of(&trimmed, &prefix4) {
            Some(r) => r,
            None => {
                return None;
            },
        },
    };
    let separated = trim_start_separators(&rest);
    let normalized = trim_start_of(&separated);
    if normalized.len() == 0 {
        return None;
    }
    let piece = first_piece_before_comma(&normalized);
    let label = trim_of(&piece);
    if label.len() == 0 {
        return None;
    }
    Some(to_ascii_lower(&label))
}

// ---------------------------------------------------------------------
// TCP flags
// ---------------------------------------------------------------------

/// The lower-case name of the flag that tcpdump writes as `symbol`.
pub open spec fn tcp_flag_label_spec(symbol: char) -> Option<Seq<char>> {
    if symbol == 'N' {
        Some("ns"@)
    } else if symbol == 'W' {
        Some("cwr"@)
    } else if symbol == 'E' {
        Some("ece"@)
    } else if symbol == 'U' {
        Some("urg"@)
    } else if symbol == '.' {
        Some("ack"@)
    } else if symbol == 'P' {
        Some("psh"@)
    } else if symbol == 'R' {
        Some("rst"@)
    } else if symbol == 'S' {
        Some("syn"@)
    } else if symbol == 'F' {
        Some("fin"@)
    } else {
        None
    }
}

/// The flag names of the symbols `s`, in order, skipping unknown symbols.
pub open spec fn flag_labels(s: Seq<char>) -> Seq<Seq<char>>
    decreases s.len(),
{
    if s.len() == 0 {
        seq![]
    } else {
        match tcp_flag_label_spec(s.last()) {
            Some(l) => flag_labels(s.drop_last()).push(l),
            None => flag_labels(s.drop_last()),
        }
    }
}

/// The flags that a summary's `Flags [...]` field lists.
pub open spec fn tcp_flags_from_summary_spec(summary: Seq<char>) -> Seq<Seq<char>> {
    match find(summary, "Flags ["@) {
        None => seq![],
        Some(start) => {
            let rest = summary.skip(start + "Flags ["@.len());
            match find(rest, "]"@) {
                None => seq![],
                Some(end) => flag_labels(rest.take(end)),
            }
        },
    }
}

/// The nine flag names that the TCP flags filter offers, in header order.
pub open spec fn all_tcp_flag_labels_spec() -> Seq<Seq<char>> {
    seq!["NS"@, "CWR"@, "ECE"@, "URG"@, "ACK"@, "PSH"@, "RST"@, "SYN"@, "FIN"@]
}

pub fn tcp_flag_label(symbol: char) -> (r: Option<Vec<char>>)
    ensures
        match r {
            Some(l) => tcp_flag_label_spec(symbol) == Some(l@),
            None => tcp_flag_label_spec(symbol) is None,
        },
{
    match symbol {
        'N' => Some(chars_of("ns")),
        'W' => Some(chars_of("cwr")),
        'E' => Some(chars_of("ece")),
        'U' => Some(chars_of("urg")),
        '.' => Some(chars_of("ack")),
        'P' => Some(chars_of("psh")),
        'R' => Some(chars_of("rst")),
        'S' => Some(chars_of("syn")),
        'F' => Some(chars_of("fin")),
        _ => None,
    }
}

pub fn tcp_flags_from_summary(summary: &[char]) -> (r: Vec<Vec<char>>)
    ensures
        r@.map_values(|l: Vec<char>| l@) == tcp_flags_from_summary_spec(summary@),
{
    let marker = chars_of("Flags [");
    let close = chars_of("]");
    let mut flags: Vec<Vec<char>> = Vec::new();
    let start = match find_in(summary, &marker) {
        Some(s) => s,
        None => {
            assert(flags@.map_values(|l: Vec<char>| l@) =~= seq![]);
            return flags;
        },
    };
    proof {
        lemma_first_match_is_match(summary@, marker@, 0);
        assert(find(summary@, marker@) == Some(start as int));
        assert(start + marker@.len() <= summary@.len());
    }
    let n = summary.len();
    let rest = slice_chars(summary, start + marker.len(), n);
    assert(rest@ =~= summary@.skip(start + marker@.len()));
    let end = match find_in(&rest, &close) {
        Some(e) => e,
        None => {
            assert(flags@.map_values(|l: Vec<char>| l@) =~= seq![]);
            return flags;
        },
    };
    proof {
        lemma_first_match_is_match(rest@, close@, 0);
    }
    let mut i: usize = 0;
    while i < end
        invariant
            end <= rest@.len(),
            i <= end,
            flags@.map_values(|l: Vec<char>| l@) == flag_labels(rest@.take(i as int)),
        decreases end - i,
    {
        assert(rest@.take(i + 1).drop_last() =~= rest@.take(i as int));
        assert(rest@.take(i + 1).last() == rest@[i as int]);
        match tcp_flag_label(rest[i]) {
            Some(label) => {
                let ghost before = flags@;
                flags.push(label);
                assert(flags@.map_values(|l: Vec<char>| l@) =~= before.map_values(
                    |l: Vec<char>| l@,
                ).push(label@));
            },
            None => {},
        }
        i = i + 1;
    }
    assert(rest@.take(end as int) =~= rest@.take(end as int));
    flags
}

} // verus!
