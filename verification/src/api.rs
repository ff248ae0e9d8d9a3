//! Reading tcpdump's text output (`tcpdump -nn -tttt -r <file>`) into
//! packet records.
use vstd::prelude::*;

use crate::capture::CaptureError;
use crate::domain::{PacketSummary, SpecPacket, packets_view};
use crate::text::{
    all_ascii_digits, append_chars, chars_of, contains, contains_in, digits_value, find_in, find_in_from,
    first_match_from, is_all_ascii_digits, is_ascii_digit, lemma_digits_prefix_monotone,
    lemma_first_match_is_match, lemma_last_match_is_match, parse_digits, parse_unsigned, rfind,
    rfind_in, rsplit_once, rsplit_once_in, slice_chars, split_once, split_once_in, string_of, trim,
    trim_end_char, trim_end_char_of, trim_of,
};

verus! {

/// What to read: the capture file and the tcpdump filter expression, one
/// word per argument.
#[derive(Debug, Clone, Copy)]
pub struct TcpdumpReadRequest<'a> {
    pub pcap_path: &'a str,
    pub filter_args: &'a [&'a str],
}

/// The tcpdump program that captures are read with.
pub struct TcpdumpApi {
    binary: String,
}

/// The arguments with which a capture is read: `-nn -tttt -r <file>`
/// followed by the filter words.
pub open spec fn read_args_spec(pcap_path: Seq<char>, filter_args: Seq<Seq<char>>) -> Seq<Seq<char>> {
    seq!["-nn"@, "-tttt"@, "-r"@, pcap_path] + filter_args
}

impl TcpdumpApi {
    pub fn new(binary: String) -> (r: Self)
        ensures
            r.binary_spec() == binary@,
    {
        TcpdumpApi { binary }
    }

    pub closed spec fn binary_spec(&self) -> Seq<char> {
        self.binary@
    }

    /// The program to run.
    pub fn binary(&self) -> (r: &str)
        ensures
            r@ == self.binary_spec(),
    {
        self.binary.as_str()
    }

    /// The arguments that read the capture of `request` with its filter.
    pub fn read_args(&self, request: TcpdumpReadRequest<'_>) -> (r: Vec<String>)
        ensures
            r@.map_values(|a: String| a@) == read_args_spec(
                request.pcap_path@,
                request.filter_args@.map_values(|a: &str| a@),
            ),
    {
        let mut args: Vec<String> = Vec::new();
        args.push(String::from_str("-nn"));
        args.push(String::from_str("-tttt"));
        args.push(String::from_str("-r"));
        args.push(String::from_str(request.pcap_path));
        let ghost head = seq!["-nn"@, "-tttt"@, "-r"@, request.pcap_path@];
        assert(args@.map_values(|a: String| a@) =~= head);
        let words = request.filter_args;
        let mut i: usize = 0;
        while i < words.len()
            invariant
                i <= words@.len(),
                words@ == request.filter_args@,
                args@.map_values(|a: String| a@) == head + words@.take(i as int).map_values(
                    |a: &str| a@,
                ),
            decreases words@.len() - i,
        {
            let ghost before = args@;
            args.push(String::from_str(words[i]));
            assert(args@.map_values(|a: String| a@) =~= before.map_values(|a: String| a@).push(
                words@[i as int]@,
            ));
            assert(words@.take(i + 1).map_values(|a: &str| a@) =~= words@.take(
                i as int,
            ).map_values(|a: &str| a@).push(words@[i as int]@));
            i = i + 1;
        }
        assert(words@.take(words@.len() as int) =~= words@);
        args
    }
}

// ---------------------------------------------------------------------
// Lines
// ---------------------------------------------------------------------

/// A line without the carriage return of a `\r\n` ending.
pub open spec fn strip_cr(l: Seq<char>) -> Seq<char> {
    if l.len() > 0 && l.last() == '\r' {
        l.drop_last()
    } else {
        l
    }
}

/// `str::lines` on the text from position `i`: pieces between `\n`
/// characters, a `\r` before the `\n` dropped, and no empty piece after a
/// final `\n`.
pub open spec fn lines_from(s: Seq<char>, i: int) -> Seq<Seq<char>>
    decreases s.len() - i,
{
    if i < 0 || i >= s.len() {
        seq![]
    } else {
        match first_match_from(s, seq!['\n'], i) {
            Some(j) => {
                if i <= j < s.len() {
                    seq![strip_cr(s.subrange(i, j))] + lines_from(s, j + 1)
                } else {
                    seq![]
                }
            },
            None => seq![s.subrange(i, s.len() as int)],
        }
    }
}

pub open spec fn lines(s: Seq<char>) -> Seq<Seq<char>> {
    lines_from(s, 0)
}

// ---------------------------------------------------------------------
// One line
// ---------------------------------------------------------------------

/// The number of decimal digits at the start of `s`.
pub open spec fn leading_digits(s: Seq<char>) -> nat
    decreases s.len(),
{
    if s.len() > 0 && is_ascii_digit(s[0]) {
        1 + leading_digits(s.drop_first())
    } else {
        0
    }
}

/// The number after the last `length ` of a summary, where digits follow
/// it and the number fits a `usize`.
pub open spec fn parse_length_spec(summary: Seq<char>) -> Option<nat> {
    match rfind(summary, "length "@) {
        None => None,
        Some(i) => {
            let rest = summary.skip(i + "length "@.len());
            parse_unsigned(rest.take(leading_digits(rest) as int), usize::MAX as nat)
        },
    }
}

/// The endpoint ends in a dot and a non-empty run of digits.
pub open spec fn endpoint_has_numeric_port_spec(endpoint: Seq<char>) -> bool {
    match rsplit_once(endpoint, seq!['.']) {
        Some((_, port)) => port.len() > 0 && all_ascii_digits(port),
        None => false,
    }
}

/// The protocol that a line's summary and endpoints show: TCP where the
/// summary has flags, UDP, ICMP6 or ICMP where it names them, UDP where
/// both endpoints carry a port, and IP otherwise.
pub open spec fn classify_protocol_spec(
    source: Seq<char>,
    destination: Seq<char>,
    summary: Seq<char>,
) -> Seq<char> {
    if contains(summary, "Flags ["@) {
        "TCP"@
    } else if contains(summary, "UDP"@) {
        "UDP"@
    } else if contains(summary, "ICMP6"@) {
        "ICMP6"@
    } else if contains(summary, "ICMP"@) {
        "ICMP"@
    } else if endpoint_has_numeric_port_spec(source) && endpoint_has_numeric_port_spec(
        destination,
    ) {
        "UDP"@
    } else {
        "IP"@
    }
}

/// The packet that one line of `tcpdump -nn -tttt` output describes:
/// `<timestamp> IP <source> > <destination>: <summary>` (or `IP6`).
/// Lines of other shapes describe no packet.
pub open spec fn parse_line_spec(line: Seq<char>) -> Option<SpecPacket> {
    let head = match split_once(line, " IP "@) {
        Some(parts) => Some(parts),
        None => split_once(line, " IP6 "@),
    };
    match head {
        None => None,
        Some((timestamp, payload)) => {
            let (path, summary) = match split_once(payload, ": "@) {
                Some(parts) => parts,
                None => (payload, seq![]),
            };
            match split_once(path, " > "@) {
                None => None,
                Some((source, destination)) => Some(
                    SpecPacket {
                        timestamp: trim(timestamp),
                        interface: None,
                        source: trim(source),
                        destination: trim_end_char(trim(destination), ':'),
                        protocol: classify_protocol_spec(source, destination, summary),
                        length: match parse_length_spec(summary) {
                            Some(n) => n,
                            None => 0,
                        },
                        summary: trim(summary),
                    },
                ),
            }
        },
    }
}

/// The packets that the lines of `s` describe, in order.
pub open spec fn parse_lines_spec(ls: Seq<Seq<char>>) -> Seq<SpecPacket>
    decreases ls.len(),
{
    if ls.len() == 0 {
        seq![]
    } else {
        match parse_line_spec(ls.last()) {
            Some(p) => parse_lines_spec(ls.drop_last()).push(p),
            None => parse_lines_spec(ls.drop_last()),
        }
    }
}

pub open spec fn parse_stdout_spec(s: Seq<char>) -> Seq<SpecPacket> {
    parse_lines_spec(lines(s))
}

fn endpoint_has_numeric_port(endpoint: &[char]) -> (r: bool)
    ensures
        r == endpoint_has_numeric_port_spec(endpoint@),
{
    let dot = vec!['.'];
    assert(dot@ =~= seq!['.']);
    match rsplit_once_in(endpoint, &dot) {
        Some((_, port)) => port.len() > 0 && is_all_ascii_digits(&port),
        None => false,
    }
}

fn classify_protocol(source: &[char], destination: &[char], summary: &[char]) -> (r: String)
    ensures
        r@ == classify_protocol_spec(source@, destination@, summary@),
{
    if contains_in(summary, &chars_of("Flags [")) {
        String::from_str("TCP")
    } else if contains_in(summary, &chars_of("UDP")) {
        String::from_str("UDP")
    } else if contains_in(summary, &chars_of("ICMP6")) {
        String::from_str("ICMP6")
    } else if contains_in(summary, &chars_of("ICMP")) {
        String::from_str("ICMP")
    } else if endpoint_has_numeric_port(source) && endpoint_has_numeric_port(destination) {
        String::from_str("UDP")
    } else {
        String::from_str("IP")
    }
}

fn parse_length(summary: &[char]) -> (r: Option<usize>)
    ensures
        match r {
            Some(n) => parse_length_spec(summary@) == Some(n as nat),
            None => parse_length_spec(summary@) is None,
        },
{
    let marker = chars_of("length ");
    let i = match rfind_in(summary, &marker) {
        Some(i) => i,
        None => {
            return None;
        },
    };
    proof {
        lemma_last_match_is_match(summary@, marker@, summary@.len() + 1int);
    }
    let n = summary.len();
    let rest = slice_chars(summary, i + marker.len(), n);
    assert(rest@ =~= summary@.skip(i + marker@.len()));
    let mut k: usize = 0;
    assert(rest@.skip(0) =~= rest@);
    while k < rest.len() && char_digit(rest[k])
        invariant
            k <= rest@.len(),
            leading_digits(rest@) == k + leading_digits(rest@.skip(k as int)),
            forall|m: int| 0 <= m < k ==> is_ascii_digit(#[trigger] rest@[m]),
        decreases rest@.len() - k,
    {
        assert(rest@.skip(k as int).drop_first() =~= rest@.skip(k + 1));
        assert(rest@.skip(k as int)[0] == rest@[k as int]);
        k = k + 1;
    }
    proof {
        if k < rest@.len() {
            assert(rest@.skip(k as int)[0] == rest@[k as int]);
        }
        assert(leading_digits(rest@.skip(k as int)) == 0);
    }
    let digits = slice_chars(&rest, 0, k);
    assert(digits@ =~= rest@.take(k as int));
    if digits.len() == 0 {
        return None;
    }
    let max = usize::MAX as u64;
    match parse_digits(&digits, max) {
        Some(v) => Some(v as usize),
        None => None,
    }
}

fn char_digit(c: char) -> (r: bool)
    ensures
        r == is_ascii_digit(c),
{
    '0' <= c && c <= '9'
}

fn parse_line_chars(line: &[char]) -> (r: Option<PacketSummary>)
    ensures
        match r {
            Some(p) => parse_line_spec(line@) == Some(p@),
            None => parse_line_spec(line@) is None,
        },
{
    let ip4 = chars_of(" IP ");
    let ip6 = chars_of(" IP6 ");
    let (timestamp, payload) = match split_once_in(line, &ip4) {
        Some(parts) => parts,
        None => match split_once_in(line, &ip6) {
            Some(parts) => parts,
            None => {
                return None;
            },
        },
    };
    let colon = chars_of(": ");
    let (path, summary) = match split_once_in(&payload, &colon) {
        Some(parts) => parts,
        None => {
            let empty: Vec<char> = Vec::new();
            assert(empty@ =~= seq![]);
            (slice_chars(&payload, 0, payload.len()), empty)
        },
    };
    proof {
        let head = match split_once(line@, " IP "@) {
            Some(parts) => Some(parts),
            None => split_once(line@, " IP6 "@),
        };
        assert(ip4@ == " IP "@);
        assert(head == Some((timestamp@, payload@)));
        let (sp, ss) = match split_once(payload@, ": "@) {
            Some(parts) => parts,
            None => (payload@, seq![]),
        };
        assert(sp == path@);
        assert(ss == summary@);
    }
    let arrow = chars_of(" > ");
    let (source, destination) = match split_once_in(&path, &arrow) {
        Some(parts) => parts,
        None => {
            return None;
        },
    };
    let protocol = classify_protocol(&source, &destination, &summary);
    let length = match parse_length(&summary) {
        Some(n) => n,
        None => 0,
    };
    let trimmed_destination = trim_of(&destination);
    let p = PacketSummary {
        timestamp: string_of(&trim_of(&timestamp)),
        interface: None,
        source: string_of(&trim_of(&source)),
        destination: string_of(&trim_end_char_of(&trimmed_destination, ':')),
        protocol,
        length,
        summary: string_of(&trim_of(&summary)),
    };
    assert(p@ =~= parse_line_spec(line@).unwrap());
    Some(p)
}

/// The packet that one line of tcpdump output describes, if any.
pub fn parse_tcpdump_line(line: &str) -> (r: Option<PacketSummary>)
    ensures
        match r {
            Some(p) => parse_line_spec(line@) == Some(p@),
            None => parse_line_spec(line@) is None,
        },
{
    let chars = chars_of(line);
    parse_line_chars(&chars)
}

/// The packets that the lines of tcpdump's output describe, in order;
/// lines of other shapes are skipped.
pub fn parse_tcpdump_stdout(stdout: &str) -> (r: Vec<PacketSummary>)
    ensures
        packets_view(r@) == parse_stdout_spec(stdout@),
{
    let s = chars_of(stdout);
    let newline = vec!['\n'];
    assert(newline@ =~= seq!['\n']);
    let n = s.len();
    let mut out: Vec<PacketSummary> = Vec::new();
    let mut i: usize = 0;
    let ghost done: Seq<Seq<char>> = seq![];
    while i < n
        invariant
            n == s@.len(),
            i <= n,
            newline@ == seq!['\n'],
            lines(s@) == done + lines_from(s@, i as int),
            packets_view(out@) == parse_lines_spec(done),
        decreases n - i,
    {
        let (line, next) = match find_in_from(&s, &newline, i) {
            Some(j) => {
                proof {
                    lemma_first_match_is_match(s@, seq!['\n'], i as int);
                }
                let raw = slice_chars(&s, i, j);
                let line = if j > i && s[j - 1] == '\r' {
                    slice_chars(&s, i, j - 1)
                } else {
                    slice_chars(&s, i, j)
                };
                assert(line@ =~= strip_cr(raw@));
                (line, j + 1)
            },
            None => (slice_chars(&s, i, n), n),
        };
        proof {
            assert(lines_from(s@, i as int) =~= seq![line@] + lines_from(s@, next as int));
            assert(done.push(line@) + lines_from(s@, next as int) =~= done + (seq![line@]
                + lines_from(s@, next as int)));
            assert(done.push(line@).drop_last() =~= done);
        }
        let ghost before = out@;
        match parse_line_chars(&line) {
            Some(p) => {
                out.push(p);
                assert(packets_view(out@) =~= packets_view(before).push(p@));
            },
            None => {},
        }
        proof {
            done = done.push(line@);
        }
        i = next;
    }
    assert(done =~= lines(s@));
    out
}

impl Default for TcpdumpApi {
    /// The `tcpdump` found on the search path.
    fn default() -> (r: Self)
        ensures
            r.binary_spec() == "tcpdump"@,
    {
        TcpdumpApi::new(String::from_str("tcpdump"))
    }
}

/// The message of a tcpdump run that ended with a failing status.
pub open spec fn exit_failure_message(status: Seq<char>, stderr: Seq<char>) -> Seq<char> {
    "tcpdump exited with status "@ + status + ": "@ + trim(stderr)
}

/// The message of a tcpdump run whose output was not UTF-8.
pub open spec fn bad_output_message(reason: Seq<char>) -> Seq<char> {
    "tcpdump output was not valid UTF-8: "@ + reason
}

/// What a finished tcpdump run gives. A failing status is an error that
/// quotes the status and the trimmed error output; output that was not
/// UTF-8 (`stdout` is then the reason) is an error too; otherwise the
/// packets that the output describes.
pub fn read_result(
    succeeded: bool,
    status: &str,
    stderr: &str,
    stdout: Result<String, String>,
) -> (r: Result<Vec<PacketSummary>, CaptureError>)
    ensures
        !succeeded ==> (r matches Err(e) && e.message_spec() == exit_failure_message(
            status@,
            stderr@,
        )),
        succeeded ==> match stdout {
            Ok(text) => r matches Ok(packets) && packets_view(packets@) == parse_stdout_spec(
                text@,
            ),
            Err(reason) => r matches Err(e) && e.message_spec() == bad_output_message(reason@),
        },
{
    if !succeeded {
        let mut m = chars_of("tcpdump exited with status ");
        append_chars(&mut m, &chars_of(status));
        append_chars(&mut m, &chars_of(": "));
        append_chars(&mut m, &trim_of(&chars_of(stderr)));
        return Err(CaptureError::new(string_of(&m)));
    }
    match stdout {
        Ok(text) => Ok(parse_tcpdump_stdout(text.as_str())),
        Err(reason) => {
            let mut m = chars_of("tcpdump output was not valid UTF-8: ");
            append_chars(&mut m, &chars_of(reason.as_str()));
            Err(CaptureError::new(string_of(&m)))
        },
    }
}

} // verus!
