//! The command line: `lazytcp <pcap-file> [tcpdump-filter...]`.
use vstd::prelude::*;

use crate::text::{append_chars, chars_eq, chars_of, string_of, strings_view};

verus! {

/// What to read: the capture file and the tcpdump filter words.
#[derive(Debug, Clone)]
pub struct CliArgs {
    pub pcap_path: String,
    pub filter_args: Vec<String>,
}

#[derive(Debug, Clone)]
pub enum ParsedArgs {
    Run(CliArgs),
    Help,
}

/// A command-line error: a usage error exits with status 2, a runtime
/// error with status 1.
#[derive(Debug, Clone)]
pub enum CliError {
    Usage(String),
    Runtime(String),
}

impl CliError {
    pub fn usage(message: String) -> (r: Self)
        ensures
            r matches CliError::Usage(m) && m@ == message@,
    {
        CliError::Usage(message)
    }

    pub fn runtime(message: String) -> (r: Self)
        ensures
            r matches CliError::Runtime(m) && m@ == message@,
    {
        CliError::Runtime(message)
    }

    pub fn exit_code(&self) -> (r: i32)
        ensures
            r == (match self {
                CliError::Usage(_) => 2i32,
                CliError::Runtime(_) => 1i32,
            }),
    {
        match self {
            CliError::Usage(_) => 2,
            CliError::Runtime(_) => 1,
        }
    }

    pub fn message(&self) -> (r: &str)
        ensures
            r@ == (match self {
                CliError::Usage(m) => m@,
                CliError::Runtime(m) => m@,
            }),
    {
        match self {
            CliError::Usage(m) => m.as_str(),
            CliError::Runtime(m) => m.as_str(),
        }
    }
}

pub open spec fn usage_text() -> Seq<char> {
    "usage: lazytcp <pcap-file> [tcpdump-filter...]\nexample: lazytcp capture.pcap udp"@
}

/// The usage text that `--help` prints and usage errors end with.
pub fn usage() -> (r: String)
    ensures
        r@ == usage_text(),
{
    String::from_str("usage: lazytcp <pcap-file> [tcpdump-filter...]\nexample: lazytcp capture.pcap udp")
}

pub open spec fn missing_argument_message() -> Seq<char> {
    "error: missing required argument <pcap-file>\n\n"@ + usage_text()
}

pub open spec fn unknown_option_message(option: Seq<char>) -> Seq<char> {
    "error: unknown option '"@ + option + "'\n\n"@ + usage_text()
}

/// What the arguments after the program name ask for: help for `-h` or
/// `--help`; a usage error where there is no argument or the first is
/// another option; otherwise reading the file that the first names with
/// the rest as the filter.
pub open spec fn parse_args_spec(args: Seq<Seq<char>>) -> Result<
    (Seq<char>, Seq<Seq<char>>),
    Option<Seq<char>>,
> {
    if args.len() == 0 {
        Err(Some(missing_argument_message()))
    } else if args[0] == "-h"@ || args[0] == "--help"@ {
        Err(None)
    } else if args[0].len() > 0 && args[0][0] == '-' {
        Err(Some(unknown_option_message(args[0])))
    } else {
        Ok((args[0], args.skip(1)))
    }
}

/// Whether a parse result is the one `parse_args_spec` describes: `Err(None)`
/// there stands for the help request, `Err(Some(m))` for a usage error.
pub open spec fn parse_result_matches(
    r: Result<ParsedArgs, CliError>,
    expected: Result<(Seq<char>, Seq<Seq<char>>), Option<Seq<char>>>,
) -> bool {
    match expected {
        Ok((path, filter)) => r matches Ok(ParsedArgs::Run(a)) && a.pcap_path@ == path
            && strings_view(a.filter_args@) == filter,
        Err(None) => r matches Ok(ParsedArgs::Help),
        Err(Some(m)) => r matches Err(CliError::Usage(u)) && u@ == m,
    }
}

pub fn parse_args_from(args: Vec<String>) -> (r: Result<ParsedArgs, CliError>)
    ensures
        parse_result_matches(r, parse_args_spec(strings_view(args@))),
{
    if args.len() == 0 {
        let mut message = chars_of("error: missing required argument <pcap-file>\n\n");
        append_chars(&mut message, &chars_of(usage().as_str()));
        return Err(CliError::usage(string_of(&message)));
    }
    let first = chars_of(args[0].as_str());
    assert(strings_view(args@)[0] == first@);
    if chars_eq(&first, &chars_of("-h")) || chars_eq(&first, &chars_of("--help")) {
        return Ok(ParsedArgs::Help);
    }
    if first.len() > 0 && first[0] == '-' {
        let mut message = chars_of("error: unknown option '");
        append_chars(&mut message, &first);
        append_chars(&mut message, &chars_of("'\n\n"));
        append_chars(&mut message, &chars_of(usage().as_str()));
        return Err(CliError::usage(string_of(&message)));
    }
    let mut filter_args: Vec<String> = Vec::new();
    let mut i: usize = 1;
    while i < args.len()
        invariant
            1 <= i <= args@.len(),
            strings_view(filter_args@) == strings_view(args@).subrange(1, i as int),
        decreases args@.len() - i,
    {
        let ghost before = filter_args@;
        filter_args.push(args[i].clone());
        assert(strings_view(filter_args@) =~= strings_view(before).push(args@[i as int]@));
        assert(strings_view(args@).subrange(1, i + 1) =~= strings_view(args@).subrange(
            1,
            i as int,
        ).push(args@[i as int]@));
        i = i + 1;
    }
    assert(strings_view(args@).subrange(1, args@.len() as int) =~= strings_view(args@).skip(1));
    Ok(ParsedArgs::Run(CliArgs { pcap_path: args[0].clone(), filter_args }))
}

} // verus!
