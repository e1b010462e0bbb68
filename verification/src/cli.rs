//! The command line of the service.

use vstd::prelude::*;
use crate::server::ServerConfig;
use crate::text::{chars_equal, chars_of, decimal_value};

verus! {

/// What `str::parse` reads as an unsigned integer: an optional `+`, then
/// one or more ASCII digits; the value they spell.
pub open spec fn unsigned_decimal(s: Seq<char>) -> Option<int> {
    let d = if s.len() > 0 && s[0] == '+' {
        s.drop_first()
    } else {
        s
    };
    if d.len() == 0 || (exists|i: int| 0 <= i < d.len() && !('0' <= d[i] && d[i] <= '9')) {
        None
    } else {
        Some(decimal_value(d))
    }
}

/// `s.parse::<u16>().ok()`. Its documentation: an optional `+` followed by
/// decimal digits, whose value fits in the type; anything else fails.
#[verifier::external_body]
fn parse_u16(s: &str) -> (r: Option<u16>)
    ensures
        match r {
            Some(v) => unsigned_decimal(s@) == Some(v as int),
            None => match unsigned_decimal(s@) {
                Some(v) => v > u16::MAX,
                None => true,
            },
        },
{
    s.parse::<u16>().ok()
}

/// `s.parse::<usize>().ok()`, with the same rule for `usize`.
#[verifier::external_body]
fn parse_usize(s: &str) -> (r: Option<usize>)
    ensures
        match r {
            Some(v) => unsigned_decimal(s@) == Some(v as int),
            None => match unsigned_decimal(s@) {
                Some(v) => v > usize::MAX,
                None => true,
            },
        },
{
    s.parse::<usize>().ok()
}

/// What the command line asks for.
#[derive(Debug)]
pub enum CliAction {
    /// Run the service with these settings.
    Run(ServerConfig),
    /// Print the usage text and stop.
    Help,
    /// Print the version and stop.
    Version,
}

/// A number a string spells, if it is in `0..=max`.
pub open spec fn in_range(s: Seq<char>, max: int) -> Option<int> {
    match unsigned_decimal(s) {
        Some(v) => if v <= max {
            Some(v)
        } else {
            None
        },
        None => None,
    }
}

/// The settings after reading `args[i..]` from `c`, or the action an
/// argument there stops at. `--port`, `--host`, `--workers` (or
/// `--max-concurrent`) take the next argument, which is skipped when it is
/// used; a value that does not read is ignored and then read as an argument
/// itself. `--help`/`-h` and `--version`/`-V` stop. Anything else is
/// ignored.
pub open spec fn read_args(args: Seq<Seq<char>>, i: int, c: (Seq<char>, u16, usize)) -> Result<
    (Seq<char>, u16, usize),
    bool,
>
    decreases args.len() - i,
{
    if i >= args.len() || i < 1 {
        Ok(c)
    } else {
        let a = args[i];
        let has_next = i + 1 < args.len();
        if a == "--port"@ {
            if has_next && in_range(args[i + 1], u16::MAX as int) is Some {
                read_args(args, i + 2, (c.0, in_range(args[i + 1], u16::MAX as int)->0 as u16, c.2))
            } else {
                read_args(args, i + 1, c)
            }
        } else if a == "--host"@ {
            if has_next {
                read_args(args, i + 2, (args[i + 1], c.1, c.2))
            } else {
                read_args(args, i + 1, c)
            }
        } else if a == "--workers"@ || a == "--max-concurrent"@ {
            if has_next && in_range(args[i + 1], usize::MAX as int) is Some {
                read_args(args, i + 2, (c.0, c.1, in_range(args[i + 1], usize::MAX as int)->0 as usize))
            } else {
                read_args(args, i + 1, c)
            }
        } else if a == "--help"@ || a == "-h"@ {
            Err(true)
        } else if a == "--version"@ || a == "-V"@ {
            Err(false)
        } else {
            read_args(args, i + 1, c)
        }
    }
}

/// The views of the arguments.
pub open spec fn args_view(args: Seq<String>) -> Seq<Seq<char>> {
    args.map_values(|s: String| s@)
}

/// Reads the command line (`args[0]` is the program): the settings, from
/// `127.0.0.1:18000` with four workers, or a request for help or the
/// version.
pub fn parse_args(args: &Vec<String>) -> (r: CliAction)
    ensures
        match read_args(args_view(args@), 1, ("127.0.0.1"@, 18000u16, 4usize)) {
            Ok((host, port, workers)) => r matches CliAction::Run(c) && c.host@ == host && c.http_port == port
                && c.max_concurrent == workers,
            Err(true) => r is Help,
            Err(false) => r is Version,
        },
{
    let ghost av = args_view(args@);
    let mut config = ServerConfig::default();
    let mut i: usize = 1;
    while i < args.len()
        invariant
            av == args_view(args@),
            av.len() == args.len(),
            1 <= i,
            read_args(av, i as int, (config.host@, config.http_port, config.max_concurrent)) == read_args(
                av,
                1,
                ("127.0.0.1"@, 18000u16, 4usize),
            ),
        decreases args.len() - i,
    {
        let ghost c0 = (config.host@, config.http_port, config.max_concurrent);
        assert(av[i as int] == args@[i as int]@);
        let a = chars_of(args[i].as_str());
        let has_next = i + 1 < args.len();
        if has_next {
            assert(av[i + 1] == args@[i + 1]@);
        }
        if chars_equal(&a, "--port") {
            let v = if has_next {
                parse_u16(args[i + 1].as_str())
            } else {
                None
            };
            match v {
                Some(p) => {
                    config.http_port = p;
                    i = i + 2;
                },
                None => {
                    i = i + 1;
                },
            }
        } else if chars_equal(&a, "--host") {
            if has_next {
                config.host = args[i + 1].clone();
                i = i + 2;
            } else {
                i = i + 1;
            }
        } else if chars_equal(&a, "--workers") || chars_equal(&a, "--max-concurrent") {
            let v = if has_next {
                parse_usize(args[i + 1].as_str())
            } else {
                None
            };
            match v {
                Some(n) => {
                    config.max_concurrent = n;
                    i = i + 2;
                },
                None => {
                    i = i + 1;
                },
            }
        } else if chars_equal(&a, "--help") || chars_equal(&a, "-h") {
            return CliAction::Help;
        } else if chars_equal(&a, "--version") || chars_equal(&a, "-V") {
            return CliAction::Version;
        } else {
            i = i + 1;
        }
    }
    CliAction::Run(config)
}

} // verus!
