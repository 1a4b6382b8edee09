//! The command line: the two ports of the server.
//!
//! `-s` or `--smtp-port` sets the port on which the mail server listens, `-p`
//! or `--http-port` the one of the query surface. The command line is read
//! by `clap`; what it leaves open is filled in here.

use vstd::prelude::*;

verus! {

/// Where the mail server listens if the command line names no port.
pub const DEFAULT_SMTP_PORT: u16 = 1025;

/// Where the query surface listens if the command line names no port.
pub const DEFAULT_HTTP_PORT: u16 = 3000;

/// The ports of the server.
#[derive(Clone, Copy, Debug, PartialEq, Eq, Structural)]
pub struct Args {
    /// Where the mail server listens.
    pub smtp_port: u16,
    /// Where the query surface listens.
    pub http_port: u16,
}

/// An option of the command line that takes a port number.
#[derive(Clone, Copy, Debug)]
pub struct PortOption {
    /// The letter of the short form.
    pub short: char,
    /// The name of the long form.
    pub long: &'static str,
    /// What the help says of the option.
    pub help: &'static str,
}

/// Why a command line gives no ports.
#[derive(Debug)]
pub struct ArgsError {
    /// Whether the command line is at fault; not so where it asks for help.
    pub is_error: bool,
    /// What to tell the user.
    pub message: String,
}

/// The texts held by a sequence of string slices.
pub open spec fn slices_view(args: Seq<&str>) -> Seq<Seq<char>> {
    Seq::new(args.len(), |i: int| args[i]@)
}

/// The option for the port of the mail server.
pub open spec fn is_smtp_option(option: PortOption) -> bool {
    option.short == 's' && option.long@ == "smtp-port"@ && option.help@ == "SMTP server port"@
}

/// The option for the port of the query surface.
pub open spec fn is_http_option(option: PortOption) -> bool {
    option.short == 'p' && option.long@ == "http-port"@ && option.help@ == "HTTP server port"@
}

/// Names what `clap` finds on a command line for the two port options: for
/// each option the port given, where the command line is accepted.
pub uninterp spec fn clap_ports(args: Seq<Seq<char>>) -> Option<(Option<u16>, Option<u16>)>;

/// Wraps `clap::Command::try_get_matches_from` on a command named `program`
/// with the two options, each built with `clap::Arg::new`, `Arg::short`,
/// `Arg::long`, `Arg::help` and a value parser for `u16`, and
/// `ArgMatches::try_get_one` for each option: for each option the port that
/// the command line gives, or the error that `clap` reports, a request for
/// help included. Stated for the two options of this program only.
#[verifier::external_body]
fn read_ports(program: &'static str, smtp: &PortOption, http: &PortOption, args: &[&str]) -> (out:
    Result<(Option<u16>, Option<u16>), ArgsError>)
    requires
        program@ == "mailhits"@,
        is_smtp_option(*smtp),
        is_http_option(*http),
    ensures
        match out {
            Ok(ports) => clap_ports(slices_view(args@)) == Some(ports),
            Err(_) => clap_ports(slices_view(args@)) is None,
        },
{
    let port = |o: &PortOption| clap::Arg::new(o.long).short(o.short).long(o.long).help(o.help)
        .value_parser(clap::builder::RangedU64ValueParser::<u16>::new());
    let command = clap::Command::new(program).arg(port(smtp)).arg(port(http));
    match command.try_get_matches_from(args.iter().copied()) {
        Ok(m) => Ok((
            m.try_get_one::<u16>(smtp.long).ok().flatten().copied(),
            m.try_get_one::<u16>(http.long).ok().flatten().copied(),
        )),
        Err(e) => Err(ArgsError { is_error: e.use_stderr(), message: e.to_string() }),
    }
}

/// The ports of the server, given the ports that the command line names.
pub open spec fn with_defaults(smtp: Option<u16>, http: Option<u16>) -> Args {
    Args {
        smtp_port: match smtp {
            Some(port) => port,
            None => DEFAULT_SMTP_PORT,
        },
        http_port: match http {
            Some(port) => port,
            None => DEFAULT_HTTP_PORT,
        },
    }
}

impl Default for Args {
    fn default() -> (out: Self)
        ensures
            out == with_defaults(None, None),
    {
        Args::from_ports(None, None)
    }
}

impl Args {
    /// The ports of the server, given the ports that the command line names:
    /// a port that it does not name is the default one.
    pub fn from_ports(smtp: Option<u16>, http: Option<u16>) -> (out: Args)
        ensures
            out == with_defaults(smtp, http),
    {
        Args {
            smtp_port: match smtp {
                Some(port) => port,
                None => DEFAULT_SMTP_PORT,
            },
            http_port: match http {
                Some(port) => port,
                None => DEFAULT_HTTP_PORT,
            },
        }
    }

    /// Reads a command line. The first argument is the name of the program.
    pub fn parse_from(args: &[&str]) -> (out: Result<Args, ArgsError>)
        ensures
            match out {
                Ok(ports) => clap_ports(slices_view(args@)) matches Some(given) && ports
                    == with_defaults(given.0, given.1),
                Err(_) => clap_ports(slices_view(args@)) is None,
            },
    {
        let smtp = PortOption { short: 's', long: "smtp-port", help: "SMTP server port" };
        let http = PortOption { short: 'p', long: "http-port", help: "HTTP server port" };
        match read_ports("mailhits", &smtp, &http, args) {
            Ok(given) => Ok(Args::from_ports(given.0, given.1)),
            Err(e) => Err(e),
        }
    }
}

} // verus!
