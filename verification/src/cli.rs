//! Command-line arguments.

use vstd::prelude::*;
use vstd::string::StringExecFns;

verus! {

/// The parsed arguments.
pub struct Args {
    /// Whether verbose debug output is enabled.
    pub debug: bool,
}

/// What the command line asks for.
pub enum Cli {
    /// Run the daemon with these arguments.
    Run(Args),
    /// Print the version and exit successfully (`-V`, `--version`).
    Version,
    /// Print the help text and exit successfully.
    Help,
    /// Report this unknown option and exit with failure.
    UnknownOption(String),
}

/// What the command line asks for, by the characters involved.
pub enum CliView {
    Run { debug: bool },
    Version,
    Help,
    UnknownOption(Seq<char>),
}

impl View for Cli {
    type V = CliView;

    open spec fn view(&self) -> CliView {
        match self {
            Cli::Run(args) => CliView::Run { debug: args.debug },
            Cli::Version => CliView::Version,
            Cli::Help => CliView::Help,
            Cli::UnknownOption(arg) => CliView::UnknownOption(arg@),
        }
    }
}

/// Arguments are read from left to right: `-d`/`--debug` enables debug
/// output, `-V`/`--version` (also `-v`) and `-h`/`--help` stop at once,
/// and any other argument is an unknown option that stops at once.
pub open spec fn parse_from(debug: bool, args: Seq<Seq<char>>) -> CliView
    decreases args.len(),
{
    if args.len() == 0 {
        CliView::Run { debug }
    } else {
        let a = args[0];
        if a == "-d"@ || a == "--debug"@ {
            parse_from(true, args.drop_first())
        } else if a == "-V"@ || a == "-v"@ || a == "--version"@ {
            CliView::Version
        } else if a == "-h"@ || a == "--help"@ {
            CliView::Help
        } else {
            CliView::UnknownOption(a)
        }
    }
}

/// Parses the arguments after the program name. Debug output starts out
/// enabled when `debug_env_set` (the `X11IDLE_DEBUG` environment variable is
/// set) and is enabled by `-d` or `--debug`.
pub fn parse(debug_env_set: bool, args: &Vec<String>) -> (r: Cli)
    ensures
        r@ == parse_from(debug_env_set, args@.map_values(|a: String| a@)),
{
    let ghost all = args@.map_values(|a: String| a@);
    let short_debug = String::from_str("-d");
    let long_debug = String::from_str("--debug");
    let short_version = String::from_str("-V");
    let lower_short_version = String::from_str("-v");
    let long_version = String::from_str("--version");
    let short_help = String::from_str("-h");
    let long_help = String::from_str("--help");
    let mut debug = debug_env_set;
    let n: usize = args.len();
    let mut i: usize = 0;
    assert(all.skip(0) =~= all);
    while i < n
        invariant
            n == args@.len(),
            i <= n,
            all == args@.map_values(|a: String| a@),
            short_debug@ == "-d"@,
            long_debug@ == "--debug"@,
            short_version@ == "-V"@,
            lower_short_version@ == "-v"@,
            long_version@ == "--version"@,
            short_help@ == "-h"@,
            long_help@ == "--help"@,
            parse_from(debug_env_set, all) == parse_from(debug, all.skip(i as int)),
        decreases n - i,
    {
        let arg = &args[i];
        proof {
            assert(all.skip(i as int)[0] == arg@);
            assert(all.skip(i as int).drop_first() =~= all.skip(i + 1));
        }
        if *arg == short_debug || *arg == long_debug {
            debug = true;
        } else if *arg == short_version || *arg == lower_short_version || *arg == long_version {
            return Cli::Version;
        } else if *arg == short_help || *arg == long_help {
            return Cli::Help;
        } else {
            return Cli::UnknownOption(arg.clone());
        }
        i = i + 1;
    }
    Cli::Run(Args { debug })
}

/// A debug flag: `-d` or `--debug`.
pub open spec fn is_debug_flag(a: Seq<char>) -> bool {
    a == "-d"@ || a == "--debug"@
}

/// The daemon runs exactly when every argument is a debug flag, and then
/// debug output is enabled exactly when the environment variable is set or
/// some flag was given: the flags only ever enable it.
pub proof fn lemma_parse_runs(debug_env_set: bool, args: Seq<Seq<char>>)
    ensures
        (parse_from(debug_env_set, args) is Run) <==> (forall|i: int|
            0 <= i < args.len() ==> is_debug_flag(#[trigger] args[i])),
        parse_from(debug_env_set, args) matches CliView::Run { debug } ==> debug == (debug_env_set
            || args.len() > 0),
    decreases args.len(),
{
    if args.len() > 0 {
        let rest = args.drop_first();
        lemma_parse_runs(true, rest);
        if is_debug_flag(args[0]) {
            assert forall|i: int| 0 <= i < args.len() implies is_debug_flag(#[trigger] args[i])
                <== (forall|j: int| 0 <= j < rest.len() ==> is_debug_flag(#[trigger] rest[j])) by {
                if i > 0 {
                    assert(args[i] == rest[i - 1]);
                }
            }
            assert((forall|i: int| 0 <= i < args.len() ==> is_debug_flag(#[trigger] args[i])) ==> (
            forall|j: int| 0 <= j < rest.len() ==> is_debug_flag(#[trigger] rest[j]))) by {
                assert forall|j: int| 0 <= j < rest.len() && (forall|i: int|
                    0 <= i < args.len() ==> is_debug_flag(#[trigger] args[i])) implies is_debug_flag(
                    #[trigger] rest[j],
                ) by {
                    assert(rest[j] == args[j + 1]);
                }
            }
        }
    }
}

} // verus!
