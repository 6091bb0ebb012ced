//! Command-line options of the MCP server.
use vstd::prelude::*;
use vstd::string::*;
use crate::text::str_eq;

verus! {

/// The help text.
pub const USAGE: &'static str = "mnemosyne-mcp-server — MCP server exposing Mnemosyne over stdio

USAGE:
    mnemosyne-mcp-server [OPTIONS]

OPTIONS:
    --data-dir <PATH>   Directory for persistent state: the internal git
                        repository of saved functions, search indexes, and
                        the external repo cache.
                        [default: $MNEMOSYNE_DATA_DIR or ./.mnemosyne]
    --allow-file-io     Grant the Clojure eval runtime file IO
    --allow-network     Grant the Clojure eval runtime network access
    --allow-all         Grant every host capability (file IO + network)
    --minimal-runtime   Boot without the full Clojure standard library
                        (faster start, fewer functions available to eval)
    -h, --help          Print this help
    -V, --version       Print version

Logging is controlled with RUST_LOG (default: info), written to stderr.";

/// What the options ask of the server.  The IO policy starts from the
/// default (or from the allow-all policy when `allow_all` is set, by the last
/// `--allow-all`), and the flags set after that are granted on top of it.
#[derive(Debug, Clone)]
pub struct ServerArgs {
    pub data_dir: String,
    pub allow_all: bool,
    pub async_enabled: bool,
    pub file_io: bool,
    pub network: bool,
    pub minimal_runtime: bool,
}

/// The outcome of reading the command line.
#[derive(Debug, Clone)]
pub enum ArgsOutcome {
    /// Start the server with these options.
    Run(ServerArgs),
    /// Print the help text and stop.
    Help,
    /// Print the version and stop.
    Version,
}

/// Server options as mathematical values.
pub struct ArgsView {
    pub data_dir: Seq<char>,
    pub allow_all: bool,
    pub async_enabled: bool,
    pub file_io: bool,
    pub network: bool,
    pub minimal_runtime: bool,
}

pub enum OutcomeView {
    Run(ArgsView),
    Help,
    Version,
}

pub open spec fn args_view(a: ServerArgs) -> ArgsView {
    ArgsView {
        data_dir: a.data_dir@,
        allow_all: a.allow_all,
        async_enabled: a.async_enabled,
        file_io: a.file_io,
        network: a.network,
        minimal_runtime: a.minimal_runtime,
    }
}

pub open spec fn outcome_view(o: ArgsOutcome) -> OutcomeView {
    match o {
        ArgsOutcome::Run(a) => OutcomeView::Run(args_view(a)),
        ArgsOutcome::Help => OutcomeView::Help,
        ArgsOutcome::Version => OutcomeView::Version,
    }
}

/// Reading the arguments from the `i`-th on, with the options `st` so far.
pub open spec fn parse_from(args: Seq<Seq<char>>, i: int, st: ArgsView) -> Result<OutcomeView, Seq<char>>
    decreases args.len() - i,
{
    if i < 0 || i >= args.len() {
        Ok(OutcomeView::Run(st))
    } else {
        let a = args[i];
        if a == "--data-dir"@ {
            if i + 1 >= args.len() {
                Err("--data-dir requires a path"@)
            } else {
                parse_from(args, i + 2, ArgsView { data_dir: args[i + 1], ..st })
            }
        } else if a == "--allow-file-io"@ {
            parse_from(args, i + 1, ArgsView { async_enabled: true, file_io: true, ..st })
        } else if a == "--allow-network"@ {
            parse_from(args, i + 1, ArgsView { async_enabled: true, network: true, ..st })
        } else if a == "--allow-all"@ {
            parse_from(
                args,
                i + 1,
                ArgsView { allow_all: true, async_enabled: false, file_io: false, network: false, ..st },
            )
        } else if a == "--minimal-runtime"@ {
            parse_from(args, i + 1, ArgsView { minimal_runtime: true, ..st })
        } else if a == "-h"@ || a == "--help"@ {
            Ok(OutcomeView::Help)
        } else if a == "-V"@ || a == "--version"@ {
            Ok(OutcomeView::Version)
        } else {
            Err("unknown argument: "@ + a + "\n\n"@ + USAGE@)
        }
    }
}

/// The options before any argument is read.
pub open spec fn initial_args(default_data_dir: Seq<char>) -> ArgsView {
    ArgsView {
        data_dir: default_data_dir,
        allow_all: false,
        async_enabled: false,
        file_io: false,
        network: false,
        minimal_runtime: false,
    }
}

pub open spec fn strings_view(args: Seq<String>) -> Seq<Seq<char>> {
    args.map_values(|a: String| a@)
}

/// Read the server's command line, starting from `default_data_dir` (from
/// `$MNEMOSYNE_DATA_DIR`, or `./.mnemosyne`).
pub fn parse_args(args: &[String], default_data_dir: &str) -> (r: Result<ArgsOutcome, String>)
    ensures
        match r {
            Ok(o) => parse_from(strings_view(args@), 0, initial_args(default_data_dir@)) == Ok::<
                OutcomeView,
                Seq<char>,
            >(outcome_view(o)),
            Err(e) => parse_from(strings_view(args@), 0, initial_args(default_data_dir@)) == Err::<
                OutcomeView,
                Seq<char>,
            >(e@),
        },
{
    let ghost sv = strings_view(args@);
    let mut config = ServerArgs {
        data_dir: default_data_dir.to_owned(),
        allow_all: false,
        async_enabled: false,
        file_io: false,
        network: false,
        minimal_runtime: false,
    };
    let mut i: usize = 0;
    while i < args.len()
        invariant
            i <= args.len(),
            sv == strings_view(args@),
            parse_from(sv, i as int, args_view(config)) == parse_from(
                sv,
                0,
                initial_args(default_data_dir@),
            ),
        decreases args.len() - i,
    {
        let a = args[i].as_str();
        assert(sv[i as int] == a@);
        if str_eq(a, "--data-dir") {
            i = i + 1;
            if i >= args.len() {
                return Err("--data-dir requires a path".to_owned());
            }
            assert(sv[i as int] == args@[i as int]@);
            config.data_dir = args[i].clone();
        } else if str_eq(a, "--allow-file-io") {
            config.async_enabled = true;
            config.file_io = true;
        } else if str_eq(a, "--allow-network") {
            config.async_enabled = true;
            config.network = true;
        } else if str_eq(a, "--allow-all") {
            config.allow_all = true;
            config.async_enabled = false;
            config.file_io = false;
            config.network = false;
        } else if str_eq(a, "--minimal-runtime") {
            config.minimal_runtime = true;
        } else if str_eq(a, "-h") || str_eq(a, "--help") {
            return Ok(ArgsOutcome::Help);
        } else if str_eq(a, "-V") || str_eq(a, "--version") {
            return Ok(ArgsOutcome::Version);
        } else {
            let mut m = String::new();
            m.append("unknown argument: ");
            m.append(a);
            m.append("\n\n");
            m.append(USAGE);
            return Err(m);
        }
        i = i + 1;
    }
    Ok(ArgsOutcome::Run(config))
}

} // verus!
