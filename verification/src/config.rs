//! The server's configuration: what the configuration file and the command
//! line give, with defaults for what they leave out.

use vstd::prelude::*;

verus! {

pub const DEFAULT_ADDRESS: &'static str = "127.0.0.1:80";

pub const DEFAULT_THREADS: usize = 4;

pub const DEFAULT_VERB: u8 = 2;

pub const DEFAULT_404_PAGE_CONTENT: &'static str = "ERROR 404: Not found.";

pub const DEFAULT_USE_TLS: bool = true;

/// Relative to the directory the server runs in.
pub const DEFAULT_CONFIG_PATH: &'static str = "config.toml";

pub const DEFAULT_WWW: &'static str = "www/";

/// Relative to the content root.
pub const DEFAULT_PAGE_404_PATH: &'static str = "404.md";

/// Relative to the style directory of the content root.
pub const DEFAULT_MD_STYLE: &'static str = "default.scss";

/// The `server` table of the configuration file, each key as far as it is
/// set.
pub struct ParsedServer {
    pub address: Option<String>,
    pub threads: Option<usize>,
    pub err404_path: Option<String>,
    pub title: Option<String>,
    pub www_path: Option<String>,
}

/// What the command line gives.
pub struct ParsedArgs {
    pub verbosity: u8,
    pub use_tls: bool,
}

#[derive(Clone, Debug)]
pub struct Config {
    pub server: Server,
    pub printing: Printing,
}

#[derive(Clone, Debug)]
pub struct Server {
    pub address: String,
    pub threads: usize,
    pub err404_path: String,
    pub title: String,
    pub www_path: String,
    pub use_tls: bool,
}

#[derive(Clone, Debug)]
pub struct Printing {
    pub verbosity: u8,
}

/// The text that is set, or else the default.
pub open spec fn text_or(value: Option<String>, default: Seq<char>) -> Seq<char> {
    match value {
        Some(s) => s@,
        None => default,
    }
}

/// The text that is set, or else the default.
pub fn string_or(value: Option<String>, default: &str) -> (r: String)
    ensures
        r@ == text_or(value, default@),
{
    match value {
        Some(s) => s,
        None => default.to_owned(),
    }
}

impl Config {
    /// The configuration for the given command line and `server` table: each
    /// key of the table as it is set, or else its default; the verbosity and
    /// the choice of TLS from the command line.
    pub fn init(args_config: ParsedArgs, server: ParsedServer) -> (c: Config)
        ensures
            c.server.address@ == text_or(server.address, DEFAULT_ADDRESS@),
            c.server.threads == match server.threads {
                Some(n) => n,
                None => DEFAULT_THREADS,
            },
            c.server.err404_path@ == text_or(server.err404_path, DEFAULT_PAGE_404_PATH@),
            c.server.title@ == text_or(server.title, Seq::empty()),
            c.server.www_path@ == text_or(server.www_path, DEFAULT_WWW@),
            c.server.use_tls == args_config.use_tls,
            c.printing.verbosity == args_config.verbosity,
    {
        let threads = match server.threads {
            Some(n) => n,
            None => DEFAULT_THREADS,
        };
        proof {
            reveal_strlit("");
            assert(""@ == Seq::<char>::empty());
        }
        Config {
            server: Server {
                address: string_or(server.address, DEFAULT_ADDRESS),
                threads: threads,
                err404_path: string_or(server.err404_path, DEFAULT_PAGE_404_PATH),
                title: string_or(server.title, ""),
                www_path: string_or(server.www_path, DEFAULT_WWW),
                use_tls: args_config.use_tls,
            },
            printing: Printing { verbosity: args_config.verbosity },
        }
    }
}

} // verus!
