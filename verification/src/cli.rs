//! The command line: what a run was asked to do, and the options of a
//! transfer.
use vstd::prelude::*;
use vstd::string::*;

use crate::number::{decimal, numbers_are_read_up_to_the_limit, parse_up_to, read_up_to};
use crate::text::same;

verus! {

/// What the command line asks for.
pub struct Cli {
    /// The alias to connect to; a dash stands for none.
    pub alias: String,
    /// Whether the log holds debug messages too.
    pub debug: bool,
    pub command: Option<Commands>,
}

/// A subcommand with its arguments.
pub enum Commands {
    Create { alias: String, remote_host: String },
    Remove { alias: String },
    Rename { alias: String, new_alias: String },
    List {},
    Link { alias: String },
    Ts {
        sources: Vec<String>,
        target: String,
        concurrency: Option<String>,
        retry: Option<usize>,
        retry_backoff_ms: Option<u64>,
        verbose: bool,
        json: bool,
        quiet: bool,
        /// Accepted for scripts that still pass it; failures always go to the
        /// log directory.
        output_failures: Option<String>,
        buf_mib: Option<usize>,
    },
    Configure {
        pub_key_path: Option<String>,
        server_path: Option<String>,
        client_path: Option<String>,
        scp_path: Option<String>,
    },
}

/// How a run without a subcommand goes on.
pub enum Start<S = String> {
    /// Connect to the server under this alias.
    Connect(S),
    /// Open the screens.
    Screens,
}

impl View for Start<String> {
    type V = Start<Seq<char>>;

    open spec fn view(&self) -> Start<Seq<char>> {
        match self {
            Start::Connect(a) => Start::Connect(a@),
            Start::Screens => Start::Screens,
        }
    }
}

/// Decides how a run without a subcommand goes on.
pub fn start_without_command(alias: &str) -> (r: Start)
    ensures
        r@ == if alias@ == "-"@ {
            Start::Screens
        } else {
            Start::Connect(alias@)
        },
{
    if same(alias, "-") {
        Start::Screens
    } else {
        Start::Connect(alias.to_owned())
    }
}

/// The number of workers where none is asked for.
pub const DEFAULT_WORKERS: usize = 8;

/// The most workers that can be asked for.
pub const MAX_WORKERS: usize = 16;

/// The number of workers that an option asks for. Without the option it is the
/// default; zero counts as one, and the most is the maximum. What is no number
/// leaves the choice to the transfer.
pub open spec fn workers_option(option: Option<Seq<char>>) -> Option<nat> {
    match option {
        None => Some(DEFAULT_WORKERS as nat),
        Some(s) => match read_up_to(s, usize::MAX as nat) {
            Some(n) => if n == 0 {
                Some(1)
            } else if n > MAX_WORKERS {
                Some(MAX_WORKERS as nat)
            } else {
                Some(n)
            },
            None => None,
        },
    }
}

/// Reads the number of workers from the option.
pub fn concurrency_of(option: &Option<String>) -> (r: Option<usize>)
    ensures
        match r {
            Some(n) => workers_option(crate::server::opt(*option)) == Some(n as nat),
            None => workers_option(crate::server::opt(*option)) is None,
        },
        r matches Some(n) ==> 1 <= n <= MAX_WORKERS,
{
    match option {
        None => Some(DEFAULT_WORKERS),
        Some(s) => match parse_up_to(s.as_str(), usize::MAX as u64) {
            Some(n) => if n == 0 {
                Some(1)
            } else if n > MAX_WORKERS as u64 {
                Some(MAX_WORKERS)
            } else {
                Some(n as usize)
            },
            None => None,
        },
    }
}

/// The number of attempts where none is asked for.
pub const DEFAULT_RETRIES: usize = 3;

/// The number of attempts that an option asks for.
pub fn retries_of(option: Option<usize>) -> (r: usize)
    ensures
        r == match option {
            Some(n) => n,
            None => DEFAULT_RETRIES,
        },
{
    match option {
        Some(n) => n,
        None => DEFAULT_RETRIES,
    }
}

/// One binary megabyte.
pub const MIB: usize = 0x10_0000;

/// The size of a worker's buffer: one to eight megabytes, and one where
/// nothing is asked for.
pub open spec fn buffer_option(mib: Option<usize>) -> int {
    match mib {
        Some(m) => (if m < 1 {
            1int
        } else if m > 8 {
            8
        } else {
            m as int
        }) * MIB,
        None => MIB as int,
    }
}

/// Reads the size of a worker's buffer from the option.
pub fn buffer_size_of(mib: Option<usize>) -> (r: usize)
    ensures
        r == buffer_option(mib),
        MIB <= r <= 8 * MIB,
{
    match mib {
        Some(m) => {
            let n: usize = if m < 1 {
                1
            } else if m > 8 {
                8
            } else {
                m
            };
            n * MIB
        },
        None => MIB,
    }
}

/// As many workers are used as are asked for, from one to sixteen: less counts
/// as one, more as sixteen. Without the option there are eight, and what is no
/// number leaves the choice open.
pub proof fn workers_are_as_asked_for(n: nat, text: Seq<char>)
    requires
        n <= usize::MAX,
    ensures
        1 <= n <= 16 ==> workers_option(Some(decimal(n))) == Some(n),
        n == 0 ==> workers_option(Some(decimal(n))) == Some(1nat),
        n > 16 ==> workers_option(Some(decimal(n))) == Some(16nat),
        workers_option(None) == Some(8nat),
        read_up_to(text, usize::MAX as nat) is None ==> workers_option(Some(text)) is None,
{
    numbers_are_read_up_to_the_limit(n, usize::MAX as nat);
}

/// A worker's buffer is as many binary megabytes as are asked for, from one to
/// eight; without the option it is one.
pub proof fn buffers_are_as_asked_for(m: usize)
    ensures
        1 <= m <= 8 ==> buffer_option(Some(m)) == m * 1024 * 1024,
        m == 0 ==> buffer_option(Some(m)) == 1024 * 1024,
        m > 8 ==> buffer_option(Some(m)) == 8 * 1024 * 1024,
        buffer_option(None) == 1024 * 1024,
        DEFAULT_RETRIES == 3,
{
}

} // verus!
