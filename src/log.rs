//! Log settings: levels, domains and destinations.

use vstd::prelude::*;
use crate::text::{concat, text_of};
use crate::utils::ToArg;

verus! {

/// Log level; renders as its lower-case name.
#[derive(Clone, Copy, PartialEq, Eq, Structural, Debug)]
pub enum LogLevel {
    Debug,
    Info,
    Notice,
    Warn,
    Error,
}

impl ToArg for LogLevel {
    open spec fn arg(&self) -> Seq<char> {
        match self {
            LogLevel::Debug => "debug"@,
            LogLevel::Info => "info"@,
            LogLevel::Notice => "notice"@,
            LogLevel::Warn => "warn"@,
            LogLevel::Error => "err"@,
        }
    }

    fn to_arg(&self) -> (r: String) {
        text_of(
            match self {
                LogLevel::Debug => "debug",
                LogLevel::Info => "info",
                LogLevel::Notice => "notice",
                LogLevel::Warn => "warn",
                LogLevel::Error => "err",
            },
        )
    }
}

/// Log domain, for fine-grained control; renders as its lower-case name.
#[derive(Clone, Copy, PartialEq, Eq, Structural, Debug)]
pub enum LogDomain {
    General,
    Crypto,
    Net,
    Config,
    Fs,
    Protocol,
    Mm,
    Http,
    App,
    Control,
    Circ,
    Rend,
    Bug,
    Dir,
    Dirserv,
    Or,
    Edge,
    Acct,
    Hist,
    Handshake,
    Heartbeat,
    Channel,
    Sched,
    Guard,
    Consdiff,
    Dos,
    Process,
    Pt,
    Btrack,
    Mesg,
}

impl ToArg for LogDomain {
    open spec fn arg(&self) -> Seq<char> {
        match self {
            LogDomain::General => "general"@,
            LogDomain::Crypto => "crypto"@,
            LogDomain::Net => "net"@,
            LogDomain::Config => "config"@,
            LogDomain::Fs => "fs"@,
            LogDomain::Protocol => "protocol"@,
            LogDomain::Mm => "mm"@,
            LogDomain::Http => "http"@,
            LogDomain::App => "app"@,
            LogDomain::Control => "control"@,
            LogDomain::Circ => "circ"@,
            LogDomain::Rend => "rend"@,
            LogDomain::Bug => "bug"@,
            LogDomain::Dir => "dir"@,
            LogDomain::Dirserv => "dirserv"@,
            LogDomain::Or => "or"@,
            LogDomain::Edge => "edge"@,
            LogDomain::Acct => "acct"@,
            LogDomain::Hist => "hist"@,
            LogDomain::Handshake => "handshake"@,
            LogDomain::Heartbeat => "heartbeat"@,
            LogDomain::Channel => "channel"@,
            LogDomain::Sched => "sched"@,
            LogDomain::Guard => "guard"@,
            LogDomain::Consdiff => "consdiff"@,
            LogDomain::Dos => "dos"@,
            LogDomain::Process => "process"@,
            LogDomain::Pt => "pt"@,
            LogDomain::Btrack => "btrack"@,
            LogDomain::Mesg => "mesg"@,
        }
    }

    fn to_arg(&self) -> (r: String) {
        text_of(
            match self {
                LogDomain::General => "general",
                LogDomain::Crypto => "crypto",
                LogDomain::Net => "net",
                LogDomain::Config => "config",
                LogDomain::Fs => "fs",
                LogDomain::Protocol => "protocol",
                LogDomain::Mm => "mm",
                LogDomain::Http => "http",
                LogDomain::App => "app",
                LogDomain::Control => "control",
                LogDomain::Circ => "circ",
                LogDomain::Rend => "rend",
                LogDomain::Bug => "bug",
                LogDomain::Dir => "dir",
                LogDomain::Dirserv => "dirserv",
                LogDomain::Or => "or",
                LogDomain::Edge => "edge",
                LogDomain::Acct => "acct",
                LogDomain::Hist => "hist",
                LogDomain::Handshake => "handshake",
                LogDomain::Heartbeat => "heartbeat",
                LogDomain::Channel => "channel",
                LogDomain::Sched => "sched",
                LogDomain::Guard => "guard",
                LogDomain::Consdiff => "consdiff",
                LogDomain::Dos => "dos",
                LogDomain::Process => "process",
                LogDomain::Pt => "pt",
                LogDomain::Btrack => "btrack",
                LogDomain::Mesg => "mesg",
            },
        )
    }
}

/// Where log messages go.
#[derive(Clone, Debug)]
pub enum LogDestination {
    Stdout,
    Stderr,
    Syslog,
    File(String),
    Android,
}

/// The characters of `s` in lower case, as `str::to_lowercase` gives them.
pub uninterp spec fn lower_of(s: Seq<char>) -> Seq<char>;

/// Relies on `str::to_lowercase`: its result depends on the characters of `s` alone.
#[verifier::external_body]
fn lowercase(s: &str) -> (r: String)
    ensures
        r@ == lower_of(s@),
{
    s.to_lowercase()
}

/// A destination renders as its name, a file as `file <path>`.
impl ToArg for LogDestination {
    open spec fn arg(&self) -> Seq<char> {
        match self {
            LogDestination::Stdout => "Stdout"@,
            LogDestination::Stderr => "Stderr"@,
            LogDestination::Syslog => "Syslog"@,
            LogDestination::File(path) => "file "@ + path@,
            LogDestination::Android => "Android"@,
        }
    }

    fn to_arg(&self) -> (r: String) {
        match self {
            LogDestination::Stdout => text_of("Stdout"),
            LogDestination::Stderr => text_of("Stderr"),
            LogDestination::Syslog => text_of("Syslog"),
            LogDestination::File(path) => concat("file ", path.as_str()),
            LogDestination::Android => text_of("Android"),
        }
    }
}

impl LogDestination {
    /// The destination's text in lower case, as a `Log` line writes it.
    pub open spec fn lower_arg(&self) -> Seq<char> {
        match self {
            LogDestination::Stdout => "stdout"@,
            LogDestination::Stderr => "stderr"@,
            LogDestination::Syslog => "syslog"@,
            LogDestination::File(path) => "file "@ + lower_of(path@),
            LogDestination::Android => "android"@,
        }
    }

    pub fn to_lower_arg(&self) -> (r: String)
        ensures
            r@ == self.lower_arg(),
    {
        match self {
            LogDestination::Stdout => text_of("stdout"),
            LogDestination::Stderr => text_of("stderr"),
            LogDestination::Syslog => text_of("syslog"),
            LogDestination::File(path) => {
                let lower = lowercase(path.as_str());
                concat("file ", lower.as_str())
            },
            LogDestination::Android => text_of("android"),
        }
    }
}

} // verus!
