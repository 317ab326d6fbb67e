//! Renders typed Tor configuration flags to command-line arguments, driven by a
//! declarative annotation schema that is loaded, resolved and rendered here.

pub mod text;
pub mod schema;
pub mod resolve;
pub mod render;
pub mod utils;
pub mod hs;
pub mod log;
pub mod ports;
pub mod flags;
pub mod subcommand;
pub mod tor;
pub mod password;
pub mod testgen;
pub mod generate;

use vstd::prelude::*;
use crate::render::{cli_join, cli_joined};
use crate::text::views;

verus! {

/// A value that renders to command-line tokens.
pub trait Expand {
    /// The tokens of the value.
    spec fn tokens(&self) -> Seq<Seq<char>>;

    /// The tokens of the value; the same value always gives the same tokens.
    fn expand(&self) -> (r: Vec<String>)
        ensures
            views(r@) == self.tokens();

    /// The tokens joined into one command-line string.
    fn expand_cli(&self) -> (r: String)
        ensures
            r@ == cli_joined(self.tokens()),
    {
        let parts = self.expand();
        cli_join(&parts)
    }
}

} // verus!

pub use crate::flags::{log_expand, SizeUnit, TorAddress, TorBool, TorFlag};
pub use crate::hs::{HiddenServiceAuthType, HiddenServiceVersion};
pub use crate::log::{LogDestination, LogDomain, LogLevel};
pub use crate::password::{format_hashed_password, generate_hashed_password, hashed_password_with_salt};
pub use crate::ports::{ControlPortFlag, SocksPortFlag, SocksPortIsolationFlag};
pub use crate::subcommand::TorSubcommand;
pub use crate::tor::{Error, Tor};
pub use crate::utils::{CommaJoiner, DisplayOption, DisplayVec, Joiner, SpaceJoiner, ToArg};
