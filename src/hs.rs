//! Hidden-service settings.

use vstd::prelude::*;
use crate::text::text_of;
use crate::utils::ToArg;

verus! {

/// Hidden service version; renders as its number.
#[derive(Clone, Copy, PartialEq, Eq, Structural, Debug)]
pub enum HiddenServiceVersion {
    /// Deprecated: prefer version 3 hidden services.
    V2,
    V3,
}

impl ToArg for HiddenServiceVersion {
    open spec fn arg(&self) -> Seq<char> {
        match self {
            HiddenServiceVersion::V2 => "2"@,
            HiddenServiceVersion::V3 => "3"@,
        }
    }

    fn to_arg(&self) -> (r: String) {
        text_of(
            match self {
                HiddenServiceVersion::V2 => "2",
                HiddenServiceVersion::V3 => "3",
            },
        )
    }
}

/// Authorization type for the clients of a hidden service; renders as its name.
#[derive(Clone, Copy, PartialEq, Eq, Structural, Debug)]
pub enum HiddenServiceAuthType {
    Basic,
    Stealth,
}

impl ToArg for HiddenServiceAuthType {
    open spec fn arg(&self) -> Seq<char> {
        match self {
            HiddenServiceAuthType::Basic => "Basic"@,
            HiddenServiceAuthType::Stealth => "Stealth"@,
        }
    }

    fn to_arg(&self) -> (r: String) {
        text_of(
            match self {
                HiddenServiceAuthType::Basic => "Basic",
                HiddenServiceAuthType::Stealth => "Stealth",
            },
        )
    }
}
} // verus!
