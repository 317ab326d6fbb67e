//! Flags of the control port and of the SOCKS port; each renders as its name.

use vstd::prelude::*;
use crate::text::text_of;
use crate::utils::ToArg;

verus! {

/// Flags that change the behaviour of a Unix-socket control port.
#[derive(Clone, Copy, PartialEq, Eq, Structural, Debug)]
pub enum ControlPortFlag {
    GroupWritable,
    WorldWritable,
    RelaxDirModeCheck,
}

impl ToArg for ControlPortFlag {
    open spec fn arg(&self) -> Seq<char> {
        match self {
            ControlPortFlag::GroupWritable => "GroupWritable"@,
            ControlPortFlag::WorldWritable => "WorldWritable"@,
            ControlPortFlag::RelaxDirModeCheck => "RelaxDirModeCheck"@,
        }
    }

    fn to_arg(&self) -> (r: String) {
        text_of(
            match self {
                ControlPortFlag::GroupWritable => "GroupWritable",
                ControlPortFlag::WorldWritable => "WorldWritable",
                ControlPortFlag::RelaxDirModeCheck => "RelaxDirModeCheck",
            },
        )
    }
}

/// Flags that change the behaviour of the SOCKS port.
#[derive(Clone, Copy, PartialEq, Eq, Structural, Debug)]
pub enum SocksPortFlag {
    NoIPv4Traffic,
    IPv6Traffic,
    PreferIPv6,
    NoDNSRequest,
    NoOnionTraffic,
    OnionTrafficOnly,
    CacheIPv4DNS,
    CacheIPv6DNS,
    GroupWritable,
    WorldWritable,
    CacheDNS,
    UseIPv4Cache,
    UseIPv6Cache,
    UseDNSCache,
    PreferIPv6Automap,
    PreferSOCKSNoAuth,
}

impl ToArg for SocksPortFlag {
    open spec fn arg(&self) -> Seq<char> {
        match self {
            SocksPortFlag::NoIPv4Traffic => "NoIPv4Traffic"@,
            SocksPortFlag::IPv6Traffic => "IPv6Traffic"@,
            SocksPortFlag::PreferIPv6 => "PreferIPv6"@,
            SocksPortFlag::NoDNSRequest => "NoDNSRequest"@,
            SocksPortFlag::NoOnionTraffic => "NoOnionTraffic"@,
            SocksPortFlag::OnionTrafficOnly => "OnionTrafficOnly"@,
            SocksPortFlag::CacheIPv4DNS => "CacheIPv4DNS"@,
            SocksPortFlag::CacheIPv6DNS => "CacheIPv6DNS"@,
            SocksPortFlag::GroupWritable => "GroupWritable"@,
            SocksPortFlag::WorldWritable => "WorldWritable"@,
            SocksPortFlag::CacheDNS => "CacheDNS"@,
            SocksPortFlag::UseIPv4Cache => "UseIPv4Cache"@,
            SocksPortFlag::UseIPv6Cache => "UseIPv6Cache"@,
            SocksPortFlag::UseDNSCache => "UseDNSCache"@,
            SocksPortFlag::PreferIPv6Automap => "PreferIPv6Automap"@,
            SocksPortFlag::PreferSOCKSNoAuth => "PreferSOCKSNoAuth"@,
        }
    }

    fn to_arg(&self) -> (r: String) {
        text_of(
            match self {
                SocksPortFlag::NoIPv4Traffic => "NoIPv4Traffic",
                SocksPortFlag::IPv6Traffic => "IPv6Traffic",
                SocksPortFlag::PreferIPv6 => "PreferIPv6",
                SocksPortFlag::NoDNSRequest => "NoDNSRequest",
                SocksPortFlag::NoOnionTraffic => "NoOnionTraffic",
                SocksPortFlag::OnionTrafficOnly => "OnionTrafficOnly",
                SocksPortFlag::CacheIPv4DNS => "CacheIPv4DNS",
                SocksPortFlag::CacheIPv6DNS => "CacheIPv6DNS",
                SocksPortFlag::GroupWritable => "GroupWritable",
                SocksPortFlag::WorldWritable => "WorldWritable",
                SocksPortFlag::CacheDNS => "CacheDNS",
                SocksPortFlag::UseIPv4Cache => "UseIPv4Cache",
                SocksPortFlag::UseIPv6Cache => "UseIPv6Cache",
                SocksPortFlag::UseDNSCache => "UseDNSCache",
                SocksPortFlag::PreferIPv6Automap => "PreferIPv6Automap",
                SocksPortFlag::PreferSOCKSNoAuth => "PreferSOCKSNoAuth",
            },
        )
    }
}

/// Flags that change how clients of the SOCKS port are isolated.
#[derive(Clone, Copy, PartialEq, Eq, Structural, Debug)]
pub enum SocksPortIsolationFlag {
    IsolateClientAddr,
    IsolateSOCKSAuth,
    IsolateClientProtocol,
    IsolateDestPort,
    IsolateDestAddr,
    KeepAliveIsolateSOCKSAuth,
}

impl ToArg for SocksPortIsolationFlag {
    open spec fn arg(&self) -> Seq<char> {
        match self {
            SocksPortIsolationFlag::IsolateClientAddr => "IsolateClientAddr"@,
            SocksPortIsolationFlag::IsolateSOCKSAuth => "IsolateSOCKSAuth"@,
            SocksPortIsolationFlag::IsolateClientProtocol => "IsolateClientProtocol"@,
            SocksPortIsolationFlag::IsolateDestPort => "IsolateDestPort"@,
            SocksPortIsolationFlag::IsolateDestAddr => "IsolateDestAddr"@,
            SocksPortIsolationFlag::KeepAliveIsolateSOCKSAuth => "KeepAliveIsolateSOCKSAuth"@,
        }
    }

    fn to_arg(&self) -> (r: String) {
        text_of(
            match self {
                SocksPortIsolationFlag::IsolateClientAddr => "IsolateClientAddr",
                SocksPortIsolationFlag::IsolateSOCKSAuth => "IsolateSOCKSAuth",
                SocksPortIsolationFlag::IsolateClientProtocol => "IsolateClientProtocol",
                SocksPortIsolationFlag::IsolateDestPort => "IsolateDestPort",
                SocksPortIsolationFlag::IsolateDestAddr => "IsolateDestAddr",
                SocksPortIsolationFlag::KeepAliveIsolateSOCKSAuth => "KeepAliveIsolateSOCKSAuth",
            },
        )
    }
}
} // verus!
