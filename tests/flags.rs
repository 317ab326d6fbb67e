use libtor::{
    ControlPortFlag, DisplayOption, DisplayVec, Expand, HiddenServiceAuthType, HiddenServiceVersion, LogDestination,
    LogDomain, LogLevel, SizeUnit, SocksPortFlag, TorAddress, TorBool, TorFlag, TorSubcommand,
};

#[test]
fn config_file_uses_its_template() {
    let v = TorFlag::ConfigFile("filename".into());
    assert_eq!(v.expand(), vec!["-f".to_string(), "filename".to_string()]);
    assert_eq!(v.expand_cli(), "-f \"filename\"");
}

#[test]
fn bandwidth_rate_default_rendering() {
    let v = TorFlag::BandwidthRate(256, SizeUnit::MBits);
    assert_eq!(v.expand(), vec!["BandwidthRate".to_string(), "256 MBits".to_string()]);
    assert_eq!(v.expand_cli(), "BandwidthRate \"256 MBits\"");
}

#[test]
fn disable_network_renders_bool_as_one() {
    assert_eq!(TorFlag::DisableNetwork(true.into()).expand_cli(), "DisableNetwork \"1\"");
    assert_eq!(TorFlag::DisableNetwork(TorBool::Disabled).expand_cli(), "DisableNetwork \"0\"");
    assert_eq!(TorFlag::DisableNetwork(TorBool::Enabled).expand_cli(), "DisableNetwork \"1\"");
    assert_eq!(TorFlag::DisableNetwork(false.into()).expand_cli(), "DisableNetwork \"0\"");
}

#[test]
fn log_notice_is_the_custom_text() {
    let v = TorFlag::Log(LogLevel::Notice);
    assert_eq!(v.expand(), vec!["Log \"notice\"".to_string()]);
    assert_eq!(v.expand_cli(), "Log \"notice\"");
    assert_eq!(libtor::log_expand(&v), "Log \"notice\"");
}

#[test]
fn log_to_file_and_stdout() {
    let file = TorFlag::LogTo(LogLevel::Notice, LogDestination::File("/dev/null".into()));
    assert_eq!(file.expand_cli(), "Log \"notice file /dev/null\"");
    let stdout = TorFlag::LogTo(LogLevel::Notice, LogDestination::Stdout);
    assert_eq!(stdout.expand_cli(), "Log \"notice stdout\"");
    let err = TorFlag::LogTo(LogLevel::Error, LogDestination::Stderr);
    assert_eq!(err.expand_cli(), "Log \"err stderr\"");
}

#[test]
fn log_destination_path_is_lower_cased() {
    let v = TorFlag::LogTo(LogLevel::Warn, LogDestination::File("/Var/LOG/Tor.log".into()));
    assert_eq!(v.expand_cli(), "Log \"warn file /var/log/tor.log\"");
}

#[test]
fn log_expanded_with_domains() {
    let v = TorFlag::LogExpanded(
        vec![
            (vec![(true, LogDomain::Handshake)], LogLevel::Debug),
            (vec![(false, LogDomain::Net), (false, LogDomain::Mm)], LogLevel::Info),
            (vec![], LogLevel::Notice),
        ],
        LogDestination::Stdout,
    );
    assert_eq!(v.expand_cli(), "Log \"[handshake]debug [~net,~mm]info notice stdout\"");
}

#[test]
fn control_port_address_with_flags() {
    let one = TorFlag::ControlPortAddress(
        TorAddress::Unix("/tmp/tor-cp".into()),
        Some(vec![ControlPortFlag::GroupWritable].into()).into(),
    );
    assert_eq!(one.expand_cli(), "ControlPort \"unix:/tmp/tor-cp GroupWritable\"");
    let two = TorFlag::ControlPortAddress(
        TorAddress::Unix("/tmp/tor-cp".into()),
        Some(vec![ControlPortFlag::GroupWritable, ControlPortFlag::RelaxDirModeCheck].into()).into(),
    );
    assert_eq!(two.expand_cli(), "ControlPort \"unix:/tmp/tor-cp GroupWritable RelaxDirModeCheck\"");
}

#[test]
fn https_proxy_authenticator_template() {
    let v = TorFlag::HTTPSProxyAuthenticator("user".into(), "pass".into());
    assert_eq!(v.expand_cli(), "HTTPSProxyAuthenticator \"user:pass\"");
}

#[test]
fn unit_templates_split_at_first_space() {
    assert_eq!(TorFlag::ControlPortAuto.expand(), vec!["ControlPort".to_string(), "auto".to_string()]);
    assert_eq!(TorFlag::SocksPortAuto.expand_cli(), "SocksPort \"auto\"");
    assert_eq!(TorFlag::Quiet().expand(), vec!["--quiet".to_string()]);
    assert_eq!(TorFlag::Hush().expand_cli(), "--hush");
}

#[test]
fn positional_default_joins_fields_with_spaces() {
    let v = TorFlag::MapAddress("a.example".into(), "b.example".into());
    assert_eq!(v.expand_cli(), "MapAddress \"a.example b.example\"");
    let bridge = TorFlag::Bridge("obfs4".into(), "1.2.3.4:443".into(), "FP".into());
    assert_eq!(bridge.expand_cli(), "Bridge \"obfs4 1.2.3.4:443 FP\"");
}

#[test]
fn numbers_render_in_decimal() {
    assert_eq!(TorFlag::PassphraseFD(42).expand_cli(), "--passphrase-fd \"42\"");
    assert_eq!(TorFlag::SocksPort(0).expand_cli(), "SocksPort \"0\"");
    assert_eq!(TorFlag::ControlPort(65535).expand_cli(), "ControlPort \"65535\"");
    assert_eq!(TorFlag::KeepalivePeriod(300).expand_cli(), "KeepalivePeriod \"300\"");
}

#[test]
fn addresses_and_optional_values() {
    let v = TorFlag::HiddenServicePort(TorAddress::Port(80), Some(TorAddress::AddressPort("example.org".into(), 80)).into());
    assert_eq!(v.expand_cli(), "HiddenServicePort \"80 example.org:80\"");
    let none = TorFlag::HiddenServicePort(TorAddress::Address("localhost".into()), DisplayOption::from_option(None));
    assert_eq!(none.expand_cli(), "HiddenServicePort \"localhost \"");
}

#[test]
fn rename_changes_the_default_name() {
    let v = TorFlag::SocksPortAddress(
        TorAddress::Port(9050),
        Some(vec![SocksPortFlag::NoIPv4Traffic, SocksPortFlag::PreferIPv6].into()).into(),
        None.into(),
    );
    assert_eq!(v.expand_cli(), "SocksPort \"9050 NoIPv4Traffic PreferIPv6 \"");
}

#[test]
fn comma_lists_and_versions() {
    let nodes: DisplayVec<String, libtor::CommaJoiner> = DisplayVec::from_vec(vec!["a".to_string(), "b".to_string()]);
    assert_eq!(TorFlag::ExcludeNodes(nodes).expand_cli(), "ExcludeNodes \"a,b\"");
    let ports: DisplayVec<u16, libtor::CommaJoiner> = vec![80u16, 443].into();
    assert_eq!(TorFlag::FirewallPorts(ports).expand_cli(), "FirewallPorts \"80,443\"");
    assert_eq!(TorFlag::HiddenServiceVersion(HiddenServiceVersion::V3).expand_cli(), "HiddenServiceVersion \"3\"");
    let clients: DisplayVec<String, libtor::CommaJoiner> = vec!["alice".to_string(), "bob".to_string()].into();
    assert_eq!(
        TorFlag::HiddenServiceAuthorizeClient(HiddenServiceAuthType::Stealth, clients).expand_cli(),
        "HiddenServiceAuthorizeClient \"Stealth alice,bob\""
    );
}

#[test]
fn custom_argument_splits_at_first_space() {
    assert_eq!(TorFlag::Custom("Nickname my relay".into()).expand_cli(), "Nickname \"my relay\"");
    assert_eq!(TorFlag::Custom("--version".into()).expand_cli(), "--version");
}

#[test]
fn rendering_twice_gives_the_same_output() {
    let v = TorFlag::BandwidthBurst(1024, SizeUnit::KBytes);
    assert_eq!(v.expand(), v.expand());
    assert_eq!(v.expand_cli(), v.expand_cli());
    let l = TorFlag::LogTo(LogLevel::Info, LogDestination::Syslog);
    assert_eq!(l.expand_cli(), l.expand_cli());
}

#[test]
fn subcommands_with_named_and_ignored_fields() {
    let hash = TorSubcommand::HashPassword { password: "secret".into() };
    assert_eq!(hash.expand_cli(), "--hash-password \"secret\"");
    let keygen = TorSubcommand::Keygen { password: Some("secret".into()) };
    assert_eq!(keygen.expand(), vec!["--keygen".to_string()]);
    let other = TorSubcommand::Keygen { password: None };
    assert_eq!(keygen.expand(), other.expand());
    let newpass = TorSubcommand::KeygenNewpass { old_password: Some("a".into()), new_password: Some("b".into()) };
    assert_eq!(newpass.expand_cli(), "--keygen \"--newpass\"");
    assert_eq!(TorSubcommand::VerifyConfig.expand_cli(), "--verify-config");
    assert_eq!(TorSubcommand::Version.expand_cli(), "--version");
    assert_eq!(TorSubcommand::ListFingerprint.expand_cli(), "--list-fingerprint");
}
