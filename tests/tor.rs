use libtor::{
    format_hashed_password, generate_hashed_password, hashed_password_with_salt, Error, HiddenServiceVersion, LogLevel,
    Tor, TorAddress, TorFlag, TorSubcommand,
};

fn strings(items: &[&str]) -> Vec<String> {
    items.iter().map(|s| s.to_string()).collect()
}

#[test]
fn arguments_follow_the_flags_in_order() {
    let mut tor = Tor::new();
    tor.flag(TorFlag::DataDirectory("/tmp/tor-rust".into()))
        .flag(TorFlag::HiddenServiceVersion(HiddenServiceVersion::V3))
        .flag(TorFlag::HiddenServicePort(TorAddress::Port(80), Some(TorAddress::AddressPort("example.org".into(), 80)).into()))
        .flag(TorFlag::Log(LogLevel::Notice))
        .flag(TorFlag::SocksPort(0));
    assert_eq!(
        tor.args(),
        strings(&[
            "tor",
            "DataDirectory",
            "/tmp/tor-rust",
            "HiddenServiceVersion",
            "3",
            "HiddenServicePort",
            "80 example.org:80",
            "Log",
            "notice",
            "SocksPort",
            "0",
        ])
    );
}

#[test]
fn log_flags_give_the_daemon_name_and_value() {
    let mut tor = Tor::new();
    tor.flag(TorFlag::LogTo(LogLevel::Notice, libtor::LogDestination::Stdout));
    assert_eq!(tor.args(), strings(&["tor", "Log", "notice stdout"]));
    let flag = TorFlag::LogTo(LogLevel::Notice, libtor::LogDestination::Stdout);
    assert_eq!(flag.daemon_args(), strings(&["Log", "notice stdout"]));
    assert_eq!(TorFlag::SocksPort(9050).daemon_args(), strings(&["SocksPort", "9050"]));
}

#[test]
fn subcommand_comes_last_and_only_once() {
    let mut tor = Tor::new_with_subcommand(TorSubcommand::VerifyConfig);
    tor.flag(TorFlag::ConfigFile("torrc".into()));
    assert_eq!(tor.args(), strings(&["tor", "-f", "torrc", "--verify-config"]));
    assert!(matches!(tor.subcommand(TorSubcommand::Version), Err(Error::DuplicatedSubcommand)));

    let mut fresh = Tor::default();
    assert!(fresh.subcommand(TorSubcommand::HashPassword { password: "pw".into() }).is_ok());
    assert_eq!(fresh.args(), strings(&["tor", "--hash-password", "pw"]));
    assert_eq!(Tor::new().args(), strings(&["tor"]));
}

#[test]
fn test_generate_hashed_password() {
    for i in 0..0xff {
        let secret = i.to_string();
        let hashed_pwd = generate_hashed_password(&secret).unwrap();
        assert_eq!(hashed_pwd.len(), 61);
    }
}

#[test]
fn hashed_password_with_known_salt() {
    assert_eq!(
        hashed_password_with_salt("secret", [1, 2, 3, 4, 5, 6, 7, 8]),
        "16:0102030405060708604a9fc603431aadc6ada83362a68b19f5d1e99637"
    );
    assert_eq!(hashed_password_with_salt("", [0; 8]), "16:0000000000000000601adc95bebe9eea8c112d40cd04ab7a8d75c4f961");
}

#[test]
fn hashed_password_format() {
    let digest: Vec<u8> = (0u8..20).collect();
    assert_eq!(
        format_hashed_password(&[0xde, 0xad, 0xbe, 0xef, 0, 1, 2, 255], &digest),
        "16:deadbeef000102ff60000102030405060708090a0b0c0d0e0f10111213"
    );
}

#[test]
fn fresh_salts_differ() {
    let a = generate_hashed_password("same").unwrap();
    let b = generate_hashed_password("same").unwrap();
    assert!(a.starts_with("16:"));
    assert_ne!(a, b);
}

#[test]
fn error_messages() {
    assert_eq!(Error::NotRunning.message(), "Tor service is not running");
    assert_eq!(Error::DuplicatedSubcommand.message(), "a subcommand is already set");
}
