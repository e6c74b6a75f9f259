use eth_logs::command::EthLog;
use eth_logs::settings::Settings;

#[test]
fn settings_new_holds_the_values() {
    let s = Settings::new(
        String::from("postgres"),
        String::from("postgres"),
        String::from("localhost"),
        5432,
        String::from("postgres"),
    );
    assert_eq!(s.username, "postgres");
    assert_eq!(s.password, "postgres");
    assert_eq!(s.host, "localhost");
    assert_eq!(s.port, 5432);
    assert_eq!(s.name, "postgres");
}

#[test]
fn command_variants_are_distinct() {
    assert_ne!(EthLog::Run, EthLog::Generate);
    assert_eq!(EthLog::Run, EthLog::Run);
}
