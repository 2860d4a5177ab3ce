use afkttv::config::{Auth, Config};

#[test]
fn configuration_text_of_two_entries() {
    assert_eq!(
        Config::write("s3cr3t\n", "alice\n"),
        "[authorization]\nauth = \"s3cr3t\"\nuser = \"alice\"\n"
    );
    assert_eq!(
        Config::write("s3cr3t \r\n", "  alice\t\n"),
        "[authorization]\nauth = \"s3cr3t\"\nuser = \"  alice\"\n"
    );
    assert_eq!(Config::write("", "\n"), "[authorization]\nauth = \"\"\nuser = \"\"\n");
}

#[test]
fn configuration_text_reads_back() {
    let text = Config::write("s3cr3t\n", "alice\n");
    let table: toml::Table = text.parse().unwrap();
    assert_eq!(table["authorization"]["auth"].as_str(), Some("s3cr3t"));
    assert_eq!(table["authorization"]["user"].as_str(), Some("alice"));
}

#[test]
fn configuration_holds_the_credentials() {
    let config =
        Config { authorization: Auth { auth: "s3cr3t".to_string(), user: "alice".to_string() } };
    assert_eq!(config.clone(), config);
    assert_eq!(config.authorization.auth, "s3cr3t");
    assert_eq!(config.authorization.user, "alice");
}
