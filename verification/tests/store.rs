use sshs::config::{make_default_config, parse, serialize, Config, ConfigError, Server};
use sshs::config::{get_config_file_path, get_config_folder_path};

fn server(alias: &str, username: &str, host: &str, identity: Option<&str>) -> Server {
    Server {
        alias: String::from(alias),
        username: String::from(username),
        host: String::from(host),
        identity: identity.map(String::from),
    }
}

#[test]
fn default_config_is_the_documented_example() {
    let c = make_default_config();
    assert_eq!(c.servers.len(), 1);
    let s = &c.servers[0];
    assert_eq!(s.alias, "example-server");
    assert_eq!(s.username, "example");
    assert_eq!(s.host, "example");
    assert_eq!(s.identity, Some(String::new()));
}

#[test]
fn default_document_text_is_exact() {
    let text = serialize(&make_default_config());
    assert_eq!(
        text,
        "servers:\n- alias: \"example-server\"\n  username: \"example\"\n  host: \"example\"\n  identity: \"\"\n"
    );
}

#[test]
fn init_then_load_yields_exactly_the_default() {
    let text = serialize(&make_default_config());
    let loaded = parse(&text).unwrap();
    assert_eq!(loaded.servers, make_default_config().servers);
}

#[test]
fn round_trip_empty_store() {
    let text = serialize(&Config { servers: Vec::new() });
    assert_eq!(text, "servers:\n");
    let loaded = parse(&text).unwrap();
    assert_eq!(loaded.servers, Vec::new());
}

#[test]
fn round_trip_duplicate_aliases_and_identity_kinds() {
    let servers = vec![
        server("dup", "alice", "a.example.org", Some("/home/alice/.key")),
        server("dup", "bob", "b.example.org", None),
        server("dup", "carol", "c.example.org", Some("")),
    ];
    let config = Config { servers: servers.clone() };
    let loaded = parse(&serialize(&config)).unwrap();
    assert_eq!(loaded.servers, servers);
}

#[test]
fn round_trip_awkward_characters() {
    let servers = vec![
        server("quote\"back\\slash", "new\nline", "ho\"st", Some("~")),
        server("  identity: ~", "servers:", "- alias: \"x\"", Some("a\\nb")),
    ];
    let config = Config { servers: servers.clone() };
    let loaded = parse(&serialize(&config)).unwrap();
    assert_eq!(loaded.servers, servers);
}

#[test]
fn parse_rejects_garbage() {
    assert_eq!(parse("garbage"), Err(ConfigError::ParseFailed));
}

#[test]
fn parse_rejects_missing_header() {
    assert_eq!(
        parse("- alias: \"a\"\n  username: \"u\"\n  host: \"h\"\n  identity: ~\n"),
        Err(ConfigError::ParseFailed)
    );
}

#[test]
fn parse_rejects_unterminated_quote() {
    assert_eq!(
        parse("servers:\n- alias: \"a\n  username: \"u\"\n  host: \"h\"\n  identity: ~\n"),
        Err(ConfigError::ParseFailed)
    );
}

#[test]
fn parse_rejects_bad_escape() {
    assert_eq!(
        parse("servers:\n- alias: \"\\x\"\n  username: \"u\"\n  host: \"h\"\n  identity: ~\n"),
        Err(ConfigError::ParseFailed)
    );
}

#[test]
fn parse_rejects_truncated_record() {
    assert_eq!(
        parse("servers:\n- alias: \"a\"\n  username: \"u\"\n"),
        Err(ConfigError::ParseFailed)
    );
}

#[test]
fn parse_rejects_missing_final_newline() {
    assert_eq!(
        parse("servers:\n- alias: \"a\"\n  username: \"u\"\n  host: \"h\"\n  identity: ~"),
        Err(ConfigError::ParseFailed)
    );
}

#[test]
fn parse_accepts_two_records() {
    let text = "servers:\n\
                - alias: \"a\"\n  username: \"u1\"\n  host: \"h1\"\n  identity: ~\n\
                - alias: \"b\"\n  username: \"u2\"\n  host: \"h2\"\n  identity: \"k\"\n";
    let loaded = parse(text).unwrap();
    assert_eq!(
        loaded.servers,
        vec![
            server("a", "u1", "h1", None),
            server("b", "u2", "h2", Some("k")),
        ]
    );
}

#[test]
fn config_paths_derive_from_home() {
    let folder = get_config_folder_path(String::from("/home/someone"));
    assert_eq!(folder, "/home/someone/.sshs");
    let file = get_config_file_path(folder);
    assert_eq!(file, "/home/someone/.sshs/server.yaml");
}

#[test]
fn error_messages_name_the_failed_step() {
    assert_eq!(
        ConfigError::HomeDirectoryNotFound.message(),
        "failed to find $HOME folder"
    );
    assert_eq!(ConfigError::ParseFailed.message(), "failed to parse from file");
    assert_eq!(ConfigError::ReadFailed.message(), "failed to read from file");
    assert_eq!(ConfigError::DirectoryCreateFailed.message(), "failed to create folder");
    assert_eq!(ConfigError::FileCreateFailed.message(), "failed to create file");
    assert_eq!(ConfigError::SerializationFailed.message(), "failed to write config file");
}
