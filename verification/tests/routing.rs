use sshs::config::{Config, Server};
use sshs::ssh::{init, session_outcome, SessionOutcome};
use sshs::text::{str_eq, u64_to_string};
use sshs::{find_correct_server, route, server_list_lines, Args, Routed, RunError};

fn server(alias: &str, username: &str, host: &str, identity: Option<&str>) -> Server {
    Server {
        alias: String::from(alias),
        username: String::from(username),
        host: String::from(host),
        identity: identity.map(String::from),
    }
}

fn two_servers() -> Vec<Server> {
    vec![
        server("a", "u1", "h1", None),
        server("b", "u2", "h2", None),
    ]
}

#[test]
fn resolver_returns_first_match_under_duplicates() {
    let servers = vec![
        server("x", "first", "h1", None),
        server("dup", "second", "h2", None),
        server("dup", "third", "h3", None),
    ];
    let found = find_correct_server(servers, String::from("dup")).unwrap();
    assert_eq!(found.username, "second");
}

#[test]
fn resolver_reports_not_found() {
    assert_eq!(find_correct_server(two_servers(), String::from("zzz")), None);
    assert_eq!(find_correct_server(Vec::new(), String::from("a")), None);
}

#[test]
fn resolver_is_case_sensitive() {
    assert_eq!(find_correct_server(two_servers(), String::from("A")), None);
}

#[test]
fn listing_prints_index_alias_and_target_in_order() {
    let lines = server_list_lines(&Config { servers: two_servers() });
    assert_eq!(lines.len(), 2);
    assert_eq!(lines[0], "0 - alias: a | u1@h1");
    assert_eq!(lines[1], "1 - alias: b | u2@h2");
}

#[test]
fn route_list_returns_the_listing() {
    let args = Args { list: true, action: None, alias: None };
    match route(args, Config { servers: two_servers() }) {
        Ok(Routed::List(lines)) => {
            assert_eq!(lines, vec!["0 - alias: a | u1@h1", "1 - alias: b | u2@h2"]);
        },
        other => panic!("expected a listing, got {:?}", other),
    }
}

#[test]
fn route_connect_resolves_the_alias() {
    let args = Args {
        list: false,
        action: Some(String::from("connect")),
        alias: Some(String::from("b")),
    };
    match route(args, Config { servers: two_servers() }) {
        Ok(Routed::Connect(s)) => assert_eq!(s, server("b", "u2", "h2", None)),
        other => panic!("expected a connect decision, got {:?}", other),
    }
}

#[test]
fn route_connect_unknown_alias_fails_without_a_session() {
    let args = Args {
        list: false,
        action: Some(String::from("connect")),
        alias: Some(String::from("missing")),
    };
    let r = route(args, Config { servers: two_servers() });
    assert_eq!(r.unwrap_err(), RunError::AliasNotFound);
    assert_ne!(RunError::AliasNotFound.exit_code(), 0);
}

#[test]
fn route_connect_on_empty_store_reports_no_profiles() {
    let args = Args {
        list: false,
        action: Some(String::from("connect")),
        alias: Some(String::from("a")),
    };
    let r = route(args, Config { servers: Vec::new() });
    assert_eq!(r.unwrap_err(), RunError::NoProfilesDefined);
    assert_ne!(RunError::NoProfilesDefined.exit_code(), 0);
}

#[test]
fn route_unrecognized_action_is_invalid() {
    let args = Args {
        list: false,
        action: Some(String::from("frobnicate")),
        alias: Some(String::from("a")),
    };
    let r = route(args, Config { servers: two_servers() });
    assert_eq!(r.unwrap_err(), RunError::InvalidAction);
    assert_ne!(RunError::InvalidAction.exit_code(), 0);
}

#[test]
fn route_missing_action_is_invalid() {
    let args = Args { list: false, action: None, alias: None };
    let r = route(args, Config { servers: two_servers() });
    assert_eq!(r.unwrap_err(), RunError::InvalidAction);
}

#[test]
fn route_connect_without_alias_is_invalid() {
    let args = Args { list: false, action: Some(String::from("connect")), alias: None };
    let r = route(args, Config { servers: two_servers() });
    assert_eq!(r.unwrap_err(), RunError::InvalidAction);
}

#[test]
fn route_init_decides_a_reset() {
    let args = Args { list: false, action: Some(String::from("init")), alias: None };
    match route(args, Config { servers: Vec::new() }) {
        Ok(Routed::Reinit) => {},
        other => panic!("expected a reset decision, got {:?}", other),
    }
}

#[test]
fn empty_identity_omits_the_identity_argument() {
    let agent = init(server("a", "user", "host", Some("")));
    assert_eq!(agent.command_args(), vec!["user@host"]);
}

#[test]
fn absent_identity_omits_the_identity_argument() {
    let agent = init(server("a", "user", "host", None));
    assert_eq!(agent.command_args(), vec!["user@host"]);
}

#[test]
fn present_identity_appends_the_identity_argument() {
    let agent = init(server("a", "user", "host", Some("/path/key")));
    assert_eq!(agent.command_args(), vec!["user@host", "-i /path/key"]);
}

#[test]
fn destination_joins_user_and_host() {
    let agent = init(server("a", "user", "host.example.org", None));
    assert_eq!(agent.destination(), "user@host.example.org");
}

#[test]
fn session_outcomes_map_to_exit_codes() {
    assert_eq!(session_outcome(true, true, true), SessionOutcome::Success);
    assert_eq!(session_outcome(false, false, false), SessionOutcome::SessionSpawnFailed);
    assert_eq!(session_outcome(true, false, false), SessionOutcome::SessionExitedAbnormally);
    assert_eq!(session_outcome(true, true, false), SessionOutcome::SessionExitedAbnormally);
    assert_eq!(SessionOutcome::Success.exit_code(), 0);
    assert_ne!(SessionOutcome::SessionSpawnFailed.exit_code(), 0);
    assert_ne!(SessionOutcome::SessionExitedAbnormally.exit_code(), 0);
}

#[test]
fn decimal_rendering_is_exact() {
    assert_eq!(u64_to_string(0), "0");
    assert_eq!(u64_to_string(7), "7");
    assert_eq!(u64_to_string(42), "42");
    assert_eq!(u64_to_string(1234567890), "1234567890");
}

#[test]
fn string_equality_is_exact() {
    assert!(str_eq("connect", "connect"));
    assert!(!str_eq("connect", "Connect"));
    assert!(!str_eq("connect", "connect "));
    assert!(!str_eq("", "x"));
    assert!(str_eq("", ""));
}
