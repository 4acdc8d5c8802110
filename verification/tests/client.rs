use pebblehost_cli::args::{parse_args, Parsed};
use pebblehost_cli::command::{
    ApiCallArgs, Command, CommandArgs, FileArgs, FileSearchArgs, PluginArgs, PowerArgs, ServerId,
};
use pebblehost_cli::credential::{
    check_opened_credential, credential_path, existing_credential, stored_token_contents,
    token_from_environment, token_from_read, token_from_store, validate_credential_metadata,
    ConfigEnv, EnvToken, FileFacts, FileKind, Lookup, Platform, CREDENTIAL_FILE_MODE,
};
use pebblehost_cli::error::CliError;
use pebblehost_cli::json::{to_compact_string, Json};
use pebblehost_cli::login::{login_step, LoginAction, LoginEvent, LoginState};
use pebblehost_cli::output::{format_response, operations_from_text, route, Route};
use pebblehost_cli::request::{
    api_call_reading_body, classify_reply, execute, Api, Dispatch, Method,
    RequestPlan, Response,
};

fn text(s: &str) -> String {
    s.to_owned()
}

fn args(list: &[&str]) -> Vec<String> {
    list.iter().map(|s| s.to_string()).collect()
}

fn number(n: &str) -> Json {
    Json::Number(text(n))
}

fn object(members: Vec<(&str, Json)>) -> Json {
    Json::Object(members.into_iter().map(|(k, v)| (text(k), v)).collect())
}

fn request_of(command: Command) -> RequestPlan {
    match execute(&command) {
        Dispatch::Request(plan) => plan,
        other => panic!("expected a request, got {other:?}"),
    }
}

fn query_of(plan: &RequestPlan) -> Vec<(&str, &str)> {
    plan.query.iter().map(|(k, v)| (k.as_str(), v.as_str())).collect()
}

fn run_login(events: Vec<LoginEvent>) -> Vec<LoginAction> {
    let mut state = LoginState::Start;
    let mut actions = Vec::new();
    for event in events {
        let (next, action) = login_step(state, event);
        state = next;
        actions.push(action);
    }
    actions
}

#[test]
fn stored_token_round_trips_and_trims_newline() {
    let contents = stored_token_contents("secret");
    assert_eq!(contents, "secret\n");
    assert_eq!(token_from_read(Ok(contents)).unwrap(), Some("secret".into()));
}

#[test]
fn nonempty_environment_token_wins_over_stored_token() {
    let resolved = token_from_environment(&EnvToken::Value(text("environment")));
    // the environment decides, so the stored key is never read
    assert_eq!(resolved.unwrap().unwrap(), "environment");
}

#[test]
fn nonempty_environment_token_resolves_without_config_root() {
    let env = ConfigEnv { xdg_config_home: None, home: None, appdata: None };
    assert_eq!(credential_path(Platform::Linux, &env), None);
    assert_eq!(
        token_from_environment(&EnvToken::Value(text("environment"))).unwrap().unwrap(),
        "environment"
    );
}

#[test]
fn explicit_empty_environment_token_does_not_fallback() {
    assert!(matches!(
        token_from_environment(&EnvToken::Value(text("   "))),
        Some(Err(CliError::MissingToken))
    ));
}

#[test]
fn absent_environment_token_uses_stored_token() {
    assert!(token_from_environment(&EnvToken::Absent).is_none());
    let stored = token_from_read(Ok(stored_token_contents("stored")));
    assert_eq!(token_from_store(stored).unwrap(), "stored");
}

#[test]
fn unsafe_credential_paths_are_rejected() {
    let link = FileFacts { kind: FileKind::Symlink, mode: Some(0o120777), reparse_point: false };
    assert!(matches!(
        check_opened_credential("api-key", &Ok(link)),
        Err(CliError::Credential(_))
    ));
    assert!(matches!(
        existing_credential("api-key", &Lookup::Found(link)),
        Err(CliError::Credential(_))
    ));
}

#[test]
fn fifo_credential_path_is_rejected_without_a_writer() {
    let fifo = FileFacts { kind: FileKind::Other, mode: Some(0o010600), reparse_point: false };
    assert!(matches!(
        check_opened_credential("api-key", &Ok(fifo)),
        Err(CliError::Credential(_))
    ));
    assert!(matches!(
        existing_credential("api-key", &Lookup::Found(fifo)),
        Err(CliError::Credential(_))
    ));
}

#[test]
fn saved_token_has_owner_only_permissions() {
    let mode = 0o100000 | CREDENTIAL_FILE_MODE;
    assert_eq!(mode & 0o077, 0);
    assert!(validate_credential_metadata("api-key", Some(mode)).is_ok());
}

#[test]
fn verbose_flag_is_global_alias_for_json_output() {
    let before_subcommand = parse_args(args(&["pb", "--verbose", "account"]), "https://panel.pebblehost.com");
    let after_subcommand = parse_args(args(&["pb", "servers", "--verbose"]), "https://panel.pebblehost.com");

    match (before_subcommand.unwrap(), after_subcommand.unwrap()) {
        (Parsed::Run(before), Parsed::Run(after)) => {
            assert!(before.json);
            assert!(after.json);
        }
        other => panic!("expected two command lines to run, got {other:?}"),
    }
}

#[test]
fn login_command_parses_without_credentials() {
    let cli = parse_args(args(&["pb", "login"]), "https://panel.pebblehost.com").unwrap();
    assert!(matches!(cli, Parsed::Run(cli) if matches!(cli.command, Command::Login)));
}

#[test]
fn login_validates_then_saves_key_even_when_browser_open_fails() {
    let actions = run_login(vec![
        LoginEvent::Begin,
        LoginEvent::BrowserOpened(Err(text("browser unavailable"))),
        LoginEvent::KeyEntered(Ok(text(" secret "))),
        LoginEvent::Validated(Ok(())),
        LoginEvent::Saved(Ok(())),
    ]);
    assert!(matches!(&actions[1], LoginAction::Prompt { warning: Some(w) } if w.contains("browser unavailable")));
    assert!(matches!(&actions[2], LoginAction::Validate { token } if token == "secret"));
    let api = Api::new(text("http://127.0.0.1:1"), text("secret"));
    assert_eq!(api.token, "secret");
    assert!(matches!(&actions[3], LoginAction::Save { token } if token == "secret"));
    match &actions[4] {
        LoginAction::Finish(Ok(response)) => {
            assert_eq!(response, &Response::Text("API key saved successfully.".into()))
        }
        other => panic!("expected a successful login, got {other:?}"),
    }
    let stored = token_from_read(Ok(stored_token_contents("secret"))).unwrap();
    assert_eq!(stored, Some("secret".into()));
}

#[test]
fn login_does_not_replace_key_when_validation_fails() {
    let refused = classify_reply(401, String::new()).unwrap_err();
    let actions = run_login(vec![
        LoginEvent::Begin,
        LoginEvent::BrowserOpened(Ok(())),
        LoginEvent::KeyEntered(Ok(text("new-secret"))),
        LoginEvent::Validated(Err(refused)),
    ]);
    assert!(actions.iter().all(|a| !matches!(a, LoginAction::Save { .. })));
    assert!(matches!(&actions[3], LoginAction::Finish(Err(_))));
    let old = token_from_read(Ok(stored_token_contents("old-secret"))).unwrap();
    assert_eq!(old, Some("old-secret".into()));
}

#[test]
fn login_validation_error_does_not_echo_submitted_key() {
    let submitted_key = "submitted-key-must-not-leak";
    let refused =
        classify_reply(401, format!("invalid API key: {submitted_key}")).unwrap_err();
    let actions = run_login(vec![
        LoginEvent::Begin,
        LoginEvent::BrowserOpened(Ok(())),
        LoginEvent::KeyEntered(Ok(text(submitted_key))),
        LoginEvent::Validated(Err(refused)),
    ]);
    match &actions[3] {
        LoginAction::Finish(Err(error)) => assert!(!error.message().contains(submitted_key)),
        other => panic!("expected a failed login, got {other:?}"),
    }
    let old = token_from_read(Ok(stored_token_contents("old-secret"))).unwrap();
    assert_eq!(old, Some("old-secret".into()));
}

#[test]
fn compact_response_format_is_sorted_single_line_json() {
    let output = format_response(
        Response::Json(object(vec![("z", number("1")), ("a", number("2"))])),
        true,
    );

    assert_eq!(output, r#"{"a":2,"z":1}"#);
}

#[test]
fn default_response_format_remains_pretty_json() {
    let output = format_response(
        Response::Json(object(vec![("z", number("1")), ("a", number("2"))])),
        false,
    );

    assert_eq!(output, "{\n  \"a\": 2,\n  \"z\": 1\n}");
}

#[test]
fn api_uses_bearer_and_decodes_json() {
    let api = Api::new(text("http://127.0.0.1:8080"), text("secret"));
    let plan = request_of(Command::Servers);
    assert_eq!(plan.method, Method::Get);
    assert_eq!(api.url(&plan.path), "http://127.0.0.1:8080/api/client");
    assert_eq!(api.token, "secret");
    let resp = classify_reply(200, text(r#"{"data": []}"#)).unwrap();
    assert_eq!(resp, Response::Json(object(vec![("data", Json::Array(vec![]))])));
}

#[test]
fn api_reports_api_errors() {
    let body = text(r#"{"errors":[{"detail":"Unauthenticated"}]}"#);
    let err = classify_reply(401, body).unwrap_err();
    match err {
        CliError::Api { status, message } => {
            assert_eq!(status, 401);
            assert!(message.contains("Unauthenticated"));
        }
        _ => panic!("expected Api error, got {err:?}"),
    }
}

#[test]
fn command_sends_user_command_body() {
    let plan = request_of(Command::Command(CommandArgs {
        server_id: "srv-1".into(),
        command: "say hello".into(),
    }));
    assert_eq!(plan.method, Method::Post);
    assert_eq!(plan.path, "/api/client/servers/srv-1/command");
    assert_eq!(plan.body, Some(object(vec![("command", Json::String(text("say hello")))])));
    assert_eq!(to_compact_string(plan.body.as_ref().unwrap()), r#"{"command":"say hello"}"#);
    let resp = classify_reply(200, text(r#"{"ok":true}"#)).unwrap();
    assert_eq!(resp, Response::Json(object(vec![("ok", Json::Bool(true))])));
}

#[test]
fn power_sends_signal_body() {
    let plan = request_of(Command::Power(PowerArgs {
        server_id: "srv-1".into(),
        action: "start".into(),
    }));
    assert_eq!(plan.method, Method::Post);
    assert_eq!(plan.path, "/api/client/servers/srv-1/power");
    assert_eq!(plan.body, Some(object(vec![("signal", Json::String(text("start")))])));
    let resp = classify_reply(204, String::new()).unwrap();
    assert_eq!(resp, Response::Json(Json::Null));
}

#[test]
fn resources_path_is_exact() {
    let plan = request_of(Command::Resources(ServerId { server_id: "srv-1".into() }));
    assert_eq!(plan.method, Method::Get);
    assert_eq!(plan.path, "/api/client/servers/srv-1/resources");
    assert!(plan.query.is_empty());
    assert!(plan.body.is_none());
    let resp = classify_reply(200, text(r#"{"resources":{}}"#)).unwrap();
    assert_eq!(resp, Response::Json(object(vec![("resources", Json::Object(vec![]))])));
}

#[test]
fn plugins_sends_documented_query() {
    let plan = request_of(Command::Plugins(PluginArgs {
        server_id: "srv-1".into(),
        provider: "modrinth".into(),
        page: 2,
        page_size: 10,
        search_query: Some("worldedit".into()),
        minecraft_version: None,
    }));
    assert_eq!(plan.path, "/api/client/servers/srv-1/minecraft/plugins");
    assert_eq!(
        query_of(&plan),
        vec![
            ("provider", "modrinth"),
            ("page", "2"),
            ("page_size", "10"),
            ("search_query", "worldedit")
        ]
    );
}

#[test]
fn search_files_sends_documented_parameters() {
    let plan = request_of(Command::FileSearch(FileSearchArgs {
        server_id: "srv-1".into(),
        query: "paper".into(),
        root: "/plugins".into(),
    }));
    assert_eq!(plan.path, "/api/client/servers/srv-1/files/search");
    assert_eq!(query_of(&plan), vec![("root", "/plugins"), ("query", "paper")]);
}

#[test]
fn raw_text_success_body_is_preserved() {
    let plan = request_of(Command::File(FileArgs {
        server_id: "srv-1".into(),
        path: "server.properties".into(),
    }));
    assert_eq!(plan.path, "/api/client/servers/srv-1/files/contents");
    assert_eq!(query_of(&plan), vec![("file", "server.properties")]);
    let resp = classify_reply(200, text("motd=A Minecraft Server\n")).unwrap();
    assert_eq!(resp, Response::Text("motd=A Minecraft Server\n".into()));
}

#[test]
fn run_resolves_api_key_from_environment() {
    assert_eq!(route(&Command::Servers), Route::Authenticated);
    assert_eq!(
        token_from_environment(&EnvToken::Value(text("secret"))).unwrap().unwrap(),
        "secret"
    );
    for key in ["", "   "] {
        assert!(matches!(
            token_from_environment(&EnvToken::Value(text(key))),
            Some(Err(CliError::MissingToken))
        ));
    }
    assert!(token_from_environment(&EnvToken::Absent).is_none());
    assert!(matches!(token_from_store(Ok(None)), Err(CliError::MissingToken)));
}

#[test]
fn json_flag_produces_compact_sorted_output() {
    let resp = classify_reply(200, text(r#"{"z":1,"a":2}"#)).unwrap();
    assert!(matches!(resp, Response::Json(_)));
    assert_eq!(format_response(resp, true), r#"{"a":2,"z":1}"#);
}

#[test]
fn api_call_sends_method_path_query_and_body() {
    let args = ApiCallArgs {
        method: "POST".into(),
        path: "/api/client/servers/srv-1/command".into(),
        query: vec!["dry_run=true".into()],
        body: Some(r#"{"command":"say hi"}"#.into()),
    };
    let plan = api_call_reading_body(&args).unwrap();
    assert_eq!(plan.method, Method::Post);
    assert_eq!(plan.path, "/api/client/servers/srv-1/command");
    assert_eq!(query_of(&plan), vec![("dry_run", "true")]);
    assert_eq!(to_compact_string(plan.body.as_ref().unwrap()), r#"{"command":"say hi"}"#);
}

#[test]
fn operations_returns_bundled_api_operations() {
    assert_eq!(route(&Command::Operations), Route::Operations);
    assert!(matches!(execute(&Command::Operations), Dispatch::Operations));
    // An inventory text of 141 operations, read as `pb operations` reads
    // the bundled one.
    let entries: Vec<String> = (0..141).map(|i| format!("\"operation-{i}\"")).collect();
    let inventory = format!("{{\"operations\":[{}]}}", entries.join(","));
    match operations_from_text(&inventory).unwrap() {
        Response::Json(Json::Object(members)) => match &members[0] {
            (key, Json::Array(operations)) if key == "operations" => {
                assert_eq!(operations.len(), 141)
            }
            other => panic!("expected the operations array, got {other:?}"),
        },
        other => panic!("expected JSON operations, got {other:?}"),
    }
}
