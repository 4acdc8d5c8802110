use pebblehost_cli::args::{parse_args, ArgError, OptName, Parsed};
use pebblehost_cli::command::{ApiCallArgs, Command, ModpackArgs, ServerId};
use pebblehost_cli::credential::{
    config_root, credential_directory, login_credential_path, credential_path, existing_credential, next_temporary_step,
    open_credential, save_failure, temporary_credential_name, token_from_read, ConfigEnv,
    CreateOutcome, FileFacts, FileKind, Lookup, OpenOutcome, Platform, SaveStage, TemporaryStep,
    CREDENTIAL_DIRECTORY_MODE, CREDENTIAL_FILE_MODE, TEMPORARY_ATTEMPTS, end_of_save, SaveEnd,
};
use pebblehost_cli::error::{status_line, status_text, CliError};
use pebblehost_cli::json::{sort_value, to_compact_string, to_pretty_string, Json};
use pebblehost_cli::login::{
    accepts, browser_command, launch_outcome, login_step, LoginAction, LoginEvent, LoginState, API_KEY_PAGE,
};
use pebblehost_cli::output::{
    format_response, operations_from_text, operations_response, route, update_response, Route,
};
use pebblehost_cli::reminder::{
    reminder_record_needed, version_reminder, version_reminder_path, Reminder,
};
use pebblehost_cli::request::{
    api_call, api_call_reading_body, classify_reply, classify_response, execute, path_server,
    search, Api, Dispatch, Method, Response,
};
use pebblehost_cli::text::{
    decimal, is_whitespace, parse_ranged_u32, parse_u32, parse_u64, trim, trim_end_char,
};

fn args(list: &[&str]) -> Vec<String> {
    list.iter().map(|s| s.to_string()).collect()
}

fn parse(list: &[&str]) -> Result<Parsed, ArgError> {
    parse_args(args(list), "https://panel.pebblehost.com")
}

fn run(list: &[&str]) -> pebblehost_cli::command::Cli {
    match parse(list) {
        Ok(Parsed::Run(cli)) => cli,
        other => panic!("expected a command, got {other:?}"),
    }
}

fn key(k: &str, v: Json) -> (String, Json) {
    (k.to_owned(), v)
}

fn env(xdg: Option<&str>, home: Option<&str>, appdata: Option<&str>) -> ConfigEnv {
    ConfigEnv {
        xdg_config_home: xdg.map(str::to_owned),
        home: home.map(str::to_owned),
        appdata: appdata.map(str::to_owned),
    }
}

fn api_call_args(method: &str, path: &str, query: &[&str], body: Option<&str>) -> ApiCallArgs {
    ApiCallArgs {
        method: method.to_owned(),
        path: path.to_owned(),
        query: args(query),
        body: body.map(str::to_owned),
    }
}

// ---------------------------------------------------------------------------
// The command line

#[test]
fn no_subcommand_is_refused() {
    assert!(matches!(parse(&["pb"]), Err(ArgError::MissingSubcommand)));
    assert!(matches!(parse(&["pb", "--json"]), Err(ArgError::MissingSubcommand)));
}

#[test]
fn help_and_version_stop_parsing() {
    assert!(matches!(parse(&["pb", "--help"]), Ok(Parsed::Help)));
    assert!(matches!(parse(&["pb", "-h"]), Ok(Parsed::Help)));
    assert!(matches!(parse(&["pb", "servers", "--help"]), Ok(Parsed::Help)));
    assert!(matches!(parse(&["pb", "--version"]), Ok(Parsed::Version)));
    assert!(matches!(parse(&["pb", "-V"]), Ok(Parsed::Version)));
}

#[test]
fn unknown_subcommand_is_named() {
    match parse(&["pb", "bogus"]) {
        Err(ArgError::UnknownSubcommand(name)) => assert_eq!(name, "bogus"),
        other => panic!("unexpected {other:?}"),
    }
}

#[test]
fn power_accepts_only_the_four_signals() {
    match parse(&["pb", "power", "abc", "--action", "jump"]) {
        Err(ArgError::InvalidValue(OptName::Action, value)) => assert_eq!(value, "jump"),
        other => panic!("unexpected {other:?}"),
    }
    assert!(matches!(parse(&["pb", "power", "abc"]), Err(ArgError::MissingOption(OptName::Action))));
    let cli = run(&["pb", "power", "abc", "--action", "restart"]);
    match cli.command {
        Command::Power(a) => {
            assert_eq!(a.server_id, "abc");
            assert_eq!(a.action, "restart");
        }
        other => panic!("unexpected {other:?}"),
    }
}

#[test]
fn missing_positional_is_named() {
    match parse(&["pb", "server"]) {
        Err(ArgError::MissingArgument(name)) => assert_eq!(name, "server_id"),
        other => panic!("unexpected {other:?}"),
    }
    match parse(&["pb", "file-search", "s1"]) {
        Err(ArgError::MissingArgument(name)) => assert_eq!(name, "query"),
        other => panic!("unexpected {other:?}"),
    }
}

#[test]
fn extra_positional_is_refused() {
    match parse(&["pb", "servers", "extra"]) {
        Err(ArgError::UnexpectedArgument(arg)) => assert_eq!(arg, "extra"),
        other => panic!("unexpected {other:?}"),
    }
}

#[test]
fn plugin_pages_parse_and_default() {
    let cli = run(&["pb", "plugins", "s1", "--provider", "modrinth"]);
    match cli.command {
        Command::Plugins(a) => {
            assert_eq!(a.page, 1);
            assert_eq!(a.page_size, 20);
            assert_eq!(a.search_query, None);
            assert_eq!(a.minecraft_version, None);
        }
        other => panic!("unexpected {other:?}"),
    }
    let cli = run(&["pb", "plugins", "s1", "--provider", "modrinth", "--page", "3", "--page-size=5"]);
    match cli.command {
        Command::Plugins(a) => {
            assert_eq!(a.page, 3);
            assert_eq!(a.page_size, 5);
        }
        other => panic!("unexpected {other:?}"),
    }
    match parse(&["pb", "plugins", "s1", "--provider", "x", "--page", "abc"]) {
        Err(ArgError::InvalidValue(OptName::Page, value)) => assert_eq!(value, "abc"),
        other => panic!("unexpected {other:?}"),
    }
}

#[test]
fn options_take_one_value_once() {
    assert!(matches!(
        parse(&["pb", "command", "s1", "--command"]),
        Err(ArgError::MissingValue(OptName::Command))
    ));
    assert!(matches!(
        parse(&["pb", "files", "s1", "--directory", "/a", "--directory", "/b"]),
        Err(ArgError::RepeatedOption(OptName::Directory))
    ));
}

#[test]
fn files_and_search_defaults() {
    match run(&["pb", "files", "s1"]).command {
        Command::Files(a) => assert_eq!(a.directory, "/"),
        other => panic!("unexpected {other:?}"),
    }
    match run(&["pb", "file-search", "s1", "needle"]).command {
        Command::FileSearch(a) => {
            assert_eq!(a.query, "needle");
            assert_eq!(a.root, "/");
        }
        other => panic!("unexpected {other:?}"),
    }
}

#[test]
fn base_url_defaults_and_overrides() {
    assert_eq!(run(&["pb", "servers"]).base_url, "https://panel.pebblehost.com");
    assert_eq!(run(&["pb", "--base-url", "http://localhost:1", "servers"]).base_url, "http://localhost:1");
    assert_eq!(run(&["pb", "--base-url=http://h", "account"]).base_url, "http://h");
}

#[test]
fn json_flag_twice_on_one_side_is_refused() {
    assert!(matches!(parse(&["pb", "--json", "--json", "servers"]), Err(ArgError::RepeatedFlag(_))));
    assert!(matches!(parse(&["pb", "--json=1", "servers"]), Err(ArgError::UnexpectedValue(_))));
}

#[test]
fn json_flag_on_either_side_of_the_subcommand() {
    assert!(run(&["pb", "--json", "servers"]).json);
    assert!(run(&["pb", "servers", "--json"]).json);
    assert!(run(&["pb", "servers", "--verbose"]).json);
    assert!(!run(&["pb", "servers"]).json);
}

#[test]
fn api_call_queries_repeat() {
    match run(&["pb", "api-call", "get", "x", "--query", "a=b", "--query", "c=d"]).command {
        Command::ApiCall(a) => {
            assert_eq!(a.query, vec!["a=b".to_owned(), "c=d".to_owned()]);
            assert_eq!(a.body, None);
        }
        other => panic!("unexpected {other:?}"),
    }
}

// ---------------------------------------------------------------------------
// Requests

#[test]
fn api_call_refuses_unknown_methods() {
    match api_call(&api_call_args("TRACE", "/x", &[], None), None) {
        Err(CliError::Input(m)) => assert_eq!(m, "unsupported HTTP method: TRACE"),
        other => panic!("unexpected {other:?}"),
    }
    match api_call(&api_call_args("trace", "/x", &[], None), None) {
        Err(CliError::Input(m)) => assert_eq!(m, "unsupported HTTP method: TRACE"),
        other => panic!("unexpected {other:?}"),
    }
}

#[test]
fn api_call_refuses_malformed_query_and_body() {
    match api_call(&api_call_args("GET", "/x", &["a=b", "nokey"], None), None) {
        Err(CliError::Input(m)) => assert_eq!(m, "query must be KEY=VALUE: nokey"),
        other => panic!("unexpected {other:?}"),
    }
    match api_call(&api_call_args("POST", "/x", &[], Some("{")), Some(Err("EOF".to_owned()))) {
        Err(CliError::Input(m)) => assert_eq!(m, "invalid JSON body: EOF"),
        other => panic!("unexpected {other:?}"),
    }
}

#[test]
fn api_call_adds_leading_slash_and_splits_at_first_equals() {
    let plan = api_call(&api_call_args("delete", "api/thing", &["k=v=w", "e="], None), None).unwrap();
    assert_eq!(plan.method, Method::Delete);
    assert_eq!(plan.path, "/api/thing");
    assert_eq!(
        plan.query,
        vec![("k".to_owned(), "v=w".to_owned()), ("e".to_owned(), String::new())]
    );
    assert_eq!(plan.body, None);
}

#[test]
fn modpacks_query_has_no_minecraft_version() {
    let command = Command::Modpacks(ModpackArgs {
        server_id: "s1".to_owned(),
        provider: "curseforge".to_owned(),
        page: 2,
        page_size: 10,
        search_query: Some("sky".to_owned()),
    });
    match execute(&command) {
        Dispatch::Request(plan) => {
            assert_eq!(plan.path, "/api/client/servers/s1/minecraft/modpacks");
            let query: Vec<(&str, &str)> = plan.query.iter().map(|(k, v)| (k.as_str(), v.as_str())).collect();
            assert_eq!(
                query,
                vec![("provider", "curseforge"), ("page", "2"), ("page_size", "10"), ("search_query", "sky")]
            );
        }
        other => panic!("unexpected {other:?}"),
    }
}

#[test]
fn search_adds_optional_parameters_in_order() {
    let plan = search(&"s".to_owned(), &"p".to_owned(), 4294967295, 0, &None, &Some("1.20".to_owned()), "plugins");
    assert_eq!(plan.path, "/api/client/servers/s/minecraft/plugins");
    let query: Vec<(&str, &str)> = plan.query.iter().map(|(k, v)| (k.as_str(), v.as_str())).collect();
    assert_eq!(
        query,
        vec![("provider", "p"), ("page", "4294967295"), ("page_size", "0"), ("minecraft_version", "1.20")]
    );
}

#[test]
fn account_and_servers_paths() {
    match execute(&Command::Account) {
        Dispatch::Request(plan) => {
            assert_eq!(plan.method, Method::Get);
            assert_eq!(plan.path, "/api/client/account");
        }
        other => panic!("unexpected {other:?}"),
    }
    match execute(&Command::Servers) {
        Dispatch::Request(plan) => assert_eq!(plan.path, "/api/client"),
        other => panic!("unexpected {other:?}"),
    }
    match execute(&Command::Allocations(ServerId { server_id: "q".to_owned() })) {
        Dispatch::Request(plan) => assert_eq!(plan.path, "/api/client/servers/q/network/allocations"),
        other => panic!("unexpected {other:?}"),
    }
    assert!(matches!(execute(&Command::Operations), Dispatch::Operations));
    assert!(matches!(execute(&Command::Update), Dispatch::Update));
    assert_eq!(path_server("x", "/y"), "/api/client/servers/x/y");
}

#[test]
fn api_trims_trailing_slashes_of_the_base_url() {
    let api = Api::new("https://panel.example//".to_owned(), "t".to_owned());
    assert_eq!(api.base_url, "https://panel.example");
    assert_eq!(api.url("/api/client"), "https://panel.example/api/client");
    assert_eq!(Api::new("/".to_owned(), "t".to_owned()).base_url, "");
}

#[test]
fn replies_are_classified() {
    match classify_response(404, String::new(), None) {
        Err(CliError::Api { status, message }) => {
            assert_eq!(status, 404);
            assert_eq!(message, "404 Not Found");
        }
        other => panic!("unexpected {other:?}"),
    }
    match classify_response(500, "boom".to_owned(), None) {
        Err(CliError::Api { status, message }) => {
            assert_eq!(status, 500);
            assert_eq!(message, "boom");
        }
        other => panic!("unexpected {other:?}"),
    }
    assert_eq!(classify_response(204, String::new(), None).unwrap(), Response::Json(Json::Null));
    assert_eq!(
        classify_response(200, "hello".to_owned(), None).unwrap(),
        Response::Text("hello".to_owned())
    );
    assert_eq!(
        classify_response(299, "true".to_owned(), Some(Json::Bool(true))).unwrap(),
        Response::Json(Json::Bool(true))
    );
}

// ---------------------------------------------------------------------------
// Errors

#[test]
fn error_messages() {
    let api = CliError::Api { status: 401, message: "nope".to_owned() };
    assert_eq!(api.message(), "PebbleHost API error (401 Unauthorized): nope");
    assert_eq!(
        CliError::MissingToken.message(),
        "missing API key: set PEBBLEHOST_API_KEY or run pb login"
    );
    assert_eq!(CliError::Update.message(), "update failed");
    assert_eq!(CliError::Io("x".to_owned()).message(), "io error: x");
    assert_eq!(CliError::Input("y".to_owned()).message(), "invalid input: y");
    assert_eq!(CliError::Credential("z".to_owned()).message(), "credential error: z");
    assert_eq!(CliError::Request("w".to_owned()).message(), "request failed: w");
}

#[test]
fn status_lines_follow_the_status_code_display() {
    assert_eq!(status_text(200), "200 OK");
    assert_eq!(status_text(418), "418 I'm a teapot");
    assert_eq!(status_text(599), "599 <unknown status code>");
    assert_eq!(status_text(42), "42 <unknown status code>");
    assert_eq!(status_line(503, Some("Busy".to_owned())), "503 Busy");
    assert_eq!(status_line(7, None), "7 <unknown status code>");
    let api = CliError::Api { status: 599, message: "m".to_owned() };
    assert_eq!(api.message(), "PebbleHost API error (599 <unknown status code>): m");
}

// ---------------------------------------------------------------------------
// Output

#[test]
fn pretty_output_nests_and_keeps_empty_containers_short() {
    let value = Json::Object(vec![
        key("b", Json::Array(vec![Json::Number("1".to_owned()), Json::Object(vec![])])),
        key("a", Json::Array(vec![])),
    ]);
    assert_eq!(
        format_response(Response::Json(value), false),
        "{\n  \"a\": [],\n  \"b\": [\n    1,\n    {}\n  ]\n}"
    );
}

#[test]
fn compact_output_escapes_strings() {
    let value = Json::String("a\"b\n\u{1}".to_owned());
    assert_eq!(to_compact_string(&value), "\"a\\\"b\\n\\u0001\"");
    let value = Json::String("\u{8}\u{c}\r\\/\u{1f}\u{7f}\u{e9}\u{2028}".to_owned());
    assert_eq!(to_compact_string(&value), "\"\\b\\f\\r\\\\/\\u001f\u{7f}\u{e9}\u{2028}\"");
    let value = Json::Object(vec![key("k\t", Json::Null)]);
    assert_eq!(to_compact_string(&value), "{\"k\\t\":null}");
}

#[test]
fn sorting_reaches_nested_objects_and_keeps_array_order() {
    let value = Json::Array(vec![
        Json::Object(vec![key("z", Json::Bool(false)), key("m", Json::Object(vec![key("y", Json::Null), key("x", Json::Null)]))]),
        Json::Number("2".to_owned()),
        Json::Number("1".to_owned()),
    ]);
    assert_eq!(
        to_compact_string(&sort_value(&value)),
        "[{\"m\":{\"x\":null,\"y\":null},\"z\":false},2,1]"
    );
    assert_eq!(to_pretty_string(&Json::Array(vec![])), "[]");
}

#[test]
fn text_responses_print_as_they_are() {
    assert_eq!(format_response(Response::Text("plain\ntext".to_owned()), true), "plain\ntext");
    assert_eq!(format_response(Response::Json(Json::Null), true), "null");
    assert_eq!(format_response(Response::Json(Json::Null), false), "null");
}

#[test]
fn keyless_commands_route_around_the_key() {
    assert!(matches!(route(&Command::Login), Route::Login));
    assert!(matches!(route(&Command::Operations), Route::Operations));
    assert!(matches!(route(&Command::Update), Route::Update));
    assert!(matches!(route(&Command::Account), Route::Authenticated));
}

#[test]
fn update_and_operations_responses() {
    assert_eq!(
        update_response(true).unwrap(),
        Response::Text("pb updated successfully. Run `pb --version` to verify.".to_owned())
    );
    assert!(matches!(update_response(false), Err(CliError::Update)));
    match operations_response(Err("bad".to_owned())) {
        Err(CliError::Input(m)) => assert_eq!(m, "invalid bundled operations: bad"),
        other => panic!("unexpected {other:?}"),
    }
    assert_eq!(operations_response(Ok(Json::Null)).unwrap(), Response::Json(Json::Null));
}

// ---------------------------------------------------------------------------
// Text

#[test]
fn trimming_uses_unicode_whitespace() {
    assert_eq!(trim("\u{a0} key \t\n"), "key");
    assert_eq!(trim("\u{3000}"), "");
    assert_eq!(trim(trim("  a b  ").as_str()), "a b");
    assert!(is_whitespace('\u{2028}'));
    assert!(!is_whitespace('a'));
    assert!(!is_whitespace('\u{200b}'));
    assert_eq!(trim_end_char("a///", '/'), "a");
}

#[test]
fn decimal_numbers_round_trip() {
    assert_eq!(decimal(0), "0");
    assert_eq!(decimal(1234567890), "1234567890");
    assert_eq!(parse_u64(&decimal(u64::MAX as u128)), Some(u64::MAX));
    assert_eq!(parse_u64("18446744073709551616"), None);
    assert_eq!(parse_u64(""), None);
    assert_eq!(parse_u64("+7"), Some(7));
    assert_eq!(parse_u64("-7"), None);
    assert_eq!(parse_u64("1 "), None);
    assert_eq!(parse_u32("4294967295"), Some(u32::MAX));
    assert_eq!(parse_u32("4294967296"), None);
}

// ---------------------------------------------------------------------------
// Credentials

#[test]
fn configuration_roots_per_platform() {
    let all = env(Some("/xdg"), Some("/home/u"), Some("C:\\Users\\u\\AppData\\Roaming"));
    assert_eq!(config_root(Platform::Linux, &all).unwrap(), "/xdg");
    assert_eq!(
        config_root(Platform::Linux, &env(Some(""), Some("/home/u"), None)).unwrap(),
        "/home/u/.config"
    );
    assert_eq!(
        config_root(Platform::MacOs, &all).unwrap(),
        "/home/u/Library/Application Support"
    );
    assert_eq!(config_root(Platform::Windows, &all).unwrap(), "C:\\Users\\u\\AppData\\Roaming");
    assert_eq!(config_root(Platform::Other, &all).unwrap(), "/home/u/.config");
    assert_eq!(config_root(Platform::Linux, &env(None, None, None)), None);
    assert_eq!(config_root(Platform::Windows, &env(None, Some("/home/u"), None)), None);
    assert_eq!(
        credential_path(Platform::Windows, &all).unwrap(),
        "C:\\Users\\u\\AppData\\Roaming\\pebblehost-cli\\api-key"
    );
    assert_eq!(
        credential_path(Platform::Windows, &env(None, None, Some("D:"))).unwrap(),
        "D:pebblehost-cli\\api-key"
    );
    assert_eq!(
        credential_path(Platform::Linux, &env(None, Some("/home/u/"), None)).unwrap(),
        "/home/u/.config/pebblehost-cli/api-key"
    );
}

#[test]
fn login_needs_a_credential_path() {
    assert_eq!(login_credential_path(Some("/c/api-key".to_owned())).unwrap(), "/c/api-key");
    match login_credential_path(None) {
        Err(CliError::Credential(m)) => assert_eq!(m, "cannot determine credential path"),
        other => panic!("unexpected {other:?}"),
    }
}

#[test]
fn existing_credential_outcomes() {
    assert!(matches!(existing_credential("/p", &Lookup::NotFound), Ok(false)));
    match existing_credential("/p", &Lookup::Failed("denied".to_owned())) {
        Err(CliError::Credential(m)) => assert_eq!(m, "cannot inspect credential file: denied"),
        other => panic!("unexpected {other:?}"),
    }
    let symlink = FileFacts { kind: FileKind::Symlink, mode: Some(0o600), reparse_point: false };
    match existing_credential("/p", &Lookup::Found(symlink)) {
        Err(CliError::Credential(m)) => assert_eq!(m, "credential path is a symlink: /p"),
        other => panic!("unexpected {other:?}"),
    }
    let directory = FileFacts { kind: FileKind::Other, mode: Some(0o700), reparse_point: false };
    match existing_credential("/p", &Lookup::Found(directory)) {
        Err(CliError::Credential(m)) => assert_eq!(m, "credential path is not a regular file: /p"),
        other => panic!("unexpected {other:?}"),
    }
    let open = FileFacts { kind: FileKind::File, mode: Some(0o644), reparse_point: false };
    match existing_credential("/p", &Lookup::Found(open)) {
        Err(CliError::Credential(m)) => assert_eq!(m, "credential file has unsafe permissions: /p"),
        other => panic!("unexpected {other:?}"),
    }
    let private = FileFacts { kind: FileKind::File, mode: Some(CREDENTIAL_FILE_MODE), reparse_point: false };
    assert!(matches!(existing_credential("/p", &Lookup::Found(private)), Ok(true)));
}

#[test]
fn opening_and_reading_the_credential() {
    assert!(matches!(open_credential(&OpenOutcome::Opened), Ok(true)));
    assert!(matches!(open_credential(&OpenOutcome::NotFound), Ok(false)));
    match open_credential(&OpenOutcome::Failed("loop".to_owned())) {
        Err(CliError::Credential(m)) => assert_eq!(m, "cannot open credential file: loop"),
        other => panic!("unexpected {other:?}"),
    }
    match token_from_read(Ok(" \n\t".to_owned())) {
        Err(CliError::Credential(m)) => assert_eq!(m, "credential file contains an empty token"),
        other => panic!("unexpected {other:?}"),
    }
    match token_from_read(Err("invalid UTF-8".to_owned())) {
        Err(CliError::Credential(m)) => assert_eq!(m, "cannot read credential file: invalid UTF-8"),
        other => panic!("unexpected {other:?}"),
    }
}

#[test]
fn saving_names_and_steps() {
    assert_eq!(credential_directory(None), ".");
    assert_eq!(credential_directory(Some(String::new())), ".");
    assert_eq!(credential_directory(Some("/cfg".to_owned())), "/cfg");
    assert_eq!(
        temporary_credential_name(&Some("api-key".to_owned()), 12, 345, 0),
        ".api-key.tmp-12-345-0"
    );
    assert_eq!(temporary_credential_name(&None, 1, 2, 99), ".api-key.tmp-1-2-99");
    assert!(matches!(next_temporary_step(0, &CreateOutcome::Created), TemporaryStep::Use));
    assert!(matches!(next_temporary_step(5, &CreateOutcome::AlreadyExists), TemporaryStep::Retry(6)));
    match next_temporary_step(TEMPORARY_ATTEMPTS - 1, &CreateOutcome::AlreadyExists) {
        TemporaryStep::Fail(CliError::Credential(m)) => {
            assert_eq!(m, "cannot create a unique temporary credential file")
        }
        other => panic!("unexpected {other:?}"),
    }
    match next_temporary_step(3, &CreateOutcome::Failed("read-only".to_owned())) {
        TemporaryStep::Fail(CliError::Credential(m)) => {
            assert_eq!(m, "cannot create temporary credential file: read-only")
        }
        other => panic!("unexpected {other:?}"),
    }
    match save_failure(SaveStage::Write, "disk full") {
        CliError::Credential(m) => assert_eq!(m, "cannot write temporary credential file: disk full"),
        other => panic!("unexpected {other:?}"),
    }
    assert_eq!(CREDENTIAL_DIRECTORY_MODE & 0o077, 0);
    assert_eq!(CREDENTIAL_FILE_MODE & 0o077, 0);
}

// ---------------------------------------------------------------------------
// Login

#[test]
fn login_prompt_failures_and_empty_keys_end_the_login() {
    let (state, _) = login_step(LoginState::Start, LoginEvent::Begin);
    let (state, action) = login_step(state, LoginEvent::BrowserOpened(Err("no display".to_owned())));
    match action {
        LoginAction::Prompt { warning: Some(w) } => {
            assert_eq!(w, "Could not open the API-key page automatically: no display")
        }
        other => panic!("unexpected {other:?}"),
    }
    let (_, action) = login_step(state, LoginEvent::KeyEntered(Err("eof".to_owned())));
    assert!(matches!(action, LoginAction::Finish(Err(CliError::Io(m))) if m == "eof"));

    let (state, _) = login_step(LoginState::AwaitBrowser, LoginEvent::BrowserOpened(Ok(())));
    let (_, action) = login_step(state, LoginEvent::KeyEntered(Ok(" \n".to_owned())));
    assert!(matches!(action, LoginAction::Finish(Err(CliError::Input(m))) if m == "API key cannot be empty"));
}

#[test]
fn browser_launchers_per_platform() {
    let (program, args) = browser_command(Platform::Linux, API_KEY_PAGE);
    assert_eq!(program, "xdg-open");
    assert_eq!(args, vec!["https://panel.pebblehost.com/account/api".to_owned()]);
    let (program, args) = browser_command(Platform::MacOs, "u");
    assert_eq!((program.as_str(), args), ("open", vec!["u".to_owned()]));
    let (program, args) = browser_command(Platform::Windows, "u");
    assert_eq!(program, "cmd");
    assert_eq!(args, vec!["/C".to_owned(), "start".to_owned(), String::new(), "u".to_owned()]);
    assert_eq!(launch_outcome(Ok(true)), Ok(()));
    assert_eq!(
        launch_outcome(Ok(false)),
        Err("browser launcher returned a non-success status".to_owned())
    );
    assert_eq!(launch_outcome(Err("not found".to_owned())), Err("not found".to_owned()));
}

#[test]
fn login_checks_the_trimmed_key() {
    let (state, action) = login_step(LoginState::AwaitKey, LoginEvent::KeyEntered(Ok("  abc \n".to_owned())));
    assert!(matches!(action, LoginAction::Validate { token } if token == "abc"));
    let (_, action) = login_step(state, LoginEvent::Validated(Err(CliError::Request("timeout".to_owned()))));
    assert!(matches!(action, LoginAction::Finish(Err(CliError::Request(m))) if m == "timeout"));
    let (_, action) = login_step(LoginState::AwaitSave, LoginEvent::Saved(Err(CliError::Credential("x".to_owned()))));
    assert!(matches!(action, LoginAction::Finish(Err(CliError::Credential(m))) if m == "x"));
}

// ---------------------------------------------------------------------------
// The update reminder

fn reminder(json: bool, command: &Command, has_path: bool, stored: Option<&str>, now: u64) -> Reminder {
    version_reminder(json, command, has_path, &stored.map(str::to_owned), "0.1.0", now)
}

#[test]
fn reminder_is_quiet_within_a_day_of_the_last_one() {
    assert!(matches!(reminder(false, &Command::Servers, true, Some("0.1.0\n100\n"), 100 + 3600), Reminder::Quiet));
    assert!(matches!(reminder(false, &Command::Servers, true, Some("0.1.0\n100"), 100 + 86399), Reminder::Quiet));
    assert!(matches!(reminder(false, &Command::Servers, true, Some("0.1.0\n500\n"), 100), Reminder::Quiet));
}

#[test]
fn reminder_shows_and_records_when_due() {
    match reminder(false, &Command::Servers, true, Some("0.1.0\n100\n"), 100 + 86400) {
        Reminder::Show { notice, record } => {
            assert_eq!(notice, "pb 0.1.0 is installed. Run `pb update` to check for the latest version.");
            assert_eq!(record, "0.1.0\n86500\n");
        }
        other => panic!("unexpected {other:?}"),
    }
    assert!(matches!(reminder(false, &Command::Servers, true, Some("0.0.9\n100\n"), 200), Reminder::Show { .. }));
    assert!(matches!(reminder(false, &Command::Servers, true, Some("0.1.0\nsoon\n"), 200), Reminder::Show { .. }));
    assert!(matches!(reminder(false, &Command::Servers, true, Some("0.1.0"), 200), Reminder::Show { .. }));
    assert!(matches!(reminder(false, &Command::Servers, true, None, 200), Reminder::Show { .. }));
}

#[test]
fn reminder_is_quiet_for_json_login_update_and_without_home() {
    assert!(matches!(reminder(true, &Command::Servers, true, None, 200), Reminder::Quiet));
    assert!(matches!(reminder(false, &Command::Login, true, None, 200), Reminder::Quiet));
    assert!(matches!(reminder(false, &Command::Update, true, None, 200), Reminder::Quiet));
    assert!(matches!(reminder(false, &Command::Servers, false, None, 200), Reminder::Quiet));
}

#[test]
fn reminder_path_is_under_home() {
    assert_eq!(
        version_reminder_path(Platform::Linux, &Some("/home/u".to_owned())).unwrap(),
        "/home/u/.config/pebblehost-cli/version-reminder"
    );
    assert_eq!(version_reminder_path(Platform::Linux, &None), None);
}

// ---------------------------------------------------------------------------
// Reading JSON

#[test]
fn replies_are_read_as_json_where_they_are_json() {
    let resp = classify_reply(200, r#"{"b":[1.5,-2,3],"a":"x"}"#.to_owned()).unwrap();
    assert_eq!(
        resp,
        Response::Json(Json::Object(vec![
            key("a", Json::String("x".to_owned())),
            key(
                "b",
                Json::Array(vec![
                    Json::Number("1.5".to_owned()),
                    Json::Number("-2".to_owned()),
                    Json::Number("3".to_owned()),
                ])
            ),
        ]))
    );
    assert_eq!(
        classify_reply(200, "{not json".to_owned()).unwrap(),
        Response::Text("{not json".to_owned())
    );
    assert_eq!(classify_reply(201, "null".to_owned()).unwrap(), Response::Json(Json::Null));
    match classify_reply(500, "{\"a\":1}".to_owned()) {
        Err(CliError::Api { status, message }) => {
            assert_eq!(status, 500);
            assert_eq!(message, "{\"a\":1}");
        }
        other => panic!("unexpected {other:?}"),
    }
}

#[test]
fn api_call_reads_its_body_text() {
    let plan = api_call_reading_body(&api_call_args("put", "x", &[], Some(r#"{"a": [true]}"#))).unwrap();
    assert_eq!(plan.method, Method::Put);
    assert_eq!(plan.path, "/x");
    assert_eq!(plan.body, Some(Json::Object(vec![key("a", Json::Array(vec![Json::Bool(true)]))])));
    match api_call_reading_body(&api_call_args("POST", "/x", &[], Some("{"))) {
        Err(CliError::Input(m)) => assert!(m.starts_with("invalid JSON body: EOF while parsing")),
        other => panic!("unexpected {other:?}"),
    }
    let plan = api_call_reading_body(&api_call_args("GET", "/x", &[], None)).unwrap();
    assert_eq!(plan.body, None);
}

#[test]
fn operations_text_is_read_as_json() {
    assert_eq!(operations_from_text("[]").unwrap(), Response::Json(Json::Array(vec![])));
    match operations_from_text("nope") {
        Err(CliError::Input(m)) => assert!(m.starts_with("invalid bundled operations: expected")),
        other => panic!("unexpected {other:?}"),
    }
}

#[test]
fn sorting_twice_sorts_no_further() {
    let value = Json::Object(vec![
        key("z", Json::Object(vec![key("b", Json::Null), key("a", Json::Null)])),
        key("a", Json::Array(vec![Json::Object(vec![key("y", Json::Null), key("x", Json::Null)])])),
    ]);
    let once = sort_value(&value);
    assert_eq!(sort_value(&once), once);
    assert_eq!(to_compact_string(&once), "{\"a\":[{\"x\":null,\"y\":null}],\"z\":{\"a\":null,\"b\":null}}");
}

#[test]
fn reminder_record_is_read_only_when_needed() {
    assert!(reminder_record_needed(false, &Command::Servers, true));
    assert!(!reminder_record_needed(true, &Command::Servers, true));
    assert!(!reminder_record_needed(false, &Command::Login, true));
    assert!(!reminder_record_needed(false, &Command::Update, true));
    assert!(!reminder_record_needed(false, &Command::Servers, false));
}

#[test]
fn failed_saves_remove_the_temporary_file() {
    assert!(matches!(end_of_save(Ok(())), SaveEnd::Saved));
    match end_of_save(Err(save_failure(SaveStage::Sync, "eio"))) {
        SaveEnd::RemoveTemporary(CliError::Credential(m)) => {
            assert_eq!(m, "cannot sync temporary credential file: eio")
        }
        other => panic!("unexpected {other:?}"),
    }
}

#[test]
fn login_steps_accept_only_the_awaited_report() {
    assert!(accepts(&LoginState::Start, &LoginEvent::Begin));
    assert!(!accepts(&LoginState::Start, &LoginEvent::Saved(Ok(()))));
    assert!(accepts(&LoginState::AwaitValidation("k".to_owned()), &LoginEvent::Validated(Ok(()))));
    assert!(!accepts(&LoginState::Finished, &LoginEvent::Begin));
}

#[test]
fn page_numbers_are_read_as_clap_reads_them() {
    assert_eq!(parse_ranged_u32("-0"), Some(0));
    assert_eq!(parse_ranged_u32("-000"), Some(0));
    assert_eq!(parse_ranged_u32("-1"), None);
    assert_eq!(parse_ranged_u32("-"), None);
    assert_eq!(parse_ranged_u32("+3"), Some(3));
    assert_eq!(parse_ranged_u32("4294967295"), Some(u32::MAX));
    assert_eq!(parse_ranged_u32("4294967296"), None);
    match run(&["pb", "plugins", "s", "--provider", "p", "--page=-0"]).command {
        Command::Plugins(a) => assert_eq!(a.page, 0),
        other => panic!("unexpected {other:?}"),
    }
}
