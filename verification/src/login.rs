//! `pb login`: announce the API-key page, ask for the key, validate it
//! against the panel, and store it only once it is valid.
use vstd::prelude::*;

use crate::credential::Platform;
use crate::error::CliError;
use crate::request::Response;
use crate::text::{concat, spec_trim, trim};

verus! {

/// The panel page where API keys are generated.
pub const API_KEY_PAGE: &'static str = "https://panel.pebblehost.com/account/api";

/// The program that opens a URL in the browser on `platform`, and its
/// arguments: `open` on macOS, `cmd /C start "" URL` on Windows, and
/// `xdg-open` elsewhere.
pub open spec fn spec_browser_command(platform: Platform, url: Seq<char>) -> (Seq<char>, Seq<Seq<char>>) {
    match platform {
        Platform::MacOs => ("open"@, seq![url]),
        Platform::Windows => ("cmd"@, seq!["/C"@, "start"@, ""@, url]),
        _ => ("xdg-open"@, seq![url]),
    }
}

/// The texts of a list of texts.
pub open spec fn strings_view(v: Seq<String>) -> Seq<Seq<char>> {
    Seq::new(v.len(), |i: int| v[i]@)
}

/// The program and arguments that open `url` in the browser.
pub fn browser_command(platform: Platform, url: &str) -> (c: (String, Vec<String>))
    ensures
        (c.0@, strings_view(c.1@)) == spec_browser_command(platform, url@),
{
    let target = url.to_owned();
    match platform {
        Platform::MacOs => {
            let args = vec![target];
            assert(strings_view(args@) =~= seq![url@]);
            ("open".to_owned(), args)
        },
        Platform::Windows => {
            let args = vec!["/C".to_owned(), "start".to_owned(), String::new(), target];
            proof {
                reveal_strlit("");
            }
            assert(args@.len() == 4);
            assert(args@[2]@ == ""@);
            assert(args@[3]@ == url@);
            assert(args@[0]@ == "/C"@);
            assert(strings_view(args@) =~= seq!["/C"@, "start"@, ""@, url@]);
            ("cmd".to_owned(), args)
        },
        _ => {
            let args = vec![target];
            assert(strings_view(args@) =~= seq![url@]);
            ("xdg-open".to_owned(), args)
        },
    }
}

/// Whether the browser launcher worked: `exited` is whether it exited
/// successfully, or why it could not be run.
pub fn launch_outcome(exited: Result<bool, String>) -> (r: Result<(), String>)
    ensures
        match exited {
            Ok(true) => r is Ok,
            Ok(false) => r matches Err(m) && m@ == "browser launcher returned a non-success status"@,
            Err(e) => r matches Err(m) && m@ == e@,
        },
{
    match exited {
        Ok(true) => Ok(()),
        Ok(false) => Err("browser launcher returned a non-success status".to_owned()),
        Err(e) => Err(e),
    }
}

/// Where a login stands between two pieces of outside work.
#[derive(Debug)]
pub enum LoginState {
    /// Nothing done yet.
    Start,
    /// The page was announced and the browser is being opened.
    AwaitBrowser,
    /// The user is being asked for the key.
    AwaitKey,
    /// This key is being checked against the panel.
    AwaitValidation(String),
    /// The checked key is being stored.
    AwaitSave,
    /// The login has ended.
    Finished,
}

/// What the outside work reported.
#[derive(Debug)]
pub enum LoginEvent {
    /// The login was asked for.
    Begin,
    /// Opening the browser succeeded, or failed with this text.
    BrowserOpened(Result<(), String>),
    /// The key as typed, or the prompt's failure text.
    KeyEntered(Result<String, String>),
    /// The panel accepted the key, or the request's error.
    Validated(Result<(), CliError>),
    /// Storing the key succeeded, or its error.
    Saved(Result<(), CliError>),
}

/// The outside work to do next.
#[derive(Debug)]
pub enum LoginAction {
    /// Print `notice` on standard error, then open the API-key page.
    OpenBrowser { notice: String },
    /// Print the warning, if any, on standard error, then ask for the key
    /// without echoing it.
    Prompt { warning: Option<String> },
    /// Request the account with this key.
    Validate { token: String },
    /// Store this key.
    Save { token: String },
    /// The login's outcome.
    Finish(Result<Response, CliError>),
}

/// Whether `event` is the report that `state` waits for.
pub open spec fn event_fits(state: LoginState, event: LoginEvent) -> bool {
    match state {
        LoginState::Start => event is Begin,
        LoginState::AwaitBrowser => event is BrowserOpened,
        LoginState::AwaitKey => event is KeyEntered,
        LoginState::AwaitValidation(_) => event is Validated,
        LoginState::AwaitSave => event is Saved,
        LoginState::Finished => false,
    }
}

/// Whether `event` is the report that `state` waits for.
pub fn accepts(state: &LoginState, event: &LoginEvent) -> (r: bool)
    ensures
        r == event_fits(*state, *event),
{
    match state {
        LoginState::Start => matches!(event, LoginEvent::Begin),
        LoginState::AwaitBrowser => matches!(event, LoginEvent::BrowserOpened(_)),
        LoginState::AwaitKey => matches!(event, LoginEvent::KeyEntered(_)),
        LoginState::AwaitValidation(_) => matches!(event, LoginEvent::Validated(_)),
        LoginState::AwaitSave => matches!(event, LoginEvent::Saved(_)),
        LoginState::Finished => false,
    }
}

/// The next state and action of a login.
pub fn login_step(state: LoginState, event: LoginEvent) -> (r: (LoginState, LoginAction))
    requires
        event_fits(state, event),
    ensures
        match (state, event) {
            (LoginState::Start, _) => r.0 is AwaitBrowser && (r.1 matches LoginAction::OpenBrowser {
                notice,
            } && notice@ == "Open "@ + API_KEY_PAGE@ + " to generate an API key."@),
            (LoginState::AwaitBrowser, LoginEvent::BrowserOpened(Ok(()))) => r.0 is AwaitKey && (
            r.1 matches LoginAction::Prompt { warning: None }),
            (LoginState::AwaitBrowser, LoginEvent::BrowserOpened(Err(e))) => r.0 is AwaitKey && (
            r.1 matches LoginAction::Prompt { warning: Some(w) } && w@
                == "Could not open the API-key page automatically: "@ + e@),
            (LoginState::AwaitKey, LoginEvent::KeyEntered(Err(e))) => r.0 is Finished && (
            r.1 matches LoginAction::Finish(Err(CliError::Io(m))) && m@ == e@),
            (LoginState::AwaitKey, LoginEvent::KeyEntered(Ok(k))) => if spec_trim(k@).len() == 0 {
                r.0 is Finished && (r.1 matches LoginAction::Finish(Err(CliError::Input(m))) && m@
                    == "API key cannot be empty"@)
            } else {
                (r.0 matches LoginState::AwaitValidation(t) && t@ == spec_trim(k@)) && (
                r.1 matches LoginAction::Validate { token } && token@ == spec_trim(k@))
            },
            (LoginState::AwaitValidation(t), LoginEvent::Validated(Ok(()))) => r.0 is AwaitSave
                && (r.1 matches LoginAction::Save { token } && token@ == t@),
            (LoginState::AwaitValidation(_), LoginEvent::Validated(Err(e))) => r.0 is Finished
                && if e is Api {
                r.1 matches LoginAction::Finish(Err(CliError::Api { status, message })) && status
                    == e->status && message@ == "API key validation failed"@
            } else {
                r.1 == LoginAction::Finish(Err(e))
            },
            (LoginState::AwaitSave, LoginEvent::Saved(Ok(()))) => r.0 is Finished && (
            r.1 matches LoginAction::Finish(Ok(Response::Text(m))) && m@
                == "API key saved successfully."@),
            (LoginState::AwaitSave, LoginEvent::Saved(Err(e))) => r.0 is Finished && r.1
                == LoginAction::Finish(Err(e)),
            _ => false,
        },
        // A key is stored only after the panel accepted it, and it is the key
        // that was checked.
        r.1 is Save ==> (state matches LoginState::AwaitValidation(t) && t@ == r.1->Save_token@
            && event matches LoginEvent::Validated(Ok(()))),
        // A key is checked only once it is trimmed and not empty.
        r.1 matches LoginAction::Validate { token } ==> token@.len() > 0 && spec_trim(token@)
            == token@,
        // A refused key is reported without the panel's reply text.
        (state is AwaitValidation && event matches LoginEvent::Validated(Err(CliError::Api { .. })))
            ==> (r.1 matches LoginAction::Finish(Err(CliError::Api { message, .. })) && message@
            == "API key validation failed"@),
{
    match (state, event) {
        (LoginState::Start, _) => {
            let mut notice = concat("Open ", API_KEY_PAGE);
            notice.append(" to generate an API key.");
            (LoginState::AwaitBrowser, LoginAction::OpenBrowser { notice })
        },
        (LoginState::AwaitBrowser, LoginEvent::BrowserOpened(opened)) => {
            let warning = match opened {
                Ok(()) => None,
                Err(e) => Some(concat("Could not open the API-key page automatically: ", e.as_str())),
            };
            (LoginState::AwaitKey, LoginAction::Prompt { warning })
        },
        (LoginState::AwaitKey, LoginEvent::KeyEntered(entered)) => match entered {
            Err(e) => (LoginState::Finished, LoginAction::Finish(Err(CliError::Io(e)))),
            Ok(k) => {
                let token = trim(k.as_str());
                proof {
                    crate::text::lemma_trim_idempotent(k@);
                }
                if token.as_str().unicode_len() == 0 {
                    (
                        LoginState::Finished,
                        LoginAction::Finish(
                            Err(CliError::Input("API key cannot be empty".to_owned())),
                        ),
                    )
                } else {
                    let checked = token.clone();
                    (LoginState::AwaitValidation(token), LoginAction::Validate { token: checked })
                }
            },
        },
        (LoginState::AwaitValidation(token), LoginEvent::Validated(validated)) => match validated {
            Ok(()) => (LoginState::AwaitSave, LoginAction::Save { token }),
            Err(CliError::Api { status, message: _ }) => (
                LoginState::Finished,
                LoginAction::Finish(
                    Err(CliError::Api { status, message: "API key validation failed".to_owned() }),
                ),
            ),
            Err(e) => (LoginState::Finished, LoginAction::Finish(Err(e))),
        },
        (LoginState::AwaitSave, LoginEvent::Saved(saved)) => match saved {
            Ok(()) => (
                LoginState::Finished,
                LoginAction::Finish(Ok(Response::Text("API key saved successfully.".to_owned()))),
            ),
            Err(e) => (LoginState::Finished, LoginAction::Finish(Err(e))),
        },
        (_, _) => {
            proof {
                assert(false);
            }
            (LoginState::Finished, LoginAction::Finish(Err(CliError::Update)))
        },
    }
}

} // verus!
