//! Errors of the client and the text it reports for each.
use vstd::prelude::*;

use crate::credential::opt_text;
use crate::text::{concat, decimal, spec_decimal};

verus! {

/// What can go wrong while running a command.
#[derive(Debug)]
pub enum CliError {
    /// No API key in the environment and none stored.
    MissingToken,
    /// The stored credential or its file could not be used.
    Credential(String),
    /// The request could not be sent or its reply not read.
    Request(String),
    /// The panel answered with a status outside 200..=299.
    Api { status: u16, message: String },
    /// The user's input was not acceptable.
    Input(String),
    /// A local input or output operation failed.
    Io(String),
    /// The self-update script failed.
    Update,
}

/// The reason phrase that `reqwest::StatusCode::canonical_reason` gives
/// for `code` (the http crate's table), where the code has one.
pub uninterp spec fn spec_canonical_reason(code: u16) -> Option<Seq<char>>;

/// The canonical reason phrase of `code`, from
/// `reqwest::StatusCode::from_u16` and `StatusCode::canonical_reason`. The
/// contract names the phrase; which code has which phrase is the http
/// crate's table and is left unstated. A code outside 100..=999 is not a
/// status code (`from_u16` refuses it) and has none.
#[verifier::external_body]
fn canonical_reason(code: u16) -> (reason: Option<String>)
    ensures
        match (reason, spec_canonical_reason(code)) {
            (Some(r), Some(p)) => r@ == p,
            (None, None) => true,
            _ => false,
        },
        !(100 <= code <= 999) ==> reason is None,
{
    match reqwest::StatusCode::from_u16(code) {
        Ok(status) => status.canonical_reason().map(str::to_owned),
        Err(_) => None,
    }
}

/// A status as `StatusCode`'s `Display` writes it: the code, a space, and
/// the reason phrase (`<unknown status code>` without one).
pub open spec fn spec_status_line(code: u16, reason: Option<Seq<char>>) -> Seq<char> {
    spec_decimal(code as nat) + " "@ + match reason {
        Some(r) => r,
        None => "<unknown status code>"@,
    }
}

/// The status line of `code`, given its reason phrase.
pub fn status_line(code: u16, reason: Option<String>) -> (text: String)
    ensures
        text@ == spec_status_line(code, opt_text(reason)),
{
    let mut text = decimal(code as u128);
    text.append(" ");
    match reason {
        Some(r) => text.append(r.as_str()),
        None => text.append("<unknown status code>"),
    }
    text
}

/// The text of a status, as the panel's errors report it ("401
/// Unauthorized").
pub open spec fn spec_status_text(code: u16) -> Seq<char> {
    spec_status_line(code, spec_canonical_reason(code))
}

/// The text of a status.
pub fn status_text(code: u16) -> (text: String)
    ensures
        text@ == spec_status_text(code),
{
    status_line(code, canonical_reason(code))
}

/// The text reported for an error.
pub open spec fn error_message(e: CliError) -> Seq<char> {
    match e {
        CliError::MissingToken => "missing API key: set PEBBLEHOST_API_KEY or run pb login"@,
        CliError::Credential(m) => "credential error: "@ + m@,
        CliError::Request(m) => "request failed: "@ + m@,
        CliError::Api { status, message } => "PebbleHost API error ("@ + spec_status_text(status)
            + "): "@ + message@,
        CliError::Input(m) => "invalid input: "@ + m@,
        CliError::Io(m) => "io error: "@ + m@,
        CliError::Update => "update failed"@,
    }
}

impl CliError {
    /// The text reported for this error.
    pub fn message(&self) -> (text: String)
        ensures
            text@ == error_message(*self),
    {
        match self {
            CliError::MissingToken => "missing API key: set PEBBLEHOST_API_KEY or run pb login".to_owned(),
            CliError::Credential(m) => concat("credential error: ", m.as_str()),
            CliError::Request(m) => concat("request failed: ", m.as_str()),
            CliError::Api { status, message } => {
                let mut text = concat("PebbleHost API error (", status_text(*status).as_str());
                text.append("): ");
                text.append(message.as_str());
                text
            },
            CliError::Input(m) => concat("invalid input: ", m.as_str()),
            CliError::Io(m) => concat("io error: ", m.as_str()),
            CliError::Update => "update failed".to_owned(),
        }
    }
}

/// A credential error with `detail` after `prefix`.
pub fn credential_error(prefix: &str, detail: &str) -> (e: CliError)
    ensures
        e matches CliError::Credential(m) && m@ == prefix@ + detail@,
{
    CliError::Credential(concat(prefix, detail))
}

/// An input error with `detail` after `prefix`.
pub fn input_error(prefix: &str, detail: &str) -> (e: CliError)
    ensures
        e matches CliError::Input(m) && m@ == prefix@ + detail@,
{
    CliError::Input(concat(prefix, detail))
}

} // verus!
