//! What a command prints, and which path a command takes through the client.
use vstd::prelude::*;

use crate::command::Command;
use crate::error::{CliError, input_error};
use crate::json::{
    Json, compact_text, lemma_compact_output_single_line, numerals, parse_json, spec_parse_json, lemma_sorted_value_keeps_numbers, no_line_break, numbers_single_line,
    pretty_text, sort_value, sorted_value, to_compact_string, to_pretty_string,
};
use crate::request::Response;

verus! {

/// The printed text of a response: JSON with every object's members sorted
/// by key, on one line with `--json` and pretty-printed otherwise; text as
/// it came.
pub open spec fn spec_format_response(response: Response, json: bool) -> Seq<char> {
    match response {
        Response::Json(v) => if json {
            compact_text(sorted_value(v@))
        } else {
            pretty_text(sorted_value(v@), Seq::empty())
        },
        Response::Text(t) => t@,
    }
}

/// The printed text of a response.
pub fn format_response(response: Response, json: bool) -> (text: String)
    ensures
        text@ == spec_format_response(response, json),
        // With `--json` a JSON reply prints as one line.
        json && (response matches Response::Json(v) && numbers_single_line(v@)) ==> no_line_break(
            text@,
        ),
        // In particular for every value that JSON text reads as.
        json && (response matches Response::Json(v) && numerals(v@)) ==> no_line_break(text@),
{
    match response {
        Response::Json(value) => {
            let sorted = sort_value(&value);
            proof {
                if numbers_single_line(value@) {
                    lemma_sorted_value_keeps_numbers(value@);
                }
                if numerals(value@) {
                    lemma_compact_output_single_line(value@);
                }
            }
            if json {
                to_compact_string(&sorted)
            } else {
                to_pretty_string(&sorted)
            }
        },
        Response::Text(text) => text,
    }
}

/// The way a command runs.
#[derive(Debug, Clone, Copy, PartialEq, Eq, Structural)]
pub enum Route {
    /// `login`, which needs no stored key.
    Login,
    /// `operations`, which needs no key.
    Operations,
    /// `update`, which needs no key.
    Update,
    /// Everything else: resolve the API key first.
    Authenticated,
}

/// How `command` runs: login, operations and update need no API key.
pub fn route(command: &Command) -> (r: Route)
    ensures
        command is Login <==> r == Route::Login,
        command is Operations <==> r == Route::Operations,
        command is Update <==> r == Route::Update,
{
    match command {
        Command::Login => Route::Login,
        Command::Operations => Route::Operations,
        Command::Update => Route::Update,
        _ => Route::Authenticated,
    }
}

/// The response of `operations`: the bundled inventory read as JSON, or
/// the parser's error text.
pub fn operations_response(parsed: Result<Json, String>) -> (r: Result<Response, CliError>)
    ensures
        match parsed {
            Ok(v) => r matches Ok(Response::Json(w)) && w@ == v@,
            Err(e) => r matches Err(CliError::Input(m)) && m@ == "invalid bundled operations: "@
                + e@,
        },
{
    match parsed {
        Ok(v) => Ok(Response::Json(v)),
        Err(e) => Err(input_error("invalid bundled operations: ", e.as_str())),
    }
}

/// The response of `operations`: the inventory text read as JSON.
pub fn operations_from_text(text: &str) -> (r: Result<Response, CliError>)
    ensures
        match spec_parse_json(text@) {
            Ok(v) => r matches Ok(Response::Json(w)) && w@ == v,
            Err(e) => r matches Err(CliError::Input(m)) && m@ == "invalid bundled operations: "@
                + e,
        },
{
    operations_response(parse_json(text))
}

/// The response of `update`, given whether the updater succeeded.
pub fn update_response(succeeded: bool) -> (r: Result<Response, CliError>)
    ensures
        succeeded ==> (r matches Ok(Response::Text(m)) && m@
            == "pb updated successfully. Run `pb --version` to verify."@),
        !succeeded ==> r matches Err(CliError::Update),
{
    if succeeded {
        Ok(Response::Text("pb updated successfully. Run `pb --version` to verify.".to_owned()))
    } else {
        Err(CliError::Update)
    }
}

} // verus!
