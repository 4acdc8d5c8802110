//! A command-line client for the PebbleHost panel API: argument grammar,
//! request planning, credential handling and response formatting.
use vstd::prelude::*;

pub mod args;
pub mod command;
pub mod credential;
pub mod error;
pub mod json;
pub mod login;
pub mod output;
pub mod reminder;
pub mod request;
pub mod text;

verus! {
} // verus!
