//! The errors of the workflow layer, each with the message it is shown with.
use vstd::prelude::*;
use crate::text::{concat2, push_str};

verus! {

pub enum ConduitError {
    Io(String),
    Storage(String),
    Network(String),
    DownloadFailed(String),
    ApiFailure(String),
    Deserialize(String),
    HashMismatch { expected: String, actual: String },
    Migration(String),
    Config(String),
    SaveConfig(String),
    Unsupported(String),
    NotInstalled,
    NoEntryPoint,
    NotFound(String),
}

/// The message of each error.
pub open spec fn conduit_error_message(e: ConduitError) -> Seq<char> {
    match e {
        ConduitError::Io(s) => "io error: "@ + s@,
        ConduitError::Storage(s) => "disk space or permission error: "@ + s@,
        ConduitError::Network(s) => "network request failed: "@ + s@,
        ConduitError::DownloadFailed(s) => "failed to download resource from "@ + s@,
        ConduitError::ApiFailure(s) => "api returned an error: "@ + s@,
        ConduitError::Deserialize(s) => "failed to deserialize response: "@ + s@,
        ConduitError::HashMismatch { expected, actual } => "hash mismatch: expected "@ + expected@ + ", got "@
            + actual@,
        ConduitError::Migration(s) => "migration failed: "@ + s@,
        ConduitError::Config(s) => "failed to parse configuration: "@ + s@,
        ConduitError::SaveConfig(s) => "failed to save configuration: "@ + s@,
        ConduitError::Unsupported(s) => "unsupported loader or version: "@ + s@,
        ConduitError::NotInstalled => "lockfile not found, please install first"@,
        ConduitError::NoEntryPoint => "could not find a valid entry point (server.jar or args file)"@,
        ConduitError::NotFound(s) => "resource not found: "@ + s@,
    }
}

impl ConduitError {
    /// The message the error is shown with.
    pub fn message(&self) -> (r: String)
        ensures
            r@ == conduit_error_message(*self),
    {
        match self {
            ConduitError::Io(s) => concat2("io error: ", s.as_str()),
            ConduitError::Storage(s) => concat2("disk space or permission error: ", s.as_str()),
            ConduitError::Network(s) => concat2("network request failed: ", s.as_str()),
            ConduitError::DownloadFailed(s) => concat2("failed to download resource from ", s.as_str()),
            ConduitError::ApiFailure(s) => concat2("api returned an error: ", s.as_str()),
            ConduitError::Deserialize(s) => concat2("failed to deserialize response: ", s.as_str()),
            ConduitError::HashMismatch { expected, actual } => {
                let mut r = concat2("hash mismatch: expected ", expected.as_str());
                push_str(&mut r, ", got ");
                push_str(&mut r, actual.as_str());
                r
            },
            ConduitError::Migration(s) => concat2("migration failed: ", s.as_str()),
            ConduitError::Config(s) => concat2("failed to parse configuration: ", s.as_str()),
            ConduitError::SaveConfig(s) => concat2("failed to save configuration: ", s.as_str()),
            ConduitError::Unsupported(s) => concat2("unsupported loader or version: ", s.as_str()),
            ConduitError::NotInstalled => "lockfile not found, please install first".to_string(),
            ConduitError::NoEntryPoint => "could not find a valid entry point (server.jar or args file)".to_string(),
            ConduitError::NotFound(s) => concat2("resource not found: ", s.as_str()),
        }
    }
}

} // verus!
