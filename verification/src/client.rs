//! The REST-client bootstrap: configuration read by the embedding framework,
//! and the client handle construction.

use vstd::prelude::*;

verus! {

/// Client configuration: the connection URL, carried as its text.
#[derive(Debug, Clone)]
pub struct Config {
    pub url: String,
}

#[verifier::external_type_specification]
#[verifier::external_body]
pub struct ExClient(reqwest::Client);

/// Relies on reqwest::Client::new: constructs a fresh HTTP client handle
/// with default settings; the handle is opaque here.
#[verifier::external_body]
fn new_http_client() -> reqwest::Client {
    reqwest::Client::new()
}

/// Builds the HTTP client and hands the configured URL through unchanged.
pub fn create_client(config: Config) -> (r: (reqwest::Client, String))
    ensures
        r.1@ == config.url@,
{
    (new_http_client(), config.url)
}

} // verus!
