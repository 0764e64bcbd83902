//! The choices made when connecting to Google Drive.
use vstd::prelude::*;
use crate::text::copy_str;

verus! {

/// How the user completes the Google sign-in.
#[derive(Clone, Copy, Debug, PartialEq, Eq)]
pub enum FlowMethod {
    /// The app shows the sign-in page and waits for the user.
    Interactive,
    /// Google redirects the browser to a local server.
    HttpRedirect,
}

/// The sign-in flow: interactive when the app presents the sign-in page
/// itself, else by redirect.
pub fn flow_method(app_presents_url: bool) -> (res: FlowMethod)
    ensures
        res == (if app_presents_url {
            FlowMethod::Interactive
        } else {
            FlowMethod::HttpRedirect
        }),
{
    if app_presents_url {
        FlowMethod::Interactive
    } else {
        FlowMethod::HttpRedirect
    }
}

/// The file that tokens are kept in: the one given, or `tokencache.json`.
pub fn token_cache_file(token_cache: Option<&str>) -> (res: String)
    ensures
        res@ == match token_cache {
            Some(t) => t@,
            None => "tokencache.json"@,
        },
{
    match token_cache {
        Some(t) => copy_str(t),
        None => copy_str("tokencache.json"),
    }
}

} // verus!
