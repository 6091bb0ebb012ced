//! Which model provider the chat interface talks to.
use vstd::prelude::*;
use vstd::string::*;

verus! {

/// The provider chosen from the command line.
#[derive(Debug, Clone)]
pub enum BackendChoice {
    /// An OpenAI-compatible server at this base URL, with this key.
    OpenAiCompat { base_url: String, api_key: String },
    /// The Anthropic Messages API with this key.
    Anthropic { api_key: String },
}

/// The error when neither a base URL nor an API key is given.
pub const NO_BACKEND: &'static str =
    "no LLM backend configured — provide --api-key (Anthropic) or --base-url (OpenAI-compatible local server)";

/// The key sent to a local OpenAI-compatible server when none is given.
pub const LOCAL_KEY: &'static str = "local";

/// Choose the provider: a base URL selects an OpenAI-compatible server (with
/// the key when given, else `local`); otherwise a key selects Anthropic;
/// with neither there is no provider.
pub fn choose_backend(base_url: Option<String>, api_key: Option<String>) -> (r: Result<
    BackendChoice,
    String,
>)
    ensures
        base_url matches Some(url) ==> (r matches Ok(BackendChoice::OpenAiCompat { base_url: u, api_key: k })
            && u@ == url@ && k@ == match api_key {
            Some(key) => key@,
            None => LOCAL_KEY@,
        }),
        base_url is None ==> (api_key matches Some(key) ==> (r matches Ok(
            BackendChoice::Anthropic { api_key: k },
        ) && k@ == key@)),
        base_url is None && api_key is None ==> (r matches Err(m) && m@ == NO_BACKEND@),
{
    match (base_url, api_key) {
        (Some(url), key) => {
            let key = match key {
                Some(k) => k,
                None => LOCAL_KEY.to_owned(),
            };
            Ok(BackendChoice::OpenAiCompat { base_url: url, api_key: key })
        },
        (None, Some(key)) => Ok(BackendChoice::Anthropic { api_key: key }),
        (None, None) => Err(NO_BACKEND.to_owned()),
    }
}

} // verus!
