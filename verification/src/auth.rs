//! Resolving the GitHub token: from the `gh` CLI, then the keyring, then a
//! prompt whose answer is stored in the keyring.
use vstd::prelude::*;

use crate::text;
use crate::text::{chars_of, string_of, trim_chars};

verus! {

/// A failure of one of the token sources.
#[derive(Debug, Clone, PartialEq, Eq)]
pub struct AuthError {
    pub message: String,
}

impl AuthError {
    /// An error with the given text.
    pub fn new(message: &str) -> (r: AuthError)
        ensures
            r.message@ == message@,
    {
        AuthError { message: message.to_owned() }
    }

    /// The error's text.
    pub fn message(&self) -> (r: String)
        ensures
            r@ == self.message@,
    {
        self.message.clone()
    }
}

/// Where a token can come from. The library asks the sources in a fixed
/// order; an implementation talks to the `gh` CLI, the OS keyring and the
/// terminal.
pub trait AuthSources {
    /// The token `gh auth token` prints, if `gh` is installed and logged in.
    fn gh_token(&self) -> Result<Option<String>, AuthError>;

    /// The token stored in the keyring, if any.
    fn keyring_token(&self) -> Result<Option<String>, AuthError>;

    /// A token typed in by the user.
    fn prompt_token(&self) -> Result<String, AuthError>;

    /// Stores a token in the keyring.
    fn store_token(&self, token: &str) -> Result<(), AuthError>;

    /// Removes the stored token; whether there was one.
    fn clear_token(&self) -> Result<bool, AuthError>;
}

/// Where a token came from.
#[derive(Debug, Clone, Copy, PartialEq, Eq, Structural)]
pub enum AuthMethod {
    Gh,
    Keyring,
    Prompt,
}

impl AuthMethod {
    /// The source's short name.
    pub fn label(&self) -> (r: &'static str)
        ensures
            r@ == match *self {
                AuthMethod::Gh => "gh"@,
                AuthMethod::Keyring => "keyring"@,
                AuthMethod::Prompt => "prompt"@,
            },
    {
        match self {
            AuthMethod::Gh => "gh",
            AuthMethod::Keyring => "keyring",
            AuthMethod::Prompt => "prompt",
        }
    }
}

/// A token and where it came from.
#[derive(Debug, Clone, PartialEq, Eq)]
pub struct AuthToken {
    pub value: String,
    pub method: AuthMethod,
}

/// Removes the stored token through the sources; whether there was one.
pub fn clear_auth_token<S: AuthSources>(sources: &S) -> (r: Result<bool, AuthError>) {
    sources.clear_token()
}

/// What resolving a token does after one source has answered.
#[derive(Debug, Clone, PartialEq, Eq)]
pub enum AuthNext {
    /// A token was found.
    Found(AuthToken),
    /// A source failed; resolving stops with its error.
    Failed(AuthError),
    /// Ask the keyring next.
    AskKeyring,
    /// Ask the user next.
    AskPrompt,
}

/// After `gh` answered: its token when it has one, its error when it
/// failed, otherwise the keyring is asked.
pub fn after_gh_token(answer: Result<Option<String>, AuthError>) -> (r: AuthNext)
    ensures
        r == match answer {
            Err(e) => AuthNext::Failed(e),
            Ok(Some(value)) => AuthNext::Found(AuthToken { value, method: AuthMethod::Gh }),
            Ok(None) => AuthNext::AskKeyring,
        },
{
    match answer {
        Err(e) => AuthNext::Failed(e),
        Ok(Some(value)) => AuthNext::Found(AuthToken { value, method: AuthMethod::Gh }),
        Ok(None) => AuthNext::AskKeyring,
    }
}

/// After the keyring answered: its token when it has one, its error when it
/// failed, otherwise the user is asked.
pub fn after_keyring_token(answer: Result<Option<String>, AuthError>) -> (r: AuthNext)
    ensures
        r == match answer {
            Err(e) => AuthNext::Failed(e),
            Ok(Some(value)) => AuthNext::Found(AuthToken { value, method: AuthMethod::Keyring }),
            Ok(None) => AuthNext::AskPrompt,
        },
{
    match answer {
        Err(e) => AuthNext::Failed(e),
        Ok(Some(value)) => AuthNext::Found(AuthToken { value, method: AuthMethod::Keyring }),
        Ok(None) => AuthNext::AskPrompt,
    }
}

/// What resolving does after the user was asked for a token.
#[derive(Debug, Clone, PartialEq, Eq)]
pub enum PromptNext {
    /// Store this token, then hand it out.
    Store(String),
    /// Asking failed; resolving stops with the error and stores nothing.
    Failed(AuthError),
}

/// After the prompt answered: the typed token is to be stored, or the
/// prompt's error ends resolving.
pub fn after_prompt(answer: Result<String, AuthError>) -> (r: PromptNext)
    ensures
        r == match answer {
            Ok(token) => PromptNext::Store(token),
            Err(e) => PromptNext::Failed(e),
        },
{
    match answer {
        Ok(token) => PromptNext::Store(token),
        Err(e) => PromptNext::Failed(e),
    }
}

/// After a typed-in token was stored: the token, or the error of storing it.
pub fn after_store(token: String, stored: Result<(), AuthError>) -> (r: Result<AuthToken, AuthError>)
    ensures
        r == match stored {
            Ok(()) => Ok(AuthToken { value: token, method: AuthMethod::Prompt }),
            Err(e) => Err(e),
        },
{
    match stored {
        Ok(()) => Ok(AuthToken { value: token, method: AuthMethod::Prompt }),
        Err(e) => Err(e),
    }
}

/// Finds a token: the `gh` token when there is one, else the keyring token,
/// else one the user types in, which is then stored. A failing source ends
/// the search with its error. Each answer is read by `after_gh_token`,
/// `after_keyring_token`, `after_prompt` and `after_store`.
pub fn resolve_auth_token<S: AuthSources>(sources: &S) -> (r: Result<AuthToken, AuthError>) {
    match after_gh_token(sources.gh_token()) {
        AuthNext::Found(t) => return Ok(t),
        AuthNext::Failed(e) => return Err(e),
        _ => {},
    }
    match after_keyring_token(sources.keyring_token()) {
        AuthNext::Found(t) => return Ok(t),
        AuthNext::Failed(e) => return Err(e),
        _ => {},
    }
    let token = match after_prompt(sources.prompt_token()) {
        PromptNext::Store(token) => token,
        PromptNext::Failed(e) => return Err(e),
    };
    let stored = sources.store_token(token.as_str());
    after_store(token, stored)
}

/// The token text with surrounding whitespace removed; none when nothing is left.
pub fn normalize_token(raw: &str) -> (r: Option<String>)
    ensures
        text::trim(raw@).len() == 0 ==> r is None,
        text::trim(raw@).len() > 0 ==> (r matches Some(t) && t@ == text::trim(raw@)),
{
    let chars = chars_of(raw);
    let trimmed = trim_chars(chars.as_slice());
    if trimmed.len() == 0 {
        return None;
    }
    Some(string_of(trimmed.as_slice()))
}

} // verus!
