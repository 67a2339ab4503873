use std::cell::RefCell;

use blippy::auth::{
    after_gh_token, after_keyring_token, after_prompt, after_store, clear_auth_token, normalize_token,
    resolve_auth_token, AuthError, AuthMethod, AuthNext, AuthSources, AuthToken, PromptNext,
};

#[test]
fn resolve_token_prefers_gh_token() {
    let sources = TestSources::new().with_gh("gh-token");
    let token = resolve_auth_token(&sources).expect("token resolves");

    assert_eq!(token.value, "gh-token");
    assert_eq!(token.method, AuthMethod::Gh);
    assert_eq!(sources.calls(), vec!["gh"]);
    assert!(sources.stored().is_empty());
}

#[test]
fn resolve_token_uses_keyring_when_gh_missing() {
    let sources = TestSources::new().with_keyring("keyring-token");
    let token = resolve_auth_token(&sources).expect("token resolves");

    assert_eq!(token.value, "keyring-token");
    assert_eq!(token.method, AuthMethod::Keyring);
    assert_eq!(sources.calls(), vec!["gh", "keyring"]);
    assert!(sources.stored().is_empty());
}

#[test]
fn resolve_token_prompts_and_stores_when_missing() {
    let sources = TestSources::new().with_prompt("prompt-token");
    let token = resolve_auth_token(&sources).expect("token resolves");

    assert_eq!(token.value, "prompt-token");
    assert_eq!(token.method, AuthMethod::Prompt);
    assert_eq!(sources.calls(), vec!["gh", "keyring", "prompt", "store"]);
    assert_eq!(sources.stored(), vec!["prompt-token".to_string()]);
}

#[test]
fn normalize_token_trims_and_rejects_empty() {
    assert_eq!(normalize_token("  abc\n"), Some("abc".to_string()));
    assert_eq!(normalize_token("  \n"), None);
}

#[test]
fn clear_auth_token_clears_stored_token() {
    let sources = TestSources::new().with_clear(true);
    let cleared = clear_auth_token(&sources).expect("clear succeeds");

    assert!(cleared);
    assert_eq!(sources.calls(), vec!["clear"]);
}

#[test]
fn resolve_token_stops_at_a_failing_source() {
    let mut sources = TestSources::new();
    sources.fail_keyring = true;
    let error = resolve_auth_token(&sources).expect_err("keyring fails");
    assert_eq!(error.message(), "keyring unavailable");
    assert_eq!(sources.calls(), vec!["gh", "keyring"]);
}

#[test]
fn auth_method_labels() {
    assert_eq!(AuthMethod::Gh.label(), "gh");
    assert_eq!(AuthMethod::Keyring.label(), "keyring");
    assert_eq!(AuthMethod::Prompt.label(), "prompt");
}

struct TestSources {
    gh: Option<String>,
    keyring: Option<String>,
    prompt: Option<String>,
    clear_result: bool,
    fail_keyring: bool,
    fail_prompt: bool,
    fail_store: bool,
    calls: RefCell<Vec<&'static str>>,
    stored: RefCell<Vec<String>>,
}

impl TestSources {
    fn new() -> Self {
        Self {
            gh: None,
            keyring: None,
            prompt: None,
            clear_result: false,
            fail_keyring: false,
            fail_prompt: false,
            fail_store: false,
            calls: RefCell::new(Vec::new()),
            stored: RefCell::new(Vec::new()),
        }
    }

    fn with_gh(mut self, value: &str) -> Self {
        self.gh = Some(value.to_string());
        self
    }

    fn with_keyring(mut self, value: &str) -> Self {
        self.keyring = Some(value.to_string());
        self
    }

    fn with_prompt(mut self, value: &str) -> Self {
        self.prompt = Some(value.to_string());
        self
    }

    fn with_clear(mut self, value: bool) -> Self {
        self.clear_result = value;
        self
    }

    fn calls(&self) -> Vec<&'static str> {
        self.calls.borrow().clone()
    }

    fn stored(&self) -> Vec<String> {
        self.stored.borrow().clone()
    }
}

impl AuthSources for TestSources {
    fn gh_token(&self) -> Result<Option<String>, AuthError> {
        self.calls.borrow_mut().push("gh");
        Ok(self.gh.clone())
    }

    fn keyring_token(&self) -> Result<Option<String>, AuthError> {
        self.calls.borrow_mut().push("keyring");
        if self.fail_keyring {
            return Err(AuthError::new("keyring unavailable"));
        }
        Ok(self.keyring.clone())
    }

    fn prompt_token(&self) -> Result<String, AuthError> {
        self.calls.borrow_mut().push("prompt");
        if self.fail_prompt {
            return Err(AuthError::new("no terminal"));
        }
        Ok(self
            .prompt
            .clone()
            .unwrap_or_else(|| "prompt-token".to_string()))
    }

    fn store_token(&self, token: &str) -> Result<(), AuthError> {
        self.calls.borrow_mut().push("store");
        if self.fail_store {
            return Err(AuthError::new("keyring locked"));
        }
        self.stored.borrow_mut().push(token.to_string());
        Ok(())
    }

    fn clear_token(&self) -> Result<bool, AuthError> {
        self.calls.borrow_mut().push("clear");
        Ok(self.clear_result)
    }
}

#[test]
fn auth_steps_follow_gh_then_keyring_then_prompt() {
    assert_eq!(
        after_gh_token(Ok(Some("t".to_string()))),
        AuthNext::Found(AuthToken { value: "t".to_string(), method: AuthMethod::Gh })
    );
    assert_eq!(after_gh_token(Ok(None)), AuthNext::AskKeyring);
    assert_eq!(after_gh_token(Err(AuthError::new("boom"))), AuthNext::Failed(AuthError::new("boom")));
    assert_eq!(
        after_keyring_token(Ok(Some("k".to_string()))),
        AuthNext::Found(AuthToken { value: "k".to_string(), method: AuthMethod::Keyring })
    );
    assert_eq!(after_keyring_token(Ok(None)), AuthNext::AskPrompt);
    assert_eq!(
        after_store("p".to_string(), Ok(())),
        Ok(AuthToken { value: "p".to_string(), method: AuthMethod::Prompt })
    );
    assert_eq!(after_store("p".to_string(), Err(AuthError::new("locked"))), Err(AuthError::new("locked")));
}

#[test]
fn a_failing_prompt_stores_nothing() {
    let mut sources = TestSources::new();
    sources.fail_prompt = true;
    let error = resolve_auth_token(&sources).expect_err("prompt fails");
    assert_eq!(error.message(), "no terminal");
    assert_eq!(sources.calls(), vec!["gh", "keyring", "prompt"]);
    assert!(sources.stored().is_empty());
}

#[test]
fn a_token_that_was_not_stored_is_not_handed_out() {
    let mut sources = TestSources::new().with_prompt("typed");
    sources.fail_store = true;
    let error = resolve_auth_token(&sources).expect_err("store fails");
    assert_eq!(error.message(), "keyring locked");
    assert_eq!(sources.calls(), vec!["gh", "keyring", "prompt", "store"]);
}

#[test]
fn the_prompt_answer_is_stored_or_ends_resolving() {
    assert_eq!(after_prompt(Ok("typed".to_string())), PromptNext::Store("typed".to_string()));
    assert_eq!(after_prompt(Err(AuthError::new("no terminal"))), PromptNext::Failed(AuthError::new("no terminal")));
}
