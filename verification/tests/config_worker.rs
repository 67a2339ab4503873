use blippy::config::{config_dir_choice, Config, ConfigDir};
use blippy::worker::WorkerSetupError;

#[test]
fn default_config_is_empty() {
    let config = Config::default();
    assert!(config.keymap.is_none());
    assert!(config.comment_defaults.is_empty());
}

#[test]
fn config_dir_prefers_xdg_then_home() {
    assert_eq!(
        config_dir_choice(Some("/x".to_string()), Some("/h".to_string())),
        ConfigDir::XdgConfigHome("/x".to_string())
    );
    assert_eq!(config_dir_choice(None, Some("/h".to_string())), ConfigDir::HomeConfig("/h".to_string()));
    assert_eq!(config_dir_choice(None, None), ConfigDir::WorkingDir);
}

#[test]
fn worker_setup_error_message_is_its_text() {
    assert_eq!(WorkerSetupError::Db("no db".to_string()).into_message(), "no db");
    assert_eq!(WorkerSetupError::Client("bad token".to_string()).into_message(), "bad token");
    assert_eq!(WorkerSetupError::Runtime("no runtime".to_string()).into_message(), "no runtime");
}
